//! The rules by which a policy is laid over a chain of certificates:
//! which entries of the chain a constraint applies to, how a constraint
//! for every element of an array is spelled out, and what a missing value
//! leads to. The entries themselves are read elsewhere; here they are
//! known only by what a lookup in them has found.

use vstd::prelude::*;

verus! {

/// Supported version of the form of a policy.
pub const SUPPORTED_DICE_POLICY_VERSION: u64 = 1;

/// The key in a path that stands for every position of an array. A path
/// holds at most one.
pub const WILDCARD_FULL_ARRAY: i64 = -1;

/// The number of a constraint that asks for the same value.
pub const EXACT_MATCH_CONSTRAINT: u16 = 1;

/// The number of a constraint that asks for a value at least as large.
pub const GREATER_OR_EQUAL_CONSTRAINT: u16 = 2;

/// How a value is constrained.
#[derive(Clone, Copy, Debug, PartialEq, Eq, Structural)]
pub enum ConstraintType {
    /// The value must be the same.
    ExactMatch,
    /// The value must be the same or larger.
    GreaterOrEqual,
}

impl ConstraintType {
    /// The number that stands for the type in a policy.
    pub open spec fn code_of(self) -> u16 {
        match self {
            ConstraintType::ExactMatch => EXACT_MATCH_CONSTRAINT,
            ConstraintType::GreaterOrEqual => GREATER_OR_EQUAL_CONSTRAINT,
        }
    }

    /// The number that stands for the type in a policy.
    pub fn code(self) -> (r: u16)
        ensures
            r == self.code_of(),
    {
        match self {
            ConstraintType::ExactMatch => EXACT_MATCH_CONSTRAINT,
            ConstraintType::GreaterOrEqual => GREATER_OR_EQUAL_CONSTRAINT,
        }
    }

    /// The type that a number stands for, if it stands for one.
    pub fn n(value: u16) -> (r: Option<Self>)
        ensures
            r matches Some(t) ==> t.code_of() == value,
            r is None ==> value != EXACT_MATCH_CONSTRAINT && value != GREATER_OR_EQUAL_CONSTRAINT,
    {
        if value == EXACT_MATCH_CONSTRAINT {
            Some(ConstraintType::ExactMatch)
        } else if value == GREATER_OR_EQUAL_CONSTRAINT {
            Some(ConstraintType::GreaterOrEqual)
        } else {
            None
        }
    }
}

/// Which entries of the chain a constraint applies to. The first two nodes
/// of a chain are no entries and are not counted.
#[derive(Clone, Copy, Debug, PartialEq, Eq, Structural)]
pub enum CertIndex {
    /// Every entry.
    All,
    /// The entry at this distance from the end; zero is the last entry.
    FromEnd(usize),
}

/// What to do when an entry has no value at the path of a constraint.
#[derive(Clone, Copy, Debug, PartialEq, Eq, Structural)]
pub enum MissingAction {
    /// The policy cannot be built.
    Fail,
    /// The constraint is left out for the entry.
    Ignore,
}

/// Why a policy cannot be built.
#[derive(Debug)]
pub enum Error {
    /// The path has no wildcard key.
    NoWildcard,
    /// No array was found where the wildcard stands.
    ArrayNotFound,
    /// The path of a constraint is empty.
    EmptyPath,
    /// An entry has no value at the path, and the constraint must not be
    /// left out.
    ValueNotFound(Vec<i64>),
}

/// What a lookup at a path in an entry has found.
#[derive(Clone, Copy, Debug, PartialEq, Eq, Structural)]
pub enum Found {
    /// No value.
    Nothing,
    /// A value that is no array.
    Value,
    /// An array of this length.
    Array(usize),
}

/// A constraint to be laid on entries: its type, the path of the value in
/// an entry, what to do where the value is missing, and the entries it
/// applies to.
#[derive(Debug)]
pub struct ConstraintSpec {
    constraint_type: ConstraintType,
    path: Vec<i64>,
    if_path_missing: MissingAction,
    target_entry: CertIndex,
}

/// Mathematical value of a [`ConstraintSpec`].
pub struct ConstraintSpecView {
    pub constraint_type: ConstraintType,
    pub path: Seq<i64>,
    pub if_path_missing: MissingAction,
    pub target_entry: CertIndex,
}

impl View for ConstraintSpec {
    type V = ConstraintSpecView;

    closed spec fn view(&self) -> ConstraintSpecView {
        ConstraintSpecView {
            constraint_type: self.constraint_type,
            path: self.path@,
            if_path_missing: self.if_path_missing,
            target_entry: self.target_entry,
        }
    }
}

/// A constraint of a policy, before the value it asks for is filled in.
#[derive(Debug)]
pub struct ConstraintShape {
    pub constraint_type: u16,
    pub path: Vec<i64>,
}

/// Whether a constraint applies to the entry at the distance from the end.
pub open spec fn targets(spec: ConstraintSpecView, node_pos_from_end: usize) -> bool {
    spec.target_entry == CertIndex::All || spec.target_entry == CertIndex::FromEnd(
        node_pos_from_end,
    )
}

/// The position of the first wildcard key of the path; the length of the
/// path if it has none.
pub open spec fn first_wildcard(path: Seq<i64>) -> int
    decreases path.len(),
{
    if path.len() == 0 || path[0] == WILDCARD_FULL_ARRAY {
        0
    } else {
        1 + first_wildcard(path.drop_first())
    }
}

/// A position before which the path has no wildcard key, and which holds
/// one or is the end, is the position of the first wildcard key.
pub proof fn lemma_first_wildcard_is(path: Seq<i64>, at: int)
    requires
        0 <= at <= path.len(),
        forall|j: int| 0 <= j < at ==> #[trigger] path[j] != WILDCARD_FULL_ARRAY,
        at < path.len() ==> path[at] == WILDCARD_FULL_ARRAY,
    ensures
        first_wildcard(path) == at,
        path.contains(WILDCARD_FULL_ARRAY) <==> at < path.len(),
    decreases path.len(),
{
    if path.len() > 0 && path[0] != WILDCARD_FULL_ARRAY {
        let rest = path.drop_first();
        assert forall|j: int| 0 <= j < at - 1 implies #[trigger] rest[j] != WILDCARD_FULL_ARRAY by {
            assert(rest[j] == path[j + 1]);
        }
        lemma_first_wildcard_is(rest, at - 1);
    }
    if at < path.len() {
        assert(path[at] == WILDCARD_FULL_ARRAY);
    }
}

/// The constraint with another key at one position of its path.
pub open spec fn with_key(spec: ConstraintSpecView, pos: int, key: i64) -> ConstraintSpecView {
    ConstraintSpecView { path: spec.path.update(pos, key), ..spec }
}

/// The position of the first wildcard key of the path; `NoWildcard` if it
/// has none.
pub fn wildcard_position(path: &[i64]) -> (r: Result<usize, Error>)
    ensures
        r is Ok <==> path@.contains(WILDCARD_FULL_ARRAY),
        r matches Ok(pos) ==> pos == first_wildcard(path@) && pos < path@.len() && path@[pos as int]
            == WILDCARD_FULL_ARRAY,
        r matches Err(e) ==> e is NoWildcard,
{
    let mut i: usize = 0;
    while i < path.len()
        invariant
            i <= path@.len(),
            forall|j: int| 0 <= j < i ==> #[trigger] path@[j] != WILDCARD_FULL_ARRAY,
        decreases path@.len() - i,
    {
        if path[i] == WILDCARD_FULL_ARRAY {
            proof {
                lemma_first_wildcard_is(path@, i as int);
            }
            return Ok(i);
        }
        i = i + 1;
    }
    proof {
        lemma_first_wildcard_is(path@, i as int);
    }
    Err(Error::NoWildcard)
}

/// The length of the array that a lookup has found; `ArrayNotFound` if it
/// has found anything else.
pub fn size_of_array_in_nested_container(found: Found) -> (r: Result<usize, Error>)
    ensures
        match found {
            Found::Array(len) => r matches Ok(n) && n == len,
            _ => r matches Err(e) && e is ArrayNotFound,
        },
{
    match found {
        Found::Array(len) => Ok(len),
        _ => Err(Error::ArrayNotFound),
    }
}

/// A copy of a path.
fn copy_path(path: &Vec<i64>) -> (r: Vec<i64>)
    ensures
        r@ == path@,
{
    vstd::slice::slice_to_vec(path.as_slice())
}

impl ConstraintSpec {
    /// A constraint of the type on the value at `path`, with what to do
    /// where the value is missing and the entries it applies to.
    pub fn new(
        constraint_type: ConstraintType,
        path: Vec<i64>,
        if_path_missing: MissingAction,
        target_entry: CertIndex,
    ) -> (r: Self)
        ensures
            r@ == (ConstraintSpecView {
                constraint_type,
                path: path@,
                if_path_missing,
                target_entry,
            }),
    {
        ConstraintSpec { constraint_type, path, if_path_missing, target_entry }
    }

    /// The path of the value.
    pub fn path(&self) -> (r: &Vec<i64>)
        ensures
            r@ == self@.path,
    {
        &self.path
    }

    /// Whether the path has a wildcard key.
    pub fn has_wildcard_entry(&self) -> (r: bool)
        ensures
            r == self@.path.contains(WILDCARD_FULL_ARRAY),
    {
        wildcard_position(self.path.as_slice()).is_ok()
    }

    /// A copy of the constraint.
    pub fn duplicate(&self) -> (r: Self)
        ensures
            r@ == self@,
    {
        ConstraintSpec {
            constraint_type: self.constraint_type,
            path: copy_path(&self.path),
            if_path_missing: self.if_path_missing,
            target_entry: self.target_entry,
        }
    }

    /// The path down to the wildcard key, which is the path of the array
    /// whose elements the constraint is for.
    pub fn array_path(&self) -> (r: Result<Vec<i64>, Error>)
        ensures
            r is Ok <==> self@.path.contains(WILDCARD_FULL_ARRAY),
            r matches Ok(prefix) ==> prefix@ == self@.path.subrange(0, first_wildcard(self@.path)),
            r matches Err(e) ==> e is NoWildcard,
    {
        match wildcard_position(self.path.as_slice()) {
            Ok(pos) => Ok(
                vstd::slice::slice_to_vec(vstd::slice::slice_subrange(self.path.as_slice(), 0, pos)),
            ),
            Err(e) => Err(e),
        }
    }

    /// The constraints that this one stands for in an entry: itself, if
    /// its path has no wildcard key; otherwise one for every position of
    /// the array that `found` describes, with the position in place of the
    /// wildcard key.
    pub fn expand(&self, found: Found) -> (r: Result<Vec<ConstraintSpec>, Error>)
        ensures
            !self@.path.contains(WILDCARD_FULL_ARRAY) ==> (r matches Ok(list) && list@.len() == 1
                && list@[0]@ == self@),
            self@.path.contains(WILDCARD_FULL_ARRAY) ==> match found {
                Found::Array(len) => if len <= i64::MAX {
                    &&& r matches Ok(list)
                    &&& list@.len() == len
                    &&& forall|i: int|
                        0 <= i < len ==> (#[trigger] list@[i])@ == with_key(
                            self@,
                            first_wildcard(self@.path),
                            i as i64,
                        )
                } else {
                    r matches Err(e) && e is ArrayNotFound
                },
                _ => r matches Err(e) && e is ArrayNotFound,
            },
    {
        if self.has_wildcard_entry() {
            expand_wildcard_entry(self, found)
        } else {
            let mut list: Vec<ConstraintSpec> = Vec::new();
            list.push(self.duplicate());
            Ok(list)
        }
    }
}

/// Whether the constraint applies to the entry at the distance from the
/// end of the chain.
pub fn is_target_node(node_pos_from_end: usize, spec: &ConstraintSpec) -> (r: bool)
    ensures
        r == targets(spec@, node_pos_from_end),
{
    match spec.target_entry {
        CertIndex::All => true,
        CertIndex::FromEnd(pos) => pos == node_pos_from_end,
    }
}

/// The constraint with `new_key` at position `pos` of its path.
pub fn replace_key(spec: &ConstraintSpec, pos: usize, new_key: i64) -> (r: ConstraintSpec)
    requires
        pos < spec@.path.len(),
    ensures
        r@ == with_key(spec@, pos as int, new_key),
{
    let mut copy = spec.duplicate();
    copy.path.set(pos, new_key);
    copy
}

/// The constraints that a constraint with a wildcard key stands for: one
/// for every position of the array that `found` describes.
pub fn expand_wildcard_entry(spec: &ConstraintSpec, found: Found) -> (r: Result<
    Vec<ConstraintSpec>,
    Error,
>)
    ensures
        match found {
            Found::Array(len) => if spec@.path.contains(WILDCARD_FULL_ARRAY) && len <= i64::MAX {
                &&& r matches Ok(list)
                &&& list@.len() == len
                &&& forall|i: int|
                    0 <= i < len ==> (#[trigger] list@[i])@ == with_key(
                        spec@,
                        first_wildcard(spec@.path),
                        i as i64,
                    )
            } else {
                r matches Err(e) && if spec@.path.contains(WILDCARD_FULL_ARRAY) {
                    e is ArrayNotFound
                } else {
                    e is NoWildcard
                }
            },
            _ => r matches Err(e) && if spec@.path.contains(WILDCARD_FULL_ARRAY) {
                e is ArrayNotFound
            } else {
                e is NoWildcard
            },
        },
{
    let pos = match wildcard_position(spec.path.as_slice()) {
        Ok(pos) => pos,
        Err(e) => {
            return Err(e);
        },
    };
    let size = match size_of_array_in_nested_container(found) {
        Ok(size) => size,
        Err(e) => {
            return Err(e);
        },
    };
    if size as u64 > 0x7fff_ffff_ffff_ffffu64 {
        return Err(Error::ArrayNotFound);
    }
    let mut list: Vec<ConstraintSpec> = Vec::new();
    let mut i: usize = 0;
    while i < size
        invariant
            i <= size <= i64::MAX,
            pos == first_wildcard(spec@.path),
            pos < spec@.path.len(),
            list@.len() == i,
            forall|k: int|
                0 <= k < i ==> (#[trigger] list@[k])@ == with_key(spec@, pos as int, k as i64),
        decreases size - i,
    {
        list.push(replace_key(spec, pos, i as i64));
        i = i + 1;
    }
    Ok(list)
}

/// What a constraint leads to in an entry, given whether the entry has a
/// value at its path: a constraint of the policy, nothing, or a failure.
pub open spec fn decided(spec: ConstraintSpecView, found: bool) -> Result<
    Option<(u16, Seq<i64>)>,
    (),
> {
    if spec.path.len() == 0 {
        Err(())
    } else if found {
        Ok(Some((spec.constraint_type.code_of(), spec.path)))
    } else if spec.if_path_missing == MissingAction::Ignore {
        Ok(None)
    } else {
        Err(())
    }
}

/// What a constraint leads to in an entry. `found` says whether the entry
/// has a value at the path of the constraint. A constraint with an empty
/// path is `EmptyPath`; a value that is missing and must not be is
/// `ValueNotFound`, with the path.
pub fn constraint_on_dice_node(found: bool, constraint_spec: &ConstraintSpec) -> (r: Result<
    Option<ConstraintShape>,
    Error,
>)
    ensures
        match decided(constraint_spec@, found) {
            Ok(Some(shape)) => r matches Ok(Some(c)) && c.constraint_type == shape.0 && c.path@
                == shape.1,
            Ok(None) => r matches Ok(None),
            Err(_) => r matches Err(e) && if constraint_spec@.path.len() == 0 {
                e is EmptyPath
            } else {
                e matches Error::ValueNotFound(p) && p@ == constraint_spec@.path
            },
        },
{
    if constraint_spec.path.len() == 0 {
        return Err(Error::EmptyPath);
    }
    if found {
        Ok(
            Some(
                ConstraintShape {
                    constraint_type: constraint_spec.constraint_type.code(),
                    path: copy_path(&constraint_spec.path),
                },
            ),
        )
    } else {
        match constraint_spec.if_path_missing {
            MissingAction::Ignore => Ok(None),
            MissingAction::Fail => Err(Error::ValueNotFound(copy_path(&constraint_spec.path))),
        }
    }
}

/// The constraints of `specs` that apply to the entry at the distance from
/// the end, in their order.
pub open spec fn selected(specs: Seq<ConstraintSpecView>, pos_from_end: usize) -> Seq<
    ConstraintSpecView,
> {
    specs.filter(|s: ConstraintSpecView| targets(s, pos_from_end))
}

/// The views of a list of constraints.
pub open spec fn spec_views(specs: Seq<ConstraintSpec>) -> Seq<ConstraintSpecView> {
    specs.map_values(|s: ConstraintSpec| s@)
}

/// The constraints that apply to the entry at the distance from the end of
/// the chain, in their order.
pub fn constraints_on_dice_node(constraint_spec: &[ConstraintSpec], pos_from_end: usize) -> (r: Vec<
    ConstraintSpec,
>)
    ensures
        spec_views(r@) == selected(spec_views(constraint_spec@), pos_from_end),
{
    let mut out: Vec<ConstraintSpec> = Vec::new();
    let mut i: usize = 0;
    let ghost all = spec_views(constraint_spec@);
    proof {
        reveal_with_fuel(Seq::filter, 2);
        assert(all.subrange(0, 0) =~= Seq::<ConstraintSpecView>::empty());
        assert(spec_views(out@) =~= selected(all.subrange(0, 0), pos_from_end));
    }
    while i < constraint_spec.len()
        invariant
            i <= constraint_spec@.len(),
            all == spec_views(constraint_spec@),
            spec_views(out@) == selected(all.subrange(0, i as int), pos_from_end),
        decreases constraint_spec@.len() - i,
    {
        let ghost before = spec_views(out@);
        proof {
            let pred = |s: ConstraintSpecView| targets(s, pos_from_end);
            let head = all.subrange(0, i as int);
            let next = all.subrange(0, i + 1);
            assert(next.drop_last() =~= head);
            assert(next.last() == all[i as int]);
            reveal_with_fuel(Seq::filter, 2);
            assert(next.filter(pred) == if pred(all[i as int]) {
                head.filter(pred).push(all[i as int])
            } else {
                head.filter(pred)
            });
        }
        if is_target_node(pos_from_end, &constraint_spec[i]) {
            out.push(constraint_spec[i].duplicate());
            assert(spec_views(out@) =~= before.push(all[i as int]));
        }
        i = i + 1;
    }
    assert(all.subrange(0, i as int) =~= all);
    out
}

/// The distance from the end of the chain of the entry at position
/// `index` among `chain_entries_len` entries.
pub fn node_pos_from_end(chain_entries_len: usize, index: usize) -> (r: usize)
    requires
        index < chain_entries_len,
    ensures
        r == chain_entries_len - index - 1,
{
    chain_entries_len - index - 1
}

} // verus!
