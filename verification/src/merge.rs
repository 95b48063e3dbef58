//! What the derivation of a merge operation for a struct decides: which
//! fields take part, and how each of them is merged. The fields are known
//! here by their names and by the attributes written on them; reading them
//! from source text and writing the operation out as source text is done
//! elsewhere.

use vstd::prelude::*;
use vstd::string::*;

verus! {

/// One attribute of a field.
#[derive(Debug, PartialEq, Eq)]
pub enum FieldAttr {
    /// The field takes no part in the merge.
    Skip,
    /// The field is merged by the function at this path.
    Strategy(String),
}

/// The attributes of a field, taken together.
#[derive(Debug, PartialEq, Eq)]
pub struct FieldAttrs {
    pub skip: bool,
    pub strategy: Option<String>,
}

/// The name of a field.
#[derive(Debug, PartialEq, Eq)]
pub enum Member {
    /// A field with a name.
    Named(String),
    /// A field of a tuple struct, by its position.
    Unnamed(usize),
}

/// A field of the struct.
#[derive(Debug, PartialEq, Eq)]
pub struct Field {
    pub name: Member,
    pub attrs: FieldAttrs,
}

/// How a field is merged.
#[derive(Debug, PartialEq, Eq)]
pub enum Assignment {
    /// By the function at `strategy`.
    WithStrategy { strategy: String, member: Member },
    /// By the merge operation of the type of the field.
    WithMerge { member: Member },
}

/// Why the operation cannot be derived.
#[derive(Debug, PartialEq, Eq)]
pub enum Error {
    /// The item is no struct.
    NotAStruct,
    /// A field has an attribute that is not known, with this name.
    UnexpectedAttribute(String),
    /// The attribute that names a strategy has no path.
    MissingStrategy,
}

/// What the attributes of a field are after one more attribute: `skip`
/// leaves the field out, a strategy replaces the strategy.
pub open spec fn applied(skip: bool, strategy: Option<Seq<char>>, attr: FieldAttr) -> (
    bool,
    Option<Seq<char>>,
) {
    match attr {
        FieldAttr::Skip => (true, strategy),
        FieldAttr::Strategy(path) => (skip, Some(path@)),
    }
}

/// What the attributes of a field are after a run of attributes, in order.
pub open spec fn applied_all(attrs: Seq<FieldAttr>) -> (bool, Option<Seq<char>>)
    decreases attrs.len(),
{
    if attrs.len() == 0 {
        (false, None)
    } else {
        let before = applied_all(attrs.drop_last());
        applied(before.0, before.1, attrs.last())
    }
}

/// The view of the strategy of a field.
pub open spec fn strategy_view(strategy: Option<String>) -> Option<Seq<char>> {
    match strategy {
        Some(path) => Some(path@),
        None => None,
    }
}

impl FieldAttr {
    /// The attribute with the name `name` and, after an equals sign, the
    /// path `value`: `skip` is [`FieldAttr::Skip`], whatever follows it;
    /// `strategy` with a path is [`FieldAttr::Strategy`]; `strategy`
    /// without one is `MissingStrategy`; any other name is
    /// `UnexpectedAttribute`.
    pub fn parse(name: &str, value: Option<&str>) -> (r: Result<FieldAttr, Error>)
        ensures
            name@ == "skip"@ ==> r matches Ok(FieldAttr::Skip),
            name@ == "strategy"@ ==> match value {
                Some(path) => r matches Ok(FieldAttr::Strategy(p)) && p@ == path@,
                None => r matches Err(Error::MissingStrategy),
            },
            name@ != "skip"@ && name@ != "strategy"@ ==> (r matches Err(
                Error::UnexpectedAttribute(n),
            ) && n@ == name@),
    {
        proof {
            reveal_strlit("skip");
            reveal_strlit("strategy");
            assert("skip"@.len() == 4 && "strategy"@.len() == 8);
        }
        let owned = name.to_owned();
        if owned == String::from_str("skip") {
            Ok(FieldAttr::Skip)
        } else if owned == String::from_str("strategy") {
            match value {
                Some(path) => Ok(FieldAttr::Strategy(path.to_owned())),
                None => Err(Error::MissingStrategy),
            }
        } else {
            Err(Error::UnexpectedAttribute(owned))
        }
    }
}

impl FieldAttrs {
    /// The attributes of a field on which `attrs` are written, in order.
    pub fn new(attrs: Vec<FieldAttr>) -> (r: Self)
        ensures
            (r.skip, strategy_view(r.strategy)) == applied_all(attrs@),
    {
        let mut field_attrs = FieldAttrs { skip: false, strategy: None };
        let mut attrs = attrs;
        let ghost all = attrs@;
        let count = attrs.len();
        let mut i: usize = 0;
        assert(all.subrange(0, 0) =~= Seq::<FieldAttr>::empty());
        while i < count
            invariant
                i <= count,
                count == all.len(),
                attrs@.len() == count,
                forall|k: int| i <= k < count ==> attrs@[k] == all[k],
                (field_attrs.skip, strategy_view(field_attrs.strategy)) == applied_all(
                    all.subrange(0, i as int),
                ),
            decreases count - i,
        {
            let mut attr = FieldAttr::Skip;
            std::mem::swap(&mut attr, &mut attrs[i]);
            proof {
                assert(all.subrange(0, i + 1).drop_last() =~= all.subrange(0, i as int));
                assert(all.subrange(0, i + 1).last() == all[i as int]);
            }
            field_attrs.apply(attr);
            i = i + 1;
        }
        assert(all.subrange(0, count as int) =~= all);
        field_attrs
    }

    /// Takes one more attribute into account.
    pub fn apply(&mut self, attr: FieldAttr)
        ensures
            (final(self).skip, strategy_view(final(self).strategy)) == applied(
                old(self).skip,
                strategy_view(old(self).strategy),
                attr,
            ),
    {
        match attr {
            FieldAttr::Skip => {
                self.skip = true;
            },
            FieldAttr::Strategy(path) => {
                self.strategy = Some(path);
            },
        }
    }
}

impl Field {
    /// The field at position `index` of the struct, with its name, if it
    /// has one, and the attributes written on it.
    pub fn try_from(index: usize, ident: Option<String>, attrs: Vec<FieldAttr>) -> (r: Result<
        Field,
        Error,
    >)
        ensures
            r matches Ok(field) && field.name == match ident {
                Some(name) => Member::Named(name),
                None => Member::Unnamed(index),
            } && (field.attrs.skip, strategy_view(field.attrs.strategy)) == applied_all(attrs@),
    {
        let name = match ident {
            Some(name) => Member::Named(name),
            None => Member::Unnamed(index),
        };
        Ok(Field { name, attrs: FieldAttrs::new(attrs) })
    }
}

/// A copy of the name of a field.
fn copy_member(member: &Member) -> (r: Member)
    ensures
        r == *member,
{
    match member {
        Member::Named(name) => Member::Named(name.clone()),
        Member::Unnamed(index) => Member::Unnamed(*index),
    }
}

/// How a field is merged: by its strategy, if it has one, otherwise by
/// the merge operation of its type.
pub open spec fn assignment_of(field: Field) -> Assignment {
    match field.attrs.strategy {
        Some(strategy) => Assignment::WithStrategy { strategy, member: field.name },
        None => Assignment::WithMerge { member: field.name },
    }
}

/// How a field is merged.
pub fn gen_assignment(field: &Field) -> (r: Assignment)
    ensures
        r == assignment_of(*field),
{
    match &field.attrs.strategy {
        Some(strategy) => Assignment::WithStrategy {
            strategy: strategy.clone(),
            member: copy_member(&field.name),
        },
        None => Assignment::WithMerge { member: copy_member(&field.name) },
    }
}

/// The assignments of the fields that take part in the merge, in the
/// order of the fields.
pub open spec fn assignments_of(fields: Seq<Field>) -> Seq<Assignment> {
    fields.filter(|f: Field| !f.attrs.skip).map_values(|f: Field| assignment_of(f))
}

/// The assignments of the fields that take part in the merge, in the
/// order of the fields.
pub fn gen_assignments(fields: &Vec<Field>) -> (r: Vec<Assignment>)
    ensures
        r@ == assignments_of(fields@),
{
    let mut out: Vec<Assignment> = Vec::new();
    let mut i: usize = 0;
    proof {
        reveal_with_fuel(Seq::filter, 2);
        assert(fields@.subrange(0, 0) =~= Seq::<Field>::empty());
        assert(out@ =~= assignments_of(fields@.subrange(0, 0)));
    }
    while i < fields.len()
        invariant
            i <= fields@.len(),
            out@ == assignments_of(fields@.subrange(0, i as int)),
        decreases fields@.len() - i,
    {
        let ghost before = out@;
        proof {
            let pred = |f: Field| !f.attrs.skip;
            let head = fields@.subrange(0, i as int);
            let next = fields@.subrange(0, i + 1);
            assert(next.drop_last() =~= head);
            assert(next.last() == fields@[i as int]);
            reveal_with_fuel(Seq::filter, 2);
            assert(next.filter(pred) == if pred(fields@[i as int]) {
                head.filter(pred).push(fields@[i as int])
            } else {
                head.filter(pred)
            });
        }
        if !fields[i].attrs.skip {
            out.push(gen_assignment(&fields[i]));
            assert(out@ =~= assignments_of(fields@.subrange(0, i + 1)));
        }
        i = i + 1;
    }
    assert(fields@.subrange(0, i as int) =~= fields@);
    out
}

/// The assignments of the merge operation of an item: those of its fields,
/// if it is a struct; `NotAStruct` otherwise.
pub fn impl_merge(fields: Option<&Vec<Field>>) -> (r: Result<Vec<Assignment>, Error>)
    ensures
        match fields {
            Some(fields) => r matches Ok(list) && list@ == assignments_of(fields@),
            None => r matches Err(Error::NotAStruct),
        },
{
    match fields {
        Some(fields) => Ok(gen_assignments(fields)),
        None => Err(Error::NotAStruct),
    }
}

} // verus!
