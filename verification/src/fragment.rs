//! Splitting a long message into bounded fragments and putting the
//! fragments together again.
//!
//! A fragment is one marker byte followed by a piece of the message. The
//! marker says whether more fragments follow or this one is the last.

use crate::error::TipcError;
use crate::handle::message_views;
use vstd::prelude::*;

verus! {

/// Marker of a fragment that is followed by more.
pub const PREFIX_MORE_TO_COME: u8 = 0xcc;

/// Marker of the last fragment of a message.
pub const PREFIX_FINAL_FRAGMENT: u8 = 0xdd;

/// The answer to a fragment that was not the last: the marker alone, which
/// asks the peer to go on sending.
pub fn placeholder_more_to_come() -> (r: Vec<u8>)
    ensures
        r@ == seq![PREFIX_MORE_TO_COME],
{
    let mut r: Vec<u8> = Vec::new();
    r.push(PREFIX_MORE_TO_COME);
    assert(r@ =~= seq![PREFIX_MORE_TO_COME]);
    r
}

/// Number of message bytes in the first fragment of `len` remaining bytes.
pub open spec fn first_take(len: nat, max_size: nat) -> nat {
    if len < max_size - 1 {
        len
    } else {
        (max_size - 1) as nat
    }
}

/// The fragments of `data`, none longer than `max_size`, in the order in
/// which they are sent. An empty message has no fragments.
pub open spec fn fragmented(data: Seq<u8>, max_size: nat) -> Seq<Seq<u8>>
    decreases data.len(),
{
    if data.len() == 0 || max_size < 2 {
        Seq::empty()
    } else {
        let take = first_take(data.len(), max_size);
        let marker = if take < data.len() {
            PREFIX_MORE_TO_COME
        } else {
            PREFIX_FINAL_FRAGMENT
        };
        seq![seq![marker] + data.subrange(0, take as int)] + fragmented(
            data.subrange(take as int, data.len() as int),
            max_size,
        )
    }
}

/// A fragment is empty or starts with one of the two markers.
pub open spec fn fragment_is_valid(frag: Seq<u8>) -> bool {
    frag.len() == 0 || frag[0] == PREFIX_MORE_TO_COME || frag[0] == PREFIX_FINAL_FRAGMENT
}

/// The fragment announces more fragments.
pub open spec fn fragment_has_more(frag: Seq<u8>) -> bool {
    frag.len() > 0 && frag[0] == PREFIX_MORE_TO_COME
}

/// The piece of the message that the fragment carries.
pub open spec fn fragment_content(frag: Seq<u8>) -> Seq<u8> {
    if frag.len() == 0 {
        frag
    } else {
        frag.subrange(1, frag.len() as int)
    }
}

/// What one fragment does to the bytes gathered so far: the answer, and the
/// bytes gathered afterwards.
pub open spec fn accumulate_step(pending: Seq<u8>, limit: nat, frag: Seq<u8>) -> (
    Result<Option<Seq<u8>>, TipcError>,
    Seq<u8>,
) {
    if !fragment_is_valid(frag) {
        (Err(TipcError::InvalidData), pending)
    } else if pending.len() + fragment_content(frag).len() > limit {
        (Err(TipcError::InvalidData), pending)
    } else if fragment_has_more(frag) {
        (Ok(None), pending + fragment_content(frag))
    } else {
        (Ok(Some(pending + fragment_content(frag))), Seq::empty())
    }
}

/// The answers to a run of fragments fed in order, starting from `pending`.
pub open spec fn feed(pending: Seq<u8>, limit: nat, frags: Seq<Seq<u8>>) -> Seq<
    Result<Option<Seq<u8>>, TipcError>,
>
    decreases frags.len(),
{
    if frags.len() == 0 {
        Seq::empty()
    } else {
        let step = accumulate_step(pending, limit, frags[0]);
        seq![step.0] + feed(step.1, limit, frags.drop_first())
    }
}

/// The answers that a receiver owes to `count` fragments of one message:
/// nothing for each but the last, the whole message for the last.
pub open spec fn answers(count: nat, message: Seq<u8>) -> Seq<Result<Option<Seq<u8>>, TipcError>> {
    Seq::new(
        count,
        |k: int|
            if k == count - 1 {
                Ok(Some(message))
            } else {
                Ok(None)
            },
    )
}

/// The view of an answer of [`Reassembler::accumulate`].
pub open spec fn answer_view(r: Result<Option<Vec<u8>>, TipcError>) -> Result<
    Option<Seq<u8>>,
    TipcError,
> {
    match r {
        Ok(Some(v)) => Ok(Some(v@)),
        Ok(None) => Ok(None),
        Err(e) => Err(e),
    }
}

/// Cuts a message into fragments, one at a time.
pub struct Fragmenter<'a> {
    data: &'a [u8],
    pos: usize,
    max_size: usize,
}

impl<'a> Fragmenter<'a> {
    /// The part of the message that is not yet in a fragment.
    pub closed spec fn remaining(&self) -> Seq<u8> {
        self.data@.subrange(self.pos as int, self.data@.len() as int)
    }

    /// The largest fragment that is produced.
    pub closed spec fn max_size(&self) -> nat {
        self.max_size as nat
    }

    /// The fragmenter is in a state that `new` and `next` produce.
    pub closed spec fn wf(&self) -> bool {
        self.pos <= self.data@.len() && self.max_size >= 2
    }

    /// A fragmenter for `data` whose fragments have at most `max_size`
    /// bytes, marker included.
    pub fn new(data: &'a [u8], max_size: usize) -> (r: Fragmenter<'a>)
        requires
            max_size > 1,
        ensures
            r.wf(),
            r.remaining() == data@,
            r.max_size() == max_size,
    {
        let r = Fragmenter { data, pos: 0, max_size };
        assert(r.remaining() =~= data@);
        r
    }

    /// The next fragment, or `None` when the whole message has been handed
    /// out.
    pub fn next(&mut self) -> (r: Option<Vec<u8>>)
        requires
            old(self).wf(),
        ensures
            final(self).wf(),
            final(self).max_size() == old(self).max_size(),
            r is None <==> old(self).remaining().len() == 0,
            r is None ==> final(self).remaining() == old(self).remaining(),
            r matches Some(frag) ==> {
                &&& frag@ == fragmented(old(self).remaining(), old(self).max_size())[0]
                &&& fragmented(old(self).remaining(), old(self).max_size()) == seq![frag@]
                    + fragmented(final(self).remaining(), old(self).max_size())
                &&& final(self).remaining().len() < old(self).remaining().len()
                &&& frag@.len() <= old(self).max_size()
            },
    {
        let len = self.data.len();
        if self.pos >= len {
            return None;
        }
        let rest = len - self.pos;
        let take = if rest < self.max_size - 1 {
            rest
        } else {
            self.max_size - 1
        };
        let marker = if take < rest {
            PREFIX_MORE_TO_COME
        } else {
            PREFIX_FINAL_FRAGMENT
        };
        let mut frag: Vec<u8> = Vec::new();
        frag.push(marker);
        let piece = vstd::slice::slice_subrange(self.data, self.pos, self.pos + take);
        frag.extend_from_slice(piece);
        let ghost before = self.remaining();
        self.pos = self.pos + take;
        proof {
            assert(piece@ =~= before.subrange(0, take as int));
            assert(self.remaining() =~= before.subrange(take as int, before.len() as int));
            assert(frag@ =~= seq![marker] + before.subrange(0, take as int));
        }
        Some(frag)
    }
}

/// All fragments of `data`, in the order in which they are sent.
pub fn fragments(data: &[u8], max_size: usize) -> (r: Vec<Vec<u8>>)
    requires
        max_size > 1,
    ensures
        message_views(r@) == fragmented(data@, max_size as nat),
        forall|k: int| 0 <= k < r@.len() ==> (#[trigger] r@[k])@.len() <= max_size,
{
    let mut fragmenter = Fragmenter::new(data, max_size);
    let mut out: Vec<Vec<u8>> = Vec::new();
    assert(message_views(out@) =~= Seq::<Seq<u8>>::empty());
    loop
        invariant
            fragmenter.wf(),
            fragmenter.max_size() == max_size,
            message_views(out@) + fragmented(fragmenter.remaining(), max_size as nat) == fragmented(
                data@,
                max_size as nat,
            ),
            forall|k: int| 0 <= k < out@.len() ==> (#[trigger] out@[k])@.len() <= max_size,
        ensures
            message_views(out@) == fragmented(data@, max_size as nat),
            forall|k: int| 0 <= k < out@.len() ==> (#[trigger] out@[k])@.len() <= max_size,
        decreases fragmenter.remaining().len(),
    {
        let ghost done = message_views(out@);
        let ghost left = fragmented(fragmenter.remaining(), max_size as nat);
        match fragmenter.next() {
            Some(frag) => {
                let ghost piece = frag@;
                out.push(frag);
                proof {
                    assert(message_views(out@) =~= done.push(piece));
                    assert(done.push(piece) + fragmented(fragmenter.remaining(), max_size as nat)
                        =~= done + left);
                }
            },
            None => {
                proof {
                    assert(left =~= Seq::<Seq<u8>>::empty());
                    assert(done + left =~= done);
                }
                break ;
            },
        }
    }
    out
}

/// Gathers the fragments of one message at a time.
pub struct Reassembler {
    pending: Vec<u8>,
    limit: usize,
}

impl Reassembler {
    /// The bytes gathered so far for a message whose last fragment has not
    /// arrived.
    pub closed spec fn pending(&self) -> Seq<u8> {
        self.pending@
    }

    /// The longest message that is put together.
    pub closed spec fn limit(&self) -> nat {
        self.limit as nat
    }

    /// A reassembler that holds nothing and puts together messages of any
    /// length.
    pub fn new() -> (r: Self)
        ensures
            r.pending() == Seq::<u8>::empty(),
            r.limit() == usize::MAX,
    {
        Reassembler { pending: Vec::new(), limit: usize::MAX }
    }

    /// A reassembler that holds nothing and refuses to gather more than
    /// `limit` bytes for one message.
    pub fn with_limit(limit: usize) -> (r: Self)
        ensures
            r.pending() == Seq::<u8>::empty(),
            r.limit() == limit,
    {
        Reassembler { pending: Vec::new(), limit }
    }

    /// Takes one fragment. A fragment that announces more gives `Ok(None)`
    /// and its content is kept; the last fragment gives the whole message
    /// and leaves the reassembler empty. A fragment with an unknown marker,
    /// or one that would make the message longer than the limit, gives
    /// `InvalidData` and changes nothing.
    pub fn accumulate(&mut self, frag: &[u8]) -> (r: Result<Option<Vec<u8>>, TipcError>)
        ensures
            final(self).limit() == old(self).limit(),
            (answer_view(r), final(self).pending()) == accumulate_step(
                old(self).pending(),
                old(self).limit(),
                frag@,
            ),
    {
        let len = frag.len();
        let mut more = false;
        let mut content = frag;
        if len > 0 {
            let marker = frag[0];
            if marker != PREFIX_MORE_TO_COME && marker != PREFIX_FINAL_FRAGMENT {
                return Err(TipcError::InvalidData);
            }
            more = marker == PREFIX_MORE_TO_COME;
            content = vstd::slice::slice_subrange(frag, 1, len);
        }
        assert(content@ =~= fragment_content(frag@));
        if content.len() > self.limit || self.pending.len() > self.limit - content.len() {
            return Err(TipcError::InvalidData);
        }
        if more {
            self.pending.extend_from_slice(content);
            assert(final(self).pending() =~= old(self).pending() + fragment_content(frag@));
            Ok(None)
        } else {
            let mut whole: Vec<u8> = Vec::new();
            std::mem::swap(&mut whole, &mut self.pending);
            whole.extend_from_slice(content);
            assert(whole@ =~= old(self).pending() + fragment_content(frag@));
            assert(final(self).pending() =~= Seq::<u8>::empty());
            Ok(Some(whole))
        }
    }
}

/// Every fragment is valid and no longer than `max_size`; all but the last
/// announce more.
pub proof fn lemma_fragments_shape(data: Seq<u8>, max_size: nat)
    requires
        max_size >= 2,
    ensures
        data.len() > 0 ==> fragmented(data, max_size).len() >= 1,
        forall|k: int|
            0 <= k < fragmented(data, max_size).len() ==> {
                let frag = #[trigger] fragmented(data, max_size)[k];
                &&& 1 <= frag.len() <= max_size
                &&& fragment_is_valid(frag)
                &&& fragment_has_more(frag) <==> k < fragmented(data, max_size).len() - 1
            },
    decreases data.len(),
{
    if data.len() > 0 {
        let take = first_take(data.len(), max_size);
        let rest = data.subrange(take as int, data.len() as int);
        lemma_fragments_shape(rest, max_size);
        let all = fragmented(data, max_size);
        let tail = fragmented(rest, max_size);
        assert forall|k: int| 0 <= k < all.len() implies {
            let frag = #[trigger] all[k];
            &&& 1 <= frag.len() <= max_size
            &&& fragment_is_valid(frag)
            &&& fragment_has_more(frag) <==> k < all.len() - 1
        } by {
            if k > 0 {
                assert(all[k] == tail[k - 1]);
            }
        }
    }
}

/// Fed in order to a receiver that holds `pending`, the fragments of a
/// message give nothing until the last one, which gives `pending` followed
/// by the message.
pub proof fn lemma_feed_fragments(pending: Seq<u8>, data: Seq<u8>, max_size: nat, limit: nat)
    requires
        max_size >= 2,
        data.len() > 0,
        pending.len() + data.len() <= limit,
    ensures
        feed(pending, limit, fragmented(data, max_size)) == answers(
            fragmented(data, max_size).len(),
            pending + data,
        ),
    decreases data.len(),
{
    let frags = fragmented(data, max_size);
    let take = first_take(data.len(), max_size);
    let head = data.subrange(0, take as int);
    let rest = data.subrange(take as int, data.len() as int);
    let first = frags[0];
    assert(fragment_content(first) =~= head);
    assert(frags.drop_first() =~= fragmented(rest, max_size));
    let step = accumulate_step(pending, limit, first);
    if take < data.len() {
        assert(step.1 =~= pending + head);
        lemma_feed_fragments(pending + head, rest, max_size, limit);
        assert(pending + head + rest =~= pending + data);
        lemma_fragments_shape(rest, max_size);
        assert(feed(pending, limit, frags) =~= answers(frags.len(), pending + data));
    } else {
        assert(head =~= data);
        assert(fragmented(rest, max_size) =~= Seq::<Seq<u8>>::empty());
        assert(feed(step.1, limit, frags.drop_first()) =~= Seq::empty());
        assert(feed(pending, limit, frags) =~= answers(frags.len(), pending + data));
    }
}

/// Round trip of fragmentation: the fragments of a message, fed in order to
/// an empty receiver whose limit admits the message, give nothing for every
/// fragment but the last and exactly the message for the last.
pub proof fn lemma_fragment_roundtrip(data: Seq<u8>, max_size: nat, limit: nat)
    requires
        max_size >= 2,
        data.len() > 0,
        data.len() <= limit,
    ensures
        fragmented(data, max_size).len() >= 1,
        feed(Seq::empty(), limit, fragmented(data, max_size)) == answers(
            fragmented(data, max_size).len(),
            data,
        ),
{
    lemma_fragments_shape(data, max_size);
    lemma_feed_fragments(Seq::empty(), data, max_size, limit);
    assert(Seq::<u8>::empty() + data =~= data);
}

} // verus!
