//! Putting the bytes of one direction of a connection back into order.

use vstd::prelude::*;
use vstd::slice::{slice_subrange, slice_to_vec};

verus! {

/// A run of bytes that arrived ahead of its turn.
struct Segment {
    /// offset of the first byte
    start: u128,
    /// the bytes
    bytes: Vec<u8>,
}

impl Segment {
    /// Whether the byte at offset `pos` is part of this run.
    spec fn has(self, pos: int) -> bool {
        self.start <= pos < self.start + self.bytes@.len()
    }
}

/// The byte that the first of `segments` to hold offset `pos` has there.
spec fn first_byte(segments: Seq<Segment>, pos: int) -> Option<u8>
    decreases segments.len(),
{
    if segments.len() == 0 {
        None
    } else if segments[0].has(pos) {
        Some(segments[0].bytes@[pos - segments[0].start])
    } else {
        first_byte(segments.drop_first(), pos)
    }
}

/// An offset that lies behind every one of `segments`.
spec fn end_of_all(segments: Seq<Segment>) -> int
    decreases segments.len(),
{
    if segments.len() == 0 {
        0
    } else {
        let end = segments[0].start + segments[0].bytes@.len();
        let rest = end_of_all(segments.drop_first());
        if end > rest {
            end
        } else {
            rest
        }
    }
}

proof fn lemma_first_byte_before_end(segments: Seq<Segment>, pos: int)
    requires
        first_byte(segments, pos) is Some,
    ensures
        pos < end_of_all(segments),
    decreases segments.len(),
{
    if !segments[0].has(pos) {
        lemma_first_byte_before_end(segments.drop_first(), pos);
    }
}

/// A run at the end of the list only shows where no earlier run does.
proof fn lemma_first_byte_push(segments: Seq<Segment>, last: Segment, pos: int)
    ensures
        first_byte(segments.push(last), pos) == match first_byte(segments, pos) {
            Some(byte) => Some(byte),
            None => if last.has(pos) {
                Some(last.bytes@[pos - last.start])
            } else {
                None
            },
        },
    decreases segments.len(),
{
    if segments.len() == 0 {
        reveal_with_fuel(first_byte, 2);
        assert(segments.push(last).drop_first() =~= Seq::<Segment>::empty());
    } else {
        assert(segments.push(last).drop_first() =~= segments.drop_first().push(last));
        lemma_first_byte_push(segments.drop_first(), last, pos);
    }
}

/// A run that does not hold an offset can go without a trace there.
proof fn lemma_first_byte_remove(segments: Seq<Segment>, i: int, pos: int)
    requires
        0 <= i < segments.len(),
        !segments[i].has(pos),
    ensures
        first_byte(segments.remove(i), pos) == first_byte(segments, pos),
    decreases segments.len(),
{
    if i == 0 {
        assert(segments.remove(0) =~= segments.drop_first());
    } else {
        assert(segments.remove(i).drop_first() =~= segments.drop_first().remove(i - 1));
        lemma_first_byte_remove(segments.drop_first(), i - 1, pos);
    }
}

/// Whether exactly the first `len` offsets are in `received` without a gap.
pub open spec fn is_prefix_length(received: Map<int, u8>, len: nat) -> bool {
    &&& forall|pos: int| 0 <= pos < len ==> #[trigger] received.contains_key(pos)
    &&& !received.contains_key(len as int)
}

/// How many bytes of `received` can be read from offset zero up to the first gap.
pub open spec fn prefix_length(received: Map<int, u8>) -> nat {
    choose|len: nat| is_prefix_length(received, len)
}

/// There is only one length up to the first gap.
pub proof fn lemma_prefix_length(received: Map<int, u8>, len: nat)
    requires
        is_prefix_length(received, len),
    ensures
        prefix_length(received) == len,
{
    let chosen = prefix_length(received);
    assert(is_prefix_length(received, chosen));
    if chosen < len {
        assert(received.contains_key(chosen as int));
    } else if len < chosen {
        assert(received.contains_key(len as int));
    }
}

/// `received` once the bytes `data` have come in at offset `start`: they fill
/// what was missing, and what was already there stays as it was. Nothing exists
/// before offset zero.
pub open spec fn filled(received: Map<int, u8>, start: int, data: Seq<u8>) -> Map<int, u8> {
    Map::new(
        |pos: int|
            received.contains_key(pos) || (0 <= pos && start <= pos < start + data.len()),
        |pos: int|
            if received.contains_key(pos) {
                received[pos]
            } else {
                data[pos - start]
            },
    )
}

/// Whether the bytes `data` at offset `start` hold one that is not in `received`.
pub open spec fn fills_a_gap(received: Map<int, u8>, start: int, data: Seq<u8>) -> bool {
    exists|pos: int|
        0 <= pos && start <= pos < start + data.len() && !#[trigger] received.contains_key(pos)
}

/// Collects the bytes of one direction, in whichever order they arrive.
pub struct Reassembler {
    /// the bytes up to the first gap
    readable: Vec<u8>,
    /// runs of bytes behind the first gap, in the order in which they arrived
    pending: Vec<Segment>,
}

impl View for Reassembler {
    type V = Map<int, u8>;

    /// The bytes received so far, by their offset.
    closed spec fn view(&self) -> Map<int, u8> {
        held(self.readable@, self.pending@)
    }
}

/// The bytes that `readable` and `pending` hold together.
spec fn held(readable: Seq<u8>, pending: Seq<Segment>) -> Map<int, u8> {
    Map::new(
        |pos: int|
            0 <= pos && (pos < readable.len() || first_byte(pending, pos) is Some),
        |pos: int|
            if pos < readable.len() {
                readable[pos]
            } else {
                first_byte(pending, pos)->Some_0
            },
    )
}

impl Reassembler {
    /// Everything up to the first gap is readable: what is pending starts behind
    /// it.
    #[verifier::type_invariant]
    spec fn inv(self) -> bool {
        forall|i: int|
            0 <= i < self.pending@.len() ==> self.readable@.len() < (
            #[trigger] self.pending@[i]).start
    }

    /// A reassembler that has received nothing.
    pub fn new() -> (empty: Reassembler)
        ensures
            empty@ == Map::<int, u8>::empty(),
    {
        let empty = Reassembler { readable: Vec::new(), pending: Vec::new() };
        assert(empty@ =~= Map::<int, u8>::empty());
        empty
    }

    proof fn lemma_readable(&self)
        requires
            self.inv(),
        ensures
            is_prefix_length(self@, self.readable@.len()),
            prefix_length(self@) == self.readable@.len(),
    {
        lemma_nothing_before(self.pending@, self.readable@.len() as int);
        lemma_prefix_length(self@, self.readable@.len());
    }

    /// How many bytes there are before the first gap.
    pub fn readable_length(&self) -> (len: usize)
        ensures
            is_prefix_length(self@, len as nat),
            len == prefix_length(self@),
    {
        proof {
            use_type_invariant(self);
            self.lemma_readable();
        }
        self.readable.len()
    }
}

/// Runs that start behind an offset hold nothing there.
proof fn lemma_nothing_before(segments: Seq<Segment>, pos: int)
    requires
        forall|i: int| 0 <= i < segments.len() ==> pos < (#[trigger] segments[i]).start,
    ensures
        first_byte(segments, pos) is None,
    decreases segments.len(),
{
    if segments.len() > 0 {
        let rest = segments.drop_first();
        assert forall|i: int| 0 <= i < rest.len() implies pos < (#[trigger] rest[i]).start by {
            assert(rest[i] == segments[i + 1]);
        }
        lemma_nothing_before(rest, pos);
    }
}

/// Looks an offset up in a list of runs.
fn find_byte(segments: &Vec<Segment>, pos: u128) -> (found: Option<u8>)
    ensures
        found == first_byte(segments@, pos as int),
{
    let mut i: usize = 0;
    assert(segments@.skip(0) =~= segments@);
    while i < segments.len()
        invariant
            0 <= i <= segments@.len(),
            first_byte(segments@.skip(i as int), pos as int) == first_byte(segments@, pos as int),
        decreases segments@.len() - i,
    {
        let segment = &segments[i];
        assert(segments@.skip(i as int).drop_first() =~= segments@.skip(i + 1));
        if segment.start <= pos {
            let index: u128 = pos - segment.start;
            if index < segment.bytes.len() as u128 {
                return Some(segment.bytes[index as usize]);
            }
        }
        i = i + 1;
    }
    None
}

/// Moves what has become contiguous from `pending` to the end of `readable`.
fn absorb(readable: &mut Vec<u8>, pending: &Vec<Segment>)
    ensures
        held(final(readable)@, pending@) == held(old(readable)@, pending@),
        first_byte(pending@, final(readable)@.len() as int) is None,
        old(readable)@.len() <= final(readable)@.len(),
{
    loop
        invariant
            held(readable@, pending@) == held(old(readable)@, pending@),
            old(readable)@.len() <= readable@.len(),
        decreases end_of_all(pending@) - readable@.len(),
    {
        let ghost before = readable@;
        match find_byte(pending, readable.len() as u128) {
            None => {
                return ;
            },
            Some(byte) => {
                proof {
                    lemma_first_byte_before_end(pending@, before.len() as int);
                }
                readable.push(byte);
                assert(held(readable@, pending@) =~= held(before, pending@));
            },
        }
    }
}

/// Drops the runs that end before offset `len`.
fn discard_read(pending: &mut Vec<Segment>, len: usize)
    ensures
        forall|pos: int|
            len <= pos ==> #[trigger] first_byte(final(pending)@, pos) == first_byte(
                old(pending)@,
                pos,
            ),
        forall|i: int|
            0 <= i < final(pending)@.len() ==> len < (#[trigger] final(pending)@[i]).start
                + final(pending)@[i].bytes@.len(),
{
    let mut i: usize = 0;
    while i < pending.len()
        invariant
            0 <= i <= pending@.len(),
            forall|pos: int|
                len <= pos ==> #[trigger] first_byte(pending@, pos) == first_byte(
                    old(pending)@,
                    pos,
                ),
            forall|j: int|
                0 <= j < i ==> len < (#[trigger] pending@[j]).start + pending@[j].bytes@.len(),
        decreases pending@.len() - i,
    {
        let start = pending[i].start;
        let count = pending[i].bytes.len();
        if start <= len as u128 && count as u128 <= len as u128 - start {
            let ghost before = pending@;
            pending.remove(i);
            assert forall|pos: int| len <= pos implies #[trigger] first_byte(pending@, pos)
                == first_byte(before, pos) by {
                lemma_first_byte_remove(before, i as int, pos);
            }
        } else {
            i = i + 1;
        }
    }
}

/// A run that is missing a byte somewhere starts behind it.
proof fn lemma_starts_behind(segments: Seq<Segment>, pos: int)
    requires
        first_byte(segments, pos) is None,
        forall|i: int|
            0 <= i < segments.len() ==> pos < (#[trigger] segments[i]).start
                + segments[i].bytes@.len(),
    ensures
        forall|i: int| 0 <= i < segments.len() ==> pos < (#[trigger] segments[i]).start,
    decreases segments.len(),
{
    if segments.len() > 0 {
        let rest = segments.drop_first();
        assert forall|i: int| 0 <= i < rest.len() implies pos < (#[trigger] rest[i]).start
            + rest[i].bytes@.len() by {
            assert(rest[i] == segments[i + 1]);
        }
        lemma_starts_behind(rest, pos);
        assert forall|i: int| 0 <= i < segments.len() implies pos < (
        #[trigger] segments[i]).start by {
            if i > 0 {
                assert(segments[i] == rest[i - 1]);
            }
        }
    }
}

/// Whether one of `bytes`, which lie at offset `first` and on, is in none of
/// `segments`.
fn any_missing(segments: &Vec<Segment>, first: u128, bytes: &Vec<u8>) -> (missing: bool)
    requires
        first + bytes@.len() <= u128::MAX,
    ensures
        missing == exists|pos: int|
            first <= pos < first + bytes@.len() && #[trigger] first_byte(segments@, pos) is None,
{
    for i in 0..bytes.len()
        invariant
            first + bytes@.len() <= u128::MAX,
            forall|pos: int|
                first <= pos < first + i ==> #[trigger] first_byte(segments@, pos) is Some,
    {
        if find_byte(segments, first + i as u128).is_none() {
            assert(first_byte(segments@, first + i) is None);
            return true;
        }
    }
    false
}

impl Reassembler {
    /// Takes in the bytes `data`, the first of which lies `distance` bytes behind
    /// the readable ones (or before their end, if negative), and tells whether
    /// any of them was new. A byte that was received before is not replaced.
    pub fn accept(&mut self, distance: i64, data: &[u8]) -> (added: bool)
        ensures
            final(self)@ == filled(old(self)@, prefix_length(old(self)@) + distance, data@),
            added == fills_a_gap(old(self)@, prefix_length(old(self)@) + distance, data@),
            !added ==> *final(self) == *old(self),
    {
        let ghost received = self@;
        let ghost start = prefix_length(received) + distance;
        proof {
            use_type_invariant(&*self);
            self.lemma_readable();
        }
        let len = self.readable.len();
        let mut skip: usize = 0;
        let mut first: u128 = len as u128;
        if distance < 0 {
            let behind: i128 = 0 - distance as i128;
            if data.len() as i128 <= behind {
                assert(filled(received, start, data@) =~= received);
                return false;
            }
            skip = behind as usize;
        } else {
            first = first + distance as u128;
        }
        let bytes = slice_to_vec(slice_subrange(data, skip, data.len()));
        assert(bytes@ =~= data@.skip(skip as int));
        assert(first == start + skip);
        let added = any_missing(&self.pending, first, &bytes);
        assert(added == fills_a_gap(received, start, data@)) by {
            if added {
                let pos = choose|pos: int|
                    first <= pos < first + bytes@.len() && #[trigger] first_byte(
                        self.pending@,
                        pos,
                    ) is None;
                assert(!received.contains_key(pos));
            } else if fills_a_gap(received, start, data@) {
                let pos = choose|pos: int|
                    0 <= pos && start <= pos < start + data@.len()
                        && !#[trigger] received.contains_key(pos);
                assert(first_byte(self.pending@, pos) is Some);
            }
        }
        if !added {
            assert(filled(received, start, data@) =~= received);
            return false;
        }
        let mut readable: Vec<u8> = Vec::new();
        let mut pending: Vec<Segment> = Vec::new();
        std::mem::swap(&mut pending, &mut self.pending);
        std::mem::swap(&mut readable, &mut self.readable);
        let ghost runs = pending@;
        let segment = Segment { start: first, bytes };
        proof {
            assert forall|pos: int| true implies #[trigger] first_byte(runs.push(segment), pos)
                == match first_byte(runs, pos) {
                Some(byte) => Some(byte),
                None => if segment.has(pos) {
                    Some(segment.bytes@[pos - segment.start])
                } else {
                    None
                },
            } by {
                lemma_first_byte_push(runs, segment, pos);
            }
        }
        pending.push(segment);
        assert(held(readable@, pending@) =~= filled(received, start, data@));
        absorb(&mut readable, &pending);
        let ghost absorbed = pending@;
        discard_read(&mut pending, readable.len());
        assert(held(readable@, pending@) =~= held(readable@, absorbed));
        proof {
            assert(first_byte(pending@, readable@.len() as int) is None);
            lemma_starts_behind(pending@, readable@.len() as int);
        }
        self.readable = readable;
        self.pending = pending;
        true
    }
}

} // verus!
