//! Framing of the inbound byte stream: complete lines are cut at the
//! two-byte terminator, and what follows the last terminator waits for the
//! next read.

use vstd::prelude::*;
use vstd::slice::{slice_subrange, slice_to_vec};

verus! {

/// Carriage return, the first byte of the line terminator.
pub const CR: u8 = 13;

/// Line feed, the second byte of the line terminator.
pub const LF: u8 = 10;

/// Whether a line terminator begins at position `i` of `bytes`.
pub open spec fn terminator_at(bytes: Seq<u8>, i: int) -> bool {
    0 <= i && i + 1 < bytes.len() && bytes[i] == CR && bytes[i + 1] == LF
}

/// Position of the first line terminator in `bytes`, or `bytes.len()` where
/// it holds none.
pub open spec fn first_terminator(bytes: Seq<u8>) -> int
    decreases bytes.len(),
{
    if bytes.len() < 2 {
        bytes.len() as int
    } else if terminator_at(bytes, 0) {
        0
    } else {
        1 + first_terminator(bytes.drop_first())
    }
}

/// The terminated lines of `bytes`, in order and without their terminators.
pub open spec fn complete_lines(bytes: Seq<u8>) -> Seq<Seq<u8>>
    decreases bytes.len(),
{
    let i = first_terminator(bytes);
    if terminator_at(bytes, i) {
        seq![bytes.subrange(0, i)] + complete_lines(bytes.subrange(i + 2, bytes.len() as int))
    } else {
        Seq::empty()
    }
}

/// What follows the last terminator of `bytes`: the start of a line whose
/// end has not come yet.
pub open spec fn remainder(bytes: Seq<u8>) -> Seq<u8>
    decreases bytes.len(),
{
    let i = first_terminator(bytes);
    if terminator_at(bytes, i) {
        remainder(bytes.subrange(i + 2, bytes.len() as int))
    } else {
        bytes
    }
}

/// `first_terminator` stays within `bytes`, no terminator begins in front of
/// it, and where it lies inside `bytes` a terminator begins there.
pub proof fn lemma_first_terminator(bytes: Seq<u8>)
    ensures
        0 <= first_terminator(bytes) <= bytes.len(),
        forall|j: int| 0 <= j < first_terminator(bytes) ==> !terminator_at(bytes, j),
        first_terminator(bytes) < bytes.len() ==> terminator_at(bytes, first_terminator(bytes)),
    decreases bytes.len(),
{
    if bytes.len() < 2 {
    } else if terminator_at(bytes, 0) {
    } else {
        let t = bytes.drop_first();
        lemma_first_terminator(t);
        assert forall|j: int| 0 <= j < first_terminator(bytes) implies !terminator_at(bytes, j) by {
            if j > 0 {
                assert(!terminator_at(t, j - 1));
                assert(t[j - 1] == bytes[j]);
                if j < t.len() {
                    assert(t[j] == bytes[j + 1]);
                }
            }
        }
        let k = first_terminator(t);
        if k < t.len() {
            assert(terminator_at(t, k));
            assert(t[k] == bytes[k + 1]);
            assert(t[k + 1] == bytes[k + 2]);
        }
    }
}

/// The position that `lemma_first_terminator` describes is `first_terminator`
/// itself.
pub proof fn lemma_first_terminator_is(bytes: Seq<u8>, i: int)
    requires
        0 <= i <= bytes.len(),
        forall|j: int| 0 <= j < i ==> !terminator_at(bytes, j),
        i < bytes.len() ==> terminator_at(bytes, i),
    ensures
        first_terminator(bytes) == i,
    decreases bytes.len(),
{
    if bytes.len() < 2 {
    } else if terminator_at(bytes, 0) {
        if i > 0 {
            assert(!terminator_at(bytes, 0));
        }
    } else {
        let t = bytes.drop_first();
        assert(i > 0);
        assert forall|j: int| 0 <= j < i - 1 implies !terminator_at(t, j) by {
            assert(!terminator_at(bytes, j + 1));
            if j + 1 < t.len() {
                assert(t[j] == bytes[j + 1]);
                assert(t[j + 1] == bytes[j + 2]);
            }
        }
        if i - 1 < t.len() {
            assert(terminator_at(bytes, i));
            assert(t[i - 1] == bytes[i]);
            assert(t[i] == bytes[i + 1]);
        }
        lemma_first_terminator_is(t, i - 1);
    }
}

/// What the vectors of `lines` hold, in order.
pub open spec fn line_bytes(lines: Seq<Vec<u8>>) -> Seq<Seq<u8>> {
    lines.map_values(|line: Vec<u8>| line@)
}

/// Cuts `data` into its terminated lines and the unterminated rest.
pub fn split_lines(data: &[u8]) -> (r: (Vec<Vec<u8>>, Vec<u8>))
    ensures
        line_bytes(r.0@) == complete_lines(data@),
        r.1@ == remainder(data@),
{
    let n = data.len();
    let mut lines: Vec<Vec<u8>> = Vec::new();
    let mut start: usize = 0;
    let mut i: usize = 0;
    proof {
        assert(data@.subrange(0, n as int) =~= data@);
        assert(line_bytes(lines@) =~= Seq::<Seq<u8>>::empty());
    }
    while i < n && i + 1 < n
        invariant
            n == data@.len(),
            start <= i <= n,
            complete_lines(data@) == line_bytes(lines@) + complete_lines(
                data@.subrange(start as int, n as int),
            ),
            remainder(data@) == remainder(data@.subrange(start as int, n as int)),
            forall|j: int| start <= j < i ==> !terminator_at(data@, j),
        decreases n - i,
    {
        let ghost open = data@.subrange(start as int, n as int);
        if data[i] == CR && data[i + 1] == LF {
            let line = slice_to_vec(slice_subrange(data, start, i));
            proof {
                assert forall|j: int| 0 <= j < i - start implies !terminator_at(open, j) by {
                    assert(!terminator_at(data@, start + j));
                }
                assert(terminator_at(open, i - start));
                lemma_first_terminator_is(open, i - start);
                assert(open.subrange(0, i - start) =~= line@);
                assert(open.subrange(i - start + 2, open.len() as int) =~= data@.subrange(
                    i + 2,
                    n as int,
                ));
                assert(line_bytes(lines@.push(line)) =~= line_bytes(lines@) + seq![line@]);
            }
            lines.push(line);
            start = i + 2;
            i = start;
        } else {
            i = i + 1;
        }
    }
    let rest = slice_to_vec(slice_subrange(data, start, n));
    proof {
        let open = data@.subrange(start as int, n as int);
        assert forall|j: int| 0 <= j < open.len() implies !terminator_at(open, j) by {
            if start + j < i {
                assert(!terminator_at(data@, start + j));
            }
        }
        lemma_first_terminator_is(open, open.len() as int);
        assert(line_bytes(lines@) + Seq::<Seq<u8>>::empty() =~= line_bytes(lines@));
    }
    (lines, rest)
}

/// The bytes that were read and do not yet end in a terminator.
#[derive(Debug)]
pub struct LineBuffer {
    pending: Vec<u8>,
}

impl View for LineBuffer {
    type V = Seq<u8>;

    closed spec fn view(&self) -> Seq<u8> {
        self.pending@
    }
}

impl LineBuffer {
    /// A buffer that holds nothing.
    pub fn new() -> (r: LineBuffer)
        ensures
            r@ == Seq::<u8>::empty(),
    {
        LineBuffer { pending: Vec::new() }
    }

    /// The bytes that wait for their terminator.
    pub fn pending(&self) -> (r: &[u8])
        ensures
            r@ == self@,
    {
        self.pending.as_slice()
    }

    /// Takes in what one read brought. The lines that are now complete come
    /// back, in order; what follows the last terminator is kept for the next
    /// call.
    pub fn push(&mut self, chunk: &[u8]) -> (lines: Vec<Vec<u8>>)
        ensures
            line_bytes(lines@) == complete_lines(old(self)@ + chunk@),
            final(self)@ == remainder(old(self)@ + chunk@),
    {
        let mut incoming = slice_to_vec(chunk);
        self.pending.append(&mut incoming);
        let (lines, rest) = split_lines(self.pending.as_slice());
        self.pending = rest;
        lines
    }
}

/// Reading in two steps gives the lines of reading at once: the lines of
/// `a + b` are those of `a`, then those of what `a` left over followed by `b`,
/// and the same bytes are left over at the end.
pub proof fn lemma_lines_across_reads(a: Seq<u8>, b: Seq<u8>)
    ensures
        complete_lines(a + b) == complete_lines(a) + complete_lines(remainder(a) + b),
        remainder(a + b) == remainder(remainder(a) + b),
    decreases a.len(),
{
    lemma_first_terminator(a);
    let i = first_terminator(a);
    if i < a.len() {
        let whole = a + b;
        assert forall|j: int| 0 <= j < i implies !terminator_at(whole, j) by {
            assert(!terminator_at(a, j));
            if j + 1 < a.len() {
                assert(whole[j] == a[j]);
                assert(whole[j + 1] == a[j + 1]);
            }
        }
        assert(terminator_at(whole, i)) by {
            assert(terminator_at(a, i));
            assert(whole[i] == a[i]);
            assert(whole[i + 1] == a[i + 1]);
        }
        lemma_first_terminator_is(whole, i);
        let rest = a.subrange(i + 2, a.len() as int);
        assert(whole.subrange(i + 2, whole.len() as int) =~= rest + b);
        assert(whole.subrange(0, i) =~= a.subrange(0, i));
        lemma_lines_across_reads(rest, b);
        assert(complete_lines(whole) =~= complete_lines(a) + complete_lines(remainder(a) + b));
    } else {
        assert(Seq::<Seq<u8>>::empty() + complete_lines(a + b) =~= complete_lines(a + b));
    }
}

/// The bytes that lines and a rest were cut from: each line followed by a
/// terminator, then the rest.
pub open spec fn rejoined(lines: Seq<Seq<u8>>, rest: Seq<u8>) -> Seq<u8>
    decreases lines.len(),
{
    if lines.len() == 0 {
        rest
    } else {
        lines[0] + seq![CR, LF] + rejoined(lines.drop_first(), rest)
    }
}

/// Framing loses nothing: the lines, each with its terminator, and the rest
/// make up the bytes again.
pub proof fn lemma_framing_keeps_every_byte(bytes: Seq<u8>)
    ensures
        rejoined(complete_lines(bytes), remainder(bytes)) == bytes,
    decreases bytes.len(),
{
    let i = first_terminator(bytes);
    if terminator_at(bytes, i) {
        let tail = bytes.subrange(i + 2, bytes.len() as int);
        lemma_framing_keeps_every_byte(tail);
        let lines = complete_lines(bytes);
        assert(lines[0] == bytes.subrange(0, i));
        assert(lines.drop_first() =~= complete_lines(tail));
        assert(bytes =~= bytes.subrange(0, i) + seq![CR, LF] + tail);
    }
}

/// Framing cuts at every terminator: none is left inside a line, and none in
/// the rest.
pub proof fn lemma_framing_leaves_no_terminator(bytes: Seq<u8>)
    ensures
        forall|j: int| !terminator_at(remainder(bytes), j),
        forall|i: int, j: int|
            0 <= i < complete_lines(bytes).len() ==> !#[trigger] terminator_at(
                complete_lines(bytes)[i],
                j,
            ),
    decreases bytes.len(),
{
    lemma_first_terminator(bytes);
    let k = first_terminator(bytes);
    if terminator_at(bytes, k) {
        let tail = bytes.subrange(k + 2, bytes.len() as int);
        lemma_framing_leaves_no_terminator(tail);
        let lines = complete_lines(bytes);
        assert(remainder(bytes) == remainder(tail));
        assert forall|i: int, j: int| 0 <= i < lines.len() implies !#[trigger] terminator_at(
            lines[i],
            j,
        ) by {
            if i == 0 {
                if terminator_at(lines[0], j) {
                    assert(bytes[j] == lines[0][j]);
                    assert(bytes[j + 1] == lines[0][j + 1]);
                    assert(terminator_at(bytes, j));
                }
            } else {
                assert(lines[i] == complete_lines(tail)[i - 1]);
            }
        }
    } else {
        assert(k == bytes.len());
        assert(remainder(bytes) == bytes);
        assert forall|j: int| !terminator_at(bytes, j) by {
            if 0 <= j < k {
                assert(!terminator_at(bytes, j));
            }
        }
    }
}

} // verus!
