//! Assembling a line typed on the serial console, byte by byte.

use vstd::prelude::*;

verus! {

/// Whether `c` ends a line: a carriage return or a line feed.
pub open spec fn is_line_end(c: u8) -> bool {
    c == 13 || c == 10
}

/// One byte typed after `pending`: the bytes still pending, and the line
/// completed by it, if any.
pub open spec fn line_step(pending: Seq<u8>, c: u8) -> (Seq<u8>, Option<Seq<u8>>) {
    if is_line_end(c) {
        (Seq::<u8>::empty(), Some(pending))
    } else {
        (pending.push(c), None)
    }
}

/// The first line completed when `input` is typed after `pending`, one
/// [`line_step`] per byte; `None` while no line is complete.
pub open spec fn first_line(pending: Seq<u8>, input: Seq<u8>) -> Option<Seq<u8>>
    decreases input.len(),
{
    if input.len() == 0 {
        None
    } else {
        match line_step(pending, input[0]) {
            (_, Some(line)) => Some(line),
            (rest, None) => first_line(rest, input.drop_first()),
        }
    }
}

/// The bytes of the line being typed.
pub struct LineAssembler {
    buf: Vec<u8>,
}

impl View for LineAssembler {
    type V = Seq<u8>;

    closed spec fn view(&self) -> Seq<u8> {
        self.buf@
    }
}

impl LineAssembler {
    /// Nothing typed yet.
    pub fn new() -> (r: Self)
        ensures
            r@ == Seq::<u8>::empty(),
    {
        LineAssembler { buf: Vec::new() }
    }

    /// Takes the next byte read: a carriage return or line feed completes the
    /// line, which is returned, and starts a new one; any other byte is added
    /// to the line.
    pub fn feed(&mut self, c: u8) -> (r: Option<Vec<u8>>)
        ensures
            final(self)@ == line_step(old(self)@, c).0,
            line_step(old(self)@, c).1 is None ==> r is None,
            line_step(old(self)@, c).1 matches Some(line) ==> (r matches Some(v) && v@ == line),
            (c == 13 || c == 10) ==> (r matches Some(v) && v@ == old(self)@),
            (c == 13 || c == 10) ==> final(self)@.len() == 0,
            (c != 13 && c != 10) ==> r is None,
            (c != 13 && c != 10) ==> final(self)@ == old(self)@.push(c),
    {
        if c == 13 || c == 10 {
            let mut line = Vec::new();
            std::mem::swap(&mut line, &mut self.buf);
            Some(line)
        } else {
            self.buf.push(c);
            None
        }
    }
}

/// A line ends exactly at a carriage return (13) or a line feed (10): such
/// a byte completes the bytes pending and starts afresh, and any other byte,
/// a space (32) among them, is added to the line.
pub proof fn law_line_ends_only_at_cr_or_lf(pending: Seq<u8>, c: u8)
    ensures
        line_step(pending, c).1 is Some <==> (c == 13 || c == 10),
        (c == 13 || c == 10) ==> line_step(pending, c) == (Seq::<u8>::empty(), Some(pending)),
        (c != 13 && c != 10) ==> line_step(pending, c).0 == pending.push(c),
{
}

/// A line is exactly the bytes typed before the first carriage return or
/// line feed: when `input` holds one at `k` and none before it, feeding it
/// byte by byte to a new [`LineAssembler`] (each call of `feed` taking one
/// [`line_step`]) first completes the line made of the bytes before `k`.
pub proof fn law_line_is_bytes_before_end(input: Seq<u8>, k: int)
    requires
        0 <= k < input.len(),
        is_line_end(input[k]),
        forall|j: int| 0 <= j < k ==> !is_line_end(#[trigger] input[j]),
    ensures
        first_line(Seq::<u8>::empty(), input) == Some(input.take(k)),
{
    lemma_first_line(Seq::<u8>::empty(), input, k);
    assert(Seq::<u8>::empty() + input.take(k) =~= input.take(k));
}

proof fn lemma_first_line(pending: Seq<u8>, input: Seq<u8>, k: int)
    requires
        0 <= k < input.len(),
        is_line_end(input[k]),
        forall|j: int| 0 <= j < k ==> !is_line_end(#[trigger] input[j]),
    ensures
        first_line(pending, input) == Some(pending + input.take(k)),
    decreases k,
{
    if k == 0 {
        assert(pending + input.take(0) =~= pending);
    } else {
        assert(!is_line_end(input[0]));
        let rest = input.drop_first();
        assert forall|j: int| 0 <= j < k - 1 implies !is_line_end(#[trigger] rest[j]) by {
            assert(rest[j] == input[j + 1]);
        }
        lemma_first_line(pending.push(input[0]), rest, k - 1);
        assert(pending.push(input[0]) + rest.take(k - 1) =~= pending + input.take(k));
    }
}

} // verus!
