use vstd::prelude::*;

verus! {

/// The line terminator.
pub const NEWLINE: u8 = 10;

/// How many terminator bytes `s` holds.
pub open spec fn count_newlines(s: Seq<u8>) -> nat
    decreases s.len(),
{
    if s.len() == 0 {
        0
    } else {
        count_newlines(s.drop_last()) + if s.last() == NEWLINE { 1nat } else { 0nat }
    }
}

/// How many lines `s` holds: one per terminator, and one more for a final
/// piece that lacks its terminator.
pub open spec fn line_count(s: Seq<u8>) -> nat {
    if s.len() == 0 || s.last() == NEWLINE {
        count_newlines(s)
    } else {
        count_newlines(s) + 1
    }
}

proof fn lemma_count_newlines_bound(s: Seq<u8>)
    ensures
        count_newlines(s) <= s.len(),
    decreases s.len(),
{
    if s.len() > 0 {
        lemma_count_newlines_bound(s.drop_last());
    }
}

/// Line and byte totals of everything fed so far, in one forward pass,
/// however the bytes were cut into chunks.
pub struct ExtentCounter {
    newlines: u64,
    bytes: u64,
    ends_with_newline: bool,
    seen: Ghost<Seq<u8>>,
}

impl View for ExtentCounter {
    type V = Seq<u8>;

    /// The bytes fed so far.
    closed spec fn view(&self) -> Seq<u8> {
        self.seen@
    }
}

impl ExtentCounter {
    /// The counts agree with the bytes fed, and the byte total fits in an `i64`.
    pub closed spec fn wf(&self) -> bool {
        &&& self.newlines == count_newlines(self.seen@)
        &&& self.bytes == self.seen@.len()
        &&& self.bytes <= i64::MAX
        &&& self.seen@.len() > 0 ==> self.ends_with_newline == (self.seen@.last() == NEWLINE)
    }

    /// A counter that has seen nothing.
    pub fn new() -> (r: ExtentCounter)
        ensures
            r.wf(),
            r@ == Seq::<u8>::empty(),
    {
        ExtentCounter { newlines: 0, bytes: 0, ends_with_newline: false, seen: Ghost(Seq::empty()) }
    }

    /// Takes in the next bytes of the source. Refuses them, and changes
    /// nothing, when the byte total would no longer fit in an `i64`.
    pub fn feed(&mut self, chunk: &[u8]) -> (ok: bool)
        requires
            old(self).wf(),
        ensures
            final(self).wf(),
            ok == (old(self)@.len() + chunk@.len() <= i64::MAX),
            ok ==> final(self)@ == old(self)@ + chunk@,
            !ok ==> final(self)@ == old(self)@,
    {
        let n = chunk.len();
        if n as u64 > i64::MAX as u64 - self.bytes {
            return false;
        }
        let ghost start = self.seen@;
        let mut i: usize = 0;
        while i < n
            invariant
                self.wf(),
                n == chunk@.len(),
                start.len() + n <= i64::MAX,
                i <= n,
                self.seen@ == start + chunk@.subrange(0, i as int),
            decreases n - i,
        {
            let ghost prev = self.seen@;
            let b = chunk[i];
            let ghost next = prev.push(b);
            assert(next.drop_last() =~= prev);
            assert(start + chunk@.subrange(0, i + 1) =~= next);
            proof {
                lemma_count_newlines_bound(prev);
            }
            if b == NEWLINE {
                self.newlines = self.newlines + 1;
            }
            self.bytes = self.bytes + 1;
            self.ends_with_newline = b == NEWLINE;
            self.seen = Ghost(next);
            i = i + 1;
        }
        assert(chunk@.subrange(0, n as int) =~= chunk@);
        true
    }

    /// The line total and the byte total of what was fed.
    pub fn extent(&self) -> (r: (i64, i64))
        requires
            self.wf(),
        ensures
            r.0 == line_count(self@),
            r.1 == self@.len(),
    {
        proof {
            lemma_count_newlines_bound(self.seen@);
            if self.seen@.len() > 0 {
                lemma_count_newlines_bound(self.seen@.drop_last());
            }
        }
        let lines = if self.bytes > 0 && !self.ends_with_newline {
            self.newlines + 1
        } else {
            self.newlines
        };
        (lines as i64, self.bytes as i64)
    }
}

/// The line total and the byte total of `data`.
pub fn count_lines_bytes(data: &[u8]) -> (r: (i64, i64))
    requires
        data@.len() <= i64::MAX,
    ensures
        r.0 == line_count(data@),
        r.1 == data@.len(),
{
    let mut counter = ExtentCounter::new();
    let fed = counter.feed(data);
    assert(fed);
    assert(Seq::<u8>::empty() + data@ =~= data@);
    counter.extent()
}

} // verus!
