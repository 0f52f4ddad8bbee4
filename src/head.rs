use vstd::prelude::*;
use crate::wc::{line_count, lemma_counts_push};

verus! {

/// The number of lines a head shows.
pub const MAX_LINES: usize = 10;

/// How many leading bytes of `s` a head of `max` lines shows: every byte that
/// comes before the `max`-th line feed, and that line feed itself.
pub open spec fn head_len(s: Seq<u8>, max: nat) -> nat
    decreases s.len(),
{
    if s.len() == 0 {
        0
    } else if line_count(s.drop_last()) < max {
        s.len()
    } else {
        head_len(s.drop_last(), max)
    }
}

/// The bytes of `s` that a head of `max` lines shows.
pub open spec fn head_of(s: Seq<u8>, max: nat) -> Seq<u8> {
    s.subrange(0, head_len(s, max) as int)
}

proof fn lemma_head_len_bounded(s: Seq<u8>, max: nat)
    ensures
        head_len(s, max) <= s.len(),
    decreases s.len(),
{
    if s.len() > 0 {
        lemma_head_len_bounded(s.drop_last(), max);
    }
}

proof fn lemma_head_whole(s: Seq<u8>, max: nat)
    requires
        line_count(s) < max,
    ensures
        head_len(s, max) == s.len(),
{
    if s.len() > 0 {
        assert(line_count(s.drop_last()) <= line_count(s));
    }
}

/// Once a stream holds `max` line feeds, what follows does not change its head.
pub proof fn lemma_head_stable(s: Seq<u8>, t: Seq<u8>, max: nat)
    requires
        line_count(s) >= max,
    ensures
        head_len(s + t, max) == head_len(s, max),
        head_of(s + t, max) == head_of(s, max),
    decreases t.len(),
{
    if t.len() > 0 {
        let u = t.drop_last();
        lemma_head_stable(s, u, max);
        assert((s + t).drop_last() =~= s + u);
        lemma_line_count_grows(s, u);
        lemma_head_len_bounded(s, max);
        assert(head_of(s + t, max) =~= head_of(s, max));
    }
}

proof fn lemma_line_count_grows(s: Seq<u8>, t: Seq<u8>)
    ensures
        line_count(s + t) >= line_count(s),
    decreases t.len(),
{
    if t.len() > 0 {
        let u = t.drop_last();
        lemma_line_count_grows(s, u);
        assert((s + t).drop_last() =~= s + u);
    }
}

/// Passes through the leading lines of a stream fed in chunks.
pub struct LineLimiter {
    lines: usize,
    max: usize,
    seen: Ghost<Seq<u8>>,
}

impl View for LineLimiter {
    type V = Seq<u8>;

    /// All bytes fed so far, in order.
    closed spec fn view(&self) -> Seq<u8> {
        self.seen@
    }
}

impl LineLimiter {
    /// The line feeds shown so far agree with the bytes fed.
    pub closed spec fn wf(&self) -> bool {
        &&& self.lines <= self.max
        &&& self.lines < self.max ==> self.lines == line_count(self.seen@)
        &&& self.lines == self.max ==> line_count(self.seen@) >= self.max
    }

    /// The number of lines this limiter shows.
    pub closed spec fn limit(&self) -> nat {
        self.max as nat
    }

    /// A limiter showing `max` lines that has seen nothing.
    pub fn new(max: usize) -> (r: LineLimiter)
        ensures
            r.wf(),
            r@ == Seq::<u8>::empty(),
            r.limit() == max,
    {
        LineLimiter { lines: 0, max, seen: Ghost(Seq::empty()) }
    }

    /// Takes the next chunk of the stream and returns how many of its leading
    /// bytes belong to the head.
    pub fn take(&mut self, chunk: &[u8]) -> (r: usize)
        requires
            old(self).wf(),
        ensures
            final(self).wf(),
            final(self).limit() == old(self).limit(),
            final(self)@ == old(self)@ + chunk@,
            r <= chunk@.len(),
            head_len(final(self)@, final(self).limit()) == head_len(old(self)@, old(self).limit())
                + r,
            head_of(final(self)@, final(self).limit()) == head_of(old(self)@, old(self).limit())
                + chunk@.subrange(0, r as int),
    {
        let ghost start = self.seen@;
        let ghost max = self.max as nat;
        proof {
            lemma_head_len_bounded(start, max);
            if self.lines < self.max {
                lemma_head_whole(start, max);
            }
        }
        let mut shown: usize = 0;
        let mut i: usize = 0;
        while i < chunk.len()
            invariant
                self.wf(),
                self.max == max,
                i <= chunk@.len(),
                shown <= i,
                self.seen@ == start + chunk@.subrange(0, i as int),
                head_len(self.seen@, max) == head_len(start, max) + shown,
                head_len(start, max) <= start.len(),
                self.lines < self.max ==> shown == i && head_len(start, max) == start.len(),
                shown > 0 ==> head_len(start, max) == start.len(),
            decreases chunk@.len() - i,
        {
            let b = chunk[i];
            proof {
                lemma_counts_push(self.seen@, b);
                assert(start + chunk@.subrange(0, i + 1) =~= self.seen@.push(b));
            }
            if self.lines < self.max {
                shown = shown + 1;
                if b == 10 {
                    self.lines = self.lines + 1;
                }
            }
            self.seen = Ghost(self.seen@.push(b));
            i = i + 1;
        }
        assert(chunk@.subrange(0, i as int) =~= chunk@);
        let ghost fin = self.seen@;
        assert(head_of(fin, max) =~= head_of(start, max) + chunk@.subrange(0, shown as int));
        shown
    }

    /// Whether the head is complete: the stream has shown its last line feed.
    pub fn is_done(&self) -> (r: bool)
        requires
            self.wf(),
        ensures
            r == (line_count(self@) >= self.limit()),
    {
        self.lines == self.max
    }
}

/// The line that names a file before its head when several are shown:
/// `==> `, the path, ` <==` and a line feed.
pub open spec fn header_spec(path: Seq<u8>) -> Seq<u8> {
    seq![61u8, 61, 62, 32] + path + seq![32u8, 60, 61, 61, 10]
}

/// The header line for the path whose bytes are `path`.
pub fn header(path: &[u8]) -> (r: Vec<u8>)
    ensures
        r@ == header_spec(path@),
{
    let mut out: Vec<u8> = Vec::new();
    out.push(61);
    out.push(61);
    out.push(62);
    out.push(32);
    let ghost start = out@;
    let mut i: usize = 0;
    while i < path.len()
        invariant
            i <= path@.len(),
            out@ == start + path@.subrange(0, i as int),
        decreases path@.len() - i,
    {
        out.push(path[i]);
        i = i + 1;
        assert(out@ =~= start + path@.subrange(0, i as int));
    }
    out.push(32);
    out.push(60);
    out.push(61);
    out.push(61);
    out.push(10);
    assert(path@.subrange(0, path@.len() as int) =~= path@);
    assert(out@ =~= header_spec(path@));
    out
}

/// Exit status of a head run over `path_count` paths of which `failures`
/// could not be opened: a failure counts only when several paths were given.
pub fn exit_status(path_count: usize, failures: usize) -> (r: i32)
    ensures
        r == (if path_count >= 2 && failures > 0 { 1i32 } else { 0i32 }),
{
    if path_count >= 2 && failures > 0 {
        1
    } else {
        0
    }
}

} // verus!
