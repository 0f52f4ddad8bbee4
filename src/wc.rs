use vstd::prelude::*;

verus! {

/// A word ends at a space or a line feed.
pub open spec fn is_boundary(b: u8) -> bool {
    b == 32 || b == 10
}

/// Number of line feeds in `s`.
pub open spec fn line_count(s: Seq<u8>) -> nat
    decreases s.len(),
{
    if s.len() == 0 {
        0
    } else {
        line_count(s.drop_last()) + if s.last() == 10 { 1nat } else { 0nat }
    }
}

/// Whether `s` ends inside a word: its last byte is not a boundary.
pub open spec fn ends_in_word(s: Seq<u8>) -> bool {
    s.len() > 0 && !is_boundary(s.last())
}

/// Number of words of `s` that a boundary has closed: positions holding a
/// boundary right after a non-boundary byte. A word still open at the end
/// of `s` is not counted.
pub open spec fn word_count(s: Seq<u8>) -> nat
    decreases s.len(),
{
    if s.len() == 0 {
        0
    } else {
        word_count(s.drop_last()) + if is_boundary(s.last()) && ends_in_word(s.drop_last()) {
            1nat
        } else {
            0nat
        }
    }
}

/// Appending one byte adds to the counts only what that byte closes.
pub proof fn lemma_counts_push(s: Seq<u8>, b: u8)
    ensures
        s.push(b).drop_last() == s,
        line_count(s.push(b)) == line_count(s) + if b == 10 { 1nat } else { 0nat },
        word_count(s.push(b)) == word_count(s) + if is_boundary(b) && ends_in_word(s) {
            1nat
        } else {
            0nat
        },
{
    assert(s.push(b).drop_last() =~= s);
}

proof fn lemma_counts_bounded(s: Seq<u8>)
    ensures
        line_count(s) <= s.len(),
        word_count(s) <= s.len(),
    decreases s.len(),
{
    if s.len() > 0 {
        lemma_counts_bounded(s.drop_last());
    }
}

/// Byte, line and word totals of a stream.
pub struct Count {
    pub bytes: usize,
    pub lines: usize,
    pub words: usize,
}

/// The totals of the bytes `s`.
pub open spec fn counts_of(s: Seq<u8>) -> (usize, usize, usize) {
    (s.len() as usize, line_count(s) as usize, word_count(s) as usize)
}

/// Counts bytes, line feeds and words over a stream fed in chunks.
pub struct WordCounter {
    bytes: usize,
    lines: usize,
    words: usize,
    in_word: bool,
    seen: Ghost<Seq<u8>>,
}

impl View for WordCounter {
    type V = Seq<u8>;

    /// All bytes fed so far, in order.
    closed spec fn view(&self) -> Seq<u8> {
        self.seen@
    }
}

impl WordCounter {
    /// The running totals match the bytes fed so far.
    pub closed spec fn wf(&self) -> bool {
        &&& self.bytes == self.seen@.len()
        &&& self.lines == line_count(self.seen@)
        &&& self.words == word_count(self.seen@)
        &&& self.in_word == ends_in_word(self.seen@)
    }

    /// A counter that has seen nothing.
    pub fn new() -> (r: WordCounter)
        ensures
            r.wf(),
            r@ == Seq::<u8>::empty(),
    {
        WordCounter { bytes: 0, lines: 0, words: 0, in_word: false, seen: Ghost(Seq::empty()) }
    }

    /// Takes the next chunk of the stream.
    pub fn feed(&mut self, chunk: &[u8])
        requires
            old(self).wf(),
            old(self)@.len() + chunk@.len() <= usize::MAX,
        ensures
            final(self).wf(),
            final(self)@ == old(self)@ + chunk@,
    {
        let ghost start = self.seen@;
        let mut i: usize = 0;
        while i < chunk.len()
            invariant
                self.wf(),
                i <= chunk@.len(),
                self.seen@ == start + chunk@.subrange(0, i as int),
                start.len() + chunk@.len() <= usize::MAX,
            decreases chunk@.len() - i,
        {
            let b = chunk[i];
            proof {
                lemma_counts_push(self.seen@, b);
                lemma_counts_bounded(self.seen@);
                assert(start + chunk@.subrange(0, i + 1) =~= self.seen@.push(b));
            }
            self.bytes = self.bytes + 1;
            if b == 10 {
                self.lines = self.lines + 1;
            }
            if b == 32 || b == 10 {
                if self.in_word {
                    self.words = self.words + 1;
                }
                self.in_word = false;
            } else {
                self.in_word = true;
            }
            self.seen = Ghost(self.seen@.push(b));
            i = i + 1;
        }
        assert(chunk@.subrange(0, i as int) =~= chunk@);
    }

    /// The totals of everything fed so far.
    pub fn totals(&self) -> (r: Count)
        requires
            self.wf(),
        ensures
            (r.bytes, r.lines, r.words) == counts_of(self@),
    {
        Count { bytes: self.bytes, lines: self.lines, words: self.words }
    }
}

/// The totals of the bytes in `data`.
pub fn count_bytes(data: &[u8]) -> (r: Count)
    ensures
        (r.bytes, r.lines, r.words) == counts_of(data@),
{
    let mut c = WordCounter::new();
    assert(data@.len() == data.len());
    c.feed(data);
    assert(Seq::<u8>::empty() + data@ =~= data@);
    c.totals()
}


/// The decimal digits of `n`, most significant first.
pub open spec fn decimal(n: nat) -> Seq<u8>
    decreases n,
{
    if n < 10 {
        seq![(48 + n) as u8]
    } else {
        decimal(n / 10).push((48 + n % 10) as u8)
    }
}

/// `s` preceded by spaces up to `width` bytes; unchanged when it is that long already.
pub open spec fn right_justified(s: Seq<u8>, width: nat) -> Seq<u8> {
    if s.len() >= width {
        s
    } else {
        Seq::new((width - s.len()) as nat, |i: int| 32u8) + s
    }
}

/// The report line: lines in 8 columns, words and bytes in 7 each, then the
/// path, separated by single spaces and ended by a line feed.
pub open spec fn report_line(c: (usize, usize, usize), path: Seq<u8>) -> Seq<u8> {
    right_justified(decimal(c.1 as nat), 8) + seq![32u8] + right_justified(decimal(c.2 as nat), 7)
        + seq![32u8] + right_justified(decimal(c.0 as nat), 7) + seq![32u8] + path + seq![10u8]
}

fn push_decimal(out: &mut Vec<u8>, n: usize)
    ensures
        final(out)@ == old(out)@ + decimal(n as nat),
    decreases n,
{
    if n < 10 {
        out.push((48 + n) as u8);
    } else {
        push_decimal(out, n / 10);
        out.push((48 + n % 10) as u8);
    }
}

fn push_right_justified(out: &mut Vec<u8>, n: usize, width: usize)
    ensures
        final(out)@ == old(out)@ + right_justified(decimal(n as nat), width as nat),
{
    let mut digits: Vec<u8> = Vec::new();
    push_decimal(&mut digits, n);
    assert(digits@ =~= decimal(n as nat));
    let ghost start = out@;
    let mut pad: usize = 0;
    if digits.len() < width {
        pad = width - digits.len();
    }
    let mut i: usize = 0;
    while i < pad
        invariant
            i <= pad,
            out@ == start + Seq::new(i as nat, |k: int| 32u8),
        decreases pad - i,
    {
        out.push(32);
        i = i + 1;
        assert(out@ =~= start + Seq::new(i as nat, |k: int| 32u8));
    }
    out.append(&mut digits);
    assert(out@ =~= start + right_justified(decimal(n as nat), width as nat));
}

/// The report line for `c` and the path whose bytes are `path`.
pub fn report(c: &Count, path: &[u8]) -> (r: Vec<u8>)
    ensures
        r@ == report_line((c.bytes, c.lines, c.words), path@),
{
    let mut out: Vec<u8> = Vec::new();
    push_right_justified(&mut out, c.lines, 8);
    out.push(32);
    push_right_justified(&mut out, c.words, 7);
    out.push(32);
    push_right_justified(&mut out, c.bytes, 7);
    out.push(32);
    let mut i: usize = 0;
    let ghost start = out@;
    while i < path.len()
        invariant
            i <= path@.len(),
            out@ == start + path@.subrange(0, i as int),
        decreases path@.len() - i,
    {
        out.push(path[i]);
        i = i + 1;
        assert(out@ =~= start + path@.subrange(0, i as int));
    }
    out.push(10);
    assert(path@.subrange(0, path@.len() as int) =~= path@);
    assert(out@ =~= report_line((c.bytes, c.lines, c.words), path@));
    out
}

} // verus!
