use vstd::prelude::*;
use vstd::string::*;
use vstd::utf8::encode_utf8;

verus! {

/// Length of a text in bytes, as `str::len` reports it.
pub open spec fn byte_len(s: Seq<char>) -> usize {
    encode_utf8(s).len() as usize
}

/// The slice `longest` picks: the strictly longer one, and `y` on a tie.
pub open spec fn longer_of<'a>(x: &'a str, y: &'a str) -> &'a str {
    if byte_len(x@) > byte_len(y@) {
        x
    } else {
        y
    }
}

/// The longer of two slices; on equal lengths the second one.
/// The result borrows from both inputs, so it lives no longer than the shorter-lived one.
pub fn longest<'a>(x: &'a str, y: &'a str) -> (r: &'a str)
    ensures
        r == longer_of(x, y),
{
    if x.len() > y.len() {
        x
    } else {
        y
    }
}

/// Returns `x`; the lifetime of `y` is unrelated to the result.
pub fn longest_without_lifetime_annotation_on_y<'a>(x: &'a str, y: &str) -> (r: &'a str)
    ensures
        r == x,
{
    x
}

/// Returns an owned string, so no borrow of the arguments is involved.
pub fn longest_can_compile(x: &str, y: &str) -> (r: String)
    ensures
        r@ == "really long string"@,
{
    String::from_str("really long string")
}

/// Returns its argument, with the elided lifetime of the input.
pub fn first_word_without_lifetime_annotation(s: &str) -> (r: &str)
    ensures
        r == s,
{
    s
}

/// Returns its argument, with the lifetime written out.
pub fn first_word_with_lifetime_annotations<'a>(s: &'a str) -> (r: &'a str)
    ensures
        r == s,
{
    s
}

/// The characters of `s` before its first `'.'`, or all of `s` when it has none.
pub open spec fn before_first_dot(s: Seq<char>) -> Seq<char>
    decreases s.len(),
{
    if s.len() == 0 {
        s
    } else if s[0] == '.' {
        Seq::empty()
    } else {
        seq![s[0]] + before_first_dot(s.drop_first())
    }
}

proof fn lemma_before_first_dot(s: Seq<char>, i: int)
    requires
        0 <= i <= s.len(),
        forall|j: int| 0 <= j < i ==> s[j] != '.',
        i == s.len() || s[i] == '.',
    ensures
        before_first_dot(s) == s.subrange(0, i),
    decreases s.len(),
{
    if s.len() == 0 {
        assert(s.subrange(0, i) =~= s);
    } else if s[0] == '.' {
        assert(s.subrange(0, i) =~= Seq::<char>::empty());
    } else {
        let t = s.drop_first();
        assert forall|j: int| 0 <= j < i - 1 implies t[j] != '.' by {
            assert(t[j] == s[j + 1]);
        }
        lemma_before_first_dot(t, i - 1);
        assert(s.subrange(0, i) =~= seq![s[0]] + t.subrange(0, i - 1));
    }
}

/// The first piece of `text` when split at `'.'`.
pub fn first_sentence(text: &str) -> (r: &str)
    ensures
        r@ == before_first_dot(text@),
{
    let n = text.unicode_len();
    let mut i: usize = 0;
    while i < n
        invariant
            n == text@.len(),
            i <= n,
            forall|j: int| 0 <= j < i ==> text@[j] != '.',
        ensures
            i <= n,
            forall|j: int| 0 <= j < i ==> text@[j] != '.',
            i == n || text@[i as int] == '.',
        decreases n - i,
    {
        if text.get_char(i) == '.' {
            break;
        }
        i = i + 1;
    }
    proof {
        lemma_before_first_dot(text@, i as int);
    }
    text.substring_char(0, i)
}

/// A part of a longer text, borrowed from it.
pub struct ImportantExcerpt<'a> {
    pub part: &'a str,
}

impl<'a> ImportantExcerpt<'a> {
    /// The excerpt made of the first sentence of `text`.
    pub fn from_first_sentence(text: &'a str) -> (r: ImportantExcerpt<'a>)
        ensures
            r.part@ == before_first_dot(text@),
    {
        ImportantExcerpt { part: first_sentence(text) }
    }

    /// A fixed level.
    pub fn level(&self) -> (r: i32)
        ensures
            r == 3,
    {
        3
    }

    /// Returns the borrowed part; the announcement is for the caller to show.
    pub fn announce_and_return_part(&self, announcement: &str) -> (r: &str)
        ensures
            r == self.part,
    {
        self.part
    }
}

/// An excerpt taken from text that the function owns lives only inside it.
pub fn lifetime_annotations_in_struct_definitions() {
    let novel = String::from_str("novel1, novel2");
    let i = ImportantExcerpt::from_first_sentence(novel.as_str());
    proof {
        reveal_strlit("novel1, novel2");
        lemma_before_first_dot(novel@, novel@.len() as int);
    }
    assert(i.part@ == novel@);
}

/// `longest`, with an announcement that the caller shows alongside.
pub fn longest_with_an_announcement<'a, T>(x: &'a str, y: &'a str, ann: T) -> (r: &'a str)
    where
        T: std::fmt::Display,
    ensures
        r == longer_of(x, y),
{
    if x.len() > y.len() {
        x
    } else {
        y
    }
}

/// The shorter of two owned strings (in bytes); on equal lengths the first one.
/// Unlike `longest`, this picks the shorter value.
pub fn longest_string(x: String, y: String) -> (r: String)
    ensures
        r == (if byte_len(x@) <= byte_len(y@) { x } else { y }),
{
    if x.as_str().len() <= y.as_str().len() {
        x
    } else {
        y
    }
}

/// Immutable bindings cannot be borrowed mutably.
pub fn immutable_data_cannot_borrow_as_mutable() {
}

} // verus!
