use vstd::prelude::*;

verus! {

/// The lower-case form of a text, as Unicode defines it.
pub uninterp spec fn lower_of(text: Seq<char>) -> Seq<char>;

/// A text without its leading and trailing white space.
pub uninterp spec fn trim_of(text: Seq<char>) -> Seq<char>;

/// The text that bytes decode to, with each invalid sequence replaced by U+FFFD.
pub uninterp spec fn lossy_text_of(bytes: Seq<u8>) -> Seq<char>;

/// Relies on str::to_lowercase: the result depends on the characters alone.
#[verifier::external_body]
pub(crate) fn lowercase(text: &str) -> (r: String)
    ensures
        r@ == lower_of(text@),
{
    text.to_lowercase()
}

/// Relies on str::trim: drops leading and trailing white space.
#[verifier::external_body]
pub(crate) fn trimmed(text: &str) -> (r: String)
    ensures
        r@ == trim_of(text@),
        text@.len() == 0 ==> r@.len() == 0,
{
    text.trim().to_string()
}

/// Relies on String::from_utf8_lossy: decodes bytes as UTF-8, replacing what is invalid.
#[verifier::external_body]
pub(crate) fn decode_lossy(bytes: &Vec<u8>) -> (r: String)
    ensures
        r@ == lossy_text_of(bytes@),
{
    String::from_utf8_lossy(bytes).to_string()
}

/// An owned copy of a text.
pub fn text_copy(s: &str) -> (r: String)
    ensures
        r@ == s@,
{
    s.to_owned()
}

/// Whether a text is the given literal.
pub fn text_is(s: &String, literal: &str) -> (r: bool)
    ensures
        r == (s@ == literal@),
{
    let l = literal.to_owned();
    s.eq(&l)
}

/// `pattern` occurs in `text` as a run of consecutive characters.
pub open spec fn has_infix(text: Seq<char>, pattern: Seq<char>) -> bool {
    exists|i: int|
        0 <= i <= text.len() - pattern.len() && #[trigger] text.subrange(i, i + pattern.len())
            == pattern
}

/// The characters of a text, one per element.
pub fn chars_of(text: &str) -> (r: Vec<char>)
    ensures
        r@ == text@,
{
    let n = text.unicode_len();
    let mut r: Vec<char> = Vec::new();
    let mut i: usize = 0;
    while i < n
        invariant
            0 <= i <= n,
            n == text@.len(),
            r@ == text@.subrange(0, i as int),
        decreases n - i,
    {
        r.push(text.get_char(i));
        i = i + 1;
    }
    assert(r@ =~= text@);
    r
}

/// Whether `pattern` occurs in `text`.
pub fn contains_text(text: &str, pattern: &str) -> (r: bool)
    ensures
        r == has_infix(text@, pattern@),
{
    let t = chars_of(text);
    let p = chars_of(pattern);
    let n = t.len();
    let m = p.len();
    if m > n {
        return false;
    }
    let mut i: usize = 0;
    while i <= n - m
        invariant
            t@ == text@,
            p@ == pattern@,
            n == t@.len(),
            m == p@.len(),
            m <= n,
            i <= n - m + 1,
            forall|k: int| 0 <= k < i ==> #[trigger] text@.subrange(k, k + m) != pattern@,
        decreases n - m + 1 - i,
    {
        let mut j: usize = 0;
        while j < m && t[i + j] == p[j]
            invariant
                t@ == text@,
                p@ == pattern@,
                n == t@.len(),
                m == p@.len(),
                i <= n - m,
                0 <= j <= m,
                forall|k: int| 0 <= k < j ==> t@[i + k] == p@[k],
            decreases m - j,
        {
            j = j + 1;
        }
        if j == m {
            assert(text@.subrange(i as int, i + m) =~= pattern@);
            return true;
        }
        assert(text@.subrange(i as int, i + m)[j as int] != pattern@[j as int]);
        i = i + 1;
    }
    assert(forall|k: int|
        0 <= k <= text@.len() - pattern@.len() ==> #[trigger] text@.subrange(k, k + m)
            != pattern@);
    false
}

} // verus!
