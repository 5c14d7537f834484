use vstd::prelude::*;

verus! {

/// A character that can stand in a plain word: an ASCII letter or digit,
/// `_` or `.`.
pub open spec fn is_word_char(c: char) -> bool {
    ||| ('A' <= c && c <= 'Z')
    ||| ('a' <= c && c <= 'z')
    ||| ('0' <= c && c <= '9')
    ||| c == '_'
    ||| c == '.'
}

/// The characters the tokenizer skips between tokens.
pub open spec fn is_space(c: char) -> bool {
    c == ' ' || c == '\n' || c == '\r' || c == '\t'
}

/// A digit from `0` to `9`.
pub open spec fn is_ascii_digit(c: char) -> bool {
    '0' <= c && c <= '9'
}

/// Every character is an ASCII character.
pub open spec fn is_ascii_text(s: Seq<char>) -> bool {
    forall|i: int| 0 <= i < s.len() ==> (#[trigger] s[i] as u32) < 128
}

/// A decimal literal: digits with at most one `.`, ending in a digit
/// (`12`, `1.5`, `.5`).
pub open spec fn is_number_text(s: Seq<char>) -> bool {
    &&& s.len() > 0
    &&& is_ascii_digit(s.last())
    &&& forall|i: int| 0 <= i < s.len() ==> is_ascii_digit(#[trigger] s[i]) || s[i] == '.'
    &&& forall|i: int, j: int| 0 <= i < j < s.len() ==> !(#[trigger] s[i] == '.' && #[trigger] s[j] == '.')
}

/// Some character of `s` is an ASCII character that is neither a digit nor `.`.
pub open spec fn has_non_number_ascii(s: Seq<char>) -> bool {
    exists|i: int|
        0 <= i < s.len() && (#[trigger] s[i] as u32) < 128 && !is_ascii_digit(s[i]) && s[i] != '.'
}

/// A double quote, at least one character other than a line break, and a
/// closing double quote.
pub open spec fn is_quoted_text(s: Seq<char>) -> bool {
    &&& s.len() >= 3
    &&& s[0] == '"'
    &&& s.last() == '"'
    &&& forall|i: int| 0 < i < s.len() - 1 ==> #[trigger] s[i] != '\n'
}

/// The pattern of one word character.
pub open spec fn word_char_pattern() -> Seq<char> {
    "^[A-Za-z0-9_\\.]$"@
}

/// The pattern of a decimal literal.
pub open spec fn number_pattern() -> Seq<char> {
    "^\\d*\\.?\\d+$"@
}

/// The pattern of a string literal.
pub open spec fn quoted_pattern() -> Seq<char> {
    "^\".+\"$"@
}

/// Compiles `pattern` with `regex::Regex::new` and asks `Regex::is_match`
/// whether it matches `haystack`.
///
/// The three patterns that the tokenizer uses are valid, so the compilation
/// cannot fail on them. Anchored by `^` and `$` (end of haystack only), the
/// patterns accept: exactly one character of `[A-Za-z0-9_.]`; a decimal
/// literal `\d*\.?\d+`; a quoted text `".+"` where `.` is any character but a
/// line break. In `regex`, `\d` is any Unicode decimal digit (`\p{Nd}`), so for
/// the number pattern only ASCII haystacks get the exact answer stated here,
/// and any haystack holding an ASCII character that is neither a digit nor `.`
/// is refused; what it answers on other haystacks is left unsaid.
#[verifier::external_body]
pub(crate) fn pattern_matches(pattern: &str, haystack: &str) -> (r: bool)
    requires
        pattern@ == word_char_pattern() || pattern@ == number_pattern() || pattern@
            == quoted_pattern(),
    ensures
        pattern@ == word_char_pattern() ==> (r <==> (haystack@.len() == 1 && is_word_char(
            haystack@[0],
        ))),
        pattern@ == number_pattern() && is_ascii_text(haystack@) ==> (r <==> is_number_text(
            haystack@,
        )),
        pattern@ == number_pattern() && has_non_number_ascii(haystack@) ==> !r,
        pattern@ == quoted_pattern() ==> (r <==> is_quoted_text(haystack@)),
{
    regex::Regex::new(pattern).unwrap().is_match(haystack)
}

/// Appends `c` to `s` with `String::push`.
#[verifier::external_body]
pub(crate) fn push_char(s: &mut String, c: char)
    ensures
        final(s)@ == old(s)@.push(c),
{
    s.push(c);
}

/// The characters of `s`, in order.
pub(crate) fn chars_of(s: &str) -> (r: Vec<char>)
    ensures
        r@ == s@,
{
    broadcast use vstd::string::group_string_axioms;

    let mut v: Vec<char> = Vec::new();
    for c in it: s.chars()
        invariant
            v@ == it.seq().take(it.index() as int),
    {
        v.push(c);
    }
    v
}

/// Appends the characters of `t` to `s`.
pub(crate) fn append_text(s: &mut String, t: &str)
    ensures
        final(s)@ == old(s)@ + t@,
{
    let cs = chars_of(t);
    let mut i: usize = 0;
    while i < cs.len()
        invariant
            0 <= i <= cs@.len(),
            cs@ == t@,
            s@ == old(s)@ + t@.take(i as int),
        decreases cs@.len() - i,
    {
        push_char(s, cs[i]);
        i = i + 1;
        assert(t@.take(i as int) =~= t@.take(i - 1).push(t@[i - 1]));
    }
    assert(t@.take(cs@.len() as int) =~= t@);
}

/// Whether `s` and `t` hold the same characters.
pub(crate) fn same_text(s: &str, t: &str) -> (r: bool)
    ensures
        r == (s@ == t@),
{
    s.to_owned() == t.to_owned()
}

} // verus!
