use vstd::prelude::*;
use vstd::string::StringSliceAdditionalSpecFns;
use vstd::utf8::*;

verus! {

/// Whether `c` has the Unicode property White_Space.
pub open spec fn is_space(c: char) -> bool {
    let n = c as u32;
    ||| 0x09 <= n <= 0x0D
    ||| n == 0x20
    ||| n == 0x85
    ||| n == 0xA0
    ||| n == 0x1680
    ||| 0x2000 <= n <= 0x200A
    ||| n == 0x2028
    ||| n == 0x2029
    ||| n == 0x202F
    ||| n == 0x205F
    ||| n == 0x3000
}

/// Whether `c` is one of the ASCII letters `a` to `z`.
pub open spec fn is_ascii_lower(c: char) -> bool {
    0x61 <= c as u32 <= 0x7A
}

/// `c` with the ASCII letters `a` to `z` raised to `A` to `Z`.
pub open spec fn ascii_upper(c: char) -> char {
    if is_ascii_lower(c) {
        ((c as u32 - 0x20) as u32) as char
    } else {
        c
    }
}

/// `s` with each character raised by `ascii_upper`.
pub open spec fn upper_case(s: Seq<char>) -> Seq<char> {
    Seq::new(s.len(), |i: int| ascii_upper(s[i]))
}

/// `s` without its leading whitespace.
pub open spec fn skip_spaces(s: Seq<char>) -> Seq<char>
    decreases s.len(),
{
    if s.len() > 0 && is_space(s[0]) {
        skip_spaces(s.drop_first())
    } else {
        s
    }
}

/// `s` without its trailing whitespace.
pub open spec fn drop_trailing_spaces(s: Seq<char>) -> Seq<char>
    decreases s.len(),
{
    if s.len() > 0 && is_space(s.last()) {
        drop_trailing_spaces(s.drop_last())
    } else {
        s
    }
}

/// `s` without its leading and trailing whitespace.
pub open spec fn trimmed(s: Seq<char>) -> Seq<char> {
    drop_trailing_spaces(skip_spaces(s))
}

/// Whether `s` neither begins nor ends with whitespace.
pub open spec fn is_trim(s: Seq<char>) -> bool {
    s.len() > 0 ==> !is_space(s[0]) && !is_space(s.last())
}

/// Whether `s` holds nothing but whitespace.
pub open spec fn is_blank(s: Seq<char>) -> bool {
    forall|i: int| 0 <= i < s.len() ==> is_space(#[trigger] s[i])
}

/// What is left after the leading whitespace is a tail of the text that does
/// not begin with whitespace.
pub proof fn lemma_skip_spaces(s: Seq<char>)
    ensures
        skip_spaces(s).len() <= s.len(),
        skip_spaces(s) == s.skip(s.len() - skip_spaces(s).len()),
        skip_spaces(s).len() > 0 ==> !is_space(skip_spaces(s)[0]),
        forall|i: int| 0 <= i < s.len() - skip_spaces(s).len() ==> is_space(#[trigger] s[i]),
    decreases s.len(),
{
    if s.len() > 0 && is_space(s[0]) {
        let rest = s.drop_first();
        lemma_skip_spaces(rest);
        let cut = rest.len() - skip_spaces(rest).len();
        assert(rest.skip(cut) =~= s.skip(cut + 1));
        assert forall|i: int| 0 <= i < s.len() - skip_spaces(s).len() implies is_space(
            #[trigger] s[i],
        ) by {
            if i > 0 {
                assert(s[i] == rest[i - 1]);
            }
        }
    } else {
        assert(s.skip(0) =~= s);
    }
}

/// What is left after the trailing whitespace is a head of the text that does
/// not end with whitespace.
pub proof fn lemma_drop_trailing_spaces(s: Seq<char>)
    ensures
        drop_trailing_spaces(s).len() <= s.len(),
        drop_trailing_spaces(s) == s.take(drop_trailing_spaces(s).len() as int),
        drop_trailing_spaces(s).len() > 0 ==> !is_space(drop_trailing_spaces(s).last()),
        forall|i: int| drop_trailing_spaces(s).len() <= i < s.len() ==> is_space(#[trigger] s[i]),
    decreases s.len(),
{
    if s.len() > 0 && is_space(s.last()) {
        let front = s.drop_last();
        lemma_drop_trailing_spaces(front);
        let keep = drop_trailing_spaces(front).len() as int;
        assert(front.take(keep) =~= s.take(keep));
        assert forall|i: int| drop_trailing_spaces(s).len() <= i < s.len() implies is_space(
            #[trigger] s[i],
        ) by {
            if i < s.len() - 1 {
                assert(s[i] == front[i]);
            }
        }
    } else {
        assert(s.take(s.len() as int) =~= s);
    }
}

/// Trimmed text neither begins nor ends with whitespace.
pub proof fn lemma_trimmed_is_trim(s: Seq<char>)
    ensures
        is_trim(trimmed(s)),
{
    let tail = skip_spaces(s);
    lemma_skip_spaces(s);
    lemma_drop_trailing_spaces(tail);
}

/// Blank text trims to nothing, and only blank text does.
pub proof fn lemma_trimmed_blank(s: Seq<char>)
    ensures
        is_blank(s) <==> trimmed(s).len() == 0,
{
    let tail = skip_spaces(s);
    lemma_skip_spaces(s);
    lemma_drop_trailing_spaces(tail);
    let cut = s.len() - tail.len();
    if is_blank(s) {
        if tail.len() > 0 {
            assert(tail[0] == s[cut]);
        }
    }
    if trimmed(s).len() == 0 {
        assert forall|i: int| 0 <= i < s.len() implies is_space(#[trigger] s[i]) by {
            if i >= cut {
                assert(s[i] == tail[i - cut]);
            }
        }
    }
}

/// Raising the case neither makes nor removes whitespace, and leaves no
/// letter of `a` to `z`.
pub proof fn lemma_ascii_upper(c: char)
    ensures
        is_space(ascii_upper(c)) == is_space(c),
        !is_ascii_lower(ascii_upper(c)),
        ascii_upper(ascii_upper(c)) == ascii_upper(c),
{
}

/// Decodes bytes as text.
///
/// Trusted: `core::str::from_utf8` succeeds exactly on well-formed UTF-8,
/// and the text it hands back is stored as the very bytes it was given.
#[verifier::external_body]
pub(crate) fn decode_text(bytes: &[u8]) -> (text: Option<&str>)
    ensures
        text is Some <==> valid_utf8(bytes@),
        text is Some ==> text->0.spec_bytes() == bytes@,
{
    core::str::from_utf8(bytes).ok()
}

/// Trusted: `str::trim` removes the leading and the trailing characters that
/// have the White_Space property, and nothing else.
#[verifier::external_body]
pub(crate) fn trim_text(s: &str) -> (inner: &str)
    ensures
        inner@ == trimmed(s@),
{
    s.trim()
}

/// Trusted: `str::trim_start` removes the leading characters that have the
/// White_Space property, and nothing else.
#[verifier::external_body]
pub(crate) fn trim_text_start(s: &str) -> (tail: &str)
    ensures
        tail@ == skip_spaces(s@),
{
    s.trim_start()
}

/// Trusted: `str::to_ascii_uppercase` copies the text with the ASCII letters
/// `a` to `z` replaced by `A` to `Z` and every other character kept.
#[verifier::external_body]
pub(crate) fn to_upper_text(s: &str) -> (raised: String)
    ensures
        raised@ == upper_case(s@),
{
    s.to_ascii_uppercase()
}

/// Trusted: `str::starts_with`, given a string pattern, tells whether the
/// text begins with the characters of the pattern.
#[verifier::external_body]
pub(crate) fn text_starts_with(s: &str, prefix: &str) -> (found: bool)
    ensures
        found == prefix@.is_prefix_of(s@),
{
    s.starts_with(prefix)
}

} // verus!
