//! Turning project and application names into identifiers that the target
//! platform accepts: at most 253 characters out of `[a-z0-9.-]`, neither
//! starting nor ending with `-`.

use vstd::prelude::*;
use vstd::string::StrSliceExecFns;

verus! {

/// Longest identifier, in characters, that the target platform accepts.
pub const MAX_NAME_LEN: usize = 253;

/// True of the characters an identifier may hold: lower-case ASCII letters,
/// digits, `.` and `-`.
pub open spec fn is_name_char(c: char) -> bool {
    ('a' <= c && c <= 'z') || ('0' <= c && c <= '9') || c == '.' || c == '-'
}

/// True of a text made of identifier characters only.
pub open spec fn is_name_text(s: Seq<char>) -> bool {
    forall|i: int| 0 <= i < s.len() ==> is_name_char(#[trigger] s[i])
}

/// The text with every character that no identifier may hold replaced by `-`.
pub open spec fn replaced(s: Seq<char>) -> Seq<char> {
    Seq::new(s.len(), |i: int| if is_name_char(s[i]) { s[i] } else { '-' })
}

/// The first `MAX_NAME_LEN` characters of the text, or all of it if it is shorter.
pub open spec fn truncated(s: Seq<char>) -> Seq<char> {
    if s.len() > MAX_NAME_LEN {
        s.subrange(0, MAX_NAME_LEN as int)
    } else {
        s
    }
}

/// The text without its leading `-` characters.
pub open spec fn trimmed_start(s: Seq<char>) -> Seq<char>
    decreases s.len(),
{
    if s.len() > 0 && s[0] == '-' {
        trimmed_start(s.subrange(1, s.len() as int))
    } else {
        s
    }
}

/// The text without its trailing `-` characters.
pub open spec fn trimmed_end(s: Seq<char>) -> Seq<char>
    decreases s.len(),
{
    if s.len() > 0 && s[s.len() - 1] == '-' {
        trimmed_end(s.subrange(0, s.len() - 1))
    } else {
        s
    }
}

/// The text without its leading and trailing `-` characters.
pub open spec fn trimmed(s: Seq<char>) -> Seq<char> {
    trimmed_end(trimmed_start(s))
}

/// The identifier made from a text that has already been lower-cased.
pub open spec fn sanitized_lowered(lowered: Seq<char>) -> Seq<char> {
    trimmed(truncated(replaced(lowered)))
}

/// True of the texts that the target platform accepts as an identifier: only
/// identifier characters, at most `MAX_NAME_LEN` of them, and no `-` at
/// either end. The empty text is one of them.
pub open spec fn is_identifier(s: Seq<char>) -> bool {
    &&& is_name_text(s)
    &&& s.len() <= MAX_NAME_LEN
    &&& s.len() > 0 ==> s[0] != '-' && s[s.len() - 1] != '-'
}

/// What `str::to_lowercase` returns for a text.
pub uninterp spec fn lowercased(s: Seq<char>) -> Seq<char>;

/// The lower-case form of a text. A text made of identifier characters only
/// is its own lower-case form; of any other text it is what the standard
/// library computes.
pub open spec fn lowercase_of(s: Seq<char>) -> Seq<char> {
    if is_name_text(s) {
        s
    } else {
        lowercased(s)
    }
}

/// The identifier made from a name: lower-cased, every other character
/// replaced by `-`, cut to `MAX_NAME_LEN` characters, and then stripped of
/// leading and trailing `-`.
pub open spec fn sanitized(name: Seq<char>) -> Seq<char> {
    sanitized_lowered(lowercase_of(name))
}

/// Calls `str::to_lowercase`, the Unicode lower-casing of the standard
/// library. Trusted: the result is a function of the text alone, and a text
/// that holds only lower-case ASCII letters, digits, `.` and `-` comes back
/// unchanged, since none of these characters has another lower-case form.
#[verifier::external_body]
fn to_lowercase(s: &str) -> (r: String)
    ensures
        r@ == lowercase_of(s@),
        !is_name_text(s@) ==> r@ == lowercased(s@),
{
    s.to_lowercase()
}

/// Calls `regex::Regex::new` on `pattern` and then `Regex::replace_all` on
/// `haystack` with the replacement text. Trusted, for the one pattern that
/// `requires` admits: the pattern compiles; it is a negated character class,
/// so each match is exactly one character outside `[-a-z0-9.]`, and every
/// such character is a match; the replacement holds no `$`, so each match
/// becomes `-` and the rest of the haystack is kept as it is.
#[verifier::external_body]
fn replace_all(pattern: &str, haystack: &str, replacement: &str) -> (r: String)
    requires
        pattern@ == "[^-a-z0-9.]"@,
        replacement@ == "-"@,
    ensures
        r@ == replaced(haystack@),
{
    regex::Regex::new(pattern).unwrap().replace_all(haystack, replacement).into_owned()
}

/// The identifier characters are ASCII, so a text that `replaced` yields is.
pub proof fn lemma_replaced_is_name_text(s: Seq<char>)
    ensures
        is_name_text(replaced(s)),
        vstd::utf8::is_ascii_chars(replaced(s)),
        replaced(s).len() == s.len(),
{
}

/// `trimmed_start` keeps a suffix of the text, which does not start with `-`,
/// and drops nothing but `-`.
pub proof fn lemma_trimmed_start(s: Seq<char>)
    ensures
        trimmed_start(s).len() <= s.len(),
        trimmed_start(s) == s.subrange(s.len() - trimmed_start(s).len(), s.len() as int),
        trimmed_start(s).len() > 0 ==> trimmed_start(s)[0] != '-',
        forall|i: int| 0 <= i < s.len() - trimmed_start(s).len() ==> s[i] == '-',
    decreases s.len(),
{
    if s.len() > 0 && s[0] == '-' {
        let rest = s.subrange(1, s.len() as int);
        lemma_trimmed_start(rest);
        let kept = trimmed_start(rest);
        assert(kept =~= s.subrange(s.len() - kept.len(), s.len() as int));
        assert forall|i: int| 0 <= i < s.len() - kept.len() implies s[i] == '-' by {
            if i > 0 {
                assert(rest[i - 1] == s[i]);
            }
        }
    } else {
        assert(s =~= s.subrange(0, s.len() as int));
    }
}

/// `trimmed_end` keeps a prefix of the text, which does not end with `-`,
/// and drops nothing but `-`.
pub proof fn lemma_trimmed_end(s: Seq<char>)
    ensures
        trimmed_end(s).len() <= s.len(),
        trimmed_end(s) == s.subrange(0, trimmed_end(s).len() as int),
        trimmed_end(s).len() > 0 ==> trimmed_end(s)[trimmed_end(s).len() - 1] != '-',
        forall|i: int| trimmed_end(s).len() <= i < s.len() ==> s[i] == '-',
    decreases s.len(),
{
    if s.len() > 0 && s[s.len() - 1] == '-' {
        let rest = s.subrange(0, s.len() - 1);
        lemma_trimmed_end(rest);
        let kept = trimmed_end(rest);
        assert(kept =~= s.subrange(0, kept.len() as int));
        assert forall|i: int| kept.len() <= i < s.len() implies s[i] == '-' by {
            if i < s.len() - 1 {
                assert(rest[i] == s[i]);
            }
        }
    } else {
        assert(s =~= s.subrange(0, s.len() as int));
    }
}

/// Whatever the lower-casing yields, the result is an identifier.
pub proof fn lemma_sanitized_lowered_is_identifier(lowered: Seq<char>)
    ensures
        is_identifier(sanitized_lowered(lowered)),
{
    let cut = truncated(replaced(lowered));
    let head = trimmed_start(cut);
    let kept = trimmed_end(head);
    lemma_trimmed_start(cut);
    lemma_trimmed_end(head);
    assert(is_name_text(cut));
    assert forall|i: int| 0 <= i < kept.len() implies is_name_char(#[trigger] kept[i]) by {
        assert(kept[i] == head[i]);
        assert(head[i] == cut[cut.len() - head.len() + i]);
    }
    if kept.len() > 0 {
        assert(kept[0] == head[0]);
    }
}

/// The sanitizer yields an identifier for every name: it holds only
/// characters of `[a-z0-9.-]`, at most 253 of them, and neither starts nor
/// ends with `-`.
pub proof fn lemma_sanitized_is_identifier(name: Seq<char>)
    ensures
        is_identifier(sanitized(name)),
{
    lemma_sanitized_lowered_is_identifier(lowercase_of(name));
}

/// The sanitizer leaves an identifier as it is.
pub proof fn lemma_identifier_unchanged(s: Seq<char>)
    requires
        is_identifier(s),
    ensures
        sanitized(s) == s,
{
    assert(lowercase_of(s) == s);
    assert(replaced(s) =~= s);
    assert(truncated(s) == s);
    assert(trimmed_start(s) == s);
    assert(trimmed_end(s) == s);
}

/// Sanitizing twice gives what sanitizing once gives.
pub proof fn lemma_sanitize_idempotent(name: Seq<char>)
    ensures
        sanitized(sanitized(name)) == sanitized(name),
{
    lemma_sanitized_is_identifier(name);
    lemma_identifier_unchanged(sanitized(name));
}

/// Strips leading and trailing `-` from an ASCII text.
fn trim_dashes(s: &str) -> (r: String)
    requires
        s.is_ascii(),
    ensures
        r@ == trimmed(s@),
{
    let len = s.unicode_len();
    assert(s@.subrange(0, len as int) =~= s@);
    let mut start: usize = 0;
    while start < len && s.get_ascii(start) == 45u8
        invariant
            s.is_ascii(),
            len == s@.len(),
            start <= len,
            trimmed_start(s@) == trimmed_start(s@.subrange(start as int, len as int)),
        decreases len - start,
    {
        proof {
            let cur = s@.subrange(start as int, len as int);
            assert(cur[0] == s@[start as int]);
            assert(cur.subrange(1, cur.len() as int) =~= s@.subrange(start + 1, len as int));
        }
        start = start + 1;
    }
    let ghost tail = s@.subrange(start as int, len as int);
    assert(trimmed_start(s@) == tail) by {
        if start < len {
            assert(tail[0] == s@[start as int]);
        }
    }
    let mut end: usize = len;
    while end > start && s.get_ascii(end - 1) == 45u8
        invariant
            s.is_ascii(),
            len == s@.len(),
            start <= end <= len,
            trimmed_end(tail) == trimmed_end(s@.subrange(start as int, end as int)),
            tail == s@.subrange(start as int, len as int),
        decreases end - start,
    {
        proof {
            let cur = s@.subrange(start as int, end as int);
            assert(cur[cur.len() - 1] == s@[end - 1]);
            assert(cur.subrange(0, cur.len() - 1) =~= s@.subrange(start as int, end - 1));
        }
        end = end - 1;
    }
    assert(trimmed_end(tail) == s@.subrange(start as int, end as int)) by {
        let cur = s@.subrange(start as int, end as int);
        if end > start {
            assert(cur[cur.len() - 1] == s@[end - 1]);
        }
    }
    s.substring_ascii(start, end).to_owned()
}

/// Makes the identifier from a name that has already been lower-cased.
pub fn sanitize_lowered(lowered: &str) -> (r: String)
    ensures
        r@ == sanitized_lowered(lowered@),
        is_identifier(r@),
{
    let replaced_text = replace_all("[^-a-z0-9.]", lowered, "-");
    let text = replaced_text.as_str();
    proof {
        lemma_replaced_is_name_text(lowered@);
        lemma_sanitized_lowered_is_identifier(lowered@);
    }
    if text.unicode_len() > MAX_NAME_LEN {
        trim_dashes(text.substring_ascii(0, MAX_NAME_LEN))
    } else {
        trim_dashes(text)
    }
}

/// Makes the identifier from a project or application name.
pub fn sanitize_name(name: &str) -> (r: String)
    ensures
        r@ == sanitized(name@),
        is_identifier(r@),
{
    let lowered = to_lowercase(name);
    sanitize_lowered(lowered.as_str())
}

} // verus!
