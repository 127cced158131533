//! The two filters that every template may use: `nindent`, which indents a
//! text for a place inside an indented block, and `yaml_encode`, which
//! yields the serialized form of a value.

use vstd::prelude::*;
use vstd::string::StringExecFns;
use crate::document::{Document, NumberView};
use crate::json::{json_as_str, json_as_u64, json_content, json_string};
use crate::text::{push_char, to_chars};

verus! {

/// Why a filter gave no result.
#[derive(Clone, Copy, Debug, PartialEq, Eq, Structural)]
pub enum FilterError {
    /// `nindent` was applied to a value that is no string.
    IncorrectValue,
    /// `nindent` was called without the argument `spaces`.
    MissingSpaces,
    /// The argument `spaces` of `nindent` is no unsigned integer.
    IncorrectSpaces,
}

impl FilterError {
    /// What to tell the author of the template. Each message names the
    /// filter.
    pub fn message(&self) -> (r: String)
        ensures
            r@ == match self {
                FilterError::IncorrectValue =>
                    "Filter `nindent` was called on an incorrect value: expected a String"@,
                FilterError::MissingSpaces => "Filter `nindent` expected an arg called `spaces`"@,
                FilterError::IncorrectSpaces =>
                    "Filter `nindent` received an incorrect type for arg `spaces`: expected a usize"@,
            },
    {
        match self {
            FilterError::IncorrectValue => {
                "Filter `nindent` was called on an incorrect value: expected a String".to_owned()
            },
            FilterError::MissingSpaces => {
                "Filter `nindent` expected an arg called `spaces`".to_owned()
            },
            FilterError::IncorrectSpaces => {
                "Filter `nindent` received an incorrect type for arg `spaces`: expected a usize".to_owned()
            },
        }
    }
}

/// A line break followed by `spaces` space characters.
pub open spec fn line_start(spaces: nat) -> Seq<char> {
    seq!['\n'] + Seq::new(spaces, |i: int| ' ')
}

/// The text with `spaces` space characters put behind each of its line
/// breaks.
pub open spec fn indented(s: Seq<char>, spaces: nat) -> Seq<char>
    decreases s.len(),
{
    if s.len() == 0 {
        Seq::empty()
    } else if s.last() == '\n' {
        indented(s.drop_last(), spaces) + line_start(spaces)
    } else {
        indented(s.drop_last(), spaces).push(s.last())
    }
}

/// What `nindent` yields: a line break, and then the text with every line of
/// it, the first too, indented by `spaces` space characters.
pub open spec fn nindent_text(s: Seq<char>, spaces: nat) -> Seq<char> {
    line_start(spaces) + indented(s, spaces)
}

/// Indents a text for a place inside an indented block.
pub fn nindent(s: &str, spaces: usize) -> (r: String)
    ensures
        r@ == nindent_text(s@, spaces as nat),
{
    let mut start = "\n".to_owned();
    proof {
        reveal_strlit("\n");
        assert(start@ =~= seq!['\n'] + Seq::new(0, |i: int| ' '));
    }
    let mut n: usize = 0;
    while n < spaces
        invariant
            n <= spaces,
            start@ == line_start(n as nat),
        decreases spaces - n,
    {
        push_char(&mut start, ' ');
        n = n + 1;
        assert(start@ =~= line_start(n as nat));
    }
    let chars = to_chars(s);
    let mut out = start.clone();
    let mut i: usize = 0;
    assert(chars@.subrange(0, 0) =~= Seq::<char>::empty());
    assert(out@ =~= line_start(spaces as nat) + Seq::<char>::empty());
    while i < chars.len()
        invariant
            i <= chars.len(),
            start@ == line_start(spaces as nat),
            out@ == line_start(spaces as nat) + indented(chars@.subrange(0, i as int), spaces as nat),
        decreases chars.len() - i,
    {
        let c = chars[i];
        proof {
            let next = chars@.subrange(0, i + 1);
            assert(next.drop_last() =~= chars@.subrange(0, i as int));
            assert(next.last() == c);
        }
        let ghost before = indented(chars@.subrange(0, i as int), spaces as nat);
        if c == '\n' {
            out.append(start.as_str());
            assert(out@ =~= line_start(spaces as nat) + (before + line_start(spaces as nat)));
        } else {
            push_char(&mut out, c);
            assert(out@ =~= line_start(spaces as nat) + before.push(c));
        }
        i = i + 1;
    }
    assert(chars@.subrange(0, i as int) =~= chars@);
    out
}

/// What the filter `nindent` yields for a value and its argument `spaces`.
pub open spec fn nindent_result(value: Document, spaces: Option<Document>) -> Result<
    Document,
    FilterError,
> {
    match value {
        Document::Text(s) => match spaces {
            None => Err(FilterError::MissingSpaces),
            Some(Document::Number(NumberView::PosInt(n))) => if n <= usize::MAX {
                Ok(Document::Text(nindent_text(s, n as nat)))
            } else {
                Err(FilterError::IncorrectSpaces)
            },
            Some(_) => Err(FilterError::IncorrectSpaces),
        },
        _ => Err(FilterError::IncorrectValue),
    }
}

/// The document that an optional JSON value holds.
pub open spec fn optional_content(j: Option<&serde_json::Value>) -> Option<Document> {
    match j {
        Some(j) => Some(json_content(*j)),
        None => None,
    }
}

/// The filter `nindent`: the value must be a string, and the argument
/// `spaces` must be there and be an unsigned integer that fits the machine.
pub fn nindent_filter(value: &serde_json::Value, spaces: Option<&serde_json::Value>) -> (r: Result<
    serde_json::Value,
    FilterError,
>)
    ensures
        match nindent_result(json_content(*value), optional_content(spaces)) {
            Ok(document) => r is Ok && json_content(r->Ok_0) == document,
            Err(e) => r == Err::<serde_json::Value, FilterError>(e),
        },
{
    let text = match json_as_str(value) {
        Some(text) => text,
        None => {
            return Err(FilterError::IncorrectValue);
        },
    };
    let spaces = match spaces {
        None => {
            return Err(FilterError::MissingSpaces);
        },
        Some(given) => match json_as_u64(given) {
            Some(n) => {
                if n > usize::MAX as u64 {
                    return Err(FilterError::IncorrectSpaces);
                }
                n as usize
            },
            None => {
                return Err(FilterError::IncorrectSpaces);
            },
        },
    };
    Ok(json_string(nindent(text, spaces)))
}

/// True of the characters that count as white space: those with the Unicode
/// property `White_Space`.
pub open spec fn is_space(c: char) -> bool {
    ||| '\u{9}' <= c <= '\u{d}'
    ||| c == ' '
    ||| c == '\u{85}'
    ||| c == '\u{a0}'
    ||| c == '\u{1680}'
    ||| '\u{2000}' <= c <= '\u{200a}'
    ||| c == '\u{2028}'
    ||| c == '\u{2029}'
    ||| c == '\u{202f}'
    ||| c == '\u{205f}'
    ||| c == '\u{3000}'
}

/// Decides whether a character counts as white space.
pub fn space(c: char) -> (r: bool)
    ensures
        r == is_space(c),
{
    (c >= '\u{9}' && c <= '\u{d}') || c == ' ' || c == '\u{85}' || c == '\u{a0}' || c == '\u{1680}'
        || (c >= '\u{2000}' && c <= '\u{200a}') || c == '\u{2028}' || c == '\u{2029}' || c
        == '\u{202f}' || c == '\u{205f}' || c == '\u{3000}'
}

/// The text without the white space at its start.
pub open spec fn without_leading_space(s: Seq<char>) -> Seq<char>
    decreases s.len(),
{
    if s.len() > 0 && is_space(s[0]) {
        without_leading_space(s.subrange(1, s.len() as int))
    } else {
        s
    }
}

/// The text without the white space at its end.
pub open spec fn without_trailing_space(s: Seq<char>) -> Seq<char>
    decreases s.len(),
{
    if s.len() > 0 && is_space(s[s.len() - 1]) {
        without_trailing_space(s.subrange(0, s.len() - 1))
    } else {
        s
    }
}

/// The text without the white space at its start and at its end.
pub open spec fn stripped(s: Seq<char>) -> Seq<char> {
    without_trailing_space(without_leading_space(s))
}

/// Strips the white space from both ends of a text.
pub fn strip(s: &str) -> (r: String)
    ensures
        r@ == stripped(s@),
{
    let chars = to_chars(s);
    let len = chars.len();
    assert(chars@.subrange(0, len as int) =~= chars@);
    let mut start: usize = 0;
    while start < len && space(chars[start])
        invariant
            len == chars.len(),
            start <= len,
            without_leading_space(chars@) == without_leading_space(
                chars@.subrange(start as int, len as int),
            ),
        decreases len - start,
    {
        proof {
            let cur = chars@.subrange(start as int, len as int);
            assert(cur[0] == chars@[start as int]);
            assert(cur.subrange(1, cur.len() as int) =~= chars@.subrange(start + 1, len as int));
        }
        start = start + 1;
    }
    let ghost tail = chars@.subrange(start as int, len as int);
    assert(without_leading_space(chars@) == tail) by {
        if start < len {
            assert(tail[0] == chars@[start as int]);
        }
    }
    let mut end: usize = len;
    while end > start && space(chars[end - 1])
        invariant
            len == chars.len(),
            start <= end <= len,
            tail == chars@.subrange(start as int, len as int),
            without_trailing_space(tail) == without_trailing_space(
                chars@.subrange(start as int, end as int),
            ),
        decreases end - start,
    {
        proof {
            let cur = chars@.subrange(start as int, end as int);
            assert(cur[cur.len() - 1] == chars@[end - 1]);
            assert(cur.subrange(0, cur.len() - 1) =~= chars@.subrange(start as int, end - 1));
        }
        end = end - 1;
    }
    assert(without_trailing_space(tail) == chars@.subrange(start as int, end as int)) by {
        let cur = chars@.subrange(start as int, end as int);
        if end > start {
            assert(cur[cur.len() - 1] == chars@[end - 1]);
        }
    }
    let mut out = String::new();
    let mut i: usize = start;
    assert(chars@.subrange(start as int, start as int) =~= Seq::<char>::empty());
    while i < end
        invariant
            start <= i <= end <= chars.len(),
            out@ == chars@.subrange(start as int, i as int),
        decreases end - i,
    {
        push_char(&mut out, chars[i]);
        assert(out@ =~= chars@.subrange(start as int, i + 1));
        i = i + 1;
    }
    out
}

/// What `serde_yaml::to_string` gives for a JSON value that holds the
/// document: the text, or nothing where it fails.
pub uninterp spec fn yaml_text(d: Document) -> Option<Seq<char>>;

/// Calls `serde_yaml::to_string` on a JSON value. Trusted: the text is a
/// function of the document that the value holds, since the serializer walks
/// the value and a JSON map gives its entries in the order of their keys.
#[verifier::external_body]
fn yaml_to_string(j: &serde_json::Value) -> (r: Result<String, String>)
    ensures
        match r {
            Ok(text) => yaml_text(json_content(*j)) == Some(text@),
            Err(_) => yaml_text(json_content(*j)) is None,
        },
{
    serde_yaml::to_string(j).map_err(|e| e.to_string())
}

/// The filter `yaml_encode`: the serialized form of the value, in block
/// style, without the white space at its ends. Fails, with the cause, where
/// the value cannot be serialized.
pub fn yaml_encode_filter(value: &serde_json::Value) -> (r: Result<serde_json::Value, String>)
    ensures
        match yaml_text(json_content(*value)) {
            Some(text) => r is Ok && json_content(r->Ok_0) == Document::Text(stripped(text)),
            None => r is Err,
        },
{
    match yaml_to_string(value) {
        Ok(text) => Ok(json_string(strip(text.as_str()))),
        Err(cause) => Err(cause),
    }
}

} // verus!
