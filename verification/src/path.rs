//! Path extraction: resolving a dotted path with optional `[index]` parts
//! against a JSON value.
//!
//! A path is an optional leading `$.` followed by segments joined by `.`.
//! A segment is a field name, or a field name, `[`, and an index. The index
//! text runs to the end of the segment, closing brackets at its end dropped.

use crate::json::{element, member, JsonModel, JsonValue};
use crate::text::{
    chars_of, find_char, first_index_of, parse_usize, read_usize, substring, trim_trailing,
    trim_trailing_end, u64_text, decimal_text,
};
use vstd::prelude::*;
use vstd::string::StrSliceExecFns;
use vstd::string::StringExecFns;

verus! {

/// Why a path did not resolve.
#[derive(Debug)]
pub enum PathError {
    /// The value has no member of this name (or is no object).
    FieldNotFound(String),
    /// The value has no element at this position (or is no array).
    IndexOutOfBounds(usize),
    /// The text between the brackets is no index.
    InvalidIndex(String),
}

/// The mathematical value of a [`PathError`].
pub ghost enum PathFailure {
    FieldNotFound(Seq<char>),
    IndexOutOfBounds(usize),
    InvalidIndex(Seq<char>),
}

impl View for PathError {
    type V = PathFailure;

    open spec fn view(&self) -> PathFailure {
        match self {
            PathError::FieldNotFound(field) => PathFailure::FieldNotFound(field@),
            PathError::IndexOutOfBounds(index) => PathFailure::IndexOutOfBounds(*index),
            PathError::InvalidIndex(text) => PathFailure::InvalidIndex(text@),
        }
    }
}

/// The two ways a path can fail: the document lacks what the path names, or
/// the path itself is malformed.
#[derive(Debug, Clone, Copy, PartialEq, Eq, Structural)]
pub enum PathErrorKind {
    NotFound,
    BadPath,
}

impl PathFailure {
    /// Whether the document lacked something, or the path was malformed.
    pub open spec fn kind(self) -> PathErrorKind {
        match self {
            PathFailure::FieldNotFound(_) => PathErrorKind::NotFound,
            PathFailure::IndexOutOfBounds(_) => PathErrorKind::NotFound,
            PathFailure::InvalidIndex(_) => PathErrorKind::BadPath,
        }
    }

    /// The error as a sentence.
    pub open spec fn message(self) -> Seq<char> {
        match self {
            PathFailure::FieldNotFound(field) => "Field not found: "@ + field,
            PathFailure::IndexOutOfBounds(index) => "Array index out of bounds: "@ + decimal_text(
                index as int,
            ),
            PathFailure::InvalidIndex(text) => "Invalid array index: "@ + text,
        }
    }
}

impl PathError {
    /// Whether the document lacked something, or the path was malformed.
    pub fn kind(&self) -> (k: PathErrorKind)
        ensures
            k == self@.kind(),
    {
        match self {
            PathError::FieldNotFound(_) => PathErrorKind::NotFound,
            PathError::IndexOutOfBounds(_) => PathErrorKind::NotFound,
            PathError::InvalidIndex(_) => PathErrorKind::BadPath,
        }
    }

    /// The error as a sentence.
    pub fn message(&self) -> (m: String)
        ensures
            m@ == self@.message(),
    {
        match self {
            PathError::FieldNotFound(field) => {
                let mut m = String::from_str("Field not found: ");
                m.append(field.as_str());
                m
            },
            PathError::IndexOutOfBounds(index) => {
                let mut m = String::from_str("Array index out of bounds: ");
                let digits = u64_text(*index as u64);
                m.append(digits.as_str());
                m
            },
            PathError::InvalidIndex(text) => {
                let mut m = String::from_str("Invalid array index: ");
                m.append(text.as_str());
                m
            },
        }
    }
}

/// The path without its optional leading `$.`.
pub open spec fn path_body(path: Seq<char>) -> Seq<char> {
    if path.len() >= 2 && path[0] == '$' && path[1] == '.' {
        path.skip(2)
    } else {
        path
    }
}

/// One segment applied to `cur`: a member lookup, followed by an element
/// lookup where the segment holds a `[`. The index text is judged before
/// anything is looked up.
pub open spec fn step(cur: JsonModel, seg: Seq<char>) -> Result<JsonModel, PathFailure> {
    let b = first_index_of(seg, '[');
    if 0 <= b < seg.len() {
        let field = seg.take(b);
        let text = trim_trailing(seg.skip(b + 1), ']');
        match parse_usize(text) {
            None => Err(PathFailure::InvalidIndex(text)),
            Some(index) => match member(cur, field) {
                None => Err(PathFailure::FieldNotFound(field)),
                Some(inner) => match element(inner, index as int) {
                    None => Err(PathFailure::IndexOutOfBounds(index)),
                    Some(v) => Ok(v),
                },
            },
        }
    } else {
        match member(cur, seg) {
            None => Err(PathFailure::FieldNotFound(seg)),
            Some(v) => Ok(v),
        }
    }
}

/// The segments of `rest`, applied to `cur` from left to right. The first
/// segment that fails gives the error.
pub open spec fn walk(cur: JsonModel, rest: Seq<char>) -> Result<JsonModel, PathFailure>
    decreases rest.len(),
{
    let k = first_index_of(rest, '.');
    match step(cur, rest.take(k)) {
        Err(e) => Err(e),
        Ok(next) => if 0 <= k < rest.len() {
            walk(next, rest.skip(k + 1))
        } else {
            Ok(next)
        },
    }
}

/// What `path` resolves to in `payload`.
pub open spec fn extract(payload: JsonModel, path: Seq<char>) -> Result<JsonModel, PathFailure> {
    walk(payload, path_body(path))
}

/// The leading `$.` is optional: a path resolves to the same result with
/// and without it. (A path that itself begins with `$.` is left out: with one
/// more `$.` in front, only the first is dropped.)
pub proof fn lemma_dollar_prefix_is_optional(payload: JsonModel, path: Seq<char>)
    requires
        path_body(path) == path,
    ensures
        extract(payload, seq!['$', '.'] + path) == extract(payload, path),
{
    let longer = seq!['$', '.'] + path;
    assert(longer.skip(2) =~= path);
}

/// An index at or past the length of an array is not found: the segment
/// fails with `IndexOutOfBounds`, whose kind is `NotFound`.
pub proof fn lemma_index_at_length_not_found(
    cur: JsonModel,
    seg: Seq<char>,
    items: Seq<JsonModel>,
    index: usize,
)
    requires
        0 <= first_index_of(seg, '[') < seg.len(),
        parse_usize(trim_trailing(seg.skip(first_index_of(seg, '[') + 1), ']')) == Some(index),
        member(cur, seg.take(first_index_of(seg, '['))) == Some(JsonModel::Array(items)),
        index >= items.len(),
    ensures
        step(cur, seg) == Err::<JsonModel, PathFailure>(PathFailure::IndexOutOfBounds(index)),
        PathFailure::IndexOutOfBounds(index).kind() == PathErrorKind::NotFound,
        element(JsonModel::Array(items), items.len() as int) is None,
{
}

/// Applies the segment `chars[from..to]` to `current`.
fn step_into<'a>(
    current: &'a JsonValue,
    path: &str,
    chars: &Vec<char>,
    from: usize,
    to: usize,
) -> (r: Result<&'a JsonValue, PathError>)
    requires
        chars@ == path@,
        from <= to <= chars.len(),
    ensures
        match r {
            Ok(v) => step(current@, chars@.subrange(from as int, to as int)) == Ok::<
                JsonModel,
                PathFailure,
            >(v@),
            Err(e) => step(current@, chars@.subrange(from as int, to as int)) == Err::<
                JsonModel,
                PathFailure,
            >(e@),
        },
{
    let ghost seg = chars@.subrange(from as int, to as int);
    let bracket = find_char(chars, from, to, '[');
    if bracket < to {
        let end = trim_trailing_end(chars, bracket + 1, to, ']');
        proof {
            assert(seg.take(bracket - from) == chars@.subrange(from as int, bracket as int));
            assert(seg.skip(bracket - from + 1) == chars@.subrange(bracket + 1, to as int));
        }
        match read_usize(chars, bracket + 1, end) {
            None => Err(PathError::InvalidIndex(substring(path, bracket + 1, end))),
            Some(index) => match current.get_member(path.substring_char(from, bracket)) {
                None => Err(PathError::FieldNotFound(substring(path, from, bracket))),
                Some(inner) => match inner.get_element(index) {
                    None => Err(PathError::IndexOutOfBounds(index)),
                    Some(v) => Ok(v),
                },
            },
        }
    } else {
        match current.get_member(path.substring_char(from, to)) {
            None => Err(PathError::FieldNotFound(substring(path, from, to))),
            Some(v) => Ok(v),
        }
    }
}

/// Resolves `path` against `payload` and returns the value it names.
///
/// Fails with a `NotFound` kind of error where a named member is missing,
/// where a value that is indexed is no array, and where an index is past the
/// array's end; with a `BadPath` kind where the text of an index is no
/// unsigned decimal numeral.
pub fn extract_json_path<'a>(payload: &'a JsonValue, path: &str) -> (r: Result<
    &'a JsonValue,
    PathError,
>)
    ensures
        match r {
            Ok(v) => extract(payload@, path@) == Ok::<JsonModel, PathFailure>(v@),
            Err(e) => extract(payload@, path@) == Err::<JsonModel, PathFailure>(e@),
        },
{
    let chars = chars_of(path);
    let n = chars.len();
    let start: usize = if n >= 2 && chars[0] == '$' && chars[1] == '.' {
        2
    } else {
        0
    };
    assert(chars@.skip(0) == chars@);
    let mut current = payload;
    let mut pos = start;
    loop
        invariant
            chars@ == path@,
            n == chars.len(),
            pos <= n,
            walk(current@, chars@.skip(pos as int)) == extract(payload@, path@),
        decreases n - pos,
    {
        let ghost rest = chars@.skip(pos as int);
        let dot = find_char(&chars, pos, n, '.');
        proof {
            assert(chars@.subrange(pos as int, n as int) == rest);
            assert(rest.take(dot - pos) == chars@.subrange(pos as int, dot as int));
        }
        match step_into(current, path, &chars, pos, dot) {
            Err(e) => {
                return Err(e);
            },
            Ok(next) => {
                if dot == n {
                    return Ok(next);
                }
                proof {
                    assert(rest.skip(dot - pos + 1) == chars@.skip(dot + 1));
                }
                current = next;
                pos = dot + 1;
            },
        }
    }
}

} // verus!
