use vstd::prelude::*;
use crate::aggregate::str_eq;
use crate::number::{
    all_digits, check_digits, decimal_micros, digits_value, dot_pos, find_point,
    parse_decimal_micros, read_digits,
};

verus! {

/// A parsed JSON document. Numbers keep their decimal text.
#[derive(Debug)]
pub enum Json {
    Null,
    Bool(bool),
    Number(String),
    Str(String),
    Array(Vec<Json>),
    Object(Vec<Member>),
}

/// One key and value of a JSON object; the keys of an object are distinct.
#[derive(Debug)]
pub struct Member {
    pub key: String,
    pub value: Json,
}

/// Why no reading could be extracted from a response.
#[derive(Clone, Copy, Debug, PartialEq, Eq, Structural)]
pub enum ExtractError {
    /// A bracketed segment does not hold an array index.
    BadIndex,
    /// The index is past the end of the array, or the value is no array.
    IndexOutOfBounds,
    /// The key is absent, or the value is no object.
    KeyNotFound,
    /// The value reached is not a number, nor a string holding one.
    NotANumber,
}

impl ExtractError {
    /// A description of the error.
    pub fn message(&self) -> (r: String)
        ensures
            r@ == match self {
                ExtractError::BadIndex => "index is not a number"@,
                ExtractError::IndexOutOfBounds => "index out of bounds"@,
                ExtractError::KeyNotFound => "key not found"@,
                ExtractError::NotANumber => "value is not a number"@,
            },
    {
        proof {
            reveal_strlit("index is not a number");
            reveal_strlit("index out of bounds");
            reveal_strlit("key not found");
            reveal_strlit("value is not a number");
        }
        match self {
            ExtractError::BadIndex => String::from_str("index is not a number"),
            ExtractError::IndexOutOfBounds => String::from_str("index out of bounds"),
            ExtractError::KeyNotFound => String::from_str("key not found"),
            ExtractError::NotANumber => String::from_str("value is not a number"),
        }
    }
}

/// The segments of a dot-separated path.
pub open spec fn split_dots(s: Seq<char>) -> Seq<Seq<char>>
    decreases s.len(),
{
    let p = dot_pos(s) as int;
    if p < s.len() {
        seq![s.take(p)] + split_dots(s.skip(p + 1))
    } else {
        seq![s]
    }
}

/// The value under a key of an object's members.
pub open spec fn lookup(members: Seq<Member>, key: Seq<char>) -> Option<Json>
    decreases members.len(),
{
    if members.len() == 0 {
        None
    } else if members[0].key@ == key {
        Some(members[0].value)
    } else {
        lookup(members.drop_first(), key)
    }
}

/// Whether a segment is bracketed, as `[3]`.
pub open spec fn is_bracketed(seg: Seq<char>) -> bool {
    seg.len() >= 2 && seg[0] == '\x5b' && seg.last() == '\x5d'
}

/// The array index that text denotes: an optional '+', then digits, at most
/// `usize::MAX`.
pub open spec fn index_of(s: Seq<char>) -> Option<int> {
    let d = if s.len() > 0 && s[0] == '+' {
        s.drop_first()
    } else {
        s
    };
    if d.len() > 0 && all_digits(d) && digits_value(d) <= usize::MAX {
        Some(digits_value(d))
    } else {
        None
    }
}

/// Applies one path segment.
pub open spec fn step(j: Json, seg: Seq<char>) -> Result<Json, ExtractError> {
    if is_bracketed(seg) {
        match index_of(seg.subrange(1, seg.len() - 1)) {
            None => Err(ExtractError::BadIndex),
            Some(i) => match j {
                Json::Array(v) => if i < v@.len() {
                    Ok(v@[i])
                } else {
                    Err(ExtractError::IndexOutOfBounds)
                },
                _ => Err(ExtractError::IndexOutOfBounds),
            },
        }
    } else {
        match j {
            Json::Object(m) => match lookup(m@, seg) {
                Some(x) => Ok(x),
                None => Err(ExtractError::KeyNotFound),
            },
            _ => Err(ExtractError::KeyNotFound),
        }
    }
}

/// Applies path segments in order; the first that fails decides.
pub open spec fn walk(j: Json, segs: Seq<Seq<char>>) -> Result<Json, ExtractError>
    decreases segs.len(),
{
    if segs.len() == 0 {
        Ok(j)
    } else {
        match step(j, segs[0]) {
            Ok(x) => walk(x, segs.drop_first()),
            Err(e) => Err(e),
        }
    }
}

/// The reading, in millionths, that a terminal value holds.
pub open spec fn reading_of(j: Json) -> Result<int, ExtractError> {
    let text = match j {
        Json::Number(t) => Some(t@),
        Json::Str(t) => Some(t@),
        _ => None,
    };
    match text {
        Some(t) => match decimal_micros(t) {
            Some(v) => if i64::MIN <= v <= i64::MAX {
                Ok(v)
            } else {
                Err(ExtractError::NotANumber)
            },
            None => Err(ExtractError::NotANumber),
        },
        None => Err(ExtractError::NotANumber),
    }
}

/// The reading at a path of a document.
pub open spec fn extraction_of(j: Json, path: Seq<char>) -> Result<int, ExtractError> {
    match walk(j, split_dots(path)) {
        Ok(t) => reading_of(t),
        Err(e) => Err(e),
    }
}

fn parse_index(s: &str, from: usize, to: usize) -> (r: Option<usize>)
    requires
        from <= to <= s@.len(),
    ensures
        r.is_some() == index_of(s@.subrange(from as int, to as int)).is_some(),
        r.is_some() ==> r->Some_0 == index_of(s@.subrange(from as int, to as int))->Some_0,
{
    let ghost t = s@.subrange(from as int, to as int);
    let mut start = from;
    if from < to && s.get_char(from) == '+' {
        start = from + 1;
        assert(t.drop_first() =~= s@.subrange(start as int, to as int));
    } else {
        assert(t =~= s@.subrange(start as int, to as int));
    }
    let ghost d = s@.subrange(start as int, to as int);
    proof {
        if from < to && s@[from as int] == '+' {
            assert(t[0] == '+');
        } else if from < to {
            assert(t[0] == s@[from as int]);
        }
    }
    assert(index_of(t) == if d.len() > 0 && all_digits(d) && digits_value(d) <= usize::MAX {
        Some(digits_value(d))
    } else {
        None
    });
    if start == to {
        return None;
    }
    if !check_digits(s, start, to) {
        return None;
    }
    match read_digits(s, start, to, usize::MAX as u128) {
        Some(v) => Some(v as usize),
        None => None,
    }
}

fn lookup_key(members: &Vec<Member>, key: &str) -> (r: Option<usize>)
    ensures
        r.is_some() == lookup(members@, key@).is_some(),
        r.is_some() ==> r->Some_0 < members@.len() && members@[r->Some_0 as int].value == lookup(
            members@,
            key@,
        )->Some_0,
{
    let mut k: usize = 0;
    assert(members@.skip(0) =~= members@);
    while k < members.len()
        invariant
            k <= members@.len(),
            lookup(members@, key@) == lookup(members@.skip(k as int), key@),
        decreases members@.len() - k,
    {
        assert(members@.skip(k as int).drop_first() =~= members@.skip(k + 1));
        if str_eq(members[k].key.as_str(), key) {
            return Some(k);
        }
        k += 1;
    }
    None
}

/// Whether `[from, to)` of the path is a bracketed segment.
fn bracketed(path: &str, from: usize, to: usize) -> (r: bool)
    requires
        from <= to <= path@.len(),
    ensures
        r == is_bracketed(path@.subrange(from as int, to as int)),
{
    to - from >= 2 && path.get_char(from) == '\x5b' && path.get_char(to - 1) == '\x5d'
}

/// The reading of a terminal value.
pub fn reading_value(j: &Json) -> (r: Result<i64, ExtractError>)
    ensures
        match (r, reading_of(*j)) {
            (Ok(a), Ok(b)) => a == b,
            (Err(a), Err(b)) => a == b,
            _ => false,
        },
{
    let text = match j {
        Json::Number(t) => t.as_str(),
        Json::Str(t) => t.as_str(),
        _ => {
            return Err(ExtractError::NotANumber);
        },
    };
    match parse_decimal_micros(text) {
        Some(v) => Ok(v),
        None => Err(ExtractError::NotANumber),
    }
}

/// Follows a dot-separated path of object keys and bracketed array indices,
/// such as `hourly.temperature_2m.[0]`, and reads the number found there, in
/// millionths. The number may be a JSON number or a string holding one.
pub fn extract_value(json: &Json, path: &str) -> (r: Result<i64, ExtractError>)
    ensures
        match (r, extraction_of(*json, path@)) {
            (Ok(a), Ok(b)) => a == b,
            (Err(a), Err(b)) => a == b,
            _ => false,
        },
{
    let n = path.unicode_len();
    let mut cur: &Json = json;
    let mut pos: usize = 0;
    assert(path@.skip(0) =~= path@);
    loop
        invariant
            pos <= n == path@.len(),
            walk(*json, split_dots(path@)) == walk(*cur, split_dots(path@.skip(pos as int))),
        decreases n - pos,
    {
        let p = find_point(path, pos);
        let ghost rest = path@.skip(pos as int);
        let ghost old_cur = *cur;
        let ghost seg = path@.subrange(pos as int, p as int);
        proof {
            if p < n {
                let tail = split_dots(path@.skip(p + 1));
                assert(rest.skip(p - pos + 1) =~= path@.skip(p + 1));
                assert(rest.take(p - pos) =~= seg);
                assert(split_dots(rest) == seq![seg] + tail);
                assert((seq![seg] + tail).drop_first() =~= tail);
                assert((seq![seg] + tail)[0] == seg);
            } else {
                assert(rest =~= seg);
                assert(split_dots(rest) == seq![seg]);
                assert(seq![seg].drop_first() =~= Seq::<Seq<char>>::empty());
            }
        }
        let stepped: Result<&Json, ExtractError> = if bracketed(path, pos, p) {
            assert(seg.subrange(1, seg.len() - 1) =~= path@.subrange(pos + 1, p - 1));
            match parse_index(path, pos + 1, p - 1) {
                None => Err(ExtractError::BadIndex),
                Some(i) => match cur {
                    Json::Array(v) => if i < v.len() {
                        Ok(&v[i])
                    } else {
                        Err(ExtractError::IndexOutOfBounds)
                    },
                    _ => Err(ExtractError::IndexOutOfBounds),
                },
            }
        } else {
            match cur {
                Json::Object(m) => {
                    let key = path.substring_char(pos, p);
                    match lookup_key(m, key) {
                        Some(k) => Ok(&m[k].value),
                        None => Err(ExtractError::KeyNotFound),
                    }
                },
                _ => Err(ExtractError::KeyNotFound),
            }
        };
        match stepped {
            Err(e) => {
                assert(step(old_cur, seg) == Err::<Json, ExtractError>(e));
                return Err(e);
            },
            Ok(next) => {
                assert(step(old_cur, seg) == Ok::<Json, ExtractError>(*next));
                cur = next;
            },
        }
        if p < n {
            pos = p + 1;
        } else {
            assert(split_dots(rest) == seq![seg]);
            assert(walk(*cur, seq![seg].drop_first()) == Ok::<Json, ExtractError>(*cur));
            assert(walk(old_cur, seq![seg]) == Ok::<Json, ExtractError>(*cur));
            return reading_value(cur);
        }
    }
}

} // verus!
