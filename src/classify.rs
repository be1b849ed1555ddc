use vstd::prelude::*;

use crate::error::TransformError;
use crate::text::{
    chars_of, find_sep, find_sep_from, has_char, is_white_space, lemma_trim_end_prefix,
    lemma_trim_of_trimmed, lemma_trim_start_suffix, same_chars, skip_white_space,
    skip_white_space_back, string_of_range, trim, trim_start, two_parts,
};

verus! {

/// How an assigned value is written back: decides quoting, nothing else.
#[derive(Debug, Clone, Copy, PartialEq, Eq, Structural)]
pub enum VariableType {
    /// Exactly `true` or `false`.
    Boolean,
    /// Starts with a double quote.
    QuotedString,
    /// Anything else (numbers, bare words), passed through as it is.
    Transparent,
}

/// The form of a line used to recognise structure: trimmed, and with one
/// leading `#` comment marker and the whitespace after it removed.
pub open spec fn normalize(s: Seq<char>) -> Seq<char> {
    let t = trim(s);
    if t.len() > 0 && t[0] == '#' {
        trim_start(t.drop_first())
    } else {
        t
    }
}

/// `key = value` with exactly one separator and no space in the key.
pub open spec fn is_assignment(s: Seq<char>) -> bool {
    &&& s.len() >= 3
    &&& find_sep_from(s, 0) is Some
    &&& match two_parts(trim_start(s)) {
        Some((key, _)) => !key.contains(' '),
        None => false,
    }
}

pub open spec fn true_word() -> Seq<char> {
    seq!['t', 'r', 'u', 'e']
}

pub open spec fn false_word() -> Seq<char> {
    seq!['f', 'a', 'l', 's', 'e']
}

pub open spec fn value_type(v: Seq<char>) -> VariableType {
    if v == true_word() || v == false_word() {
        VariableType::Boolean
    } else if v.len() > 0 && v[0] == '"' {
        VariableType::QuotedString
    } else {
        VariableType::Transparent
    }
}

/// A normalized line is empty or has no whitespace at either end.
pub proof fn lemma_normalized_is_trimmed(s: Seq<char>)
    ensures
        normalize(s).len() > 0 ==> !is_white_space(normalize(s)[0]) && !is_white_space(
            normalize(s).last(),
        ),
{
    let t0 = trim_start(s);
    let t = trim(s);
    lemma_trim_start_suffix(s);
    lemma_trim_end_prefix(t0);
    if t.len() > 0 && t[0] == '#' {
        let d = t.drop_first();
        lemma_trim_start_suffix(d);
        let n = trim_start(d);
        if n.len() > 0 {
            assert(n.last() == d.last());
        }
    } else if t.len() > 0 {
        assert(t[0] == t0[0]);
    }
}

/// Normalizing twice changes nothing more.
pub proof fn lemma_normalized_stable(s: Seq<char>)
    requires
        s.len() > 0 ==> s[0] != '#',
        s.len() > 0 ==> !is_white_space(s[0]) && !is_white_space(s.last()),
    ensures
        normalize(s) == s,
{
    lemma_trim_of_trimmed(s);
}

pub fn normalized_line(line: &str) -> (r: String)
    ensures
        r@ == normalize(line@),
{
    let v = chars_of(line);
    let a = skip_white_space(&v, 0, v.len());
    let b = skip_white_space_back(&v, a, v.len());
    assert(v@.subrange(0, v.len() as int) == v@);
    if a < b && v[a] == '#' {
        let c = skip_white_space(&v, a + 1, b);
        assert(v@.subrange(a as int, b as int).drop_first() == v@.subrange(a + 1, b as int));
        string_of_range(&v, c, b)
    } else {
        string_of_range(&v, a, b)
    }
}

/// Where `v` splits into exactly two parts on the separator.
fn split_index(v: &Vec<char>) -> (r: Option<usize>)
    ensures
        match two_parts(v@) {
            Some(p) => r matches Some(i) && i + 3 <= v.len() && p == (v@.take(i as int), v@.skip(
                i + 3,
            )),
            None => r is None,
        },
{
    match find_sep(v, 0) {
        Some(i) => match find_sep(v, i + 3) {
            Some(_) => None,
            None => Some(i),
        },
        None => None,
    }
}

fn sub_chars(v: &Vec<char>, a: usize, b: usize) -> (r: Vec<char>)
    requires
        a <= b <= v.len(),
    ensures
        r@ == v@.subrange(a as int, b as int),
{
    let mut r: Vec<char> = Vec::new();
    let mut i: usize = a;
    while i < b
        invariant
            a <= i <= b <= v.len(),
            r@ == v@.subrange(a as int, i as int),
        decreases b - i,
    {
        r.push(v[i]);
        assert(v@.subrange(a as int, i + 1) == v@.subrange(a as int, i as int).push(v@[i as int]));
        i += 1;
    }
    r
}

pub fn is_config_line(line: &str) -> (r: bool)
    ensures
        r == is_assignment(line@),
{
    let v = chars_of(line);
    if v.len() < 3 {
        return false;
    }
    if find_sep(&v, 0).is_none() {
        return false;
    }
    let a = skip_white_space(&v, 0, v.len());
    assert(v@.subrange(0, v.len() as int) == v@);
    let w = sub_chars(&v, a, v.len());
    match split_index(&w) {
        Some(i) => {
            assert(w@.subrange(0, i as int) == w@.take(i as int));
            !has_char(&w, 0, i, ' ')
        },
        None => false,
    }
}

pub fn type_of_value(value: &str) -> (r: VariableType)
    ensures
        r == value_type(value@),
{
    let v = chars_of(value);
    let t = vec!['t', 'r', 'u', 'e'];
    let f = vec!['f', 'a', 'l', 's', 'e'];
    assert(t@ == true_word());
    assert(f@ == false_word());
    if same_chars(&v, &t) || same_chars(&v, &f) {
        return VariableType::Boolean;
    }
    if v.len() > 0 && v[0] == '"' {
        return VariableType::QuotedString;
    }
    VariableType::Transparent
}

/// Splits an assignment line into its key, its value and the value's type.
pub fn parse_config_line(line: &str) -> (r: Result<(String, String, VariableType), TransformError>)
    ensures
        match two_parts(line@) {
            Some((key, value)) => r matches Ok((k, v, t)) && k@ == key && v@ == value && t
                == value_type(value),
            None => r matches Err(TransformError::MalformedAssignment { line: l }) && l@ == line@,
        },
{
    let v = chars_of(line);
    match split_index(&v) {
        Some(i) => {
            assert(v@.subrange(0, i as int) == v@.take(i as int));
            assert(v@.subrange(i + 3, v.len() as int) == v@.skip(i + 3));
            let key = string_of_range(&v, 0, i);
            let value = string_of_range(&v, i + 3, v.len());
            let t = type_of_value(value.as_str());
            Ok((key, value, t))
        },
        None => Err(TransformError::MalformedAssignment { line: string_of_range_all(&v) }),
    }
}

fn string_of_range_all(v: &Vec<char>) -> (r: String)
    ensures
        r@ == v@,
{
    assert(v@.subrange(0, v.len() as int) == v@);
    string_of_range(v, 0, v.len())
}

} // verus!
