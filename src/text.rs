use vstd::prelude::*;

verus! {

/// `String::push` appends one character to the string.
pub assume_specification[ String::push ](s: &mut String, ch: char)
    ensures
        final(s)@ == old(s)@.push(ch),
;

/// Characters with the Unicode `White_Space` property, which `trim` removes.
pub open spec fn is_white_space(c: char) -> bool {
    let u = c as u32;
    (0x9 <= u <= 0xd) || u == 0x20 || u == 0x85 || u == 0xa0 || u == 0x1680 || (0x2000 <= u
        <= 0x200a) || u == 0x2028 || u == 0x2029 || u == 0x202f || u == 0x205f || u == 0x3000
}

/// `s` without its leading whitespace.
pub open spec fn trim_start(s: Seq<char>) -> Seq<char>
    decreases s.len(),
{
    if s.len() > 0 && is_white_space(s[0]) {
        trim_start(s.drop_first())
    } else {
        s
    }
}

/// `s` without its trailing whitespace.
pub open spec fn trim_end(s: Seq<char>) -> Seq<char>
    decreases s.len(),
{
    if s.len() > 0 && is_white_space(s.last()) {
        trim_end(s.drop_last())
    } else {
        s
    }
}

/// `s` without whitespace at either end.
pub open spec fn trim(s: Seq<char>) -> Seq<char> {
    trim_end(trim_start(s))
}

/// The assignment separator `" = "` starts at index `i` of `s`.
pub open spec fn sep_at(s: Seq<char>, i: int) -> bool {
    0 <= i && i + 3 <= s.len() && s[i] == ' ' && s[i + 1] == '=' && s[i + 2] == ' '
}

/// The first index at or after `k` where the separator starts.
pub open spec fn find_sep_from(s: Seq<char>, k: int) -> Option<int>
    decreases s.len() - k,
{
    if k < 0 || k + 3 > s.len() {
        None
    } else if sep_at(s, k) {
        Some(k)
    } else {
        find_sep_from(s, k + 1)
    }
}

/// What `find_sep_from` finds is a separator, and the first one from `k`.
pub proof fn lemma_find_sep_from(s: Seq<char>, k: int)
    ensures
        find_sep_from(s, k) matches Some(i) ==> k <= i && sep_at(s, i) && forall|j: int|
            k <= j < i ==> !sep_at(s, j),
    decreases s.len() - k,
{
    if k >= 0 && k + 3 <= s.len() && !sep_at(s, k) {
        lemma_find_sep_from(s, k + 1);
    }
}

/// Splitting `s` on the separator gives exactly two parts: these two.
/// The search resumes after a match, so matches never overlap.
pub open spec fn two_parts(s: Seq<char>) -> Option<(Seq<char>, Seq<char>)> {
    match find_sep_from(s, 0) {
        Some(i) => if find_sep_from(s, i + 3) is None {
            Some((s.take(i), s.skip(i + 3)))
        } else {
            None
        },
        None => None,
    }
}

/// Trimming the start keeps a suffix that is empty or starts with a
/// non-whitespace character.
pub proof fn lemma_trim_start_suffix(s: Seq<char>)
    ensures
        trim_start(s).len() <= s.len(),
        trim_start(s) == s.skip(s.len() - trim_start(s).len()),
        trim_start(s).len() > 0 ==> !is_white_space(trim_start(s)[0]),
    decreases s.len(),
{
    if s.len() > 0 && is_white_space(s[0]) {
        lemma_trim_start_suffix(s.drop_first());
        assert(s.drop_first().skip(s.len() - 1 - trim_start(s).len()) == s.skip(
            s.len() - trim_start(s).len(),
        ));
    } else {
        assert(s.skip(0) == s);
    }
}

/// Trimming the end keeps a prefix that is empty or ends with a
/// non-whitespace character.
pub proof fn lemma_trim_end_prefix(s: Seq<char>)
    ensures
        trim_end(s).len() <= s.len(),
        trim_end(s) == s.take(trim_end(s).len() as int),
        trim_end(s).len() > 0 ==> !is_white_space(trim_end(s).last()),
    decreases s.len(),
{
    if s.len() > 0 && is_white_space(s.last()) {
        lemma_trim_end_prefix(s.drop_last());
        assert(s.drop_last().take(trim_end(s).len() as int) == s.take(trim_end(s).len() as int));
    } else {
        assert(s.take(s.len() as int) == s);
    }
}

/// A sequence with no whitespace at either end is its own trim.
pub proof fn lemma_trim_of_trimmed(s: Seq<char>)
    requires
        s.len() > 0 ==> !is_white_space(s[0]) && !is_white_space(s.last()),
    ensures
        trim_start(s) == s,
        trim_end(s) == s,
        trim(s) == s,
{
}

pub fn is_white_space_char(c: char) -> (r: bool)
    ensures
        r == is_white_space(c),
{
    let u = c as u32;
    (0x9 <= u && u <= 0xd) || u == 0x20 || u == 0x85 || u == 0xa0 || u == 0x1680 || (0x2000 <= u
        && u <= 0x200a) || u == 0x2028 || u == 0x2029 || u == 0x202f || u == 0x205f || u == 0x3000
}

/// The characters of a string slice, in order.
pub fn chars_of(s: &str) -> (r: Vec<char>)
    ensures
        r@ == s@,
{
    let mut r: Vec<char> = Vec::new();
    for c in it: s.chars()
        invariant
            r@ == it.seq().take(it.index() as int),
    {
        r.push(c);
    }
    r
}

/// Appends the characters of `v[a..b]` to `s`.
pub fn push_range(s: &mut String, v: &Vec<char>, a: usize, b: usize)
    requires
        a <= b <= v.len(),
    ensures
        final(s)@ == old(s)@ + v@.subrange(a as int, b as int),
{
    let mut i: usize = a;
    while i < b
        invariant
            a <= i <= b <= v.len(),
            s@ == old(s)@ + v@.subrange(a as int, i as int),
        decreases b - i,
    {
        s.push(v[i]);
        assert(v@.subrange(a as int, i + 1) == v@.subrange(a as int, i as int).push(v@[i as int]));
        i += 1;
    }
}

/// Appends the characters of a string slice to `s`.
pub fn push_all(s: &mut String, t: &str)
    ensures
        final(s)@ == old(s)@ + t@,
{
    let v = chars_of(t);
    push_range(s, &v, 0, v.len());
    assert(v@.subrange(0, v@.len() as int) == v@);
}

/// A string holding the characters `v[a..b]`.
pub fn string_of_range(v: &Vec<char>, a: usize, b: usize) -> (r: String)
    requires
        a <= b <= v.len(),
    ensures
        r@ == v@.subrange(a as int, b as int),
{
    let mut r = String::new();
    push_range(&mut r, v, a, b);
    r
}

/// The index of the first character of `v[a..b]` that is not whitespace
/// (`b` if there is none).
pub fn skip_white_space(v: &Vec<char>, a: usize, b: usize) -> (r: usize)
    requires
        a <= b <= v.len(),
    ensures
        a <= r <= b,
        trim_start(v@.subrange(a as int, b as int)) == v@.subrange(r as int, b as int),
{
    let mut i: usize = a;
    while i < b && is_white_space_char(v[i])
        invariant
            a <= i <= b <= v.len(),
            trim_start(v@.subrange(a as int, b as int)) == trim_start(
                v@.subrange(i as int, b as int),
            ),
        decreases b - i,
    {
        assert(v@.subrange(i as int, b as int).drop_first() == v@.subrange(i + 1, b as int));
        i += 1;
    }
    i
}

/// The end of `v[a..b]` once trailing whitespace is dropped.
pub fn skip_white_space_back(v: &Vec<char>, a: usize, b: usize) -> (r: usize)
    requires
        a <= b <= v.len(),
    ensures
        a <= r <= b,
        trim_end(v@.subrange(a as int, b as int)) == v@.subrange(a as int, r as int),
{
    let mut j: usize = b;
    while j > a && is_white_space_char(v[j - 1])
        invariant
            a <= j <= b <= v.len(),
            trim_end(v@.subrange(a as int, b as int)) == trim_end(v@.subrange(a as int, j as int)),
        decreases j - a,
    {
        assert(v@.subrange(a as int, j as int).drop_last() == v@.subrange(a as int, j - 1));
        j -= 1;
    }
    j
}

/// Whether the separator starts at index `i` of `v`.
pub fn sep_at_index(v: &Vec<char>, i: usize) -> (r: bool)
    ensures
        r == sep_at(v@, i as int),
{
    i < v.len() && v.len() - i >= 3 && v[i] == ' ' && v[i + 1] == '=' && v[i + 2] == ' '
}

/// The first index at or after `k` where the separator starts.
pub fn find_sep(v: &Vec<char>, k: usize) -> (r: Option<usize>)
    ensures
        r is None <==> find_sep_from(v@, k as int) is None,
        r matches Some(i) ==> find_sep_from(v@, k as int) == Some(i as int) && k <= i && i + 3
            <= v.len(),
{
    let mut i: usize = k;
    while i < v.len() && v.len() - i >= 3
        invariant
            k <= i,
            find_sep_from(v@, k as int) == find_sep_from(v@, i as int),
        decreases v.len() - i,
    {
        if sep_at_index(v, i) {
            return Some(i);
        }
        i += 1;
    }
    None
}

/// Whether `v[a..b]` holds the character `c`.
pub fn has_char(v: &Vec<char>, a: usize, b: usize, c: char) -> (r: bool)
    requires
        a <= b <= v.len(),
    ensures
        r == v@.subrange(a as int, b as int).contains(c),
{
    let mut i: usize = a;
    while i < b
        invariant
            a <= i <= b <= v.len(),
            forall|j: int| a <= j < i ==> v@[j] != c,
        decreases b - i,
    {
        if v[i] == c {
            assert(v@.subrange(a as int, b as int)[i - a] == c);
            return true;
        }
        i += 1;
    }
    assert(forall|j: int| 0 <= j < b - a ==> v@.subrange(a as int, b as int)[j] != c);
    false
}

/// Whether `v` holds exactly the characters `w`.
pub fn same_chars(v: &Vec<char>, w: &Vec<char>) -> (r: bool)
    ensures
        r == (v@ == w@),
{
    if v.len() != w.len() {
        return false;
    }
    let mut i: usize = 0;
    while i < v.len()
        invariant
            v.len() == w.len(),
            i <= v.len(),
            forall|j: int| 0 <= j < i ==> v@[j] == w@[j],
        decreases v.len() - i,
    {
        if v[i] != w[i] {
            return false;
        }
        i += 1;
    }
    assert(v@ == w@);
    true
}

} // verus!
