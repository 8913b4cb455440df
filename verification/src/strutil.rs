//! Small verified helpers over `String` and `&str`, shared by the path,
//! log and report code: character search, prefix tests, substrings and
//! decimal formatting.

use vstd::prelude::*;
use vstd::string::*;

verus! {

/// The decimal digit character for a value below ten.
pub open spec fn digit_char(d: int) -> char {
    if d == 0 {
        '0'
    } else if d == 1 {
        '1'
    } else if d == 2 {
        '2'
    } else if d == 3 {
        '3'
    } else if d == 4 {
        '4'
    } else if d == 5 {
        '5'
    } else if d == 6 {
        '6'
    } else if d == 7 {
        '7'
    } else if d == 8 {
        '8'
    } else {
        '9'
    }
}

/// The usual decimal rendering of a non-negative integer, most significant
/// digit first, with no leading zeros (except for zero itself).
pub open spec fn spec_udec(n: int) -> Seq<char>
    decreases n,
{
    if n < 10 {
        seq![digit_char(n)]
    } else {
        spec_udec(n / 10) + seq![digit_char(n % 10)]
    }
}

fn digit_str(d: u64) -> (r: &'static str)
    requires
        d < 10,
    ensures
        r@ =~= seq![digit_char(d as int)],
{
    proof {
        reveal_strlit("0");
        reveal_strlit("1");
        reveal_strlit("2");
        reveal_strlit("3");
        reveal_strlit("4");
        reveal_strlit("5");
        reveal_strlit("6");
        reveal_strlit("7");
        reveal_strlit("8");
        reveal_strlit("9");
    }
    match d {
        0 => "0",
        1 => "1",
        2 => "2",
        3 => "3",
        4 => "4",
        5 => "5",
        6 => "6",
        7 => "7",
        8 => "8",
        _ => "9",
    }
}

/// Renders a number in decimal.
pub fn u64_to_string(n: u64) -> (r: String)
    ensures
        r@ == spec_udec(n as int),
    decreases n,
{
    let d = digit_str(n % 10);
    if n < 10 {
        String::from_str(d)
    } else {
        let mut s = u64_to_string(n / 10);
        s.append(d);
        s
    }
}

/// The first index at or after `i` holding `c`, if any.
pub open spec fn sfind(s: Seq<char>, c: char, i: int) -> Option<int>
    decreases s.len() - i,
{
    if i < 0 || i >= s.len() {
        None
    } else if s[i] == c {
        Some(i)
    } else {
        sfind(s, c, i + 1)
    }
}

/// The last index at or before `i` holding `c`, if any.
pub open spec fn srfind(s: Seq<char>, c: char, i: int) -> Option<int>
    decreases i + 1,
{
    if i < 0 || i >= s.len() {
        None
    } else if s[i] == c {
        Some(i)
    } else {
        srfind(s, c, i - 1)
    }
}

/// Finds the first occurrence of `c` in `s`.
pub fn find_char(s: &str, c: char) -> (r: Option<usize>)
    ensures
        r matches Some(i) ==> 0 <= i < s@.len() && sfind(s@, c, 0) == Some(i as int),
        r is None ==> sfind(s@, c, 0) is None,
{
    let n = s.unicode_len();
    let mut i: usize = 0;
    while i < n
        invariant
            n == s@.len(),
            0 <= i <= n,
            sfind(s@, c, 0) == sfind(s@, c, i as int),
        decreases n - i,
    {
        if s.get_char(i) == c {
            return Some(i);
        }
        i = i + 1;
    }
    None
}

/// Finds the last occurrence of `c` in `s` strictly before index `end`.
pub fn rfind_char_before(s: &str, c: char, end: usize) -> (r: Option<usize>)
    requires
        end <= s@.len(),
    ensures
        r matches Some(i) ==> 0 <= i < end && srfind(s@, c, end - 1) == Some(i as int),
        r is None ==> srfind(s@, c, end - 1) is None,
{
    let mut i: usize = end;
    while i > 0
        invariant
            0 <= i <= end <= s@.len(),
            srfind(s@, c, end - 1) == srfind(s@, c, i - 1),
        decreases i,
    {
        i = i - 1;
        if s.get_char(i) == c {
            return Some(i);
        }
    }
    None
}

/// A found index lies between the start of the search and the end of the
/// string.
pub proof fn lemma_sfind_bounds(s: Seq<char>, c: char, i: int)
    ensures
        sfind(s, c, i) matches Some(j) ==> i <= j < s.len() && 0 <= j,
    decreases s.len() - i,
{
    if !(i < 0 || i >= s.len()) && s[i] != c {
        lemma_sfind_bounds(s, c, i + 1);
    }
}

/// Finds the first occurrence of `c` in `s` at or after `from`.
pub fn find_char_from(s: &str, c: char, from: usize) -> (r: Option<usize>)
    requires
        from <= s@.len(),
    ensures
        r matches Some(i) ==> from <= i < s@.len() && sfind(s@, c, from as int) == Some(i as int),
        r is None ==> sfind(s@, c, from as int) is None,
{
    let n = s.unicode_len();
    let mut i: usize = from;
    while i < n
        invariant
            n == s@.len(),
            from <= i <= n,
            sfind(s@, c, from as int) == sfind(s@, c, i as int),
        decreases n - i,
    {
        if s.get_char(i) == c {
            return Some(i);
        }
        i = i + 1;
    }
    None
}

/// The pieces of `s` between occurrences of `c`, from `start` on; empty
/// pieces are kept, as `str::split` keeps them.
pub open spec fn spec_split_from(s: Seq<char>, c: char, start: int) -> Seq<Seq<char>>
    decreases s.len() - start,
    via spec_split_from_decreases
{
    if start < 0 || start > s.len() {
        Seq::empty()
    } else {
        match sfind(s, c, start) {
            Some(i) => seq![s.subrange(start, i)] + spec_split_from(s, c, i + 1),
            None => seq![s.subrange(start, s.len() as int)],
        }
    }
}

#[via_fn]
proof fn spec_split_from_decreases(s: Seq<char>, c: char, start: int) {
    lemma_sfind_bounds(s, c, start);
}

/// The pieces of `s` between occurrences of `c`.
pub open spec fn spec_split(s: Seq<char>, c: char) -> Seq<Seq<char>> {
    spec_split_from(s, c, 0)
}

/// Splits `s` at every occurrence of `c`, keeping empty pieces.
pub fn split_char(s: &str, c: char) -> (r: Vec<String>)
    ensures
        r.deep_view() == spec_split(s@, c),
        r@.len() >= 1,
{
    let n = s.unicode_len();
    let mut pieces: Vec<String> = Vec::new();
    let mut start: usize = 0;
    proof {
        assert(pieces.deep_view() + spec_split_from(s@, c, 0) =~= spec_split_from(s@, c, 0));
    }
    loop
        invariant
            n == s@.len(),
            0 <= start <= n,
            spec_split(s@, c) == pieces.deep_view() + spec_split_from(s@, c, start as int),
        decreases n - start,
    {
        proof {
            lemma_sfind_bounds(s@, c, start as int);
        }
        match find_char_from(s, c, start) {
            Some(i) => {
                let piece = substring(s, start, i);
                let ghost before = pieces.deep_view();
                pieces.push(piece);
                proof {
                    assert(pieces.deep_view() =~= before + seq![s@.subrange(
                        start as int,
                        i as int,
                    )]);
                    assert(pieces.deep_view() + spec_split_from(s@, c, i + 1 as int)
                        =~= before + spec_split_from(s@, c, start as int));
                }
                start = i + 1;
            },
            None => {
                let piece = substring(s, start, n);
                let ghost before = pieces.deep_view();
                pieces.push(piece);
                proof {
                    assert(pieces.deep_view() =~= before + seq![s@.subrange(
                        start as int,
                        n as int,
                    )]);
                    assert(pieces.deep_view() =~= spec_split(s@, c));
                }
                return pieces;
            },
        }
    }
}

/// Whether the characters of `b` are equal to those of `a`.
pub fn str_eq(a: &str, b: &str) -> (r: bool)
    ensures
        r == (a@ == b@),
{
    let sa = String::from_str(a);
    let sb = String::from_str(b);
    sa == sb
}

/// Whether `s` begins with `prefix`, character for character.
pub fn starts_with(s: &str, prefix: &str) -> (r: bool)
    ensures
        r == prefix@.is_prefix_of(s@),
{
    let n = s.unicode_len();
    let pn = prefix.unicode_len();
    if pn > n {
        return false;
    }
    let mut i: usize = 0;
    while i < pn
        invariant
            pn <= n,
            n == s@.len(),
            pn == prefix@.len(),
            0 <= i <= pn,
            forall|j: int| 0 <= j < i ==> s@[j] == prefix@[j],
        decreases pn - i,
    {
        if s.get_char(i) != prefix.get_char(i) {
            assert(!prefix@.is_prefix_of(s@));
            return false;
        }
        i = i + 1;
    }
    assert(prefix@.is_prefix_of(s@)) by {
        assert(prefix@ =~= s@.subrange(0, pn as int));
    }
    true
}

/// Whether `s` ends with the character `c`.
pub fn ends_with_char(s: &str, c: char) -> (r: bool)
    ensures
        r == (s@.len() > 0 && s@[s@.len() - 1] == c),
{
    let n = s.unicode_len();
    if n == 0 {
        false
    } else {
        s.get_char(n - 1) == c
    }
}

/// Lexicographic comparison by code point, from index `i` on, given the
/// earlier characters are equal.
pub open spec fn lex_le_from(a: Seq<char>, b: Seq<char>, i: int) -> bool
    decreases a.len() - i,
{
    if i < 0 || i >= a.len() {
        true
    } else if i >= b.len() {
        false
    } else if (a[i] as u32) != (b[i] as u32) {
        (a[i] as u32) < (b[i] as u32)
    } else {
        lex_le_from(a, b, i + 1)
    }
}

/// Lexicographic order on character sequences, by code point.
pub open spec fn lex_le(a: Seq<char>, b: Seq<char>) -> bool {
    lex_le_from(a, b, 0)
}

/// The order is total.
pub proof fn lemma_lex_le_total(a: Seq<char>, b: Seq<char>, i: int)
    ensures
        lex_le_from(a, b, i) || lex_le_from(b, a, i),
    decreases a.len() - i,
{
    if !(i < 0 || i >= a.len()) && i < b.len() && (a[i] as u32) == (b[i] as u32) {
        lemma_lex_le_total(a, b, i + 1);
    }
}

/// The order is transitive.
pub proof fn lemma_lex_le_trans(a: Seq<char>, b: Seq<char>, c: Seq<char>, i: int)
    requires
        lex_le_from(a, b, i),
        lex_le_from(b, c, i),
    ensures
        lex_le_from(a, c, i),
    decreases a.len() - i,
{
    if !(i < 0 || i >= a.len()) {
        if i < b.len() && i < c.len() && (a[i] as u32) == (b[i] as u32) && (b[i] as u32) == (
        c[i] as u32) {
            lemma_lex_le_trans(a, b, c, i + 1);
        }
    }
}


/// Compares two strings lexicographically by code point.
pub fn str_le(a: &str, b: &str) -> (r: bool)
    ensures
        r == lex_le(a@, b@),
{
    let an = a.unicode_len();
    let bn = b.unicode_len();
    let mut i: usize = 0;
    while i < an && i < bn
        invariant
            an == a@.len(),
            bn == b@.len(),
            0 <= i <= an,
            i <= bn,
            lex_le(a@, b@) == lex_le_from(a@, b@, i as int),
        decreases an - i,
    {
        let ca = a.get_char(i);
        let cb = b.get_char(i);
        if ca != cb {
            return (ca as u32) < (cb as u32);
        }
        i = i + 1;
    }
    an <= bn
}

/// Whether a list of strings is ordered lexicographically.
pub open spec fn sorted_strs(v: Seq<String>) -> bool {
    forall|i: int, j: int| 0 <= i < j < v.len() ==> lex_le(v[i]@, v[j]@)
}

/// The whitespace characters that trimming removes.
pub open spec fn is_space(c: char) -> bool {
    c == ' ' || c == '\t' || c == '\n' || c == '\r'
}

/// The first index at or after `i` holding a non-space character, or the
/// length when there is none.
pub open spec fn first_non_space(s: Seq<char>, i: int) -> int
    decreases s.len() - i,
{
    if i < 0 || i >= s.len() {
        s.len() as int
    } else if !is_space(s[i]) {
        i
    } else {
        first_non_space(s, i + 1)
    }
}

/// The last index at or before `i` holding a non-space character, or -1
/// when there is none.
pub open spec fn last_non_space(s: Seq<char>, i: int) -> int
    decreases i + 1,
{
    if i < 0 || i >= s.len() {
        -1
    } else if !is_space(s[i]) {
        i
    } else {
        last_non_space(s, i - 1)
    }
}

/// `s` with leading and trailing whitespace removed.
pub open spec fn spec_trim(s: Seq<char>) -> Seq<char> {
    let a = first_non_space(s, 0);
    let b = last_non_space(s, s.len() - 1);
    if a > b {
        Seq::empty()
    } else {
        s.subrange(a, b + 1)
    }
}

/// The index of the first non-space character, or the length when the
/// string is all spaces.
fn first_non_space_idx(s: &str) -> (r: usize)
    ensures
        r as int == first_non_space(s@, 0),
        r <= s@.len(),
{
    let n = s.unicode_len();
    let mut i: usize = 0;
    while i < n
        invariant
            n == s@.len(),
            0 <= i <= n,
            first_non_space(s@, 0) == first_non_space(s@, i as int),
        decreases n - i,
    {
        let c = s.get_char(i);
        if !(c == ' ' || c == '\t' || c == '\n' || c == '\r') {
            proof {
                assert(first_non_space(s@, i as int) == i as int);
            }
            return i;
        }
        i = i + 1;
    }
    i
}

/// One past the index of the last non-space character, or zero when the
/// string is all spaces.
fn last_non_space_end(s: &str) -> (r: usize)
    ensures
        r as int == last_non_space(s@, s@.len() - 1) + 1,
        r <= s@.len(),
{
    let n = s.unicode_len();
    let mut j: usize = n;
    while j > 0
        invariant
            n == s@.len(),
            0 <= j <= n,
            last_non_space(s@, s@.len() - 1) == last_non_space(s@, j - 1),
        decreases j,
    {
        let c = s.get_char(j - 1);
        if !(c == ' ' || c == '\t' || c == '\n' || c == '\r') {
            proof {
                assert(last_non_space(s@, j - 1) == j - 1);
            }
            return j;
        }
        j = j - 1;
    }
    proof {
        assert(last_non_space(s@, -1) == -1);
    }
    0
}

/// Trims leading and trailing whitespace.
pub fn trim(s: &str) -> (r: String)
    ensures
        r@ == spec_trim(s@),
{
    let n = s.unicode_len();
    let a = first_non_space_idx(s);
    if a == n {
        proof {
            lemma_last_non_space_bound(s@, s@.len() - 1);
        }
        return String::new();
    }
    let b = last_non_space_end(s);
    proof {
        lemma_first_non_space_char(s@, 0);
        lemma_last_non_space_ge(s@, s@.len() - 1, a as int);
    }
    substring(s, a, b)
}

/// The last non-space index never exceeds the bound it starts from.
proof fn lemma_last_non_space_bound(s: Seq<char>, i: int)
    requires
        i >= -1,
    ensures
        last_non_space(s, i) <= i,
    decreases i + 1,
{
    if !(i < 0 || i >= s.len()) && is_space(s[i]) {
        lemma_last_non_space_bound(s, i - 1);
    }
}

/// The character at the first non-space index is itself not a space.
proof fn lemma_first_non_space_char(s: Seq<char>, i: int)
    ensures
        first_non_space(s, i) < s.len() ==> !is_space(s[first_non_space(s, i)]),
    decreases s.len() - i,
{
    if !(i < 0 || i >= s.len()) && is_space(s[i]) {
        lemma_first_non_space_char(s, i + 1);
    }
}

/// A non-space character below the bound keeps the last non-space index
/// at or above it.
proof fn lemma_last_non_space_ge(s: Seq<char>, i: int, j: int)
    requires
        0 <= j <= i < s.len(),
        !is_space(s[j]),
    ensures
        last_non_space(s, i) >= j,
    decreases i + 1,
{
    if i > j && is_space(s[i]) {
        lemma_last_non_space_ge(s, i - 1, j);
    }
}

/// Copies the character range `[from, to)` of `s` into a fresh string.
pub fn substring(s: &str, from: usize, to: usize) -> (r: String)
    requires
        from <= to <= s@.len(),
    ensures
        r@ == s@.subrange(from as int, to as int),
{
    String::from_str(s.substring_char(from, to))
}

} // verus!
