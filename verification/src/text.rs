//! Character-sequence primitives shared by the protocol engine and the MIME
//! decoder. Strings are modelled as `Seq<char>`; every executable function
//! here is specified against a spec function on that model.
//!
//! Case is folded for the letters of ASCII only: the verbs of SMTP and the
//! names and keywords of message headers are ASCII. Whitespace is what
//! Unicode calls `White_Space`.

use vstd::prelude::*;
use vstd::std_specs::iter::IteratorSpec;
use vstd::string::*;

verus! {

broadcast use vstd::string::group_string_axioms;

/// `String::push` appends one character to the end of the string.
pub assume_specification[ String::push ](s: &mut String, c: char)
    ensures
        final(s)@ == old(s)@.push(c),
;

/// The characters of a string, in order.
pub fn chars_of(s: &str) -> (v: Vec<char>)
    ensures
        v@ == s@,
{
    let mut v: Vec<char> = Vec::new();
    let mut it = s.chars();
    loop
        invariant
            v@ + it.remaining() == s@,
            it.decrease() is Some,
        ensures
            v@ == s@,
        decreases it.decrease()->0,
    {
        match it.next() {
            Some(c) => {
                v.push(c);
            },
            None => {
                break ;
            },
        }
    }
    v
}

/// The string made of the given characters, in order.
pub fn string_of(v: &Vec<char>) -> (s: String)
    ensures
        s@ == v@,
{
    let mut s = String::new();
    let mut i: usize = 0;
    while i < v.len()
        invariant
            i <= v.len(),
            s@ == v@.take(i as int),
        decreases v.len() - i,
    {
        s.push(v[i]);
        i += 1;
    }
    s
}

/// Whether `c` has the Unicode property `White_Space`.
pub open spec fn is_space(c: char) -> bool {
    let n = c as u32;
    ||| 0x09 <= n <= 0x0D
    ||| n == 0x20
    ||| n == 0x85
    ||| n == 0xA0
    ||| n == 0x1680
    ||| 0x2000 <= n <= 0x200A
    ||| n == 0x2028
    ||| n == 0x2029
    ||| n == 0x202F
    ||| n == 0x205F
    ||| n == 0x3000
}

/// The ASCII lower-case form of `c`; any other character is left as it is.
pub open spec fn lower(c: char) -> char {
    if 'A' <= c <= 'Z' {
        ((c as u8 + 32) as u8) as char
    } else {
        c
    }
}

/// The ASCII upper-case form of `c`; any other character is left as it is.
pub open spec fn upper(c: char) -> char {
    if 'a' <= c <= 'z' {
        ((c as u8 - 32) as u8) as char
    } else {
        c
    }
}

/// `s` with every ASCII letter in lower case.
pub open spec fn lowered(s: Seq<char>) -> Seq<char> {
    Seq::new(s.len(), |i: int| lower(s[i]))
}

/// `s` with every ASCII letter in upper case.
pub open spec fn uppered(s: Seq<char>) -> Seq<char> {
    Seq::new(s.len(), |i: int| upper(s[i]))
}

/// Whether `p` occurs in `s` starting at index `i`.
pub open spec fn matches_at(s: Seq<char>, p: Seq<char>, i: int) -> bool {
    0 <= i && i + p.len() <= s.len() && s.subrange(i, i + p.len()) == p
}

/// Whether `s` begins with `p`.
pub open spec fn starts_with(s: Seq<char>, p: Seq<char>) -> bool {
    matches_at(s, p, 0)
}

/// The least index at or after `from` at which `p` occurs in `s`, if any.
pub open spec fn find_from(s: Seq<char>, p: Seq<char>, from: int) -> Option<int>
    decreases s.len() - from,
{
    if from < 0 || from + p.len() > s.len() {
        None
    } else if matches_at(s, p, from) {
        Some(from)
    } else if from < s.len() {
        find_from(s, p, from + 1)
    } else {
        None
    }
}

/// The least index at which `p` occurs in `s`, if any.
pub open spec fn find(s: Seq<char>, p: Seq<char>) -> Option<int> {
    find_from(s, p, 0)
}

/// Whether `p` occurs somewhere in `s`.
pub open spec fn contains(s: Seq<char>, p: Seq<char>) -> bool {
    find(s, p) is Some
}

/// What `find_from` returns is the first occurrence at or after `from`.
pub proof fn lemma_find_from(s: Seq<char>, p: Seq<char>, from: int)
    requires
        0 <= from,
    ensures
        match find_from(s, p, from) {
            Some(k) => from <= k && matches_at(s, p, k) && forall|j: int|
                from <= j < k ==> !matches_at(s, p, j),
            None => forall|j: int| from <= j ==> !matches_at(s, p, j),
        },
    decreases s.len() - from,
{
    if from + p.len() > s.len() {
    } else if matches_at(s, p, from) {
    } else if from < s.len() {
        lemma_find_from(s, p, from + 1);
    } else {
        assert(s.subrange(from, from + p.len()) =~= p);
    }
}

/// Whether `c` is whitespace.
pub fn is_space_char(c: char) -> (b: bool)
    ensures
        b == is_space(c),
{
    let n: u32 = c as u32;
    (0x09 <= n && n <= 0x0D) || n == 0x20 || n == 0x85 || n == 0xA0 || n == 0x1680 || (0x2000 <= n
        && n <= 0x200A) || n == 0x2028 || n == 0x2029 || n == 0x202F || n == 0x205F || n == 0x3000
}

/// The ASCII lower-case form of `c`.
pub fn lower_char(c: char) -> (r: char)
    ensures
        r == lower(c),
{
    if 'A' <= c && c <= 'Z' {
        ((c as u8) + 32) as char
    } else {
        c
    }
}

/// The ASCII upper-case form of `c`.
pub fn upper_char(c: char) -> (r: char)
    ensures
        r == upper(c),
{
    if 'a' <= c && c <= 'z' {
        ((c as u8) - 32) as char
    } else {
        c
    }
}

/// `s` with its ASCII letters in lower case.
pub fn to_lower(s: &Vec<char>) -> (r: Vec<char>)
    ensures
        r@ == lowered(s@),
{
    let mut r: Vec<char> = Vec::new();
    let mut i: usize = 0;
    while i < s.len()
        invariant
            i <= s.len(),
            r@ == lowered(s@).take(i as int),
        decreases s.len() - i,
    {
        r.push(lower_char(s[i]));
        i += 1;
    }
    r
}

/// `s` with its ASCII letters in upper case.
pub fn to_upper(s: &Vec<char>) -> (r: Vec<char>)
    ensures
        r@ == uppered(s@),
{
    let mut r: Vec<char> = Vec::new();
    let mut i: usize = 0;
    while i < s.len()
        invariant
            i <= s.len(),
            r@ == uppered(s@).take(i as int),
        decreases s.len() - i,
    {
        r.push(upper_char(s[i]));
        i += 1;
    }
    r
}

/// A copy of `s[from..to]`.
pub(crate) fn slice(s: &Vec<char>, from: usize, to: usize) -> (r: Vec<char>)
    requires
        from <= to <= s.len(),
    ensures
        r@ == s@.subrange(from as int, to as int),
{
    let mut r: Vec<char> = Vec::new();
    let mut i: usize = from;
    while i < to
        invariant
            from <= i <= to <= s.len(),
            r@ == s@.subrange(from as int, i as int),
        decreases to - i,
    {
        r.push(s[i]);
        i += 1;
    }
    r
}

/// Whether `p` occurs in `s` at index `i`.
pub fn occurs_at(s: &Vec<char>, p: &Vec<char>, i: usize) -> (b: bool)
    ensures
        b == matches_at(s@, p@, i as int),
{
    if p.len() > s.len() || i > s.len() - p.len() {
        return false;
    }
    let mut k: usize = 0;
    while k < p.len()
        invariant
            k <= p.len(),
            i + p.len() <= s.len(),
            forall|j: int| 0 <= j < k ==> s@[i + j] == p@[j],
        decreases p.len() - k,
    {
        if s[i + k] != p[k] {
            assert(s@.subrange(i as int, i + p.len())[k as int] == s@[i + k]);
            return false;
        }
        k += 1;
    }
    assert(s@.subrange(i as int, i + p.len()) =~= p@);
    true
}

/// Whether `s` begins with `p`.
pub fn has_prefix(s: &Vec<char>, p: &Vec<char>) -> (b: bool)
    ensures
        b == starts_with(s@, p@),
{
    occurs_at(s, p, 0)
}

/// The first index at or after `from` at which `p` occurs in `s`.
pub fn index_from(s: &Vec<char>, p: &Vec<char>, from: usize) -> (r: Option<usize>)
    ensures
        match r {
            Some(k) => find_from(s@, p@, from as int) == Some(k as int) && k + p.len() <= s.len(),
            None => find_from(s@, p@, from as int) is None,
        },
{
    if p.len() > s.len() {
        return None;
    }
    let last: usize = s.len() - p.len();
    let mut i: usize = from;
    while i <= last
        invariant
            from <= i,
            last == s.len() - p.len(),
            find_from(s@, p@, from as int) == find_from(s@, p@, i as int),
        decreases last + 1 - i,
    {
        if occurs_at(s, p, i) {
            return Some(i);
        }
        if i == last {
            assert(find_from(s@, p@, i + 1) is None);
            return None;
        }
        i += 1;
    }
    None
}

/// The first index at which `p` occurs in `s`.
pub fn index_of(s: &Vec<char>, p: &Vec<char>) -> (r: Option<usize>)
    ensures
        match r {
            Some(k) => find(s@, p@) == Some(k as int) && k + p.len() <= s.len(),
            None => find(s@, p@) is None,
        },
{
    index_from(s, p, 0)
}

/// Whether `p` occurs in `s`.
pub fn includes(s: &Vec<char>, p: &Vec<char>) -> (b: bool)
    ensures
        b == contains(s@, p@),
{
    index_of(s, p).is_some()
}

/// Whether `a` and `b` hold the same characters.
pub fn same(a: &Vec<char>, b: &Vec<char>) -> (r: bool)
    ensures
        r == (a@ == b@),
{
    if a.len() != b.len() {
        return false;
    }
    let r = occurs_at(a, b, 0);
    proof {
        assert(a@.subrange(0, a@.len() as int) =~= a@);
    }
    r
}

/// The characters that trimming takes off the ends of a text.
#[derive(Clone, Copy)]
pub enum Strip {
    /// Any character with the property `White_Space`.
    Whitespace,
    /// One given character.
    Char(char),
}

impl Strip {
    /// Whether trimming takes `c` off.
    pub open spec fn includes(self, c: char) -> bool {
        match self {
            Strip::Whitespace => is_space(c),
            Strip::Char(x) => c == x,
        }
    }

    /// Whether trimming takes `c` off.
    pub fn holds(&self, c: char) -> (b: bool)
        ensures
            b == self.includes(c),
    {
        match self {
            Strip::Whitespace => is_space_char(c),
            Strip::Char(x) => c == *x,
        }
    }
}

/// The first index at or after `i` whose character is not in `k`; `s.len()`
/// if there is none.
pub open spec fn skip_front(s: Seq<char>, k: Strip, i: int) -> int
    decreases s.len() - i,
{
    if 0 <= i < s.len() && k.includes(s[i]) {
        skip_front(s, k, i + 1)
    } else {
        i
    }
}

/// The least `e` with `low <= e <= j` such that every character of
/// `s[e..j]` is in `k`.
pub open spec fn skip_back(s: Seq<char>, k: Strip, low: int, j: int) -> int
    decreases j,
{
    if low < j && 0 < j <= s.len() && k.includes(s[j - 1]) {
        skip_back(s, k, low, j - 1)
    } else {
        j
    }
}

/// `s` without its leading characters in `k`.
pub open spec fn strip_start(s: Seq<char>, k: Strip) -> Seq<char> {
    s.subrange(skip_front(s, k, 0), s.len() as int)
}

/// `s` without its trailing characters in `k`.
pub open spec fn strip_end(s: Seq<char>, k: Strip) -> Seq<char> {
    s.subrange(0, skip_back(s, k, 0, s.len() as int))
}

/// `s` without its leading and trailing characters in `k`.
pub open spec fn strip(s: Seq<char>, k: Strip) -> Seq<char> {
    let a = skip_front(s, k, 0);
    s.subrange(a, skip_back(s, k, a, s.len() as int))
}

/// `s` without leading and trailing whitespace.
pub open spec fn trimmed(s: Seq<char>) -> Seq<char> {
    strip(s, Strip::Whitespace)
}

/// The lines of `s[start..]`, given that `s[start..i]` holds no line feed.
/// A line ends at a line feed, or at the end of the text if characters are
/// left over; the line feed is not part of the line, and neither is one
/// carriage return directly before it.
pub open spec fn lines_scan(s: Seq<char>, start: int, i: int) -> Seq<Seq<char>>
    decreases s.len() - i,
{
    if i < 0 || i >= s.len() {
        if 0 <= start < s.len() {
            seq![s.subrange(start, s.len() as int)]
        } else {
            Seq::empty()
        }
    } else if s[i] == '\n' {
        let end = if start < i && s[i - 1] == '\r' {
            i - 1
        } else {
            i
        };
        seq![s.subrange(start, end)] + lines_scan(s, i + 1, i + 1)
    } else {
        lines_scan(s, start, i + 1)
    }
}

/// The lines of `s`.
pub open spec fn lines_of(s: Seq<char>) -> Seq<Seq<char>> {
    lines_scan(s, 0, 0)
}

/// The pieces of `s[start..]` between the occurrences of `p`, given that no
/// occurrence begins in `s[start..i]`. Occurrences are taken from the left
/// and do not overlap.
pub open spec fn split_scan(s: Seq<char>, p: Seq<char>, start: int, i: int) -> Seq<Seq<char>>
    decreases s.len() - i,
{
    if i < 0 || i + p.len() > s.len() {
        seq![s.subrange(start, s.len() as int)]
    } else if p.len() > 0 && matches_at(s, p, i) {
        seq![s.subrange(start, i)] + split_scan(s, p, i + p.len(), i + p.len())
    } else if i < s.len() {
        split_scan(s, p, start, i + 1)
    } else {
        seq![s.subrange(start, s.len() as int)]
    }
}

/// The pieces of `s` between the occurrences of the non-empty text `p`.
pub open spec fn split_on(s: Seq<char>, p: Seq<char>) -> Seq<Seq<char>> {
    split_scan(s, p, 0, 0)
}

/// What follows the first occurrence of `p` in `s`, up to the next
/// occurrence of `p` or else to the end; `None` if `p` does not occur.
pub open spec fn after_marker(s: Seq<char>, p: Seq<char>) -> Option<Seq<char>> {
    match find(s, p) {
        None => None,
        Some(k) => Some(
            match find_from(s, p, k + p.len()) {
                Some(e) => s.subrange(k + p.len(), e),
                None => s.subrange(k + p.len(), s.len() as int),
            },
        ),
    }
}

/// The first index at or after `i` whose character is whitespace;
/// `s.len()` if there is none.
pub open spec fn word_end(s: Seq<char>, i: int) -> int
    decreases s.len() - i,
{
    if 0 <= i < s.len() && !is_space(s[i]) {
        word_end(s, i + 1)
    } else {
        i
    }
}

/// The first whitespace-delimited word of `s`; empty if `s` has none.
pub open spec fn first_word(s: Seq<char>) -> Seq<char> {
    let a = skip_front(s, Strip::Whitespace, 0);
    s.subrange(a, word_end(s, a))
}

/// The second whitespace-delimited word of `s`; empty if `s` has none.
pub open spec fn second_word(s: Seq<char>) -> Seq<char> {
    let a = skip_front(s, Strip::Whitespace, word_end(s, skip_front(s, Strip::Whitespace, 0)));
    s.subrange(a, word_end(s, a))
}

/// The texts of `parts` in order, with `sep` between each two neighbours.
pub open spec fn joined(parts: Seq<Seq<char>>, sep: Seq<char>) -> Seq<char>
    decreases parts.len(),
{
    if parts.len() == 0 {
        Seq::empty()
    } else if parts.len() == 1 {
        parts[0]
    } else {
        joined(parts.drop_last(), sep) + sep + parts.last()
    }
}

/// `s` without its carriage returns and line feeds.
pub open spec fn without_breaks(s: Seq<char>) -> Seq<char> {
    s.filter(|c: char| c != '\r' && c != '\n')
}

/// The views of the texts in `v`.
pub open spec fn views(v: Seq<Vec<char>>) -> Seq<Seq<char>> {
    Seq::new(v.len(), |i: int| v[i]@)
}

/// The views of the strings in `v`.
pub open spec fn string_views(v: Seq<String>) -> Seq<Seq<char>> {
    Seq::new(v.len(), |i: int| v[i]@)
}

/// `s` without its leading and trailing characters in `k`.
pub fn strip_chars(s: &Vec<char>, k: Strip) -> (r: Vec<char>)
    ensures
        r@ == strip(s@, k),
{
    let mut a: usize = 0;
    while a < s.len() && k.holds(s[a])
        invariant
            a <= s.len(),
            skip_front(s@, k, a as int) == skip_front(s@, k, 0),
        decreases s.len() - a,
    {
        a += 1;
    }
    let mut b: usize = s.len();
    while b > a && k.holds(s[b - 1])
        invariant
            a <= b <= s.len(),
            skip_back(s@, k, a as int, b as int) == skip_back(s@, k, a as int, s@.len() as int),
        decreases b,
    {
        b -= 1;
    }
    slice(s, a, b)
}

/// `s` without its leading characters in `k`.
pub fn strip_start_chars(s: &Vec<char>, k: Strip) -> (r: Vec<char>)
    ensures
        r@ == strip_start(s@, k),
{
    let mut a: usize = 0;
    while a < s.len() && k.holds(s[a])
        invariant
            a <= s.len(),
            skip_front(s@, k, a as int) == skip_front(s@, k, 0),
        decreases s.len() - a,
    {
        a += 1;
    }
    slice(s, a, s.len())
}

/// `s` without its trailing characters in `k`.
pub fn strip_end_chars(s: &Vec<char>, k: Strip) -> (r: Vec<char>)
    ensures
        r@ == strip_end(s@, k),
{
    let mut b: usize = s.len();
    while b > 0 && k.holds(s[b - 1])
        invariant
            b <= s.len(),
            skip_back(s@, k, 0, b as int) == skip_back(s@, k, 0, s@.len() as int),
        decreases b,
    {
        b -= 1;
    }
    slice(s, 0, b)
}

/// `s` without leading and trailing whitespace.
pub fn trim(s: &Vec<char>) -> (r: Vec<char>)
    ensures
        r@ == trimmed(s@),
{
    strip_chars(s, Strip::Whitespace)
}

/// The lines of `s`.
pub fn lines(s: &Vec<char>) -> (r: Vec<Vec<char>>)
    ensures
        views(r@) == lines_of(s@),
{
    let mut r: Vec<Vec<char>> = Vec::new();
    let mut start: usize = 0;
    let mut i: usize = 0;
    while i < s.len()
        invariant
            start <= i <= s.len(),
            views(r@) + lines_scan(s@, start as int, i as int) == lines_of(s@),
        decreases s.len() - i,
    {
        if s[i] == '\n' {
            let end: usize = if start < i && s[i - 1] == '\r' {
                i - 1
            } else {
                i
            };
            let line = slice(s, start, end);
            proof {
                assert(views(r@.push(line)) =~= views(r@) + seq![line@]);
                assert(views(r@) + (seq![line@] + lines_scan(s@, i + 1, i + 1)) =~= (views(r@)
                    + seq![line@]) + lines_scan(s@, i + 1, i + 1));
            }
            r.push(line);
            start = i + 1;
        }
        i += 1;
    }
    if start < s.len() {
        let line = slice(s, start, s.len());
        proof {
            assert(views(r@.push(line)) =~= views(r@) + seq![line@]);
        }
        r.push(line);
    } else {
        assert(views(r@) + Seq::<Seq<char>>::empty() =~= views(r@));
    }
    r
}

/// The pieces of `s` between the occurrences of `p`.
pub(crate) fn split(s: &Vec<char>, p: &Vec<char>) -> (r: Vec<Vec<char>>)
    requires
        p.len() > 0,
    ensures
        views(r@) == split_on(s@, p@),
{
    let mut r: Vec<Vec<char>> = Vec::new();
    let mut start: usize = 0;
    loop
        invariant
            p.len() > 0,
            start <= s.len(),
            views(r@) + split_scan(s@, p@, start as int, start as int) == split_on(s@, p@),
        decreases s.len() - start,
    {
        match index_from(s, p, start) {
            Some(k) => {
                proof {
                    lemma_find_from(s@, p@, start as int);
                    lemma_split_scan_skips(s@, p@, start as int, start as int, k as int);
                }
                let piece = slice(s, start, k);
                proof {
                    assert(views(r@.push(piece)) =~= views(r@) + seq![piece@]);
                    assert(views(r@) + (seq![piece@] + split_scan(
                        s@,
                        p@,
                        k + p.len(),
                        k + p.len(),
                    )) =~= (views(r@) + seq![piece@]) + split_scan(s@, p@, k + p.len(), k + p.len()));
                }
                r.push(piece);
                start = k + p.len();
            },
            None => {
                proof {
                    lemma_find_from(s@, p@, start as int);
                    lemma_split_scan_rest(s@, p@, start as int, start as int);
                }
                let piece = slice(s, start, s.len());
                proof {
                    assert(views(r@.push(piece)) =~= views(r@) + seq![piece@]);
                }
                r.push(piece);
                return r;
            },
        }
    }
}

/// Scanning past positions at which `p` does not occur changes nothing.
pub proof fn lemma_split_scan_skips(s: Seq<char>, p: Seq<char>, start: int, i: int, k: int)
    requires
        0 <= i <= k,
        k + p.len() <= s.len(),
        forall|j: int| i <= j < k ==> !matches_at(s, p, j),
    ensures
        split_scan(s, p, start, i) == split_scan(s, p, start, k),
    decreases k - i,
{
    if i < k {
        lemma_split_scan_skips(s, p, start, i + 1, k);
    }
}

/// Where `p` occurs nowhere from `i` on, the rest of the text is one piece.
pub proof fn lemma_split_scan_rest(s: Seq<char>, p: Seq<char>, start: int, i: int)
    requires
        0 <= i,
        forall|j: int| i <= j ==> !matches_at(s, p, j),
    ensures
        split_scan(s, p, start, i) == seq![s.subrange(start, s.len() as int)],
    decreases s.len() - i,
{
    if i + p.len() <= s.len() && i < s.len() {
        lemma_split_scan_rest(s, p, start, i + 1);
    }
}

/// What follows the first occurrence of `p` in `s`, up to the next one.
pub fn text_after_marker(s: &Vec<char>, p: &Vec<char>) -> (r: Option<Vec<char>>)
    ensures
        match r {
            Some(t) => after_marker(s@, p@) == Some(t@),
            None => after_marker(s@, p@) is None,
        },
{
    match index_of(s, p) {
        None => None,
        Some(k) => {
            let from: usize = k + p.len();
            match index_from(s, p, from) {
                Some(e) => {
                    proof {
                        lemma_find_from(s@, p@, from as int);
                    }
                    Some(slice(s, from, e))
                },
                None => Some(slice(s, from, s.len())),
            }
        },
    }
}

/// The bounds of the first word of `s` that begins at or after `from`.
pub(crate) fn word_bounds(s: &Vec<char>, from: usize) -> (r: (usize, usize))
    requires
        from <= s.len(),
    ensures
        r.0 == skip_front(s@, Strip::Whitespace, from as int),
        r.1 == word_end(s@, r.0 as int),
        from <= r.0 <= r.1 <= s.len(),
{
    let mut a: usize = from;
    while a < s.len() && is_space_char(s[a])
        invariant
            from <= a <= s.len(),
            skip_front(s@, Strip::Whitespace, a as int) == skip_front(
                s@,
                Strip::Whitespace,
                from as int,
            ),
        decreases s.len() - a,
    {
        a += 1;
    }
    let mut b: usize = a;
    while b < s.len() && !is_space_char(s[b])
        invariant
            a <= b <= s.len(),
            word_end(s@, b as int) == word_end(s@, a as int),
        decreases s.len() - b,
    {
        b += 1;
    }
    (a, b)
}

/// Appends the items of `src` to `dst`.
pub fn append<T: Copy>(dst: &mut Vec<T>, src: &Vec<T>)
    ensures
        final(dst)@ == old(dst)@ + src@,
{
    let mut i: usize = 0;
    while i < src.len()
        invariant
            i <= src.len(),
            dst@ == old(dst)@ + src@.take(i as int),
        decreases src.len() - i,
    {
        dst.push(src[i]);
        i += 1;
    }
    assert(src@.take(src@.len() as int) =~= src@);
}

/// The texts of `parts` with `sep` between each two neighbours.
pub fn join(parts: &Vec<Vec<char>>, sep: &Vec<char>) -> (r: Vec<char>)
    ensures
        r@ == joined(views(parts@), sep@),
{
    let mut r: Vec<char> = Vec::new();
    let mut i: usize = 0;
    while i < parts.len()
        invariant
            i <= parts.len(),
            r@ == joined(views(parts@).take(i as int), sep@),
        decreases parts.len() - i,
    {
        proof {
            let next = views(parts@).take(i + 1);
            assert(next.drop_last() =~= views(parts@).take(i as int));
            assert(next.last() == parts@[i as int]@);
            if i == 0 {
                assert(joined(next, sep@) == next[0]);
                assert(Seq::<char>::empty() + parts@[0]@ =~= parts@[0]@);
            }
        }
        if i > 0 {
            append(&mut r, sep);
        }
        append(&mut r, &parts[i]);
        i += 1;
    }
    assert(views(parts@).take(parts@.len() as int) =~= views(parts@));
    r
}

/// `s` without its carriage returns and line feeds.
pub fn strip_breaks(s: &Vec<char>) -> (r: Vec<char>)
    ensures
        r@ == without_breaks(s@),
{
    let ghost keep = |c: char| c != '\r' && c != '\n';
    let mut r: Vec<char> = Vec::new();
    let mut i: usize = 0;
    while i < s.len()
        invariant
            i <= s.len(),
            keep == (|c: char| c != '\r' && c != '\n'),
            r@ == s@.take(i as int).filter(keep),
        decreases s.len() - i,
    {
        proof {
            let next = s@.take(i + 1);
            assert(next.drop_last() =~= s@.take(i as int));
            reveal(Seq::filter);
        }
        let c = s[i];
        if c != '\r' && c != '\n' {
            r.push(c);
        }
        i += 1;
    }
    assert(s@.take(s@.len() as int) =~= s@);
    r
}

/// The index of the first line at or after `i` whose lower-case form
/// begins with `prefix`, if there is one.
pub open spec fn first_prefixed(lines: Seq<Seq<char>>, prefix: Seq<char>, i: int) -> Option<int>
    decreases lines.len() - i,
{
    if i < 0 || i >= lines.len() {
        None
    } else if starts_with(lowered(lines[i]), prefix) {
        Some(i)
    } else {
        first_prefixed(lines, prefix, i + 1)
    }
}

/// What `first_prefixed` returns is the first such line.
pub proof fn lemma_first_prefixed(lines: Seq<Seq<char>>, prefix: Seq<char>, i: int)
    requires
        0 <= i,
    ensures
        match first_prefixed(lines, prefix, i) {
            Some(k) => i <= k < lines.len() && starts_with(lowered(lines[k]), prefix)
                && forall|j: int| i <= j < k ==> !starts_with(lowered(#[trigger] lines[j]), prefix),
            None => forall|j: int|
                i <= j < lines.len() ==> !starts_with(lowered(#[trigger] lines[j]), prefix),
        },
    decreases lines.len() - i,
{
    if i < lines.len() && !starts_with(lowered(lines[i]), prefix) {
        lemma_first_prefixed(lines, prefix, i + 1);
    }
}

/// The first index at or after `i` that holds `c`; `s.len()` if none does.
pub open spec fn skip_to(s: Seq<char>, c: char, i: int) -> int
    decreases s.len() - i,
{
    if 0 <= i < s.len() && s[i] != c {
        skip_to(s, c, i + 1)
    } else {
        i
    }
}

/// What follows the first occurrence of `c` in `s`; empty if there is none.
pub open spec fn after_char(s: Seq<char>, c: char) -> Seq<char> {
    let k = skip_to(s, c, 0);
    if k < s.len() {
        s.subrange(k + 1, s.len() as int)
    } else {
        Seq::empty()
    }
}

/// The index of the first line whose lower-case form begins with `prefix`.
pub fn first_line_with(lines: &Vec<Vec<char>>, prefix: &Vec<char>) -> (r: Option<usize>)
    ensures
        match r {
            Some(k) => k < lines.len() && first_prefixed(views(lines@), prefix@, 0) == Some(
                k as int,
            ),
            None => first_prefixed(views(lines@), prefix@, 0) is None,
        },
{
    let mut i: usize = 0;
    while i < lines.len()
        invariant
            i <= lines.len(),
            first_prefixed(views(lines@), prefix@, 0) == first_prefixed(
                views(lines@),
                prefix@,
                i as int,
            ),
        decreases lines.len() - i,
    {
        let low = to_lower(&lines[i]);
        if has_prefix(&low, prefix) {
            return Some(i);
        }
        i += 1;
    }
    None
}

/// What follows the first occurrence of `c` in `s`.
pub fn text_after_char(s: &Vec<char>, c: char) -> (r: Vec<char>)
    ensures
        r@ == after_char(s@, c),
{
    let mut k: usize = 0;
    while k < s.len() && s[k] != c
        invariant
            k <= s.len(),
            skip_to(s@, c, k as int) == skip_to(s@, c, 0),
        decreases s.len() - k,
    {
        k += 1;
    }
    if k < s.len() {
        slice(s, k + 1, s.len())
    } else {
        Vec::new()
    }
}

/// Whether the two strings hold the same text.
pub fn same_text(a: &str, b: &str) -> (r: bool)
    ensures
        r == (a@ == b@),
{
    same(&chars_of(a), &chars_of(b))
}

/// The views of the pairs of strings in `v`.
pub open spec fn pair_views(v: Seq<(String, String)>) -> Seq<(Seq<char>, Seq<char>)> {
    Seq::new(v.len(), |i: int| (v[i].0@, v[i].1@))
}

/// The view of a string that may be absent.
pub open spec fn optional_view(s: Option<String>) -> Option<Seq<char>> {
    match s {
        Some(t) => Some(t@),
        None => None,
    }
}

/// What follows the first occurrence of `p` in `s`, up to the next
/// occurrence of `p` or else to the end, where `p` is looked for without
/// regard to the case of `s` and the text is cut from `s` as written.
/// `None` if `p` does not occur.
pub open spec fn after_marker_folded(s: Seq<char>, p: Seq<char>) -> Option<Seq<char>> {
    match find(lowered(s), p) {
        None => None,
        Some(k) => Some(
            match find_from(lowered(s), p, k + p.len()) {
                Some(e) => s.subrange(k + p.len(), e),
                None => s.subrange(k + p.len(), s.len() as int),
            },
        ),
    }
}

/// What follows the first occurrence of `p` in `s` in any case, up to the
/// next one, as written.
pub fn text_after_marker_folded(s: &Vec<char>, p: &Vec<char>) -> (r: Option<Vec<char>>)
    ensures
        match r {
            Some(t) => after_marker_folded(s@, p@) == Some(t@),
            None => after_marker_folded(s@, p@) is None,
        },
{
    let low = to_lower(s);
    match index_of(&low, p) {
        None => None,
        Some(k) => {
            let from: usize = k + p.len();
            match index_from(&low, p, from) {
                Some(e) => {
                    proof {
                        lemma_find_from(low@, p@, from as int);
                    }
                    Some(slice(s, from, e))
                },
                None => Some(slice(s, from, s.len())),
            }
        },
    }
}

/// The UTF-8 octets of the given characters.
pub fn octets_of(chars: &Vec<char>) -> (r: Vec<u8>)
    ensures
        r@ == vstd::utf8::encode_utf8(chars@),
{
    string_of(chars).as_str().as_bytes_vec()
}

} // verus!
