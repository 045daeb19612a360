//! Character-sequence helpers shared by the catalog, gallery and browser logic.
//!
//! Strings are handled as sequences of `char`s (`String`'s view in Verus); the
//! helpers below search, slice and rewrite such sequences with exact contracts.

use vstd::prelude::*;

verus! {

// ── Specifications ──────────────────────────────────────────────────────────

/// Unicode `White_Space`, the property that `char::is_whitespace` and `str::trim` use.
pub open spec fn is_ws(c: char) -> bool {
    ||| ('\u{9}' <= c && c <= '\u{d}')
    ||| c == ' '
    ||| c == '\u{85}'
    ||| c == '\u{a0}'
    ||| c == '\u{1680}'
    ||| ('\u{2000}' <= c && c <= '\u{200a}')
    ||| c == '\u{2028}'
    ||| c == '\u{2029}'
    ||| c == '\u{202f}'
    ||| c == '\u{205f}'
    ||| c == '\u{3000}'
}

/// `i` is the first position of `s` where `p` holds, or `s.len()` when it holds nowhere.
pub open spec fn is_first_where(s: Seq<char>, p: spec_fn(char) -> bool, i: int) -> bool {
    &&& 0 <= i <= s.len()
    &&& i < s.len() ==> p(s[i])
    &&& forall|j: int| 0 <= j < i ==> !p(#[trigger] s[j])
}

/// `i` is the last position of `s` where `p` holds, or `-1` when it holds nowhere.
pub open spec fn is_last_where(s: Seq<char>, p: spec_fn(char) -> bool, i: int) -> bool {
    &&& -1 <= i < s.len()
    &&& i >= 0 ==> p(s[i])
    &&& forall|j: int| i < j < s.len() ==> !p(#[trigger] s[j])
}

pub open spec fn first_where(s: Seq<char>, p: spec_fn(char) -> bool) -> int {
    choose|i: int| is_first_where(s, p, i)
}

pub open spec fn last_where(s: Seq<char>, p: spec_fn(char) -> bool) -> int {
    choose|i: int| is_last_where(s, p, i)
}

pub open spec fn eq_char(c: char) -> spec_fn(char) -> bool {
    |x: char| x == c
}

pub open spec fn not_ws() -> spec_fn(char) -> bool {
    |x: char| !is_ws(x)
}

/// Position of the first `c` in `s`, `s.len()` if none.
pub open spec fn first_pos(s: Seq<char>, c: char) -> int {
    first_where(s, eq_char(c))
}

/// Position of the last `c` in `s`, `-1` if none.
pub open spec fn last_pos(s: Seq<char>, c: char) -> int {
    last_where(s, eq_char(c))
}

/// `s` with leading and trailing whitespace removed (`str::trim`).
pub open spec fn trim(s: Seq<char>) -> Seq<char> {
    let a = first_where(s, not_ws());
    let b = last_where(s, not_ws()) + 1;
    if a < b {
        s.subrange(a, b)
    } else {
        Seq::empty()
    }
}

/// `pat` occurs in `s` at position `i`.
pub open spec fn occurs_at(s: Seq<char>, pat: Seq<char>, i: int) -> bool {
    0 <= i && i + pat.len() <= s.len() && s.subrange(i, i + pat.len()) == pat
}

/// `pat` is a substring of `s` (`str::contains`).
pub open spec fn has_substring(s: Seq<char>, pat: Seq<char>) -> bool {
    exists|i: int| occurs_at(s, pat, i)
}

/// `i` is the first occurrence of `pat` in `s`, or `-1` when there is none (`str::find`).
pub open spec fn is_first_occ(s: Seq<char>, pat: Seq<char>, i: int) -> bool {
    &&& i == -1 || occurs_at(s, pat, i)
    &&& forall|j: int| 0 <= j && (i == -1 || j < i) ==> !occurs_at(s, pat, j)
}

/// `i` is the last occurrence of `pat` in `s`, or `-1` when there is none (`str::rfind`).
pub open spec fn is_last_occ(s: Seq<char>, pat: Seq<char>, i: int) -> bool {
    &&& i == -1 || occurs_at(s, pat, i)
    &&& forall|j: int| j > i ==> !occurs_at(s, pat, j)
}

pub open spec fn first_occ(s: Seq<char>, pat: Seq<char>) -> int {
    choose|i: int| is_first_occ(s, pat, i)
}

pub open spec fn last_occ(s: Seq<char>, pat: Seq<char>) -> int {
    choose|i: int| is_last_occ(s, pat, i)
}

/// Every `from` replaced by `to` (`str::replace` with single characters).
pub open spec fn replace_char(s: Seq<char>, from: char, to: char) -> Seq<char> {
    s.map_values(|c: char| if c == from { to } else { c })
}

/// ASCII lowercase of one character.
pub open spec fn ascii_lower(c: char) -> char {
    if 'A' <= c && c <= 'Z' {
        ((c as u32) + 32) as char
    } else {
        c
    }
}

/// `str::eq_ignore_ascii_case`.
pub open spec fn eq_ignore_ascii_case(a: Seq<char>, b: Seq<char>) -> bool {
    a.len() == b.len() && forall|i: int| 0 <= i < a.len() ==> ascii_lower(a[i]) == ascii_lower(
        b[i],
    )
}

pub open spec fn digit_char(d: nat) -> char {
    if d == 0 {
        '0'
    } else if d == 1 {
        '1'
    } else if d == 2 {
        '2'
    } else if d == 3 {
        '3'
    } else if d == 4 {
        '4'
    } else if d == 5 {
        '5'
    } else if d == 6 {
        '6'
    } else if d == 7 {
        '7'
    } else if d == 8 {
        '8'
    } else {
        '9'
    }
}

/// Decimal notation of `n` without leading zeros (what `to_string` gives for integers).
pub open spec fn decimal(n: nat) -> Seq<char>
    decreases n,
{
    if n < 10 {
        seq![digit_char(n)]
    } else {
        decimal(n / 10).push(digit_char(n % 10))
    }
}

/// The text of an optional string, empty when absent (`unwrap_or_default`).
pub open spec fn opt_text(o: Option<String>) -> Seq<char> {
    match o {
        Some(s) => s@,
        None => Seq::empty(),
    }
}

/// What `String::from_utf8_lossy` makes of a byte sequence.
pub uninterp spec fn spec_utf8_lossy(b: Seq<u8>) -> Seq<char>;

/// `s` up to its first `c` (`split(c).next()`).
pub open spec fn before_first(s: Seq<char>, c: char) -> Seq<char> {
    s.take(first_pos(s, c))
}

/// `s` after its last `c` (`rsplit(c).next()`), all of `s` when there is none.
pub open spec fn after_last(s: Seq<char>, c: char) -> Seq<char> {
    s.skip(last_pos(s, c) + 1)
}

/// `s` up to its last `c` when there is one, else `s`
/// (the first half of `rsplit_once(c)`, or the whole when it fails).
pub open spec fn before_last_or_all(s: Seq<char>, c: char) -> Seq<char> {
    let i = last_pos(s, c);
    if i == -1 {
        s
    } else {
        s.take(i)
    }
}

/// `str::strip_prefix(p).unwrap_or(s)`.
pub open spec fn strip_prefix_or_all(s: Seq<char>, p: Seq<char>) -> Seq<char> {
    if p.is_prefix_of(s) {
        s.skip(p.len() as int)
    } else {
        s
    }
}

/// Unicode lowercase mapping of a string (`str::to_lowercase`).
pub uninterp spec fn spec_lowercase(s: Seq<char>) -> Seq<char>;

/// Strict lexicographic order of character sequences by code point (the order of
/// `str`'s comparison, since UTF-8 preserves code-point order byte by byte).
pub open spec fn lex_lt(a: Seq<char>, b: Seq<char>) -> bool
    decreases a.len(),
{
    if a.len() == 0 {
        b.len() > 0
    } else if b.len() == 0 {
        false
    } else if a[0] != b[0] {
        (a[0] as u32) < (b[0] as u32)
    } else {
        lex_lt(a.drop_first(), b.drop_first())
    }
}

// ── Lemmas ──────────────────────────────────────────────────────────────────

pub proof fn lemma_first_where(s: Seq<char>, p: spec_fn(char) -> bool, i: int)
    requires
        is_first_where(s, p, i),
    ensures
        first_where(s, p) == i,
{
    let k = first_where(s, p);
    assert(is_first_where(s, p, k));
    if k < i {
        assert(!p(s[k]));
    } else if i < k {
        assert(!p(s[i]));
    }
}

pub proof fn lemma_last_where(s: Seq<char>, p: spec_fn(char) -> bool, i: int)
    requires
        is_last_where(s, p, i),
    ensures
        last_where(s, p) == i,
{
    let k = last_where(s, p);
    assert(is_last_where(s, p, k));
    if k < i {
        assert(!p(s[i]));
    } else if i < k {
        assert(!p(s[k]));
    }
}

/// Every sequence has a first position where `p` holds (or none, `s.len()`).
pub proof fn lemma_first_where_exists(s: Seq<char>, p: spec_fn(char) -> bool)
    ensures
        is_first_where(s, p, first_where(s, p)),
    decreases s.len(),
{
    if s.len() == 0 {
        assert(is_first_where(s, p, 0));
    } else if p(s[0]) {
        assert(is_first_where(s, p, 0));
    } else {
        let t = s.drop_first();
        lemma_first_where_exists(t, p);
        let i = first_where(t, p);
        assert forall|j: int| 0 <= j < i + 1 implies !p(#[trigger] s[j]) by {
            if j > 0 {
                assert(s[j] == t[j - 1]);
            }
        }
        assert(is_first_where(s, p, i + 1));
    }
}

/// Every sequence has a last position where `p` holds (or none, `-1`).
pub proof fn lemma_last_where_exists(s: Seq<char>, p: spec_fn(char) -> bool)
    ensures
        is_last_where(s, p, last_where(s, p)),
    decreases s.len(),
{
    if s.len() == 0 {
        assert(is_last_where(s, p, -1));
    } else if p(s.last()) {
        assert(is_last_where(s, p, s.len() - 1));
    } else {
        let t = s.drop_last();
        lemma_last_where_exists(t, p);
        let i = last_where(t, p);
        assert forall|j: int| i < j < s.len() implies !p(#[trigger] s[j]) by {
            if j < s.len() - 1 {
                assert(s[j] == t[j]);
            }
        }
        assert(is_last_where(s, p, i));
    }
}

/// A trimmed, non-empty text stays the same when trimmed after a leading space.
pub proof fn lemma_trim_after_space(l: Seq<char>)
    requires
        trim(l) == l,
        l.len() > 0,
    ensures
        trim(seq![' '] + l) == l,
{
    lemma_first_where_exists(l, not_ws());
    lemma_last_where_exists(l, not_ws());
    let a = first_where(l, not_ws());
    let b = last_where(l, not_ws()) + 1;
    assert(a < b);
    assert(a == 0 && b == l.len());
    let s = seq![' '] + l;
    assert(is_first_where(s, not_ws(), 1)) by {
        assert(s[1] == l[0]);
    }
    lemma_first_where(s, not_ws(), 1);
    assert(is_last_where(s, not_ws(), l.len() as int)) by {
        assert(s[l.len() as int] == l[l.len() - 1]);
    }
    lemma_last_where(s, not_ws(), l.len() as int);
    assert(s.subrange(1, l.len() + 1 as int) =~= l);
}

/// Decimal text has one digit below 10 and more from 10 on.
pub proof fn lemma_decimal_len(n: nat)
    ensures
        n < 10 ==> decimal(n).len() == 1,
        n >= 10 ==> decimal(n).len() >= 2,
    decreases n,
{
    if n >= 10 {
        lemma_decimal_len(n / 10);
    }
}

/// Different numbers have different decimal texts.
pub proof fn lemma_decimal_injective(a: nat, b: nat)
    requires
        decimal(a) == decimal(b),
    ensures
        a == b,
    decreases a,
{
    lemma_decimal_len(a);
    lemma_decimal_len(b);
    if a < 10 && b < 10 {
        assert(decimal(a)[0] == digit_char(a));
        assert(decimal(b)[0] == digit_char(b));
    } else if a >= 10 && b >= 10 {
        let da = decimal(a);
        let db = decimal(b);
        assert(da.last() == digit_char(a % 10));
        assert(db.last() == digit_char(b % 10));
        assert(da.drop_last() =~= decimal(a / 10));
        assert(db.drop_last() =~= decimal(b / 10));
        lemma_decimal_injective(a / 10, b / 10);
    }
}

pub proof fn lemma_first_occ(s: Seq<char>, pat: Seq<char>, i: int)
    requires
        is_first_occ(s, pat, i),
    ensures
        first_occ(s, pat) == i,
{
    let k = first_occ(s, pat);
    assert(is_first_occ(s, pat, k));
}

pub proof fn lemma_last_occ(s: Seq<char>, pat: Seq<char>, i: int)
    requires
        is_last_occ(s, pat, i),
    ensures
        last_occ(s, pat) == i,
{
    let k = last_occ(s, pat);
    assert(is_last_occ(s, pat, k));
}

// ── Conversions and std wrappers ────────────────────────────────────────────

/// The characters of `s`, in order.
pub fn chars_of(s: &str) -> (r: Vec<char>)
    ensures
        r@ == s@,
{
    broadcast use vstd::string::group_string_axioms;

    let mut r: Vec<char> = Vec::new();
    for c in it: s.chars()
        invariant
            it.seq() == s@,
            r@ == it.seq().take(it.index() as int),
    {
        r.push(c);
    }
    assert(r@ == s@.take(s@.len() as int));
    r
}

/// `String::from_iter` over the characters of `v`: a string whose characters are `v`.
#[verifier::external_body]
pub(crate) fn string_of(v: &Vec<char>) -> (r: String)
    ensures
        r@ == v@,
{
    v.iter().collect()
}

/// `str::to_lowercase`: the Unicode lowercase mapping of `s`, so empty text stays
/// empty, and on ASCII text it lowers the capitals `A`–`Z` and keeps the rest.
#[verifier::external_body]
pub(crate) fn to_lowercase(s: &str) -> (r: String)
    ensures
        r@ == spec_lowercase(s@),
        s@.len() == 0 ==> r@.len() == 0,
        (forall|i: int| 0 <= i < s@.len() ==> (s@[i] as u32) < 128) ==> r@ == s@.map_values(
            |c: char| ascii_lower(c),
        ),
{
    s.to_lowercase()
}

// ── Searching and slicing ───────────────────────────────────────────────────

/// `char::is_whitespace`.
pub fn is_whitespace(c: char) -> (b: bool)
    ensures
        b == is_ws(c),
{
    ('\u{9}' <= c && c <= '\u{d}') || c == ' ' || c == '\u{85}' || c == '\u{a0}' || c
        == '\u{1680}' || ('\u{2000}' <= c && c <= '\u{200a}') || c == '\u{2028}' || c
        == '\u{2029}' || c == '\u{202f}' || c == '\u{205f}' || c == '\u{3000}'
}

/// Position of the first `c` in `s`; `s.len()` when `c` does not occur.
pub fn first_index(s: &Vec<char>, c: char) -> (r: usize)
    ensures
        r == first_pos(s@, c),
        r <= s.len(),
{
    let mut i: usize = 0;
    while i < s.len()
        invariant
            i <= s.len(),
            forall|j: int| 0 <= j < i ==> s@[j] != c,
        decreases s.len() - i,
    {
        if s[i] == c {
            proof {
                lemma_first_where(s@, eq_char(c), i as int);
            }
            return i;
        }
        i += 1;
    }
    proof {
        lemma_first_where(s@, eq_char(c), i as int);
    }
    i
}

/// Position of the last `c` in `s`, if any.
pub fn last_index(s: &Vec<char>, c: char) -> (r: Option<usize>)
    ensures
        match r {
            Some(i) => i == last_pos(s@, c) && i < s.len(),
            None => last_pos(s@, c) == -1,
        },
{
    let mut i: usize = s.len();
    while i > 0
        invariant
            i <= s.len(),
            forall|j: int| i <= j < s.len() ==> s@[j] != c,
        decreases i,
    {
        if s[i - 1] == c {
            proof {
                lemma_last_where(s@, eq_char(c), i - 1);
            }
            return Some(i - 1);
        }
        i -= 1;
    }
    proof {
        lemma_last_where(s@, eq_char(c), -1);
    }
    None
}

/// Whether `pat` occurs in `s` at position `i`.
pub fn matches_at(s: &Vec<char>, pat: &Vec<char>, i: usize) -> (b: bool)
    ensures
        b == occurs_at(s@, pat@, i as int),
{
    if pat.len() > s.len() || i > s.len() - pat.len() {
        return false;
    }
    let mut k: usize = 0;
    while k < pat.len()
        invariant
            k <= pat.len(),
            i + pat.len() <= s.len(),
            forall|j: int| 0 <= j < k ==> s@[i + j] == pat@[j],
        decreases pat.len() - k,
    {
        if s[i + k] != pat[k] {
            assert(s@.subrange(i as int, i + pat.len())[k as int] != pat@[k as int]);
            return false;
        }
        k += 1;
    }
    assert(s@.subrange(i as int, i + pat.len()) =~= pat@);
    true
}

/// First occurrence of `pat` in `s` (`str::find`).
pub fn find_first(s: &Vec<char>, pat: &Vec<char>) -> (r: Option<usize>)
    ensures
        match r {
            Some(i) => i == first_occ(s@, pat@) && occurs_at(s@, pat@, i as int),
            None => first_occ(s@, pat@) == -1 && !has_substring(s@, pat@),
        },
{
    if pat.len() > s.len() {
        proof {
            lemma_first_occ(s@, pat@, -1);
        }
        return None;
    }
    let last = s.len() - pat.len();
    let mut i: usize = 0;
    while i < last
        invariant
            last + pat.len() == s.len(),
            i <= last,
            forall|j: int| 0 <= j < i ==> !occurs_at(s@, pat@, j),
        decreases last - i,
    {
        if matches_at(s, pat, i) {
            proof {
                lemma_first_occ(s@, pat@, i as int);
            }
            return Some(i);
        }
        i += 1;
    }
    if matches_at(s, pat, last) {
        proof {
            lemma_first_occ(s@, pat@, last as int);
        }
        return Some(last);
    }
    proof {
        lemma_first_occ(s@, pat@, -1);
    }
    None
}

/// Last occurrence of `pat` in `s` (`str::rfind`).
pub fn find_last(s: &Vec<char>, pat: &Vec<char>) -> (r: Option<usize>)
    ensures
        match r {
            Some(i) => i == last_occ(s@, pat@) && occurs_at(s@, pat@, i as int),
            None => last_occ(s@, pat@) == -1 && !has_substring(s@, pat@),
        },
{
    if pat.len() > s.len() {
        proof {
            lemma_last_occ(s@, pat@, -1);
        }
        return None;
    }
    let mut i: usize = s.len() - pat.len();
    while i > 0
        invariant
            i + pat.len() <= s.len(),
            forall|j: int| j > i ==> !occurs_at(s@, pat@, j),
        decreases i,
    {
        if matches_at(s, pat, i) {
            proof {
                lemma_last_occ(s@, pat@, i as int);
            }
            return Some(i);
        }
        i -= 1;
    }
    if matches_at(s, pat, 0) {
        proof {
            lemma_last_occ(s@, pat@, 0);
        }
        return Some(0);
    }
    proof {
        lemma_last_occ(s@, pat@, -1);
    }
    None
}

/// Whether `pat` is a substring of `s` (`str::contains`).
pub fn contains(s: &Vec<char>, pat: &Vec<char>) -> (b: bool)
    ensures
        b == has_substring(s@, pat@),
{
    match find_first(s, pat) {
        Some(i) => {
            assert(occurs_at(s@, pat@, i as int));
            true
        },
        None => false,
    }
}

/// The characters `s[a..b]`.
pub fn slice(s: &Vec<char>, a: usize, b: usize) -> (r: Vec<char>)
    requires
        a <= b <= s.len(),
    ensures
        r@ == s@.subrange(a as int, b as int),
{
    let mut r: Vec<char> = Vec::new();
    let mut i = a;
    while i < b
        invariant
            a <= i <= b <= s.len(),
            r@ == s@.subrange(a as int, i as int),
        decreases b - i,
    {
        r.push(s[i]);
        i += 1;
        assert(r@ =~= s@.subrange(a as int, i as int));
    }
    r
}

/// `s` with leading and trailing whitespace removed (`str::trim`).
pub fn trim_chars(s: &Vec<char>) -> (r: Vec<char>)
    ensures
        r@ == trim(s@),
{
    let mut a: usize = 0;
    while a < s.len() && is_whitespace(s[a])
        invariant
            a <= s.len(),
            forall|j: int| 0 <= j < a ==> is_ws(s@[j]),
        decreases s.len() - a,
    {
        a += 1;
    }
    proof {
        lemma_first_where(s@, not_ws(), a as int);
    }
    let mut b: usize = s.len();
    while b > 0 && is_whitespace(s[b - 1])
        invariant
            b <= s.len(),
            forall|j: int| b <= j < s.len() ==> is_ws(s@[j]),
        decreases b,
    {
        b -= 1;
    }
    proof {
        lemma_last_where(s@, not_ws(), b - 1);
    }
    if a < b {
        slice(s, a, b)
    } else {
        Vec::new()
    }
}

/// Every `from` in `s` replaced by `to`.
pub fn replace_chars(s: &Vec<char>, from: char, to: char) -> (r: Vec<char>)
    ensures
        r@ == replace_char(s@, from, to),
{
    let mut r: Vec<char> = Vec::new();
    let mut i: usize = 0;
    while i < s.len()
        invariant
            i <= s.len(),
            r@ == replace_char(s@.take(i as int), from, to),
        decreases s.len() - i,
    {
        let c = s[i];
        r.push(if c == from { to } else { c });
        i += 1;
        assert(r@ =~= replace_char(s@.take(i as int), from, to));
    }
    assert(s@.take(s.len() as int) =~= s@);
    r
}

/// ASCII lowercase of one character.
pub fn to_ascii_lower(c: char) -> (r: char)
    ensures
        r == ascii_lower(c),
{
    if 'A' <= c && c <= 'Z' {
        let u = ((c as u32) + 32) as u8;
        u as char
    } else {
        c
    }
}

/// `str::eq_ignore_ascii_case`.
pub fn eq_ignore_case(a: &Vec<char>, b: &Vec<char>) -> (r: bool)
    ensures
        r == eq_ignore_ascii_case(a@, b@),
{
    if a.len() != b.len() {
        return false;
    }
    let mut i: usize = 0;
    while i < a.len()
        invariant
            i <= a.len() == b.len(),
            forall|j: int| 0 <= j < i ==> ascii_lower(a@[j]) == ascii_lower(b@[j]),
        decreases a.len() - i,
    {
        if to_ascii_lower(a[i]) != to_ascii_lower(b[i]) {
            return false;
        }
        i += 1;
    }
    true
}

fn digit(d: u64) -> (c: char)
    requires
        d < 10,
    ensures
        c == digit_char(d as nat),
{
    match d {
        0 => '0',
        1 => '1',
        2 => '2',
        3 => '3',
        4 => '4',
        5 => '5',
        6 => '6',
        7 => '7',
        8 => '8',
        _ => '9',
    }
}

/// Decimal notation of `n` (`u64::to_string`).
pub fn decimal_chars(n: u64) -> (r: Vec<char>)
    ensures
        r@ == decimal(n as nat),
    decreases n,
{
    if n < 10 {
        let mut v: Vec<char> = Vec::new();
        v.push(digit(n));
        v
    } else {
        let mut v = decimal_chars(n / 10);
        v.push(digit(n % 10));
        v
    }
}

/// Concatenation of two character vectors.
pub fn concat(a: &Vec<char>, b: &Vec<char>) -> (r: Vec<char>)
    ensures
        r@ == a@ + b@,
{
    let mut r = slice(a, 0, a.len());
    let mut i: usize = 0;
    while i < b.len()
        invariant
            i <= b.len(),
            r@ == a@ + b@.take(i as int),
        decreases b.len() - i,
    {
        r.push(b[i]);
        i += 1;
        assert(r@ =~= a@ + b@.take(i as int));
    }
    assert(b@.take(b.len() as int) =~= b@);
    assert(a@.subrange(0, a@.len() as int) =~= a@);
    r
}

/// Whether two strings hold the same characters.
pub fn same_text(a: &str, b: &str) -> (r: bool)
    ensures
        r == (a@ == b@),
{
    let x = chars_of(a);
    let y = chars_of(b);
    if x.len() != y.len() {
        return false;
    }
    let mut i: usize = 0;
    while i < x.len()
        invariant
            i <= x.len() == y.len(),
            x@ == a@,
            y@ == b@,
            forall|j: int| 0 <= j < i ==> x@[j] == y@[j],
        decreases x.len() - i,
    {
        if x[i] != y[i] {
            assert(x@[i as int] != y@[i as int]);
            return false;
        }
        i += 1;
    }
    assert(x@ =~= y@);
    true
}

/// Whether the lowercase form of `s` contains `pat` (which callers give in lowercase).
pub fn lower_contains(s: &str, pat: &str) -> (r: bool)
    ensures
        r == has_substring(spec_lowercase(s@), pat@),
{
    let lower = to_lowercase(s);
    contains(&chars_of(lower.as_str()), &chars_of(pat))
}

/// `a` followed by `b`.
pub fn cat(a: &str, b: &str) -> (r: String)
    ensures
        r@ == a@ + b@,
{
    let r = String::from_str(a);
    r.concat(b)
}

/// `String::from_utf8_lossy`: decodes UTF-8, replacing invalid sequences with U+FFFD.
#[verifier::external_body]
pub(crate) fn utf8_lossy(b: &Vec<u8>) -> (r: String)
    ensures
        r@ == spec_utf8_lossy(b@),
        vstd::utf8::valid_utf8(b@) ==> r@ == vstd::utf8::decode_utf8(b@),
{
    String::from_utf8_lossy(b.as_slice()).into_owned()
}

/// `s` up to its first `c`.
pub fn take_before_first(s: &Vec<char>, c: char) -> (r: Vec<char>)
    ensures
        r@ == before_first(s@, c),
{
    let i = first_index(s, c);
    slice(s, 0, i)
}

/// `s` after its last `c`, all of `s` when there is none.
pub fn take_after_last(s: &Vec<char>, c: char) -> (r: Vec<char>)
    ensures
        r@ == after_last(s@, c),
{
    match last_index(s, c) {
        Some(i) => slice(s, i + 1, s.len()),
        None => {
            assert(s@.skip(0) =~= s@);
            slice(s, 0, s.len())
        },
    }
}

/// `s` up to its last `c`, or all of `s`.
pub fn take_before_last_or_all(s: &Vec<char>, c: char) -> (r: Vec<char>)
    ensures
        r@ == before_last_or_all(s@, c),
{
    match last_index(s, c) {
        Some(i) => slice(s, 0, i),
        None => {
            assert(s@.subrange(0, s@.len() as int) =~= s@);
            slice(s, 0, s.len())
        },
    }
}

/// `s` without a leading `p`, or all of `s`.
pub fn strip_prefix_chars(s: &Vec<char>, p: &Vec<char>) -> (r: Vec<char>)
    ensures
        r@ == strip_prefix_or_all(s@, p@),
{
    if matches_at(s, p, 0) {
        assert(p@.is_prefix_of(s@)) by {
            assert(s@.subrange(0, p@.len() as int) == p@);
        }
        slice(s, p.len(), s.len())
    } else {
        assert(!p@.is_prefix_of(s@)) by {
            if p@.is_prefix_of(s@) {
                assert(s@.subrange(0, p@.len() as int) =~= p@);
            }
        }
        assert(s@.subrange(0, s@.len() as int) =~= s@);
        slice(s, 0, s.len())
    }
}

pub proof fn lemma_lex_irreflexive(a: Seq<char>)
    ensures
        !lex_lt(a, a),
    decreases a.len(),
{
    if a.len() > 0 {
        lemma_lex_irreflexive(a.drop_first());
    }
}

pub proof fn lemma_lex_total(a: Seq<char>, b: Seq<char>)
    ensures
        lex_lt(a, b) || lex_lt(b, a) || a == b,
    decreases a.len(),
{
    if a.len() > 0 && b.len() > 0 {
        if a[0] == b[0] {
            lemma_lex_total(a.drop_first(), b.drop_first());
            if a.drop_first() == b.drop_first() {
                assert(a =~= seq![a[0]] + a.drop_first());
                assert(b =~= seq![b[0]] + b.drop_first());
            }
        } else {
            assert((a[0] as u32) != (b[0] as u32)) by {
                vstd::utf8::char_u32_cast(a[0], a[0] as u32);
                vstd::utf8::char_u32_cast(b[0], b[0] as u32);
            }
        }
    } else if a.len() == 0 && b.len() == 0 {
        assert(a =~= b);
    }
}

pub proof fn lemma_lex_asymmetric(a: Seq<char>, b: Seq<char>)
    ensures
        lex_lt(a, b) ==> !lex_lt(b, a),
    decreases a.len(),
{
    if a.len() > 0 && b.len() > 0 && a[0] == b[0] {
        lemma_lex_asymmetric(a.drop_first(), b.drop_first());
    }
}

pub proof fn lemma_lex_transitive(a: Seq<char>, b: Seq<char>, c: Seq<char>)
    requires
        lex_lt(a, b),
        lex_lt(b, c),
    ensures
        lex_lt(a, c),
    decreases a.len(),
{
    if a.len() > 0 && b.len() > 0 && c.len() > 0 {
        if a[0] == b[0] && b[0] == c[0] {
            lemma_lex_transitive(a.drop_first(), b.drop_first(), c.drop_first());
        }
    }
}

/// Whether `a` comes strictly before `b` in lexicographic order.
pub fn lex_less(a: &Vec<char>, b: &Vec<char>) -> (r: bool)
    ensures
        r == lex_lt(a@, b@),
{
    let mut k: usize = 0;
    assert(a@.skip(0) =~= a@);
    assert(b@.skip(0) =~= b@);
    while k < a.len() && k < b.len() && a[k] == b[k]
        invariant
            k <= a.len(),
            k <= b.len(),
            lex_lt(a@, b@) == lex_lt(a@.skip(k as int), b@.skip(k as int)),
        decreases a.len() - k,
    {
        proof {
            assert(a@.skip(k as int).drop_first() =~= a@.skip(k + 1));
            assert(b@.skip(k as int).drop_first() =~= b@.skip(k + 1));
        }
        k += 1;
    }
    proof {
        if k < a.len() && k < b.len() {
            assert(a@.skip(k as int)[0] == a@[k as int]);
            assert(b@.skip(k as int)[0] == b@[k as int]);
        }
    }
    if k == a.len() {
        k < b.len()
    } else if k == b.len() {
        false
    } else {
        (a[k] as u32) < (b[k] as u32)
    }
}

} // verus!
