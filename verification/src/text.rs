//! Character-level text handling used by the parsers of this crate.
//!
//! Texts are modelled as sequences of Unicode scalar values (`Seq<char>`),
//! which is what the view of a `String` or `&str` gives.
use vstd::prelude::*;

verus! {

broadcast use vstd::string::group_string_axioms;

/// Appending one character to a `String` extends its text by that character.
pub assume_specification[ String::push ](s: &mut String, ch: char)
    ensures
        final(s)@ == old(s)@.push(ch),
;

// ---------------------------------------------------------------------------
// Character classes
// ---------------------------------------------------------------------------
/// Unicode `White_Space`, the set that `char::is_whitespace` and `str::trim` use.
pub open spec fn is_ws(c: char) -> bool {
    let u = c as u32;
    (0x09 <= u && u <= 0x0d) || u == 0x20 || u == 0x85 || u == 0xa0 || u == 0x1680 || (0x2000
        <= u && u <= 0x200a) || u == 0x2028 || u == 0x2029 || u == 0x202f || u == 0x205f || u
        == 0x3000
}

/// Classes of characters that the parsers strip from the ends of a text.
#[derive(Clone, Copy, PartialEq, Eq, Debug)]
pub enum CharClass {
    /// Unicode white space.
    Whitespace,
    /// The punctuation around a PCI address in a kernel log token: `: , ( ) [ ]`.
    AddressPunctuation,
    /// The percent sign.
    Percent,
    /// The slash.
    Slash,
}

pub open spec fn in_class(cls: CharClass, c: char) -> bool {
    match cls {
        CharClass::Whitespace => is_ws(c),
        CharClass::AddressPunctuation => c == ':' || c == ',' || c == '(' || c == ')' || c == '['
            || c == ']',
        CharClass::Percent => c == '%',
        CharClass::Slash => c == '/',
    }
}

pub fn is_whitespace(c: char) -> (r: bool)
    ensures
        r == is_ws(c),
{
    let u = c as u32;
    (0x09 <= u && u <= 0x0d) || u == 0x20 || u == 0x85 || u == 0xa0 || u == 0x1680 || (0x2000
        <= u && u <= 0x200a) || u == 0x2028 || u == 0x2029 || u == 0x202f || u == 0x205f || u
        == 0x3000
}

pub fn char_in_class(cls: CharClass, c: char) -> (r: bool)
    ensures
        r == in_class(cls, c),
{
    match cls {
        CharClass::Whitespace => is_whitespace(c),
        CharClass::AddressPunctuation => c == ':' || c == ',' || c == '(' || c == ')' || c == '['
            || c == ']',
        CharClass::Percent => c == '%',
        CharClass::Slash => c == '/',
    }
}

// ---------------------------------------------------------------------------
// Trimming
// ---------------------------------------------------------------------------
/// Index of the first character at or after `i` that is outside `cls`.
pub open spec fn skip_class_from(s: Seq<char>, cls: CharClass, i: int) -> int
    decreases s.len() - i,
{
    if i < 0 || i >= s.len() {
        i
    } else if in_class(cls, s[i]) {
        skip_class_from(s, cls, i + 1)
    } else {
        i
    }
}

/// Index just past the last character before `j` that is outside `cls`.
pub open spec fn skip_class_back(s: Seq<char>, cls: CharClass, j: int) -> int
    decreases j,
{
    if j <= 0 || j > s.len() {
        j
    } else if in_class(cls, s[j - 1]) {
        skip_class_back(s, cls, j - 1)
    } else {
        j
    }
}

/// `s` without its leading characters of class `cls`.
pub open spec fn trim_start_class(s: Seq<char>, cls: CharClass) -> Seq<char> {
    s.subrange(skip_class_from(s, cls, 0), s.len() as int)
}

/// `s` without its trailing characters of class `cls`.
pub open spec fn trim_end_class(s: Seq<char>, cls: CharClass) -> Seq<char> {
    s.subrange(0, skip_class_back(s, cls, s.len() as int))
}

/// `s` without leading and trailing characters of class `cls`.
pub open spec fn trim_class(s: Seq<char>, cls: CharClass) -> Seq<char> {
    trim_end_class(trim_start_class(s, cls), cls)
}

/// What `str::trim` gives: `s` without leading and trailing white space.
pub open spec fn trim(s: Seq<char>) -> Seq<char> {
    trim_class(s, CharClass::Whitespace)
}

pub proof fn lemma_skip_class_from_bounds(s: Seq<char>, cls: CharClass, i: int)
    requires
        0 <= i <= s.len(),
    ensures
        i <= skip_class_from(s, cls, i) <= s.len(),
    decreases s.len() - i,
{
    if i < s.len() && in_class(cls, s[i]) {
        lemma_skip_class_from_bounds(s, cls, i + 1);
    }
}

pub proof fn lemma_skip_class_back_bounds(s: Seq<char>, cls: CharClass, j: int)
    requires
        0 <= j <= s.len(),
    ensures
        0 <= skip_class_back(s, cls, j) <= j,
    decreases j,
{
    if j > 0 && in_class(cls, s[j - 1]) {
        lemma_skip_class_back_bounds(s, cls, j - 1);
    }
}

/// Bounds `(a, b)` such that `trim_class(s, cls) == s[a..b]`.
pub fn trim_bounds(s: &Vec<char>, cls: CharClass) -> (r: (usize, usize))
    ensures
        r.0 <= r.1 <= s.len(),
        s@.subrange(r.0 as int, r.1 as int) == trim_class(s@, cls),
{
    let mut i: usize = 0;
    while i < s.len() && char_in_class(cls, s[i])
        invariant
            i <= s.len(),
            skip_class_from(s@, cls, 0) == skip_class_from(s@, cls, i as int),
        decreases s.len() - i,
    {
        i = i + 1;
    }
    let ghost t = s@.subrange(i as int, s@.len() as int);
    let mut j: usize = s.len();
    while j > i && char_in_class(cls, s[j - 1])
        invariant
            i <= j <= s.len(),
            t == s@.subrange(i as int, s@.len() as int),
            skip_class_back(t, cls, t.len() as int) == skip_class_back(t, cls, j - i),
        decreases j,
    {
        assert(t[j - i - 1] == s@[j - 1]);
        j = j - 1;
    }
    proof {
        lemma_skip_class_back_bounds(t, cls, (j - i) as int);
        assert(s@.subrange(i as int, j as int) == t.subrange(0, (j - i) as int));
    }
    (i, j)
}

// ---------------------------------------------------------------------------
// Building strings
// ---------------------------------------------------------------------------
/// The characters of `s`, in order.
pub fn chars_of(s: &str) -> (r: Vec<char>)
    ensures
        r@ == s@,
{
    let mut r: Vec<char> = Vec::new();
    for c in it: s.chars()
        invariant
            it.seq() == s@,
            r@ == it.seq().take(it.index() as int),
    {
        r.push(c);
    }
    r
}

/// Appends `v[lo..hi]` to `out`.
pub fn push_range(out: &mut String, v: &Vec<char>, lo: usize, hi: usize)
    requires
        lo <= hi <= v.len(),
    ensures
        final(out)@ == old(out)@ + v@.subrange(lo as int, hi as int),
{
    let mut k: usize = lo;
    while k < hi
        invariant
            lo <= k <= hi <= v.len(),
            out@ == old(out)@ + v@.subrange(lo as int, k as int),
        decreases hi - k,
    {
        out.push(v[k]);
        assert(v@.subrange(lo as int, k + 1) == v@.subrange(lo as int, k as int).push(v@[k as int]));
        k = k + 1;
    }
}

/// The string made of `v[lo..hi]`.
pub fn string_of_range(v: &Vec<char>, lo: usize, hi: usize) -> (r: String)
    requires
        lo <= hi <= v.len(),
    ensures
        r@ == v@.subrange(lo as int, hi as int),
{
    let mut r = String::new();
    push_range(&mut r, v, lo, hi);
    r
}

/// The string made of the characters of `v`.
pub fn string_of(v: &Vec<char>) -> (r: String)
    ensures
        r@ == v@,
{
    let r = string_of_range(v, 0, v.len());
    assert(v@.subrange(0, v@.len() as int) == v@);
    r
}

/// Appends `s` to `out`.
pub fn push_str(out: &mut String, s: &str)
    ensures
        final(out)@ == old(out)@ + s@,
{
    let v = chars_of(s);
    push_range(out, &v, 0, v.len());
    assert(v@.subrange(0, v@.len() as int) == v@);
}

/// `a` followed by `b`.
pub fn concat(a: &str, b: &str) -> (r: String)
    ensures
        r@ == a@ + b@,
{
    let mut r = String::new();
    push_str(&mut r, a);
    push_str(&mut r, b);
    r
}

/// The characters of `v[lo..hi]`.
pub fn sub_chars(v: &Vec<char>, lo: usize, hi: usize) -> (r: Vec<char>)
    requires
        lo <= hi <= v.len(),
    ensures
        r@ == v@.subrange(lo as int, hi as int),
{
    let mut r: Vec<char> = Vec::new();
    let mut k: usize = lo;
    while k < hi
        invariant
            lo <= k <= hi <= v.len(),
            r@ == v@.subrange(lo as int, k as int),
        decreases hi - k,
    {
        r.push(v[k]);
        assert(v@.subrange(lo as int, k + 1) == v@.subrange(lo as int, k as int).push(v@[k as int]));
        k = k + 1;
    }
    r
}

/// The characters of `s` without leading and trailing white space.
pub fn trimmed_chars(s: &str) -> (r: Vec<char>)
    ensures
        r@ == trim(s@),
{
    let v = chars_of(s);
    let (a, b) = trim_bounds(&v, CharClass::Whitespace);
    sub_chars(&v, a, b)
}

/// What `str::trim` returns, as an owned string.
pub fn trimmed(s: &str) -> (r: String)
    ensures
        r@ == trim(s@),
{
    let v = chars_of(s);
    let (a, b) = trim_bounds(&v, CharClass::Whitespace);
    string_of_range(&v, a, b)
}


// ---------------------------------------------------------------------------
// Searching
// ---------------------------------------------------------------------------
/// `n` occurs in `h` starting at index `i`.
pub open spec fn occurs_at(h: Seq<char>, n: Seq<char>, i: int) -> bool {
    0 <= i && i + n.len() <= h.len() && h.subrange(i, i + n.len()) == n
}

/// The first index at or after `i` where `n` occurs in `h`.
pub open spec fn find_from(h: Seq<char>, n: Seq<char>, i: int) -> Option<int>
    decreases h.len() + 1 - i,
{
    if i < 0 || i + n.len() > h.len() {
        None
    } else if occurs_at(h, n, i) {
        Some(i)
    } else {
        find_from(h, n, i + 1)
    }
}

/// What `str::find` gives, counted in characters.
pub open spec fn find(h: Seq<char>, n: Seq<char>) -> Option<int> {
    find_from(h, n, 0)
}

/// What `str::contains` gives.
pub open spec fn contains(h: Seq<char>, n: Seq<char>) -> bool {
    find(h, n) is Some
}

pub proof fn lemma_find_from_facts(h: Seq<char>, n: Seq<char>, i: int)
    requires
        0 <= i,
    ensures
        find_from(h, n, i) matches Some(k) ==> i <= k && occurs_at(h, n, k),
        forall|k: int| i <= k && occurs_at(h, n, k) ==> find_from(h, n, i) is Some,
    decreases h.len() + 1 - i,
{
    if i + n.len() <= h.len() && !occurs_at(h, n, i) {
        lemma_find_from_facts(h, n, i + 1);
    }
}

/// Whether `n` occurs in `h` at index `i`.
pub fn matches_at(h: &Vec<char>, n: &Vec<char>, i: usize) -> (r: bool)
    ensures
        r == occurs_at(h@, n@, i as int),
{
    if i > h.len() || n.len() > h.len() - i {
        return false;
    }
    let mut k: usize = 0;
    while k < n.len()
        invariant
            i + n.len() <= h.len(),
            k <= n.len(),
            forall|m: int| 0 <= m < k ==> h@[i + m] == n@[m],
        decreases n.len() - k,
    {
        if h[i + k] != n[k] {
            assert(h@.subrange(i as int, i + n.len())[k as int] != n@[k as int]);
            return false;
        }
        k = k + 1;
    }
    assert(h@.subrange(i as int, i + n.len()) =~= n@);
    true
}

/// The first index where `n` occurs in `h`.
pub fn find_seq(h: &Vec<char>, n: &Vec<char>) -> (r: Option<usize>)
    ensures
        r matches Some(k) ==> find(h@, n@) == Some(k as int),
        r is None ==> find(h@, n@) is None,
{
    if n.len() > h.len() {
        return None;
    }
    let last = h.len() - n.len();
    let mut i: usize = 0;
    loop
        invariant
            n.len() <= h.len(),
            last == h.len() - n.len(),
            i <= last,
            find(h@, n@) == find_from(h@, n@, i as int),
        decreases last - i,
    {
        if matches_at(h, n, i) {
            return Some(i);
        }
        if i == last {
            assert(find_from(h@, n@, last + 1) is None);
            return None;
        }
        i = i + 1;
    }
}

/// Whether `n` occurs in `h`.
pub fn contains_seq(h: &Vec<char>, n: &Vec<char>) -> (r: bool)
    ensures
        r == contains(h@, n@),
{
    find_seq(h, n).is_some()
}

/// Whether `n` occurs in `h`.
pub fn contains_str(h: &Vec<char>, n: &str) -> (r: bool)
    ensures
        r == contains(h@, n@),
{
    let nv = chars_of(n);
    contains_seq(h, &nv)
}

/// Whether `h` starts with `p`.
pub fn starts_with(h: &Vec<char>, p: &str) -> (r: bool)
    ensures
        r == occurs_at(h@, p@, 0),
{
    let pv = chars_of(p);
    matches_at(h, &pv, 0)
}

/// Whether `a` and `b` hold the same text.
pub fn same_text(a: &Vec<char>, b: &str) -> (r: bool)
    ensures
        r == (a@ == b@),
{
    let bv = chars_of(b);
    if a.len() != bv.len() {
        return false;
    }
    let r = matches_at(a, &bv, 0);
    proof {
        if r {
            assert(a@.subrange(0, bv@.len() as int) =~= a@);
        } else {
            if a@ == bv@ {
                assert(a@.subrange(0, bv@.len() as int) =~= a@);
            }
        }
    }
    r
}

/// Whether two strings hold the same text.
pub fn str_eq(a: &str, b: &str) -> (r: bool)
    ensures
        r == (a@ == b@),
{
    let av = chars_of(a);
    same_text(&av, b)
}

// ---------------------------------------------------------------------------
// Splitting
// ---------------------------------------------------------------------------
/// The texts of a vector of character vectors.
pub open spec fn texts(v: Seq<Vec<char>>) -> Seq<Seq<char>> {
    v.map_values(|x: Vec<char>| x@)
}

/// The texts of a vector of strings.
pub open spec fn string_texts(v: Seq<String>) -> Seq<Seq<char>> {
    v.map_values(|x: String| x@)
}

/// A line without the carriage return that ends it, when there is one.
pub open spec fn strip_cr(l: Seq<char>) -> Seq<char> {
    if l.len() > 0 && l.last() == '\r' {
        l.drop_last()
    } else {
        l
    }
}

/// The lines of `s[i..]`, the first of which starts with `cur`.
pub open spec fn lines_from(s: Seq<char>, i: int, cur: Seq<char>) -> Seq<Seq<char>>
    decreases s.len() - i,
{
    if i < 0 || i >= s.len() {
        if cur.len() > 0 {
            seq![cur]
        } else {
            seq![]
        }
    } else if s[i] == '\n' {
        seq![strip_cr(cur)] + lines_from(s, i + 1, seq![])
    } else {
        lines_from(s, i + 1, cur.push(s[i]))
    }
}

/// What `str::lines` yields: the pieces between line feeds, each without a carriage
/// return that precedes its line feed, and no empty piece after a final line feed.
pub open spec fn lines(s: Seq<char>) -> Seq<Seq<char>> {
    lines_from(s, 0, seq![])
}

/// The lines of `s`.
pub fn lines_of(s: &Vec<char>) -> (r: Vec<Vec<char>>)
    ensures
        texts(r@) == lines(s@),
{
    let mut out: Vec<Vec<char>> = Vec::new();
    let mut cur: Vec<char> = Vec::new();
    let mut i: usize = 0;
    while i < s.len()
        invariant
            i <= s.len(),
            lines(s@) == texts(out@) + lines_from(s@, i as int, cur@),
        decreases s.len() - i,
    {
        let ghost before = texts(out@);
        let ghost old_cur = cur@;
        if s[i] == '\n' {
            let mut line = cur;
            if line.len() > 0 && line[line.len() - 1] == '\r' {
                line.pop();
            }
            assert(line@ =~= strip_cr(old_cur));
            out.push(line);
            cur = Vec::new();
            assert(texts(out@) =~= before + seq![strip_cr(old_cur)]);
        } else {
            cur.push(s[i]);
        }
        i = i + 1;
    }
    if cur.len() > 0 {
        let ghost before = texts(out@);
        out.push(cur);
        assert(texts(out@) =~= before + seq![cur@]);
    } else {
        assert(texts(out@) =~= texts(out@) + seq![]);
    }
    out
}


/// The words of `s[i..]`, the first of which starts with `cur`.
pub open spec fn words_from(s: Seq<char>, i: int, cur: Seq<char>) -> Seq<Seq<char>>
    decreases s.len() - i,
{
    if i < 0 || i >= s.len() {
        if cur.len() > 0 {
            seq![cur]
        } else {
            seq![]
        }
    } else if is_ws(s[i]) {
        if cur.len() > 0 {
            seq![cur] + words_from(s, i + 1, seq![])
        } else {
            words_from(s, i + 1, seq![])
        }
    } else {
        words_from(s, i + 1, cur.push(s[i]))
    }
}

/// What `str::split_whitespace` yields: the maximal runs of non-white-space characters.
pub open spec fn words(s: Seq<char>) -> Seq<Seq<char>> {
    words_from(s, 0, seq![])
}

/// The words of `s`.
pub fn words_of(s: &Vec<char>) -> (r: Vec<Vec<char>>)
    ensures
        texts(r@) == words(s@),
{
    let mut out: Vec<Vec<char>> = Vec::new();
    let mut cur: Vec<char> = Vec::new();
    let mut i: usize = 0;
    while i < s.len()
        invariant
            i <= s.len(),
            words(s@) == texts(out@) + words_from(s@, i as int, cur@),
        decreases s.len() - i,
    {
        let ghost before = texts(out@);
        let ghost old_cur = cur@;
        if is_whitespace(s[i]) {
            if cur.len() > 0 {
                out.push(cur);
                cur = Vec::new();
                assert(texts(out@) =~= before + seq![old_cur]);
            } else {
                assert(cur@ =~= seq![]);
            }
        } else {
            cur.push(s[i]);
        }
        i = i + 1;
    }
    if cur.len() > 0 {
        let ghost before = texts(out@);
        out.push(cur);
        assert(texts(out@) =~= before + seq![cur@]);
    } else {
        assert(texts(out@) =~= texts(out@) + seq![]);
    }
    out
}

/// The pieces of `s[i..]` between occurrences of `sep`, the first of which starts with `cur`.
pub open spec fn split_from(s: Seq<char>, sep: char, i: int, cur: Seq<char>) -> Seq<Seq<char>>
    decreases s.len() - i,
{
    if i < 0 || i >= s.len() {
        seq![cur]
    } else if s[i] == sep {
        seq![cur] + split_from(s, sep, i + 1, seq![])
    } else {
        split_from(s, sep, i + 1, cur.push(s[i]))
    }
}

/// What `str::split` with a character separator yields.
pub open spec fn split_on(s: Seq<char>, sep: char) -> Seq<Seq<char>> {
    split_from(s, sep, 0, seq![])
}

/// The pieces of `s` between occurrences of `sep`.
pub fn split_char(s: &Vec<char>, sep: char) -> (r: Vec<Vec<char>>)
    ensures
        texts(r@) == split_on(s@, sep),
{
    let mut out: Vec<Vec<char>> = Vec::new();
    let mut cur: Vec<char> = Vec::new();
    let mut i: usize = 0;
    while i < s.len()
        invariant
            i <= s.len(),
            split_on(s@, sep) == texts(out@) + split_from(s@, sep, i as int, cur@),
        decreases s.len() - i,
    {
        let ghost before = texts(out@);
        let ghost old_cur = cur@;
        if s[i] == sep {
            out.push(cur);
            cur = Vec::new();
            assert(texts(out@) =~= before + seq![old_cur]);
        } else {
            cur.push(s[i]);
        }
        i = i + 1;
    }
    let ghost before = texts(out@);
    out.push(cur);
    assert(texts(out@) =~= before + seq![cur@]);
    out
}

// ---------------------------------------------------------------------------
// Integers
// ---------------------------------------------------------------------------
pub open spec fn is_digit(c: char) -> bool {
    '0' <= c && c <= '9'
}

pub open spec fn digit_value(c: char) -> int {
    (c as u32) - ('0' as u32)
}

pub open spec fn all_digits(s: Seq<char>) -> bool {
    forall|i: int| 0 <= i < s.len() ==> is_digit(#[trigger] s[i])
}

/// The value of a run of decimal digits.
pub open spec fn digits_value(s: Seq<char>) -> nat
    decreases s.len(),
{
    if s.len() == 0 {
        0
    } else {
        (digits_value(s.drop_last()) * 10 + digit_value(s.last())) as nat
    }
}

/// What `str::parse` gives for an integer type whose values are `lo..=hi`: an optional
/// `+` (or `-` where the type is signed), then at least one decimal digit, and a value
/// that fits the type.
pub open spec fn parse_int(s: Seq<char>, signed: bool, lo: int, hi: int) -> Option<int> {
    let neg = signed && s.len() > 0 && s[0] == '-';
    let body = if s.len() > 0 && (s[0] == '+' || neg) {
        s.drop_first()
    } else {
        s
    };
    let v = if neg {
        -digits_value(body)
    } else {
        digits_value(body) as int
    };
    if body.len() == 0 || !all_digits(body) || v < lo || v > hi {
        None
    } else {
        Some(v)
    }
}

pub proof fn lemma_digits_value_push(s: Seq<char>, c: char)
    requires
        is_digit(c),
    ensures
        digits_value(s.push(c)) == digits_value(s) * 10 + digit_value(c),
{
    assert(s.push(c).drop_last() =~= s);
}

pub proof fn lemma_digits_value_grows(s: Seq<char>, k: int)
    requires
        0 <= k <= s.len(),
        all_digits(s),
    ensures
        digits_value(s.take(k)) <= digits_value(s),
    decreases s.len() - k,
{
    if k < s.len() {
        lemma_digits_value_grows(s, k + 1);
        assert(s.take(k + 1) =~= s.take(k).push(s[k]));
        lemma_digits_value_push(s.take(k), s[k]);
    } else {
        assert(s.take(k) =~= s);
    }
}

/// The value of the digits of `s[lo..]`, or `None` when one is not a digit, or the run is
/// empty, or the value exceeds `limit`.
fn digits_up_to(s: &Vec<char>, lo: usize, limit: u64) -> (r: Option<u64>)
    requires
        lo <= s.len(),
    ensures
        ({
            let body = s@.subrange(lo as int, s.len() as int);
            match r {
                Some(v) => body.len() > 0 && all_digits(body) && v == digits_value(body) && v
                    <= limit,
                None => body.len() == 0 || !all_digits(body) || digits_value(body) > limit,
            }
        }),
{
    let ghost body = s@.subrange(lo as int, s.len() as int);
    if lo == s.len() {
        return None;
    }
    let mut acc: u64 = 0;
    let mut over = false;
    let mut k: usize = lo;
    while k < s.len()
        invariant
            lo <= k <= s.len(),
            body == s@.subrange(lo as int, s.len() as int),
            all_digits(body.take(k - lo)),
            !over ==> acc == digits_value(body.take(k - lo)) && acc <= limit,
            over ==> digits_value(body.take(k - lo)) > limit,
        decreases s.len() - k,
    {
        let c = s[k];
        if !('0' <= c && c <= '9') {
            assert(!is_digit(body[k - lo]));
            return None;
        }
        let d = (c as u32 - '0' as u32) as u64;
        proof {
            assert(body.take(k + 1 - lo) =~= body.take(k - lo).push(c));
            lemma_digits_value_push(body.take(k - lo), c);
        }
        if !over {
            if d > limit || acc > (limit - d) / 10 {
                over = true;
                assert(acc * 10 + d > limit) by (nonlinear_arith)
                    requires
                        d > limit || acc > (limit - d) / 10,
                ;
            } else {
                assert(acc * 10 + d <= limit) by (nonlinear_arith)
                    requires
                        acc <= (limit - d) / 10,
                        d <= limit,
                ;
                acc = acc * 10 + d;
            }
        } else {
            assert(digits_value(body.take(k - lo)) * 10 + d >= digits_value(body.take(k - lo)));
        }
        k = k + 1;
    }
    assert(body.take(k - lo) =~= body);
    if over {
        None
    } else {
        Some(acc)
    }
}


/// `s` read as an unsigned integer no greater than `max`, as `str::parse` reads it.
pub fn parse_unsigned(s: &Vec<char>, max: u64) -> (r: Option<u64>)
    ensures
        r matches Some(v) ==> parse_int(s@, false, 0, max as int) == Some(v as int),
        r is None ==> parse_int(s@, false, 0, max as int) is None,
{
    let lo: usize = if s.len() > 0 && s[0] == '+' {
        1
    } else {
        0
    };
    proof {
        if lo == 1 {
            assert(s@.subrange(1, s@.len() as int) =~= s@.drop_first());
        } else {
            assert(s@.subrange(0, s@.len() as int) =~= s@);
        }
    }
    digits_up_to(s, lo, max)
}

/// `s` read as an `i64`, as `str::parse` reads it.
pub fn parse_i64(s: &Vec<char>) -> (r: Option<i64>)
    ensures
        r matches Some(v) ==> parse_int(s@, true, i64::MIN as int, i64::MAX as int) == Some(
            v as int,
        ),
        r is None ==> parse_int(s@, true, i64::MIN as int, i64::MAX as int) is None,
{
    let neg = s.len() > 0 && s[0] == '-';
    let lo: usize = if s.len() > 0 && (s[0] == '+' || neg) {
        1
    } else {
        0
    };
    proof {
        if lo == 1 {
            assert(s@.subrange(1, s@.len() as int) =~= s@.drop_first());
        } else {
            assert(s@.subrange(0, s@.len() as int) =~= s@);
        }
    }
    let limit: u64 = if neg {
        9223372036854775808
    } else {
        9223372036854775807
    };
    match digits_up_to(s, lo, limit) {
        None => None,
        Some(m) => {
            if neg {
                if m == 9223372036854775808 {
                    Some(i64::MIN)
                } else {
                    Some(-(m as i64))
                }
            } else {
                Some(m as i64)
            }
        },
    }
}

/// `s` read as a `u8`.
pub fn parse_u8(s: &Vec<char>) -> (r: Option<u8>)
    ensures
        r matches Some(v) ==> parse_int(s@, false, 0, 255) == Some(v as int),
        r is None ==> parse_int(s@, false, 0, 255) is None,
{
    match parse_unsigned(s, 255) {
        Some(v) => Some(v as u8),
        None => None,
    }
}

/// `s` read as a `u32`.
pub fn parse_u32(s: &Vec<char>) -> (r: Option<u32>)
    ensures
        r matches Some(v) ==> parse_int(s@, false, 0, u32::MAX as int) == Some(v as int),
        r is None ==> parse_int(s@, false, 0, u32::MAX as int) is None,
{
    match parse_unsigned(s, 4294967295) {
        Some(v) => Some(v as u32),
        None => None,
    }
}

/// `s` read as a `u64`.
pub fn parse_u64(s: &Vec<char>) -> (r: Option<u64>)
    ensures
        r matches Some(v) ==> parse_int(s@, false, 0, u64::MAX as int) == Some(v as int),
        r is None ==> parse_int(s@, false, 0, u64::MAX as int) is None,
{
    parse_unsigned(s, u64::MAX)
}

// ---------------------------------------------------------------------------
// Decimal notation
// ---------------------------------------------------------------------------
pub open spec fn digit_char(d: nat) -> char {
    if d == 0 {
        '0'
    } else if d == 1 {
        '1'
    } else if d == 2 {
        '2'
    } else if d == 3 {
        '3'
    } else if d == 4 {
        '4'
    } else if d == 5 {
        '5'
    } else if d == 6 {
        '6'
    } else if d == 7 {
        '7'
    } else if d == 8 {
        '8'
    } else {
        '9'
    }
}

/// The decimal notation of `n`, as `Display` writes it.
pub open spec fn decimal(n: nat) -> Seq<char>
    decreases n,
{
    if n < 10 {
        seq![digit_char(n)]
    } else {
        decimal(n / 10).push(digit_char(n % 10))
    }
}

/// The decimal notation of `i`, with a minus sign when it is negative.
pub open spec fn int_text(i: int) -> Seq<char> {
    if i < 0 {
        seq!['-'] + decimal((-i) as nat)
    } else {
        decimal(i as nat)
    }
}

fn digit_to_char(d: u64) -> (c: char)
    requires
        d < 10,
    ensures
        c == digit_char(d as nat),
{
    if d == 0 {
        '0'
    } else if d == 1 {
        '1'
    } else if d == 2 {
        '2'
    } else if d == 3 {
        '3'
    } else if d == 4 {
        '4'
    } else if d == 5 {
        '5'
    } else if d == 6 {
        '6'
    } else if d == 7 {
        '7'
    } else if d == 8 {
        '8'
    } else {
        '9'
    }
}

/// Appends the decimal notation of `n` to `out`.
pub fn push_decimal(out: &mut String, n: u64)
    ensures
        final(out)@ == old(out)@ + decimal(n as nat),
    decreases n,
{
    if n >= 10 {
        push_decimal(out, n / 10);
    }
    out.push(digit_to_char(n % 10));
    proof {
        if n >= 10 {
            assert(old(out)@ + decimal((n / 10) as nat) + seq![digit_char((n % 10) as nat)]
                =~= old(out)@ + decimal(n as nat));
        } else {
            assert(old(out)@.push(digit_char(n as nat)) =~= old(out)@ + decimal(n as nat));
        }
    }
}

/// Appends the decimal notation of `i` to `out`.
pub fn push_int(out: &mut String, i: i64)
    ensures
        final(out)@ == old(out)@ + int_text(i as int),
{
    if i < 0 {
        out.push('-');
        let m: u64 = if i == i64::MIN {
            9223372036854775808
        } else {
            (-i) as u64
        };
        push_decimal(out, m);
        assert(old(out)@.push('-') + decimal(m as nat) =~= old(out)@ + int_text(i as int));
    } else {
        push_decimal(out, i as u64);
    }
}

// ---------------------------------------------------------------------------
// Joining
// ---------------------------------------------------------------------------
/// The texts of `parts` with `sep` between each two of them, as `join` writes them.
pub open spec fn join(parts: Seq<Seq<char>>, sep: Seq<char>) -> Seq<char>
    decreases parts.len(),
{
    if parts.len() == 0 {
        seq![]
    } else if parts.len() == 1 {
        parts[0]
    } else {
        join(parts.drop_last(), sep) + sep + parts.last()
    }
}

/// The strings of `parts` joined by `sep`.
pub fn join_strings(parts: &Vec<String>, sep: &str) -> (r: String)
    ensures
        r@ == join(string_texts(parts@), sep@),
{
    let mut r = String::new();
    let mut i: usize = 0;
    while i < parts.len()
        invariant
            i <= parts.len(),
            r@ == join(string_texts(parts@).take(i as int), sep@),
        decreases parts.len() - i,
    {
        let ghost before = r@;
        if i > 0 {
            push_str(&mut r, sep);
        }
        push_str(&mut r, parts[i].as_str());
        proof {
            let t = string_texts(parts@);
            assert(t.take(i + 1).drop_last() =~= t.take(i as int));
            assert(t.take(i + 1).last() == parts@[i as int]@);
            if i == 0 {
                assert(before =~= seq![]);
                assert(r@ =~= t.take(1)[0]);
            }
        }
        i = i + 1;
    }
    assert(string_texts(parts@).take(parts.len() as int) =~= string_texts(parts@));
    r
}

// ---------------------------------------------------------------------------
// Letter case
// ---------------------------------------------------------------------------
/// What `str::to_lowercase` returns for a text that holds a character outside ASCII
/// (full Unicode case mapping).
pub uninterp spec fn unicode_lowercase(s: Seq<char>) -> Seq<char>;

/// Every character of the text is ASCII.
pub open spec fn all_ascii(s: Seq<char>) -> bool {
    forall|i: int| 0 <= i < s.len() ==> (#[trigger] s[i] as u32) < 128
}

/// What `str::to_lowercase` returns: Unicode's lower-case mapping, which on ASCII text
/// maps `A`..`Z` to `a`..`z` and keeps every other character.
pub open spec fn lowercase(s: Seq<char>) -> Seq<char> {
    if all_ascii(s) {
        s.map_values(|c: char| ascii_lower(c))
    } else {
        unicode_lowercase(s)
    }
}

/// What `str::to_uppercase` returns for a text that holds a character outside ASCII
/// (full Unicode case mapping).
pub uninterp spec fn unicode_uppercase(s: Seq<char>) -> Seq<char>;

/// The ASCII upper-case form of a character (other characters are kept).
pub open spec fn ascii_upper(c: char) -> char {
    if 'a' <= c && c <= 'z' {
        ((c as u32) - 32) as char
    } else {
        c
    }
}

/// What `str::to_uppercase` returns: Unicode's upper-case mapping, which on ASCII text
/// maps `a`..`z` to `A`..`Z` and keeps every other character.
pub open spec fn uppercase(s: Seq<char>) -> Seq<char> {
    if all_ascii(s) {
        s.map_values(|c: char| ascii_upper(c))
    } else {
        unicode_uppercase(s)
    }
}

/// Calls `str::to_lowercase`, which the documentation defines by Unicode's lower-case
/// mapping. On ASCII text that mapping sends `A`..`Z` to `a`..`z` and keeps every other
/// character; otherwise the result is named `unicode_lowercase` of the text.
#[verifier::external_body]
pub(crate) fn to_lowercase(s: &str) -> (r: String)
    ensures
        r@ == if all_ascii(s@) {
            s@.map_values(|c: char| ascii_lower(c))
        } else {
            unicode_lowercase(s@)
        },
{
    s.to_lowercase()
}

/// Calls `str::to_uppercase`, which the documentation defines by Unicode's upper-case
/// mapping. On ASCII text that mapping sends `a`..`z` to `A`..`Z` and keeps every other
/// character; otherwise the result is named `unicode_uppercase` of the text.
#[verifier::external_body]
pub(crate) fn to_uppercase(s: &str) -> (r: String)
    ensures
        r@ == if all_ascii(s@) {
            s@.map_values(|c: char| ascii_upper(c))
        } else {
            unicode_uppercase(s@)
        },
{
    s.to_uppercase()
}

/// The ASCII lower-case form of a character (other characters are kept).
pub open spec fn ascii_lower(c: char) -> char {
    if 'A' <= c && c <= 'Z' {
        ((c as u32) + 32) as char
    } else {
        c
    }
}

/// What `str::eq_ignore_ascii_case` gives.
pub open spec fn eq_ignore_ascii_case(a: Seq<char>, b: Seq<char>) -> bool {
    a.len() == b.len() && forall|i: int| 0 <= i < a.len() ==> ascii_lower(#[trigger] a[i])
        == ascii_lower(b[i])
}

fn lower_ascii_char(c: char) -> (r: u32)
    ensures
        r == ascii_lower(c) as u32,
{
    let u = c as u32;
    if 65 <= u && u <= 90 {
        u + 32
    } else {
        u
    }
}

/// Whether `a` and `b` are equal when ASCII letters are compared without case.
pub fn same_ignoring_ascii_case(a: &Vec<char>, b: &str) -> (r: bool)
    ensures
        r == eq_ignore_ascii_case(a@, b@),
{
    let bv = chars_of(b);
    if a.len() != bv.len() {
        return false;
    }
    let mut i: usize = 0;
    while i < a.len()
        invariant
            a.len() == bv.len(),
            bv@ == b@,
            i <= a.len(),
            forall|k: int| 0 <= k < i ==> ascii_lower(#[trigger] a@[k]) == ascii_lower(bv@[k]),
        decreases a.len() - i,
    {
        if lower_ascii_char(a[i]) != lower_ascii_char(bv[i]) {
            assert(ascii_lower(a@[i as int]) != ascii_lower(bv@[i as int]));
            return false;
        }
        i = i + 1;
    }
    true
}

/// An ASCII hexadecimal digit.
pub open spec fn is_hex_digit(c: char) -> bool {
    ('0' <= c && c <= '9') || ('a' <= c && c <= 'f') || ('A' <= c && c <= 'F')
}

pub fn hex_digit(c: char) -> (r: bool)
    ensures
        r == is_hex_digit(c),
{
    ('0' <= c && c <= '9') || ('a' <= c && c <= 'f') || ('A' <= c && c <= 'F')
}


// ---------------------------------------------------------------------------
// Facts about trimming
// ---------------------------------------------------------------------------
pub proof fn lemma_skip_class_from_stops(s: Seq<char>, cls: CharClass, i: int)
    requires
        0 <= i <= s.len(),
    ensures
        i <= skip_class_from(s, cls, i) <= s.len(),
        forall|j: int| i <= j < skip_class_from(s, cls, i) ==> in_class(cls, #[trigger] s[j]),
        skip_class_from(s, cls, i) < s.len() ==> !in_class(cls, s[skip_class_from(s, cls, i)]),
    decreases s.len() - i,
{
    if i < s.len() && in_class(cls, s[i]) {
        lemma_skip_class_from_stops(s, cls, i + 1);
    }
}

pub proof fn lemma_skip_class_back_stops(s: Seq<char>, cls: CharClass, j: int)
    requires
        0 <= j <= s.len(),
    ensures
        0 <= skip_class_back(s, cls, j) <= j,
        forall|k: int| skip_class_back(s, cls, j) <= k < j ==> in_class(cls, #[trigger] s[k]),
        skip_class_back(s, cls, j) > 0 ==> !in_class(cls, s[skip_class_back(s, cls, j) - 1]),
    decreases j,
{
    if j > 0 && in_class(cls, s[j - 1]) {
        lemma_skip_class_back_stops(s, cls, j - 1);
    }
}

/// A text that neither starts nor ends with a character of `cls` is its own trim.
pub proof fn lemma_trim_class_of_clean(s: Seq<char>, cls: CharClass)
    requires
        s.len() > 0 ==> !in_class(cls, s[0]) && !in_class(cls, s.last()),
    ensures
        trim_class(s, cls) == s,
{
    assert(s.subrange(0, s.len() as int) =~= s);
}

/// The trim of a text neither starts nor ends with a character of `cls`.
pub proof fn lemma_trim_class_is_clean(s: Seq<char>, cls: CharClass)
    ensures
        ({
            let t = trim_class(s, cls);
            t.len() > 0 ==> !in_class(cls, t[0]) && !in_class(cls, t.last())
        }),
{
    let a = skip_class_from(s, cls, 0);
    lemma_skip_class_from_stops(s, cls, 0);
    let u = s.subrange(a, s.len() as int);
    let b = skip_class_back(u, cls, u.len() as int);
    lemma_skip_class_back_stops(u, cls, u.len() as int);
    let t = u.subrange(0, b);
    if t.len() > 0 {
        assert(t[0] == s[a]);
        assert(t.last() == u[b - 1]);
    }
}

/// Trimming twice is trimming once.
pub proof fn lemma_trim_class_idempotent(s: Seq<char>, cls: CharClass)
    ensures
        trim_class(trim_class(s, cls), cls) == trim_class(s, cls),
{
    lemma_trim_class_is_clean(s, cls);
    lemma_trim_class_of_clean(trim_class(s, cls), cls);
}

} // verus!
