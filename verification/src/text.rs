//! Character-level text operations with their mathematical meaning.
//!
//! Every operation works on `Vec<char>` (or `&str`/`String` at the edges) and is
//! specified over `Seq<char>`, the view that vstd gives to strings.
use vstd::prelude::*;

verus! {

/// The Unicode `White_Space` property, which is what `char::is_whitespace` tests.
pub open spec fn is_white(c: char) -> bool {
    ||| c == '\t'
    ||| c == '\n'
    ||| c == '\u{0B}'
    ||| c == '\u{0C}'
    ||| c == '\r'
    ||| c == ' '
    ||| c == '\u{85}'
    ||| c == '\u{A0}'
    ||| c == '\u{1680}'
    ||| ('\u{2000}' <= c && c <= '\u{200A}')
    ||| c == '\u{2028}'
    ||| c == '\u{2029}'
    ||| c == '\u{202F}'
    ||| c == '\u{205F}'
    ||| c == '\u{3000}'
}

pub open spec fn is_ascii_digit(c: char) -> bool {
    '0' <= c && c <= '9'
}

/// The sets of characters that the trimming and splitting operations strip or split on.
#[derive(Clone, Copy)]
pub enum CharClass {
    Whitespace,
    Exactly(char),
    /// ASCII digits and `.`, `)`, space and tab: the numbering in front of a report heading.
    HeadingIndex,
    /// ASCII digits and `.`, `)`, `:`, `-`, space: the numbering in front of a summary line.
    CandidateIndex,
    /// The punctuation that may surround a URL in running text.
    UrlPunct,
}

pub open spec fn in_class(k: CharClass, c: char) -> bool {
    match k {
        CharClass::Whitespace => is_white(c),
        CharClass::Exactly(x) => c == x,
        CharClass::HeadingIndex => is_ascii_digit(c) || c == '.' || c == ')' || c == ' ' || c
            == '\t',
        CharClass::CandidateIndex => is_ascii_digit(c) || c == '.' || c == ')' || c == ':' || c
            == '-' || c == ' ',
        CharClass::UrlPunct => c == '(' || c == ')' || c == '[' || c == ']' || c == ',' || c
            == '.',
    }
}

pub fn class_contains(k: CharClass, c: char) -> (b: bool)
    ensures
        b == in_class(k, c),
{
    match k {
        CharClass::Whitespace => {
            c == '\t' || c == '\n' || c == '\u{0B}' || c == '\u{0C}' || c == '\r' || c == ' ' || c
                == '\u{85}' || c == '\u{A0}' || c == '\u{1680}' || ('\u{2000}' <= c && c
                <= '\u{200A}') || c == '\u{2028}' || c == '\u{2029}' || c == '\u{202F}' || c
                == '\u{205F}' || c == '\u{3000}'
        },
        CharClass::Exactly(x) => c == x,
        CharClass::HeadingIndex => ('0' <= c && c <= '9') || c == '.' || c == ')' || c == ' '
            || c == '\t',
        CharClass::CandidateIndex => ('0' <= c && c <= '9') || c == '.' || c == ')' || c == ':'
            || c == '-' || c == ' ',
        CharClass::UrlPunct => c == '(' || c == ')' || c == '[' || c == ']' || c == ',' || c
            == '.',
    }
}

// ----------------------------------------------------------------------------------------
// Specifications
// ----------------------------------------------------------------------------------------
/// `s` with every leading character of class `k` removed (`trim_start_matches`).
pub open spec fn trim_start_by(s: Seq<char>, k: CharClass) -> Seq<char>
    decreases s.len(),
{
    if s.len() > 0 && in_class(k, s[0]) {
        trim_start_by(s.drop_first(), k)
    } else {
        s
    }
}

/// `s` with every trailing character of class `k` removed (`trim_end_matches`).
pub open spec fn trim_end_by(s: Seq<char>, k: CharClass) -> Seq<char>
    decreases s.len(),
{
    if s.len() > 0 && in_class(k, s.last()) {
        trim_end_by(s.drop_last(), k)
    } else {
        s
    }
}

/// `trim_matches`: both ends.
pub open spec fn trim_by(s: Seq<char>, k: CharClass) -> Seq<char> {
    trim_end_by(trim_start_by(s, k), k)
}

/// `str::trim`.
pub open spec fn trim(s: Seq<char>) -> Seq<char> {
    trim_by(s, CharClass::Whitespace)
}

pub open spec fn starts_with(s: Seq<char>, p: Seq<char>) -> bool {
    p.len() <= s.len() && s.take(p.len() as int) == p
}

/// `p` occurs in `s` (`str::contains` with a string pattern).
pub open spec fn contains(s: Seq<char>, p: Seq<char>) -> bool {
    exists|i: int| 0 <= i <= s.len() && #[trigger] starts_with(s.skip(i), p)
}

/// The part of `s` before the first occurrence of `p`, or all of `s` where `p` does not
/// occur (`s.split(p).next()`).
pub open spec fn prefix_before(s: Seq<char>, p: Seq<char>) -> Seq<char>
    decreases s.len(),
{
    if s.len() == 0 || starts_with(s, p) {
        Seq::empty()
    } else {
        seq![s[0]] + prefix_before(s.drop_first(), p)
    }
}

/// Every non-overlapping occurrence of the non-empty pattern `p`, scanned from the left,
/// replaced by `r` (`str::replace`).
pub open spec fn replace_all(s: Seq<char>, p: Seq<char>, r: Seq<char>) -> Seq<char>
    decreases s.len(),
{
    if s.len() == 0 {
        s
    } else if p.len() > 0 && starts_with(s, p) {
        r + replace_all(s.skip(p.len() as int), p, r)
    } else {
        seq![s[0]] + replace_all(s.drop_first(), p, r)
    }
}

/// The first `n` characters, or all of them (`chars().take(n)`).
pub open spec fn take_chars(s: Seq<char>, n: int) -> Seq<char> {
    if s.len() <= n {
        s
    } else {
        s.take(n)
    }
}

/// Splitting state after reading `s`: the finished pieces and the piece being read.
pub open spec fn split_state(s: Seq<char>, k: CharClass, keep_empty: bool) -> (
    Seq<Seq<char>>,
    Seq<char>,
)
    decreases s.len(),
{
    if s.len() == 0 {
        (Seq::empty(), Seq::empty())
    } else {
        let (parts, cur) = split_state(s.drop_last(), k, keep_empty);
        let c = s.last();
        if in_class(k, c) {
            (
                if keep_empty || cur.len() > 0 {
                    parts.push(cur)
                } else {
                    parts
                },
                Seq::empty(),
            )
        } else {
            (parts, cur.push(c))
        }
    }
}

/// The pieces of `s` between separators of class `k`; with `keep_empty` this is
/// `str::split` on that class, without it `str::split_whitespace`-style splitting that
/// drops empty pieces.
pub open spec fn split_by(s: Seq<char>, k: CharClass, keep_empty: bool) -> Seq<Seq<char>> {
    let (parts, cur) = split_state(s, k, keep_empty);
    if keep_empty || cur.len() > 0 {
        parts.push(cur)
    } else {
        parts
    }
}

pub open spec fn strip_cr(l: Seq<char>) -> Seq<char> {
    if l.len() > 0 && l.last() == '\r' {
        l.drop_last()
    } else {
        l
    }
}

/// `str::lines`: the pieces between `\n` characters; a piece that a `\n` ended loses one
/// trailing `\r`, and an empty piece after a final `\n` is not a line.
pub open spec fn lines(s: Seq<char>) -> Seq<Seq<char>> {
    let parts = split_by(s, CharClass::Exactly('\n'), true);
    let init = parts.drop_last().map_values(|l: Seq<char>| strip_cr(l));
    if parts.last().len() == 0 {
        init
    } else {
        init.push(parts.last())
    }
}

/// `str::split_whitespace`.
pub open spec fn words(s: Seq<char>) -> Seq<Seq<char>> {
    split_by(s, CharClass::Whitespace, false)
}

/// The decimal digit character for `d < 10`.
pub open spec fn digit_char(d: int) -> char {
    if d == 0 {
        '0'
    } else if d == 1 {
        '1'
    } else if d == 2 {
        '2'
    } else if d == 3 {
        '3'
    } else if d == 4 {
        '4'
    } else if d == 5 {
        '5'
    } else if d == 6 {
        '6'
    } else if d == 7 {
        '7'
    } else if d == 8 {
        '8'
    } else {
        '9'
    }
}

/// The decimal representation of `n` without leading zeros (`n.to_string()`).
pub open spec fn decimal(n: nat) -> Seq<char>
    decreases n,
{
    if n < 10 {
        seq![digit_char(n as int)]
    } else {
        decimal(n / 10).push(digit_char((n % 10) as int))
    }
}

pub open spec fn digit_value(c: char) -> int {
    (c as int) - ('0' as int)
}

pub open spec fn all_digits(s: Seq<char>) -> bool {
    forall|i: int| 0 <= i < s.len() ==> is_ascii_digit(#[trigger] s[i])
}

/// The value of a string of decimal digits.
pub open spec fn digits_value(s: Seq<char>) -> int
    decreases s.len(),
{
    if s.len() == 0 {
        0
    } else {
        10 * digits_value(s.drop_last()) + digit_value(s.last())
    }
}

/// What `str::parse` gives for an unsigned integer type whose largest value is `max`:
/// an optional `+`, then at least one decimal digit and nothing else, with a value that fits.
pub open spec fn parse_unsigned(s: Seq<char>, max: int) -> Option<int> {
    let body = if s.len() > 0 && s[0] == '+' {
        s.drop_first()
    } else {
        s
    };
    if body.len() > 0 && all_digits(body) && digits_value(body) <= max {
        Some(digits_value(body))
    } else {
        None
    }
}

/// The views of a sequence of character vectors.
pub open spec fn views(v: Seq<Vec<char>>) -> Seq<Seq<char>> {
    v.map_values(|x: Vec<char>| x@)
}

/// The views of a sequence of strings.
pub open spec fn string_views(v: Seq<String>) -> Seq<Seq<char>> {
    v.map_values(|x: String| x@)
}

// ----------------------------------------------------------------------------------------
// Conversions
// ----------------------------------------------------------------------------------------
pub fn chars_of(s: &str) -> (v: Vec<char>)
    ensures
        v@ == s@,
{
    broadcast use vstd::string::group_string_axioms;

    let mut v: Vec<char> = Vec::new();
    for c in it: s.chars()
        invariant
            v@ == it.seq().take(it.index() as int),
            it.seq() == s@,
    {
        v.push(c);
    }
    assert(v@ =~= s@);
    v
}

/// `String::push` (std, which vstd gives no specification): the contract claims that the
/// character is appended to the end of the text.
#[verifier::external_body]
fn push_char(s: &mut String, c: char)
    ensures
        final(s)@ == old(s)@.push(c),
{
    s.push(c);
}

pub fn string_of(v: &Vec<char>) -> (s: String)
    ensures
        s@ == v@,
{
    let mut s = String::new();
    let mut i: usize = 0;
    while i < v.len()
        invariant
            i <= v.len(),
            s@ == v@.take(i as int),
        decreases v.len() - i,
    {
        push_char(&mut s, v[i]);
        assert(v@.take(i as int).push(v@[i as int]) =~= v@.take(i + 1));
        i = i + 1;
    }
    assert(v@.take(v.len() as int) =~= v@);
    s
}

pub fn strings_of(v: &Vec<Vec<char>>) -> (r: Vec<String>)
    ensures
        string_views(r@) == views(v@),
{
    let mut r: Vec<String> = Vec::new();
    let mut i: usize = 0;
    while i < v.len()
        invariant
            i <= v.len(),
            string_views(r@) =~= views(v@).take(i as int),
        decreases v.len() - i,
    {
        let ghost old = string_views(r@);
        let si = string_of(&v[i]);
        r.push(si);
        assert(string_views(r@) =~= old.push(v@[i as int]@));
        assert(views(v@).take(i + 1) =~= views(v@).take(i as int).push(v@[i as int]@));
        i = i + 1;
    }
    r
}

/// Appends the characters of `v` to `s`.
pub fn append_chars(s: &mut String, v: &Vec<char>)
    ensures
        final(s)@ == old(s)@ + v@,
{
    let t = string_of(v);
    s.append(t.as_str());
}

// ----------------------------------------------------------------------------------------
// Building blocks
// ----------------------------------------------------------------------------------------
pub fn slice(v: &Vec<char>, a: usize, b: usize) -> (r: Vec<char>)
    requires
        a <= b <= v.len(),
    ensures
        r@ == v@.subrange(a as int, b as int),
{
    let mut r: Vec<char> = Vec::new();
    let mut i = a;
    while i < b
        invariant
            a <= i <= b <= v.len(),
            r@ =~= v@.subrange(a as int, i as int),
        decreases b - i,
    {
        r.push(v[i]);
        i = i + 1;
    }
    r
}

/// Appends `b` to `a`.
pub fn extend(a: &mut Vec<char>, b: &Vec<char>)
    ensures
        final(a)@ == old(a)@ + b@,
{
    let ghost a0 = a@;
    let mut i: usize = 0;
    while i < b.len()
        invariant
            i <= b.len(),
            a@ =~= a0 + b@.take(i as int),
        decreases b.len() - i,
    {
        a.push(b[i]);
        i = i + 1;
    }
    assert(b@.take(b.len() as int) =~= b@);
}

pub fn seq_equal(a: &Vec<char>, b: &Vec<char>) -> (r: bool)
    ensures
        r == (a@ == b@),
{
    if a.len() != b.len() {
        return false;
    }
    let mut i: usize = 0;
    while i < a.len()
        invariant
            a.len() == b.len(),
            i <= a.len(),
            forall|j: int| 0 <= j < i ==> a@[j] == b@[j],
        decreases a.len() - i,
    {
        if a[i] != b[i] {
            return false;
        }
        i = i + 1;
    }
    assert(a@ =~= b@);
    true
}

pub fn str_equal(a: &str, b: &str) -> (r: bool)
    ensures
        r == (a@ == b@),
{
    let av = chars_of(a);
    let bv = chars_of(b);
    seq_equal(&av, &bv)
}

/// Whether `p` occurs in `s` at position `i`.
pub fn starts_at(s: &Vec<char>, p: &Vec<char>, i: usize) -> (r: bool)
    requires
        i <= s.len(),
    ensures
        r == starts_with(s@.skip(i as int), p@),
{
    if p.len() > s.len() - i {
        return false;
    }
    let mut j: usize = 0;
    while j < p.len()
        invariant
            i + p.len() <= s.len(),
            j <= p.len(),
            forall|m: int| 0 <= m < j ==> s@[i + m] == p@[m],
        decreases p.len() - j,
    {
        if s[i + j] != p[j] {
            assert(s@.skip(i as int).take(p.len() as int)[j as int] != p@[j as int]);
            return false;
        }
        j = j + 1;
    }
    assert(s@.skip(i as int).take(p.len() as int) =~= p@);
    true
}

/// The first position at or after `from` where `p` occurs.
pub fn find_from(s: &Vec<char>, p: &Vec<char>, from: usize) -> (r: Option<usize>)
    requires
        from <= s.len(),
    ensures
        match r {
            Some(i) => from <= i <= s.len() && starts_with(s@.skip(i as int), p@) && forall|
                j: int,
            |
                from <= j < i ==> !#[trigger] starts_with(s@.skip(j), p@),
            None => forall|j: int| from <= j <= s.len() ==> !#[trigger] starts_with(s@.skip(j), p@),
        },
{
    let mut i = from;
    while i < s.len()
        invariant
            from <= i <= s.len(),
            forall|j: int| from <= j < i ==> !#[trigger] starts_with(s@.skip(j), p@),
        decreases s.len() - i,
    {
        if starts_at(s, p, i) {
            return Some(i);
        }
        i = i + 1;
    }
    if starts_at(s, p, i) {
        Some(i)
    } else {
        None
    }
}

pub fn contains_seq(s: &Vec<char>, p: &Vec<char>) -> (r: bool)
    ensures
        r == contains(s@, p@),
{
    match find_from(s, p, 0) {
        Some(i) => true,
        None => false,
    }
}

pub fn trim_start_by_vec(s: &Vec<char>, k: CharClass) -> (r: Vec<char>)
    ensures
        r@ == trim_start_by(s@, k),
{
    let mut i: usize = 0;
    assert(s@.skip(0) =~= s@);
    while i < s.len() && class_contains(k, s[i])
        invariant
            i <= s.len(),
            trim_start_by(s@, k) == trim_start_by(s@.skip(i as int), k),
        decreases s.len() - i,
    {
        assert(s@.skip(i as int).drop_first() =~= s@.skip(i + 1));
        i = i + 1;
    }
    assert(s@.subrange(i as int, s.len() as int) =~= s@.skip(i as int));
    slice(s, i, s.len())
}

pub fn trim_end_by_vec(s: &Vec<char>, k: CharClass) -> (r: Vec<char>)
    ensures
        r@ == trim_end_by(s@, k),
{
    let mut j: usize = s.len();
    assert(s@.take(s.len() as int) =~= s@);
    while j > 0 && class_contains(k, s[j - 1])
        invariant
            j <= s.len(),
            trim_end_by(s@, k) == trim_end_by(s@.take(j as int), k),
        decreases j,
    {
        assert(s@.take(j as int).drop_last() =~= s@.take(j - 1));
        j = j - 1;
    }
    assert(s@.subrange(0, j as int) =~= s@.take(j as int));
    slice(s, 0, j)
}

pub fn trim_by_vec(s: &Vec<char>, k: CharClass) -> (r: Vec<char>)
    ensures
        r@ == trim_by(s@, k),
{
    let a = trim_start_by_vec(s, k);
    trim_end_by_vec(&a, k)
}

pub fn trim_vec(s: &Vec<char>) -> (r: Vec<char>)
    ensures
        r@ == trim(s@),
{
    trim_by_vec(s, CharClass::Whitespace)
}

pub fn take_chars_vec(s: &Vec<char>, n: usize) -> (r: Vec<char>)
    ensures
        r@ == take_chars(s@, n as int),
{
    if s.len() <= n {
        slice(s, 0, s.len())
    } else {
        slice(s, 0, n)
    }
}

pub fn prefix_before_vec(s: &Vec<char>, p: &Vec<char>) -> (r: Vec<char>)
    ensures
        r@ == prefix_before(s@, p@),
{
    let mut i: usize = 0;
    assert(s@.skip(0) =~= s@);
    assert(s@.take(0) + prefix_before(s@, p@) =~= prefix_before(s@, p@));
    while i < s.len() && !starts_at(s, p, i)
        invariant
            i <= s.len(),
            prefix_before(s@, p@) == s@.take(i as int) + prefix_before(s@.skip(i as int), p@),
        decreases s.len() - i,
    {
        let ghost t = s@.skip(i as int);
        assert(t.drop_first() =~= s@.skip(i + 1));
        assert(t[0] == s@[i as int]);
        assert(s@.take(i as int) + seq![s@[i as int]] =~= s@.take(i + 1));
        assert(s@.take(i as int) + (seq![s@[i as int]] + prefix_before(s@.skip(i + 1), p@))
            =~= s@.take(i + 1) + prefix_before(s@.skip(i + 1), p@));
        i = i + 1;
    }
    assert(s@.take(i as int) + Seq::<char>::empty() =~= s@.take(i as int));
    assert(s@.subrange(0, i as int) =~= s@.take(i as int));
    slice(s, 0, i)
}

pub fn replace_all_vec(s: &Vec<char>, p: &Vec<char>, r: &Vec<char>) -> (out: Vec<char>)
    requires
        p.len() > 0,
    ensures
        out@ == replace_all(s@, p@, r@),
{
    let mut out: Vec<char> = Vec::new();
    let mut i: usize = 0;
    assert(s@.skip(0) =~= s@);
    assert(out@ + replace_all(s@, p@, r@) =~= replace_all(s@, p@, r@));
    while i < s.len()
        invariant
            p.len() > 0,
            i <= s.len(),
            replace_all(s@, p@, r@) == out@ + replace_all(s@.skip(i as int), p@, r@),
        decreases s.len() - i,
    {
        let ghost t = s@.skip(i as int);
        if starts_at(s, p, i) {
            let ghost o = out@;
            assert(t.skip(p.len() as int) =~= s@.skip(i + p.len()));
            extend(&mut out, r);
            assert(o + (r@ + replace_all(s@.skip(i + p.len()), p@, r@)) =~= out@ + replace_all(
                s@.skip(i + p.len()),
                p@,
                r@,
            ));
            i = i + p.len();
        } else {
            let ghost o = out@;
            assert(t.drop_first() =~= s@.skip(i + 1));
            assert(t[0] == s@[i as int]);
            out.push(s[i]);
            assert(o + (seq![s@[i as int]] + replace_all(s@.skip(i + 1), p@, r@)) =~= out@
                + replace_all(s@.skip(i + 1), p@, r@));
            i = i + 1;
        }
    }
    assert(s@.skip(s.len() as int) =~= Seq::<char>::empty());
    assert(out@ + Seq::<char>::empty() =~= out@);
    out
}

pub fn split_by_vec(s: &Vec<char>, k: CharClass, keep_empty: bool) -> (r: Vec<Vec<char>>)
    ensures
        views(r@) == split_by(s@, k, keep_empty),
{
    let mut parts: Vec<Vec<char>> = Vec::new();
    let mut cur: Vec<char> = Vec::new();
    let mut i: usize = 0;
    assert(s@.take(0) =~= Seq::<char>::empty());
    while i < s.len()
        invariant
            i <= s.len(),
            split_state(s@.take(i as int), k, keep_empty) == (views(parts@), cur@),
        decreases s.len() - i,
    {
        assert(s@.take(i + 1).drop_last() =~= s@.take(i as int));
        assert(s@.take(i + 1).last() == s@[i as int]);
        let c = s[i];
        if class_contains(k, c) {
            if keep_empty || cur.len() > 0 {
                let ghost pv = views(parts@);
                let ghost cv = cur@;
                parts.push(cur);
                assert(views(parts@) =~= pv.push(cv));
            }
            cur = Vec::new();
        } else {
            cur.push(c);
        }
        i = i + 1;
    }
    assert(s@.take(s.len() as int) =~= s@);
    if keep_empty || cur.len() > 0 {
        let ghost pv = views(parts@);
        let ghost cv = cur@;
        parts.push(cur);
        assert(views(parts@) =~= pv.push(cv));
    }
    parts
}

pub fn strip_cr_vec(l: &Vec<char>) -> (r: Vec<char>)
    ensures
        r@ == strip_cr(l@),
{
    if l.len() > 0 && l[l.len() - 1] == '\r' {
        slice(l, 0, l.len() - 1)
    } else {
        slice(l, 0, l.len())
    }
}

pub fn lines_vec(s: &Vec<char>) -> (r: Vec<Vec<char>>)
    ensures
        views(r@) == lines(s@),
{
    let parts = split_by_vec(s, CharClass::Exactly('\n'), true);
    let ghost pv = views(parts@);
    assert(pv.len() > 0);
    let n = parts.len();
    let mut r: Vec<Vec<char>> = Vec::new();
    let mut i: usize = 0;
    while i + 1 < n
        invariant
            n == parts.len(),
            pv == views(parts@),
            n > 0,
            i < n,
            views(r@) =~= pv.drop_last().map_values(|l: Seq<char>| strip_cr(l)).take(
                i as int,
            ),
        decreases n - i,
    {
        let ghost old = views(r@);
        let line = strip_cr_vec(&parts[i]);
        r.push(line);
        assert(views(r@) =~= old.push(strip_cr(pv[i as int])));
        assert(pv.drop_last().map_values(|l: Seq<char>| strip_cr(l)).take(i + 1) =~= pv.drop_last().map_values(
            |l: Seq<char>| strip_cr(l),
        ).take(i as int).push(strip_cr(pv[i as int])));
        i = i + 1;
    }
    assert(pv.drop_last().map_values(|l: Seq<char>| strip_cr(l)).take(i as int) =~= pv.drop_last().map_values(
        |l: Seq<char>| strip_cr(l),
    ));
    if parts[n - 1].len() > 0 {
        let ghost rv = views(r@);
        r.push(slice(&parts[n - 1], 0, parts[n - 1].len()));
        assert(parts[n - 1]@.subrange(0, parts[n - 1]@.len() as int) =~= parts[n - 1]@);
        assert(views(r@) =~= rv.push(pv.last()));
    }
    r
}

/// The decimal digits of `n` (`n.to_string()`).
pub fn decimal_vec(n: u64) -> (r: Vec<char>)
    ensures
        r@ == decimal(n as nat),
    decreases n,
{
    let d = n % 10;
    let c = if d == 0 {
        '0'
    } else if d == 1 {
        '1'
    } else if d == 2 {
        '2'
    } else if d == 3 {
        '3'
    } else if d == 4 {
        '4'
    } else if d == 5 {
        '5'
    } else if d == 6 {
        '6'
    } else if d == 7 {
        '7'
    } else if d == 8 {
        '8'
    } else {
        '9'
    };
    if n < 10 {
        let mut r: Vec<char> = Vec::new();
        r.push(c);
        assert(r@ =~= seq![digit_char(n as int)]);
        r
    } else {
        let mut r = decimal_vec(n / 10);
        r.push(c);
        r
    }
}

proof fn lemma_digits_value_push(s: Seq<char>, c: char)
    ensures
        digits_value(s.push(c)) == 10 * digits_value(s) + digit_value(c),
{
    assert(s.push(c).drop_last() =~= s);
}

/// What `str::parse::<u64>()` (or another unsigned type, by `max`) gives for `s`.
pub fn parse_unsigned_vec(s: &Vec<char>, max: u64) -> (r: Option<u64>)
    ensures
        r is Some <==> parse_unsigned(s@, max as int) is Some,
        r is Some ==> r->0 as int == parse_unsigned(s@, max as int)->0,
{
    let start: usize = if s.len() > 0 && s[0] == '+' {
        1
    } else {
        0
    };
    let ghost body = if s@.len() > 0 && s@[0] == '+' {
        s@.drop_first()
    } else {
        s@
    };
    assert(body =~= s@.skip(start as int));
    if start >= s.len() {
        assert(body.len() == 0);
        return None;
    }
    let mut value: u64 = 0;
    let mut over = false;
    let ghost mut exact: int = 0;
    let mut i = start;
    assert(s@.subrange(start as int, start as int) =~= Seq::<char>::empty());
    while i < s.len()
        invariant
            start <= i <= s.len(),
            body =~= s@.skip(start as int),
            body == (if s@.len() > 0 && s@[0] == '+' {
                s@.drop_first()
            } else {
                s@
            }),
            exact == digits_value(s@.subrange(start as int, i as int)),
            all_digits(s@.subrange(start as int, i as int)),
            exact >= 0,
            over <==> exact > max,
            !over ==> value == exact,
        decreases s.len() - i,
    {
        let c = s[i];
        if !('0' <= c && c <= '9') {
            assert(body[i - start] == c);
            assert(!is_ascii_digit(body[i - start]));
            assert(!all_digits(body));
            return None;
        }
        let d: u64 = (c as u64) - ('0' as u64);
        proof {
            lemma_digits_value_push(s@.subrange(start as int, i as int), c);
            assert(s@.subrange(start as int, i + 1) =~= s@.subrange(start as int, i as int).push(
                c,
            ));
            exact = 10 * exact + digit_value(c);
        }
        if !over {
            if d > max {
                over = true;
            } else if value > (max - d) / 10 {
                assert(10 * value + d > max) by (nonlinear_arith)
                    requires
                        value > (max - d) / 10,
                        d <= max,
                ;
                over = true;
            } else {
                assert(10 * value + d <= max) by (nonlinear_arith)
                    requires
                        value <= (max - d) / 10,
                        d <= max,
                ;
                value = 10 * value + d;
            }
        }
        i = i + 1;
    }
    assert(s@.subrange(start as int, s.len() as int) =~= body);
    if over {
        None
    } else {
        Some(value)
    }
}

} // verus!

verus! {

// ----------------------------------------------------------------------------------------
// The report's heading words
// ----------------------------------------------------------------------------------------
/// "要約" (summary).
pub open spec fn word_summary() -> Seq<char> {
    seq!['\u{8981}', '\u{7d04}']
}

/// "主要ポイント" (key points).
pub open spec fn word_key_points() -> Seq<char> {
    seq!['\u{4e3b}', '\u{8981}', '\u{30dd}', '\u{30a4}', '\u{30f3}', '\u{30c8}']
}

/// "次に見るべき点" (what to look at next).
pub open spec fn word_next_steps() -> Seq<char> {
    seq!['\u{6b21}', '\u{306b}', '\u{898b}', '\u{308b}', '\u{3079}', '\u{304d}', '\u{70b9}']
}

pub fn word_summary_vec() -> (v: Vec<char>)
    ensures
        v@ == word_summary(),
{
    let v = vec!['\u{8981}', '\u{7d04}'];
    assert(v@ =~= word_summary());
    v
}

pub fn word_key_points_vec() -> (v: Vec<char>)
    ensures
        v@ == word_key_points(),
{
    let v = vec!['\u{4e3b}', '\u{8981}', '\u{30dd}', '\u{30a4}', '\u{30f3}', '\u{30c8}'];
    assert(v@ =~= word_key_points());
    v
}

pub fn word_next_steps_vec() -> (v: Vec<char>)
    ensures
        v@ == word_next_steps(),
{
    let v = vec!['\u{6b21}', '\u{306b}', '\u{898b}', '\u{308b}', '\u{3079}', '\u{304d}', '\u{70b9}'];
    assert(v@ =~= word_next_steps());
    v
}

} // verus!

verus! {

/// The text before the first newline (what `lines().next()` gives, up to trailing whitespace).
pub open spec fn first_line(s: Seq<char>) -> Seq<char> {
    prefix_before(s, seq!['\n'])
}

pub fn first_line_vec(s: &Vec<char>) -> (r: Vec<char>)
    ensures
        r@ == first_line(s@),
{
    let nl = vec!['\n'];
    assert(nl@ =~= seq!['\n']);
    prefix_before_vec(s, &nl)
}

} // verus!

verus! {

// ----------------------------------------------------------------------------------------
// Facts about trimming
// ----------------------------------------------------------------------------------------
/// Trimming the end keeps a prefix of `s`, which still holds `s`'s first character where
/// that is outside the class.
pub proof fn lemma_trim_end_keeps_prefix(s: Seq<char>, k: CharClass)
    ensures
        trim_end_by(s, k).len() <= s.len(),
        trim_end_by(s, k) == s.take(trim_end_by(s, k).len() as int),
        s.len() > 0 && !in_class(k, s[0]) ==> trim_end_by(s, k).len() > 0,
    decreases s.len(),
{
    if s.len() > 0 && in_class(k, s.last()) {
        lemma_trim_end_keeps_prefix(s.drop_last(), k);
        let n = trim_end_by(s, k).len() as int;
        assert(s.drop_last().take(n) =~= s.take(n));
    } else {
        assert(s.take(s.len() as int) =~= s);
    }
}

/// Trimming the start leaves nothing of the class in front, and leaves `s` alone where it
/// does not begin with a character of the class.
pub proof fn lemma_trim_start_first(s: Seq<char>, k: CharClass)
    ensures
        trim_start_by(s, k).len() > 0 ==> !in_class(k, trim_start_by(s, k)[0]),
        s.len() > 0 && !in_class(k, s[0]) ==> trim_start_by(s, k) == s,
    decreases s.len(),
{
    if s.len() > 0 && in_class(k, s[0]) {
        lemma_trim_start_first(s.drop_first(), k);
    }
}

/// A trimmed text that is not empty begins with a character outside the class; a text that
/// begins with such a character keeps it, first, when trimmed.
pub proof fn lemma_trim_by_first(s: Seq<char>, k: CharClass)
    ensures
        trim_by(s, k).len() > 0 ==> !in_class(k, trim_by(s, k)[0]),
        s.len() > 0 && !in_class(k, s[0]) ==> trim_by(s, k).len() > 0 && trim_by(s, k)[0]
            == s[0],
{
    let a = trim_start_by(s, k);
    lemma_trim_start_first(s, k);
    lemma_trim_end_keeps_prefix(a, k);
    if trim_by(s, k).len() > 0 {
        assert(trim_by(s, k)[0] == a.take(trim_by(s, k).len() as int)[0]);
    }
}

} // verus!

verus! {

/// The text before the first `p` in `a + q`, where `q` is empty or begins with `p` and no
/// `p` begins inside `a`, is `a` itself.
pub proof fn lemma_prefix_before_marker(a: Seq<char>, q: Seq<char>, p: Seq<char>)
    requires
        p.len() > 0,
        q.len() == 0 || starts_with(q, p),
        forall|i: int| 0 <= i < a.len() ==> !#[trigger] starts_with((a + q).skip(i), p),
    ensures
        prefix_before(a + q, p) == a,
    decreases a.len(),
{
    let s = a + q;
    if a.len() == 0 {
        assert(s =~= q);
    } else {
        assert(s.skip(0) =~= s);
        assert(!starts_with(s.skip(0), p));
        let rest = a.drop_first();
        assert(s.drop_first() =~= rest + q);
        assert forall|i: int| 0 <= i < rest.len() implies !#[trigger] starts_with(
            (rest + q).skip(i),
            p,
        ) by {
            assert((rest + q).skip(i) =~= s.skip(i + 1));
            assert(!starts_with(s.skip(i + 1), p));
        }
        lemma_prefix_before_marker(rest, q, p);
        assert(seq![s[0]] + rest =~= a);
    }
}

} // verus!

verus! {

// ----------------------------------------------------------------------------------------
// Replacing a single character
// ----------------------------------------------------------------------------------------
/// Replacing one character works piece by piece: on `a + b` it is the replacement on `a`
/// followed by the replacement on `b`.
pub proof fn lemma_replace_char_concat(a: Seq<char>, b: Seq<char>, c: char, r: Seq<char>)
    ensures
        replace_all(a + b, seq![c], r) == replace_all(a, seq![c], r) + replace_all(b, seq![c], r),
    decreases a.len(),
{
    let p = seq![c];
    if a.len() == 0 {
        assert(a + b =~= b);
        assert(replace_all(a, p, r) =~= Seq::<char>::empty());
    } else {
        let s = a + b;
        lemma_replace_char_concat(a.drop_first(), b, c, r);
        assert(s.drop_first() =~= a.drop_first() + b);
        assert(s.skip(1) =~= s.drop_first());
        assert(a.skip(1) =~= a.drop_first());
        assert(s.take(1) =~= seq![a[0]]);
        assert(a.take(1) =~= seq![a[0]]);
        assert(starts_with(s, p) == starts_with(a, p));
        if starts_with(a, p) {
            assert(replace_all(s, p, r) == r + replace_all(s.skip(1), p, r));
            assert(replace_all(a, p, r) == r + replace_all(a.skip(1), p, r));
            assert(r + (replace_all(a.drop_first(), p, r) + replace_all(b, p, r)) =~= (r
                + replace_all(a.drop_first(), p, r)) + replace_all(b, p, r));
        } else {
            assert(seq![a[0]] + (replace_all(a.drop_first(), p, r) + replace_all(b, p, r)) =~= (
            seq![a[0]] + replace_all(a.drop_first(), p, r)) + replace_all(b, p, r));
        }
    }
}

/// Replacing a character in text that does not hold it changes nothing.
pub proof fn lemma_replace_absent_char(s: Seq<char>, c: char, r: Seq<char>)
    requires
        !s.contains(c),
    ensures
        replace_all(s, seq![c], r) == s,
    decreases s.len(),
{
    if s.len() > 0 {
        assert(s[0] != c);
        assert(s.take(1) =~= seq![s[0]]);
        assert(!s.drop_first().contains(c)) by {
            if s.drop_first().contains(c) {
                let k = choose|k: int| 0 <= k < s.drop_first().len() && s.drop_first()[k] == c;
                assert(s[k + 1] == c);
            }
        }
        lemma_replace_absent_char(s.drop_first(), c, r);
        assert(seq![s[0]] + s.drop_first() =~= s);
    }
}

/// Replacing a character in a text of one character.
pub proof fn lemma_replace_char_single(x: char, c: char, r: Seq<char>)
    ensures
        replace_all(seq![x], seq![c], r) == if x == c {
            r
        } else {
            seq![x]
        },
{
    let s = seq![x];
    assert(s.take(1) =~= s);
    assert(s.skip(1) =~= Seq::<char>::empty());
    assert(s.drop_first() =~= Seq::<char>::empty());
    assert(replace_all(Seq::<char>::empty(), seq![c], r) =~= Seq::<char>::empty());
    assert(s.len() == 1 && s[0] == x);
    if x == c {
        assert(starts_with(s, seq![c]));
        assert(replace_all(s, seq![c], r) == r + replace_all(s.skip(1), seq![c], r));
        assert(r + Seq::<char>::empty() =~= r);
    } else {
        assert(!starts_with(s, seq![c]));
        assert(replace_all(s, seq![c], r) == seq![s[0]] + replace_all(s.drop_first(), seq![c], r));
        assert(s + Seq::<char>::empty() =~= s);
    }
}

} // verus!

verus! {

// ----------------------------------------------------------------------------------------
// Trimmed text as a part of the text
// ----------------------------------------------------------------------------------------
/// Trimming the start keeps a suffix of `s`.
pub proof fn lemma_trim_start_keeps_suffix(s: Seq<char>, k: CharClass)
    ensures
        trim_start_by(s, k).len() <= s.len(),
        trim_start_by(s, k) == s.skip(s.len() - trim_start_by(s, k).len()),
    decreases s.len(),
{
    if s.len() > 0 && in_class(k, s[0]) {
        lemma_trim_start_keeps_suffix(s.drop_first(), k);
        let n = trim_start_by(s, k).len();
        assert(s.drop_first().skip(s.drop_first().len() - n) =~= s.skip(s.len() - n));
    } else {
        assert(s.skip(0) =~= s);
    }
}

/// A text trimmed at the end that is not empty ends with a character outside the class.
pub proof fn lemma_trim_end_last(s: Seq<char>, k: CharClass)
    ensures
        trim_end_by(s, k).len() > 0 ==> !in_class(k, trim_end_by(s, k).last()),
    decreases s.len(),
{
    if s.len() > 0 && in_class(k, s.last()) {
        lemma_trim_end_last(s.drop_last(), k);
    }
}

/// Trimming twice is trimming once.
pub proof fn lemma_trim_twice(s: Seq<char>, k: CharClass)
    ensures
        trim_by(trim_by(s, k), k) == trim_by(s, k),
{
    let t = trim_by(s, k);
    lemma_trim_by_first(s, k);
    lemma_trim_end_last(trim_start_by(s, k), k);
    if t.len() == 0 {
        assert(trim_start_by(t, k) == t);
        assert(trim_end_by(t, k) == t);
    } else {
        lemma_trim_start_first(t, k);
        assert(trim_start_by(t, k) == t);
        assert(trim_end_by(t, k) == t);
    }
}

/// The trimmed text is the part of `s` from some position on.
pub proof fn lemma_trim_is_part(s: Seq<char>, k: CharClass) -> (a: int)
    ensures
        0 <= a,
        a + trim_by(s, k).len() <= s.len(),
        trim_by(s, k) == s.subrange(a, a + trim_by(s, k).len()),
{
    let u = trim_start_by(s, k);
    lemma_trim_start_keeps_suffix(s, k);
    lemma_trim_end_keeps_prefix(u, k);
    let a = s.len() - u.len();
    let n = trim_by(s, k).len() as int;
    assert(u.take(n) =~= s.subrange(a, a + n));
    a
}

/// A pattern that occurs in a part of `s` occurs in `s`.
pub proof fn lemma_contains_in_part(s: Seq<char>, a: int, b: int, p: Seq<char>)
    requires
        0 <= a <= b <= s.len(),
        contains(s.subrange(a, b), p),
    ensures
        contains(s, p),
{
    let part = s.subrange(a, b);
    let i = choose|i: int| 0 <= i <= part.len() && #[trigger] starts_with(part.skip(i), p);
    assert(s.skip(a + i).take(p.len() as int) =~= part.skip(i).take(p.len() as int));
    assert(starts_with(s.skip(a + i), p));
}

} // verus!

verus! {

// ----------------------------------------------------------------------------------------
// Text without separators
// ----------------------------------------------------------------------------------------
/// Splitting text that holds no separator leaves it as the piece being read.
pub proof fn lemma_split_without_separator(s: Seq<char>, k: CharClass, keep_empty: bool)
    requires
        forall|i: int| 0 <= i < s.len() ==> !in_class(k, #[trigger] s[i]),
    ensures
        split_state(s, k, keep_empty) == (Seq::<Seq<char>>::empty(), s),
    decreases s.len(),
{
    if s.len() > 0 {
        lemma_split_without_separator(s.drop_last(), k, keep_empty);
        assert(!in_class(k, s[s.len() - 1]));
        assert(s.drop_last().push(s.last()) =~= s);
    }
}

/// A non-empty text without a newline is a single line.
pub proof fn lemma_one_line(s: Seq<char>)
    requires
        s.len() > 0,
        forall|i: int| 0 <= i < s.len() ==> #[trigger] s[i] != '\n',
    ensures
        lines(s) == seq![s],
{
    lemma_split_without_separator(s, CharClass::Exactly('\n'), true);
    let parts = split_by(s, CharClass::Exactly('\n'), true);
    assert(parts =~= seq![s]);
    assert(parts.drop_last().map_values(|l: Seq<char>| strip_cr(l)) =~= Seq::<Seq<char>>::empty());
    assert(seq![s] =~= Seq::<Seq<char>>::empty().push(s));
}

/// Trimming the end keeps every character up to the last one outside the class.
pub proof fn lemma_trim_end_keeps_through(s: Seq<char>, k: CharClass, j: int)
    requires
        0 <= j < s.len(),
        !in_class(k, s[j]),
    ensures
        trim_end_by(s, k).len() > j,
    decreases s.len(),
{
    if in_class(k, s.last()) {
        lemma_trim_end_keeps_through(s.drop_last(), k, j);
    }
}

} // verus!
