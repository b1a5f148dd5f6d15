//! Scanning a line of text: each scanner reads from a position of a character
//! sequence and either succeeds with a value and the position after it, fails,
//! or runs out of input.  Failing lets an alternative be tried; running out of
//! input ends the whole parse, whatever alternatives are left.
use vstd::prelude::*;

use crate::text::{
    all_digits, chars_of, digits_up_to, digits_value, is_digit, parse_in_range, parse_int_in, string_of,
    trim, trim_bounds, trimmed_string,
};

verus! {

/// The outcome of a scanner.
pub enum Scan<T> {
    /// A value, and the position after what was read.
    Done(T, usize),
    /// The text does not match; an alternative may be tried.
    Error,
    /// The text stopped before the scanner could decide.
    Incomplete,
}

impl<T: DeepView> DeepView for Scan<T> {
    type V = Scan<T::V>;

    open spec fn deep_view(&self) -> Scan<T::V> {
        match self {
            Scan::Done(v, q) => Scan::Done(v.deep_view(), *q),
            Scan::Error => Scan::Error,
            Scan::Incomplete => Scan::Incomplete,
        }
    }
}

/// Why a whole parse failed.
#[derive(Debug, Clone, Copy, PartialEq, Eq)]
pub enum ScanError {
    Error,
    Incomplete,
}

/// The result of parsing a line from its start: what is left, and the value.
pub type IResult<T> = Result<(String, T), ScanError>;

/// Applies `f` to the value of a successful scan.
pub open spec fn sp_map<A, B>(r: Scan<A>, f: spec_fn(A) -> B) -> Scan<B> {
    match r {
        Scan::Done(v, q) => Scan::Done(f(v), q),
        Scan::Error => Scan::Error,
        Scan::Incomplete => Scan::Incomplete,
    }
}

/// Runs `f` from where a successful scan stopped.
pub open spec fn sp_then<A, B>(r: Scan<A>, f: spec_fn(A, usize) -> Scan<B>) -> Scan<B> {
    match r {
        Scan::Done(v, q) => f(v, q),
        Scan::Error => Scan::Error,
        Scan::Incomplete => Scan::Incomplete,
    }
}

/// Tries `b` only when `a` fails.
pub open spec fn sp_or<A>(a: Scan<A>, b: Scan<A>) -> Scan<A> {
    match a {
        Scan::Error => b,
        _ => a,
    }
}

/// The finished result of a scan over the whole of `s`.
pub open spec fn sp_result<V>(s: Seq<char>, r: Scan<V>) -> Result<(Seq<char>, V), ScanError> {
    match r {
        Scan::Done(v, q) => Ok((s.subrange(q as int, s.len() as int), v)),
        Scan::Error => Err(ScanError::Error),
        Scan::Incomplete => Err(ScanError::Incomplete),
    }
}

pub open spec fn result_view<T: DeepView>(r: IResult<T>) -> Result<(Seq<char>, T::V), ScanError> {
    match r {
        Ok((rest, v)) => Ok((rest@, v.deep_view())),
        Err(e) => Err(e),
    }
}

/// A successful scan stops between where it started and the end of the text.
pub open spec fn advances<T>(r: Scan<T>, p: usize, len: nat) -> bool {
    r matches Scan::Done(_, q) ==> p <= q <= len
}

// ------------------------------------------------------------------------------------------
// Fixed-width fields
// ------------------------------------------------------------------------------------------

/// Exactly `n` characters.
pub open spec fn sp_take(s: Seq<char>, p: usize, n: usize) -> Scan<Seq<char>> {
    if p + n <= s.len() {
        Scan::Done(s.subrange(p as int, p + n), (p + n) as usize)
    } else {
        Scan::Incomplete
    }
}

/// Exactly `n` characters, trimmed.
pub open spec fn sp_str_field(s: Seq<char>, p: usize, n: usize) -> Scan<Seq<char>> {
    sp_map(sp_take(s, p, n), |t: Seq<char>| trim(t))
}

/// Exactly `n` characters that, trimmed, are an integer in `lo..=hi`.
pub open spec fn sp_int_field(s: Seq<char>, p: usize, n: usize, lo: int, hi: int) -> Scan<int> {
    sp_then(
        sp_take(s, p, n),
        |t: Seq<char>, q: usize|
            match parse_in_range(trim(t), lo, hi) {
                Some(v) => Scan::Done(v, q),
                None => Scan::Error,
            },
    )
}

pub open spec fn sp_i32_field(s: Seq<char>, p: usize, n: usize) -> Scan<i32> {
    sp_map(sp_int_field(s, p, n, i32::MIN as int, i32::MAX as int), |v: int| v as i32)
}

pub open spec fn sp_i16_field(s: Seq<char>, p: usize, n: usize) -> Scan<i16> {
    sp_map(sp_int_field(s, p, n, i16::MIN as int, i16::MAX as int), |v: int| v as i16)
}

pub open spec fn is_blank_mark(c: char) -> bool {
    c == ' ' || c == '@'
}

/// `n` characters, each a space or `@`.
pub open spec fn sp_blank_field(s: Seq<char>, p: usize, n: usize) -> Scan<()> {
    if exists|i: int| p <= i < p + n && i < s.len() && !is_blank_mark(#[trigger] s[i]) {
        Scan::Error
    } else if p + n <= s.len() {
        Scan::Done((), (p + n) as usize)
    } else {
        Scan::Incomplete
    }
}

/// An optional integer field: `None` for a field of spaces and `@`; otherwise
/// an integer, or `None` with nothing read when the field holds no integer.
pub open spec fn sp_opt_i32_field(s: Seq<char>, p: usize, n: usize) -> Scan<Option<i32>> {
    sp_or(
        sp_map(sp_blank_field(s, p, n), |u: ()| None::<i32>),
        match sp_i32_field(s, p, n) {
            Scan::Done(v, q) => Scan::Done(Some(v), q),
            Scan::Error => Scan::Done(None, p),
            Scan::Incomplete => Scan::Incomplete,
        },
    )
}

// ------------------------------------------------------------------------------------------
// Literals
// ------------------------------------------------------------------------------------------

/// One given character.  When the text has ended, a scanner that may wait for
/// more input (`streaming`) runs out of input; otherwise it fails.
pub open spec fn sp_char(s: Seq<char>, p: usize, c: char, streaming: bool) -> Scan<()> {
    if p < s.len() {
        if s[p as int] == c {
            Scan::Done((), (p + 1) as usize)
        } else {
            Scan::Error
        }
    } else if streaming {
        Scan::Incomplete
    } else {
        Scan::Error
    }
}

/// The given text `t`.
pub open spec fn sp_tag(s: Seq<char>, p: usize, t: Seq<char>, streaming: bool) -> Scan<()> {
    if exists|i: int| 0 <= i < t.len() && p + i < s.len() && #[trigger] s[p + i] != t[i] {
        Scan::Error
    } else if p + t.len() <= s.len() {
        Scan::Done((), (p + t.len()) as usize)
    } else if streaming {
        Scan::Incomplete
    } else {
        Scan::Error
    }
}

// ------------------------------------------------------------------------------------------
// Runs of characters
// ------------------------------------------------------------------------------------------

pub open spec fn is_newline(c: char) -> bool {
    c == '\n' || c == '\r'
}

/// The first position at or after `p` that holds a line break, or the end.
pub open spec fn eol_from(s: Seq<char>, p: int) -> int
    decreases s.len() - p,
{
    if p >= s.len() {
        s.len() as int
    } else if is_newline(s[p]) {
        p
    } else {
        eol_from(s, p + 1)
    }
}

/// The rest of the line, trimmed.  Never fails.
pub open spec fn sp_till_eol(s: Seq<char>, p: usize) -> Scan<Seq<char>> {
    let q = eol_from(s, p as int);
    Scan::Done(trim(s.subrange(p as int, q)), q as usize)
}

/// The classes of characters that a run is made of.
pub enum CharClass {
    /// Space and tab.
    Space,
    /// Space, tab, carriage return and line feed.
    MultiSpace,
    /// Decimal digits.
    Digit,
    /// Everything but the given character.
    Not(char),
}

pub open spec fn in_class(c: char, k: CharClass) -> bool {
    match k {
        CharClass::Space => c == ' ' || c == '\t',
        CharClass::MultiSpace => c == ' ' || c == '\t' || c == '\r' || c == '\n',
        CharClass::Digit => is_digit(c),
        CharClass::Not(x) => c != x,
    }
}

/// The end of the longest run of characters of class `k` from `p`.
pub open spec fn run_end(s: Seq<char>, p: int, k: CharClass) -> int
    decreases s.len() - p,
{
    if p >= s.len() {
        s.len() as int
    } else if !in_class(s[p], k) {
        p
    } else {
        run_end(s, p + 1, k)
    }
}

/// A run of characters of class `k`, at least one.
pub open spec fn sp_run1(s: Seq<char>, p: usize, k: CharClass) -> Scan<Seq<char>> {
    let q = run_end(s, p as int, k);
    if q > p {
        Scan::Done(s.subrange(p as int, q), q as usize)
    } else {
        Scan::Error
    }
}

/// A run of characters of class `k`, possibly empty.
pub open spec fn sp_run0(s: Seq<char>, p: usize, k: CharClass) -> Scan<Seq<char>> {
    let q = run_end(s, p as int, k);
    Scan::Done(s.subrange(p as int, q), q as usize)
}

/// Whether `t` occurs in `s` at position `q`.
pub open spec fn occurs_at(s: Seq<char>, q: int, t: Seq<char>) -> bool {
    q + t.len() <= s.len() && s.subrange(q, q + t.len()) == t
}

/// The first position at or after `p` where `t` occurs.
pub open spec fn find_from(s: Seq<char>, p: int, t: Seq<char>) -> Option<int>
    decreases s.len() + 1 - p,
{
    if p > s.len() {
        None
    } else if occurs_at(s, p, t) {
        Some(p)
    } else {
        find_from(s, p + 1, t)
    }
}

/// Everything up to the first occurrence of `t` (not included).  When `t`
/// does not occur: out of input when `streaming`, a failure otherwise.  With
/// `nonempty`, an empty result is a failure.
pub open spec fn sp_take_until(s: Seq<char>, p: usize, t: Seq<char>, streaming: bool, nonempty: bool) -> Scan<
    Seq<char>,
> {
    match find_from(s, p as int, t) {
        Some(q) => if nonempty && q == p {
            Scan::Error
        } else {
            Scan::Done(s.subrange(p as int, q), q as usize)
        },
        None => if streaming {
            Scan::Incomplete
        } else {
            Scan::Error
        },
    }
}

// ------------------------------------------------------------------------------------------
// Numbers of any width
// ------------------------------------------------------------------------------------------

/// An integer in `lo..=hi` written with as many digits as follow, after an
/// optional sign when `signed`.
pub open spec fn sp_number(s: Seq<char>, p: usize, lo: int, hi: int, signed: bool) -> Scan<int> {
    let neg = signed && p < s.len() && s[p as int] == '-';
    let plus = signed && p < s.len() && s[p as int] == '+';
    let p1 = if neg || plus {
        p + 1
    } else {
        p as int
    };
    let q = run_end(s, p1, CharClass::Digit);
    if q == p1 {
        Scan::Error
    } else {
        let m = digits_value(s.subrange(p1, q));
        let v = if neg {
            -m
        } else {
            m
        };
        if lo <= v <= hi {
            Scan::Done(v, q as usize)
        } else {
            Scan::Error
        }
    }
}

pub open spec fn sp_i32_number(s: Seq<char>, p: usize) -> Scan<i32> {
    sp_map(sp_number(s, p, i32::MIN as int, i32::MAX as int, true), |v: int| v as i32)
}

pub open spec fn sp_i16_number(s: Seq<char>, p: usize) -> Scan<i16> {
    sp_map(sp_number(s, p, i16::MIN as int, i16::MAX as int, true), |v: int| v as i16)
}

pub open spec fn sp_u32_number(s: Seq<char>, p: usize) -> Scan<u32> {
    sp_map(sp_number(s, p, 0, u32::MAX as int, false), |v: int| v as u32)
}

/// A number of one or more digits that fits in an `i8`.
pub open spec fn sp_i8_digits(s: Seq<char>, p: usize) -> Scan<i8> {
    sp_map(sp_number(s, p, 0, i8::MAX as int, false), |v: int| v as i8)
}

// ------------------------------------------------------------------------------------------
// Real numbers, read as the text that writes them
// ------------------------------------------------------------------------------------------

/// After an optional sign at `p`.
pub open spec fn sign_end(s: Seq<char>, p: int) -> int {
    if p < s.len() && (s[p] == '+' || s[p] == '-') {
        p + 1
    } else {
        p
    }
}

/// The end of a mantissa from `p`: digits, optionally followed by `.` and
/// digits (possibly none); or `.` followed by at least one digit.
pub open spec fn mantissa_end(s: Seq<char>, p: int) -> Option<int> {
    let q = run_end(s, p, CharClass::Digit);
    if q > p {
        if q < s.len() && s[q] == '.' {
            Some(run_end(s, q + 1, CharClass::Digit))
        } else {
            Some(q)
        }
    } else if p < s.len() && s[p] == '.' && run_end(s, p + 1, CharClass::Digit) > p + 1 {
        Some(run_end(s, p + 1, CharClass::Digit))
    } else {
        None
    }
}

/// The end of an optional exponent from `p`: `e` or `E`, an optional sign and
/// at least one digit.  An `e` that no digit follows makes the number invalid.
pub open spec fn exponent_end(s: Seq<char>, p: int) -> Option<int> {
    if p < s.len() && (s[p] == 'e' || s[p] == 'E') {
        let r = sign_end(s, p + 1);
        if run_end(s, r, CharClass::Digit) > r {
            Some(run_end(s, r, CharClass::Digit))
        } else {
            None
        }
    } else {
        Some(p)
    }
}

/// Whether the word with lower-case letters `lower` and upper-case letters
/// `upper` is written at `p`, each letter in either case.
pub open spec fn word_at(s: Seq<char>, p: int, lower: Seq<char>, upper: Seq<char>) -> bool {
    &&& p + lower.len() <= s.len()
    &&& forall|i: int| 0 <= i < lower.len() ==> #[trigger] s[p + i] == lower[i] || s[p + i] == upper[i]
}

/// A real number: optional sign, mantissa and exponent; or, in any case,
/// `nan`, `infinity` or `inf`.  The value is the text that writes it.
pub open spec fn sp_real(s: Seq<char>, p: usize) -> Scan<Seq<char>> {
    match mantissa_end(s, sign_end(s, p as int)) {
        Some(q) => match exponent_end(s, q) {
            Some(e) => Scan::Done(s.subrange(p as int, e), e as usize),
            None => Scan::Error,
        },
        None => if word_at(s, p as int, "nan"@, "NAN"@) {
            Scan::Done(s.subrange(p as int, p + 3), (p + 3) as usize)
        } else if word_at(s, p as int, "infinity"@, "INFINITY"@) {
            Scan::Done(s.subrange(p as int, p + 8), (p + 8) as usize)
        } else if word_at(s, p as int, "inf"@, "INF"@) {
            Scan::Done(s.subrange(p as int, p + 3), (p + 3) as usize)
        } else {
            Scan::Error
        },
    }
}

// ------------------------------------------------------------------------------------------
// Executable scanners
// ------------------------------------------------------------------------------------------

pub fn take_str_field(s: &[char], p: usize, n: usize) -> (r: Scan<String>)
    requires
        p <= s@.len(),
    ensures
        r.deep_view() == sp_str_field(s@, p, n),
        advances(r, p, s@.len()),
{
    if n <= s.len() - p {
        let t = trimmed_string(s, p, p + n);
        Scan::Done(t, p + n)
    } else {
        Scan::Incomplete
    }
}

/// `n` raw characters.
pub fn take_raw(s: &[char], p: usize, n: usize) -> (r: Scan<String>)
    requires
        p <= s@.len(),
    ensures
        r.deep_view() == sp_take(s@, p, n),
        advances(r, p, s@.len()),
{
    if n <= s.len() - p {
        let t = string_of(s, p, p + n);
        Scan::Done(t, p + n)
    } else {
        Scan::Incomplete
    }
}

fn int_field(s: &[char], p: usize, n: usize, lo: i64, hi: i64) -> (r: Scan<i64>)
    requires
        p <= s@.len(),
        -0x8000_0000 <= lo <= 0,
        0 <= hi <= 0x7fff_ffff,
    ensures
        match r {
            Scan::Done(v, q) => sp_int_field(s@, p, n, lo as int, hi as int) == Scan::Done(
                v as int,
                q,
            ),
            Scan::Error => sp_int_field(s@, p, n, lo as int, hi as int) == Scan::<int>::Error,
            Scan::Incomplete => sp_int_field(s@, p, n, lo as int, hi as int)
                == Scan::<int>::Incomplete,
        },
        advances(r, p, s@.len()),
{
    if n <= s.len() - p {
        let (a, b) = trim_bounds(s, p, p + n);
        match parse_int_in(s, a, b, lo, hi) {
            Some(v) => Scan::Done(v, p + n),
            None => Scan::Error,
        }
    } else {
        Scan::Incomplete
    }
}

pub fn i32_field(s: &[char], p: usize, n: usize) -> (r: Scan<i32>)
    requires
        p <= s@.len(),
    ensures
        r.deep_view() == sp_i32_field(s@, p, n),
        advances(r, p, s@.len()),
{
    match int_field(s, p, n, -0x8000_0000, 0x7fff_ffff) {
        Scan::Done(v, q) => Scan::Done(v as i32, q),
        Scan::Error => Scan::Error,
        Scan::Incomplete => Scan::Incomplete,
    }
}

pub fn i16_field(s: &[char], p: usize, n: usize) -> (r: Scan<i16>)
    requires
        p <= s@.len(),
    ensures
        r.deep_view() == sp_i16_field(s@, p, n),
        advances(r, p, s@.len()),
{
    match int_field(s, p, n, -0x8000, 0x7fff) {
        Scan::Done(v, q) => Scan::Done(v as i16, q),
        Scan::Error => Scan::Error,
        Scan::Incomplete => Scan::Incomplete,
    }
}

pub fn blank_field(s: &[char], p: usize, n: usize) -> (r: Scan<()>)
    requires
        p <= s@.len(),
    ensures
        r.deep_view() == sp_blank_field(s@, p, n),
        advances(r, p, s@.len()),
{
    let end = if n <= s.len() - p { p + n } else { s.len() };
    let mut i = p;
    while i < end
        invariant
            p <= i <= end <= s@.len(),
            end == if p + n <= s@.len() { p + n } else { s@.len() as int },
            forall|j: int| p <= j < i ==> is_blank_mark(#[trigger] s@[j]),
        decreases end - i,
    {
        if !(s[i] == ' ' || s[i] == '@') {
            assert(!is_blank_mark(s@[i as int]));
            return Scan::Error;
        }
        i = i + 1;
    }
    if n <= s.len() - p {
        Scan::Done((), p + n)
    } else {
        Scan::Incomplete
    }
}

pub fn opt_i32_field(s: &[char], p: usize, n: usize) -> (r: Scan<Option<i32>>)
    requires
        p <= s@.len(),
    ensures
        r.deep_view() == sp_opt_i32_field(s@, p, n),
        advances(r, p, s@.len()),
{
    match blank_field(s, p, n) {
        Scan::Done(_, q) => Scan::Done(None, q),
        Scan::Incomplete => Scan::Incomplete,
        Scan::Error => match i32_field(s, p, n) {
            Scan::Done(v, q) => Scan::Done(Some(v), q),
            Scan::Error => Scan::Done(None, p),
            Scan::Incomplete => Scan::Incomplete,
        },
    }
}

pub fn char_lit(s: &[char], p: usize, c: char, streaming: bool) -> (r: Scan<()>)
    requires
        p <= s@.len(),
    ensures
        r.deep_view() == sp_char(s@, p, c, streaming),
        advances(r, p, s@.len()),
{
    if p < s.len() {
        if s[p] == c {
            Scan::Done((), p + 1)
        } else {
            Scan::Error
        }
    } else if streaming {
        Scan::Incomplete
    } else {
        Scan::Error
    }
}

pub fn tag_lit(s: &[char], p: usize, t: &str, streaming: bool) -> (r: Scan<()>)
    requires
        p <= s@.len(),
    ensures
        r.deep_view() == sp_tag(s@, p, t@, streaming),
        advances(r, p, s@.len()),
{
    let tc = chars_of(t);
    let mut i: usize = 0;
    while i < tc.len() && i < s.len() - p
        invariant
            p <= s@.len(),
            tc@ == t@,
            0 <= i <= tc@.len(),
            i <= s@.len() - p,
            forall|j: int| 0 <= j < i ==> #[trigger] s@[p + j] == tc@[j],
        decreases tc@.len() - i,
    {
        if s[p + i] != tc[i] {
            assert(s@[p + i] != t@[i as int]);
            return Scan::Error;
        }
        i = i + 1;
    }
    assert(!exists|j: int| 0 <= j < t@.len() && p + j < s@.len() && #[trigger] s@[p + j] != t@[j]);
    if tc.len() <= s.len() - p {
        Scan::Done((), p + tc.len())
    } else if streaming {
        Scan::Incomplete
    } else {
        Scan::Error
    }
}

pub fn till_eol(s: &[char], p: usize) -> (r: Scan<String>)
    requires
        p <= s@.len(),
    ensures
        r.deep_view() == sp_till_eol(s@, p),
        advances(r, p, s@.len()),
        r is Done,
{
    let mut i = p;
    while i < s.len() && !(s[i] == '\n' || s[i] == '\r')
        invariant
            p <= i <= s@.len(),
            eol_from(s@, p as int) == eol_from(s@, i as int),
        decreases s@.len() - i,
    {
        i = i + 1;
    }
    let t = trimmed_string(s, p, i);
    Scan::Done(t, i)
}

fn class_has(c: char, k: &CharClass) -> (r: bool)
    ensures
        r == in_class(c, *k),
{
    match k {
        CharClass::Space => c == ' ' || c == '\t',
        CharClass::MultiSpace => c == ' ' || c == '\t' || c == '\r' || c == '\n',
        CharClass::Digit => '0' <= c && c <= '9',
        CharClass::Not(x) => c != *x,
    }
}

/// The end of the run of class `k` from `p`.
pub fn run_end_at(s: &[char], p: usize, k: &CharClass) -> (q: usize)
    requires
        p <= s@.len(),
    ensures
        q == run_end(s@, p as int, *k),
        p <= q <= s@.len(),
{
    let mut i = p;
    while i < s.len() && class_has(s[i], k)
        invariant
            p <= i <= s@.len(),
            run_end(s@, p as int, *k) == run_end(s@, i as int, *k),
        decreases s@.len() - i,
    {
        i = i + 1;
    }
    i
}

pub fn run1(s: &[char], p: usize, k: CharClass) -> (r: Scan<String>)
    requires
        p <= s@.len(),
    ensures
        r.deep_view() == sp_run1(s@, p, k),
        advances(r, p, s@.len()),
{
    let q = run_end_at(s, p, &k);
    if q > p {
        Scan::Done(string_of(s, p, q), q)
    } else {
        Scan::Error
    }
}

pub fn run0(s: &[char], p: usize, k: CharClass) -> (r: Scan<String>)
    requires
        p <= s@.len(),
    ensures
        r.deep_view() == sp_run0(s@, p, k),
        advances(r, p, s@.len()),
{
    let q = run_end_at(s, p, &k);
    Scan::Done(string_of(s, p, q), q)
}

/// Whether `t` occurs at `q`.
fn occurs_at_exec(s: &[char], q: usize, t: &[char]) -> (r: bool)
    requires
        q <= s@.len(),
    ensures
        r == occurs_at(s@, q as int, t@),
{
    let sl = s.len();
    if t.len() > sl - q {
        return false;
    }
    let mut i: usize = 0;
    while i < t.len()
        invariant
            sl == s@.len(),
            q <= s@.len(),
            q + t@.len() <= s@.len(),
            0 <= i <= t@.len(),
            forall|j: int| 0 <= j < i ==> #[trigger] s@[q + j] == t@[j],
        decreases t@.len() - i,
    {
        assert(q + i < s@.len());
        if s[q + i] != t[i] {
            assert(s@.subrange(q as int, q + t@.len())[i as int] != t@[i as int]);
            return false;
        }
        i = i + 1;
    }
    assert forall|j: int| 0 <= j < t@.len() implies #[trigger] s@.subrange(q as int, q + t@.len())[j]
        == t@[j] by {
        assert(s@[q + j] == t@[j]);
    }
    assert(s@.subrange(q as int, q + t@.len()) =~= t@);
    true
}

pub fn take_until(s: &[char], p: usize, t: &str, streaming: bool, nonempty: bool) -> (r: Scan<String>)
    requires
        p <= s@.len(),
    ensures
        r.deep_view() == sp_take_until(s@, p, t@, streaming, nonempty),
        advances(r, p, s@.len()),
{
    let tc = chars_of(t);
    let mut q = p;
    loop
        invariant
            p <= q <= s@.len(),
            tc@ == t@,
            find_from(s@, p as int, t@) == find_from(s@, q as int, t@),
        ensures
            find_from(s@, p as int, t@) == None::<int>,
        decreases s@.len() - q,
    {
        if occurs_at_exec(s, q, tc.as_slice()) {
            assert(find_from(s@, q as int, t@) == Some(q as int));
            if nonempty && q == p {
                return Scan::Error;
            }
            return Scan::Done(string_of(s, p, q), q);
        }
        assert(find_from(s@, q as int, t@) == find_from(s@, q + 1, t@));
        if q == s.len() {
            assert(find_from(s@, q + 1, t@) == None::<int>);
            break;
        }
        q = q + 1;
    }
    if streaming {
        Scan::Incomplete
    } else {
        Scan::Error
    }
}

fn number(s: &[char], p: usize, lo: i64, hi: i64, signed: bool) -> (r: Scan<i64>)
    requires
        p <= s@.len(),
        -0x8000_0000 <= lo <= 0,
        0 <= hi <= 0xffff_ffff,
    ensures
        match r {
            Scan::Done(v, q) => sp_number(s@, p, lo as int, hi as int, signed) == Scan::Done(
                v as int,
                q,
            ),
            Scan::Error => sp_number(s@, p, lo as int, hi as int, signed) == Scan::<int>::Error,
            Scan::Incomplete => false,
        },
        advances(r, p, s@.len()),
{
    let neg = signed && p < s.len() && s[p] == '-';
    let plus = signed && p < s.len() && s[p] == '+';
    let p1 = if neg || plus { p + 1 } else { p };
    let q = run_end_at(s, p1, &CharClass::Digit);
    if q == p1 {
        return Scan::Error;
    }
    proof {
        assert forall|i: int| p1 <= i < q implies is_digit(#[trigger] s@[i]) by {
            lemma_run_end_class(s@, p1 as int, CharClass::Digit, i);
        }
        assert(all_digits(s@.subrange(p1 as int, q as int)));
    }
    let limit: i64 = if neg { -lo } else { hi };
    match digits_up_to(s, p1, q, limit) {
        Some(m) => {
            if neg {
                Scan::Done(-m, q)
            } else {
                Scan::Done(m, q)
            }
        },
        None => Scan::Error,
    }
}

/// Every character of a run belongs to its class.
pub proof fn lemma_run_end_class(s: Seq<char>, p: int, k: CharClass, i: int)
    requires
        0 <= p <= i < run_end(s, p, k),
    ensures
        in_class(s[i], k),
    decreases s.len() - p,
{
    if p < s.len() && in_class(s[p], k) && i > p {
        lemma_run_end_class(s, p + 1, k, i);
    }
}

pub fn i32_number(s: &[char], p: usize) -> (r: Scan<i32>)
    requires
        p <= s@.len(),
    ensures
        r.deep_view() == sp_i32_number(s@, p),
        advances(r, p, s@.len()),
{
    match number(s, p, -0x8000_0000, 0x7fff_ffff, true) {
        Scan::Done(v, q) => Scan::Done(v as i32, q),
        _ => Scan::Error,
    }
}

pub fn i16_number(s: &[char], p: usize) -> (r: Scan<i16>)
    requires
        p <= s@.len(),
    ensures
        r.deep_view() == sp_i16_number(s@, p),
        advances(r, p, s@.len()),
{
    match number(s, p, -0x8000, 0x7fff, true) {
        Scan::Done(v, q) => Scan::Done(v as i16, q),
        _ => Scan::Error,
    }
}

pub fn u32_number(s: &[char], p: usize) -> (r: Scan<u32>)
    requires
        p <= s@.len(),
    ensures
        r.deep_view() == sp_u32_number(s@, p),
        advances(r, p, s@.len()),
{
    match number(s, p, 0, 0xffff_ffff, false) {
        Scan::Done(v, q) => Scan::Done(v as u32, q),
        _ => Scan::Error,
    }
}

/// The finished result of a scan over the whole of `s`: what is left, and the value.
pub fn finish<T: DeepView>(s: &[char], r: Scan<T>) -> (out: IResult<T>)
    requires
        r matches Scan::Done(_, q) ==> q <= s@.len(),
    ensures
        result_view(out) == sp_result(s@, r.deep_view()),
{
    match r {
        Scan::Done(v, q) => Ok((string_of(s, q, s.len()), v)),
        Scan::Error => Err(ScanError::Error),
        Scan::Incomplete => Err(ScanError::Incomplete),
    }
}

pub fn i8_digits(s: &[char], p: usize) -> (r: Scan<i8>)
    requires
        p <= s@.len(),
    ensures
        r.deep_view() == sp_i8_digits(s@, p),
        advances(r, p, s@.len()),
{
    match number(s, p, 0, 0x7f, false) {
        Scan::Done(v, q) => Scan::Done(v as i8, q),
        _ => Scan::Error,
    }
}

fn word_at_exec(s: &[char], p: usize, lower: &str, upper: &str) -> (r: bool)
    requires
        p <= s@.len(),
        lower@.len() == upper@.len(),
    ensures
        r == word_at(s@, p as int, lower@, upper@),
{
    let lc = chars_of(lower);
    let uc = chars_of(upper);
    let sl = s.len();
    if lc.len() > sl - p {
        return false;
    }
    let mut i: usize = 0;
    while i < lc.len()
        invariant
            sl == s@.len(),
            p <= s@.len(),
            p + lc@.len() <= s@.len(),
            lc@ == lower@,
            uc@ == upper@,
            lc@.len() == uc@.len(),
            0 <= i <= lc@.len(),
            forall|j: int| 0 <= j < i ==> #[trigger] s@[p + j] == lc@[j] || s@[p + j] == uc@[j],
        decreases lc@.len() - i,
    {
        let k: usize = p + i;
        let c = s[k];
        if c != lc[i] && c != uc[i] {
            return false;
        }
        i = i + 1;
    }
    true
}

/// A real number, as the text that writes it.
pub fn real_number(s: &[char], p: usize) -> (r: Scan<String>)
    requires
        p <= s@.len(),
    ensures
        r.deep_view() == sp_real(s@, p),
        advances(r, p, s@.len()),
{
    let p1 = if p < s.len() && (s[p] == '+' || s[p] == '-') { p + 1 } else { p };
    let d = run_end_at(s, p1, &CharClass::Digit);
    let m: Option<usize> = if d > p1 {
        if d < s.len() && s[d] == '.' {
            Some(run_end_at(s, d + 1, &CharClass::Digit))
        } else {
            Some(d)
        }
    } else if p1 < s.len() && s[p1] == '.' {
        let f = run_end_at(s, p1 + 1, &CharClass::Digit);
        if f > p1 + 1 { Some(f) } else { None }
    } else {
        None
    };
    assert(m == match mantissa_end(s@, sign_end(s@, p as int)) { Some(x) => Some(x as usize), None => None::<usize> });
    match m {
        Some(q) => {
            if q < s.len() && (s[q] == 'e' || s[q] == 'E') {
                let r0 = if q + 1 < s.len() && (s[q + 1] == '+' || s[q + 1] == '-') { q + 2 } else { q + 1 };
                let e = run_end_at(s, r0, &CharClass::Digit);
                if e > r0 {
                    Scan::Done(string_of(s, p, e), e)
                } else {
                    Scan::Error
                }
            } else {
                Scan::Done(string_of(s, p, q), q)
            }
        },
        None => {
            proof {
                reveal_strlit("nan");
                reveal_strlit("NAN");
                reveal_strlit("infinity");
                reveal_strlit("INFINITY");
                reveal_strlit("inf");
                reveal_strlit("INF");
            }
            if word_at_exec(s, p, "nan", "NAN") {
                Scan::Done(string_of(s, p, p + 3), p + 3)
            } else if word_at_exec(s, p, "infinity", "INFINITY") {
                Scan::Done(string_of(s, p, p + 8), p + 8)
            } else if word_at_exec(s, p, "inf", "INF") {
                Scan::Done(string_of(s, p, p + 3), p + 3)
            } else {
                Scan::Error
            }
        },
    }
}

} // verus!
