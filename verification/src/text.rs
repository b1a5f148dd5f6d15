//! Character-level text handling: whitespace, trimming, decimal integers,
//! and conversions between `&str`, character slices and `String`.
use vstd::prelude::*;
use vstd::string::StringExecFns;

verus! {

broadcast use vstd::string::group_string_axioms;

/// Unicode `White_Space`, as `char::is_whitespace` defines it.
pub open spec fn is_ws(c: char) -> bool {
    ||| ('\u{9}' <= c && c <= '\u{d}')
    ||| c == ' '
    ||| c == '\u{85}'
    ||| c == '\u{a0}'
    ||| c == '\u{1680}'
    ||| ('\u{2000}' <= c && c <= '\u{200a}')
    ||| c == '\u{2028}'
    ||| c == '\u{2029}'
    ||| c == '\u{202f}'
    ||| c == '\u{205f}'
    ||| c == '\u{3000}'
}

pub fn white_space(c: char) -> (r: bool)
    ensures
        r == is_ws(c),
{
    ('\u{9}' <= c && c <= '\u{d}') || c == ' ' || c == '\u{85}' || c == '\u{a0}' || c == '\u{1680}'
        || ('\u{2000}' <= c && c <= '\u{200a}') || c == '\u{2028}' || c == '\u{2029}' || c
        == '\u{202f}' || c == '\u{205f}' || c == '\u{3000}'
}

/// Drops the leading whitespace of `s`.
pub open spec fn trim_start(s: Seq<char>) -> Seq<char>
    decreases s.len(),
{
    if s.len() > 0 && is_ws(s[0]) {
        trim_start(s.drop_first())
    } else {
        s
    }
}

/// Drops the trailing whitespace of `s`.
pub open spec fn trim_end(s: Seq<char>) -> Seq<char>
    decreases s.len(),
{
    if s.len() > 0 && is_ws(s.last()) {
        trim_end(s.drop_last())
    } else {
        s
    }
}

/// What `str::trim` returns: `s` without leading and trailing whitespace.
pub open spec fn trim(s: Seq<char>) -> Seq<char> {
    trim_end(trim_start(s))
}

pub open spec fn is_digit(c: char) -> bool {
    '0' <= c && c <= '9'
}

pub open spec fn digit_value(c: char) -> int {
    c as int - '0' as int
}

pub open spec fn all_digits(d: Seq<char>) -> bool {
    forall|i: int| 0 <= i < d.len() ==> is_digit(#[trigger] d[i])
}

/// The value of a string of decimal digits (most significant first).
pub open spec fn digits_value(d: Seq<char>) -> int
    decreases d.len(),
{
    if d.len() == 0 {
        0
    } else {
        digits_value(d.drop_last()) * 10 + digit_value(d.last())
    }
}

/// The integer that Rust's `from_str` for integer types reads from `t`
/// before the range check: an optional `+` or `-`, then at least one digit.
pub open spec fn decimal_value(t: Seq<char>) -> Option<int> {
    if t.len() == 0 {
        None
    } else if t[0] == '-' || t[0] == '+' {
        let d = t.drop_first();
        if d.len() > 0 && all_digits(d) {
            if t[0] == '-' {
                Some(-digits_value(d))
            } else {
                Some(digits_value(d))
            }
        } else {
            None
        }
    } else if all_digits(t) {
        Some(digits_value(t))
    } else {
        None
    }
}

/// `t.parse::<iN>()` for an integer type whose range is `lo..=hi`.
pub open spec fn parse_in_range(t: Seq<char>, lo: int, hi: int) -> Option<int> {
    match decimal_value(t) {
        Some(v) => if lo <= v <= hi {
            Some(v)
        } else {
            None
        },
        None => None,
    }
}

pub proof fn lemma_digits_value_nonneg(d: Seq<char>)
    requires
        all_digits(d),
    ensures
        digits_value(d) >= 0,
    decreases d.len(),
{
    if d.len() > 0 {
        assert(all_digits(d.drop_last()));
        lemma_digits_value_nonneg(d.drop_last());
        assert(is_digit(d[d.len() - 1]));
    }
}

/// Appending digits never makes the value smaller.
pub proof fn lemma_digits_value_prefix(d: Seq<char>, k: int)
    requires
        all_digits(d),
        0 <= k <= d.len(),
    ensures
        digits_value(d.take(k)) <= digits_value(d),
    decreases d.len(),
{
    if k < d.len() {
        assert(all_digits(d.drop_last()));
        lemma_digits_value_prefix(d.drop_last(), k);
        assert(d.drop_last().take(k) =~= d.take(k));
        lemma_digits_value_nonneg(d.drop_last());
        assert(is_digit(d[d.len() - 1]));
    } else {
        assert(d.take(k) =~= d);
    }
}

/// The characters of `s`, in order.
pub fn chars_of(s: &str) -> (v: Vec<char>)
    ensures
        v@ == s@,
{
    let mut v: Vec<char> = Vec::new();
    for c in it: s.chars()
        invariant
            v@ == it.seq().take(it.index()),
            it.seq() == s@,
    {
        v.push(c);
        assert(v@ =~= it.seq().take(it.index() + 1));
    }
    assert(v@ =~= s@);
    v
}

/// Appends one character to a `String` (`String::push`).
#[verifier::external_body]
pub(crate) fn string_push(s: &mut String, c: char)
    ensures
        final(s)@ == old(s)@.push(c),
{
    s.push(c);
}

/// The `String` made of `s[a..b]`.
pub fn string_of(s: &[char], a: usize, b: usize) -> (r: String)
    requires
        a <= b <= s@.len(),
    ensures
        r@ == s@.subrange(a as int, b as int),
{
    let mut r = String::new();
    let mut i = a;
    while i < b
        invariant
            a <= i <= b <= s@.len(),
            r@ == s@.subrange(a as int, i as int),
        decreases b - i,
    {
        string_push(&mut r, s[i]);
        assert(r@ =~= s@.subrange(a as int, i + 1));
        i = i + 1;
    }
    r
}

/// The `String` made of all of `s`.
pub fn string_of_all(s: &[char]) -> (r: String)
    ensures
        r@ == s@,
{
    let r = string_of(s, 0, s.len());
    assert(s@.subrange(0, s@.len() as int) =~= s@);
    r
}

/// The bounds of `trim(s[a..b])` inside `s`.
pub fn trim_bounds(s: &[char], a: usize, b: usize) -> (r: (usize, usize))
    requires
        a <= b <= s@.len(),
    ensures
        a <= r.0 <= r.1 <= b,
        s@.subrange(r.0 as int, r.1 as int) == trim(s@.subrange(a as int, b as int)),
{
    let mut i = a;
    while i < b && white_space(s[i])
        invariant
            a <= i <= b <= s@.len(),
            trim_start(s@.subrange(a as int, b as int)) == trim_start(s@.subrange(i as int, b as int)),
        decreases b - i,
    {
        assert(s@.subrange(i as int, b as int).drop_first() =~= s@.subrange(i + 1, b as int));
        i = i + 1;
    }
    assert(trim_start(s@.subrange(i as int, b as int)) == s@.subrange(i as int, b as int));
    let mut j = b;
    while j > i && white_space(s[j - 1])
        invariant
            a <= i <= j <= b <= s@.len(),
            trim_end(s@.subrange(i as int, b as int)) == trim_end(s@.subrange(i as int, j as int)),
        decreases j - i,
    {
        assert(s@.subrange(i as int, j as int).drop_last() =~= s@.subrange(i as int, j - 1));
        j = j - 1;
    }
    assert(trim_end(s@.subrange(i as int, j as int)) == s@.subrange(i as int, j as int));
    (i, j)
}

/// The trimmed `String` of `s[a..b]`.
pub fn trimmed_string(s: &[char], a: usize, b: usize) -> (r: String)
    requires
        a <= b <= s@.len(),
    ensures
        r@ == trim(s@.subrange(a as int, b as int)),
{
    let (lo, hi) = trim_bounds(s, a, b);
    string_of(s, lo, hi)
}

/// Reads the digits `s[a..b]` (all of them decimal digits); `None` when
/// their value exceeds `limit`.
pub(crate) fn digits_up_to(s: &[char], a: usize, b: usize, limit: i64) -> (r: Option<i64>)
    requires
        a <= b <= s@.len(),
        all_digits(s@.subrange(a as int, b as int)),
        0 <= limit <= 0x1_0000_0000,
    ensures
        match r {
            Some(v) => v == digits_value(s@.subrange(a as int, b as int)) && 0 <= v <= limit,
            None => digits_value(s@.subrange(a as int, b as int)) > limit,
        },
{
    let mut val: i64 = 0;
    let mut i = a;
    while i < b
        invariant
            a <= i <= b <= s@.len(),
            all_digits(s@.subrange(a as int, b as int)),
            0 <= limit <= 0x1_0000_0000,
            val == digits_value(s@.subrange(a as int, i as int)),
            0 <= val <= limit,
        decreases b - i,
    {
        let ghost d = s@.subrange(a as int, b as int);
        assert(is_digit(d[i - a]));
        let dv = (s[i] as u32 - '0' as u32) as i64;
        assert(s@.subrange(a as int, i + 1).drop_last() =~= s@.subrange(a as int, i as int));
        val = val * 10 + dv;
        i = i + 1;
        if val > limit {
            proof {
                assert(d.take(i - a) =~= s@.subrange(a as int, i as int));
                lemma_digits_value_prefix(d, i - a);
            }
            return None;
        }
    }
    Some(val)
}

/// `s[a..b].parse::<iN>()` for an integer type whose range is `lo..=hi`
/// (no trimming: the text must be exactly the number).
pub fn parse_int_in(s: &[char], a: usize, b: usize, lo: i64, hi: i64) -> (r: Option<i64>)
    requires
        a <= b <= s@.len(),
        -0x8000_0000 <= lo <= 0,
        0 <= hi <= 0x7fff_ffff,
    ensures
        match r {
            Some(v) => parse_in_range(s@.subrange(a as int, b as int), lo as int, hi as int)
                == Some(v as int),
            None => parse_in_range(s@.subrange(a as int, b as int), lo as int, hi as int).is_none(),
        },
{
    let ghost t = s@.subrange(a as int, b as int);
    if a == b {
        return None;
    }
    let first = s[a];
    let neg = first == '-';
    let start = if first == '-' || first == '+' { a + 1 } else { a };
    assert(first == t[0]);
    if start == b {
        assert(t.drop_first().len() == 0);
        return None;
    }
    let mut k = start;
    while k < b
        invariant
            a <= start <= k <= b <= s@.len(),
            t == s@.subrange(a as int, b as int),
            first == s@[a as int],
            (first == '-' || first == '+') ==> start == a + 1,
            !(first == '-' || first == '+') ==> start == a,
            forall|i: int| start <= i < k ==> is_digit(#[trigger] s@[i]),
        decreases b - k,
    {
        let c = s[k];
        if !('0' <= c && c <= '9') {
            proof {
                if first == '-' || first == '+' {
                    assert(t.drop_first()[k - start] == s@[k as int]);
                } else {
                    assert(t[k - a] == s@[k as int]);
                }
            }
            return None;
        }
        k = k + 1;
    }
    let ghost d = s@.subrange(start as int, b as int);
    assert(all_digits(d)) by {
        assert forall|i: int| 0 <= i < d.len() implies is_digit(#[trigger] d[i]) by {
            assert(d[i] == s@[start + i]);
        }
    }
    if first == '-' || first == '+' {
        assert(t.drop_first() =~= d);
    } else {
        assert(t =~= d);
    }
    let limit: i64 = if neg { -lo } else { hi };
    match digits_up_to(s, start, b, limit) {
        Some(v) => {
            if neg {
                Some(-v)
            } else {
                Some(v)
            }
        },
        None => None,
    }
}

pub open spec fn digit_char(v: int) -> char {
    (v + '0' as int) as char
}

/// The decimal digits of `n`, without leading zeros (`0` for zero).
pub open spec fn decimal(n: nat) -> Seq<char>
    decreases n,
{
    if n < 10 {
        seq![digit_char(n as int)]
    } else {
        decimal(n / 10).push(digit_char((n % 10) as int))
    }
}

/// The decimal text of `v`, with `-` in front when it is negative.
pub open spec fn signed_decimal(v: int) -> Seq<char> {
    if v < 0 {
        seq!['-'] + decimal((-v) as nat)
    } else {
        decimal(v as nat)
    }
}

/// Appends the decimal digits of `n` to `s`.
fn push_decimal(s: &mut String, n: u64)
    ensures
        final(s)@ == old(s)@ + decimal(n as nat),
    decreases n,
{
    if n >= 10 {
        push_decimal(s, n / 10);
    }
    let d: u8 = (n % 10) as u8;
    let c: char = (d + 48u8) as char;
    proof {
        assert(c == digit_char((n % 10) as int));
    }
    string_push(s, c);
    proof {
        if n >= 10 {
            assert(decimal(n as nat) == decimal((n / 10) as nat).push(digit_char((n % 10) as int)));
        } else {
            assert(decimal(n as nat) == seq![digit_char(n as int)]);
        }
    }
}

/// The decimal text of `v`, with `-` in front when it is negative, as
/// `i64::to_string` writes it.
pub(crate) fn int_to_string(v: i64) -> (r: String)
    ensures
        r@ == signed_decimal(v as int),
{
    let mut s = String::new();
    if v < 0 {
        string_push(&mut s, '-');
        let m: u64 = ((-(v + 1)) as u64) + 1;
        push_decimal(&mut s, m);
        proof {
            assert(s@ == seq!['-'] + decimal((-v) as nat));
        }
    } else {
        push_decimal(&mut s, v as u64);
        proof {
            assert(s@ == seq![] + decimal(v as nat));
            assert(seq![] + decimal(v as nat) == decimal(v as nat));
        }
    }
    s
}

/// `s` followed by `t`.
pub fn joined(s: &str, t: &str) -> (r: String)
    ensures
        r@ == s@ + t@,
{
    let mut r = String::from_str(s);
    r.append(t);
    r
}


/// The pieces of `s` between the occurrences of `c` (`str::split` with a
/// character): one more piece than there are occurrences, empty ones included.
pub open spec fn split(s: Seq<char>, c: char) -> Seq<Seq<char>>
    decreases s.len(),
{
    if s.len() == 0 {
        seq![Seq::empty()]
    } else {
        let init = split(s.drop_last(), c);
        if s.last() == c {
            init.push(Seq::empty())
        } else {
            init.update(init.len() - 1, init.last().push(s.last()))
        }
    }
}

/// The texts of a list of character vectors.
pub open spec fn pieces_view(v: Seq<Vec<char>>) -> Seq<Seq<char>> {
    v.map_values(|p: Vec<char>| p@)
}

/// The pieces of `s` between the occurrences of `c`.
pub fn split_at_char(s: &[char], c: char) -> (r: Vec<Vec<char>>)
    ensures
        pieces_view(r@) == split(s@, c),
{
    let mut pieces: Vec<Vec<char>> = Vec::new();
    let first: Vec<char> = Vec::new();
    pieces.push(first);
    assert(s@.take(0) =~= Seq::<char>::empty());
    assert(pieces_view(pieces@) =~= split(s@.take(0), c));
    let mut i: usize = 0;
    while i < s.len()
        invariant
            0 <= i <= s@.len(),
            pieces_view(pieces@) == split(s@.take(i as int), c),
            pieces@.len() >= 1,
        decreases s@.len() - i,
    {
        let ghost before = pieces_view(pieces@);
        assert(s@.take(i + 1).drop_last() =~= s@.take(i as int));
        assert(s@.take(i + 1).last() == s@[i as int]);
        if s[i] == c {
            let empty: Vec<char> = Vec::new();
            pieces.push(empty);
            assert(pieces_view(pieces@) =~= before.push(Seq::empty()));
        } else {
            let last = pieces.len() - 1;
            let mut piece = pieces.remove(last);
            let ghost pv = piece@;
            assert(pv == before[before.len() - 1]);
            piece.push(s[i]);
            pieces.push(piece);
            assert(pieces_view(pieces@) =~= before.update(before.len() - 1, pv.push(s@[i as int])));
        }
        i = i + 1;
    }
    assert(s@.take(s@.len() as int) =~= s@);
    pieces
}

/// How `str`'s `Debug` writes a text: between double quotes, with the
/// characters that need it escaped.
pub uninterp spec fn debug_quoted(t: Seq<char>) -> Seq<char>;

/// `format!("{:?}", s)`: the text as `str`'s `Debug` writes it.
#[verifier::external_body]
pub(crate) fn debug_text(s: &str) -> (r: String)
    ensures
        r@ == debug_quoted(s@),
{
    format!("{:?}", s)
}

} // verus!
