//! # Bitfield parsing (BITFELD)
//!
//! Day-specific validity of the timetable information, as a bit pattern:
//! each day is one bit, and four bits make one hexadecimal digit.  A timetable
//! year is assumed to be 400 days long, hence 96 digits (384 bits) per row.
//!
//! `000017 FFFF...FE00` is bit field 17.
use vstd::prelude::*;

use crate::error::{HResult, PResult, ParsingError, ParsingErrorV};
use crate::models::BitField;
use crate::parsing::lines::{blank, file_error, is_blank, line_error, scan_failure, texts};
use crate::scan::{
    char_lit, finish, i32_field, result_view, sp_char, sp_i32_field, sp_result, sp_then, IResult,
    Scan,
};
use crate::storage::{id_map_insert, id_map_new, IdMap, ResourceStorage};
use crate::text::chars_of;

verus! {

broadcast use vstd::string::group_string_axioms;

/// An upper-case hexadecimal digit, as the rows write them.
pub open spec fn is_upper_hex(c: char) -> bool {
    ('0' <= c && c <= '9') || ('A' <= c && c <= 'F')
}

/// A hexadecimal digit of either case (`char::to_digit(16)`).
pub open spec fn is_hex(c: char) -> bool {
    ('0' <= c && c <= '9') || ('A' <= c && c <= 'F') || ('a' <= c && c <= 'f')
}

pub open spec fn hex_value(c: char) -> int {
    if '0' <= c && c <= '9' {
        c as int - '0' as int
    } else if 'A' <= c && c <= 'F' {
        c as int - 'A' as int + 10
    } else {
        c as int - 'a' as int + 10
    }
}

/// Bit `j` of a hexadecimal digit of value `v`, the most significant first.
pub open spec fn nibble_bit(v: int, j: int) -> u8 {
    (if j == 0 {
        (v / 8) % 2
    } else if j == 1 {
        (v / 4) % 2
    } else if j == 2 {
        (v / 2) % 2
    } else {
        v % 2
    }) as u8
}

/// The bits of the hexadecimal number `h`, four per digit, the most significant first.
pub open spec fn hex_bits(h: Seq<char>) -> Seq<u8> {
    Seq::new(4 * h.len(), |k: int| nibble_bit(hex_value(h[k / 4]), k % 4))
}

/// `n` upper-case hexadecimal digits (one at a time; the line may end before them).
pub open spec fn sp_hex_digits(s: Seq<char>, p: usize, n: usize) -> Scan<Seq<char>> {
    if exists|i: int| p <= i < p + n && i < s.len() && !is_upper_hex(#[trigger] s[i]) {
        Scan::Error
    } else if p + n <= s.len() {
        Scan::Done(s.subrange(p as int, p + n), (p + n) as usize)
    } else {
        Scan::Incomplete
    }
}

/// A row: the 6-character id, a space, and 96 hexadecimal digits, read as bits.
pub open spec fn sp_bitfield_row(s: Seq<char>, p: usize) -> Scan<(i32, Seq<u8>)> {
    sp_then(
        sp_i32_field(s, p, 6),
        |id: i32, p1: usize|
            sp_then(
                sp_char(s, p1, ' ', true),
                |u: (), p2: usize|
                    sp_then(
                        sp_hex_digits(s, p2, 96),
                        |h: Seq<char>, p3: usize| Scan::Done((id, hex_bits(h)), p3),
                    ),
            ),
    )
}

fn hex_digit_value(c: char) -> (r: u8)
    requires
        is_hex(c),
    ensures
        r == hex_value(c),
{
    if '0' <= c && c <= '9' {
        (c as u32 - '0' as u32) as u8
    } else if 'A' <= c && c <= 'F' {
        (c as u32 - 'A' as u32 + 10) as u8
    } else {
        (c as u32 - 'a' as u32 + 10) as u8
    }
}

/// The bits of the hexadecimal digits `s[a..b]`.
fn bits_of(s: &[char], a: usize, b: usize) -> (r: Vec<u8>)
    requires
        a <= b <= s@.len(),
        forall|i: int| a <= i < b ==> is_hex(#[trigger] s@[i]),
    ensures
        r@ == hex_bits(s@.subrange(a as int, b as int)),
{
    let ghost h = s@.subrange(a as int, b as int);
    let mut r: Vec<u8> = Vec::new();
    let mut i = a;
    while i < b
        invariant
            a <= i <= b <= s@.len(),
            h == s@.subrange(a as int, b as int),
            forall|j: int| a <= j < b ==> is_hex(#[trigger] s@[j]),
            r@.len() == 4 * (i - a),
            forall|k: int| 0 <= k < r@.len() ==> r@[k] == nibble_bit(hex_value(h[k / 4]), k % 4),
        decreases b - i,
    {
        let v = hex_digit_value(s[i]);
        let ghost old_r = r@;
        r.push((v / 8) % 2);
        r.push((v / 4) % 2);
        r.push((v / 2) % 2);
        r.push(v % 2);
        proof {
            assert forall|k: int| 0 <= k < r@.len() implies r@[k] == nibble_bit(
                hex_value(h[k / 4]),
                k % 4,
            ) by {
                if k >= old_r.len() {
                    assert(k / 4 == i - a);
                    assert(h[k / 4] == s@[i as int]);
                } else {
                    assert(r@[k] == old_r[k]);
                }
            }
        }
        i = i + 1;
    }
    assert(r@ =~= hex_bits(h));
    r
}

fn hex_digits(s: &[char], p: usize, n: usize) -> (r: Scan<Vec<u8>>)
    requires
        p <= s@.len(),
    ensures
        match (r, sp_hex_digits(s@, p, n)) {
            (Scan::Done(v, q), Scan::Done(h, q2)) => v@ == hex_bits(h) && q == q2,
            (Scan::Error, Scan::Error) => true,
            (Scan::Incomplete, Scan::Incomplete) => true,
            _ => false,
        },
        r matches Scan::Done(_, q) ==> p <= q <= s@.len(),
{
    let end = if n <= s.len() - p { p + n } else { s.len() };
    let mut i = p;
    while i < end
        invariant
            p <= i <= end <= s@.len(),
            end == if p + n <= s@.len() { p + n } else { s@.len() as int },
            forall|j: int| p <= j < i ==> is_upper_hex(#[trigger] s@[j]),
        decreases end - i,
    {
        let c = s[i];
        if !(('0' <= c && c <= '9') || ('A' <= c && c <= 'F')) {
            assert(!is_upper_hex(s@[i as int]));
            return Scan::Error;
        }
        i = i + 1;
    }
    if n <= s.len() - p {
        Scan::Done(bits_of(s, p, p + n), p + n)
    } else {
        Scan::Incomplete
    }
}

fn bitfield_row_at(s: &[char], p: usize) -> (r: Scan<(i32, Vec<u8>)>)
    requires
        p <= s@.len(),
    ensures
        r.deep_view() == sp_bitfield_row(s@, p),
        r matches Scan::Done(_, q) ==> p <= q <= s@.len(),
{
    match i32_field(s, p, 6) {
        Scan::Done(id, p1) => match char_lit(s, p1, ' ', true) {
            Scan::Done(_, p2) => match hex_digits(s, p2, 96) {
                Scan::Done(bits, p3) => {
                    assert(bits.deep_view() =~= bits@);
                    let r = Scan::Done((id, bits), p3);
                    assert(r.deep_view() == sp_bitfield_row(s@, p));
                    r
                },
                Scan::Error => Scan::Error,
                Scan::Incomplete => Scan::Incomplete,
            },
            Scan::Error => Scan::Error,
            Scan::Incomplete => Scan::Incomplete,
        },
        Scan::Error => Scan::Error,
        Scan::Incomplete => Scan::Incomplete,
    }
}

/// Reads a row: the id and the bits.
pub fn parse_bitfield_row(input: &str) -> (r: IResult<(i32, Vec<u8>)>)
    ensures
        result_view(r) == sp_result(input@, sp_bitfield_row(input@, 0)),
{
    let s = chars_of(input);
    let r = bitfield_row_at(s.as_slice(), 0);
    finish(s.as_slice(), r)
}

/// The first position of `h` that is not a hexadecimal digit.
pub open spec fn first_non_hex(h: Seq<char>) -> Option<int> {
    if exists|i: int| 0 <= i < h.len() && !is_hex(#[trigger] h[i]) {
        Some(choose|i: int| 0 <= i < h.len() && !is_hex(h[i]) && forall|j: int| 0 <= j < i ==> is_hex(#[trigger] h[j]))
    } else {
        None
    }
}

/// Converts a hexadecimal number (digits of either case) into its bits, four
/// per digit; an error names the first character that is not a digit.
pub fn convert_hex_number_to_bits(hex_number: &str) -> (r: PResult<Vec<u8>>)
    ensures
        match r {
            Ok(bits) => (forall|i: int| 0 <= i < hex_number@.len() ==> is_hex(#[trigger] hex_number@[i]))
                && bits@ == hex_bits(hex_number@),
            Err(e) => exists|i: int|
                0 <= i < hex_number@.len() && !is_hex(#[trigger] hex_number@[i]) && (forall|j: int|
                    0 <= j < i ==> is_hex(#[trigger] hex_number@[j])) && e
                    == ParsingError::InvalidHexDigit(hex_number@[i]),
        },
{
    let s = chars_of(hex_number);
    let mut i: usize = 0;
    while i < s.len()
        invariant
            s@ == hex_number@,
            0 <= i <= s@.len(),
            forall|j: int| 0 <= j < i ==> is_hex(#[trigger] s@[j]),
        decreases s@.len() - i,
    {
        let c = s[i];
        if !(('0' <= c && c <= '9') || ('A' <= c && c <= 'F') || ('a' <= c && c <= 'f')) {
            assert(!is_hex(s@[i as int]));
            return Err(ParsingError::InvalidHexDigit(c));
        }
        i = i + 1;
    }
    let bits = bits_of(s.as_slice(), 0, s.len());
    assert(s@.subrange(0, s@.len() as int) =~= s@);
    Ok(bits)
}

/// What a line of the file gives: the id and bits, or why it does not read.
pub open spec fn sp_bitfield_line(line: Seq<char>) -> Result<(i32, Seq<u8>), ParsingErrorV> {
    match sp_bitfield_row(line, 0) {
        Scan::Done(v, _) => Ok(v),
        r => Err(ParsingErrorV::Syntax(scan_failure(r))),
    }
}

/// Reads a line into a bit field under its id.
pub fn parse_line(line: &str) -> (r: PResult<(i32, BitField)>)
    ensures
        match (r, sp_bitfield_line(line@)) {
            (Ok((id, b)), Ok((id2, bits))) => id == id2 && b.id == id && b.bits@ == bits,
            (Err(e), Err(e2)) => e.deep_view() == e2,
            _ => false,
        },
{
    let s = chars_of(line);
    match bitfield_row_at(s.as_slice(), 0) {
        Scan::Done((id, bits), _) => Ok((id, BitField::new(id, bits))),
        Scan::Error => Err(ParsingError::Syntax(crate::scan::ScanError::Error)),
        Scan::Incomplete => Err(ParsingError::Syntax(crate::scan::ScanError::Incomplete)),
    }
}

/// The bit fields of the first `n` lines, each under its id (a later row for
/// an id replaces an earlier one); or the number of the first line that does
/// not read, and why.
pub open spec fn bitfields_of(lines: Seq<Seq<char>>, n: nat) -> Result<Map<i32, Seq<u8>>, (nat, ParsingErrorV)>
    decreases n,
{
    if n == 0 {
        Ok(Map::empty())
    } else {
        match bitfields_of(lines, (n - 1) as nat) {
            Err(e) => Err(e),
            Ok(m) => if blank(lines[n - 1]) {
                Ok(m)
            } else {
                match sp_bitfield_line(lines[n - 1]) {
                    Ok((id, bits)) => Ok(m.insert(id, bits)),
                    Err(e) => Err(((n - 1) as nat, e)),
                }
            },
        }
    }
}

/// Once a line does not read, later lines change nothing.
pub proof fn lemma_bitfields_error_stays(lines: Seq<Seq<char>>, n: nat, m: nat)
    requires
        n <= m,
        bitfields_of(lines, n) is Err,
    ensures
        bitfields_of(lines, m) == bitfields_of(lines, n),
    decreases m - n,
{
    if n < m {
        lemma_bitfields_error_stays(lines, n, (m - 1) as nat);
    }
}

proof fn lemma_nibble(v: int)
    requires
        0 <= v < 16,
    ensures
        8 * nibble_bit(v, 0) + 4 * nibble_bit(v, 1) + 2 * nibble_bit(v, 2) + nibble_bit(v, 3) == v,
        forall|j: int| 0 <= j < 4 ==> #[trigger] nibble_bit(v, j) <= 1,
{
    if v == 0 {} else if v == 1 {} else if v == 2 {} else if v == 3 {} else if v == 4 {} else if v == 5 {}
    else if v == 6 {} else if v == 7 {} else if v == 8 {} else if v == 9 {} else if v == 10 {}
    else if v == 11 {} else if v == 12 {} else if v == 13 {} else if v == 14 {} else {}
}

/// Each digit of a hexadecimal number gives four bits, each 0 or 1, which
/// read as a binary number, the most significant first, are the digit's value.
pub proof fn lemma_hex_bits_read_back(h: Seq<char>, i: int)
    requires
        0 <= i < h.len(),
        forall|k: int| 0 <= k < h.len() ==> is_hex(#[trigger] h[k]),
    ensures
        hex_bits(h).len() == 4 * h.len(),
        8 * hex_bits(h)[4 * i] + 4 * hex_bits(h)[4 * i + 1] + 2 * hex_bits(h)[4 * i + 2] + hex_bits(h)[4 * i + 3]
            == hex_value(h[i]),
        forall|k: int| 4 * i <= k < 4 * i + 4 ==> #[trigger] hex_bits(h)[k] <= 1,
{
    let b = hex_bits(h);
    let v = hex_value(h[i]);
    assert(is_hex(h[i]));
    assert(0 <= v < 16);
    lemma_nibble(v);
    assert((4 * i) / 4 == i && (4 * i) % 4 == 0);
    assert((4 * i + 1) / 4 == i && (4 * i + 1) % 4 == 1);
    assert((4 * i + 2) / 4 == i && (4 * i + 2) % 4 == 2);
    assert((4 * i + 3) / 4 == i && (4 * i + 3) % 4 == 3);
    assert forall|k: int| 4 * i <= k < 4 * i + 4 implies #[trigger] b[k] <= 1 by {
        assert(k / 4 == i);
        assert(0 <= k % 4 < 4);
    }
}

/// Each bit field is under its own id.
pub open spec fn bit_fields_keyed(m: Map<i32, BitField>) -> bool {
    forall|k: i32| #[trigger] m.contains_key(k) ==> m[k].id == k
}

/// The bit fields of a map, by id.
pub open spec fn bits_view(m: Map<i32, BitField>) -> Map<i32, Seq<u8>> {
    m.map_values(|b: BitField| b.bits@)
}

/// Reads the lines of the BITFELD file `file`; blank lines are skipped.
pub fn parse(file: &str, lines: &Vec<String>) -> (r: HResult<ResourceStorage<BitField>>)
    ensures
        match (r, bitfields_of(texts(lines@), lines@.len())) {
            (Ok(st), Ok(m)) => bits_view(st.view()) == m && bit_fields_keyed(st.view()),
            (Err(e), Err((n, why))) => file_error(e, why, file@, lines@[n as int]@, n),
            _ => false,
        },
{
    let mut data: IdMap<BitField> = id_map_new();
    assert(bits_view(data@) =~= Map::empty());
    let mut i: usize = 0;
    while i < lines.len()
        invariant
            0 <= i <= lines@.len(),
            bitfields_of(texts(lines@), i as nat) == Ok::<_, (nat, ParsingErrorV)>(bits_view(data@)),
            forall|k: i32| #[trigger] data@.contains_key(k) ==> data@[k].id == k,
        decreases lines@.len() - i,
    {
        let line = &lines[i];
        assert(texts(lines@)[i as int] == line@);
        if !is_blank(line.as_str()) {
            match parse_line(line.as_str()) {
                Ok((id, b)) => {
                    let ghost before = data@;
                    let ghost bits = b.bits@;
                    id_map_insert(&mut data, id, b);
                    assert(bits_view(data@) =~= bits_view(before).insert(id, bits));
                },
                Err(e) => {
                    proof {
                        assert(bitfields_of(texts(lines@), (i + 1) as nat) == Err::<Map<i32, Seq<u8>>, _>((i as nat, e.deep_view())));
                        lemma_bitfields_error_stays(texts(lines@), (i + 1) as nat, lines@.len());
                    }
                    return Err(line_error(e, file, line.as_str(), i));
                },
            }
        }
        i = i + 1;
    }
    assert(texts(lines@).len() == lines@.len());
    Ok(ResourceStorage::new(data))
}

} // verus!
