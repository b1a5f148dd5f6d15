//! The primitive parsers that the HRDF files are read with, on whole `&str`
//! inputs: each returns what is left of the input and the value it read.
use vstd::prelude::*;

use crate::scan::{
    blank_field, finish, i16_field, i32_field, opt_i32_field, result_view, sp_blank_field,
    sp_i16_field, sp_i32_field, sp_map, sp_opt_i32_field, sp_result, sp_str_field, sp_tag,
    sp_then, sp_till_eol, tag_lit, take_str_field, till_eol, IResult, Scan,
};
use crate::text::{chars_of, string_of_all};
use vstd::string::StringExecFns;

verus! {

/// Whether `c` ends a line.
pub fn is_newline(c: char) -> (r: bool)
    ensures
        r == crate::scan::is_newline(c),
{
    c == '\n' || c == '\r'
}

/// The `String` made of the characters of `v`.
pub fn to_string(v: Vec<char>) -> (r: String)
    ensures
        r@ == v@,
{
    string_of_all(v.as_slice())
}

/// Reads exactly `n_chars` characters and trims them.
pub fn string_from_n_chars_parser(n_chars: usize, input: &str) -> (r: IResult<String>)
    ensures
        result_view(r) == sp_result(input@, sp_str_field(input@, 0, n_chars)),
{
    let s = chars_of(input);
    let r = take_str_field(s.as_slice(), 0, n_chars);
    finish(s.as_slice(), r)
}

/// Reads up to the end of the line (not included) and trims it.
pub fn string_till_eol_parser(input: &str) -> (r: IResult<String>)
    ensures
        result_view(r) == sp_result(input@, sp_till_eol(input@, 0)),
{
    let s = chars_of(input);
    let r = till_eol(s.as_slice(), 0);
    finish(s.as_slice(), r)
}

/// Reads exactly `n_digits` characters holding, once trimmed, an `i16`.
pub fn i16_from_n_digits_parser(n_digits: usize, input: &str) -> (r: IResult<i16>)
    ensures
        result_view(r) == sp_result(input@, sp_i16_field(input@, 0, n_digits)),
{
    let s = chars_of(input);
    let r = i16_field(s.as_slice(), 0, n_digits);
    finish(s.as_slice(), r)
}

/// Reads exactly `n_digits` characters holding, once trimmed, an `i32`.
pub fn i32_from_n_digits_parser(n_digits: usize, input: &str) -> (r: IResult<i32>)
    ensures
        result_view(r) == sp_result(input@, sp_i32_field(input@, 0, n_digits)),
{
    let s = chars_of(input);
    let r = i32_field(s.as_slice(), 0, n_digits);
    finish(s.as_slice(), r)
}

/// Reads exactly `n_digits` characters, each a space or `@`: no value.
pub fn exactly_n_spaces_or_at_parser(n_digits: usize, input: &str) -> (r: IResult<Option<i32>>)
    ensures
        result_view(r) == sp_result(
            input@,
            sp_map(sp_blank_field(input@, 0, n_digits), |u: ()| None::<i32>),
        ),
{
    let s = chars_of(input);
    let r = match blank_field(s.as_slice(), 0, n_digits) {
        Scan::Done(_, q) => Scan::Done(None, q),
        Scan::Error => Scan::Error,
        Scan::Incomplete => Scan::Incomplete,
    };
    finish(s.as_slice(), r)
}

/// An optional `i32` field of `n_digits` characters: `None` when they are
/// spaces and `@`, or when they hold no integer (then nothing is read).
pub fn optional_i32_from_n_digits_parser(n_digits: usize, input: &str) -> (r: IResult<Option<i32>>)
    ensures
        result_view(r) == sp_result(input@, sp_opt_i32_field(input@, 0, n_digits)),
{
    let s = chars_of(input);
    let r = opt_i32_field(s.as_slice(), 0, n_digits);
    finish(s.as_slice(), r)
}

/// A direction reference: `R` followed by a 6-character number.
pub open spec fn sp_direction(s: Seq<char>, p: usize) -> Scan<(Seq<char>, i32)> {
    sp_then(
        sp_tag(s, p, "R"@, true),
        |u: (), q: usize| sp_map(sp_i32_field(s, q, 6), |v: i32| ("R"@, v)),
    )
}

pub fn direction_at(s: &[char], p: usize) -> (r: Scan<(String, i32)>)
    requires
        p <= s@.len(),
    ensures
        r.deep_view() == sp_direction(s@, p),
        r matches Scan::Done(_, q) ==> p <= q <= s@.len(),
{
    match tag_lit(s, p, "R", true) {
        Scan::Done(_, q) => match i32_field(s, q, 6) {
            Scan::Done(v, q2) => Scan::Done((String::from_str("R"), v), q2),
            Scan::Error => Scan::Error,
            Scan::Incomplete => Scan::Incomplete,
        },
        Scan::Error => Scan::Error,
        Scan::Incomplete => Scan::Incomplete,
    }
}

/// Reads a direction reference `R` + 6-character number: the prefix and the number.
pub fn direction_parser(input: &str) -> (r: IResult<(String, i32)>)
    ensures
        result_view(r) == sp_result(input@, sp_direction(input@, 0)),
{
    let s = chars_of(input);
    let r = direction_at(s.as_slice(), 0);
    finish(s.as_slice(), r)
}

} // verus!
