//! # Stops (BAHNHOF, BFKOORD_*, BFPRIOS, KMINFO, UMSTEIGB, BHFART)
//!
//! BAHNHOF names each stop, with up to four kinds of designation, each closed
//! by its number: `$<1>` the official name, `$<2>` the long name, `$<3>` the
//! abbreviation and `$<4>` an alternative name:
//!
//! `8500010     Basel SBB$<1>$BS$<3>$Bale$<4>$Basilea FFS$<4>$Bâle CFF$<4>`
//!
//! The other files add to the stops that BAHNHOF names: their coordinates
//! (BFKOORD_LV95, BFKOORD_WGS), their exchange priority (BFPRIOS), their
//! exchange flag (KMINFO), their exchange times (UMSTEIGB, whose stop
//! `9999999` gives the default for all stops) and, in BHFART, their
//! restrictions, their SLOID and the SLOIDs of their boarding areas:
//!
//! `8500010 G a ch:1:sloid:10:3:5`
use vstd::prelude::*;

use crate::error::{HResult, HrdfError, ParsingError, ParsingErrorV};
use crate::models::{
    opt_text, opt_texts, CoordinateSystem, Coordinates, CoordinatesView, Stop, StopView,
};
use crate::parsing::lines::{blank, file_error, fold_lines, is_blank, lemma_fold_lines_error_stays, scan_failure, texts};
use crate::scan::{
    char_lit, finish, i16_number, i32_number, i8_digits, real_number, result_view, run1, sp_char,
    sp_i16_number, sp_i32_number, sp_i8_digits, sp_map, sp_or, sp_real, sp_result, sp_run1,
    sp_tag, sp_take_until, sp_str_field, sp_then, sp_till_eol, tag_lit, take_str_field, take_until,
    till_eol, CharClass, IResult, Scan,
};
use crate::storage::{id_map_insert, id_map_new, id_map_remove, IdMap, ResourceStorage};
use crate::text::chars_of;
use vstd::string::StringExecFns;

verus! {

broadcast use vstd::string::group_string_axioms;

// ------------------------------------------------------------------------------------------
// BAHNHOF
// ------------------------------------------------------------------------------------------

/// `$<`, a number of one or more digits (at most 127), and `>`.
pub open spec fn sp_designation_number(s: Seq<char>, p: usize) -> Scan<i8> {
    sp_then(
        sp_tag(s, p, "$<"@, false),
        |u: (), q: usize|
            sp_then(sp_i8_digits(s, q), |n: i8, q2: usize| sp_map(sp_char(s, q2, '>', false), |u2: ()| n)),
    )
}

/// `$`, a designation up to the next `$<`, and its number.
pub open spec fn sp_other_designation(s: Seq<char>, p: usize) -> Scan<(Seq<char>, i8)> {
    sp_then(
        sp_char(s, p, '$', false),
        |u: (), q: usize|
            sp_then(
                sp_take_until(s, q, "$<"@, false, false),
                |d: Seq<char>, q2: usize| sp_map(sp_designation_number(s, q2), |n: i8| (d, n)),
            ),
    )
}

/// As many further designations as follow `p`, and the position after them.
pub open spec fn sp_other_designations(s: Seq<char>, p: usize) -> (Seq<(Seq<char>, i8)>, usize)
    decreases s.len() - p,
{
    match sp_other_designation(s, p) {
        Scan::Done(x, q) => if p < q <= s.len() {
            let rest = sp_other_designations(s, q);
            (seq![x] + rest.0, rest.1)
        } else {
            (seq![], p)
        },
        _ => (seq![], p),
    }
}

/// The long name, the abbreviation and the alternative names that the further
/// designations give, the last of each number winning; none when a number is
/// not 2, 3 or 4.
pub open spec fn other_names(ds: Seq<(Seq<char>, i8)>) -> Option<
    (Option<Seq<char>>, Option<Seq<char>>, Seq<Seq<char>>),
>
    decreases ds.len(),
{
    if ds.len() == 0 {
        Some((None, None, seq![]))
    } else {
        match other_names(ds.drop_last()) {
            None => None,
            Some((l, a, syn)) => {
                let (d, n) = ds.last();
                if n == 2 {
                    Some((Some(d), a, syn))
                } else if n == 3 {
                    Some((l, Some(d), syn))
                } else if n == 4 {
                    Some((l, a, syn.push(d)))
                } else {
                    None
                }
            },
        }
    }
}

/// What a BAHNHOF row gives: the stop, its name, long name, abbreviation and
/// alternative names.
pub type StationRowView = (i32, Seq<char>, Option<Seq<char>>, Option<Seq<char>>, Option<Seq<Seq<char>>>);

/// The number, whitespace, the name up to `$<1>`, then the further designations.
pub open spec fn sp_station_row(s: Seq<char>) -> Scan<StationRowView> {
    sp_then(
        sp_i32_number(s, 0),
        |id: i32, p1: usize|
            sp_then(
                sp_run1(s, p1, CharClass::Space),
                |w: Seq<char>, p2: usize|
                    sp_then(
                        sp_take_until(s, p2, "$<"@, false, false),
                        |name: Seq<char>, p3: usize|
                            sp_then(
                                sp_designation_number(s, p3),
                                |num: i8, p4: usize|
                                    {
                                        let (ds, p5) = sp_other_designations(s, p4);
                                        if num != 1 {
                                            Scan::Error
                                        } else {
                                            match other_names(ds) {
                                                Some((l, a, syn)) => Scan::Done(
                                                    (
                                                        id,
                                                        name,
                                                        l,
                                                        a,
                                                        if syn.len() == 0 {
                                                            None
                                                        } else {
                                                            Some(syn)
                                                        },
                                                    ),
                                                    p5,
                                                ),
                                                None => Scan::Error,
                                            }
                                        }
                                    },
                            ),
                    ),
            ),
    )
}

/// A row of BAHNHOF.
pub struct StopLine {
    pub stop_id: i32,
    pub designation: String,
    pub long_name: Option<String>,
    pub abbreviation: Option<String>,
    pub synonyms: Option<Vec<String>>,
}

impl DeepView for StopLine {
    type V = StationRowView;

    open spec fn deep_view(&self) -> StationRowView {
        (
            self.stop_id,
            self.designation@,
            opt_text(self.long_name),
            opt_text(self.abbreviation),
            opt_texts(self.synonyms),
        )
    }
}

fn designation_number_at(s: &[char], p: usize) -> (r: Scan<i8>)
    requires
        p <= s@.len(),
    ensures
        r.deep_view() == sp_designation_number(s@, p),
        r matches Scan::Done(_, q) ==> p < q <= s@.len(),
{
    match tag_lit(s, p, "$<", false) {
        Scan::Done(_, q) => match i8_digits(s, q) {
            Scan::Done(n, q2) => match char_lit(s, q2, '>', false) {
                Scan::Done(_, q3) => {
                    proof {
                        reveal_strlit("$<");
                    }
                    Scan::Done(n, q3)
                },
                _ => Scan::Error,
            },
            _ => Scan::Error,
        },
        _ => Scan::Error,
    }
}

fn other_designation_at(s: &[char], p: usize) -> (r: Scan<(String, i8)>)
    requires
        p <= s@.len(),
    ensures
        r.deep_view() == sp_other_designation(s@, p),
        r matches Scan::Done(_, q) ==> p < q <= s@.len(),
{
    match char_lit(s, p, '$', false) {
        Scan::Done(_, q) => match take_until(s, q, "$<", false, false) {
            Scan::Done(d, q2) => match designation_number_at(s, q2) {
                Scan::Done(n, q3) => Scan::Done((d, n), q3),
                _ => Scan::Error,
            },
            _ => Scan::Error,
        },
        _ => Scan::Error,
    }
}

/// The further designations from `p`, and the position after them.
fn other_designations_at(s: &[char], p: usize) -> (r: (Vec<(String, i8)>, usize))
    requires
        p <= s@.len(),
    ensures
        (r.0.deep_view(), r.1) == sp_other_designations(s@, p),
        p <= r.1 <= s@.len(),
{
    let mut found: Vec<(String, i8)> = Vec::new();
    let mut q = p;
    loop
        invariant
            p <= q <= s@.len(),
            sp_other_designations(s@, p) == (found.deep_view() + sp_other_designations(s@, q).0, sp_other_designations(s@, q).1),
        decreases s@.len() - q,
    {
        match other_designation_at(s, q) {
            Scan::Done(x, q2) => {
                let ghost xv = x.deep_view();
                let ghost before = found.deep_view();
                found.push(x);
                assert(found.deep_view() =~= before.push(xv));
                assert(sp_other_designations(s@, q).0 == seq![xv] + sp_other_designations(s@, q2).0);
                assert(before + (seq![xv] + sp_other_designations(s@, q2).0) =~= found.deep_view() + sp_other_designations(s@, q2).0);
                q = q2;
            },
            _ => {
                assert(sp_other_designations(s@, p) == (found.deep_view() + Seq::<(Seq<char>, i8)>::empty(), q));
                assert(found.deep_view() + Seq::<(Seq<char>, i8)>::empty() =~= found.deep_view());
                return (found, q);
            },
        }
    }
}

/// The names that the further designations give.
fn other_names_of(ds: Vec<(String, i8)>) -> (r: Option<(Option<String>, Option<String>, Vec<String>)>)
    ensures
        match (r, other_names(ds.deep_view())) {
            (Some((l, a, syn)), Some((lv, av, synv))) => opt_text(l) == lv && opt_text(a) == av && syn.deep_view() == synv,
            (None, None) => true,
            _ => false,
        },
{
    let ghost dv = ds.deep_view();
    let mut long_name: Option<String> = None;
    let mut abbreviation: Option<String> = None;
    let mut synonyms: Vec<String> = Vec::new();
    let mut i: usize = 0;
    while i < ds.len()
        invariant
            0 <= i <= ds@.len(),
            dv == ds.deep_view(),
            other_names(dv.take(i as int)) matches Some((lv, av, synv)) && opt_text(long_name) == lv
                && opt_text(abbreviation) == av && synonyms.deep_view() == synv,
        decreases ds@.len() - i,
    {
        assert(dv.take(i + 1).drop_last() =~= dv.take(i as int));
        assert(dv.take(i + 1).last() == dv[i as int]);
        let (d, n) = (ds[i].0.clone(), ds[i].1);
        if n == 2 {
            long_name = Some(d);
        } else if n == 3 {
            abbreviation = Some(d);
        } else if n == 4 {
            let ghost before = synonyms.deep_view();
            synonyms.push(d);
            assert(synonyms.deep_view() =~= before.push(dv[i as int].0));
        } else {
            assert(other_names(dv.take(i + 1)) is None);
            proof {
                lemma_other_names_none_stays(dv, i + 1);
            }
            return None;
        }
        i = i + 1;
    }
    assert(dv.take(ds@.len() as int) =~= dv);
    Some((long_name, abbreviation, synonyms))
}

/// Once a number is wrong, the names of a longer list are none too.
proof fn lemma_other_names_none_stays(ds: Seq<(Seq<char>, i8)>, n: int)
    requires
        0 <= n <= ds.len(),
        other_names(ds.take(n)) is None,
    ensures
        other_names(ds) is None,
    decreases ds.len() - n,
{
    if n < ds.len() {
        assert(ds.take(n + 1).drop_last() =~= ds.take(n));
        lemma_other_names_none_stays(ds, n + 1);
    } else {
        assert(ds.take(n) =~= ds);
    }
}

fn station_row_at(s: &[char]) -> (r: Scan<StopLine>)
    ensures
        r.deep_view() == sp_station_row(s@),
        r matches Scan::Done(_, q) ==> q <= s@.len(),
{
    match i32_number(s, 0) {
        Scan::Done(id, p1) => match run1(s, p1, CharClass::Space) {
            Scan::Done(_, p2) => match take_until(s, p2, "$<", false, false) {
                Scan::Done(name, p3) => match designation_number_at(s, p3) {
                    Scan::Done(num, p4) => {
                        let (ds, p5) = other_designations_at(s, p4);
                        if num != 1 {
                            Scan::Error
                        } else {
                            match other_names_of(ds) {
                                Some((long_name, abbreviation, synonyms)) => {
                                    let synonyms = if synonyms.len() == 0 {
                                        None
                                    } else {
                                        Some(synonyms)
                                    };
                                    Scan::Done(
                                        StopLine { stop_id: id, designation: name, long_name, abbreviation, synonyms },
                                        p5,
                                    )
                                },
                                None => Scan::Error,
                            }
                        }
                    },
                    _ => Scan::Error,
                },
                _ => Scan::Error,
            },
            _ => Scan::Error,
        },
        _ => Scan::Error,
    }
}

/// Reads a BAHNHOF row.
pub fn station_combinator(input: &str) -> (r: IResult<StopLine>)
    ensures
        result_view(r) == sp_result(input@, sp_station_row(input@)),
{
    let s = chars_of(input);
    let r = station_row_at(s.as_slice());
    finish(s.as_slice(), r)
}

// ------------------------------------------------------------------------------------------
// BFKOORD_*, BFPRIOS, KMINFO, UMSTEIGB
// ------------------------------------------------------------------------------------------

/// Whitespace (spaces and tabs, at least one), then an `i16`.
pub open spec fn sp_spaced_i16(s: Seq<char>, p: usize) -> Scan<i16> {
    sp_then(sp_run1(s, p, CharClass::Space), |w: Seq<char>, q: usize| sp_i16_number(s, q))
}

/// Whitespace (spaces and tabs, at least one), then a real number.
pub open spec fn sp_spaced_real(s: Seq<char>, p: usize) -> Scan<Seq<char>> {
    sp_then(sp_run1(s, p, CharClass::Space), |w: Seq<char>, q: usize| sp_real(s, q))
}

/// A BFKOORD row: the stop, its two coordinates and its height.
pub open spec fn sp_coordinates_row(s: Seq<char>) -> Scan<(i32, Seq<char>, Seq<char>, Seq<char>)> {
    sp_then(
        sp_i32_number(s, 0),
        |id: i32, p1: usize|
            sp_then(
                sp_spaced_real(s, p1),
                |x: Seq<char>, p2: usize|
                    sp_then(
                        sp_spaced_real(s, p2),
                        |y: Seq<char>, p3: usize| sp_map(sp_spaced_real(s, p3), |h: Seq<char>| (id, x, y, h)),
                    ),
            ),
    )
}

/// A BFPRIOS row: the stop, its priority and its name.
pub open spec fn sp_priority_row(s: Seq<char>) -> Scan<(i32, i16, Seq<char>)> {
    sp_then(
        sp_i32_number(s, 0),
        |id: i32, p1: usize|
            sp_then(
                sp_spaced_i16(s, p1),
                |v: i16, p2: usize|
                    sp_then(
                        sp_run1(s, p2, CharClass::Space),
                        |w: Seq<char>, p3: usize| sp_map(sp_till_eol(s, p3), |name: Seq<char>| (id, v, name)),
                    ),
            ),
    )
}

/// A KMINFO row: the stop and its exchange flag.
pub open spec fn sp_flag_row(s: Seq<char>) -> Scan<(i32, i16)> {
    sp_then(sp_i32_number(s, 0), |id: i32, p1: usize| sp_map(sp_spaced_i16(s, p1), |v: i16| (id, v)))
}

/// An UMSTEIGB row: the stop and its two exchange times.
pub open spec fn sp_exchange_time_row(s: Seq<char>) -> Scan<(i32, i16, i16)> {
    sp_then(
        sp_i32_number(s, 0),
        |id: i32, p1: usize|
            sp_then(
                sp_spaced_i16(s, p1),
                |a: i16, p2: usize| sp_map(sp_spaced_i16(s, p2), |b: i16| (id, a, b)),
            ),
    )
}

fn spaced_i16_at(s: &[char], p: usize) -> (r: Scan<i16>)
    requires
        p <= s@.len(),
    ensures
        r.deep_view() == sp_spaced_i16(s@, p),
        r matches Scan::Done(_, q) ==> p <= q <= s@.len(),
{
    match run1(s, p, CharClass::Space) {
        Scan::Done(_, q) => i16_number(s, q),
        _ => Scan::Error,
    }
}

fn spaced_real_at(s: &[char], p: usize) -> (r: Scan<String>)
    requires
        p <= s@.len(),
    ensures
        r.deep_view() == sp_spaced_real(s@, p),
        r matches Scan::Done(_, q) ==> p <= q <= s@.len(),
{
    match run1(s, p, CharClass::Space) {
        Scan::Done(_, q) => real_number(s, q),
        _ => Scan::Error,
    }
}

/// Reads a BFKOORD row.
pub fn coordinates_combinator(input: &str) -> (r: IResult<(i32, String, String, String)>)
    ensures
        result_view(r) == sp_result(input@, sp_coordinates_row(input@)),
{
    let s = chars_of(input);
    let r = match i32_number(s.as_slice(), 0) {
        Scan::Done(id, p1) => match spaced_real_at(s.as_slice(), p1) {
            Scan::Done(x, p2) => match spaced_real_at(s.as_slice(), p2) {
                Scan::Done(y, p3) => match spaced_real_at(s.as_slice(), p3) {
                    Scan::Done(h, p4) => Scan::Done((id, x, y, h), p4),
                    _ => Scan::Error,
                },
                _ => Scan::Error,
            },
            _ => Scan::Error,
        },
        _ => Scan::Error,
    };
    finish(s.as_slice(), r)
}

/// Reads a BFPRIOS row.
pub fn prios_combinator(input: &str) -> (r: IResult<(i32, i16, String)>)
    ensures
        result_view(r) == sp_result(input@, sp_priority_row(input@)),
{
    let s = chars_of(input);
    let r = match i32_number(s.as_slice(), 0) {
        Scan::Done(id, p1) => match spaced_i16_at(s.as_slice(), p1) {
            Scan::Done(v, p2) => match run1(s.as_slice(), p2, CharClass::Space) {
                Scan::Done(_, p3) => match till_eol(s.as_slice(), p3) {
                    Scan::Done(name, p4) => Scan::Done((id, v, name), p4),
                    _ => Scan::Error,
                },
                _ => Scan::Error,
            },
            _ => Scan::Error,
        },
        _ => Scan::Error,
    };
    finish(s.as_slice(), r)
}

/// Reads a KMINFO row.
pub fn flags_combinator(input: &str) -> (r: IResult<(i32, i16)>)
    ensures
        result_view(r) == sp_result(input@, sp_flag_row(input@)),
{
    let s = chars_of(input);
    let r = match i32_number(s.as_slice(), 0) {
        Scan::Done(id, p1) => match spaced_i16_at(s.as_slice(), p1) {
            Scan::Done(v, p2) => Scan::Done((id, v), p2),
            _ => Scan::Error,
        },
        _ => Scan::Error,
    };
    finish(s.as_slice(), r)
}

/// Reads an UMSTEIGB row.
pub fn times_combinator(input: &str) -> (r: IResult<(i32, i16, i16)>)
    ensures
        result_view(r) == sp_result(input@, sp_exchange_time_row(input@)),
{
    let s = chars_of(input);
    let r = match i32_number(s.as_slice(), 0) {
        Scan::Done(id, p1) => match spaced_i16_at(s.as_slice(), p1) {
            Scan::Done(a, p2) => match spaced_i16_at(s.as_slice(), p2) {
                Scan::Done(b, p3) => Scan::Done((id, a, b), p3),
                _ => Scan::Error,
            },
            _ => Scan::Error,
        },
        _ => Scan::Error,
    };
    finish(s.as_slice(), r)
}

// ------------------------------------------------------------------------------------------
// BHFART
// ------------------------------------------------------------------------------------------

/// A row of BHFART.
pub enum DescriptionLine {
    Comment,
    Restriction { stop_id: i32, restrictions: i16 },
    Sloid { stop_id: i32, sloid: String },
    Boarding { stop_id: i32, sloid: String },
    Country { stop_id: i32, country_code: String },
    Canton { stop_id: i32, canton_id: i32 },
}

pub enum DescriptionLineView {
    Comment,
    Restriction { stop_id: i32, restrictions: i16 },
    Sloid { stop_id: i32, sloid: Seq<char> },
    Boarding { stop_id: i32, sloid: Seq<char> },
    Country { stop_id: i32, country_code: Seq<char> },
    Canton { stop_id: i32, canton_id: i32 },
}

impl DeepView for DescriptionLine {
    type V = DescriptionLineView;

    open spec fn deep_view(&self) -> DescriptionLineView {
        match self {
            DescriptionLine::Comment => DescriptionLineView::Comment,
            DescriptionLine::Restriction { stop_id, restrictions } => DescriptionLineView::Restriction {
                stop_id: *stop_id,
                restrictions: *restrictions,
            },
            DescriptionLine::Sloid { stop_id, sloid } => DescriptionLineView::Sloid { stop_id: *stop_id, sloid: sloid@ },
            DescriptionLine::Boarding { stop_id, sloid } => DescriptionLineView::Boarding {
                stop_id: *stop_id,
                sloid: sloid@,
            },
            DescriptionLine::Country { stop_id, country_code } => DescriptionLineView::Country {
                stop_id: *stop_id,
                country_code: country_code@,
            },
            DescriptionLine::Canton { stop_id, canton_id } => DescriptionLineView::Canton {
                stop_id: *stop_id,
                canton_id: *canton_id,
            },
        }
    }
}

/// The stop number, whitespace, the code `t` and whitespace.
pub open spec fn sp_keyed(s: Seq<char>, t: Seq<char>) -> Scan<i32> {
    sp_then(
        sp_i32_number(s, 0),
        |id: i32, p1: usize|
            sp_then(
                sp_run1(s, p1, CharClass::Space),
                |w: Seq<char>, p2: usize|
                    sp_then(
                        sp_tag(s, p2, t, false),
                        |u: (), p3: usize| sp_map(sp_run1(s, p3, CharClass::Space), |w2: Seq<char>| id),
                    ),
            ),
    )
}

/// A BHFART row, the first of these kinds that matches: a comment (`%`),
/// restrictions (`B`), the stop's SLOID (`G A`), a boarding area's SLOID
/// (`G a`), a country (`L`, two characters) or a canton (`I KT`).
pub open spec fn sp_description_row(s: Seq<char>) -> Scan<DescriptionLineView> {
    sp_or(
        sp_map(sp_tag(s, 0, "%"@, false), |u: ()| DescriptionLineView::Comment),
        sp_or(
            sp_then(
                sp_keyed(s, "B"@),
                |id: i32, q: usize|
                    sp_map(
                        sp_i16_number(s, q),
                        |v: i16| DescriptionLineView::Restriction { stop_id: id, restrictions: v },
                    ),
            ),
            sp_or(
                sp_then(
                    sp_keyed(s, "G A"@),
                    |id: i32, q: usize|
                        sp_map(sp_till_eol(s, q), |t: Seq<char>| DescriptionLineView::Sloid { stop_id: id, sloid: t }),
                ),
                sp_or(
                    sp_then(
                        sp_keyed(s, "G a"@),
                        |id: i32, q: usize|
                            sp_map(
                                sp_till_eol(s, q),
                                |t: Seq<char>| DescriptionLineView::Boarding { stop_id: id, sloid: t },
                            ),
                    ),
                    sp_or(
                        sp_then(
                            sp_keyed(s, "L"@),
                            |id: i32, q: usize|
                                sp_map(
                                    sp_str_field(s, q, 2),
                                    |t: Seq<char>| DescriptionLineView::Country { stop_id: id, country_code: t },
                                ),
                        ),
                        sp_then(
                            sp_keyed(s, "I KT"@),
                            |id: i32, q: usize|
                                sp_map(
                                    sp_i32_number(s, q),
                                    |v: i32| DescriptionLineView::Canton { stop_id: id, canton_id: v },
                                ),
                        ),
                    ),
                ),
            ),
        ),
    )
}

fn keyed_at(s: &[char], t: &str) -> (r: Scan<i32>)
    ensures
        r.deep_view() == sp_keyed(s@, t@),
        r matches Scan::Done(_, q) ==> q <= s@.len(),
{
    match i32_number(s, 0) {
        Scan::Done(id, p1) => match run1(s, p1, CharClass::Space) {
            Scan::Done(_, p2) => match tag_lit(s, p2, t, false) {
                Scan::Done(_, p3) => match run1(s, p3, CharClass::Space) {
                    Scan::Done(_, p4) => Scan::Done(id, p4),
                    _ => Scan::Error,
                },
                _ => Scan::Error,
            },
            _ => Scan::Error,
        },
        _ => Scan::Error,
    }
}

fn description_row_at(s: &[char]) -> (r: Scan<DescriptionLine>)
    ensures
        r.deep_view() == sp_description_row(s@),
        r matches Scan::Done(_, q) ==> q <= s@.len(),
{
    if let Scan::Done(_, q) = tag_lit(s, 0, "%", false) {
        return Scan::Done(DescriptionLine::Comment, q);
    }
    match keyed_at(s, "B") {
        Scan::Done(id, q) => match i16_number(s, q) {
            Scan::Done(v, q2) => {
                return Scan::Done(DescriptionLine::Restriction { stop_id: id, restrictions: v }, q2);
            },
            _ => {},
        },
        _ => {},
    }
    match keyed_at(s, "G A") {
        Scan::Done(id, q) => match till_eol(s, q) {
            Scan::Done(t, q2) => {
                return Scan::Done(DescriptionLine::Sloid { stop_id: id, sloid: t }, q2);
            },
            _ => {},
        },
        _ => {},
    }
    match keyed_at(s, "G a") {
        Scan::Done(id, q) => match till_eol(s, q) {
            Scan::Done(t, q2) => {
                return Scan::Done(DescriptionLine::Boarding { stop_id: id, sloid: t }, q2);
            },
            _ => {},
        },
        _ => {},
    }
    match keyed_at(s, "L") {
        Scan::Done(id, q) => match take_str_field(s, q, 2) {
            Scan::Done(t, q2) => {
                return Scan::Done(DescriptionLine::Country { stop_id: id, country_code: t }, q2);
            },
            Scan::Incomplete => {
                return Scan::Incomplete;
            },
            Scan::Error => {},
        },
        _ => {},
    }
    match keyed_at(s, "I KT") {
        Scan::Done(id, q) => match i32_number(s, q) {
            Scan::Done(v, q2) => Scan::Done(DescriptionLine::Canton { stop_id: id, canton_id: v }, q2),
            _ => Scan::Error,
        },
        _ => Scan::Error,
    }
}

/// Reads a BHFART row.
pub fn description_combinator(input: &str) -> (r: IResult<DescriptionLine>)
    ensures
        result_view(r) == sp_result(input@, sp_description_row(input@)),
{
    let s = chars_of(input);
    let r = description_row_at(s.as_slice());
    finish(s.as_slice(), r)
}

// ------------------------------------------------------------------------------------------
// The stops that the files give
// ------------------------------------------------------------------------------------------

/// The stop files, each changing the stops in its own way.
#[derive(Clone, Copy)]
pub enum StopFile {
    /// BAHNHOF: each row names a stop.
    Stations,
    /// BFKOORD_LV95 or BFKOORD_WGS: each row locates a stop.
    Coordinates(CoordinateSystem),
    /// BFPRIOS: each row gives a stop's exchange priority.
    Priorities,
    /// KMINFO: each row gives a stop's exchange flag.
    Flags,
    /// UMSTEIGB: each row gives a stop's exchange times, or the default.
    ExchangeTimes,
    /// BHFART: restrictions, SLOIDs and boarding areas.
    Descriptions,
}

pub open spec fn stops_view(m: Map<i32, Stop>) -> Map<i32, StopView> {
    m.map_values(|x: Stop| x.deep_view())
}

/// The stops, and the default exchange times once UMSTEIGB has given them.
pub type StopsState = (Map<i32, StopView>, Option<(i16, i16)>);

/// The stop `v` once located at (`x`, `y`) in `cs`; the WGS84 files
/// write the latitude first, so its two coordinates are swapped.
pub open spec fn located(v: StopView, cs: CoordinateSystem, x: Seq<char>, y: Seq<char>) -> StopView {
    match cs {
        CoordinateSystem::LV95 => StopView {
            lv95_coordinates: Some(CoordinatesView { coordinate_system: cs, x, y }),
            ..v
        },
        CoordinateSystem::WGS84 => StopView {
            wgs84_coordinates: Some(CoordinatesView { coordinate_system: cs, x: y, y: x }),
            ..v
        },
    }
}

/// The stops once a BHFART row is applied; a row about a stop that BAHNHOF
/// does not name changes nothing.
pub open spec fn described(m: Map<i32, StopView>, d: DescriptionLineView) -> Map<i32, StopView> {
    match d {
        DescriptionLineView::Restriction { stop_id, restrictions } => if m.contains_key(stop_id) {
            m.insert(stop_id, StopView { restrictions, ..m[stop_id] })
        } else {
            m
        },
        DescriptionLineView::Sloid { stop_id, sloid } => if m.contains_key(stop_id) {
            m.insert(stop_id, StopView { sloid, ..m[stop_id] })
        } else {
            m
        },
        DescriptionLineView::Boarding { stop_id, sloid } => if m.contains_key(stop_id) {
            m.insert(stop_id, StopView { boarding_areas: m[stop_id].boarding_areas.push(sloid), ..m[stop_id] })
        } else {
            m
        },
        _ => m,
    }
}

/// The stop number of UMSTEIGB's row of default exchange times.
pub const DEFAULT_EXCHANGE_TIME_STOP: i32 = 9999999;

/// What a line of a stop file of kind `kind` makes of `st`, or why it does not read.
#[verifier::opaque]
pub open spec fn stop_step(kind: StopFile, st: StopsState, line: Seq<char>) -> Result<StopsState, ParsingErrorV> {
    let (m, default) = st;
    match kind {
        StopFile::Stations => match sp_station_row(line) {
            Scan::Done((id, name, l, a, syn), _) => Ok((m.insert(id, StopView::fresh(id, name, l, a, syn)), default)),
            r => Err(ParsingErrorV::Syntax(scan_failure(r))),
        },
        StopFile::Coordinates(cs) => match sp_coordinates_row(line) {
            Scan::Done((id, x, y, _), _) => if m.contains_key(id) {
                Ok((m.insert(id, located(m[id], cs, x, y)), default))
            } else {
                Err(ParsingErrorV::UnknownStop(id))
            },
            r => Err(ParsingErrorV::Syntax(scan_failure(r))),
        },
        StopFile::Priorities => match sp_priority_row(line) {
            Scan::Done((id, v, _), _) => if m.contains_key(id) {
                Ok((m.insert(id, StopView { exchange_priority: v, ..m[id] }), default))
            } else {
                Err(ParsingErrorV::UnknownStop(id))
            },
            r => Err(ParsingErrorV::Syntax(scan_failure(r))),
        },
        StopFile::Flags => match sp_flag_row(line) {
            Scan::Done((id, v), _) => if m.contains_key(id) {
                Ok((m.insert(id, StopView { exchange_flag: v, ..m[id] }), default))
            } else {
                Err(ParsingErrorV::UnknownStop(id))
            },
            r => Err(ParsingErrorV::Syntax(scan_failure(r))),
        },
        StopFile::ExchangeTimes => match sp_exchange_time_row(line) {
            Scan::Done((id, a, b), _) => if id == DEFAULT_EXCHANGE_TIME_STOP {
                Ok(
                    (
                        m,
                        if default is Some {
                            default
                        } else {
                            Some((a, b))
                        },
                    ),
                )
            } else if m.contains_key(id) {
                Ok((m.insert(id, StopView { exchange_time: Some((a, b)), ..m[id] }), default))
            } else {
                Err(ParsingErrorV::UnknownExchangeStop(id))
            },
            r => Err(ParsingErrorV::Syntax(scan_failure(r))),
        },
        StopFile::Descriptions => match sp_description_row(line) {
            Scan::Done(d, _) => Ok((described(m, d), default)),
            r => Err(ParsingErrorV::Syntax(scan_failure(r))),
        },
    }
}

/// A row of UMSTEIGB is a stop number and then two times, the inter-city
/// exchange time first and the other second.  Both are kept as the pair
/// (first, second), in the order written: on the row of stop `9999999` as the
/// default, unless one is known already, and otherwise as the exchange time of
/// a known stop, the other stops and the default staying as they were.
pub proof fn lemma_exchange_times_in_order(
    st: StopsState,
    line: Seq<char>,
    id: i32,
    p1: usize,
    first: i16,
    p2: usize,
    second: i16,
    p3: usize,
)
    requires
        sp_i32_number(line, 0) == Scan::Done(id, p1),
        sp_spaced_i16(line, p1) == Scan::Done(first, p2),
        sp_spaced_i16(line, p2) == Scan::Done(second, p3),
    ensures
        id == 9999999 ==> (stop_step(StopFile::ExchangeTimes, st, line) matches Ok((m, d)) && m == st.0 && (
        st.1 is None ==> d == Some((first, second))) && (st.1 is Some ==> d == st.1)),
        id != 9999999 && st.0.contains_key(id) ==> (stop_step(StopFile::ExchangeTimes, st, line) matches Ok((m, d))
            && d == st.1 && m.dom() == st.0.dom() && m[id].exchange_time == Some((first, second)) && (forall|k: i32|
            k != id && #[trigger] m.contains_key(k) ==> m[k] == st.0[k])),
{
    reveal(stop_step);
    assert(sp_exchange_time_row(line) == Scan::Done((id, first, second), p3));
    if id != 9999999 && st.0.contains_key(id) {
        let m = st.0.insert(id, StopView { exchange_time: Some((first, second)), ..st.0[id] });
        assert(m.dom() =~= st.0.dom());
    }
}

proof fn lemma_stops_view_insert(m: Map<i32, Stop>, k: i32, v: Stop)
    ensures
        stops_view(m.insert(k, v)) == stops_view(m).insert(k, v.deep_view()),
{
    assert(stops_view(m.insert(k, v)) =~= stops_view(m).insert(k, v.deep_view()));
}

proof fn lemma_stops_view_replace(m: Map<i32, Stop>, k: i32, v: Stop)
    requires
        m.contains_key(k),
    ensures
        stops_view(m.remove(k).insert(k, v)) == stops_view(m).insert(k, v.deep_view()),
{
    assert(stops_view(m.remove(k).insert(k, v)) =~= stops_view(m).insert(k, v.deep_view()));
}

/// Takes the stop `id` out of `stops`, to be put back changed.
fn take_stop(stops: &mut IdMap<Stop>, id: i32) -> (r: Option<Stop>)
    ensures
        final(stops)@ == old(stops)@.remove(id),
        r == (if old(stops)@.contains_key(id) { Some(old(stops)@[id]) } else { None }),
{
    id_map_remove(stops, id)
}

/// Applies a line of a stop file of kind `kind`.  On an error nothing changes.
pub fn parse_line(
    kind: StopFile,
    line: &str,
    stops: &mut IdMap<Stop>,
    default_exchange_time: &mut Option<(i16, i16)>,
) -> (r: Result<(), ParsingError>)
    ensures
        match stop_step(kind, (stops_view(old(stops)@), *old(default_exchange_time)), line@) {
            Ok(st) => r is Ok && stops_view(final(stops)@) == st.0 && *final(default_exchange_time) == st.1,
            Err(e) => r matches Err(x) && x.deep_view() == e && final(stops)@ == old(stops)@
                && *final(default_exchange_time) == *old(default_exchange_time),
        },
{
    reveal(stop_step);
    let ghost m0 = stops@;
    match kind {
        StopFile::Stations => match station_combinator(line) {
            Ok((_, row)) => {
                let id = row.stop_id;
                let stop = Stop::new(id, row.designation, row.long_name, row.abbreviation, row.synonyms);
                proof {
                    lemma_stops_view_insert(m0, id, stop);
                }
                id_map_insert(stops, id, stop);
                Ok(())
            },
            Err(e) => Err(ParsingError::Syntax(e)),
        },
        StopFile::Coordinates(cs) => match coordinates_combinator(line) {
            Ok((_, (id, x, y, _))) => match take_stop(stops, id) {
                Some(mut stop) => {
                    let ghost before = stop.deep_view();
                    match cs {
                        CoordinateSystem::LV95 => {
                            stop.lv95_coordinates = Some(Coordinates::new(cs, x, y));
                        },
                        CoordinateSystem::WGS84 => {
                            stop.wgs84_coordinates = Some(Coordinates::new(cs, y, x));
                        },
                    }
                    proof {
                        lemma_stops_view_replace(m0, id, stop);
                    }
                    id_map_insert(stops, id, stop);
                    Ok(())
                },
                None => {
                    assert(m0.remove(id) =~= m0);
                    Err(ParsingError::UnknownStop(id))
                },
            },
            Err(e) => Err(ParsingError::Syntax(e)),
        },
        StopFile::Priorities => match prios_combinator(line) {
            Ok((_, (id, v, _))) => match take_stop(stops, id) {
                Some(mut stop) => {
                    stop.exchange_priority = v;
                    proof {
                        lemma_stops_view_replace(m0, id, stop);
                    }
                    id_map_insert(stops, id, stop);
                    Ok(())
                },
                None => {
                    assert(m0.remove(id) =~= m0);
                    Err(ParsingError::UnknownStop(id))
                },
            },
            Err(e) => Err(ParsingError::Syntax(e)),
        },
        StopFile::Flags => match flags_combinator(line) {
            Ok((_, (id, v))) => match take_stop(stops, id) {
                Some(mut stop) => {
                    stop.exchange_flag = v;
                    proof {
                        lemma_stops_view_replace(m0, id, stop);
                    }
                    id_map_insert(stops, id, stop);
                    Ok(())
                },
                None => {
                    assert(m0.remove(id) =~= m0);
                    Err(ParsingError::UnknownStop(id))
                },
            },
            Err(e) => Err(ParsingError::Syntax(e)),
        },
        StopFile::ExchangeTimes => match times_combinator(line) {
            Ok((_, (id, a, b))) => {
                if id == DEFAULT_EXCHANGE_TIME_STOP {
                    if default_exchange_time.is_none() {
                        *default_exchange_time = Some((a, b));
                    }
                    Ok(())
                } else {
                    match take_stop(stops, id) {
                        Some(mut stop) => {
                            stop.exchange_time = Some((a, b));
                            proof {
                                lemma_stops_view_replace(m0, id, stop);
                            }
                            id_map_insert(stops, id, stop);
                            Ok(())
                        },
                        None => {
                            assert(m0.remove(id) =~= m0);
                            Err(ParsingError::UnknownExchangeStop(id))
                        },
                    }
                }
            },
            Err(e) => Err(ParsingError::Syntax(e)),
        },
        StopFile::Descriptions => match description_combinator(line) {
            Ok((_, row)) => {
                describe(stops, row);
                Ok(())
            },
            Err(e) => Err(ParsingError::Syntax(e)),
        },
    }
}

/// Applies a BHFART row.
fn describe(stops: &mut IdMap<Stop>, row: DescriptionLine)
    ensures
        stops_view(final(stops)@) == described(stops_view(old(stops)@), row.deep_view()),
{
    let ghost m0 = stops@;
    match row {
        DescriptionLine::Restriction { stop_id, restrictions } => match take_stop(stops, stop_id) {
            Some(mut stop) => {
                stop.restrictions = restrictions;
                proof {
                    lemma_stops_view_replace(m0, stop_id, stop);
                }
                id_map_insert(stops, stop_id, stop);
            },
            None => {
                assert(m0.remove(stop_id) =~= m0);
            },
        },
        DescriptionLine::Sloid { stop_id, sloid } => match take_stop(stops, stop_id) {
            Some(mut stop) => {
                stop.sloid = sloid;
                proof {
                    lemma_stops_view_replace(m0, stop_id, stop);
                }
                id_map_insert(stops, stop_id, stop);
            },
            None => {
                assert(m0.remove(stop_id) =~= m0);
            },
        },
        DescriptionLine::Boarding { stop_id, sloid } => match take_stop(stops, stop_id) {
            Some(mut stop) => {
                stop.add_boarding_area(sloid);
                proof {
                    lemma_stops_view_replace(m0, stop_id, stop);
                }
                id_map_insert(stops, stop_id, stop);
            },
            None => {
                assert(m0.remove(stop_id) =~= m0);
            },
        },
        _ => {},
    }
}

/// What the non-blank lines of a stop file of kind `kind` make of `st`: the
/// lines apply in turn, and the first one that does not read ends the file.
pub open spec fn stop_file(kind: StopFile, st: StopsState, lines: Seq<Seq<char>>) -> Result<
    StopsState,
    (nat, ParsingErrorV),
> {
    fold_lines(st, lines, lines.len(), stepper(kind))
}

/// The lines of a stop file of kind `kind` each change the stops by this.
pub open spec fn stepper(kind: StopFile) -> spec_fn(StopsState, Seq<char>) -> Result<StopsState, ParsingErrorV> {
    |s: StopsState, l: Seq<char>| stop_step(kind, s, l)
}

/// Applies the lines of the stop file `file` of kind `kind`.
pub fn parse_file(
    kind: StopFile,
    file: &str,
    lines: &Vec<String>,
    stops: &mut IdMap<Stop>,
    default_exchange_time: &mut Option<(i16, i16)>,
) -> (r: HResult<()>)
    ensures
        match stop_file(kind, (stops_view(old(stops)@), *old(default_exchange_time)), texts(lines@)) {
            Ok(st) => r is Ok && stops_view(final(stops)@) == st.0 && *final(default_exchange_time) == st.1,
            Err((n, why)) => file_error(r->Err_0, why, file@, lines@[n as int]@, n) && r is Err,
        },
{
    assert(texts(lines@).len() == lines@.len());
    let ghost step = stepper(kind);
    let ghost start = (stops_view(stops@), *default_exchange_time);
    let mut i: usize = 0;
    while i < lines.len()
        invariant
            0 <= i <= lines@.len(),
            step == stepper(kind),
            start == (stops_view(old(stops)@), *old(default_exchange_time)),
            texts(lines@).len() == lines@.len(),
            fold_lines(start, texts(lines@), i as nat, step) == Ok::<_, (nat, ParsingErrorV)>(
                (stops_view(stops@), *default_exchange_time),
            ),
        decreases lines@.len() - i,
    {
        let line = &lines[i];
        assert(texts(lines@)[i as int] == line@);
        if !is_blank(line.as_str()) {
            match parse_line(kind, line.as_str(), stops, default_exchange_time) {
                Ok(()) => {},
                Err(e) => {
                    assert(fold_lines(start, texts(lines@), (i + 1) as nat, step) == Err::<StopsState, _>((i as nat, e.deep_view())));
                    proof {
                        lemma_fold_lines_error_stays(start, texts(lines@), (i + 1) as nat, lines@.len(), step);
                    }
                    return Err(
                        HrdfError::Parsing {
                            error: e,
                            file: String::from_str(file),
                            line: line.clone(),
                            line_number: i,
                        },
                    );
                },
            }
        }
        i = i + 1;
    }
    assert(texts(lines@).len() == lines@.len());
    Ok(())
}

/// The kinds of the stop files, in the order they are read.
pub open spec fn stop_file_kinds() -> Seq<StopFile> {
    seq![
        StopFile::Stations,
        StopFile::Coordinates(CoordinateSystem::LV95),
        StopFile::Coordinates(CoordinateSystem::WGS84),
        StopFile::Priorities,
        StopFile::Flags,
        StopFile::ExchangeTimes,
        StopFile::Descriptions,
    ]
}

/// The lines of each file, as texts.
pub open spec fn sources_texts(sources: Seq<(String, Vec<String>)>) -> Seq<Seq<Seq<char>>> {
    sources.map_values(|f: (String, Vec<String>)| texts(f.1@))
}

/// What the first `k` stop files make of no stops: the stops, or the file,
/// the line and why it does not read.
pub open spec fn stop_files(files: Seq<Seq<Seq<char>>>, k: nat) -> Result<StopsState, (nat, nat, ParsingErrorV)>
    decreases k,
{
    if k == 0 {
        Ok((Map::empty(), None))
    } else {
        match stop_files(files, (k - 1) as nat) {
            Err(e) => Err(e),
            Ok(st) => match stop_file(stop_file_kinds()[k - 1], st, files[k - 1]) {
                Ok(st2) => Ok(st2),
                Err((n, why)) => Err(((k - 1) as nat, n, why)),
            },
        }
    }
}

/// Why the stop files give no stops.
pub enum StopsFailure {
    /// Line `line` of file `file` does not read.
    Line { file: nat, line: nat, why: ParsingErrorV },
    /// UMSTEIGB gives no default exchange times.
    MissingDefaultExchangeTime,
}

/// The stops and the default exchange times that the seven stop files give,
/// read in the order of `stop_file_kinds`: the default must be known once
/// UMSTEIGB is read.
pub open spec fn stops_from(files: Seq<Seq<Seq<char>>>) -> Result<(Map<i32, StopView>, (i16, i16)), StopsFailure> {
    match stop_files(files, 6) {
        Err((f, n, why)) => Err(StopsFailure::Line { file: f, line: n, why }),
        Ok((m, default)) => match default {
            None => Err(StopsFailure::MissingDefaultExchangeTime),
            Some(t) => match stop_file(StopFile::Descriptions, (m, default), files[6]) {
                Ok((m2, _)) => Ok((m2, t)),
                Err((n, why)) => Err(StopsFailure::Line { file: 6, line: n, why }),
            },
        },
    }
}

/// Reads the stops from the seven stop files, each given by its name and
/// lines: BAHNHOF, BFKOORD_LV95, BFKOORD_WGS, BFPRIOS, KMINFO, UMSTEIGB and
/// BHFART (or BHFART_60).  Gives the stops and the default exchange times.
pub fn parse(sources: &Vec<(String, Vec<String>)>) -> (r: HResult<(ResourceStorage<Stop>, (i16, i16))>)
    requires
        sources@.len() == 7,
    ensures
        match (r, stops_from(sources_texts(sources@))) {
            (Ok((st, t)), Ok((m, t2))) => stops_view(st.view()) == m && t == t2,
            (Err(e), Err(StopsFailure::Line { file, line, why })) => file_error(
                e,
                why,
                sources@[file as int].0@,
                sources@[file as int].1@[line as int]@,
                line,
            ),
            (Err(e), Err(StopsFailure::MissingDefaultExchangeTime)) => e is MissingDefaultExchangeTime,
            _ => false,
        },
{
    let ghost files = sources_texts(sources@);
    let mut stops: IdMap<Stop> = id_map_new();
    let mut default_exchange_time: Option<(i16, i16)> = None;
    assert(stops_view(stops@) =~= Map::empty());
    let kinds = [
        StopFile::Stations,
        StopFile::Coordinates(CoordinateSystem::LV95),
        StopFile::Coordinates(CoordinateSystem::WGS84),
        StopFile::Priorities,
        StopFile::Flags,
        StopFile::ExchangeTimes,
    ];
    assert(kinds@ =~= stop_file_kinds().take(6));
    let mut k: usize = 0;
    while k < 6
        invariant
            0 <= k <= 6,
            sources@.len() == 7,
            files == sources_texts(sources@),
            kinds@ == stop_file_kinds().take(6),
            stop_files(files, k as nat) == Ok::<_, (nat, nat, ParsingErrorV)>((stops_view(stops@), default_exchange_time)),
        decreases 6 - k,
    {
        let (file, lines) = (&sources[k].0, &sources[k].1);
        assert(files[k as int] == texts(lines@));
        assert(kinds@[k as int] == stop_file_kinds()[k as int]);
        match parse_file(kinds[k], file.as_str(), lines, &mut stops, &mut default_exchange_time) {
            Ok(()) => {},
            Err(e) => {
                proof {
                    lemma_stop_files_error_stays(files, (k + 1) as nat, 6);
                }
                return Err(e);
            },
        }
        k = k + 1;
    }
    let t = match default_exchange_time {
        Some(t) => t,
        None => {
            return Err(HrdfError::MissingDefaultExchangeTime);
        },
    };
    let (file, lines) = (&sources[6].0, &sources[6].1);
    assert(files[6] == texts(lines@));
    match parse_file(StopFile::Descriptions, file.as_str(), lines, &mut stops, &mut default_exchange_time) {
        Ok(()) => Ok((ResourceStorage::new(stops), t)),
        Err(e) => Err(e),
    }
}

/// Once a stop file does not read, the later ones change nothing.
proof fn lemma_stop_files_error_stays(files: Seq<Seq<Seq<char>>>, k: nat, m: nat)
    requires
        k <= m,
        stop_files(files, k) is Err,
    ensures
        stop_files(files, m) == stop_files(files, k),
    decreases m - k,
{
    if k < m {
        lemma_stop_files_error_stays(files, k, (m - 1) as nat);
    }
}

/// Each stop is under its own number.
pub open spec fn stops_keyed(m: Map<i32, StopView>) -> bool {
    forall|id: i32| #[trigger] m.contains_key(id) ==> m[id].id == id
}

proof fn lemma_stop_step_keyed(kind: StopFile, st: StopsState, line: Seq<char>)
    requires
        stops_keyed(st.0),
    ensures
        stop_step(kind, st, line) matches Ok(st2) ==> stops_keyed(st2.0),
{
    reveal(stop_step);
}

proof fn lemma_stop_file_keyed(kind: StopFile, st: StopsState, lines: Seq<Seq<char>>, n: nat)
    requires
        stops_keyed(st.0),
    ensures
        fold_lines(st, lines, n, stepper(kind)) matches Ok(st2) ==> stops_keyed(st2.0),
    decreases n,
{
    if n > 0 {
        lemma_stop_file_keyed(kind, st, lines, (n - 1) as nat);
        match fold_lines(st, lines, (n - 1) as nat, stepper(kind)) {
            Ok(s1) => {
                lemma_stop_step_keyed(kind, s1, lines[n - 1]);
            },
            Err(_) => {},
        }
    }
}

proof fn lemma_stop_files_keyed(files: Seq<Seq<Seq<char>>>, k: nat)
    requires
        k <= 7,
    ensures
        stop_files(files, k) matches Ok(st) ==> stops_keyed(st.0),
    decreases k,
{
    if k > 0 {
        lemma_stop_files_keyed(files, (k - 1) as nat);
        match stop_files(files, (k - 1) as nat) {
            Ok(st) => {
                lemma_stop_file_keyed(stop_file_kinds()[k - 1], st, files[k - 1], files[k - 1].len());
            },
            Err(_) => {},
        }
    }
}

/// Each stop that the stop files give is under its own number.
pub proof fn lemma_stops_keyed(files: Seq<Seq<Seq<char>>>)
    ensures
        stops_from(files) matches Ok((m, _)) ==> stops_keyed(m),
{
    lemma_stop_files_keyed(files, 6);
    match stop_files(files, 6) {
        Ok(st) => {
            lemma_stop_file_keyed(StopFile::Descriptions, st, files[6], files[6].len());
        },
        Err(_) => {},
    }
}

proof fn lemma_stop_step_keeps_stops(kind: StopFile, st: StopsState, line: Seq<char>)
    requires
        kind != StopFile::Stations,
    ensures
        stop_step(kind, st, line) matches Ok(st2) ==> st2.0.dom() == st.0.dom(),
{
    reveal(stop_step);
    match stop_step(kind, st, line) {
        Ok(st2) => {
            match kind {
                StopFile::Descriptions => {
                    match sp_description_row(line) {
                        Scan::Done(d, _) => {
                            assert(described(st.0, d).dom() =~= st.0.dom());
                        },
                        _ => {},
                    }
                },
                _ => {
                    assert(st2.0.dom() =~= st.0.dom());
                },
            }
        },
        Err(_) => {},
    }
}

proof fn lemma_stop_file_keeps_stops(kind: StopFile, st: StopsState, lines: Seq<Seq<char>>, n: nat)
    requires
        kind != StopFile::Stations,
    ensures
        fold_lines(st, lines, n, stepper(kind)) matches Ok(st2) ==> st2.0.dom() == st.0.dom(),
    decreases n,
{
    if n > 0 {
        lemma_stop_file_keeps_stops(kind, st, lines, (n - 1) as nat);
        match fold_lines(st, lines, (n - 1) as nat, stepper(kind)) {
            Ok(s1) => {
                lemma_stop_step_keeps_stops(kind, s1, lines[n - 1]);
            },
            Err(_) => {},
        }
    }
}

proof fn lemma_stop_files_keep_stops(files: Seq<Seq<Seq<char>>>, k: nat)
    requires
        1 <= k <= 6,
    ensures
        stop_files(files, k) matches Ok(st) ==> stop_files(files, 1) matches Ok(st1) && st.0.dom() == st1.0.dom(),
    decreases k,
{
    if k > 1 {
        lemma_stop_files_keep_stops(files, (k - 1) as nat);
        match stop_files(files, (k - 1) as nat) {
            Ok(st) => {
                assert(stop_file_kinds()[k - 1] != StopFile::Stations);
                lemma_stop_file_keeps_stops(stop_file_kinds()[k - 1], st, files[k - 1], files[k - 1].len());
            },
            Err(_) => {},
        }
    }
}

/// Only BAHNHOF names stops: the other files change the stops it names and
/// add none.
pub proof fn lemma_only_stations_name_stops(files: Seq<Seq<Seq<char>>>)
    ensures
        stops_from(files) matches Ok((m, _)) ==> stop_files(files, 1) matches Ok(st1) && m.dom() == st1.0.dom(),
{
    lemma_stop_files_keep_stops(files, 6);
    match stop_files(files, 6) {
        Ok(st) => {
            lemma_stop_file_keeps_stops(StopFile::Descriptions, st, files[6], files[6].len());
        },
        Err(_) => {},
    }
}

} // verus!
