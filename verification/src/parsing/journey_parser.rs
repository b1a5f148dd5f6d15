//! # Journey parsing (FPLAN)
//!
//! The list of journeys, by far the largest file of an HRDF export.  A journey
//! starts with a `*Z` row; the rows after it, up to the next `*Z`, add to it:
//!
//! - `*G`: the offer category (transport type) between two stops;
//! - `*A VE`: the validity (bit field) between two stops;
//! - `*A`: an attribute (offer) between two stops;
//! - `*I`: an information text;
//! - `*L`: the line, or a reference `#n` to one;
//! - `*R`: the direction (`H` forward, `R` backward), with a reference to a
//!   direction text;
//! - `*CI` / `*CO`: check-in / check-out minutes;
//! - and, without a tag, the stops with their arrival and departure times.
//!
//! `*Z 002359 000011   101` starts journey 2359 of company `000011`.
use vstd::prelude::*;

use crate::calendar::Time;
use crate::error::{HResult, HrdfError, ParsingError, ParsingErrorV};
use crate::layout::{
    sp_field, fields_at, int_at, int_of, opt_at, opt_of, sp_fields, text_at, text_of, Field, Sep, Value,
    ValueV,
};
use crate::models::{
    Journey, JourneyMetadataEntry, JourneyMetadataEntryView, JourneyMetadataType,
    JourneyRouteEntry, JourneyView,
};
use crate::parsing::lines::{file_error, blank, is_blank, scan_failure};
use crate::scan::{
    char_lit, finish, result_view, sp_char, sp_map, sp_or, sp_result, sp_str_field, sp_tag,
    sp_then, sp_int_field, sp_take, tag_lit, take_str_field, IResult, Scan, ScanError,
};
use crate::helpers::{direction_at, sp_direction};
use crate::storage::{
    id_map_get, id_map_insert, id_map_new, id_map_remove, journey_set_insert, journey_set_new,
    keyed, keyed_set, text_map_get, IdMap, ResourceStorage, TextMap,
};
use crate::text::{
    chars_of, decimal_value, int_to_string, is_digit, is_ws, joined, parse_in_range, parse_int_in, signed_decimal,
    trim, trim_end, trim_start,
};
use crate::utils::{create_time_from_value, AutoIncrement};
use rustc_hash::FxHashSet;
use vstd::string::StringExecFns;

verus! {

broadcast use vstd::string::group_string_axioms;

/// The rows of the file.
#[derive(Debug)]
pub enum JourneyLines {
    Zline {
        journey_id: i32,
        transport_company_id: String,
        transport_variant: i32,
        num_cycles: Option<i32>,
        cycle_dura_min: Option<i32>,
    },
    Gline { offer: String, stop_from_id: Option<i32>, stop_to_id: Option<i32> },
    AVEline { stop_from_id: Option<i32>, stop_to_id: Option<i32>, bit_field_id: Option<i32> },
    Aline {
        offer: String,
        stop_from_id: Option<i32>,
        stop_to_id: Option<i32>,
        reference: Option<i32>,
    },
    Iline {
        info_code: String,
        stop_from_id: Option<i32>,
        stop_to_id: Option<i32>,
        validity_ref: Option<i32>,
        info_ref: i32,
        departure_time: Option<i32>,
        arrival_time: Option<i32>,
    },
    Rline {
        direction: String,
        ref_direction_code: String,
        stop_from_id: Option<i32>,
        stop_to_id: Option<i32>,
        departure_time: Option<i32>,
        arrival_time: Option<i32>,
    },
    Lline {
        line_info: String,
        stop_from_id: Option<i32>,
        stop_to_id: Option<i32>,
        departure_time: Option<i32>,
        arrival_time: Option<i32>,
    },
    CiLine {
        num_minutes: i32,
        stop_from_id: Option<i32>,
        stop_to_id: Option<i32>,
        departure_time: Option<i32>,
        arrival_time: Option<i32>,
    },
    CoLine {
        num_minutes: i32,
        stop_from_id: Option<i32>,
        stop_to_id: Option<i32>,
        departure_time: Option<i32>,
        arrival_time: Option<i32>,
    },
    JourneyLine {
        stop_id: i32,
        stop_name: String,
        arrival_time: Option<i32>,
        departure_time: Option<i32>,
        journey_id: Option<i32>,
        administration: String,
    },
}

/// A row, with its texts as characters.
pub enum JourneyLinesView {
    Zline {
        journey_id: i32,
        transport_company_id: Seq<char>,
        transport_variant: i32,
        num_cycles: Option<i32>,
        cycle_dura_min: Option<i32>,
    },
    Gline { offer: Seq<char>, stop_from_id: Option<i32>, stop_to_id: Option<i32> },
    AVEline { stop_from_id: Option<i32>, stop_to_id: Option<i32>, bit_field_id: Option<i32> },
    Aline {
        offer: Seq<char>,
        stop_from_id: Option<i32>,
        stop_to_id: Option<i32>,
        reference: Option<i32>,
    },
    Iline {
        info_code: Seq<char>,
        stop_from_id: Option<i32>,
        stop_to_id: Option<i32>,
        validity_ref: Option<i32>,
        info_ref: i32,
        departure_time: Option<i32>,
        arrival_time: Option<i32>,
    },
    Rline {
        direction: Seq<char>,
        ref_direction_code: Seq<char>,
        stop_from_id: Option<i32>,
        stop_to_id: Option<i32>,
        departure_time: Option<i32>,
        arrival_time: Option<i32>,
    },
    Lline {
        line_info: Seq<char>,
        stop_from_id: Option<i32>,
        stop_to_id: Option<i32>,
        departure_time: Option<i32>,
        arrival_time: Option<i32>,
    },
    CiLine {
        num_minutes: i32,
        stop_from_id: Option<i32>,
        stop_to_id: Option<i32>,
        departure_time: Option<i32>,
        arrival_time: Option<i32>,
    },
    CoLine {
        num_minutes: i32,
        stop_from_id: Option<i32>,
        stop_to_id: Option<i32>,
        departure_time: Option<i32>,
        arrival_time: Option<i32>,
    },
    JourneyLine {
        stop_id: i32,
        stop_name: Seq<char>,
        arrival_time: Option<i32>,
        departure_time: Option<i32>,
        journey_id: Option<i32>,
        administration: Seq<char>,
    },
}

impl DeepView for JourneyLines {
    type V = JourneyLinesView;

    open spec fn deep_view(&self) -> JourneyLinesView {
        match self {
            JourneyLines::Zline {
                journey_id,
                transport_company_id,
                transport_variant,
                num_cycles,
                cycle_dura_min,
            } => JourneyLinesView::Zline {
                journey_id: *journey_id,
                transport_company_id: transport_company_id@,
                transport_variant: *transport_variant,
                num_cycles: *num_cycles,
                cycle_dura_min: *cycle_dura_min,
            },
            JourneyLines::Gline { offer, stop_from_id, stop_to_id } => JourneyLinesView::Gline {
                offer: offer@,
                stop_from_id: *stop_from_id,
                stop_to_id: *stop_to_id,
            },
            JourneyLines::AVEline { stop_from_id, stop_to_id, bit_field_id } =>
                JourneyLinesView::AVEline {
                stop_from_id: *stop_from_id,
                stop_to_id: *stop_to_id,
                bit_field_id: *bit_field_id,
            },
            JourneyLines::Aline { offer, stop_from_id, stop_to_id, reference } =>
                JourneyLinesView::Aline {
                offer: offer@,
                stop_from_id: *stop_from_id,
                stop_to_id: *stop_to_id,
                reference: *reference,
            },
            JourneyLines::Iline {
                info_code,
                stop_from_id,
                stop_to_id,
                validity_ref,
                info_ref,
                departure_time,
                arrival_time,
            } => JourneyLinesView::Iline {
                info_code: info_code@,
                stop_from_id: *stop_from_id,
                stop_to_id: *stop_to_id,
                validity_ref: *validity_ref,
                info_ref: *info_ref,
                departure_time: *departure_time,
                arrival_time: *arrival_time,
            },
            JourneyLines::Rline {
                direction,
                ref_direction_code,
                stop_from_id,
                stop_to_id,
                departure_time,
                arrival_time,
            } => JourneyLinesView::Rline {
                direction: direction@,
                ref_direction_code: ref_direction_code@,
                stop_from_id: *stop_from_id,
                stop_to_id: *stop_to_id,
                departure_time: *departure_time,
                arrival_time: *arrival_time,
            },
            JourneyLines::Lline {
                line_info,
                stop_from_id,
                stop_to_id,
                departure_time,
                arrival_time,
            } => JourneyLinesView::Lline {
                line_info: line_info@,
                stop_from_id: *stop_from_id,
                stop_to_id: *stop_to_id,
                departure_time: *departure_time,
                arrival_time: *arrival_time,
            },
            JourneyLines::CiLine {
                num_minutes,
                stop_from_id,
                stop_to_id,
                departure_time,
                arrival_time,
            } => JourneyLinesView::CiLine {
                num_minutes: *num_minutes,
                stop_from_id: *stop_from_id,
                stop_to_id: *stop_to_id,
                departure_time: *departure_time,
                arrival_time: *arrival_time,
            },
            JourneyLines::CoLine {
                num_minutes,
                stop_from_id,
                stop_to_id,
                departure_time,
                arrival_time,
            } => JourneyLinesView::CoLine {
                num_minutes: *num_minutes,
                stop_from_id: *stop_from_id,
                stop_to_id: *stop_to_id,
                departure_time: *departure_time,
                arrival_time: *arrival_time,
            },
            JourneyLines::JourneyLine {
                stop_id,
                stop_name,
                arrival_time,
                departure_time,
                journey_id,
                administration,
            } => JourneyLinesView::JourneyLine {
                stop_id: *stop_id,
                stop_name: stop_name@,
                arrival_time: *arrival_time,
                departure_time: *departure_time,
                journey_id: *journey_id,
                administration: administration@,
            },
        }
    }
}

// ------------------------------------------------------------------------------------------
// Layouts of the rows
// ------------------------------------------------------------------------------------------

/// `*Z `: journey number (6), company (6), variant (3, after spaces), cycles (3), cycle minutes (3).
pub open spec fn z_layout() -> Seq<(Sep, Field)> {
    seq![
        (Sep::Nothing, Field::Int(6)),
        (Sep::Char(' '), Field::Text(6)),
        (Sep::Spaces, Field::Int(3)),
        (Sep::Char(' '), Field::OptInt(3)),
        (Sep::Char(' '), Field::OptInt(3)),
    ]
}

/// `*G `: offer (3), from stop (7), to stop (7).
pub open spec fn g_layout() -> Seq<(Sep, Field)> {
    seq![
        (Sep::Nothing, Field::Text(3)),
        (Sep::Char(' '), Field::OptInt(7)),
        (Sep::Char(' '), Field::OptInt(7)),
    ]
}

/// `*A VE `: from stop (7), to stop (7), bit field (6).
pub open spec fn a_ve_layout() -> Seq<(Sep, Field)> {
    seq![
        (Sep::Nothing, Field::OptInt(7)),
        (Sep::Char(' '), Field::OptInt(7)),
        (Sep::Char(' '), Field::OptInt(6)),
    ]
}

/// `*A `: offer (2), from stop (7), to stop (7), reference (6).
pub open spec fn a_layout() -> Seq<(Sep, Field)> {
    seq![
        (Sep::Nothing, Field::Text(2)),
        (Sep::Char(' '), Field::OptInt(7)),
        (Sep::Char(' '), Field::OptInt(7)),
        (Sep::Char(' '), Field::OptInt(6)),
    ]
}

/// `*I `: code (2), from stop (7), to stop (7), validity (6), text (9), departure (6), arrival (6).
pub open spec fn i_layout() -> Seq<(Sep, Field)> {
    seq![
        (Sep::Nothing, Field::Text(2)),
        (Sep::Char(' '), Field::OptInt(7)),
        (Sep::Char(' '), Field::OptInt(7)),
        (Sep::Char(' '), Field::OptInt(6)),
        (Sep::Char(' '), Field::Int(9)),
        (Sep::Char(' '), Field::OptInt(6)),
        (Sep::Char(' '), Field::OptInt(6)),
    ]
}

/// `*L `: line (8), from stop (7), to stop (7), departure (6), arrival (6).
pub open spec fn l_layout() -> Seq<(Sep, Field)> {
    seq![
        (Sep::Nothing, Field::Text(8)),
        (Sep::Char(' '), Field::OptInt(7)),
        (Sep::Char(' '), Field::OptInt(7)),
        (Sep::Char(' '), Field::OptInt(6)),
        (Sep::Char(' '), Field::OptInt(6)),
    ]
}

/// What ends an `*R`, `*CI` or `*CO` row: from stop (7), to stop (7), departure (6), arrival (6).
pub open spec fn stops_times_layout() -> Seq<(Sep, Field)> {
    seq![
        (Sep::Char(' '), Field::OptInt(7)),
        (Sep::Char(' '), Field::OptInt(7)),
        (Sep::Char(' '), Field::OptInt(6)),
        (Sep::Char(' '), Field::OptInt(6)),
    ]
}

/// A stop of the journey: stop (7), name (20), arrival (6), departure (6), journey (6), administration (6).
pub open spec fn stop_layout() -> Seq<(Sep, Field)> {
    seq![
        (Sep::Nothing, Field::Int(7)),
        (Sep::Char(' '), Field::Text(20)),
        (Sep::Char(' '), Field::OptInt(6)),
        (Sep::Char(' '), Field::OptInt(6)),
        (Sep::Char(' '), Field::OptInt(6)),
        (Sep::Char(' '), Field::Text(6)),
    ]
}

/// `tag`, then the fields of `layout`.
pub open spec fn sp_tagged(s: Seq<char>, p: usize, tag: Seq<char>, layout: Seq<(Sep, Field)>) -> Scan<
    Seq<ValueV>,
> {
    sp_then(sp_tag(s, p, tag, true), |u: (), q: usize| sp_fields(s, q, layout))
}

fn tagged_at(s: &[char], p: usize, tag: &str, layout: &[(Sep, Field)]) -> (r: Scan<Vec<Value>>)
    requires
        p <= s@.len(),
    ensures
        r.deep_view() == sp_tagged(s@, p, tag@, layout@),
        r matches Scan::Done(v, q) ==> p <= q <= s@.len() && v@.len() == layout@.len(),
{
    match tag_lit(s, p, tag, true) {
        Scan::Done(_, q) => {
            assert(layout@.skip(0) =~= layout@);
            let r = fields_at(s, q, layout, 0);
            proof {
                crate::layout::lemma_fields_len(s@, q, layout@);
            }
            r
        },
        Scan::Error => Scan::Error,
        Scan::Incomplete => Scan::Incomplete,
    }
}

// ------------------------------------------------------------------------------------------
// The rows
// ------------------------------------------------------------------------------------------

pub open spec fn sp_row_z(s: Seq<char>, p: usize) -> Scan<JourneyLinesView> {
    sp_map(
        sp_tagged(s, p, "*Z "@, z_layout()),
        |v: Seq<ValueV>|
            JourneyLinesView::Zline {
                journey_id: int_of(v[0]),
                transport_company_id: text_of(v[1]),
                transport_variant: int_of(v[2]),
                num_cycles: opt_of(v[3]),
                cycle_dura_min: opt_of(v[4]),
            },
    )
}

pub open spec fn sp_row_g(s: Seq<char>, p: usize) -> Scan<JourneyLinesView> {
    sp_map(
        sp_tagged(s, p, "*G "@, g_layout()),
        |v: Seq<ValueV>|
            JourneyLinesView::Gline {
                offer: text_of(v[0]),
                stop_from_id: opt_of(v[1]),
                stop_to_id: opt_of(v[2]),
            },
    )
}

pub open spec fn sp_row_a_ve(s: Seq<char>, p: usize) -> Scan<JourneyLinesView> {
    sp_map(
        sp_tagged(s, p, "*A VE "@, a_ve_layout()),
        |v: Seq<ValueV>|
            JourneyLinesView::AVEline {
                stop_from_id: opt_of(v[0]),
                stop_to_id: opt_of(v[1]),
                bit_field_id: opt_of(v[2]),
            },
    )
}

pub open spec fn sp_row_a(s: Seq<char>, p: usize) -> Scan<JourneyLinesView> {
    sp_map(
        sp_tagged(s, p, "*A "@, a_layout()),
        |v: Seq<ValueV>|
            JourneyLinesView::Aline {
                offer: text_of(v[0]),
                stop_from_id: opt_of(v[1]),
                stop_to_id: opt_of(v[2]),
                reference: opt_of(v[3]),
            },
    )
}

pub open spec fn sp_row_i(s: Seq<char>, p: usize) -> Scan<JourneyLinesView> {
    sp_map(
        sp_tagged(s, p, "*I "@, i_layout()),
        |v: Seq<ValueV>|
            JourneyLinesView::Iline {
                info_code: text_of(v[0]),
                stop_from_id: opt_of(v[1]),
                stop_to_id: opt_of(v[2]),
                validity_ref: opt_of(v[3]),
                info_ref: int_of(v[4]),
                departure_time: opt_of(v[5]),
                arrival_time: opt_of(v[6]),
            },
    )
}

pub open spec fn sp_row_l(s: Seq<char>, p: usize) -> Scan<JourneyLinesView> {
    sp_map(
        sp_tagged(s, p, "*L "@, l_layout()),
        |v: Seq<ValueV>|
            JourneyLinesView::Lline {
                line_info: text_of(v[0]),
                stop_from_id: opt_of(v[1]),
                stop_to_id: opt_of(v[2]),
                departure_time: opt_of(v[3]),
                arrival_time: opt_of(v[4]),
            },
    )
}

/// The reference to a direction text in an `*R` row: `R` and a 6-character
/// number, written as `R` and the number's decimal text; otherwise 7
/// characters, trimmed.
pub open spec fn sp_ref_direction(s: Seq<char>, p: usize) -> Scan<Seq<char>> {
    sp_or(
        sp_map(sp_direction(s, p), |d: (Seq<char>, i32)| d.0 + signed_decimal(d.1 as int)),
        sp_str_field(s, p, 7),
    )
}

pub open spec fn sp_row_r(s: Seq<char>, p: usize) -> Scan<JourneyLinesView> {
    sp_then(
        sp_tagged(s, p, "*R "@, seq![(Sep::Nothing, Field::Text(1))]),
        |h: Seq<ValueV>, q: usize|
            sp_then(
                sp_char(s, q, ' ', true),
                |u: (), q1: usize|
                    sp_then(
                        sp_ref_direction(s, q1),
                        |code: Seq<char>, q2: usize|
                            sp_map(
                                sp_fields(s, q2, stops_times_layout()),
                                |v: Seq<ValueV>|
                                    JourneyLinesView::Rline {
                                        direction: text_of(h[0]),
                                        ref_direction_code: code,
                                        stop_from_id: opt_of(v[0]),
                                        stop_to_id: opt_of(v[1]),
                                        departure_time: opt_of(v[2]),
                                        arrival_time: opt_of(v[3]),
                                    },
                            ),
                    ),
            ),
    )
}

/// `*CI` (true) or `*CO` (false).
pub open spec fn sp_ci_co_tag(s: Seq<char>, p: usize) -> Scan<bool> {
    sp_or(
        sp_map(sp_tag(s, p, "*CI"@, true), |u: ()| true),
        sp_map(sp_tag(s, p, "*CO"@, true), |u: ()| false),
    )
}

pub open spec fn sp_row_ci_co(s: Seq<char>, p: usize) -> Scan<JourneyLinesView> {
    sp_then(
        sp_ci_co_tag(s, p),
        |ci: bool, q: usize|
            sp_map(
                sp_fields(s, q, seq![(Sep::Char(' '), Field::Int(4))] + stops_times_layout()),
                |v: Seq<ValueV>|
                    if ci {
                        JourneyLinesView::CiLine {
                            num_minutes: int_of(v[0]),
                            stop_from_id: opt_of(v[1]),
                            stop_to_id: opt_of(v[2]),
                            departure_time: opt_of(v[3]),
                            arrival_time: opt_of(v[4]),
                        }
                    } else {
                        JourneyLinesView::CoLine {
                            num_minutes: int_of(v[0]),
                            stop_from_id: opt_of(v[1]),
                            stop_to_id: opt_of(v[2]),
                            departure_time: opt_of(v[3]),
                            arrival_time: opt_of(v[4]),
                        }
                    },
            ),
    )
}

pub open spec fn sp_row_journey_description(s: Seq<char>, p: usize) -> Scan<JourneyLinesView> {
    sp_map(
        sp_tagged(s, p, ""@, stop_layout()),
        |v: Seq<ValueV>|
            JourneyLinesView::JourneyLine {
                stop_id: int_of(v[0]),
                stop_name: text_of(v[1]),
                arrival_time: opt_of(v[2]),
                departure_time: opt_of(v[3]),
                journey_id: opt_of(v[4]),
                administration: text_of(v[5]),
            },
    )
}

/// A row of any kind: the first kind that matches.
pub open spec fn sp_journey_row(s: Seq<char>) -> Scan<JourneyLinesView> {
    sp_or(
        sp_row_z(s, 0),
        sp_or(
            sp_row_g(s, 0),
            sp_or(
                sp_row_a_ve(s, 0),
                sp_or(
                    sp_row_a(s, 0),
                    sp_or(
                        sp_row_i(s, 0),
                        sp_or(
                            sp_row_l(s, 0),
                            sp_or(
                                sp_row_r(s, 0),
                                sp_or(sp_row_ci_co(s, 0), sp_row_journey_description(s, 0)),
                            ),
                        ),
                    ),
                ),
            ),
        ),
    )
}


// ------------------------------------------------------------------------------------------
// Reading the rows
// ------------------------------------------------------------------------------------------

fn row_z_at(s: &[char], p: usize) -> (r: Scan<JourneyLines>)
    requires
        p <= s@.len(),
    ensures
        r.deep_view() == sp_row_z(s@, p),
        r matches Scan::Done(_, q) ==> p <= q <= s@.len(),
{
    let layout = [(Sep::Nothing, Field::Int(6)), (Sep::Char(' '), Field::Text(6)), (Sep::Spaces, Field::Int(3)), (Sep::Char(' '), Field::OptInt(3)), (Sep::Char(' '), Field::OptInt(3))];
    assert(layout@ =~= z_layout());
    match tagged_at(s, p, "*Z ", &layout) {
        Scan::Done(v, q) => Scan::Done(JourneyLines::Zline { journey_id: int_at(&v, 0), transport_company_id: text_at(&v, 1), transport_variant: int_at(&v, 2), num_cycles: opt_at(&v, 3), cycle_dura_min: opt_at(&v, 4) }, q),
        Scan::Error => Scan::Error,
        Scan::Incomplete => Scan::Incomplete,
    }
}

fn row_g_at(s: &[char], p: usize) -> (r: Scan<JourneyLines>)
    requires
        p <= s@.len(),
    ensures
        r.deep_view() == sp_row_g(s@, p),
        r matches Scan::Done(_, q) ==> p <= q <= s@.len(),
{
    let layout = [(Sep::Nothing, Field::Text(3)), (Sep::Char(' '), Field::OptInt(7)), (Sep::Char(' '), Field::OptInt(7))];
    assert(layout@ =~= g_layout());
    match tagged_at(s, p, "*G ", &layout) {
        Scan::Done(v, q) => Scan::Done(JourneyLines::Gline { offer: text_at(&v, 0), stop_from_id: opt_at(&v, 1), stop_to_id: opt_at(&v, 2) }, q),
        Scan::Error => Scan::Error,
        Scan::Incomplete => Scan::Incomplete,
    }
}

fn row_a_ve_at(s: &[char], p: usize) -> (r: Scan<JourneyLines>)
    requires
        p <= s@.len(),
    ensures
        r.deep_view() == sp_row_a_ve(s@, p),
        r matches Scan::Done(_, q) ==> p <= q <= s@.len(),
{
    let layout = [(Sep::Nothing, Field::OptInt(7)), (Sep::Char(' '), Field::OptInt(7)), (Sep::Char(' '), Field::OptInt(6))];
    assert(layout@ =~= a_ve_layout());
    match tagged_at(s, p, "*A VE ", &layout) {
        Scan::Done(v, q) => Scan::Done(JourneyLines::AVEline { stop_from_id: opt_at(&v, 0), stop_to_id: opt_at(&v, 1), bit_field_id: opt_at(&v, 2) }, q),
        Scan::Error => Scan::Error,
        Scan::Incomplete => Scan::Incomplete,
    }
}

fn row_a_at(s: &[char], p: usize) -> (r: Scan<JourneyLines>)
    requires
        p <= s@.len(),
    ensures
        r.deep_view() == sp_row_a(s@, p),
        r matches Scan::Done(_, q) ==> p <= q <= s@.len(),
{
    let layout = [(Sep::Nothing, Field::Text(2)), (Sep::Char(' '), Field::OptInt(7)), (Sep::Char(' '), Field::OptInt(7)), (Sep::Char(' '), Field::OptInt(6))];
    assert(layout@ =~= a_layout());
    match tagged_at(s, p, "*A ", &layout) {
        Scan::Done(v, q) => Scan::Done(JourneyLines::Aline { offer: text_at(&v, 0), stop_from_id: opt_at(&v, 1), stop_to_id: opt_at(&v, 2), reference: opt_at(&v, 3) }, q),
        Scan::Error => Scan::Error,
        Scan::Incomplete => Scan::Incomplete,
    }
}

fn row_i_at(s: &[char], p: usize) -> (r: Scan<JourneyLines>)
    requires
        p <= s@.len(),
    ensures
        r.deep_view() == sp_row_i(s@, p),
        r matches Scan::Done(_, q) ==> p <= q <= s@.len(),
{
    let layout = [(Sep::Nothing, Field::Text(2)), (Sep::Char(' '), Field::OptInt(7)), (Sep::Char(' '), Field::OptInt(7)), (Sep::Char(' '), Field::OptInt(6)), (Sep::Char(' '), Field::Int(9)), (Sep::Char(' '), Field::OptInt(6)), (Sep::Char(' '), Field::OptInt(6))];
    assert(layout@ =~= i_layout());
    match tagged_at(s, p, "*I ", &layout) {
        Scan::Done(v, q) => Scan::Done(JourneyLines::Iline { info_code: text_at(&v, 0), stop_from_id: opt_at(&v, 1), stop_to_id: opt_at(&v, 2), validity_ref: opt_at(&v, 3), info_ref: int_at(&v, 4), departure_time: opt_at(&v, 5), arrival_time: opt_at(&v, 6) }, q),
        Scan::Error => Scan::Error,
        Scan::Incomplete => Scan::Incomplete,
    }
}

fn row_l_at(s: &[char], p: usize) -> (r: Scan<JourneyLines>)
    requires
        p <= s@.len(),
    ensures
        r.deep_view() == sp_row_l(s@, p),
        r matches Scan::Done(_, q) ==> p <= q <= s@.len(),
{
    let layout = [(Sep::Nothing, Field::Text(8)), (Sep::Char(' '), Field::OptInt(7)), (Sep::Char(' '), Field::OptInt(7)), (Sep::Char(' '), Field::OptInt(6)), (Sep::Char(' '), Field::OptInt(6))];
    assert(layout@ =~= l_layout());
    match tagged_at(s, p, "*L ", &layout) {
        Scan::Done(v, q) => Scan::Done(JourneyLines::Lline { line_info: text_at(&v, 0), stop_from_id: opt_at(&v, 1), stop_to_id: opt_at(&v, 2), departure_time: opt_at(&v, 3), arrival_time: opt_at(&v, 4) }, q),
        Scan::Error => Scan::Error,
        Scan::Incomplete => Scan::Incomplete,
    }
}

fn row_journey_description_at(s: &[char], p: usize) -> (r: Scan<JourneyLines>)
    requires
        p <= s@.len(),
    ensures
        r.deep_view() == sp_row_journey_description(s@, p),
        r matches Scan::Done(_, q) ==> p <= q <= s@.len(),
{
    let layout = [(Sep::Nothing, Field::Int(7)), (Sep::Char(' '), Field::Text(20)), (Sep::Char(' '), Field::OptInt(6)), (Sep::Char(' '), Field::OptInt(6)), (Sep::Char(' '), Field::OptInt(6)), (Sep::Char(' '), Field::Text(6))];
    assert(layout@ =~= stop_layout());
    match tagged_at(s, p, "", &layout) {
        Scan::Done(v, q) => Scan::Done(JourneyLines::JourneyLine { stop_id: int_at(&v, 0), stop_name: text_at(&v, 1), arrival_time: opt_at(&v, 2), departure_time: opt_at(&v, 3), journey_id: opt_at(&v, 4), administration: text_at(&v, 5) }, q),
        Scan::Error => Scan::Error,
        Scan::Incomplete => Scan::Incomplete,
    }
}


fn ref_direction_at(s: &[char], p: usize) -> (r: Scan<String>)
    requires
        p <= s@.len(),
    ensures
        r.deep_view() == sp_ref_direction(s@, p),
        r matches Scan::Done(_, q) ==> p <= q <= s@.len(),
{
    match direction_at(s, p) {
        Scan::Done((prefix, id), q) => {
            let digits = int_to_string(id as i64);
            Scan::Done(joined(prefix.as_str(), digits.as_str()), q)
        },
        Scan::Error => take_str_field(s, p, 7),
        Scan::Incomplete => Scan::Incomplete,
    }
}

fn row_r_at(s: &[char], p: usize) -> (r: Scan<JourneyLines>)
    requires
        p <= s@.len(),
    ensures
        r.deep_view() == sp_row_r(s@, p),
        r matches Scan::Done(_, q) ==> p <= q <= s@.len(),
{
    let head = [(Sep::Nothing, Field::Text(1))];
    let tail = [
        (Sep::Char(' '), Field::OptInt(7)),
        (Sep::Char(' '), Field::OptInt(7)),
        (Sep::Char(' '), Field::OptInt(6)),
        (Sep::Char(' '), Field::OptInt(6)),
    ];
    assert(head@ =~= seq![(Sep::Nothing, Field::Text(1))]);
    assert(tail@ =~= stops_times_layout());
    assert(tail@.skip(0) =~= tail@);
    match tagged_at(s, p, "*R ", &head) {
        Scan::Done(h, q) => match char_lit(s, q, ' ', true) {
            Scan::Done(_, q1) => match ref_direction_at(s, q1) {
                Scan::Done(code, q2) => match fields_at(s, q2, &tail, 0) {
                    Scan::Done(v, q3) => {
                        proof {
                            crate::layout::lemma_fields_len(s@, q2, tail@);
                        }
                        Scan::Done(
                            JourneyLines::Rline {
                                direction: text_at(&h, 0),
                                ref_direction_code: code,
                                stop_from_id: opt_at(&v, 0),
                                stop_to_id: opt_at(&v, 1),
                                departure_time: opt_at(&v, 2),
                                arrival_time: opt_at(&v, 3),
                            },
                            q3,
                        )
                    },
                    Scan::Error => Scan::Error,
                    Scan::Incomplete => Scan::Incomplete,
                },
                Scan::Error => Scan::Error,
                Scan::Incomplete => Scan::Incomplete,
            },
            Scan::Error => Scan::Error,
            Scan::Incomplete => Scan::Incomplete,
        },
        Scan::Error => Scan::Error,
        Scan::Incomplete => Scan::Incomplete,
    }
}

fn row_ci_co_at(s: &[char], p: usize) -> (r: Scan<JourneyLines>)
    requires
        p <= s@.len(),
    ensures
        r.deep_view() == sp_row_ci_co(s@, p),
        r matches Scan::Done(_, q) ==> p <= q <= s@.len(),
{
    let tag = match tag_lit(s, p, "*CI", true) {
        Scan::Done(_, q) => Scan::Done(true, q),
        Scan::Error => match tag_lit(s, p, "*CO", true) {
            Scan::Done(_, q) => Scan::Done(false, q),
            Scan::Error => Scan::Error,
            Scan::Incomplete => Scan::Incomplete,
        },
        Scan::Incomplete => Scan::Incomplete,
    };
    assert(tag.deep_view() == sp_ci_co_tag(s@, p));
    let layout = [
        (Sep::Char(' '), Field::Int(4)),
        (Sep::Char(' '), Field::OptInt(7)),
        (Sep::Char(' '), Field::OptInt(7)),
        (Sep::Char(' '), Field::OptInt(6)),
        (Sep::Char(' '), Field::OptInt(6)),
    ];
    assert(layout@ =~= seq![(Sep::Char(' '), Field::Int(4))] + stops_times_layout());
    assert(layout@.skip(0) =~= layout@);
    match tag {
        Scan::Done(ci, q) => match fields_at(s, q, &layout, 0) {
            Scan::Done(v, q2) => {
                proof {
                    crate::layout::lemma_fields_len(s@, q, layout@);
                }
                let row = if ci {
                    JourneyLines::CiLine {
                        num_minutes: int_at(&v, 0),
                        stop_from_id: opt_at(&v, 1),
                        stop_to_id: opt_at(&v, 2),
                        departure_time: opt_at(&v, 3),
                        arrival_time: opt_at(&v, 4),
                    }
                } else {
                    JourneyLines::CoLine {
                        num_minutes: int_at(&v, 0),
                        stop_from_id: opt_at(&v, 1),
                        stop_to_id: opt_at(&v, 2),
                        departure_time: opt_at(&v, 3),
                        arrival_time: opt_at(&v, 4),
                    }
                };
                Scan::Done(row, q2)
            },
            Scan::Error => Scan::Error,
            Scan::Incomplete => Scan::Incomplete,
        },
        Scan::Error => Scan::Error,
        Scan::Incomplete => Scan::Incomplete,
    }
}

/// Reads a row of any kind from the start of `s`.
fn journey_row_at(s: &[char]) -> (r: Scan<JourneyLines>)
    ensures
        r.deep_view() == sp_journey_row(s@),
        r matches Scan::Done(_, q) ==> q <= s@.len(),
{
    match row_z_at(s, 0) {
        Scan::Error => {},
        r => return r,
    }
    match row_g_at(s, 0) {
        Scan::Error => {},
        r => return r,
    }
    match row_a_ve_at(s, 0) {
        Scan::Error => {},
        r => return r,
    }
    match row_a_at(s, 0) {
        Scan::Error => {},
        r => return r,
    }
    match row_i_at(s, 0) {
        Scan::Error => {},
        r => return r,
    }
    match row_l_at(s, 0) {
        Scan::Error => {},
        r => return r,
    }
    match row_r_at(s, 0) {
        Scan::Error => {},
        r => return r,
    }
    match row_ci_co_at(s, 0) {
        Scan::Error => {},
        r => return r,
    }
    row_journey_description_at(s, 0)
}

/// Reads a row of this kind from the start of `input`: what is left, and the row.
pub fn row_z_combinator(input: &str) -> (r: IResult<JourneyLines>)
    ensures
        result_view(r) == sp_result(input@, sp_row_z(input@, 0)),
{
    let s = chars_of(input);
    let r = row_z_at(s.as_slice(), 0);
    finish(s.as_slice(), r)
}

/// Reads a row of this kind from the start of `input`: what is left, and the row.
pub fn row_g_combinator(input: &str) -> (r: IResult<JourneyLines>)
    ensures
        result_view(r) == sp_result(input@, sp_row_g(input@, 0)),
{
    let s = chars_of(input);
    let r = row_g_at(s.as_slice(), 0);
    finish(s.as_slice(), r)
}

/// Reads a row of this kind from the start of `input`: what is left, and the row.
pub fn row_a_ve_combinator(input: &str) -> (r: IResult<JourneyLines>)
    ensures
        result_view(r) == sp_result(input@, sp_row_a_ve(input@, 0)),
{
    let s = chars_of(input);
    let r = row_a_ve_at(s.as_slice(), 0);
    finish(s.as_slice(), r)
}

/// Reads a row of this kind from the start of `input`: what is left, and the row.
pub fn row_a_combinator(input: &str) -> (r: IResult<JourneyLines>)
    ensures
        result_view(r) == sp_result(input@, sp_row_a(input@, 0)),
{
    let s = chars_of(input);
    let r = row_a_at(s.as_slice(), 0);
    finish(s.as_slice(), r)
}

/// Reads a row of this kind from the start of `input`: what is left, and the row.
pub fn row_i_combinator(input: &str) -> (r: IResult<JourneyLines>)
    ensures
        result_view(r) == sp_result(input@, sp_row_i(input@, 0)),
{
    let s = chars_of(input);
    let r = row_i_at(s.as_slice(), 0);
    finish(s.as_slice(), r)
}

/// Reads a row of this kind from the start of `input`: what is left, and the row.
pub fn row_l_combinator(input: &str) -> (r: IResult<JourneyLines>)
    ensures
        result_view(r) == sp_result(input@, sp_row_l(input@, 0)),
{
    let s = chars_of(input);
    let r = row_l_at(s.as_slice(), 0);
    finish(s.as_slice(), r)
}

/// Reads a row of this kind from the start of `input`: what is left, and the row.
pub fn row_r_combinator(input: &str) -> (r: IResult<JourneyLines>)
    ensures
        result_view(r) == sp_result(input@, sp_row_r(input@, 0)),
{
    let s = chars_of(input);
    let r = row_r_at(s.as_slice(), 0);
    finish(s.as_slice(), r)
}

/// Reads a row of this kind from the start of `input`: what is left, and the row.
pub fn row_ci_co_combinator(input: &str) -> (r: IResult<JourneyLines>)
    ensures
        result_view(r) == sp_result(input@, sp_row_ci_co(input@, 0)),
{
    let s = chars_of(input);
    let r = row_ci_co_at(s.as_slice(), 0);
    finish(s.as_slice(), r)
}

/// Reads a row of this kind from the start of `input`: what is left, and the row.
pub fn row_journey_description_combinator(input: &str) -> (r: IResult<JourneyLines>)
    ensures
        result_view(r) == sp_result(input@, sp_row_journey_description(input@, 0)),
{
    let s = chars_of(input);
    let r = row_journey_description_at(s.as_slice(), 0);
    finish(s.as_slice(), r)
}


// ------------------------------------------------------------------------------------------
// What the rows do
// ------------------------------------------------------------------------------------------

/// What the rows read so far have built: the journeys by id, the keys
/// (journey number, company) of the journeys started, and the id of the last
/// journey started (0 before the first).
pub struct FplanState {
    pub journeys: Map<i32, JourneyView>,
    pub keys: Set<(i32, Seq<char>)>,
    pub last: int,
}

pub open spec fn journeys_view(m: Map<i32, Journey>) -> Map<i32, JourneyView> {
    m.map_values(|j: Journey| j.deep_view())
}

pub open spec fn fplan_state(
    data: Map<i32, Journey>,
    keys: Set<(i32, String)>,
    last: int,
) -> FplanState {
    FplanState { journeys: journeys_view(data), keys: keyed_set(keys), last }
}

/// The clock value of a time written `hhmm`: the sign (no boarding or no
/// alighting) is dropped, and times from 24:00 on wrap around.
pub open spec fn clock_value(v: int) -> int {
    let a = if v < 0 {
        -v
    } else {
        v
    };
    if a >= 2400 {
        a % 2400
    } else {
        a
    }
}

/// The time of day of an optional time field.
pub open spec fn journey_time(t: Option<i32>) -> Result<Option<Time>, ParsingErrorV> {
    match t {
        None => Ok(None),
        Some(v) => {
            let w = clock_value(v as int);
            if w % 100 < 60 {
                Ok(Some(Time { hour: (w / 100) as u32, minute: (w % 100) as u32 }))
            } else {
                Err(ParsingErrorV::UnableToBuildTime((w / 100) as u32, (w % 100) as u32, 0))
            }
        },
    }
}

/// What a row adds to the current journey.
pub enum Amendment {
    Metadata(JourneyMetadataType, JourneyMetadataEntry),
    Stop(JourneyRouteEntry),
}

pub enum AmendmentV {
    Metadata(JourneyMetadataType, JourneyMetadataEntryView),
    Stop(JourneyRouteEntry),
}

impl DeepView for Amendment {
    type V = AmendmentV;

    open spec fn deep_view(&self) -> AmendmentV {
        match self {
            Amendment::Metadata(t, e) => AmendmentV::Metadata(*t, e.deep_view()),
            Amendment::Stop(e) => AmendmentV::Stop(*e),
        }
    }
}

pub open spec fn amended(j: JourneyView, a: AmendmentV) -> JourneyView {
    match a {
        AmendmentV::Metadata(t, e) => j.with_metadata(t, e),
        AmendmentV::Stop(e) => j.with_stop(e),
    }
}

pub open spec fn entry_v(
    from_stop_id: Option<i32>,
    until_stop_id: Option<i32>,
    resource_id: Option<i32>,
    bit_field_id: Option<i32>,
    departure_time: Option<Time>,
    arrival_time: Option<Time>,
    extra_field_1: Option<Seq<char>>,
    extra_field_2: Option<i32>,
) -> JourneyMetadataEntryView {
    JourneyMetadataEntryView {
        from_stop_id,
        until_stop_id,
        resource_id,
        bit_field_id,
        departure_time,
        arrival_time,
        extra_field_1,
        extra_field_2,
    }
}

/// The arrival and departure times of a row, read in that order, handed to `k`.
pub open spec fn timed(
    arrival: Option<i32>,
    departure: Option<i32>,
    k: spec_fn(Option<Time>, Option<Time>) -> Result<AmendmentV, ParsingErrorV>,
) -> Result<AmendmentV, ParsingErrorV> {
    match journey_time(arrival) {
        Err(e) => Err(e),
        Ok(a) => match journey_time(departure) {
            Err(e) => Err(e),
            Ok(d) => k(a, d),
        },
    }
}

/// What a row other than `*Z` adds to the current journey, given the tables
/// of transport types, attributes and directions (by their keys in the files).
pub open spec fn amendment_of(
    l: JourneyLinesView,
    transport_types: Map<Seq<char>, i32>,
    attributes: Map<Seq<char>, i32>,
    directions: Map<Seq<char>, i32>,
) -> Result<AmendmentV, ParsingErrorV> {
    match l {
        JourneyLinesView::Zline { .. } => Err(ParsingErrorV::MissingRow('A')),
        JourneyLinesView::Gline { offer, stop_from_id, stop_to_id } => if transport_types.contains_key(offer) {
            Ok(AmendmentV::Metadata(
                JourneyMetadataType::TransportType,
                entry_v(stop_from_id, stop_to_id, Some(transport_types[offer]), None, None, None, None, None),
            ))
        } else {
            Err(ParsingErrorV::UnknownLegacyId)
        },
        JourneyLinesView::AVEline { stop_from_id, stop_to_id, bit_field_id } => Ok(AmendmentV::Metadata(
            JourneyMetadataType::BitField,
            entry_v(stop_from_id, stop_to_id, None, bit_field_id, None, None, None, None),
        )),
        JourneyLinesView::Aline { offer, stop_from_id, stop_to_id, .. } => if attributes.contains_key(offer) {
            Ok(AmendmentV::Metadata(
                JourneyMetadataType::Attribute,
                entry_v(stop_from_id, stop_to_id, Some(attributes[offer]), None, None, None, None, None),
            ))
        } else {
            Err(ParsingErrorV::UnknownLegacyId)
        },
        JourneyLinesView::Iline {
            info_code,
            stop_from_id,
            stop_to_id,
            validity_ref,
            info_ref,
            departure_time,
            arrival_time,
        } => timed(
            arrival_time,
            departure_time,
            |a: Option<Time>, d: Option<Time>|
                Ok(AmendmentV::Metadata(
                    JourneyMetadataType::InformationText,
                    entry_v(stop_from_id, stop_to_id, Some(info_ref), validity_ref, d, a, Some(info_code), None),
                )),
        ),
        JourneyLinesView::Rline {
            direction,
            ref_direction_code,
            stop_from_id,
            stop_to_id,
            departure_time,
            arrival_time,
        } => timed(
            arrival_time,
            departure_time,
            |a: Option<Time>, d: Option<Time>|
                if ref_direction_code.len() == 0 {
                    Ok(AmendmentV::Metadata(
                        JourneyMetadataType::Direction,
                        entry_v(stop_from_id, stop_to_id, None, None, d, a, Some(direction), None),
                    ))
                } else if directions.contains_key(ref_direction_code) {
                    Ok(AmendmentV::Metadata(
                        JourneyMetadataType::Direction,
                        entry_v(
                            stop_from_id,
                            stop_to_id,
                            Some(directions[ref_direction_code]),
                            None,
                            d,
                            a,
                            Some(direction),
                            None,
                        ),
                    ))
                } else {
                    Err(ParsingErrorV::UnknownLegacyId)
                },
        ),
        JourneyLinesView::Lline { line_info, stop_from_id, stop_to_id, departure_time, arrival_time } =>
            timed(
            arrival_time,
            departure_time,
            |a: Option<Time>, d: Option<Time>|
                if line_info.len() == 0 {
                    Err(ParsingErrorV::MissingLineInfo)
                } else if line_info[0] == '#' {
                    match parse_in_range(line_info.drop_first(), i32::MIN as int, i32::MAX as int) {
                        Some(v) => Ok(AmendmentV::Metadata(
                            JourneyMetadataType::Line,
                            entry_v(stop_from_id, stop_to_id, Some(v as i32), None, d, a, None, None),
                        )),
                        None => Err(ParsingErrorV::InvalidNumber(line_info.drop_first())),
                    }
                } else {
                    Ok(AmendmentV::Metadata(
                        JourneyMetadataType::Line,
                        entry_v(stop_from_id, stop_to_id, None, None, d, a, Some(line_info), None),
                    ))
                },
        ),
        JourneyLinesView::CiLine { num_minutes, stop_from_id, stop_to_id, departure_time, arrival_time } =>
            timed(
            arrival_time,
            departure_time,
            |a: Option<Time>, d: Option<Time>|
                Ok(AmendmentV::Metadata(
                    JourneyMetadataType::ExchangeTimeBoarding,
                    entry_v(stop_from_id, stop_to_id, None, None, d, a, None, Some(num_minutes)),
                )),
        ),
        JourneyLinesView::CoLine { num_minutes, stop_from_id, stop_to_id, departure_time, arrival_time } =>
            timed(
            arrival_time,
            departure_time,
            |a: Option<Time>, d: Option<Time>|
                Ok(AmendmentV::Metadata(
                    JourneyMetadataType::ExchangeTimeDisembarking,
                    entry_v(stop_from_id, stop_to_id, None, None, d, a, None, Some(num_minutes)),
                )),
        ),
        JourneyLinesView::JourneyLine { stop_id, arrival_time, departure_time, .. } => timed(
            arrival_time,
            departure_time,
            |a: Option<Time>, d: Option<Time>|
                Ok(AmendmentV::Stop(JourneyRouteEntry { stop_id, arrival_time: a, departure_time: d })),
        ),
    }
}

// ------------------------------------------------------------------------------------------
// What the tag of a row decides
// ------------------------------------------------------------------------------------------

proof fn lemma_tag_differs(s: Seq<char>, t: Seq<char>, i: int)
    requires
        0 <= i < t.len(),
        i < s.len(),
        s[i] != t[i],
    ensures
        sp_tag(s, 0, t, true) == Scan::<()>::Error,
{
    assert(s[0usize + i] != t[i]);
}

proof fn lemma_trim_end_keeps_first(t: Seq<char>)
    requires
        t.len() > 0,
        !is_ws(t[0]),
    ensures
        trim_end(t).len() > 0,
        trim_end(t)[0] == t[0],
    decreases t.len(),
{
    if is_ws(t.last()) {
        assert(t.len() > 1);
        lemma_trim_end_keeps_first(t.drop_last());
    }
}

/// A line that begins with `*` is no stop of the journey.
proof fn lemma_starred_line_is_no_stop(s: Seq<char>)
    requires
        s.len() > 0,
        s[0] == '*',
    ensures
        !(sp_row_journey_description(s, 0) is Done),
{
    reveal_strlit("");
    assert(sp_tag(s, 0, ""@, true) == Scan::Done((), 0usize));
    let layout = stop_layout();
    assert(layout[0] == (Sep::Nothing, Field::Int(7)));
    if 7 <= s.len() {
        let t = s.subrange(0, 7);
        assert(t[0] == '*');
        assert(!is_ws(t[0]));
        assert(trim_start(t) == t);
        lemma_trim_end_keeps_first(t);
        let u = trim(t);
        assert(u[0] == '*');
        assert(!is_digit(u[0]));
        assert(decimal_value(u) is None);
        assert(sp_take(s, 0, 7) == Scan::Done(t, 7usize));
        assert(sp_int_field(s, 0, 7, i32::MIN as int, i32::MAX as int) is Error);
        assert(sp_field(s, 0, Field::Int(7)) is Error);
    } else {
        assert(sp_take(s, 0, 7) is Incomplete);
        assert(sp_field(s, 0, Field::Int(7)) is Incomplete);
    }
    assert(!(sp_fields(s, 0, layout) is Done));
}

/// What one line does to the state: a `*Z` row starts a new journey under the
/// next id; any other row adds to the journey started last.
pub open spec fn journey_step(
    st: FplanState,
    line: Seq<char>,
    transport_types: Map<Seq<char>, i32>,
    attributes: Map<Seq<char>, i32>,
    directions: Map<Seq<char>, i32>,
) -> Result<FplanState, ParsingErrorV> {
    match sp_journey_row(line) {
        Scan::Done(l, _) => match l {
            JourneyLinesView::Zline { journey_id, transport_company_id, .. } => {
                let id = st.last + 1;
                Ok(
                    FplanState {
                        journeys: st.journeys.insert(
                            id as i32,
                            JourneyView::fresh(id as i32, journey_id, transport_company_id),
                        ),
                        keys: st.keys.insert((journey_id, transport_company_id)),
                        last: id,
                    },
                )
            },
            _ => if st.journeys.contains_key(st.last as i32) {
                match amendment_of(l, transport_types, attributes, directions) {
                    Ok(a) => Ok(
                        FplanState {
                            journeys: st.journeys.insert(
                                st.last as i32,
                                amended(st.journeys[st.last as i32], a),
                            ),
                            ..st
                        },
                    ),
                    Err(e) => Err(e),
                }
            } else {
                Err(ParsingErrorV::MissingRow('A'))
            },
        },
        r => Err(ParsingErrorV::Syntax(scan_failure(r))),
    }
}

/// `st2` is `st` with one more metadata entry, of type `t`, on the journey
/// started last; nothing else changes.
pub open spec fn adds_metadata(st: FplanState, st2: FplanState, t: JourneyMetadataType) -> bool {
    let n = st.last as i32;
    &&& st.journeys.contains_key(n)
    &&& st2.journeys.contains_key(n)
    &&& st2.journeys[n].metadata.len() > 0
    &&& st2 == FplanState {
        journeys: st.journeys.insert(n, st.journeys[n].with_metadata(t, st2.journeys[n].metadata.last().1)),
        ..st
    }
}

/// `st2` is `st` with one more stop on the route of the journey started
/// last; nothing else changes.
pub open spec fn adds_stop(st: FplanState, st2: FplanState) -> bool {
    let n = st.last as i32;
    &&& st.journeys.contains_key(n)
    &&& st2.journeys.contains_key(n)
    &&& st2.journeys[n].route.len() > 0
    &&& st2 == FplanState {
        journeys: st.journeys.insert(n, st.journeys[n].with_stop(st2.journeys[n].route.last())),
        ..st
    }
}

/// The metadata entry that the last line added.
pub open spec fn added_entry(st: FplanState, st2: FplanState) -> JourneyMetadataEntryView {
    st2.journeys[st.last as i32].metadata.last().1
}

/// The departure and arrival times of what the last line added to the
/// journey started last: a stop, or else a metadata entry.
pub open spec fn added_times(st: FplanState, st2: FplanState) -> (Option<Time>, Option<Time>) {
    let n = st.last as i32;
    let j = st2.journeys[n];
    if j.route.len() > st.journeys[n].route.len() {
        (j.route.last().departure_time, j.route.last().arrival_time)
    } else {
        (j.metadata.last().1.departure_time, j.metadata.last().1.arrival_time)
    }
}

/// The departure field and the arrival field of a row that has them.
pub open spec fn row_times(l: JourneyLinesView) -> Option<(Option<i32>, Option<i32>)> {
    match l {
        JourneyLinesView::Iline { departure_time, arrival_time, .. } => Some((departure_time, arrival_time)),
        JourneyLinesView::Rline { departure_time, arrival_time, .. } => Some((departure_time, arrival_time)),
        JourneyLinesView::Lline { departure_time, arrival_time, .. } => Some((departure_time, arrival_time)),
        JourneyLinesView::CiLine { departure_time, arrival_time, .. } => Some((departure_time, arrival_time)),
        JourneyLinesView::CoLine { departure_time, arrival_time, .. } => Some((departure_time, arrival_time)),
        JourneyLinesView::JourneyLine { departure_time, arrival_time, .. } => Some((departure_time, arrival_time)),
        _ => None,
    }
}

proof fn lemma_prefix_chars(s: Seq<char>, t: Seq<char>)
    requires
        t.is_prefix_of(s),
    ensures
        s.len() >= t.len(),
        forall|i: int| 0 <= i < t.len() ==> s[i] == t[i],
{
    assert forall|i: int| 0 <= i < t.len() implies s[i] == t[i] by {
        assert(t[i] == s.subrange(0, t.len() as int)[i]);
    }
}

proof fn lemma_tag_read(s: Seq<char>, t: Seq<char>)
    ensures
        sp_tag(s, 0, t, true) is Done ==> t.is_prefix_of(s),
{
    if sp_tag(s, 0, t, true) is Done {
        assert forall|i: int| 0 <= i < t.len() implies s[i] == t[i] by {
            assert(s[0usize + i] == t[i]);
        }
        assert(t =~= s.subrange(0, t.len() as int));
    }
}

/// Each kind of row reads only from a line that begins with its tag.
proof fn lemma_row_tagged(s: Seq<char>)
    ensures
        sp_journey_row(s) matches Scan::Done(l, _) ==> {
            &&& l is Zline ==> "*Z "@.is_prefix_of(s)
            &&& l is Gline ==> "*G "@.is_prefix_of(s)
            &&& l is AVEline ==> "*A VE "@.is_prefix_of(s)
            &&& l is Aline ==> "*A "@.is_prefix_of(s)
            &&& l is Iline ==> "*I "@.is_prefix_of(s)
            &&& l is Lline ==> "*L "@.is_prefix_of(s)
            &&& l is Rline ==> "*R "@.is_prefix_of(s)
            &&& l is CiLine ==> "*CI"@.is_prefix_of(s)
            &&& l is CoLine ==> "*CO"@.is_prefix_of(s)
        },
{
    lemma_tag_read(s, "*Z "@);
    lemma_tag_read(s, "*G "@);
    lemma_tag_read(s, "*A VE "@);
    lemma_tag_read(s, "*A "@);
    lemma_tag_read(s, "*I "@);
    lemma_tag_read(s, "*L "@);
    lemma_tag_read(s, "*R "@);
    lemma_tag_read(s, "*CI"@);
    lemma_tag_read(s, "*CO"@);
}

/// The rows whose tag differs from a line that begins with `*` in the second
/// character do not read from it; nor does a stop.
proof fn lemma_rows_by_second_char(s: Seq<char>)
    requires
        s.len() >= 2,
        s[0] == '*',
    ensures
        s[1] != 'Z' ==> sp_row_z(s, 0) is Error,
        s[1] != 'G' ==> sp_row_g(s, 0) is Error,
        s[1] != 'A' ==> sp_row_a_ve(s, 0) is Error && sp_row_a(s, 0) is Error,
        s[1] != 'I' ==> sp_row_i(s, 0) is Error,
        s[1] != 'L' ==> sp_row_l(s, 0) is Error,
        s[1] != 'R' ==> sp_row_r(s, 0) is Error,
        s[1] != 'C' ==> sp_row_ci_co(s, 0) is Error,
        !(sp_row_journey_description(s, 0) is Done),
{
    reveal_strlit("*Z ");
    reveal_strlit("*G ");
    reveal_strlit("*A VE ");
    reveal_strlit("*A ");
    reveal_strlit("*I ");
    reveal_strlit("*L ");
    reveal_strlit("*R ");
    reveal_strlit("*CI");
    reveal_strlit("*CO");
    if s[1] != 'Z' {
        lemma_tag_differs(s, "*Z "@, 1);
    }
    if s[1] != 'G' {
        lemma_tag_differs(s, "*G "@, 1);
    }
    if s[1] != 'A' {
        lemma_tag_differs(s, "*A VE "@, 1);
        lemma_tag_differs(s, "*A "@, 1);
    }
    if s[1] != 'I' {
        lemma_tag_differs(s, "*I "@, 1);
    }
    if s[1] != 'L' {
        lemma_tag_differs(s, "*L "@, 1);
    }
    if s[1] != 'R' {
        lemma_tag_differs(s, "*R "@, 1);
    }
    if s[1] != 'C' {
        lemma_tag_differs(s, "*CI"@, 1);
        lemma_tag_differs(s, "*CO"@, 1);
    }
    lemma_starred_line_is_no_stop(s);
}

/// A line that does not begin with `*` reads, if at all, as a stop.
proof fn lemma_unstarred_rows(s: Seq<char>)
    requires
        s.len() > 0,
        s[0] != '*',
    ensures
        sp_journey_row(s) == sp_row_journey_description(s, 0),
{
    reveal_strlit("*Z ");
    reveal_strlit("*G ");
    reveal_strlit("*A VE ");
    reveal_strlit("*A ");
    reveal_strlit("*I ");
    reveal_strlit("*L ");
    reveal_strlit("*R ");
    reveal_strlit("*CI");
    reveal_strlit("*CO");
    lemma_tag_differs(s, "*Z "@, 0);
    lemma_tag_differs(s, "*G "@, 0);
    lemma_tag_differs(s, "*A VE "@, 0);
    lemma_tag_differs(s, "*A "@, 0);
    lemma_tag_differs(s, "*I "@, 0);
    lemma_tag_differs(s, "*L "@, 0);
    lemma_tag_differs(s, "*R "@, 0);
    lemma_tag_differs(s, "*CI"@, 0);
    lemma_tag_differs(s, "*CO"@, 0);
}

/// A line reads, if at all, as the row that its tag names.
proof fn lemma_row_by_tag(s: Seq<char>)
    ensures
        sp_journey_row(s) matches Scan::Done(l, _) ==> {
            &&& "*Z "@.is_prefix_of(s) ==> l is Zline
            &&& "*G "@.is_prefix_of(s) ==> l is Gline
            &&& "*A VE "@.is_prefix_of(s) ==> l is AVEline || l is Aline
            &&& "*A "@.is_prefix_of(s) && !"*A VE "@.is_prefix_of(s) ==> l is Aline
            &&& "*I "@.is_prefix_of(s) ==> l is Iline
            &&& "*L "@.is_prefix_of(s) ==> l is Lline
            &&& "*R "@.is_prefix_of(s) ==> l is Rline
            &&& "*CI"@.is_prefix_of(s) ==> l is CiLine
            &&& "*CO"@.is_prefix_of(s) ==> l is CoLine
            &&& s.len() > 0 && s[0] != '*' ==> l is JourneyLine
        },
{
    reveal_strlit("*Z ");
    reveal_strlit("*G ");
    reveal_strlit("*A VE ");
    reveal_strlit("*A ");
    reveal_strlit("*I ");
    reveal_strlit("*L ");
    reveal_strlit("*R ");
    reveal_strlit("*CI");
    reveal_strlit("*CO");
    if s.len() > 0 && s[0] != '*' {
        lemma_unstarred_rows(s);
    }
    if "*Z "@.is_prefix_of(s) {
        lemma_prefix_chars(s, "*Z "@);
        lemma_rows_by_second_char(s);
    }
    if "*G "@.is_prefix_of(s) {
        lemma_prefix_chars(s, "*G "@);
        lemma_rows_by_second_char(s);
    }
    if "*A "@.is_prefix_of(s) {
        lemma_prefix_chars(s, "*A "@);
        lemma_rows_by_second_char(s);
        lemma_tag_read(s, "*A VE "@);
    }
    if "*I "@.is_prefix_of(s) {
        lemma_prefix_chars(s, "*I "@);
        lemma_rows_by_second_char(s);
    }
    if "*L "@.is_prefix_of(s) {
        lemma_prefix_chars(s, "*L "@);
        lemma_rows_by_second_char(s);
    }
    if "*R "@.is_prefix_of(s) {
        lemma_prefix_chars(s, "*R "@);
        lemma_rows_by_second_char(s);
    }
    if "*CI"@.is_prefix_of(s) {
        lemma_prefix_chars(s, "*CI"@);
        lemma_rows_by_second_char(s);
        assert(forall|i: int| 0 <= i < 3 ==> s[i] == "*CI"@[i]);
        assert(sp_tag(s, 0, "*CI"@, true) == Scan::Done((), 3usize));
        assert(sp_ci_co_tag(s, 0) == Scan::Done(true, 3usize));
    }
    if "*CO"@.is_prefix_of(s) {
        lemma_prefix_chars(s, "*CO"@);
        lemma_rows_by_second_char(s);
        lemma_tag_differs(s, "*CI"@, 2);
        assert(forall|i: int| 0 <= i < 3 ==> s[i] == "*CO"@[i]);
        assert(sp_tag(s, 0, "*CO"@, true) == Scan::Done((), 3usize));
        assert(sp_ci_co_tag(s, 0) == Scan::Done(false, 3usize));
    }
}

/// The metadata type that each kind of row gives; a stop row gives a stop.
proof fn lemma_amendment_kinds(
    l: JourneyLinesView,
    transport_types: Map<Seq<char>, i32>,
    attributes: Map<Seq<char>, i32>,
    directions: Map<Seq<char>, i32>,
)
    ensures
        amendment_of(l, transport_types, attributes, directions) matches Ok(a) ==> {
            &&& !(l is Zline)
            &&& l is Gline ==> (a matches AmendmentV::Metadata(t, _) && t == JourneyMetadataType::TransportType)
            &&& l is AVEline ==> (a matches AmendmentV::Metadata(t, _) && t == JourneyMetadataType::BitField)
            &&& l is Aline ==> (a matches AmendmentV::Metadata(t, _) && t == JourneyMetadataType::Attribute)
            &&& l is Iline ==> (a matches AmendmentV::Metadata(t, _) && t == JourneyMetadataType::InformationText)
            &&& l is Lline ==> (a matches AmendmentV::Metadata(t, _) && t == JourneyMetadataType::Line)
            &&& l is Rline ==> (a matches AmendmentV::Metadata(t, _) && t == JourneyMetadataType::Direction)
            &&& l is CiLine ==> (a matches AmendmentV::Metadata(t, _) && t
                == JourneyMetadataType::ExchangeTimeBoarding)
            &&& l is CoLine ==> (a matches AmendmentV::Metadata(t, _) && t
                == JourneyMetadataType::ExchangeTimeDisembarking)
            &&& l is JourneyLine ==> a is Stop
        },
{
}

/// The times that each kind of row gives what it adds: those of its
/// departure and arrival fields, or none.
proof fn lemma_amendment_times(
    l: JourneyLinesView,
    transport_types: Map<Seq<char>, i32>,
    attributes: Map<Seq<char>, i32>,
    directions: Map<Seq<char>, i32>,
)
    ensures
        amendment_of(l, transport_types, attributes, directions) matches Ok(a) ==> {
            let times = match a {
                AmendmentV::Metadata(_, e) => (e.departure_time, e.arrival_time),
                AmendmentV::Stop(e) => (e.departure_time, e.arrival_time),
            };
            match row_times(l) {
                Some((d, r)) => journey_time(d) is Ok && journey_time(r) is Ok && times == (
                journey_time(d)->Ok_0, journey_time(r)->Ok_0),
                None => times == (None::<Time>, None::<Time>),
            }
        },
{
}

/// What a line that does not start a journey adds to the journey started
/// last: one metadata entry, of the type of what its row gives, or one stop.
proof fn lemma_step_adds(
    st: FplanState,
    line: Seq<char>,
    transport_types: Map<Seq<char>, i32>,
    attributes: Map<Seq<char>, i32>,
    directions: Map<Seq<char>, i32>,
    t: JourneyMetadataType,
)
    requires
        0 <= st.last < i32::MAX,
        journey_step(st, line, transport_types, attributes, directions) is Ok,
    ensures
        sp_journey_row(line) is Done,
        ({
            let st2 = journey_step(st, line, transport_types, attributes, directions)->Ok_0;
            let l = sp_journey_row(line)->Done_0;
            &&& l is Zline ==> st2.last == st.last + 1
            &&& adds_metadata(st, st2, t) <==> (!(l is Zline) && (amendment_of(
                l,
                transport_types,
                attributes,
                directions,
            ) matches Ok(AmendmentV::Metadata(t2, _)) && t2 == t))
            &&& !(l is Zline) && (amendment_of(l, transport_types, attributes, directions) matches Ok(
                AmendmentV::Stop(_),
            )) ==> adds_stop(st, st2)
            &&& !(l is Zline) ==> added_times(st, st2) == match amendment_of(
                l,
                transport_types,
                attributes,
                directions,
            )->Ok_0 {
                AmendmentV::Metadata(_, e) => (e.departure_time, e.arrival_time),
                AmendmentV::Stop(e) => (e.departure_time, e.arrival_time),
            }
        }),
{
    let n = st.last as i32;
    let st2 = journey_step(st, line, transport_types, attributes, directions)->Ok_0;
    let l = sp_journey_row(line)->Done_0;
    match l {
        JourneyLinesView::Zline { .. } => {
            assert(st2.last != st.last);
        },
        _ => {
            let a = amendment_of(l, transport_types, attributes, directions)->Ok_0;
            assert(st2.journeys[n] == amended(st.journeys[n], a));
            match a {
                AmendmentV::Stop(e) => {
                    assert(st2.journeys[n].metadata == st.journeys[n].metadata);
                    assert(st2.journeys[n].route.last() == e);
                },
                AmendmentV::Metadata(t2, e) => {
                    assert(st2.journeys[n].metadata.last() == (t2, e));
                    assert(st2.journeys[n].route == st.journeys[n].route);
                    if t2 == t {
                        assert(st2 == FplanState {
                            journeys: st.journeys.insert(n, st.journeys[n].with_metadata(t, e)),
                            ..st
                        });
                    }
                },
            }
        },
    }
}

/// Each line adds what its tag names: a `*Z` row starts a journey; to the
/// journey started last, a `*G` row adds a transport type, an `*A VE` row a
/// bit field (or, when it does not read as one, an attribute with the code
/// `VE`), an `*A` row an attribute, an `*I` row an information text, an `*L`
/// row a line, an `*R` row a direction, a `*CI` row an exchange time for
/// boarding and a `*CO` row one for disembarking, and a line that does not
/// begin with `*` a stop.  No other line adds an entry of these types.
pub proof fn lemma_rows_by_tag(
    st: FplanState,
    line: Seq<char>,
    transport_types: Map<Seq<char>, i32>,
    attributes: Map<Seq<char>, i32>,
    directions: Map<Seq<char>, i32>,
)
    requires
        0 <= st.last < i32::MAX,
    ensures
        journey_step(st, line, transport_types, attributes, directions) matches Ok(st2) ==> {
            &&& "*Z "@.is_prefix_of(line) ==> st2.last == st.last + 1
            &&& "*G "@.is_prefix_of(line) <==> adds_metadata(st, st2, JourneyMetadataType::TransportType)
            &&& "*A VE "@.is_prefix_of(line) ==> adds_metadata(st, st2, JourneyMetadataType::BitField)
                || adds_metadata(st, st2, JourneyMetadataType::Attribute)
            &&& adds_metadata(st, st2, JourneyMetadataType::BitField) ==> "*A VE "@.is_prefix_of(line)
            &&& "*A "@.is_prefix_of(line) && !"*A VE "@.is_prefix_of(line) ==> adds_metadata(
                st,
                st2,
                JourneyMetadataType::Attribute,
            )
            &&& adds_metadata(st, st2, JourneyMetadataType::Attribute) ==> "*A "@.is_prefix_of(line)
            &&& "*I "@.is_prefix_of(line) <==> adds_metadata(st, st2, JourneyMetadataType::InformationText)
            &&& "*L "@.is_prefix_of(line) <==> adds_metadata(st, st2, JourneyMetadataType::Line)
            &&& "*R "@.is_prefix_of(line) <==> adds_metadata(st, st2, JourneyMetadataType::Direction)
            &&& "*CI"@.is_prefix_of(line) <==> adds_metadata(st, st2, JourneyMetadataType::ExchangeTimeBoarding)
            &&& "*CO"@.is_prefix_of(line) <==> adds_metadata(
                st,
                st2,
                JourneyMetadataType::ExchangeTimeDisembarking,
            )
            &&& line.len() > 0 && line[0] != '*' ==> adds_stop(st, st2)
        },
{
    if journey_step(st, line, transport_types, attributes, directions) is Ok {
        lemma_row_tagged(line);
        lemma_row_by_tag(line);
        let l = sp_journey_row(line)->Done_0;
        lemma_amendment_kinds(l, transport_types, attributes, directions);
        lemma_step_adds(st, line, transport_types, attributes, directions, JourneyMetadataType::TransportType);
        lemma_step_adds(st, line, transport_types, attributes, directions, JourneyMetadataType::BitField);
        lemma_step_adds(st, line, transport_types, attributes, directions, JourneyMetadataType::Attribute);
        lemma_step_adds(st, line, transport_types, attributes, directions, JourneyMetadataType::InformationText);
        lemma_step_adds(st, line, transport_types, attributes, directions, JourneyMetadataType::Line);
        lemma_step_adds(st, line, transport_types, attributes, directions, JourneyMetadataType::Direction);
        lemma_step_adds(
            st,
            line,
            transport_types,
            attributes,
            directions,
            JourneyMetadataType::ExchangeTimeBoarding,
        );
        lemma_step_adds(
            st,
            line,
            transport_types,
            attributes,
            directions,
            JourneyMetadataType::ExchangeTimeDisembarking,
        );
    }
}

/// What a row adds takes as departure time the time of the row's departure
/// field and as arrival time that of its arrival field; a row without them
/// adds an entry without times.
pub proof fn lemma_row_times(
    st: FplanState,
    line: Seq<char>,
    transport_types: Map<Seq<char>, i32>,
    attributes: Map<Seq<char>, i32>,
    directions: Map<Seq<char>, i32>,
)
    requires
        0 <= st.last < i32::MAX,
    ensures
        journey_step(st, line, transport_types, attributes, directions) matches Ok(st2) ==> (sp_journey_row(line) matches Scan::Done(l, _)
            && (!(l is Zline) ==> match row_times(l) {
            Some((d, a)) => journey_time(d) is Ok && journey_time(a) is Ok && added_times(st, st2) == (
            journey_time(d)->Ok_0, journey_time(a)->Ok_0),
            None => added_times(st, st2) == (None::<Time>, None::<Time>),
        })),
{
    if journey_step(st, line, transport_types, attributes, directions) is Ok {
        let l = sp_journey_row(line)->Done_0;
        lemma_amendment_times(l, transport_types, attributes, directions);
        lemma_step_adds(st, line, transport_types, attributes, directions, JourneyMetadataType::Line);
    }
}

/// What a check-in or check-out row gives: an entry with the row's stops, its
/// times and its minutes.
proof fn lemma_exchange_time_amendment(
    l: JourneyLinesView,
    transport_types: Map<Seq<char>, i32>,
    attributes: Map<Seq<char>, i32>,
    directions: Map<Seq<char>, i32>,
)
    ensures
        l matches JourneyLinesView::CiLine { num_minutes, stop_from_id, stop_to_id, departure_time, arrival_time }
            ==> (amendment_of(l, transport_types, attributes, directions) matches Ok(a) ==> (a matches AmendmentV::Metadata(_, e) && e == exchange_entry(num_minutes, stop_from_id, stop_to_id, departure_time, arrival_time))),
        l matches JourneyLinesView::CoLine { num_minutes, stop_from_id, stop_to_id, departure_time, arrival_time }
            ==> (amendment_of(l, transport_types, attributes, directions) matches Ok(a) ==> (a matches AmendmentV::Metadata(_, e) && e == exchange_entry(num_minutes, stop_from_id, stop_to_id, departure_time, arrival_time))),
{
}

/// The entry of an exchange time of `minutes` between two stops, with the
/// times of the departure and arrival fields.
pub open spec fn exchange_entry(
    minutes: i32,
    stop_from_id: Option<i32>,
    stop_to_id: Option<i32>,
    departure_time: Option<i32>,
    arrival_time: Option<i32>,
) -> JourneyMetadataEntryView {
    JourneyMetadataEntryView {
        from_stop_id: stop_from_id,
        until_stop_id: stop_to_id,
        resource_id: None,
        bit_field_id: None,
        departure_time: journey_time(departure_time)->Ok_0,
        arrival_time: journey_time(arrival_time)->Ok_0,
        extra_field_1: None,
        extra_field_2: Some(minutes),
    }
}

/// A row that begins with `*CI` or `*CO` adds to the journey started last
/// one entry, of type `ExchangeTimeBoarding` or `ExchangeTimeDisembarking`,
/// with the row's stops, its times and its number of minutes.
pub proof fn lemma_check_in_out_rows(
    st: FplanState,
    line: Seq<char>,
    transport_types: Map<Seq<char>, i32>,
    attributes: Map<Seq<char>, i32>,
    directions: Map<Seq<char>, i32>,
)
    requires
        0 <= st.last < i32::MAX,
    ensures
        "*CI"@.is_prefix_of(line) ==> (journey_step(st, line, transport_types, attributes, directions) matches Ok(st2)
            ==> (sp_journey_row(line) matches Scan::Done(
            JourneyLinesView::CiLine { num_minutes, stop_from_id, stop_to_id, departure_time, arrival_time },
            _,
        ) && adds_metadata(st, st2, JourneyMetadataType::ExchangeTimeBoarding) && added_entry(st, st2)
            == exchange_entry(num_minutes, stop_from_id, stop_to_id, departure_time, arrival_time))),
        "*CO"@.is_prefix_of(line) ==> (journey_step(st, line, transport_types, attributes, directions) matches Ok(st2)
            ==> (sp_journey_row(line) matches Scan::Done(
            JourneyLinesView::CoLine { num_minutes, stop_from_id, stop_to_id, departure_time, arrival_time },
            _,
        ) && adds_metadata(st, st2, JourneyMetadataType::ExchangeTimeDisembarking) && added_entry(st, st2)
            == exchange_entry(num_minutes, stop_from_id, stop_to_id, departure_time, arrival_time))),
{
    if journey_step(st, line, transport_types, attributes, directions) is Ok && ("*CI"@.is_prefix_of(line)
        || "*CO"@.is_prefix_of(line)) {
        let n = st.last as i32;
        let st2 = journey_step(st, line, transport_types, attributes, directions)->Ok_0;
        lemma_row_by_tag(line);
        lemma_rows_by_tag(st, line, transport_types, attributes, directions);
        let l = sp_journey_row(line)->Done_0;
        lemma_exchange_time_amendment(l, transport_types, attributes, directions);
        let a = amendment_of(l, transport_types, attributes, directions)->Ok_0;
        assert(st2.journeys[n] == amended(st.journeys[n], a));
    }
}

/// What an information row gives: an entry of type `InformationText` whose
/// departure time is that of the row's departure field and whose arrival time
/// is that of its arrival field.
proof fn lemma_information_amendment(
    l: JourneyLinesView,
    transport_types: Map<Seq<char>, i32>,
    attributes: Map<Seq<char>, i32>,
    directions: Map<Seq<char>, i32>,
)
    requires
        l is Iline,
    ensures
        amendment_of(l, transport_types, attributes, directions) matches Ok(a) ==> (journey_time(
            l->Iline_departure_time,
        ) is Ok && journey_time(l->Iline_arrival_time) is Ok && a == AmendmentV::Metadata(
            JourneyMetadataType::InformationText,
            JourneyMetadataEntryView {
                from_stop_id: l->Iline_stop_from_id,
                until_stop_id: l->Iline_stop_to_id,
                resource_id: Some(l->Iline_info_ref),
                bit_field_id: l->Iline_validity_ref,
                departure_time: journey_time(l->Iline_departure_time)->Ok_0,
                arrival_time: journey_time(l->Iline_arrival_time)->Ok_0,
                extra_field_1: Some(l->Iline_info_code),
                extra_field_2: None,
            },
        )),
{
}

/// A row that begins with `*I ` adds to the journey started last one
/// metadata entry of type `InformationText`: its stops, its bit field (the
/// validity), its resource (the text number) and its code are the row's; its
/// departure time is that of the row's first time field and its arrival time
/// that of the second.
pub proof fn lemma_information_rows(
    st: FplanState,
    line: Seq<char>,
    transport_types: Map<Seq<char>, i32>,
    attributes: Map<Seq<char>, i32>,
    directions: Map<Seq<char>, i32>,
)
    requires
        0 <= st.last < i32::MAX,
    ensures
        "*I "@.is_prefix_of(line) ==> (journey_step(st, line, transport_types, attributes, directions) matches Ok(st2)
            ==> (sp_journey_row(line) matches Scan::Done(
            JourneyLinesView::Iline {
                info_code,
                stop_from_id,
                stop_to_id,
                validity_ref,
                info_ref,
                departure_time,
                arrival_time,
            },
            _,
        ) && adds_metadata(st, st2, JourneyMetadataType::InformationText) && journey_time(departure_time) is Ok
            && journey_time(arrival_time) is Ok && added_entry(st, st2) == (JourneyMetadataEntryView {
            from_stop_id: stop_from_id,
            until_stop_id: stop_to_id,
            resource_id: Some(info_ref),
            bit_field_id: validity_ref,
            departure_time: journey_time(departure_time)->Ok_0,
            arrival_time: journey_time(arrival_time)->Ok_0,
            extra_field_1: Some(info_code),
            extra_field_2: None,
        }))),
{
    if "*I "@.is_prefix_of(line) {
        lemma_row_by_tag(line);
        match journey_step(st, line, transport_types, attributes, directions) {
            Ok(st2) => {
                let n = st.last as i32;
                let l = sp_journey_row(line)->Done_0;
                lemma_information_amendment(l, transport_types, attributes, directions);
                lemma_step_adds(st, line, transport_types, attributes, directions, JourneyMetadataType::InformationText);
                let a = amendment_of(l, transport_types, attributes, directions)->Ok_0;
                assert(st2.journeys[n] == amended(st.journeys[n], a));
            },
            Err(_) => {},
        }
    }
}

/// The time of an optional time field.
fn create_time(time: Option<i32>) -> (r: Result<Option<Time>, ParsingError>)
    ensures
        match journey_time(time) {
            Ok(t) => r == Ok::<Option<Time>, ParsingError>(t),
            Err(e) => r matches Err(x) && x.deep_view() == e,
        },
{
    match time {
        None => Ok(None),
        Some(value) => {
            let a: i64 = if value < 0 {
                -(value as i64)
            } else {
                value as i64
            };
            let w: i64 = if a >= 2400 {
                a % 2400
            } else {
                a
            };
            match create_time_from_value(w as u32) {
                Ok(t) => Ok(Some(t)),
                Err(e) => Err(e),
            }
        },
    }
}

/// The id that `key` has in `table`.
fn lookup(table: &TextMap, key: &String) -> (r: Result<i32, ParsingError>)
    ensures
        match r {
            Ok(id) => keyed(table@).contains_key(key@) && id == keyed(table@)[key@],
            Err(e) => !keyed(table@).contains_key(key@) && e.deep_view() == ParsingErrorV::UnknownLegacyId,
        },
{
    match text_map_get(table, key.as_str()) {
        Some(id) => Ok(id),
        None => Err(ParsingError::UnknownLegacyId),
    }
}

fn metadata(
    t: JourneyMetadataType,
    from_stop_id: Option<i32>,
    until_stop_id: Option<i32>,
    resource_id: Option<i32>,
    bit_field_id: Option<i32>,
    departure_time: Option<Time>,
    arrival_time: Option<Time>,
    extra_field_1: Option<String>,
    extra_field_2: Option<i32>,
) -> (r: Amendment)
    ensures
        r.deep_view() == AmendmentV::Metadata(
            t,
            entry_v(
                from_stop_id,
                until_stop_id,
                resource_id,
                bit_field_id,
                departure_time,
                arrival_time,
                extra_field_1.deep_view(),
                extra_field_2,
            ),
        ),
{
    Amendment::Metadata(
        t,
        JourneyMetadataEntry::new(
            from_stop_id,
            until_stop_id,
            resource_id,
            bit_field_id,
            departure_time,
            arrival_time,
            extra_field_1,
            extra_field_2,
        ),
    )
}

/// What a row other than `*Z` adds to the current journey.
fn amendment(
    l: &JourneyLines,
    transport_types: &TextMap,
    attributes: &TextMap,
    directions: &TextMap,
) -> (r: Result<Amendment, ParsingError>)
    ensures
        match amendment_of(l.deep_view(), keyed(transport_types@), keyed(attributes@), keyed(directions@)) {
            Ok(a) => r matches Ok(x) && x.deep_view() == a,
            Err(e) => r matches Err(x) && x.deep_view() == e,
        },
{
    match l {
        JourneyLines::Zline { .. } => Err(ParsingError::MissingRow('A')),
        JourneyLines::Gline { offer, stop_from_id, stop_to_id } => {
            let id = lookup(transport_types, offer)?;
            Ok(
                metadata(
                    JourneyMetadataType::TransportType,
                    *stop_from_id,
                    *stop_to_id,
                    Some(id),
                    None,
                    None,
                    None,
                    None,
                    None,
                ),
            )
        },
        JourneyLines::AVEline { stop_from_id, stop_to_id, bit_field_id } => Ok(
            metadata(
                JourneyMetadataType::BitField,
                *stop_from_id,
                *stop_to_id,
                None,
                *bit_field_id,
                None,
                None,
                None,
                None,
            ),
        ),
        JourneyLines::Aline { offer, stop_from_id, stop_to_id, .. } => {
            let id = lookup(attributes, offer)?;
            Ok(
                metadata(
                    JourneyMetadataType::Attribute,
                    *stop_from_id,
                    *stop_to_id,
                    Some(id),
                    None,
                    None,
                    None,
                    None,
                    None,
                ),
            )
        },
        JourneyLines::Iline {
            info_code,
            stop_from_id,
            stop_to_id,
            validity_ref,
            info_ref,
            departure_time,
            arrival_time,
        } => {
            let a = create_time(*arrival_time)?;
            let d = create_time(*departure_time)?;
            Ok(
                metadata(
                    JourneyMetadataType::InformationText,
                    *stop_from_id,
                    *stop_to_id,
                    Some(*info_ref),
                    *validity_ref,
                    d,
                    a,
                    Some(info_code.clone()),
                    None,
                ),
            )
        },
        JourneyLines::Rline {
            direction,
            ref_direction_code,
            stop_from_id,
            stop_to_id,
            departure_time,
            arrival_time,
        } => {
            let a = create_time(*arrival_time)?;
            let d = create_time(*departure_time)?;
            let direction_id = if ref_direction_code.as_str().unicode_len() == 0 {
                None
            } else {
                Some(lookup(directions, ref_direction_code)?)
            };
            Ok(
                metadata(
                    JourneyMetadataType::Direction,
                    *stop_from_id,
                    *stop_to_id,
                    direction_id,
                    None,
                    d,
                    a,
                    Some(direction.clone()),
                    None,
                ),
            )
        },
        JourneyLines::Lline { line_info, stop_from_id, stop_to_id, departure_time, arrival_time } => {
            let a = create_time(*arrival_time)?;
            let d = create_time(*departure_time)?;
            let chars = chars_of(line_info.as_str());
            if chars.len() == 0 {
                return Err(ParsingError::MissingLineInfo);
            }
            if chars[0] == '#' {
                assert(chars@.subrange(1, chars@.len() as int) =~= line_info@.drop_first());
                match parse_int_in(chars.as_slice(), 1, chars.len(), -0x8000_0000, 0x7fff_ffff) {
                    Some(v) => Ok(
                        metadata(
                            JourneyMetadataType::Line,
                            *stop_from_id,
                            *stop_to_id,
                            Some(v as i32),
                            None,
                            d,
                            a,
                            None,
                            None,
                        ),
                    ),
                    None => Err(
                        ParsingError::InvalidNumber(
                            crate::text::string_of(chars.as_slice(), 1, chars.len()),
                        ),
                    ),
                }
            } else {
                Ok(
                    metadata(
                        JourneyMetadataType::Line,
                        *stop_from_id,
                        *stop_to_id,
                        None,
                        None,
                        d,
                        a,
                        Some(line_info.clone()),
                        None,
                    ),
                )
            }
        },
        JourneyLines::CiLine { num_minutes, stop_from_id, stop_to_id, departure_time, arrival_time } => {
            let a = create_time(*arrival_time)?;
            let d = create_time(*departure_time)?;
            Ok(
                metadata(
                    JourneyMetadataType::ExchangeTimeBoarding,
                    *stop_from_id,
                    *stop_to_id,
                    None,
                    None,
                    d,
                    a,
                    None,
                    Some(*num_minutes),
                ),
            )
        },
        JourneyLines::CoLine { num_minutes, stop_from_id, stop_to_id, departure_time, arrival_time } => {
            let a = create_time(*arrival_time)?;
            let d = create_time(*departure_time)?;
            Ok(
                metadata(
                    JourneyMetadataType::ExchangeTimeDisembarking,
                    *stop_from_id,
                    *stop_to_id,
                    None,
                    None,
                    d,
                    a,
                    None,
                    Some(*num_minutes),
                ),
            )
        },
        JourneyLines::JourneyLine { stop_id, arrival_time, departure_time, .. } => {
            let a = create_time(*arrival_time)?;
            let d = create_time(*departure_time)?;
            Ok(Amendment::Stop(JourneyRouteEntry::new(*stop_id, a, d)))
        },
    }
}


/// Adds `a` to journey `id` of `data`.
fn amend(data: &mut IdMap<Journey>, id: i32, a: Amendment)
    requires
        old(data)@.contains_key(id),
    ensures
        journeys_view(final(data)@) == journeys_view(old(data)@).insert(
            id,
            amended(journeys_view(old(data)@)[id], a.deep_view()),
        ),
{
    let ghost before = journeys_view(data@);
    let ghost av = a.deep_view();
    match id_map_remove(data, id) {
        Some(mut j) => {
            let ghost removed = data@;
            match a {
                Amendment::Metadata(t, e) => j.add_metadata_entry(t, e),
                Amendment::Stop(e) => j.add_route_entry(e),
            }
            let ghost jv = j.deep_view();
            id_map_insert(data, id, j);
            assert(jv == amended(before[id], av));
            assert(journeys_view(data@) =~= before.insert(id, jv));
        },
        None => {},
    }
}

/// Reads one line of the file into the journeys: a `*Z` row starts a journey
/// under the next id and records its key; any other row adds to the journey
/// started last.  On an error nothing changes.
pub fn parse_line(
    line: &str,
    data: &mut IdMap<Journey>,
    pk_type_converter: &mut FxHashSet<(i32, String)>,
    auto_increment: &mut AutoIncrement,
    transport_types_pk_type_converter: &TextMap,
    attributes_pk_type_converter: &TextMap,
    directions_pk_type_converter: &TextMap,
) -> (r: Result<(), ParsingError>)
    requires
        old(auto_increment).can_advance(),
    ensures
        match journey_step(
            fplan_state(old(data)@, old(pk_type_converter)@, old(auto_increment)@),
            line@,
            keyed(transport_types_pk_type_converter@),
            keyed(attributes_pk_type_converter@),
            keyed(directions_pk_type_converter@),
        ) {
            Ok(st) => r is Ok && fplan_state(
                final(data)@,
                final(pk_type_converter)@,
                final(auto_increment)@,
            ) == st,
            Err(e) => r matches Err(x) && x.deep_view() == e && final(data)@ == old(data)@
                && final(pk_type_converter)@ == old(pk_type_converter)@ && final(auto_increment)@
                == old(auto_increment)@,
        },
{
    let s = chars_of(line);
    let row = match journey_row_at(s.as_slice()) {
        Scan::Done(row, _) => row,
        Scan::Error => return Err(ParsingError::Syntax(ScanError::Error)),
        Scan::Incomplete => return Err(ParsingError::Syntax(ScanError::Incomplete)),
    };
    match row {
        JourneyLines::Zline { journey_id, transport_company_id, .. } => {
            let ghost before = journeys_view(data@);
            let id = auto_increment.next();
            journey_set_insert(pk_type_converter, (journey_id, transport_company_id.clone()));
            let journey = Journey::new(id, journey_id, transport_company_id);
            let ghost jv = journey.deep_view();
            id_map_insert(data, id, journey);
            assert(journeys_view(data@) =~= before.insert(id, jv));
            Ok(())
        },
        _ => {
            let current = auto_increment.get();
            match id_map_get(data, current) {
                None => return Err(ParsingError::MissingRow('A')),
                Some(_) => {},
            }
            let a = amendment(
                &row,
                transport_types_pk_type_converter,
                attributes_pk_type_converter,
                directions_pk_type_converter,
            )?;
            amend(data, current, a);
            Ok(())
        },
    }
}

/// The state after the first `n` lines (blank lines are skipped), or the
/// number of the first line that does not read, and why.
pub open spec fn fplan_of(
    lines: Seq<Seq<char>>,
    n: nat,
    transport_types: Map<Seq<char>, i32>,
    attributes: Map<Seq<char>, i32>,
    directions: Map<Seq<char>, i32>,
) -> Result<FplanState, (nat, ParsingErrorV)>
    decreases n,
{
    if n == 0 {
        Ok(FplanState { journeys: Map::empty(), keys: Set::empty(), last: 0 })
    } else {
        match fplan_of(lines, (n - 1) as nat, transport_types, attributes, directions) {
            Err(e) => Err(e),
            Ok(st) => if blank(lines[n - 1]) {
                Ok(st)
            } else {
                match journey_step(st, lines[n - 1], transport_types, attributes, directions) {
                    Ok(st2) => Ok(st2),
                    Err(e) => Err(((n - 1) as nat, e)),
                }
            },
        }
    }
}

/// Once a line does not read, later lines change nothing.
pub proof fn lemma_fplan_error_stays(
    lines: Seq<Seq<char>>,
    n: nat,
    m: nat,
    transport_types: Map<Seq<char>, i32>,
    attributes: Map<Seq<char>, i32>,
    directions: Map<Seq<char>, i32>,
)
    requires
        n <= m,
        fplan_of(lines, n, transport_types, attributes, directions) is Err,
    ensures
        fplan_of(lines, m, transport_types, attributes, directions) == fplan_of(
            lines,
            n,
            transport_types,
            attributes,
            directions,
        ),
    decreases m - n,
{
    if n < m {
        lemma_fplan_error_stays(lines, n, (m - 1) as nat, transport_types, attributes, directions);
    }
}

/// Reads the lines of the FPLAN file `file` into the journeys, by id, and the
/// set of journey keys (number, company); blank lines are skipped.
pub fn parse(
    file: &str,
    lines: &Vec<String>,
    transport_types_pk_type_converter: &TextMap,
    attributes_pk_type_converter: &TextMap,
    directions_pk_type_converter: &TextMap,
) -> (r: HResult<(ResourceStorage<Journey>, FxHashSet<(i32, String)>)>)
    requires
        lines@.len() < i32::MAX,
    ensures
        match (
            r,
            fplan_of(
                crate::parsing::lines::texts(lines@),
                lines@.len(),
                keyed(transport_types_pk_type_converter@),
                keyed(attributes_pk_type_converter@),
                keyed(directions_pk_type_converter@),
            ),
        ) {
            (Ok((st, keys)), Ok(f)) => journeys_view(st.view()) == f.journeys && keyed_set(keys@)
                == f.keys,
            (Err(e), Err((n, why))) => file_error(e, why, file@, lines@[n as int]@, n),
            _ => false,
        },
{
    let ghost texts = crate::parsing::lines::texts(lines@);
    let ghost tt = keyed(transport_types_pk_type_converter@);
    let ghost at = keyed(attributes_pk_type_converter@);
    let ghost dirs = keyed(directions_pk_type_converter@);
    let mut auto_increment = AutoIncrement::new();
    let mut data: IdMap<Journey> = id_map_new();
    let mut pk_type_converter = journey_set_new();
    assert(journeys_view(data@) =~= Map::empty());
    let mut i: usize = 0;
    while i < lines.len()
        invariant
            0 <= i <= lines@.len(),
            lines@.len() < i32::MAX,
            texts == crate::parsing::lines::texts(lines@),
            tt == keyed(transport_types_pk_type_converter@),
            at == keyed(attributes_pk_type_converter@),
            dirs == keyed(directions_pk_type_converter@),
            fplan_of(texts, i as nat, tt, at, dirs) == Ok::<FplanState, (nat, ParsingErrorV)>(
                fplan_state(data@, pk_type_converter@, auto_increment@),
            ),
            0 <= auto_increment@ <= i,
        decreases lines@.len() - i,
    {
        let line = &lines[i];
        assert(texts[i as int] == line@);
        if !is_blank(line.as_str()) {
            match parse_line(
                line.as_str(),
                &mut data,
                &mut pk_type_converter,
                &mut auto_increment,
                transport_types_pk_type_converter,
                attributes_pk_type_converter,
                directions_pk_type_converter,
            ) {
                Ok(()) => {},
                Err(e) => {
                    proof {
                        lemma_fplan_error_stays(texts, (i + 1) as nat, lines@.len(), tt, at, dirs);
                    }
                    return Err(
                        HrdfError::Parsing {
                            error: e,
                            file: String::from_str(file),
                            line: line.clone(),
                            line_number: i,
                        },
                    );
                },
            }
        }
        i = i + 1;
    }
    Ok((ResourceStorage::new(data), pk_type_converter))
}

/// The journeys are numbered 1 up to the last one, each under its own
/// number, and the key (number, administration) of each is recorded.
pub open spec fn journeys_numbered(st: FplanState) -> bool {
    &&& 0 <= st.last
    &&& forall|k: i32| #[trigger] st.journeys.contains_key(k) <==> 1 <= k <= st.last
    &&& forall|k: i32|
        #[trigger] st.journeys.contains_key(k) ==> st.journeys[k].id == k && st.keys.contains(
            (st.journeys[k].legacy_id, st.journeys[k].administration),
        )
}

#[verifier::rlimit(40)]
proof fn lemma_journey_step_numbered(
    st: FplanState,
    line: Seq<char>,
    transport_types: Map<Seq<char>, i32>,
    attributes: Map<Seq<char>, i32>,
    directions: Map<Seq<char>, i32>,
)
    requires
        journeys_numbered(st),
        st.last < i32::MAX,
    ensures
        journey_step(st, line, transport_types, attributes, directions) matches Ok(st2) ==> journeys_numbered(st2)
            && st2.last <= st.last + 1,
{
    match journey_step(st, line, transport_types, attributes, directions) {
        Ok(st2) => {
            match sp_journey_row(line) {
                Scan::Done(JourneyLinesView::Zline { journey_id, transport_company_id, .. }, _) => {
                    let id = st.last + 1;
                    assert(id as i32 == id);
                    assert forall|k: i32| #[trigger] st2.journeys.contains_key(k) implies st2.journeys[k].id == k
                        && st2.keys.contains((st2.journeys[k].legacy_id, st2.journeys[k].administration)) by {
                        if k != id {
                            assert(st.journeys.contains_key(k));
                        }
                    }
                },
                _ => {},
            }
        },
        Err(_) => {},
    }
}

/// The journeys that FPLAN gives are numbered 1 up to the last one, each
/// under its own number, and the key (number, administration) of each is
/// among the keys it gives.
pub proof fn lemma_journeys_numbered(
    lines: Seq<Seq<char>>,
    n: nat,
    transport_types: Map<Seq<char>, i32>,
    attributes: Map<Seq<char>, i32>,
    directions: Map<Seq<char>, i32>,
)
    requires
        n < i32::MAX,
    ensures
        fplan_of(lines, n, transport_types, attributes, directions) matches Ok(st) ==> journeys_numbered(st)
            && st.last <= n,
    decreases n,
{
    if n > 0 {
        lemma_journeys_numbered(lines, (n - 1) as nat, transport_types, attributes, directions);
        match fplan_of(lines, (n - 1) as nat, transport_types, attributes, directions) {
            Ok(st) => {
                lemma_journey_step_numbered(st, lines[n - 1], transport_types, attributes, directions);
            },
            Err(_) => {},
        }
    }
}

} // verus!
