//! # Platforms (GLEIS_LV95 and GLEIS_WGS, or GLEISE_*)
//!
//! Each file holds rows of five kinds, all keyed by a stop and a platform
//! index (`#0000003`):
//!
//! - `8500010 000003 000011 #0000001      053751`: journey 3 of
//!   administration `000011` stops at platform 1 of stop 8500010, from a time
//!   (here none) on the days of bit field 53751;
//! - `8500207 #0000001 G '1' A 'AB'`: platform 1 of stop 8500207 is named `1`
//!   and has the sectors `AB`;
//! - `8500207 #0000001 A 'AB'`: a section, not used;
//! - `8574200 #0000003 g A ch:1:sloid:74200:1:3`: the platform's SLOID;
//! - `8574200 #0000003 k 2692827 1247287 680`: the platform's coordinates
//!   (and height), in the file's coordinate system.
//!
//! Platforms get the ids 1, 2, 3, ... as their rows come; the first row of a
//! stop and index decides.
use vstd::prelude::*;

use crate::calendar::Time;
use crate::error::{PResult, ParsingError, ParsingErrorV};
use crate::models::{
    opt_text, CoordinateSystem, Coordinates, CoordinatesView, JourneyPlatform, JourneyPlatformView,
    Platform, PlatformView,
};
use crate::parsing::lines::{fold_lines, is_blank, lemma_fold_lines_error_stays, scan_failure, texts};
use crate::scan::{
    char_lit, exponent_end, finish, i32_field, mantissa_end, opt_i32_field, real_number, result_view, run0,
    run1, sign_end, sp_char, sp_i32_field, sp_map, sp_opt_i32_field, sp_or, sp_real, sp_result,
    sp_run0, sp_run1, sp_str_field, sp_tag, sp_take_until, sp_then, sp_till_eol, tag_lit,
    take_str_field, take_until, till_eol, CharClass, IResult, Scan,
};
use crate::storage::{
    id_map_get, id_map_insert, id_map_new, id_map_remove, journey_set_contains, keyed_set, pair_map_get,
    pair_map_insert, pair_map_is_empty, pair_map_new, IdMap, PairMap, PairStorage, ResourceStorage,
};
use crate::text::{chars_of, int_to_string, joined, signed_decimal};
use crate::utils::{create_time_from_value, AutoIncrement};
use rustc_hash::FxHashSet;
use vstd::string::StringExecFns;

verus! {

broadcast use vstd::string::group_string_axioms;

/// A row of a platform file.
pub enum PlatformLine {
    JourneyPlatform {
        stop_id: i32,
        journey_id: i32,
        administration: String,
        index: i32,
        time: Option<i32>,
        bit_field_id: Option<i32>,
    },
    Platform { stop_id: i32, index: i32, platform_name: String, code: Option<String> },
    Section { stop_id: i32, index: i32, section_data: String },
    Sloid { stop_id: i32, index: i32, sloid: String },
    Coord { stop_id: i32, index: i32, x: String, y: String, altitude: Option<String> },
}

pub enum PlatformLineView {
    JourneyPlatform {
        stop_id: i32,
        journey_id: i32,
        administration: Seq<char>,
        index: i32,
        time: Option<i32>,
        bit_field_id: Option<i32>,
    },
    Platform { stop_id: i32, index: i32, platform_name: Seq<char>, code: Option<Seq<char>> },
    Section { stop_id: i32, index: i32, section_data: Seq<char> },
    Sloid { stop_id: i32, index: i32, sloid: Seq<char> },
    Coord { stop_id: i32, index: i32, x: Seq<char>, y: Seq<char>, altitude: Option<Seq<char>> },
}

impl DeepView for PlatformLine {
    type V = PlatformLineView;

    open spec fn deep_view(&self) -> PlatformLineView {
        match self {
            PlatformLine::JourneyPlatform { stop_id, journey_id, administration, index, time, bit_field_id } =>
                PlatformLineView::JourneyPlatform {
                stop_id: *stop_id,
                journey_id: *journey_id,
                administration: administration@,
                index: *index,
                time: *time,
                bit_field_id: *bit_field_id,
            },
            PlatformLine::Platform { stop_id, index, platform_name, code } => PlatformLineView::Platform {
                stop_id: *stop_id,
                index: *index,
                platform_name: platform_name@,
                code: opt_text(*code),
            },
            PlatformLine::Section { stop_id, index, section_data } => PlatformLineView::Section {
                stop_id: *stop_id,
                index: *index,
                section_data: section_data@,
            },
            PlatformLine::Sloid { stop_id, index, sloid } => PlatformLineView::Sloid {
                stop_id: *stop_id,
                index: *index,
                sloid: sloid@,
            },
            PlatformLine::Coord { stop_id, index, x, y, altitude } => PlatformLineView::Coord {
                stop_id: *stop_id,
                index: *index,
                x: x@,
                y: y@,
                altitude: opt_text(*altitude),
            },
        }
    }
}

/// A scan made optional: a failure gives nothing, at `p`.
pub open spec fn sp_optional<T>(r: Scan<T>, p: usize) -> Scan<Option<T>> {
    match r {
        Scan::Done(v, q) => Scan::Done(Some(v), q),
        Scan::Error => Scan::Done(None, p),
        Scan::Incomplete => Scan::Incomplete,
    }
}

/// The stop (7 digits), ` #` and the platform index (7 digits).
pub open spec fn sp_platform_key(s: Seq<char>) -> Scan<(i32, i32)> {
    sp_then(
        sp_i32_field(s, 0, 7),
        |stop_id: i32, p1: usize|
            sp_then(
                sp_tag(s, p1, " #"@, false),
                |u: (), p2: usize| sp_map(sp_i32_field(s, p2, 7), |index: i32| (stop_id, index)),
            ),
    )
}

/// Stop (7), journey (6), administration (6), whitespace, `#`, platform
/// index (7), time (4, optional) and bit field (6, optional), one space apart.
pub open spec fn sp_journey_platform_row(s: Seq<char>) -> Scan<PlatformLineView> {
    sp_then(
        sp_i32_field(s, 0, 7),
        |stop_id: i32, p1: usize|
            sp_then(
                sp_char(s, p1, ' ', true),
                |u1: (), p2: usize|
                    sp_then(
                        sp_i32_field(s, p2, 6),
                        |journey_id: i32, p3: usize|
                            sp_then(
                                sp_char(s, p3, ' ', true),
                                |u2: (), p4: usize|
                                    sp_then(
                                        sp_str_field(s, p4, 6),
                                        |administration: Seq<char>, p5: usize|
                                            sp_then(
                                                sp_run1(s, p5, CharClass::Space),
                                                |w: Seq<char>, p6: usize|
                                                    sp_then(
                                                        sp_tag(s, p6, "#"@, false),
                                                        |u3: (), p7: usize|
                                                            sp_then(
                                                                sp_i32_field(s, p7, 7),
                                                                |index: i32, p8: usize|
                                                                    sp_then(
                                                                        sp_char(s, p8, ' ', true),
                                                                        |u4: (), p9: usize|
                                                                            sp_then(
                                                                                sp_opt_i32_field(s, p9, 4),
                                                                                |time: Option<i32>, p10: usize|
                                                                                    sp_then(
                                                                                        sp_char(s, p10, ' ', true),
                                                                                        |u5: (), p11: usize|
                                                                                            sp_map(
                                                                                                sp_opt_i32_field(s, p11, 6),
                                                                                                |bit_field_id: Option<i32>|
                                                                                                    PlatformLineView::JourneyPlatform {
                                                                                                        stop_id,
                                                                                                        journey_id,
                                                                                                        administration,
                                                                                                        index,
                                                                                                        time,
                                                                                                        bit_field_id,
                                                                                                    },
                                                                                            ),
                                                                                    ),
                                                                            ),
                                                                    ),
                                                            ),
                                                    ),
                                            ),
                                    ),
                            ),
                    ),
            ),
    )
}

/// A text between single quotes; when the closing quote is missing the line
/// ends too early.
pub open spec fn sp_quoted(s: Seq<char>, p: usize) -> Scan<Seq<char>> {
    sp_then(
        sp_tag(s, p, "'"@, false),
        |u: (), q: usize|
            sp_then(
                sp_take_until(s, q, "'"@, true, false),
                |t: Seq<char>, q2: usize| sp_map(sp_tag(s, q2, "'"@, false), |u2: ()| t),
            ),
    )
}

/// The key, ` G `, the quoted name, then optionally ` A ` and the quoted sectors.
pub open spec fn sp_platform_row(s: Seq<char>) -> Scan<PlatformLineView> {
    sp_then(
        sp_platform_key(s),
        |k: (i32, i32), p1: usize|
            sp_then(
                sp_tag(s, p1, " G "@, false),
                |u: (), p2: usize|
                    sp_then(
                        sp_quoted(s, p2),
                        |name: Seq<char>, p3: usize|
                            sp_then(
                                sp_optional(sp_tag(s, p3, " A "@, false), p3),
                                |a: Option<()>, p4: usize|
                                    sp_map(
                                        sp_optional(sp_quoted(s, p4), p4),
                                        |code: Option<Seq<char>>|
                                            PlatformLineView::Platform {
                                                stop_id: k.0,
                                                index: k.1,
                                                platform_name: name,
                                                code,
                                            },
                                    ),
                            ),
                    ),
            ),
    )
}

/// The key, ` A ` and the rest of the line.
pub open spec fn sp_section_row(s: Seq<char>) -> Scan<PlatformLineView> {
    sp_then(
        sp_platform_key(s),
        |k: (i32, i32), p1: usize|
            sp_then(
                sp_tag(s, p1, " A "@, false),
                |u: (), p2: usize|
                    sp_map(
                        sp_till_eol(s, p2),
                        |t: Seq<char>| PlatformLineView::Section { stop_id: k.0, index: k.1, section_data: t },
                    ),
            ),
    )
}

/// The key, ` g A ` or ` I A `, and the SLOID up to the end of the line.
pub open spec fn sp_sloid_row(s: Seq<char>) -> Scan<PlatformLineView> {
    sp_then(
        sp_platform_key(s),
        |k: (i32, i32), p1: usize|
            sp_then(
                sp_or(sp_tag(s, p1, " g A "@, false), sp_tag(s, p1, " I A "@, false)),
                |u: (), p2: usize|
                    sp_map(
                        sp_till_eol(s, p2),
                        |t: Seq<char>| PlatformLineView::Sloid { stop_id: k.0, index: k.1, sloid: t },
                    ),
            ),
    )
}

/// Whether a real number at `p` has an exponent mark that no digit follows:
/// such a number makes the whole row invalid, even where it is optional.
pub open spec fn broken_real(s: Seq<char>, p: usize) -> bool {
    match mantissa_end(s, sign_end(s, p as int)) {
        Some(m) => exponent_end(s, m) is None,
        None => false,
    }
}

/// Whitespace (line breaks too, at least one) and a real number, if they follow.
pub open spec fn sp_optional_height(s: Seq<char>, p: usize) -> Scan<Option<Seq<char>>> {
    match sp_run1(s, p, CharClass::MultiSpace) {
        Scan::Done(_, q) => if broken_real(s, q) {
            Scan::Error
        } else {
            match sp_real(s, q) {
                Scan::Done(h, q2) => Scan::Done(Some(h), q2),
                _ => Scan::Done(None, p),
            }
        },
        _ => Scan::Done(None, p),
    }
}

/// The key, ` k` or ` K`, and two or three real numbers apart by whitespace.
pub open spec fn sp_coord_row(s: Seq<char>) -> Scan<PlatformLineView> {
    sp_then(
        sp_platform_key(s),
        |k: (i32, i32), p1: usize|
            sp_then(
                sp_or(sp_tag(s, p1, " k"@, false), sp_tag(s, p1, " K"@, false)),
                |u: (), p2: usize|
                    sp_then(
                        sp_run0(s, p2, CharClass::MultiSpace),
                        |w: Seq<char>, p3: usize|
                            sp_then(
                                sp_real(s, p3),
                                |x: Seq<char>, p4: usize|
                                    sp_then(
                                        sp_run1(s, p4, CharClass::MultiSpace),
                                        |w2: Seq<char>, p5: usize|
                                            sp_then(
                                                sp_real(s, p5),
                                                |y: Seq<char>, p6: usize|
                                                    sp_map(
                                                        sp_optional_height(s, p6),
                                                        |h: Option<Seq<char>>|
                                                            PlatformLineView::Coord {
                                                                stop_id: k.0,
                                                                index: k.1,
                                                                x,
                                                                y,
                                                                altitude: h,
                                                            },
                                                    ),
                                            ),
                                    ),
                            ),
                    ),
            ),
    )
}

/// A row of any kind, the first that matches.
pub open spec fn sp_any_platform_row(s: Seq<char>) -> Scan<PlatformLineView> {
    sp_or(
        sp_journey_platform_row(s),
        sp_or(sp_platform_row(s), sp_or(sp_section_row(s), sp_or(sp_sloid_row(s), sp_coord_row(s)))),
    )
}

fn platform_key_at(s: &[char]) -> (r: Scan<(i32, i32)>)
    ensures
        r.deep_view() == sp_platform_key(s@),
        r matches Scan::Done(_, q) ==> q <= s@.len(),
{
    match i32_field(s, 0, 7) {
        Scan::Done(stop_id, p1) => match tag_lit(s, p1, " #", false) {
            Scan::Done(_, p2) => match i32_field(s, p2, 7) {
                Scan::Done(index, p3) => Scan::Done((stop_id, index), p3),
                Scan::Error => Scan::Error,
                Scan::Incomplete => Scan::Incomplete,
            },
            Scan::Error => Scan::Error,
            Scan::Incomplete => Scan::Incomplete,
        },
        Scan::Error => Scan::Error,
        Scan::Incomplete => Scan::Incomplete,
    }
}

fn journey_platform_row_at(s: &[char]) -> (r: Scan<PlatformLine>)
    ensures
        r.deep_view() == sp_journey_platform_row(s@),
        r matches Scan::Done(_, q) ==> q <= s@.len(),
{
    let stop_id = match i32_field(s, 0, 7) {
        Scan::Done(v, q) => (v, q),
        Scan::Error => return Scan::Error,
        Scan::Incomplete => return Scan::Incomplete,
    };
    let p2 = match char_lit(s, stop_id.1, ' ', true) {
        Scan::Done(_, q) => q,
        Scan::Error => return Scan::Error,
        Scan::Incomplete => return Scan::Incomplete,
    };
    let journey_id = match i32_field(s, p2, 6) {
        Scan::Done(v, q) => (v, q),
        Scan::Error => return Scan::Error,
        Scan::Incomplete => return Scan::Incomplete,
    };
    let p4 = match char_lit(s, journey_id.1, ' ', true) {
        Scan::Done(_, q) => q,
        Scan::Error => return Scan::Error,
        Scan::Incomplete => return Scan::Incomplete,
    };
    let administration = match take_str_field(s, p4, 6) {
        Scan::Done(v, q) => (v, q),
        Scan::Error => return Scan::Error,
        Scan::Incomplete => return Scan::Incomplete,
    };
    let p6 = match run1(s, administration.1, CharClass::Space) {
        Scan::Done(_, q) => q,
        Scan::Error => return Scan::Error,
        Scan::Incomplete => return Scan::Incomplete,
    };
    let p7 = match tag_lit(s, p6, "#", false) {
        Scan::Done(_, q) => q,
        Scan::Error => return Scan::Error,
        Scan::Incomplete => return Scan::Incomplete,
    };
    let index = match i32_field(s, p7, 7) {
        Scan::Done(v, q) => (v, q),
        Scan::Error => return Scan::Error,
        Scan::Incomplete => return Scan::Incomplete,
    };
    let p9 = match char_lit(s, index.1, ' ', true) {
        Scan::Done(_, q) => q,
        Scan::Error => return Scan::Error,
        Scan::Incomplete => return Scan::Incomplete,
    };
    let time = match opt_i32_field(s, p9, 4) {
        Scan::Done(v, q) => (v, q),
        Scan::Error => return Scan::Error,
        Scan::Incomplete => return Scan::Incomplete,
    };
    let p11 = match char_lit(s, time.1, ' ', true) {
        Scan::Done(_, q) => q,
        Scan::Error => return Scan::Error,
        Scan::Incomplete => return Scan::Incomplete,
    };
    match opt_i32_field(s, p11, 6) {
        Scan::Done(bit_field_id, q) => Scan::Done(
            PlatformLine::JourneyPlatform {
                stop_id: stop_id.0,
                journey_id: journey_id.0,
                administration: administration.0,
                index: index.0,
                time: time.0,
                bit_field_id,
            },
            q,
        ),
        Scan::Error => Scan::Error,
        Scan::Incomplete => Scan::Incomplete,
    }
}

fn quoted_at(s: &[char], p: usize) -> (r: Scan<String>)
    requires
        p <= s@.len(),
    ensures
        r.deep_view() == sp_quoted(s@, p),
        r matches Scan::Done(_, q) ==> p <= q <= s@.len(),
{
    match tag_lit(s, p, "'", false) {
        Scan::Done(_, q) => match take_until(s, q, "'", true, false) {
            Scan::Done(t, q2) => match tag_lit(s, q2, "'", false) {
                Scan::Done(_, q3) => Scan::Done(t, q3),
                Scan::Error => Scan::Error,
                Scan::Incomplete => Scan::Incomplete,
            },
            Scan::Error => Scan::Error,
            Scan::Incomplete => Scan::Incomplete,
        },
        Scan::Error => Scan::Error,
        Scan::Incomplete => Scan::Incomplete,
    }
}

fn platform_row_at(s: &[char]) -> (r: Scan<PlatformLine>)
    ensures
        r.deep_view() == sp_platform_row(s@),
        r matches Scan::Done(_, q) ==> q <= s@.len(),
{
    let k = match platform_key_at(s) {
        Scan::Done(v, q) => (v, q),
        Scan::Error => return Scan::Error,
        Scan::Incomplete => return Scan::Incomplete,
    };
    let p2 = match tag_lit(s, k.1, " G ", false) {
        Scan::Done(_, q) => q,
        Scan::Error => return Scan::Error,
        Scan::Incomplete => return Scan::Incomplete,
    };
    let name = match quoted_at(s, p2) {
        Scan::Done(v, q) => (v, q),
        Scan::Error => return Scan::Error,
        Scan::Incomplete => return Scan::Incomplete,
    };
    let p4 = match tag_lit(s, name.1, " A ", false) {
        Scan::Done(_, q) => q,
        Scan::Error => name.1,
        Scan::Incomplete => return Scan::Incomplete,
    };
    match quoted_at(s, p4) {
        Scan::Done(code, q) => Scan::Done(
            PlatformLine::Platform { stop_id: (k.0).0, index: (k.0).1, platform_name: name.0, code: Some(code) },
            q,
        ),
        Scan::Error => Scan::Done(
            PlatformLine::Platform { stop_id: (k.0).0, index: (k.0).1, platform_name: name.0, code: None },
            p4,
        ),
        Scan::Incomplete => Scan::Incomplete,
    }
}

fn section_row_at(s: &[char]) -> (r: Scan<PlatformLine>)
    ensures
        r.deep_view() == sp_section_row(s@),
        r matches Scan::Done(_, q) ==> q <= s@.len(),
{
    match platform_key_at(s) {
        Scan::Done(k, p1) => match tag_lit(s, p1, " A ", false) {
            Scan::Done(_, p2) => match till_eol(s, p2) {
                Scan::Done(t, q) => Scan::Done(PlatformLine::Section { stop_id: k.0, index: k.1, section_data: t }, q),
                _ => Scan::Error,
            },
            Scan::Error => Scan::Error,
            Scan::Incomplete => Scan::Incomplete,
        },
        Scan::Error => Scan::Error,
        Scan::Incomplete => Scan::Incomplete,
    }
}

fn sloid_row_at(s: &[char]) -> (r: Scan<PlatformLine>)
    ensures
        r.deep_view() == sp_sloid_row(s@),
        r matches Scan::Done(_, q) ==> q <= s@.len(),
{
    match platform_key_at(s) {
        Scan::Done(k, p1) => {
            let p2 = match tag_lit(s, p1, " g A ", false) {
                Scan::Done(_, q) => q,
                Scan::Incomplete => return Scan::Incomplete,
                Scan::Error => match tag_lit(s, p1, " I A ", false) {
                    Scan::Done(_, q) => q,
                    Scan::Incomplete => return Scan::Incomplete,
                    Scan::Error => return Scan::Error,
                },
            };
            match till_eol(s, p2) {
                Scan::Done(t, q) => Scan::Done(PlatformLine::Sloid { stop_id: k.0, index: k.1, sloid: t }, q),
                _ => Scan::Error,
            }
        },
        Scan::Error => Scan::Error,
        Scan::Incomplete => Scan::Incomplete,
    }
}

fn broken_real_at(s: &[char], p: usize) -> (r: bool)
    requires
        p <= s@.len(),
    ensures
        r == broken_real(s@, p),
{
    let p1 = if p < s.len() && (s[p] == '+' || s[p] == '-') { p + 1 } else { p };
    let d = crate::scan::run_end_at(s, p1, &CharClass::Digit);
    let m: usize = if d > p1 {
        if d < s.len() && s[d] == '.' {
            crate::scan::run_end_at(s, d + 1, &CharClass::Digit)
        } else {
            d
        }
    } else if p1 < s.len() && s[p1] == '.' {
        let f = crate::scan::run_end_at(s, p1 + 1, &CharClass::Digit);
        if f > p1 + 1 {
            f
        } else {
            return false;
        }
    } else {
        return false;
    };
    assert(mantissa_end(s@, sign_end(s@, p as int)) == Some(m as int));
    if m < s.len() && (s[m] == 'e' || s[m] == 'E') {
        let r0 = if m + 1 < s.len() && (s[m + 1] == '+' || s[m + 1] == '-') { m + 2 } else { m + 1 };
        let e = crate::scan::run_end_at(s, r0, &CharClass::Digit);
        e == r0
    } else {
        false
    }
}

fn optional_height_at(s: &[char], p: usize) -> (r: Scan<Option<String>>)
    requires
        p <= s@.len(),
    ensures
        r.deep_view() == sp_optional_height(s@, p),
        r matches Scan::Done(_, q) ==> p <= q <= s@.len(),
{
    match run1(s, p, CharClass::MultiSpace) {
        Scan::Done(_, q) => {
            if broken_real_at(s, q) {
                Scan::Error
            } else {
                match real_number(s, q) {
                    Scan::Done(h, q2) => Scan::Done(Some(h), q2),
                    _ => Scan::Done(None, p),
                }
            }
        },
        _ => Scan::Done(None, p),
    }
}

fn coord_row_at(s: &[char]) -> (r: Scan<PlatformLine>)
    ensures
        r.deep_view() == sp_coord_row(s@),
        r matches Scan::Done(_, q) ==> q <= s@.len(),
{
    let k = match platform_key_at(s) {
        Scan::Done(v, q) => (v, q),
        Scan::Error => return Scan::Error,
        Scan::Incomplete => return Scan::Incomplete,
    };
    let p2 = match tag_lit(s, k.1, " k", false) {
        Scan::Done(_, q) => q,
        Scan::Incomplete => return Scan::Incomplete,
        Scan::Error => match tag_lit(s, k.1, " K", false) {
            Scan::Done(_, q) => q,
            Scan::Incomplete => return Scan::Incomplete,
            Scan::Error => return Scan::Error,
        },
    };
    let p3 = match run0(s, p2, CharClass::MultiSpace) {
        Scan::Done(_, q) => q,
        _ => return Scan::Error,
    };
    let x = match real_number(s, p3) {
        Scan::Done(v, q) => (v, q),
        Scan::Error => return Scan::Error,
        Scan::Incomplete => return Scan::Incomplete,
    };
    let p5 = match run1(s, x.1, CharClass::MultiSpace) {
        Scan::Done(_, q) => q,
        Scan::Error => return Scan::Error,
        Scan::Incomplete => return Scan::Incomplete,
    };
    let y = match real_number(s, p5) {
        Scan::Done(v, q) => (v, q),
        Scan::Error => return Scan::Error,
        Scan::Incomplete => return Scan::Incomplete,
    };
    match optional_height_at(s, y.1) {
        Scan::Done(h, q) => Scan::Done(
            PlatformLine::Coord { stop_id: (k.0).0, index: (k.0).1, x: x.0, y: y.0, altitude: h },
            q,
        ),
        Scan::Error => Scan::Error,
        Scan::Incomplete => Scan::Incomplete,
    }
}

fn any_platform_row_at(s: &[char]) -> (r: Scan<PlatformLine>)
    ensures
        r.deep_view() == sp_any_platform_row(s@),
        r matches Scan::Done(_, q) ==> q <= s@.len(),
{
    match journey_platform_row_at(s) {
        Scan::Error => {},
        r => return r,
    }
    match platform_row_at(s) {
        Scan::Error => {},
        r => return r,
    }
    match section_row_at(s) {
        Scan::Error => {},
        r => return r,
    }
    match sloid_row_at(s) {
        Scan::Error => {},
        r => return r,
    }
    coord_row_at(s)
}

/// Reads a journey platform row.
pub fn journey_platform_combinator(input: &str) -> (r: IResult<PlatformLine>)
    ensures
        result_view(r) == sp_result(input@, sp_journey_platform_row(input@)),
{
    let s = chars_of(input);
    let r = journey_platform_row_at(s.as_slice());
    finish(s.as_slice(), r)
}

/// Reads a platform row.
pub fn platform_combinator(input: &str) -> (r: IResult<PlatformLine>)
    ensures
        result_view(r) == sp_result(input@, sp_platform_row(input@)),
{
    let s = chars_of(input);
    let r = platform_row_at(s.as_slice());
    finish(s.as_slice(), r)
}

/// Reads a section row.
pub fn section_combinator(input: &str) -> (r: IResult<PlatformLine>)
    ensures
        result_view(r) == sp_result(input@, sp_section_row(input@)),
{
    let s = chars_of(input);
    let r = section_row_at(s.as_slice());
    finish(s.as_slice(), r)
}

/// Reads a SLOID row.
pub fn sloid_combinator(input: &str) -> (r: IResult<PlatformLine>)
    ensures
        result_view(r) == sp_result(input@, sp_sloid_row(input@)),
{
    let s = chars_of(input);
    let r = sloid_row_at(s.as_slice());
    finish(s.as_slice(), r)
}

/// Reads a coordinates row.
pub fn coord_combinator(input: &str) -> (r: IResult<PlatformLine>)
    ensures
        result_view(r) == sp_result(input@, sp_coord_row(input@)),
{
    let s = chars_of(input);
    let r = coord_row_at(s.as_slice());
    finish(s.as_slice(), r)
}

// ------------------------------------------------------------------------------------------
// The platforms that the files give
// ------------------------------------------------------------------------------------------

/// What the rows read so far give: the platforms by id, the journey
/// platforms by (journey, platform), the platform ids by (stop, index), and
/// the last id handed out.
pub struct PlatformsState {
    pub platforms: Map<i32, PlatformView>,
    pub journey_platforms: Map<(i32, i32), JourneyPlatformView>,
    pub keys: Map<(i32, i32), i32>,
    pub last_id: int,
}

pub open spec fn platforms_view(m: Map<i32, Platform>) -> Map<i32, PlatformView> {
    m.map_values(|x: Platform| x.deep_view())
}

pub open spec fn journey_platforms_view(m: Map<(i32, i32), JourneyPlatform>) -> Map<(i32, i32), JourneyPlatformView> {
    m.map_values(|x: JourneyPlatform| x.deep_view())
}

/// The error text of an unknown journey.
pub open spec fn unknown_journey_text(journey_id: i32, administration: Seq<char>) -> Seq<char> {
    "Journey Legacy Id (journey_id, administration): ("@ + signed_decimal(journey_id as int) + ", "@
        + administration + ")"@
}

/// The error text of an unknown (stop, index).
pub open spec fn unknown_platform_key_text(stop_id: i32, index: i32) -> Seq<char> {
    "Legacy Platform Id (stop_id, index): ("@ + signed_decimal(stop_id as int) + ", "@ + signed_decimal(
        index as int,
    ) + ")"@
}

/// The error text of an unknown platform id.
pub open spec fn unknown_platform_text(id: i32) -> Seq<char> {
    "Unknown platforms Id: "@ + signed_decimal(id as int)
}

/// The time that a number `hhmm` writes, if any.
pub open spec fn time_of_value(time: Option<i32>) -> Result<Option<Time>, ParsingErrorV> {
    match time {
        None => Ok(None),
        Some(x) => {
            let v = x as u32;
            if v / 100 < 24 && v % 100 < 60 {
                Ok(Some(Time { hour: v / 100, minute: v % 100 }))
            } else {
                Err(ParsingErrorV::UnableToBuildTime(v / 100, v % 100, 0))
            }
        },
    }
}

/// The platform `v` once located at (`x`, `y`) in `cs`; the WGS84 files
/// write the latitude first, so its two coordinates are swapped.
pub open spec fn platform_located(v: PlatformView, cs: CoordinateSystem, x: Seq<char>, y: Seq<char>) -> PlatformView {
    match cs {
        CoordinateSystem::LV95 => PlatformView {
            lv95_coordinates: CoordinatesView { coordinate_system: cs, x, y },
            ..v
        },
        CoordinateSystem::WGS84 => PlatformView {
            wgs84_coordinates: CoordinatesView { coordinate_system: cs, x: y, y: x },
            ..v
        },
    }
}

/// The platform that (stop, index) names, or why there is none.
pub open spec fn platform_of(st: PlatformsState, stop_id: i32, index: i32) -> Result<i32, ParsingErrorV> {
    if !st.keys.contains_key((stop_id, index)) {
        Err(ParsingErrorV::UnknownId(unknown_platform_key_text(stop_id, index)))
    } else if !st.platforms.contains_key(st.keys[(stop_id, index)]) {
        Err(ParsingErrorV::UnknownId(unknown_platform_text(st.keys[(stop_id, index)])))
    } else {
        Ok(st.keys[(stop_id, index)])
    }
}

/// What a row makes of `st`, in a file of coordinate system `cs`, where
/// `journeys` are the known journeys (number, administration).
#[verifier::opaque]
pub open spec fn platform_step(
    cs: CoordinateSystem,
    journeys: Set<(i32, Seq<char>)>,
    st: PlatformsState,
    line: Seq<char>,
) -> Result<PlatformsState, ParsingErrorV> {
    match sp_any_platform_row(line) {
        Scan::Done(row, _) => match row {
            PlatformLineView::JourneyPlatform { stop_id, journey_id, administration, index, time, bit_field_id } => {
                if !journeys.contains((journey_id, administration)) {
                    Err(ParsingErrorV::UnknownId(unknown_journey_text(journey_id, administration)))
                } else if st.keys.dom() == Set::<(i32, i32)>::empty() {
                    Ok(st)
                } else if !st.keys.contains_key((stop_id, index)) {
                    Err(ParsingErrorV::UnknownId(unknown_platform_key_text(stop_id, index)))
                } else {
                    let platform_id = st.keys[(stop_id, index)];
                    match time_of_value(time) {
                        Err(e) => Err(e),
                        Ok(t) => Ok(
                            PlatformsState {
                                journey_platforms: st.journey_platforms.insert(
                                    (journey_id, platform_id),
                                    JourneyPlatformView {
                                        journey_legacy_id: journey_id,
                                        administration,
                                        platform_id,
                                        time: t,
                                        bit_field_id,
                                    },
                                ),
                                ..st
                            },
                        ),
                    }
                }
            },
            PlatformLineView::Section { .. } => Ok(st),
            PlatformLineView::Platform { stop_id, index, platform_name, code } => {
                let fresh_id = (st.last_id + 1) as i32;
                let id = if st.keys.contains_key((stop_id, index)) {
                    st.keys[(stop_id, index)]
                } else {
                    fresh_id
                };
                Ok(
                    PlatformsState {
                        keys: st.keys.insert((stop_id, index), id),
                        platforms: if st.platforms.contains_key(id) {
                            st.platforms
                        } else {
                            st.platforms.insert(id, PlatformView::fresh(id, platform_name, code, stop_id))
                        },
                        last_id: st.last_id + 1,
                        ..st
                    },
                )
            },
            PlatformLineView::Sloid { stop_id, index, sloid } => match platform_of(st, stop_id, index) {
                Err(e) => Err(e),
                Ok(id) => Ok(
                    PlatformsState { platforms: st.platforms.insert(id, PlatformView { sloid, ..st.platforms[id] }), ..st },
                ),
            },
            PlatformLineView::Coord { stop_id, index, x, y, .. } => match platform_of(st, stop_id, index) {
                Err(e) => Err(e),
                Ok(id) => Ok(
                    PlatformsState {
                        platforms: st.platforms.insert(id, platform_located(st.platforms[id], cs, x, y)),
                        ..st
                    },
                ),
            },
        },
        r => Err(ParsingErrorV::Syntax(scan_failure(r))),
    }
}

/// The state that the maps and the counter hold.
pub open spec fn platforms_state(
    platforms: Map<i32, Platform>,
    journey_platforms: Map<(i32, i32), JourneyPlatform>,
    keys: Map<(i32, i32), i32>,
    last_id: int,
) -> PlatformsState {
    PlatformsState {
        platforms: platforms_view(platforms),
        journey_platforms: journey_platforms_view(journey_platforms),
        keys,
        last_id,
    }
}

fn unknown_platform_key(stop_id: i32, index: i32) -> (r: ParsingError)
    ensures
        r.deep_view() == ParsingErrorV::UnknownId(unknown_platform_key_text(stop_id, index)),
{
    let t = joined("Legacy Platform Id (stop_id, index): (", int_to_string(stop_id as i64).as_str());
    let t = joined(t.as_str(), ", ");
    let t = joined(t.as_str(), int_to_string(index as i64).as_str());
    ParsingError::UnknownId(joined(t.as_str(), ")"))
}

/// The platform that (stop, index) names, taken out of `platforms` to be
/// put back changed.
fn take_platform(
    platforms: &mut IdMap<Platform>,
    keys: &PairMap<i32>,
    stop_id: i32,
    index: i32,
) -> (r: Result<(i32, Platform), ParsingError>)
    ensures
        match platform_of(platforms_state(old(platforms)@, Map::empty(), keys@, 0), stop_id, index) {
            Ok(id) => r matches Ok((i, p)) && i == id && p == old(platforms)@[id] && final(platforms)@ == old(platforms)@.remove(id),
            Err(e) => r matches Err(x) && x.deep_view() == e && final(platforms)@ == old(platforms)@,
        },
{
    let id = match pair_map_get(keys, (stop_id, index)) {
        Some(id) => *id,
        None => return Err(unknown_platform_key(stop_id, index)),
    };
    match id_map_remove(platforms, id) {
        Some(p) => Ok((id, p)),
        None => {
            assert(old(platforms)@.remove(id) =~= old(platforms)@);
            Err(ParsingError::UnknownId(joined("Unknown platforms Id: ", int_to_string(id as i64).as_str())))
        },
    }
}

proof fn lemma_platforms_view_replace(m: Map<i32, Platform>, k: i32, v: Platform)
    requires
        m.contains_key(k),
    ensures
        platforms_view(m.remove(k).insert(k, v)) == platforms_view(m).insert(k, v.deep_view()),
{
    assert(platforms_view(m.remove(k).insert(k, v)) =~= platforms_view(m).insert(k, v.deep_view()));
}

/// Applies a row of a platform file of coordinate system `cs`.  On an error
/// nothing changes.
pub fn parse_line(
    line: &str,
    platforms: &mut IdMap<Platform>,
    journey_platforms: &mut PairMap<JourneyPlatform>,
    keys: &mut PairMap<i32>,
    journeys: &FxHashSet<(i32, String)>,
    auto_increment: &mut AutoIncrement,
    cs: CoordinateSystem,
) -> (r: PResult<()>)
    requires
        old(auto_increment).can_advance(),
    ensures
        match platform_step(
            cs,
            keyed_set(journeys@),
            platforms_state(old(platforms)@, old(journey_platforms)@, old(keys)@, old(auto_increment)@),
            line@,
        ) {
            Ok(st) => r is Ok && platforms_state(final(platforms)@, final(journey_platforms)@, final(keys)@, final(auto_increment)@) == st,
            Err(e) => r matches Err(x) && x.deep_view() == e && final(platforms)@ == old(platforms)@
                && final(journey_platforms)@ == old(journey_platforms)@ && final(keys)@ == old(keys)@
                && final(auto_increment)@ == old(auto_increment)@,
        },
        old(auto_increment)@ <= final(auto_increment)@ <= old(auto_increment)@ + 1,
{
    reveal(platform_step);
    let ghost st0 = platforms_state(platforms@, journey_platforms@, keys@, auto_increment@);
    let s = chars_of(line);
    let row = match any_platform_row_at(s.as_slice()) {
        Scan::Done(row, _) => row,
        Scan::Error => return Err(ParsingError::Syntax(crate::scan::ScanError::Error)),
        Scan::Incomplete => return Err(ParsingError::Syntax(crate::scan::ScanError::Incomplete)),
    };
    match row {
        PlatformLine::JourneyPlatform { stop_id, journey_id, administration, index, time, bit_field_id } => {
            let key = (journey_id, administration);
            if !journey_set_contains(journeys, &key) {
                let t = joined("Journey Legacy Id (journey_id, administration): (", int_to_string(journey_id as i64).as_str());
                let t = joined(t.as_str(), ", ");
                let t = joined(t.as_str(), key.1.as_str());
                return Err(ParsingError::UnknownId(joined(t.as_str(), ")")));
            }
            if pair_map_is_empty(keys) {
                return Ok(());
            }
            let platform_id = match pair_map_get(keys, (stop_id, index)) {
                Some(id) => *id,
                None => return Err(unknown_platform_key(stop_id, index)),
            };
            let t = match time {
                Some(x) => match create_time_from_value(x as u32) {
                    Ok(t) => Some(t),
                    Err(e) => return Err(e),
                },
                None => None,
            };
            let jp = JourneyPlatform::new(journey_id, key.1, platform_id, t, bit_field_id);
            let ghost jpv = jp.deep_view();
            let k = jp.id();
            pair_map_insert(journey_platforms, k, jp);
            assert(journey_platforms_view(journey_platforms@) =~= st0.journey_platforms.insert(k, jpv));
            Ok(())
        },
        PlatformLine::Section { .. } => Ok(()),
        PlatformLine::Platform { stop_id, index, platform_name, code } => {
            let fresh_id = auto_increment.next();
            let id = match pair_map_get(keys, (stop_id, index)) {
                Some(id) => *id,
                None => fresh_id,
            };
            pair_map_insert(keys, (stop_id, index), id);
            match id_map_get(platforms, id) {
                Some(_) => {},
                None => {
                    let platform = Platform::new(id, platform_name, code, stop_id);
                    let ghost pv = platform.deep_view();
                    let ghost before = platforms@;
                    id_map_insert(platforms, id, platform);
                    assert(platforms_view(platforms@) =~= platforms_view(before).insert(id, pv));
                },
            }
            Ok(())
        },
        PlatformLine::Sloid { stop_id, index, sloid } => {
            let (id, mut platform) = match take_platform(platforms, keys, stop_id, index) {
                Ok(x) => x,
                Err(e) => return Err(e),
            };
            platform.sloid = sloid;
            proof {
                lemma_platforms_view_replace(old(platforms)@, id, platform);
            }
            id_map_insert(platforms, id, platform);
            Ok(())
        },
        PlatformLine::Coord { stop_id, index, x, y, .. } => {
            let (id, mut platform) = match take_platform(platforms, keys, stop_id, index) {
                Ok(x) => x,
                Err(e) => return Err(e),
            };
            match cs {
                CoordinateSystem::LV95 => {
                    platform.lv95_coordinates = Coordinates::new(cs, x, y);
                },
                CoordinateSystem::WGS84 => {
                    platform.wgs84_coordinates = Coordinates::new(cs, y, x);
                },
            }
            proof {
                lemma_platforms_view_replace(old(platforms)@, id, platform);
            }
            id_map_insert(platforms, id, platform);
            Ok(())
        },
    }
}

/// The rows of a platform file each change the state by this.
pub open spec fn platform_stepper(cs: CoordinateSystem, journeys: Set<(i32, Seq<char>)>) -> spec_fn(
    PlatformsState,
    Seq<char>,
) -> Result<PlatformsState, ParsingErrorV> {
    |st: PlatformsState, l: Seq<char>| platform_step(cs, journeys, st, l)
}

/// What the non-blank lines of a platform file make of `st`.
pub open spec fn platform_file(
    cs: CoordinateSystem,
    journeys: Set<(i32, Seq<char>)>,
    st: PlatformsState,
    lines: Seq<Seq<char>>,
) -> Result<PlatformsState, (nat, ParsingErrorV)> {
    fold_lines(st, lines, lines.len(), platform_stepper(cs, journeys))
}

/// Applies the lines of a platform file of coordinate system `cs`.
fn parse_file(
    cs: CoordinateSystem,
    lines: &Vec<String>,
    platforms: &mut IdMap<Platform>,
    journey_platforms: &mut PairMap<JourneyPlatform>,
    keys: &mut PairMap<i32>,
    journeys: &FxHashSet<(i32, String)>,
    auto_increment: &mut AutoIncrement,
) -> (r: PResult<()>)
    requires
        0 <= old(auto_increment)@,
        old(auto_increment)@ + lines@.len() < i32::MAX,
    ensures
        match platform_file(
            cs,
            keyed_set(journeys@),
            platforms_state(old(platforms)@, old(journey_platforms)@, old(keys)@, old(auto_increment)@),
            texts(lines@),
        ) {
            Ok(st) => r is Ok && platforms_state(final(platforms)@, final(journey_platforms)@, final(keys)@, final(auto_increment)@) == st,
            Err((n, why)) => r matches Err(e) && e.deep_view() == why,
        },
        old(auto_increment)@ <= final(auto_increment)@ <= old(auto_increment)@ + lines@.len(),
{
    let ghost step = platform_stepper(cs, keyed_set(journeys@));
    let ghost start = platforms_state(platforms@, journey_platforms@, keys@, auto_increment@);
    let ghost a0 = auto_increment@;
    let mut i: usize = 0;
    while i < lines.len()
        invariant
            0 <= i <= lines@.len(),
            texts(lines@).len() == lines@.len(),
            step == platform_stepper(cs, keyed_set(journeys@)),
            start == platforms_state(old(platforms)@, old(journey_platforms)@, old(keys)@, old(auto_increment)@),
            a0 == old(auto_increment)@,
            0 <= a0,
            a0 + lines@.len() < i32::MAX,
            a0 <= auto_increment@ <= a0 + i,
            fold_lines(start, texts(lines@), i as nat, step) == Ok::<_, (nat, ParsingErrorV)>(
                platforms_state(platforms@, journey_platforms@, keys@, auto_increment@),
            ),
        decreases lines@.len() - i,
    {
        let line = &lines[i];
        assert(texts(lines@)[i as int] == line@);
        if !is_blank(line.as_str()) {
            match parse_line(line.as_str(), platforms, journey_platforms, keys, journeys, auto_increment, cs) {
                Ok(()) => {},
                Err(e) => {
                    assert(fold_lines(start, texts(lines@), (i + 1) as nat, step) == Err::<PlatformsState, _>((i as nat, e.deep_view())));
                    proof {
                        lemma_fold_lines_error_stays(start, texts(lines@), (i + 1) as nat, lines@.len(), step);
                    }
                    return Err(e);
                },
            }
        }
        i = i + 1;
    }
    Ok(())
}

/// No platforms yet.
pub open spec fn no_platforms() -> PlatformsState {
    PlatformsState { platforms: Map::empty(), journey_platforms: Map::empty(), keys: Map::empty(), last_id: 0 }
}

/// What the two platform files give, LV95 first, then WGS84, where
/// `journeys` are the known journeys; or why a line does not read.
pub open spec fn platforms_from(
    journeys: Set<(i32, Seq<char>)>,
    lv95: Seq<Seq<char>>,
    wgs84: Seq<Seq<char>>,
) -> Result<PlatformsState, ParsingErrorV> {
    match platform_file(CoordinateSystem::LV95, journeys, no_platforms(), lv95) {
        Err((_, e)) => Err(e),
        Ok(st) => match platform_file(CoordinateSystem::WGS84, journeys, st, wgs84) {
            Err((_, e)) => Err(e),
            Ok(st2) => Ok(st2),
        },
    }
}

/// Reads the platforms from the lines of the LV95 file and then of the
/// WGS84 file; a journey platform must name a known journey.  Gives the
/// journey platforms and the platforms.
pub fn parse(
    lv95: &Vec<String>,
    wgs84: &Vec<String>,
    journeys: &FxHashSet<(i32, String)>,
) -> (r: PResult<(PairStorage<JourneyPlatform>, ResourceStorage<Platform>)>)
    requires
        lv95@.len() + wgs84@.len() < i32::MAX,
    ensures
        match (r, platforms_from(keyed_set(journeys@), texts(lv95@), texts(wgs84@))) {
            (Ok((jp, pl)), Ok(st)) => journey_platforms_view(jp.view()) == st.journey_platforms
                && platforms_view(pl.view()) == st.platforms,
            (Err(e), Err(why)) => e.deep_view() == why,
            _ => false,
        },
{
    let mut platforms: IdMap<Platform> = id_map_new();
    let mut journey_platforms: PairMap<JourneyPlatform> = pair_map_new();
    let mut keys: PairMap<i32> = pair_map_new();
    let mut auto_increment = AutoIncrement::new();
    assert(platforms_state(platforms@, journey_platforms@, keys@, auto_increment@) == no_platforms()) by {
        assert(platforms_view(platforms@) =~= Map::empty());
        assert(journey_platforms_view(journey_platforms@) =~= Map::empty());
        assert(keys@ =~= Map::empty());
    }
    parse_file(
        CoordinateSystem::LV95,
        lv95,
        &mut platforms,
        &mut journey_platforms,
        &mut keys,
        journeys,
        &mut auto_increment,
    )?;
    parse_file(
        CoordinateSystem::WGS84,
        wgs84,
        &mut platforms,
        &mut journey_platforms,
        &mut keys,
        journeys,
        &mut auto_increment,
    )?;
    Ok((PairStorage::new(journey_platforms), ResourceStorage::new(platforms)))
}

/// Every (stop, index) names a platform that is there, every platform is
/// under its own id, and every journey platform names a platform that is
/// there.
pub open spec fn platforms_consistent(st: PlatformsState) -> bool {
    &&& forall|k: (i32, i32)| #[trigger] st.keys.contains_key(k) ==> st.platforms.contains_key(st.keys[k])
    &&& forall|id: i32| #[trigger] st.platforms.contains_key(id) ==> st.platforms[id].id == id
    &&& forall|k: (i32, i32)|
        #[trigger] st.journey_platforms.contains_key(k) ==> st.platforms.contains_key(
            st.journey_platforms[k].platform_id,
        )
}

proof fn lemma_platform_step_consistent(
    cs: CoordinateSystem,
    journeys: Set<(i32, Seq<char>)>,
    st: PlatformsState,
    line: Seq<char>,
)
    requires
        platforms_consistent(st),
    ensures
        platform_step(cs, journeys, st, line) matches Ok(st2) ==> platforms_consistent(st2),
{
    reveal(platform_step);
    match platform_step(cs, journeys, st, line) {
        Ok(st2) => {
            match sp_any_platform_row(line) {
                Scan::Done(PlatformLineView::Platform { stop_id, index, platform_name, code }, _) => {
                    let id = st2.keys[(stop_id, index)];
                    assert(st2.platforms.contains_key(id));
                    assert forall|k: (i32, i32)| #[trigger] st2.keys.contains_key(k) implies st2.platforms.contains_key(
                        st2.keys[k],
                    ) by {
                        if k != (stop_id, index) {
                            assert(st.keys.contains_key(k));
                        }
                    }
                },
                _ => {},
            }
        },
        Err(_) => {},
    }
}

proof fn lemma_platform_file_consistent(
    cs: CoordinateSystem,
    journeys: Set<(i32, Seq<char>)>,
    st: PlatformsState,
    lines: Seq<Seq<char>>,
    n: nat,
)
    requires
        platforms_consistent(st),
    ensures
        fold_lines(st, lines, n, platform_stepper(cs, journeys)) matches Ok(st2) ==> platforms_consistent(st2),
    decreases n,
{
    if n > 0 {
        lemma_platform_file_consistent(cs, journeys, st, lines, (n - 1) as nat);
        match fold_lines(st, lines, (n - 1) as nat, platform_stepper(cs, journeys)) {
            Ok(s1) => {
                lemma_platform_step_consistent(cs, journeys, s1, lines[n - 1]);
            },
            Err(_) => {},
        }
    }
}

/// What the platform files give is consistent: each (stop, index) names a
/// platform that was read, each platform is under its own id, and each
/// journey platform names a platform that was read.
pub proof fn lemma_platforms_consistent(
    journeys: Set<(i32, Seq<char>)>,
    lv95: Seq<Seq<char>>,
    wgs84: Seq<Seq<char>>,
)
    ensures
        platforms_from(journeys, lv95, wgs84) matches Ok(st) ==> platforms_consistent(st),
{
    lemma_platform_file_consistent(CoordinateSystem::LV95, journeys, no_platforms(), lv95, lv95.len());
    match platform_file(CoordinateSystem::LV95, journeys, no_platforms(), lv95) {
        Ok(st) => {
            lemma_platform_file_consistent(CoordinateSystem::WGS84, journeys, st, wgs84, wgs84.len());
        },
        Err(_) => {},
    }
}

} // verus!
