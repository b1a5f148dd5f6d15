//! # Through services (DURCHBI)
//!
//! Two journeys that one can stay seated through: the first ends at a stop
//! where the second starts.  A row gives the first journey and its
//! administration, its last stop, the second journey and its administration,
//! the bit field of the days, and the first stop of the second journey:
//!
//! `000001 000871 8576671 024064 000871 000010 8576671`
use vstd::prelude::*;

use crate::error::{HResult, HrdfError, ParsingError, ParsingErrorV};
use crate::layout::{fields_at, int_at, int_of, sp_fields, text_at, text_of, Field, Sep, ValueV};
use crate::models::{ThroughService, ThroughServiceView};
use crate::parsing::lines::{
    file_error, is_blank, lemma_numbered_error_stays, numbered, scan_failure, texts,
};
use crate::scan::{IResult, Scan, ScanError};
use crate::storage::{id_map_insert, id_map_new, IdMap, ResourceStorage};
use crate::text::chars_of;
use crate::utils::AutoIncrement;
use rustc_hash::FxHashSet;
use vstd::string::StringExecFns;

verus! {

broadcast use vstd::string::group_string_axioms;

/// A row of the file.
#[derive(Debug)]
pub enum ThroughServiceLine {
    ThroughService {
        journey_1_id: i32,
        journey_1_administration: String,
        journey_1_stop_id: i32,
        journey_2_id: i32,
        journey_2_administration: String,
        bit_field_id: i32,
        journey_2_stop_id: i32,
    },
}

/// Journey (6), administration (6), stop (7), journey (6), administration
/// (6), bit field (6), stop (7).
pub open spec fn through_service_layout() -> Seq<(Sep, Field)> {
    seq![
        (Sep::Nothing, Field::Int(6)),
        (Sep::Char(' '), Field::Text(6)),
        (Sep::Char(' '), Field::Int(7)),
        (Sep::Char(' '), Field::Int(6)),
        (Sep::Char(' '), Field::Text(6)),
        (Sep::Char(' '), Field::Int(6)),
        (Sep::Char(' '), Field::Int(7)),
    ]
}

/// The through service of a row, under `id`.
pub open spec fn through_service_of(v: Seq<ValueV>, id: i32) -> ThroughServiceView {
    ThroughServiceView {
        id,
        journey_1_id: (int_of(v[0]), text_of(v[1])),
        journey_1_stop_id: int_of(v[2]),
        journey_2_id: (int_of(v[3]), text_of(v[4])),
        journey_2_stop_id: int_of(v[6]),
        bit_field_id: int_of(v[5]),
    }
}

/// The view of a row: what a through service under `id` made from it would be.
pub open spec fn line_view(l: ThroughServiceLine, id: i32) -> ThroughServiceView {
    match l {
        ThroughServiceLine::ThroughService {
            journey_1_id,
            journey_1_administration,
            journey_1_stop_id,
            journey_2_id,
            journey_2_administration,
            bit_field_id,
            journey_2_stop_id,
        } => ThroughServiceView {
            id,
            journey_1_id: (journey_1_id, journey_1_administration@),
            journey_1_stop_id,
            journey_2_id: (journey_2_id, journey_2_administration@),
            journey_2_stop_id,
            bit_field_id,
        },
    }
}

fn through_service_at(s: &[char]) -> (r: Scan<ThroughServiceLine>)
    ensures
        match (r, sp_fields(s@, 0, through_service_layout())) {
            (Scan::Done(l, q), Scan::Done(v, q2)) => q == q2 && forall|id: i32|
                line_view(l, id) == #[trigger] through_service_of(v, id),
            (Scan::Error, Scan::Error) => true,
            (Scan::Incomplete, Scan::Incomplete) => true,
            _ => false,
        },
        r matches Scan::Done(_, q) ==> q <= s@.len(),
{
    let layout = [
        (Sep::Nothing, Field::Int(6)),
        (Sep::Char(' '), Field::Text(6)),
        (Sep::Char(' '), Field::Int(7)),
        (Sep::Char(' '), Field::Int(6)),
        (Sep::Char(' '), Field::Text(6)),
        (Sep::Char(' '), Field::Int(6)),
        (Sep::Char(' '), Field::Int(7)),
    ];
    assert(layout@.skip(0) =~= through_service_layout());
    match fields_at(s, 0, &layout, 0) {
        Scan::Done(v, q) => {
            proof {
                crate::layout::lemma_fields_len(s@, 0, layout@);
            }
            Scan::Done(
                ThroughServiceLine::ThroughService {
                    journey_1_id: int_at(&v, 0),
                    journey_1_administration: text_at(&v, 1),
                    journey_1_stop_id: int_at(&v, 2),
                    journey_2_id: int_at(&v, 3),
                    journey_2_administration: text_at(&v, 4),
                    bit_field_id: int_at(&v, 5),
                    journey_2_stop_id: int_at(&v, 6),
                },
                q,
            )
        },
        Scan::Error => Scan::Error,
        Scan::Incomplete => Scan::Incomplete,
    }
}

/// Reads a row; what is left of the input comes first in the result.
pub fn through_service_combinator(input: &str) -> (r: IResult<ThroughServiceLine>)
    ensures
        match (r, sp_fields(input@, 0, through_service_layout())) {
            (Ok((rest, l)), Scan::Done(v, q)) => rest@ == input@.subrange(q as int, input@.len() as int)
                && forall|id: i32| line_view(l, id) == #[trigger] through_service_of(v, id),
            (Err(e), Scan::Error) => e == ScanError::Error,
            (Err(e), Scan::Incomplete) => e == ScanError::Incomplete,
            _ => false,
        },
{
    let s = chars_of(input);
    match through_service_at(s.as_slice()) {
        Scan::Done(l, q) => Ok((crate::text::string_of(s.as_slice(), q, s.len()), l)),
        Scan::Error => Err(ScanError::Error),
        Scan::Incomplete => Err(ScanError::Incomplete),
    }
}

/// The through service that `line` gives under `id`.
pub open spec fn through_service_item(line: Seq<char>, id: i32) -> Result<ThroughServiceView, ParsingErrorV> {
    match sp_fields(line, 0, through_service_layout()) {
        Scan::Done(v, _) => Ok(through_service_of(v, id)),
        r => Err(ParsingErrorV::Syntax(scan_failure(r))),
    }
}

pub open spec fn through_services_view(m: Map<i32, ThroughService>) -> Map<i32, ThroughServiceView> {
    m.map_values(|x: ThroughService| x.deep_view())
}

/// Reads a line into a through service under the next id, added to `data`.
/// The journeys need not be known: a row that names journeys missing from
/// `journeys_pk_type_converter` is kept all the same.
pub fn parse_line(
    line: &str,
    data: &mut IdMap<ThroughService>,
    journeys_pk_type_converter: &FxHashSet<(i32, String)>,
    auto_increment: &mut AutoIncrement,
) -> (r: Result<(), ParsingError>)
    requires
        old(auto_increment).can_advance(),
    ensures
        match through_service_item(line@, (old(auto_increment)@ + 1) as i32) {
            Ok(v) => r is Ok && final(auto_increment)@ == old(auto_increment)@ + 1
                && through_services_view(final(data)@) == through_services_view(old(data)@).insert(
                (old(auto_increment)@ + 1) as i32,
                v,
            ),
            Err(e) => r matches Err(x) && x.deep_view() == e && final(auto_increment)@ == old(
                auto_increment,
            )@ && final(data)@ == old(data)@,
        },
{
    let s = chars_of(line);
    let row = match through_service_at(s.as_slice()) {
        Scan::Done(row, _) => row,
        Scan::Error => return Err(ParsingError::Syntax(ScanError::Error)),
        Scan::Incomplete => return Err(ParsingError::Syntax(ScanError::Incomplete)),
    };
    match row {
        ThroughServiceLine::ThroughService {
            journey_1_id,
            journey_1_administration,
            journey_1_stop_id,
            journey_2_id,
            journey_2_administration,
            bit_field_id,
            journey_2_stop_id,
        } => {
            let id = auto_increment.next();
            let ts = ThroughService {
                id,
                journey_1_id: (journey_1_id, journey_1_administration),
                journey_1_stop_id,
                journey_2_id: (journey_2_id, journey_2_administration),
                journey_2_stop_id,
                bit_field_id,
            };
            let ghost before = through_services_view(data@);
            let ghost tv = ts.deep_view();
            id_map_insert(data, id, ts);
            assert(through_services_view(data@) =~= before.insert(id, tv));
            Ok(())
        },
    }
}

/// Reads the lines of the DURCHBI file `file`: each non-blank line gives a
/// through service under the next id (1, 2, 3, ...).
pub fn parse(file: &str, lines: &Vec<String>, journeys_pk_type_converter: &FxHashSet<(i32, String)>) -> (r:
    HResult<ResourceStorage<ThroughService>>)
    requires
        lines@.len() < i32::MAX,
    ensures
        match (
            r,
            numbered(texts(lines@), lines@.len(), |l: Seq<char>, id: i32| through_service_item(l, id)),
        ) {
            (Ok(st), Ok((m, _))) => through_services_view(st.view()) == m,
            (Err(e), Err((n, why))) => file_error(e, why, file@, lines@[n as int]@, n),
            _ => false,
        },
{
    let ghost item = |l: Seq<char>, id: i32| through_service_item(l, id);
    let mut auto_increment = AutoIncrement::new();
    let mut data: IdMap<ThroughService> = id_map_new();
    assert(through_services_view(data@) =~= Map::empty());
    let mut i: usize = 0;
    while i < lines.len()
        invariant
            0 <= i <= lines@.len(),
            lines@.len() < i32::MAX,
            item == (|l: Seq<char>, id: i32| through_service_item(l, id)),
            numbered(texts(lines@), i as nat, item) == Ok::<_, (nat, ParsingErrorV)>(
                (through_services_view(data@), auto_increment@),
            ),
            0 <= auto_increment@ <= i,
        decreases lines@.len() - i,
    {
        let line = &lines[i];
        assert(texts(lines@)[i as int] == line@);
        if !is_blank(line.as_str()) {
            match parse_line(line.as_str(), &mut data, journeys_pk_type_converter, &mut auto_increment) {
                Ok(()) => {},
                Err(e) => {
                    proof {
                        lemma_numbered_error_stays(texts(lines@), (i + 1) as nat, lines@.len(), item);
                    }
                    return Err(
                        HrdfError::Parsing {
                            error: e,
                            file: String::from_str(file),
                            line: line.clone(),
                            line_number: i,
                        },
                    );
                },
            }
        }
        i = i + 1;
    }
    Ok(ResourceStorage::new(data))
}

} // verus!
