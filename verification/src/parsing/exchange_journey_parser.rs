//! # Exchange times between journeys (UMSTEIGZ)
//!
//! The least time to change from one journey to another at a stop; `!` marks
//! a guaranteed connection:
//!
//! `8575489 000020 000801 000045 000801 004! 000019 Crana, Ponte Oscuro`
use vstd::prelude::*;

use crate::error::{HResult, HrdfError, ParsingError, ParsingErrorV};
use crate::layout::{
    fields_at, int_at, int_of, opt_at, opt_of, short_at, short_of, sp_fields, text_at, text_of,
    Field, Sep, ValueV,
};
use crate::models::{text_is, ExchangeTimeJourney, ExchangeTimeJourneyView};
use crate::parsing::lines::{
    file_error, is_blank, lemma_numbered_error_stays, numbered, scan_failure, texts,
};
use crate::scan::{finish, result_view, sp_map, sp_result, IResult, Scan};
use crate::storage::{
    id_map_insert, id_map_new, journey_set_contains, keyed_set, IdMap, ResourceStorage,
};
use crate::text::chars_of;
use crate::utils::AutoIncrement;
use rustc_hash::FxHashSet;
use vstd::string::StringExecFns;

verus! {

broadcast use vstd::string::group_string_axioms;

/// Stop (7), journey and administration (6 + 6), the other journey and
/// administration (6 + 6), minutes (3), guarantee mark (1), bit field (6, optional).
pub open spec fn journey_exchange_layout() -> Seq<(Sep, Field)> {
    seq![
        (Sep::Nothing, Field::Int(7)),
        (Sep::Char(' '), Field::Int(6)),
        (Sep::Char(' '), Field::Text(6)),
        (Sep::Char(' '), Field::Int(6)),
        (Sep::Char(' '), Field::Text(6)),
        (Sep::Char(' '), Field::Short(3)),
        (Sep::Nothing, Field::Text(1)),
        (Sep::Char(' '), Field::OptInt(6)),
    ]
}

pub open spec fn sp_exchange_journey_row(s: Seq<char>) -> Scan<
    (i32, i32, Seq<char>, i32, Seq<char>, i16, bool, Option<i32>),
> {
    sp_map(
        sp_fields(s, 0, journey_exchange_layout()),
        |v: Seq<ValueV>|
            (
                int_of(v[0]),
                int_of(v[1]),
                text_of(v[2]),
                int_of(v[3]),
                text_of(v[4]),
                short_of(v[5]),
                text_of(v[6]) == seq!['!'],
                opt_of(v[7]),
            ),
    )
}

/// Reads a row: stop, first journey and administration, second journey and
/// administration, minutes, whether the connection is guaranteed, bit field.
pub fn parse_exchange_journey_row(input: &str) -> (r: IResult<
    (i32, i32, String, i32, String, i16, bool, Option<i32>),
>)
    ensures
        result_view(r) == sp_result(input@, sp_exchange_journey_row(input@)),
{
    let s = chars_of(input);
    let layout = [
        (Sep::Nothing, Field::Int(7)),
        (Sep::Char(' '), Field::Int(6)),
        (Sep::Char(' '), Field::Text(6)),
        (Sep::Char(' '), Field::Int(6)),
        (Sep::Char(' '), Field::Text(6)),
        (Sep::Char(' '), Field::Short(3)),
        (Sep::Nothing, Field::Text(1)),
        (Sep::Char(' '), Field::OptInt(6)),
    ];
    assert(layout@.skip(0) =~= journey_exchange_layout());
    let r = match fields_at(s.as_slice(), 0, &layout, 0) {
        Scan::Done(v, q) => {
            proof {
                crate::layout::lemma_fields_len(s@, 0, layout@);
                reveal_strlit("!");
                assert("!"@ =~= seq!['!']);
            }
            let mark = text_at(&v, 6);
            let row = (
                int_at(&v, 0),
                int_at(&v, 1),
                text_at(&v, 2),
                int_at(&v, 3),
                text_at(&v, 4),
                short_at(&v, 5),
                text_is(mark.as_str(), "!"),
                opt_at(&v, 7),
            );
            Scan::Done(row, q)
        },
        Scan::Error => Scan::Error,
        Scan::Incomplete => Scan::Incomplete,
    };
    finish(s.as_slice(), r)
}

/// The exchange time that `line` gives under `id`; both journeys must be in `journeys`.
pub open spec fn journey_exchange_item(
    line: Seq<char>,
    id: i32,
    journeys: Set<(i32, Seq<char>)>,
) -> Result<ExchangeTimeJourneyView, ParsingErrorV> {
    match sp_exchange_journey_row(line) {
        Scan::Done((stop_id, j1, a1, j2, a2, duration, is_guaranteed, bit_field_id), _) => if !journeys.contains((j1, a1)) {
            Err(ParsingErrorV::UnknownJourney(j1, a1))
        } else if !journeys.contains((j2, a2)) {
            Err(ParsingErrorV::UnknownJourney(j2, a2))
        } else {
            Ok(
                ExchangeTimeJourneyView {
                    id,
                    stop_id,
                    journey_legacy_id_1: j1,
                    administration_1: a1,
                    journey_legacy_id_2: j2,
                    administration_2: a2,
                    duration,
                    is_guaranteed,
                    bit_field_id,
                },
            )
        },
        r => Err(ParsingErrorV::Syntax(scan_failure(r))),
    }
}

/// Reads a line into an exchange time under the next id; both journeys must
/// be among the known journey keys.
pub fn parse_line(
    line: &str,
    auto_increment: &mut AutoIncrement,
    journeys_pk_type_converter: &FxHashSet<(i32, String)>,
) -> (r: Result<ExchangeTimeJourney, ParsingError>)
    requires
        old(auto_increment).can_advance(),
    ensures
        match journey_exchange_item(
            line@,
            (old(auto_increment)@ + 1) as i32,
            keyed_set(journeys_pk_type_converter@),
        ) {
            Ok(v) => r matches Ok(x) && x.deep_view() == v && final(auto_increment)@ == old(
                auto_increment,
            )@ + 1,
            Err(e) => r matches Err(x) && x.deep_view() == e && final(auto_increment)@ == old(
                auto_increment,
            )@,
        },
{
    let (_, (stop_id, j1, a1, j2, a2, duration, is_guaranteed, bit_field_id)) =
        match parse_exchange_journey_row(line) {
        Ok(row) => row,
        Err(e) => return Err(ParsingError::Syntax(e)),
    };
    let k1 = (j1, a1);
    if !journey_set_contains(journeys_pk_type_converter, &k1) {
        return Err(ParsingError::UnknownJourney(k1.0, k1.1));
    }
    let k2 = (j2, a2);
    if !journey_set_contains(journeys_pk_type_converter, &k2) {
        return Err(ParsingError::UnknownJourney(k2.0, k2.1));
    }
    let id = auto_increment.next();
    Ok(
        ExchangeTimeJourney {
            id,
            stop_id,
            journey_legacy_id_1: k1.0,
            administration_1: k1.1,
            journey_legacy_id_2: k2.0,
            administration_2: k2.1,
            duration,
            is_guaranteed,
            bit_field_id,
        },
    )
}

pub open spec fn journey_exchanges_view(m: Map<i32, ExchangeTimeJourney>) -> Map<
    i32,
    ExchangeTimeJourneyView,
> {
    m.map_values(|x: ExchangeTimeJourney| x.deep_view())
}

/// Reads the lines of the UMSTEIGZ file `file`: each non-blank line gives an
/// exchange time under the next id (1, 2, 3, ...).
pub fn parse(
    file: &str,
    lines: &Vec<String>,
    journeys_pk_type_converter: &FxHashSet<(i32, String)>,
) -> (r: HResult<ResourceStorage<ExchangeTimeJourney>>)
    requires
        lines@.len() < i32::MAX,
    ensures
        match (
            r,
            numbered(
                texts(lines@),
                lines@.len(),
                |l: Seq<char>, id: i32|
                    journey_exchange_item(l, id, keyed_set(journeys_pk_type_converter@)),
            ),
        ) {
            (Ok(st), Ok((m, _))) => journey_exchanges_view(st.view()) == m,
            (Err(e), Err((n, why))) => file_error(e, why, file@, lines@[n as int]@, n),
            _ => false,
        },
{
    let ghost keys = keyed_set(journeys_pk_type_converter@);
    let ghost item = |l: Seq<char>, id: i32| journey_exchange_item(l, id, keys);
    let mut auto_increment = AutoIncrement::new();
    let mut data: IdMap<ExchangeTimeJourney> = id_map_new();
    assert(journey_exchanges_view(data@) =~= Map::empty());
    let mut i: usize = 0;
    while i < lines.len()
        invariant
            0 <= i <= lines@.len(),
            lines@.len() < i32::MAX,
            keys == keyed_set(journeys_pk_type_converter@),
            item == (|l: Seq<char>, id: i32| journey_exchange_item(l, id, keys)),
            numbered(texts(lines@), i as nat, item) == Ok::<_, (nat, ParsingErrorV)>(
                (journey_exchanges_view(data@), auto_increment@),
            ),
            0 <= auto_increment@ <= i,
        decreases lines@.len() - i,
    {
        let line = &lines[i];
        assert(texts(lines@)[i as int] == line@);
        if !is_blank(line.as_str()) {
            match parse_line(line.as_str(), &mut auto_increment, journeys_pk_type_converter) {
                Ok(x) => {
                    let ghost before = journey_exchanges_view(data@);
                    let ghost xv = x.deep_view();
                    let id = x.id;
                    id_map_insert(&mut data, id, x);
                    assert(journey_exchanges_view(data@) =~= before.insert(id, xv));
                },
                Err(e) => {
                    proof {
                        lemma_numbered_error_stays(texts(lines@), (i + 1) as nat, lines@.len(), item);
                    }
                    return Err(
                        HrdfError::Parsing {
                            error: e,
                            file: String::from_str(file),
                            line: line.clone(),
                            line_number: i,
                        },
                    );
                },
            }
        }
        i = i + 1;
    }
    Ok(ResourceStorage::new(data))
}

} // verus!
