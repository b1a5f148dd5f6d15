//! # Exchange times between administrations (UMSTEIGV)
//!
//! The least time to change from one administration (transport company) to
//! another, at a stop, or everywhere when the stop is `@@@@@@@`:
//!
//! `1111135 sbg034 sbg034 01 Waldshut, Busbahnhof`: one minute at stop 1111135.
use vstd::prelude::*;

use crate::error::{HResult, HrdfError, ParsingError, ParsingErrorV};
use crate::layout::{
    fields_at, opt_at, opt_of, short_at, short_of, sp_fields, text_at, text_of, Field, Sep,
    ValueV,
};
use crate::models::{ExchangeTimeAdministration, ExchangeTimeAdministrationView};
use crate::parsing::lines::{
    blank, file_error, is_blank, lemma_numbered_error_stays, numbered, scan_failure, texts,
};
use crate::scan::{finish, result_view, sp_map, sp_result, IResult, Scan};
use crate::storage::{id_map_insert, id_map_new, IdMap, ResourceStorage};
use crate::text::chars_of;
use crate::utils::AutoIncrement;
use vstd::string::StringExecFns;

verus! {

broadcast use vstd::string::group_string_axioms;

/// Stop (7, optional), first administration (6), second administration (6), minutes (2).
pub open spec fn administration_layout() -> Seq<(Sep, Field)> {
    seq![
        (Sep::Nothing, Field::OptInt(7)),
        (Sep::Char(' '), Field::Text(6)),
        (Sep::Char(' '), Field::Text(6)),
        (Sep::Char(' '), Field::Short(2)),
    ]
}

pub open spec fn sp_exchange_administration_row(s: Seq<char>) -> Scan<
    (Option<i32>, Seq<char>, Seq<char>, i16),
> {
    sp_map(
        sp_fields(s, 0, administration_layout()),
        |v: Seq<ValueV>| (opt_of(v[0]), text_of(v[1]), text_of(v[2]), short_of(v[3])),
    )
}

/// Reads a row: the stop (if any), the two administrations and the minutes.
pub fn parse_exchange_administration_row(input: &str) -> (r: IResult<
    (Option<i32>, String, String, i16),
>)
    ensures
        result_view(r) == sp_result(input@, sp_exchange_administration_row(input@)),
{
    let s = chars_of(input);
    let layout = [
        (Sep::Nothing, Field::OptInt(7)),
        (Sep::Char(' '), Field::Text(6)),
        (Sep::Char(' '), Field::Text(6)),
        (Sep::Char(' '), Field::Short(2)),
    ];
    assert(layout@.skip(0) =~= administration_layout());
    let r = match fields_at(s.as_slice(), 0, &layout, 0) {
        Scan::Done(v, q) => {
            proof {
                crate::layout::lemma_fields_len(s@, 0, layout@);
            }
            Scan::Done((opt_at(&v, 0), text_at(&v, 1), text_at(&v, 2), short_at(&v, 3)), q)
        },
        Scan::Error => Scan::Error,
        Scan::Incomplete => Scan::Incomplete,
    };
    finish(s.as_slice(), r)
}

/// The exchange time that `line` gives under `id`.
pub open spec fn administration_item(line: Seq<char>, id: i32) -> Result<
    ExchangeTimeAdministrationView,
    ParsingErrorV,
> {
    match sp_exchange_administration_row(line) {
        Scan::Done((stop_id, a1, a2, duration), _) => Ok(
            ExchangeTimeAdministrationView {
                id,
                stop_id,
                administration_1: a1,
                administration_2: a2,
                duration,
            },
        ),
        r => Err(ParsingErrorV::Syntax(scan_failure(r))),
    }
}

/// Reads a line into an exchange time under the next id.
pub fn parse_line(line: &str, auto_increment: &mut AutoIncrement) -> (r: Result<
    (i32, ExchangeTimeAdministration),
    ParsingError,
>)
    requires
        old(auto_increment).can_advance(),
    ensures
        match administration_item(line@, (old(auto_increment)@ + 1) as i32) {
            Ok(v) => r matches Ok((id, x)) && id == old(auto_increment)@ + 1 && x.deep_view() == v
                && final(auto_increment)@ == id,
            Err(e) => r matches Err(x) && x.deep_view() == e && final(auto_increment)@ == old(
                auto_increment,
            )@,
        },
{
    match parse_exchange_administration_row(line) {
        Ok((_, (stop_id, administration_1, administration_2, duration))) => {
            let id = auto_increment.next();
            Ok(
                (
                    id,
                    ExchangeTimeAdministration {
                        id,
                        stop_id,
                        administration_1,
                        administration_2,
                        duration,
                    },
                ),
            )
        },
        Err(e) => Err(ParsingError::Syntax(e)),
    }
}

pub open spec fn administrations_view(m: Map<i32, ExchangeTimeAdministration>) -> Map<
    i32,
    ExchangeTimeAdministrationView,
> {
    m.map_values(|x: ExchangeTimeAdministration| x.deep_view())
}

/// Reads the lines of the UMSTEIGV file `file`: each non-blank line gives an
/// exchange time under the next id (1, 2, 3, ...).
pub fn parse(file: &str, lines: &Vec<String>) -> (r: HResult<
    ResourceStorage<ExchangeTimeAdministration>,
>)
    requires
        lines@.len() < i32::MAX,
    ensures
        match (r, numbered(texts(lines@), lines@.len(), |l: Seq<char>, id: i32| administration_item(l, id))) {
            (Ok(st), Ok((m, _))) => administrations_view(st.view()) == m,
            (Err(e), Err((n, why))) => file_error(e, why, file@, lines@[n as int]@, n),
            _ => false,
        },
{
    let ghost item = |l: Seq<char>, id: i32| administration_item(l, id);
    let mut auto_increment = AutoIncrement::new();
    let mut data: IdMap<ExchangeTimeAdministration> = id_map_new();
    assert(administrations_view(data@) =~= Map::empty());
    let mut i: usize = 0;
    while i < lines.len()
        invariant
            0 <= i <= lines@.len(),
            lines@.len() < i32::MAX,
            item == (|l: Seq<char>, id: i32| administration_item(l, id)),
            numbered(texts(lines@), i as nat, item) == Ok::<_, (nat, ParsingErrorV)>(
                (administrations_view(data@), auto_increment@),
            ),
            0 <= auto_increment@ <= i,
        decreases lines@.len() - i,
    {
        let line = &lines[i];
        assert(texts(lines@)[i as int] == line@);
        if !is_blank(line.as_str()) {
            match parse_line(line.as_str(), &mut auto_increment) {
                Ok((id, x)) => {
                    let ghost before = administrations_view(data@);
                    let ghost xv = x.deep_view();
                    id_map_insert(&mut data, id, x);
                    assert(administrations_view(data@) =~= before.insert(id, xv));
                },
                Err(e) => {
                    proof {
                        lemma_numbered_error_stays(texts(lines@), (i + 1) as nat, lines@.len(), item);
                    }
                    return Err(
                        HrdfError::Parsing {
                            error: e,
                            file: String::from_str(file),
                            line: line.clone(),
                            line_number: i,
                        },
                    );
                },
            }
        }
        i = i + 1;
    }
    Ok(ResourceStorage::new(data))
}

} // verus!
