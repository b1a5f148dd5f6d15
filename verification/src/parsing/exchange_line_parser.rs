//! # Exchange times between lines (UMSTEIGL)
//!
//! The least time to change from one line to another at a stop.  A line is
//! named by its administration, transport type, line (`*`: any) and direction
//! (`*`: any); `!` marks a guaranteed connection:
//!
//! `1111135 sbg034 B   7339     H sbg034 TX  7341     H 000! Waldshut, Busbahnhof`
use vstd::prelude::*;

use crate::error::{HResult, HrdfError, ParsingError, ParsingErrorV};
use crate::layout::{
    fields_at, opt_at, opt_of, short_at, short_of, sp_fields, text_at, text_of, Field, Sep,
    ValueV,
};
use crate::models::{
    direction_named, text_is, DirectionType, ExchangeTimeLine, ExchangeTimeLineView, LineInfo,
    LineInfoView,
};
use crate::parsing::lines::{
    file_error, is_blank, lemma_numbered_error_stays, numbered, scan_failure, texts,
};
use crate::scan::{finish, result_view, sp_map, sp_result, IResult, Scan};
use crate::storage::{id_map_insert, id_map_new, keyed, text_map_get, IdMap, ResourceStorage, TextMap};
use crate::text::chars_of;
use crate::utils::AutoIncrement;
use vstd::string::StringExecFns;

verus! {

broadcast use vstd::string::group_string_axioms;

/// Stop (7, optional), then for each line administration (6), transport type
/// (3), line (8), direction (1); then minutes (3) and the guarantee mark (1).
pub open spec fn line_exchange_layout() -> Seq<(Sep, Field)> {
    seq![
        (Sep::Nothing, Field::OptInt(7)),
        (Sep::Char(' '), Field::Text(6)),
        (Sep::Char(' '), Field::Text(3)),
        (Sep::Char(' '), Field::Text(8)),
        (Sep::Char(' '), Field::Text(1)),
        (Sep::Char(' '), Field::Text(6)),
        (Sep::Char(' '), Field::Text(3)),
        (Sep::Char(' '), Field::Text(8)),
        (Sep::Char(' '), Field::Text(1)),
        (Sep::Char(' '), Field::Short(3)),
        (Sep::Nothing, Field::Text(1)),
    ]
}

pub open spec fn sp_exchange_line_row(s: Seq<char>) -> Scan<
    (
        Option<i32>,
        Seq<char>,
        Seq<char>,
        Seq<char>,
        Seq<char>,
        Seq<char>,
        Seq<char>,
        Seq<char>,
        Seq<char>,
        i16,
        bool,
    ),
> {
    sp_map(
        sp_fields(s, 0, line_exchange_layout()),
        |v: Seq<ValueV>|
            (
                opt_of(v[0]),
                text_of(v[1]),
                text_of(v[2]),
                text_of(v[3]),
                text_of(v[4]),
                text_of(v[5]),
                text_of(v[6]),
                text_of(v[7]),
                text_of(v[8]),
                short_of(v[9]),
                text_of(v[10]) == seq!['!'],
            ),
    )
}

/// Reads a row: stop; administration, transport type, line and direction of
/// each of the two lines; minutes; whether the connection is guaranteed.
pub fn parse_exchange_line_row(input: &str) -> (r: IResult<
    (Option<i32>, String, String, String, String, String, String, String, String, i16, bool),
>)
    ensures
        result_view(r) == sp_result(input@, sp_exchange_line_row(input@)),
{
    let s = chars_of(input);
    let layout = [
        (Sep::Nothing, Field::OptInt(7)),
        (Sep::Char(' '), Field::Text(6)),
        (Sep::Char(' '), Field::Text(3)),
        (Sep::Char(' '), Field::Text(8)),
        (Sep::Char(' '), Field::Text(1)),
        (Sep::Char(' '), Field::Text(6)),
        (Sep::Char(' '), Field::Text(3)),
        (Sep::Char(' '), Field::Text(8)),
        (Sep::Char(' '), Field::Text(1)),
        (Sep::Char(' '), Field::Short(3)),
        (Sep::Nothing, Field::Text(1)),
    ];
    assert(layout@.skip(0) =~= line_exchange_layout());
    let r = match fields_at(s.as_slice(), 0, &layout, 0) {
        Scan::Done(v, q) => {
            proof {
                crate::layout::lemma_fields_len(s@, 0, layout@);
                reveal_strlit("!");
                assert("!"@ =~= seq!['!']);
            }
            let mark = text_at(&v, 10);
            let row = (
                opt_at(&v, 0),
                text_at(&v, 1),
                text_at(&v, 2),
                text_at(&v, 3),
                text_at(&v, 4),
                text_at(&v, 5),
                text_at(&v, 6),
                text_at(&v, 7),
                text_at(&v, 8),
                short_at(&v, 9),
                text_is(mark.as_str(), "!"),
            );
            Scan::Done(row, q)
        },
        Scan::Error => Scan::Error,
        Scan::Incomplete => Scan::Incomplete,
    };
    finish(s.as_slice(), r)
}

/// The error text of an unknown transport type on the first or second line
/// of an exchange.
pub open spec fn unknown_transport_type_text(first: bool) -> Seq<char> {
    if first {
        "Unknown legacy ID for transport_type_1 {transport_type_id_1}"@
    } else {
        "Unknown legacy ID for transport_type_id_2 {transport_type_id_2}"@
    }
}

/// A line of an exchange (the `first` or the second): the transport type
/// must be known; `*` as line or direction means any.
pub open spec fn line_info_of(
    first: bool,
    administration: Seq<char>,
    transport_type: Seq<char>,
    line_id: Seq<char>,
    direction: Seq<char>,
    transport_types: Map<Seq<char>, i32>,
) -> Result<LineInfoView, ParsingErrorV> {
    if !transport_types.contains_key(transport_type) {
        Err(ParsingErrorV::Unknown(unknown_transport_type_text(first)))
    } else if direction != seq!['*'] && direction_named(direction).is_none() {
        Err(ParsingErrorV::UnknownDirection(direction))
    } else {
        Ok(
            LineInfoView {
                administration,
                transport_type_id: transport_types[transport_type],
                line_id: if line_id == seq!['*'] {
                    None
                } else {
                    Some(line_id)
                },
                direction: if direction == seq!['*'] {
                    None
                } else {
                    direction_named(direction)
                },
            },
        )
    }
}

/// The exchange time that `line` gives under `id`.
pub open spec fn line_exchange_item(
    line: Seq<char>,
    id: i32,
    transport_types: Map<Seq<char>, i32>,
) -> Result<ExchangeTimeLineView, ParsingErrorV> {
    match sp_exchange_line_row(line) {
        Scan::Done((stop_id, a1, t1, l1, d1, a2, t2, l2, d2, duration, is_guaranteed), _) => match line_info_of(
            true,
            a1,
            t1,
            l1,
            d1,
            transport_types,
        ) {
            Err(e) => Err(e),
            Ok(line_1) => match line_info_of(false, a2, t2, l2, d2, transport_types) {
                Err(e) => Err(e),
                Ok(line_2) => Ok(
                    ExchangeTimeLineView { id, stop_id, line_1, line_2, duration, is_guaranteed },
                ),
            },
        },
        r => Err(ParsingErrorV::Syntax(scan_failure(r))),
    }
}

fn line_info(
    first: bool,
    administration: String,
    transport_type: String,
    line_id: String,
    direction: String,
    transport_types: &TextMap,
) -> (r: Result<LineInfo, ParsingError>)
    ensures
        match line_info_of(first, administration@, transport_type@, line_id@, direction@, keyed(transport_types@)) {
            Ok(v) => r matches Ok(x) && x.deep_view() == v,
            Err(e) => r matches Err(x) && x.deep_view() == e,
        },
{
    proof {
        reveal_strlit("*");
        assert("*"@ =~= seq!['*']);
    }
    let transport_type_id = match text_map_get(transport_types, transport_type.as_str()) {
        Some(id) => id,
        None => {
            let t = if first {
                "Unknown legacy ID for transport_type_1 {transport_type_id_1}"
            } else {
                "Unknown legacy ID for transport_type_id_2 {transport_type_id_2}"
            };
            return Err(ParsingError::Unknown(String::from_str(t)));
        },
    };
    let line_id = if text_is(line_id.as_str(), "*") {
        None
    } else {
        Some(line_id)
    };
    let direction = if text_is(direction.as_str(), "*") {
        None
    } else {
        Some(DirectionType::from_str(direction.as_str())?)
    };
    Ok(LineInfo { administration, transport_type_id, line_id, direction })
}

/// Reads a line into an exchange time under the next id; the transport types
/// are looked up in their table.
pub fn parse_line(
    line: &str,
    auto_increment: &mut AutoIncrement,
    transport_types_pk_type_converter: &TextMap,
) -> (r: Result<(i32, ExchangeTimeLine), ParsingError>)
    requires
        old(auto_increment).can_advance(),
    ensures
        match line_exchange_item(
            line@,
            (old(auto_increment)@ + 1) as i32,
            keyed(transport_types_pk_type_converter@),
        ) {
            Ok(v) => r matches Ok((id, x)) && id == old(auto_increment)@ + 1 && x.deep_view() == v
                && final(auto_increment)@ == id,
            Err(e) => r matches Err(x) && x.deep_view() == e && final(auto_increment)@ == old(
                auto_increment,
            )@,
        },
{
    let (_, (stop_id, a1, t1, l1, d1, a2, t2, l2, d2, duration, is_guaranteed)) =
        match parse_exchange_line_row(line) {
        Ok(row) => row,
        Err(e) => return Err(ParsingError::Syntax(e)),
    };
    let line_1 = line_info(true, a1, t1, l1, d1, transport_types_pk_type_converter)?;
    let line_2 = line_info(false, a2, t2, l2, d2, transport_types_pk_type_converter)?;
    let id = auto_increment.next();
    Ok((id, ExchangeTimeLine { id, stop_id, line_1, line_2, duration, is_guaranteed }))
}

pub open spec fn line_exchanges_view(m: Map<i32, ExchangeTimeLine>) -> Map<i32, ExchangeTimeLineView> {
    m.map_values(|x: ExchangeTimeLine| x.deep_view())
}

/// Reads the lines of the UMSTEIGL file `file`: each non-blank line gives an
/// exchange time under the next id (1, 2, 3, ...).
pub fn parse(file: &str, lines: &Vec<String>, transport_types_pk_type_converter: &TextMap) -> (r:
    HResult<ResourceStorage<ExchangeTimeLine>>)
    requires
        lines@.len() < i32::MAX,
    ensures
        match (
            r,
            numbered(
                texts(lines@),
                lines@.len(),
                |l: Seq<char>, id: i32|
                    line_exchange_item(l, id, keyed(transport_types_pk_type_converter@)),
            ),
        ) {
            (Ok(st), Ok((m, _))) => line_exchanges_view(st.view()) == m,
            (Err(e), Err((n, why))) => file_error(e, why, file@, lines@[n as int]@, n),
            _ => false,
        },
{
    let ghost tt = keyed(transport_types_pk_type_converter@);
    let ghost item = |l: Seq<char>, id: i32| line_exchange_item(l, id, tt);
    let mut auto_increment = AutoIncrement::new();
    let mut data: IdMap<ExchangeTimeLine> = id_map_new();
    assert(line_exchanges_view(data@) =~= Map::empty());
    let mut i: usize = 0;
    while i < lines.len()
        invariant
            0 <= i <= lines@.len(),
            lines@.len() < i32::MAX,
            tt == keyed(transport_types_pk_type_converter@),
            item == (|l: Seq<char>, id: i32| line_exchange_item(l, id, tt)),
            numbered(texts(lines@), i as nat, item) == Ok::<_, (nat, ParsingErrorV)>(
                (line_exchanges_view(data@), auto_increment@),
            ),
            0 <= auto_increment@ <= i,
        decreases lines@.len() - i,
    {
        let line = &lines[i];
        assert(texts(lines@)[i as int] == line@);
        if !is_blank(line.as_str()) {
            match parse_line(line.as_str(), &mut auto_increment, transport_types_pk_type_converter) {
                Ok((id, x)) => {
                    let ghost before = line_exchanges_view(data@);
                    let ghost xv = x.deep_view();
                    id_map_insert(&mut data, id, x);
                    assert(line_exchanges_view(data@) =~= before.insert(id, xv));
                },
                Err(e) => {
                    proof {
                        lemma_numbered_error_stays(texts(lines@), (i + 1) as nat, lines@.len(), item);
                    }
                    return Err(
                        HrdfError::Parsing {
                            error: e,
                            file: String::from_str(file),
                            line: line.clone(),
                            line_number: i,
                        },
                    );
                },
            }
        }
        i = i + 1;
    }
    Ok(ResourceStorage::new(data))
}

} // verus!
