//! # Directions (RICHTUNG)
//!
//! The direction texts: a key `R` and a 6-character number, then the text.
//! The number is the direction's id; the key written as `R` and the number's
//! decimal text (`R8` for `R000008`) is how the journeys refer to it.
//!
//! `R000008 Winterthur`
use vstd::prelude::*;

use crate::error::{HResult, HrdfError, ParsingError, ParsingErrorV};
use crate::helpers::{direction_at, sp_direction};
use crate::models::{Direction, DirectionView};
use crate::parsing::lines::{blank, file_error, is_blank, scan_failure, texts};
use crate::scan::{
    char_lit, finish, result_view, sp_char, sp_map, sp_result, sp_then, sp_till_eol, till_eol,
    IResult, Scan, };
use crate::storage::{id_map_insert, id_map_new, keyed, text_map_insert, text_map_new, IdMap, ResourceStorage, TextMap};
use crate::text::{chars_of, int_to_string, joined, signed_decimal};
use vstd::string::StringExecFns;

verus! {

broadcast use vstd::string::group_string_axioms;

/// A row: the key's prefix and number, a space, and the text up to the end of the line.
pub open spec fn sp_direction_row(s: Seq<char>) -> Scan<(Seq<char>, i32, Seq<char>)> {
    sp_then(
        sp_direction(s, 0),
        |d: (Seq<char>, i32), q: usize|
            sp_then(
                sp_char(s, q, ' ', true),
                |u: (), q1: usize| sp_map(sp_till_eol(s, q1), |name: Seq<char>| (d.0, d.1, name)),
            ),
    )
}

/// Reads a row: the key's prefix (`R`), its number and the text.
pub fn parse_direction_row(input: &str) -> (r: IResult<(String, i32, String)>)
    ensures
        result_view(r) == sp_result(input@, sp_direction_row(input@)),
{
    let s = chars_of(input);
    let r = match direction_at(s.as_slice(), 0) {
        Scan::Done((prefix, id), q) => match char_lit(s.as_slice(), q, ' ', true) {
            Scan::Done(_, q1) => match till_eol(s.as_slice(), q1) {
                Scan::Done(name, q2) => Scan::Done((prefix, id, name), q2),
                Scan::Error => Scan::Error,
                Scan::Incomplete => Scan::Incomplete,
            },
            Scan::Error => Scan::Error,
            Scan::Incomplete => Scan::Incomplete,
        },
        Scan::Error => Scan::Error,
        Scan::Incomplete => Scan::Incomplete,
    };
    finish(s.as_slice(), r)
}

/// The directions by id, and the ids by key.
pub struct DirectionsState {
    pub directions: Map<i32, DirectionView>,
    pub keys: Map<Seq<char>, i32>,
}

/// What a line does: the direction is stored under its number (a later row
/// replaces an earlier one), and its key maps to the number.
pub open spec fn direction_step(st: DirectionsState, line: Seq<char>) -> Result<DirectionsState, ParsingErrorV> {
    match sp_direction_row(line) {
        Scan::Done((prefix, id, name), _) => Ok(
            DirectionsState {
                directions: st.directions.insert(id, DirectionView { id, name }),
                keys: st.keys.insert(prefix + signed_decimal(id as int), id),
            },
        ),
        r => Err(ParsingErrorV::Syntax(scan_failure(r))),
    }
}

/// Reads a line into a direction; its key is recorded in `pk_type_converter`.
pub fn parse_line(line: &str, pk_type_converter: &mut TextMap) -> (r: Result<Direction, ParsingError>)
    ensures
        match sp_direction_row(line@) {
            Scan::Done((prefix, id, name), _) => r matches Ok(d) && d.id == id && d.name@ == name
                && keyed(final(pk_type_converter)@) == keyed(old(pk_type_converter)@).insert(
                prefix + signed_decimal(id as int),
                id,
            ),
            res => r matches Err(e) && e.deep_view() == ParsingErrorV::Syntax(scan_failure(res))
                && final(pk_type_converter)@ == old(pk_type_converter)@,
        },
{
    match parse_direction_row(line) {
        Ok((_, (prefix, id, name))) => {
            let digits = int_to_string(id as i64);
            let legacy_id = joined(prefix.as_str(), digits.as_str());
            text_map_insert(pk_type_converter, legacy_id, id);
            Ok(Direction::new(id, name))
        },
        Err(e) => Err(ParsingError::Syntax(e)),
    }
}

/// The state after the first `n` lines, blank lines skipped; or the first
/// line that does not read.
pub open spec fn directions_of(lines: Seq<Seq<char>>, n: nat) -> Result<DirectionsState, (nat, ParsingErrorV)>
    decreases n,
{
    if n == 0 {
        Ok(DirectionsState { directions: Map::empty(), keys: Map::empty() })
    } else {
        match directions_of(lines, (n - 1) as nat) {
            Err(e) => Err(e),
            Ok(st) => if blank(lines[n - 1]) {
                Ok(st)
            } else {
                match direction_step(st, lines[n - 1]) {
                    Ok(st2) => Ok(st2),
                    Err(e) => Err(((n - 1) as nat, e)),
                }
            },
        }
    }
}

pub proof fn lemma_directions_error_stays(lines: Seq<Seq<char>>, n: nat, m: nat)
    requires
        n <= m,
        directions_of(lines, n) is Err,
    ensures
        directions_of(lines, m) == directions_of(lines, n),
    decreases m - n,
{
    if n < m {
        lemma_directions_error_stays(lines, n, (m - 1) as nat);
    }
}

pub open spec fn directions_view(m: Map<i32, Direction>) -> Map<i32, DirectionView> {
    m.map_values(|d: Direction| d.deep_view())
}

/// Reads the lines of the RICHTUNG file `file`: the directions by id, and the
/// table from keys (`R8`) to ids.
pub fn parse(file: &str, lines: &Vec<String>) -> (r: HResult<(ResourceStorage<Direction>, TextMap)>)
    ensures
        match (r, directions_of(texts(lines@), lines@.len())) {
            (Ok((st, keys)), Ok(d)) => directions_view(st.view()) == d.directions && keyed(keys@)
                == d.keys,
            (Err(e), Err((n, why))) => file_error(e, why, file@, lines@[n as int]@, n),
            _ => false,
        },
{
    let mut pk_type_converter = text_map_new();
    let mut data: IdMap<Direction> = id_map_new();
    assert(directions_view(data@) =~= Map::empty());
    assert(keyed(pk_type_converter@) =~= Map::empty());
    let mut i: usize = 0;
    while i < lines.len()
        invariant
            0 <= i <= lines@.len(),
            directions_of(texts(lines@), i as nat) == Ok::<_, (nat, ParsingErrorV)>(
                DirectionsState { directions: directions_view(data@), keys: keyed(pk_type_converter@) },
            ),
        decreases lines@.len() - i,
    {
        let line = &lines[i];
        assert(texts(lines@)[i as int] == line@);
        if !is_blank(line.as_str()) {
            match parse_line(line.as_str(), &mut pk_type_converter) {
                Ok(d) => {
                    let ghost before = directions_view(data@);
                    let ghost dv = d.deep_view();
                    let id = d.id;
                    id_map_insert(&mut data, id, d);
                    assert(directions_view(data@) =~= before.insert(id, dv));
                },
                Err(e) => {
                    proof {
                        lemma_directions_error_stays(texts(lines@), (i + 1) as nat, lines@.len());
                    }
                    return Err(
                        HrdfError::Parsing {
                            error: e,
                            file: String::from_str(file),
                            line: line.clone(),
                            line_number: i,
                        },
                    );
                },
            }
        }
        i = i + 1;
    }
    Ok((ResourceStorage::new(data), pk_type_converter))
}

/// Each direction is under its own number, and each key names a direction.
pub open spec fn directions_consistent(st: DirectionsState) -> bool {
    &&& forall|k: i32| #[trigger] st.directions.contains_key(k) ==> st.directions[k].id == k
    &&& forall|t: Seq<char>| #[trigger] st.keys.contains_key(t) ==> st.directions.contains_key(st.keys[t])
}

/// What RICHTUNG gives is consistent: each direction is under its own
/// number, and each key it records names a direction it read.
pub proof fn lemma_directions_consistent(lines: Seq<Seq<char>>, n: nat)
    ensures
        directions_of(lines, n) matches Ok(st) ==> directions_consistent(st),
    decreases n,
{
    if n > 0 {
        lemma_directions_consistent(lines, (n - 1) as nat);
    }
}

} // verus!
