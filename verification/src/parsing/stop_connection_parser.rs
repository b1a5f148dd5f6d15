//! # Stop connections (METABHF)
//!
//! A row `stop stop minutes` makes a connection between two stops; a row `*A`
//! with an attribute code gives the last connection that attribute; a row
//! `group: stop stop ...` lists a group of stops (not used).
//!
//! ```text
//! 8500010 8500020 005
//! *A YB
//! 8500010: 8500020 8500030
//! ```
use vstd::prelude::*;

use crate::error::{HResult, HrdfError, ParsingError, ParsingErrorV};
use crate::models::StopConnection;
use crate::parsing::lines::{blank, file_error, is_blank, scan_failure, texts};
use crate::scan::{
    i32_field, run_end, run_end_at, sp_i32_field, sp_map, sp_or, sp_tag, sp_then, sp_till_eol,
    tag_lit, till_eol, CharClass, Scan, ScanError,
};
use crate::storage::{id_map_get, id_map_insert, id_map_new, keyed, text_map_get, IdMap, ResourceStorage, TextMap};
use crate::text::{chars_of, int_to_string, joined, parse_in_range, parse_int_in, signed_decimal, trim};
use crate::utils::AutoIncrement;
use vstd::string::StringExecFns;

verus! {

broadcast use vstd::string::group_string_axioms;

/// The rows of the file.
#[derive(Debug)]
pub enum StopConnectionLine {
    Aline(String),
    MetaStopLine { stop_id_1: i32, stop_id_2: i32, duration: i16 },
    StopGroups { group_id: i32, stop_group: Vec<i32> },
}

pub enum StopConnectionLineView {
    Aline(Seq<char>),
    MetaStopLine { stop_id_1: i32, stop_id_2: i32, duration: i16 },
    StopGroups { group_id: i32, stop_group: Seq<i32> },
}

impl DeepView for StopConnectionLine {
    type V = StopConnectionLineView;

    open spec fn deep_view(&self) -> StopConnectionLineView {
        match self {
            StopConnectionLine::Aline(s) => StopConnectionLineView::Aline(s@),
            StopConnectionLine::MetaStopLine { stop_id_1, stop_id_2, duration } =>
                StopConnectionLineView::MetaStopLine {
                stop_id_1: *stop_id_1,
                stop_id_2: *stop_id_2,
                duration: *duration,
            },
            StopConnectionLine::StopGroups { group_id, stop_group } => StopConnectionLineView::StopGroups {
                group_id: *group_id,
                stop_group: stop_group@,
            },
        }
    }
}

/// `*A` and the attribute's code up to the end of the line.
pub open spec fn sp_a_line(s: Seq<char>) -> Scan<StopConnectionLineView> {
    sp_then(
        sp_tag(s, 0, "*A"@, true),
        |u: (), q: usize| sp_map(sp_till_eol(s, q), |t: Seq<char>| StopConnectionLineView::Aline(t)),
    )
}

/// Stop (7), whitespace, stop (7), whitespace, minutes (3).
pub open spec fn sp_meta_stop_line(s: Seq<char>) -> Scan<StopConnectionLineView> {
    sp_then(
        sp_i32_field(s, 0, 7),
        |a: i32, q: usize|
            sp_then(
                crate::scan::sp_run1(s, q, CharClass::MultiSpace),
                |w: Seq<char>, q1: usize|
                    sp_then(
                        sp_i32_field(s, q1, 7),
                        |b: i32, q2: usize|
                            sp_then(
                                crate::scan::sp_run1(s, q2, CharClass::MultiSpace),
                                |w2: Seq<char>, q3: usize|
                                    sp_map(
                                        crate::scan::sp_i16_field(s, q3, 3),
                                        |d: i16|
                                            StopConnectionLineView::MetaStopLine {
                                                stop_id_1: a,
                                                stop_id_2: b,
                                                duration: d,
                                            },
                                    ),
                            ),
                    ),
            ),
    )
}

/// The stops of a group after the first one, from `q`: whitespace then a
/// stop (7), as long as both read; a stop that cannot be told before the
/// line ends makes the whole row unreadable.
pub open spec fn group_rest(s: Seq<char>, q: int) -> Scan<Seq<i32>>
    decreases s.len() - q,
{
    let q1 = run_end(s, q, CharClass::MultiSpace);
    if q1 <= q || q < 0 {
        Scan::Done(Seq::empty(), q as usize)
    } else if q1 + 7 > s.len() {
        Scan::Incomplete
    } else {
        match parse_in_range(trim(s.subrange(q1, q1 + 7)), i32::MIN as int, i32::MAX as int) {
            None => Scan::Done(Seq::empty(), q as usize),
            Some(v) => match group_rest(s, q1 + 7) {
                Scan::Done(vs, q3) => Scan::Done(seq![v as i32] + vs, q3),
                Scan::Error => Scan::Error,
                Scan::Incomplete => Scan::Incomplete,
            },
        }
    }
}

/// The stops of a group: none, or a stop (7) and the rest.
pub open spec fn group_list(s: Seq<char>, p: usize) -> Scan<Seq<i32>> {
    match sp_i32_field(s, p, 7) {
        Scan::Error => Scan::Done(Seq::empty(), p),
        Scan::Incomplete => Scan::Incomplete,
        Scan::Done(v, q) => match group_rest(s, q as int) {
            Scan::Done(vs, q3) => Scan::Done(seq![v] + vs, q3),
            Scan::Error => Scan::Error,
            Scan::Incomplete => Scan::Incomplete,
        },
    }
}

/// Group (7), `:`, and the stops of the group.
pub open spec fn sp_stop_groups(s: Seq<char>) -> Scan<StopConnectionLineView> {
    sp_then(
        sp_i32_field(s, 0, 7),
        |g: i32, q: usize|
            sp_then(
                sp_tag(s, q, ":"@, true),
                |u: (), q1: usize|
                    sp_map(group_list(s, q1), |vs: Seq<i32>| StopConnectionLineView::StopGroups { group_id: g, stop_group: vs }),
            ),
    )
}

/// A row of any kind, the first that matches.
pub open spec fn sp_stop_connection_row(s: Seq<char>) -> Scan<StopConnectionLineView> {
    sp_or(sp_a_line(s), sp_or(sp_stop_groups(s), sp_meta_stop_line(s)))
}

fn group_rest_at(s: &[char], q: usize) -> (r: Scan<Vec<i32>>)
    requires
        q <= s@.len(),
    ensures
        match (r, group_rest(s@, q as int)) {
            (Scan::Done(v, p), Scan::Done(vs, p2)) => v@ == vs && p == p2,
            (Scan::Error, Scan::Error) => true,
            (Scan::Incomplete, Scan::Incomplete) => true,
            _ => false,
        },
        r matches Scan::Done(_, p) ==> q <= p <= s@.len(),
    decreases s@.len() - q,
{
    let q1 = run_end_at(s, q, &CharClass::MultiSpace);
    if q1 <= q {
        return Scan::Done(Vec::new(), q);
    }
    if 7 > s.len() - q1 {
        return Scan::Incomplete;
    }
    let (a, b) = crate::text::trim_bounds(s, q1, q1 + 7);
    match parse_int_in(s, a, b, -0x8000_0000, 0x7fff_ffff) {
        None => Scan::Done(Vec::new(), q),
        Some(v) => match group_rest_at(s, q1 + 7) {
            Scan::Done(mut vs, q3) => {
                let ghost tail = vs@;
                vs.insert(0, v as i32);
                assert(vs@ =~= seq![v as i32] + tail);
                Scan::Done(vs, q3)
            },
            Scan::Error => Scan::Error,
            Scan::Incomplete => Scan::Incomplete,
        },
    }
}

fn stop_groups_at(s: &[char]) -> (r: Scan<StopConnectionLine>)
    ensures
        r.deep_view() == sp_stop_groups(s@),
        r matches Scan::Done(_, q) ==> q <= s@.len(),
{
    match i32_field(s, 0, 7) {
        Scan::Done(g, q) => match tag_lit(s, q, ":", true) {
            Scan::Done(_, q1) => {
                let list = match i32_field(s, q1, 7) {
                    Scan::Error => Scan::Done(Vec::new(), q1),
                    Scan::Incomplete => Scan::Incomplete,
                    Scan::Done(v, q2) => match group_rest_at(s, q2) {
                        Scan::Done(mut vs, q3) => {
                            let ghost tail = vs@;
                            vs.insert(0, v);
                            assert(vs@ =~= seq![v] + tail);
                            Scan::Done(vs, q3)
                        },
                        Scan::Error => Scan::Error,
                        Scan::Incomplete => Scan::Incomplete,
                    },
                };
                match list {
                    Scan::Done(vs, q3) => {
                        let ghost vv = vs@;
                        let r = Scan::Done(StopConnectionLine::StopGroups { group_id: g, stop_group: vs }, q3);
                        assert(group_list(s@, q1) == Scan::Done(vv, q3));
                        r
                    },
                    Scan::Error => Scan::Error,
                    Scan::Incomplete => Scan::Incomplete,
                }
            },
            Scan::Error => Scan::Error,
            Scan::Incomplete => Scan::Incomplete,
        },
        Scan::Error => Scan::Error,
        Scan::Incomplete => Scan::Incomplete,
    }
}

fn a_line_at(s: &[char]) -> (r: Scan<StopConnectionLine>)
    ensures
        r.deep_view() == sp_a_line(s@),
        r matches Scan::Done(_, q) ==> q <= s@.len(),
{
    match tag_lit(s, 0, "*A", true) {
        Scan::Done(_, q) => match till_eol(s, q) {
            Scan::Done(t, q2) => Scan::Done(StopConnectionLine::Aline(t), q2),
            _ => Scan::Error,
        },
        Scan::Error => Scan::Error,
        Scan::Incomplete => Scan::Incomplete,
    }
}

fn meta_stop_line_at(s: &[char]) -> (r: Scan<StopConnectionLine>)
    ensures
        r.deep_view() == sp_meta_stop_line(s@),
        r matches Scan::Done(_, q) ==> q <= s@.len(),
{
    match i32_field(s, 0, 7) {
        Scan::Done(a, q) => match crate::scan::run1(s, q, CharClass::MultiSpace) {
            Scan::Done(_, q1) => match i32_field(s, q1, 7) {
                Scan::Done(b, q2) => match crate::scan::run1(s, q2, CharClass::MultiSpace) {
                    Scan::Done(_, q3) => match crate::scan::i16_field(s, q3, 3) {
                        Scan::Done(d, q4) => Scan::Done(
                            StopConnectionLine::MetaStopLine { stop_id_1: a, stop_id_2: b, duration: d },
                            q4,
                        ),
                        Scan::Error => Scan::Error,
                        Scan::Incomplete => Scan::Incomplete,
                    },
                    Scan::Error => Scan::Error,
                    Scan::Incomplete => Scan::Incomplete,
                },
                Scan::Error => Scan::Error,
                Scan::Incomplete => Scan::Incomplete,
            },
            Scan::Error => Scan::Error,
            Scan::Incomplete => Scan::Incomplete,
        },
        Scan::Error => Scan::Error,
        Scan::Incomplete => Scan::Incomplete,
    }
}

/// The connections by id and the last id given.
pub struct StopConnectionState {
    pub connections: Map<i32, StopConnection>,
    pub last: int,
}

/// What a row does: a row of two stops makes a connection under the next id;
/// an `*A` row gives the connection made last the attribute of its code; a
/// group row changes nothing.
pub open spec fn stop_connection_step(
    st: StopConnectionState,
    line: Seq<char>,
    attributes: Map<Seq<char>, i32>,
) -> Result<StopConnectionState, ParsingErrorV> {
    match sp_stop_connection_row(line) {
        Scan::Done(StopConnectionLineView::Aline(code), _) => if !attributes.contains_key(code) {
            Err(ParsingErrorV::Unknown("Unknown legacy attribute ID: {s}"@))
        } else if !st.connections.contains_key(st.last as i32) {
            Err(ParsingErrorV::Unknown("Connection instance "@ + signed_decimal(st.last) + " not found."@))
        } else {
            Ok(
                StopConnectionState {
                    connections: st.connections.insert(
                        st.last as i32,
                        StopConnection { attribute: Some(attributes[code]), ..st.connections[st.last as i32] },
                    ),
                    ..st
                },
            )
        },
        Scan::Done(StopConnectionLineView::MetaStopLine { stop_id_1, stop_id_2, duration }, _) => {
            let id = st.last + 1;
            Ok(
                StopConnectionState {
                    connections: st.connections.insert(
                        id as i32,
                        StopConnection { id: id as i32, stop_id_1, stop_id_2, duration, attribute: None },
                    ),
                    last: id,
                },
            )
        },
        Scan::Done(StopConnectionLineView::StopGroups { .. }, _) => Ok(st),
        r => Err(ParsingErrorV::Syntax(scan_failure(r))),
    }
}

/// Reads a row of the file.  On an error nothing changes.
pub fn parse_line(
    line: &str,
    data: &mut IdMap<StopConnection>,
    attributes_pk_type_converter: &TextMap,
    auto_increment: &mut AutoIncrement,
) -> (r: Result<(), ParsingError>)
    requires
        old(auto_increment).can_advance(),
    ensures
        match stop_connection_step(
            StopConnectionState { connections: old(data)@, last: old(auto_increment)@ },
            line@,
            keyed(attributes_pk_type_converter@),
        ) {
            Ok(st) => r is Ok && final(data)@ == st.connections && final(auto_increment)@ == st.last,
            Err(e) => r matches Err(x) && x.deep_view() == e && final(data)@ == old(data)@
                && final(auto_increment)@ == old(auto_increment)@,
        },
{
    let s = chars_of(line);
    let row = match a_line_at(s.as_slice()) {
        Scan::Error => match stop_groups_at(s.as_slice()) {
            Scan::Error => meta_stop_line_at(s.as_slice()),
            r => r,
        },
        r => r,
    };
    let row = match row {
        Scan::Done(row, _) => row,
        Scan::Error => return Err(ParsingError::Syntax(ScanError::Error)),
        Scan::Incomplete => return Err(ParsingError::Syntax(ScanError::Incomplete)),
    };
    match row {
        StopConnectionLine::Aline(code) => {
            let attribute_id = match text_map_get(attributes_pk_type_converter, code.as_str()) {
                Some(id) => id,
                None => return Err(ParsingError::Unknown(String::from_str("Unknown legacy attribute ID: {s}"))),
            };
            let current = auto_increment.get();
            match id_map_get(data, current) {
                Some(c) => {
                    let mut c = *c;
                    c.attribute = Some(attribute_id);
                    id_map_insert(data, current, c);
                },
                None => {
                    let t = joined("Connection instance ", int_to_string(current as i64).as_str());
                    return Err(ParsingError::Unknown(joined(t.as_str(), " not found.")));
                },
            }
        },
        StopConnectionLine::MetaStopLine { stop_id_1, stop_id_2, duration } => {
            let id = auto_increment.next();
            id_map_insert(data, id, StopConnection { id, stop_id_1, stop_id_2, duration, attribute: None });
        },
        StopConnectionLine::StopGroups { .. } => {},
    }
    Ok(())
}

/// The state after the first `n` lines, blank lines skipped; or the first line
/// that does not read, and why.
pub open spec fn stop_connections_of(lines: Seq<Seq<char>>, n: nat, attributes: Map<Seq<char>, i32>) -> Result<
    StopConnectionState,
    (nat, ParsingErrorV),
>
    decreases n,
{
    if n == 0 {
        Ok(StopConnectionState { connections: Map::empty(), last: 0 })
    } else {
        match stop_connections_of(lines, (n - 1) as nat, attributes) {
            Err(e) => Err(e),
            Ok(st) => if blank(lines[n - 1]) {
                Ok(st)
            } else {
                match stop_connection_step(st, lines[n - 1], attributes) {
                    Ok(st2) => Ok(st2),
                    Err(e) => Err(((n - 1) as nat, e)),
                }
            },
        }
    }
}

pub proof fn lemma_stop_connections_error_stays(
    lines: Seq<Seq<char>>,
    n: nat,
    m: nat,
    attributes: Map<Seq<char>, i32>,
)
    requires
        n <= m,
        stop_connections_of(lines, n, attributes) is Err,
    ensures
        stop_connections_of(lines, m, attributes) == stop_connections_of(lines, n, attributes),
    decreases m - n,
{
    if n < m {
        lemma_stop_connections_error_stays(lines, n, (m - 1) as nat, attributes);
    }
}

/// Reads the lines of the METABHF file `file` into the connections, by id.
pub fn parse(file: &str, lines: &Vec<String>, attributes_pk_type_converter: &TextMap) -> (r: HResult<
    ResourceStorage<StopConnection>,
>)
    requires
        lines@.len() < i32::MAX,
    ensures
        match (r, stop_connections_of(texts(lines@), lines@.len(), keyed(attributes_pk_type_converter@))) {
            (Ok(st), Ok(f)) => st.view() == f.connections,
            (Err(e), Err((n, why))) => file_error(e, why, file@, lines@[n as int]@, n),
            _ => false,
        },
{
    let ghost attributes = keyed(attributes_pk_type_converter@);
    let mut auto_increment = AutoIncrement::new();
    let mut data: IdMap<StopConnection> = id_map_new();
    assert(data@ =~= Map::empty());
    let mut i: usize = 0;
    while i < lines.len()
        invariant
            0 <= i <= lines@.len(),
            lines@.len() < i32::MAX,
            attributes == keyed(attributes_pk_type_converter@),
            stop_connections_of(texts(lines@), i as nat, attributes) == Ok::<_, (nat, ParsingErrorV)>(
                StopConnectionState { connections: data@, last: auto_increment@ },
            ),
            0 <= auto_increment@ <= i,
        decreases lines@.len() - i,
    {
        let line = &lines[i];
        assert(texts(lines@)[i as int] == line@);
        if !is_blank(line.as_str()) {
            match parse_line(line.as_str(), &mut data, attributes_pk_type_converter, &mut auto_increment) {
                Ok(()) => {},
                Err(e) => {
                    proof {
                        lemma_stop_connections_error_stays(texts(lines@), (i + 1) as nat, lines@.len(), attributes);
                    }
                    return Err(
                        HrdfError::Parsing {
                            error: e,
                            file: String::from_str(file),
                            line: line.clone(),
                            line_number: i,
                        },
                    );
                },
            }
        }
        i = i + 1;
    }
    Ok(ResourceStorage::new(data))
}

} // verus!
