//! # Timetable metadata (ECKDATEN)
//!
//! The first two lines are the first and the last day of the timetable,
//! written `dd.mm.yyyy`; the third holds the other values separated by `$`:
//! name, creation time, version and provider.
//!
//! ```text
//! 14.12.2025
//! 12.12.2026
//! Fahrplan 2026$22.09.2026 21:49:55$5.40.41$INFO+
//! ```
//!
//! Each value becomes an entry under the next id, with the next key of
//! `start_date`, `end_date`, `name`, `created_at`, `version`, `provider`;
//! the dates are stored as `yyyy-mm-dd`.
use vstd::prelude::*;

use crate::calendar::{date_before, date_text, date_to_text, is_before, valid_date, Date};
use crate::error::{HResult, HrdfError, ParsingError, ParsingErrorV};
use crate::models::{read_iso_date_spec, TimetableMetadataEntry, TimetableMetadataEntryView};
use crate::parsing::lines::{blank, file_error, is_blank, scan_failure, texts};
use crate::scan::{
    run_end, run_end_at, sp_i32_number, sp_tag, sp_then, sp_u32_number, i32_number, tag_lit,
    u32_number, CharClass, IResult, Scan, ScanError,
};
use crate::storage::{id_map_insert, id_map_new, IdMap, ResourceStorage};
use crate::text::{chars_of, debug_quoted, debug_text, int_to_string, joined, signed_decimal, string_of};
use crate::utils::{timetable_end_date, timetable_start_date, AutoIncrement};
use vstd::string::StringExecFns;

verus! {

broadcast use vstd::string::group_string_axioms;

/// A line of the file.
#[derive(Debug)]
pub enum InfoLines {
    Date(Date),
    MetaData(Vec<String>),
}

pub enum InfoLinesView {
    Date(Date),
    MetaData(Seq<Seq<char>>),
}

pub open spec fn strings_view(v: Seq<String>) -> Seq<Seq<char>> {
    v.map_values(|t: String| t@)
}

impl DeepView for InfoLines {
    type V = InfoLinesView;

    open spec fn deep_view(&self) -> InfoLinesView {
        match self {
            InfoLines::Date(d) => InfoLinesView::Date(*d),
            InfoLines::MetaData(v) => InfoLinesView::MetaData(strings_view(v@)),
        }
    }
}

/// A date `d.m.y`: day and month without sign, year with an optional sign,
/// as many digits as follow; it must exist.
pub open spec fn sp_date(s: Seq<char>) -> Scan<Date> {
    sp_then(
        sp_u32_number(s, 0),
        |day: u32, q1: usize|
            sp_then(
                sp_tag(s, q1, "."@, true),
                |u: (), q2: usize|
                    sp_then(
                        sp_u32_number(s, q2),
                        |month: u32, q3: usize|
                            sp_then(
                                sp_tag(s, q3, "."@, true),
                                |u2: (), q4: usize|
                                    sp_then(
                                        sp_i32_number(s, q4),
                                        |year: i32, q5: usize|
                                            if valid_date(year as int, month as int, day as int) {
                                                Scan::Done(Date { year, month, day }, q5)
                                            } else {
                                                Scan::Error
                                            },
                                    ),
                            ),
                    ),
            ),
    )
}

/// The values from `p` on (the one at `p` is not empty): each value runs up to
/// the next `$`; after a `$`, an empty value ends the list, and the `$` is left.
pub open spec fn info_list(s: Seq<char>, p: int) -> (Seq<Seq<char>>, int)
    decreases s.len() - p,
{
    let e = run_end(s, p, CharClass::Not('$'));
    if p < e && e < s.len() && run_end(s, e + 1, CharClass::Not('$')) > e + 1 {
        let (rest, q) = info_list(s, e + 1);
        (seq![s.subrange(p, e)] + rest, q)
    } else {
        (seq![s.subrange(p, e)], e)
    }
}

/// The values separated by `$`; there must be a first, non-empty one.
pub open spec fn sp_info(s: Seq<char>) -> Scan<Seq<Seq<char>>> {
    if run_end(s, 0, CharClass::Not('$')) > 0 {
        let (vs, q) = info_list(s, 0);
        Scan::Done(vs, q as usize)
    } else {
        Scan::Error
    }
}

/// A line: a date if it reads as one, otherwise the values.
pub open spec fn sp_eckdaten_row(s: Seq<char>) -> Scan<InfoLinesView> {
    match sp_date(s) {
        Scan::Done(d, q) => Scan::Done(InfoLinesView::Date(d), q),
        Scan::Incomplete => Scan::Incomplete,
        Scan::Error => match sp_info(s) {
            Scan::Done(vs, q) => Scan::Done(InfoLinesView::MetaData(vs), q),
            Scan::Error => Scan::Error,
            Scan::Incomplete => Scan::Incomplete,
        },
    }
}

fn date_at(s: &[char]) -> (r: Scan<Date>)
    ensures
        r == sp_date(s@),
        r matches Scan::Done(_, q) ==> q <= s@.len(),
{
    match u32_number(s, 0) {
        Scan::Done(day, q1) => match tag_lit(s, q1, ".", true) {
            Scan::Done(_, q2) => match u32_number(s, q2) {
                Scan::Done(month, q3) => match tag_lit(s, q3, ".", true) {
                    Scan::Done(_, q4) => match i32_number(s, q4) {
                        Scan::Done(year, q5) => match Date::from_ymd_opt(year, month, day) {
                            Some(d) => Scan::Done(d, q5),
                            None => Scan::Error,
                        },
                        Scan::Error => Scan::Error,
                        Scan::Incomplete => Scan::Incomplete,
                    },
                    Scan::Error => Scan::Error,
                    Scan::Incomplete => Scan::Incomplete,
                },
                Scan::Error => Scan::Error,
                Scan::Incomplete => Scan::Incomplete,
            },
            Scan::Error => Scan::Error,
            Scan::Incomplete => Scan::Incomplete,
        },
        Scan::Error => Scan::Error,
        Scan::Incomplete => Scan::Incomplete,
    }
}

fn info_at(s: &[char]) -> (r: Scan<Vec<String>>)
    ensures
        match (r, sp_info(s@)) {
            (Scan::Done(v, q), Scan::Done(vs, q2)) => strings_view(v@) == vs && q == q2,
            (Scan::Error, Scan::Error) => true,
            _ => false,
        },
        r matches Scan::Done(_, q) ==> q <= s@.len(),
{
    let not_dollar = CharClass::Not('$');
    let first = run_end_at(s, 0, &not_dollar);
    if first == 0 {
        return Scan::Error;
    }
    let mut vals: Vec<String> = Vec::new();
    let mut p: usize = 0;
    assert(strings_view(vals@) + info_list(s@, 0).0 =~= info_list(s@, 0).0);
    loop
        invariant
            p <= s@.len(),
            p < run_end(s@, p as int, CharClass::Not('$')),
            not_dollar == CharClass::Not('$'),
            info_list(s@, 0).0 == strings_view(vals@) + info_list(s@, p as int).0,
            info_list(s@, 0).1 == info_list(s@, p as int).1,
        decreases s@.len() - p,
    {
        let e = run_end_at(s, p, &not_dollar);
        let v = string_of(s, p, e);
        let ghost before = strings_view(vals@);
        vals.push(v);
        assert(strings_view(vals@) =~= before.push(s@.subrange(p as int, e as int)));
        if e < s.len() && run_end_at(s, e + 1, &not_dollar) > e + 1 {
            let ghost (rest, q) = info_list(s@, e + 1);
            assert(info_list(s@, p as int).0 == seq![s@.subrange(p as int, e as int)] + rest);
            assert(strings_view(vals@) + rest =~= before + (seq![s@.subrange(p as int, e as int)] + rest));
            p = e + 1;
        } else {
            assert(info_list(s@, p as int).0 == seq![s@.subrange(p as int, e as int)]);
            assert(strings_view(vals@) =~= before + seq![s@.subrange(p as int, e as int)]);
            return Scan::Done(vals, e);
        }
    }
}

pub open spec fn info_result(r: IResult<InfoLines>) -> Result<(Seq<char>, InfoLinesView), ScanError> {
    match r {
        Ok((rest, l)) => Ok((rest@, l.deep_view())),
        Err(e) => Err(e),
    }
}

pub open spec fn scan_result(s: Seq<char>, r: Scan<InfoLinesView>) -> Result<(Seq<char>, InfoLinesView), ScanError> {
    match r {
        Scan::Done(v, q) => Ok((s.subrange(q as int, s.len() as int), v)),
        Scan::Error => Err(ScanError::Error),
        Scan::Incomplete => Err(ScanError::Incomplete),
    }
}

/// Reads a date `d.m.y` that exists.
pub fn date_combinator(input: &str) -> (r: IResult<InfoLines>)
    ensures
        info_result(r) == scan_result(
            input@,
            match sp_date(input@) {
                Scan::Done(d, q) => Scan::Done(InfoLinesView::Date(d), q),
                Scan::Error => Scan::Error,
                Scan::Incomplete => Scan::Incomplete,
            },
        ),
{
    let s = chars_of(input);
    match date_at(s.as_slice()) {
        Scan::Done(d, q) => Ok((string_of(s.as_slice(), q, s.len()), InfoLines::Date(d))),
        Scan::Error => Err(ScanError::Error),
        Scan::Incomplete => Err(ScanError::Incomplete),
    }
}

/// Reads the values separated by `$`.
pub fn info_combinator(input: &str) -> (r: IResult<InfoLines>)
    ensures
        info_result(r) == scan_result(
            input@,
            match sp_info(input@) {
                Scan::Done(vs, q) => Scan::Done(InfoLinesView::MetaData(vs), q),
                Scan::Error => Scan::Error,
                Scan::Incomplete => Scan::Incomplete,
            },
        ),
{
    let s = chars_of(input);
    match info_at(s.as_slice()) {
        Scan::Done(v, q) => Ok((string_of(s.as_slice(), q, s.len()), InfoLines::MetaData(v))),
        Scan::Error => Err(ScanError::Error),
        Scan::Incomplete => Err(ScanError::Incomplete),
    }
}

/// The error text when the values outnumber the `n` keys, `value` being the
/// first left over.
pub open spec fn too_many_values_text(n: nat, value: Seq<char>) -> Seq<char> {
    "ECKDATEN has more than "@ + signed_decimal((n as i64) as int) + " values, unexpected value "@
        + debug_quoted(value)
}

/// The error text when `line` holds no date where the date under `key` is
/// expected.
pub open spec fn expected_date_text(key: Seq<char>, line: Seq<char>) -> Seq<char> {
    "Expected a date (DD.MM.YYYY) for "@ + key + ", got "@ + debug_quoted(line)
}

/// The keys, as texts.
pub open spec fn keys_view(keys: Seq<&str>) -> Seq<Seq<char>> {
    keys.map_values(|k: &str| k@)
}

/// The key at `index`; an error naming `value` when there are no more keys.
pub fn key_at(keys: &[&str], index: usize, value: &str) -> (r: Result<String, ParsingError>)
    ensures
        index < keys@.len() ==> (r matches Ok(k) && k@ == keys@[index as int]@),
        index >= keys@.len() ==> (r matches Err(e) && e.deep_view() == ParsingErrorV::Unknown(
            too_many_values_text(keys@.len(), value@),
        )),
{
    if index < keys.len() {
        Ok(String::from_str(keys[index]))
    } else {
        let t = joined("ECKDATEN has more than ", int_to_string(keys.len() as i64).as_str());
        let t = joined(t.as_str(), " values, unexpected value ");
        Err(ParsingError::Unknown(joined(t.as_str(), debug_text(value).as_str())))
    }
}

/// The entries read so far, the index of the next key, and the last id given.
pub struct EckdatenState {
    pub entries: Map<i32, TimetableMetadataEntryView>,
    pub index: int,
    pub last: int,
}

/// Adds `value` under the next key and the next id; when the keys are used
/// up, an error naming `shown`.
pub open spec fn add_value(st: EckdatenState, keys: Seq<Seq<char>>, value: Seq<char>, shown: Seq<char>) -> Result<
    EckdatenState,
    ParsingErrorV,
> {
    if 0 <= st.index < keys.len() {
        let id = st.last + 1;
        Ok(
            EckdatenState {
                entries: st.entries.insert(
                    id as i32,
                    TimetableMetadataEntryView { id: id as i32, key: keys[st.index], value },
                ),
                index: st.index + 1,
                last: id,
            },
        )
    } else {
        Err(ParsingErrorV::Unknown(too_many_values_text(keys.len(), shown)))
    }
}

/// Adds the values one after the other; on an error, the state reached and the error.
pub open spec fn add_values(st: EckdatenState, keys: Seq<Seq<char>>, values: Seq<Seq<char>>) -> (
    EckdatenState,
    Option<ParsingErrorV>,
)
    decreases values.len(),
{
    if values.len() == 0 {
        (st, None)
    } else {
        let (st1, e) = add_values(st, keys, values.drop_last());
        if e is Some {
            (st1, e)
        } else {
            match add_value(st1, keys, values.last(), values.last()) {
                Ok(st2) => (st2, None),
                Err(e2) => (st1, Some(e2)),
            }
        }
    }
}

/// What a line does: a date is stored as `yyyy-mm-dd` under the next key; the
/// values are stored one by one under the next keys, once both dates are read.
pub open spec fn eckdaten_step(st: EckdatenState, line: Seq<char>, keys: Seq<Seq<char>>) -> (
    EckdatenState,
    Option<ParsingErrorV>,
) {
    match sp_eckdaten_row(line) {
        Scan::Done(InfoLinesView::Date(d), _) => match add_value(
            st,
            keys,
            date_text(d.year as int, d.month as int, d.day as int),
            line,
        ) {
            Ok(st2) => (st2, None),
            Err(e) => (st, Some(e)),
        },
        Scan::Done(InfoLinesView::MetaData(vs), _) => if st.index < 2 {
            (st, Some(ParsingErrorV::Unknown(expected_date_text(keys[st.index], line))))
        } else {
            add_values(st, keys, vs)
        },
        r => (st, Some(ParsingErrorV::Syntax(scan_failure(r)))),
    }
}

pub open spec fn entries_view(m: Map<i32, TimetableMetadataEntry>) -> Map<i32, TimetableMetadataEntryView> {
    m.map_values(|x: TimetableMetadataEntry| x.deep_view())
}

pub open spec fn state_of(m: Map<i32, TimetableMetadataEntry>, index: usize, ai: AutoIncrement) -> EckdatenState {
    EckdatenState { entries: entries_view(m), index: index as int, last: ai@ }
}

/// Adds `value` under the key at `index` and the next id.
fn add_entry(
    data: &mut IdMap<TimetableMetadataEntry>,
    keys: &[&str],
    index: &mut usize,
    auto_increment: &mut AutoIncrement,
    value: String,
    shown: &str,
) -> (r: Result<(), ParsingError>)
    requires
        old(auto_increment)@ + (keys@.len() - *old(index)) < i32::MAX,
        *old(index) <= keys@.len(),
    ensures
        match add_value(state_of(old(data)@, *old(index), *old(auto_increment)), keys_view(keys@), value@, shown@) {
            Ok(st) => r is Ok && state_of(final(data)@, *final(index), *final(auto_increment)) == st,
            Err(e) => r matches Err(x) && x.deep_view() == e && final(data)@ == old(data)@ && *final(index)
                == *old(index) && final(auto_increment)@ == old(auto_increment)@,
        },
        *final(index) <= keys@.len(),
        final(auto_increment)@ - *final(index) == old(auto_increment)@ - *old(index),
{
    let key = match key_at(keys, *index, shown) {
        Ok(k) => k,
        Err(e) => return Err(e),
    };
    let key_count = keys.len();
    assert(*index < key_count);
    let id = auto_increment.next();
    let entry = TimetableMetadataEntry::new(id, key, value);
    let ghost before = entries_view(data@);
    let ghost ev = entry.deep_view();
    id_map_insert(data, id, entry);
    assert(entries_view(data@) =~= before.insert(id, ev));
    *index = *index + 1;
    Ok(())
}

/// Reads a line of the file: a date or the values, stored under the next keys
/// of `keys` and the next ids.  On an error, the values stored before it stay.
pub fn parse_line(
    line: &str,
    data: &mut IdMap<TimetableMetadataEntry>,
    keys: &[&str],
    index: &mut usize,
    auto_increment: &mut AutoIncrement,
) -> (r: Result<(), ParsingError>)
    requires
        old(auto_increment)@ + (keys@.len() - *old(index)) < i32::MAX,
        *old(index) <= keys@.len(),
        *old(index) < 2 ==> *old(index) < keys@.len(),
    ensures
        ({
            let (st, e) = eckdaten_step(
                state_of(old(data)@, *old(index), *old(auto_increment)),
                line@,
                keys_view(keys@),
            );
            state_of(final(data)@, *final(index), *final(auto_increment)) == st && match e {
                None => r is Ok,
                Some(e) => r matches Err(x) && x.deep_view() == e,
            }
        }),
        *final(index) <= keys@.len(),
        final(auto_increment)@ - *final(index) == old(auto_increment)@ - *old(index),
{
    let s = chars_of(line);
    let row = match date_at(s.as_slice()) {
        Scan::Done(d, _) => InfoLines::Date(d),
        Scan::Incomplete => return Err(ParsingError::Syntax(ScanError::Incomplete)),
        Scan::Error => match info_at(s.as_slice()) {
            Scan::Done(v, _) => InfoLines::MetaData(v),
            _ => return Err(ParsingError::Syntax(ScanError::Error)),
        },
    };
    match row {
        InfoLines::Date(d) => {
            let text = date_to_text(d);
            add_entry(data, keys, index, auto_increment, text, line)
        },
        InfoLines::MetaData(values) => {
            if *index < 2 {
                let t = joined("Expected a date (DD.MM.YYYY) for ", keys[*index]);
                let t = joined(t.as_str(), ", got ");
                return Err(ParsingError::Unknown(joined(t.as_str(), debug_text(line).as_str())));
            }
            let ghost start = state_of(data@, *index, *auto_increment);
            let ghost vs = strings_view(values@);
            assert(eckdaten_step(start, line@, keys_view(keys@)) == add_values(start, keys_view(keys@), vs));
            assert(vs.take(0) =~= Seq::<Seq<char>>::empty());
            let mut i: usize = 0;
            while i < values.len()
                invariant
                    0 <= i <= values@.len(),
                    start == state_of(old(data)@, *old(index), *old(auto_increment)),
                    eckdaten_step(start, line@, keys_view(keys@)) == add_values(start, keys_view(keys@), vs),
                    vs == strings_view(values@),
                    add_values(start, keys_view(keys@), vs.take(i as int)) == (
                        state_of(data@, *index, *auto_increment),
                        None::<ParsingErrorV>,
                    ),
                    auto_increment@ + (keys@.len() - *index) < i32::MAX,
                    *index <= keys@.len(),
                    auto_increment@ - *index == start.last - start.index,
                decreases values@.len() - i,
            {
                assert(vs.take(i + 1).drop_last() =~= vs.take(i as int));
                assert(vs.take(i + 1).last() == values@[i as int]@);
                let ghost here = state_of(data@, *index, *auto_increment);
                match add_entry(data, keys, index, auto_increment, values[i].clone(), values[i].as_str()) {
                    Ok(()) => {},
                    Err(e) => {
                        proof {
                            lemma_add_values_error_stays(start, keys_view(keys@), vs, (i + 1) as nat);
                            assert(vs.take(vs.len() as int) =~= vs);
                        }
                        return Err(e);
                    },
                }
                i = i + 1;
            }
            assert(vs.take(vs.len() as int) =~= vs);
            Ok(())
        },
    }
}

/// Once adding a value fails, later values change nothing.
pub proof fn lemma_add_values_error_stays(st: EckdatenState, keys: Seq<Seq<char>>, vs: Seq<Seq<char>>, n: nat)
    requires
        n <= vs.len(),
        add_values(st, keys, vs.take(n as int)).1 is Some,
    ensures
        add_values(st, keys, vs) == add_values(st, keys, vs.take(n as int)),
    decreases vs.len() - n,
{
    if n < vs.len() {
        assert(vs.take((n + 1) as int).drop_last() =~= vs.take(n as int));
        lemma_add_values_error_stays(st, keys, vs, n + 1);
    } else {
        assert(vs.take(n as int) =~= vs);
    }
}


/// The keys of the values, in the order of the file.
pub open spec fn eckdaten_keys() -> Seq<Seq<char>> {
    seq!["start_date"@, "end_date"@, "name"@, "created_at"@, "version"@, "provider"@]
}

/// The state after the first `n` lines, blank lines skipped; or the first line
/// that does not read, and why.
pub open spec fn eckdaten_of(lines: Seq<Seq<char>>, n: nat, keys: Seq<Seq<char>>) -> Result<
    EckdatenState,
    (nat, ParsingErrorV),
>
    decreases n,
{
    if n == 0 {
        Ok(EckdatenState { entries: Map::empty(), index: 0, last: 0 })
    } else {
        match eckdaten_of(lines, (n - 1) as nat, keys) {
            Err(e) => Err(e),
            Ok(st) => if blank(lines[n - 1]) {
                Ok(st)
            } else {
                let (st2, e) = eckdaten_step(st, lines[n - 1], keys);
                match e {
                    None => Ok(st2),
                    Some(e) => Err(((n - 1) as nat, e)),
                }
            },
        }
    }
}

pub proof fn lemma_eckdaten_error_stays(lines: Seq<Seq<char>>, n: nat, m: nat, keys: Seq<Seq<char>>)
    requires
        n <= m,
        eckdaten_of(lines, n, keys) is Err,
    ensures
        eckdaten_of(lines, m, keys) == eckdaten_of(lines, n, keys),
    decreases m - n,
{
    if n < m {
        lemma_eckdaten_error_stays(lines, n, (m - 1) as nat, keys);
    }
}

/// The shape of the state: the entries are 1 up to the last id, and entry `k`
/// has the `k`-th key; as many keys are used as ids given.
pub open spec fn eckdaten_shape(st: EckdatenState, keys: Seq<Seq<char>>) -> bool {
    &&& 0 <= st.index <= keys.len()
    &&& st.last == st.index
    &&& forall|k: i32| #[trigger] st.entries.contains_key(k) <==> 1 <= k <= st.last
    &&& forall|k: i32|
        #[trigger] st.entries.contains_key(k) ==> st.entries[k].key == keys[k - 1] && st.entries[k].id
            == k
}

proof fn lemma_add_value_shape(st: EckdatenState, keys: Seq<Seq<char>>, value: Seq<char>, shown: Seq<char>)
    requires
        eckdaten_shape(st, keys),
        keys.len() < i32::MAX,
    ensures
        add_value(st, keys, value, shown) matches Ok(st2) ==> eckdaten_shape(st2, keys),
{
    if 0 <= st.index < keys.len() {
        let id = st.last + 1;
        let st2 = add_value(st, keys, value, shown)->Ok_0;
        assert forall|k: i32| #[trigger] st2.entries.contains_key(k) <==> 1 <= k <= st2.last by {
            if k == id {
                assert(k == id as i32);
            }
        }
    }
}

proof fn lemma_add_values_shape(st: EckdatenState, keys: Seq<Seq<char>>, values: Seq<Seq<char>>)
    requires
        eckdaten_shape(st, keys),
        keys.len() < i32::MAX,
    ensures
        eckdaten_shape(add_values(st, keys, values).0, keys),
    decreases values.len(),
{
    if values.len() > 0 {
        lemma_add_values_shape(st, keys, values.drop_last());
        let (st1, e) = add_values(st, keys, values.drop_last());
        lemma_add_value_shape(st1, keys, values.last(), values.last());
    }
}

/// Every line keeps the shape of the state.
pub proof fn lemma_eckdaten_shape(lines: Seq<Seq<char>>, n: nat, keys: Seq<Seq<char>>)
    requires
        2 <= keys.len() < i32::MAX,
    ensures
        eckdaten_of(lines, n, keys) matches Ok(st) ==> eckdaten_shape(st, keys),
    decreases n,
{
    if n > 0 {
        lemma_eckdaten_shape(lines, (n - 1) as nat, keys);
        match eckdaten_of(lines, (n - 1) as nat, keys) {
            Ok(st) => {
                match sp_eckdaten_row(lines[n - 1]) {
                    Scan::Done(InfoLinesView::Date(d), _) => lemma_add_value_shape(
                        st,
                        keys,
                        date_text(d.year as int, d.month as int, d.day as int),
                        lines[n - 1],
                    ),
                    Scan::Done(InfoLinesView::MetaData(vs), _) => if st.index >= 2 {
                        lemma_add_values_shape(st, keys, vs)
                    },
                    _ => {},
                }
            },
            Err(_) => {},
        }
    }
}

/// The values of a line are stored one after the other under the next ids
/// and the next keys, in the order in which the line gives them; the entries
/// stored before stay as they were.
pub proof fn lemma_values_in_order(st: EckdatenState, keys: Seq<Seq<char>>, vs: Seq<Seq<char>>)
    requires
        eckdaten_shape(st, keys),
        keys.len() < i32::MAX,
    ensures
        add_values(st, keys, vs).1 is None ==> {
            let st2 = add_values(st, keys, vs).0;
            &&& st2.last == st.last + vs.len()
            &&& forall|i: int|
                0 <= i < vs.len() ==> #[trigger] st2.entries[(st.last + 1 + i) as i32] == (TimetableMetadataEntryView {
                    id: (st.last + 1 + i) as i32,
                    key: keys[st.index + i],
                    value: vs[i],
                })
            &&& forall|k: i32| #[trigger] st.entries.contains_key(k) ==> st2.entries.contains_key(k) && st2.entries[k] == st.entries[k]
        },
    decreases vs.len(),
{
    if vs.len() > 0 && add_values(st, keys, vs).1 is None {
        let front = vs.drop_last();
        lemma_values_in_order(st, keys, front);
        lemma_add_values_shape(st, keys, front);
        let st1 = add_values(st, keys, front).0;
        assert(add_values(st, keys, front).1 is None);
        let st2 = add_values(st, keys, vs).0;
        assert(st2 == add_value(st1, keys, vs.last(), vs.last())->Ok_0);
        assert forall|i: int| 0 <= i < vs.len() implies #[trigger] st2.entries[(st.last + 1 + i) as i32] == (TimetableMetadataEntryView {
            id: (st.last + 1 + i) as i32,
            key: keys[st.index + i],
            value: vs[i],
        }) by {
            if i < vs.len() - 1 {
                assert(front[i] == vs[i]);
                assert(st1.entries.contains_key((st.last + 1 + i) as i32));
            }
        }
    }
}

/// The entries of ECKDATEN are numbered 1 up to the last, in the order the
/// values are read, and carry the keys `start_date`, `end_date`, `name`,
/// `created_at`, `version` and `provider` in that order.
pub proof fn lemma_eckdaten_keys_in_order(lines: Seq<Seq<char>>, n: nat)
    ensures
        eckdaten_of(lines, n, eckdaten_keys()) matches Ok(st) ==> {
            &&& 0 <= st.last <= 6
            &&& forall|k: i32| #[trigger] st.entries.contains_key(k) <==> 1 <= k <= st.last
            &&& forall|k: i32| #[trigger] st.entries.contains_key(k) ==> st.entries[k].id == k
            &&& st.entries.contains_key(1) ==> st.entries[1].key == "start_date"@
            &&& st.entries.contains_key(2) ==> st.entries[2].key == "end_date"@
            &&& st.entries.contains_key(3) ==> st.entries[3].key == "name"@
            &&& st.entries.contains_key(4) ==> st.entries[4].key == "created_at"@
            &&& st.entries.contains_key(5) ==> st.entries[5].key == "version"@
            &&& st.entries.contains_key(6) ==> st.entries[6].key == "provider"@
        },
{
    lemma_eckdaten_shape(lines, n, eckdaten_keys());
}

/// When both the first and the last day read as dates and the last comes
/// before the first: the last day.  Entries 1 and 2 hold the two days.
pub open spec fn reversed_end(st: EckdatenState) -> Option<Date> {
    if st.entries.contains_key(1) && st.entries.contains_key(2) {
        match (read_iso_date_spec(st.entries[1].value), read_iso_date_spec(st.entries[2].value)) {
            (Some(s), Some(e)) => if date_before(e, s) {
                Some(e)
            } else {
                None
            },
            _ => None,
        }
    } else {
        None
    }
}

/// Reads the lines of the ECKDATEN file `file` into the metadata entries; an
/// end date before the start date is refused.
pub fn parse(file: &str, lines: &Vec<String>) -> (r: HResult<ResourceStorage<TimetableMetadataEntry>>)
    ensures
        match (r, eckdaten_of(texts(lines@), lines@.len(), eckdaten_keys())) {
            (Ok(st), Ok(f)) => entries_view(st.view()) == f.entries && reversed_end(f).is_none(),
            (Err(HrdfError::OutOfRangeDate(d)), Ok(f)) => reversed_end(f) == Some(d),
            (Err(e), Err((n, why))) => file_error(e, why, file@, lines@[n as int]@, n),
            _ => false,
        },
{
    let keys = ["start_date", "end_date", "name", "created_at", "version", "provider"];
    let ghost kv = eckdaten_keys();
    assert(keys_view(keys@) =~= kv);
    let mut auto_increment = AutoIncrement::new();
    let mut index: usize = 0;
    let mut data: IdMap<TimetableMetadataEntry> = id_map_new();
    assert(entries_view(data@) =~= Map::empty());
    let mut i: usize = 0;
    while i < lines.len()
        invariant
            0 <= i <= lines@.len(),
            keys_view(keys@) == kv,
            kv == eckdaten_keys(),
            keys@.len() == 6,
            eckdaten_of(texts(lines@), i as nat, kv) == Ok::<_, (nat, ParsingErrorV)>(
                state_of(data@, index, auto_increment),
            ),
            index <= 6,
            auto_increment@ == index,
        decreases lines@.len() - i,
    {
        let line = &lines[i];
        assert(texts(lines@)[i as int] == line@);
        if !is_blank(line.as_str()) {
            match parse_line(line.as_str(), &mut data, &keys, &mut index, &mut auto_increment) {
                Ok(()) => {},
                Err(e) => {
                    proof {
                        lemma_eckdaten_error_stays(texts(lines@), (i + 1) as nat, lines@.len(), kv);
                    }
                    return Err(
                        HrdfError::Parsing {
                            error: e,
                            file: String::from_str(file),
                            line: line.clone(),
                            line_number: i,
                        },
                    );
                },
            }
        }
        i = i + 1;
    }
    let ghost f = state_of(data@, index, auto_increment);
    proof {
        lemma_eckdaten_shape(texts(lines@), lines@.len(), kv);
        reveal_strlit("start_date");
        reveal_strlit("end_date");
        reveal_strlit("name");
        reveal_strlit("created_at");
        reveal_strlit("version");
        reveal_strlit("provider");
        assert(kv[0] != kv[1] && kv[0] != kv[2] && kv[0] != kv[3] && kv[0] != kv[4] && kv[0] != kv[5]) by {
            assert(kv[0][0] != kv[3][0]);
            assert(kv[0].len() != kv[1].len() && kv[0].len() != kv[2].len() && kv[0].len() != kv[4].len() && kv[0].len() != kv[5].len());
        }
        assert(kv[1] != kv[0] && kv[1] != kv[2] && kv[1] != kv[3] && kv[1] != kv[4] && kv[1] != kv[5]) by {
            assert(kv[1][0] != kv[5][0]);
            assert(kv[1].len() != kv[0].len() && kv[1].len() != kv[2].len() && kv[1].len() != kv[3].len() && kv[1].len() != kv[4].len());
        }
    }
    let storage = ResourceStorage::new(data);
    let start = timetable_start_date(&storage);
    let end = timetable_end_date(&storage);
    proof {
        assert(storage.view() == data@);
        assert forall|k: i32| #[trigger] storage.view().contains_key(k) && storage.view()[k].key@ == "start_date"@ implies k == 1 by {
            assert(f.entries.contains_key(k));
            assert(f.entries[k].key == kv[k - 1]);
        }
        assert forall|k: i32| #[trigger] storage.view().contains_key(k) && storage.view()[k].key@ == "end_date"@ implies k == 2 by {
            assert(f.entries.contains_key(k));
            assert(f.entries[k].key == kv[k - 1]);
        }
        if f.entries.contains_key(1) {
            assert(storage.view()[1].key@ == "start_date"@);
        }
        if f.entries.contains_key(2) {
            assert(storage.view()[2].key@ == "end_date"@);
        }
    }
    match (start, end) {
        (Ok(s), Ok(e)) => {
            if is_before(e, s) {
                return Err(HrdfError::OutOfRangeDate(e));
            }
            Ok(storage)
        },
        _ => Ok(storage),
    }
}

} // verus!
