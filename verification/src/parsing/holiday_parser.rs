//! # Holidays (FEIERTAG)
//!
//! A row gives the date `dd.mm.yyyy`, then the holiday's name in several
//! languages, each followed by its language in angle brackets:
//!
//! `25.12.2024 Weihnachtstag<deu>Noël<fra>Natale<ita>Christmas Day<eng>`
use vstd::prelude::*;

use crate::calendar::{dotted_date_parsed, parse_dotted_date, Date};
use crate::error::{HResult, HrdfError, ParsingError, ParsingErrorV};
use crate::models::{language_named, Holiday, HolidayView, Language, Translations, TranslationsView};
use crate::parsing::lines::{
    file_error, is_blank, lemma_numbered_error_stays, numbered, scan_failure, texts,
};
use crate::scan::{
    char_lit, finish, result_view, sp_char, sp_map, sp_result, sp_str_field, sp_then, sp_till_eol,
    take_str_field, till_eol, IResult, Scan, };
use crate::storage::{id_map_insert, id_map_new, IdMap, ResourceStorage};
use crate::text::{chars_of, pieces_view, split, split_at_char, string_of_all};
use crate::utils::AutoIncrement;
use vstd::string::StringExecFns;

verus! {

broadcast use vstd::string::group_string_axioms;

/// A row: the date (10 characters, trimmed), a space, and the names up to the end of the line.
pub open spec fn sp_holiday_row(s: Seq<char>) -> Scan<(Seq<char>, Seq<char>)> {
    sp_then(
        sp_str_field(s, 0, 10),
        |d: Seq<char>, q: usize|
            sp_then(
                sp_char(s, q, ' ', true),
                |u: (), q1: usize| sp_map(sp_till_eol(s, q1), |t: Seq<char>| (d, t)),
            ),
    )
}

/// Reads a row: the date's text and the names' text.
pub fn parse_holiday_row(input: &str) -> (r: IResult<(String, String)>)
    ensures
        result_view(r) == sp_result(input@, sp_holiday_row(input@)),
{
    let s = chars_of(input);
    let r = match take_str_field(s.as_slice(), 0, 10) {
        Scan::Done(d, q) => match char_lit(s.as_slice(), q, ' ', true) {
            Scan::Done(_, q1) => match till_eol(s.as_slice(), q1) {
                Scan::Done(t, q2) => Scan::Done((d, t), q2),
                Scan::Error => Scan::Error,
                Scan::Incomplete => Scan::Incomplete,
            },
            Scan::Error => Scan::Error,
            Scan::Incomplete => Scan::Incomplete,
        },
        Scan::Error => Scan::Error,
        Scan::Incomplete => Scan::Incomplete,
    };
    finish(s.as_slice(), r)
}

/// The names of the pieces `name<lang` (the text between two `>`): empty
/// pieces are skipped; a later name in a language replaces an earlier one.
pub open spec fn name_translations(pieces: Seq<Seq<char>>) -> Result<TranslationsView, ParsingErrorV>
    decreases pieces.len(),
{
    if pieces.len() == 0 {
        Ok(TranslationsView::empty())
    } else {
        match name_translations(pieces.drop_last()) {
            Err(e) => Err(e),
            Ok(t) => {
                let p = pieces.last();
                if p.len() == 0 {
                    Ok(t)
                } else {
                    let parts = split(p, '<');
                    if parts.len() < 2 {
                        Err(ParsingErrorV::MissingValue)
                    } else {
                        match language_named(parts[1]) {
                            Some(l) => Ok(t.set(l, parts[0])),
                            None => Err(ParsingErrorV::UnknownLanguage(parts[1])),
                        }
                    }
                }
            },
        }
    }
}

/// Reads the names of a holiday, written `name<lang>name<lang>...`.
pub fn parse_name_translations(name_translations_text: &str) -> (r: Result<Translations, ParsingError>)
    ensures
        match name_translations(split(name_translations_text@, '>')) {
            Ok(t) => r matches Ok(x) && x.deep_view() == t,
            Err(e) => r matches Err(x) && x.deep_view() == e,
        },
{
    let s = chars_of(name_translations_text);
    let pieces = split_at_char(s.as_slice(), '>');
    let ghost pv = pieces_view(pieces@);
    let mut result = Translations::new();
    let mut i: usize = 0;
    while i < pieces.len()
        invariant
            0 <= i <= pieces@.len(),
            pv == pieces_view(pieces@),
            pv == split(name_translations_text@, '>'),
            name_translations(pv.take(i as int)) == Ok::<_, ParsingErrorV>(result.deep_view()),
        decreases pieces@.len() - i,
    {
        assert(pv.take(i + 1).drop_last() =~= pv.take(i as int));
        assert(pv.take(i + 1).last() == pieces@[i as int]@);
        let piece = &pieces[i];
        if piece.len() > 0 {
            let parts = split_at_char(piece.as_slice(), '<');
            assert(piece@ == pv[i as int]);
            assert(pieces_view(parts@).len() == parts@.len());
            if parts.len() < 2 {
                proof {
                    assert(name_translations(pv.take(i + 1)) == Err::<TranslationsView, _>(ParsingErrorV::MissingValue));
                    lemma_name_translations_error_stays(pv, (i + 1) as nat, pv.len());
                    assert(pv.take(pv.len() as int) =~= pv);
                }
                return Err(ParsingError::MissingValue);
            }
            let language_text = string_of_all(parts[1].as_slice());
            let name = string_of_all(parts[0].as_slice());
            assert(language_text@ == split(pv[i as int], '<')[1]);
            assert(name@ == split(pv[i as int], '<')[0]);
            match Language::from_str(language_text.as_str()) {
                Ok(l) => result.set(l, name.as_str()),
                Err(e) => {
                    proof {
                        assert(name_translations(pv.take(i + 1)) == Err::<TranslationsView, _>(e.deep_view()));
                        lemma_name_translations_error_stays(pv, (i + 1) as nat, pv.len());
                        assert(pv.take(pv.len() as int) =~= pv);
                    }
                    return Err(e);
                },
            }
        }
        i = i + 1;
    }
    assert(pv.take(pv.len() as int) =~= pv);
    Ok(result)
}

/// Once a piece does not read, later pieces change nothing.
pub proof fn lemma_name_translations_error_stays(pieces: Seq<Seq<char>>, n: nat, m: nat)
    requires
        n <= m <= pieces.len(),
        name_translations(pieces.take(n as int)) is Err,
    ensures
        name_translations(pieces.take(m as int)) == name_translations(pieces.take(n as int)),
    decreases m - n,
{
    if n < m {
        lemma_name_translations_error_stays(pieces, n, (m - 1) as nat);
        assert(pieces.take(m as int).drop_last() =~= pieces.take(m - 1));
    }
}

/// The date that `chrono` reads from `text` in the format `dd.mm.yyyy`.
pub open spec fn dotted_date(text: Seq<char>) -> Option<Date> {
    match dotted_date_parsed(text) {
        Some((y, m, d)) => Some(Date { year: y, month: m, day: d }),
        None => None,
    }
}

/// The holiday that `line` gives under `id`.
pub open spec fn holiday_item(line: Seq<char>, id: i32) -> Result<HolidayView, ParsingErrorV> {
    match sp_holiday_row(line) {
        Scan::Done((date, names), _) => match dotted_date(date) {
            None => Err(ParsingErrorV::InvalidDate(date)),
            Some(d) => match name_translations(split(names, '>')) {
                Ok(t) => Ok(HolidayView { id, date: d, name: t }),
                Err(e) => Err(e),
            },
        },
        r => Err(ParsingErrorV::Syntax(scan_failure(r))),
    }
}

/// Reads a line into a holiday under the next id.
pub fn parse_line(line: &str, auto_increment: &mut AutoIncrement) -> (r: Result<(i32, Holiday), ParsingError>)
    requires
        old(auto_increment).can_advance(),
    ensures
        match holiday_item(line@, (old(auto_increment)@ + 1) as i32) {
            Ok(v) => r matches Ok((id, x)) && id == old(auto_increment)@ + 1 && x.deep_view() == v
                && final(auto_increment)@ == id,
            Err(e) => r matches Err(x) && x.deep_view() == e && final(auto_increment)@ == old(
                auto_increment,
            )@,
        },
{
    let (_, (date_text, names)) = match parse_holiday_row(line) {
        Ok(row) => row,
        Err(e) => return Err(ParsingError::Syntax(e)),
    };
    let date = match parse_dotted_date(date_text.as_str()) {
        Some(d) => d,
        None => return Err(ParsingError::InvalidDate(date_text)),
    };
    let name = parse_name_translations(names.as_str())?;
    let id = auto_increment.next();
    Ok((id, Holiday { id, date, name }))
}

pub open spec fn holidays_view(m: Map<i32, Holiday>) -> Map<i32, HolidayView> {
    m.map_values(|x: Holiday| x.deep_view())
}

/// Reads the lines of the FEIERTAG file `file`: each non-blank line gives a
/// holiday under the next id (1, 2, 3, ...).
pub fn parse(file: &str, lines: &Vec<String>) -> (r: HResult<ResourceStorage<Holiday>>)
    requires
        lines@.len() < i32::MAX,
    ensures
        match (r, numbered(texts(lines@), lines@.len(), |l: Seq<char>, id: i32| holiday_item(l, id))) {
            (Ok(st), Ok((m, _))) => holidays_view(st.view()) == m,
            (Err(e), Err((n, why))) => file_error(e, why, file@, lines@[n as int]@, n),
            _ => false,
        },
{
    let ghost item = |l: Seq<char>, id: i32| holiday_item(l, id);
    let mut auto_increment = AutoIncrement::new();
    let mut data: IdMap<Holiday> = id_map_new();
    assert(holidays_view(data@) =~= Map::empty());
    let mut i: usize = 0;
    while i < lines.len()
        invariant
            0 <= i <= lines@.len(),
            lines@.len() < i32::MAX,
            item == (|l: Seq<char>, id: i32| holiday_item(l, id)),
            numbered(texts(lines@), i as nat, item) == Ok::<_, (nat, ParsingErrorV)>(
                (holidays_view(data@), auto_increment@),
            ),
            0 <= auto_increment@ <= i,
        decreases lines@.len() - i,
    {
        let line = &lines[i];
        assert(texts(lines@)[i as int] == line@);
        if !is_blank(line.as_str()) {
            match parse_line(line.as_str(), &mut auto_increment) {
                Ok((id, x)) => {
                    let ghost before = holidays_view(data@);
                    let ghost xv = x.deep_view();
                    id_map_insert(&mut data, id, x);
                    assert(holidays_view(data@) =~= before.insert(id, xv));
                },
                Err(e) => {
                    proof {
                        lemma_numbered_error_stays(texts(lines@), (i + 1) as nat, lines@.len(), item);
                    }
                    return Err(
                        HrdfError::Parsing {
                            error: e,
                            file: String::from_str(file),
                            line: line.clone(),
                            line_number: i,
                        },
                    );
                },
            }
        }
        i = i + 1;
    }
    Ok(ResourceStorage::new(data))
}

} // verus!
