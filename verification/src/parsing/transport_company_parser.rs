//! # Transport companies (BETRIEB_DE, BETRIEB_EN, BETRIEB_FR, BETRIEB_IT)
//!
//! One file per language.  Each company has three kinds of rows:
//!
//! - `K`: its short, long and full name, each in double quotes, after `K`, `L` and `V`;
//! - `N`: its SBOID (not used);
//! - `:`: the administrations it runs as, separated by spaces.
//!
//! ```text
//! 00379 K "SBB" L "SBB" V "Schweizerische Bundesbahnen SBB"
//! 00379 N "ch:1:sboid:379"
//! 00379 : 000011
//! ```
use vstd::prelude::*;

use crate::error::{HResult, HrdfError, ParsingError, ParsingErrorV};
use crate::models::{Language, TransportCompany, TransportCompanyView};
use crate::parsing::lines::{blank, file_error, is_blank, scan_failure, texts};
use crate::scan::{
    finish, i32_number, result_view, run1, sp_i32_number, sp_map, sp_or, sp_result, sp_run1,
    sp_tag, sp_take_until, sp_then, sp_till_eol, tag_lit, take_until, till_eol, CharClass, IResult,
    Scan, ScanError,
};
use crate::storage::{id_map_insert, id_map_new, id_map_remove, IdMap, ResourceStorage};
use crate::text::{chars_of, pieces_view, split, split_at_char, string_of_all};
use vstd::string::StringExecFns;

verus! {

broadcast use vstd::string::group_string_axioms;

/// The rows of the files.
#[derive(Debug)]
pub enum TransportCompanyLine {
    Kline { id: i32, short_name: String, long_name: String, full_name: String },
    Nline { id: i32, sboid: String },
    ColonLine { id: i32, administrations: Vec<String> },
}

pub enum TransportCompanyLineView {
    Kline { id: i32, short_name: Seq<char>, long_name: Seq<char>, full_name: Seq<char> },
    Nline { id: i32, sboid: Seq<char> },
    ColonLine { id: i32, administrations: Seq<Seq<char>> },
}

pub open spec fn strings_view(v: Seq<String>) -> Seq<Seq<char>> {
    v.map_values(|t: String| t@)
}

impl DeepView for TransportCompanyLine {
    type V = TransportCompanyLineView;

    open spec fn deep_view(&self) -> TransportCompanyLineView {
        match self {
            TransportCompanyLine::Kline { id, short_name, long_name, full_name } =>
                TransportCompanyLineView::Kline {
                id: *id,
                short_name: short_name@,
                long_name: long_name@,
                full_name: full_name@,
            },
            TransportCompanyLine::Nline { id, sboid } => TransportCompanyLineView::Nline {
                id: *id,
                sboid: sboid@,
            },
            TransportCompanyLine::ColonLine { id, administrations } =>
                TransportCompanyLineView::ColonLine {
                id: *id,
                administrations: strings_view(administrations@),
            },
        }
    }
}

/// A text in double quotes.
pub open spec fn sp_quoted(s: Seq<char>, p: usize) -> Scan<Seq<char>> {
    sp_then(
        sp_tag(s, p, "\""@, true),
        |u: (), q: usize|
            sp_then(
                sp_take_until(s, q, "\""@, false, false),
                |t: Seq<char>, q2: usize| sp_map(sp_tag(s, q2, "\""@, true), |u2: ()| t),
            ),
    )
}

/// A tag, at least one space, and a quoted text.
pub open spec fn sp_named(s: Seq<char>, p: usize, tag: Seq<char>) -> Scan<Seq<char>> {
    sp_then(
        sp_tag(s, p, tag, true),
        |u: (), q: usize| sp_then(sp_run1(s, q, CharClass::Space), |w: Seq<char>, q2: usize| sp_quoted(s, q2)),
    )
}

pub open spec fn sp_kline(s: Seq<char>) -> Scan<TransportCompanyLineView> {
    sp_then(
        sp_i32_number(s, 0),
        |id: i32, q: usize|
            sp_then(
                sp_named(s, q, " K"@),
                |short_name: Seq<char>, q1: usize|
                    sp_then(
                        sp_named(s, q1, " L"@),
                        |long_name: Seq<char>, q2: usize|
                            sp_map(
                                sp_named(s, q2, " V"@),
                                |full_name: Seq<char>|
                                    TransportCompanyLineView::Kline { id, short_name, long_name, full_name },
                            ),
                    ),
            ),
    )
}

pub open spec fn sp_nline(s: Seq<char>) -> Scan<TransportCompanyLineView> {
    sp_then(
        sp_i32_number(s, 0),
        |id: i32, q: usize|
            sp_map(sp_named(s, q, " N"@), |sboid: Seq<char>| TransportCompanyLineView::Nline { id, sboid }),
    )
}

pub open spec fn sp_colon_line(s: Seq<char>) -> Scan<TransportCompanyLineView> {
    sp_then(
        sp_i32_number(s, 0),
        |id: i32, q: usize|
            sp_then(
                sp_run1(s, q, CharClass::Space),
                |w: Seq<char>, q1: usize|
                    sp_then(
                        sp_tag(s, q1, ":"@, true),
                        |u: (), q2: usize|
                            sp_then(
                                sp_run1(s, q2, CharClass::Space),
                                |w2: Seq<char>, q3: usize|
                                    sp_map(
                                        sp_till_eol(s, q3),
                                        |t: Seq<char>|
                                            TransportCompanyLineView::ColonLine {
                                                id,
                                                administrations: split(t, ' '),
                                            },
                                    ),
                            ),
                    ),
            ),
    )
}

/// A row of any kind: `K`, `N` or `:`, the first that matches.
pub open spec fn sp_company_row(s: Seq<char>) -> Scan<TransportCompanyLineView> {
    sp_or(sp_kline(s), sp_or(sp_nline(s), sp_colon_line(s)))
}

fn quoted_at(s: &[char], p: usize) -> (r: Scan<String>)
    requires
        p <= s@.len(),
    ensures
        r.deep_view() == sp_quoted(s@, p),
        r matches Scan::Done(_, q) ==> p <= q <= s@.len(),
{
    match tag_lit(s, p, "\"", true) {
        Scan::Done(_, q) => match take_until(s, q, "\"", false, false) {
            Scan::Done(t, q2) => match tag_lit(s, q2, "\"", true) {
                Scan::Done(_, q3) => Scan::Done(t, q3),
                Scan::Error => Scan::Error,
                Scan::Incomplete => Scan::Incomplete,
            },
            Scan::Error => Scan::Error,
            Scan::Incomplete => Scan::Incomplete,
        },
        Scan::Error => Scan::Error,
        Scan::Incomplete => Scan::Incomplete,
    }
}

fn named_at(s: &[char], p: usize, tag: &str) -> (r: Scan<String>)
    requires
        p <= s@.len(),
    ensures
        r.deep_view() == sp_named(s@, p, tag@),
        r matches Scan::Done(_, q) ==> p <= q <= s@.len(),
{
    match tag_lit(s, p, tag, true) {
        Scan::Done(_, q) => match run1(s, q, CharClass::Space) {
            Scan::Done(_, q2) => quoted_at(s, q2),
            Scan::Error => Scan::Error,
            Scan::Incomplete => Scan::Incomplete,
        },
        Scan::Error => Scan::Error,
        Scan::Incomplete => Scan::Incomplete,
    }
}

fn kline_at(s: &[char]) -> (r: Scan<TransportCompanyLine>)
    ensures
        r.deep_view() == sp_kline(s@),
        r matches Scan::Done(_, q) ==> q <= s@.len(),
{
    match i32_number(s, 0) {
        Scan::Done(id, q) => match named_at(s, q, " K") {
            Scan::Done(short_name, q1) => match named_at(s, q1, " L") {
                Scan::Done(long_name, q2) => match named_at(s, q2, " V") {
                    Scan::Done(full_name, q3) => Scan::Done(
                        TransportCompanyLine::Kline { id, short_name, long_name, full_name },
                        q3,
                    ),
                    Scan::Error => Scan::Error,
                    Scan::Incomplete => Scan::Incomplete,
                },
                Scan::Error => Scan::Error,
                Scan::Incomplete => Scan::Incomplete,
            },
            Scan::Error => Scan::Error,
            Scan::Incomplete => Scan::Incomplete,
        },
        Scan::Error => Scan::Error,
        Scan::Incomplete => Scan::Incomplete,
    }
}

fn nline_at(s: &[char]) -> (r: Scan<TransportCompanyLine>)
    ensures
        r.deep_view() == sp_nline(s@),
        r matches Scan::Done(_, q) ==> q <= s@.len(),
{
    match i32_number(s, 0) {
        Scan::Done(id, q) => match named_at(s, q, " N") {
            Scan::Done(sboid, q1) => Scan::Done(TransportCompanyLine::Nline { id, sboid }, q1),
            Scan::Error => Scan::Error,
            Scan::Incomplete => Scan::Incomplete,
        },
        Scan::Error => Scan::Error,
        Scan::Incomplete => Scan::Incomplete,
    }
}

/// The pieces of `s` between the occurrences of `c`, as `String`s.
fn split_strings(s: &str, c: char) -> (r: Vec<String>)
    ensures
        strings_view(r@) == split(s@, c),
{
    let chars = chars_of(s);
    let pieces = split_at_char(chars.as_slice(), c);
    let mut out: Vec<String> = Vec::new();
    let mut i: usize = 0;
    while i < pieces.len()
        invariant
            0 <= i <= pieces@.len(),
            strings_view(out@) == pieces_view(pieces@).take(i as int),
        decreases pieces@.len() - i,
    {
        let ghost before = strings_view(out@);
        let t = string_of_all(pieces[i].as_slice());
        assert(t@ == pieces@[i as int]@);
        out.push(t);
        assert(strings_view(out@) =~= before.push(pieces@[i as int]@));
        assert(pieces_view(pieces@).take(i + 1) =~= pieces_view(pieces@).take(i as int).push(pieces@[i as int]@));
        i = i + 1;
    }
    assert(pieces_view(pieces@).take(pieces@.len() as int) =~= pieces_view(pieces@));
    out
}

fn colon_line_at(s: &[char]) -> (r: Scan<TransportCompanyLine>)
    ensures
        r.deep_view() == sp_colon_line(s@),
        r matches Scan::Done(_, q) ==> q <= s@.len(),
{
    match i32_number(s, 0) {
        Scan::Done(id, q) => match run1(s, q, CharClass::Space) {
            Scan::Done(_, q1) => match tag_lit(s, q1, ":", true) {
                Scan::Done(_, q2) => match run1(s, q2, CharClass::Space) {
                    Scan::Done(_, q3) => match till_eol(s, q3) {
                        Scan::Done(t, q4) => {
                            let administrations = split_strings(t.as_str(), ' ');
                            Scan::Done(TransportCompanyLine::ColonLine { id, administrations }, q4)
                        },
                        _ => Scan::Error,
                    },
                    Scan::Error => Scan::Error,
                    Scan::Incomplete => Scan::Incomplete,
                },
                Scan::Error => Scan::Error,
                Scan::Incomplete => Scan::Incomplete,
            },
            Scan::Error => Scan::Error,
            Scan::Incomplete => Scan::Incomplete,
        },
        Scan::Error => Scan::Error,
        Scan::Incomplete => Scan::Incomplete,
    }
}

/// Reads a `K` row.
pub fn kline_combinator(input: &str) -> (r: IResult<TransportCompanyLine>)
    ensures
        result_view(r) == sp_result(input@, sp_kline(input@)),
{
    let s = chars_of(input);
    let r = kline_at(s.as_slice());
    finish(s.as_slice(), r)
}

/// Reads an `N` row.
pub fn nline_combinator(input: &str) -> (r: IResult<TransportCompanyLine>)
    ensures
        result_view(r) == sp_result(input@, sp_nline(input@)),
{
    let s = chars_of(input);
    let r = nline_at(s.as_slice());
    finish(s.as_slice(), r)
}

/// Reads a `:` row.
pub fn colon_combinator(input: &str) -> (r: IResult<TransportCompanyLine>)
    ensures
        result_view(r) == sp_result(input@, sp_colon_line(input@)),
{
    let s = chars_of(input);
    let r = colon_line_at(s.as_slice());
    finish(s.as_slice(), r)
}

/// The company `id` of `m`, or a new one.
pub open spec fn company_or_new(m: Map<i32, TransportCompanyView>, id: i32) -> TransportCompanyView {
    if m.contains_key(id) {
        m[id]
    } else {
        TransportCompanyView::fresh(id)
    }
}

/// What a row of the file in `language` does: `K` sets the company's three
/// names in that language, `:` sets its administrations (the company is made
/// if missing); `N` changes nothing.
pub open spec fn company_step(m: Map<i32, TransportCompanyView>, line: Seq<char>, language: Language) -> Result<
    Map<i32, TransportCompanyView>,
    ParsingErrorV,
> {
    match sp_company_row(line) {
        Scan::Done(TransportCompanyLineView::Kline { id, short_name, long_name, full_name }, _) => {
            let tc = company_or_new(m, id);
            Ok(
                m.insert(
                    id,
                    TransportCompanyView {
                        short_name: tc.short_name.set(language, short_name),
                        long_name: tc.long_name.set(language, long_name),
                        full_name: tc.full_name.set(language, full_name),
                        ..tc
                    },
                ),
            )
        },
        Scan::Done(TransportCompanyLineView::Nline { .. }, _) => Ok(m),
        Scan::Done(TransportCompanyLineView::ColonLine { id, administrations }, _) => Ok(
            m.insert(id, TransportCompanyView { administrations, ..company_or_new(m, id) }),
        ),
        r => Err(ParsingErrorV::Syntax(scan_failure(r))),
    }
}

pub open spec fn companies_view(m: Map<i32, TransportCompany>) -> Map<i32, TransportCompanyView> {
    m.map_values(|x: TransportCompany| x.deep_view())
}

/// Reads a row of the file in `language` into the companies.  On an error
/// nothing changes.
pub fn parse_transport_company_line(
    line: &str,
    transport_company: &mut IdMap<TransportCompany>,
    language: Language,
) -> (r: Result<(), ParsingError>)
    ensures
        match company_step(companies_view(old(transport_company)@), line@, language) {
            Ok(m) => r is Ok && companies_view(final(transport_company)@) == m,
            Err(e) => r matches Err(x) && x.deep_view() == e && final(transport_company)@ == old(
                transport_company,
            )@,
        },
{
    let s = chars_of(line);
    let row = match kline_at(s.as_slice()) {
        Scan::Error => match nline_at(s.as_slice()) {
            Scan::Error => colon_line_at(s.as_slice()),
            r => r,
        },
        r => r,
    };
    let row = match row {
        Scan::Done(row, _) => row,
        Scan::Error => return Err(ParsingError::Syntax(ScanError::Error)),
        Scan::Incomplete => return Err(ParsingError::Syntax(ScanError::Incomplete)),
    };
    let ghost before = companies_view(transport_company@);
    match row {
        TransportCompanyLine::Kline { id, short_name, long_name, full_name } => {
            let mut tc = match id_map_remove(transport_company, id) {
                Some(tc) => tc,
                None => TransportCompany::new(id),
            };
            tc.short_name.set(language, short_name.as_str());
            tc.full_name.set(language, full_name.as_str());
            tc.long_name.set(language, long_name.as_str());
            let ghost tv = tc.deep_view();
            id_map_insert(transport_company, id, tc);
            assert(companies_view(transport_company@) =~= before.insert(id, tv));
        },
        TransportCompanyLine::Nline { .. } => {},
        TransportCompanyLine::ColonLine { id, administrations } => {
            let mut tc = match id_map_remove(transport_company, id) {
                Some(tc) => tc,
                None => TransportCompany::new(id),
            };
            tc.administrations = administrations;
            let ghost tv = tc.deep_view();
            id_map_insert(transport_company, id, tc);
            assert(companies_view(transport_company@) =~= before.insert(id, tv));
        },
    }
    Ok(())
}

/// The companies after the first `n` lines of a file in `language`, from `m`.
pub open spec fn companies_in(
    m: Map<i32, TransportCompanyView>,
    lines: Seq<Seq<char>>,
    n: nat,
    language: Language,
) -> Result<Map<i32, TransportCompanyView>, (nat, ParsingErrorV)>
    decreases n,
{
    if n == 0 {
        Ok(m)
    } else {
        match companies_in(m, lines, (n - 1) as nat, language) {
            Err(e) => Err(e),
            Ok(m1) => if blank(lines[n - 1]) {
                Ok(m1)
            } else {
                match company_step(m1, lines[n - 1], language) {
                    Ok(m2) => Ok(m2),
                    Err(e) => Err(((n - 1) as nat, e)),
                }
            },
        }
    }
}

pub proof fn lemma_companies_error_stays(
    m: Map<i32, TransportCompanyView>,
    lines: Seq<Seq<char>>,
    n: nat,
    k: nat,
    language: Language,
)
    requires
        n <= k,
        companies_in(m, lines, n, language) is Err,
    ensures
        companies_in(m, lines, k, language) == companies_in(m, lines, n, language),
    decreases k - n,
{
    if n < k {
        lemma_companies_error_stays(m, lines, n, (k - 1) as nat, language);
    }
}

/// Reads the lines of the file `file`, in `language`, into the companies.
pub fn parse_file(
    transport_company: &mut IdMap<TransportCompany>,
    file: &str,
    language: Language,
    lines: &Vec<String>,
) -> (r: HResult<()>)
    ensures
        match (r, companies_in(companies_view(old(transport_company)@), texts(lines@), lines@.len(), language)) {
            (Ok(()), Ok(m)) => companies_view(final(transport_company)@) == m,
            (Err(e), Err((n, why))) => file_error(e, why, file@, lines@[n as int]@, n),
            _ => false,
        },
{
    let ghost start = companies_view(transport_company@);
    let mut i: usize = 0;
    while i < lines.len()
        invariant
            0 <= i <= lines@.len(),
            start == companies_view(old(transport_company)@),
            companies_in(start, texts(lines@), i as nat, language) == Ok::<_, (nat, ParsingErrorV)>(
                companies_view(transport_company@),
            ),
        decreases lines@.len() - i,
    {
        let line = &lines[i];
        assert(texts(lines@)[i as int] == line@);
        if !is_blank(line.as_str()) {
            match parse_transport_company_line(line.as_str(), transport_company, language) {
                Ok(()) => {},
                Err(e) => {
                    proof {
                        lemma_companies_error_stays(start, texts(lines@), (i + 1) as nat, lines@.len(), language);
                    }
                    return Err(
                        HrdfError::Parsing {
                            error: e,
                            file: String::from_str(file),
                            line: line.clone(),
                            line_number: i,
                        },
                    );
                },
            }
        }
        i = i + 1;
    }
    Ok(())
}

/// A file to read: its language, its name and its lines.
pub type CompanySource = (Language, String, Vec<String>);

/// The companies after the first `k` files of `sources`, each given as
/// (language, lines); or the file, the line and why it does not read.
pub open spec fn companies_of(sources: Seq<(Language, Seq<Seq<char>>)>, k: nat) -> Result<
    Map<i32, TransportCompanyView>,
    (nat, nat, ParsingErrorV),
>
    decreases k,
{
    if k == 0 {
        Ok(Map::empty())
    } else {
        match companies_of(sources, (k - 1) as nat) {
            Err(e) => Err(e),
            Ok(m) => match companies_in(m, sources[k - 1].1, sources[k - 1].1.len(), sources[k - 1].0) {
                Ok(m2) => Ok(m2),
                Err((n, e)) => Err(((k - 1) as nat, n, e)),
            },
        }
    }
}

pub open spec fn sources_view(sources: Seq<CompanySource>) -> Seq<(Language, Seq<Seq<char>>)> {
    sources.map_values(|s: CompanySource| (s.0, texts(s.2@)))
}

pub proof fn lemma_companies_of_error_stays(sources: Seq<(Language, Seq<Seq<char>>)>, k: nat, j: nat)
    requires
        k <= j,
        companies_of(sources, k) is Err,
    ensures
        companies_of(sources, j) == companies_of(sources, k),
    decreases j - k,
{
    if k < j {
        lemma_companies_of_error_stays(sources, k, (j - 1) as nat);
    }
}

/// Reads the files of `sources` in order (the HRDF files come in German,
/// English, French, Italian), each given as (language, file name, lines).
pub fn parse(sources: &Vec<CompanySource>) -> (r: HResult<ResourceStorage<TransportCompany>>)
    ensures
        match (r, companies_of(sources_view(sources@), sources@.len())) {
            (Ok(st), Ok(m)) => companies_view(st.view()) == m,
            (Err(e), Err((k, n, why))) => file_error(
                e,
                why,
                sources@[k as int].1@,
                sources@[k as int].2@[n as int]@,
                n,
            ),
            _ => false,
        },
{
    let ghost sv = sources_view(sources@);
    let mut data: IdMap<TransportCompany> = id_map_new();
    assert(companies_view(data@) =~= Map::empty());
    let mut k: usize = 0;
    while k < sources.len()
        invariant
            0 <= k <= sources@.len(),
            sv == sources_view(sources@),
            companies_of(sv, k as nat) == Ok::<_, (nat, nat, ParsingErrorV)>(companies_view(data@)),
        decreases sources@.len() - k,
    {
        let source = &sources[k];
        assert(sv[k as int] == (source.0, texts(source.2@)));
        match parse_file(&mut data, source.1.as_str(), source.0, &source.2) {
            Ok(()) => {},
            Err(e) => {
                proof {
                    lemma_companies_of_error_stays(sv, (k + 1) as nat, sources@.len());
                }
                return Err(e);
            },
        }
        k = k + 1;
    }
    Ok(ResourceStorage::new(data))
}

/// Each company is under its own number.
pub open spec fn companies_keyed(m: Map<i32, TransportCompanyView>) -> bool {
    forall|k: i32| #[trigger] m.contains_key(k) ==> m[k].id == k
}

proof fn lemma_companies_in_keyed(m: Map<i32, TransportCompanyView>, lines: Seq<Seq<char>>, n: nat, language: Language)
    requires
        companies_keyed(m),
    ensures
        companies_in(m, lines, n, language) matches Ok(m2) ==> companies_keyed(m2),
    decreases n,
{
    if n > 0 {
        lemma_companies_in_keyed(m, lines, (n - 1) as nat, language);
    }
}

/// The companies that the BETRIEB files give are each under their own number.
pub proof fn lemma_companies_keyed(sources: Seq<(Language, Seq<Seq<char>>)>, k: nat)
    ensures
        companies_of(sources, k) matches Ok(m) ==> companies_keyed(m),
    decreases k,
{
    if k > 0 {
        lemma_companies_keyed(sources, (k - 1) as nat);
        match companies_of(sources, (k - 1) as nat) {
            Ok(m) => {
                lemma_companies_in_keyed(m, sources[k - 1].1, sources[k - 1].1.len(), sources[k - 1].0);
            },
            Err(_) => {},
        }
    }
}

} // verus!
