//! # Information texts (INFOTEXT_DE, INFOTEXT_EN, INFOTEXT_FR, INFOTEXT_IT)
//!
//! One file per language; a row gives a text's 9-character id and the text.
//! The texts of one id in the four files make one information text.
//!
//! `000001921 ch:1:sjyid:100001:3995-001`
use vstd::prelude::*;

use crate::error::{HResult, HrdfError, ParsingError, ParsingErrorV};
use crate::models::{language_named, InformationText, InformationTextView, Language, TranslationsView};
use crate::parsing::lines::{blank, file_error, is_blank, scan_failure, texts};
use crate::scan::{
    char_lit, finish, i32_field, result_view, sp_char, sp_i32_field, sp_map, sp_result, sp_then,
    sp_till_eol, till_eol, IResult, Scan, };
use crate::storage::{id_map_insert, id_map_new, id_map_remove, IdMap, ResourceStorage};
use crate::text::chars_of;
use vstd::string::StringExecFns;

verus! {

broadcast use vstd::string::group_string_axioms;

/// A row: the id (9 characters), a space, and the text up to the end of the line.
pub open spec fn sp_infotext_row(s: Seq<char>) -> Scan<(i32, Seq<char>)> {
    sp_then(
        sp_i32_field(s, 0, 9),
        |id: i32, q: usize|
            sp_then(
                sp_char(s, q, ' ', true),
                |u: (), q1: usize| sp_map(sp_till_eol(s, q1), |t: Seq<char>| (id, t)),
            ),
    )
}

/// Reads a row: the id and the text.
pub fn parse_infotext_row(input: &str) -> (r: IResult<(i32, String)>)
    ensures
        result_view(r) == sp_result(input@, sp_infotext_row(input@)),
{
    let s = chars_of(input);
    let r = match i32_field(s.as_slice(), 0, 9) {
        Scan::Done(id, q) => match char_lit(s.as_slice(), q, ' ', true) {
            Scan::Done(_, q1) => match till_eol(s.as_slice(), q1) {
                Scan::Done(t, q2) => Scan::Done((id, t), q2),
                Scan::Error => Scan::Error,
                Scan::Incomplete => Scan::Incomplete,
            },
            Scan::Error => Scan::Error,
            Scan::Incomplete => Scan::Incomplete,
        },
        Scan::Error => Scan::Error,
        Scan::Incomplete => Scan::Incomplete,
    };
    finish(s.as_slice(), r)
}

/// What a line of the file in `language` does: the text is set in that
/// language on the information text of its id, which is made if missing.
pub open spec fn infotext_step(m: Map<i32, InformationTextView>, line: Seq<char>, language: Seq<char>) -> Result<
    Map<i32, InformationTextView>,
    ParsingErrorV,
> {
    match language_named(language) {
        None => Err(ParsingErrorV::UnknownLanguage(language)),
        Some(l) => match sp_infotext_row(line) {
            Scan::Done((id, t), _) => Ok(
                m.insert(
                    id,
                    if m.contains_key(id) {
                        InformationTextView { id: m[id].id, content: m[id].content.set(l, t) }
                    } else {
                        InformationTextView { id, content: TranslationsView::empty().set(l, t) }
                    },
                ),
            ),
            r => Err(ParsingErrorV::Syntax(scan_failure(r))),
        },
    }
}

pub open spec fn infotexts_view(m: Map<i32, InformationText>) -> Map<i32, InformationTextView> {
    m.map_values(|x: InformationText| x.deep_view())
}

/// Reads a line of the file in `current_language` (`DE`, `EN`, `FR`, `IT`)
/// into the information texts.  On an error nothing changes.
pub fn parse_line(
    line: &str,
    infotextmap: &mut IdMap<InformationText>,
    current_language: &str,
) -> (r: Result<(), ParsingError>)
    ensures
        match infotext_step(infotexts_view(old(infotextmap)@), line@, current_language@) {
            Ok(m) => r is Ok && infotexts_view(final(infotextmap)@) == m,
            Err(e) => r matches Err(x) && x.deep_view() == e && final(infotextmap)@ == old(
                infotextmap,
            )@,
        },
{
    let language = Language::from_str(current_language)?;
    let (_, (id, infotext)) = match parse_infotext_row(line) {
        Ok(row) => row,
        Err(e) => return Err(ParsingError::Syntax(e)),
    };
    let ghost before = infotexts_view(infotextmap@);
    let info = match id_map_remove(infotextmap, id) {
        Some(mut info) => {
            info.set_content(language, infotext.as_str());
            info
        },
        None => {
            let mut info = InformationText::new(id);
            info.set_content(language, infotext.as_str());
            info
        },
    };
    let ghost iv = info.deep_view();
    id_map_insert(infotextmap, id, info);
    assert(infotexts_view(infotextmap@) =~= before.insert(id, iv));
    Ok(())
}

/// The texts after the first `n` lines of a file in `language`, from `m`.
pub open spec fn infotexts_in(
    m: Map<i32, InformationTextView>,
    lines: Seq<Seq<char>>,
    n: nat,
    language: Seq<char>,
) -> Result<Map<i32, InformationTextView>, (nat, ParsingErrorV)>
    decreases n,
{
    if n == 0 {
        Ok(m)
    } else {
        match infotexts_in(m, lines, (n - 1) as nat, language) {
            Err(e) => Err(e),
            Ok(m1) => if blank(lines[n - 1]) {
                Ok(m1)
            } else {
                match infotext_step(m1, lines[n - 1], language) {
                    Ok(m2) => Ok(m2),
                    Err(e) => Err(((n - 1) as nat, e)),
                }
            },
        }
    }
}

pub proof fn lemma_infotexts_error_stays(
    m: Map<i32, InformationTextView>,
    lines: Seq<Seq<char>>,
    n: nat,
    k: nat,
    language: Seq<char>,
)
    requires
        n <= k,
        infotexts_in(m, lines, n, language) is Err,
    ensures
        infotexts_in(m, lines, k, language) == infotexts_in(m, lines, n, language),
    decreases k - n,
{
    if n < k {
        lemma_infotexts_error_stays(m, lines, n, (k - 1) as nat, language);
    }
}

/// Reads the lines of the file `file`, in `language`, into the information texts.
pub fn parse_file(
    infotextmap: &mut IdMap<InformationText>,
    file: &str,
    language: &str,
    lines: &Vec<String>,
) -> (r: HResult<()>)
    ensures
        match (r, infotexts_in(infotexts_view(old(infotextmap)@), texts(lines@), lines@.len(), language@)) {
            (Ok(()), Ok(m)) => infotexts_view(final(infotextmap)@) == m,
            (Err(e), Err((n, why))) => file_error(e, why, file@, lines@[n as int]@, n),
            _ => false,
        },
{
    let ghost start = infotexts_view(infotextmap@);
    let mut i: usize = 0;
    while i < lines.len()
        invariant
            0 <= i <= lines@.len(),
            start == infotexts_view(old(infotextmap)@),
            infotexts_in(start, texts(lines@), i as nat, language@) == Ok::<_, (nat, ParsingErrorV)>(
                infotexts_view(infotextmap@),
            ),
        decreases lines@.len() - i,
    {
        let line = &lines[i];
        assert(texts(lines@)[i as int] == line@);
        if !is_blank(line.as_str()) {
            match parse_line(line.as_str(), infotextmap, language) {
                Ok(()) => {},
                Err(e) => {
                    proof {
                        lemma_infotexts_error_stays(start, texts(lines@), (i + 1) as nat, lines@.len(), language@);
                    }
                    return Err(
                        HrdfError::Parsing {
                            error: e,
                            file: String::from_str(file),
                            line: line.clone(),
                            line_number: i,
                        },
                    );
                },
            }
        }
        i = i + 1;
    }
    Ok(())
}

/// A file to read: its language, its name and its lines.
pub type InfoTextSource = (String, String, Vec<String>);

/// The texts after the first `k` files of `sources`, each given as (language,
/// lines); or the file, the line and why it does not read.
pub open spec fn infotexts_of(sources: Seq<(Seq<char>, Seq<Seq<char>>)>, k: nat) -> Result<
    Map<i32, InformationTextView>,
    (nat, nat, ParsingErrorV),
>
    decreases k,
{
    if k == 0 {
        Ok(Map::empty())
    } else {
        match infotexts_of(sources, (k - 1) as nat) {
            Err(e) => Err(e),
            Ok(m) => match infotexts_in(m, sources[k - 1].1, sources[k - 1].1.len(), sources[k - 1].0) {
                Ok(m2) => Ok(m2),
                Err((n, e)) => Err(((k - 1) as nat, n, e)),
            },
        }
    }
}

pub open spec fn sources_view(sources: Seq<InfoTextSource>) -> Seq<(Seq<char>, Seq<Seq<char>>)> {
    sources.map_values(|s: InfoTextSource| (s.0@, texts(s.2@)))
}

pub proof fn lemma_infotexts_of_error_stays(sources: Seq<(Seq<char>, Seq<Seq<char>>)>, k: nat, j: nat)
    requires
        k <= j,
        infotexts_of(sources, k) is Err,
    ensures
        infotexts_of(sources, j) == infotexts_of(sources, k),
    decreases j - k,
{
    if k < j {
        lemma_infotexts_of_error_stays(sources, k, (j - 1) as nat);
    }
}

/// Reads the files of `sources` in order (the HRDF files come as `DE`, `EN`,
/// `FR`, `IT`), each given as (language, file name, lines).
pub fn parse(sources: &Vec<InfoTextSource>) -> (r: HResult<ResourceStorage<InformationText>>)
    ensures
        match (r, infotexts_of(sources_view(sources@), sources@.len())) {
            (Ok(st), Ok(m)) => infotexts_view(st.view()) == m,
            (Err(e), Err((k, n, why))) => file_error(
                e,
                why,
                sources@[k as int].1@,
                sources@[k as int].2@[n as int]@,
                n,
            ),
            _ => false,
        },
{
    let ghost sv = sources_view(sources@);
    let mut data: IdMap<InformationText> = id_map_new();
    assert(infotexts_view(data@) =~= Map::empty());
    let mut k: usize = 0;
    while k < sources.len()
        invariant
            0 <= k <= sources@.len(),
            sv == sources_view(sources@),
            infotexts_of(sv, k as nat) == Ok::<_, (nat, nat, ParsingErrorV)>(infotexts_view(data@)),
        decreases sources@.len() - k,
    {
        let source = &sources[k];
        assert(sv[k as int] == (source.0@, texts(source.2@)));
        match parse_file(&mut data, source.1.as_str(), source.0.as_str(), &source.2) {
            Ok(()) => {},
            Err(e) => {
                proof {
                    lemma_infotexts_of_error_stays(sv, (k + 1) as nat, sources@.len());
                }
                return Err(e);
            },
        }
        k = k + 1;
    }
    Ok(ResourceStorage::new(data))
}

/// Each information text is under its own number.
pub open spec fn infotexts_keyed(m: Map<i32, InformationTextView>) -> bool {
    forall|k: i32| #[trigger] m.contains_key(k) ==> m[k].id == k
}

proof fn lemma_infotexts_in_keyed(m: Map<i32, InformationTextView>, lines: Seq<Seq<char>>, n: nat, language: Seq<char>)
    requires
        infotexts_keyed(m),
    ensures
        infotexts_in(m, lines, n, language) matches Ok(m2) ==> infotexts_keyed(m2),
    decreases n,
{
    if n > 0 {
        lemma_infotexts_in_keyed(m, lines, (n - 1) as nat, language);
    }
}

/// The information texts that the INFOTEXT files give are each under their
/// own number, whichever languages give them.
pub proof fn lemma_infotexts_keyed(sources: Seq<(Seq<char>, Seq<Seq<char>>)>, k: nat)
    ensures
        infotexts_of(sources, k) matches Ok(m) ==> infotexts_keyed(m),
    decreases k,
{
    if k > 0 {
        lemma_infotexts_keyed(sources, (k - 1) as nat);
        match infotexts_of(sources, (k - 1) as nat) {
            Ok(m) => {
                lemma_infotexts_in_keyed(m, sources[k - 1].1, sources[k - 1].1.len(), sources[k - 1].0);
            },
            Err(_) => {},
        }
    }
}

} // verus!
