//! # Attributes (ATTRIBUT)
//!
//! The file first lists the attributes, one per row: code (2), where it
//! applies (1), priority (3) and secondary sorting priority (2).  Then, after
//! a row `<lang>` naming a language, each row `code  text` gives the
//! attribute's description in that language.  Rows starting with `#` are
//! comments; `<text>` changes nothing.
//!
//! ```text
//! GK 0   4  5
//! <deu>
//! GK  Zollkontrolle möglich, mehr Zeit einrechnen
//! ```
use vstd::prelude::*;

use crate::error::{HResult, HrdfError, ParsingError, ParsingErrorV};
use crate::layout::{fields_at, short_at, short_of, sp_fields, text_at, text_of, Field, Sep, ValueV};
use crate::models::{language_named, text_is, Attribute, AttributeView, Language, Translations, TranslationsView};
use crate::parsing::lines::{blank, file_error, is_blank, scan_failure, texts};
use crate::scan::{
    finish, result_view, run1, sp_map, sp_or, sp_result, sp_run1, sp_str_field, sp_tag,
    sp_take_until, sp_then, sp_till_eol, tag_lit, take_str_field, take_until, till_eol, CharClass,
    IResult, Scan, ScanError,
};
use crate::storage::{
    id_map_insert, id_map_new, id_map_remove, keyed, text_map_get, text_map_insert,
    text_map_new, IdMap, ResourceStorage, TextMap,
};
use crate::text::{chars_of, int_to_string, joined, signed_decimal};
use crate::utils::AutoIncrement;
use vstd::string::StringExecFns;

verus! {

broadcast use vstd::string::group_string_axioms;

/// The rows of the file.
#[derive(Debug)]
pub enum AttributeLine {
    Offer { designation_id: String, stop_scope: i16, priority: i16, secondary_sorting_priority: i16 },
    Language(String),
    LanguageDescription { legacy_id: String, description: String },
    Description(String),
}

pub enum AttributeLineView {
    Offer { designation_id: Seq<char>, stop_scope: i16, priority: i16, secondary_sorting_priority: i16 },
    Language(Seq<char>),
    LanguageDescription { legacy_id: Seq<char>, description: Seq<char> },
    Description(Seq<char>),
}

impl DeepView for AttributeLine {
    type V = AttributeLineView;

    open spec fn deep_view(&self) -> AttributeLineView {
        match self {
            AttributeLine::Offer { designation_id, stop_scope, priority, secondary_sorting_priority } =>
                AttributeLineView::Offer {
                designation_id: designation_id@,
                stop_scope: *stop_scope,
                priority: *priority,
                secondary_sorting_priority: *secondary_sorting_priority,
            },
            AttributeLine::Language(s) => AttributeLineView::Language(s@),
            AttributeLine::LanguageDescription { legacy_id, description } =>
                AttributeLineView::LanguageDescription { legacy_id: legacy_id@, description: description@ },
            AttributeLine::Description(s) => AttributeLineView::Description(s@),
        }
    }
}

/// Code (2), where it applies (1), priority (3), secondary priority (2).
pub open spec fn offer_layout() -> Seq<(Sep, Field)> {
    seq![
        (Sep::Nothing, Field::Text(2)),
        (Sep::Char(' '), Field::Short(1)),
        (Sep::Char(' '), Field::Short(3)),
        (Sep::Char(' '), Field::Short(2)),
    ]
}

pub open spec fn sp_row_offer(s: Seq<char>) -> Scan<AttributeLineView> {
    sp_map(
        sp_fields(s, 0, offer_layout()),
        |v: Seq<ValueV>|
            AttributeLineView::Offer {
                designation_id: text_of(v[0]),
                stop_scope: short_of(v[1]),
                priority: short_of(v[2]),
                secondary_sorting_priority: short_of(v[3]),
            },
    )
}

/// `<`, a text up to `>`, and `>`.
pub open spec fn sp_row_language(s: Seq<char>) -> Scan<AttributeLineView> {
    sp_then(
        sp_tag(s, 0, "<"@, true),
        |u: (), q: usize|
            sp_then(
                sp_take_until(s, q, ">"@, true, false),
                |t: Seq<char>, q2: usize|
                    sp_map(sp_tag(s, q2, ">"@, true), |u2: ()| AttributeLineView::Language(t)),
            ),
    )
}

/// `#` and a comment up to the end of the line.
pub open spec fn sp_row_description(s: Seq<char>) -> Scan<AttributeLineView> {
    sp_then(
        sp_tag(s, 0, "#"@, true),
        |u: (), q: usize| sp_map(sp_till_eol(s, q), |t: Seq<char>| AttributeLineView::Description(t)),
    )
}

/// Code (2 characters, trimmed), whitespace, and the text up to the end of the line.
pub open spec fn sp_row_language_description(s: Seq<char>) -> Scan<AttributeLineView> {
    sp_then(
        sp_str_field(s, 0, 2),
        |id: Seq<char>, q: usize|
            sp_then(
                sp_run1(s, q, CharClass::MultiSpace),
                |w: Seq<char>, q2: usize|
                    sp_map(
                        sp_till_eol(s, q2),
                        |t: Seq<char>| AttributeLineView::LanguageDescription { legacy_id: id, description: t },
                    ),
            ),
    )
}

/// A row of any kind, the first that matches.
pub open spec fn sp_attribute_row(s: Seq<char>) -> Scan<AttributeLineView> {
    sp_or(
        sp_row_offer(s),
        sp_or(sp_row_language(s), sp_or(sp_row_language_description(s), sp_row_description(s))),
    )
}

fn row_offer_at(s: &[char]) -> (r: Scan<AttributeLine>)
    ensures
        r.deep_view() == sp_row_offer(s@),
        r matches Scan::Done(_, q) ==> q <= s@.len(),
{
    let layout = [
        (Sep::Nothing, Field::Text(2)),
        (Sep::Char(' '), Field::Short(1)),
        (Sep::Char(' '), Field::Short(3)),
        (Sep::Char(' '), Field::Short(2)),
    ];
    assert(layout@.skip(0) =~= offer_layout());
    match fields_at(s, 0, &layout, 0) {
        Scan::Done(v, q) => {
            proof {
                crate::layout::lemma_fields_len(s@, 0, layout@);
            }
            Scan::Done(
                AttributeLine::Offer {
                    designation_id: text_at(&v, 0),
                    stop_scope: short_at(&v, 1),
                    priority: short_at(&v, 2),
                    secondary_sorting_priority: short_at(&v, 3),
                },
                q,
            )
        },
        Scan::Error => Scan::Error,
        Scan::Incomplete => Scan::Incomplete,
    }
}

fn row_language_at(s: &[char]) -> (r: Scan<AttributeLine>)
    ensures
        r.deep_view() == sp_row_language(s@),
        r matches Scan::Done(_, q) ==> q <= s@.len(),
{
    match tag_lit(s, 0, "<", true) {
        Scan::Done(_, q) => match take_until(s, q, ">", true, false) {
            Scan::Done(t, q2) => match tag_lit(s, q2, ">", true) {
                Scan::Done(_, q3) => Scan::Done(AttributeLine::Language(t), q3),
                Scan::Error => Scan::Error,
                Scan::Incomplete => Scan::Incomplete,
            },
            Scan::Error => Scan::Error,
            Scan::Incomplete => Scan::Incomplete,
        },
        Scan::Error => Scan::Error,
        Scan::Incomplete => Scan::Incomplete,
    }
}

fn row_description_at(s: &[char]) -> (r: Scan<AttributeLine>)
    ensures
        r.deep_view() == sp_row_description(s@),
        r matches Scan::Done(_, q) ==> q <= s@.len(),
{
    match tag_lit(s, 0, "#", true) {
        Scan::Done(_, q) => match till_eol(s, q) {
            Scan::Done(t, q2) => Scan::Done(AttributeLine::Description(t), q2),
            _ => Scan::Error,
        },
        Scan::Error => Scan::Error,
        Scan::Incomplete => Scan::Incomplete,
    }
}

fn row_language_description_at(s: &[char]) -> (r: Scan<AttributeLine>)
    ensures
        r.deep_view() == sp_row_language_description(s@),
        r matches Scan::Done(_, q) ==> q <= s@.len(),
{
    match take_str_field(s, 0, 2) {
        Scan::Done(id, q) => match run1(s, q, CharClass::MultiSpace) {
            Scan::Done(_, q2) => match till_eol(s, q2) {
                Scan::Done(t, q3) => Scan::Done(
                    AttributeLine::LanguageDescription { legacy_id: id, description: t },
                    q3,
                ),
                _ => Scan::Error,
            },
            Scan::Error => Scan::Error,
            Scan::Incomplete => Scan::Incomplete,
        },
        Scan::Error => Scan::Error,
        Scan::Incomplete => Scan::Incomplete,
    }
}

/// Reads an attribute row.
pub fn row_offer_combinator(input: &str) -> (r: IResult<AttributeLine>)
    ensures
        result_view(r) == sp_result(input@, sp_row_offer(input@)),
{
    let s = chars_of(input);
    let r = row_offer_at(s.as_slice());
    finish(s.as_slice(), r)
}

/// Reads a language row `<lang>`.
pub fn row_language_combinator(input: &str) -> (r: IResult<AttributeLine>)
    ensures
        result_view(r) == sp_result(input@, sp_row_language(input@)),
{
    let s = chars_of(input);
    let r = row_language_at(s.as_slice());
    finish(s.as_slice(), r)
}

/// Reads a comment row `# ...`.
pub fn row_description_combinator(input: &str) -> (r: IResult<AttributeLine>)
    ensures
        result_view(r) == sp_result(input@, sp_row_description(input@)),
{
    let s = chars_of(input);
    let r = row_description_at(s.as_slice());
    finish(s.as_slice(), r)
}

/// Reads a description row `code  text`.
pub fn row_language_description_combinator(input: &str) -> (r: IResult<AttributeLine>)
    ensures
        result_view(r) == sp_result(input@, sp_row_language_description(input@)),
{
    let s = chars_of(input);
    let r = row_language_description_at(s.as_slice());
    finish(s.as_slice(), r)
}

/// The attributes by id, the ids by code, the last id given, and the
/// language of the descriptions being read.
pub struct AttributeState {
    pub attributes: Map<i32, AttributeView>,
    pub keys: Map<Seq<char>, i32>,
    pub last: int,
    pub language: Language,
}

/// What a row does: an attribute row makes an attribute under the next id
/// and records its code; `<lang>` switches the language (`<text>` changes
/// nothing); a description row sets the description, in the current
/// language, of the attribute of its code; comments change nothing.
pub open spec fn attribute_step(st: AttributeState, line: Seq<char>) -> Result<AttributeState, ParsingErrorV> {
    match sp_attribute_row(line) {
        Scan::Done(AttributeLineView::Offer { designation_id, stop_scope, priority, secondary_sorting_priority }, _) => {
            let id = st.last + 1;
            Ok(
                AttributeState {
                    attributes: st.attributes.insert(
                        id as i32,
                        AttributeView {
                            id: id as i32,
                            designation: designation_id,
                            stop_scope,
                            main_sorting_priority: priority,
                            secondary_sorting_priority,
                            description: TranslationsView::empty(),
                        },
                    ),
                    keys: st.keys.insert(designation_id, id as i32),
                    last: id,
                    ..st
                },
            )
        },
        Scan::Done(AttributeLineView::Language(s), _) => if s == "text"@ {
            Ok(st)
        } else {
            match language_named(s) {
                Some(l) => Ok(AttributeState { language: l, ..st }),
                None => Err(ParsingErrorV::UnknownLanguage(s)),
            }
        },
        Scan::Done(AttributeLineView::LanguageDescription { legacy_id, description }, _) => if !st.keys.contains_key(legacy_id) {
            Err(ParsingErrorV::UnknownId("legacy_id : "@ + legacy_id))
        } else {
            let id = st.keys[legacy_id];
            if !st.attributes.contains_key(id) {
                Err(ParsingErrorV::UnknownId("id : "@ + signed_decimal(id as int)))
            } else {
                Ok(
                    AttributeState {
                        attributes: st.attributes.insert(
                            id,
                            AttributeView {
                                description: st.attributes[id].description.set(st.language, description),
                                ..st.attributes[id]
                            },
                        ),
                        ..st
                    },
                )
            }
        },
        Scan::Done(AttributeLineView::Description(_), _) => Ok(st),
        r => Err(ParsingErrorV::Syntax(scan_failure(r))),
    }
}

pub open spec fn attributes_view(m: Map<i32, Attribute>) -> Map<i32, AttributeView> {
    m.map_values(|x: Attribute| x.deep_view())
}

pub open spec fn attribute_state(
    data: Map<i32, Attribute>,
    keys: Map<String, i32>,
    ai: AutoIncrement,
    language: Language,
) -> AttributeState {
    AttributeState { attributes: attributes_view(data), keys: keyed(keys), last: ai@, language }
}

/// Reads a row of the file.  On an error nothing changes.
pub fn parse_line(
    line: &str,
    data: &mut IdMap<Attribute>,
    pk_type_converter: &mut TextMap,
    auto_increment: &mut AutoIncrement,
    current_language: &mut Language,
) -> (r: Result<(), ParsingError>)
    requires
        old(auto_increment).can_advance(),
    ensures
        match attribute_step(
            attribute_state(old(data)@, old(pk_type_converter)@, *old(auto_increment), *old(current_language)),
            line@,
        ) {
            Ok(st) => r is Ok && attribute_state(
                final(data)@,
                final(pk_type_converter)@,
                *final(auto_increment),
                *final(current_language),
            ) == st,
            Err(e) => r matches Err(x) && x.deep_view() == e && final(data)@ == old(data)@
                && final(pk_type_converter)@ == old(pk_type_converter)@ && final(auto_increment)@
                == old(auto_increment)@ && *final(current_language) == *old(current_language),
        },
{
    let s = chars_of(line);
    let row = match row_offer_at(s.as_slice()) {
        Scan::Error => match row_language_at(s.as_slice()) {
            Scan::Error => match row_language_description_at(s.as_slice()) {
                Scan::Error => row_description_at(s.as_slice()),
                r => r,
            },
            r => r,
        },
        r => r,
    };
    let row = match row {
        Scan::Done(row, _) => row,
        Scan::Error => return Err(ParsingError::Syntax(ScanError::Error)),
        Scan::Incomplete => return Err(ParsingError::Syntax(ScanError::Incomplete)),
    };
    proof {
        reveal_strlit("text");
    }
    match row {
        AttributeLine::Offer { designation_id, stop_scope, priority, secondary_sorting_priority } => {
            let id = auto_increment.next();
            text_map_insert(pk_type_converter, designation_id.clone(), id);
            let attribute = Attribute {
                id,
                designation: designation_id,
                stop_scope,
                main_sorting_priority: priority,
                secondary_sorting_priority,
                description: Translations::new(),
            };
            let ghost before = attributes_view(data@);
            let ghost av = attribute.deep_view();
            id_map_insert(data, id, attribute);
            assert(attributes_view(data@) =~= before.insert(id, av));
        },
        AttributeLine::Language(s) => {
            if !text_is(s.as_str(), "text") {
                *current_language = Language::from_str(s.as_str())?;
            }
        },
        AttributeLine::LanguageDescription { legacy_id, description } => {
            let id = match text_map_get(pk_type_converter, legacy_id.as_str()) {
                Some(id) => id,
                None => return Err(ParsingError::UnknownId(joined("legacy_id : ", legacy_id.as_str()))),
            };
            let ghost before = attributes_view(data@);
            let mut attribute = match id_map_remove(data, id) {
                Some(a) => a,
                None => {
                    let digits = int_to_string(id as i64);
                    return Err(ParsingError::UnknownId(joined("id : ", digits.as_str())));
                },
            };
            attribute.description.set(*current_language, description.as_str());
            let ghost av = attribute.deep_view();
            id_map_insert(data, id, attribute);
            assert(attributes_view(data@) =~= before.insert(id, av));
        },
        AttributeLine::Description(_) => {},
    }
    Ok(())
}

/// The state after the first `n` lines, blank lines skipped; or the first line
/// that does not read, and why.
pub open spec fn attributes_of(lines: Seq<Seq<char>>, n: nat) -> Result<AttributeState, (nat, ParsingErrorV)>
    decreases n,
{
    if n == 0 {
        Ok(AttributeState { attributes: Map::empty(), keys: Map::empty(), last: 0, language: Language::German })
    } else {
        match attributes_of(lines, (n - 1) as nat) {
            Err(e) => Err(e),
            Ok(st) => if blank(lines[n - 1]) {
                Ok(st)
            } else {
                match attribute_step(st, lines[n - 1]) {
                    Ok(st2) => Ok(st2),
                    Err(e) => Err(((n - 1) as nat, e)),
                }
            },
        }
    }
}

pub proof fn lemma_attributes_error_stays(lines: Seq<Seq<char>>, n: nat, m: nat)
    requires
        n <= m,
        attributes_of(lines, n) is Err,
    ensures
        attributes_of(lines, m) == attributes_of(lines, n),
    decreases m - n,
{
    if n < m {
        lemma_attributes_error_stays(lines, n, (m - 1) as nat);
    }
}

/// Reads the lines of the ATTRIBUT file `file`: the attributes by id, and the
/// table from codes to ids.  The descriptions start in German.
pub fn parse(file: &str, lines: &Vec<String>) -> (r: HResult<(ResourceStorage<Attribute>, TextMap)>)
    requires
        lines@.len() < i32::MAX,
    ensures
        match (r, attributes_of(texts(lines@), lines@.len())) {
            (Ok((st, keys)), Ok(f)) => attributes_view(st.view()) == f.attributes && keyed(keys@) == f.keys,
            (Err(e), Err((n, why))) => file_error(e, why, file@, lines@[n as int]@, n),
            _ => false,
        },
{
    let mut auto_increment = AutoIncrement::new();
    let mut data: IdMap<Attribute> = id_map_new();
    let mut pk_type_converter = text_map_new();
    let mut current_language = Language::default();
    assert(attributes_view(data@) =~= Map::empty());
    assert(keyed(pk_type_converter@) =~= Map::empty());
    let mut i: usize = 0;
    while i < lines.len()
        invariant
            0 <= i <= lines@.len(),
            lines@.len() < i32::MAX,
            attributes_of(texts(lines@), i as nat) == Ok::<_, (nat, ParsingErrorV)>(
                attribute_state(data@, pk_type_converter@, auto_increment, current_language),
            ),
            0 <= auto_increment@ <= i,
        decreases lines@.len() - i,
    {
        let line = &lines[i];
        assert(texts(lines@)[i as int] == line@);
        if !is_blank(line.as_str()) {
            match parse_line(
                line.as_str(),
                &mut data,
                &mut pk_type_converter,
                &mut auto_increment,
                &mut current_language,
            ) {
                Ok(()) => {},
                Err(e) => {
                    proof {
                        lemma_attributes_error_stays(texts(lines@), (i + 1) as nat, lines@.len());
                    }
                    return Err(
                        HrdfError::Parsing {
                            error: e,
                            file: String::from_str(file),
                            line: line.clone(),
                            line_number: i,
                        },
                    );
                },
            }
        }
        i = i + 1;
    }
    Ok((ResourceStorage::new(data), pk_type_converter))
}

/// The attributes are numbered 1 up to the last one, each under its own
/// number, and each code names an attribute.
pub open spec fn attributes_consistent(st: AttributeState) -> bool {
    &&& 0 <= st.last
    &&& forall|k: i32| #[trigger] st.attributes.contains_key(k) <==> 1 <= k <= st.last
    &&& forall|k: i32| #[trigger] st.attributes.contains_key(k) ==> st.attributes[k].id == k
    &&& forall|t: Seq<char>| #[trigger] st.keys.contains_key(t) ==> st.attributes.contains_key(st.keys[t])
}

proof fn lemma_attribute_step_consistent(st: AttributeState, line: Seq<char>)
    requires
        attributes_consistent(st),
        st.last < i32::MAX,
    ensures
        attribute_step(st, line) matches Ok(st2) ==> attributes_consistent(st2) && st2.last <= st.last + 1,
{
    match attribute_step(st, line) {
        Ok(st2) => {
            match sp_attribute_row(line) {
                Scan::Done(AttributeLineView::Offer { .. }, _) => {
                    let id = st.last + 1;
                    assert(id as i32 == id);
                },
                _ => {},
            }
        },
        Err(_) => {},
    }
}

/// What ATTRIBUT gives is consistent: the attributes are numbered 1 up to
/// the last one, each under its own number, and each code it records names
/// an attribute it read.
pub proof fn lemma_attributes_consistent(lines: Seq<Seq<char>>, n: nat)
    requires
        n < i32::MAX,
    ensures
        attributes_of(lines, n) matches Ok(st) ==> attributes_consistent(st) && st.last <= n,
    decreases n,
{
    if n > 0 {
        lemma_attributes_consistent(lines, (n - 1) as nat);
        match attributes_of(lines, (n - 1) as nat) {
            Ok(st) => {
                lemma_attribute_step_consistent(st, lines[n - 1]);
            },
            Err(_) => {},
        }
    }
}

} // verus!
