//! # Transport types (ZUGART)
//!
//! The file first defines the offer categories, one per row: code (3),
//! product class, tariff group (1), output control, short name (8), surcharge
//! and flag (1), separated by spaces.  Then, after `<Deutsch>`,
//! `<Franzoesisch>`, `<Englisch>` or `<Italienisch>`, rows `classNN name` name
//! the product classes and rows `categoryNNN name` name the category of the
//! last category defined; `option` and `*I` rows are read and not used.
//!
//! `IC  1 A 0 IC       0 N`
use vstd::prelude::*;

use crate::error::{HResult, HrdfError, ParsingError, ParsingErrorV};
use crate::models::{text_is, Language, Translations, TranslationsView, TransportType, TransportTypeView};
use crate::parsing::lines::{blank, file_error, is_blank, scan_failure, texts};
use crate::scan::{
    char_lit, i16_number, run1, sp_char, sp_i16_number, sp_map, sp_or,
    sp_run1, sp_str_field, sp_tag, sp_take_until, sp_then, sp_till_eol, tag_lit,
    take_str_field, take_until, till_eol, CharClass, Scan, ScanError,
};
use crate::storage::{
    id_map_insert, id_map_keys, id_map_new, id_map_remove, keyed, text_map_insert,
    text_map_new, IdMap, ResourceStorage, TextMap,
};
use crate::text::{chars_of, int_to_string, joined, signed_decimal};
use crate::utils::AutoIncrement;
use vstd::string::StringExecFns;

verus! {

broadcast use vstd::string::group_string_axioms;

/// The rows of the file.
#[derive(Debug)]
pub enum TransportTypeAndTypeLine {
    OfferDefinition {
        designation: String,
        product_class_id: i16,
        tariff_group: String,
        output_control: i16,
        short_name: String,
        surcharge: i16,
        flag: String,
    },
    LanguageDefinition(String),
    Class { product_class_id: i16, product_class_name: String },
    Category { category_id: i16, category_name: String },
    Option { option_id: i16, option_name: String },
    Information { code_name: String, id: Option<i32> },
}

pub enum TransportTypeLineView {
    OfferDefinition {
        designation: Seq<char>,
        product_class_id: i16,
        tariff_group: Seq<char>,
        output_control: i16,
        short_name: Seq<char>,
        surcharge: i16,
        flag: Seq<char>,
    },
    LanguageDefinition(Seq<char>),
    Class { product_class_id: i16, product_class_name: Seq<char> },
    Category { category_id: i16, category_name: Seq<char> },
    Option { option_id: i16, option_name: Seq<char> },
    Information { code_name: Seq<char>, id: Option<i32> },
}

impl DeepView for TransportTypeAndTypeLine {
    type V = TransportTypeLineView;

    open spec fn deep_view(&self) -> TransportTypeLineView {
        match self {
            TransportTypeAndTypeLine::OfferDefinition {
                designation,
                product_class_id,
                tariff_group,
                output_control,
                short_name,
                surcharge,
                flag,
            } => TransportTypeLineView::OfferDefinition {
                designation: designation@,
                product_class_id: *product_class_id,
                tariff_group: tariff_group@,
                output_control: *output_control,
                short_name: short_name@,
                surcharge: *surcharge,
                flag: flag@,
            },
            TransportTypeAndTypeLine::LanguageDefinition(s) => TransportTypeLineView::LanguageDefinition(s@),
            TransportTypeAndTypeLine::Class { product_class_id, product_class_name } =>
                TransportTypeLineView::Class {
                product_class_id: *product_class_id,
                product_class_name: product_class_name@,
            },
            TransportTypeAndTypeLine::Category { category_id, category_name } =>
                TransportTypeLineView::Category { category_id: *category_id, category_name: category_name@ },
            TransportTypeAndTypeLine::Option { option_id, option_name } => TransportTypeLineView::Option {
                option_id: *option_id,
                option_name: option_name@,
            },
            TransportTypeAndTypeLine::Information { code_name, id } => TransportTypeLineView::Information {
                code_name: code_name@,
                id: *id,
            },
        }
    }
}

/// At least one space or tab, then an `i16` written with as many digits as follow.
pub open spec fn sp_spaced_i16(s: Seq<char>, p: usize) -> Scan<i16> {
    sp_then(sp_run1(s, p, CharClass::Space), |w: Seq<char>, q: usize| sp_i16_number(s, q))
}

/// At least one space or tab, then `n` characters, trimmed.
pub open spec fn sp_spaced_text(s: Seq<char>, p: usize, n: usize) -> Scan<Seq<char>> {
    sp_then(sp_run1(s, p, CharClass::Space), |w: Seq<char>, q: usize| sp_str_field(s, q, n))
}

pub open spec fn sp_offer_definition(s: Seq<char>) -> Scan<TransportTypeLineView> {
    sp_then(
        sp_str_field(s, 0, 3),
        |designation: Seq<char>, q1: usize|
            sp_then(
                sp_spaced_i16(s, q1),
                |product_class_id: i16, q2: usize|
                    sp_then(
                        sp_spaced_text(s, q2, 1),
                        |tariff_group: Seq<char>, q3: usize|
                            sp_then(
                                sp_spaced_i16(s, q3),
                                |output_control: i16, q4: usize|
                                    sp_then(
                                        sp_spaced_text(s, q4, 8),
                                        |short_name: Seq<char>, q5: usize|
                                            sp_then(
                                                sp_spaced_i16(s, q5),
                                                |surcharge: i16, q6: usize|
                                                    sp_map(
                                                        sp_spaced_text(s, q6, 1),
                                                        |flag: Seq<char>|
                                                            TransportTypeLineView::OfferDefinition {
                                                                designation,
                                                                product_class_id,
                                                                tariff_group,
                                                                output_control,
                                                                short_name,
                                                                surcharge,
                                                                flag,
                                                            },
                                                    ),
                                            ),
                                    ),
                            ),
                    ),
            ),
    )
}

/// `<`, a non-empty text up to `>`, and `>`.
pub open spec fn sp_language_definition(s: Seq<char>) -> Scan<TransportTypeLineView> {
    sp_then(
        sp_tag(s, 0, "<"@, false),
        |u: (), q: usize|
            sp_then(
                sp_take_until(s, q, ">"@, false, true),
                |t: Seq<char>, q2: usize|
                    sp_map(sp_tag(s, q2, ">"@, false), |u2: ()| TransportTypeLineView::LanguageDefinition(t)),
            ),
    )
}

/// A word, an `i16`, at least one space, and a name up to the end of the line.
pub open spec fn sp_numbered_name(s: Seq<char>, word: Seq<char>) -> Scan<(i16, Seq<char>)> {
    sp_then(
        sp_tag(s, 0, word, false),
        |u: (), q: usize|
            sp_then(
                sp_i16_number(s, q),
                |n: i16, q2: usize|
                    sp_then(
                        sp_run1(s, q2, CharClass::Space),
                        |w: Seq<char>, q3: usize| sp_map(sp_till_eol(s, q3), |t: Seq<char>| (n, t)),
                    ),
            ),
    )
}

pub open spec fn sp_category(s: Seq<char>) -> Scan<TransportTypeLineView> {
    sp_map(
        sp_numbered_name(s, "category"@),
        |x: (i16, Seq<char>)| TransportTypeLineView::Category { category_id: x.0, category_name: x.1 },
    )
}

pub open spec fn sp_class(s: Seq<char>) -> Scan<TransportTypeLineView> {
    sp_map(
        sp_numbered_name(s, "class"@),
        |x: (i16, Seq<char>)| TransportTypeLineView::Class { product_class_id: x.0, product_class_name: x.1 },
    )
}

pub open spec fn sp_option(s: Seq<char>) -> Scan<TransportTypeLineView> {
    sp_map(
        sp_numbered_name(s, "option"@),
        |x: (i16, Seq<char>)| TransportTypeLineView::Option { option_id: x.0, option_name: x.1 },
    )
}

/// `*I`, at least one space, a code (2), a space, an optional number (7).
pub open spec fn sp_information(s: Seq<char>) -> Scan<TransportTypeLineView> {
    sp_then(
        sp_tag(s, 0, "*I"@, false),
        |u: (), q: usize|
            sp_then(
                sp_run1(s, q, CharClass::Space),
                |w: Seq<char>, q1: usize|
                    sp_then(
                        sp_str_field(s, q1, 2),
                        |code: Seq<char>, q2: usize|
                            sp_then(
                                sp_char(s, q2, ' ', false),
                                |u2: (), q3: usize|
                                    sp_map(
                                        crate::scan::sp_opt_i32_field(s, q3, 7),
                                        |id: Option<i32>| TransportTypeLineView::Information { code_name: code, id },
                                    ),
                            ),
                    ),
            ),
    )
}

/// A row of any kind, the first that matches.
pub open spec fn sp_transport_type_row(s: Seq<char>) -> Scan<TransportTypeLineView> {
    sp_or(
        sp_offer_definition(s),
        sp_or(
            sp_language_definition(s),
            sp_or(sp_category(s), sp_or(sp_class(s), sp_or(sp_option(s), sp_information(s)))),
        ),
    )
}

fn spaced_i16_at(s: &[char], p: usize) -> (r: Scan<i16>)
    requires
        p <= s@.len(),
    ensures
        r == sp_spaced_i16(s@, p),
        r matches Scan::Done(_, q) ==> p <= q <= s@.len(),
{
    match run1(s, p, CharClass::Space) {
        Scan::Done(_, q) => i16_number(s, q),
        Scan::Error => Scan::Error,
        Scan::Incomplete => Scan::Incomplete,
    }
}

fn spaced_text_at(s: &[char], p: usize, n: usize) -> (r: Scan<String>)
    requires
        p <= s@.len(),
    ensures
        r.deep_view() == sp_spaced_text(s@, p, n),
        r matches Scan::Done(_, q) ==> p <= q <= s@.len(),
{
    match run1(s, p, CharClass::Space) {
        Scan::Done(_, q) => take_str_field(s, q, n),
        Scan::Error => Scan::Error,
        Scan::Incomplete => Scan::Incomplete,
    }
}

fn offer_definition_at(s: &[char]) -> (r: Scan<TransportTypeAndTypeLine>)
    ensures
        r.deep_view() == sp_offer_definition(s@),
        r matches Scan::Done(_, q) ==> q <= s@.len(),
{
    let designation = match take_str_field(s, 0, 3) {
        Scan::Done(t, q) => (t, q),
        Scan::Error => return Scan::Error,
        Scan::Incomplete => return Scan::Incomplete,
    };
    let product_class_id = match spaced_i16_at(s, designation.1) {
        Scan::Done(v, q) => (v, q),
        Scan::Error => return Scan::Error,
        Scan::Incomplete => return Scan::Incomplete,
    };
    let tariff_group = match spaced_text_at(s, product_class_id.1, 1) {
        Scan::Done(t, q) => (t, q),
        Scan::Error => return Scan::Error,
        Scan::Incomplete => return Scan::Incomplete,
    };
    let output_control = match spaced_i16_at(s, tariff_group.1) {
        Scan::Done(v, q) => (v, q),
        Scan::Error => return Scan::Error,
        Scan::Incomplete => return Scan::Incomplete,
    };
    let short_name = match spaced_text_at(s, output_control.1, 8) {
        Scan::Done(t, q) => (t, q),
        Scan::Error => return Scan::Error,
        Scan::Incomplete => return Scan::Incomplete,
    };
    let surcharge = match spaced_i16_at(s, short_name.1) {
        Scan::Done(v, q) => (v, q),
        Scan::Error => return Scan::Error,
        Scan::Incomplete => return Scan::Incomplete,
    };
    let flag = match spaced_text_at(s, surcharge.1, 1) {
        Scan::Done(t, q) => (t, q),
        Scan::Error => return Scan::Error,
        Scan::Incomplete => return Scan::Incomplete,
    };
    Scan::Done(
        TransportTypeAndTypeLine::OfferDefinition {
            designation: designation.0,
            product_class_id: product_class_id.0,
            tariff_group: tariff_group.0,
            output_control: output_control.0,
            short_name: short_name.0,
            surcharge: surcharge.0,
            flag: flag.0,
        },
        flag.1,
    )
}

fn language_definition_at(s: &[char]) -> (r: Scan<TransportTypeAndTypeLine>)
    ensures
        r.deep_view() == sp_language_definition(s@),
        r matches Scan::Done(_, q) ==> q <= s@.len(),
{
    match tag_lit(s, 0, "<", false) {
        Scan::Done(_, q) => match take_until(s, q, ">", false, true) {
            Scan::Done(t, q2) => match tag_lit(s, q2, ">", false) {
                Scan::Done(_, q3) => Scan::Done(TransportTypeAndTypeLine::LanguageDefinition(t), q3),
                Scan::Error => Scan::Error,
                Scan::Incomplete => Scan::Incomplete,
            },
            Scan::Error => Scan::Error,
            Scan::Incomplete => Scan::Incomplete,
        },
        Scan::Error => Scan::Error,
        Scan::Incomplete => Scan::Incomplete,
    }
}

fn numbered_name_at(s: &[char], word: &str) -> (r: Scan<(i16, String)>)
    ensures
        r.deep_view() == sp_numbered_name(s@, word@),
        r matches Scan::Done(_, q) ==> q <= s@.len(),
{
    match tag_lit(s, 0, word, false) {
        Scan::Done(_, q) => match i16_number(s, q) {
            Scan::Done(n, q2) => match run1(s, q2, CharClass::Space) {
                Scan::Done(_, q3) => match till_eol(s, q3) {
                    Scan::Done(t, q4) => Scan::Done((n, t), q4),
                    _ => Scan::Error,
                },
                Scan::Error => Scan::Error,
                Scan::Incomplete => Scan::Incomplete,
            },
            Scan::Error => Scan::Error,
            Scan::Incomplete => Scan::Incomplete,
        },
        Scan::Error => Scan::Error,
        Scan::Incomplete => Scan::Incomplete,
    }
}

fn information_at(s: &[char]) -> (r: Scan<TransportTypeAndTypeLine>)
    ensures
        r.deep_view() == sp_information(s@),
        r matches Scan::Done(_, q) ==> q <= s@.len(),
{
    match tag_lit(s, 0, "*I", false) {
        Scan::Done(_, q) => match run1(s, q, CharClass::Space) {
            Scan::Done(_, q1) => match take_str_field(s, q1, 2) {
                Scan::Done(code, q2) => match char_lit(s, q2, ' ', false) {
                    Scan::Done(_, q3) => match crate::scan::opt_i32_field(s, q3, 7) {
                        Scan::Done(id, q4) => Scan::Done(
                            TransportTypeAndTypeLine::Information { code_name: code, id },
                            q4,
                        ),
                        Scan::Error => Scan::Error,
                        Scan::Incomplete => Scan::Incomplete,
                    },
                    Scan::Error => Scan::Error,
                    Scan::Incomplete => Scan::Incomplete,
                },
                Scan::Error => Scan::Error,
                Scan::Incomplete => Scan::Incomplete,
            },
            Scan::Error => Scan::Error,
            Scan::Incomplete => Scan::Incomplete,
        },
        Scan::Error => Scan::Error,
        Scan::Incomplete => Scan::Incomplete,
    }
}

fn transport_type_row_at(s: &[char]) -> (r: Scan<TransportTypeAndTypeLine>)
    ensures
        r.deep_view() == sp_transport_type_row(s@),
        r matches Scan::Done(_, q) ==> q <= s@.len(),
{
    match offer_definition_at(s) {
        Scan::Error => {},
        r => return r,
    }
    match language_definition_at(s) {
        Scan::Error => {},
        r => return r,
    }
    match numbered_name_at(s, "category") {
        Scan::Done((n, t), q) => return Scan::Done(
            TransportTypeAndTypeLine::Category { category_id: n, category_name: t },
            q,
        ),
        Scan::Incomplete => return Scan::Incomplete,
        Scan::Error => {},
    }
    match numbered_name_at(s, "class") {
        Scan::Done((n, t), q) => return Scan::Done(
            TransportTypeAndTypeLine::Class { product_class_id: n, product_class_name: t },
            q,
        ),
        Scan::Incomplete => return Scan::Incomplete,
        Scan::Error => {},
    }
    match numbered_name_at(s, "option") {
        Scan::Done((n, t), q) => return Scan::Done(
            TransportTypeAndTypeLine::Option { option_id: n, option_name: t },
            q,
        ),
        Scan::Incomplete => return Scan::Incomplete,
        Scan::Error => {},
    }
    information_at(s)
}

/// The state: the transport types by id, the ids by code, the last id given,
/// and the language of the names being read.
pub struct TransportTypeState {
    pub types: Map<i32, TransportTypeView>,
    pub keys: Map<Seq<char>, i32>,
    pub last: int,
    pub language: Language,
}

/// The language that a language row names (`text` names none).
pub open spec fn language_definition(s: Seq<char>) -> Option<Language> {
    if s == "Deutsch"@ {
        Some(Language::German)
    } else if s == "Franzoesisch"@ {
        Some(Language::French)
    } else if s == "Englisch"@ {
        Some(Language::English)
    } else if s == "Italienisch"@ {
        Some(Language::Italian)
    } else {
        None
    }
}

/// Whether reading `line` would stop the program: a language row that names
/// neither a known language nor `text`.
pub open spec fn unknown_language_row(line: Seq<char>) -> bool {
    sp_transport_type_row(line) matches Scan::Done(TransportTypeLineView::LanguageDefinition(s), _)
        && s != "text"@ && language_definition(s).is_none()
}

/// The types with the name of product class `class` set, in `language`, on
/// each type of that class.
pub open spec fn with_class_name(
    m: Map<i32, TransportTypeView>,
    class: i16,
    language: Language,
    name: Seq<char>,
) -> Map<i32, TransportTypeView> {
    Map::new(
        |k: i32| m.contains_key(k),
        |k: i32|
            if m[k].product_class_id == class {
                TransportTypeView { product_class_name: m[k].product_class_name.set(language, name), ..m[k] }
            } else {
                m[k]
            },
    )
}

/// What a row does: an offer row makes a transport type under the next id
/// and records its code; a language row switches the language; a class row
/// names its class on every type of the class; a category row names the
/// category of the type made last, which must exist; the others change nothing.
pub open spec fn transport_type_step(st: TransportTypeState, line: Seq<char>) -> Result<
    TransportTypeState,
    ParsingErrorV,
> {
    match sp_transport_type_row(line) {
        Scan::Done(TransportTypeLineView::OfferDefinition {
            designation,
            product_class_id,
            tariff_group,
            output_control,
            short_name,
            surcharge,
            flag,
        }, _) => {
            let id = st.last + 1;
            Ok(
                TransportTypeState {
                    types: st.types.insert(
                        id as i32,
                        TransportTypeView {
                            id: id as i32,
                            designation,
                            product_class_id,
                            tariff_group,
                            output_control,
                            short_name,
                            surcharge,
                            flag,
                            product_class_name: TranslationsView::empty(),
                            category_name: TranslationsView::empty(),
                        },
                    ),
                    keys: st.keys.insert(designation, id as i32),
                    last: id,
                    ..st
                },
            )
        },
        Scan::Done(TransportTypeLineView::LanguageDefinition(s), _) => match language_definition(s) {
            Some(l) => Ok(TransportTypeState { language: l, ..st }),
            None => Ok(st),
        },
        Scan::Done(TransportTypeLineView::Class { product_class_id, product_class_name }, _) => Ok(
            TransportTypeState {
                types: with_class_name(st.types, product_class_id, st.language, product_class_name),
                ..st
            },
        ),
        Scan::Done(TransportTypeLineView::Category { category_name, .. }, _) => {
            let id = st.last as i32;
            if st.types.contains_key(id) {
                Ok(
                    TransportTypeState {
                        types: st.types.insert(
                            id,
                            TransportTypeView {
                                category_name: st.types[id].category_name.set(st.language, category_name),
                                ..st.types[id]
                            },
                        ),
                        ..st
                    },
                )
            } else {
                Err(ParsingErrorV::Unknown("Error: TransportType not found for id: "@ + signed_decimal(id as int)))
            }
        },
        Scan::Done(_, _) => Ok(st),
        r => Err(ParsingErrorV::Syntax(scan_failure(r))),
    }
}

pub open spec fn types_view(m: Map<i32, TransportType>) -> Map<i32, TransportTypeView> {
    m.map_values(|x: TransportType| x.deep_view())
}

pub open spec fn transport_type_state(
    data: Map<i32, TransportType>,
    keys: Map<String, i32>,
    ai: AutoIncrement,
    language: Language,
) -> TransportTypeState {
    TransportTypeState { types: types_view(data), keys: keyed(keys), last: ai@, language }
}

/// Whether `k` is among the first `i` keys.
pub open spec fn seen(keys: Seq<i32>, i: int, k: i32) -> bool {
    exists|x: int| 0 <= x < i && #[trigger] keys[x] == k
}

/// Sets the name of product class `class`, in `language`, on every type of the class.
fn set_class_name(data: &mut IdMap<TransportType>, class: i16, language: Language, name: &str)
    ensures
        types_view(final(data)@) == with_class_name(types_view(old(data)@), class, language, name@),
{
    let ghost start = types_view(data@);
    let keys = id_map_keys(data);
    let mut i: usize = 0;
    while i < keys.len()
        invariant
            0 <= i <= keys@.len(),
            keys@.no_duplicates(),
            keys@.to_set() == start.dom(),
            start == types_view(old(data)@),
            data@.dom() == start.dom(),
            forall|k: i32| #[trigger]
                data@.contains_key(k) ==> types_view(data@)[k] == (if seen(keys@, i as int, k) {
                    with_class_name(start, class, language, name@)[k]
                } else {
                    start[k]
                }),
        decreases keys@.len() - i,
    {
        let k = keys[i];
        assert(keys@.contains(k));
        assert(keys@.to_set().contains(k));
        let ghost before = data@;
        match id_map_remove(data, k) {
            Some(mut t) => {
                if t.product_class_id == class {
                    t.product_class_name.set(language, name);
                }
                id_map_insert(data, k, t);
            },
            None => {},
        }
        proof {
            assert forall|j: i32| #[trigger] data@.contains_key(j) implies types_view(data@)[j] == (if seen(keys@, i + 1, j) {
                with_class_name(start, class, language, name@)[j]
            } else {
                start[j]
            }) by {
                if j == k {
                    assert(keys@[i as int] == k);
                    assert(seen(keys@, i + 1, j));
                } else {
                    assert(data@[j] == before[j]);
                    assert(seen(keys@, i + 1, j) == seen(keys@, i as int, j)) by {
                        if seen(keys@, i + 1, j) {
                            let x = choose|x: int| 0 <= x < i + 1 && #[trigger] keys@[x] == j;
                            assert(x != i);
                        }
                    }
                }
            }
        }
        i = i + 1;
    }
    proof {
        assert forall|k: i32| #[trigger] data@.contains_key(k) implies seen(keys@, keys@.len() as int, k) by {
            assert(keys@.to_set().contains(k));
            assert(keys@.contains(k));
            let x = choose|x: int| 0 <= x < keys@.len() && keys@[x] == k;
            assert(keys@[x] == k);
        }
        assert(types_view(data@) =~= with_class_name(start, class, language, name@));
    }
}

/// Reads a row of the file.  On an error nothing changes.
pub fn parse_line(
    line: &str,
    data: &mut IdMap<TransportType>,
    pk_type_converter: &mut TextMap,
    auto_increment: &mut AutoIncrement,
    current_language: &mut Language,
) -> (r: Result<(), ParsingError>)
    requires
        old(auto_increment).can_advance(),
        !unknown_language_row(line@),
    ensures
        match transport_type_step(
            transport_type_state(old(data)@, old(pk_type_converter)@, *old(auto_increment), *old(current_language)),
            line@,
        ) {
            Ok(st) => r is Ok && transport_type_state(
                final(data)@,
                final(pk_type_converter)@,
                *final(auto_increment),
                *final(current_language),
            ) == st,
            Err(e) => r matches Err(x) && x.deep_view() == e && final(data)@ == old(data)@
                && final(pk_type_converter)@ == old(pk_type_converter)@ && final(auto_increment)@
                == old(auto_increment)@ && *final(current_language) == *old(current_language),
        },
{
    let s = chars_of(line);
    let row = match transport_type_row_at(s.as_slice()) {
        Scan::Done(row, _) => row,
        Scan::Error => return Err(ParsingError::Syntax(ScanError::Error)),
        Scan::Incomplete => return Err(ParsingError::Syntax(ScanError::Incomplete)),
    };
    proof {
        reveal_strlit("Deutsch");
        reveal_strlit("Franzoesisch");
        reveal_strlit("Englisch");
        reveal_strlit("Italienisch");
        reveal_strlit("text");
    }
    match row {
        TransportTypeAndTypeLine::OfferDefinition {
            designation,
            product_class_id,
            tariff_group,
            output_control,
            short_name,
            surcharge,
            flag,
        } => {
            let id = auto_increment.next();
            text_map_insert(pk_type_converter, designation.clone(), id);
            let tt = TransportType {
                id,
                designation,
                product_class_id,
                tariff_group,
                output_control,
                short_name,
                surcharge,
                flag,
                product_class_name: Translations::new(),
                category_name: Translations::new(),
            };
            let ghost before = types_view(data@);
            let ghost tv = tt.deep_view();
            id_map_insert(data, id, tt);
            assert(types_view(data@) =~= before.insert(id, tv));
        },
        TransportTypeAndTypeLine::LanguageDefinition(language) => {
            if text_is(language.as_str(), "Deutsch") {
                *current_language = Language::German;
            } else if text_is(language.as_str(), "Franzoesisch") {
                *current_language = Language::French;
            } else if text_is(language.as_str(), "Englisch") {
                *current_language = Language::English;
            } else if text_is(language.as_str(), "Italienisch") {
                *current_language = Language::Italian;
            }
        },
        TransportTypeAndTypeLine::Class { product_class_id, product_class_name } => {
            set_class_name(data, product_class_id, *current_language, product_class_name.as_str());
        },
        TransportTypeAndTypeLine::Category { category_name, .. } => {
            let id = auto_increment.get();
            let ghost before = types_view(data@);
            match id_map_remove(data, id) {
                Some(mut tt) => {
                    tt.category_name.set(*current_language, category_name.as_str());
                    let ghost tv = tt.deep_view();
                    id_map_insert(data, id, tt);
                    assert(types_view(data@) =~= before.insert(id, tv));
                },
                None => {
                    let digits = int_to_string(id as i64);
                    return Err(ParsingError::Unknown(joined("Error: TransportType not found for id: ", digits.as_str())));
                },
            }
        },
        TransportTypeAndTypeLine::Option { .. } => {},
        TransportTypeAndTypeLine::Information { .. } => {},
    }
    Ok(())
}

/// The state after the first `n` lines, blank lines skipped; or the first line
/// that does not read, and why.
pub open spec fn transport_types_of(lines: Seq<Seq<char>>, n: nat) -> Result<TransportTypeState, (nat, ParsingErrorV)>
    decreases n,
{
    if n == 0 {
        Ok(TransportTypeState { types: Map::empty(), keys: Map::empty(), last: 0, language: Language::German })
    } else {
        match transport_types_of(lines, (n - 1) as nat) {
            Err(e) => Err(e),
            Ok(st) => if blank(lines[n - 1]) {
                Ok(st)
            } else {
                match transport_type_step(st, lines[n - 1]) {
                    Ok(st2) => Ok(st2),
                    Err(e) => Err(((n - 1) as nat, e)),
                }
            },
        }
    }
}

pub proof fn lemma_transport_types_error_stays(lines: Seq<Seq<char>>, n: nat, m: nat)
    requires
        n <= m,
        transport_types_of(lines, n) is Err,
    ensures
        transport_types_of(lines, m) == transport_types_of(lines, n),
    decreases m - n,
{
    if n < m {
        lemma_transport_types_error_stays(lines, n, (m - 1) as nat);
    }
}

/// Whether `line` is a language row naming an unknown language.
pub fn is_unknown_language_row(line: &str) -> (r: bool)
    ensures
        r == unknown_language_row(line@),
{
    proof {
        reveal_strlit("Deutsch");
        reveal_strlit("Franzoesisch");
        reveal_strlit("Englisch");
        reveal_strlit("Italienisch");
        reveal_strlit("text");
    }
    let s = chars_of(line);
    match transport_type_row_at(s.as_slice()) {
        Scan::Done(TransportTypeAndTypeLine::LanguageDefinition(t), _) => !(text_is(t.as_str(), "text")
            || text_is(t.as_str(), "Deutsch") || text_is(t.as_str(), "Franzoesisch") || text_is(
            t.as_str(),
            "Englisch",
        ) || text_is(t.as_str(), "Italienisch")),
        _ => false,
    }
}

/// Whether some line of `lines` is a language row naming an unknown language.
pub fn has_unknown_language_row(lines: &Vec<String>) -> (r: bool)
    ensures
        r == exists|i: int| 0 <= i < lines@.len() && unknown_language_row(#[trigger] lines@[i]@),
{
    let mut i: usize = 0;
    while i < lines.len()
        invariant
            0 <= i <= lines@.len(),
            forall|j: int| 0 <= j < i ==> !unknown_language_row(#[trigger] lines@[j]@),
        decreases lines@.len() - i,
    {
        if is_unknown_language_row(lines[i].as_str()) {
            return true;
        }
        i = i + 1;
    }
    false
}

/// Reads the lines of the ZUGART file `file`: the transport types by id, and
/// the table from codes to ids.  The names start in German.  No line may be a
/// language row that names an unknown language (`has_unknown_language_row`
/// tells).
pub fn parse(file: &str, lines: &Vec<String>) -> (r: HResult<(ResourceStorage<TransportType>, TextMap)>)
    requires
        lines@.len() < i32::MAX,
        forall|i: int| 0 <= i < lines@.len() ==> !unknown_language_row(#[trigger] lines@[i]@),
    ensures
        match (r, transport_types_of(texts(lines@), lines@.len())) {
            (Ok((st, keys)), Ok(f)) => types_view(st.view()) == f.types && keyed(keys@) == f.keys,
            (Err(e), Err((n, why))) => file_error(e, why, file@, lines@[n as int]@, n),
            _ => false,
        },
{
    let mut auto_increment = AutoIncrement::new();
    let mut data: IdMap<TransportType> = id_map_new();
    let mut pk_type_converter = text_map_new();
    let mut current_language = Language::default();
    assert(types_view(data@) =~= Map::empty());
    assert(keyed(pk_type_converter@) =~= Map::empty());
    let mut i: usize = 0;
    while i < lines.len()
        invariant
            0 <= i <= lines@.len(),
            lines@.len() < i32::MAX,
            forall|j: int| 0 <= j < lines@.len() ==> !unknown_language_row(#[trigger] lines@[j]@),
            transport_types_of(texts(lines@), i as nat) == Ok::<_, (nat, ParsingErrorV)>(
                transport_type_state(data@, pk_type_converter@, auto_increment, current_language),
            ),
            0 <= auto_increment@ <= i,
        decreases lines@.len() - i,
    {
        let line = &lines[i];
        assert(texts(lines@)[i as int] == line@);
        assert(!unknown_language_row(lines@[i as int]@));
        if !is_blank(line.as_str()) {
            match parse_line(
                line.as_str(),
                &mut data,
                &mut pk_type_converter,
                &mut auto_increment,
                &mut current_language,
            ) {
                Ok(()) => {},
                Err(e) => {
                    proof {
                        lemma_transport_types_error_stays(texts(lines@), (i + 1) as nat, lines@.len());
                    }
                    return Err(
                        HrdfError::Parsing {
                            error: e,
                            file: String::from_str(file),
                            line: line.clone(),
                            line_number: i,
                        },
                    );
                },
            }
        }
        i = i + 1;
    }
    Ok((ResourceStorage::new(data), pk_type_converter))
}

/// The transport types are numbered 1 up to the last one, each under its
/// own number, and each code names a transport type.
pub open spec fn transport_types_consistent(st: TransportTypeState) -> bool {
    &&& 0 <= st.last
    &&& forall|k: i32| #[trigger] st.types.contains_key(k) <==> 1 <= k <= st.last
    &&& forall|k: i32| #[trigger] st.types.contains_key(k) ==> st.types[k].id == k
    &&& forall|t: Seq<char>| #[trigger] st.keys.contains_key(t) ==> st.types.contains_key(st.keys[t])
}

proof fn lemma_transport_type_step_consistent(st: TransportTypeState, line: Seq<char>)
    requires
        transport_types_consistent(st),
        st.last < i32::MAX,
    ensures
        transport_type_step(st, line) matches Ok(st2) ==> transport_types_consistent(st2) && st2.last <= st.last
            + 1,
{
    match transport_type_step(st, line) {
        Ok(st2) => {
            match sp_transport_type_row(line) {
                Scan::Done(TransportTypeLineView::OfferDefinition { .. }, _) => {
                    let id = st.last + 1;
                    assert(id as i32 == id);
                },
                Scan::Done(TransportTypeLineView::Class { product_class_id, product_class_name }, _) => {
                    assert(st2.types.dom() =~= st.types.dom());
                },
                _ => {},
            }
        },
        Err(_) => {},
    }
}

/// What ZUGART gives is consistent: the transport types are numbered 1 up
/// to the last one, each under its own number, and each code it records
/// names a transport type it read.
pub proof fn lemma_transport_types_consistent(lines: Seq<Seq<char>>, n: nat)
    requires
        n < i32::MAX,
    ensures
        transport_types_of(lines, n) matches Ok(st) ==> transport_types_consistent(st) && st.last <= n,
    decreases n,
{
    if n > 0 {
        lemma_transport_types_consistent(lines, (n - 1) as nat);
        match transport_types_of(lines, (n - 1) as nat) {
            Ok(st) => {
                lemma_transport_type_step_consistent(st, lines[n - 1]);
            },
            Err(_) => {},
        }
    }
}

} // verus!
