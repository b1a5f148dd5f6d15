//! The resources that the HRDF files describe.
use vstd::prelude::*;

use crate::calendar::{parse_iso_date, Date, Time};
use crate::error::{HResult, HrdfError, PResult, ParsingError};
use crate::text::chars_of;
use vstd::string::StringExecFns;

verus! {

broadcast use vstd::string::group_string_axioms;

// ------------------------------------------------------------------------------------------
// Languages
// ------------------------------------------------------------------------------------------

/// The four languages that HRDF texts are given in.
#[derive(Debug, Clone, Copy, PartialEq, Eq, Hash, Structural)]
pub enum Language {
    German,
    English,
    French,
    Italian,
}

/// The language that a name of the files stands for: `deu`/`DE`, `eng`/`EN`,
/// `fra`/`FR`, `ita`/`IT`.
pub open spec fn language_named(s: Seq<char>) -> Option<Language> {
    if s == seq!['d', 'e', 'u'] || s == seq!['D', 'E'] {
        Some(Language::German)
    } else if s == seq!['e', 'n', 'g'] || s == seq!['E', 'N'] {
        Some(Language::English)
    } else if s == seq!['f', 'r', 'a'] || s == seq!['F', 'R'] {
        Some(Language::French)
    } else if s == seq!['i', 't', 'a'] || s == seq!['I', 'T'] {
        Some(Language::Italian)
    } else {
        None
    }
}

fn chars_are(s: &[char], t: &[char]) -> (r: bool)
    ensures
        r == (s@ == t@),
{
    if s.len() != t.len() {
        return false;
    }
    let mut i: usize = 0;
    while i < s.len()
        invariant
            s@.len() == t@.len(),
            0 <= i <= s@.len(),
            forall|j: int| 0 <= j < i ==> s@[j] == t@[j],
        decreases s@.len() - i,
    {
        if s[i] != t[i] {
            return false;
        }
        i = i + 1;
    }
    assert(s@ =~= t@);
    true
}

/// Whether `s` is the text `t`.
pub fn text_is(s: &str, t: &str) -> (r: bool)
    ensures
        r == (s@ == t@),
{
    let a = chars_of(s);
    let b = chars_of(t);
    chars_are(a.as_slice(), b.as_slice())
}

impl Language {
    pub fn default() -> (r: Language)
        ensures
            r == Language::German,
    {
        Language::German
    }

    /// The language that `s` names.
    pub fn from_str(s: &str) -> (r: PResult<Language>)
        ensures
            match r {
                Ok(l) => language_named(s@) == Some(l),
                Err(e) => language_named(s@).is_none() && (e matches ParsingError::UnknownLanguage(t)
                    && t@ == s@),
            },
    {
        proof {
            reveal_strlit("deu");
            reveal_strlit("DE");
            reveal_strlit("eng");
            reveal_strlit("EN");
            reveal_strlit("fra");
            reveal_strlit("FR");
            reveal_strlit("ita");
            reveal_strlit("IT");
            assert("deu"@ =~= seq!['d', 'e', 'u']);
            assert("DE"@ =~= seq!['D', 'E']);
            assert("eng"@ =~= seq!['e', 'n', 'g']);
            assert("EN"@ =~= seq!['E', 'N']);
            assert("fra"@ =~= seq!['f', 'r', 'a']);
            assert("FR"@ =~= seq!['F', 'R']);
            assert("ita"@ =~= seq!['i', 't', 'a']);
            assert("IT"@ =~= seq!['I', 'T']);
        }
        if text_is(s, "deu") || text_is(s, "DE") {
            Ok(Language::German)
        } else if text_is(s, "eng") || text_is(s, "EN") {
            Ok(Language::English)
        } else if text_is(s, "fra") || text_is(s, "FR") {
            Ok(Language::French)
        } else if text_is(s, "ita") || text_is(s, "IT") {
            Ok(Language::Italian)
        } else {
            Err(ParsingError::UnknownLanguage(String::from_str(s)))
        }
    }
}

/// A text in each of the languages that it is given in.
#[derive(Debug, Clone)]
pub struct Translations {
    pub german: Option<String>,
    pub english: Option<String>,
    pub french: Option<String>,
    pub italian: Option<String>,
}

pub struct TranslationsView {
    pub german: Option<Seq<char>>,
    pub english: Option<Seq<char>>,
    pub french: Option<Seq<char>>,
    pub italian: Option<Seq<char>>,
}

impl TranslationsView {
    pub open spec fn empty() -> TranslationsView {
        TranslationsView { german: None, english: None, french: None, italian: None }
    }

    /// The texts with the one in `l` set to `t`.
    pub open spec fn set(self, l: Language, t: Seq<char>) -> TranslationsView {
        match l {
            Language::German => TranslationsView { german: Some(t), ..self },
            Language::English => TranslationsView { english: Some(t), ..self },
            Language::French => TranslationsView { french: Some(t), ..self },
            Language::Italian => TranslationsView { italian: Some(t), ..self },
        }
    }

    pub open spec fn get(self, l: Language) -> Option<Seq<char>> {
        match l {
            Language::German => self.german,
            Language::English => self.english,
            Language::French => self.french,
            Language::Italian => self.italian,
        }
    }
}

impl DeepView for Translations {
    type V = TranslationsView;

    open spec fn deep_view(&self) -> TranslationsView {
        TranslationsView {
            german: self.german.deep_view(),
            english: self.english.deep_view(),
            french: self.french.deep_view(),
            italian: self.italian.deep_view(),
        }
    }
}

impl Translations {
    pub fn new() -> (r: Translations)
        ensures
            r.deep_view() == TranslationsView::empty(),
    {
        Translations { german: None, english: None, french: None, italian: None }
    }

    /// Sets the text in `language`.
    pub fn set(&mut self, language: Language, text: &str)
        ensures
            final(self).deep_view() == old(self).deep_view().set(language, text@),
    {
        let t = String::from_str(text);
        match language {
            Language::German => self.german = Some(t),
            Language::English => self.english = Some(t),
            Language::French => self.french = Some(t),
            Language::Italian => self.italian = Some(t),
        }
    }

    /// The text in `language`, if any.
    pub fn get(&self, language: Language) -> (r: Option<&String>)
        ensures
            r.deep_view() == self.deep_view().get(language),
    {
        match language {
            Language::German => self.german.as_ref(),
            Language::English => self.english.as_ref(),
            Language::French => self.french.as_ref(),
            Language::Italian => self.italian.as_ref(),
        }
    }
}

// ------------------------------------------------------------------------------------------
// Bit fields
// ------------------------------------------------------------------------------------------

/// The days on which something runs: one bit per day of the timetable.
#[derive(Debug, Clone)]
pub struct BitField {
    pub id: i32,
    pub bits: Vec<u8>,
}

impl BitField {
    pub fn new(id: i32, bits: Vec<u8>) -> (r: BitField)
        ensures
            r.id == id,
            r.bits@ == bits@,
    {
        BitField { id, bits }
    }

    pub fn id(&self) -> (r: i32)
        ensures
            r == self.id,
    {
        self.id
    }

    pub fn bits(&self) -> (r: &Vec<u8>)
        ensures
            r@ == self.bits@,
    {
        &self.bits
    }
}

// ------------------------------------------------------------------------------------------
// Timetable metadata
// ------------------------------------------------------------------------------------------

/// One value of the timetable metadata (ECKDATEN), under its key.
#[derive(Debug, Clone)]
pub struct TimetableMetadataEntry {
    pub id: i32,
    pub key: String,
    pub value: String,
}

pub struct TimetableMetadataEntryView {
    pub id: i32,
    pub key: Seq<char>,
    pub value: Seq<char>,
}

impl DeepView for TimetableMetadataEntry {
    type V = TimetableMetadataEntryView;

    open spec fn deep_view(&self) -> TimetableMetadataEntryView {
        TimetableMetadataEntryView { id: self.id, key: self.key@, value: self.value@ }
    }
}

impl TimetableMetadataEntry {
    pub fn new(id: i32, key: String, value: String) -> (r: TimetableMetadataEntry)
        ensures
            r.id == id,
            r.key@ == key@,
            r.value@ == value@,
    {
        TimetableMetadataEntry { id, key, value }
    }

    pub fn id(&self) -> (r: i32)
        ensures
            r == self.id,
    {
        self.id
    }

    pub fn key(&self) -> (r: &str)
        ensures
            r@ == self.key@,
    {
        self.key.as_str()
    }

    pub fn value(&self) -> (r: &str)
        ensures
            r@ == self.value@,
    {
        self.value.as_str()
    }

    /// The value read as a date written `YYYY-MM-DD`.
    pub fn value_as_naive_date(&self) -> (r: HResult<Date>)
        ensures
            match r {
                Ok(d) => read_iso_date_spec(self.value@) == Some(d),
                Err(e) => read_iso_date_spec(self.value@).is_none() && (e matches HrdfError::Parsing {
                    error: ParsingError::Unknown(_),
                    ..
                }),
            },
    {
        match parse_iso_date(self.value.as_str()) {
            Some(d) => Ok(d),
            None => Err(
                HrdfError::Parsing {
                    error: ParsingError::Unknown(String::from_str("Not a date")),
                    file: String::new(),
                    line: self.value.clone(),
                    line_number: 0,
                },
            ),
        }
    }
}

/// The date that `chrono` reads from a text written `YYYY-MM-DD`.
pub open spec fn read_iso_date_spec(text: Seq<char>) -> Option<Date> {
    match crate::calendar::iso_date_parsed(text) {
        Some((y, m, d)) => Some(Date { year: y, month: m, day: d }),
        None => None,
    }
}


// ------------------------------------------------------------------------------------------
// Journeys
// ------------------------------------------------------------------------------------------

/// What a metadata entry of a journey says.
#[derive(Debug, Clone, Copy, PartialEq, Eq, Hash, Structural)]
pub enum JourneyMetadataType {
    Attribute,
    BitField,
    Direction,
    InformationText,
    Line,
    ExchangeTimeBoarding,
    ExchangeTimeDisembarking,
    TransportType,
}

/// A piece of information about a journey, valid between two stops.
#[derive(Debug, Clone)]
pub struct JourneyMetadataEntry {
    pub from_stop_id: Option<i32>,
    pub until_stop_id: Option<i32>,
    pub resource_id: Option<i32>,
    pub bit_field_id: Option<i32>,
    pub departure_time: Option<Time>,
    pub arrival_time: Option<Time>,
    pub extra_field_1: Option<String>,
    pub extra_field_2: Option<i32>,
}

pub struct JourneyMetadataEntryView {
    pub from_stop_id: Option<i32>,
    pub until_stop_id: Option<i32>,
    pub resource_id: Option<i32>,
    pub bit_field_id: Option<i32>,
    pub departure_time: Option<Time>,
    pub arrival_time: Option<Time>,
    pub extra_field_1: Option<Seq<char>>,
    pub extra_field_2: Option<i32>,
}

impl DeepView for JourneyMetadataEntry {
    type V = JourneyMetadataEntryView;

    open spec fn deep_view(&self) -> JourneyMetadataEntryView {
        JourneyMetadataEntryView {
            from_stop_id: self.from_stop_id,
            until_stop_id: self.until_stop_id,
            resource_id: self.resource_id,
            bit_field_id: self.bit_field_id,
            departure_time: self.departure_time,
            arrival_time: self.arrival_time,
            extra_field_1: match self.extra_field_1 {
                Some(t) => Some(t@),
                None => None,
            },
            extra_field_2: self.extra_field_2,
        }
    }
}

impl JourneyMetadataEntry {
    pub fn new(
        from_stop_id: Option<i32>,
        until_stop_id: Option<i32>,
        resource_id: Option<i32>,
        bit_field_id: Option<i32>,
        departure_time: Option<Time>,
        arrival_time: Option<Time>,
        extra_field_1: Option<String>,
        extra_field_2: Option<i32>,
    ) -> (r: JourneyMetadataEntry)
        ensures
            r.from_stop_id == from_stop_id,
            r.until_stop_id == until_stop_id,
            r.resource_id == resource_id,
            r.bit_field_id == bit_field_id,
            r.departure_time == departure_time,
            r.arrival_time == arrival_time,
            r.extra_field_1 == extra_field_1,
            r.extra_field_2 == extra_field_2,
    {
        JourneyMetadataEntry {
            from_stop_id,
            until_stop_id,
            resource_id,
            bit_field_id,
            departure_time,
            arrival_time,
            extra_field_1,
            extra_field_2,
        }
    }
}

/// A stop of a journey, with the times of arrival and departure.
#[derive(Debug, Clone, Copy, PartialEq, Eq, Structural)]
pub struct JourneyRouteEntry {
    pub stop_id: i32,
    pub arrival_time: Option<Time>,
    pub departure_time: Option<Time>,
}

impl JourneyRouteEntry {
    pub fn new(stop_id: i32, arrival_time: Option<Time>, departure_time: Option<Time>) -> (r:
        JourneyRouteEntry)
        ensures
            r == (JourneyRouteEntry { stop_id, arrival_time, departure_time }),
    {
        JourneyRouteEntry { stop_id, arrival_time, departure_time }
    }
}

/// A journey (FPLAN): its ids, its metadata entries in the order of the file,
/// and its stops in order.
#[derive(Debug, Clone)]
pub struct Journey {
    pub id: i32,
    pub legacy_id: i32,
    pub administration: String,
    pub metadata: Vec<(JourneyMetadataType, JourneyMetadataEntry)>,
    pub route: Vec<JourneyRouteEntry>,
}

pub struct JourneyView {
    pub id: i32,
    pub legacy_id: i32,
    pub administration: Seq<char>,
    pub metadata: Seq<(JourneyMetadataType, JourneyMetadataEntryView)>,
    pub route: Seq<JourneyRouteEntry>,
}

pub open spec fn metadata_view(m: Seq<(JourneyMetadataType, JourneyMetadataEntry)>) -> Seq<
    (JourneyMetadataType, JourneyMetadataEntryView),
> {
    Seq::new(m.len(), |i: int| (m[i].0, m[i].1.deep_view()))
}

impl DeepView for Journey {
    type V = JourneyView;

    open spec fn deep_view(&self) -> JourneyView {
        JourneyView {
            id: self.id,
            legacy_id: self.legacy_id,
            administration: self.administration@,
            metadata: metadata_view(self.metadata@),
            route: self.route@,
        }
    }
}

impl JourneyView {
    /// A journey with no metadata and no stops.
    pub open spec fn fresh(id: i32, legacy_id: i32, administration: Seq<char>) -> JourneyView {
        JourneyView { id, legacy_id, administration, metadata: Seq::empty(), route: Seq::empty() }
    }

    pub open spec fn with_metadata(self, t: JourneyMetadataType, e: JourneyMetadataEntryView) -> JourneyView {
        JourneyView { metadata: self.metadata.push((t, e)), ..self }
    }

    pub open spec fn with_stop(self, e: JourneyRouteEntry) -> JourneyView {
        JourneyView { route: self.route.push(e), ..self }
    }
}

impl Journey {
    pub fn new(id: i32, legacy_id: i32, administration: String) -> (r: Journey)
        ensures
            r.deep_view() == JourneyView::fresh(id, legacy_id, administration@),
    {
        let r = Journey { id, legacy_id, administration, metadata: Vec::new(), route: Vec::new() };
        assert(metadata_view(r.metadata@) =~= Seq::empty());
        r
    }

    pub fn id(&self) -> (r: i32)
        ensures
            r == self.id,
    {
        self.id
    }

    pub fn legacy_id(&self) -> (r: i32)
        ensures
            r == self.legacy_id,
    {
        self.legacy_id
    }

    pub fn administration(&self) -> (r: &str)
        ensures
            r@ == self.administration@,
    {
        self.administration.as_str()
    }

    pub fn route(&self) -> (r: &Vec<JourneyRouteEntry>)
        ensures
            r@ == self.route@,
    {
        &self.route
    }

    pub fn metadata(&self) -> (r: &Vec<(JourneyMetadataType, JourneyMetadataEntry)>)
        ensures
            r@ == self.metadata@,
    {
        &self.metadata
    }

    /// Adds a metadata entry of type `t`, after the others.
    pub fn add_metadata_entry(&mut self, t: JourneyMetadataType, entry: JourneyMetadataEntry)
        ensures
            final(self).deep_view() == old(self).deep_view().with_metadata(t, entry.deep_view()),
    {
        let ghost e = entry.deep_view();
        self.metadata.push((t, entry));
        assert(metadata_view(self.metadata@) =~= metadata_view(old(self).metadata@).push((t, e)));
    }

    /// Adds a stop at the end of the route.
    pub fn add_route_entry(&mut self, entry: JourneyRouteEntry)
        ensures
            final(self).deep_view() == old(self).deep_view().with_stop(entry),
    {
        self.route.push(entry);
    }
}


/// The key of a journey in the files: its number and its company.
pub type JourneyId = (i32, String);

// ------------------------------------------------------------------------------------------
// Exchange times
// ------------------------------------------------------------------------------------------

/// The least time to change between two administrations, at a stop or everywhere.
#[derive(Debug, Clone)]
pub struct ExchangeTimeAdministration {
    pub id: i32,
    pub stop_id: Option<i32>,
    pub administration_1: String,
    pub administration_2: String,
    pub duration: i16,
}

pub struct ExchangeTimeAdministrationView {
    pub id: i32,
    pub stop_id: Option<i32>,
    pub administration_1: Seq<char>,
    pub administration_2: Seq<char>,
    pub duration: i16,
}

impl DeepView for ExchangeTimeAdministration {
    type V = ExchangeTimeAdministrationView;

    open spec fn deep_view(&self) -> ExchangeTimeAdministrationView {
        ExchangeTimeAdministrationView {
            id: self.id,
            stop_id: self.stop_id,
            administration_1: self.administration_1@,
            administration_2: self.administration_2@,
            duration: self.duration,
        }
    }
}

/// The least time to change between two journeys at a stop.
#[derive(Debug, Clone)]
pub struct ExchangeTimeJourney {
    pub id: i32,
    pub stop_id: i32,
    pub journey_legacy_id_1: i32,
    pub administration_1: String,
    pub journey_legacy_id_2: i32,
    pub administration_2: String,
    pub duration: i16,
    pub is_guaranteed: bool,
    pub bit_field_id: Option<i32>,
}

pub struct ExchangeTimeJourneyView {
    pub id: i32,
    pub stop_id: i32,
    pub journey_legacy_id_1: i32,
    pub administration_1: Seq<char>,
    pub journey_legacy_id_2: i32,
    pub administration_2: Seq<char>,
    pub duration: i16,
    pub is_guaranteed: bool,
    pub bit_field_id: Option<i32>,
}

impl DeepView for ExchangeTimeJourney {
    type V = ExchangeTimeJourneyView;

    open spec fn deep_view(&self) -> ExchangeTimeJourneyView {
        ExchangeTimeJourneyView {
            id: self.id,
            stop_id: self.stop_id,
            journey_legacy_id_1: self.journey_legacy_id_1,
            administration_1: self.administration_1@,
            journey_legacy_id_2: self.journey_legacy_id_2,
            administration_2: self.administration_2@,
            duration: self.duration,
            is_guaranteed: self.is_guaranteed,
            bit_field_id: self.bit_field_id,
        }
    }
}

/// The direction of a line.
#[derive(Debug, Clone, Copy, PartialEq, Eq, Hash, Structural)]
pub enum DirectionType {
    Outbound,
    Return,
}

/// The direction that a code of the files stands for: `H` the return
/// direction, `R` the outbound one.
pub open spec fn direction_named(s: Seq<char>) -> Option<DirectionType> {
    if s == seq!['H'] {
        Some(DirectionType::Return)
    } else if s == seq!['R'] {
        Some(DirectionType::Outbound)
    } else {
        None
    }
}

impl DirectionType {
    /// The direction that `s` names.
    pub fn from_str(s: &str) -> (r: PResult<DirectionType>)
        ensures
            match r {
                Ok(d) => direction_named(s@) == Some(d),
                Err(e) => direction_named(s@).is_none() && (e matches ParsingError::UnknownDirection(t)
                    && t@ == s@),
            },
    {
        proof {
            reveal_strlit("H");
            reveal_strlit("R");
            assert("H"@ =~= seq!['H']);
            assert("R"@ =~= seq!['R']);
        }
        if text_is(s, "H") {
            Ok(DirectionType::Return)
        } else if text_is(s, "R") {
            Ok(DirectionType::Outbound)
        } else {
            Err(ParsingError::UnknownDirection(String::from_str(s)))
        }
    }
}

/// A line, as exchange times name it: administration, transport type, and
/// optionally the line and its direction.
#[derive(Debug, Clone)]
pub struct LineInfo {
    pub administration: String,
    pub transport_type_id: i32,
    pub line_id: Option<String>,
    pub direction: Option<DirectionType>,
}

pub struct LineInfoView {
    pub administration: Seq<char>,
    pub transport_type_id: i32,
    pub line_id: Option<Seq<char>>,
    pub direction: Option<DirectionType>,
}

impl DeepView for LineInfo {
    type V = LineInfoView;

    open spec fn deep_view(&self) -> LineInfoView {
        LineInfoView {
            administration: self.administration@,
            transport_type_id: self.transport_type_id,
            line_id: match self.line_id {
                Some(t) => Some(t@),
                None => None,
            },
            direction: self.direction,
        }
    }
}

/// The least time to change between two lines at a stop.
#[derive(Debug, Clone)]
pub struct ExchangeTimeLine {
    pub id: i32,
    pub stop_id: Option<i32>,
    pub line_1: LineInfo,
    pub line_2: LineInfo,
    pub duration: i16,
    pub is_guaranteed: bool,
}

pub struct ExchangeTimeLineView {
    pub id: i32,
    pub stop_id: Option<i32>,
    pub line_1: LineInfoView,
    pub line_2: LineInfoView,
    pub duration: i16,
    pub is_guaranteed: bool,
}

impl DeepView for ExchangeTimeLine {
    type V = ExchangeTimeLineView;

    open spec fn deep_view(&self) -> ExchangeTimeLineView {
        ExchangeTimeLineView {
            id: self.id,
            stop_id: self.stop_id,
            line_1: self.line_1.deep_view(),
            line_2: self.line_2.deep_view(),
            duration: self.duration,
            is_guaranteed: self.is_guaranteed,
        }
    }
}

// ------------------------------------------------------------------------------------------
// Through services
// ------------------------------------------------------------------------------------------

/// Two journeys that one can stay seated through: the first ends where the second starts.
#[derive(Debug)]
pub struct ThroughService {
    pub id: i32,
    pub journey_1_id: JourneyId,
    pub journey_1_stop_id: i32,
    pub journey_2_id: JourneyId,
    pub journey_2_stop_id: i32,
    pub bit_field_id: i32,
}

pub struct ThroughServiceView {
    pub id: i32,
    pub journey_1_id: (i32, Seq<char>),
    pub journey_1_stop_id: i32,
    pub journey_2_id: (i32, Seq<char>),
    pub journey_2_stop_id: i32,
    pub bit_field_id: i32,
}

impl DeepView for ThroughService {
    type V = ThroughServiceView;

    open spec fn deep_view(&self) -> ThroughServiceView {
        ThroughServiceView {
            id: self.id,
            journey_1_id: (self.journey_1_id.0, self.journey_1_id.1@),
            journey_1_stop_id: self.journey_1_stop_id,
            journey_2_id: (self.journey_2_id.0, self.journey_2_id.1@),
            journey_2_stop_id: self.journey_2_stop_id,
            bit_field_id: self.bit_field_id,
        }
    }
}

impl ThroughService {
    pub fn id(&self) -> (r: i32)
        ensures
            r == self.id,
    {
        self.id
    }

    pub fn journey_1_stop_id(&self) -> (r: i32)
        ensures
            r == self.journey_1_stop_id,
    {
        self.journey_1_stop_id
    }

    pub fn journey_2_stop_id(&self) -> (r: i32)
        ensures
            r == self.journey_2_stop_id,
    {
        self.journey_2_stop_id
    }
}


// ------------------------------------------------------------------------------------------
// Directions, information texts, holidays
// ------------------------------------------------------------------------------------------

/// A direction text.
#[derive(Debug, Clone)]
pub struct Direction {
    pub id: i32,
    pub name: String,
}

pub struct DirectionView {
    pub id: i32,
    pub name: Seq<char>,
}

impl DeepView for Direction {
    type V = DirectionView;

    open spec fn deep_view(&self) -> DirectionView {
        DirectionView { id: self.id, name: self.name@ }
    }
}

impl Direction {
    pub fn new(id: i32, name: String) -> (r: Direction)
        ensures
            r.id == id,
            r.name@ == name@,
    {
        Direction { id, name }
    }
}

/// An information text, in the languages it is given in.
#[derive(Debug, Clone)]
pub struct InformationText {
    pub id: i32,
    pub content: Translations,
}

pub struct InformationTextView {
    pub id: i32,
    pub content: TranslationsView,
}

impl DeepView for InformationText {
    type V = InformationTextView;

    open spec fn deep_view(&self) -> InformationTextView {
        InformationTextView { id: self.id, content: self.content.deep_view() }
    }
}

impl InformationText {
    pub fn new(id: i32) -> (r: InformationText)
        ensures
            r.deep_view() == (InformationTextView { id, content: TranslationsView::empty() }),
    {
        InformationText { id, content: Translations::new() }
    }

    /// Sets the text in `language`.
    pub fn set_content(&mut self, language: Language, text: &str)
        ensures
            final(self).deep_view() == (InformationTextView {
                id: old(self).id,
                content: old(self).deep_view().content.set(language, text@),
            }),
    {
        self.content.set(language, text);
    }
}

/// A holiday: its date and its name in several languages.
#[derive(Debug, Clone)]
pub struct Holiday {
    pub id: i32,
    pub date: Date,
    pub name: Translations,
}

pub struct HolidayView {
    pub id: i32,
    pub date: Date,
    pub name: TranslationsView,
}

impl DeepView for Holiday {
    type V = HolidayView;

    open spec fn deep_view(&self) -> HolidayView {
        HolidayView { id: self.id, date: self.date, name: self.name.deep_view() }
    }
}


// ------------------------------------------------------------------------------------------
// Lines
// ------------------------------------------------------------------------------------------

/// A colour, as red, green and blue.
#[derive(Debug, Clone, Copy, PartialEq, Eq, Structural)]
pub struct Color {
    pub r: i16,
    pub g: i16,
    pub b: i16,
}

impl Color {
    pub fn new(r: i16, g: i16, b: i16) -> (c: Color)
        ensures
            c == (Color { r, g, b }),
    {
        Color { r, g, b }
    }
}

/// A line (LINIE): its key and what the other rows of the file add.
#[derive(Debug, Clone)]
pub struct Line {
    pub id: i32,
    pub name: String,
    pub short_name: Option<String>,
    pub long_name: Option<String>,
    pub internal_designation: Option<String>,
    pub text_color: Option<Color>,
    pub background_color: Option<Color>,
}

pub struct LineView {
    pub id: i32,
    pub name: Seq<char>,
    pub short_name: Option<Seq<char>>,
    pub long_name: Option<Seq<char>>,
    pub internal_designation: Option<Seq<char>>,
    pub text_color: Option<Color>,
    pub background_color: Option<Color>,
}

pub open spec fn opt_text(t: Option<String>) -> Option<Seq<char>> {
    match t {
        Some(s) => Some(s@),
        None => None,
    }
}

impl DeepView for Line {
    type V = LineView;

    open spec fn deep_view(&self) -> LineView {
        LineView {
            id: self.id,
            name: self.name@,
            short_name: opt_text(self.short_name),
            long_name: opt_text(self.long_name),
            internal_designation: opt_text(self.internal_designation),
            text_color: self.text_color,
            background_color: self.background_color,
        }
    }
}

impl LineView {
    pub open spec fn fresh(id: i32, name: Seq<char>) -> LineView {
        LineView {
            id,
            name,
            short_name: None,
            long_name: None,
            internal_designation: None,
            text_color: None,
            background_color: None,
        }
    }
}

impl Line {
    pub fn new(id: i32, name: String) -> (r: Line)
        ensures
            r.deep_view() == LineView::fresh(id, name@),
    {
        Line {
            id,
            name,
            short_name: None,
            long_name: None,
            internal_designation: None,
            text_color: None,
            background_color: None,
        }
    }

    pub fn id(&self) -> (r: i32)
        ensures
            r == self.id,
    {
        self.id
    }
}


// ------------------------------------------------------------------------------------------
// Transport companies
// ------------------------------------------------------------------------------------------

/// A transport company (BETRIEB): its names in several languages and the
/// administrations it runs as.
#[derive(Debug, Clone)]
pub struct TransportCompany {
    pub id: i32,
    pub short_name: Translations,
    pub long_name: Translations,
    pub full_name: Translations,
    pub administrations: Vec<String>,
}

pub struct TransportCompanyView {
    pub id: i32,
    pub short_name: TranslationsView,
    pub long_name: TranslationsView,
    pub full_name: TranslationsView,
    pub administrations: Seq<Seq<char>>,
}

impl DeepView for TransportCompany {
    type V = TransportCompanyView;

    open spec fn deep_view(&self) -> TransportCompanyView {
        TransportCompanyView {
            id: self.id,
            short_name: self.short_name.deep_view(),
            long_name: self.long_name.deep_view(),
            full_name: self.full_name.deep_view(),
            administrations: self.administrations@.map_values(|a: String| a@),
        }
    }
}

impl TransportCompanyView {
    pub open spec fn fresh(id: i32) -> TransportCompanyView {
        TransportCompanyView {
            id,
            short_name: TranslationsView::empty(),
            long_name: TranslationsView::empty(),
            full_name: TranslationsView::empty(),
            administrations: Seq::empty(),
        }
    }
}

impl TransportCompany {
    pub fn new(id: i32) -> (r: TransportCompany)
        ensures
            r.deep_view() == TransportCompanyView::fresh(id),
    {
        let r = TransportCompany {
            id,
            short_name: Translations::new(),
            long_name: Translations::new(),
            full_name: Translations::new(),
            administrations: Vec::new(),
        };
        assert(r.deep_view().administrations =~= Seq::empty());
        r
    }
}


// ------------------------------------------------------------------------------------------
// Attributes
// ------------------------------------------------------------------------------------------

/// An attribute (ATTRIBUT) of journeys: its code, where it applies, how it
/// sorts, and its description in several languages.
#[derive(Debug, Clone)]
pub struct Attribute {
    pub id: i32,
    pub designation: String,
    pub stop_scope: i16,
    pub main_sorting_priority: i16,
    pub secondary_sorting_priority: i16,
    pub description: Translations,
}

pub struct AttributeView {
    pub id: i32,
    pub designation: Seq<char>,
    pub stop_scope: i16,
    pub main_sorting_priority: i16,
    pub secondary_sorting_priority: i16,
    pub description: TranslationsView,
}

impl DeepView for Attribute {
    type V = AttributeView;

    open spec fn deep_view(&self) -> AttributeView {
        AttributeView {
            id: self.id,
            designation: self.designation@,
            stop_scope: self.stop_scope,
            main_sorting_priority: self.main_sorting_priority,
            secondary_sorting_priority: self.secondary_sorting_priority,
            description: self.description.deep_view(),
        }
    }
}


// ------------------------------------------------------------------------------------------
// Transport types
// ------------------------------------------------------------------------------------------

/// A transport type, or offer category (ZUGART).
#[derive(Debug, Clone)]
pub struct TransportType {
    pub id: i32,
    pub designation: String,
    pub product_class_id: i16,
    pub tariff_group: String,
    pub output_control: i16,
    pub short_name: String,
    pub surcharge: i16,
    pub flag: String,
    pub product_class_name: Translations,
    pub category_name: Translations,
}

pub struct TransportTypeView {
    pub id: i32,
    pub designation: Seq<char>,
    pub product_class_id: i16,
    pub tariff_group: Seq<char>,
    pub output_control: i16,
    pub short_name: Seq<char>,
    pub surcharge: i16,
    pub flag: Seq<char>,
    pub product_class_name: TranslationsView,
    pub category_name: TranslationsView,
}

impl DeepView for TransportType {
    type V = TransportTypeView;

    open spec fn deep_view(&self) -> TransportTypeView {
        TransportTypeView {
            id: self.id,
            designation: self.designation@,
            product_class_id: self.product_class_id,
            tariff_group: self.tariff_group@,
            output_control: self.output_control,
            short_name: self.short_name@,
            surcharge: self.surcharge,
            flag: self.flag@,
            product_class_name: self.product_class_name.deep_view(),
            category_name: self.category_name.deep_view(),
        }
    }
}


// ------------------------------------------------------------------------------------------
// Stop connections
// ------------------------------------------------------------------------------------------

/// A walk between two stops (METABHF): the minutes it takes, and an attribute.
#[derive(Debug, Clone, Copy, PartialEq, Eq, Structural)]
pub struct StopConnection {
    pub id: i32,
    pub stop_id_1: i32,
    pub stop_id_2: i32,
    pub duration: i16,
    pub attribute: Option<i32>,
}

// ------------------------------------------------------------------------------------------
// Stops
// ------------------------------------------------------------------------------------------

/// The two systems that coordinates are given in.
#[derive(Debug, Clone, Copy, PartialEq, Eq, Structural)]
pub enum CoordinateSystem {
    LV95,
    WGS84,
}

/// A point in one of the coordinate systems.  Its two coordinates are real
/// numbers, each held as the text that writes it in the file.
#[derive(Debug, Clone)]
pub struct Coordinates {
    pub coordinate_system: CoordinateSystem,
    pub x: String,
    pub y: String,
}

pub struct CoordinatesView {
    pub coordinate_system: CoordinateSystem,
    pub x: Seq<char>,
    pub y: Seq<char>,
}

impl DeepView for Coordinates {
    type V = CoordinatesView;

    open spec fn deep_view(&self) -> CoordinatesView {
        CoordinatesView { coordinate_system: self.coordinate_system, x: self.x@, y: self.y@ }
    }
}

pub open spec fn opt_coordinates(c: Option<Coordinates>) -> Option<CoordinatesView> {
    match c {
        Some(v) => Some(v.deep_view()),
        None => None,
    }
}

impl CoordinatesView {
    /// The point that a platform has until a coordinate row places it: zero
    /// and zero, in LV95.
    pub open spec fn origin() -> CoordinatesView {
        CoordinatesView { coordinate_system: CoordinateSystem::LV95, x: "0"@, y: "0"@ }
    }
}

impl Default for Coordinates {
    fn default() -> (r: Coordinates)
        ensures
            r.deep_view() == CoordinatesView::origin(),
    {
        let r = Coordinates {
            coordinate_system: CoordinateSystem::LV95,
            x: String::from_str("0"),
            y: String::from_str("0"),
        };
        proof {
            reveal_strlit("0");
        }
        r
    }
}

impl Coordinates {
    pub fn new(coordinate_system: CoordinateSystem, x: String, y: String) -> (r: Coordinates)
        ensures
            r.deep_view() == (CoordinatesView { coordinate_system, x: x@, y: y@ }),
    {
        Coordinates { coordinate_system, x, y }
    }
}

/// A stop (BAHNHOF) and what the other stop files add to it.
#[derive(Debug, Clone)]
pub struct Stop {
    pub id: i32,
    pub name: String,
    pub long_name: Option<String>,
    pub abbreviation: Option<String>,
    pub synonyms: Option<Vec<String>>,
    pub lv95_coordinates: Option<Coordinates>,
    pub wgs84_coordinates: Option<Coordinates>,
    pub exchange_priority: i16,
    pub exchange_flag: i16,
    /// Minutes to change between two InterCity services, and between any others.
    pub exchange_time: Option<(i16, i16)>,
    pub restrictions: i16,
    pub sloid: String,
    pub boarding_areas: Vec<String>,
}

pub struct StopView {
    pub id: i32,
    pub name: Seq<char>,
    pub long_name: Option<Seq<char>>,
    pub abbreviation: Option<Seq<char>>,
    pub synonyms: Option<Seq<Seq<char>>>,
    pub lv95_coordinates: Option<CoordinatesView>,
    pub wgs84_coordinates: Option<CoordinatesView>,
    pub exchange_priority: i16,
    pub exchange_flag: i16,
    pub exchange_time: Option<(i16, i16)>,
    pub restrictions: i16,
    pub sloid: Seq<char>,
    pub boarding_areas: Seq<Seq<char>>,
}

pub open spec fn opt_texts(t: Option<Vec<String>>) -> Option<Seq<Seq<char>>> {
    match t {
        Some(v) => Some(v.deep_view()),
        None => None,
    }
}

impl DeepView for Stop {
    type V = StopView;

    open spec fn deep_view(&self) -> StopView {
        StopView {
            id: self.id,
            name: self.name@,
            long_name: opt_text(self.long_name),
            abbreviation: opt_text(self.abbreviation),
            synonyms: opt_texts(self.synonyms),
            lv95_coordinates: opt_coordinates(self.lv95_coordinates),
            wgs84_coordinates: opt_coordinates(self.wgs84_coordinates),
            exchange_priority: self.exchange_priority,
            exchange_flag: self.exchange_flag,
            exchange_time: self.exchange_time,
            restrictions: self.restrictions,
            sloid: self.sloid@,
            boarding_areas: self.boarding_areas.deep_view(),
        }
    }
}

/// The priority of a stop that BFPRIOS does not name.
pub const DEFAULT_EXCHANGE_PRIORITY: i16 = 8;

impl StopView {
    /// A stop as BAHNHOF gives it, before the other files add to it.
    pub open spec fn fresh(
        id: i32,
        name: Seq<char>,
        long_name: Option<Seq<char>>,
        abbreviation: Option<Seq<char>>,
        synonyms: Option<Seq<Seq<char>>>,
    ) -> StopView {
        StopView {
            id,
            name,
            long_name,
            abbreviation,
            synonyms,
            lv95_coordinates: None,
            wgs84_coordinates: None,
            exchange_priority: DEFAULT_EXCHANGE_PRIORITY,
            exchange_flag: 0,
            exchange_time: None,
            restrictions: 0,
            sloid: Seq::empty(),
            boarding_areas: Seq::empty(),
        }
    }
}

impl Stop {
    pub fn new(
        id: i32,
        name: String,
        long_name: Option<String>,
        abbreviation: Option<String>,
        synonyms: Option<Vec<String>>,
    ) -> (r: Stop)
        ensures
            r.deep_view() == StopView::fresh(
                id,
                name@,
                opt_text(long_name),
                opt_text(abbreviation),
                opt_texts(synonyms),
            ),
    {
        let r = Stop {
            id,
            name,
            long_name,
            abbreviation,
            synonyms,
            lv95_coordinates: None,
            wgs84_coordinates: None,
            exchange_priority: DEFAULT_EXCHANGE_PRIORITY,
            exchange_flag: 0,
            exchange_time: None,
            restrictions: 0,
            sloid: String::new(),
            boarding_areas: Vec::new(),
        };
        assert(r.boarding_areas.deep_view() =~= Seq::<Seq<char>>::empty());
        r
    }

    pub fn id(&self) -> (r: i32)
        ensures
            r == self.id,
    {
        self.id
    }

    pub fn add_boarding_area(&mut self, sloid: String)
        ensures
            final(self).deep_view() == (StopView {
                boarding_areas: old(self).deep_view().boarding_areas.push(sloid@),
                ..old(self).deep_view()
            }),
    {
        let ghost before = self.boarding_areas.deep_view();
        self.boarding_areas.push(sloid);
        assert(self.boarding_areas.deep_view() =~= before.push(sloid@));
    }
}

// ------------------------------------------------------------------------------------------
// Platforms
// ------------------------------------------------------------------------------------------

/// A platform of a stop (GLEIS): its name, its sectors and where it is.
#[derive(Debug, Clone)]
pub struct Platform {
    pub id: i32,
    pub name: String,
    pub sectors: Option<String>,
    pub stop_id: i32,
    pub sloid: String,
    pub lv95_coordinates: Coordinates,
    pub wgs84_coordinates: Coordinates,
}

pub struct PlatformView {
    pub id: i32,
    pub name: Seq<char>,
    pub sectors: Option<Seq<char>>,
    pub stop_id: i32,
    pub sloid: Seq<char>,
    pub lv95_coordinates: CoordinatesView,
    pub wgs84_coordinates: CoordinatesView,
}

impl DeepView for Platform {
    type V = PlatformView;

    open spec fn deep_view(&self) -> PlatformView {
        PlatformView {
            id: self.id,
            name: self.name@,
            sectors: opt_text(self.sectors),
            stop_id: self.stop_id,
            sloid: self.sloid@,
            lv95_coordinates: self.lv95_coordinates.deep_view(),
            wgs84_coordinates: self.wgs84_coordinates.deep_view(),
        }
    }
}

impl PlatformView {
    pub open spec fn fresh(id: i32, name: Seq<char>, sectors: Option<Seq<char>>, stop_id: i32) -> PlatformView {
        PlatformView {
            id,
            name,
            sectors,
            stop_id,
            sloid: Seq::empty(),
            lv95_coordinates: CoordinatesView::origin(),
            wgs84_coordinates: CoordinatesView::origin(),
        }
    }
}

impl Platform {
    pub fn new(id: i32, name: String, sectors: Option<String>, stop_id: i32) -> (r: Platform)
        ensures
            r.deep_view() == PlatformView::fresh(id, name@, opt_text(sectors), stop_id),
    {
        Platform {
            id,
            name,
            sectors,
            stop_id,
            sloid: String::new(),
            lv95_coordinates: Coordinates::default(),
            wgs84_coordinates: Coordinates::default(),
        }
    }

    pub fn id(&self) -> (r: i32)
        ensures
            r == self.id,
    {
        self.id
    }
}

/// The platform that a journey (number, administration) uses at a stop, on
/// the days of a bit field, from a time on.
#[derive(Debug, Clone)]
pub struct JourneyPlatform {
    pub journey_legacy_id: i32,
    pub administration: String,
    pub platform_id: i32,
    pub time: Option<Time>,
    pub bit_field_id: Option<i32>,
}

pub struct JourneyPlatformView {
    pub journey_legacy_id: i32,
    pub administration: Seq<char>,
    pub platform_id: i32,
    pub time: Option<Time>,
    pub bit_field_id: Option<i32>,
}

impl DeepView for JourneyPlatform {
    type V = JourneyPlatformView;

    open spec fn deep_view(&self) -> JourneyPlatformView {
        JourneyPlatformView {
            journey_legacy_id: self.journey_legacy_id,
            administration: self.administration@,
            platform_id: self.platform_id,
            time: self.time,
            bit_field_id: self.bit_field_id,
        }
    }
}

impl JourneyPlatform {
    pub fn new(
        journey_legacy_id: i32,
        administration: String,
        platform_id: i32,
        time: Option<Time>,
        bit_field_id: Option<i32>,
    ) -> (r: JourneyPlatform)
        ensures
            r.deep_view() == (JourneyPlatformView {
                journey_legacy_id,
                administration: administration@,
                platform_id,
                time,
                bit_field_id,
            }),
    {
        JourneyPlatform { journey_legacy_id, administration, platform_id, time, bit_field_id }
    }

    /// The key of a journey platform: the journey's number and the platform.
    pub fn id(&self) -> (r: (i32, i32))
        ensures
            r == (self.journey_legacy_id, self.platform_id),
    {
        (self.journey_legacy_id, self.platform_id)
    }
}

// ------------------------------------------------------------------------------------------
// Versions of the format
// ------------------------------------------------------------------------------------------

/// The versions of the HRDF format that can be read.
#[allow(non_camel_case_types)]
#[derive(Debug, Clone, Copy, PartialEq, Eq, Structural)]
pub enum Version {
    V_5_40_41_2_0_4,
    V_5_40_41_2_0_5,
    V_5_40_41_2_0_6,
    V_5_40_41_2_0_7,
}

impl Version {
    /// The first part of the names of the platform files.
    pub fn platforms_prefix(&self) -> (r: &'static str)
        ensures
            r@ == (if *self == Version::V_5_40_41_2_0_7 { "GLEISE"@ } else { "GLEIS"@ }),
    {
        match self {
            Version::V_5_40_41_2_0_7 => "GLEISE",
            _ => "GLEIS",
        }
    }

    /// The name of the file of stop descriptions.
    pub fn stop_descriptions_file(&self) -> (r: &'static str)
        ensures
            r@ == (if *self == Version::V_5_40_41_2_0_7 { "BHFART"@ } else { "BHFART_60"@ }),
    {
        match self {
            Version::V_5_40_41_2_0_7 => "BHFART",
            _ => "BHFART_60",
        }
    }
}

} // verus!
