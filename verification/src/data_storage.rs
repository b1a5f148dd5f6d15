//! All the resources of an HRDF archive, read file after file: the files that
//! others refer to first (attributes, directions, transport types, journeys),
//! so that the keys they give can be checked.
use vstd::prelude::*;

use crate::calendar::Date;
use crate::error::{HResult, HrdfError, ParsingErrorV};
use crate::models::{
    Attribute, AttributeView, BitField, Direction, DirectionView, ExchangeTimeAdministration,
    ExchangeTimeAdministrationView, ExchangeTimeJourney, ExchangeTimeJourneyView, ExchangeTimeLine,
    ExchangeTimeLineView, Holiday, HolidayView, InformationText, InformationTextView, Journey,
    JourneyPlatform, JourneyPlatformView, JourneyView, Line, LineView, Platform, PlatformView, Stop,
    StopConnection, StopView, ThroughService, ThroughServiceView, TimetableMetadataEntry,
    TimetableMetadataEntryView, TransportCompany, TransportCompanyView, TransportType, TransportTypeView,
};
use crate::parsing::information_text_parser::InfoTextSource;
use crate::parsing::lines::{file_error, texts};
use crate::parsing::stop_parser::StopsFailure;
use crate::parsing::transport_company_parser::CompanySource;
use crate::parsing::transport_type_parser::unknown_language_row;
use crate::parsing::{
    attribute_parser, bit_field_parser, direction_parser, exchange_administration_parser,
    exchange_journey_parser, exchange_line_parser, holiday_parser, information_text_parser,
    journey_parser, line_parser, platform_parser, stop_connection_parser, stop_parser,
    through_service_parser, timetable_metadata_parser, transport_company_parser, transport_type_parser,
};
use crate::parsing::lines::numbered;
use crate::storage::{PairStorage, ResourceStorage};

verus! {

/// A file: its name and its lines.
pub type Source = (String, Vec<String>);

/// The files of an HRDF archive that the library reads.
pub struct HrdfFiles {
    /// BITFELD
    pub bit_fields: Source,
    /// FEIERTAG
    pub holidays: Source,
    /// ECKDATEN
    pub timetable_metadata: Source,
    /// ATTRIBUT
    pub attributes: Source,
    /// RICHTUNG
    pub directions: Source,
    /// INFOTEXT_DE, INFOTEXT_EN, INFOTEXT_FR, INFOTEXT_IT
    pub information_texts: Vec<InfoTextSource>,
    /// LINIE
    pub lines: Source,
    /// BETRIEB_DE, BETRIEB_EN, BETRIEB_FR, BETRIEB_IT
    pub transport_companies: Vec<CompanySource>,
    /// ZUGART
    pub transport_types: Source,
    /// METABHF
    pub stop_connections: Source,
    /// BAHNHOF, BFKOORD_LV95, BFKOORD_WGS, BFPRIOS, KMINFO, UMSTEIGB, BHFART_60 (or BHFART)
    pub stops: Vec<Source>,
    /// FPLAN
    pub journeys: Source,
    /// GLEIS_LV95 (or GLEISE_LV95)
    pub platforms_lv95: Vec<String>,
    /// GLEIS_WGS (or GLEISE_WGS)
    pub platforms_wgs84: Vec<String>,
    /// DURCHBI
    pub through_service: Source,
    /// UMSTEIGV
    pub exchange_times_administration: Source,
    /// UMSTEIGZ
    pub exchange_times_journey: Source,
    /// UMSTEIGL
    pub exchange_times_line: Source,
}

impl HrdfFiles {
    /// What reading needs of the files: each has fewer lines than the ids can
    /// count, there are seven stop files, and ZUGART names only the four
    /// languages.
    pub open spec fn readable(&self) -> bool {
        &&& self.bit_fields.1@.len() < i32::MAX
        &&& self.holidays.1@.len() < i32::MAX
        &&& self.attributes.1@.len() < i32::MAX
        &&& self.transport_types.1@.len() < i32::MAX
        &&& forall|i: int|
            0 <= i < self.transport_types.1@.len() ==> !unknown_language_row(
                #[trigger] self.transport_types.1@[i]@,
            )
        &&& self.stop_connections.1@.len() < i32::MAX
        &&& self.stops@.len() == 7
        &&& self.journeys.1@.len() < i32::MAX
        &&& self.platforms_lv95@.len() + self.platforms_wgs84@.len() < i32::MAX
        &&& self.through_service.1@.len() < i32::MAX
        &&& self.exchange_times_administration.1@.len() < i32::MAX
        &&& self.exchange_times_journey.1@.len() < i32::MAX
        &&& self.exchange_times_line.1@.len() < i32::MAX
    }
}

/// The resources of an HRDF archive.
#[derive(Debug)]
pub struct DataStorage {
    pub bit_fields: ResourceStorage<BitField>,
    pub holidays: ResourceStorage<Holiday>,
    pub timetable_metadata: ResourceStorage<TimetableMetadataEntry>,
    pub attributes: ResourceStorage<Attribute>,
    pub directions: ResourceStorage<Direction>,
    pub information_texts: ResourceStorage<InformationText>,
    pub lines: ResourceStorage<Line>,
    pub transport_companies: ResourceStorage<TransportCompany>,
    pub transport_types: ResourceStorage<TransportType>,
    pub stop_connections: ResourceStorage<StopConnection>,
    pub stops: ResourceStorage<Stop>,
    /// Minutes to change between two InterCity services, and between any
    /// others, where a stop gives none.
    pub default_exchange_time: (i16, i16),
    pub journeys: ResourceStorage<Journey>,
    pub journey_platform: PairStorage<JourneyPlatform>,
    pub platforms: ResourceStorage<Platform>,
    pub through_service: ResourceStorage<ThroughService>,
    pub exchange_times_administration: ResourceStorage<ExchangeTimeAdministration>,
    pub exchange_times_journey: ResourceStorage<ExchangeTimeJourney>,
    pub exchange_times_line: ResourceStorage<ExchangeTimeLine>,
}

/// What the spec functions of the parsers say of the resources.
pub struct DataStorageView {
    pub bit_fields: Map<i32, Seq<u8>>,
    pub holidays: Map<i32, HolidayView>,
    pub timetable_metadata: Map<i32, TimetableMetadataEntryView>,
    pub attributes: Map<i32, AttributeView>,
    pub directions: Map<i32, DirectionView>,
    pub information_texts: Map<i32, InformationTextView>,
    pub lines: Map<i32, LineView>,
    pub transport_companies: Map<i32, TransportCompanyView>,
    pub transport_types: Map<i32, TransportTypeView>,
    pub stop_connections: Map<i32, StopConnection>,
    pub stops: Map<i32, StopView>,
    pub default_exchange_time: (i16, i16),
    pub journeys: Map<i32, JourneyView>,
    pub journey_platform: Map<(i32, i32), JourneyPlatformView>,
    pub platforms: Map<i32, PlatformView>,
    pub through_service: Map<i32, ThroughServiceView>,
    pub exchange_times_administration: Map<i32, ExchangeTimeAdministrationView>,
    pub exchange_times_journey: Map<i32, ExchangeTimeJourneyView>,
    pub exchange_times_line: Map<i32, ExchangeTimeLineView>,
}

impl DataStorage {
    pub open spec fn view(&self) -> DataStorageView {
        DataStorageView {
            bit_fields: bit_field_parser::bits_view(self.bit_fields.view()),
            holidays: holiday_parser::holidays_view(self.holidays.view()),
            timetable_metadata: timetable_metadata_parser::entries_view(self.timetable_metadata.view()),
            attributes: attribute_parser::attributes_view(self.attributes.view()),
            directions: direction_parser::directions_view(self.directions.view()),
            information_texts: information_text_parser::infotexts_view(self.information_texts.view()),
            lines: line_parser::lines_view(self.lines.view()),
            transport_companies: transport_company_parser::companies_view(self.transport_companies.view()),
            transport_types: transport_type_parser::types_view(self.transport_types.view()),
            stop_connections: self.stop_connections.view(),
            stops: stop_parser::stops_view(self.stops.view()),
            default_exchange_time: self.default_exchange_time,
            journeys: journey_parser::journeys_view(self.journeys.view()),
            journey_platform: platform_parser::journey_platforms_view(self.journey_platform.view()),
            platforms: platform_parser::platforms_view(self.platforms.view()),
            through_service: through_service_parser::through_services_view(self.through_service.view()),
            exchange_times_administration: exchange_administration_parser::administrations_view(
                self.exchange_times_administration.view(),
            ),
            exchange_times_journey: exchange_journey_parser::journey_exchanges_view(self.exchange_times_journey.view()),
            exchange_times_line: exchange_line_parser::line_exchanges_view(self.exchange_times_line.view()),
        }
    }
}

/// Why the files give no resources.
pub enum StorageFailure {
    /// A line of a file does not read.
    Line { file: Seq<char>, line: Seq<char>, line_number: nat, why: ParsingErrorV },
    /// The timetable ends before it starts.
    OutOfRangeDate(Date),
    /// UMSTEIGB gives no default exchange time.
    MissingDefaultExchangeTime,
    /// A line of a platform file does not read.
    Platforms(ParsingErrorV),
}

/// Whether `e` is the error that `why` describes.
pub open spec fn failure_is(e: HrdfError, why: StorageFailure) -> bool {
    match why {
        StorageFailure::Line { file, line, line_number, why } => file_error(e, why, file, line, line_number),
        StorageFailure::OutOfRangeDate(d) => e == HrdfError::OutOfRangeDate(d),
        StorageFailure::MissingDefaultExchangeTime => e is MissingDefaultExchangeTime,
        StorageFailure::Platforms(why) => e matches HrdfError::Platforms(x) && x.deep_view() == why,
    }
}

/// The resources that the files `f` give, read in the order of the fields of
/// `HrdfFiles`; or why the first file that fails does not read.
pub open spec fn storage_of(f: HrdfFiles) -> Result<DataStorageView, StorageFailure> {
    match bit_field_parser::bitfields_of(texts(f.bit_fields.1@), f.bit_fields.1@.len()) {
        Err((n, why)) => Err(StorageFailure::Line { file: f.bit_fields.0@, line: f.bit_fields.1@[n as int]@, line_number: n, why }),
        Ok(bit_fields) =>
            match numbered(texts(f.holidays.1@), f.holidays.1@.len(), |l: Seq<char>, id: i32| holiday_parser::holiday_item(l, id)) {
                Err((n, why)) => Err(StorageFailure::Line { file: f.holidays.0@, line: f.holidays.1@[n as int]@, line_number: n, why }),
                Ok((holidays, _)) =>
                    match timetable_metadata_parser::eckdaten_of(texts(f.timetable_metadata.1@), f.timetable_metadata.1@.len(), timetable_metadata_parser::eckdaten_keys()) {
                        Err((n, why)) => Err(StorageFailure::Line { file: f.timetable_metadata.0@, line: f.timetable_metadata.1@[n as int]@, line_number: n, why }),
                        Ok(meta) =>
                            match timetable_metadata_parser::reversed_end(meta) {
                                Some(d) => Err(StorageFailure::OutOfRangeDate(d)),
                                None =>
                                    match attribute_parser::attributes_of(texts(f.attributes.1@), f.attributes.1@.len()) {
                                        Err((n, why)) => Err(StorageFailure::Line { file: f.attributes.0@, line: f.attributes.1@[n as int]@, line_number: n, why }),
                                        Ok(attributes) =>
                                            match direction_parser::directions_of(texts(f.directions.1@), f.directions.1@.len()) {
                                                Err((n, why)) => Err(StorageFailure::Line { file: f.directions.0@, line: f.directions.1@[n as int]@, line_number: n, why }),
                                                Ok(directions) =>
                                                    match information_text_parser::infotexts_of(information_text_parser::sources_view(f.information_texts@), f.information_texts@.len()) {
                                                        Err((k, n, why)) => Err(StorageFailure::Line { file: f.information_texts@[k as int].1@, line: f.information_texts@[k as int].2@[n as int]@, line_number: n, why }),
                                                        Ok(information_texts) =>
                                                            match line_parser::lines_of(texts(f.lines.1@), f.lines.1@.len()) {
                                                                Err((n, why)) => Err(StorageFailure::Line { file: f.lines.0@, line: f.lines.1@[n as int]@, line_number: n, why }),
                                                                Ok(lines) =>
                                                                    match transport_company_parser::companies_of(transport_company_parser::sources_view(f.transport_companies@), f.transport_companies@.len()) {
                                                                        Err((k, n, why)) => Err(StorageFailure::Line { file: f.transport_companies@[k as int].1@, line: f.transport_companies@[k as int].2@[n as int]@, line_number: n, why }),
                                                                        Ok(transport_companies) =>
                                                                            match transport_type_parser::transport_types_of(texts(f.transport_types.1@), f.transport_types.1@.len()) {
                                                                                Err((n, why)) => Err(StorageFailure::Line { file: f.transport_types.0@, line: f.transport_types.1@[n as int]@, line_number: n, why }),
                                                                                Ok(transport_types) =>
                                                                                    match stop_connection_parser::stop_connections_of(texts(f.stop_connections.1@), f.stop_connections.1@.len(), attributes.keys) {
                                                                                        Err((n, why)) => Err(StorageFailure::Line { file: f.stop_connections.0@, line: f.stop_connections.1@[n as int]@, line_number: n, why }),
                                                                                        Ok(stop_connections) =>
                                                                                            match stop_parser::stops_from(stop_parser::sources_texts(f.stops@)) {
                                                                                                Err(StopsFailure::Line { file, line, why }) => Err(StorageFailure::Line { file: f.stops@[file as int].0@, line: f.stops@[file as int].1@[line as int]@, line_number: line, why }),
                                                                                                Err(StopsFailure::MissingDefaultExchangeTime) => Err(StorageFailure::MissingDefaultExchangeTime),
                                                                                                Ok((stops, default_exchange_time)) =>
                                                                                                    match journey_parser::fplan_of(texts(f.journeys.1@), f.journeys.1@.len(), transport_types.keys, attributes.keys, directions.keys) {
                                                                                                        Err((n, why)) => Err(StorageFailure::Line { file: f.journeys.0@, line: f.journeys.1@[n as int]@, line_number: n, why }),
                                                                                                        Ok(fplan) =>
                                                                                                            match platform_parser::platforms_from(fplan.keys, texts(f.platforms_lv95@), texts(f.platforms_wgs84@)) {
                                                                                                                Err(why) => Err(StorageFailure::Platforms(why)),
                                                                                                                Ok(platforms) =>
                                                                                                                    match numbered(texts(f.through_service.1@), f.through_service.1@.len(), |l: Seq<char>, id: i32| through_service_parser::through_service_item(l, id)) {
                                                                                                                        Err((n, why)) => Err(StorageFailure::Line { file: f.through_service.0@, line: f.through_service.1@[n as int]@, line_number: n, why }),
                                                                                                                        Ok((through_service, _)) =>
                                                                                                                            match numbered(texts(f.exchange_times_administration.1@), f.exchange_times_administration.1@.len(), |l: Seq<char>, id: i32| exchange_administration_parser::administration_item(l, id)) {
                                                                                                                                Err((n, why)) => Err(StorageFailure::Line { file: f.exchange_times_administration.0@, line: f.exchange_times_administration.1@[n as int]@, line_number: n, why }),
                                                                                                                                Ok((exchange_times_administration, _)) =>
                                                                                                                                    match numbered(texts(f.exchange_times_journey.1@), f.exchange_times_journey.1@.len(), |l: Seq<char>, id: i32| exchange_journey_parser::journey_exchange_item(l, id, fplan.keys)) {
                                                                                                                                        Err((n, why)) => Err(StorageFailure::Line { file: f.exchange_times_journey.0@, line: f.exchange_times_journey.1@[n as int]@, line_number: n, why }),
                                                                                                                                        Ok((exchange_times_journey, _)) =>
                                                                                                                                            match numbered(texts(f.exchange_times_line.1@), f.exchange_times_line.1@.len(), |l: Seq<char>, id: i32| exchange_line_parser::line_exchange_item(l, id, transport_types.keys)) {
                                                                                                                                                Err((n, why)) => Err(StorageFailure::Line { file: f.exchange_times_line.0@, line: f.exchange_times_line.1@[n as int]@, line_number: n, why }),
                                                                                                                                                Ok((exchange_times_line, _)) =>
                                                                                                                                                    Ok(DataStorageView {
                                                                                                                                                        bit_fields,
                                                                                                                                                        holidays,
                                                                                                                                                        timetable_metadata: meta.entries,
                                                                                                                                                        attributes: attributes.attributes,
                                                                                                                                                        directions: directions.directions,
                                                                                                                                                        information_texts,
                                                                                                                                                        lines,
                                                                                                                                                        transport_companies,
                                                                                                                                                        transport_types: transport_types.types,
                                                                                                                                                        stop_connections: stop_connections.connections,
                                                                                                                                                        stops,
                                                                                                                                                        default_exchange_time,
                                                                                                                                                        journeys: fplan.journeys,
                                                                                                                                                        journey_platform: platforms.journey_platforms,
                                                                                                                                                        platforms: platforms.platforms,
                                                                                                                                                        through_service,
                                                                                                                                                        exchange_times_administration,
                                                                                                                                                        exchange_times_journey,
                                                                                                                                                        exchange_times_line,
                                                                                                                                                    }),
                                                                                                                                            },
                                                                                                                                    },
                                                                                                                            },
                                                                                                                    },
                                                                                                            },
                                                                                                    },
                                                                                            },
                                                                                    },
                                                                            },
                                                                    },
                                                            },
                                                    },
                                            },
                                    },
                            },
                    },
            },
    }
}

impl DataStorage {
    /// Reads the resources from the files `files`.
    pub fn new(files: &HrdfFiles) -> (r: HResult<DataStorage>)
        requires
            files.readable(),
        ensures
            match storage_of(*files) {
                Ok(v) => r matches Ok(ds) && ds.view() == v,
                Err(why) => r matches Err(e) && failure_is(e, why),
            },
            r matches Ok(ds) ==> bit_field_parser::bit_fields_keyed(ds.bit_fields.view()),
    {
        // Time-relevant data.
        let bit_fields = bit_field_parser::parse(files.bit_fields.0.as_str(), &files.bit_fields.1)?;
        let holidays = holiday_parser::parse(files.holidays.0.as_str(), &files.holidays.1)?;
        let timetable_metadata = timetable_metadata_parser::parse(
            files.timetable_metadata.0.as_str(),
            &files.timetable_metadata.1,
        )?;
        // Basic data.
        let (attributes, attributes_pk_type_converter) = attribute_parser::parse(
            files.attributes.0.as_str(),
            &files.attributes.1,
        )?;
        let (directions, directions_pk_type_converter) = direction_parser::parse(
            files.directions.0.as_str(),
            &files.directions.1,
        )?;
        let information_texts = information_text_parser::parse(&files.information_texts)?;
        let lines = line_parser::parse(files.lines.0.as_str(), &files.lines.1)?;
        let transport_companies = transport_company_parser::parse(&files.transport_companies)?;
        let (transport_types, transport_types_pk_type_converter) = transport_type_parser::parse(
            files.transport_types.0.as_str(),
            &files.transport_types.1,
        )?;
        // Stop data.
        let stop_connections = stop_connection_parser::parse(
            files.stop_connections.0.as_str(),
            &files.stop_connections.1,
            &attributes_pk_type_converter,
        )?;
        let (stops, default_exchange_time) = stop_parser::parse(&files.stops)?;
        // Timetable data.
        let (journeys, journeys_pk_type_converter) = journey_parser::parse(
            files.journeys.0.as_str(),
            &files.journeys.1,
            &transport_types_pk_type_converter,
            &attributes_pk_type_converter,
            &directions_pk_type_converter,
        )?;
        let (journey_platform, platforms) = match platform_parser::parse(
            &files.platforms_lv95,
            &files.platforms_wgs84,
            &journeys_pk_type_converter,
        ) {
            Ok(x) => x,
            Err(e) => {
                return Err(HrdfError::Platforms(e));
            },
        };
        let through_service = through_service_parser::parse(
            files.through_service.0.as_str(),
            &files.through_service.1,
            &journeys_pk_type_converter,
        )?;
        // Exchange times.
        let exchange_times_administration = exchange_administration_parser::parse(
            files.exchange_times_administration.0.as_str(),
            &files.exchange_times_administration.1,
        )?;
        let exchange_times_journey = exchange_journey_parser::parse(
            files.exchange_times_journey.0.as_str(),
            &files.exchange_times_journey.1,
            &journeys_pk_type_converter,
        )?;
        let exchange_times_line = exchange_line_parser::parse(
            files.exchange_times_line.0.as_str(),
            &files.exchange_times_line.1,
            &transport_types_pk_type_converter,
        )?;
        Ok(
            DataStorage {
                bit_fields,
                holidays,
                timetable_metadata,
                attributes,
                directions,
                information_texts,
                lines,
                transport_companies,
                transport_types,
                stop_connections,
                stops,
                default_exchange_time,
                journeys,
                journey_platform,
                platforms,
                through_service,
                exchange_times_administration,
                exchange_times_journey,
                exchange_times_line,
            },
        )
    }
}

} // verus!
