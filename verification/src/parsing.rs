//! The parsers of the HRDF files, one module per file (or group of files).
pub mod attribute_parser;
pub mod bit_field_parser;
pub mod direction_parser;
pub mod exchange_administration_parser;
pub mod exchange_journey_parser;
pub mod exchange_line_parser;
pub mod holiday_parser;
pub mod information_text_parser;
pub mod journey_parser;
pub mod line_parser;
pub mod platform_parser;
pub mod stop_connection_parser;
pub mod stop_parser;
pub mod through_service_parser;
pub mod timetable_metadata_parser;
pub mod transport_company_parser;
pub mod transport_type_parser;
pub mod lines;
