//! A parser for the Swiss HRDF timetable format (version 5.40.41): each file
//! of an archive is read line by line into resources, and
//! `hrdf::Hrdf::from_files` reads all the files of an archive.
use vstd::prelude::*;

pub mod calendar;
pub mod data_storage;
pub mod error;
pub mod helpers;
pub mod hrdf;
pub mod layout;
pub mod models;
pub mod parsing;
pub mod scan;
pub mod storage;
pub mod text;
pub mod utils;

verus! {

} // verus!
