//! Counters, date arithmetic, times of day, and the validity period of the timetable.
use vstd::prelude::*;

use crate::calendar::{
    date_add_days, date_sub_days, days_between, first_day_number, last_day_number, time_exists,
    Date, Time,
};
use crate::error::{HResult, HrdfError, PResult, ParsingError};
use crate::models::{read_iso_date_spec, TimetableMetadataEntry};
use crate::storage::{id_map_get, id_map_keys, ResourceStorage};

verus! {

broadcast use vstd::string::group_string_axioms;

/// A counter that hands out the ids 1, 2, 3, ...
pub struct AutoIncrement {
    value: i32,
}

impl AutoIncrement {
    /// The last id handed out (0 before the first).
    pub closed spec fn view(&self) -> int {
        self.value as int
    }

    /// Whether another id can be handed out.
    pub open spec fn can_advance(&self) -> bool {
        self.view() < i32::MAX
    }

    pub fn new() -> (r: AutoIncrement)
        ensures
            r.view() == 0,
    {
        AutoIncrement { value: 0 }
    }

    /// Hands out the next id.
    pub fn next(&mut self) -> (r: i32)
        requires
            old(self).can_advance(),
        ensures
            final(self).view() == old(self).view() + 1,
            r == final(self).view(),
    {
        self.value = self.value + 1;
        self.value
    }

    /// The last id handed out.
    pub fn get(&self) -> (r: i32)
        ensures
            r == self.view(),
    {
        self.value
    }

    /// Whether another id can be handed out.
    pub fn has_next(&self) -> (r: bool)
        ensures
            r == self.can_advance(),
    {
        self.value < i32::MAX
    }
}

/// The day after `date`.
pub fn add_1_day(date: Date) -> (r: HResult<Date>)
    requires
        date.valid(),
    ensures
        match r {
            Ok(e) => e.valid() && e.number() == date.number() + 1,
            Err(e) => date.number() == last_day_number() && e == HrdfError::FailedToAddDays(date, 1),
        },
{
    match date_add_days(date, 1) {
        Some(e) => Ok(e),
        None => Err(HrdfError::FailedToAddDays(date, 1)),
    }
}

/// The day before `date`.
pub fn sub_1_day(date: Date) -> (r: HResult<Date>)
    requires
        date.valid(),
    ensures
        match r {
            Ok(e) => e.valid() && e.number() == date.number() - 1,
            Err(e) => date.number() == first_day_number() && e == HrdfError::FailedToSubDays(
                date,
                1,
            ),
        },
{
    match date_sub_days(date, 1) {
        Some(e) => Ok(e),
        None => Err(HrdfError::FailedToSubDays(date, 1)),
    }
}

/// Number of days from `date_1` to `date_2`, both included; an error when
/// `date_2` is before `date_1`.
pub fn count_days_between_two_dates(date_1: Date, date_2: Date) -> (r: HResult<usize>)
    requires
        date_1.valid(),
        date_2.valid(),
    ensures
        match r {
            Ok(n) => date_2.number() >= date_1.number() && n == date_2.number() - date_1.number()
                + 1,
            Err(e) => date_2.number() < date_1.number() && e == HrdfError::OutOfRangeDate(date_2),
        },
{
    let days = days_between(date_1, date_2);
    if days < 0 {
        return Err(HrdfError::OutOfRangeDate(date_2));
    }
    if days as u64 >= usize::MAX as u64 {
        proof {
            lemma_day_numbers_span(date_1, date_2);
        }
    }
    Ok(days as usize + 1)
}

/// Two dates in range lie less than 2^31 days apart.
proof fn lemma_day_numbers_span(a: Date, b: Date)
    requires
        a.valid(),
        b.valid(),
    ensures
        b.number() - a.number() < 0x7fff_ffff,
{
    let ya = a.year as int;
    let yb = b.year as int;
    assert(b.number() - a.number() < 0x7fff_ffff) by (nonlinear_arith)
        requires
            -262143 <= ya <= 262142,
            -262143 <= yb <= 262142,
            1 <= a.month <= 12,
            1 <= b.month <= 12,
            1 <= a.day <= 31,
            1 <= b.day <= 31,
            a.number() == crate::calendar::day_number(ya, a.month as int, a.day as int),
            b.number() == crate::calendar::day_number(yb, b.month as int, b.day as int),
    ;
}

/// The time `hour:minute`.
pub fn create_time(hour: u32, minute: u32) -> (r: PResult<Time>)
    ensures
        match r {
            Ok(t) => hour < 24 && minute < 60 && t == Time { hour, minute },
            Err(e) => !(hour < 24 && minute < 60) && e == ParsingError::UnableToBuildTime(
                hour,
                minute,
                0,
            ),
        },
{
    if time_exists(hour, minute) {
        Ok(Time { hour, minute })
    } else {
        Err(ParsingError::UnableToBuildTime(hour, minute, 0))
    }
}

/// The time written `hhmm` as the number `value`.
pub fn create_time_from_value(value: u32) -> (r: PResult<Time>)
    ensures
        match r {
            Ok(t) => value / 100 < 24 && value % 100 < 60 && t == Time {
                hour: value / 100,
                minute: value % 100,
            },
            Err(e) => !(value / 100 < 24 && value % 100 < 60) && e
                == ParsingError::UnableToBuildTime(value / 100, value % 100, 0),
        },
{
    create_time(value / 100, value % 100)
}

/// Whether some entry of `m` has the key `key`.
pub open spec fn has_key(m: Map<i32, TimetableMetadataEntry>, key: Seq<char>) -> bool {
    exists|k: i32| #[trigger] m.contains_key(k) && m[k].key@ == key
}

/// The date under `key` in the timetable metadata.
fn metadata_date(storage: &ResourceStorage<TimetableMetadataEntry>, key: &str) -> (r: Option<
    HResult<Date>,
>)
    ensures
        match r {
            None => !has_key(storage.view(), key@),
            Some(Ok(d)) => exists|k: i32|
                #[trigger] storage.view().contains_key(k) && storage.view()[k].key@ == key@
                    && read_iso_date_spec(storage.view()[k].value@) == Some(d),
            Some(Err(e)) => (e is Parsing) && exists|k: i32|
                #[trigger] storage.view().contains_key(k) && storage.view()[k].key@ == key@
                    && read_iso_date_spec(storage.view()[k].value@).is_none(),
        },
{
    let data = storage.data();
    let keys = id_map_keys(data);
    let mut i: usize = 0;
    while i < keys.len()
        invariant
            data@ == storage.view(),
            keys@.to_set() == data@.dom(),
            0 <= i <= keys@.len(),
            forall|j: int| 0 <= j < i ==> data@[#[trigger] keys@[j]].key@ != key@,
        decreases keys@.len() - i,
    {
        let k = keys[i];
        assert(keys@.contains(k));
        assert(keys@.to_set().contains(k));
        match id_map_get(data, k) {
            Some(entry) => {
                if crate::models::text_is(entry.key(), key) {
                    return Some(entry.value_as_naive_date());
                }
            },
            None => {},
        }
        i = i + 1;
    }
    proof {
        assert forall|k: i32| #[trigger] data@.contains_key(k) implies data@[k].key@ != key@ by {
            assert(keys@.to_set().contains(k));
            let j = keys@.index_of(k);
            assert(keys@[j] == k);
        }
    }
    None
}

/// The first day of the timetable.
pub fn timetable_start_date(timetable_metadata: &ResourceStorage<TimetableMetadataEntry>) -> (r:
    HResult<Date>)
    ensures
        match r {
            Ok(d) => exists|k: i32|
                #[trigger] timetable_metadata.view().contains_key(k)
                    && timetable_metadata.view()[k].key@ == "start_date"@ && read_iso_date_spec(
                    timetable_metadata.view()[k].value@,
                ) == Some(d),
            Err(HrdfError::MissingStartDate) => !has_key(
                timetable_metadata.view(),
                "start_date"@,
            ),
            Err(_) => exists|k: i32|
                #[trigger] timetable_metadata.view().contains_key(k)
                    && timetable_metadata.view()[k].key@ == "start_date"@ && read_iso_date_spec(
                    timetable_metadata.view()[k].value@,
                ).is_none(),
        },
{
    let found = metadata_date(timetable_metadata, "start_date");
    match found {
        Some(Ok(d)) => {
            proof {
                let k = choose|k: i32|
                    #[trigger] timetable_metadata.view().contains_key(k)
                        && timetable_metadata.view()[k].key@ == "start_date"@ && read_iso_date_spec(
                        timetable_metadata.view()[k].value@,
                    ) == Some(d);
                assert(timetable_metadata.view().contains_key(k));
                assert(timetable_metadata.view()[k].key@ == "start_date"@);
                assert(read_iso_date_spec(timetable_metadata.view()[k].value@) == Some(d));
            }
            Ok(d)
        },
        Some(Err(e)) => Err(e),
        None => Err(HrdfError::MissingStartDate),
    }
}

/// The last day of the timetable.
pub fn timetable_end_date(timetable_metadata: &ResourceStorage<TimetableMetadataEntry>) -> (r:
    HResult<Date>)
    ensures
        match r {
            Ok(d) => exists|k: i32|
                #[trigger] timetable_metadata.view().contains_key(k)
                    && timetable_metadata.view()[k].key@ == "end_date"@ && read_iso_date_spec(
                    timetable_metadata.view()[k].value@,
                ) == Some(d),
            Err(HrdfError::MissingEndDate) => !has_key(timetable_metadata.view(), "end_date"@),
            Err(_) => exists|k: i32|
                #[trigger] timetable_metadata.view().contains_key(k)
                    && timetable_metadata.view()[k].key@ == "end_date"@ && read_iso_date_spec(
                    timetable_metadata.view()[k].value@,
                ).is_none(),
        },
{
    let found = metadata_date(timetable_metadata, "end_date");
    match found {
        Some(Ok(d)) => {
            proof {
                let k = choose|k: i32|
                    #[trigger] timetable_metadata.view().contains_key(k)
                        && timetable_metadata.view()[k].key@ == "end_date"@ && read_iso_date_spec(
                        timetable_metadata.view()[k].value@,
                    ) == Some(d);
                assert(timetable_metadata.view().contains_key(k));
            }
            Ok(d)
        },
        Some(Err(e)) => Err(e),
        None => Err(HrdfError::MissingEndDate),
    }
}

/// `sub_1_day` undoes `add_1_day`, and `add_1_day` undoes `sub_1_day`: a
/// date that is one day after `date` and one day before `back` (in either
/// order) leaves `back` equal to `date`.
pub proof fn lemma_one_day_there_and_back(date: Date, other: Date, back: Date)
    requires
        date.valid(),
        other.valid(),
        back.valid(),
        other.number() == date.number() + 1 && back.number() == other.number() - 1
            || other.number() == date.number() - 1 && back.number() == other.number() + 1,
    ensures
        back == date,
{
    crate::calendar::lemma_day_number_injective(back, date);
}

} // verus!
