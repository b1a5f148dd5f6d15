//! An HRDF archive, read.
use vstd::prelude::*;

use crate::calendar::{valid_date, Date};
use crate::data_storage::{failure_is, storage_of, DataStorage, HrdfFiles};
use crate::error::{HResult, HrdfError};
use crate::parsing::bit_field_parser::bit_fields_keyed;
use crate::text::joined;
use sha2::{Digest, Sha256};
use url::Url;
use vstd::string::StringExecFns;

verus! {

/// The resources of an HRDF archive.
#[derive(Debug)]
pub struct Hrdf {
    data_storage: DataStorage,
}

impl Hrdf {
    /// Reads the resources from the files of an archive.
    pub fn from_files(files: &HrdfFiles) -> (r: HResult<Hrdf>)
        requires
            files.readable(),
        ensures
            match storage_of(*files) {
                Ok(v) => r matches Ok(h) && h.storage().view() == v,
                Err(why) => r matches Err(e) && failure_is(e, why),
            },
            r matches Ok(h) ==> bit_fields_keyed(h.storage().bit_fields.view()),
    {
        let data_storage = DataStorage::new(files)?;
        Ok(Hrdf { data_storage })
    }

    /// The resources that the archive holds.
    pub closed spec fn storage(&self) -> DataStorage {
        self.data_storage
    }

    /// The resources.
    pub fn data_storage(&self) -> (r: &DataStorage)
        ensures
            *r == self.storage(),
    {
        &self.data_storage
    }
}

/// What is known before an archive is loaded.
#[derive(Clone, Copy)]
pub struct LoadFacts {
    /// The cache file of the archive exists.
    pub cache_exists: bool,
    /// The cache is to be rebuilt, whatever exists.
    pub force_rebuild_cache: bool,
    /// The archive is named by a URL (else by a path).
    pub is_url: bool,
    /// The archive was downloaded before.
    pub archive_exists: bool,
    /// The archive was unzipped before.
    pub unzipped_exists: bool,
}

/// What happened last while loading an archive.
#[derive(Clone, Copy)]
pub enum LoadEvent {
    Started,
    CacheRead { ok: bool },
    Downloaded,
    Unzipped,
    Parsed,
    CacheBuilt,
}

/// What loading an archive does next.
#[derive(Debug, Clone, Copy, PartialEq, Eq, Structural)]
pub enum LoadStep {
    ReadCache,
    Download,
    Unzip,
    Parse,
    BuildCache,
    Done,
}

/// The first step towards the files of the archive: download it when it is
/// named by a URL and was not downloaded before, unzip it when it was not
/// unzipped before, then read its files.
pub open spec fn archive_step(f: LoadFacts) -> LoadStep {
    if f.is_url && !f.archive_exists {
        LoadStep::Download
    } else if !f.unzipped_exists {
        LoadStep::Unzip
    } else {
        LoadStep::Parse
    }
}

/// The step after `e`: the cache is read when it exists and no rebuild is
/// forced; when it is not read, or reading it fails, the archive is
/// downloaded, unzipped and read as needed, and the cache is built from it.
pub open spec fn load_step(f: LoadFacts, e: LoadEvent) -> LoadStep {
    match e {
        LoadEvent::Started => if f.cache_exists && !f.force_rebuild_cache {
            LoadStep::ReadCache
        } else {
            archive_step(f)
        },
        LoadEvent::CacheRead { ok } => if ok {
            LoadStep::Done
        } else {
            archive_step(f)
        },
        LoadEvent::Downloaded => if !f.unzipped_exists {
            LoadStep::Unzip
        } else {
            LoadStep::Parse
        },
        LoadEvent::Unzipped => LoadStep::Parse,
        LoadEvent::Parsed => LoadStep::BuildCache,
        LoadEvent::CacheBuilt => LoadStep::Done,
    }
}

/// Decides the next step of loading an archive.
pub fn next_load_step(facts: LoadFacts, event: LoadEvent) -> (r: LoadStep)
    ensures
        r == load_step(facts, event),
{
    let archive = if facts.is_url && !facts.archive_exists {
        LoadStep::Download
    } else if !facts.unzipped_exists {
        LoadStep::Unzip
    } else {
        LoadStep::Parse
    };
    match event {
        LoadEvent::Started => if facts.cache_exists && !facts.force_rebuild_cache {
            LoadStep::ReadCache
        } else {
            archive
        },
        LoadEvent::CacheRead { ok } => if ok {
            LoadStep::Done
        } else {
            archive
        },
        LoadEvent::Downloaded => if !facts.unzipped_exists {
            LoadStep::Unzip
        } else {
            LoadStep::Parse
        },
        LoadEvent::Unzipped => LoadStep::Parse,
        LoadEvent::Parsed => LoadStep::BuildCache,
        LoadEvent::CacheBuilt => LoadStep::Done,
    }
}

/// Whether, from event `e`, at most `n` steps lead to `Done`, each step
/// ending as planned and a cache read failing (one that succeeds leads to
/// `Done` at once).
pub open spec fn steps_to_done(f: LoadFacts, e: LoadEvent, n: nat) -> bool
    decreases n,
{
    let s = load_step(f, e);
    if s == LoadStep::Done {
        true
    } else if n == 0 {
        false
    } else {
        let next = match s {
            LoadStep::ReadCache => LoadEvent::CacheRead { ok: false },
            LoadStep::Download => LoadEvent::Downloaded,
            LoadStep::Unzip => LoadEvent::Unzipped,
            LoadStep::Parse => LoadEvent::Parsed,
            LoadStep::BuildCache => LoadEvent::CacheBuilt,
            LoadStep::Done => LoadEvent::CacheBuilt,
        };
        steps_to_done(f, next, (n - 1) as nat)
    }
}


/// Loading ends: from any event, at most five more steps lead to `Done`.
pub proof fn lemma_loading_ends(f: LoadFacts, e: LoadEvent)
    ensures
        steps_to_done(f, e, 5),
{
    reveal_with_fuel(steps_to_done, 6);
}

// ------------------------------------------------------------------------------------------
// Names and dates of loading
// ------------------------------------------------------------------------------------------

/// The first day of the validity year `year` as the calendar has it: January 1.
pub fn validity_year_start(year: i32) -> (r: HResult<Date>)
    ensures
        match r {
            Ok(d) => valid_date(year as int, 1, 1) && d == (Date { year, month: 1, day: 1 }),
            Err(e) => !valid_date(year as int, 1, 1) && e == HrdfError::InvalidYear,
        },
{
    match Date::from_ymd_opt(year, 1, 1) {
        Some(d) => Ok(d),
        None => Err(HrdfError::InvalidYear),
    }
}

/// What `sha2` gives as the SHA-256 digest of a text, in lower-case hexadecimal.
pub uninterp spec fn sha256_hex(t: Seq<char>) -> Seq<char>;

/// Whether `url` reads the text as an absolute URL.
pub uninterp spec fn url_parses(t: Seq<char>) -> bool;

/// `format!("{:x}", Sha256::digest(t.as_bytes()))`: the SHA-256 digest of
/// the bytes of `t`, in lower-case hexadecimal.
#[verifier::external_body]
fn sha256_hex_of(t: &str) -> (r: String)
    ensures
        r@ == sha256_hex(t@),
{
    format!("{:x}", Sha256::digest(t.as_bytes()))
}

/// `Url::parse(t).is_ok()`.
#[verifier::external_body]
fn is_url(t: &str) -> (r: bool)
    ensures
        r == url_parses(t@),
{
    Url::parse(t).is_ok()
}

/// The names that loading an archive uses, all made from the digest of the
/// URL or path that names the archive.
pub struct LoadNames {
    /// Whether the archive is named by a URL (downloaded) or by a path.
    pub is_url: bool,
    /// The directory of the cache.
    pub cache_dir: String,
    /// The cache file, in `cache_dir`.
    pub cache_file: String,
    /// The cache file while it is written.
    pub cache_part: String,
    /// The archive: a file in the temporary directory when downloaded, else
    /// the path given.
    pub archive: String,
    /// The archive while it is downloaded, in the temporary directory.
    pub archive_part: String,
    /// The directory the archive is unzipped into, in the temporary directory.
    pub unpacked: String,
    /// That directory while the archive is unzipped.
    pub unpacked_part: String,
}

/// Names the files of loading the archive named by `url_or_path`, with the
/// cache in `cache_prefix` (the current directory when none).
pub fn load_names(url_or_path: &str, cache_prefix: Option<String>) -> (r: LoadNames)
    ensures
        r.is_url == url_parses(url_or_path@),
        r.cache_dir@ == (match cache_prefix {
            Some(p) => p@,
            None => "./"@,
        }),
        r.cache_file@ == sha256_hex(url_or_path@) + ".cache"@,
        r.cache_part@ == sha256_hex(url_or_path@) + ".cache.part"@,
        r.archive@ == (if url_parses(url_or_path@) {
            sha256_hex(url_or_path@) + ".zip"@
        } else {
            url_or_path@
        }),
        r.archive_part@ == sha256_hex(url_or_path@) + ".zip.part"@,
        r.unpacked@ == sha256_hex(url_or_path@),
        r.unpacked_part@ == sha256_hex(url_or_path@) + ".part"@,
{
    let unique = sha256_hex_of(url_or_path);
    let url = is_url(url_or_path);
    let cache_dir = match cache_prefix {
        Some(p) => p,
        None => String::from_str("./"),
    };
    let archive = if url {
        joined(unique.as_str(), ".zip")
    } else {
        String::from_str(url_or_path)
    };
    LoadNames {
        is_url: url,
        cache_dir,
        cache_file: joined(unique.as_str(), ".cache"),
        cache_part: joined(unique.as_str(), ".cache.part"),
        archive,
        archive_part: joined(unique.as_str(), ".zip.part"),
        unpacked: unique.clone(),
        unpacked_part: joined(unique.as_str(), ".part"),
    }
}

} // verus!
