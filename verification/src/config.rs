//! Settings of the application.
use vstd::prelude::*;

verus! {

/// Which title names the CBZ file of a gallery.
#[derive(Clone, Copy, Debug, PartialEq, Eq, Structural)]
pub enum TitleType {
    English,
    Japanese,
    Pretty,
}

impl Default for TitleType {
    fn default() -> (r: Self)
        ensures
            r == TitleType::English,
    {
        TitleType::English
    }
}

/// Collection of settings making up the configuration of the application.
/// An absent optional setting takes the default that its accessor states.
#[allow(non_snake_case)]
#[derive(Clone, Debug, PartialEq, Eq)]
pub struct Config {
    /// Use a media server directly instead of the load balancer.
    pub CIRCUMVENT_LOAD_BALANCER: Option<bool>,
    /// Cookie `cf_clearance` sent with every request.
    pub CF_CLEARANCE: Option<String>,
    /// Delete the directory of downloaded images after packing them.
    pub CLEANUP_TEMPORARY_FILES: Option<bool>,
    /// Cookie `csrftoken` sent with every request.
    pub CSRFTOKEN: Option<String>,
    /// URL of the SQLite database of metadata.
    pub DATABASE_URL: String,
    pub DEBUG: Option<bool>,
    /// File of gallery identifiers never to download.
    pub DONTDOWNLOADME_FILEPATH: Option<String>,
    /// Number of images downloaded at the same time.
    pub DOWNLOAD_WORKERS: Option<usize>,
    /// File of gallery identifiers to download.
    pub DOWNLOADME_FILEPATH: Option<String>,
    /// Which title names the CBZ files.
    pub FILENAME_TITLE_TYPE: Option<TitleType>,
    /// Directory of the library; ends with a path separator.
    pub LIBRARY_PATH: String,
    /// Split the library into directories of at most this many galleries; 0 does not split.
    pub LIBRARY_SPLIT: Option<u32>,
    /// Tag search that feeds server mode; absent means client mode.
    pub NHENTAI_TAGS: Option<Vec<String>>,
    /// Seconds to sleep between two rounds of server mode.
    pub SLEEP_INTERVAL: Option<u64>,
    /// User agent sent with every request.
    pub USER_AGENT: Option<String>,
}

pub open spec fn opt_str_is(o: Option<String>, s: Seq<char>) -> bool {
    match o {
        Some(x) => x@ == s,
        None => false,
    }
}

impl Default for Config {
    fn default() -> (r: Self)
        ensures
            r.CIRCUMVENT_LOAD_BALANCER is None,
            opt_str_is(r.CF_CLEARANCE, ""@),
            r.CLEANUP_TEMPORARY_FILES is None,
            opt_str_is(r.CSRFTOKEN, ""@),
            r.DATABASE_URL@ == "./db/db.sqlite"@,
            r.DEBUG is None,
            opt_str_is(r.DONTDOWNLOADME_FILEPATH, "./config/dontdownloadme.txt"@),
            r.DOWNLOAD_WORKERS is None,
            opt_str_is(r.DOWNLOADME_FILEPATH, "./config/downloadme.txt"@),
            r.FILENAME_TITLE_TYPE is None,
            r.LIBRARY_PATH@ == "./hentai/"@,
            r.LIBRARY_SPLIT is None,
            r.NHENTAI_TAGS is None,
            r.SLEEP_INTERVAL == Some(50000u64),
            opt_str_is(r.USER_AGENT, ""@),
    {
        Config {
            CIRCUMVENT_LOAD_BALANCER: None,
            CF_CLEARANCE: Some("".to_owned()),
            CLEANUP_TEMPORARY_FILES: None,
            CSRFTOKEN: Some("".to_owned()),
            DATABASE_URL: "./db/db.sqlite".to_owned(),
            DEBUG: None,
            DONTDOWNLOADME_FILEPATH: Some("./config/dontdownloadme.txt".to_owned()),
            DOWNLOAD_WORKERS: None,
            DOWNLOADME_FILEPATH: Some("./config/downloadme.txt".to_owned()),
            FILENAME_TITLE_TYPE: None,
            LIBRARY_PATH: "./hentai/".to_owned(),
            LIBRARY_SPLIT: None,
            NHENTAI_TAGS: None,
            SLEEP_INTERVAL: Some(50000),
            USER_AGENT: Some("".to_owned()),
        }
    }
}


impl Config {
    /// Size of the directories of a split library; 0, the default, does not split.
    pub fn library_split(&self) -> (r: u32)
        ensures
            r == match self.LIBRARY_SPLIT {
                Some(n) => n,
                None => 0,
            },
    {
        match self.LIBRARY_SPLIT {
            Some(n) => n,
            None => 0,
        }
    }

    /// Whether the downloaded images are deleted once packed; by default they are.
    pub fn cleanup_temporary_files(&self) -> (r: bool)
        ensures
            r == match self.CLEANUP_TEMPORARY_FILES {
                Some(b) => b,
                None => true,
            },
    {
        match self.CLEANUP_TEMPORARY_FILES {
            Some(b) => b,
            None => true,
        }
    }

    /// Seconds between two rounds of server mode; 0 by default.
    pub fn sleep_interval(&self) -> (r: u64)
        ensures
            r == match self.SLEEP_INTERVAL {
                Some(n) => n,
                None => 0,
            },
    {
        match self.SLEEP_INTERVAL {
            Some(n) => n,
            None => 0,
        }
    }

    /// Number of images downloaded at the same time; 5 by default. At least
    /// one image is downloaded at a time, so a setting of 0 counts as 1.
    pub fn download_workers(&self) -> (r: usize)
        ensures
            r == match self.DOWNLOAD_WORKERS {
                Some(n) => if n == 0 { 1 } else { n },
                None => 5,
            },
            r >= 1,
    {
        match self.DOWNLOAD_WORKERS {
            Some(n) => if n == 0 { 1 } else { n },
            None => 5,
        }
    }

    /// The title that names the CBZ files; English by default.
    pub fn filename_title_type(&self) -> (r: TitleType)
        ensures
            r == match self.FILENAME_TITLE_TYPE {
                Some(t) => t,
                None => TitleType::English,
            },
    {
        match self.FILENAME_TITLE_TYPE {
            Some(t) => t,
            None => TitleType::English,
        }
    }

    /// Server mode runs while tags to search are set; otherwise client mode
    /// downloads once.
    pub fn server_mode(&self) -> (r: bool)
        ensures
            r == self.NHENTAI_TAGS is Some,
    {
        self.NHENTAI_TAGS.is_some()
    }
}

} // verus!
