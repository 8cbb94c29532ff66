use vstd::prelude::*;

verus! {

/// Bind address of the HTTP server.
#[derive(Debug)]
pub struct Server {
    pub host: String,
    pub port: String,
}

impl Server {
    /// `host:port`.
    pub fn addr(&self) -> (r: String)
        ensures
            r@ == self.host@ + seq![':'] + self.port@,
    {
        proof {
            reveal_strlit(":");
        }
        let mut s = self.host.clone();
        s.append(":");
        s.append(self.port.as_str());
        s
    }
}

/// Log formats per level.
#[derive(Debug)]
pub struct LoggerMode {
    pub debug: String,
    pub error: String,
    pub warn: String,
    pub info: String,
}

/// Logging options.
#[derive(Debug)]
pub struct Logger {
    pub level: String,
    pub mode: LoggerMode,
    pub actix_log_format: String,
    pub exclude_endpoints: Vec<String>,
    pub exclude_endpoints_regex: Vec<String>,
}

/// Metrics surface.
#[derive(Debug)]
pub struct Prometheus {
    pub namespace: String,
    pub endpoint: String,
    pub exclude_endpoint_log: bool,
}

/// Cadence and retry cap of the recalculation worker.
#[derive(Debug, Clone, Copy, PartialEq, Eq, Structural)]
pub struct AutoPPRecalculate {
    pub interval: u64,
    pub max_retry: i32,
}

/// The server's configuration.
#[derive(Debug)]
pub struct Settings {
    pub env: String,
    pub debug: bool,
    pub osu_api_keys: Vec<String>,
    pub osu_files_dir: String,
    pub recalculate_osu_file_md5: bool,
    pub preload_osu_files: bool,
    pub beatmap_cache_max: i32,
    pub beatmap_cache_timeout: u64,
    pub timeout_beatmap_cache: Option<i64>,
    pub auto_clean_cache: bool,
    pub auto_clean_interval: u64,
    pub auto_pp_recalculate: AutoPPRecalculate,
    pub server: Server,
    pub logger: Logger,
    pub prom: Prometheus,
}

/// What to do with the `.osu` directory at boot.
#[derive(Debug, Clone, Copy, PartialEq, Eq, Structural)]
pub enum DirCheck {
    /// No directory is configured: an error.
    Missing,
    /// Rename every file after its md5.
    Rehash,
    /// Nothing.
    Keep,
}

impl Settings {
    /// Seconds a metadata record stays fresh: the durable profile's value when set,
    /// else the standalone one (capped at the largest `i64`).
    pub open spec fn spec_ttl(&self) -> int {
        match self.timeout_beatmap_cache {
            Some(t) => t as int,
            None => if self.beatmap_cache_timeout <= i64::MAX as u64 {
                self.beatmap_cache_timeout as int
            } else {
                i64::MAX as int
            },
        }
    }

    pub fn metadata_ttl(&self) -> (r: i64)
        ensures
            r as int == self.spec_ttl(),
    {
        match self.timeout_beatmap_cache {
            Some(t) => t,
            None => if self.beatmap_cache_timeout <= i64::MAX as u64 {
                self.beatmap_cache_timeout as i64
            } else {
                i64::MAX
            },
        }
    }

    /// Seconds after which the reaper drops a parsed beatmap (capped at the largest `i64`).
    pub fn reap_timeout(&self) -> (r: i64)
        ensures
            self.beatmap_cache_timeout <= i64::MAX as u64 ==> r == self.beatmap_cache_timeout as int,
            self.beatmap_cache_timeout > i64::MAX as u64 ==> r == i64::MAX,
    {
        if self.beatmap_cache_timeout <= i64::MAX as u64 {
            self.beatmap_cache_timeout as i64
        } else {
            i64::MAX
        }
    }

    /// How many parsed beatmaps the cache holds (none for a negative bound).
    pub fn parsed_cache_max(&self) -> (r: usize)
        ensures
            self.beatmap_cache_max < 0 ==> r == 0,
            self.beatmap_cache_max >= 0 ==> r == self.beatmap_cache_max as int,
    {
        if self.beatmap_cache_max < 0 {
            0
        } else {
            self.beatmap_cache_max as usize
        }
    }

    /// The boot check of the `.osu` directory.
    pub fn checking_osu_dir(&self) -> (r: DirCheck)
        ensures
            self.osu_files_dir@.len() == 0 ==> r == DirCheck::Missing,
            self.osu_files_dir@.len() != 0 && self.recalculate_osu_file_md5 ==> r == DirCheck::Rehash,
            self.osu_files_dir@.len() != 0 && !self.recalculate_osu_file_md5 ==> r == DirCheck::Keep,
    {
        if self.osu_files_dir.as_str().unicode_len() == 0 {
            DirCheck::Missing
        } else if self.recalculate_osu_file_md5 {
            DirCheck::Rehash
        } else {
            DirCheck::Keep
        }
    }
}

} // verus!
