//! The configuration of one collection run.
use vstd::prelude::*;
use crate::duration::TimeType;

verus! {

/// Prefix of the directory that a run is written to.
pub const RUN_DIR_PREFIX: &'static str = "./performance_data_";

/// Pattern of the time stamp that names a run directory.
pub const RUN_TIME_PATTERN: &'static str = "%Y-%m-%d_%H_%M_%S";

/// What chrono writes for a UTC time stamp, given in whole seconds since the
/// Unix epoch, under a strftime pattern.
pub uninterp spec fn utc_text(secs: int, pattern: Seq<char>) -> Seq<char>;

/// Relies on `chrono::Utc::now` and `DateTime::timestamp`: the current time in
/// whole seconds since the Unix epoch. Nothing is promised of the value.
#[verifier::external_body]
fn now_unix_seconds() -> (r: i64) {
    chrono::Utc::now().timestamp()
}

/// Relies on chrono's `DateTime::from_timestamp` and `DateTime::format`: the
/// text of a UTC time stamp under `pattern`; the result depends on the two
/// arguments alone. Only the run-directory pattern, which chrono's strftime
/// parser accepts, is handed over: a rejected pattern would panic.
#[verifier::external_body]
fn format_utc(secs: i64, pattern: &str) -> (r: String)
    requires
        pattern@ == RUN_TIME_PATTERN@,
    ensures
        r@ == utc_text(secs as int, pattern@),
{
    chrono::DateTime::from_timestamp(secs, 0).unwrap_or_default().format(pattern).to_string()
}

/// Parameters of one collection run. Its on-disk projection is the run's
/// manifest.
#[derive(Clone, Debug)]
pub struct InitParams {
    /// Creation time, in whole seconds since the Unix epoch (UTC).
    pub time_now: i64,
    /// `time_now` written under `RUN_TIME_PATTERN`.
    pub time_str: String,
    /// Directory that the run is written to.
    pub dir_name: String,
    /// Total collection duration in milliseconds.
    pub period_in_ms: u64,
    /// Sampling interval in milliseconds.
    pub interval_in_ms: u64,
    /// Unit in which the interval was given.
    pub interval_type: TimeType,
    pub run_name: String,
    pub collector_version: String,
    pub commit_sha_short: String,
    /// Directory for temporary output.
    pub tmp_dir: String,
    /// File that the run's log goes to.
    pub runlog: String,
    /// Custom PMU configuration file.
    pub pmu_config: Option<String>,
    /// Profiling features, each with its argument string.
    pub profile: Vec<(String, String)>,
}

/// The name of the directory of a run created at `time_str`.
pub open spec fn run_dir_spec(time_str: Seq<char>) -> Seq<char> {
    RUN_DIR_PREFIX@ + time_str
}

impl InitParams {
    /// Parameters of a run created at `time_now`, written `time_str`, with the
    /// directory named after it and every other field empty or zero.
    pub fn at_time(time_now: i64, time_str: String) -> (r: InitParams)
        ensures
            r.time_now == time_now,
            r.time_str@ == time_str@,
            r.dir_name@ == run_dir_spec(time_str@),
            r.period_in_ms == 0,
            r.interval_in_ms == 0,
            r.interval_type == TimeType::SECONDS,
            r.run_name@.len() == 0,
            r.collector_version@.len() == 0,
            r.commit_sha_short@.len() == 0,
            r.tmp_dir@.len() == 0,
            r.runlog@.len() == 0,
            r.pmu_config is None,
            r.profile@.len() == 0,
    {
        let mut dir_name = String::from_str(RUN_DIR_PREFIX);
        proof {
            reveal_strlit("./performance_data_");
        }
        dir_name.append(time_str.as_str());
        InitParams {
            time_now,
            time_str,
            dir_name,
            period_in_ms: 0,
            interval_in_ms: 0,
            interval_type: TimeType::SECONDS,
            run_name: String::new(),
            collector_version: String::new(),
            commit_sha_short: String::new(),
            tmp_dir: String::new(),
            runlog: String::new(),
            pmu_config: None,
            profile: Vec::new(),
        }
    }

    /// Parameters of a run created now. The tool version and source revision
    /// are left empty: they belong to the build, and `set_build_info` records
    /// them.
    pub fn new() -> (r: InitParams)
        ensures
            r.time_str@ == utc_text(r.time_now as int, RUN_TIME_PATTERN@),
            r.dir_name@ == run_dir_spec(r.time_str@),
            r.period_in_ms == 0,
            r.interval_in_ms == 0,
            r.run_name@.len() == 0,
            r.profile@.len() == 0,
            r.collector_version@.len() == 0,
            r.commit_sha_short@.len() == 0,
            r.tmp_dir@.len() == 0,
            r.runlog@.len() == 0,
            r.pmu_config is None,
            r.interval_type == TimeType::SECONDS,
    {
        let secs = now_unix_seconds();
        let time_str = format_utc(secs, RUN_TIME_PATTERN);
        InitParams::at_time(secs, time_str)
    }

    /// Records the tool version and source revision of the build that
    /// collects the run.
    pub fn set_build_info(&mut self, collector_version: String, commit_sha_short: String)
        ensures
            final(self).collector_version == collector_version,
            final(self).commit_sha_short == commit_sha_short,
            final(self).time_now == old(self).time_now,
            final(self).time_str == old(self).time_str,
            final(self).dir_name == old(self).dir_name,
            final(self).period_in_ms == old(self).period_in_ms,
            final(self).interval_in_ms == old(self).interval_in_ms,
            final(self).interval_type == old(self).interval_type,
            final(self).run_name == old(self).run_name,
            final(self).tmp_dir == old(self).tmp_dir,
            final(self).runlog == old(self).runlog,
            final(self).pmu_config == old(self).pmu_config,
            final(self).profile == old(self).profile,
    {
        self.collector_version = collector_version;
        self.commit_sha_short = commit_sha_short;
    }
}

impl Default for InitParams {
    /// Parameters of a run created now.
    fn default() -> (r: InitParams)
        ensures
            r.time_str@ == utc_text(r.time_now as int, RUN_TIME_PATTERN@),
            r.dir_name@ == run_dir_spec(r.time_str@),
            r.period_in_ms == 0,
            r.interval_in_ms == 0,
            r.run_name@.len() == 0,
            r.profile@.len() == 0,
            r.collector_version@.len() == 0,
            r.commit_sha_short@.len() == 0,
            r.tmp_dir@.len() == 0,
            r.runlog@.len() == 0,
            r.pmu_config is None,
            r.interval_type == TimeType::SECONDS,
    {
        InitParams::new()
    }
}

} // verus!
