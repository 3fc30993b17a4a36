//! Assembling the parameters of a collection run from the recording options.
use vstd::prelude::*;
use vstd::string::StringExecFns;
use crate::duration::{duration_spec, get_time_value, DurationFault, PDError, TimeType};
use crate::params::{run_dir_spec, utc_text, InitParams, RUN_TIME_PATTERN};

verus! {

/// Profiling feature for JVMs through async-profiler.
pub const JAVA_PROFILE_FILE_NAME: &'static str = "java_profile";

/// Profiling feature for the `perf` binary.
pub const PERF_PROFILE_FILE_NAME: &'static str = "perf_profile";

/// Flamegraphs drawn from the `perf` profile.
pub const FLAMEGRAPHS_FILE_NAME: &'static str = "flamegraphs";

/// Sampling interval when none is given: one second.
pub const DEFAULT_INTERVAL_MS: u64 = 1000;

/// Total period when none is given: ten seconds.
pub const DEFAULT_PERIOD_MS: u64 = 10000;

/// The options of a recording.
#[derive(Clone, Debug)]
pub struct Record {
    /// Name of the run.
    pub run_name: Option<String>,
    /// Sampling interval; `ms` for milliseconds (at least 10), else seconds.
    pub interval: Option<String>,
    /// Total collection time; `ms` for milliseconds, else seconds.
    pub period: Option<String>,
    /// Gather profiling data with the `perf` binary.
    pub profile: bool,
    /// Profile JVMs with async-profiler; the argument selects them.
    pub profile_java: Option<String>,
    /// Custom PMU configuration file.
    pub pmu_config: Option<String>,
}

/// A duration option: its parsed value, or the default in seconds.
pub open spec fn option_duration(opt: Option<String>, default: u64) -> Result<(u64, TimeType), DurationFault> {
    match opt {
        Some(s) => duration_spec(s@),
        None => Ok((default, TimeType::SECONDS)),
    }
}

pub open spec fn opt_view(o: Option<String>) -> Option<Seq<char>> {
    match o {
        Some(s) => Some(s@),
        None => None,
    }
}

pub open spec fn profile_view(p: InitParams) -> Seq<(Seq<char>, Seq<char>)> {
    p.profile@.map_values(|e: (String, String)| (e.0@, e.1@))
}

/// The profiling features that the options ask for, in the order they are set.
pub open spec fn profile_spec(record: Record) -> Seq<(Seq<char>, Seq<char>)> {
    let java: Seq<(Seq<char>, Seq<char>)> = match record.profile_java {
        Some(j) => seq![(JAVA_PROFILE_FILE_NAME@, j@)],
        None => Seq::empty(),
    };
    let perf: Seq<(Seq<char>, Seq<char>)> = if record.profile {
        seq![(PERF_PROFILE_FILE_NAME@, Seq::<char>::empty()), (FLAMEGRAPHS_FILE_NAME@, Seq::<char>::empty())]
    } else {
        Seq::empty()
    };
    java + perf
}

fn parse_option(opt: &Option<String>, field: &'static str, default: u64) -> (r: Result<(u64, TimeType), PDError>)
    ensures
        r is Ok <==> option_duration(*opt, default) is Ok,
        r matches Ok(v) ==> option_duration(*opt, default) == Ok::<(u64, TimeType), DurationFault>(v),
        r matches Err(e) ==> (e matches PDError::CollectorInvalidParams { field: f, fault } && f@ == field@
            && option_duration(*opt, default) == Err::<(u64, TimeType), DurationFault>(fault)),
{
    match opt {
        Some(s) => get_time_value(s.clone(), String::from_str(field)),
        None => Ok((default, TimeType::SECONDS)),
    }
}

/// The parameters of a run created now with `options`, temporary
/// output under `tmp_dir` and the log in `runlog`. A malformed interval is
/// reported before a malformed period.
pub fn record(options: &Record, tmp_dir: &str, runlog: &str) -> (r: Result<InitParams, PDError>)
    ensures
        r is Ok <==> (option_duration(options.interval, DEFAULT_INTERVAL_MS) is Ok
            && option_duration(options.period, DEFAULT_PERIOD_MS) is Ok),
        option_duration(options.interval, DEFAULT_INTERVAL_MS) matches Err(fault) ==> (r matches Err(e)
            && e matches PDError::CollectorInvalidParams { field, fault: f } && field@ == "interval"@ && f == fault),
        option_duration(options.interval, DEFAULT_INTERVAL_MS) is Ok ==> (
            option_duration(options.period, DEFAULT_PERIOD_MS) matches Err(fault) ==> (r matches Err(e)
            && e matches PDError::CollectorInvalidParams { field, fault: f } && field@ == "period"@ && f == fault)),
        r matches Ok(p) ==> (option_duration(options.interval, DEFAULT_INTERVAL_MS) matches Ok(iv)
            && p.interval_in_ms == iv.0 && p.interval_type == iv.1),
        r matches Ok(p) ==> (option_duration(options.period, DEFAULT_PERIOD_MS) matches Ok(pv)
            && p.period_in_ms == pv.0),
        r matches Ok(p) ==> p.run_name@ == match options.run_name {
            Some(n) => n@,
            None => Seq::<char>::empty(),
        },
        r matches Ok(p) ==> p.time_str@ == utc_text(p.time_now as int, RUN_TIME_PATTERN@),
        r matches Ok(p) ==> p.dir_name@ == run_dir_spec(p.time_str@),
        r matches Ok(p) ==> p.collector_version@.len() == 0 && p.commit_sha_short@.len() == 0,
        r matches Ok(p) ==> p.tmp_dir@ == tmp_dir@ && p.runlog@ == runlog@,
        r matches Ok(p) ==> opt_view(p.pmu_config) == opt_view(options.pmu_config),
        r matches Ok(p) ==> profile_view(p) == profile_spec(*options),
{
    proof {
        reveal_strlit("interval");
        reveal_strlit("period");
    }
    let (interval, interval_type) = match parse_option(&options.interval, "interval", DEFAULT_INTERVAL_MS) {
        Ok(v) => v,
        Err(e) => {
            return Err(e);
        },
    };
    let (period, _) = match parse_option(&options.period, "period", DEFAULT_PERIOD_MS) {
        Ok(v) => v,
        Err(e) => {
            return Err(e);
        },
    };
    let mut params = InitParams::new();
    if let Some(n) = &options.run_name {
        params.run_name = n.clone();
    }
    params.period_in_ms = period;
    params.interval_in_ms = interval;
    params.interval_type = interval_type;
    params.tmp_dir = String::from_str(tmp_dir);
    params.runlog = String::from_str(runlog);
    params.pmu_config = match &options.pmu_config {
        Some(p) => Some(p.clone()),
        None => None,
    };
    let mut profile: Vec<(String, String)> = Vec::new();
    if let Some(j) = &options.profile_java {
        profile.push((String::from_str(JAVA_PROFILE_FILE_NAME), j.clone()));
    }
    if options.profile {
        profile.push((String::from_str(PERF_PROFILE_FILE_NAME), String::new()));
        profile.push((String::from_str(FLAMEGRAPHS_FILE_NAME), String::new()));
    }
    params.profile = profile;
    assert(profile_view(params) =~= profile_spec(*options));
    Ok(params)
}

} // verus!
