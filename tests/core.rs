use aperf::duration::DurationFault;
use aperf::params::InitParams;
use aperf::manifest::contains_fragment;
use aperf::{
    find_entry, get_time_value, MANIFEST_NAME, record, Collector, DataType, DataVisualizer, PDError, PerformanceData, Record,
    Scheduler, TimeType, VisualizationData, Visualizer,
};
use std::cell::RefCell;
use std::rc::Rc;

type Log = Rc<RefCell<Vec<String>>>;

struct TestCollector {
    name: String,
    log: Log,
    fail_collect: bool,
}

impl Collector for TestCollector {
    fn init(&mut self, _params: &InitParams) -> Result<(), String> {
        self.log.borrow_mut().push(format!("init {}", self.name));
        Ok(())
    }
    fn collect(&mut self) -> Result<(), String> {
        if self.fail_collect {
            return Err(format!("{} broke", self.name));
        }
        self.log.borrow_mut().push(format!("collect {}", self.name));
        Ok(())
    }
    fn persist(&mut self) -> Result<(), String> {
        self.log.borrow_mut().push(format!("persist {}", self.name));
        Ok(())
    }
    fn finalize(&mut self) -> Result<(), String> {
        self.log.borrow_mut().push(format!("finalize {}", self.name));
        Ok(())
    }
}

fn collector(name: &str, is_static: bool, log: &Log, fail_collect: bool) -> DataType<TestCollector> {
    DataType {
        is_static,
        unit: TestCollector { name: name.to_string(), log: log.clone(), fail_collect },
    }
}

#[test]
fn test_performance_data_new() {
    let pd: PerformanceData<TestCollector> = PerformanceData::new();

    let dir_name = format!(
        "./performance_data_{}",
        chrono::DateTime::from_timestamp(pd.init_params.time_now, 0)
            .unwrap()
            .format("%Y-%m-%d_%H_%M_%S")
    );
    assert!(pd.collectors.is_empty());
    assert!(pd.init_params.dir_name == dir_name);
}

fn fault_of(r: Result<(u64, TimeType), PDError>, field: &str) -> DurationFault {
    match r {
        Err(PDError::CollectorInvalidParams { field: f, fault }) => {
            assert_eq!(f, field);
            fault
        }
        other => panic!("expected a validation error, got {:?}", other),
    }
}

#[test]
fn duration_milliseconds() {
    let r = get_time_value("50ms".to_string(), "interval".to_string()).unwrap();
    assert_eq!(r.0, 50);
    assert!(r.1 == TimeType::MILLISECONDS);
}

#[test]
fn duration_seconds_suffix_and_bare() {
    let r = get_time_value("5s".to_string(), "period".to_string()).unwrap();
    assert_eq!(r.0, 5000);
    assert!(r.1 == TimeType::SECONDS);
    let r = get_time_value("5".to_string(), "period".to_string()).unwrap();
    assert_eq!(r.0, 5000);
    assert!(r.1 == TimeType::SECONDS);
    let r = get_time_value("+12".to_string(), "period".to_string()).unwrap();
    assert_eq!(r.0, 12000);
}

#[test]
fn duration_errors_name_field() {
    let f = fault_of(get_time_value("5ms".to_string(), "interval".to_string()), "interval");
    assert_eq!(f, DurationFault::BelowFloor);
    let f = fault_of(get_time_value("0s".to_string(), "period".to_string()), "period");
    assert_eq!(f, DurationFault::Zero);
    let f = fault_of(get_time_value("0".to_string(), "period".to_string()), "period");
    assert_eq!(f, DurationFault::Zero);
    let f = fault_of(get_time_value("abc".to_string(), "interval".to_string()), "interval");
    assert_eq!(f, DurationFault::Unparsable);
    let f = fault_of(get_time_value("".to_string(), "interval".to_string()), "interval");
    assert_eq!(f, DurationFault::Unparsable);
    let f = fault_of(get_time_value("ms".to_string(), "interval".to_string()), "interval");
    assert_eq!(f, DurationFault::Unparsable);
    let f = fault_of(get_time_value("18446744073709552s".to_string(), "period".to_string()), "period");
    assert_eq!(f, DurationFault::OutOfRange);
    let f = fault_of(get_time_value("18446744073709551616ms".to_string(), "period".to_string()), "period");
    assert_eq!(f, DurationFault::Unparsable);
}

#[test]
fn duration_floor_is_ten_milliseconds() {
    let r = get_time_value("10ms".to_string(), "interval".to_string()).unwrap();
    assert_eq!(r.0, 10);
    let f = fault_of(get_time_value("9ms".to_string(), "interval".to_string()), "interval");
    assert_eq!(f, DurationFault::BelowFloor);
}

#[test]
fn scheduler_nominal_run_elapsed() {
    let mut s = Scheduler::arm(2500, 1000);
    let mut passes = 0;
    while s.is_running() {
        let a = s.on_tick(1);
        assert_eq!(a.missed, 0);
        passes += a.passes;
    }
    assert_eq!(passes, 3);
    assert_eq!(s.wakes, 3);
    assert_eq!(s.current, 3000);
    assert!(s.current >= 2500 && s.current < 3500);
}

#[test]
fn scheduler_period_multiple_of_interval() {
    let mut s = Scheduler::arm(2000, 1000);
    while s.is_running() {
        s.on_tick(1);
    }
    assert_eq!(s.current, 2000);
    assert_eq!(s.wakes, 2);
}

#[test]
fn scheduler_overrun_runs_one_pass() {
    let mut s = Scheduler::arm(10000, 1000);
    let a = s.on_tick(3);
    assert_eq!(a.passes, 1);
    assert_eq!(a.missed, 2);
    assert_eq!(s.current, 3000);
    assert_eq!(s.wakes, 1);
}

fn registry(log: &Log) -> PerformanceData<TestCollector> {
    let mut pd = PerformanceData::new();
    pd.add_datatype("cpu".to_string(), collector("cpu", false, log, false));
    pd.add_datatype("sysctl".to_string(), collector("sysctl", true, log, false));
    pd.add_datatype("mem".to_string(), collector("mem", false, log, false));
    pd
}

#[test]
fn static_pass_runs_static_collectors_once() {
    let log: Log = Rc::new(RefCell::new(Vec::new()));
    let mut pd = registry(&log);
    let ran = pd.collect_static_data().unwrap();
    assert_eq!(ran, vec!["sysctl".to_string()]);
    assert_eq!(*log.borrow(), vec!["collect sysctl".to_string(), "persist sysctl".to_string()]);
}

#[test]
fn periodic_tick_runs_periodic_collectors() {
    let log: Log = Rc::new(RefCell::new(Vec::new()));
    let mut pd = registry(&log);
    let ran = pd.collect_periodic_tick().unwrap();
    assert_eq!(ran, vec!["cpu".to_string(), "mem".to_string()]);
    let ran = pd.collect_periodic_tick().unwrap();
    assert_eq!(ran, vec!["cpu".to_string(), "mem".to_string()]);
    assert_eq!(log.borrow().len(), 8);
    assert!(!log.borrow().iter().any(|l| l.contains("sysctl")));
}

#[test]
fn registering_a_name_again_replaces_it() {
    let log: Log = Rc::new(RefCell::new(Vec::new()));
    let mut pd = registry(&log);
    pd.add_datatype("cpu".to_string(), collector("cpu", true, &log, false));
    assert_eq!(pd.names.len(), 3);
    let ran = pd.collect_static_data().unwrap();
    assert_eq!(ran, vec!["cpu".to_string(), "sysctl".to_string()]);
}

#[test]
fn collector_failure_stops_the_pass() {
    let log: Log = Rc::new(RefCell::new(Vec::new()));
    let mut pd = PerformanceData::new();
    pd.add_datatype("a".to_string(), collector("a", false, &log, true));
    pd.add_datatype("b".to_string(), collector("b", false, &log, false));
    match pd.collect_periodic_tick() {
        Err(PDError::CollectorError { name, message }) => {
            assert_eq!(name, "a");
            assert_eq!(message, "a broke");
        }
        other => panic!("unexpected {:?}", other.map(|_| ())),
    }
    assert!(log.borrow().is_empty());
}

#[test]
fn init_and_end_reach_every_collector() {
    let log: Log = Rc::new(RefCell::new(Vec::new()));
    let mut pd = registry(&log);
    pd.init_collectors().unwrap();
    pd.end().unwrap();
    let l = log.borrow();
    assert_eq!(l.iter().filter(|x| x.starts_with("init ")).count(), 3);
    assert_eq!(l.iter().filter(|x| x.starts_with("finalize ")).count(), 3);
}

struct TestVisualizer {
    name: String,
    log: Log,
    fail_unpack: bool,
}

impl Visualizer for TestVisualizer {
    fn init_visualizer(&mut self, dir: String, run_name: String) -> Result<(), String> {
        self.log.borrow_mut().push(format!("init {} {} {}", self.name, dir, run_name));
        Ok(())
    }
    fn process_raw_data(&mut self, run_name: String) -> Result<(), String> {
        if self.fail_unpack {
            return Err(format!("{} cannot read {}", self.name, run_name));
        }
        self.log.borrow_mut().push(format!("unpack {} {}", self.name, run_name));
        Ok(())
    }
    fn get_data(&mut self, query: String) -> Result<String, String> {
        Ok(format!("{}:{}", self.name, query))
    }
}

fn visualizer(name: &str, log: &Log, fail_unpack: bool) -> DataVisualizer<TestVisualizer> {
    DataVisualizer {
        js_file_name: format!("js/{}.js", name),
        js: format!("draw_{}()", name),
        unit: TestVisualizer { name: name.to_string(), log: log.clone(), fail_unpack },
    }
}

#[test]
fn query_unknown_visualizer_fails_naming_it() {
    let log: Log = Rc::new(RefCell::new(Vec::new()));
    let mut vd = VisualizationData::new();
    vd.add_visualizer("cpu".to_string(), visualizer("cpu", &log, false));
    match vd.get_data("disk", "q".to_string()) {
        Err(PDError::VisualizerHashMapEntryError(n)) => assert_eq!(n, "disk"),
        other => panic!("unexpected {:?}", other),
    }
    assert_eq!(vd.get_data("cpu", "q".to_string()).unwrap(), "cpu:q");
}

#[test]
fn get_script_known_and_unknown() {
    let log: Log = Rc::new(RefCell::new(Vec::new()));
    let mut vd = VisualizationData::new();
    vd.add_visualizer("cpu".to_string(), visualizer("cpu", &log, false));
    assert_eq!(vd.get_js_file("js/cpu.js".to_string()).unwrap(), "draw_cpu()");
    match vd.get_js_file("js/none.js".to_string()) {
        Err(PDError::VisualizerJSFileGetError(n)) => assert_eq!(n, "js/none.js"),
        other => panic!("unexpected {:?}", other),
    }
}

#[test]
fn init_accumulates_run_names_in_order() {
    let log: Log = Rc::new(RefCell::new(Vec::new()));
    let mut vd = VisualizationData::new();
    vd.add_visualizer("cpu".to_string(), visualizer("cpu", &log, false));
    let r1 = vd.init_visualizers("./run_a".to_string(), vec!["run_a".to_string()]).unwrap();
    let r2 = vd.init_visualizers("./run_b".to_string(), vec!["run_b".to_string()]).unwrap();
    assert_eq!(r1, "run_a");
    assert_eq!(r2, "run_b");
    assert_eq!(vd.run_names, vec!["run_a".to_string(), "run_b".to_string()]);
    assert_eq!(vd.get_run_names().unwrap(), "[\"run_a\",\"run_b\"]");
    assert_eq!(log.borrow()[1], "init cpu ./run_b run_b");
}

#[test]
fn init_without_manifest_document_fails() {
    let mut vd: VisualizationData<TestVisualizer> = VisualizationData::new();
    match vd.init_visualizers("./empty".to_string(), Vec::new()) {
        Err(PDError::ManifestMissing(d)) => assert_eq!(d, "./empty"),
        other => panic!("unexpected {:?}", other),
    }
    assert!(vd.run_names.is_empty());
}

#[test]
fn unpack_failure_does_not_block_others() {
    let log: Log = Rc::new(RefCell::new(Vec::new()));
    let mut vd = VisualizationData::new();
    vd.add_visualizer("broken".to_string(), visualizer("broken", &log, true));
    vd.add_visualizer("cpu".to_string(), visualizer("cpu", &log, false));
    let reports = vd.unpack_data("run_a".to_string());
    assert_eq!(reports.len(), 2);
    assert_eq!(reports[0].visualizer, "broken");
    assert!(reports[0].outcome.is_err());
    assert_eq!(reports[1].visualizer, "cpu");
    assert!(reports[1].outcome.is_ok());
    assert_eq!(*log.borrow(), vec!["unpack cpu run_a".to_string()]);
}

#[test]
fn run_names_json_empty() {
    let vd: VisualizationData<TestVisualizer> = VisualizationData::new();
    assert_eq!(vd.get_run_names().unwrap(), "[]");
}

#[test]
fn init_params_directory_from_time() {
    let p = InitParams::at_time(0, "1970-01-01_00_00_00".to_string());
    assert_eq!(p.dir_name, "./performance_data_1970-01-01_00_00_00");
    let q = InitParams::new();
    let text = chrono::DateTime::from_timestamp(q.time_now, 0).unwrap().format("%Y-%m-%d_%H_%M_%S").to_string();
    assert_eq!(q.time_str, text);
    assert_eq!(q.time_str.len(), 19);
}

fn options() -> Record {
    Record { run_name: None, interval: None, period: None, profile: false, profile_java: None, pmu_config: None }
}

#[test]
fn record_defaults() {
    let p = record(&options(), "/tmp", "/tmp/run.log").unwrap();
    assert_eq!(p.interval_in_ms, 1000);
    assert_eq!(p.period_in_ms, 10000);
    assert!(p.interval_type == TimeType::SECONDS);
    assert_eq!(p.run_name, "");
    assert_eq!(p.tmp_dir, "/tmp");
    assert_eq!(p.runlog, "/tmp/run.log");
    assert!(p.profile.is_empty());
}

#[test]
fn record_options() {
    let mut o = options();
    o.run_name = Some("bench".to_string());
    o.interval = Some("100ms".to_string());
    o.period = Some("3".to_string());
    o.profile = true;
    o.profile_java = Some("jps".to_string());
    o.pmu_config = Some("pmu.json".to_string());
    let p = record(&o, "/tmp", "/tmp/log").unwrap();
    assert_eq!(p.interval_in_ms, 100);
    assert!(p.interval_type == TimeType::MILLISECONDS);
    assert_eq!(p.period_in_ms, 3000);
    assert_eq!(p.run_name, "bench");
    assert_eq!(p.pmu_config, Some("pmu.json".to_string()));
    assert_eq!(
        p.profile,
        vec![
            ("java_profile".to_string(), "jps".to_string()),
            ("perf_profile".to_string(), String::new()),
            ("flamegraphs".to_string(), String::new()),
        ]
    );
}

#[test]
fn record_reports_interval_before_period() {
    let mut o = options();
    o.interval = Some("1ms".to_string());
    o.period = Some("x".to_string());
    match record(&o, "/tmp", "/tmp/log") {
        Err(PDError::CollectorInvalidParams { field, fault }) => {
            assert_eq!(field, "interval");
            assert_eq!(fault, DurationFault::BelowFloor);
        }
        other => panic!("unexpected {:?}", other.map(|_| ())),
    }
    o.interval = None;
    match record(&o, "/tmp", "/tmp/log") {
        Err(PDError::CollectorInvalidParams { field, fault }) => {
            assert_eq!(field, "period");
            assert_eq!(fault, DurationFault::Unparsable);
        }
        other => panic!("unexpected {:?}", other.map(|_| ())),
    }
}

#[test]
fn manifest_entry_is_first_match() {
    let entries = vec![
        "cpu_utilization.bin".to_string(),
        "meta_data.yaml".to_string(),
        "old_meta_data.yaml".to_string(),
    ];
    assert_eq!(find_entry(&entries, MANIFEST_NAME), Some(1));
    assert_eq!(find_entry(&entries, "vmstat"), None);
    assert_eq!(find_entry(&Vec::new(), MANIFEST_NAME), None);
}

#[test]
fn fragment_search() {
    assert!(contains_fragment("abcabd", "abd"));
    assert!(contains_fragment("abc", ""));
    assert!(!contains_fragment("ab", "abc"));
    assert!(!contains_fragment("aabba", "abab"));
}

#[test]
fn wake_with_backlog_runs_one_pass() {
    let log: Log = Rc::new(RefCell::new(Vec::new()));
    let mut pd = registry(&log);
    let mut s = Scheduler::arm(10000, 1000);
    let (action, ran) = pd.collect_on_wake(&mut s, 4).unwrap();
    assert_eq!(action.passes, 1);
    assert_eq!(action.missed, 3);
    assert_eq!(ran, vec!["cpu".to_string(), "mem".to_string()]);
    assert_eq!(s.current, 4000);
    assert_eq!(log.borrow().len(), 4);
}

#[test]
fn overrun_run_still_covers_period() {
    let mut s = Scheduler::arm(2500, 1000);
    s.on_tick(2);
    assert!(s.is_running());
    s.on_tick(3);
    assert!(!s.is_running());
    assert!(s.current >= 2500);
}

#[test]
fn build_info_is_recorded() {
    let mut p = record(&options(), "/tmp", "/tmp/log").unwrap();
    assert_eq!(p.collector_version, "");
    p.set_build_info("0.1.0".to_string(), "abc1234".to_string());
    assert_eq!(p.collector_version, "0.1.0");
    assert_eq!(p.commit_sha_short, "abc1234");
    assert_eq!(p.interval_in_ms, 1000);
}

#[test]
fn registering_replaces_the_stored_visualizer() {
    let log: Log = Rc::new(RefCell::new(Vec::new()));
    let mut vd = VisualizationData::new();
    vd.add_visualizer("cpu".to_string(), visualizer("cpu", &log, false));
    vd.add_visualizer("cpu".to_string(), visualizer("mem", &log, false));
    assert_eq!(vd.names.len(), 1);
    assert_eq!(vd.get_data("cpu", "q".to_string()).unwrap(), "mem:q");
}

#[test]
fn set_params_keeps_collectors() {
    let log: Log = Rc::new(RefCell::new(Vec::new()));
    let mut pd = registry(&log);
    let mut p = InitParams::at_time(0, "t".to_string());
    p.period_in_ms = 5000;
    pd.set_params(p);
    assert_eq!(pd.init_params.period_in_ms, 5000);
    assert_eq!(pd.names, vec!["cpu".to_string(), "sysctl".to_string(), "mem".to_string()]);
    assert!(log.borrow().is_empty());
}
