//! The collector registry: named collector units and the passes that run them.
use vstd::prelude::*;
use crate::duration::PDError;
use crate::keyed::{find_key, keyed_map, lemma_index_of, lemma_index_of_unique, lemma_keyed_push, lemma_keyed_update, string_seq};
use crate::params::{run_dir_spec, utc_text, InitParams, RUN_TIME_PATTERN};
use crate::scheduler::{Scheduler, TickAction};

verus! {

/// A pluggable unit that gathers one category of metric and persists it.
pub trait Collector {
    /// Prepares the unit for a run.
    fn init(&mut self, params: &InitParams) -> Result<(), String>;

    /// Gathers one sample.
    fn collect(&mut self) -> Result<(), String>;

    /// Writes what was gathered.
    fn persist(&mut self) -> Result<(), String>;

    /// Tears the unit down at the end of a run.
    fn finalize(&mut self) -> Result<(), String>;
}

/// A collector unit with the flag that says whether it runs once (static) or
/// on every tick.
pub struct DataType<C> {
    pub is_static: bool,
    pub unit: C,
}

/// The registry of collectors of one process, with the parameters of the
/// current run.
pub struct PerformanceData<C> {
    pub names: Vec<String>,
    pub collectors: Vec<DataType<C>>,
    pub init_params: InitParams,
}

/// The names, among `names`, whose flag in `flags` equals `want`, in order.
pub open spec fn names_with_flag(names: Seq<Seq<char>>, flags: Seq<bool>, want: bool) -> Seq<Seq<char>>
    decreases names.len(),
{
    if names.len() == 0 || flags.len() == 0 {
        Seq::empty()
    } else {
        let rest = names_with_flag(names.drop_last(), flags.drop_last(), want);
        if flags.last() == want {
            rest.push(names.last())
        } else {
            rest
        }
    }
}

proof fn lemma_names_with_flag(names: Seq<Seq<char>>, flags: Seq<bool>, want: bool)
    requires
        names.len() == flags.len(),
        names.no_duplicates(),
    ensures
        names_with_flag(names, flags, want).no_duplicates(),
        forall|k: Seq<char>| #[trigger] names_with_flag(names, flags, want).contains(k)
            <==> exists|j: int| 0 <= j < names.len() && names[j] == k && flags[j] == want,
    decreases names.len(),
{
    if names.len() > 0 {
        let n = names.drop_last();
        let f = flags.drop_last();
        assert(n.no_duplicates()) by {
            assert forall|a: int, b: int| 0 <= a < n.len() && 0 <= b < n.len() && a != b implies n[a] != n[b] by {
                assert(n[a] == names[a] && n[b] == names[b]);
            }
        }
        lemma_names_with_flag(n, f, want);
        let rest = names_with_flag(n, f, want);
        let last = names.len() - 1;
        assert forall|k: Seq<char>| #[trigger] names_with_flag(names, flags, want).contains(k)
            <==> exists|j: int| 0 <= j < names.len() && names[j] == k && flags[j] == want by {
            if exists|j: int| 0 <= j < names.len() && names[j] == k && flags[j] == want {
                let j = choose|j: int| 0 <= j < names.len() && names[j] == k && flags[j] == want;
                if j < last {
                    assert(n[j] == k && f[j] == want);
                    assert(rest.contains(k));
                    if flags.last() == want {
                        let t = choose|t: int| 0 <= t < rest.len() && rest[t] == k;
                        assert(rest.push(names.last())[t] == k);
                    }
                } else {
                    assert(rest.push(names.last())[rest.len() as int] == k);
                }
            }
            if names_with_flag(names, flags, want).contains(k) {
                if flags.last() == want && k == names.last() {
                    assert(names[last] == k && flags[last] == want);
                } else {
                    if flags.last() == want {
                        let t = choose|t: int| 0 <= t < rest.len() + 1 && rest.push(names.last())[t] == k;
                        assert(t < rest.len());
                        assert(rest[t] == k);
                    }
                    assert(rest.contains(k));
                    let j = choose|j: int| 0 <= j < n.len() && n[j] == k && f[j] == want;
                    assert(names[j] == k && flags[j] == want);
                }
            }
        }
        if flags.last() == want {
            assert(!rest.contains(names.last())) by {
                if rest.contains(names.last()) {
                    let j = choose|j: int| 0 <= j < n.len() && n[j] == names.last() && f[j] == want;
                    assert(names[j] == names[last]);
                }
            }
            let r = rest.push(names.last());
            assert forall|a: int, b: int| 0 <= a < r.len() && 0 <= b < r.len() && a != b implies r[a] != r[b] by {
                if a == rest.len() {
                    assert(rest[b] == r[b]);
                    assert(rest.contains(r[b]));
                } else if b == rest.len() {
                    assert(rest[a] == r[a]);
                    assert(rest.contains(r[a]));
                } else {
                    assert(rest[a] == r[a] && rest[b] == r[b]);
                }
            }
        }
    }
}

/// The static pass runs each static collector exactly once and no periodic
/// collector; a periodic pass runs each periodic collector exactly once and
/// no static collector.
pub proof fn lemma_passes_partition_collectors<C: Collector>(pd: PerformanceData<C>)
    requires
        pd.wf(),
    ensures
        pd.static_names().no_duplicates(),
        pd.periodic_names().no_duplicates(),
        forall|k: Seq<char>| #[trigger] pd.static_names().contains(k)
            <==> (pd.registered().contains_key(k) && pd.registered()[k]),
        forall|k: Seq<char>| #[trigger] pd.periodic_names().contains(k)
            <==> (pd.registered().contains_key(k) && !pd.registered()[k]),
{
    let n = pd.name_view();
    let f = pd.flag_view();
    lemma_names_with_flag(n, f, true);
    lemma_names_with_flag(n, f, false);
    assert forall|k: Seq<char>| n.contains(k) implies (exists|j: int| 0 <= j < n.len() && n[j] == k && f[j] == f[n.index_of(k)])
        && (forall|j: int| 0 <= j < n.len() && n[j] == k ==> j == n.index_of(k)) by {
        lemma_index_of(n, k);
        assert forall|j: int| 0 <= j < n.len() && n[j] == k implies j == n.index_of(k) by {
            lemma_index_of_unique(n, k, j);
        }
    }
}

impl<C: Collector> PerformanceData<C> {
    /// The registered names, in registration order.
    pub open spec fn name_view(self) -> Seq<Seq<char>> {
        string_seq(self.names@)
    }

    /// The static flag of each registered collector, in the same order.
    pub open spec fn flag_view(self) -> Seq<bool> {
        self.collectors@.map_values(|d: DataType<C>| d.is_static)
    }

    /// The registered collectors: name to static flag.
    pub open spec fn registered(self) -> Map<Seq<char>, bool> {
        keyed_map(self.name_view(), self.flag_view())
    }

    /// The registered collectors: name to collector.
    pub open spec fn units(self) -> Map<Seq<char>, DataType<C>> {
        keyed_map(self.name_view(), self.collectors@)
    }

    pub open spec fn wf(self) -> bool {
        &&& self.name_view().len() == self.flag_view().len()
        &&& self.name_view().no_duplicates()
    }

    /// The collectors that a static pass runs, in the order it runs them.
    pub open spec fn static_names(self) -> Seq<Seq<char>> {
        names_with_flag(self.name_view(), self.flag_view(), true)
    }

    /// The collectors that a periodic pass runs, in the order it runs them.
    pub open spec fn periodic_names(self) -> Seq<Seq<char>> {
        names_with_flag(self.name_view(), self.flag_view(), false)
    }

    /// The registry views that the passes keep.
    pub open spec fn same_registry(self, other: Self) -> bool {
        self.name_view() == other.name_view() && self.flag_view() == other.flag_view()
    }

    /// An empty registry, holding parameters of a run created now.
    pub fn new() -> (r: Self)
        ensures
            r.wf(),
            r.name_view().len() == 0,
            r.collectors@.len() == 0,
            r.init_params.time_str@ == utc_text(r.init_params.time_now as int, RUN_TIME_PATTERN@),
            r.init_params.dir_name@ == run_dir_spec(r.init_params.time_str@),
            r.init_params.period_in_ms == 0,
            r.init_params.interval_in_ms == 0,
            r.init_params.run_name@.len() == 0,
    {
        let r = PerformanceData { names: Vec::new(), collectors: Vec::new(), init_params: InitParams::new() };
        assert(r.name_view() =~= Seq::empty());
        r
    }

    /// Replaces the parameters of the run.
    pub fn set_params(&mut self, params: InitParams)
        ensures
            final(self).init_params == params,
            final(self).names == old(self).names,
            final(self).collectors == old(self).collectors,
    {
        self.init_params = params;
    }

    /// Registers a collector under `name`; a collector already registered
    /// under that name is replaced.
    pub fn add_datatype(&mut self, name: String, dt: DataType<C>)
        requires
            old(self).wf(),
        ensures
            final(self).wf(),
            final(self).registered() == old(self).registered().insert(name@, dt.is_static),
            final(self).units() == old(self).units().insert(name@, dt),
            final(self).init_params == old(self).init_params,
    {
        let ghost names0 = self.name_view();
        let ghost units0 = self.collectors@;
        let ghost flags0 = self.flag_view();
        let ghost dtg = dt;
        match find_key(&self.names, &name) {
            Some(i) => {
                self.collectors.remove(i);
                self.collectors.insert(i, dt);
                proof {
                    assert(self.collectors@ =~= units0.update(i as int, dtg));
                    assert(self.flag_view() =~= flags0.update(i as int, dtg.is_static));
                    assert(names0[i as int] == name@);
                    lemma_keyed_update(names0, units0, i as int, dtg);
                    lemma_keyed_update(names0, flags0, i as int, dtg.is_static);
                }
            },
            None => {
                self.names.push(name);
                self.collectors.push(dt);
                proof {
                    assert(self.name_view() =~= names0.push(name@));
                    assert(self.collectors@ =~= units0.push(dtg));
                    assert(self.flag_view() =~= flags0.push(dtg.is_static));
                    lemma_keyed_push(names0, units0, name@, dtg);
                    lemma_keyed_push(names0, flags0, name@, dtg.is_static);
                }
            },
        }
    }

    /// Runs collect then persist on every collector whose static flag is
    /// `want`, in registration order, and stops at the first failure.
    fn run_pass(&mut self, want: bool) -> (r: Result<Vec<String>, PDError>)
        requires
            old(self).wf(),
        ensures
            final(self).wf(),
            final(self).same_registry(*old(self)),
            final(self).init_params == old(self).init_params,
            r matches Ok(ran) ==> string_seq(ran@) == names_with_flag(old(self).name_view(), old(self).flag_view(), want),
            r matches Err(e) ==> (e matches PDError::CollectorError { name, message } && exists|j: int|
                0 <= j < old(self).name_view().len() && old(self).name_view()[j] == name@
                    && old(self).flag_view()[j] == want),
    {
        let ghost names0 = self.name_view();
        let ghost flags0 = self.flag_view();
        let mut ran: Vec<String> = Vec::new();
        let mut i: usize = 0;
        assert(names0.take(0) =~= Seq::empty() && flags0.take(0) =~= Seq::empty());
        assert(string_seq(ran@) =~= Seq::empty());
        while i < self.collectors.len()
            invariant
                self.wf(),
                names0 == old(self).name_view(),
                flags0 == old(self).flag_view(),
                self.name_view() == names0,
                self.flag_view() == flags0,
                self.init_params == old(self).init_params,
                i <= flags0.len(),
                string_seq(ran@) == names_with_flag(names0.take(i as int), flags0.take(i as int), want),
            decreases flags0.len() - i,
        {
            let ghost ran0 = string_seq(ran@);
            assert(names0.take(i + 1).drop_last() =~= names0.take(i as int));
            assert(flags0.take(i + 1).drop_last() =~= flags0.take(i as int));
            assert(flags0[i as int] == self.collectors@[i as int].is_static);
            if self.collectors[i].is_static == want {
                let ghost oc = self.collectors@;
                let mut d = self.collectors.remove(i);
                let ghost flag = d.is_static;
                let res = match d.unit.collect() {
                    Ok(()) => d.unit.persist(),
                    Err(m) => Err(m),
                };
                self.collectors.insert(i, d);
                assert(self.collectors@ =~= oc.update(i as int, self.collectors@[i as int]));
                assert(self.flag_view() =~= flags0);
                let name = self.names[i].clone();
                match res {
                    Err(message) => {
                        return Err(PDError::CollectorError { name, message });
                    },
                    Ok(()) => {
                        ran.push(name);
                        assert(string_seq(ran@) =~= ran0.push(names0[i as int]));
                    },
                }
            }
            i = i + 1;
        }
        assert(names0.take(i as int) =~= names0);
        assert(flags0.take(i as int) =~= flags0);
        Ok(ran)
    }

    /// Runs every static collector once, in registration order, and no
    /// periodic one; returns the names of the collectors run. The first
    /// failure stops the pass.
    pub fn collect_static_data(&mut self) -> (r: Result<Vec<String>, PDError>)
        requires
            old(self).wf(),
        ensures
            final(self).wf(),
            final(self).same_registry(*old(self)),
            final(self).init_params == old(self).init_params,
            r matches Ok(ran) ==> string_seq(ran@) == old(self).static_names(),
            r matches Err(e) ==> (e matches PDError::CollectorError { name, message } && exists|j: int|
                0 <= j < old(self).name_view().len() && old(self).name_view()[j] == name@
                    && old(self).flag_view()[j]),
    {
        self.run_pass(true)
    }

    /// One scheduler tick: runs every periodic collector once, in
    /// registration order, and no static one; returns the names of the
    /// collectors run. The first failure stops the pass.
    pub fn collect_periodic_tick(&mut self) -> (r: Result<Vec<String>, PDError>)
        requires
            old(self).wf(),
        ensures
            final(self).wf(),
            final(self).same_registry(*old(self)),
            final(self).init_params == old(self).init_params,
            r matches Ok(ran) ==> string_seq(ran@) == old(self).periodic_names(),
            r matches Err(e) ==> (e matches PDError::CollectorError { name, message } && exists|j: int|
                0 <= j < old(self).name_view().len() && old(self).name_view()[j] == name@
                    && !old(self).flag_view()[j]),
    {
        self.run_pass(false)
    }

    /// Handles one wake of the run's timer that reports `elapsed` intervals:
    /// advances the schedule, then runs exactly one periodic pass, whatever
    /// `elapsed` is. Returns the action, with the intervals missed, and the
    /// names of the collectors run.
    pub fn collect_on_wake(&mut self, schedule: &mut Scheduler, elapsed: u64) -> (r: Result<(TickAction, Vec<String>), PDError>)
        requires
            old(self).wf(),
        ensures
            final(self).wf(),
            final(self).same_registry(*old(self)),
            final(self).init_params == old(self).init_params,
            *final(schedule) == old(schedule).tick_spec(elapsed),
            r matches Ok(v) ==> v.0.passes == 1 && v.0.missed == (if elapsed > 0 { elapsed - 1 } else { 0 })
                && string_seq(v.1@) == old(self).periodic_names(),
            r matches Err(e) ==> (e matches PDError::CollectorError { name, message } && exists|j: int|
                0 <= j < old(self).name_view().len() && old(self).name_view()[j] == name@
                    && !old(self).flag_view()[j]),
    {
        let action = schedule.on_tick(elapsed);
        match self.collect_periodic_tick() {
            Ok(ran) => Ok((action, ran)),
            Err(e) => Err(e),
        }
    }

    /// Initializes every collector with the run's parameters, in
    /// registration order; the first failure stops and is returned.
    pub fn init_collectors(&mut self) -> (r: Result<(), PDError>)
        requires
            old(self).wf(),
        ensures
            final(self).wf(),
            final(self).same_registry(*old(self)),
            final(self).init_params == old(self).init_params,
            r matches Err(e) ==> (e matches PDError::CollectorError { name, message }
                && old(self).name_view().contains(name@)),
    {
        let ghost names0 = self.name_view();
        let ghost flags0 = self.flag_view();
        let mut i: usize = 0;
        while i < self.collectors.len()
            invariant
                self.wf(),
                names0 == old(self).name_view(),
                flags0 == old(self).flag_view(),
                self.name_view() == names0,
                self.flag_view() == flags0,
                self.init_params == old(self).init_params,
                i <= flags0.len(),
            decreases flags0.len() - i,
        {
            let ghost oc = self.collectors@;
            let mut d = self.collectors.remove(i);
            let res = d.unit.init(&self.init_params);
            self.collectors.insert(i, d);
            assert(self.collectors@ =~= oc.update(i as int, self.collectors@[i as int]));
            assert(self.flag_view() =~= flags0);
            if let Err(message) = res {
                let name = self.names[i].clone();
                assert(names0[i as int] == name@);
                return Err(PDError::CollectorError { name, message });
            }
            i = i + 1;
        }
        Ok(())
    }

    /// Tears down every collector at the end of a run, in registration
    /// order; the first failure stops and is returned.
    pub fn end(&mut self) -> (r: Result<(), PDError>)
        requires
            old(self).wf(),
        ensures
            final(self).wf(),
            final(self).same_registry(*old(self)),
            final(self).init_params == old(self).init_params,
            r matches Err(e) ==> (e matches PDError::CollectorError { name, message }
                && old(self).name_view().contains(name@)),
    {
        let ghost names0 = self.name_view();
        let ghost flags0 = self.flag_view();
        let mut i: usize = 0;
        while i < self.collectors.len()
            invariant
                self.wf(),
                names0 == old(self).name_view(),
                flags0 == old(self).flag_view(),
                self.name_view() == names0,
                self.flag_view() == flags0,
                self.init_params == old(self).init_params,
                i <= flags0.len(),
            decreases flags0.len() - i,
        {
            let ghost oc = self.collectors@;
            let mut d = self.collectors.remove(i);
            let res = d.unit.finalize();
            self.collectors.insert(i, d);
            assert(self.collectors@ =~= oc.update(i as int, self.collectors@[i as int]));
            assert(self.flag_view() =~= flags0);
            if let Err(message) = res {
                let name = self.names[i].clone();
                assert(names0[i as int] == name@);
                return Err(PDError::CollectorError { name, message });
            }
            i = i + 1;
        }
        Ok(())
    }
}

impl<C: Collector> Default for PerformanceData<C> {
    /// An empty registry, holding parameters of a run created now.
    fn default() -> (r: Self)
        ensures
            r.wf(),
            r.name_view().len() == 0,
            r.collectors@.len() == 0,
            r.init_params.time_str@ == utc_text(r.init_params.time_now as int, RUN_TIME_PATTERN@),
            r.init_params.dir_name@ == run_dir_spec(r.init_params.time_str@),
    {
        PerformanceData::new()
    }
}

} // verus!
