//! The visualization registry: named visualizer units that replay a
//! persisted run into memory and answer queries against it.
use vstd::prelude::*;
use vstd::string::StringExecFns;
use crate::duration::PDError;
use crate::keyed::{find_key, keyed_map, lemma_keyed_push, lemma_keyed_update, string_seq};

verus! {

#[verifier::external_type_specification]
#[verifier::external_body]
pub struct ExJsonError(serde_json::Error);

/// What serde_json writes for an array of strings.
pub uninterp spec fn json_string_array(items: Seq<Seq<char>>) -> Seq<char>;

/// Relies on `serde_json::to_string`: the JSON text of the list of strings,
/// which depends on the strings alone. It fails only where a `Serialize` impl
/// fails or a map has keys that are not strings, neither of which a list of
/// strings holds.
#[verifier::external_body]
fn strings_to_json(items: &Vec<String>) -> (r: Result<String, serde_json::Error>)
    ensures
        r is Ok,
        r matches Ok(t) ==> t@ == json_string_array(string_seq(items@)),
{
    serde_json::to_string(items)
}

/// A pluggable unit that parses a run's persisted output and answers
/// queries against it.
pub trait Visualizer {
    /// Prepares the unit for the run `run_name` stored in `dir`.
    fn init_visualizer(&mut self, dir: String, run_name: String) -> Result<(), String>;

    /// Parses the unit's part of the run's output into memory.
    fn process_raw_data(&mut self, run_name: String) -> Result<(), String>;

    /// Answers a query with a serialized payload.
    fn get_data(&mut self, query: String) -> Result<String, String>;
}

/// A visualizer unit with the client-side script it supplies.
pub struct DataVisualizer<V> {
    pub js_file_name: String,
    pub js: String,
    pub unit: V,
}

/// The outcome of unpacking a run in one visualizer.
pub struct UnpackReport {
    pub visualizer: String,
    pub outcome: Result<(), String>,
}

/// The registry of visualizers of one process, with the scripts they supply
/// and the names of the runs read so far.
pub struct VisualizationData<V> {
    pub names: Vec<String>,
    pub visualizers: Vec<DataVisualizer<V>>,
    pub js_names: Vec<String>,
    pub js_files: Vec<String>,
    pub run_names: Vec<String>,
}

/// The run names after reading a manifest whose documents name `docs`.
pub open spec fn runs_after_init(runs: Seq<Seq<char>>, docs: Seq<Seq<char>>) -> Seq<Seq<char>> {
    runs + docs
}

impl<V: Visualizer> VisualizationData<V> {
    pub open spec fn name_view(self) -> Seq<Seq<char>> {
        string_seq(self.names@)
    }

    /// The registered visualizer names.
    pub open spec fn registered(self) -> Set<Seq<char>> {
        self.name_view().to_set()
    }

    /// The registered visualizers, by name.
    pub open spec fn units(self) -> Map<Seq<char>, DataVisualizer<V>> {
        keyed_map(self.name_view(), self.visualizers@)
    }

    /// The client-side scripts, by identifier.
    pub open spec fn scripts(self) -> Map<Seq<char>, Seq<char>> {
        keyed_map(string_seq(self.js_names@), string_seq(self.js_files@))
    }

    /// The names of the runs read so far, in the order they were read.
    pub open spec fn run_view(self) -> Seq<Seq<char>> {
        string_seq(self.run_names@)
    }

    pub open spec fn wf(self) -> bool {
        &&& self.names@.len() == self.visualizers@.len()
        &&& self.name_view().no_duplicates()
        &&& self.js_names@.len() == self.js_files@.len()
        &&& string_seq(self.js_names@).no_duplicates()
    }

    /// The tables that initialization, unpacking and queries keep.
    pub open spec fn same_tables(self, other: Self) -> bool {
        &&& self.name_view() == other.name_view()
        &&& self.names@.len() == self.visualizers@.len()
        &&& self.scripts() == other.scripts()
        &&& self.js_names == other.js_names
        &&& self.js_files == other.js_files
    }

    /// An empty registry.
    pub fn new() -> (r: Self)
        ensures
            r.wf(),
            r.registered() == Set::<Seq<char>>::empty(),
            r.scripts() == Map::<Seq<char>, Seq<char>>::empty(),
            r.run_view() == Seq::<Seq<char>>::empty(),
    {
        let r = VisualizationData {
            names: Vec::new(),
            visualizers: Vec::new(),
            js_names: Vec::new(),
            js_files: Vec::new(),
            run_names: Vec::new(),
        };
        assert(r.name_view() =~= Seq::empty());
        assert(r.run_view() =~= Seq::empty());
        assert(r.registered() =~= Set::empty());
        assert(r.scripts() =~= Map::empty());
        r
    }

    /// Registers a visualizer under `name` and its script under the script's
    /// identifier; earlier registrations under the same names are replaced.
    pub fn add_visualizer(&mut self, name: String, dv: DataVisualizer<V>)
        requires
            old(self).wf(),
        ensures
            final(self).wf(),
            final(self).registered() == old(self).registered().insert(name@),
            final(self).units() == old(self).units().insert(name@, dv),
            final(self).scripts() == old(self).scripts().insert(dv.js_file_name@, dv.js@),
            final(self).run_view() == old(self).run_view(),
    {
        let ghost js_name = dv.js_file_name@;
        let ghost js = dv.js@;
        let key = dv.js_file_name.clone();
        let text = dv.js.clone();
        let ghost keys0 = string_seq(self.js_names@);
        let ghost vals0 = string_seq(self.js_files@);
        match find_key(&self.js_names, &key) {
            Some(i) => {
                self.js_files.remove(i);
                self.js_files.insert(i, text);
                proof {
                    assert(string_seq(self.js_files@) =~= vals0.update(i as int, js));
                    lemma_keyed_update(keys0, vals0, i as int, js);
                }
            },
            None => {
                self.js_names.push(key);
                self.js_files.push(text);
                proof {
                    assert(string_seq(self.js_names@) =~= keys0.push(js_name));
                    assert(string_seq(self.js_files@) =~= vals0.push(js));
                    lemma_keyed_push(keys0, vals0, js_name, js);
                }
            },
        }
        let ghost names0 = self.name_view();
        let ghost units0 = self.visualizers@;
        let ghost dvg = dv;
        match find_key(&self.names, &name) {
            Some(i) => {
                self.visualizers.remove(i);
                self.visualizers.insert(i, dv);
                proof {
                    assert(self.visualizers@ =~= units0.update(i as int, dvg));
                    assert(names0[i as int] == name@);
                    lemma_keyed_update(names0, units0, i as int, dvg);
                }
                assert(names0.contains(name@)) by {
                    assert(names0[i as int] == name@);
                }
                assert(self.registered() =~= old(self).registered().insert(name@));
            },
            None => {
                self.names.push(name);
                self.visualizers.push(dv);
                proof {
                    assert(self.name_view() =~= names0.push(name@));
                    assert(self.visualizers@ =~= units0.push(dvg));
                    lemma_keyed_push(names0, units0, name@, dvg);
                    assert(self.registered() =~= old(self).registered().insert(name@)) by {
                        assert forall|k: Seq<char>| self.name_view().contains(k) <==> (names0.contains(k) || k == name@) by {
                            if self.name_view().contains(k) {
                                let j = choose|j: int| 0 <= j < self.name_view().len() && self.name_view()[j] == k;
                                if j < names0.len() {
                                    assert(names0[j] == k);
                                }
                            }
                            if names0.contains(k) {
                                let j = choose|j: int| 0 <= j < names0.len() && names0[j] == k;
                                assert(self.name_view()[j] == k);
                            }
                            if k == name@ {
                                assert(self.name_view()[names0.len() as int] == k);
                            }
                        }
                    }
                }
            },
        }
    }

    /// The client-side script registered under `name`.
    pub fn get_js_file(&self, name: String) -> (r: Result<String, PDError>)
        requires
            self.wf(),
        ensures
            self.scripts().contains_key(name@) ==> (r matches Ok(s) && s@ == self.scripts()[name@]),
            !self.scripts().contains_key(name@) ==> (r matches Err(e)
                && e matches PDError::VisualizerJSFileGetError(n) && n@ == name@),
    {
        match find_key(&self.js_names, &name) {
            Some(i) => {
                proof {
                    assert(string_seq(self.js_names@)[i as int] == name@);
                    crate::keyed::lemma_index_of_unique(string_seq(self.js_names@), name@, i as int);
                }
                Ok(self.js_files[i].clone())
            },
            None => {
                assert(!self.scripts().contains_key(name@));
                Err(PDError::VisualizerJSFileGetError(name))
            },
        }
    }

    /// Reads a run: `docs` are the run names of the manifest's documents in
    /// the order they stand in the file. They are appended to the known run
    /// names; then every visualizer is initialized against `dir` and the last
    /// document's run name, which is returned. The first failure stops.
    pub fn init_visualizers(&mut self, dir: String, docs: Vec<String>) -> (r: Result<String, PDError>)
        requires
            old(self).wf(),
        ensures
            final(self).wf(),
            final(self).same_tables(*old(self)),
            docs@.len() == 0 ==> final(self).run_view() == old(self).run_view(),
            docs@.len() == 0 ==> (r matches Err(e) && e matches PDError::ManifestMissing(d) && d@ == dir@),
            docs@.len() > 0 ==> final(self).run_view() == runs_after_init(old(self).run_view(), string_seq(docs@)),
            r matches Ok(run) ==> docs@.len() > 0 && run@ == docs@.last()@,
            docs@.len() > 0 && r is Err ==> (r matches Err(e) && e matches PDError::VisualizerError { name, message }
                && old(self).registered().contains(name@)),
    {
        let n = docs.len();
        if n == 0 {
            return Err(PDError::ManifestMissing(dir));
        }
        let run_name = docs[n - 1].clone();
        let ghost runs0 = self.run_view();
        let mut j: usize = 0;
        while j < n
            invariant
                n == docs@.len(),
                j <= n,
                self.wf(),
                self.same_tables(*old(self)),
                runs0 == old(self).run_view(),
                self.run_view() == runs0 + string_seq(docs@).take(j as int),
            decreases n - j,
        {
            let d = docs[j].clone();
            let ghost before = self.run_view();
            self.run_names.push(d);
            assert(self.run_view() =~= before.push(docs@[j as int]@));
            assert(string_seq(docs@).take(j + 1) =~= string_seq(docs@).take(j as int).push(docs@[j as int]@));
            assert(self.run_view() =~= runs0 + string_seq(docs@).take(j + 1));
            j = j + 1;
        }
        assert(string_seq(docs@).take(n as int) =~= string_seq(docs@));
        let ghost names0 = self.name_view();
        let mut i: usize = 0;
        while i < self.visualizers.len()
            invariant
                self.wf(),
                self.same_tables(*old(self)),
                names0 == old(self).name_view(),
                n == docs@.len(),
                n > 0,
                runs0 == old(self).run_view(),
                self.run_view() == runs_after_init(runs0, string_seq(docs@)),
                run_name@ == docs@.last()@,
                i <= self.visualizers@.len(),
            decreases self.visualizers@.len() - i,
        {
            let mut v = self.visualizers.remove(i);
            let res = v.unit.init_visualizer(dir.clone(), run_name.clone());
            self.visualizers.insert(i, v);
            if let Err(message) = res {
                let name = self.names[i].clone();
                assert(names0[i as int] == name@);
                return Err(PDError::VisualizerError { name, message });
            }
            i = i + 1;
        }
        Ok(run_name)
    }

    /// Asks every visualizer, in registration order, to unpack the run
    /// `name`. A failure in one does not stop the others: the result holds
    /// one report for every registered visualizer, in registration order.
    pub fn unpack_data(&mut self, name: String) -> (r: Vec<UnpackReport>)
        requires
            old(self).wf(),
        ensures
            final(self).wf(),
            final(self).same_tables(*old(self)),
            final(self).run_view() == old(self).run_view(),
            r@.len() == old(self).name_view().len(),
            forall|i: int| 0 <= i < r@.len() ==> (#[trigger] r@[i]).visualizer@ == old(self).name_view()[i],
    {
        let ghost names0 = self.name_view();
        let mut reports: Vec<UnpackReport> = Vec::new();
        let mut i: usize = 0;
        while i < self.visualizers.len()
            invariant
                self.wf(),
                self.same_tables(*old(self)),
                self.run_view() == old(self).run_view(),
                names0 == old(self).name_view(),
                i <= self.visualizers@.len(),
                reports@.len() == i,
                forall|k: int| 0 <= k < i ==> (#[trigger] reports@[k]).visualizer@ == names0[k],
            decreases self.visualizers@.len() - i,
        {
            let mut v = self.visualizers.remove(i);
            let outcome = v.unit.process_raw_data(name.clone());
            self.visualizers.insert(i, v);
            let visualizer = self.names[i].clone();
            reports.push(UnpackReport { visualizer, outcome });
            i = i + 1;
        }
        reports
    }

    /// The names of the runs read so far, as a JSON array in reading order.
    pub fn get_run_names(&self) -> (r: Result<String, PDError>)
        ensures
            r is Ok,
            r matches Ok(t) ==> t@ == json_string_array(self.run_view()),
    {
        match strings_to_json(&self.run_names) {
            Ok(t) => Ok(t),
            Err(_) => Err(PDError::RunNamesEncodeError),
        }
    }

    /// Hands `query` to the visualizer registered under `name` and returns
    /// its answer.
    pub fn get_data(&mut self, name: &str, query: String) -> (r: Result<String, PDError>)
        requires
            old(self).wf(),
        ensures
            final(self).wf(),
            final(self).same_tables(*old(self)),
            final(self).run_view() == old(self).run_view(),
            !old(self).registered().contains(name@) ==> (r matches Err(e)
                && e matches PDError::VisualizerHashMapEntryError(n) && n@ == name@),
            old(self).registered().contains(name@) ==> (r is Ok || (r matches Err(e)
                && e matches PDError::VisualizerError { name: n, message } && n@ == name@)),
    {
        let key = String::from_str(name);
        match find_key(&self.names, &key) {
            None => Err(PDError::VisualizerHashMapEntryError(key)),
            Some(i) => {
                assert(self.name_view()[i as int] == name@);
                let mut v = self.visualizers.remove(i);
                let res = v.unit.get_data(query);
                self.visualizers.insert(i, v);
                match res {
                    Ok(t) => Ok(t),
                    Err(message) => Err(PDError::VisualizerError { name: key, message }),
                }
            },
        }
    }
}

/// Reading two runs one after the other keeps both run names, in the order
/// the runs were read, after those read before.
pub proof fn lemma_runs_accumulate_in_order(runs: Seq<Seq<char>>, first: Seq<char>, second: Seq<char>)
    ensures
        runs_after_init(runs_after_init(runs, seq![first]), seq![second]) == runs.push(first).push(second),
{
    assert(runs_after_init(runs_after_init(runs, seq![first]), seq![second]) =~= runs.push(first).push(second));
}

} // verus!
