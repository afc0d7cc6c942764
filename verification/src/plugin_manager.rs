//! The plugin registry's decisions: which analyzer plugins a tag set
//! selects, where a plugin's binary artifact lives on each platform, and
//! how the outcomes of all invoked plugins fold into one analysis run.
//! Opening and invoking the shared libraries themselves is host work; the
//! registry logic here is pure, and a failed plugin never disturbs the
//! contribution of a successful one.

use vstd::prelude::*;
use vstd::string::StringExecFns;

use crate::class_graph::{spec_build, ClassGraph};
use crate::coco_struct::{clone_records, ClassInfo, RecordView};
use crate::jvm::TagSet;

verus! {

/// A platform's naming convention for dynamic-library artifacts.
#[derive(Clone, Copy, PartialEq, Eq, Structural, Debug)]
pub enum Platform {
    /// Shared objects: `lib<name>.so`.
    Linux,
    /// Dynamic libraries: `lib<name>.dylib`.
    MacOs,
    /// Dynamic-link libraries: `<name>.dll`, no `lib` prefix.
    Windows,
}

/// The build configuration whose output directory holds the artifacts.
#[derive(Clone, Copy, PartialEq, Eq, Structural, Debug)]
pub enum BuildType {
    Debug,
    Release,
}

/// The directory name of a build configuration.
pub open spec fn spec_build_type(bt: BuildType) -> Seq<char> {
    match bt {
        BuildType::Debug => "debug"@,
        BuildType::Release => "release"@,
    }
}

/// The expected artifact path of the plugin `name` on `platform` under
/// the `bt` configuration.
pub open spec fn spec_plugin_path(platform: Platform, bt: BuildType, name: Seq<char>) -> Seq<
    char,
> {
    match platform {
        Platform::Linux => "target/"@ + spec_build_type(bt) + "/libcoco_"@ + name + ".so"@,
        Platform::MacOs => "target/"@ + spec_build_type(bt) + "/libcoco_"@ + name + ".dylib"@,
        Platform::Windows => "target\\"@ + spec_build_type(bt) + "\\coco_"@ + name + ".dll"@,
    }
}

/// Mathematical view of a `PluginDescriptor`.
pub ghost struct DescriptorView {
    pub language_key: Seq<char>,
    pub binary_name: Seq<char>,
}

/// The static association between a language tag key and the plugin
/// artifact that analyzes that language.
pub struct PluginDescriptor {
    pub language_key: String,
    pub binary_name: String,
}

impl View for PluginDescriptor {
    type V = DescriptorView;

    open spec fn view(&self) -> DescriptorView {
        DescriptorView { language_key: self.language_key@, binary_name: self.binary_name@ }
    }
}

impl DeepView for PluginDescriptor {
    type V = DescriptorView;

    open spec fn deep_view(&self) -> DescriptorView {
        self.view()
    }
}

/// Why one plugin contributed nothing to a run.
#[derive(Clone, Copy, PartialEq, Eq, Structural, Debug)]
pub enum PluginError {
    /// The artifact or its entry point could not be loaded.
    LoadFailed,
    /// The plugin failed while analyzing.
    InvocationFailed,
}

/// Mathematical view of a `PluginOutcome`.
pub ghost struct OutcomeView {
    pub plugin_name: Seq<char>,
    pub result: Result<Seq<RecordView>, PluginError>,
}

/// What one invoked plugin came back with: its records, or the error
/// that excluded it from the run.
pub struct PluginOutcome {
    pub plugin_name: String,
    pub result: Result<Vec<ClassInfo>, PluginError>,
}

impl View for PluginOutcome {
    type V = OutcomeView;

    open spec fn view(&self) -> OutcomeView {
        OutcomeView {
            plugin_name: self.plugin_name@,
            result: match self.result {
                Ok(recs) => Ok(recs.deep_view()),
                Err(e) => Err(e),
            },
        }
    }
}

impl DeepView for PluginOutcome {
    type V = OutcomeView;

    open spec fn deep_view(&self) -> OutcomeView {
        self.view()
    }
}

/// Mathematical view of a `PluginFailure`.
pub ghost struct FailureView {
    pub plugin_name: Seq<char>,
    pub error: PluginError,
}

/// A per-plugin failure surfaced to the caller; never fatal to the run.
pub struct PluginFailure {
    pub plugin_name: String,
    pub error: PluginError,
}

impl View for PluginFailure {
    type V = FailureView;

    open spec fn view(&self) -> FailureView {
        FailureView { plugin_name: self.plugin_name@, error: self.error }
    }
}

impl DeepView for PluginFailure {
    type V = FailureView;

    open spec fn deep_view(&self) -> FailureView {
        self.view()
    }
}

/// The result of one analysis run: the merged class graph of every
/// successful plugin, and the recorded failure of every other.
pub struct AnalysisRun {
    pub graph: ClassGraph,
    pub failures: Vec<PluginFailure>,
}

/// The records of the successful outcomes, in plugin invocation order.
pub open spec fn spec_ok_records(os: Seq<OutcomeView>) -> Seq<RecordView>
    decreases os.len(),
{
    if os.len() == 0 {
        Seq::empty()
    } else {
        spec_ok_records(os.drop_last()) + match os.last().result {
            Ok(rs) => rs,
            Err(_) => Seq::empty(),
        }
    }
}

/// The failures among the outcomes, in plugin invocation order.
pub open spec fn spec_failures(os: Seq<OutcomeView>) -> Seq<FailureView>
    decreases os.len(),
{
    if os.len() == 0 {
        Seq::empty()
    } else {
        spec_failures(os.drop_last()) + match os.last().result {
            Ok(_) => Seq::empty(),
            Err(e) => seq![FailureView { plugin_name: os.last().plugin_name, error: e }],
        }
    }
}

/// The descriptors a tag set selects, in the fixed language order.
pub open spec fn spec_select_plugins(t: TagSet) -> Seq<DescriptorView> {
    (if t.source_java {
        seq![DescriptorView { language_key: "workspace.source.java"@, binary_name: "java"@ }]
    } else {
        Seq::empty()
    }) + (if t.source_groovy {
        seq![DescriptorView { language_key: "workspace.source.groovy"@, binary_name: "groovy"@ }]
    } else {
        Seq::empty()
    }) + (if t.source_kotlin {
        seq![DescriptorView { language_key: "workspace.source.kotlin"@, binary_name: "kotlin"@ }]
    } else {
        Seq::empty()
    }) + (if t.source_scala {
        seq![DescriptorView { language_key: "workspace.source.scala"@, binary_name: "scala"@ }]
    } else {
        Seq::empty()
    })
}

/// The plugin registry: selects plugins for a tag set, names their
/// artifacts, and merges their outcomes. It holds no state of its own;
/// every run is fresh.
pub struct PluginManager {}

impl PluginManager {
    /// The artifact path of a plugin under the platform's naming
    /// convention and the build configuration's directory.
    pub fn get_plugin_path(platform: Platform, build_type: BuildType, plugin_name: &str) -> (r:
        String)
        ensures
            r@ == spec_plugin_path(platform, build_type, plugin_name@),
    {
        let bt = match build_type {
            BuildType::Debug => "debug",
            BuildType::Release => "release",
        };
        match platform {
            Platform::Linux => {
                let mut s = String::from_str("target/");
                s.append(bt);
                s.append("/libcoco_");
                s.append(plugin_name);
                s.append(".so");
                proof {
                    assert(s@ =~= spec_plugin_path(platform, build_type, plugin_name@));
                }
                s
            },
            Platform::MacOs => {
                let mut s = String::from_str("target/");
                s.append(bt);
                s.append("/libcoco_");
                s.append(plugin_name);
                s.append(".dylib");
                proof {
                    assert(s@ =~= spec_plugin_path(platform, build_type, plugin_name@));
                }
                s
            },
            Platform::Windows => {
                let mut s = String::from_str("target\\");
                s.append(bt);
                s.append("\\coco_");
                s.append(plugin_name);
                s.append(".dll");
                proof {
                    assert(s@ =~= spec_plugin_path(platform, build_type, plugin_name@));
                }
                s
            },
        }
    }

    /// Selects one descriptor per language tag that the tag set holds;
    /// several plugins may be selected for one run.
    pub fn select_plugins(tags: &TagSet) -> (r: Vec<PluginDescriptor>)
        ensures
            r.deep_view() == spec_select_plugins(*tags),
    {
        let mut v: Vec<PluginDescriptor> = Vec::new();
        if tags.source_java {
            v.push(
                PluginDescriptor {
                    language_key: String::from_str("workspace.source.java"),
                    binary_name: String::from_str("java"),
                },
            );
        }
        if tags.source_groovy {
            v.push(
                PluginDescriptor {
                    language_key: String::from_str("workspace.source.groovy"),
                    binary_name: String::from_str("groovy"),
                },
            );
        }
        if tags.source_kotlin {
            v.push(
                PluginDescriptor {
                    language_key: String::from_str("workspace.source.kotlin"),
                    binary_name: String::from_str("kotlin"),
                },
            );
        }
        if tags.source_scala {
            v.push(
                PluginDescriptor {
                    language_key: String::from_str("workspace.source.scala"),
                    binary_name: String::from_str("scala"),
                },
            );
        }
        proof {
            assert(v.deep_view() =~= spec_select_plugins(*tags));
        }
        v
    }

    /// Folds every plugin outcome into one run: the records of every
    /// successful plugin, in invocation order, build the graph; every
    /// failed plugin is recorded and excluded, never aborting the run.
    pub fn merge_outcomes(outcomes: &Vec<PluginOutcome>) -> (r: AnalysisRun)
        ensures
            r.graph@ == spec_build(spec_ok_records(outcomes.deep_view())),
            r.failures.deep_view() == spec_failures(outcomes.deep_view()),
    {
        let ghost ov = outcomes.deep_view();
        let mut all: Vec<ClassInfo> = Vec::new();
        let mut failures: Vec<PluginFailure> = Vec::new();
        let mut i: usize = 0;
        proof {
            assert(all.deep_view() =~= spec_ok_records(ov.take(0)));
            assert(failures.deep_view() =~= spec_failures(ov.take(0)));
        }
        while i < outcomes.len()
            invariant
                ov == outcomes.deep_view(),
                0 <= i <= ov.len(),
                all.deep_view() == spec_ok_records(ov.take(i as int)),
                failures.deep_view() == spec_failures(ov.take(i as int)),
            decreases ov.len() - i,
        {
            proof {
                assert(ov.take(i + 1).drop_last() =~= ov.take(i as int));
                assert(ov.take(i + 1).last() == ov[i as int]);
                assert(outcomes.deep_view()[i as int] == outcomes@[i as int]@);
            }
            let outcome = &outcomes[i];
            match &outcome.result {
                Ok(recs) => {
                    let ghost a0 = all.deep_view();
                    let mut more = clone_records(recs);
                    let ghost mm = more.deep_view();
                    all.append(&mut more);
                    proof {
                        assert(all.deep_view() =~= a0 + mm);
                    }
                },
                Err(e) => {
                    let ghost f0 = failures.deep_view();
                    let failure = PluginFailure {
                        plugin_name: outcome.plugin_name.clone(),
                        error: *e,
                    };
                    failures.push(failure);
                    proof {
                        assert(failures.deep_view() =~= f0.push(
                            FailureView { plugin_name: ov[i as int].plugin_name, error: *e },
                        ));
                        assert(failures.deep_view() =~= spec_failures(ov.take(i + 1)));
                    }
                },
            }
            i = i + 1;
        }
        proof {
            assert(ov.take(ov.len() as int) =~= ov);
        }
        let graph = ClassGraph::build(&all);
        AnalysisRun { graph, failures }
    }
}

/// Law: plugin isolation — a failed plugin is recorded among the run's
/// failures, and a successful plugin's records enter the merged record
/// sequence whole and contiguous, whatever happened to the other plugins.
pub proof fn lemma_plugin_isolation(os: Seq<OutcomeView>, i: int)
    requires
        0 <= i < os.len(),
    ensures
        os[i].result is Err ==> spec_failures(os).contains(
            FailureView { plugin_name: os[i].plugin_name, error: os[i].result->Err_0 },
        ),
        os[i].result is Ok ==> exists|off: int|
            0 <= off && off + os[i].result->Ok_0.len() <= spec_ok_records(os).len()
                && #[trigger] spec_ok_records(os).subrange(
                off,
                off + os[i].result->Ok_0.len() as int,
            ) == os[i].result->Ok_0,
    decreases os.len(),
{
    let pre_ok = spec_ok_records(os.drop_last());
    let pre_f = spec_failures(os.drop_last());
    if i == os.len() - 1 {
        match os[i].result {
            Ok(rs) => {
                let off = pre_ok.len() as int;
                assert(spec_ok_records(os).subrange(off, off + rs.len() as int) =~= rs);
            },
            Err(e) => {
                let fv = FailureView { plugin_name: os[i].plugin_name, error: e };
                assert(spec_failures(os)[pre_f.len() as int] == fv);
                assert(spec_failures(os).contains(fv));
            },
        }
    } else {
        lemma_plugin_isolation(os.drop_last(), i);
        assert(os.drop_last()[i] == os[i]);
        match os[i].result {
            Ok(rs) => {
                let off = choose|off: int|
                    0 <= off && off + rs.len() <= pre_ok.len() && #[trigger] pre_ok.subrange(
                        off,
                        off + rs.len() as int,
                    ) == rs;
                assert(spec_ok_records(os).subrange(off, off + rs.len() as int) =~= pre_ok
                    .subrange(off, off + rs.len() as int));
            },
            Err(e) => {
                let fv = FailureView { plugin_name: os[i].plugin_name, error: e };
                let w = choose|w: int| 0 <= w < pre_f.len() && pre_f[w] == fv;
                assert(spec_failures(os)[w] == fv);
                assert(spec_failures(os).contains(fv));
            },
        }
    }
}

} // verus!
