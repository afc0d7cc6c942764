//! Workspace characterization for the JVM language family: which build
//! tools and which source languages the observed file names show.

use vstd::prelude::*;

use crate::strutil::{spec_ends_with, str_eq, str_ends_with};

verus! {

/// The deterministic tag set of one workspace scan. Every tag defaults to
/// false and is set exactly when some file name shows it; composite tags
/// never contradict their constituents (see `lemma_composite_gradle`).
#[derive(Clone, Copy, PartialEq, Eq, Structural, Debug)]
pub struct TagSet {
    /// `build.gradle` is present.
    pub gradle: bool,
    /// Both `build.gradle` and `settings.gradle` are present.
    pub gradle_composite: bool,
    /// `pom.xml` is present.
    pub pom: bool,
    /// Some `.java` file is present.
    pub source_java: bool,
    /// Some `.groovy` file is present.
    pub source_groovy: bool,
    /// Some `.kt` file is present.
    pub source_kotlin: bool,
    /// Some `.scala` file is present.
    pub source_scala: bool,
    /// Some file follows the Java test naming convention.
    pub source_test: bool,
}

/// A Java test file: the name ends in `Test.java` or `Tests.java`.
/// The convention is Java's alone and is not applied to other suffixes.
pub open spec fn spec_is_test(name: Seq<char>) -> bool {
    spec_ends_with(name, "Test.java"@) || spec_ends_with(name, "Tests.java"@)
}

/// A Java source file: the name ends in `.java`.
pub open spec fn spec_is_java_source_file(name: Seq<char>) -> bool {
    spec_ends_with(name, ".java"@)
}

/// A Groovy source file: the name ends in `.groovy`.
pub open spec fn spec_is_groovy_source_file(name: Seq<char>) -> bool {
    spec_ends_with(name, ".groovy"@)
}

/// A Kotlin source file: the name ends in `.kt`.
pub open spec fn spec_is_kotlin_source_file(name: Seq<char>) -> bool {
    spec_ends_with(name, ".kt"@)
}

/// A Scala source file: the name ends in `.scala`.
pub open spec fn spec_is_scala_source_file(name: Seq<char>) -> bool {
    spec_ends_with(name, ".scala"@)
}

/// Some name in `names` is exactly `f`.
pub open spec fn spec_contains_file(names: Seq<String>, f: Seq<char>) -> bool {
    exists|i: int| 0 <= i < names.len() && names[i]@ == f
}

/// The tag set that one scan of `names` yields.
pub open spec fn spec_light_detect(names: Seq<String>) -> TagSet {
    TagSet {
        gradle: spec_contains_file(names, "build.gradle"@),
        gradle_composite: spec_contains_file(names, "build.gradle"@)
            && spec_contains_file(names, "settings.gradle"@),
        pom: spec_contains_file(names, "pom.xml"@),
        source_java: exists|i: int| 0 <= i < names.len() && spec_is_java_source_file(names[i]@),
        source_groovy: exists|i: int|
            0 <= i < names.len() && spec_is_groovy_source_file(names[i]@),
        source_kotlin: exists|i: int|
            0 <= i < names.len() && spec_is_kotlin_source_file(names[i]@),
        source_scala: exists|i: int|
            0 <= i < names.len() && spec_is_scala_source_file(names[i]@),
        source_test: exists|i: int| 0 <= i < names.len() && spec_is_test(names[i]@),
    }
}

pub fn is_test(path: &str) -> (r: bool)
    ensures
        r == spec_is_test(path@),
{
    str_ends_with(path, "Test.java") || str_ends_with(path, "Tests.java")
}

pub fn is_java_source_file(path: &str) -> (r: bool)
    ensures
        r == spec_is_java_source_file(path@),
{
    str_ends_with(path, ".java")
}

pub fn is_groovy_source_file(path: &str) -> (r: bool)
    ensures
        r == spec_is_groovy_source_file(path@),
{
    str_ends_with(path, ".groovy")
}

pub fn is_kotlin_source_file(path: &str) -> (r: bool)
    ensures
        r == spec_is_kotlin_source_file(path@),
{
    str_ends_with(path, ".kt")
}

pub fn is_scala_source_file(path: &str) -> (r: bool)
    ensures
        r == spec_is_scala_source_file(path@),
{
    str_ends_with(path, ".scala")
}

/// Whether `names` holds the exact file name `f`.
fn contains_file(names: &Vec<String>, f: &str) -> (r: bool)
    ensures
        r == spec_contains_file(names@, f@),
{
    let mut i: usize = 0;
    while i < names.len()
        invariant
            0 <= i <= names@.len(),
            forall|j: int| 0 <= j < i ==> names@[j]@ != f@,
        decreases names@.len() - i,
    {
        if str_eq(names[i].as_str(), f) {
            return true;
        }
        i = i + 1;
    }
    false
}

/// Sets the build-tool tags from the file names, leaving the source tags
/// as they were.
pub fn detect_build_tool(names: &Vec<String>, tags: &mut TagSet)
    ensures
        *final(tags) == (TagSet {
            gradle: spec_light_detect(names@).gradle,
            gradle_composite: spec_light_detect(names@).gradle_composite,
            pom: spec_light_detect(names@).pom,
            ..*old(tags)
        }),
{
    let has_build = contains_file(names, "build.gradle");
    let has_settings = contains_file(names, "settings.gradle");
    tags.gradle = has_build;
    tags.gradle_composite = has_build && has_settings;
    tags.pom = contains_file(names, "pom.xml");
}

/// Sets a source-language tag true for every name that shows its language;
/// presence is monotonic, so tags already true stay true.
pub fn detect_source_file(names: &Vec<String>, tags: &mut TagSet)
    ensures
        *final(tags) == (TagSet {
            source_java: old(tags).source_java || spec_light_detect(names@).source_java,
            source_groovy: old(tags).source_groovy || spec_light_detect(names@).source_groovy,
            source_kotlin: old(tags).source_kotlin || spec_light_detect(names@).source_kotlin,
            source_scala: old(tags).source_scala || spec_light_detect(names@).source_scala,
            source_test: old(tags).source_test || spec_light_detect(names@).source_test,
            ..*old(tags)
        }),
{
    let mut i: usize = 0;
    while i < names.len()
        invariant
            0 <= i <= names@.len(),
            tags.gradle == old(tags).gradle,
            tags.gradle_composite == old(tags).gradle_composite,
            tags.pom == old(tags).pom,
            tags.source_java == (old(tags).source_java || exists|j: int|
                0 <= j < i && spec_is_java_source_file(names@[j]@)),
            tags.source_groovy == (old(tags).source_groovy || exists|j: int|
                0 <= j < i && spec_is_groovy_source_file(names@[j]@)),
            tags.source_kotlin == (old(tags).source_kotlin || exists|j: int|
                0 <= j < i && spec_is_kotlin_source_file(names@[j]@)),
            tags.source_scala == (old(tags).source_scala || exists|j: int|
                0 <= j < i && spec_is_scala_source_file(names@[j]@)),
            tags.source_test == (old(tags).source_test || exists|j: int|
                0 <= j < i && spec_is_test(names@[j]@)),
        decreases names@.len() - i,
    {
        let name = names[i].as_str();
        if is_test(name) {
            tags.source_test = true;
        }
        if is_java_source_file(name) {
            tags.source_java = true;
        }
        if is_groovy_source_file(name) {
            tags.source_groovy = true;
        }
        if is_kotlin_source_file(name) {
            tags.source_kotlin = true;
        }
        if is_scala_source_file(name) {
            tags.source_scala = true;
        }
        i = i + 1;
    }
}

/// One pass over the workspace's file names, yielding its deterministic
/// tag set. Empty input yields the all-false tag set.
pub fn light_detect(file_names: &Vec<String>) -> (r: TagSet)
    ensures
        r == spec_light_detect(file_names@),
{
    let mut tags = TagSet {
        gradle: false,
        gradle_composite: false,
        pom: false,
        source_java: false,
        source_groovy: false,
        source_kotlin: false,
        source_scala: false,
        source_test: false,
    };
    detect_build_tool(file_names, &mut tags);
    detect_source_file(file_names, &mut tags);
    tags
}

impl TagSet {
    /// The tag set as key/value pairs under the dotted tag keys, in
    /// lexicographic key order: a deterministic iteration for
    /// reproducible output.
    pub fn entries(&self) -> (r: Vec<(String, bool)>)
        ensures
            r@.len() == 8,
            r@[0].0@ == "workspace.gradle"@ && r@[0].1 == self.gradle,
            r@[1].0@ == "workspace.gradle.composite"@ && r@[1].1 == self.gradle_composite,
            r@[2].0@ == "workspace.pom"@ && r@[2].1 == self.pom,
            r@[3].0@ == "workspace.source.groovy"@ && r@[3].1 == self.source_groovy,
            r@[4].0@ == "workspace.source.java"@ && r@[4].1 == self.source_java,
            r@[5].0@ == "workspace.source.kotlin"@ && r@[5].1 == self.source_kotlin,
            r@[6].0@ == "workspace.source.scala"@ && r@[6].1 == self.source_scala,
            r@[7].0@ == "workspace.source.test"@ && r@[7].1 == self.source_test,
    {
        let mut r: Vec<(String, bool)> = Vec::new();
        r.push(("workspace.gradle".to_owned(), self.gradle));
        r.push(("workspace.gradle.composite".to_owned(), self.gradle_composite));
        r.push(("workspace.pom".to_owned(), self.pom));
        r.push(("workspace.source.groovy".to_owned(), self.source_groovy));
        r.push(("workspace.source.java".to_owned(), self.source_java));
        r.push(("workspace.source.kotlin".to_owned(), self.source_kotlin));
        r.push(("workspace.source.scala".to_owned(), self.source_scala));
        r.push(("workspace.source.test".to_owned(), self.source_test));
        r
    }
}

/// Law: a workspace holding both `build.gradle` and `settings.gradle` is
/// tagged as a gradle workspace and as a composite gradle workspace at
/// once, and when `pom.xml` is absent the pom tag is false.
pub proof fn lemma_composite_gradle(names: Seq<String>)
    requires
        spec_contains_file(names, "build.gradle"@),
        spec_contains_file(names, "settings.gradle"@),
    ensures
        spec_light_detect(names).gradle,
        spec_light_detect(names).gradle_composite,
        !spec_contains_file(names, "pom.xml"@) ==> !spec_light_detect(names).pom,
{
}

/// Law: the composite gradle tag never contradicts its constituent tag —
/// whatever the file names, composite implies plain gradle.
pub proof fn lemma_composite_never_contradicts(names: Seq<String>)
    ensures
        spec_light_detect(names).gradle_composite ==> spec_light_detect(names).gradle,
{
}

} // verus!
