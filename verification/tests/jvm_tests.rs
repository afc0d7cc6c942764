use coco_analysis::jvm::{
    is_groovy_source_file, is_java_source_file, is_kotlin_source_file, is_scala_source_file,
    is_test, light_detect,
};

#[test]
fn should_ident_test_java_file() {
    assert_eq!(false, is_test("Hello.java"));
    assert_eq!(true, is_test("HelloWorldTest.java"));
    assert_eq!(true, is_test("HelloTests.java"));
}

#[test]
fn should_ident_java_source_file() {
    assert_eq!(true, is_java_source_file("Hello.java"));
    assert_eq!(true, is_java_source_file("HelloWorldTest.java"));
}

#[test]
fn should_ident_groovy_source_file() {
    assert_eq!(true, is_groovy_source_file("Hello.groovy"));
    assert_eq!(true, is_groovy_source_file("HelloTest.groovy"));
}

#[test]
fn should_ident_kotlin_source_file() {
    assert_eq!(true, is_kotlin_source_file("Hello.kt"));
    assert_eq!(true, is_kotlin_source_file("HelloTest.kt"));
}

#[test]
fn should_ident_scala_source_file() {
    assert_eq!(true, is_scala_source_file("Hello.scala"));
    assert_eq!(true, is_scala_source_file("HelloTest.scala"));
}

#[test]
fn test_convention_is_java_only() {
    assert_eq!(false, is_test("Hello.kt"));
    assert_eq!(false, is_test("HelloTest.kt"));
    assert_eq!(false, is_test("HelloTest.groovy"));
    assert_eq!(true, is_test("HelloTest.java"));
}

fn names(v: &[&str]) -> Vec<String> {
    v.iter().map(|s| s.to_string()).collect()
}

#[test]
fn composite_gradle_workspace_tags() {
    let tags = light_detect(&names(&["build.gradle", "settings.gradle", "Main.java"]));
    assert!(tags.gradle);
    assert!(tags.gradle_composite);
    assert!(!tags.pom);
    assert!(tags.source_java);
}

#[test]
fn plain_gradle_workspace_is_not_composite() {
    let tags = light_detect(&names(&["build.gradle", "Main.java"]));
    assert!(tags.gradle);
    assert!(!tags.gradle_composite);
}

#[test]
fn maven_workspace_tags() {
    let tags = light_detect(&names(&["pom.xml", "App.java"]));
    assert!(tags.pom);
    assert!(!tags.gradle);
    assert!(!tags.gradle_composite);
}

#[test]
fn empty_workspace_yields_all_false() {
    let tags = light_detect(&Vec::new());
    assert!(!tags.gradle);
    assert!(!tags.gradle_composite);
    assert!(!tags.pom);
    assert!(!tags.source_java);
    assert!(!tags.source_groovy);
    assert!(!tags.source_kotlin);
    assert!(!tags.source_scala);
    assert!(!tags.source_test);
}

#[test]
fn kotlin_test_file_sets_kotlin_but_not_java_test_tag() {
    let tags = light_detect(&names(&["HelloTest.kt"]));
    assert!(tags.source_kotlin);
    assert!(!tags.source_test);
    assert!(!tags.source_java);
}

#[test]
fn java_test_file_sets_both_java_and_test_tags() {
    let tags = light_detect(&names(&["HelloWorldTests.java"]));
    assert!(tags.source_java);
    assert!(tags.source_test);
}

#[test]
fn entries_iterate_in_lexicographic_key_order() {
    let tags = light_detect(&names(&["build.gradle", "Main.java"]));
    let entries = tags.entries();
    let keys: Vec<&str> = entries.iter().map(|(k, _)| k.as_str()).collect();
    assert_eq!(
        vec![
            "workspace.gradle",
            "workspace.gradle.composite",
            "workspace.pom",
            "workspace.source.groovy",
            "workspace.source.java",
            "workspace.source.kotlin",
            "workspace.source.scala",
            "workspace.source.test",
        ],
        keys
    );
    assert!(entries[0].1);
    assert!(!entries[1].1);
    assert!(entries[4].1);
}

#[test]
fn all_languages_detected_in_one_scan() {
    let tags = light_detect(&names(&["A.java", "B.groovy", "C.kt", "D.scala"]));
    assert!(tags.source_java);
    assert!(tags.source_groovy);
    assert!(tags.source_kotlin);
    assert!(tags.source_scala);
}
