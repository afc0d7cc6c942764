use coco_analysis::coco_struct::ClassInfo;
use coco_analysis::jvm::light_detect;
use coco_analysis::plugin_manager::{
    BuildType, Platform, PluginError, PluginManager, PluginOutcome,
};

#[test]
fn plugin_path_follows_linux_convention() {
    let p = PluginManager::get_plugin_path(Platform::Linux, BuildType::Debug, "swagger");
    assert_eq!("target/debug/libcoco_swagger.so", p);
}

#[test]
fn plugin_path_follows_macos_convention() {
    let p = PluginManager::get_plugin_path(Platform::MacOs, BuildType::Release, "swagger");
    assert_eq!("target/release/libcoco_swagger.dylib", p);
}

#[test]
fn plugin_path_follows_windows_convention() {
    let p = PluginManager::get_plugin_path(Platform::Windows, BuildType::Debug, "swagger");
    assert_eq!("target\\debug\\coco_swagger.dll", p);
}

#[test]
fn selection_follows_the_detected_tags() {
    let names: Vec<String> = vec!["Main.java".to_string(), "Util.kt".to_string()];
    let tags = light_detect(&names);
    let plugins = PluginManager::select_plugins(&tags);
    assert_eq!(2, plugins.len());
    assert_eq!("workspace.source.java", plugins[0].language_key);
    assert_eq!("java", plugins[0].binary_name);
    assert_eq!("workspace.source.kotlin", plugins[1].language_key);
    assert_eq!("kotlin", plugins[1].binary_name);
}

#[test]
fn no_tags_select_no_plugins() {
    let tags = light_detect(&Vec::new());
    let plugins = PluginManager::select_plugins(&tags);
    assert_eq!(0, plugins.len());
}

#[test]
fn failed_plugin_does_not_abort_the_run() {
    let mut java_record = ClassInfo::new("EventBus");
    java_record.source_file = "EventBus.java".to_string();
    let outcomes = vec![
        PluginOutcome { plugin_name: "java".to_string(), result: Ok(vec![java_record]) },
        PluginOutcome { plugin_name: "kotlin".to_string(), result: Err(PluginError::LoadFailed) },
    ];
    let run = PluginManager::merge_outcomes(&outcomes);
    assert_eq!(1, run.graph.nodes.len());
    assert_eq!("EventBus", run.graph.nodes[0].name);
    assert_eq!(1, run.failures.len());
    assert_eq!("kotlin", run.failures[0].plugin_name);
    assert!(matches!(run.failures[0].error, PluginError::LoadFailed));
}

#[test]
fn records_of_all_successful_plugins_merge_in_invocation_order() {
    let a = ClassInfo::new("A");
    let mut b = ClassInfo::new("B");
    b.parents = vec!["A".to_string()];
    let outcomes = vec![
        PluginOutcome { plugin_name: "java".to_string(), result: Ok(vec![a]) },
        PluginOutcome { plugin_name: "groovy".to_string(), result: Ok(vec![b]) },
    ];
    let run = PluginManager::merge_outcomes(&outcomes);
    assert_eq!(0, run.failures.len());
    assert_eq!(2, run.graph.nodes.len());
    assert_eq!("A", run.graph.nodes[0].name);
    assert_eq!("B", run.graph.nodes[1].name);
    assert_eq!(vec![0usize], run.graph.nodes[1].resolved_parents);
}

#[test]
fn invocation_failure_is_recorded_like_load_failure() {
    let outcomes = vec![
        PluginOutcome {
            plugin_name: "scala".to_string(),
            result: Err(PluginError::InvocationFailed),
        },
    ];
    let run = PluginManager::merge_outcomes(&outcomes);
    assert_eq!(0, run.graph.nodes.len());
    assert_eq!(1, run.failures.len());
    assert!(matches!(run.failures[0].error, PluginError::InvocationFailed));
}
