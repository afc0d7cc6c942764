use coco_analysis::ctags_parser::CtagsParser;

const ASYNC_EVENT_BUS_LINE: &str = "AsyncEventBus\tAsyncEventBus.java\t/^public class AsyncEventBus extends EventBus {$/;\"\tclass\tline:31\tlanguage:Java\tinherits:EventBus";

#[test]
pub fn should_parse_java_class() {
    let tags = "AsyncEventBus	AsyncEventBus.java	/^public class AsyncEventBus extends EventBus {$/;\"	class	line:31	language:Java	inherits:EventBus";
    let mut parser = CtagsParser::default();
    parser.parse_class(tags);

    assert_eq!(1, parser.classes.len());
    assert_eq!("AsyncEventBus", parser.classes[0].name);
}

#[test]
fn class_line_yields_name_file_and_parents() {
    let mut parser = CtagsParser::default();
    parser.parse_class(ASYNC_EVENT_BUS_LINE);
    assert_eq!(1, parser.classes.len());
    assert_eq!("AsyncEventBus", parser.classes[0].name);
    assert_eq!("AsyncEventBus.java", parser.classes[0].source_file);
    assert_eq!(vec!["EventBus".to_string()], parser.classes[0].parents);
}

#[test]
fn class_line_without_inherits_has_no_parents() {
    let mut parser = CtagsParser::default();
    parser.parse_class("EventBus\tEventBus.java\t/^public class EventBus {$/;\"\tclass\tline:11\tlanguage:Java");
    assert_eq!(1, parser.classes.len());
    assert_eq!("EventBus", parser.classes[0].name);
    assert_eq!(0, parser.classes[0].parents.len());
}

#[test]
fn comma_separated_parents_are_kept_verbatim_in_order() {
    let mut parser = CtagsParser::default();
    parser.parse_class(
        "Worker\tWorker.java\t/^class Worker$/;\"\tclass\tinherits:Base,java::io::Serializable",
    );
    assert_eq!(1, parser.classes.len());
    assert_eq!(
        vec!["Base".to_string(), "java::io::Serializable".to_string()],
        parser.classes[0].parents
    );
}

#[test]
fn metadata_lines_are_ignored() {
    let mut parser = CtagsParser::default();
    parser.parse_class("!_TAG_FILE_FORMAT\t2\t/extended format/");
    parser.parse_class("!_TAG_PROGRAM_NAME\tUniversal Ctags\t/Derived from Exuberant Ctags/");
    assert_eq!(0, parser.classes.len());
}

#[test]
fn non_class_lines_are_skipped_without_error() {
    let mut parser = CtagsParser::default();
    parser.parse_class("post\tEventBus.java\t/^    public void post(Object event) {$/;\"\tmethod\tline:21");
    parser.parse_class("subscribers\tEventBus.java\t/^    private List subscribers;$/;\"\tfield");
    parser.parse_class("not a tag line at all");
    parser.parse_class("");
    assert_eq!(0, parser.classes.len());
}

#[test]
fn malformed_short_lines_are_skipped() {
    let mut parser = CtagsParser::default();
    parser.parse_class("OnlyName");
    parser.parse_class("Name\tFile.java");
    parser.parse_class("Name\tFile.java\t/^pattern$/");
    assert_eq!(0, parser.classes.len());
}

#[test]
fn class_name_must_be_an_identifier() {
    let mut parser = CtagsParser::default();
    parser.parse_class("Bad-Name\tFile.java\t/^pattern$/;\"\tclass");
    parser.parse_class("\tFile.java\t/^pattern$/;\"\tclass");
    assert_eq!(0, parser.classes.len());
    parser.parse_class("Good_Name9\tFile.java\t/^pattern$/;\"\tclass");
    assert_eq!(1, parser.classes.len());
}

#[test]
fn kind_field_must_be_exactly_class() {
    let mut parser = CtagsParser::default();
    parser.parse_class("Thing\tFile.java\t/^pattern$/;\"\tclasses");
    parser.parse_class("Thing\tFile.java\t/^pattern$/;\"\tinterface");
    assert_eq!(0, parser.classes.len());
}

#[test]
fn parse_lines_walks_a_whole_tag_file() {
    let text = "!_TAG_FILE_FORMAT\t2\t/extended format/\nEventBus\tEventBus.java\t/^public class EventBus {$/;\"\tclass\nAsyncEventBus\tAsyncEventBus.java\t/^public class AsyncEventBus extends EventBus {$/;\"\tclass\tinherits:EventBus\npost\tEventBus.java\t/^post$/;\"\tmethod";
    let mut parser = CtagsParser::default();
    parser.parse_lines(text);
    assert_eq!(2, parser.classes.len());
    assert_eq!("EventBus", parser.classes[0].name);
    assert_eq!("AsyncEventBus", parser.classes[1].name);
    assert_eq!(vec!["EventBus".to_string()], parser.classes[1].parents);
}

#[test]
fn records_accumulate_across_calls() {
    let mut parser = CtagsParser::default();
    parser.parse_class("A\tA.java\t/^class A$/;\"\tclass");
    parser.parse_class("B\tB.java\t/^class B$/;\"\tclass\tinherits:A");
    assert_eq!(2, parser.classes.len());
    assert_eq!("A", parser.classes[0].name);
    assert_eq!("B", parser.classes[1].name);
}
