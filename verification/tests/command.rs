use mashinka::command::{select, CommandKind, CommandResult, Details};

#[test]
fn command_is_selected_by_its_name() {
    assert_eq!(CommandKind::Index, select(Some("index".to_string())));
    assert_eq!(CommandKind::Publish, select(Some("publish".to_string())));
    assert_eq!(CommandKind::Help, select(Some("help".to_string())));
    assert_eq!(CommandKind::Version, select(Some("version".to_string())));
    assert_eq!(CommandKind::Deploy, select(Some("deploy".to_string())));
}

#[test]
fn unknown_command_asks_for_help() {
    assert_eq!(CommandKind::Help, select(Some("unknown".to_string())));
    assert_eq!(CommandKind::Help, select(Some("Index".to_string())));
    assert_eq!(CommandKind::Help, select(Some(String::new())));
    assert_eq!(CommandKind::Help, select(None));
}

#[test]
fn details_are_written_one_after_the_other() {
    let mut details = Details::new();
    assert_eq!("", details.to_string());
    details.push("a".to_string(), "1".to_string());
    details.push(String::new(), "2".to_string());
    details.push("c".to_string(), String::new());
    assert_eq!("a:12c:", details.to_string());
}

#[test]
fn result_of_a_command_is_summarized() {
    let mut details = Details::new();
    details.push("index_path".to_string(), "/data.json".to_string());
    let mut result = CommandResult::new("index".to_string(), details);
    assert_eq!(
        "Command `index` successfully completed. index_path:/data.json",
        result.summarize()
    );
    assert_eq!(
        "Command `index` successfully completed. index_path:/data.json",
        result.summarize()
    );
    assert_eq!(
        "Command `help` successfully completed. ",
        CommandResult::new("help".to_string(), Details::new()).summarize()
    );
}

#[test]
fn result_without_a_command_is_its_details() {
    assert_eq!("", CommandResult::default().summarize());
    let mut details = Details::default();
    details.push(String::new(), "done".to_string());
    assert_eq!("done", CommandResult::new(String::new(), details).summarize());
}
