use rust_task_db::cli::parse_args;
use rust_task_db::command::{AnalyzeFormat, Command};
use rust_task_db::error::AppError;

fn p(v: &[&str]) -> Result<Command, AppError> {
    parse_args(v.iter().map(|s| s.to_string()).collect())
}

#[test]
fn legacy_commands_stay_supported() {
    assert_eq!(p(&["x", "add", "Rust"]), Ok(Command::Add { title: "Rust".into() }));
    assert_eq!(p(&["x", "list"]), Ok(Command::List));
    assert_eq!(p(&["x", "done", "1"]), Ok(Command::Done { id: 1 }));
}

#[test]
fn parses_project_commands() {
    assert_eq!(p(&["x", "project", "add", "Lab"]), Ok(Command::ProjectAdd { name: "Lab".into() }));
    assert_eq!(p(&["x", "project", "stats", "2"]), Ok(Command::ProjectStats { id: Some(2) }));
}

#[test]
fn parses_all_project_stats() {
    assert_eq!(p(&["x", "project", "stats"]), Ok(Command::ProjectStats { id: None }));
}

#[test]
fn parses_task_add_tags() {
    let command = p(&["x", "task", "add", "--tag", "backend", "--tag", "sql", "Plan"]);
    assert_eq!(
        command,
        Ok(Command::TaskAdd {
            project_id: None,
            priority: 3,
            title: "Plan".into(),
            tags: vec!["backend".into(), "sql".into()]
        })
    );
}

#[test]
fn parses_task_options() {
    assert_eq!(
        p(&["x", "task", "add", "--project", "1", "--priority", "5", "Plan"]),
        Ok(Command::TaskAdd { project_id: Some(1), priority: 5, title: "Plan".into(), tags: Vec::new() })
    );
    assert_eq!(
        p(&["x", "task", "list", "--tag", "backend"]),
        Ok(Command::TaskList { project_id: None, tag: Some("backend".into()) })
    );
}

#[test]
fn parses_tag_and_seed() {
    assert_eq!(p(&["x", "tag", "add", "backend"]), Ok(Command::TagAdd { name: "backend".into() }));
    assert_eq!(p(&["x", "seed"]), Ok(Command::Seed));
}

#[test]
fn rejects_bad_id() {
    assert_eq!(p(&["x", "done", "no"]), Err(AppError::InvalidCommand("id must be an integer: no".into())));
}

#[test]
fn help_aliases() {
    assert_eq!(p(&["x"]), Ok(Command::Help));
    assert_eq!(p(&["x", "--help"]), Ok(Command::Help));
}

#[test]
fn parses_task_relationship_commands() {
    assert_eq!(p(&["x", "task", "tag", "1", "backend"]), Ok(Command::TaskTag { id: 1, tag: "backend".into() }));
    assert_eq!(p(&["x", "task", "untag", "1", "backend"]), Ok(Command::TaskUntag { id: 1, tag: "backend".into() }));
    assert_eq!(p(&["x", "task", "tags", "1"]), Ok(Command::TaskTags { id: 1 }));
}

#[test]
fn parses_project_delete() {
    assert_eq!(p(&["x", "project", "delete", "3"]), Ok(Command::ProjectDelete { id: 3 }));
}

#[test]
fn rejects_unknown_subcommand() {
    assert!(p(&["x", "tag", "wat"]).is_err());
}

#[test]
fn parses_analyze_with_options() {
    assert_eq!(
        p(&["x", "analyze", "--plan", "--format", "json", "SELECT 1"]),
        Ok(Command::Analyze {
            sql: "SELECT 1".into(),
            plan: true,
            runtime: false,
            raw_plan: false,
            format: AnalyzeFormat::Json
        })
    );
}

#[test]
fn parses_lab_commands() {
    assert_eq!(p(&["x", "lab", "list"]), Ok(Command::LabList));
    assert_eq!(p(&["x", "lab", "run", "join"]), Ok(Command::LabRun { scenario: "join".into() }));
}

#[test]
fn parses_negative_and_signed_ids() {
    assert_eq!(p(&["x", "done", "-4"]), Ok(Command::Done { id: -4 }));
    assert_eq!(p(&["x", "done", "+4"]), Ok(Command::Done { id: 4 }));
    assert!(p(&["x", "done", "9223372036854775808"]).is_err());
}

#[test]
fn displays_not_found_message() {
    let error = AppError::NotFound(404);

    assert_eq!(error.message(), "Task not found: 404");
}

#[test]
fn displays_invalid_command_message_without_prefix() {
    let error = AppError::InvalidCommand("Unknown command: nope".to_string());

    assert_eq!(error.message(), "Unknown command: nope");
}

#[test]
fn displays_gluesql_error_message() {
    let error = AppError::GlueSql("table not found: tasks".to_string());

    assert_eq!(error.message(), "GlueSQL error: table not found: tasks");
}

#[test]
fn displays_unsupported_message_without_prefix() {
    let error = AppError::Unsupported("SQL is not supported here".to_string());

    assert_eq!(error.message(), "SQL is not supported here");
}

#[test]
fn displays_domain_message_without_prefix() {
    assert_eq!(AppError::Domain("project has tasks".into()).message(), "project has tasks");
}

#[test]
fn displays_io_and_json_messages_with_prefix() {
    assert_eq!(AppError::Io("blocked".into()).message(), "I/O error: blocked");
    assert_eq!(AppError::Json("bad".into()).message(), "JSON error: bad");
}
