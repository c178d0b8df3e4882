//! Parsing of the command line into a `Command`.
use vstd::prelude::*;
use crate::command::{AnalyzeFormat, Command, CommandView, strings_view};
use crate::error::{AppError, ErrorView};
use crate::text::{concat2, parse_i64, parse_i64_spec, str_eq};

verus! {

/// The error for a command line that cannot be understood.
pub open spec fn invalid_spec(message: Seq<char>) -> ErrorView {
    ErrorView::InvalidCommand(message)
}

/// The view of a parse result.
pub open spec fn parsed_view(r: Result<Command, AppError>) -> Result<CommandView, ErrorView> {
    match r {
        Ok(c) => Ok(c@),
        Err(e) => Err(e@),
    }
}

/// The only argument of `v`, or the usage error `message`.
pub open spec fn one_spec(v: Seq<Seq<char>>, message: Seq<char>) -> Result<Seq<char>, ErrorView> {
    if v.len() == 1 {
        Ok(v[0])
    } else {
        Err(invalid_spec(message))
    }
}

/// An id given as text.
pub open spec fn id_spec(v: Seq<char>) -> Result<i64, ErrorView> {
    match parse_i64_spec(v) {
        Some(n) => Ok(n),
        None => Err(invalid_spec("id must be an integer: "@ + v)),
    }
}

/// The id that is the only argument of `v`.
pub open spec fn one_id_spec(v: Seq<Seq<char>>, message: Seq<char>) -> Result<i64, ErrorView> {
    match one_spec(v, message) {
        Ok(s) => id_spec(s),
        Err(e) => Err(e),
    }
}

/// The command of a command line `args` (the program name first).
pub open spec fn parse_args_spec(args: Seq<Seq<char>>) -> Result<CommandView, ErrorView> {
    let values = if args.len() == 0 {
        args
    } else {
        args.drop_first()
    };
    if values.len() == 0 {
        Ok(CommandView::Help)
    } else {
        let command = values[0];
        let v = values.drop_first();
        if command == "add"@ {
            match one_spec(v, "Usage: rust-task add \"할 일\""@) {
                Ok(title) => Ok(CommandView::Add { title }),
                Err(e) => Err(e),
            }
        } else if command == "list"@ {
            Ok(CommandView::List)
        } else if command == "done"@ {
            match one_id_spec(v, "Usage: rust-task done 1"@) {
                Ok(id) => Ok(CommandView::Done { id }),
                Err(e) => Err(e),
            }
        } else if command == "delete"@ {
            match one_id_spec(v, "Usage: rust-task delete 1"@) {
                Ok(id) => Ok(CommandView::Delete { id }),
                Err(e) => Err(e),
            }
        } else if command == "search"@ {
            match one_spec(v, "Usage: rust-task search rust"@) {
                Ok(keyword) => Ok(CommandView::Search { keyword }),
                Err(e) => Err(e),
            }
        } else if command == "stats"@ {
            Ok(CommandView::Stats)
        } else if command == "project"@ {
            parse_project_spec(v)
        } else if command == "task"@ {
            parse_task_spec(v)
        } else if command == "tag"@ {
            parse_tag_spec(v)
        } else if command == "seed"@ {
            Ok(CommandView::Seed)
        } else if command == "sql"@ {
            match one_spec(v, "Usage: rust-task sql \"SELECT * FROM tasks\""@) {
                Ok(sql) => Ok(CommandView::Sql { sql }),
                Err(e) => Err(e),
            }
        } else if command == "repl"@ {
            Ok(CommandView::Repl)
        } else if command == "analyze"@ {
            analyze_spec(v, 0, false, false, false, AnalyzeFormat::Tree, None)
        } else if command == "lab"@ {
            parse_lab_spec(v)
        } else if command == "help"@ || command == "-h"@ || command == "--help"@ {
            Ok(CommandView::Help)
        } else {
            Err(invalid_spec("Unknown command: "@ + command))
        }
    }
}

/// The `project` sub-commands.
pub open spec fn parse_project_spec(v: Seq<Seq<char>>) -> Result<CommandView, ErrorView> {
    if v.len() == 0 {
        Err(invalid_spec("Usage: rust-task project <add|list|show|delete|stats>"@))
    } else {
        let sub = v[0];
        let v = v.drop_first();
        if sub == "add"@ {
            match one_spec(v, "Usage: rust-task project add \"이름\""@) {
                Ok(name) => Ok(CommandView::ProjectAdd { name }),
                Err(e) => Err(e),
            }
        } else if sub == "list"@ {
            Ok(CommandView::ProjectList)
        } else if sub == "show"@ {
            match one_id_spec(v, "Usage: rust-task project show 1"@) {
                Ok(id) => Ok(CommandView::ProjectShow { id }),
                Err(e) => Err(e),
            }
        } else if sub == "delete"@ {
            match one_id_spec(v, "Usage: rust-task project delete 1"@) {
                Ok(id) => Ok(CommandView::ProjectDelete { id }),
                Err(e) => Err(e),
            }
        } else if sub == "stats"@ {
            if v.len() == 0 {
                Ok(CommandView::ProjectStats { id: None })
            } else if v.len() == 1 {
                match id_spec(v[0]) {
                    Ok(id) => Ok(CommandView::ProjectStats { id: Some(id) }),
                    Err(e) => Err(e),
                }
            } else {
                Err(invalid_spec("Usage: rust-task project stats [id]"@))
            }
        } else {
            Err(invalid_spec("Unknown project command: "@ + sub))
        }
    }
}

/// The `tag` sub-commands.
pub open spec fn parse_tag_spec(v: Seq<Seq<char>>) -> Result<CommandView, ErrorView> {
    if v.len() == 0 {
        Err(invalid_spec("Usage: rust-task tag <add|list|delete>"@))
    } else {
        let sub = v[0];
        let v = v.drop_first();
        if sub == "add"@ {
            match one_spec(v, "Usage: rust-task tag add backend"@) {
                Ok(name) => Ok(CommandView::TagAdd { name }),
                Err(e) => Err(e),
            }
        } else if sub == "list"@ {
            Ok(CommandView::TagList)
        } else if sub == "delete"@ {
            match one_id_spec(v, "Usage: rust-task tag delete 1"@) {
                Ok(id) => Ok(CommandView::TagDelete { id }),
                Err(e) => Err(e),
            }
        } else {
            Err(invalid_spec("Unknown tag command: "@ + sub))
        }
    }
}

/// The options of `task add` from position `i` on, given what was read before it.
pub open spec fn task_add_spec(
    v: Seq<Seq<char>>,
    i: int,
    project_id: Option<i64>,
    priority: i64,
    title: Option<Seq<char>>,
    tags: Seq<Seq<char>>,
) -> Result<CommandView, ErrorView>
    decreases v.len() - i,
{
    if i >= v.len() || i < 0 {
        match title {
            Some(t) => Ok(CommandView::TaskAdd { project_id, priority, title: t, tags }),
            None => Err(
                invalid_spec(
                    "Usage: rust-task task add [--project 1] [--priority 3] [--tag name] \"할 일\""@,
                ),
            ),
        }
    } else if v[i] == "--project"@ {
        if i + 1 >= v.len() {
            Err(invalid_spec("--project requires id"@))
        } else {
            match id_spec(v[i + 1]) {
                Ok(n) => task_add_spec(v, i + 2, Some(n), priority, title, tags),
                Err(e) => Err(e),
            }
        }
    } else if v[i] == "--priority"@ {
        if i + 1 >= v.len() {
            Err(invalid_spec("--priority requires 1..5"@))
        } else {
            match id_spec(v[i + 1]) {
                Ok(n) => task_add_spec(v, i + 2, project_id, n, title, tags),
                Err(e) => Err(e),
            }
        }
    } else if v[i] == "--tag"@ {
        if i + 1 >= v.len() {
            Err(invalid_spec("--tag requires name"@))
        } else {
            task_add_spec(v, i + 2, project_id, priority, title, tags.push(v[i + 1]))
        }
    } else if title is None {
        task_add_spec(v, i + 1, project_id, priority, Some(v[i]), tags)
    } else {
        Err(invalid_spec("task title must be one quoted argument"@))
    }
}

/// The options of `task list` from position `i` on, given what was read before it.
pub open spec fn task_list_spec(
    v: Seq<Seq<char>>,
    i: int,
    project_id: Option<i64>,
    tag: Option<Seq<char>>,
) -> Result<CommandView, ErrorView>
    decreases v.len() - i,
{
    if i >= v.len() || i < 0 {
        Ok(CommandView::TaskList { project_id, tag })
    } else if v[i] == "--project"@ {
        if i + 1 >= v.len() {
            Err(invalid_spec("--project requires id"@))
        } else {
            match id_spec(v[i + 1]) {
                Ok(n) => task_list_spec(v, i + 2, Some(n), tag),
                Err(e) => Err(e),
            }
        }
    } else if v[i] == "--tag"@ {
        if i + 1 >= v.len() {
            Err(invalid_spec("--tag requires name"@))
        } else {
            task_list_spec(v, i + 2, project_id, Some(v[i + 1]))
        }
    } else {
        Err(invalid_spec("Unknown task list option: "@ + v[i]))
    }
}

/// A task id followed by exactly one tag name.
pub open spec fn id_and_tag_spec(v: Seq<Seq<char>>, message: Seq<char>) -> Result<(i64, Seq<char>), ErrorView> {
    if v.len() == 0 {
        Err(invalid_spec(message))
    } else {
        match id_spec(v[0]) {
            Ok(id) => match one_spec(v.drop_first(), message) {
                Ok(tag) => Ok((id, tag)),
                Err(e) => Err(e),
            },
            Err(e) => Err(e),
        }
    }
}

/// The `task` sub-commands.
pub open spec fn parse_task_spec(v: Seq<Seq<char>>) -> Result<CommandView, ErrorView> {
    if v.len() == 0 {
        Err(
            invalid_spec(
                "Usage: rust-task task <add|list|show|done|delete|search|tag|untag|tags>"@,
            ),
        )
    } else {
        let sub = v[0];
        let v = v.drop_first();
        if sub == "add"@ {
            task_add_spec(v, 0, None, 3, None, Seq::empty())
        } else if sub == "list"@ {
            task_list_spec(v, 0, None, None)
        } else if sub == "show"@ {
            match one_id_spec(v, "Usage: rust-task task show 1"@) {
                Ok(id) => Ok(CommandView::TaskShow { id }),
                Err(e) => Err(e),
            }
        } else if sub == "done"@ {
            match one_id_spec(v, "Usage: rust-task task done 1"@) {
                Ok(id) => Ok(CommandView::TaskDone { id }),
                Err(e) => Err(e),
            }
        } else if sub == "delete"@ {
            match one_id_spec(v, "Usage: rust-task task delete 1"@) {
                Ok(id) => Ok(CommandView::TaskDelete { id }),
                Err(e) => Err(e),
            }
        } else if sub == "search"@ {
            match one_spec(v, "Usage: rust-task task search rust"@) {
                Ok(keyword) => Ok(CommandView::TaskSearch { keyword }),
                Err(e) => Err(e),
            }
        } else if sub == "tag"@ {
            match id_and_tag_spec(v, "Usage: rust-task task tag 1 backend"@) {
                Ok((id, tag)) => Ok(CommandView::TaskTag { id, tag }),
                Err(e) => Err(e),
            }
        } else if sub == "untag"@ {
            match id_and_tag_spec(v, "Usage: rust-task task untag 1 backend"@) {
                Ok((id, tag)) => Ok(CommandView::TaskUntag { id, tag }),
                Err(e) => Err(e),
            }
        } else if sub == "tags"@ {
            match one_id_spec(v, "Usage: rust-task task tags 1"@) {
                Ok(id) => Ok(CommandView::TaskTags { id }),
                Err(e) => Err(e),
            }
        } else {
            Err(invalid_spec("Unknown task command: "@ + sub))
        }
    }
}

/// The options of `analyze` from position `i` on, given what was read before it.
pub open spec fn analyze_spec(
    v: Seq<Seq<char>>,
    i: int,
    plan: bool,
    runtime: bool,
    raw_plan: bool,
    format: AnalyzeFormat,
    sql: Option<Seq<char>>,
) -> Result<CommandView, ErrorView>
    decreases v.len() - i,
{
    if i >= v.len() || i < 0 {
        match sql {
            Some(s) => Ok(CommandView::Analyze { sql: s, plan, runtime, raw_plan, format }),
            None => Err(
                invalid_spec(
                    "Usage: rust-task analyze [--plan] [--runtime] [--raw-plan] [--format tree|json] \"SQL\""@,
                ),
            ),
        }
    } else if v[i] == "--plan"@ {
        analyze_spec(v, i + 1, true, runtime, raw_plan, format, sql)
    } else if v[i] == "--runtime"@ {
        analyze_spec(v, i + 1, plan, true, raw_plan, format, sql)
    } else if v[i] == "--raw-plan"@ {
        analyze_spec(v, i + 1, plan, runtime, true, format, sql)
    } else if v[i] == "--format"@ {
        if i + 1 >= v.len() {
            Err(invalid_spec("--format requires tree or json"@))
        } else if v[i + 1] == "tree"@ {
            analyze_spec(v, i + 2, plan, runtime, raw_plan, AnalyzeFormat::Tree, sql)
        } else if v[i + 1] == "json"@ {
            analyze_spec(v, i + 2, plan, runtime, raw_plan, AnalyzeFormat::Json, sql)
        } else {
            Err(invalid_spec("Unknown analyze format: "@ + v[i + 1]))
        }
    } else if sql is None {
        analyze_spec(v, i + 1, plan, runtime, raw_plan, format, Some(v[i]))
    } else {
        Err(invalid_spec("analyze SQL must be one quoted argument"@))
    }
}

/// The profile named by a `--profile` option of `lab seed`.
pub open spec fn seed_profile_spec(arg: Seq<char>) -> Result<Seq<char>, ErrorView> {
    if arg.len() > 2 && arg[0] == '-' && arg[1] == '-' {
        Ok(arg.subrange(2, arg.len() as int))
    } else {
        Err(invalid_spec("Usage: rust-task lab seed --small|--medium|--large|--skewed"@))
    }
}

/// The `lab` sub-commands.
pub open spec fn parse_lab_spec(v: Seq<Seq<char>>) -> Result<CommandView, ErrorView> {
    if v.len() == 0 {
        Err(invalid_spec("Usage: rust-task lab <list|run|seed>"@))
    } else {
        let sub = v[0];
        let v = v.drop_first();
        if sub == "list"@ {
            if v.len() == 0 {
                Ok(CommandView::LabList)
            } else {
                Err(invalid_spec("Usage: rust-task lab list"@))
            }
        } else if sub == "run"@ {
            match one_spec(v, "Usage: rust-task lab run <scenario>"@) {
                Ok(scenario) => Ok(CommandView::LabRun { scenario }),
                Err(e) => Err(e),
            }
        } else if sub == "seed"@ {
            match one_spec(v, "Usage: rust-task lab seed --small|--medium|--large|--skewed"@) {
                Ok(arg) => match seed_profile_spec(arg) {
                    Ok(profile) => Ok(CommandView::LabSeed { profile }),
                    Err(e) => Err(e),
                },
                Err(e) => Err(e),
            }
        } else {
            Err(invalid_spec("Unknown lab command: "@ + sub))
        }
    }
}

fn invalid(message: &str) -> (e: AppError)
    ensures
        e@ == invalid_spec(message@),
{
    AppError::InvalidCommand(String::from_str(message))
}

fn invalid_with(prefix: &str, detail: &str) -> (e: AppError)
    ensures
        e@ == invalid_spec(prefix@ + detail@),
{
    AppError::InvalidCommand(concat2(prefix, detail))
}

fn take(v: &mut Vec<String>, message: &str) -> (r: Result<String, AppError>)
    ensures
        old(v)@.len() == 0 ==> (r matches Err(e) && e@ == invalid_spec(message@) && final(v)@ == old(v)@),
        old(v)@.len() > 0 ==> (r matches Ok(s) && s@ == old(v)@[0]@ && final(v)@ == old(v)@.drop_first()),
{
    if v.len() == 0 {
        Err(invalid(message))
    } else {
        let s = v.remove(0);
        assert(v@ =~= old(v)@.drop_first());
        Ok(s)
    }
}

fn one(v: Vec<String>, message: &str) -> (r: Result<String, AppError>)
    ensures
        match r {
            Ok(s) => one_spec(strings_view(v@), message@) == Ok::<Seq<char>, ErrorView>(s@),
            Err(e) => one_spec(strings_view(v@), message@) == Err::<Seq<char>, ErrorView>(e@),
        },
{
    if v.len() == 1 {
        Ok(v[0].clone())
    } else {
        Err(invalid(message))
    }
}

fn id(v: String) -> (r: Result<i64, AppError>)
    ensures
        match r {
            Ok(n) => id_spec(v@) == Ok::<i64, ErrorView>(n),
            Err(e) => id_spec(v@) == Err::<i64, ErrorView>(e@),
        },
{
    match parse_i64(v.as_str()) {
        Some(n) => Ok(n),
        None => Err(invalid_with("id must be an integer: ", v.as_str())),
    }
}

fn one_id(v: Vec<String>, message: &str) -> (r: Result<i64, AppError>)
    ensures
        match r {
            Ok(n) => one_id_spec(strings_view(v@), message@) == Ok::<i64, ErrorView>(n),
            Err(e) => one_id_spec(strings_view(v@), message@) == Err::<i64, ErrorView>(e@),
        },
{
    match one(v, message) {
        Ok(s) => id(s),
        Err(e) => Err(e),
    }
}

fn is(s: &String, literal: &str) -> (r: bool)
    ensures
        r == (s@ == literal@),
{
    str_eq(s.as_str(), literal)
}

/// Parses the command line `args` (the program name first) into a command.
pub fn parse_args(args: Vec<String>) -> (r: Result<Command, AppError>)
    ensures
        parsed_view(r) == parse_args_spec(strings_view(args@)),
{
    let ghost a = strings_view(args@);
    let mut values = args;
    if values.len() > 0 {
        values.remove(0);
    }
    assert(strings_view(values@) =~= (if a.len() == 0 { a } else { a.drop_first() }));
    if values.len() == 0 {
        return Ok(Command::Help);
    }
    let ghost vs = strings_view(values@);
    let command = values.remove(0);
    assert(strings_view(values@) =~= vs.drop_first());
    if is(&command, "add") {
        match one(values, "Usage: rust-task add \"할 일\"") {
            Ok(title) => Ok(Command::Add { title }),
            Err(e) => Err(e),
        }
    } else if is(&command, "list") {
        Ok(Command::List)
    } else if is(&command, "done") {
        match one_id(values, "Usage: rust-task done 1") {
            Ok(id) => Ok(Command::Done { id }),
            Err(e) => Err(e),
        }
    } else if is(&command, "delete") {
        match one_id(values, "Usage: rust-task delete 1") {
            Ok(id) => Ok(Command::Delete { id }),
            Err(e) => Err(e),
        }
    } else if is(&command, "search") {
        match one(values, "Usage: rust-task search rust") {
            Ok(keyword) => Ok(Command::Search { keyword }),
            Err(e) => Err(e),
        }
    } else if is(&command, "stats") {
        Ok(Command::Stats)
    } else if is(&command, "project") {
        parse_project(values)
    } else if is(&command, "task") {
        parse_task(values)
    } else if is(&command, "tag") {
        parse_tag(values)
    } else if is(&command, "seed") {
        Ok(Command::Seed)
    } else if is(&command, "sql") {
        match one(values, "Usage: rust-task sql \"SELECT * FROM tasks\"") {
            Ok(sql) => Ok(Command::Sql { sql }),
            Err(e) => Err(e),
        }
    } else if is(&command, "repl") {
        Ok(Command::Repl)
    } else if is(&command, "analyze") {
        parse_analyze(values)
    } else if is(&command, "lab") {
        parse_lab(values)
    } else if is(&command, "help") || is(&command, "-h") || is(&command, "--help") {
        Ok(Command::Help)
    } else {
        Err(invalid_with("Unknown command: ", command.as_str()))
    }
}

fn parse_project(v: Vec<String>) -> (r: Result<Command, AppError>)
    ensures
        parsed_view(r) == parse_project_spec(strings_view(v@)),
{
    let ghost vs = strings_view(v@);
    let mut v = v;
    let sub = match take(&mut v, "Usage: rust-task project <add|list|show|delete|stats>") {
        Ok(s) => s,
        Err(e) => return Err(e),
    };
    assert(strings_view(v@) =~= vs.drop_first());
    if is(&sub, "add") {
        match one(v, "Usage: rust-task project add \"이름\"") {
            Ok(name) => Ok(Command::ProjectAdd { name }),
            Err(e) => Err(e),
        }
    } else if is(&sub, "list") {
        Ok(Command::ProjectList)
    } else if is(&sub, "show") {
        match one_id(v, "Usage: rust-task project show 1") {
            Ok(id) => Ok(Command::ProjectShow { id }),
            Err(e) => Err(e),
        }
    } else if is(&sub, "delete") {
        match one_id(v, "Usage: rust-task project delete 1") {
            Ok(id) => Ok(Command::ProjectDelete { id }),
            Err(e) => Err(e),
        }
    } else if is(&sub, "stats") {
        if v.len() == 0 {
            Ok(Command::ProjectStats { id: None })
        } else if v.len() == 1 {
            match id(v[0].clone()) {
                Ok(n) => Ok(Command::ProjectStats { id: Some(n) }),
                Err(e) => Err(e),
            }
        } else {
            Err(invalid("Usage: rust-task project stats [id]"))
        }
    } else {
        Err(invalid_with("Unknown project command: ", sub.as_str()))
    }
}

fn parse_tag(v: Vec<String>) -> (r: Result<Command, AppError>)
    ensures
        parsed_view(r) == parse_tag_spec(strings_view(v@)),
{
    let ghost vs = strings_view(v@);
    let mut v = v;
    let sub = match take(&mut v, "Usage: rust-task tag <add|list|delete>") {
        Ok(s) => s,
        Err(e) => return Err(e),
    };
    assert(strings_view(v@) =~= vs.drop_first());
    if is(&sub, "add") {
        match one(v, "Usage: rust-task tag add backend") {
            Ok(name) => Ok(Command::TagAdd { name }),
            Err(e) => Err(e),
        }
    } else if is(&sub, "list") {
        Ok(Command::TagList)
    } else if is(&sub, "delete") {
        match one_id(v, "Usage: rust-task tag delete 1") {
            Ok(id) => Ok(Command::TagDelete { id }),
            Err(e) => Err(e),
        }
    } else {
        Err(invalid_with("Unknown tag command: ", sub.as_str()))
    }
}

fn parse_task_add(v: Vec<String>) -> (r: Result<Command, AppError>)
    ensures
        parsed_view(r) == task_add_spec(strings_view(v@), 0, None, 3, None, Seq::empty()),
{
    let ghost vs = strings_view(v@);
    let mut project_id: Option<i64> = None;
    let mut priority: i64 = 3;
    let mut title: Option<String> = None;
    let mut tags: Vec<String> = Vec::new();
    let mut i: usize = 0;
    assert(strings_view(tags@) =~= Seq::<Seq<char>>::empty());
    while i < v.len()
        invariant
            i <= v.len(),
            vs == strings_view(v@),
            task_add_spec(vs, 0, None, 3, None, Seq::empty()) == task_add_spec(
                vs,
                i as int,
                project_id,
                priority,
                crate::command::opt_string_view(title),
                strings_view(tags@),
            ),
        decreases v.len() - i,
    {
        let arg = &v[i];
        assert(vs[i as int] == arg@);
        if is(arg, "--project") {
            if i + 1 >= v.len() {
                return Err(invalid("--project requires id"));
            }
            assert(vs[i + 1] == v@[i + 1]@);
            match id(v[i + 1].clone()) {
                Ok(n) => {
                    project_id = Some(n);
                },
                Err(e) => return Err(e),
            }
            i = i + 2;
        } else if is(arg, "--priority") {
            if i + 1 >= v.len() {
                return Err(invalid("--priority requires 1..5"));
            }
            assert(vs[i + 1] == v@[i + 1]@);
            match id(v[i + 1].clone()) {
                Ok(n) => {
                    priority = n;
                },
                Err(e) => return Err(e),
            }
            i = i + 2;
        } else if is(arg, "--tag") {
            if i + 1 >= v.len() {
                return Err(invalid("--tag requires name"));
            }
            assert(vs[i + 1] == v@[i + 1]@);
            let ghost before = strings_view(tags@);
            tags.push(v[i + 1].clone());
            assert(strings_view(tags@) =~= before.push(vs[i + 1]));
            i = i + 2;
        } else if title.is_none() {
            title = Some(arg.clone());
            i = i + 1;
        } else {
            return Err(invalid("task title must be one quoted argument"));
        }
    }
    match title {
        Some(t) => Ok(Command::TaskAdd { project_id, priority, title: t, tags }),
        None => Err(
            invalid(
                "Usage: rust-task task add [--project 1] [--priority 3] [--tag name] \"할 일\"",
            ),
        ),
    }
}

fn parse_task_list(v: Vec<String>) -> (r: Result<Command, AppError>)
    ensures
        parsed_view(r) == task_list_spec(strings_view(v@), 0, None, None),
{
    let ghost vs = strings_view(v@);
    let mut project_id: Option<i64> = None;
    let mut tag: Option<String> = None;
    let mut i: usize = 0;
    while i < v.len()
        invariant
            i <= v.len(),
            vs == strings_view(v@),
            task_list_spec(vs, 0, None, None) == task_list_spec(
                vs,
                i as int,
                project_id,
                crate::command::opt_string_view(tag),
            ),
        decreases v.len() - i,
    {
        let arg = &v[i];
        assert(vs[i as int] == arg@);
        if is(arg, "--project") {
            if i + 1 >= v.len() {
                return Err(invalid("--project requires id"));
            }
            assert(vs[i + 1] == v@[i + 1]@);
            match id(v[i + 1].clone()) {
                Ok(n) => {
                    project_id = Some(n);
                },
                Err(e) => return Err(e),
            }
            i = i + 2;
        } else if is(arg, "--tag") {
            if i + 1 >= v.len() {
                return Err(invalid("--tag requires name"));
            }
            assert(vs[i + 1] == v@[i + 1]@);
            tag = Some(v[i + 1].clone());
            i = i + 2;
        } else {
            return Err(invalid_with("Unknown task list option: ", arg.as_str()));
        }
    }
    Ok(Command::TaskList { project_id, tag })
}

fn id_and_tag(v: Vec<String>, message: &str) -> (r: Result<(i64, String), AppError>)
    ensures
        match r {
            Ok((n, t)) => id_and_tag_spec(strings_view(v@), message@) == Ok::<
                (i64, Seq<char>),
                ErrorView,
            >((n, t@)),
            Err(e) => id_and_tag_spec(strings_view(v@), message@) == Err::<
                (i64, Seq<char>),
                ErrorView,
            >(e@),
        },
{
    let ghost vs = strings_view(v@);
    let mut v = v;
    let first = match take(&mut v, message) {
        Ok(s) => s,
        Err(e) => return Err(e),
    };
    assert(strings_view(v@) =~= vs.drop_first());
    let n = match id(first) {
        Ok(n) => n,
        Err(e) => return Err(e),
    };
    match one(v, message) {
        Ok(t) => Ok((n, t)),
        Err(e) => Err(e),
    }
}

/// Parses the arguments of the `task` command.
pub fn parse_task(v: Vec<String>) -> (r: Result<Command, AppError>)
    ensures
        parsed_view(r) == parse_task_spec(strings_view(v@)),
{
    let ghost vs = strings_view(v@);
    let mut v = v;
    let sub = match take(
        &mut v,
        "Usage: rust-task task <add|list|show|done|delete|search|tag|untag|tags>",
    ) {
        Ok(s) => s,
        Err(e) => return Err(e),
    };
    assert(strings_view(v@) =~= vs.drop_first());
    if is(&sub, "add") {
        parse_task_add(v)
    } else if is(&sub, "list") {
        parse_task_list(v)
    } else if is(&sub, "show") {
        match one_id(v, "Usage: rust-task task show 1") {
            Ok(id) => Ok(Command::TaskShow { id }),
            Err(e) => Err(e),
        }
    } else if is(&sub, "done") {
        match one_id(v, "Usage: rust-task task done 1") {
            Ok(id) => Ok(Command::TaskDone { id }),
            Err(e) => Err(e),
        }
    } else if is(&sub, "delete") {
        match one_id(v, "Usage: rust-task task delete 1") {
            Ok(id) => Ok(Command::TaskDelete { id }),
            Err(e) => Err(e),
        }
    } else if is(&sub, "search") {
        match one(v, "Usage: rust-task task search rust") {
            Ok(keyword) => Ok(Command::TaskSearch { keyword }),
            Err(e) => Err(e),
        }
    } else if is(&sub, "tag") {
        match id_and_tag(v, "Usage: rust-task task tag 1 backend") {
            Ok((id, tag)) => Ok(Command::TaskTag { id, tag }),
            Err(e) => Err(e),
        }
    } else if is(&sub, "untag") {
        match id_and_tag(v, "Usage: rust-task task untag 1 backend") {
            Ok((id, tag)) => Ok(Command::TaskUntag { id, tag }),
            Err(e) => Err(e),
        }
    } else if is(&sub, "tags") {
        match one_id(v, "Usage: rust-task task tags 1") {
            Ok(id) => Ok(Command::TaskTags { id }),
            Err(e) => Err(e),
        }
    } else {
        Err(invalid_with("Unknown task command: ", sub.as_str()))
    }
}

fn parse_analyze(v: Vec<String>) -> (r: Result<Command, AppError>)
    ensures
        parsed_view(r) == analyze_spec(strings_view(v@), 0, false, false, false, AnalyzeFormat::Tree, None),
{
    let ghost vs = strings_view(v@);
    let mut plan = false;
    let mut runtime = false;
    let mut raw_plan = false;
    let mut format = AnalyzeFormat::Tree;
    let mut sql: Option<String> = None;
    let mut i: usize = 0;
    while i < v.len()
        invariant
            i <= v.len(),
            vs == strings_view(v@),
            analyze_spec(vs, 0, false, false, false, AnalyzeFormat::Tree, None) == analyze_spec(
                vs,
                i as int,
                plan,
                runtime,
                raw_plan,
                format,
                crate::command::opt_string_view(sql),
            ),
        decreases v.len() - i,
    {
        let arg = &v[i];
        assert(vs[i as int] == arg@);
        if is(arg, "--plan") {
            plan = true;
            i = i + 1;
        } else if is(arg, "--runtime") {
            runtime = true;
            i = i + 1;
        } else if is(arg, "--raw-plan") {
            raw_plan = true;
            i = i + 1;
        } else if is(arg, "--format") {
            if i + 1 >= v.len() {
                return Err(invalid("--format requires tree or json"));
            }
            assert(vs[i + 1] == v@[i + 1]@);
            if is(&v[i + 1], "tree") {
                format = AnalyzeFormat::Tree;
            } else if is(&v[i + 1], "json") {
                format = AnalyzeFormat::Json;
            } else {
                return Err(invalid_with("Unknown analyze format: ", v[i + 1].as_str()));
            }
            i = i + 2;
        } else if sql.is_none() {
            sql = Some(arg.clone());
            i = i + 1;
        } else {
            return Err(invalid("analyze SQL must be one quoted argument"));
        }
    }
    match sql {
        Some(s) => Ok(Command::Analyze { sql: s, plan, runtime, raw_plan, format }),
        None => Err(
            invalid(
                "Usage: rust-task analyze [--plan] [--runtime] [--raw-plan] [--format tree|json] \"SQL\"",
            ),
        ),
    }
}

fn seed_profile(arg: String) -> (r: Result<String, AppError>)
    ensures
        match r {
            Ok(p) => seed_profile_spec(arg@) == Ok::<Seq<char>, ErrorView>(p@),
            Err(e) => seed_profile_spec(arg@) == Err::<Seq<char>, ErrorView>(e@),
        },
{
    let cs = crate::text::chars_of(arg.as_str());
    if cs.len() > 2 && cs[0] == '-' && cs[1] == '-' {
        let mut rest: Vec<char> = Vec::new();
        let mut k: usize = 2;
        while k < cs.len()
            invariant
                2 <= k <= cs.len(),
                rest@ == cs@.subrange(2, k as int),
            decreases cs.len() - k,
        {
            rest.push(cs[k]);
            assert(cs@.subrange(2, k + 1) =~= cs@.subrange(2, k as int).push(cs@[k as int]));
            k = k + 1;
        }
        Ok(crate::text::string_of_chars(&rest))
    } else {
        Err(invalid("Usage: rust-task lab seed --small|--medium|--large|--skewed"))
    }
}

fn parse_lab(v: Vec<String>) -> (r: Result<Command, AppError>)
    ensures
        parsed_view(r) == parse_lab_spec(strings_view(v@)),
{
    let ghost vs = strings_view(v@);
    let mut v = v;
    let sub = match take(&mut v, "Usage: rust-task lab <list|run|seed>") {
        Ok(s) => s,
        Err(e) => return Err(e),
    };
    assert(strings_view(v@) =~= vs.drop_first());
    if is(&sub, "list") {
        if v.len() == 0 {
            Ok(Command::LabList)
        } else {
            Err(invalid("Usage: rust-task lab list"))
        }
    } else if is(&sub, "run") {
        match one(v, "Usage: rust-task lab run <scenario>") {
            Ok(scenario) => Ok(Command::LabRun { scenario }),
            Err(e) => Err(e),
        }
    } else if is(&sub, "seed") {
        match one(v, "Usage: rust-task lab seed --small|--medium|--large|--skewed") {
            Ok(arg) => match seed_profile(arg) {
                Ok(profile) => Ok(Command::LabSeed { profile }),
                Err(e) => Err(e),
            },
            Err(e) => Err(e),
        }
    } else {
        Err(invalid_with("Unknown lab command: ", sub.as_str()))
    }
}

} // verus!
