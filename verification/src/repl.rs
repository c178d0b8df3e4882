//! The decisions of the SQL prompt: what a line asks for. Reading lines and writing
//! answers is the program's edge.
use vstd::prelude::*;
use crate::text::{str_eq, trim, trim_spec};

verus! {

/// What a line typed at the SQL prompt asks for.
#[derive(Debug, PartialEq, Eq)]
pub enum ReplAction {
    /// A blank line: nothing.
    Skip,
    /// `.exit` or `.quit`: leave the prompt.
    Exit,
    /// `.schema`: show the schema of the tasks table.
    Schema,
    /// Anything else: run it as SQL.
    Sql(String),
}

/// The view of a prompt action.
pub enum ReplActionView {
    Skip,
    Exit,
    Schema,
    Sql(Seq<char>),
}

impl View for ReplAction {
    type V = ReplActionView;

    open spec fn view(&self) -> ReplActionView {
        match self {
            ReplAction::Skip => ReplActionView::Skip,
            ReplAction::Exit => ReplActionView::Exit,
            ReplAction::Schema => ReplActionView::Schema,
            ReplAction::Sql(s) => ReplActionView::Sql(s@),
        }
    }
}

/// What a line asks for, once surrounding white space is removed.
pub open spec fn repl_action_spec(line: Seq<char>) -> ReplActionView {
    let c = trim_spec(line);
    if c.len() == 0 {
        ReplActionView::Skip
    } else if c == ".exit"@ || c == ".quit"@ {
        ReplActionView::Exit
    } else if c == ".schema"@ {
        ReplActionView::Schema
    } else {
        ReplActionView::Sql(c)
    }
}

/// What a line typed at the SQL prompt asks for.
pub fn repl_action(line: &str) -> (r: ReplAction)
    ensures
        r@ == repl_action_spec(line@),
{
    let c = trim(line);
    if c.as_str().unicode_len() == 0 {
        ReplAction::Skip
    } else if str_eq(c.as_str(), ".exit") || str_eq(c.as_str(), ".quit") {
        ReplAction::Exit
    } else if str_eq(c.as_str(), ".schema") {
        ReplAction::Schema
    } else {
        ReplAction::Sql(c)
    }
}

} // verus!
