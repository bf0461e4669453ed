//! The engine of a small command interpreter: parsing of command lines, the
//! built-in commands, the search for external programs, and the state
//! machine that wires the stages of a pipeline to each other.
//!
//! The library decides and computes; it performs no system call. Its
//! functions take plain values and say what is to be done next.

use vstd::prelude::*;

pub mod child;
pub mod dispatcher;
pub mod parser;
pub mod pipeline;
pub mod reader;
pub mod text;
pub mod trace;

pub use dispatcher::{builtin_check, builtin_process};
pub use parser::parse;
pub use pipeline::{interpret, run, run_pipeline};
pub use reader::read_line_from_fd;

verus! {

/// One parsed invocation: the command's name and its arguments, in order.
#[derive(Clone, Debug)]
pub struct UserCommand {
    pub cmd: String,
    pub args: Vec<String>,
}

/// What a `UserCommand` holds, as sequences of characters.
pub struct CommandView {
    pub cmd: Seq<char>,
    pub args: Seq<Seq<char>>,
}

impl View for UserCommand {
    type V = CommandView;

    open spec fn view(&self) -> CommandView {
        CommandView { cmd: self.cmd@, args: self.args.deep_view() }
    }
}

impl DeepView for UserCommand {
    type V = CommandView;

    open spec fn deep_view(&self) -> CommandView {
        self@
    }
}

} // verus!
