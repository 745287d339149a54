//! Command lines of other programs.
use vstd::prelude::*;

use crate::text::{copies, strings, texts};

verus! {

/// What a command line says.
pub ghost struct CommandView {
    pub program: Seq<char>,
    pub args: Seq<Seq<char>>,
    pub dir: Option<Seq<char>>,
    pub env: Option<(Seq<char>, Seq<char>)>,
}

/// A program with its arguments, the directory to run it in, where that matters, and a
/// variable to set for it, where there is one.
#[derive(Clone, Debug, PartialEq, Eq)]
pub struct Command {
    pub program: String,
    pub args: Vec<String>,
    pub dir: Option<String>,
    pub env: Option<(String, String)>,
}

/// What an optional text says.
pub open spec fn optional_text(text: Option<String>) -> Option<Seq<char>> {
    match text {
        Some(text) => Some(text@),
        None => None,
    }
}

impl View for Command {
    type V = CommandView;

    open spec fn view(&self) -> CommandView {
        CommandView {
            program: self.program@,
            args: texts(self.args@),
            dir: optional_text(self.dir),
            env: match self.env {
                Some((name, value)) => Some((name@, value@)),
                None => None,
            },
        }
    }
}

/// The program with these arguments, run in the current directory.
pub open spec fn plain_command(program: Seq<char>, args: Seq<Seq<char>>) -> CommandView {
    CommandView { program, args, dir: None, env: None }
}

/// The program with these arguments, run in the directory `dir`.
pub open spec fn command_in(
    dir: Seq<char>,
    program: Seq<char>,
    args: Seq<Seq<char>>,
) -> CommandView {
    CommandView { program, args, dir: Some(dir), env: None }
}

impl Command {
    /// The program with these arguments, run in the current directory.
    pub fn new(program: &str, args: Vec<&str>) -> (command: Self)
        ensures
            command@ == plain_command(program@, args@.map_values(|arg: &str| arg@)),
    {
        Command { program: program.to_owned(), args: strings(args), dir: None, env: None }
    }

    /// The same command, run in the directory `dir`.
    pub fn in_dir(self, dir: &str) -> (command: Self)
        ensures
            command@ == (CommandView { dir: Some(dir@), ..self@ }),
    {
        Command { program: self.program, args: self.args, dir: Some(dir.to_owned()), env: self.env }
    }

    /// The same command, with a variable set for it.
    pub fn with_env(self, name: &str, value: &str) -> (command: Self)
        ensures
            command@ == (CommandView { env: Some((name@, value@)), ..self@ }),
    {
        Command {
            program: self.program,
            args: self.args,
            dir: self.dir,
            env: Some((name.to_owned(), value.to_owned())),
        }
    }

    /// A copy of the command line.
    pub fn duplicate(&self) -> (copy: Self)
        ensures
            copy@ == self@,
    {
        Command {
            program: self.program.clone(),
            args: copies(&self.args),
            dir: match &self.dir {
                Some(dir) => Some(dir.clone()),
                None => None,
            },
            env: match &self.env {
                Some((name, value)) => Some((name.clone(), value.clone())),
                None => None,
            },
        }
    }
}

} // verus!
