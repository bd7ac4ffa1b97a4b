//! Commands of the directory's text interface, and what each one does.
use vstd::prelude::*;

use crate::directory::{after_add, lists_exactly, members_listed, pair_texts, Directory};
use crate::text::{capitalized, lower, lower_of, split_words, texts, words};

verus! {

/// Why a line is not a command.
#[derive(Clone, Copy, Debug, PartialEq, Eq, Structural)]
pub enum UsageError {
    /// The line holds no words.
    Blank,
    /// A single word other than `exit`.
    Incomplete,
    /// `add` with other than two or three words after it.
    AddShape,
    /// `list` with other than one word after it.
    ListShape,
    /// The first word is neither `add` nor `list`.
    UnknownCommand,
}

/// A command read from one line.
#[derive(Debug, PartialEq, Eq)]
pub enum Command {
    Exit,
    Add { name: String, department: String },
    ListAll,
    ListDepartment { department: String },
    Invalid(UsageError),
}

/// A command, with its words as character sequences.
pub enum CommandView {
    Exit,
    Add(Seq<char>, Seq<char>),
    ListAll,
    ListDepartment(Seq<char>),
    Invalid(UsageError),
}

impl View for Command {
    type V = CommandView;

    open spec fn view(&self) -> CommandView {
        match self {
            Command::Exit => CommandView::Exit,
            Command::Add { name, department } => CommandView::Add(name@, department@),
            Command::ListAll => CommandView::ListAll,
            Command::ListDepartment { department } => CommandView::ListDepartment(department@),
            Command::Invalid(e) => CommandView::Invalid(*e),
        }
    }
}

/// The command that a line with words `ws` gives. `exit` must stand alone and
/// match exactly; the verbs `add` and `list` match in any case. In
/// `add <name> to <department>` the third word is not read.
pub open spec fn command_of(ws: Seq<Seq<char>>) -> CommandView {
    if ws.len() == 0 {
        CommandView::Invalid(UsageError::Blank)
    } else if ws.len() == 1 {
        if ws[0] == "exit"@ {
            CommandView::Exit
        } else {
            CommandView::Invalid(UsageError::Incomplete)
        }
    } else if lower_of(ws[0]) == "add"@ {
        if ws.len() == 3 || ws.len() == 4 {
            CommandView::Add(ws[1], ws[ws.len() - 1])
        } else {
            CommandView::Invalid(UsageError::AddShape)
        }
    } else if lower_of(ws[0]) == "list"@ {
        if ws.len() == 2 {
            if ws[1] == "all"@ {
                CommandView::ListAll
            } else {
                CommandView::ListDepartment(ws[1])
            }
        } else {
            CommandView::Invalid(UsageError::ListShape)
        }
    } else {
        CommandView::Invalid(UsageError::UnknownCommand)
    }
}

/// Reads the command on one line of input.
pub fn parse_command(line: &str) -> (r: Command)
    ensures
        r@ == command_of(words(line@)),
{
    let ws = split_words(line);
    let ghost w = words(line@);
    assert(ws@.len() == w.len());
    if ws.len() == 0 {
        return Command::Invalid(UsageError::Blank);
    }
    assert(ws@[0]@ == w[0]);
    if ws.len() == 1 {
        if ws[0] == String::from_str("exit") {
            return Command::Exit;
        }
        return Command::Invalid(UsageError::Incomplete);
    }
    assert(ws@[1]@ == w[1]);
    let verb = lower(ws[0].as_str());
    if verb == String::from_str("add") {
        if ws.len() == 3 || ws.len() == 4 {
            let last = ws.len() - 1;
            assert(ws@[last as int]@ == w[last as int]);
            return Command::Add { name: ws[1].clone(), department: ws[last].clone() };
        }
        return Command::Invalid(UsageError::AddShape);
    }
    if verb == String::from_str("list") {
        if ws.len() == 2 {
            if ws[1] == String::from_str("all") {
                return Command::ListAll;
            }
            return Command::ListDepartment { department: ws[1].clone() };
        }
        return Command::Invalid(UsageError::ListShape);
    }
    Command::Invalid(UsageError::UnknownCommand)
}

/// What a command gave back.
#[derive(Debug, PartialEq, Eq)]
pub enum Reply {
    /// Stop reading commands.
    Exit,
    /// An `add` ran; whether an entry was made.
    Added(bool),
    /// Every (name, department) entry.
    Everyone(Vec<(String, String)>),
    /// The members of one department, in ascending order.
    Members(Vec<String>),
    /// The line was not a command; the directory is unchanged.
    Usage(UsageError),
}

/// Running command `c` on directory `before` left `after` and replied `r`.
pub open spec fn outcome(
    before: Map<Seq<char>, Seq<char>>,
    after: Map<Seq<char>, Seq<char>>,
    c: CommandView,
    r: Reply,
) -> bool {
    match c {
        CommandView::Exit => after == before && r is Exit,
        CommandView::Add(n, d) => {
            &&& after == after_add(before, n, d)
            &&& r matches Reply::Added(made) && made == (n.len() > 0 && d.len() > 0
                && !before.contains_key(capitalized(n)))
        },
        CommandView::ListAll => {
            &&& after == before
            &&& r matches Reply::Everyone(v) && lists_exactly(pair_texts(v@), before)
        },
        CommandView::ListDepartment(d) => {
            &&& after == before
            &&& r matches Reply::Members(v) && members_listed(texts(v@), before, capitalized(d))
        },
        CommandView::Invalid(e) => after == before && r == Reply::Usage(e),
    }
}

impl Directory {
    /// Runs one command.
    pub fn execute(&mut self, c: &Command) -> (r: Reply)
        requires
            old(self).wf(),
        ensures
            final(self).wf(),
            outcome(old(self)@, final(self)@, c@, r),
    {
        match c {
            Command::Exit => Reply::Exit,
            Command::Add { name, department } => Reply::Added(
                self.add(name.as_str(), department.as_str()),
            ),
            Command::ListAll => Reply::Everyone(self.list_all()),
            Command::ListDepartment { department } => Reply::Members(
                self.list_department(department.as_str()),
            ),
            Command::Invalid(e) => Reply::Usage(*e),
        }
    }

    /// Reads the command on `line` and runs it.
    pub fn handle_line(&mut self, line: &str) -> (r: Reply)
        requires
            old(self).wf(),
        ensures
            final(self).wf(),
            outcome(old(self)@, final(self)@, command_of(words(line@)), r),
    {
        let c = parse_command(line);
        self.execute(&c)
    }
}

} // verus!
