use vstd::prelude::*;

verus! {

/// Why a command was proposed.
#[derive(Debug, Clone, Copy, PartialEq, Eq, Structural)]
pub enum ReasonEnum {
    Chatgpt,
    CourseCode,
}

/// What a command asks for.
#[derive(Debug, Clone, Copy, PartialEq, Eq, Structural)]
pub enum CommandEnum {
    Move,
    Skip,
    Indeterminate,
}

/// A proposed filing action, as one record of the journal holds it.
#[derive(Debug)]
pub struct Command {
    pub file_path: Option<String>,
    pub command: CommandEnum,
    pub destination: Option<String>,
    pub reason: Option<ReasonEnum>,
}

/// A command with its paths as plain text.
pub struct CommandView {
    pub file_path: Option<Seq<char>>,
    pub command: CommandEnum,
    pub destination: Option<Seq<char>>,
    pub reason: Option<ReasonEnum>,
}

/// The characters of an optional text.
pub open spec fn text_of(text: Option<String>) -> Option<Seq<char>> {
    match text {
        Some(t) => Some(t@),
        None => None,
    }
}

impl View for Command {
    type V = CommandView;

    open spec fn view(&self) -> CommandView {
        CommandView {
            file_path: text_of(self.file_path),
            command: self.command,
            destination: text_of(self.destination),
            reason: self.reason,
        }
    }
}

impl CommandView {
    /// A move names the file and the place it goes to; an indeterminate
    /// command names no place and gives no reason.
    pub open spec fn well_formed(self) -> bool {
        &&& self.command == CommandEnum::Move ==> self.file_path is Some && self.destination is Some
        &&& self.command == CommandEnum::Indeterminate ==> self.destination is None
            && self.reason is None
    }
}

/// A copy of an optional text.
pub fn copy_text(text: &Option<String>) -> (r: Option<String>)
    ensures
        r == *text,
{
    match text {
        Some(t) => Some(t.clone()),
        None => None,
    }
}

impl Command {
    /// The command that moves `file_path` into the directory `destination`.
    pub fn relocate(file_path: String, destination: String, reason: ReasonEnum) -> (r: Command)
        ensures
            r@ == (CommandView {
                file_path: Some(file_path@),
                command: CommandEnum::Move,
                destination: Some(destination@),
                reason: Some(reason),
            }),
            r@.well_formed(),
    {
        Command {
            file_path: Some(file_path),
            command: CommandEnum::Move,
            destination: Some(destination),
            reason: Some(reason),
        }
    }

    /// The command that leaves `file_path` to a later, manual decision.
    pub fn indeterminate(file_path: String) -> (r: Command)
        ensures
            r@ == (CommandView {
                file_path: Some(file_path@),
                command: CommandEnum::Indeterminate,
                destination: None,
                reason: None,
            }),
            r@.well_formed(),
    {
        Command {
            file_path: Some(file_path),
            command: CommandEnum::Indeterminate,
            destination: None,
            reason: None,
        }
    }

    /// Whether the command holds what its kind asks for.
    pub fn is_well_formed(&self) -> (r: bool)
        ensures
            r == self@.well_formed(),
    {
        match self.command {
            CommandEnum::Move => self.file_path.is_some() && self.destination.is_some(),
            CommandEnum::Skip => true,
            CommandEnum::Indeterminate => self.destination.is_none() && self.reason.is_none(),
        }
    }

    /// A copy of the command.
    pub fn duplicate(&self) -> (r: Command)
        ensures
            r == *self,
    {
        Command {
            file_path: copy_text(&self.file_path),
            command: self.command,
            destination: copy_text(&self.destination),
            reason: self.reason,
        }
    }
}

impl Clone for Command {
    fn clone(&self) -> (r: Command)
        ensures
            r == *self,
    {
        self.duplicate()
    }
}

} // verus!
