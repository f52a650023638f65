use crate::command::{Command, CommandEnum, CommandView};
use crate::journal::{appended, is_record, lemma_round_trip, lines, Journal};
use crate::path::{adjoined, file_name, get_file_name, join_path};
use vstd::prelude::*;

verus! {

/// The answer to the question whether a command is to be carried out.
#[derive(Debug, Clone, Copy, PartialEq, Eq, Structural)]
pub enum Confirmation {
    Yes,
    No,
}

/// What is to be done for one command of the journal.
#[derive(Debug)]
pub enum ReviewAction {
    /// Move the file at `from` to `to`.
    Rename { from: String, to: String },
    /// Leave the file system as it is.
    Nothing,
    /// Leave the file system as it is and report the command: it asks for a
    /// move and names no file, no place, or a path without a file name.
    Malformed,
}

/// An action with its paths as plain text.
pub enum ReviewActionView {
    Rename { from: Seq<char>, to: Seq<char> },
    Nothing,
    Malformed,
}

impl View for ReviewAction {
    type V = ReviewActionView;

    open spec fn view(&self) -> ReviewActionView {
        match self {
            ReviewAction::Rename { from, to } => ReviewActionView::Rename { from: from@, to: to@ },
            ReviewAction::Nothing => ReviewActionView::Nothing,
            ReviewAction::Malformed => ReviewActionView::Malformed,
        }
    }
}

/// What is to be done for `command` after `confirmation`: a confirmed move
/// puts the file, under its own name, into the directory it is to go to;
/// every other command, and every one that was declined, touches nothing.
pub open spec fn action_for(command: CommandView, confirmation: Confirmation) -> ReviewActionView {
    if confirmation == Confirmation::Yes && command.command == CommandEnum::Move {
        match (command.file_path, command.destination) {
            (Some(from), Some(destination)) => match file_name(from) {
                Some(name) => ReviewActionView::Rename { from, to: adjoined(destination, name) },
                None => ReviewActionView::Malformed,
            },
            _ => ReviewActionView::Malformed,
        }
    } else {
        ReviewActionView::Nothing
    }
}

/// A command that was declined touches nothing, whatever it asks for.
pub proof fn lemma_declined_touches_nothing(command: CommandView)
    ensures
        action_for(command, Confirmation::No) == ReviewActionView::Nothing,
{
}

/// What is to be done for `command` after `confirmation`.
pub fn review_action(command: &Command, confirmation: Confirmation) -> (r: ReviewAction)
    ensures
        r@ == action_for(command@, confirmation),
{
    if confirmation != Confirmation::Yes || command.command != CommandEnum::Move {
        return ReviewAction::Nothing;
    }
    match (&command.file_path, &command.destination) {
        (Some(from), Some(destination)) => match get_file_name(from.as_str()) {
            Some(name) => ReviewAction::Rename {
                from: from.clone(),
                to: join_path(destination.as_str(), name),
            },
            None => ReviewAction::Malformed,
        },
        _ => ReviewAction::Malformed,
    }
}

/// The commands among the lines of the journal: a line that is no command is
/// `None` and is left out, the others keep their order.
pub open spec fn commands_of(lines: Seq<Option<Command>>) -> Seq<Command>
    decreases lines.len(),
{
    if lines.len() == 0 {
        Seq::empty()
    } else {
        let earlier = commands_of(lines.drop_last());
        match lines.last() {
            Some(command) => earlier.push(command),
            None => earlier,
        }
    }
}

/// Lines that are all commands are all kept.
proof fn lemma_all_kept(commands: Seq<Command>)
    ensures
        commands_of(commands.map_values(|c: Command| Some(c))) == commands,
    decreases commands.len(),
{
    let lines = commands.map_values(|c: Command| Some(c));
    if commands.len() > 0 {
        lemma_all_kept(commands.drop_last());
        assert(lines.drop_last() =~= commands.drop_last().map_values(|c: Command| Some(c)));
        assert(commands.drop_last().push(commands.last()) =~= commands);
    }
}

/// Commands that were appended are drained as they were and in their order,
/// whatever way of writing a command on a line is used, as long as what it
/// writes can stand on a line and is read back as the command it was.
pub proof fn lemma_commands_round_trip(
    commands: Seq<Command>,
    write: spec_fn(Command) -> Seq<char>,
    read: spec_fn(Seq<char>) -> Option<Command>,
)
    requires
        forall|c: Command| is_record(#[trigger] write(c)),
        forall|c: Command| read(#[trigger] write(c)) == Some(c),
    ensures
        commands_of(
            lines(appended(Seq::<char>::empty(), commands.map_values(write))).map_values(read),
        ) == commands,
{
    let records = commands.map_values(write);
    lemma_round_trip(records);
    assert(records.map_values(read) =~= commands.map_values(|c: Command| Some(c)));
    lemma_all_kept(commands);
}

/// The commands among the lines of the journal. A line that is no command
/// is passed over and ends nothing: the lines after it count as before.
pub fn collect_commands(lines: &Vec<Option<Command>>) -> (r: Vec<Command>)
    ensures
        r@ == commands_of(lines@),
{
    let mut commands: Vec<Command> = Vec::new();
    let mut i: usize = 0;
    while i < lines.len()
        invariant
            i <= lines.len(),
            commands@ == commands_of(lines@.take(i as int)),
        decreases lines.len() - i,
    {
        proof {
            assert(lines@.take(i + 1).drop_last() =~= lines@.take(i as int));
        }
        match &lines[i] {
            Some(command) => {
                commands.push(command.duplicate());
            },
            None => {},
        }
        i += 1;
    }
    assert(lines@.take(i as int) =~= lines@);
    commands
}

/// One pass over the commands that were drained from the journal.
pub struct Review {
    commands: Vec<Command>,
    position: usize,
}

impl Review {
    #[verifier::type_invariant]
    spec fn well_formed(self) -> bool {
        self.position <= self.commands.len()
    }

    /// The commands of the pass, in the order of the journal.
    pub closed spec fn commands(&self) -> Seq<Command> {
        self.commands@
    }

    /// How many commands have been consumed.
    pub closed spec fn consumed(&self) -> nat {
        self.position as nat
    }

    /// Whether every command has been consumed, so that the journal can be
    /// cleared.
    pub open spec fn complete(&self) -> bool {
        self.consumed() == self.commands().len()
    }

    /// The pass after one more answer: the pending command is consumed, and
    /// a pass that is complete stays as it is.
    pub closed spec fn advanced(self) -> Review {
        if self.position < self.commands.len() {
            Review { commands: self.commands, position: (self.position + 1) as usize }
        } else {
            self
        }
    }

    /// The pass after `answers` more answers, one for each pending command in
    /// turn. What the answers were, and what became of the renames they asked
    /// for, makes no difference to where the pass stands.
    pub open spec fn after(self, answers: nat) -> Review
        decreases answers,
    {
        if answers == 0 {
            self
        } else {
            self.after((answers - 1) as nat).advanced()
        }
    }

    /// A pass consumes one command for each answer until none is left: with
    /// as many answers as there are commands left it is complete, whether the
    /// commands were accepted or declined and whether the renames succeeded,
    /// and with fewer it is not.
    pub proof fn lemma_pass_completes(self, answers: nat)
        requires
            self.consumed() <= self.commands().len(),
        ensures
            self.after(answers).commands() == self.commands(),
            self.after(answers).consumed() == if self.consumed() + answers
                <= self.commands().len() {
                self.consumed() + answers
            } else {
                self.commands().len()
            },
            self.after(answers).complete() <==> self.consumed() + answers >= self.commands().len(),
        decreases answers,
    {
        if answers > 0 {
            self.lemma_pass_completes((answers - 1) as nat);
        }
    }

    /// The pass over `commands`, none of them consumed.
    pub fn begin(commands: Vec<Command>) -> (r: Review)
        ensures
            r.commands() == commands@,
            r.consumed() == 0,
    {
        Review { commands, position: 0 }
    }

    /// The command to present next, if one is left.
    pub fn pending(&self) -> (r: Option<&Command>)
        ensures
            self.consumed() <= self.commands().len(),
            match r {
                Some(command) => !self.complete() && *command == self.commands()[
                    self.consumed() as int
                ],
                None => self.complete(),
            },
    {
        proof {
            use_type_invariant(self);
        }
        if self.position < self.commands.len() {
            Some(&self.commands[self.position])
        } else {
            None
        }
    }

    /// Consumes the pending command with the answer that was given for it and
    /// says what is to be done. Whether that then succeeds does not matter
    /// to the pass: the next command is pending. With no command left
    /// nothing changes.
    pub fn decide(&mut self, confirmation: Confirmation) -> (r: Option<ReviewAction>)
        ensures
            *final(self) == old(self).advanced(),
            final(self).commands() == old(self).commands(),
            match r {
                Some(action) => !old(self).complete() && final(self).consumed() == old(
                    self
                ).consumed() + 1 && action@ == action_for(
                    old(self).commands()[old(self).consumed() as int]@,
                    confirmation,
                ),
                None => old(self).complete() && final(self).consumed() == old(self).consumed(),
            },
            final(self).consumed() <= final(self).commands().len(),
    {
        proof {
            use_type_invariant(&*self);
        }
        if self.position < self.commands.len() {
            let action = review_action(&self.commands[self.position], confirmation);
            self.position = self.position + 1;
            Some(action)
        } else {
            None
        }
    }

    /// Whether every command has been consumed: only then is the journal to
    /// be cleared.
    pub fn is_complete(&self) -> (r: bool)
        ensures
            r == self.complete(),
    {
        proof {
            use_type_invariant(self);
        }
        self.position >= self.commands.len()
    }

    /// Ends the pass: the journal is cleared if every command has been
    /// consumed, accepted or declined, applied or failed, and is left as it is
    /// otherwise, so that the next pass presents the same commands again.
    pub fn conclude(&self, journal: &mut Journal) -> (r: bool)
        ensures
            r == self.complete(),
            r ==> final(journal).content() == Seq::<char>::empty() && final(journal)@ == Seq::<
                Seq<char>,
            >::empty(),
            !r ==> final(journal).content() == old(journal).content(),
    {
        if self.is_complete() {
            journal.clear();
            true
        } else {
            false
        }
    }

    /// How many commands are left.
    pub fn remaining(&self) -> (r: usize)
        ensures
            r == self.commands().len() - self.consumed(),
    {
        proof {
            use_type_invariant(self);
        }
        self.commands.len() - self.position
    }
}

} // verus!
