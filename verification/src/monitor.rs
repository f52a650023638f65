use crate::classify::{
    first_match, grep_course_code, lemma_first_match_from, Classification, File, FileView,
};
use crate::command::{Command, CommandEnum, CommandView, ReasonEnum};
use crate::event::{
    normalized, parse_event, Attribute, NormalizeError, Normalized, NormalizedView, Notification,
};
use crate::path::{adjoined, join_path};
use crate::setup::Config;
use crate::text_map::TextMap;
use vstd::pervasive::unreached;
use vstd::prelude::*;

verus! {

/// The directory that files of the course `code` are moved to: the one named
/// by the code, inside the directory of the current term, inside the base.
pub open spec fn course_directory(config: Config, code: Seq<char>) -> Seq<char> {
    adjoined(adjoined(config.base_path@, config.current_term@), code)
}

/// Whether `code` is the code of one of the configured courses.
pub open spec fn is_course(config: Config, code: Seq<char>) -> bool {
    exists|i: int| 0 <= i < config.courses@.len() && #[trigger] config.courses@[i].name@ == code
}

/// Whether `directories` holds, for each configured course and for nothing
/// else, the directory of that course.
pub open spec fn is_directory_map(config: Config, directories: Map<Seq<char>, String>) -> bool {
    &&& forall|code: Seq<char>| #[trigger] directories.contains_key(code) <==> is_course(config, code)
    &&& forall|code: Seq<char>| #[trigger]
        directories.contains_key(code) ==> directories[code]@ == course_directory(config, code)
}

/// The directory of each configured course, by the course's code.
pub fn create_directory_map(config: &Config) -> (r: TextMap<String>)
    ensures
        is_directory_map(*config, r@),
{
    let mut map: TextMap<String> = TextMap::new();
    let term_path = join_path(config.base_path.as_str(), config.current_term.as_str());
    let mut i: usize = 0;
    while i < config.courses.len()
        invariant
            i <= config.courses.len(),
            term_path@ == adjoined(config.base_path@, config.current_term@),
            forall|code: Seq<char>| #[trigger]
                map@.contains_key(code) <==> exists|k: int|
                    0 <= k < i && #[trigger] config.courses@[k].name@ == code,
            forall|code: Seq<char>| #[trigger]
                map@.contains_key(code) ==> map@[code]@ == course_directory(*config, code),
        decreases config.courses.len() - i,
    {
        let code = &config.courses[i].name;
        let directory = join_path(term_path.as_str(), code.as_str());
        map.insert(code.clone(), directory);
        proof {
            assert(config.courses@[i as int].name@ == code@);
            assert forall|c: Seq<char>| #[trigger] map@.contains_key(c) implies exists|k: int|
                0 <= k < i + 1 && #[trigger] config.courses@[k].name@ == c by {
                if c != code@ {
                    let k = choose|k: int| 0 <= k < i && #[trigger] config.courses@[k].name@ == c;
                    assert(0 <= k < i + 1 && config.courses@[k].name@ == c);
                }
            }
        }
        i += 1;
    }
    map
}

/// The command that the monitor records for a candidate file: a move into
/// the directory of the first course that the file belongs to, and an
/// indeterminate command, which names the file and no place, where it belongs
/// to none.
pub open spec fn planned(config: Config, file: FileView) -> CommandView {
    match first_match(file, config.courses@) {
        Some(i) => CommandView {
            file_path: Some(file.path),
            command: CommandEnum::Move,
            destination: Some(course_directory(config, config.courses@[i].name@)),
            reason: Some(ReasonEnum::CourseCode),
        },
        None => CommandView {
            file_path: Some(file.path),
            command: CommandEnum::Indeterminate,
            destination: None,
            reason: None,
        },
    }
}

/// What the monitor does with one change.
#[derive(Debug)]
pub enum Outcome {
    /// The command to append to the journal.
    Append(Command),
    /// Nothing: the change brings no file with a recorded origin.
    Ignored,
    /// Nothing but a report: the change is dropped for the reason given.
    Dropped(NormalizeError),
}

/// An outcome with its command as plain text.
pub enum OutcomeView {
    Append(CommandView),
    Ignored,
    Dropped(NormalizeError),
}

impl View for Outcome {
    type V = OutcomeView;

    open spec fn view(&self) -> OutcomeView {
        match self {
            Outcome::Append(command) => OutcomeView::Append(command@),
            Outcome::Ignored => OutcomeView::Ignored,
            Outcome::Dropped(reason) => OutcomeView::Dropped(*reason),
        }
    }
}

/// What the monitor does with a change, given what reading the attribute of
/// its path gave: one command for each candidate file, and none otherwise.
pub open spec fn outcome(config: Config, event: Notification, attribute: Attribute) -> OutcomeView {
    match normalized(event, attribute) {
        Ok(NormalizedView::Candidate(file)) => OutcomeView::Append(planned(config, file)),
        Ok(NormalizedView::Ignored) => OutcomeView::Ignored,
        Err(reason) => OutcomeView::Dropped(reason),
    }
}

/// A change together with what reading the attribute of its path gave.
#[derive(Debug)]
pub struct Observation {
    pub event: Notification,
    pub attribute: Attribute,
}

/// The monitor: the configuration it was started with and the directory of
/// each course.
pub struct Monitor {
    config: Config,
    directories: TextMap<String>,
}

impl Monitor {
    #[verifier::type_invariant]
    spec fn well_formed(self) -> bool {
        is_directory_map(self.config, self.directories@)
    }

    /// The configuration that the monitor was started with.
    pub closed spec fn config(&self) -> Config {
        self.config
    }

    /// The monitor for `config`.
    pub fn new(config: Config) -> (r: Monitor)
        ensures
            r.config() == config,
    {
        let directories = create_directory_map(&config);
        Monitor { config, directories }
    }

    /// The command to record for a candidate file.
    pub fn plan(&self, file: &File) -> (r: Command)
        ensures
            r@ == planned(self.config(), file@),
            r@.well_formed(),
    {
        proof {
            use_type_invariant(self);
        }
        match grep_course_code(file, &self.config.courses) {
            Classification::Matched(course) => {
                proof {
                    lemma_first_match_from(file@, self.config.courses@, 0);
                }
                let directory = match self.directories.get(course.name.as_str()) {
                    Some(directory) => directory.clone(),
                    None => unreached(),
                };
                Command::relocate(file.path.clone(), directory, ReasonEnum::CourseCode)
            },
            Classification::Unmatched => Command::indeterminate(file.path.clone()),
        }
    }

    /// What to do with one change, given what reading the attribute of its
    /// path gave.
    pub fn dispatch(&self, event: &Notification, attribute: &Attribute) -> (r: Outcome)
        ensures
            r@ == outcome(self.config(), *event, *attribute),
    {
        match parse_event(event, attribute) {
            Ok(Normalized::Candidate(file)) => Outcome::Append(self.plan(&file)),
            Ok(Normalized::Ignored) => Outcome::Ignored,
            Err(reason) => Outcome::Dropped(reason),
        }
    }

    /// What to do with each change of a batch, in the order of the batch. A
    /// change that is dropped stops nothing: the ones after it are handled as
    /// if it had not been there.
    pub fn dispatch_batch(&self, batch: &Vec<Observation>) -> (r: Vec<Outcome>)
        ensures
            r@.len() == batch@.len(),
            forall|i: int|
                0 <= i < batch@.len() ==> (#[trigger] r@[i])@ == outcome(
                    self.config(),
                    batch@[i].event,
                    batch@[i].attribute,
                ),
    {
        let mut out: Vec<Outcome> = Vec::new();
        let mut i: usize = 0;
        while i < batch.len()
            invariant
                i <= batch.len(),
                out@.len() == i,
                forall|k: int|
                    0 <= k < i ==> (#[trigger] out@[k])@ == outcome(
                        self.config(),
                        batch@[k].event,
                        batch@[k].attribute,
                    ),
            decreases batch.len() - i,
        {
            let one = self.dispatch(&batch[i].event, &batch[i].attribute);
            out.push(one);
            i += 1;
        }
        out
    }
}

/// Where the monitor stands.
#[derive(Debug, Clone, Copy, PartialEq, Eq, Structural)]
pub enum MonitorState {
    Idle,
    Watching,
    Dispatching,
    Stopped,
}

/// What happens to the monitor.
#[derive(Debug, Clone, Copy, PartialEq, Eq, Structural)]
pub enum MonitorSignal {
    /// The watch on the download directory stands.
    WatchEstablished,
    /// The watch could not be set up.
    WatchFailed,
    /// A batch of changes was delivered.
    BatchDelivered,
    /// Every change of the batch has been handled.
    BatchHandled,
}

/// The state after `signal`: an idle monitor starts to watch or stops for
/// good, a watching one takes a batch, a dispatching one goes back to
/// watching. A signal that does not fit the state changes nothing.
pub open spec fn next_state(state: MonitorState, signal: MonitorSignal) -> MonitorState {
    match (state, signal) {
        (MonitorState::Idle, MonitorSignal::WatchEstablished) => MonitorState::Watching,
        (MonitorState::Idle, MonitorSignal::WatchFailed) => MonitorState::Stopped,
        (MonitorState::Watching, MonitorSignal::BatchDelivered) => MonitorState::Dispatching,
        (MonitorState::Dispatching, MonitorSignal::BatchHandled) => MonitorState::Watching,
        _ => state,
    }
}

/// The state after `signal`.
pub fn step(state: MonitorState, signal: MonitorSignal) -> (r: MonitorState)
    ensures
        r == next_state(state, signal),
{
    match (state, signal) {
        (MonitorState::Idle, MonitorSignal::WatchEstablished) => MonitorState::Watching,
        (MonitorState::Idle, MonitorSignal::WatchFailed) => MonitorState::Stopped,
        (MonitorState::Watching, MonitorSignal::BatchDelivered) => MonitorState::Dispatching,
        (MonitorState::Dispatching, MonitorSignal::BatchHandled) => MonitorState::Watching,
        _ => state,
    }
}

/// The state after each of `signals` in turn.
pub open spec fn state_after(state: MonitorState, signals: Seq<MonitorSignal>) -> MonitorState
    decreases signals.len(),
{
    if signals.len() == 0 {
        state
    } else {
        next_state(state_after(state, signals.drop_last()), signals.last())
    }
}

/// Only a watch that could not be set up stops the monitor, and nothing
/// starts it again: no batch, however it is handled, ends the run.
pub proof fn lemma_stopped_only_at_setup(state: MonitorState, signals: Seq<MonitorSignal>)
    ensures
        state == MonitorState::Stopped ==> state_after(state, signals) == MonitorState::Stopped,
        state != MonitorState::Stopped && state != MonitorState::Idle ==> state_after(state, signals)
            != MonitorState::Stopped && state_after(state, signals) != MonitorState::Idle,
        state_after(state, signals) == MonitorState::Stopped && state != MonitorState::Stopped
            ==> signals.contains(MonitorSignal::WatchFailed),
    decreases signals.len(),
{
    if signals.len() > 0 {
        lemma_stopped_only_at_setup(state, signals.drop_last());
        if state_after(state, signals) == MonitorState::Stopped && state != MonitorState::Stopped {
            if signals.last() == MonitorSignal::WatchFailed {
            } else {
                let k = choose|k: int|
                    0 <= k < signals.drop_last().len() && signals.drop_last()[k]
                        == MonitorSignal::WatchFailed;
            }
        }
    }
}

} // verus!
