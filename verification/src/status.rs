//! The status of a task, the commands that change it, and what each
//! command does to the task's work intervals.

use vstd::prelude::*;

verus! {

/// The status of a task.
#[derive(Clone, Copy, Debug, PartialEq, Eq, Structural)]
pub enum Status {
    /// The task has been cancelled and will not be worked.
    Cancelled,
    /// The task is in progress.
    Doing,
    /// The task is completed.
    Done,
    /// The task has more work to be done, but is currently paused.
    Paused,
    /// The task has not yet been started.
    Todo,
}

impl Default for Status {
    fn default() -> (r: Self)
        ensures
            r == Status::Todo,
    {
        Status::Todo
    }
}

impl Status {
    /// The name under which the status is shown.
    pub open spec fn label_of(self) -> Seq<char> {
        match self {
            Status::Todo => "To Do"@,
            Status::Doing => "Doing"@,
            Status::Done => "Done"@,
            Status::Cancelled => "Cancelled"@,
            Status::Paused => "Paused"@,
        }
    }

    /// The name under which the status is shown.
    pub fn label(&self) -> (r: &'static str)
        ensures
            r@ == self.label_of(),
    {
        match self {
            Status::Todo => "To Do",
            Status::Doing => "Doing",
            Status::Done => "Done",
            Status::Cancelled => "Cancelled",
            Status::Paused => "Paused",
        }
    }

    /// The status that is shown under `label`; none if no status is.
    pub fn from_label(label: &str) -> (r: Option<Status>)
        ensures
            r is Some <==> exists|status: Status| label@ == #[trigger] status.label_of(),
            r is Some ==> r->0.label_of() == label@,
    {
        let given: String = label.to_owned();
        let r = if given == Status::Todo.label().to_owned() {
            Some(Status::Todo)
        } else if given == Status::Doing.label().to_owned() {
            Some(Status::Doing)
        } else if given == Status::Done.label().to_owned() {
            Some(Status::Done)
        } else if given == Status::Paused.label().to_owned() {
            Some(Status::Paused)
        } else if given == Status::Cancelled.label().to_owned() {
            Some(Status::Cancelled)
        } else {
            None
        };
        proof {
            if r is None {
                assert forall|status: Status| label@ != #[trigger] status.label_of() by {
                    match status {
                        Status::Todo => {},
                        Status::Doing => {},
                        Status::Done => {},
                        Status::Cancelled => {},
                        Status::Paused => {},
                    }
                }
            }
        }
        r
    }

    pub fn is_done(&self) -> (r: bool)
        ensures
            r == (*self == Status::Done),
    {
        match self {
            Status::Done => true,
            _ => false,
        }
    }

    /// Work is under way: the task has an open interval.
    pub fn is_active(&self) -> (r: bool)
        ensures
            r == (*self == Status::Doing),
    {
        match self {
            Status::Doing => true,
            _ => false,
        }
    }
}

/// What a caller may ask of a task.
#[derive(Clone, Copy, Debug, PartialEq, Eq, Structural)]
pub enum Command {
    Start,
    Pause,
    Resume,
    Finish,
    Cancel,
    Reopen,
    Restore,
}

/// What a command does to the work intervals of its task.
#[derive(Clone, Copy, Debug, PartialEq, Eq, Structural)]
pub enum LedgerEffect {
    /// Drop a stray open interval, then open a new one at the current instant.
    Open,
    /// Close the open interval, if there is one, at the current instant.
    Close,
    /// Close the open interval and discard every interval of the task.
    CloseAndDeleteAll,
}

/// The status that a command leaves its task in.
pub open spec fn next_status(command: Command) -> Status {
    match command {
        Command::Start | Command::Resume | Command::Reopen => Status::Doing,
        Command::Pause => Status::Paused,
        Command::Finish => Status::Done,
        Command::Cancel => Status::Cancelled,
        Command::Restore => Status::Todo,
    }
}

/// The effect of a command on the intervals of its task.
pub open spec fn effect_of(command: Command) -> LedgerEffect {
    match command {
        Command::Start | Command::Resume | Command::Reopen => LedgerEffect::Open,
        Command::Pause | Command::Finish | Command::Restore => LedgerEffect::Close,
        Command::Cancel => LedgerEffect::CloseAndDeleteAll,
    }
}

/// The step of the lifecycle: from the current status and a command to
/// the next status and the effect to apply to the intervals. Every command
/// is accepted in every status.
pub fn transition(current: Status, command: Command) -> (r: (Status, LedgerEffect))
    ensures
        r.0 == next_status(command),
        r.1 == effect_of(command),
        r.0 == Status::Doing <==> r.1 == LedgerEffect::Open,
{
    match command {
        Command::Start => (Status::Doing, LedgerEffect::Open),
        Command::Resume => (Status::Doing, LedgerEffect::Open),
        Command::Reopen => (Status::Doing, LedgerEffect::Open),
        Command::Pause => (Status::Paused, LedgerEffect::Close),
        Command::Finish => (Status::Done, LedgerEffect::Close),
        Command::Restore => (Status::Todo, LedgerEffect::Close),
        Command::Cancel => (Status::Cancelled, LedgerEffect::CloseAndDeleteAll),
    }
}

} // verus!
