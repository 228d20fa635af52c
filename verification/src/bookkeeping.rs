//! Keeping the tables up to date, in memory and on disk.
use vstd::prelude::*;

use crate::clock::UtcTime;
use crate::protocol::{atomic_write, save_next, Action, Event, Flow, SaveStep, Wait};
use crate::storage::Document;

verus! {

/// The steps of noting the sender of a message.
pub enum NoteStep {
    Clock,
    Update,
    /// The users are saved; whether the sender may use the bot is known.
    Save(bool, SaveStep),
}

/// The steps of giving the sender access.
pub enum GrantStep {
    Update,
    Save(SaveStep),
}

/// The steps of recording a finished download.
pub enum LogStep {
    Clock,
    Append(UtcTime),
    SaveLogs(UtcTime, SaveStep),
    Count,
    SaveUsers(SaveStep),
}

impl NoteStep {
    pub open spec fn awaits(self) -> Wait {
        match self {
            NoteStep::Clock => Wait::Clock,
            NoteStep::Update => Wait::Noted,
            NoteStep::Save(_, step) => step.awaits(),
        }
    }
}

impl GrantStep {
    pub open spec fn awaits(self) -> Wait {
        match self {
            GrantStep::Update => Wait::Done,
            GrantStep::Save(step) => step.awaits(),
        }
    }
}

impl LogStep {
    pub open spec fn awaits(self) -> Wait {
        match self {
            LogStep::Clock => Wait::Clock,
            LogStep::Append(_) => Wait::Done,
            LogStep::SaveLogs(_, step) => step.awaits(),
            LogStep::Count => Wait::Done,
            LogStep::SaveUsers(step) => step.awaits(),
        }
    }
}

/// Noting the sender: at the time of the clock they are entered in the user
/// table, the table is saved, and the result is whether they may use the bot.
pub open spec fn note_next(step: NoteStep, event: Event) -> Flow<NoteStep, bool> {
    match (step, event) {
        (NoteStep::Clock, Event::Clock(now)) => Flow::Next(
            NoteStep::Update,
            Action::NoteUser(now),
        ),
        (NoteStep::Update, Event::Noted(may_use)) => Flow::Next(
            NoteStep::Save(may_use, SaveStep::Locking),
            Action::Lock(Document::Users),
        ),
        (NoteStep::Save(may_use, saving), event) => match save_next(
            Document::Users,
            saving,
            event,
        ) {
            Flow::Next(saving, action) => Flow::Next(NoteStep::Save(may_use, saving), action),
            Flow::Done(_) => Flow::Done(may_use),
            Flow::Lost(error) => Flow::Lost(error),
        },
        _ => arbitrary(),
    }
}

/// Giving access: the user table is changed and then saved.
pub open spec fn grant_next(step: GrantStep, event: Event) -> Flow<GrantStep, ()> {
    match (step, event) {
        (GrantStep::Update, _) => Flow::Next(
            GrantStep::Save(SaveStep::Locking),
            Action::Lock(Document::Users),
        ),
        (GrantStep::Save(saving), event) => match save_next(Document::Users, saving, event) {
            Flow::Next(saving, action) => Flow::Next(GrantStep::Save(saving), action),
            Flow::Done(_) => Flow::Done(()),
            Flow::Lost(error) => Flow::Lost(error),
        },
    }
}

/// Recording a finished download: at the time of the clock it is entered in the
/// log, the log is saved, the download is counted at the same time, and the
/// users are saved. What fails to be saved ends it there.
pub open spec fn log_next(step: LogStep, event: Event) -> Flow<LogStep, ()> {
    match (step, event) {
        (LogStep::Clock, Event::Clock(now)) => Flow::Next(
            LogStep::Append(now),
            Action::AppendLog(now),
        ),
        (LogStep::Append(now), _) => Flow::Next(
            LogStep::SaveLogs(now, SaveStep::Locking),
            Action::Lock(Document::Logs),
        ),
        (LogStep::SaveLogs(now, saving), event) => match save_next(Document::Logs, saving, event) {
            Flow::Next(saving, action) => Flow::Next(LogStep::SaveLogs(now, saving), action),
            Flow::Done(_) => Flow::Next(LogStep::Count, Action::CountDownload(now)),
            Flow::Lost(error) => Flow::Lost(error),
        },
        (LogStep::Count, _) => Flow::Next(
            LogStep::SaveUsers(SaveStep::Locking),
            Action::Lock(Document::Users),
        ),
        (LogStep::SaveUsers(saving), event) => match save_next(Document::Users, saving, event) {
            Flow::Next(saving, action) => Flow::Next(LogStep::SaveUsers(saving), action),
            Flow::Done(_) => Flow::Done(()),
            Flow::Lost(error) => Flow::Lost(error),
        },
        _ => arbitrary(),
    }
}

/// One step of noting the sender of a message.
pub fn note_sender(step: NoteStep, event: Event) -> (r: Flow<NoteStep, bool>)
    requires
        step.awaits().admits(event),
    ensures
        r == note_next(step, event),
{
    match (step, event) {
        (NoteStep::Clock, Event::Clock(now)) => Flow::Next(
            NoteStep::Update,
            Action::NoteUser(now),
        ),
        (NoteStep::Update, Event::Noted(may_use)) => Flow::Next(
            NoteStep::Save(may_use, SaveStep::Locking),
            Action::Lock(Document::Users),
        ),
        (NoteStep::Save(may_use, saving), event) => match atomic_write(
            Document::Users,
            saving,
            event,
        ) {
            Flow::Next(saving, action) => Flow::Next(NoteStep::Save(may_use, saving), action),
            Flow::Done(_) => Flow::Done(may_use),
            Flow::Lost(error) => Flow::Lost(error),
        },
        _ => vstd::pervasive::unreached(),
    }
}

/// One step of giving the sender access.
pub fn grant_access(step: GrantStep, event: Event) -> (r: Flow<GrantStep, ()>)
    requires
        step.awaits().admits(event),
    ensures
        r == grant_next(step, event),
{
    match (step, event) {
        (GrantStep::Update, _) => Flow::Next(
            GrantStep::Save(SaveStep::Locking),
            Action::Lock(Document::Users),
        ),
        (GrantStep::Save(saving), event) => match atomic_write(Document::Users, saving, event) {
            Flow::Next(saving, action) => Flow::Next(GrantStep::Save(saving), action),
            Flow::Done(_) => Flow::Done(()),
            Flow::Lost(error) => Flow::Lost(error),
        },
    }
}

/// One step of recording a finished download.
pub fn log_successful_download(step: LogStep, event: Event) -> (r: Flow<LogStep, ()>)
    requires
        step.awaits().admits(event),
    ensures
        r == log_next(step, event),
{
    match (step, event) {
        (LogStep::Clock, Event::Clock(now)) => Flow::Next(
            LogStep::Append(now),
            Action::AppendLog(now),
        ),
        (LogStep::Append(now), _) => Flow::Next(
            LogStep::SaveLogs(now, SaveStep::Locking),
            Action::Lock(Document::Logs),
        ),
        (LogStep::SaveLogs(now, saving), event) => match atomic_write(
            Document::Logs,
            saving,
            event,
        ) {
            Flow::Next(saving, action) => Flow::Next(LogStep::SaveLogs(now, saving), action),
            Flow::Done(_) => Flow::Next(LogStep::Count, Action::CountDownload(now)),
            Flow::Lost(error) => Flow::Lost(error),
        },
        (LogStep::Count, _) => Flow::Next(
            LogStep::SaveUsers(SaveStep::Locking),
            Action::Lock(Document::Users),
        ),
        (LogStep::SaveUsers(saving), event) => match atomic_write(
            Document::Users,
            saving,
            event,
        ) {
            Flow::Next(saving, action) => Flow::Next(LogStep::SaveUsers(saving), action),
            Flow::Done(_) => Flow::Done(()),
            Flow::Lost(error) => Flow::Lost(error),
        },
        _ => vstd::pervasive::unreached(),
    }
}

} // verus!
