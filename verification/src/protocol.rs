//! How the decisions of the bot meet the world. Handling a message is a
//! sequence of steps; every step asks for one action and goes on with the event
//! that answers it.
use vstd::prelude::*;

use crate::clock::{UtcTime, LAST_SECOND, NANOS_PER_SECOND};
use crate::media::MediaFile;
use crate::messages::{BotError, Message};
use crate::progress::{captured, download_percent, text_of};
use crate::storage::Document;

verus! {

/// What the world is asked to do.
pub enum Action {
    /// Read the clock.
    ReadClock,
    /// Note the sender in the user table at this time, and tell whether they
    /// may use the bot.
    NoteUser(UtcTime),
    /// Give the sender access.
    Authorize,
    /// Enter the link in the log at this time.
    AppendLog(UtcTime),
    /// Count the download of the sender at this time.
    CountDownload(UtcTime),
    /// Wait until nobody else saves the document, and keep it so.
    Lock(Document),
    /// Let others save the document again.
    Unlock(Document),
    /// Write out the table behind a document.
    Render(Document),
    /// Write these contents of a document aside.
    WriteAside(Document, String),
    /// Let what was written aside take the place of the document.
    Publish(Document),
    /// Send a message.
    Reply(Message),
    /// Send the notice that the progress of the download will be shown in.
    OpenNotice(Message),
    /// Change that notice. Whether it works does not matter.
    EditNotice(Message),
    /// Delete that notice. Whether it works does not matter.
    CloseNotice,
    /// Start the downloader for the download that began at this time.
    StartDownload(UtcTime),
    /// Read a line of the downloader's output.
    ReadLine,
    /// Wait for the downloader to end.
    AwaitDownload,
    /// Read what the downloader has written to its error stream.
    ReadErrors,
    /// Look whether a file is there.
    Probe(MediaFile),
    /// Measure a file.
    Measure(MediaFile),
    /// Run the encoder for the download that began at this time.
    Encode(UtcTime),
    /// Delete a file. Whether it works does not matter.
    Remove(MediaFile),
    /// Send a file as a video.
    Upload(MediaFile),
    /// Nothing more is to be done.
    Finish(Result<(), BotError>),
}

/// What the world answers.
pub enum Event {
    /// The time.
    Clock(UtcTime),
    /// The sender is noted; whether they may use the bot.
    Noted(bool),
    /// It is done.
    Done,
    /// It failed; in words.
    Failed(String),
    /// The text that was asked for.
    Text(String),
    /// A line of output, read so many nanoseconds after the start; with the
    /// percentage that it reports.
    Line(Option<String>, u128),
    /// The output has ended.
    EndOfOutput,
    /// A program has ended; whether it succeeded.
    Exited(bool),
    /// Whether the file is there.
    Present(bool),
    /// The size of the file in bytes.
    Size(u64),
}

/// What kind of event a step goes on with.
#[derive(Clone, Copy, PartialEq, Eq, Structural)]
pub enum Wait {
    Clock,
    Noted,
    Done,
    Outcome,
    Text,
    TextOrFailure,
    Output,
    Exit,
    Presence,
    Size,
    Nothing,
}

impl Wait {
    /// The event is of the kind that is waited for.
    pub open spec fn admits(self, event: Event) -> bool {
        match self {
            Wait::Clock => event matches Event::Clock(time) && time.valid(),
            Wait::Noted => event is Noted,
            Wait::Done => event is Done,
            Wait::Outcome => event is Done || event is Failed,
            Wait::Text => event is Text,
            Wait::TextOrFailure => event is Text || event is Failed,
            Wait::Output => event is Line || event is EndOfOutput || event is Failed,
            Wait::Exit => event is Exited || event is Failed,
            Wait::Presence => event is Present,
            Wait::Size => event is Size || event is Failed,
            Wait::Nothing => false,
        }
    }

    /// Whether the event is of the kind that is waited for.
    pub fn accepts(&self, event: &Event) -> (r: bool)
        ensures
            r == self.admits(*event),
    {
        match (self, event) {
            (Wait::Clock, Event::Clock(time)) => 0 <= time.secs && time.secs <= LAST_SECOND
                && time.nanos < NANOS_PER_SECOND,
            (Wait::Noted, Event::Noted(_)) => true,
            (Wait::Done, Event::Done) => true,
            (Wait::Outcome, Event::Done) => true,
            (Wait::Outcome, Event::Failed(_)) => true,
            (Wait::Text, Event::Text(_)) => true,
            (Wait::TextOrFailure, Event::Text(_)) => true,
            (Wait::TextOrFailure, Event::Failed(_)) => true,
            (Wait::Output, Event::Line(_, _)) => true,
            (Wait::Output, Event::EndOfOutput) => true,
            (Wait::Output, Event::Failed(_)) => true,
            (Wait::Exit, Event::Exited(_)) => true,
            (Wait::Exit, Event::Failed(_)) => true,
            (Wait::Presence, Event::Present(_)) => true,
            (Wait::Size, Event::Size(_)) => true,
            (Wait::Size, Event::Failed(_)) => true,
            _ => false,
        }
    }
}

impl Action {
    /// What kind of event answers the action.
    pub open spec fn awaits(self) -> Wait {
        match self {
            Action::ReadClock => Wait::Clock,
            Action::NoteUser(_) => Wait::Noted,
            Action::Authorize => Wait::Done,
            Action::AppendLog(_) => Wait::Done,
            Action::CountDownload(_) => Wait::Done,
            Action::Lock(_) => Wait::Done,
            Action::Unlock(_) => Wait::Done,
            Action::Render(_) => Wait::TextOrFailure,
            Action::WriteAside(_, _) => Wait::Outcome,
            Action::Publish(_) => Wait::Outcome,
            Action::Reply(_) => Wait::Outcome,
            Action::OpenNotice(_) => Wait::Outcome,
            Action::EditNotice(_) => Wait::Done,
            Action::CloseNotice => Wait::Done,
            Action::StartDownload(_) => Wait::Outcome,
            Action::ReadLine => Wait::Output,
            Action::AwaitDownload => Wait::Exit,
            Action::ReadErrors => Wait::Text,
            Action::Probe(_) => Wait::Presence,
            Action::Measure(_) => Wait::Size,
            Action::Encode(_) => Wait::Exit,
            Action::Remove(_) => Wait::Done,
            Action::Upload(_) => Wait::Outcome,
            Action::Finish(_) => Wait::Nothing,
        }
    }

    /// What kind of event answers the action.
    pub fn answer(&self) -> (r: Wait)
        ensures
            r == self.awaits(),
    {
        match self {
            Action::ReadClock => Wait::Clock,
            Action::NoteUser(_) => Wait::Noted,
            Action::Authorize => Wait::Done,
            Action::AppendLog(_) => Wait::Done,
            Action::CountDownload(_) => Wait::Done,
            Action::Lock(_) => Wait::Done,
            Action::Unlock(_) => Wait::Done,
            Action::Render(_) => Wait::TextOrFailure,
            Action::WriteAside(_, _) => Wait::Outcome,
            Action::Publish(_) => Wait::Outcome,
            Action::Reply(_) => Wait::Outcome,
            Action::OpenNotice(_) => Wait::Outcome,
            Action::EditNotice(_) => Wait::Done,
            Action::CloseNotice => Wait::Done,
            Action::StartDownload(_) => Wait::Outcome,
            Action::ReadLine => Wait::Output,
            Action::AwaitDownload => Wait::Exit,
            Action::ReadErrors => Wait::Text,
            Action::Probe(_) => Wait::Presence,
            Action::Measure(_) => Wait::Size,
            Action::Encode(_) => Wait::Exit,
            Action::Remove(_) => Wait::Done,
            Action::Upload(_) => Wait::Outcome,
            Action::Finish(_) => Wait::Nothing,
        }
    }
}

impl Event {
    /// The event of a line of output.
    pub fn line(text: &str, at: u128) -> (r: Event)
        ensures
            r matches Event::Line(pct, time) && time == at && captured(text@, text_of(pct)),
    {
        Event::Line(download_percent(text), at)
    }
}

/// Where a part of the handling has come to: to a next step with its action, to
/// its end with a result, or to an error.
pub enum Flow<S, R> {
    Next(S, Action),
    Done(R),
    Lost(BotError),
}

/// The steps of saving a document.
pub enum SaveStep {
    Locking,
    Rendering,
    Writing,
    Publishing,
    /// It is saved, or it is not; in words.
    Unlocking(Option<String>),
}

impl SaveStep {
    pub open spec fn awaits(self) -> Wait {
        match self {
            SaveStep::Locking => Wait::Done,
            SaveStep::Rendering => Wait::TextOrFailure,
            SaveStep::Writing => Wait::Outcome,
            SaveStep::Publishing => Wait::Outcome,
            SaveStep::Unlocking(_) => Wait::Done,
        }
    }

    /// The most answers that the step is away from the end of the saving.
    pub open spec fn rank(self) -> nat {
        match self {
            SaveStep::Locking => 5,
            SaveStep::Rendering => 4,
            SaveStep::Writing => 3,
            SaveStep::Publishing => 2,
            SaveStep::Unlocking(_) => 1,
        }
    }
}

/// The document whose lock is held once the action is answered, where `held` is
/// held before.
pub open spec fn held_then(held: Option<Document>, action: Action) -> Option<Document> {
    match action {
        Action::Lock(document) => Some(document),
        Action::Unlock(_) => None,
        _ => held,
    }
}

/// The action goes with the lock that is held: a lock is taken while none is
/// held, a document is saved under its own lock and no other, and nothing but
/// saving is done under a lock.
pub open spec fn goes_with(held: Option<Document>, action: Action) -> bool {
    match action {
        Action::Unlock(document) => held == Some(document),
        Action::Render(document) => held == Some(document),
        Action::WriteAside(document, _) => held == Some(document),
        Action::Publish(document) => held == Some(document),
        _ => held is None,
    }
}

/// The action that a step of saving the document asks for, as far as locks go.
pub open spec fn lock_action(document: Document, step: SaveStep, action: Action) -> bool {
    match step {
        SaveStep::Locking => action == Action::Lock(document),
        SaveStep::Unlocking(_) => action == Action::Unlock(document),
        _ => action !is Lock && action !is Unlock,
    }
}

/// Saving a document: with the document locked, its contents are rendered,
/// written aside, and put in place. The first failure ends it, and the lock is
/// released either way.
pub open spec fn save_next(document: Document, step: SaveStep, event: Event) -> Flow<SaveStep, ()> {
    match (step, event) {
        (SaveStep::Locking, _) => Flow::Next(SaveStep::Rendering, Action::Render(document)),
        (SaveStep::Rendering, Event::Text(data)) => Flow::Next(
            SaveStep::Writing,
            Action::WriteAside(document, data),
        ),
        (SaveStep::Writing, Event::Done) => Flow::Next(
            SaveStep::Publishing,
            Action::Publish(document),
        ),
        (SaveStep::Publishing, Event::Done) => Flow::Next(
            SaveStep::Unlocking(None),
            Action::Unlock(document),
        ),
        (SaveStep::Unlocking(None), _) => Flow::Done(()),
        (SaveStep::Unlocking(Some(cause)), _) => Flow::Lost(BotError::Failed(cause)),
        (_, Event::Failed(cause)) => Flow::Next(
            SaveStep::Unlocking(Some(cause)),
            Action::Unlock(document),
        ),
        _ => arbitrary(),
    }
}

/// One step of saving a document.
pub fn atomic_write(document: Document, step: SaveStep, event: Event) -> (r: Flow<SaveStep, ()>)
    requires
        step.awaits().admits(event),
    ensures
        r == save_next(document, step, event),
{
    match (step, event) {
        (SaveStep::Locking, _) => Flow::Next(SaveStep::Rendering, Action::Render(document)),
        (SaveStep::Rendering, Event::Text(data)) => Flow::Next(
            SaveStep::Writing,
            Action::WriteAside(document, data),
        ),
        (SaveStep::Writing, Event::Done) => Flow::Next(
            SaveStep::Publishing,
            Action::Publish(document),
        ),
        (SaveStep::Publishing, Event::Done) => Flow::Next(
            SaveStep::Unlocking(None),
            Action::Unlock(document),
        ),
        (SaveStep::Unlocking(None), _) => Flow::Done(()),
        (SaveStep::Unlocking(Some(cause)), _) => Flow::Lost(BotError::Failed(cause)),
        (_, Event::Failed(cause)) => Flow::Next(
            SaveStep::Unlocking(Some(cause)),
            Action::Unlock(document),
        ),
        _ => vstd::pervasive::unreached(),
    }
}

/// What answers each action: every event of its kind, with nothing left out.
pub proof fn law_answers(action: Action, event: Event)
    ensures
        action.awaits().admits(event) <==> match action {
            Action::ReadClock => event matches Event::Clock(time) && time.valid(),
            Action::NoteUser(_) => event is Noted,
            Action::Render(_) => event is Text || event is Failed,
            Action::ReadErrors => event is Text,
            Action::ReadLine => event is Line || event is EndOfOutput || event is Failed,
            Action::AwaitDownload | Action::Encode(_) => event is Exited || event is Failed,
            Action::Probe(_) => event is Present,
            Action::Measure(_) => event is Size || event is Failed,
            Action::WriteAside(_, _)
            | Action::Publish(_)
            | Action::Reply(_)
            | Action::OpenNotice(_)
            | Action::StartDownload(_)
            | Action::Upload(_) => event is Done || event is Failed,
            Action::Finish(_) => false,
            Action::Authorize
            | Action::AppendLog(_)
            | Action::CountDownload(_)
            | Action::Lock(_)
            | Action::Unlock(_)
            | Action::EditNotice(_)
            | Action::CloseNotice
            | Action::Remove(_) => event is Done,
        },
{
}

} // verus!
