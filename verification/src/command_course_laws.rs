//! The course of handling a command, answer by answer: whatever was asked for,
//! and however it is answered, what is asked for next. Each law speaks of every
//! run that has come to the action it names.
use vstd::prelude::*;

use crate::bookkeeping::{GrantStep, NoteStep};
use crate::clock::UtcTime;
use crate::command_laws::{command_lawful, command_run, law_command_answers_fit};
use crate::handlers::{command_next, CommandRequest, CommandStep, SystemCommand};
use crate::messages::{BotError, Message};
use crate::protocol::{Action, Event, SaveStep};
use crate::storage::Document;

verus! {

/// The event may come, and the action follows on it.
pub open spec fn command_leads_to(
    request: CommandRequest,
    events: Seq<Event>,
    event: Event,
    action: Action,
) -> bool {
    command_lawful(request, events.push(event)) && command_run(request, events.push(event)).1
        == action
}

/// What of a run bears on its further course.
pub ghost struct CommandDiary {
    /// The last change to the users.
    pub change: Option<Action>,
    /// What the saving of that change has failed with.
    pub failure: Option<String>,
}

/// The diary with one more answer in it.
pub open spec fn command_entry(diary: CommandDiary, action: Action, event: Event) -> CommandDiary {
    match (action, event) {
        (Action::NoteUser(_), _) => CommandDiary { change: Some(action), failure: None },
        (Action::Authorize, _) => CommandDiary { change: Some(action), failure: None },
        (Action::Render(_), Event::Failed(cause)) => CommandDiary {
            failure: Some(cause),
            ..diary
        },
        (Action::WriteAside(_, _), Event::Failed(cause)) => CommandDiary {
            failure: Some(cause),
            ..diary
        },
        (Action::Publish(_), Event::Failed(cause)) => CommandDiary {
            failure: Some(cause),
            ..diary
        },
        _ => diary,
    }
}

/// The diary of a run.
pub open spec fn command_diary(request: CommandRequest, events: Seq<Event>) -> CommandDiary
    decreases events.len(),
{
    if events.len() == 0 {
        CommandDiary { change: None, failure: None }
    } else {
        command_entry(
            command_diary(request, events.drop_last()),
            command_run(request, events.drop_last()).1,
            events.last(),
        )
    }
}

/// The action is one that a step of saving the users asks for.
spec fn save_fits(step: SaveStep, action: Action) -> bool {
    match step {
        SaveStep::Locking => action == Action::Lock(Document::Users),
        SaveStep::Rendering => action == Action::Render(Document::Users),
        SaveStep::Writing => action matches Action::WriteAside(d, _) && d == Document::Users,
        SaveStep::Publishing => action == Action::Publish(Document::Users),
        SaveStep::Unlocking(_) => action == Action::Unlock(Document::Users),
    }
}

/// How the saving has fared by a step of it.
spec fn save_known(step: SaveStep, failure: Option<String>) -> bool {
    match step {
        SaveStep::Unlocking(cause) => failure == cause,
        _ => failure is None,
    }
}

/// What the step asks for, and what the diary says by then.
spec fn known(step: CommandStep, action: Action, diary: CommandDiary) -> bool {
    match step {
        CommandStep::Note(NoteStep::Clock) => action == Action::ReadClock,
        CommandStep::Note(NoteStep::Update) => action is NoteUser,
        CommandStep::Note(NoteStep::Save(_, saving)) => {
            &&& save_fits(saving, action)
            &&& save_known(saving, diary.failure)
            &&& diary.change matches Some(Action::NoteUser(_))
        },
        CommandStep::Grant(GrantStep::Update) => action == Action::Authorize,
        CommandStep::Grant(GrantStep::Save(saving)) => {
            &&& save_fits(saving, action)
            &&& save_known(saving, diary.failure)
            &&& diary.change == Some(Action::Authorize)
        },
        CommandStep::Answer => action is Reply,
        CommandStep::Over => action is Finish,
    }
}

proof fn lemma_step_known(
    request: CommandRequest,
    step: CommandStep,
    action: Action,
    event: Event,
    diary: CommandDiary,
)
    requires
        step.awaits().admits(event),
        known(step, action, diary),
    ensures
        ({
            let (next, asked) = command_next(request, step, event);
            known(next, asked, command_entry(diary, action, event))
        }),
{
}

proof fn lemma_known(request: CommandRequest, events: Seq<Event>)
    requires
        command_lawful(request, events),
    ensures
        known(
            command_run(request, events).0,
            command_run(request, events).1,
            command_diary(request, events),
        ),
    decreases events.len(),
{
    if events.len() > 0 {
        let before = events.drop_last();
        lemma_known(request, before);
        law_command_answers_fit(request, before);
        let (step, action) = command_run(request, before);
        lemma_step_known(request, step, action, events.last(), command_diary(request, before));
    }
}

/// One more answer is one more step.
proof fn lemma_next(request: CommandRequest, events: Seq<Event>, event: Event)
    requires
        command_lawful(request, events),
        command_run(request, events).1.awaits().admits(event),
    ensures
        command_lawful(request, events.push(event)),
        command_run(request, events.push(event)) == command_next(
            request,
            command_run(request, events).0,
            event,
        ),
        known(
            command_run(request, events).0,
            command_run(request, events).1,
            command_diary(request, events),
        ),
{
    lemma_known(request, events);
    assert(events.push(event).drop_last() == events);
}

/// The handling begins with the clock, and notes the sender at its time.
pub proof fn law_command_begins_with_noting(request: CommandRequest, now: UtcTime)
    requires
        now.valid(),
    ensures
        command_run(request, Seq::empty()).1 == Action::ReadClock,
        command_leads_to(request, Seq::empty(), Event::Clock(now), Action::NoteUser(now)),
{
    lemma_next(request, Seq::empty(), Event::Clock(now));
}

/// What is noted, and access that is given, is saved with the users.
pub proof fn law_command_changes_are_saved(
    request: CommandRequest,
    events: Seq<Event>,
    access: bool,
)
    requires
        command_lawful(request, events),
    ensures
        command_run(request, events).1 is NoteUser ==> command_leads_to(
            request,
            events,
            Event::Noted(access),
            Action::Lock(Document::Users),
        ),
        command_run(request, events).1 is Authorize ==> command_leads_to(
            request,
            events,
            Event::Done,
            Action::Lock(Document::Users),
        ),
{
    if command_run(request, events).1 is NoteUser {
        lemma_next(request, events, Event::Noted(access));
    }
    if command_run(request, events).1 is Authorize {
        lemma_next(request, events, Event::Done);
    }
}

/// The users are locked, rendered, written aside as they were rendered, put in
/// place and unlocked; what fails on the way leads straight to the unlocking.
pub proof fn law_command_saving(
    request: CommandRequest,
    events: Seq<Event>,
    data: String,
    cause: String,
)
    requires
        command_lawful(request, events),
    ensures
        ({
            let failed = Event::Failed(cause);
            let unlock = Action::Unlock(Document::Users);
            match command_run(request, events).1 {
                Action::Lock(_) => command_leads_to(
                    request,
                    events,
                    Event::Done,
                    Action::Render(Document::Users),
                ),
                Action::Render(_) => command_leads_to(
                    request,
                    events,
                    Event::Text(data),
                    Action::WriteAside(Document::Users, data),
                ) && command_leads_to(request, events, failed, unlock),
                Action::WriteAside(_, _) => command_leads_to(
                    request,
                    events,
                    Event::Done,
                    Action::Publish(Document::Users),
                ) && command_leads_to(request, events, failed, unlock),
                Action::Publish(_) => command_leads_to(request, events, Event::Done, unlock)
                    && command_leads_to(request, events, failed, unlock),
                _ => true,
            }
        }),
{
    match command_run(request, events).1 {
        Action::Lock(_) => {
            lemma_next(request, events, Event::Done);
        },
        Action::Render(_) => {
            lemma_next(request, events, Event::Text(data));
            lemma_next(request, events, Event::Failed(cause));
        },
        Action::WriteAside(_, _) | Action::Publish(_) => {
            lemma_next(request, events, Event::Done);
            lemma_next(request, events, Event::Failed(cause));
        },
        _ => {},
    }
}

/// What comes of a save once the users are unlocked. Where it has failed, that
/// ends the handling. Where it has not, a noting leads to the greeting by name,
/// to the help, or for a login to access if the two passwords are the same text
/// and to the rejection if they are not; and access that was given leads to the
/// message that says so.
pub proof fn law_command_saved(request: CommandRequest, events: Seq<Event>)
    requires
        command_lawful(request, events),
        command_run(request, events).1 is Unlock,
    ensures
        ({
            let past = command_diary(request, events);
            match (past.change, past.failure) {
                (Some(_), Some(cause)) => command_leads_to(
                    request,
                    events,
                    Event::Done,
                    Action::Finish(Err(BotError::Failed(cause))),
                ),
                (Some(Action::NoteUser(_)), None) => command_leads_to(
                    request,
                    events,
                    Event::Done,
                    match request.command {
                        SystemCommand::Start => Action::Reply(
                            Message::Welcome(request.user.first_name),
                        ),
                        SystemCommand::Help => Action::Reply(Message::Help),
                        SystemCommand::Login(attempt) => if attempt@ == request.password@ {
                            Action::Authorize
                        } else {
                            Action::Reply(Message::LoginRejected)
                        },
                    },
                ),
                (Some(Action::Authorize), None) => command_leads_to(
                    request,
                    events,
                    Event::Done,
                    Action::Reply(Message::LoginAccepted),
                ),
                _ => false,
            }
        }),
{
    lemma_next(request, events, Event::Done);
}

/// A message that is sent ends the handling well, and one that is not ends it
/// with the failure.
pub proof fn law_command_reply_ends(request: CommandRequest, events: Seq<Event>, cause: String)
    requires
        command_lawful(request, events),
        command_run(request, events).1 is Reply,
    ensures
        command_leads_to(request, events, Event::Done, Action::Finish(Ok(()))),
        command_leads_to(
            request,
            events,
            Event::Failed(cause),
            Action::Finish(Err(BotError::Failed(cause))),
        ),
{
    lemma_next(request, events, Event::Done);
    lemma_next(request, events, Event::Failed(cause));
}

/// A login with another text than the password never leads to access, and one
/// with the password is never rejected.
pub proof fn law_password_decides(request: CommandRequest, events: Seq<Event>, attempt: String)
    requires
        command_lawful(request, events),
        request.command == SystemCommand::Login(attempt),
    ensures
        attempt@ != request.password@ ==> command_run(request, events).1 !is Authorize,
        attempt@ == request.password@ ==> command_run(request, events).1 != Action::Reply(
            Message::LoginRejected,
        ),
{
    if events.len() > 0 {
        let before = events.drop_last();
        law_command_answers_fit(request, before);
        lemma_known(request, before);
    }
}

} // verus!
