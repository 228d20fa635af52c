//! What holds of the handling of a command as a whole, whatever the world
//! answers.
use vstd::prelude::*;

use crate::bookkeeping::{GrantStep, NoteStep};
use crate::clock::UtcTime;
use crate::handlers::{command_begins, command_next, CommandRequest, CommandStep, SystemCommand};
use crate::messages::Message;
use crate::protocol::{goes_with, held_then, lock_action, Action, Event, SaveStep};
use crate::requests::command_users_then;
use crate::state::{may_use, Users};
use crate::storage::Document;

verus! {

/// Where the handling of a command stands after these events, and what it asks
/// for.
pub open spec fn command_run(request: CommandRequest, events: Seq<Event>) -> (CommandStep, Action)
    decreases events.len(),
{
    if events.len() == 0 {
        command_begins()
    } else {
        command_next(request, command_run(request, events.drop_last()).0, events.last())
    }
}

/// Every event answers what was asked for.
pub open spec fn command_lawful(request: CommandRequest, events: Seq<Event>) -> bool
    decreases events.len(),
{
    events.len() > 0 ==> {
        &&& command_lawful(request, events.drop_last())
        &&& command_run(request, events.drop_last()).1.awaits().admits(events.last())
    }
}

/// The command is a login with the password of the bot.
pub open spec fn right_password(request: CommandRequest) -> bool {
    request.command matches SystemCommand::Login(attempt) && attempt@ == request.password@
}

/// Whoever answers an action as it asks for gives the step an event that it
/// waits for.
pub proof fn law_command_answers_fit(request: CommandRequest, events: Seq<Event>)
    requires
        command_lawful(request, events),
    ensures
        command_run(request, events).0.awaits() == command_run(request, events).1.awaits(),
    decreases events.len(),
{
    if events.len() > 0 {
        law_command_answers_fit(request, events.drop_last());
    }
}

proof fn lemma_granting(request: CommandRequest, events: Seq<Event>)
    requires
        command_lawful(request, events),
        command_run(request, events).0 is Grant,
    ensures
        right_password(request),
    decreases events.len(),
{
    if events.len() > 0 {
        let before = events.drop_last();
        law_command_answers_fit(request, before);
        if command_run(request, before).0 is Grant {
            lemma_granting(request, before);
        }
    }
}

/// Access is given, and a login is answered as accepted, only for the right
/// password.
pub proof fn law_access_needs_password(request: CommandRequest, events: Seq<Event>)
    requires
        command_lawful(request, events),
        command_run(request, events).1 is Authorize || command_run(request, events).1
            == Action::Reply(Message::LoginAccepted),
    ensures
        right_password(request),
{
    let before = events.drop_last();
    law_command_answers_fit(request, before);
    if command_run(request, before).0 is Grant {
        lemma_granting(request, before);
    }
}

/// The answers of a world in which all goes well, up to the saving of the users
/// with the sender among them.
pub open spec fn good_noting(now: UtcTime, may_use: bool, users: String) -> Seq<Event> {
    seq![
        Event::Clock(now),
        Event::Noted(may_use),
        Event::Done,
        Event::Text(users),
        Event::Done,
        Event::Done,
        Event::Done,
    ]
}

proof fn lemma_command_push(request: CommandRequest, events: Seq<Event>, event: Event)
    requires
        command_lawful(request, events),
        command_run(request, events).1.awaits().admits(event),
    ensures
        command_lawful(request, events.push(event)),
        command_run(request, events.push(event)) == command_next(
            request,
            command_run(request, events).0,
            event,
        ),
{
    assert(events.push(event).drop_last() == events);
}

/// Where all goes well, each command gets its answer: a greeting by name, the
/// help, or, for a login, access where the password is right and a refusal where
/// it is not. Whether the sender had access before makes no difference.
pub proof fn law_commands_are_answered(
    request: CommandRequest,
    now: UtcTime,
    may_use: bool,
    users: String,
)
    requires
        now.valid(),
    ensures
        command_lawful(request, good_noting(now, may_use, users)),
        command_run(request, good_noting(now, may_use, users)).1 == (match request.command {
            SystemCommand::Start => Action::Reply(Message::Welcome(request.user.first_name)),
            SystemCommand::Help => Action::Reply(Message::Help),
            SystemCommand::Login(_) => if right_password(request) {
                Action::Authorize
            } else {
                Action::Reply(Message::LoginRejected)
            },
        }),
{
    let e0 = Seq::<Event>::empty();
    lemma_command_push(request, e0, Event::Clock(now));
    let e1 = e0.push(Event::Clock(now));
    lemma_command_push(request, e1, Event::Noted(may_use));
    let e2 = e1.push(Event::Noted(may_use));
    lemma_command_push(request, e2, Event::Done);
    let e3 = e2.push(Event::Done);
    lemma_command_push(request, e3, Event::Text(users));
    let e4 = e3.push(Event::Text(users));
    lemma_command_push(request, e4, Event::Done);
    let e5 = e4.push(Event::Done);
    lemma_command_push(request, e5, Event::Done);
    let e6 = e5.push(Event::Done);
    lemma_command_push(request, e6, Event::Done);
    assert(good_noting(now, may_use, users) == e6.push(Event::Done));
}

/// Where all goes well, a login with the right password is saved and then
/// answered as accepted.
pub proof fn law_logins_are_saved(
    request: CommandRequest,
    now: UtcTime,
    may_use: bool,
    users: String,
    saved: String,
)
    requires
        now.valid(),
        right_password(request),
    ensures
        ({
            let all = good_noting(now, may_use, users) + seq![
                Event::Done,
                Event::Done,
                Event::Text(saved),
                Event::Done,
                Event::Done,
                Event::Done,
            ];
            command_lawful(request, all) && command_run(request, all) == (
                CommandStep::Answer,
                Action::Reply(Message::LoginAccepted),
            )
        }),
{
    law_commands_are_answered(request, now, may_use, users);
    let e0 = good_noting(now, may_use, users);
    lemma_login_granted(request, e0);
    lemma_command_push(request, e0, Event::Done);
    let e1 = e0.push(Event::Done);
    lemma_command_push(request, e1, Event::Done);
    let e2 = e1.push(Event::Done);
    lemma_command_push(request, e2, Event::Text(saved));
    let e3 = e2.push(Event::Text(saved));
    lemma_command_push(request, e3, Event::Done);
    let e4 = e3.push(Event::Done);
    lemma_command_push(request, e4, Event::Done);
    let e5 = e4.push(Event::Done);
    lemma_command_push(request, e5, Event::Done);
    assert(e0 + seq![
        Event::Done,
        Event::Done,
        Event::Text(saved),
        Event::Done,
        Event::Done,
        Event::Done,
    ] == e5.push(Event::Done));
}

/// Access is asked for in the one step that waits for it to be given.
proof fn lemma_login_granted(request: CommandRequest, events: Seq<Event>)
    requires
        command_lawful(request, events),
        command_run(request, events).1 is Authorize,
    ensures
        command_run(request, events).0 == CommandStep::Grant(GrantStep::Update),
{
    law_command_answers_fit(request, events.drop_last());
}

/// The step waits for the contents of the users to be written aside.
spec fn writing(step: CommandStep) -> bool {
    match step {
        CommandStep::Note(NoteStep::Save(_, SaveStep::Writing)) => true,
        CommandStep::Grant(GrantStep::Save(SaveStep::Writing)) => true,
        _ => false,
    }
}

proof fn lemma_step_writes(request: CommandRequest, step: CommandStep, event: Event)
    requires
        step.awaits().admits(event),
    ensures
        ({
            let (next, action) = command_next(request, step, event);
            &&& writing(next) ==> (action matches Action::WriteAside(aside, _) && aside
                == Document::Users)
            &&& action matches Action::Publish(document) ==> event is Done && writing(step)
                && document == Document::Users
        }),
{
}

/// A document is published only right after its contents were written aside
/// without failure.
pub proof fn law_command_written_before_published(
    request: CommandRequest,
    events: Seq<Event>,
    document: Document,
)
    requires
        command_lawful(request, events),
        command_run(request, events).1 == Action::Publish(document),
    ensures
        events.len() > 0,
        events.last() is Done,
        command_run(request, events.drop_last()).1 matches Action::WriteAside(aside, _) && aside
            == document,
{
    let before = events.drop_last();
    law_command_answers_fit(request, before);
    lemma_step_writes(request, command_run(request, before).0, events.last());
    assert(before.len() > 0);
    assert(command_lawful(request, before));
    law_command_answers_fit(request, before.drop_last());
    lemma_step_writes(request, command_run(request, before.drop_last()).0, before.last());
}

/// The most answers that a step of a command is away from its end.
spec fn command_rank(step: CommandStep) -> nat {
    match step {
        CommandStep::Note(NoteStep::Clock) => 14,
        CommandStep::Note(NoteStep::Update) => 13,
        CommandStep::Note(NoteStep::Save(_, saving)) => 7 + saving.rank(),
        CommandStep::Grant(GrantStep::Update) => 7,
        CommandStep::Grant(GrantStep::Save(saving)) => 1 + saving.rank(),
        CommandStep::Answer => 1,
        CommandStep::Over => 0,
    }
}

proof fn lemma_command_rank(request: CommandRequest, events: Seq<Event>)
    requires
        command_lawful(request, events),
    ensures
        events.len() + command_rank(command_run(request, events).0) <= 14,
    decreases events.len(),
{
    if events.len() > 0 {
        lemma_command_rank(request, events.drop_last());
        law_command_answers_fit(request, events.drop_last());
    }
}

/// The handling of a command comes to its end within fourteen answers.
pub proof fn law_command_handling_ends(request: CommandRequest, events: Seq<Event>)
    requires
        command_lawful(request, events),
    ensures
        events.len() <= 14,
{
    lemma_command_rank(request, events);
}

/// The users after a run, with the table changed as the run has asked.
pub open spec fn command_users_after(
    request: CommandRequest,
    users: Users,
    events: Seq<Event>,
) -> Users
    decreases events.len(),
{
    if events.len() == 0 {
        users
    } else {
        command_users_then(
            request,
            command_users_after(request, users, events.drop_last()),
            command_run(request, events.drop_last()).1,
        )
    }
}

/// The messages that a run has sent.
pub open spec fn messages_sent(request: CommandRequest, events: Seq<Event>) -> Seq<Message>
    decreases events.len(),
{
    if events.len() == 0 {
        Seq::empty()
    } else {
        let before = messages_sent(request, events.drop_last());
        match (command_run(request, events.drop_last()).1, events.last()) {
            (Action::Reply(message), Event::Done) => before.push(message),
            _ => before,
        }
    }
}

/// What a command is answered.
pub open spec fn answer_to(request: CommandRequest) -> Message {
    match request.command {
        SystemCommand::Start => Message::Welcome(request.user.first_name),
        SystemCommand::Help => Message::Help,
        SystemCommand::Login(_) => if right_password(request) {
            Message::LoginAccepted
        } else {
            Message::LoginRejected
        },
    }
}

/// By the time of a step: how the users differ from those before the run, and
/// what was sent.
spec fn done_so_far(
    request: CommandRequest,
    users: Users,
    here: (CommandStep, Action),
    after: Users,
    sent: Seq<Message>,
) -> bool {
    let key = request.uid_key@;
    let (step, action) = here;
    &&& same_but(users, after, key)
    &&& count_stays(users, after, key)
    &&& (step is Over) == (action is Finish)
    &&& action !is AppendLog && action !is CountDownload
    &&& after.contains_key(key) || after == users && (step matches CommandStep::Note(noting)
        && noting !is Save)
    &&& match step {
        CommandStep::Note(NoteStep::Clock) => after == users && sent.len() == 0 && action
            == Action::ReadClock,
        CommandStep::Note(NoteStep::Update) => after == users && sent.len() == 0
            && action is NoteUser,
        CommandStep::Note(_) => after.contains_key(key) && may_use(after, key) == may_use(
            users,
            key,
        ) && sent.len() == 0 && action !is Reply && action !is NoteUser && action !is Authorize,
        CommandStep::Grant(GrantStep::Update) => right_password(request) && after.contains_key(key)
            && sent.len() == 0 && action == Action::Authorize,
        CommandStep::Grant(_) => right_password(request) && may_use(after, key) && sent.len() == 0
            && action !is Reply && action !is NoteUser && action !is Authorize,
        CommandStep::Answer => action == Action::Reply(answer_to(request)) && sent.len() == 0
            && may_use(after, key) == (may_use(users, key) || right_password(request)),
        CommandStep::Over => match action {
            Action::Finish(Ok(_)) => sent == seq![answer_to(request)] && may_use(after, key) == (
            may_use(users, key) || right_password(request)),
            Action::Finish(Err(_)) => sent.len() == 0,
            _ => false,
        },
    }
}

/// The users are the same but for one.
pub open spec fn same_but(users: Users, after: Users, key: Seq<char>) -> bool {
    forall|other: Seq<char>|
        other != key ==> {
            &&& #[trigger] after.contains_key(other) == users.contains_key(other)
            &&& users.contains_key(other) ==> after[other] == users[other]
        }
}

/// The user has as many downloads as before, and none where they are new.
pub open spec fn count_stays(users: Users, after: Users, key: Seq<char>) -> bool {
    after.contains_key(key) ==> after[key].download_count == (if users.contains_key(key) {
        users[key].download_count
    } else {
        0
    })
}

proof fn lemma_done_so_far(request: CommandRequest, users: Users, events: Seq<Event>)
    requires
        command_lawful(request, events),
    ensures
        done_so_far(
            request,
            users,
            command_run(request, events),
            command_users_after(request, users, events),
            messages_sent(request, events),
        ),
    decreases events.len(),
{
    if events.len() > 0 {
        let before = events.drop_last();
        lemma_done_so_far(request, users, before);
        law_command_answers_fit(request, before);
        if messages_sent(request, before).len() == 0 {
            assert(messages_sent(request, before) =~= Seq::empty());
            assert(messages_sent(request, before).push(answer_to(request)) =~= seq![
                answer_to(request),
            ]);
        }
    }
}

/// What a command that succeeds has done: it has sent one message, its answer,
/// and changed nobody's access but the sender's, who has it if they had it
/// before or gave the right password. No other record is touched.
pub proof fn law_success_of_a_command(
    request: CommandRequest,
    users: Users,
    events: Seq<Event>,
    key: Seq<char>,
)
    requires
        command_lawful(request, events),
        command_run(request, events).1 == Action::Finish(Ok(())),
    ensures
        messages_sent(request, events) == seq![answer_to(request)],
        ({
            let after = command_users_after(request, users, events);
            &&& may_use(after, key) == (may_use(users, key) || (key == request.uid_key@
                && right_password(request)))
            &&& same_but(users, after, request.uid_key@)
        }),
{
    lemma_done_so_far(request, users, events);
    let after = command_users_after(request, users, events);
    if key == request.uid_key@ {
        assert(may_use(after, key) == (may_use(users, key) || right_password(request)));
    } else {
        assert(after.contains_key(key) == users.contains_key(key));
        assert(may_use(after, key) == may_use(users, key));
    }
}

/// Whatever becomes of a command, it sends at most one message, logs and counts
/// nothing, and gives access to nobody but the sender, and to them only for the
/// right password. Once it is over, those known are those known before and the
/// sender.
pub proof fn law_commands_do_no_more(
    request: CommandRequest,
    users: Users,
    events: Seq<Event>,
    key: Seq<char>,
)
    requires
        command_lawful(request, events),
    ensures
        messages_sent(request, events).len() <= 1,
        ({
            let after = command_users_after(request, users, events);
            &&& may_use(users, key) ==> may_use(after, key)
            &&& may_use(after, key) && !may_use(users, key) ==> key == request.uid_key@
                && right_password(request)
            &&& same_but(users, after, request.uid_key@)
            &&& count_stays(users, after, request.uid_key@)
            &&& command_run(request, events).1 is Finish ==> after.dom() == users.dom().insert(
                request.uid_key@,
            )
        }),
        command_run(request, events).1 !is AppendLog,
        command_run(request, events).1 !is CountDownload,
    decreases events.len(),
{
    lemma_done_so_far(request, users, events);
    if events.len() > 0 {
        let before = events.drop_last();
        law_commands_do_no_more(request, users, before, key);
        lemma_done_so_far(request, users, before);
        law_command_answers_fit(request, before);
    }
}

/// The document whose lock is held after a run.
pub open spec fn command_held(request: CommandRequest, events: Seq<Event>) -> Option<Document>
    decreases events.len(),
{
    if events.len() == 0 {
        None
    } else {
        held_then(
            command_held(request, events.drop_last()),
            command_run(request, events.drop_last()).1,
        )
    }
}

/// The document whose lock is held in a step.
spec fn held_in(step: CommandStep) -> Option<Document> {
    match step {
        CommandStep::Note(NoteStep::Save(_, saving)) if saving !is Locking => Some(Document::Users),
        CommandStep::Grant(GrantStep::Save(saving)) if saving !is Locking => Some(Document::Users),
        _ => None,
    }
}

/// The action that a step asks for, as far as locks go.
spec fn locks(step: CommandStep, action: Action) -> bool {
    match step {
        CommandStep::Note(NoteStep::Save(_, saving)) => lock_action(
            Document::Users,
            saving,
            action,
        ),
        CommandStep::Grant(GrantStep::Save(saving)) => lock_action(Document::Users, saving, action),
        _ => action !is Lock && action !is Unlock,
    }
}

proof fn lemma_step_locks(
    request: CommandRequest,
    step: CommandStep,
    action: Action,
    event: Event,
)
    requires
        step.awaits().admits(event),
        locks(step, action),
    ensures
        ({
            let (next, asked) = command_next(request, step, event);
            &&& locks(next, asked)
            &&& held_in(next) == held_then(held_in(step), action)
            &&& goes_with(held_in(next), asked)
        }),
{
}

proof fn lemma_command_held(request: CommandRequest, events: Seq<Event>)
    requires
        command_lawful(request, events),
    ensures
        locks(command_run(request, events).0, command_run(request, events).1),
        command_held(request, events) == held_in(command_run(request, events).0),
        goes_with(command_held(request, events), command_run(request, events).1),
    decreases events.len(),
{
    if events.len() > 0 {
        let before = events.drop_last();
        lemma_command_held(request, before);
        law_command_answers_fit(request, before);
        let (step, action) = command_run(request, before);
        lemma_step_locks(request, step, action, events.last());
    }
}

/// The users are rendered, written aside and published under their lock, which is
/// held only for that, and is not held in the end.
pub proof fn law_command_saved_under_lock(request: CommandRequest, events: Seq<Event>)
    requires
        command_lawful(request, events),
    ensures
        goes_with(command_held(request, events), command_run(request, events).1),
        command_run(request, events).1 is Finish ==> command_held(request, events) is None,
{
    lemma_command_held(request, events);
}

} // verus!
