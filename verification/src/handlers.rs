//! Handling a message: a command, or a text with a link.
use vstd::prelude::*;

use crate::bookkeeping::{grant_access, grant_next, note_next, note_sender, GrantStep, NoteStep};
use crate::links::{is_supported_url, supported};
use crate::messages::{BotError, Message};
use crate::pipeline::{execute_pipeline, pipeline_next, PipelineStep};
use crate::protocol::{Action, Event, Flow, Wait};
use crate::state::User;
use crate::text::{decimal, decimal_text, trim, trimmed};

verus! {

/// A command to the bot.
pub enum SystemCommand {
    Start,
    Help,
    /// With the password.
    Login(String),
}

/// A command, with who sent it and the password of the bot.
pub struct CommandRequest {
    pub user: User,
    pub uid_key: String,
    pub command: SystemCommand,
    pub password: String,
}

/// A text, with who sent it, the cookie file of the downloader, and the most
/// bytes that a video may have.
pub struct UrlRequest {
    pub user: User,
    pub uid_key: String,
    pub url: String,
    pub cookies: Option<String>,
    pub limit: u64,
}

/// The steps of handling a command.
pub enum CommandStep {
    /// The sender is noted.
    Note(NoteStep),
    /// The sender is given access.
    Grant(GrantStep),
    /// The last message is sent.
    Answer,
    Over,
}

/// The steps of handling a text.
pub enum UrlStep {
    /// The sender is noted.
    Note(NoteStep),
    /// The notice on the download is sent.
    Open,
    /// The download runs.
    Pipeline(PipelineStep),
    /// The download has failed, and the notice is deleted.
    Abort(BotError),
    /// The last message is sent.
    Answer,
    Over,
}

impl CommandStep {
    pub open spec fn awaits(self) -> Wait {
        match self {
            CommandStep::Note(step) => step.awaits(),
            CommandStep::Grant(step) => step.awaits(),
            CommandStep::Answer => Wait::Outcome,
            CommandStep::Over => Wait::Nothing,
        }
    }
}

impl UrlStep {
    pub open spec fn awaits(self) -> Wait {
        match self {
            UrlStep::Note(step) => step.awaits(),
            UrlStep::Open => Wait::Outcome,
            UrlStep::Pipeline(step) => step.awaits(),
            UrlStep::Abort(_) => Wait::Done,
            UrlStep::Answer => Wait::Outcome,
            UrlStep::Over => Wait::Nothing,
        }
    }
}

/// Takes up a command. It needs a sender.
pub fn receive_command(user: Option<User>, command: SystemCommand, password: String) -> (r: Result<
    CommandRequest,
    BotError,
>)
    ensures
        match user {
            Some(user) => r matches Ok(request) && request.user == user && request.uid_key@
                == decimal(user.id as nat) && request.command == command && request.password
                == password,
            None => r == Err::<CommandRequest, _>(BotError::MissingUser),
        },
{
    match user {
        Some(user) => {
            let uid_key = decimal_text(user.id);
            Ok(CommandRequest { user, uid_key, command, password })
        },
        None => Err(BotError::MissingUser),
    }
}

/// Takes up a message that is no command. Without text it is passed over;
/// otherwise it needs a sender. White space around the text does not count.
pub fn receive_text(
    text: Option<&str>,
    user: Option<User>,
    cookies: Option<String>,
    limit: u64,
) -> (r: Result<Option<UrlRequest>, BotError>)
    ensures
        match (text, user) {
            (None, _) => r == Ok::<Option<UrlRequest>, BotError>(None),
            (Some(_), None) => r == Err::<Option<UrlRequest>, _>(BotError::MissingUser),
            (Some(text), Some(user)) => r matches Ok(Some(request)) && request.user == user
                && request.uid_key@ == decimal(user.id as nat) && request.url@ == trimmed(text@)
                && request.cookies == cookies && request.limit == limit,
        },
{
    match (text, user) {
        (None, _) => Ok(None),
        (Some(_), None) => Err(BotError::MissingUser),
        (Some(text), Some(user)) => {
            let uid_key = decimal_text(user.id);
            let url = trim(text);
            Ok(Some(UrlRequest { user, uid_key, url, cookies, limit }))
        },
    }
}

/// How the handling of a command begins.
pub open spec fn command_begins() -> (CommandStep, Action) {
    (CommandStep::Note(NoteStep::Clock), Action::ReadClock)
}

/// How the handling of a text begins.
pub open spec fn url_begins() -> (UrlStep, Action) {
    (UrlStep::Note(NoteStep::Clock), Action::ReadClock)
}

/// Handling a command: from a step, and the event that answers its action, to
/// the next step and its action. The sender is noted first; a login with the
/// right password gives access; an answer ends it.
pub open spec fn command_next(request: CommandRequest, step: CommandStep, event: Event) -> (
    CommandStep,
    Action,
) {
    match (step, event) {
        (CommandStep::Note(noting), event) => match note_next(noting, event) {
            Flow::Next(noting, action) => (CommandStep::Note(noting), action),
            Flow::Done(_) => match request.command {
                SystemCommand::Start => (
                    CommandStep::Answer,
                    Action::Reply(Message::Welcome(request.user.first_name)),
                ),
                SystemCommand::Help => (CommandStep::Answer, Action::Reply(Message::Help)),
                SystemCommand::Login(attempt) => if attempt@ == request.password@ {
                    (CommandStep::Grant(GrantStep::Update), Action::Authorize)
                } else {
                    (CommandStep::Answer, Action::Reply(Message::LoginRejected))
                },
            },
            Flow::Lost(error) => (CommandStep::Over, Action::Finish(Err(error))),
        },
        (CommandStep::Grant(granting), event) => match grant_next(granting, event) {
            Flow::Next(granting, action) => (CommandStep::Grant(granting), action),
            Flow::Done(_) => (CommandStep::Answer, Action::Reply(Message::LoginAccepted)),
            Flow::Lost(error) => (CommandStep::Over, Action::Finish(Err(error))),
        },
        (CommandStep::Answer, Event::Failed(cause)) => (
            CommandStep::Over,
            Action::Finish(Err(BotError::Failed(cause))),
        ),
        (CommandStep::Answer, _) => (CommandStep::Over, Action::Finish(Ok(()))),
        _ => arbitrary(),
    }
}

/// Handling a text: from a step, and the event that answers its action, to the
/// next step and its action. The sender is noted first. Without access, or for
/// a link that is not supported, an answer ends it. Otherwise the download
/// runs, and if it fails the answer says why.
pub open spec fn url_next(request: UrlRequest, step: UrlStep, event: Event) -> (UrlStep, Action) {
    match (step, event) {
        (UrlStep::Note(noting), event) => match note_next(noting, event) {
            Flow::Next(noting, action) => (UrlStep::Note(noting), action),
            Flow::Done(may_use) => if !may_use {
                (UrlStep::Answer, Action::Reply(Message::AccessDenied))
            } else if !supported(request.url@) {
                (UrlStep::Answer, Action::Reply(Message::UnsupportedLink))
            } else {
                (UrlStep::Open, Action::OpenNotice(Message::Starting))
            },
            Flow::Lost(error) => (UrlStep::Over, Action::Finish(Err(error))),
        },
        (UrlStep::Open, Event::Failed(cause)) => (
            UrlStep::Over,
            Action::Finish(Err(BotError::Failed(cause))),
        ),
        (UrlStep::Open, _) => (UrlStep::Pipeline(PipelineStep::Clock), Action::ReadClock),
        (UrlStep::Pipeline(running), event) => match pipeline_next(
            request.limit,
            running,
            event,
        ) {
            Flow::Next(running, action) => (UrlStep::Pipeline(running), action),
            Flow::Done(_) => (UrlStep::Over, Action::Finish(Ok(()))),
            Flow::Lost(error) => (UrlStep::Abort(error), Action::CloseNotice),
        },
        (UrlStep::Abort(error), _) => (
            UrlStep::Answer,
            Action::Reply(Message::PipelineFailed(error)),
        ),
        (UrlStep::Answer, Event::Failed(cause)) => (
            UrlStep::Over,
            Action::Finish(Err(BotError::Failed(cause))),
        ),
        (UrlStep::Answer, _) => (UrlStep::Over, Action::Finish(Ok(()))),
        _ => arbitrary(),
    }
}

/// How the handling of a command begins.
pub fn begin_command() -> (r: (CommandStep, Action))
    ensures
        r == command_begins(),
{
    (CommandStep::Note(NoteStep::Clock), Action::ReadClock)
}

/// How the handling of a text begins.
pub fn begin_url_message() -> (r: (UrlStep, Action))
    ensures
        r == url_begins(),
{
    (UrlStep::Note(NoteStep::Clock), Action::ReadClock)
}

/// One step of handling a command.
pub fn handle_command(request: &CommandRequest, step: CommandStep, event: Event) -> (r: (
    CommandStep,
    Action,
))
    requires
        step.awaits().admits(event),
    ensures
        r == command_next(*request, step, event),
{
    match (step, event) {
        (CommandStep::Note(noting), event) => match note_sender(noting, event) {
            Flow::Next(noting, action) => (CommandStep::Note(noting), action),
            Flow::Done(_) => match &request.command {
                SystemCommand::Start => (
                    CommandStep::Answer,
                    Action::Reply(Message::Welcome(request.user.first_name.clone())),
                ),
                SystemCommand::Help => (CommandStep::Answer, Action::Reply(Message::Help)),
                SystemCommand::Login(attempt) => if *attempt == request.password {
                    (CommandStep::Grant(GrantStep::Update), Action::Authorize)
                } else {
                    (CommandStep::Answer, Action::Reply(Message::LoginRejected))
                },
            },
            Flow::Lost(error) => (CommandStep::Over, Action::Finish(Err(error))),
        },
        (CommandStep::Grant(granting), event) => match grant_access(granting, event) {
            Flow::Next(granting, action) => (CommandStep::Grant(granting), action),
            Flow::Done(_) => (CommandStep::Answer, Action::Reply(Message::LoginAccepted)),
            Flow::Lost(error) => (CommandStep::Over, Action::Finish(Err(error))),
        },
        (CommandStep::Answer, Event::Failed(cause)) => (
            CommandStep::Over,
            Action::Finish(Err(BotError::Failed(cause))),
        ),
        (CommandStep::Answer, _) => (CommandStep::Over, Action::Finish(Ok(()))),
        _ => vstd::pervasive::unreached(),
    }
}

/// One step of handling a text.
pub fn handle_url_message(request: &UrlRequest, step: UrlStep, event: Event) -> (r: (
    UrlStep,
    Action,
))
    requires
        step.awaits().admits(event),
    ensures
        r == url_next(*request, step, event),
{
    match (step, event) {
        (UrlStep::Note(noting), event) => match note_sender(noting, event) {
            Flow::Next(noting, action) => (UrlStep::Note(noting), action),
            Flow::Done(may_use) => if !may_use {
                (UrlStep::Answer, Action::Reply(Message::AccessDenied))
            } else if !is_supported_url(request.url.as_str()) {
                (UrlStep::Answer, Action::Reply(Message::UnsupportedLink))
            } else {
                (UrlStep::Open, Action::OpenNotice(Message::Starting))
            },
            Flow::Lost(error) => (UrlStep::Over, Action::Finish(Err(error))),
        },
        (UrlStep::Open, Event::Failed(cause)) => (
            UrlStep::Over,
            Action::Finish(Err(BotError::Failed(cause))),
        ),
        (UrlStep::Open, _) => (UrlStep::Pipeline(PipelineStep::Clock), Action::ReadClock),
        (UrlStep::Pipeline(running), event) => match execute_pipeline(
            request.limit,
            running,
            event,
        ) {
            Flow::Next(running, action) => (UrlStep::Pipeline(running), action),
            Flow::Done(_) => (UrlStep::Over, Action::Finish(Ok(()))),
            Flow::Lost(error) => (UrlStep::Abort(error), Action::CloseNotice),
        },
        (UrlStep::Abort(error), _) => (
            UrlStep::Answer,
            Action::Reply(Message::PipelineFailed(error)),
        ),
        (UrlStep::Answer, Event::Failed(cause)) => (
            UrlStep::Over,
            Action::Finish(Err(BotError::Failed(cause))),
        ),
        (UrlStep::Answer, _) => (UrlStep::Over, Action::Finish(Ok(()))),
        _ => vstd::pervasive::unreached(),
    }
}

} // verus!
