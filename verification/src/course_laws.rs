//! The course of handling a text, answer by answer: whatever was asked for, and
//! however it is answered, what is asked for next. Each law speaks of every run
//! that has come to the action it names.
use vstd::prelude::*;

use crate::bookkeeping::{LogStep, NoteStep};
use crate::clock::UtcTime;
use crate::handlers::{UrlRequest, UrlStep};
use crate::links::supported;
use crate::media::{Media, MediaFile};
use crate::messages::{BotError, Message};
use crate::pipeline::PipelineStep;
use crate::protocol::{Action, Event, SaveStep};
use crate::storage::Document;
use crate::url_runs::{
    answered, law_answers_fit, lemma_answered_stays, lemma_last_turn, turn, url_lawful, url_run,
};

verus! {

/// The action that follows when the run is answered with the event.
pub open spec fn next_ask(request: UrlRequest, events: Seq<Event>, event: Event) -> Action {
    url_run(request, events.push(event)).1
}

/// The event may come, and the action follows on it.
pub open spec fn leads_to(
    request: UrlRequest,
    events: Seq<Event>,
    event: Event,
    action: Action,
) -> bool {
    url_lawful(request, events.push(event)) && next_ask(request, events, event) == action
}

/// The event may come, and ends the download with the error: the notice is
/// deleted, and then the error is told.
pub open spec fn loses(
    request: UrlRequest,
    events: Seq<Event>,
    event: Event,
    error: BotError,
) -> bool {
    &&& leads_to(request, events, event, Action::CloseNotice)
    &&& leads_to(
        request,
        events.push(event),
        Event::Done,
        Action::Reply(Message::PipelineFailed(error)),
    )
}

/// What of a run bears on its further course.
pub ghost struct Diary {
    /// What was said of the sender's access.
    pub access: Option<bool>,
    /// When the downloader was started.
    pub begun: Option<UtcTime>,
    /// The last change to a table.
    pub change: Option<Action>,
    /// What the saving of that change has failed with.
    pub failure: Option<String>,
}

/// The diary with one more answer in it.
pub open spec fn entry(diary: Diary, action: Action, event: Event) -> Diary {
    match (action, event) {
        (Action::NoteUser(_), Event::Noted(access)) => Diary {
            access: Some(access),
            change: Some(action),
            failure: None,
            ..diary
        },
        (Action::StartDownload(started), Event::Done) => Diary { begun: Some(started), ..diary },
        (Action::AppendLog(_), _) => Diary { change: Some(action), failure: None, ..diary },
        (Action::CountDownload(_), _) => Diary { change: Some(action), failure: None, ..diary },
        (Action::Render(_), Event::Failed(cause)) => Diary { failure: Some(cause), ..diary },
        (Action::WriteAside(_, _), Event::Failed(cause)) => Diary {
            failure: Some(cause),
            ..diary
        },
        (Action::Publish(_), Event::Failed(cause)) => Diary { failure: Some(cause), ..diary },
        _ => diary,
    }
}

/// The diary of a run.
pub open spec fn diary(request: UrlRequest, events: Seq<Event>) -> Diary
    decreases events.len(),
{
    if events.len() == 0 {
        Diary { access: None, begun: None, change: None, failure: None }
    } else {
        entry(
            diary(request, events.drop_last()),
            url_run(request, events.drop_last()).1,
            events.last(),
        )
    }
}

/// The action is one that a step of saving the document asks for.
spec fn save_fits(document: Document, step: SaveStep, action: Action) -> bool {
    match step {
        SaveStep::Locking => action == Action::Lock(document),
        SaveStep::Rendering => action == Action::Render(document),
        SaveStep::Writing => action matches Action::WriteAside(d, _) && d == document,
        SaveStep::Publishing => action == Action::Publish(document),
        SaveStep::Unlocking(_) => action == Action::Unlock(document),
    }
}

/// The action is one that the step asks for.
spec fn fits(step: UrlStep, action: Action) -> bool {
    match step {
        UrlStep::Note(NoteStep::Clock) => action == Action::ReadClock,
        UrlStep::Note(NoteStep::Update) => action is NoteUser,
        UrlStep::Note(NoteStep::Save(_, saving)) => save_fits(Document::Users, saving, action),
        UrlStep::Open => action == Action::OpenNotice(Message::Starting),
        UrlStep::Pipeline(running) => match running {
            PipelineStep::Clock => action == Action::ReadClock,
            PipelineStep::Start(started) => action == Action::StartDownload(started),
            PipelineStep::Read(_, _) => action == Action::ReadLine,
            PipelineStep::Edit(_, _) => action matches Action::EditNotice(Message::Downloading(_)),
            PipelineStep::Await(_) => action == Action::AwaitDownload,
            PipelineStep::Errors => action == Action::ReadErrors,
            PipelineStep::Probe(started) => action == Action::Probe(raw(started)),
            PipelineStep::Measure(started) => action == Action::Measure(raw(started)),
            PipelineStep::Announce(_) => action == Action::EditNotice(Message::Compressing),
            PipelineStep::Encode(started) => action == Action::Encode(started),
            PipelineStep::Remeasure(started) => action == Action::Measure(small(started)),
            PipelineStep::Discard(_) => action is Remove,
            PipelineStep::Replace(started) => action == Action::Remove(raw(started)),
            PipelineStep::Notify(_) => action == Action::EditNotice(Message::Uploading),
            PipelineStep::Upload(file) => action == Action::Upload(file),
            PipelineStep::Close => action == Action::CloseNotice,
            PipelineStep::Log(LogStep::Clock) => action == Action::ReadClock,
            PipelineStep::Log(LogStep::Append(now)) => action == Action::AppendLog(now),
            PipelineStep::Log(LogStep::SaveLogs(_, saving)) => save_fits(
                Document::Logs,
                saving,
                action,
            ),
            PipelineStep::Log(LogStep::Count) => action is CountDownload,
            PipelineStep::Log(LogStep::SaveUsers(saving)) => save_fits(
                Document::Users,
                saving,
                action,
            ),
        },
        UrlStep::Abort(_) => action == Action::CloseNotice,
        UrlStep::Answer => action is Reply,
        UrlStep::Over => action is Finish,
    }
}

/// The raw file of the download that began then.
pub open spec fn raw(started: UtcTime) -> MediaFile {
    MediaFile { media: Media::Raw, started }
}

/// The compressed file of the download that began then.
pub open spec fn small(started: UtcTime) -> MediaFile {
    MediaFile { media: Media::Compressed, started }
}

/// How the saving has fared by a step of it.
spec fn save_known(step: SaveStep, failure: Option<String>) -> bool {
    match step {
        SaveStep::Unlocking(cause) => failure == cause,
        _ => failure is None,
    }
}

/// What the diary says by the time of a step.
spec fn known(step: UrlStep, diary: Diary) -> bool {
    match step {
        UrlStep::Note(NoteStep::Save(access, saving)) => {
            &&& diary.access == Some(access)
            &&& diary.change matches Some(Action::NoteUser(_))
            &&& save_known(saving, diary.failure)
        },
        UrlStep::Pipeline(PipelineStep::Read(started, _)) => diary.begun == Some(started),
        UrlStep::Pipeline(PipelineStep::Edit(started, _)) => diary.begun == Some(started),
        UrlStep::Pipeline(PipelineStep::Await(started)) => diary.begun == Some(started),
        UrlStep::Pipeline(PipelineStep::Log(LogStep::SaveLogs(now, saving))) => diary.change
            == Some(Action::AppendLog(now)) && save_known(saving, diary.failure),
        UrlStep::Pipeline(PipelineStep::Log(LogStep::SaveUsers(saving))) => {
            &&& diary.change matches Some(Action::CountDownload(_))
            &&& save_known(saving, diary.failure)
        },
        _ => true,
    }
}

proof fn lemma_turn_known(
    request: UrlRequest,
    step: UrlStep,
    action: Action,
    event: Event,
    diary: Diary,
)
    requires
        step.awaits().admits(event),
        fits(step, action),
        known(step, diary),
    ensures
        ({
            let (next, asked) = turn(request, step, event);
            fits(next, asked) && known(next, entry(diary, action, event))
        }),
{
    reveal(turn);
}

proof fn lemma_known(request: UrlRequest, events: Seq<Event>)
    requires
        url_lawful(request, events),
    ensures
        fits(url_run(request, events).0, url_run(request, events).1),
        known(url_run(request, events).0, diary(request, events)),
    decreases events.len(),
{
    if events.len() > 0 {
        let before = events.drop_last();
        lemma_last_turn(request, events);
        lemma_known(request, before);
        let (step, action) = url_run(request, before);
        lemma_turn_known(request, step, action, events.last(), diary(request, before));
    }
}

/// One more answer is one more turn.
proof fn lemma_next(request: UrlRequest, events: Seq<Event>, event: Event)
    requires
        url_lawful(request, events),
        url_run(request, events).1.awaits().admits(event),
    ensures
        url_lawful(request, events.push(event)),
        url_run(request, events).0.awaits().admits(event),
        url_run(request, events.push(event)) == turn(request, url_run(request, events).0, event),
        fits(url_run(request, events).0, url_run(request, events).1),
        known(url_run(request, events).0, diary(request, events)),
{
    law_answers_fit(request, events);
    lemma_known(request, events);
    assert(events.push(event).drop_last() == events);
}

/// A download that is given up is told of.
proof fn lemma_loses(request: UrlRequest, events: Seq<Event>, event: Event, error: BotError)
    requires
        url_lawful(request, events.push(event)),
        url_run(request, events.push(event)) == (UrlStep::Abort(error), Action::CloseNotice),
    ensures
        loses(request, events, event, error),
{
    lemma_next(request, events.push(event), Event::Done);
    reveal(turn);
}

/// The handling begins with the clock, and notes the sender at its time.
pub proof fn law_begins_with_noting(request: UrlRequest, now: UtcTime)
    requires
        now.valid(),
    ensures
        url_run(request, Seq::empty()).1 == Action::ReadClock,
        leads_to(request, Seq::empty(), Event::Clock(now), Action::NoteUser(now)),
{
    lemma_next(request, Seq::empty(), Event::Clock(now));
    reveal(turn);
}

/// Once noted, the sender is saved with the users, whatever their access.
pub proof fn law_noting_is_saved(request: UrlRequest, events: Seq<Event>, access: bool)
    requires
        url_lawful(request, events),
        url_run(request, events).1 is NoteUser,
    ensures
        leads_to(request, events, Event::Noted(access), Action::Lock(Document::Users)),
{
    lemma_next(request, events, Event::Noted(access));
    reveal(turn);
}

/// A document is locked, rendered, written aside as it was rendered, put in place
/// and unlocked; what fails on the way leads straight to the unlocking.
pub proof fn law_saving(
    request: UrlRequest,
    events: Seq<Event>,
    document: Document,
    data: String,
    cause: String,
)
    requires
        url_lawful(request, events),
    ensures
        ({
            let failed = Event::Failed(cause);
            let unlock = Action::Unlock(document);
            match url_run(request, events).1 {
                Action::Lock(d) => d == document ==> leads_to(
                    request,
                    events,
                    Event::Done,
                    Action::Render(document),
                ),
                Action::Render(d) => d == document ==> leads_to(
                    request,
                    events,
                    Event::Text(data),
                    Action::WriteAside(document, data),
                ) && leads_to(request, events, failed, unlock),
                Action::WriteAside(d, _) => d == document ==> leads_to(
                    request,
                    events,
                    Event::Done,
                    Action::Publish(document),
                ) && leads_to(request, events, failed, unlock),
                Action::Publish(d) => d == document ==> leads_to(
                    request,
                    events,
                    Event::Done,
                    unlock,
                ) && leads_to(request, events, failed, unlock),
                _ => true,
            }
        }),
{
    match url_run(request, events).1 {
        Action::Lock(_) => {
            lemma_next(request, events, Event::Done);
            reveal(turn);
        },
        Action::Render(_) => {
            lemma_next(request, events, Event::Text(data));
            lemma_next(request, events, Event::Failed(cause));
            reveal(turn);
        },
        Action::WriteAside(_, _) | Action::Publish(_) => {
            lemma_next(request, events, Event::Done);
            lemma_next(request, events, Event::Failed(cause));
            reveal(turn);
        },
        _ => {},
    }
}

/// What comes of a save once the document is unlocked. Where it has failed, the
/// noting ends the handling with the failure, and the recording of a download is
/// told as its failure. Where it has not, a noting leads to the denial of those
/// without access, to the refusal of links that are not supported, and to the
/// opening of a notice for the rest; the entry in the log leads to the counting
/// at its own time, and the counting to a good end.
pub proof fn law_saved(request: UrlRequest, events: Seq<Event>)
    requires
        url_lawful(request, events),
        url_run(request, events).1 is Unlock,
    ensures
        ({
            let past = diary(request, events);
            match (past.change, past.failure) {
                (Some(Action::NoteUser(_)), Some(cause)) => leads_to(
                    request,
                    events,
                    Event::Done,
                    Action::Finish(Err(BotError::Failed(cause))),
                ),
                (Some(Action::NoteUser(_)), None) => leads_to(
                    request,
                    events,
                    Event::Done,
                    if past.access == Some(false) {
                        Action::Reply(Message::AccessDenied)
                    } else if !supported(request.url@) {
                        Action::Reply(Message::UnsupportedLink)
                    } else {
                        Action::OpenNotice(Message::Starting)
                    },
                ) && past.access is Some,
                (Some(Action::AppendLog(now)), None) => leads_to(
                    request,
                    events,
                    Event::Done,
                    Action::CountDownload(now),
                ),
                (Some(Action::CountDownload(_)), None) => leads_to(
                    request,
                    events,
                    Event::Done,
                    Action::Finish(Ok(())),
                ),
                (Some(Action::AppendLog(_)), Some(cause)) => loses(
                    request,
                    events,
                    Event::Done,
                    BotError::Failed(cause),
                ),
                (Some(Action::CountDownload(_)), Some(cause)) => loses(
                    request,
                    events,
                    Event::Done,
                    BotError::Failed(cause),
                ),
                _ => false,
            }
        }),
{
    lemma_next(request, events, Event::Done);
    reveal(turn);
    let past = diary(request, events);
    if !(past.change matches Some(Action::NoteUser(_))) {
        if let Some(cause) = past.failure {
            lemma_loses(request, events, Event::Done, BotError::Failed(cause));
        }
    }
}

/// Once the notice is out, the downloader is started at the time of the clock;
/// where it cannot be sent, the handling ends with the failure.
pub proof fn law_notice_is_out(
    request: UrlRequest,
    events: Seq<Event>,
    started: UtcTime,
    cause: String,
)
    requires
        url_lawful(request, events),
        url_run(request, events).1 is OpenNotice,
        started.valid(),
    ensures
        leads_to(request, events, Event::Done, Action::ReadClock),
        leads_to(
            request,
            events.push(Event::Done),
            Event::Clock(started),
            Action::StartDownload(started),
        ),
        leads_to(
            request,
            events,
            Event::Failed(cause),
            Action::Finish(Err(BotError::Failed(cause))),
        ),
{
    lemma_next(request, events, Event::Done);
    lemma_next(request, events, Event::Failed(cause));
    reveal(turn);
    lemma_next(request, events.push(Event::Done), Event::Clock(started));
}

/// Once the downloader runs its output is read; where it does not start, that is
/// what is told.
pub proof fn law_downloader_started(request: UrlRequest, events: Seq<Event>, cause: String)
    requires
        url_lawful(request, events),
        url_run(request, events).1 is StartDownload,
    ensures
        leads_to(request, events, Event::Done, Action::ReadLine),
        loses(request, events, Event::Failed(cause), BotError::DownloaderMissing),
{
    lemma_next(request, events, Event::Done);
    lemma_next(request, events, Event::Failed(cause));
    reveal(turn);
    lemma_loses(request, events, Event::Failed(cause), BotError::DownloaderMissing);
}

/// The output is read to its end. A line that reports nothing leads to the next;
/// one that reports a percentage leads there too, or to an update that shows it,
/// and from there to the next line. At the end the downloader is waited for.
pub proof fn law_output_is_read(
    request: UrlRequest,
    events: Seq<Event>,
    pct: String,
    at: u128,
    cause: String,
)
    requires
        url_lawful(request, events),
    ensures
        url_run(request, events).1 is ReadLine ==> {
            &&& leads_to(request, events, Event::Line(None, at), Action::ReadLine)
            &&& leads_to(request, events, Event::EndOfOutput, Action::AwaitDownload)
            &&& loses(request, events, Event::Failed(cause), BotError::Failed(cause))
            &&& leads_to(request, events, Event::Line(Some(pct), at), Action::ReadLine) || leads_to(
                request,
                events,
                Event::Line(Some(pct), at),
                Action::EditNotice(Message::Downloading(pct)),
            )
        },
        url_run(request, events).1 matches Action::EditNotice(Message::Downloading(_)) ==> leads_to(
            request,
            events,
            Event::Done,
            Action::ReadLine,
        ),
{
    if url_run(request, events).1 is ReadLine {
        lemma_next(request, events, Event::Line(None, at));
        lemma_next(request, events, Event::Line(Some(pct), at));
        lemma_next(request, events, Event::EndOfOutput);
        lemma_next(request, events, Event::Failed(cause));
        reveal(turn);
        lemma_loses(request, events, Event::Failed(cause), BotError::Failed(cause));
    }
    if url_run(request, events).1 matches Action::EditNotice(Message::Downloading(_)) {
        lemma_next(request, events, Event::Done);
        reveal(turn);
    }
}

/// A downloader that has succeeded leads to the raw file of the download that it
/// was started for; one that has failed leads to its error stream.
pub proof fn law_downloader_ended(request: UrlRequest, events: Seq<Event>, cause: String)
    requires
        url_lawful(request, events),
        url_run(request, events).1 is AwaitDownload,
    ensures
        diary(request, events).begun matches Some(started) && leads_to(
            request,
            events,
            Event::Exited(true),
            Action::Probe(raw(started)),
        ),
        leads_to(request, events, Event::Exited(false), Action::ReadErrors),
        loses(request, events, Event::Failed(cause), BotError::Failed(cause)),
{
    lemma_next(request, events, Event::Exited(true));
    lemma_next(request, events, Event::Exited(false));
    lemma_next(request, events, Event::Failed(cause));
    reveal(turn);
    lemma_loses(request, events, Event::Failed(cause), BotError::Failed(cause));
}

/// What the failed downloader has written to its error stream is told.
pub proof fn law_crash_is_told(request: UrlRequest, events: Seq<Event>, stderr: String)
    requires
        url_lawful(request, events),
        url_run(request, events).1 is ReadErrors,
    ensures
        loses(request, events, Event::Text(stderr), BotError::DownloaderCrashed(stderr)),
{
    lemma_next(request, events, Event::Text(stderr));
    reveal(turn);
    lemma_loses(request, events, Event::Text(stderr), BotError::DownloaderCrashed(stderr));
}

/// A file that is there is measured; that it is not there is told.
pub proof fn law_file_looked_for(request: UrlRequest, events: Seq<Event>, file: MediaFile)
    requires
        url_lawful(request, events),
        url_run(request, events).1 == Action::Probe(file),
    ensures
        leads_to(request, events, Event::Present(true), Action::Measure(file)),
        loses(request, events, Event::Present(false), BotError::MediaMissing),
{
    lemma_next(request, events, Event::Present(true));
    lemma_next(request, events, Event::Present(false));
    reveal(turn);
    lemma_loses(request, events, Event::Present(false), BotError::MediaMissing);
}

/// A raw file within the limit is announced and sent as it is; one over it is
/// announced and compressed.
pub proof fn law_raw_file_measured(
    request: UrlRequest,
    events: Seq<Event>,
    started: UtcTime,
    bytes: u64,
    cause: String,
)
    requires
        url_lawful(request, events),
        url_run(request, events).1 == Action::Measure(raw(started)),
    ensures
        bytes <= request.limit ==> {
            &&& leads_to(
                request,
                events,
                Event::Size(bytes),
                Action::EditNotice(Message::Uploading),
            )
            &&& leads_to(
                request,
                events.push(Event::Size(bytes)),
                Event::Done,
                Action::Upload(raw(started)),
            )
        },
        bytes > request.limit ==> {
            &&& leads_to(
                request,
                events,
                Event::Size(bytes),
                Action::EditNotice(Message::Compressing),
            )
            &&& leads_to(
                request,
                events.push(Event::Size(bytes)),
                Event::Done,
                Action::Encode(started),
            )
        },
        loses(request, events, Event::Failed(cause), BotError::Failed(cause)),
{
    lemma_next(request, events, Event::Size(bytes));
    lemma_next(request, events, Event::Failed(cause));
    reveal(turn);
    lemma_loses(request, events, Event::Failed(cause), BotError::Failed(cause));
    lemma_next(request, events.push(Event::Size(bytes)), Event::Done);
}

/// An encoder that has succeeded leads to the compressed file of its download;
/// one that has failed ends the download, whatever it has left behind.
pub proof fn law_encoder_ended(
    request: UrlRequest,
    events: Seq<Event>,
    started: UtcTime,
    cause: String,
)
    requires
        url_lawful(request, events),
        url_run(request, events).1 == Action::Encode(started),
    ensures
        leads_to(request, events, Event::Exited(true), Action::Measure(small(started))),
        loses(request, events, Event::Exited(false), BotError::EncoderFailed),
        loses(request, events, Event::Failed(cause), BotError::Failed(cause)),
{
    lemma_next(request, events, Event::Exited(true));
    lemma_next(request, events, Event::Exited(false));
    lemma_next(request, events, Event::Failed(cause));
    reveal(turn);
    lemma_loses(request, events, Event::Exited(false), BotError::EncoderFailed);
    lemma_loses(request, events, Event::Failed(cause), BotError::Failed(cause));
}

/// A compressed file within the limit takes the place of the raw one, is
/// announced, and is sent; one over it is deleted, and its size is told.
pub proof fn law_compressed_file_measured(
    request: UrlRequest,
    events: Seq<Event>,
    started: UtcTime,
    bytes: u64,
    cause: String,
)
    requires
        url_lawful(request, events),
        url_run(request, events).1 == Action::Measure(small(started)),
    ensures
        bytes <= request.limit ==> {
            let measured = events.push(Event::Size(bytes));
            &&& leads_to(request, events, Event::Size(bytes), Action::Remove(raw(started)))
            &&& leads_to(request, measured, Event::Done, Action::EditNotice(Message::Uploading))
            &&& leads_to(
                request,
                measured.push(Event::Done),
                Event::Done,
                Action::Upload(small(started)),
            )
        },
        bytes > request.limit ==> {
            let measured = events.push(Event::Size(bytes));
            &&& leads_to(request, events, Event::Size(bytes), Action::Remove(small(started)))
            &&& loses(request, measured, Event::Done, BotError::StillTooLarge(bytes))
        },
        loses(request, events, Event::Failed(cause), BotError::Failed(cause)),
{
    let measured = events.push(Event::Size(bytes));
    lemma_next(request, events, Event::Size(bytes));
    lemma_next(request, events, Event::Failed(cause));
    reveal(turn);
    lemma_loses(request, events, Event::Failed(cause), BotError::Failed(cause));
    lemma_next(request, measured, Event::Done);
    if bytes <= request.limit {
        lemma_next(request, measured.push(Event::Done), Event::Done);
    } else {
        lemma_loses(request, measured, Event::Done, BotError::StillTooLarge(bytes));
    }
}

/// Once a video is sent its notice is deleted, and the download is entered in the
/// log at the time of the clock and then saved; a video that does not arrive is
/// told of.
pub proof fn law_video_sent(request: UrlRequest, events: Seq<Event>, now: UtcTime, cause: String)
    requires
        url_lawful(request, events),
        url_run(request, events).1 is Upload,
        now.valid(),
    ensures
        ({
            let sent = events.push(Event::Done);
            let closed = sent.push(Event::Done);
            let timed = closed.push(Event::Clock(now));
            &&& leads_to(request, events, Event::Done, Action::CloseNotice)
            &&& leads_to(request, sent, Event::Done, Action::ReadClock)
            &&& leads_to(request, closed, Event::Clock(now), Action::AppendLog(now))
            &&& leads_to(request, timed, Event::Done, Action::Lock(Document::Logs))
        }),
        loses(request, events, Event::Failed(cause), BotError::UploadFailed),
{
    let sent = events.push(Event::Done);
    let closed = sent.push(Event::Done);
    let timed = closed.push(Event::Clock(now));
    lemma_next(request, events, Event::Done);
    lemma_next(request, events, Event::Failed(cause));
    reveal(turn);
    lemma_loses(request, events, Event::Failed(cause), BotError::UploadFailed);
    lemma_next(request, sent, Event::Done);
    lemma_next(request, closed, Event::Clock(now));
    lemma_next(request, timed, Event::Done);
}

/// What is counted is saved with the users.
pub proof fn law_count_is_saved(request: UrlRequest, events: Seq<Event>)
    requires
        url_lawful(request, events),
        url_run(request, events).1 is CountDownload,
    ensures
        leads_to(request, events, Event::Done, Action::Lock(Document::Users)),
{
    lemma_next(request, events, Event::Done);
    reveal(turn);
}

/// A message that is sent ends the handling well, and one that is not ends it
/// with the failure.
pub proof fn law_reply_ends(request: UrlRequest, events: Seq<Event>, cause: String)
    requires
        url_lawful(request, events),
        url_run(request, events).1 is Reply,
    ensures
        leads_to(request, events, Event::Done, Action::Finish(Ok(()))),
        leads_to(
            request,
            events,
            Event::Failed(cause),
            Action::Finish(Err(BotError::Failed(cause))),
        ),
{
    lemma_next(request, events, Event::Done);
    lemma_next(request, events, Event::Failed(cause));
    reveal(turn);
}

/// The encoder was run for the download that began then, and succeeded.
pub open spec fn encoded_well(request: UrlRequest, events: Seq<Event>, started: UtcTime) -> bool {
    exists|i: int| #[trigger]
        answered(request, events, i, Action::Encode(started), Event::Exited(true))
}

/// The download whose encoder has to have succeeded by the time of a step.
spec fn needs_encoder(step: UrlStep) -> Option<UtcTime> {
    match step {
        UrlStep::Pipeline(PipelineStep::Remeasure(started)) => Some(started),
        UrlStep::Pipeline(PipelineStep::Replace(started)) => Some(started),
        UrlStep::Pipeline(PipelineStep::Notify(file)) if file.media is Compressed => Some(
            file.started,
        ),
        UrlStep::Pipeline(PipelineStep::Upload(file)) if file.media is Compressed => Some(
            file.started,
        ),
        _ => None,
    }
}

proof fn lemma_turn_needs_encoder(request: UrlRequest, step: UrlStep, event: Event)
    requires
        step.awaits().admits(event),
    ensures
        needs_encoder(turn(request, step, event).0) matches Some(started) ==> needs_encoder(step)
            == Some(started) || step == UrlStep::Pipeline(PipelineStep::Encode(started)) && event
            == Event::Exited(true),
{
    reveal(turn);
}

proof fn lemma_encoded(request: UrlRequest, events: Seq<Event>)
    requires
        url_lawful(request, events),
    ensures
        needs_encoder(url_run(request, events).0) matches Some(started) ==> encoded_well(
            request,
            events,
            started,
        ),
    decreases events.len(),
{
    if events.len() > 0 {
        let before = events.drop_last();
        let step = url_run(request, before).0;
        lemma_last_turn(request, events);
        lemma_known(request, before);
        lemma_encoded(request, before);
        lemma_turn_needs_encoder(request, step, events.last());
        if let Some(started) = needs_encoder(url_run(request, events).0) {
            if needs_encoder(step) == Some(started) {
                let i = choose|i: int| #[trigger]
                    answered(request, before, i, Action::Encode(started), Event::Exited(true));
                lemma_answered_stays(
                    request,
                    events,
                    i,
                    Action::Encode(started),
                    Event::Exited(true),
                );
            } else {
                assert(answered(
                    request,
                    events,
                    events.len() - 1,
                    Action::Encode(started),
                    Event::Exited(true),
                ));
            }
        }
    }
}

/// A compressed file is measured, sent, or put in place of the raw one only where
/// the encoder was run for that download and succeeded.
pub proof fn law_compressed_by_the_encoder(
    request: UrlRequest,
    events: Seq<Event>,
    started: UtcTime,
)
    requires
        url_lawful(request, events),
        url_run(request, events).1 == Action::Measure(small(started)) || url_run(request, events).1
            == Action::Upload(small(started)) || url_run(request, events).1 == Action::Remove(
            raw(started),
        ),
    ensures
        encoded_well(request, events, started),
{
    lemma_known(request, events);
    lemma_encoded(request, events);
    lemma_discards_small(request, events);
}

/// What is discarded is a compressed file.
proof fn lemma_discards_small(request: UrlRequest, events: Seq<Event>)
    requires
        url_lawful(request, events),
    ensures
        url_run(request, events).0 matches UrlStep::Pipeline(PipelineStep::Discard(_)) ==> (url_run(
            request,
            events,
        ).1 matches Action::Remove(file) && file.media is Compressed),
{
    if events.len() > 0 {
        lemma_last_turn(request, events);
        reveal(turn);
    }
}

} // verus!
