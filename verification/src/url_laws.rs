//! What holds of the handling of a text as a whole, whatever the world answers:
//! who is served, which files are made, sent and deleted, and what is recorded.
use vstd::prelude::*;

use crate::bookkeeping::{note_next, LogStep, NoteStep};
use crate::clock::UtcTime;
use crate::handlers::{url_next, UrlRequest, UrlStep};
use crate::links::supported;
use crate::media::MediaFile;
use crate::messages::{BotError, Message};
use crate::pipeline::{compressed_file, pipeline_next, raw_file, PipelineStep};
use crate::protocol::{goes_with, held_then, lock_action, Action, Event, Flow, SaveStep};
use crate::requests::users_then;
use crate::state::{may_use, Users};
use crate::storage::Document;
use crate::url_runs::{
    answered, asked_in, asks, lemma_answered_stays, lemma_last_turn, lemma_turn, turn, url_lawful,
    url_run,
};

verus! {

/// The sender was noted, and found to have access.
pub open spec fn let_in(request: UrlRequest, events: Seq<Event>) -> bool {
    exists|i: int, action: Action|
        action is NoteUser && #[trigger] answered(request, events, i, action, Event::Noted(true))
}

/// Nothing else was ever said of the sender's access than `access`.
pub open spec fn always_noted(events: Seq<Event>, access: bool) -> bool {
    forall|i: int|
        0 <= i < events.len() ==> ((#[trigger] events[i]) matches Event::Noted(m) ==> m == access)
}

/// The file was measured, and has no more bytes than the limit.
pub open spec fn measured_to_fit(request: UrlRequest, events: Seq<Event>, file: MediaFile) -> bool {
    exists|i: int, bytes: u64|
        bytes <= request.limit && #[trigger] answered(
            request,
            events,
            i,
            Action::Measure(file),
            Event::Size(bytes),
        )
}

/// The file was measured, and has more bytes than the limit.
pub open spec fn measured_over(request: UrlRequest, events: Seq<Event>, file: MediaFile) -> bool {
    exists|i: int, bytes: u64|
        bytes > request.limit && #[trigger] answered(
            request,
            events,
            i,
            Action::Measure(file),
            Event::Size(bytes),
        )
}

/// A file was sent.
pub open spec fn uploaded(request: UrlRequest, events: Seq<Event>) -> bool {
    exists|i: int, file: MediaFile| #[trigger]
        answered(request, events, i, Action::Upload(file), Event::Done)
}

/// The deletion of the file has been asked for, now or earlier.
pub open spec fn removed(request: UrlRequest, events: Seq<Event>, file: MediaFile) -> bool
    decreases events.len(),
{
    ||| url_run(request, events).1 == Action::Remove(file)
    ||| events.len() > 0 && removed(request, events.drop_last(), file)
}

/// What the access of the sender was said to be, and what follows from it, by
/// the time of a step.
spec fn access_known(request: UrlRequest, events: Seq<Event>) -> bool {
    match url_run(request, events).0 {
        UrlStep::Note(NoteStep::Clock) | UrlStep::Note(NoteStep::Update) => always_noted(
            events,
            true,
        ) && always_noted(events, false),
        UrlStep::Note(NoteStep::Save(access, _)) => always_noted(events, access) && (access
            ==> let_in(request, events)),
        UrlStep::Open | UrlStep::Pipeline(_) | UrlStep::Abort(_) => always_noted(events, true)
            && let_in(request, events) && supported(request.url@),
        _ => true,
    }
}

proof fn lemma_access_known(request: UrlRequest, events: Seq<Event>)
    requires
        url_lawful(request, events),
    ensures
        access_known(request, events),
    decreases events.len(),
{
    if events.len() > 0 {
        let before = events.drop_last();
        lemma_last_turn(request, events);
        lemma_access_known(request, before);
        lemma_asks(request, before);
        lemma_turn(request, url_run(request, before).0, events.last());
        assert forall|i: int| 0 <= i < before.len() implies before[i] == events[i] by {}
        if let_in(request, before) {
            let (i, action) = choose|i: int, action: Action|
                action is NoteUser && #[trigger] answered(
                    request,
                    before,
                    i,
                    action,
                    Event::Noted(true),
                );
            lemma_answered_stays(request, events, i, action, Event::Noted(true));
        }
    }
}

/// A step asks for its own action.
proof fn lemma_asks(request: UrlRequest, events: Seq<Event>)
    requires
        url_lawful(request, events),
    ensures
        asks(url_run(request, events).0, url_run(request, events).1),
        asked_in(url_run(request, events).0, url_run(request, events).1),
{
    if events.len() > 0 {
        lemma_last_turn(request, events);
        lemma_turn(request, url_run(request, events.drop_last()).0, events.last());
    }
}

/// No download is started but for somebody with access, and for a supported
/// link: the sender was found to have access, and was never found not to.
pub proof fn law_download_needs_access(request: UrlRequest, events: Seq<Event>)
    requires
        url_lawful(request, events),
        url_run(request, events).1 is StartDownload,
    ensures
        let_in(request, events),
        always_noted(events, true),
        supported(request.url@),
{
    lemma_access_known(request, events);
    lemma_asks(request, events);
}

proof fn lemma_fit_stays(request: UrlRequest, events: Seq<Event>, file: MediaFile)
    requires
        events.len() > 0,
        measured_to_fit(request, events.drop_last(), file),
    ensures
        measured_to_fit(request, events, file),
{
    let (i, bytes) = choose|i: int, bytes: u64|
        bytes <= request.limit && #[trigger] answered(
            request,
            events.drop_last(),
            i,
            Action::Measure(file),
            Event::Size(bytes),
        );
    lemma_answered_stays(request, events, i, Action::Measure(file), Event::Size(bytes));
}

/// A size within the limit that answers a measuring is one that fits.
proof fn lemma_measured(request: UrlRequest, events: Seq<Event>, file: MediaFile)
    requires
        url_lawful(request, events),
        events.len() > 0,
        url_run(request, events.drop_last()).1 == Action::Measure(file),
    ensures
        events.last() matches Event::Size(bytes) && bytes <= request.limit ==> measured_to_fit(
            request,
            events,
            file,
        ),
{
    lemma_last_turn(request, events);
    if let Event::Size(bytes) = events.last() {
        assert(answered(
            request,
            events,
            events.len() - 1,
            Action::Measure(file),
            Event::Size(bytes),
        ));
    }
}

/// The file that a step is about to send, or has put in place of another, fits.
spec fn fits(request: UrlRequest, events: Seq<Event>) -> bool {
    match url_run(request, events).0 {
        UrlStep::Pipeline(PipelineStep::Replace(started)) => measured_to_fit(
            request,
            events,
            compressed_file(started),
        ),
        UrlStep::Pipeline(PipelineStep::Notify(file)) => measured_to_fit(request, events, file),
        UrlStep::Pipeline(PipelineStep::Upload(file)) => measured_to_fit(request, events, file),
        _ => true,
    }
}

proof fn lemma_fits(request: UrlRequest, events: Seq<Event>)
    requires
        url_lawful(request, events),
    ensures
        fits(request, events),
    decreases events.len(),
{
    if events.len() > 0 {
        let before = events.drop_last();
        lemma_last_turn(request, events);
        lemma_fits(request, before);
        lemma_asks(request, before);
        lemma_turn(request, url_run(request, before).0, events.last());
        match url_run(request, before).0 {
            UrlStep::Pipeline(PipelineStep::Replace(started)) => {
                lemma_fit_stays(request, events, compressed_file(started));
            },
            UrlStep::Pipeline(PipelineStep::Notify(file)) => {
                lemma_fit_stays(request, events, file);
            },
            UrlStep::Pipeline(PipelineStep::Measure(started)) => {
                lemma_measured(request, events, raw_file(started));
            },
            UrlStep::Pipeline(PipelineStep::Remeasure(started)) => {
                lemma_measured(request, events, compressed_file(started));
            },
            _ => {},
        }
    }
}

/// No file is sent but one that was measured and fits the limit.
pub proof fn law_uploads_fit(request: UrlRequest, events: Seq<Event>, file: MediaFile)
    requires
        url_lawful(request, events),
        url_run(request, events).1 == Action::Upload(file),
    ensures
        measured_to_fit(request, events, file),
{
    lemma_fits(request, events);
    lemma_asks(request, events);
}

/// A raw file is deleted only when its compressed file was measured and fits the
/// limit.
pub proof fn law_raw_kept_until_replaced(request: UrlRequest, events: Seq<Event>, file: MediaFile)
    requires
        url_lawful(request, events),
        url_run(request, events).1 == Action::Remove(file),
        file.media is Raw,
    ensures
        measured_to_fit(request, events, compressed_file(file.started)),
{
    lemma_fits(request, events);
    lemma_asks(request, events);
}

/// Nothing is compressed but what was measured and is over the limit.
pub proof fn law_only_large_compressed(request: UrlRequest, events: Seq<Event>, started: UtcTime)
    requires
        url_lawful(request, events),
        url_run(request, events).1 == Action::Encode(started),
    ensures
        measured_over(request, events, raw_file(started)),
{
    lemma_asks(request, events);
    lemma_last_turn(request, events);
    let before = events.drop_last();
    lemma_turn(request, url_run(request, before).0, events.last());
    lemma_last_turn(request, before);
    let earlier = before.drop_last();
    lemma_turn(request, url_run(request, earlier).0, before.last());
    lemma_asks(request, earlier);
    if let Event::Size(bytes) = before.last() {
        lemma_answered_stays(
            request,
            events,
            before.len() - 1,
            Action::Measure(raw_file(started)),
            Event::Size(bytes),
        );
    }
}

/// A compressed file is deleted only when it was measured and is over the limit.
pub proof fn law_only_large_discarded(request: UrlRequest, events: Seq<Event>, file: MediaFile)
    requires
        url_lawful(request, events),
        url_run(request, events).1 == Action::Remove(file),
        file.media is Compressed,
    ensures
        measured_over(request, events, file),
{
    lemma_asks(request, events);
    lemma_last_turn(request, events);
    let before = events.drop_last();
    lemma_turn(request, url_run(request, before).0, events.last());
    lemma_asks(request, before);
    lemma_turn_discards(request, url_run(request, before).0, events.last());
}

/// The file that is discarded is the one that was measured.
proof fn lemma_turn_discards(request: UrlRequest, step: UrlStep, event: Event)
    requires
        step.awaits().admits(event),
    ensures
        turn(request, step, event).1 matches Action::Remove(file) ==> (file == compressed_file(
            file.started,
        ) ==> step == UrlStep::Pipeline(PipelineStep::Remeasure(file.started))),
{
    reveal(turn);
}

/// The message of a failed download tells of the failure that ended it.
proof fn lemma_turn_complains(request: UrlRequest, step: UrlStep, event: Event)
    requires
        step.awaits().admits(event),
    ensures
        turn(request, step, event).1 matches Action::Reply(Message::PipelineFailed(error))
            ==> step == UrlStep::Abort(error),
{
    reveal(turn);
}

/// A size that is complained of is over the limit.
pub proof fn law_complaint_is_true(request: UrlRequest, events: Seq<Event>, bytes: u64)
    requires
        url_lawful(request, events),
        url_run(request, events).1 == Action::Reply(
            Message::PipelineFailed(BotError::StillTooLarge(bytes)),
        ),
    ensures
        bytes > request.limit,
{
    lemma_last_turn(request, events);
    let e1 = events.drop_last();
    lemma_turn_complains(request, url_run(request, e1).0, events.last());
    lemma_last_turn(request, e1);
    let e2 = e1.drop_last();
    lemma_turn(request, url_run(request, e2).0, e1.last());
    lemma_last_turn(request, e2);
    let e3 = e2.drop_last();
    lemma_turn(request, url_run(request, e3).0, e2.last());
}

proof fn lemma_uploaded(request: UrlRequest, events: Seq<Event>)
    requires
        url_lawful(request, events),
        url_run(request, events).0 matches UrlStep::Pipeline(step) && (step is Close
            || step is Log),
    ensures
        uploaded(request, events),
    decreases events.len(),
{
    lemma_last_turn(request, events);
    let before = events.drop_last();
    lemma_turn(request, url_run(request, before).0, events.last());
    lemma_asks(request, before);
    if let UrlStep::Pipeline(PipelineStep::Upload(file)) = url_run(request, before).0 {
        assert(answered(request, events, events.len() - 1, Action::Upload(file), Event::Done));
    } else {
        lemma_uploaded(request, before);
        let (i, file) = choose|i: int, file: MediaFile| #[trigger]
            answered(request, before, i, Action::Upload(file), Event::Done);
        lemma_answered_stays(request, events, i, Action::Upload(file), Event::Done);
    }
}

/// The handling is past the sending of a video: it saves, records or takes leave
/// in the course of the download, or has ended well out of it.
pub open spec fn concludes(request: UrlRequest, events: Seq<Event>) -> bool {
    let (step, action) = url_run(request, events);
    ||| action is AppendLog
    ||| action is CountDownload
    ||| step is Pipeline && (action is Lock || action is Unlock || action is Render
        || action is WriteAside || action is Publish || action is CloseNotice)
    ||| events.len() > 0 && url_run(request, events.drop_last()).0 is Pipeline && action
        == Action::Finish(Ok(()))
}

/// What concludes a download comes in its last steps.
proof fn lemma_turn_concludes(request: UrlRequest, step: UrlStep, event: Event)
    requires
        step.awaits().admits(event),
    ensures
        ({
            let (next, action) = turn(request, step, event);
            &&& next is Pipeline && (action is Lock || action is Unlock || action is Render
                || action is WriteAside || action is Publish || action is CloseNotice) ==> (
            next matches UrlStep::Pipeline(running) && (running is Close || running is Log))
            &&& step is Pipeline && action == Action::Finish(Ok(())) ==> (
            step matches UrlStep::Pipeline(PipelineStep::Log(_)))
        }),
{
    reveal(turn);
}

/// A download is entered in the log and counted only after its video was sent.
/// Until then nothing is saved in the course of it, its notice stays, and it
/// cannot end well.
pub proof fn law_concluded_after_upload(request: UrlRequest, events: Seq<Event>)
    requires
        url_lawful(request, events),
        concludes(request, events),
    ensures
        uploaded(request, events),
{
    lemma_asks(request, events);
    if events.len() > 0 {
        let before = events.drop_last();
        lemma_last_turn(request, events);
        lemma_turn_concludes(request, url_run(request, before).0, events.last());
        if url_run(request, events).1 is Finish {
            lemma_uploaded(request, before);
            let (i, file) = choose|i: int, file: MediaFile| #[trigger]
                answered(request, before, i, Action::Upload(file), Event::Done);
            lemma_answered_stays(request, events, i, Action::Upload(file), Event::Done);
        } else {
            lemma_uploaded(request, events);
        }
    }
}

/// The steps up to the measuring of the compressed file.
spec fn nothing_removed_yet(step: UrlStep) -> bool {
    match step {
        UrlStep::Note(_) => true,
        UrlStep::Open => true,
        UrlStep::Pipeline(PipelineStep::Discard(_)) => false,
        UrlStep::Pipeline(PipelineStep::Replace(_)) => false,
        UrlStep::Pipeline(PipelineStep::Notify(_)) => false,
        UrlStep::Pipeline(PipelineStep::Upload(_)) => false,
        UrlStep::Pipeline(PipelineStep::Close) => false,
        UrlStep::Pipeline(PipelineStep::Log(_)) => false,
        UrlStep::Pipeline(_) => true,
        _ => false,
    }
}

/// What may have been deleted by the time of a step: nothing before the
/// compressed file is measured, and a raw file from then on, but never the file
/// to be sent.
spec fn removals(step: UrlStep, file: MediaFile) -> bool {
    match step {
        UrlStep::Pipeline(PipelineStep::Replace(_)) => file.media is Raw,
        UrlStep::Pipeline(PipelineStep::Notify(sent)) => file.media is Raw
            && sent.media is Compressed,
        UrlStep::Pipeline(PipelineStep::Upload(sent)) => file.media is Raw
            && sent.media is Compressed,
        _ => !nothing_removed_yet(step),
    }
}

proof fn lemma_turn_removes(request: UrlRequest, step: UrlStep, event: Event, file: MediaFile)
    requires
        step.awaits().admits(event),
    ensures
        ({
            let (next, action) = turn(request, step, event);
            (action == Action::Remove(file) || removals(step, file)) ==> removals(next, file)
        }),
{
    reveal(turn);
}

proof fn lemma_removals(request: UrlRequest, events: Seq<Event>, file: MediaFile)
    requires
        url_lawful(request, events),
        removed(request, events, file),
    ensures
        removals(url_run(request, events).0, file),
    decreases events.len(),
{
    if events.len() > 0 {
        let before = events.drop_last();
        lemma_last_turn(request, events);
        lemma_turn_removes(request, url_run(request, before).0, events.last(), file);
        if removed(request, before, file) {
            lemma_removals(request, before, file);
        }
    }
}

/// A file that is sent was not deleted before.
pub proof fn law_sent_file_is_there(request: UrlRequest, events: Seq<Event>, file: MediaFile)
    requires
        url_lawful(request, events),
        url_run(request, events).1 == Action::Upload(file),
    ensures
        !removed(request, events, file),
{
    lemma_asks(request, events);
    if removed(request, events, file) {
        lemma_removals(request, events, file);
    }
}

/// What a failed download is answered: the notice is deleted, and a message says
/// why.
pub proof fn law_failure_is_told(
    request: UrlRequest,
    step: PipelineStep,
    event: Event,
    error: BotError,
)
    requires
        pipeline_next(request.limit, step, event) == Flow::<PipelineStep, ()>::Lost(error),
    ensures
        url_next(request, UrlStep::Pipeline(step), event) == (
            UrlStep::Abort(error),
            Action::CloseNotice,
        ),
        url_next(request, UrlStep::Abort(error), Event::Done) == (
            UrlStep::Answer,
            Action::Reply(Message::PipelineFailed(error)),
        ),
{
}

/// Somebody without access is told so, and somebody with access whose link is
/// not supported is told that. Once told, the handling is over.
pub proof fn law_refusals_are_told(request: UrlRequest, step: NoteStep, event: Event, access: bool)
    requires
        note_next(step, event) == Flow::<NoteStep, bool>::Done(access),
    ensures
        !access ==> url_next(request, UrlStep::Note(step), event) == (
            UrlStep::Answer,
            Action::Reply(Message::AccessDenied),
        ),
        access && !supported(request.url@) ==> url_next(request, UrlStep::Note(step), event) == (
            UrlStep::Answer,
            Action::Reply(Message::UnsupportedLink),
        ),
        url_next(request, UrlStep::Answer, Event::Done) == (
            UrlStep::Over,
            Action::Finish(Ok(())),
        ),
{
}

/// The users after a run, with the table changed as the run has asked.
pub open spec fn users_after(request: UrlRequest, users: Users, events: Seq<Event>) -> Users
    decreases events.len(),
{
    if events.len() == 0 {
        users
    } else {
        users_then(
            request,
            users_after(request, users, events.drop_last()),
            url_run(request, events.drop_last()).1,
        )
    }
}

/// Whenever the sender was noted, the answer was their access by the table.
pub open spec fn noted_truly(request: UrlRequest, users: Users, events: Seq<Event>) -> bool {
    forall|i: int, action: Action, access: bool| #[trigger]
        answered(request, events, i, action, Event::Noted(access)) ==> access == may_use(
            users_after(request, users, events.take(i)),
            request.uid_key@,
        )
}

/// A text changes nobody's access, and no record but the sender's.
pub proof fn law_texts_give_no_access(
    request: UrlRequest,
    users: Users,
    events: Seq<Event>,
    key: Seq<char>,
)
    ensures
        may_use(users_after(request, users, events), key) == may_use(users, key),
        key != request.uid_key@ ==> {
            let after = users_after(request, users, events);
            after.contains_key(key) == users.contains_key(key) && (users.contains_key(key)
                ==> after[key] == users[key])
        },
    decreases events.len(),
{
    if events.len() > 0 {
        law_texts_give_no_access(request, users, events.drop_last(), key);
    }
}

/// The action runs a program, makes, sends or records something, or opens a
/// notice.
pub open spec fn serves(action: Action) -> bool {
    ||| action is OpenNotice
    ||| action is StartDownload
    ||| action is Encode
    ||| action is Upload
    ||| action is AppendLog
    ||| action is CountDownload
}

/// For somebody without access by the table, nothing is run, sent or recorded.
pub proof fn law_no_service_without_access(request: UrlRequest, users: Users, events: Seq<Event>)
    requires
        url_lawful(request, events),
        noted_truly(request, users, events),
        !may_use(users, request.uid_key@),
    ensures
        !serves(url_run(request, events).1),
{
    lemma_access_known(request, events);
    lemma_asks(request, events);
    if let_in(request, events) {
        let (i, action) = choose|i: int, action: Action|
            action is NoteUser && #[trigger] answered(
                request,
                events,
                i,
                action,
                Event::Noted(true),
            );
        law_texts_give_no_access(request, users, events.take(i), request.uid_key@);
    }
}

/// What a run has done with its files: how large the raw file was measured to
/// be, how often the encoder was run, and which files were sent.
pub ghost struct Account {
    pub measured: Option<(UtcTime, u64)>,
    pub encoded: nat,
    pub sent: Seq<MediaFile>,
}

/// The account of a run.
pub open spec fn account(request: UrlRequest, events: Seq<Event>) -> Account
    decreases events.len(),
{
    if events.len() == 0 {
        Account { measured: None, encoded: 0, sent: Seq::empty() }
    } else {
        let before = account(request, events.drop_last());
        match (url_run(request, events.drop_last()).1, events.last()) {
            (Action::Measure(file), Event::Size(bytes)) => if file.media is Raw {
                Account { measured: Some((file.started, bytes)), ..before }
            } else {
                before
            },
            (Action::Encode(_), _) => Account { encoded: before.encoded + 1, ..before },
            (Action::Upload(file), Event::Done) => Account {
                sent: before.sent.push(file),
                ..before
            },
            _ => before,
        }
    }
}

/// The account of a success: one file was sent, and it is the raw file where
/// that fits the limit; where it does not, the encoder was run once, and the
/// file is the compressed one.
pub open spec fn archived(request: UrlRequest, account: Account) -> bool {
    &&& account.measured matches Some((started, bytes))
    &&& account.encoded == (if bytes > request.limit {
        1nat
    } else {
        0nat
    })
    &&& account.sent == seq![
        if bytes > request.limit {
            compressed_file(started)
        } else {
            raw_file(started)
        },
    ]
}

/// The account by the time of a step.
spec fn accounted(request: UrlRequest, step: UrlStep, account: Account) -> bool {
    match step {
        UrlStep::Note(_) | UrlStep::Open => account.encoded == 0 && account.sent.len() == 0,
        UrlStep::Pipeline(PipelineStep::Announce(started))
        | UrlStep::Pipeline(PipelineStep::Encode(started)) => account.encoded == 0
            && account.sent.len() == 0 && (account.measured matches Some((begun, bytes)) && begun
            == started && bytes > request.limit),
        UrlStep::Pipeline(PipelineStep::Remeasure(started))
        | UrlStep::Pipeline(PipelineStep::Replace(started)) => account.encoded == 1
            && account.sent.len() == 0 && (account.measured matches Some((begun, bytes)) && begun
            == started && bytes > request.limit),
        UrlStep::Pipeline(PipelineStep::Notify(file))
        | UrlStep::Pipeline(PipelineStep::Upload(file)) => account.sent.len() == 0 && archived(
            request,
            Account { sent: seq![file], ..account },
        ),
        UrlStep::Pipeline(PipelineStep::Close) | UrlStep::Pipeline(PipelineStep::Log(_)) => archived(
            request,
            account,
        ),
        UrlStep::Pipeline(PipelineStep::Discard(_)) => true,
        UrlStep::Pipeline(PipelineStep::Errors) => true,
        UrlStep::Pipeline(_) => account.encoded == 0 && account.sent.len() == 0,
        _ => true,
    }
}

proof fn lemma_accounted(request: UrlRequest, events: Seq<Event>)
    requires
        url_lawful(request, events),
    ensures
        accounted(request, url_run(request, events).0, account(request, events)),
    decreases events.len(),
{
    if events.len() > 0 {
        let before = events.drop_last();
        lemma_last_turn(request, events);
        lemma_accounted(request, before);
        lemma_asks(request, before);
        lemma_turn(request, url_run(request, before).0, events.last());
        let earlier = account(request, before);
        if earlier.sent.len() == 0 {
            assert(earlier.sent =~= Seq::empty());
            if let Action::Upload(file) = url_run(request, before).1 {
                assert(earlier.sent.push(file) =~= seq![file]);
            }
        }
    }
}

/// What the success of a download means: one file was sent, the encoder was run
/// exactly where the raw file was over the limit, and the file sent is the
/// encoder's exactly then.
pub proof fn law_success_of_a_download(request: UrlRequest, events: Seq<Event>)
    requires
        url_lawful(request, events),
        events.len() > 0,
        url_run(request, events.drop_last()).0 is Pipeline,
        url_run(request, events).1 == Action::Finish(Ok(())),
    ensures
        archived(request, account(request, events)),
{
    let before = events.drop_last();
    lemma_last_turn(request, events);
    lemma_turn_succeeds(request, url_run(request, before).0, events.last());
    lemma_accounted(request, before);
    lemma_asks(request, before);
}

proof fn lemma_turn_succeeds(request: UrlRequest, step: UrlStep, event: Event)
    requires
        step.awaits().admits(event),
        step is Pipeline,
    ensures
        turn(request, step, event).1 == Action::Finish(Ok(())) ==> (step matches UrlStep::Pipeline(
            PipelineStep::Log(LogStep::SaveUsers(SaveStep::Unlocking(_))),
        )),
{
    reveal(turn);
}

/// The document whose contents a step has written aside.
spec fn writing(step: UrlStep) -> Option<Document> {
    match step {
        UrlStep::Note(NoteStep::Save(_, SaveStep::Writing)) => Some(Document::Users),
        UrlStep::Pipeline(PipelineStep::Log(LogStep::SaveLogs(_, SaveStep::Writing))) => Some(
            Document::Logs,
        ),
        UrlStep::Pipeline(PipelineStep::Log(LogStep::SaveUsers(SaveStep::Writing))) => Some(
            Document::Users,
        ),
        _ => None,
    }
}

proof fn lemma_turn_writes(request: UrlRequest, step: UrlStep, event: Event)
    requires
        step.awaits().admits(event),
    ensures
        ({
            let (next, action) = turn(request, step, event);
            &&& writing(next) matches Some(document) ==> (action matches Action::WriteAside(aside, _)
                && aside == document)
            &&& action matches Action::Publish(document) ==> event is Done && writing(step)
                == Some(document)
        }),
{
    reveal(turn);
}

/// A document is published only right after its contents were written aside
/// without failure.
pub proof fn law_written_before_published(
    request: UrlRequest,
    events: Seq<Event>,
    document: Document,
)
    requires
        url_lawful(request, events),
        url_run(request, events).1 == Action::Publish(document),
    ensures
        events.len() > 0,
        events.last() is Done,
        url_run(request, events.drop_last()).1 matches Action::WriteAside(aside, _) && aside
            == document,
{
    let before = events.drop_last();
    lemma_last_turn(request, events);
    lemma_turn_writes(request, url_run(request, before).0, events.last());
    lemma_last_turn(request, before);
    lemma_turn_writes(request, url_run(request, before.drop_last()).0, before.last());
}

/// The document whose lock is held after a run.
pub open spec fn held(request: UrlRequest, events: Seq<Event>) -> Option<Document>
    decreases events.len(),
{
    if events.len() == 0 {
        None
    } else {
        held_then(
            held(request, events.drop_last()),
            url_run(request, events.drop_last()).1,
        )
    }
}

/// The document whose lock is held in a step.
spec fn held_in(step: UrlStep) -> Option<Document> {
    match step {
        UrlStep::Note(NoteStep::Save(_, saving)) if saving !is Locking => Some(Document::Users),
        UrlStep::Pipeline(PipelineStep::Log(LogStep::SaveLogs(_, saving)))
            if saving !is Locking => Some(Document::Logs),
        UrlStep::Pipeline(PipelineStep::Log(LogStep::SaveUsers(saving)))
            if saving !is Locking => Some(Document::Users),
        _ => None,
    }
}

/// The action that a step asks for, as far as locks go.
spec fn locks(step: UrlStep, action: Action) -> bool {
    match step {
        UrlStep::Note(NoteStep::Save(_, saving)) => lock_action(Document::Users, saving, action),
        UrlStep::Pipeline(PipelineStep::Log(LogStep::SaveLogs(_, saving))) => lock_action(
            Document::Logs,
            saving,
            action,
        ),
        UrlStep::Pipeline(PipelineStep::Log(LogStep::SaveUsers(saving))) => lock_action(
            Document::Users,
            saving,
            action,
        ),
        _ => action !is Lock && action !is Unlock,
    }
}

proof fn lemma_turn_locks(request: UrlRequest, step: UrlStep, action: Action, event: Event)
    requires
        step.awaits().admits(event),
        locks(step, action),
    ensures
        ({
            let (next, asked) = turn(request, step, event);
            &&& locks(next, asked)
            &&& held_in(next) == held_then(held_in(step), action)
            &&& goes_with(held_in(next), asked)
        }),
{
    reveal(turn);
}

proof fn lemma_held(request: UrlRequest, events: Seq<Event>)
    requires
        url_lawful(request, events),
    ensures
        locks(url_run(request, events).0, url_run(request, events).1),
        held(request, events) == held_in(url_run(request, events).0),
        goes_with(held(request, events), url_run(request, events).1),
    decreases events.len(),
{
    if events.len() > 0 {
        let before = events.drop_last();
        lemma_last_turn(request, events);
        lemma_held(request, before);
        let (step, action) = url_run(request, before);
        lemma_turn_locks(request, step, action, events.last());
    }
}

/// A document is rendered, written aside and published under its lock; one lock
/// is held at a time, only for that, and none is left in the end.
pub proof fn law_saved_under_lock(request: UrlRequest, events: Seq<Event>)
    requires
        url_lawful(request, events),
    ensures
        goes_with(held(request, events), url_run(request, events).1),
        url_run(request, events).1 is Finish ==> held(request, events) is None,
{
    lemma_held(request, events);
}

} // verus!
