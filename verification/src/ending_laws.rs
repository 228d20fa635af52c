//! How the handling of a text ends: within a bound, and with the video archived
//! where all goes well.
use vstd::prelude::*;

use crate::bookkeeping::{LogStep, NoteStep};
use crate::clock::UtcTime;
use crate::handlers::{url_begins, UrlRequest, UrlStep};
use crate::links::supported;
use crate::media::MediaFile;
use crate::messages::Message;
use crate::pipeline::{compressed_file, raw_file, PipelineStep};
use crate::progress::Shown;
use crate::protocol::{Action, Event, SaveStep};
use crate::storage::Document;
use crate::url_runs::{lemma_last_turn, lemma_push, turn, url_lawful, url_run};

verus! {

/// The most answers, lines of output aside, that a step is away from the end.
spec fn log_rank(step: LogStep) -> nat {
    match step {
        LogStep::Clock => 14,
        LogStep::Append(_) => 13,
        LogStep::SaveLogs(_, saving) => 7 + saving.rank(),
        LogStep::Count => 7,
        LogStep::SaveUsers(saving) => 1 + saving.rank(),
    }
}

spec fn url_rank(step: UrlStep) -> nat {
    match step {
        UrlStep::Note(NoteStep::Clock) => 38,
        UrlStep::Note(NoteStep::Update) => 37,
        UrlStep::Note(NoteStep::Save(_, saving)) => 31 + saving.rank(),
        UrlStep::Open => 31,
        UrlStep::Pipeline(PipelineStep::Clock) => 30,
        UrlStep::Pipeline(PipelineStep::Start(_)) => 29,
        UrlStep::Pipeline(PipelineStep::Edit(_, _)) => 28,
        UrlStep::Pipeline(PipelineStep::Read(_, _)) => 27,
        UrlStep::Pipeline(PipelineStep::Await(_)) => 26,
        UrlStep::Pipeline(PipelineStep::Probe(_)) => 25,
        UrlStep::Pipeline(PipelineStep::Measure(_)) => 24,
        UrlStep::Pipeline(PipelineStep::Announce(_)) => 23,
        UrlStep::Pipeline(PipelineStep::Encode(_)) => 22,
        UrlStep::Pipeline(PipelineStep::Remeasure(_)) => 21,
        UrlStep::Pipeline(PipelineStep::Replace(_)) => 20,
        UrlStep::Pipeline(PipelineStep::Notify(_)) => 19,
        UrlStep::Pipeline(PipelineStep::Upload(_)) => 18,
        UrlStep::Pipeline(PipelineStep::Close) => 17,
        UrlStep::Pipeline(PipelineStep::Log(logging)) => 2 + log_rank(logging),
        UrlStep::Pipeline(PipelineStep::Discard(_)) => 3,
        UrlStep::Pipeline(PipelineStep::Errors) => 3,
        UrlStep::Abort(_) => 2,
        UrlStep::Answer => 1,
        UrlStep::Over => 0,
    }
}

proof fn lemma_turn_advances(request: UrlRequest, step: UrlStep, event: Event)
    requires
        step.awaits().admits(event),
    ensures
        event is Line ==> url_rank(turn(request, step, event).0) <= url_rank(step) + 1,
        event !is Line ==> url_rank(turn(request, step, event).0) < url_rank(step),
{
    reveal(turn);
}

/// How many of the events are lines of output.
pub open spec fn lines_in(events: Seq<Event>) -> nat
    decreases events.len(),
{
    if events.len() == 0 {
        0
    } else if events.last() is Line {
        lines_in(events.drop_last()) + 1
    } else {
        lines_in(events.drop_last())
    }
}

proof fn lemma_rank_bounds(request: UrlRequest, events: Seq<Event>)
    requires
        url_lawful(request, events),
    ensures
        events.len() + url_rank(url_run(request, events).0) <= 38 + 2 * lines_in(events),
    decreases events.len(),
{
    if events.len() > 0 {
        let before = events.drop_last();
        lemma_last_turn(request, events);
        lemma_rank_bounds(request, before);
        lemma_turn_advances(request, url_run(request, before).0, events.last());
    }
}

/// The handling of a text comes to its end: two answers for each line of output,
/// and thirty-eight besides, are the most that it takes.
pub proof fn law_url_handling_ends(request: UrlRequest, events: Seq<Event>)
    requires
        url_lawful(request, events),
    ensures
        events.len() <= 38 + 2 * lines_in(events),
{
    lemma_rank_bounds(request, events);
}

/// The answers, up to the reading of the downloader's output, of a world in which
/// all goes well.
pub open spec fn good_start(noted: UtcTime, started: UtcTime, users: String) -> Seq<Event> {
    seq![
        Event::Clock(noted),
        Event::Noted(true),
        Event::Done,
        Event::Text(users),
        Event::Done,
        Event::Done,
        Event::Done,
        Event::Done,
        Event::Clock(started),
        Event::Done,
    ]
}

/// The answers, from the notice of the upload to the log, of a world in which all
/// goes well.
pub open spec fn good_upload() -> Seq<Event> {
    seq![Event::Done, Event::Done, Event::Done]
}

/// The answers, while the download is logged, of a world in which all goes well.
pub open spec fn good_logging(logged: UtcTime, logs: String) -> Seq<Event> {
    seq![
        Event::Clock(logged),
        Event::Done,
        Event::Done,
        Event::Text(logs),
        Event::Done,
        Event::Done,
        Event::Done,
    ]
}

/// The answers, while the download is counted, of a world in which all goes well.
pub open spec fn good_counting(users: String) -> Seq<Event> {
    seq![
        Event::Done,
        Event::Done,
        Event::Text(users),
        Event::Done,
        Event::Done,
        Event::Done,
    ]
}

/// The answers, from the notice of the upload on, of a world in which all goes
/// well.
pub open spec fn good_end(logged: UtcTime, logs: String, users: String) -> Seq<Event> {
    good_upload() + good_logging(logged, logs) + good_counting(users)
}

/// Where all goes well, the download of a supported link is begun for somebody
/// with access.
pub proof fn law_downloads_begin(
    request: UrlRequest,
    noted: UtcTime,
    started: UtcTime,
    users: String,
)
    requires
        supported(request.url@),
        noted.valid(),
        started.valid(),
    ensures
        url_lawful(request, good_start(noted, started, users)),
        url_run(request, good_start(noted, started, users)) == (
            UrlStep::Pipeline(PipelineStep::Read(started, None)),
            Action::ReadLine,
        ),
{
    let e0 = Seq::<Event>::empty();
    let s1 = (UrlStep::Note(NoteStep::Update), Action::NoteUser(noted));
    lemma_push(request, e0, Event::Clock(noted), url_begins(), s1);
    let e1 = e0.push(Event::Clock(noted));
    let s2 = (
        UrlStep::Note(NoteStep::Save(true, SaveStep::Locking)),
        Action::Lock(Document::Users),
    );
    lemma_push(request, e1, Event::Noted(true), s1, s2);
    let e2 = e1.push(Event::Noted(true));
    let s3 = (
        UrlStep::Note(NoteStep::Save(true, SaveStep::Rendering)),
        Action::Render(Document::Users),
    );
    lemma_push(request, e2, Event::Done, s2, s3);
    let e3 = e2.push(Event::Done);
    let s4 = (
        UrlStep::Note(NoteStep::Save(true, SaveStep::Writing)),
        Action::WriteAside(Document::Users, users),
    );
    lemma_push(request, e3, Event::Text(users), s3, s4);
    let e4 = e3.push(Event::Text(users));
    let s5 = (
        UrlStep::Note(NoteStep::Save(true, SaveStep::Publishing)),
        Action::Publish(Document::Users),
    );
    lemma_push(request, e4, Event::Done, s4, s5);
    let e5 = e4.push(Event::Done);
    let s6 = (
        UrlStep::Note(NoteStep::Save(true, SaveStep::Unlocking(None))),
        Action::Unlock(Document::Users),
    );
    lemma_push(request, e5, Event::Done, s5, s6);
    let e6 = e5.push(Event::Done);
    let s7 = (UrlStep::Open, Action::OpenNotice(Message::Starting));
    lemma_push(request, e6, Event::Done, s6, s7);
    let e7 = e6.push(Event::Done);
    let s8 = (UrlStep::Pipeline(PipelineStep::Clock), Action::ReadClock);
    lemma_push(request, e7, Event::Done, s7, s8);
    let e8 = e7.push(Event::Done);
    let s9 = (UrlStep::Pipeline(PipelineStep::Start(started)), Action::StartDownload(started));
    lemma_push(request, e8, Event::Clock(started), s8, s9);
    let e9 = e8.push(Event::Clock(started));
    let s10 = (UrlStep::Pipeline(PipelineStep::Read(started, None)), Action::ReadLine);
    lemma_push(request, e9, Event::Done, s9, s10);
    let e10 = e9.push(Event::Done);
    assert(good_start(noted, started, users) == e10);
}

proof fn lemma_good_upload(request: UrlRequest, events: Seq<Event>, file: MediaFile)
    requires
        url_lawful(request, events),
        url_run(request, events) == (
            UrlStep::Pipeline(PipelineStep::Notify(file)),
            Action::EditNotice(Message::Uploading),
        ),
    ensures
        url_lawful(request, events + good_upload()),
        url_run(request, events + good_upload()) == (
            UrlStep::Pipeline(PipelineStep::Log(LogStep::Clock)),
            Action::ReadClock,
        ),
{
    let s0 = url_run(request, events);
    let s1 = (UrlStep::Pipeline(PipelineStep::Upload(file)), Action::Upload(file));
    lemma_push(request, events, Event::Done, s0, s1);
    let e1 = events.push(Event::Done);
    let s2 = (UrlStep::Pipeline(PipelineStep::Close), Action::CloseNotice);
    lemma_push(request, e1, Event::Done, s1, s2);
    let e2 = e1.push(Event::Done);
    let s3 = (UrlStep::Pipeline(PipelineStep::Log(LogStep::Clock)), Action::ReadClock);
    lemma_push(request, e2, Event::Done, s2, s3);
    let e3 = e2.push(Event::Done);
    assert(events + good_upload() == e3);
}

proof fn lemma_good_logging(
    request: UrlRequest,
    events: Seq<Event>,
    logged: UtcTime,
    logs: String,
)
    requires
        url_lawful(request, events),
        url_run(request, events) == (
            UrlStep::Pipeline(PipelineStep::Log(LogStep::Clock)),
            Action::ReadClock,
        ),
        logged.valid(),
    ensures
        url_lawful(request, events + good_logging(logged, logs)),
        url_run(request, events + good_logging(logged, logs)) == (
            UrlStep::Pipeline(PipelineStep::Log(LogStep::Count)),
            Action::CountDownload(logged),
        ),
{
    let s0 = url_run(request, events);
    let s1 = (
        UrlStep::Pipeline(PipelineStep::Log(LogStep::Append(logged))),
        Action::AppendLog(logged),
    );
    lemma_push(request, events, Event::Clock(logged), s0, s1);
    let e1 = events.push(Event::Clock(logged));
    let s2 = (
        UrlStep::Pipeline(PipelineStep::Log(LogStep::SaveLogs(logged, SaveStep::Locking))),
        Action::Lock(Document::Logs),
    );
    lemma_push(request, e1, Event::Done, s1, s2);
    let e2 = e1.push(Event::Done);
    let s3 = (
        UrlStep::Pipeline(PipelineStep::Log(LogStep::SaveLogs(logged, SaveStep::Rendering))),
        Action::Render(Document::Logs),
    );
    lemma_push(request, e2, Event::Done, s2, s3);
    let e3 = e2.push(Event::Done);
    let s4 = (
        UrlStep::Pipeline(PipelineStep::Log(LogStep::SaveLogs(logged, SaveStep::Writing))),
        Action::WriteAside(Document::Logs, logs),
    );
    lemma_push(request, e3, Event::Text(logs), s3, s4);
    let e4 = e3.push(Event::Text(logs));
    let s5 = (
        UrlStep::Pipeline(PipelineStep::Log(LogStep::SaveLogs(logged, SaveStep::Publishing))),
        Action::Publish(Document::Logs),
    );
    lemma_push(request, e4, Event::Done, s4, s5);
    let e5 = e4.push(Event::Done);
    let s6 = (
        UrlStep::Pipeline(PipelineStep::Log(LogStep::SaveLogs(logged, SaveStep::Unlocking(None)))),
        Action::Unlock(Document::Logs),
    );
    lemma_push(request, e5, Event::Done, s5, s6);
    let e6 = e5.push(Event::Done);
    let s7 = (UrlStep::Pipeline(PipelineStep::Log(LogStep::Count)), Action::CountDownload(logged));
    lemma_push(request, e6, Event::Done, s6, s7);
    let e7 = e6.push(Event::Done);
    assert(events + good_logging(logged, logs) == e7);
}

proof fn lemma_good_counting(
    request: UrlRequest,
    events: Seq<Event>,
    logged: UtcTime,
    users: String,
)
    requires
        url_lawful(request, events),
        url_run(request, events) == (
            UrlStep::Pipeline(PipelineStep::Log(LogStep::Count)),
            Action::CountDownload(logged),
        ),
    ensures
        url_lawful(request, events + good_counting(users)),
        url_run(request, events + good_counting(users)) == (
            UrlStep::Over,
            Action::Finish(Ok(())),
        ),
{
    let s0 = url_run(request, events);
    let s1 = (
        UrlStep::Pipeline(PipelineStep::Log(LogStep::SaveUsers(SaveStep::Locking))),
        Action::Lock(Document::Users),
    );
    lemma_push(request, events, Event::Done, s0, s1);
    let e1 = events.push(Event::Done);
    let s2 = (
        UrlStep::Pipeline(PipelineStep::Log(LogStep::SaveUsers(SaveStep::Rendering))),
        Action::Render(Document::Users),
    );
    lemma_push(request, e1, Event::Done, s1, s2);
    let e2 = e1.push(Event::Done);
    let s3 = (
        UrlStep::Pipeline(PipelineStep::Log(LogStep::SaveUsers(SaveStep::Writing))),
        Action::WriteAside(Document::Users, users),
    );
    lemma_push(request, e2, Event::Text(users), s2, s3);
    let e3 = e2.push(Event::Text(users));
    let s4 = (
        UrlStep::Pipeline(PipelineStep::Log(LogStep::SaveUsers(SaveStep::Publishing))),
        Action::Publish(Document::Users),
    );
    lemma_push(request, e3, Event::Done, s3, s4);
    let e4 = e3.push(Event::Done);
    let s5 = (
        UrlStep::Pipeline(PipelineStep::Log(LogStep::SaveUsers(SaveStep::Unlocking(None)))),
        Action::Unlock(Document::Users),
    );
    lemma_push(request, e4, Event::Done, s4, s5);
    let e5 = e4.push(Event::Done);
    let s6 = (UrlStep::Over, Action::Finish(Ok(())));
    lemma_push(request, e5, Event::Done, s5, s6);
    let e6 = e5.push(Event::Done);
    assert(events + good_counting(users) == e6);
}

proof fn lemma_good_end(
    request: UrlRequest,
    events: Seq<Event>,
    file: MediaFile,
    logged: UtcTime,
    logs: String,
    users: String,
)
    requires
        url_lawful(request, events),
        url_run(request, events) == (
            UrlStep::Pipeline(PipelineStep::Notify(file)),
            Action::EditNotice(Message::Uploading),
        ),
        logged.valid(),
    ensures
        url_lawful(request, events + good_end(logged, logs, users)),
        url_run(request, events + good_end(logged, logs, users)) == (
            UrlStep::Over,
            Action::Finish(Ok(())),
        ),
{
    let e1 = events + good_upload();
    let e2 = e1 + good_logging(logged, logs);
    lemma_good_upload(request, events, file);
    lemma_good_logging(request, e1, logged, logs);
    lemma_good_counting(request, e2, logged, users);
    assert(events + good_end(logged, logs, users) == e2 + good_counting(users));
}

/// Where all goes well, a download that is begun is archived, whatever its output
/// was: a file within the limit as it is, and a larger one once it is compressed
/// to fit.
pub proof fn law_downloads_are_archived(
    request: UrlRequest,
    reading: Seq<Event>,
    started: UtcTime,
    shown: Option<Shown>,
    bytes: u64,
    compressed: u64,
    logged: UtcTime,
    logs: String,
    users: String,
)
    requires
        url_lawful(request, reading),
        url_run(request, reading) == (
            UrlStep::Pipeline(PipelineStep::Read(started, shown)),
            Action::ReadLine,
        ),
        logged.valid(),
        bytes > request.limit ==> compressed <= request.limit,
    ensures
        ({
            let measuring = reading + seq![
                Event::EndOfOutput,
                Event::Exited(true),
                Event::Present(true),
                Event::Size(bytes),
            ];
            let fitting = if bytes <= request.limit {
                measuring
            } else {
                measuring + seq![
                    Event::Done,
                    Event::Exited(true),
                    Event::Size(compressed),
                    Event::Done,
                ]
            };
            let all = fitting + good_end(logged, logs, users);
            url_lawful(request, all) && url_run(request, all) == (
                UrlStep::Over,
                Action::Finish(Ok(())),
            )
        }),
{
    let s0 = url_run(request, reading);
    let s1 = (UrlStep::Pipeline(PipelineStep::Await(started)), Action::AwaitDownload);
    lemma_push(request, reading, Event::EndOfOutput, s0, s1);
    let e1 = reading.push(Event::EndOfOutput);
    let s2 = (UrlStep::Pipeline(PipelineStep::Probe(started)), Action::Probe(raw_file(started)));
    lemma_push(request, e1, Event::Exited(true), s1, s2);
    let e2 = e1.push(Event::Exited(true));
    let s3 = (
        UrlStep::Pipeline(PipelineStep::Measure(started)),
        Action::Measure(raw_file(started)),
    );
    lemma_push(request, e2, Event::Present(true), s2, s3);
    let e3 = e2.push(Event::Present(true));
    let e4 = e3.push(Event::Size(bytes));
    assert(reading + seq![
        Event::EndOfOutput,
        Event::Exited(true),
        Event::Present(true),
        Event::Size(bytes),
    ] == e4);
    if bytes <= request.limit {
        lemma_push(
            request,
            e3,
            Event::Size(bytes),
            s3,
            (
                UrlStep::Pipeline(PipelineStep::Notify(raw_file(started))),
                Action::EditNotice(Message::Uploading),
            ),
        );
        lemma_good_end(request, e4, raw_file(started), logged, logs, users);
    } else {
        let t0 = (
            UrlStep::Pipeline(PipelineStep::Announce(started)),
            Action::EditNotice(Message::Compressing),
        );
        lemma_push(request, e3, Event::Size(bytes), s3, t0);
        let t1 = (UrlStep::Pipeline(PipelineStep::Encode(started)), Action::Encode(started));
        lemma_push(request, e4, Event::Done, t0, t1);
        let f1 = e4.push(Event::Done);
        let t2 = (
            UrlStep::Pipeline(PipelineStep::Remeasure(started)),
            Action::Measure(compressed_file(started)),
        );
        lemma_push(request, f1, Event::Exited(true), t1, t2);
        let f2 = f1.push(Event::Exited(true));
        let t3 = (
            UrlStep::Pipeline(PipelineStep::Replace(started)),
            Action::Remove(raw_file(started)),
        );
        lemma_push(request, f2, Event::Size(compressed), t2, t3);
        let f3 = f2.push(Event::Size(compressed));
        let t4 = (
            UrlStep::Pipeline(PipelineStep::Notify(compressed_file(started))),
            Action::EditNotice(Message::Uploading),
        );
        lemma_push(request, f3, Event::Done, t3, t4);
        let f4 = f3.push(Event::Done);
        assert(e4 + seq![
            Event::Done,
            Event::Exited(true),
            Event::Size(compressed),
            Event::Done,
        ] == f4);
        lemma_good_end(request, f4, compressed_file(started), logged, logs, users);
    }
}

} // verus!
