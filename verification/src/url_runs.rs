//! The handling of a text as a run: the steps that a sequence of answers leads
//! through.
use vstd::prelude::*;

use crate::bookkeeping::{LogStep, NoteStep};
use crate::handlers::{url_begins, url_next, UrlRequest, UrlStep};
use crate::links::supported;
use crate::media::Media;
use crate::messages::BotError;
use crate::pipeline::{compressed_file, raw_file, PipelineStep};
use crate::protocol::{Action, Event};

verus! {

/// One turn of the handling: what `url_next` gives.
#[verifier::opaque]
pub open spec fn turn(request: UrlRequest, step: UrlStep, event: Event) -> (UrlStep, Action) {
    url_next(request, step, event)
}

/// Where the handling of a text stands after these events, and what it asks
/// for.
pub open spec fn url_run(request: UrlRequest, events: Seq<Event>) -> (UrlStep, Action)
    decreases events.len(),
{
    if events.len() == 0 {
        url_begins()
    } else {
        turn(request, url_run(request, events.drop_last()).0, events.last())
    }
}

/// Every event answers what was asked for.
pub open spec fn url_lawful(request: UrlRequest, events: Seq<Event>) -> bool
    decreases events.len(),
{
    events.len() > 0 ==> {
        &&& url_lawful(request, events.drop_last())
        &&& url_run(request, events.drop_last()).1.awaits().admits(events.last())
    }
}

/// The event at `i` was the answer to the action.
pub open spec fn answered(
    request: UrlRequest,
    events: Seq<Event>,
    i: int,
    action: Action,
    event: Event,
) -> bool {
    0 <= i < events.len() && url_run(request, events.take(i)).1 == action && events[i] == event
}

proof fn lemma_turn_fits(request: UrlRequest, step: UrlStep, event: Event)
    requires
        step.awaits().admits(event),
    ensures
        turn(request, step, event).0.awaits() == turn(request, step, event).1.awaits(),
{
    reveal(turn);
}

/// Whoever answers an action as it asks for gives the step an event that it
/// waits for.
pub proof fn law_answers_fit(request: UrlRequest, events: Seq<Event>)
    requires
        url_lawful(request, events),
    ensures
        url_run(request, events).0.awaits() == url_run(request, events).1.awaits(),
    decreases events.len(),
{
    if events.len() > 0 {
        let before = events.drop_last();
        law_answers_fit(request, before);
        lemma_turn_fits(request, url_run(request, before).0, events.last());
    }
}

/// The last event of a run brings one turn of it.
pub proof fn lemma_last_turn(request: UrlRequest, events: Seq<Event>)
    requires
        url_lawful(request, events),
        events.len() > 0,
    ensures
        url_lawful(request, events.drop_last()),
        url_run(request, events.drop_last()).0.awaits().admits(events.last()),
        url_run(request, events) == turn(
            request,
            url_run(request, events.drop_last()).0,
            events.last(),
        ),
        answered(
            request,
            events,
            events.len() - 1,
            url_run(request, events.drop_last()).1,
            events.last(),
        ),
{
    law_answers_fit(request, events.drop_last());
    assert(events.take(events.len() - 1) == events.drop_last());
}

/// One more event that is asked for brings one more turn.
pub proof fn lemma_push(
    request: UrlRequest,
    events: Seq<Event>,
    event: Event,
    here: (UrlStep, Action),
    next: (UrlStep, Action),
)
    requires
        url_lawful(request, events),
        url_run(request, events) == here,
        here.1.awaits().admits(event),
        url_next(request, here.0, event) == next,
    ensures
        url_lawful(request, events.push(event)),
        url_run(request, events.push(event)) == next,
{
    reveal(turn);
    assert(events.push(event).drop_last() == events);
}

/// What was answered stays answered.
pub proof fn lemma_answered_stays(
    request: UrlRequest,
    events: Seq<Event>,
    i: int,
    action: Action,
    event: Event,
)
    requires
        events.len() > 0,
        answered(request, events.drop_last(), i, action, event),
    ensures
        answered(request, events, i, action, event),
{
    assert(events.drop_last().take(i) == events.take(i));
}

/// The action that a step asks for, where the laws need to know it.
pub open spec fn asks(step: UrlStep, action: Action) -> bool {
    match step {
        UrlStep::Note(NoteStep::Update) => action is NoteUser,
        UrlStep::Pipeline(PipelineStep::Start(started)) => action == Action::StartDownload(started),
        UrlStep::Pipeline(PipelineStep::Measure(started)) => action == Action::Measure(
            raw_file(started),
        ),
        UrlStep::Pipeline(PipelineStep::Encode(started)) => action == Action::Encode(started),
        UrlStep::Pipeline(PipelineStep::Remeasure(started)) => action == Action::Measure(
            compressed_file(started),
        ),
        UrlStep::Pipeline(PipelineStep::Replace(started)) => action == Action::Remove(
            raw_file(started),
        ),
        UrlStep::Pipeline(PipelineStep::Upload(file)) => action == Action::Upload(file),
        _ => true,
    }
}

/// The step in which an action is asked for, where the laws need to know it.
pub open spec fn asked_in(step: UrlStep, action: Action) -> bool {
    match action {
        Action::NoteUser(_) => step is Note,
        Action::StartDownload(started) => step == UrlStep::Pipeline(PipelineStep::Start(started)),
        Action::OpenNotice(_) => step is Open,
        Action::Measure(file) => match file.media {
            Media::Raw => step == UrlStep::Pipeline(PipelineStep::Measure(file.started)),
            Media::Compressed => step == UrlStep::Pipeline(PipelineStep::Remeasure(file.started)),
        },
        Action::Encode(started) => step == UrlStep::Pipeline(PipelineStep::Encode(started)),
        Action::Upload(file) => step == UrlStep::Pipeline(PipelineStep::Upload(file)),
        Action::Remove(file) => match file.media {
            Media::Raw => step == UrlStep::Pipeline(PipelineStep::Replace(file.started)),
            Media::Compressed => step matches UrlStep::Pipeline(PipelineStep::Discard(_)),
        },
        Action::AppendLog(_) => step matches UrlStep::Pipeline(PipelineStep::Log(_)),
        Action::CountDownload(_) => step matches UrlStep::Pipeline(PipelineStep::Log(_)),
        _ => true,
    }
}

/// What has led to a step: the step before it, and the event that answered it.
pub open spec fn led_to(request: UrlRequest, step: UrlStep, event: Event, next: UrlStep) -> bool {
    match next {
        UrlStep::Note(NoteStep::Clock) => false,
        UrlStep::Note(NoteStep::Update) => step == UrlStep::Note(NoteStep::Clock) && event is Clock,
        UrlStep::Note(NoteStep::Save(may_use, _)) => {
            ||| step == UrlStep::Note(NoteStep::Update) && event == Event::Noted(may_use)
            ||| (step matches UrlStep::Note(NoteStep::Save(m, _)) && m == may_use && event !is Noted)
        },
        UrlStep::Open => step matches UrlStep::Note(NoteStep::Save(true, _)) && supported(
            request.url@,
        ) && event !is Noted,
        UrlStep::Abort(BotError::StillTooLarge(bytes)) => step == UrlStep::Pipeline(
            PipelineStep::Discard(bytes),
        ) && event !is Noted,
        UrlStep::Abort(_) => step is Pipeline && event !is Noted,
        UrlStep::Pipeline(PipelineStep::Clock) => step is Open && event !is Noted,
        UrlStep::Pipeline(running) => event !is Noted && match (running, step) {
            (PipelineStep::Start(_), UrlStep::Pipeline(PipelineStep::Clock)) => true,
            (PipelineStep::Read(_, _), UrlStep::Pipeline(PipelineStep::Start(_))) => true,
            (PipelineStep::Read(_, _), UrlStep::Pipeline(PipelineStep::Read(_, _))) => true,
            (PipelineStep::Read(_, _), UrlStep::Pipeline(PipelineStep::Edit(_, _))) => true,
            (PipelineStep::Edit(_, _), UrlStep::Pipeline(PipelineStep::Read(_, _))) => true,
            (PipelineStep::Await(_), UrlStep::Pipeline(PipelineStep::Read(_, _))) => true,
            (PipelineStep::Errors, UrlStep::Pipeline(PipelineStep::Await(_))) => true,
            (PipelineStep::Probe(_), UrlStep::Pipeline(PipelineStep::Await(_))) => true,
            (PipelineStep::Measure(_), UrlStep::Pipeline(PipelineStep::Probe(_))) => true,
            (
                PipelineStep::Announce(started),
                UrlStep::Pipeline(PipelineStep::Measure(measured)),
            ) => started == measured && (event matches Event::Size(n) && n > request.limit),
            (PipelineStep::Encode(started), UrlStep::Pipeline(PipelineStep::Announce(announced))) =>
                started == announced,
            (PipelineStep::Remeasure(started), UrlStep::Pipeline(PipelineStep::Encode(encoded))) =>
                started == encoded,
            (PipelineStep::Discard(bytes), UrlStep::Pipeline(PipelineStep::Remeasure(_))) => event
                == Event::Size(bytes) && bytes > request.limit,
            (
                PipelineStep::Replace(started),
                UrlStep::Pipeline(PipelineStep::Remeasure(measured)),
            ) => started == measured && (event matches Event::Size(n) && n <= request.limit),
            (PipelineStep::Notify(file), UrlStep::Pipeline(PipelineStep::Measure(started))) => file
                == raw_file(started) && (event matches Event::Size(n) && n <= request.limit),
            (PipelineStep::Notify(file), UrlStep::Pipeline(PipelineStep::Replace(started))) => file
                == compressed_file(started),
            (PipelineStep::Upload(file), UrlStep::Pipeline(PipelineStep::Notify(notified))) => file
                == notified,
            (PipelineStep::Close, UrlStep::Pipeline(PipelineStep::Upload(_))) => event is Done,
            (PipelineStep::Log(LogStep::Clock), UrlStep::Pipeline(PipelineStep::Close)) => true,
            (PipelineStep::Log(_), UrlStep::Pipeline(PipelineStep::Log(_))) => true,
            _ => false,
        },
        UrlStep::Answer => true,
        UrlStep::Over => true,
    }
}

/// What a turn does, in the terms of the laws.
#[verifier::spinoff_prover]
#[verifier::rlimit(40)]
pub proof fn lemma_turn(request: UrlRequest, step: UrlStep, event: Event)
    requires
        step.awaits().admits(event),
    ensures
        ({
            let (next, action) = turn(request, step, event);
            &&& asks(next, action)
            &&& asked_in(next, action)
            &&& led_to(request, step, event, next)
        }),
{
    reveal(turn);
}

} // verus!
