//! What holds of the updates that show the progress of a download.
use vstd::prelude::*;

use crate::handlers::{UrlRequest, UrlStep};
use crate::messages::Message;
use crate::pipeline::PipelineStep;
use crate::progress::{due, Shown, UPDATE_INTERVAL};
use crate::protocol::{Action, Event};
use crate::url_runs::{lemma_last_turn, turn, url_lawful, url_run};

verus! {

/// An update of the progress was sent after the event at `i`, a line read at
/// `at`.
pub open spec fn update_at(request: UrlRequest, events: Seq<Event>, i: int, at: u128) -> bool {
    &&& 0 <= i < events.len()
    &&& events[i] matches Event::Line(_, time) && time == at
    &&& url_run(request, events.take(i + 1)).1 matches Action::EditNotice(message)
        && message is Downloading
}

/// The percentage shown last by the time of a step is at least as recent as an
/// update at `at`.
spec fn shown_since(step: UrlStep, at: u128) -> bool {
    match step {
        UrlStep::Pipeline(PipelineStep::Read(_, shown)) => shown matches Some(last) && last.at
            >= at,
        UrlStep::Pipeline(PipelineStep::Edit(_, shown)) => shown matches Some(last) && last.at
            >= at,
        UrlStep::Note(_) => false,
        UrlStep::Open => false,
        UrlStep::Pipeline(PipelineStep::Clock) => false,
        UrlStep::Pipeline(PipelineStep::Start(_)) => false,
        _ => true,
    }
}

/// What is asked for is an update of the progress.
spec fn is_update(action: Action) -> bool {
    action matches Action::EditNotice(message) && message is Downloading
}

proof fn lemma_turn_shows(request: UrlRequest, step: UrlStep, event: Event, at: u128)
    requires
        step.awaits().admits(event),
    ensures
        ({
            let (next, action) = turn(request, step, event);
            &&& shown_since(step, at) ==> shown_since(next, at)
            &&& is_update(action) && (event matches Event::Line(_, time) && time == at)
                ==> shown_since(next, at)
            &&& is_update(action) && shown_since(step, at) ==> (event matches Event::Line(_, time)
                && time - at > UPDATE_INTERVAL)
        }),
{
    reveal(turn);
}

proof fn lemma_shown_since(request: UrlRequest, events: Seq<Event>, i: int, at: u128)
    requires
        url_lawful(request, events),
        update_at(request, events, i, at),
    ensures
        shown_since(url_run(request, events).0, at),
    decreases events.len(),
{
    let before = events.drop_last();
    lemma_last_turn(request, events);
    lemma_turn_shows(request, url_run(request, before).0, events.last(), at);
    if i + 1 < events.len() {
        assert(before.take(i + 1) == events.take(i + 1));
        lemma_shown_since(request, before, i, at);
    } else {
        assert(events.take(i + 1) == events);
    }
}

/// Two updates of the progress are always more than the interval apart.
pub proof fn law_updates_paced(
    request: UrlRequest,
    events: Seq<Event>,
    i: int,
    a: u128,
    j: int,
    b: u128,
)
    requires
        url_lawful(request, events),
        update_at(request, events, i, a),
        update_at(request, events, j, b),
        i < j,
    ensures
        b - a > UPDATE_INTERVAL,
    decreases events.len(),
{
    let before = events.drop_last();
    lemma_last_turn(request, events);
    if j + 1 < events.len() {
        assert(before.take(i + 1) == events.take(i + 1));
        assert(before.take(j + 1) == events.take(j + 1));
        law_updates_paced(request, before, i, a, j, b);
    } else {
        assert(events.take(j + 1) == events);
        assert(before.take(i + 1) == events.take(i + 1));
        lemma_shown_since(request, before, i, a);
        lemma_turn_shows(request, url_run(request, before).0, events.last(), a);
    }
}

/// The percentage of the latest update.
pub open spec fn latest_update(request: UrlRequest, events: Seq<Event>) -> Option<Seq<char>>
    decreases events.len(),
{
    match url_run(request, events).1 {
        Action::EditNotice(Message::Downloading(pct)) => Some(pct@),
        _ => if events.len() == 0 {
            None
        } else {
            latest_update(request, events.drop_last())
        },
    }
}

/// The step knows the percentage of the latest update, if it may still be asked
/// for another.
spec fn remembers(step: UrlStep, latest: Option<Seq<char>>) -> bool {
    match step {
        UrlStep::Pipeline(PipelineStep::Read(_, shown)) => latest == pct_of(shown),
        UrlStep::Pipeline(PipelineStep::Edit(_, shown)) => latest == pct_of(shown),
        UrlStep::Note(_) => latest is None,
        UrlStep::Open => latest is None,
        UrlStep::Pipeline(PipelineStep::Clock) => latest is None,
        UrlStep::Pipeline(PipelineStep::Start(_)) => latest is None,
        _ => true,
    }
}

spec fn pct_of(shown: Option<Shown>) -> Option<Seq<char>> {
    match shown {
        Some(shown) => Some(shown.pct@),
        None => None,
    }
}

proof fn lemma_turn_remembers(
    request: UrlRequest,
    step: UrlStep,
    event: Event,
    latest: Option<Seq<char>>,
)
    requires
        step.awaits().admits(event),
        remembers(step, latest),
    ensures
        ({
            let (next, action) = turn(request, step, event);
            match action {
                Action::EditNotice(Message::Downloading(pct)) => latest != Some(pct@) && remembers(
                    next,
                    Some(pct@),
                ),
                _ => remembers(next, latest),
            }
        }),
{
    reveal(turn);
}

proof fn lemma_remembers(request: UrlRequest, events: Seq<Event>)
    requires
        url_lawful(request, events),
    ensures
        remembers(url_run(request, events).0, latest_update(request, events)),
    decreases events.len(),
{
    if events.len() > 0 {
        let before = events.drop_last();
        lemma_last_turn(request, events);
        lemma_remembers(request, before);
        lemma_turn_remembers(
            request,
            url_run(request, before).0,
            events.last(),
            latest_update(request, before),
        );
    }
}

/// An update never repeats the percentage of the one before it.
pub proof fn law_updates_differ(request: UrlRequest, events: Seq<Event>, pct: String)
    requires
        url_lawful(request, events),
        url_run(request, events).1 == Action::EditNotice(Message::Downloading(pct)),
    ensures
        events.len() > 0,
        latest_update(request, events.drop_last()) != Some(pct@),
{
    let before = events.drop_last();
    lemma_last_turn(request, events);
    lemma_remembers(request, before);
    lemma_turn_remembers(
        request,
        url_run(request, before).0,
        events.last(),
        latest_update(request, before),
    );
}

proof fn lemma_turn_updates(request: UrlRequest, step: UrlStep, event: Event)
    requires
        step.awaits().admits(event),
    ensures
        ({
            let (_, action) = turn(request, step, event);
            &&& action matches Action::EditNotice(Message::Downloading(pct)) ==> (
            event matches Event::Line(Some(reported), _) && reported == pct)
            &&& (event matches Event::Line(Some(pct), at) ==> {
                &&& step matches UrlStep::Pipeline(PipelineStep::Read(_, shown))
                &&& due(shown, pct@, at) ==> action == Action::EditNotice(
                    Message::Downloading(pct),
                )
            })
        }),
{
    reveal(turn);
}

/// An update shows the percentage of the line that was just read.
pub proof fn law_update_shows_its_line(request: UrlRequest, events: Seq<Event>, pct: String)
    requires
        url_lawful(request, events),
        url_run(request, events).1 == Action::EditNotice(Message::Downloading(pct)),
    ensures
        events.len() > 0,
        events.last() matches Event::Line(Some(reported), _) && reported == pct,
{
    lemma_last_turn(request, events);
    lemma_turn_updates(request, url_run(request, events.drop_last()).0, events.last());
}

/// None of the events is a line that reports a percentage.
pub open spec fn none_reported(events: Seq<Event>) -> bool {
    forall|i: int|
        0 <= i < events.len() ==> !((#[trigger] events[i]) matches Event::Line(Some(_), _))
}

proof fn lemma_none_shown(request: UrlRequest, events: Seq<Event>)
    requires
        url_lawful(request, events),
        none_reported(events),
    ensures
        latest_update(request, events) is None,
    decreases events.len(),
{
    if events.len() > 0 {
        let before = events.drop_last();
        assert forall|i: int| 0 <= i < before.len() implies !((
        #[trigger] before[i]) matches Event::Line(Some(_), _)) by {
            assert(before[i] == events[i]);
        }
        assert(!(events[events.len() - 1] matches Event::Line(Some(_), _)));
        lemma_last_turn(request, events);
        lemma_turn_updates(request, url_run(request, before).0, events.last());
        lemma_none_shown(request, before);
    }
}

/// The first percentage that is reported is always shown.
pub proof fn law_first_percentage_is_shown(
    request: UrlRequest,
    events: Seq<Event>,
    pct: String,
    at: u128,
)
    requires
        url_lawful(request, events),
        events.len() > 0,
        none_reported(events.drop_last()),
        events.last() == Event::Line(Some(pct), at),
    ensures
        url_run(request, events).1 == Action::EditNotice(Message::Downloading(pct)),
{
    let before = events.drop_last();
    lemma_last_turn(request, events);
    lemma_none_shown(request, before);
    lemma_remembers(request, before);
    lemma_turn_updates(request, url_run(request, before).0, events.last());
}

/// What was shown last by the time of a step.
spec fn shown_in(step: UrlStep) -> Option<Shown> {
    match step {
        UrlStep::Pipeline(PipelineStep::Read(_, shown)) => shown,
        UrlStep::Pipeline(PipelineStep::Edit(_, shown)) => shown,
        _ => None,
    }
}

proof fn lemma_turn_dates(request: UrlRequest, step: UrlStep, event: Event)
    requires
        step.awaits().admits(event),
    ensures
        ({
            let (next, action) = turn(request, step, event);
            shown_in(next) matches Some(last) ==> shown_in(step) == Some(last) || is_update(action)
                && (event matches Event::Line(_, time) && time == last.at)
        }),
{
    reveal(turn);
}

/// What a step holds to be shown last was shown, at the time that it holds.
proof fn lemma_shown_when(request: UrlRequest, events: Seq<Event>) -> (i: int)
    requires
        url_lawful(request, events),
    ensures
        shown_in(url_run(request, events).0) matches Some(last) ==> update_at(
            request,
            events,
            i,
            last.at,
        ),
    decreases events.len(),
{
    if events.len() == 0 {
        0
    } else {
        let before = events.drop_last();
        lemma_last_turn(request, events);
        lemma_turn_dates(request, url_run(request, before).0, events.last());
        let i = lemma_shown_when(request, before);
        if shown_in(url_run(request, events).0) == shown_in(url_run(request, before).0) {
            if 0 <= i < before.len() {
                assert(before.take(i + 1) == events.take(i + 1));
            }
            i
        } else {
            assert(events.take(events.len() as int) == events);
            events.len() - 1
        }
    }
}

/// A percentage is shown whenever it is another one than that of the latest
/// update, with the interval behind every update.
pub proof fn law_due_percentage_is_shown(
    request: UrlRequest,
    events: Seq<Event>,
    pct: String,
    at: u128,
)
    requires
        url_lawful(request, events),
        events.len() > 0,
        events.last() == Event::Line(Some(pct), at),
        latest_update(request, events.drop_last()) != Some(pct@),
        forall|i: int, earlier: u128| #[trigger]
            update_at(request, events.drop_last(), i, earlier) ==> at - earlier > UPDATE_INTERVAL,
    ensures
        url_run(request, events).1 == Action::EditNotice(Message::Downloading(pct)),
{
    let before = events.drop_last();
    lemma_last_turn(request, events);
    lemma_remembers(request, before);
    let i = lemma_shown_when(request, before);
    lemma_turn_updates(request, url_run(request, before).0, events.last());
}

} // verus!
