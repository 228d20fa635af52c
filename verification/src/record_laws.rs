//! What the handling of a text leaves in the tables.
use vstd::prelude::*;

use crate::bookkeeping::{LogStep, NoteStep};
use crate::clock::UtcTime;
use crate::handlers::{UrlRequest, UrlStep};
use crate::pipeline::PipelineStep;
use crate::protocol::{Action, Event};
use crate::requests::{logs_then, users_then};
use crate::state::{counted, downloads_of, logged, noted, Logs, Users};
use crate::url_laws::users_after;
use crate::url_runs::{lemma_last_turn, turn, url_lawful, url_run};

verus! {

/// The log after a run, changed as the run has asked.
pub open spec fn logs_after(request: UrlRequest, logs: Logs, events: Seq<Event>) -> Logs
    decreases events.len(),
{
    if events.len() == 0 {
        logs
    } else {
        logs_then(
            request,
            logs_after(request, logs, events.drop_last()),
            url_run(request, events.drop_last()).1,
        )
    }
}

/// The users with the sender noted at `seen`.
pub open spec fn seen_at(request: UrlRequest, users: Users, seen: UtcTime) -> Users {
    noted(users, request.user, request.uid_key@, seen.spec_rfc3339())
}

/// The log with the link entered at `now`.
pub open spec fn logged_at(request: UrlRequest, logs: Logs, now: UtcTime) -> Logs {
    logged(logs, request.uid_key@, request.url@, now.spec_rfc3339())
}

/// The tables after a success: the sender was noted at `seen`; the link was
/// entered once and one download was counted, both at `now`.
pub open spec fn recorded(
    request: UrlRequest,
    users: Users,
    logs: Logs,
    events: Seq<Event>,
    seen: UtcTime,
    now: UtcTime,
) -> bool {
    &&& users_after(request, users, events) == counted(
        seen_at(request, users, seen),
        request.uid_key@,
        now.spec_rfc3339(),
    )
    &&& logs_after(request, logs, events) == logged_at(request, logs, now)
}

/// What the tables have become.
ghost struct Tables {
    users: Users,
    logs: Logs,
}

/// The tables by the time of a step that asks for the action, with the sender
/// noted at `seen` and the link entered at `now`, as far as it has come to that.
spec fn entered(
    request: UrlRequest,
    first: Tables,
    step: UrlStep,
    action: Action,
    then: Tables,
    seen: UtcTime,
    now: UtcTime,
) -> bool {
    let key = request.uid_key@;
    let known = seen_at(request, first.users, seen);
    let grown = logged_at(request, first.logs, now);
    let all = counted(known, key, now.spec_rfc3339());
    match step {
        UrlStep::Note(NoteStep::Clock) => then == first && idle(action),
        UrlStep::Note(NoteStep::Update) => then == first && action == Action::NoteUser(seen),
        UrlStep::Pipeline(PipelineStep::Log(LogStep::Append(at))) => at == now && then.users == known
            && then.logs == first.logs && action == Action::AppendLog(now),
        UrlStep::Pipeline(PipelineStep::Log(LogStep::SaveLogs(at, _))) => at == now && then.users
            == known && then.logs == grown && idle(action),
        UrlStep::Pipeline(PipelineStep::Log(LogStep::Count)) => then.users == known && then.logs
            == grown && action == Action::CountDownload(now),
        UrlStep::Pipeline(PipelineStep::Log(LogStep::SaveUsers(_))) => then.users == all
            && then.logs == grown && idle(action),
        UrlStep::Note(_) | UrlStep::Open | UrlStep::Pipeline(_) => then.users == known && then.logs
            == first.logs && idle(action),
        UrlStep::Abort(_) | UrlStep::Answer | UrlStep::Over => {
            &&& idle(action)
            &&& then.users == known && (then.logs == first.logs || then.logs == grown) || then.users
                == all && then.logs == grown
        },
    }
}

/// The action changes no table.
spec fn idle(action: Action) -> bool {
    action !is NoteUser && action !is AppendLog && action !is CountDownload
}

spec fn tables_then(request: UrlRequest, tables: Tables, action: Action) -> Tables {
    Tables {
        users: users_then(request, tables.users, action),
        logs: logs_then(request, tables.logs, action),
    }
}

proof fn lemma_turn_enters(
    request: UrlRequest,
    first: Tables,
    step: UrlStep,
    action: Action,
    then: Tables,
    event: Event,
    seen: UtcTime,
    now: UtcTime,
) -> (r: (UtcTime, UtcTime))
    requires
        step.awaits().admits(event),
        entered(request, first, step, action, then, seen, now),
    ensures
        ({
            let (next, asked) = turn(request, step, event);
            entered(
                request,
                first,
                next,
                asked,
                tables_then(request, then, action),
                r.0,
                r.1,
            )
        }),
{
    reveal(turn);
    match (step, event) {
        (UrlStep::Note(NoteStep::Clock), Event::Clock(time)) => (time, now),
        (UrlStep::Pipeline(PipelineStep::Log(LogStep::Clock)), Event::Clock(time)) => (seen, time),
        _ => (seen, now),
    }
}

proof fn lemma_entered(request: UrlRequest, first: Tables, events: Seq<Event>) -> (r: (
    UtcTime,
    UtcTime,
))
    requires
        url_lawful(request, events),
    ensures
        entered(
            request,
            first,
            url_run(request, events).0,
            url_run(request, events).1,
            Tables {
                users: users_after(request, first.users, events),
                logs: logs_after(request, first.logs, events),
            },
            r.0,
            r.1,
        ),
    decreases events.len(),
{
    if events.len() > 0 {
        let before = events.drop_last();
        lemma_last_turn(request, events);
        let (seen, now) = lemma_entered(request, first, before);
        let (step, action) = url_run(request, before);
        let then = Tables {
            users: users_after(request, first.users, before),
            logs: logs_after(request, first.logs, before),
        };
        lemma_turn_enters(request, first, step, action, then, events.last(), seen, now)
    } else {
        (arbitrary(), arbitrary())
    }
}

proof fn lemma_turn_ends_well(request: UrlRequest, step: UrlStep, event: Event)
    requires
        step.awaits().admits(event),
        step is Pipeline,
        turn(request, step, event).1 == Action::Finish(Ok(())),
    ensures
        step matches UrlStep::Pipeline(PipelineStep::Log(LogStep::SaveUsers(_))),
{
    reveal(turn);
}

/// A download that succeeds is on record: the link was entered once in the log,
/// and one download was counted at that same time.
pub proof fn law_success_is_recorded(
    request: UrlRequest,
    users: Users,
    logs: Logs,
    events: Seq<Event>,
)
    requires
        url_lawful(request, events),
        events.len() > 0,
        url_run(request, events.drop_last()).0 is Pipeline,
        url_run(request, events).1 == Action::Finish(Ok(())),
    ensures
        exists|seen: UtcTime, now: UtcTime| #[trigger]
            recorded(request, users, logs, events, seen, now),
{
    let before = events.drop_last();
    lemma_last_turn(request, events);
    lemma_turn_ends_well(request, url_run(request, before).0, events.last());
    let (seen, now) = lemma_entered(request, Tables { users, logs }, before);
    assert(recorded(request, users, logs, events, seen, now));
}

/// Whatever becomes of a text, it enters its link at most once, under the sender,
/// and nothing under anybody else.
pub proof fn law_texts_log_at_most_once(
    request: UrlRequest,
    logs: Logs,
    events: Seq<Event>,
    key: Seq<char>,
)
    requires
        url_lawful(request, events),
    ensures
        logs_after(request, logs, events) == logs || exists|now: UtcTime|
            logs_after(request, logs, events) == #[trigger] logged_at(request, logs, now),
        key != request.uid_key@ ==> downloads_of(logs_after(request, logs, events), key)
            == downloads_of(logs, key),
{
    let (seen, now) = lemma_entered(request, Tables { users: Map::empty(), logs }, events);
    if logs_after(request, logs, events) != logs {
        assert(logs_after(request, logs, events) == logged_at(request, logs, now));
    }
}

} // verus!
