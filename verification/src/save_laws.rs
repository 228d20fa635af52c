//! What holds of saves of one document that run side by side, in whatever order
//! their steps come.
use vstd::prelude::*;

use crate::protocol::{save_next, Action, Event, Flow, SaveStep};
use crate::storage::{renamed, same_at, temporary, written, Document, Files};

verus! {

/// One save: where it stands, and the text that it was given to write.
pub ghost struct Saver {
    pub place: Flow<SaveStep, ()>,
    pub text: Option<Seq<char>>,
}

/// Saves of one document at one moment: who holds its lock, and what is on disk.
pub ghost struct Saving {
    pub savers: Seq<Saver>,
    pub holder: Option<int>,
    pub files: Files,
}

/// What happens next.
pub ghost enum Move {
    /// The action that a save asks for is answered.
    Answered(int, Event),
    /// A part of what a save writes aside reaches the disk.
    Torn(int),
    /// Other files change.
    Elsewhere,
}

/// A save that has yet to begin.
pub open spec fn waiting(document: Document) -> Saver {
    Saver { place: Flow::Next(SaveStep::Locking, Action::Lock(document)), text: None }
}

/// Nobody has begun.
pub open spec fn at_rest(document: Document, s: Saving) -> bool {
    s.holder is None && forall|i: int|
        0 <= i < s.savers.len() ==> #[trigger] s.savers[i] == waiting(document)
}

/// The files differ at most in the one written aside.
pub open spec fn differ_aside(a: Files, b: Files, document: Document) -> bool {
    forall|p: Seq<char>| p != temporary(document.spec_path()) ==> #[trigger] same_at(a, b, p)
}

/// What the world does when it answers the action of save `i` with the event. The
/// lock is given to one save at a time. Writing aside may fail with anything left
/// there; to publish is to rename, which happens as a whole or not at all, and
/// cannot happen without a file aside.
pub open spec fn performed(
    document: Document,
    i: int,
    action: Action,
    event: Event,
    a: Saving,
    b: Saving,
) -> bool {
    let path = document.spec_path();
    match (action, event) {
        (Action::Lock(_), _) => a.holder is None && b.holder == Some(i) && b.files == a.files,
        (Action::Unlock(_), _) => b.holder is None && b.files == a.files,
        (Action::WriteAside(_, data), Event::Done) => b.holder == a.holder && b.files == written(
            a.files,
            temporary(path),
            data@,
        ),
        (Action::WriteAside(_, _), _) => b.holder == a.holder && differ_aside(
            b.files,
            a.files,
            document,
        ),
        (Action::Publish(_), Event::Done) => b.holder == a.holder && a.files.contains_key(
            temporary(path),
        ) && b.files == renamed(a.files, temporary(path), path),
        _ => b.holder == a.holder && b.files == a.files,
    }
}

/// The save once its action is answered.
pub open spec fn answered_saver(document: Document, saver: Saver, event: Event) -> Saver {
    match saver.place {
        Flow::Next(step, _) => Saver {
            place: save_next(document, step, event),
            text: match (step, event) {
                (SaveStep::Rendering, Event::Text(data)) => Some(data@),
                _ => saver.text,
            },
        },
        _ => saver,
    }
}

/// The move leads from one moment to the next.
pub open spec fn leads(document: Document, a: Saving, next: Move, b: Saving) -> bool {
    let path = document.spec_path();
    match next {
        Move::Answered(i, event) => {
            &&& 0 <= i < a.savers.len()
            &&& a.savers[i].place matches Flow::Next(step, action)
            &&& action.awaits().admits(event)
            &&& performed(document, i, action, event, a, b)
            &&& b.savers == a.savers.update(i, answered_saver(document, a.savers[i], event))
        },
        Move::Torn(i) => {
            &&& 0 <= i < a.savers.len()
            &&& a.savers[i].place matches Flow::Next(_, Action::WriteAside(_, _))
            &&& differ_aside(b.files, a.files, document)
            &&& b.holder == a.holder && b.savers == a.savers
        },
        Move::Elsewhere => {
            &&& same_at(b.files, a.files, path)
            &&& same_at(b.files, a.files, temporary(path))
            &&& b.holder == a.holder && b.savers == a.savers
        },
    }
}

/// The moments follow from each other by the moves, from one at which nobody has
/// begun.
pub open spec fn side_by_side(document: Document, moments: Seq<Saving>, moves: Seq<Move>) -> bool {
    &&& moments.len() == moves.len() + 1
    &&& at_rest(document, moments[0])
    &&& forall|k: int|
        0 <= k < moves.len() ==> leads(document, moments[k], #[trigger] moves[k], moments[k + 1])
}

/// Nothing fails but the publishing of what is not there.
pub open spec fn sound(document: Document, moments: Seq<Saving>, moves: Seq<Move>) -> bool {
    forall|k: int|
        0 <= k < moves.len() ==> ((#[trigger] moves[k]) matches Move::Answered(i, Event::Failed(_))
            ==> ((moments[k].savers[i].place matches Flow::Next(_, Action::Publish(_)))
            && !moments[k].files.contains_key(temporary(document.spec_path()))))
}

/// The document is, in full, the text of save `i`.
pub open spec fn holds_text_of(document: Document, s: Saving, i: int) -> bool {
    &&& 0 <= i < s.savers.len()
    &&& s.files.contains_key(document.spec_path())
    &&& s.savers[i].text == Some(s.files[document.spec_path()])
}

/// The document is, in full, the text of some save.
pub open spec fn holds_a_text(document: Document, s: Saving) -> bool {
    exists|i: int| #[trigger] holds_text_of(document, s, i)
}

/// The save has the lock and has not yet released it.
pub open spec fn at_work(saver: Saver) -> bool {
    saver.place matches Flow::Next(step, _) && step !is Locking
}

/// The save has put its text in place.
pub open spec fn has_published(saver: Saver) -> bool {
    saver.place matches Flow::Done(_) || saver.place matches Flow::Next(
        SaveStep::Unlocking(None),
        _,
    )
}

/// What is known of a save by where it stands.
spec fn stands(document: Document, s: Saving, i: int) -> bool {
    let saver = s.savers[i];
    match saver.place {
        Flow::Next(step, action) => {
            &&& step is Locking || s.holder == Some(i)
            &&& match step {
                SaveStep::Locking => action == Action::Lock(document) && saver.text is None,
                SaveStep::Rendering => action == Action::Render(document) && saver.text is None,
                SaveStep::Writing => action matches Action::WriteAside(d, data) && d == document
                    && saver.text == Some(data@),
                SaveStep::Publishing => action == Action::Publish(document) && s.files.contains_key(
                    temporary(document.spec_path()),
                ) && saver.text == Some(s.files[temporary(document.spec_path())]),
                SaveStep::Unlocking(_) => action == Action::Unlock(document),
            }
        },
        _ => true,
    }
}

/// What holds at every moment.
spec fn kept(document: Document, s: Saving, first: Files) -> bool {
    &&& forall|i: int| 0 <= i < s.savers.len() ==> #[trigger] stands(document, s, i)
    &&& s.holder matches Some(h) ==> 0 <= h < s.savers.len() && at_work(s.savers[h])
    &&& same_at(s.files, first, document.spec_path()) || holds_a_text(document, s)
    &&& (exists|i: int| 0 <= i < s.savers.len() && #[trigger] has_published(s.savers[i]))
        ==> holds_a_text(document, s)
}

proof fn lemma_aside(path: Seq<char>)
    ensures
        temporary(path) != path,
{
    reveal_strlit(".tmp");
    assert(temporary(path).len() == path.len() + 4);
}

/// A text in place stays in place until another takes it.
proof fn lemma_text_stays(document: Document, a: Saving, next: Move, b: Saving)
    requires
        leads(document, a, next, b),
        forall|i: int| 0 <= i < a.savers.len() ==> #[trigger] stands(document, a, i),
        same_at(b.files, a.files, document.spec_path()),
        holds_a_text(document, a),
    ensures
        holds_a_text(document, b),
{
    let i = choose|i: int| #[trigger] holds_text_of(document, a, i);
    assert(stands(document, a, i));
    assert(holds_text_of(document, b, i));
}

proof fn lemma_kept_by_answer(
    document: Document,
    a: Saving,
    i: int,
    event: Event,
    b: Saving,
    first: Files,
)
    requires
        kept(document, a, first),
        leads(document, a, Move::Answered(i, event), b),
    ensures
        kept(document, b, first),
{
    let path = document.spec_path();
    lemma_aside(path);
    assert(stands(document, a, i));
    let next = Move::Answered(i, event);
    let publishes = a.savers[i].place matches Flow::Next(SaveStep::Publishing, _) && event is Done;
    assert forall|j: int| 0 <= j < b.savers.len() implies #[trigger] stands(document, b, j) by {
        assert(stands(document, a, j));
    }
    if publishes {
        assert(holds_text_of(document, b, i));
    } else {
        assert(same_at(b.files, a.files, path));
        if holds_a_text(document, a) {
            lemma_text_stays(document, a, next, b);
        }
        if exists|j: int| 0 <= j < b.savers.len() && #[trigger] has_published(b.savers[j]) {
            let j = choose|j: int| 0 <= j < b.savers.len() && #[trigger] has_published(b.savers[j]);
            assert(has_published(a.savers[j]));
        }
    }
}

proof fn lemma_kept(document: Document, a: Saving, next: Move, b: Saving, first: Files)
    requires
        kept(document, a, first),
        leads(document, a, next, b),
    ensures
        kept(document, b, first),
{
    let path = document.spec_path();
    lemma_aside(path);
    match next {
        Move::Answered(i, event) => {
            lemma_kept_by_answer(document, a, i, event, b, first);
        },
        _ => {
            if let Move::Torn(i) = next {
                assert(stands(document, a, i));
            }
            assert forall|j: int| 0 <= j < b.savers.len() implies #[trigger] stands(document, b, j) by {
                assert(stands(document, a, j));
            }
            assert(same_at(b.files, a.files, path));
            if holds_a_text(document, a) {
                lemma_text_stays(document, a, next, b);
            }
        },
    }
}

proof fn lemma_always_kept(document: Document, moments: Seq<Saving>, moves: Seq<Move>, k: int)
    requires
        side_by_side(document, moments, moves),
        0 <= k < moments.len(),
    ensures
        kept(document, moments[k], moments[0].files),
        moments[k].savers.len() == moments[0].savers.len(),
    decreases k,
{
    if k == 0 {
        let s = moments[0];
        assert forall|i: int| 0 <= i < s.savers.len() implies #[trigger] stands(document, s, i) by {
            assert(s.savers[i] == waiting(document));
        }
        assert forall|i: int| 0 <= i < s.savers.len() implies !#[trigger] has_published(
            s.savers[i],
        ) by {
            assert(s.savers[i] == waiting(document));
        }
    } else {
        lemma_always_kept(document, moments, moves, k - 1);
        assert(leads(document, moments[k - 1], moves[k - 1], moments[k]));
        lemma_kept(document, moments[k - 1], moves[k - 1], moments[k], moments[0].files);
    }
}

/// However saves of one document run side by side, and wherever they are cut
/// short, the document is never seen half written: at every moment it is as it
/// was in the beginning, or in full what one of the saves was to write.
pub proof fn law_never_half_written(
    document: Document,
    moments: Seq<Saving>,
    moves: Seq<Move>,
    k: int,
)
    requires
        side_by_side(document, moments, moves),
        0 <= k < moments.len(),
    ensures
        same_at(moments[k].files, moments[0].files, document.spec_path()) || holds_a_text(
            document,
            moments[k],
        ),
{
    lemma_always_kept(document, moments, moves, k);
}

/// Once one of the saves has succeeded, the document is in full what one of them
/// was to write.
pub proof fn law_saved_in_full(
    document: Document,
    moments: Seq<Saving>,
    moves: Seq<Move>,
    k: int,
    i: int,
)
    requires
        side_by_side(document, moments, moves),
        0 <= k < moments.len(),
        0 <= i < moments[k].savers.len(),
        moments[k].savers[i].place is Done,
    ensures
        holds_a_text(document, moments[k]),
{
    lemma_always_kept(document, moments, moves, k);
    assert(has_published(moments[k].savers[i]));
}

/// Saves of one document take turns: only one at a time is between the lock and
/// its release.
pub proof fn law_saves_take_turns(
    document: Document,
    moments: Seq<Saving>,
    moves: Seq<Move>,
    k: int,
    i: int,
    j: int,
)
    requires
        side_by_side(document, moments, moves),
        0 <= k < moments.len(),
        0 <= i < moments[k].savers.len(),
        0 <= j < moments[k].savers.len(),
        at_work(moments[k].savers[i]),
        at_work(moments[k].savers[j]),
    ensures
        i == j,
{
    lemma_always_kept(document, moments, moves, k);
    assert(stands(document, moments[k], i));
    assert(stands(document, moments[k], j));
}

/// What a save publishes is its own text: it finds that aside, in full.
pub proof fn law_publishes_its_own(
    document: Document,
    moments: Seq<Saving>,
    moves: Seq<Move>,
    k: int,
    i: int,
)
    requires
        side_by_side(document, moments, moves),
        0 <= k < moments.len(),
        0 <= i < moments[k].savers.len(),
        moments[k].savers[i].place matches Flow::Next(_, Action::Publish(_)),
    ensures
        moments[k].files.contains_key(temporary(document.spec_path())),
        moments[k].savers[i].text == Some(moments[k].files[temporary(document.spec_path())]),
{
    lemma_always_kept(document, moments, moves, k);
    assert(stands(document, moments[k], i));
}

/// The save has not failed.
pub open spec fn unharmed(saver: Saver) -> bool {
    saver.place !is Lost && !(saver.place matches Flow::Next(SaveStep::Unlocking(Some(_)), _))
}

/// Saves that run side by side do each other no harm: where nothing else fails,
/// none of them fails.
pub proof fn law_saves_do_no_harm(
    document: Document,
    moments: Seq<Saving>,
    moves: Seq<Move>,
    k: int,
    i: int,
)
    requires
        side_by_side(document, moments, moves),
        sound(document, moments, moves),
        0 <= k < moments.len(),
        0 <= i < moments[k].savers.len(),
    ensures
        unharmed(moments[k].savers[i]),
    decreases k,
{
    if k == 0 {
        assert(moments[0].savers[i] == waiting(document));
    } else {
        let a = moments[k - 1];
        let next = moves[k - 1];
        assert(leads(document, a, next, moments[k]));
        lemma_always_kept(document, moments, moves, k - 1);
        law_saves_do_no_harm(document, moments, moves, k - 1, i);
        assert(stands(document, a, i));
    }
}

/// The most answers that a save is away from its end.
pub open spec fn left_of(saver: Saver) -> nat {
    match saver.place {
        Flow::Next(step, _) => step.rank(),
        _ => 0,
    }
}

/// The most answers that the saves are away from their end.
pub open spec fn left_in(savers: Seq<Saver>) -> nat
    decreases savers.len(),
{
    if savers.len() == 0 {
        0
    } else {
        left_in(savers.drop_last()) + left_of(savers.last())
    }
}

/// How many of the moves are answers.
pub open spec fn answers_in(moves: Seq<Move>) -> nat
    decreases moves.len(),
{
    if moves.len() == 0 {
        0
    } else if moves.last() is Answered {
        answers_in(moves.drop_last()) + 1
    } else {
        answers_in(moves.drop_last())
    }
}

proof fn lemma_left_updated(savers: Seq<Saver>, i: int, saver: Saver)
    requires
        0 <= i < savers.len(),
    ensures
        left_in(savers.update(i, saver)) + left_of(savers[i]) == left_in(savers) + left_of(saver),
    decreases savers.len(),
{
    let updated = savers.update(i, saver);
    if i < savers.len() - 1 {
        lemma_left_updated(savers.drop_last(), i, saver);
        assert(updated.drop_last() == savers.drop_last().update(i, saver));
    } else {
        assert(updated.drop_last() == savers.drop_last());
    }
}

proof fn lemma_left_waiting(document: Document, savers: Seq<Saver>)
    requires
        forall|i: int| 0 <= i < savers.len() ==> #[trigger] savers[i] == waiting(document),
    ensures
        left_in(savers) == 5 * savers.len(),
    decreases savers.len(),
{
    if savers.len() > 0 {
        let fewer = savers.drop_last();
        assert forall|i: int| 0 <= i < fewer.len() implies #[trigger] fewer[i] == waiting(
            document,
        ) by {
            assert(savers[i] == waiting(document));
        }
        lemma_left_waiting(document, fewer);
    }
}

/// Saves come to their end: five answers for each are the most that they take.
pub proof fn law_saves_end(document: Document, moments: Seq<Saving>, moves: Seq<Move>)
    requires
        side_by_side(document, moments, moves),
    ensures
        answers_in(moves) + left_in(moments.last().savers) <= 5 * moments[0].savers.len(),
    decreases moves.len(),
{
    if moves.len() == 0 {
        lemma_left_waiting(document, moments[0].savers);
    } else {
        let k = moves.len() - 1;
        let earlier = moments.drop_last();
        let before = moves.drop_last();
        assert forall|j: int| 0 <= j < before.len() implies leads(
            document,
            earlier[j],
            #[trigger] before[j],
            earlier[j + 1],
        ) by {
            assert(leads(document, moments[j], moves[j], moments[j + 1]));
        }
        law_saves_end(document, earlier, before);
        assert(leads(document, moments[k], moves[k], moments[k + 1]));
        lemma_always_kept(document, moments, moves, k);
        if let Move::Answered(i, event) = moves[k] {
            assert(stands(document, moments[k], i));
            lemma_left_updated(
                moments[k].savers,
                i,
                answered_saver(document, moments[k].savers[i], event),
            );
        }
    }
}

/// The save can go on: it has the lock, or the lock is free.
pub open spec fn can_go_on(s: Saving, i: int) -> bool {
    &&& 0 <= i < s.savers.len()
    &&& s.savers[i].place matches Flow::Next(step, _)
    &&& step is Locking ==> s.holder is None
}

/// Saves never wait for each other in vain: as long as one of them is not over,
/// one of them can go on.
pub proof fn law_saves_go_on(
    document: Document,
    moments: Seq<Saving>,
    moves: Seq<Move>,
    k: int,
    i: int,
)
    requires
        side_by_side(document, moments, moves),
        0 <= k < moments.len(),
        0 <= i < moments[k].savers.len(),
        moments[k].savers[i].place is Next,
    ensures
        exists|j: int| #[trigger] can_go_on(moments[k], j),
{
    lemma_always_kept(document, moments, moves, k);
    match moments[k].holder {
        Some(h) => {
            assert(can_go_on(moments[k], h));
        },
        None => {
            assert(can_go_on(moments[k], i));
        },
    }
}

/// Two saves of one document that run side by side, where nothing else fails:
/// once neither has anything left to do both have succeeded, and the document is
/// in full what the one or the other was to write. At every moment before, it is
/// one of these or as it was in the beginning.
pub proof fn law_two_saves(document: Document, moments: Seq<Saving>, moves: Seq<Move>, k: int)
    requires
        side_by_side(document, moments, moves),
        sound(document, moments, moves),
        moments[0].savers.len() == 2,
        0 <= k < moments.len(),
    ensures
        ({
            let end = moments.last();
            (forall|j: int| !#[trigger] can_go_on(end, j)) ==> {
                &&& end.savers[0].place is Done
                &&& end.savers[1].place is Done
                &&& holds_text_of(document, end, 0) || holds_text_of(document, end, 1)
            }
        }),
        same_at(moments[k].files, moments[0].files, document.spec_path()) || holds_text_of(
            document,
            moments[k],
            0,
        ) || holds_text_of(document, moments[k], 1),
{
    lemma_always_kept(document, moments, moves, k);
    let last = moments.len() - 1;
    lemma_always_kept(document, moments, moves, last);
    law_saves_do_no_harm(document, moments, moves, last, 0);
    law_saves_do_no_harm(document, moments, moves, last, 1);
    if forall|j: int| !#[trigger] can_go_on(moments[last], j) {
        if moments[last].savers[0].place is Next {
            law_saves_go_on(document, moments, moves, last, 0);
        }
        if moments[last].savers[1].place is Next {
            law_saves_go_on(document, moments, moves, last, 1);
        }
        law_saved_in_full(document, moments, moves, last, 0);
        let i = choose|i: int| #[trigger] holds_text_of(document, moments[last], i);
        assert(i == 0 || i == 1);
    }
}

} // verus!
