//! What holds of every run, whatever is reported and in whatever order.

use vstd::prelude::*;
use crate::playback::{
    initial_player, next, Action, Event, Phase, Player, EXIT_FAILURE, EXIT_OK,
};

verus! {

/// The actions asked for, one for each event, when the events are reported in
/// order to a run that stands at `p`.
pub open spec fn run(p: Player, events: Seq<Event>) -> Seq<Action>
    decreases events.len(),
{
    if events.len() == 0 {
        Seq::empty()
    } else {
        seq![next(p, events[0]).1] + run(next(p, events[0]).0, events.drop_first())
    }
}

/// How many of the actions end the run.
pub open spec fn finishes(actions: Seq<Action>) -> nat
    decreases actions.len(),
{
    if actions.len() == 0 {
        0
    } else if actions[0] is Finish {
        1 + finishes(actions.drop_first())
    } else {
        finishes(actions.drop_first())
    }
}

/// `n` times the report that a frame was shown.
pub open spec fn shown(n: nat) -> Seq<Event> {
    Seq::new(n, |i: int| Event::FrameShown)
}

/// Where the run stands after the events were reported in order.
pub open spec fn state_after(p: Player, events: Seq<Event>) -> Player
    decreases events.len(),
{
    if events.len() == 0 {
        p
    } else {
        state_after(next(p, events[0]).0, events.drop_first())
    }
}

/// The reports of a run that decodes `n` frames and then shows `k` frames.
pub open spec fn playing(n: usize, k: nat) -> Seq<Event> {
    seq![Event::Start, Event::Decoded { frames: n }] + shown(k)
}

/// What a run that decodes `n` frames stands at when its first frame is on.
pub open spec fn first_frame_on(n: usize, looping: bool) -> Player {
    Player { phase: Phase::Showing { frame: 0 }, frames: n, looping }
}

/// The reports of a run whose file cannot be read or decoded, followed by
/// whatever is reported after that.
pub open spec fn failing(rest: Seq<Event>) -> Seq<Event> {
    seq![Event::Start, Event::DecodeFailed] + rest
}

/// The reports of a run that decodes `n` frames, shows `k` frames and is then
/// interrupted, followed by whatever is reported after that.
pub open spec fn interrupted(n: usize, k: nat, rest: Seq<Event>) -> Seq<Event> {
    seq![Event::Start, Event::Decoded { frames: n }] + shown(k) + seq![Event::Interrupt] + rest
}

/// Every event is answered by one action, and the action at a later position
/// is the one that the rest of the run gives.
pub proof fn lemma_run_unfold(p: Player, events: Seq<Event>)
    ensures
        run(p, events).len() == events.len(),
        events.len() > 0 ==> run(p, events)[0] == next(p, events[0]).1,
        forall|j: int|
            1 <= j < events.len() ==> #[trigger] run(p, events)[j] == run(
                next(p, events[0]).0,
                events.drop_first(),
            )[j - 1],
    decreases events.len(),
{
    if events.len() > 0 {
        lemma_run_unfold(next(p, events[0]).0, events.drop_first());
    }
}

/// A run that has ended asks for nothing more.
pub proof fn lemma_finished_is_silent(p: Player, events: Seq<Event>)
    requires
        p.phase == Phase::Finished,
    ensures
        finishes(run(p, events)) == 0,
        forall|j: int| 0 <= j < events.len() ==> #[trigger] run(p, events)[j] == Action::Nothing,
    decreases events.len(),
{
    lemma_run_unfold(p, events);
    if events.len() > 0 {
        lemma_finished_is_silent(p, events.drop_first());
        assert(run(p, events).drop_first() =~= run(p, events.drop_first()));
    }
}

/// `Finish` is asked for exactly when the run ends, and it ends the run.
pub proof fn lemma_finish_ends(p: Player, e: Event)
    ensures
        next(p, e).1 is Finish <==> p.phase != Phase::Finished && next(p, e).0.phase
            == Phase::Finished,
        e == Event::Interrupt && p.phase != Phase::Finished ==> next(p, e).1 is Finish,
{
}

/// No run ends twice: whatever is reported, `Finish` is asked for at most
/// once.
pub proof fn lemma_finish_at_most_once(p: Player, events: Seq<Event>)
    ensures
        finishes(run(p, events)) <= 1,
    decreases events.len(),
{
    lemma_run_unfold(p, events);
    if events.len() > 0 {
        let ahead = next(p, events[0]).0;
        let rest = events.drop_first();
        assert(run(p, events).drop_first() =~= run(ahead, rest));
        lemma_finish_ends(p, events[0]);
        if next(p, events[0]).1 is Finish {
            lemma_finished_is_silent(ahead, rest);
        } else {
            lemma_finish_at_most_once(ahead, rest);
        }
    }
}

/// Once `Finish` has been asked for, nothing is asked for any more.
pub proof fn lemma_silent_after_finish(p: Player, events: Seq<Event>, i: int, j: int)
    requires
        0 <= i < j < events.len(),
        run(p, events)[i] is Finish,
    ensures
        run(p, events)[j] == Action::Nothing,
    decreases events.len(),
{
    lemma_run_unfold(p, events);
    let ahead = next(p, events[0]).0;
    let rest = events.drop_first();
    lemma_run_unfold(ahead, rest);
    if i == 0 {
        lemma_finish_ends(p, events[0]);
        lemma_finished_is_silent(ahead, rest);
    } else {
        lemma_silent_after_finish(ahead, rest, i - 1, j - 1);
    }
}

/// After an interrupt nothing is asked for any more: no frame is shown, and
/// the run is not ended a second time.
pub proof fn lemma_silent_after_interrupt(p: Player, events: Seq<Event>, i: int, j: int)
    requires
        0 <= i < j < events.len(),
        events[i] == Event::Interrupt,
    ensures
        run(p, events)[j] == Action::Nothing,
    decreases events.len(),
{
    lemma_run_unfold(p, events);
    let ahead = next(p, events[0]).0;
    let rest = events.drop_first();
    lemma_run_unfold(ahead, rest);
    if i == 0 {
        lemma_finished_is_silent(ahead, rest);
    } else {
        lemma_silent_after_interrupt(ahead, rest, i - 1, j - 1);
    }
}

/// A run that is interrupted before it has ended is ended exactly once.
pub proof fn lemma_interrupt_finishes_once(p: Player, events: Seq<Event>, i: int)
    requires
        p.phase != Phase::Finished,
        0 <= i < events.len(),
        events[i] == Event::Interrupt,
    ensures
        finishes(run(p, events)) == 1,
    decreases events.len(),
{
    lemma_run_unfold(p, events);
    let ahead = next(p, events[0]).0;
    let rest = events.drop_first();
    assert(run(p, events).drop_first() =~= run(ahead, rest));
    lemma_finish_ends(p, events[0]);
    if next(p, events[0]).1 is Finish {
        lemma_finished_is_silent(ahead, rest);
    } else {
        assert(i > 0);
        lemma_interrupt_finishes_once(ahead, rest, i - 1);
    }
}

/// While frames are being shown, each report of a shown frame is answered by
/// the next frame, and after the last frame by the first one if the run
/// loops: after `k` reports the frame `(frame + k) % frames` is on.
pub proof fn lemma_looping_cycles(p: Player, frame: usize, k: nat)
    requires
        p.phase == (Phase::Showing { frame }),
        p.looping,
        frame < p.frames,
    ensures
        state_after(p, shown(k)) == (Player {
            phase: Phase::Showing { frame: ((frame + k) % (p.frames as int)) as usize },
            ..p
        }),
        forall|j: int| 0 <= j < k ==> #[trigger] run(p, shown(k))[j] == (Action::Show {
            frame: ((frame + j + 1) % (p.frames as int)) as usize,
        }),
    decreases k,
{
    let n = p.frames as int;
    lemma_run_unfold(p, shown(k));
    if k == 0 {
        assert(frame % p.frames == frame) by (nonlinear_arith)
            requires
                0 <= frame < p.frames,
        ;
    } else {
        let ahead = next(p, Event::FrameShown).0;
        assert(shown(k)[0] == Event::FrameShown);
        assert(shown(k).drop_first() =~= shown((k - 1) as nat));
        let f1: usize = if frame + 1 < p.frames {
            (frame + 1) as usize
        } else {
            0
        };
        assert(ahead == Player { phase: Phase::Showing { frame: f1 }, ..p });
        lemma_looping_cycles(ahead, f1, (k - 1) as nat);
        lemma_run_unfold(ahead, shown((k - 1) as nat));
        lemma_wrap(frame as int, n, 0);
        lemma_wrap(frame as int, n, k - 1);
        assert(f1 == (frame + 0 + 1) % n) by {
            let f = f1 as int;
            assert(f % n == f) by (nonlinear_arith)
                requires
                    0 <= f < n,
            ;
        }
        assert forall|j: int| 0 <= j < k implies #[trigger] run(p, shown(k))[j] == (Action::Show {
            frame: ((frame + j + 1) % n) as usize,
        }) by {
            if j > 0 {
                assert(run(p, shown(k))[j] == run(ahead, shown((k - 1) as nat))[j - 1]);
                lemma_wrap(frame as int, n, j);
            }
        }
    }
}

/// The frame after `frame`, counted on from there, is `frame + 1` counted on,
/// modulo the number of frames.
proof fn lemma_wrap(frame: int, n: int, m: int)
    requires
        0 <= frame < n,
        0 <= m,
    ensures
        ((if frame + 1 < n {
            frame + 1
        } else {
            0
        }) + m) % n == (frame + 1 + m) % n,
{
    if frame + 1 >= n {
        assert((0 + m) % n == (n + m) % n) by (nonlinear_arith)
            requires
                n > 0,
        ;
    }
}

/// From the frame that is on, a run that does not loop shows each of the
/// frames that are left once, in order, and then ends with the code for
/// success.
pub proof fn lemma_plays_once(p: Player, frame: usize, k: nat)
    requires
        p.phase == (Phase::Showing { frame }),
        !p.looping,
        frame + k + 1 == p.frames,
    ensures
        forall|j: int| 0 <= j < k ==> #[trigger] run(p, shown(k + 1))[j] == (Action::Show {
            frame: (frame + j + 1) as usize,
        }),
        run(p, shown(k + 1))[k as int] == (Action::Finish { code: EXIT_OK, canvas_open: true }),
        state_after(p, shown(k + 1)).phase == Phase::Finished,
    decreases k,
{
    let events = shown(k + 1);
    lemma_run_unfold(p, events);
    let ahead = next(p, Event::FrameShown).0;
    assert(events[0] == Event::FrameShown);
    assert(events.drop_first() =~= shown(k));
    if k == 0 {
        assert(state_after(ahead, shown(0)) == ahead);
    } else {
        let f1 = (frame + 1) as usize;
        assert(ahead == Player { phase: Phase::Showing { frame: f1 }, ..p });
        lemma_plays_once(ahead, f1, (k - 1) as nat);
        lemma_run_unfold(ahead, shown(k));
        assert forall|j: int| 0 <= j < k implies #[trigger] run(p, events)[j] == (Action::Show {
            frame: (frame + j + 1) as usize,
        }) by {
            if j > 0 {
                assert(run(p, events)[j] == run(ahead, shown(k))[j - 1]);
            }
        }
        assert(run(p, events)[k as int] == run(ahead, shown(k))[k - 1]);
    }
}

/// The first two reports of a run that decodes `n > 0` frames are answered by
/// the decoding and the first frame; what is reported after them is answered
/// as from the state in which the first frame is on.
pub proof fn lemma_opening(n: usize, looping: bool, k: nat)
    requires
        n > 0,
    ensures
        run(initial_player(looping), playing(n, k)).len() == k + 2,
        run(initial_player(looping), playing(n, k))[0] == Action::Decode,
        run(initial_player(looping), playing(n, k))[1] == (Action::Show { frame: 0 }),
        forall|j: int|
            0 <= j < k ==> #[trigger] run(initial_player(looping), playing(n, k))[j + 2] == run(
                first_frame_on(n, looping),
                shown(k),
            )[j],
{
    let p = initial_player(looping);
    let events = playing(n, k);
    lemma_run_unfold(p, events);
    let ahead = next(p, events[0]).0;
    let tail = events.drop_first();
    lemma_run_unfold(ahead, tail);
    assert(tail[0] == Event::Decoded { frames: n });
    assert(next(ahead, tail[0]).0 == first_frame_on(n, looping));
    assert(tail.drop_first() =~= shown(k));
    assert(run(p, events)[1] == run(ahead, tail)[0]);
    assert forall|j: int| 0 <= j < k implies #[trigger] run(p, events)[j + 2] == run(
        first_frame_on(n, looping),
        shown(k),
    )[j] by {
        assert(run(p, events)[j + 2] == run(ahead, tail)[j + 1]);
    }
}

/// A run that does not loop shows each of its `n` frames exactly once, in
/// order, and then ends with the code for success.
pub proof fn lemma_plays_all_once(n: usize)
    requires
        n > 0,
    ensures
        run(initial_player(false), playing(n, n as nat)).len() == n + 2,
        run(initial_player(false), playing(n, n as nat))[0] == Action::Decode,
        forall|j: int|
            0 <= j < n ==> #[trigger] run(initial_player(false), playing(n, n as nat))[j + 1] == (
            Action::Show { frame: j as usize }),
        run(initial_player(false), playing(n, n as nat))[n + 1] == (Action::Finish {
            code: EXIT_OK,
            canvas_open: true,
        }),
{
    let p = initial_player(false);
    let events = playing(n, n as nat);
    let on = first_frame_on(n, false);
    lemma_opening(n, false, n as nat);
    lemma_plays_once(on, 0, (n - 1) as nat);
    assert(shown(((n - 1) as nat) + 1) =~= shown(n as nat));
    assert forall|j: int| 0 <= j < n implies #[trigger] run(p, events)[j + 1] == (Action::Show {
        frame: j as usize,
    }) by {
        if j > 0 {
            assert(run(p, events)[(j - 1) + 2] == run(on, shown(n as nat))[j - 1]);
        }
    }
    assert(run(p, events)[(n - 1) + 2] == run(on, shown(n as nat))[n - 1]);
}

/// A run that loops shows its `n` frames in order again and again, and does
/// not end by itself: the `j`-th frame shown is frame `j % n`.
pub proof fn lemma_loops_in_cycles(n: usize, k: nat)
    requires
        n > 0,
    ensures
        run(initial_player(true), playing(n, k)).len() == k + 2,
        forall|j: int|
            0 <= j <= k ==> #[trigger] run(initial_player(true), playing(n, k))[j + 1] == (
            Action::Show { frame: (j % (n as int)) as usize }),
        finishes(run(initial_player(true), playing(n, k))) == 0,
{
    let p = initial_player(true);
    let events = playing(n, k);
    let on = first_frame_on(n, true);
    lemma_opening(n, true, k);
    lemma_looping_cycles(on, 0, k);
    assert(0int % (n as int) == 0) by (nonlinear_arith)
        requires
            n > 0,
    ;
    assert forall|j: int| 0 <= j <= k implies #[trigger] run(p, events)[j + 1] == (Action::Show {
        frame: (j % (n as int)) as usize,
    }) by {
        if j > 0 {
            assert(run(p, events)[(j - 1) + 2] == run(on, shown(k))[j - 1]);
        }
    }
    assert forall|i: int| 0 <= i < run(p, events).len() implies !(#[trigger] run(p, events)[i]
        is Finish) by {
        if i > 0 {
            assert(run(p, events)[(i - 1) + 1] == (Action::Show {
                frame: ((i - 1) % (n as int)) as usize,
            }));
        }
    }
    lemma_no_finish(run(p, events));
}

/// Actions that are all `Decode` or `Show` hold no `Finish`.
proof fn lemma_no_finish(actions: Seq<Action>)
    requires
        forall|j: int| 0 <= j < actions.len() ==> !(#[trigger] actions[j] is Finish),
    ensures
        finishes(actions) == 0,
    decreases actions.len(),
{
    if actions.len() > 0 {
        let rest = actions.drop_first();
        assert forall|j: int| 0 <= j < rest.len() implies !(#[trigger] rest[j] is Finish) by {
            assert(rest[j] == actions[j + 1]);
        }
        lemma_no_finish(rest);
    }
}

/// A file that cannot be read or decoded ends the run with the failure code
/// before anything is shown and before the canvas is opened, and nothing is
/// shown afterwards.
pub proof fn lemma_decode_failure(looping: bool, rest: Seq<Event>)
    ensures
        run(initial_player(looping), failing(rest))[0] == Action::Decode,
        run(initial_player(looping), failing(rest))[1] == (Action::Finish {
            code: EXIT_FAILURE,
            canvas_open: false,
        }),
        forall|j: int|
            2 <= j < rest.len() + 2 ==> #[trigger] run(initial_player(looping), failing(rest))[j]
                == Action::Nothing,
        forall|j: int|
            0 <= j < rest.len() + 2 ==> !(#[trigger] run(initial_player(looping), failing(rest))[j]
                is Show),
        finishes(run(initial_player(looping), failing(rest))) == 1,
{
    let p = initial_player(looping);
    let events = failing(rest);
    lemma_run_unfold(p, events);
    let ahead = next(p, events[0]).0;
    let tail = events.drop_first();
    lemma_run_unfold(ahead, tail);
    assert(tail[0] == Event::DecodeFailed);
    assert(run(p, events)[1] == run(ahead, tail)[0]);
    assert forall|j: int| 2 <= j < rest.len() + 2 implies #[trigger] run(p, events)[j]
        == Action::Nothing by {
        lemma_silent_after_finish(p, events, 1, j);
    }
    lemma_finish_at_most_once(p, events);
    assert(run(p, events).drop_first() =~= run(ahead, tail));
    assert(run(ahead, tail)[0] is Finish);
    assert(finishes(run(ahead, tail)) >= 1);
}

/// Reporting two lists of events one after the other leaves the run where
/// the second list leaves it from where the first one did.
pub proof fn lemma_state_after_both(p: Player, first: Seq<Event>, second: Seq<Event>)
    ensures
        state_after(p, first + second) == state_after(state_after(p, first), second),
    decreases first.len(),
{
    if first.len() == 0 {
        assert(first + second =~= second);
    } else {
        let ahead = next(p, first[0]).0;
        assert((first + second)[0] == first[0]);
        assert((first + second).drop_first() =~= first.drop_first() + second);
        lemma_state_after_both(ahead, first.drop_first(), second);
    }
}

/// A looping animation of `n` frames that is interrupted after `k` frames
/// were shown is ended exactly once, by the interrupt and with the cleanup,
/// and whatever is reported afterwards asks for nothing.
pub proof fn lemma_interrupted_loop(n: usize, k: nat, rest: Seq<Event>)
    requires
        n > 0,
    ensures
        finishes(run(initial_player(true), interrupted(n, k, rest))) == 1,
        run(initial_player(true), interrupted(n, k, rest))[(k + 2) as int] == (Action::Finish {
            code: EXIT_OK,
            canvas_open: true,
        }),
        forall|j: int|
            k + 2 < j < k + 3 + rest.len() ==> #[trigger] run(
                initial_player(true),
                interrupted(n, k, rest),
            )[j] == Action::Nothing,
{
    let p = initial_player(true);
    let opening = seq![Event::Start, Event::Decoded { frames: n }];
    let events = interrupted(n, k, rest);
    let at = (k + 2) as int;
    assert(events[at] == Event::Interrupt);
    lemma_interrupt_finishes_once(p, events, at);
    assert forall|j: int| k + 2 < j < k + 3 + rest.len() implies #[trigger] run(p, events)[j]
        == Action::Nothing by {
        lemma_silent_after_interrupt(p, events, at, j);
    }
    let playing = Player { phase: Phase::Showing { frame: 0 }, frames: n, looping: true };
    assert(state_after(p, opening) == playing) by {
        let ahead = next(p, opening[0]).0;
        assert(opening.drop_first()[0] == Event::Decoded { frames: n });
        assert(opening.drop_first().drop_first().len() == 0);
        assert(state_after(ahead, opening.drop_first()) == state_after(
            next(ahead, opening.drop_first()[0]).0,
            opening.drop_first().drop_first(),
        ));
    }
    lemma_state_after_both(p, opening, shown(k));
    lemma_looping_cycles(playing, 0, k);
    assert(events.subrange(0, at) =~= opening + shown(k));
    lemma_interrupt_index_finishes(p, events, at);
}

/// An interrupt that reaches a run which has not ended is answered by
/// `Finish` with the code for success, and with the cleanup exactly if a
/// frame was on.
pub proof fn lemma_interrupt_index_finishes(p: Player, events: Seq<Event>, i: int)
    requires
        0 <= i < events.len(),
        events[i] == Event::Interrupt,
        state_after(p, events.subrange(0, i)).phase != Phase::Finished,
    ensures
        run(p, events)[i] == (Action::Finish {
            code: EXIT_OK,
            canvas_open: state_after(p, events.subrange(0, i)).phase is Showing,
        }),
    decreases i,
{
    lemma_run_unfold(p, events);
    if i == 0 {
    } else {
        let ahead = next(p, events[0]).0;
        let rest = events.drop_first();
        assert(events.subrange(0, i)[0] == events[0]);
        assert(events.subrange(0, i).drop_first() =~= rest.subrange(0, i - 1));
        lemma_interrupt_index_finishes(ahead, rest, i - 1);
    }
}

} // verus!
