use vstd::prelude::*;
use crate::geometry::{clamp_point, clamp_to_screen, on_screen, MAX_HEIGHT, MAX_WIDTH};
use crate::overlay::{draw_shapes, drawable, shapes_spec, Shape};

verus! {

/// A pointer button.
#[derive(Clone, Copy, Debug, PartialEq, Eq, Structural)]
pub enum Button {
    /// The primary button, the only one that selects.
    Left,
    Right,
    Middle,
    Unknown(u8),
}

/// A global input event, with pointer coordinates already in screen pixels.
#[derive(Clone, Copy, Debug, PartialEq, Eq, Structural)]
pub enum InputEvent {
    /// The pointer moved to the given position.
    MouseMove(i32, i32),
    /// A pointer button went down.
    ButtonPress(Button),
    /// Any other event (a release, a key, the wheel).
    Other,
}

/// The selection shared between the listener and the caller that waits for it.
#[derive(Clone, Copy, Debug)]
pub struct State {
    /// First corner, set by the first primary press.
    pub p1: (i32, i32),
    /// Second corner, set by the second primary press.
    pub p2: (i32, i32),
    /// Primary presses counted so far, up to three.
    pub click: i32,
    /// Whether the selection is complete; nothing changes after that.
    pub should_exit: bool,
}

/// What the listener is to do after an event.
#[derive(Debug)]
pub struct Reaction {
    /// Shapes to draw on the overlay, in order.
    pub draws: Vec<Shape>,
    /// Whether to send the completion signal now.
    pub signal: bool,
}

/// The state before any event.
pub open spec fn initial_state() -> State {
    State { p1: (0, 0), p2: (0, 0), click: 0, should_exit: false }
}

/// Whether `e` is a press of the primary button.
pub open spec fn is_primary_press(e: InputEvent) -> bool {
    e == InputEvent::ButtonPress(Button::Left)
}

/// The pointer position tracked by the listener after `e`.
pub open spec fn next_position(p: (i32, i32), e: InputEvent) -> (i32, i32) {
    match e {
        InputEvent::MouseMove(x, y) => (x, y),
        _ => p,
    }
}

/// The state after `e`, with `p` the pointer position when it came.
pub open spec fn next_state(s: State, p: (i32, i32), e: InputEvent) -> State {
    if s.should_exit || !is_primary_press(e) {
        s
    } else if s.click + 1 >= 3 {
        State { click: (s.click + 1) as i32, should_exit: true, ..s }
    } else if s.click + 1 == 1 {
        State { p1: clamp_to_screen(p), click: 1, ..s }
    } else {
        State { p2: clamp_to_screen(p), click: 2, ..s }
    }
}

/// The shapes drawn on `e`: the figure of the current state first, then,
/// when a press recorded a corner, the figure of the new state. Nothing
/// once the selection is complete.
pub open spec fn reaction_draws(s: State, p: (i32, i32), e: InputEvent) -> Seq<Shape> {
    if s.should_exit {
        seq![]
    } else {
        let n = next_state(s, p, e);
        shapes_spec(s.click as int, s.p1, s.p2) + if is_primary_press(e) && n.click < 3 {
            shapes_spec(n.click as int, n.p1, n.p2)
        } else {
            seq![]
        }
    }
}

/// Whether `e` completes the selection.
pub open spec fn reaction_signal(s: State, e: InputEvent) -> bool {
    !s.should_exit && is_primary_press(e) && s.click + 1 >= 3
}

impl State {
    /// Whether the state is one that the listener can reach.
    pub open spec fn wf(&self) -> bool {
        &&& 0 <= self.click <= 3
        &&& self.should_exit <==> self.click == 3
        &&& on_screen(self.p1)
        &&& on_screen(self.p2)
        &&& self.click < 1 ==> self.p1 == (0i32, 0i32)
        &&& self.click < 2 ==> self.p2 == (0i32, 0i32)
    }

    /// The state before any event: no corner, no click.
    pub fn new() -> (r: State)
        ensures
            r == initial_state(),
            r.wf(),
    {
        State { p1: (0, 0), p2: (0, 0), click: 0, should_exit: false }
    }
}

/// Takes one input event: redraws the current figure, follows the
/// pointer, and on a primary press records the next corner or completes
/// the selection. Once complete, the state and the overlay are left alone.
pub fn handle_event(state: &mut State, position: &mut (i32, i32), event: InputEvent) -> (r:
    Reaction)
    requires
        old(state).wf(),
    ensures
        final(state).wf(),
        *final(state) == next_state(*old(state), *old(position), event),
        *final(position) == next_position(*old(position), event),
        r.draws@ == reaction_draws(*old(state), *old(position), event),
        r.signal == reaction_signal(*old(state), event),
        forall|i: int| 0 <= i < r.draws@.len() ==> drawable(#[trigger] r.draws@[i]),
{
    if let InputEvent::MouseMove(x, y) = event {
        *position = (x, y);
    }
    if state.should_exit {
        return Reaction { draws: Vec::new(), signal: false };
    }
    let mut draws = draw_shapes(state.click, state.p1, state.p2);
    if event == InputEvent::ButtonPress(Button::Left) {
        state.click = state.click + 1;
        if state.click >= 3 {
            state.should_exit = true;
            assert(draws@ =~= reaction_draws(*old(state), *old(position), event));
            return Reaction { draws, signal: true };
        }
        let corner = clamp_point(*position, MAX_WIDTH, MAX_HEIGHT);
        if state.click == 1 {
            state.p1 = corner;
        } else {
            state.p2 = corner;
        }
        let mut more = draw_shapes(state.click, state.p1, state.p2);
        draws.append(&mut more);
    }
    assert(draws@ =~= reaction_draws(*old(state), *old(position), event));
    Reaction { draws, signal: false }
}

/// The state after the events `ev`, from state `s` with the pointer at `p`.
pub open spec fn run_state(s: State, p: (i32, i32), ev: Seq<InputEvent>) -> State
    decreases ev.len(),
{
    if ev.len() == 0 {
        s
    } else {
        run_state(next_state(s, p, ev[0]), next_position(p, ev[0]), ev.drop_first())
    }
}

/// The pointer position after the events `ev`, from position `p`.
pub open spec fn run_position(p: (i32, i32), ev: Seq<InputEvent>) -> (i32, i32)
    decreases ev.len(),
{
    if ev.len() == 0 {
        p
    } else {
        run_position(next_position(p, ev[0]), ev.drop_first())
    }
}

/// How many completion signals the events `ev` send, from state `s` with
/// the pointer at `p`.
pub open spec fn signal_count(s: State, p: (i32, i32), ev: Seq<InputEvent>) -> nat
    decreases ev.len(),
{
    if ev.len() == 0 {
        0
    } else {
        (if reaction_signal(s, ev[0]) {
            1nat
        } else {
            0nat
        }) + signal_count(next_state(s, p, ev[0]), next_position(p, ev[0]), ev.drop_first())
    }
}

/// How many primary presses `ev` holds.
pub open spec fn presses(ev: Seq<InputEvent>) -> nat
    decreases ev.len(),
{
    if ev.len() == 0 {
        0
    } else {
        (if is_primary_press(ev[0]) {
            1nat
        } else {
            0nat
        }) + presses(ev.drop_first())
    }
}

/// The corners chosen by the events `ev` from the start, once they
/// complete the selection.
pub open spec fn selection_spec(ev: Seq<InputEvent>) -> Option<((i32, i32), (i32, i32))> {
    if presses(ev) >= 3 {
        let s = run_state(initial_state(), (0, 0), ev);
        Some((s.p1, s.p2))
    } else {
        None
    }
}

proof fn lemma_run_append(s: State, p: (i32, i32), a: Seq<InputEvent>, b: Seq<InputEvent>)
    ensures
        run_state(s, p, a + b) == run_state(run_state(s, p, a), run_position(p, a), b),
        run_position(p, a + b) == run_position(run_position(p, a), b),
        signal_count(s, p, a + b) == signal_count(s, p, a) + signal_count(
            run_state(s, p, a),
            run_position(p, a),
            b,
        ),
        presses(a + b) == presses(a) + presses(b),
    decreases a.len(),
{
    if a.len() == 0 {
        assert(a + b =~= b);
    } else {
        assert((a + b).drop_first() =~= a.drop_first() + b);
        assert((a + b)[0] == a[0]);
        lemma_run_append(next_state(s, p, a[0]), next_position(p, a[0]), a.drop_first(), b);
    }
}

proof fn lemma_run_one(s: State, p: (i32, i32), e: InputEvent)
    ensures
        run_state(s, p, seq![e]) == next_state(s, p, e),
        run_position(p, seq![e]) == next_position(p, e),
        signal_count(s, p, seq![e]) == if reaction_signal(s, e) {
            1nat
        } else {
            0nat
        },
        presses(seq![e]) == if is_primary_press(e) {
            1nat
        } else {
            0nat
        },
{
    let one = seq![e];
    assert(one.drop_first() =~= Seq::<InputEvent>::empty());
    assert(run_state(next_state(s, p, e), next_position(p, e), one.drop_first()) == next_state(s, p, e));
    assert(run_position(next_position(p, e), one.drop_first()) == next_position(p, e));
    assert(presses(one.drop_first()) == 0);
    assert(signal_count(next_state(s, p, e), next_position(p, e), one.drop_first()) == 0);
}

proof fn lemma_run_counts(s: State, p: (i32, i32), ev: Seq<InputEvent>)
    requires
        s.wf(),
    ensures
        run_state(s, p, ev).wf(),
        run_state(s, p, ev).click == if s.click + presses(ev) >= 3 {
            3
        } else {
            s.click + presses(ev)
        },
        signal_count(s, p, ev) == if s.click < 3 && s.click + presses(ev) >= 3 {
            1nat
        } else {
            0nat
        },
    decreases ev.len(),
{
    if ev.len() > 0 {
        lemma_run_counts(next_state(s, p, ev[0]), next_position(p, ev[0]), ev.drop_first());
    }
}

/// Events other than primary presses leave the selection as it is, whatever
/// it is: they never change the corners, the click count or completion,
/// and send no signal.
pub proof fn lemma_ignored_events_keep_state(s: State, p: (i32, i32), ev: Seq<InputEvent>)
    requires
        forall|i: int| 0 <= i < ev.len() ==> !is_primary_press(#[trigger] ev[i]),
    ensures
        run_state(s, p, ev) == s,
        signal_count(s, p, ev) == 0,
        presses(ev) == 0,
    decreases ev.len(),
{
    if ev.len() > 0 {
        assert(!is_primary_press(ev[0]));
        lemma_ignored_events_keep_state(next_state(s, p, ev[0]), next_position(p, ev[0]), ev.drop_first());
    }
}

/// After exactly one primary press, among any other events, one click is
/// counted, the first corner is the pointer position at the press clamped
/// to the screen, and the selection is not complete.
pub proof fn lemma_one_press(p0: (i32, i32), before: Seq<InputEvent>, after: Seq<InputEvent>)
    requires
        forall|i: int| 0 <= i < before.len() ==> !is_primary_press(#[trigger] before[i]),
        forall|i: int| 0 <= i < after.len() ==> !is_primary_press(#[trigger] after[i]),
    ensures
        ({
            let s = run_state(
                initial_state(),
                p0,
                before + seq![InputEvent::ButtonPress(Button::Left)] + after,
            );
            &&& s.click == 1
            &&& s.p1 == clamp_to_screen(run_position(p0, before))
            &&& !s.should_exit
        }),
{
    let press = seq![InputEvent::ButtonPress(Button::Left)];
    let s0 = initial_state();
    lemma_ignored_events_keep_state(s0, p0, before);
    let q = run_position(p0, before);
    lemma_run_append(s0, p0, before, press);
    lemma_run_append(s0, p0, before + press, after);
    lemma_run_one(s0, q, press[0]);
    let s1 = run_state(s0, p0, before + press);
    lemma_ignored_events_keep_state(s1, run_position(p0, before + press), after);
}

/// After exactly two primary presses, among any other events, the first
/// corner is still the clamped position at the first press, the second
/// corner is the clamped position at the second, two clicks are counted,
/// and the selection is not complete.
pub proof fn lemma_two_presses(
    p0: (i32, i32),
    before: Seq<InputEvent>,
    between: Seq<InputEvent>,
    after: Seq<InputEvent>,
)
    requires
        forall|i: int| 0 <= i < before.len() ==> !is_primary_press(#[trigger] before[i]),
        forall|i: int| 0 <= i < between.len() ==> !is_primary_press(#[trigger] between[i]),
        forall|i: int| 0 <= i < after.len() ==> !is_primary_press(#[trigger] after[i]),
    ensures
        ({
            let press = seq![InputEvent::ButtonPress(Button::Left)];
            let first = before + press;
            let s = run_state(initial_state(), p0, first + between + press + after);
            &&& s.click == 2
            &&& s.p1 == clamp_to_screen(run_position(p0, before))
            &&& s.p2 == clamp_to_screen(run_position(p0, first + between))
            &&& !s.should_exit
        }),
{
    let press = seq![InputEvent::ButtonPress(Button::Left)];
    let first = before + press;
    let s0 = initial_state();
    lemma_one_press(p0, before, between);
    let s1 = run_state(s0, p0, first + between);
    let q = run_position(p0, first + between);
    lemma_run_counts(s0, p0, first + between);
    lemma_run_append(s0, p0, first + between, press);
    lemma_run_one(s1, q, press[0]);
    let s2 = run_state(s0, p0, first + between + press);
    lemma_run_append(s0, p0, first + between + press, after);
    lemma_ignored_events_keep_state(s2, run_position(p0, first + between + press), after);
}

/// Once three primary presses have come, the selection is complete, the
/// completion signal has been sent exactly once, and no later event changes
/// the state or sends it again.
pub proof fn lemma_three_presses_complete(p0: (i32, i32), ev: Seq<InputEvent>, later: Seq<InputEvent>)
    requires
        presses(ev) == 3,
    ensures
        run_state(initial_state(), p0, ev).should_exit,
        run_state(initial_state(), p0, ev).click == 3,
        signal_count(initial_state(), p0, ev) == 1,
        run_state(initial_state(), p0, ev + later) == run_state(initial_state(), p0, ev),
        signal_count(initial_state(), p0, ev + later) == 1,
{
    let s0 = initial_state();
    lemma_run_counts(s0, p0, ev);
    lemma_run_append(s0, p0, ev, later);
    lemma_complete_is_terminal(run_state(s0, p0, ev), run_position(p0, ev), later);
}

/// A complete selection never changes again, sends no further signal, and
/// draws nothing more.
pub proof fn lemma_complete_is_terminal(s: State, p: (i32, i32), ev: Seq<InputEvent>)
    requires
        s.should_exit,
    ensures
        run_state(s, p, ev) == s,
        signal_count(s, p, ev) == 0,
        forall|q: (i32, i32), e: InputEvent|
            #[trigger] reaction_draws(s, q, e) == Seq::<Shape>::empty(),
        forall|e: InputEvent| !#[trigger] reaction_signal(s, e),
    decreases ev.len(),
{
    if ev.len() > 0 {
        lemma_complete_is_terminal(s, next_position(p, ev[0]), ev.drop_first());
    }
}

/// Runs the selection on a recorded stream of events, from the start with
/// the pointer at the origin, and gives the two corners once three primary
/// presses have come; `None` when the stream ends before that. Events after
/// the third press are not read.
pub fn select_region(events: &Vec<InputEvent>) -> (r: Option<((i32, i32), (i32, i32))>)
    ensures
        r == selection_spec(events@),
{
    let mut state = State::new();
    let mut position: (i32, i32) = (0, 0);
    let mut i: usize = 0;
    while i < events.len()
        invariant
            0 <= i <= events@.len(),
            state.wf(),
            !state.should_exit,
            state == run_state(initial_state(), (0, 0), events@.take(i as int)),
            position == run_position((0, 0), events@.take(i as int)),
            state.click as int == if presses(events@.take(i as int)) >= 3 {
                3
            } else {
                presses(events@.take(i as int)) as int
            },
        decreases events@.len() - i,
    {
        proof {
            let a = events@.take(i as int);
            let e = seq![events@[i as int]];
            assert(events@.take(i as int + 1) =~= a + e);
            lemma_run_append(initial_state(), (0, 0), a, e);
            lemma_run_one(state, position, events@[i as int]);
        }
        let _ = handle_event(&mut state, &mut position, events[i]);
        i = i + 1;
        if state.should_exit {
            proof {
                let a = events@.take(i as int);
                let b = events@.skip(i as int);
                assert(events@ =~= a + b);
                lemma_run_append(initial_state(), (0, 0), a, b);
                lemma_complete_is_terminal(state, position, b);
            }
            return Some((state.p1, state.p2));
        }
    }
    assert(events@.take(i as int) =~= events@);
    None
}

} // verus!
