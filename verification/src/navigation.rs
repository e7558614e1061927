//! Slide and build-step navigation of the player: where forward, backward and jump requests lead.
use vstd::prelude::*;

verus! {

/// The slide on screen and how many of its build steps are revealed.
#[derive(Clone, Copy, Debug, PartialEq, Eq, Structural)]
pub struct NavState {
    pub current_idx: usize,
    pub current_step: usize,
}

/// The requests gathered from one frame of input.
#[derive(Clone, Copy, Debug, PartialEq, Eq, Structural)]
pub struct NavInput {
    pub forward: bool,
    pub backward: bool,
    pub jump: Option<usize>,
}

/// What one frame of input did: the new position, the build step whose reveal animation starts (if a step
/// was revealed) and whether the slide changed (and, if so, whether it went back to the previous slide).
#[derive(Clone, Copy, Debug, PartialEq, Eq, Structural)]
pub struct NavOutcome {
    pub state: NavState,
    pub revealed_step: Option<usize>,
    pub slide_changed: bool,
    pub moved_back: bool,
}

/// The step a slide opens at when entered forwards: 1 when it has build steps, else 0.
pub open spec fn first_step(max_step: int) -> int {
    if max_step > 0 { 1 } else { 0 }
}

/// `s` is a position in a deck whose slides have the build-step counts `steps`.
pub open spec fn valid_state(s: NavState, steps: Seq<usize>) -> bool {
    &&& steps.len() <= usize::MAX
    &&& s.current_idx < steps.len()
    &&& s.current_step <= steps[s.current_idx as int]
    &&& steps[s.current_idx as int] > 0 ==> s.current_step >= 1
}

/// The slide index after a frame of input, before the step is settled.
pub open spec fn target_index(s: NavState, steps: Seq<usize>, input: NavInput) -> int {
    let idx = s.current_idx as int;
    let max = steps[idx] as int;
    let total = steps.len() as int;
    let next = input.forward && !(s.current_step < max) && idx + 1 < total;
    let prev = !input.forward && input.backward && !(s.current_step > 1) && idx > 0;
    if next {
        idx + 1
    } else if prev {
        idx - 1
    } else {
        match input.jump {
            Some(t) => if t < total { t as int } else { idx },
            None => idx,
        }
    }
}

/// Whether the frame's slide change (if any) went back to the previous slide.
pub open spec fn goes_back(s: NavState, steps: Seq<usize>, input: NavInput) -> bool {
    let idx = s.current_idx as int;
    let max = steps[idx] as int;
    let next = input.forward && !(s.current_step < max) && idx + 1 < steps.len();
    !next && !input.forward && input.backward && !(s.current_step > 1) && idx > 0
}

/// The position after a frame of input: a forward request reveals the next build step, or else moves to the
/// next slide; a backward request hides the last revealed step (down to 1), or else moves to the previous
/// slide, which opens fully revealed; a jump to an existing slide applies when no step move changed the slide.
/// Entering a slide otherwise opens it at its first step.
pub open spec fn navigate_spec(s: NavState, steps: Seq<usize>, input: NavInput) -> NavState {
    let idx = s.current_idx as int;
    let max = steps[idx] as int;
    let stepped = if input.forward {
        if s.current_step < max { s.current_step + 1 } else { s.current_step as int }
    } else if input.backward {
        if s.current_step > 1 { s.current_step - 1 } else { s.current_step as int }
    } else {
        s.current_step as int
    };
    let new_idx = target_index(s, steps, input);
    if new_idx != idx {
        let new_max = steps[new_idx] as int;
        NavState {
            current_idx: new_idx as usize,
            current_step: (if goes_back(s, steps, input) { new_max } else { first_step(new_max) }) as usize,
        }
    } else {
        NavState { current_idx: s.current_idx, current_step: stepped as usize }
    }
}

/// A forward request alone.
pub open spec fn forward_input() -> NavInput {
    NavInput { forward: true, backward: false, jump: None }
}

/// A backward request alone.
pub open spec fn backward_input() -> NavInput {
    NavInput { forward: false, backward: true, jump: None }
}

/// The opening position of a deck with the build-step counts `steps`: the first slide at its first step.
pub fn initial_state(steps: &[usize]) -> (r: NavState)
    requires
        steps@.len() >= 1,
    ensures
        r.current_idx == 0,
        r.current_step == first_step(steps@[0] as int),
        valid_state(r, steps@),
{
    let step = if steps[0] > 0 { 1 } else { 0 };
    NavState { current_idx: 0, current_step: step }
}

/// Applies one frame of navigation input to `s` in a deck with the build-step counts `steps`.
pub fn navigate(s: NavState, steps: &[usize], input: NavInput) -> (r: NavOutcome)
    requires
        s.current_idx < steps@.len(),
    ensures
        r.state == navigate_spec(s, steps@, input),
        r.slide_changed == (target_index(s, steps@, input) != s.current_idx),
        r.moved_back == (r.slide_changed && goes_back(s, steps@, input)),
        r.revealed_step == if input.forward && s.current_step < steps@[s.current_idx as int] {
            Some((s.current_step + 1) as usize)
        } else {
            None::<usize>
        },
{
    let idx = s.current_idx;
    let total = steps.len();
    let max = steps[idx];
    let mut step = s.current_step;
    let mut next = false;
    let mut prev = false;
    let mut revealed: Option<usize> = None;
    if input.forward {
        if step < max {
            step = step + 1;
            revealed = Some(step);
        } else if idx + 1 < total {
            next = true;
        }
    } else if input.backward {
        if step > 1 {
            step = step - 1;
        } else if idx > 0 {
            prev = true;
        }
    }
    let new_idx = if next {
        idx + 1
    } else if prev {
        idx - 1
    } else {
        match input.jump {
            Some(t) => if t < total { t } else { idx },
            None => idx,
        }
    };
    if new_idx != idx {
        let new_max = steps[new_idx];
        let new_step = if prev {
            new_max
        } else if new_max > 0 {
            1
        } else {
            0
        };
        NavOutcome {
            state: NavState { current_idx: new_idx, current_step: new_step },
            revealed_step: revealed,
            slide_changed: true,
            moved_back: prev,
        }
    } else {
        NavOutcome {
            state: NavState { current_idx: idx, current_step: step },
            revealed_step: revealed,
            slide_changed: false,
            moved_back: false,
        }
    }
}

/// The position after the deck is reloaded with the build-step counts `steps`: the same slide when it still
/// exists (else the last one), opened at its first step.
pub fn reload_state(s: NavState, steps: &[usize]) -> (r: NavState)
    ensures
        r.current_idx == if s.current_idx < steps@.len() {
            s.current_idx as int
        } else if steps@.len() > 0 {
            steps@.len() - 1
        } else {
            0
        },
        r.current_step == if r.current_idx < steps@.len() {
            first_step(steps@[r.current_idx as int] as int)
        } else {
            0
        },
        steps@.len() > 0 ==> valid_state(r, steps@),
{
    let total = steps.len();
    let last = if total > 0 { total - 1 } else { 0 };
    let idx = if s.current_idx < last { s.current_idx } else { last };
    let step = if idx < total && steps[idx] > 0 { 1 } else { 0 };
    NavState { current_idx: idx, current_step: step }
}

/// Every frame of input keeps the position valid.
pub proof fn lemma_navigate_keeps_valid(s: NavState, steps: Seq<usize>, input: NavInput)
    requires
        valid_state(s, steps),
    ensures
        valid_state(navigate_spec(s, steps, input), steps),
{
}

/// Stepping forward and then back returns to where the presenter was, unless forward had nowhere to go
/// (the last build step of the last slide).
pub proof fn lemma_forward_then_backward(s: NavState, steps: Seq<usize>)
    requires
        valid_state(s, steps),
        !(s.current_idx + 1 == steps.len() && s.current_step == steps[s.current_idx as int]),
    ensures
        navigate_spec(navigate_spec(s, steps, forward_input()), steps, backward_input()) == s,
{
}

/// Stepping back and then forward returns to where the presenter was, unless backward had nowhere to go
/// (the first slide with at most one step revealed).
pub proof fn lemma_backward_then_forward(s: NavState, steps: Seq<usize>)
    requires
        valid_state(s, steps),
        !(s.current_idx == 0 && s.current_step <= 1),
    ensures
        navigate_spec(navigate_spec(s, steps, backward_input()), steps, forward_input()) == s,
{
}

/// A jump to an existing slide lands on it at its first step.
pub proof fn lemma_jump_lands(s: NavState, steps: Seq<usize>, target: usize)
    requires
        valid_state(s, steps),
        target < steps.len(),
    ensures
        navigate_spec(s, steps, NavInput { forward: false, backward: false, jump: Some(target) }) == (if target
            == s.current_idx {
            s
        } else {
            NavState { current_idx: target, current_step: first_step(steps[target as int] as int) as usize }
        }),
{
}

/// The largest of the build-step orders `orders`; 0 for none.
pub open spec fn max_order(orders: Seq<usize>) -> usize
    decreases orders.len(),
{
    if orders.len() == 0 {
        0
    } else {
        let m = max_order(orders.drop_last());
        if orders.last() > m { orders.last() } else { m }
    }
}

/// The number of build steps of a slide whose step fragments have the orders `orders`: the largest order.
pub fn max_step(orders: &[usize]) -> (r: usize)
    ensures
        r == max_order(orders@),
        forall|i: int| 0 <= i < orders@.len() ==> orders@[i] <= r,
{
    let mut m: usize = 0;
    let mut i: usize = 0;
    while i < orders.len()
        invariant
            i <= orders@.len(),
            m == max_order(orders@.take(i as int)),
            forall|j: int| 0 <= j < i ==> orders@[j] <= m,
        decreases orders.len() - i,
    {
        proof {
            assert(orders@.take(i + 1).drop_last() =~= orders@.take(i as int));
        }
        if orders[i] > m {
            m = orders[i];
        }
        i += 1;
    }
    proof {
        assert(orders@.take(i as int) =~= orders@);
    }
    m
}

} // verus!
