use vstd::prelude::*;
use vstd::arithmetic::div_mod::{
    lemma_fundamental_div_mod, lemma_mod_bound, lemma_mod_multiples_vanish, lemma_small_mod,
};

use crate::build_state::{spec_diag_count, BuildState};

verus! {

/// The key events the core reacts to; any other key is ignored.
#[derive(Clone, Copy, Debug, PartialEq, Eq, Structural)]
pub enum KeyEvent {
    Quit,
    RequestBuild,
    MoveUp,
    MoveDown,
    Other,
}

/// What the orchestration loop must do after one key event.
#[derive(Clone, Copy, Debug, PartialEq, Eq, Structural)]
pub enum KeyAction {
    Terminate,
    AttemptBuild,
    Nothing,
}

/// Applies one key event to the raw cursor counter: move-up decrements and
/// move-down increments (saturating at the ends of the counter's range),
/// quit and build-request ask for their action, and any other key changes
/// nothing.
pub fn handle_key(counter: i64, key: KeyEvent) -> (r: (i64, KeyAction))
    ensures
        key == KeyEvent::MoveUp ==> r.1 == KeyAction::Nothing && r.0 == if counter == i64::MIN {
            i64::MIN as int
        } else {
            counter - 1
        },
        key == KeyEvent::MoveDown ==> r.1 == KeyAction::Nothing && r.0 == if counter == i64::MAX {
            i64::MAX as int
        } else {
            counter + 1
        },
        key == KeyEvent::Quit ==> r == (counter, KeyAction::Terminate),
        key == KeyEvent::RequestBuild ==> r == (counter, KeyAction::AttemptBuild),
        key == KeyEvent::Other ==> r == (counter, KeyAction::Nothing),
{
    match key {
        KeyEvent::MoveUp => {
            let c: i64 = if counter == i64::MIN {
                i64::MIN
            } else {
                counter - 1
            };
            (c, KeyAction::Nothing)
        },
        KeyEvent::MoveDown => {
            let c: i64 = if counter == i64::MAX {
                i64::MAX
            } else {
                counter + 1
            };
            (c, KeyAction::Nothing)
        },
        KeyEvent::Quit => (counter, KeyAction::Terminate),
        KeyEvent::RequestBuild => (counter, KeyAction::AttemptBuild),
        KeyEvent::Other => (counter, KeyAction::Nothing),
    }
}

/// The derived selection: no selection over an empty list; otherwise the raw
/// cursor counter wrapped into `[0, n)` by floored modulo, so that a
/// negative counter enters the list from its bottom.
pub open spec fn spec_selection_index(counter: int, n: int) -> Option<usize> {
    if n == 0 {
        None
    } else {
        Some((counter % n) as usize)
    }
}

/// Recomputes the selection index from the raw cursor counter and the length
/// of the current diagnostic list. The counter itself is derived from, never
/// constrained by, the list: it is wrapped afresh each cycle.
pub fn selection_index(counter: i64, n: usize) -> (r: Option<usize>)
    ensures
        r == spec_selection_index(counter as int, n as int),
{
    if n == 0 {
        return None;
    }
    proof {
        lemma_mod_bound(counter as int, n as int);
    }
    if counter >= 0 {
        let idx: u64 = (counter as u64) % (n as u64);
        Some(idx as usize)
    } else {
        let neg: u64 = (-(counter as i128)) as u64;
        let m: u64 = neg % (n as u64);
        let idx: u64 = if m == 0 {
            0
        } else {
            (n as u64) - m
        };
        proof {
            let c: int = counter as int;
            let nn: int = n as int;
            let q: int = (neg as int) / nn;
            lemma_fundamental_div_mod(neg as int, nn);
            lemma_mod_bound(neg as int, nn);
            assert(c == -(neg as int));
            assert(neg as int == nn * q + m);
            if m == 0 {
                assert(nn * (-q) == -(nn * q)) by (nonlinear_arith);
                assert(c == nn * (-q) + 0);
                lemma_mod_multiples_vanish(-q, 0, nn);
                lemma_small_mod(0, nn as nat);
            } else {
                assert(nn * (-q - 1) == -(nn * q) - nn) by (nonlinear_arith);
                assert(c == nn * (-q - 1) + (nn - m));
                lemma_mod_multiples_vanish(-q - 1, nn - m, nn);
                lemma_small_mod((nn - m) as nat, nn as nat);
            }
        }
        Some(idx as usize)
    }
}

/// Recomputes the selection against whatever diagnostic list the current
/// build state implies: empty unless a build has finished.
pub fn recompute_selection(state: &BuildState, counter: i64) -> (r: Option<usize>)
    ensures
        r == spec_selection_index(counter as int, spec_diag_count(*state)),
{
    let n = crate::build_state::current_diagnostic_count(state);
    selection_index(counter, n)
}

} // verus!
