//! The algebra of the operand stack and of shadowing, stated once over the
//! models that the stack's and the dictionaries' contracts speak in.

use vstd::prelude::*;

use crate::object::Object;
use crate::store::spec_rotted;
use crate::store::spec_swapped;
use crate::vocabulary::spec_last_visible;
use crate::word::Word;

verus! {

/// A history of stack touches made only through `push` and `pop`: `Some(x)`
/// stands for a successful push of `x`, `None` for a successful pop. The
/// contracts of `Store::push` and `Store::pop` make every successful call
/// one such step on the store's view.
pub open spec fn spec_apply_trace(s: Seq<Object>, trace: Seq<Option<Object>>) -> Seq<Object>
    decreases trace.len(),
{
    if trace.len() == 0 {
        s
    } else {
        match trace.first() {
            Some(x) => spec_apply_trace(s.push(x), trace.drop_first()),
            None => spec_apply_trace(s.drop_last(), trace.drop_first()),
        }
    }
}

/// Whether every pop in the trace lands on a non-empty stack — exactly the
/// traces in which every `pop` call succeeded.
pub open spec fn spec_trace_viable(s: Seq<Object>, trace: Seq<Option<Object>>) -> bool
    decreases trace.len(),
{
    if trace.len() == 0 {
        true
    } else {
        match trace.first() {
            Some(x) => spec_trace_viable(s.push(x), trace.drop_first()),
            None => s.len() > 0 && spec_trace_viable(s.drop_last(), trace.drop_first()),
        }
    }
}

/// How many pushes a trace holds.
pub open spec fn spec_count_pushes(trace: Seq<Option<Object>>) -> int
    decreases trace.len(),
{
    if trace.len() == 0 {
        0
    } else {
        (if trace.first() is Some {
            1int
        } else {
            0int
        }) + spec_count_pushes(trace.drop_first())
    }
}

/// How many pops a trace holds.
pub open spec fn spec_count_pops(trace: Seq<Option<Object>>) -> int
    decreases trace.len(),
{
    if trace.len() == 0 {
        0
    } else {
        (if trace.first() is None {
            1int
        } else {
            0int
        }) + spec_count_pops(trace.drop_first())
    }
}

/// After any sequence of successful pushes and pops, the depth is the
/// starting depth plus the number of pushes minus the number of pops — so a
/// stack produced from empty only by `push` and `pop` has `len()` equal to
/// pushes minus pops.
pub proof fn lemma_depth_is_pushes_minus_pops(s: Seq<Object>, trace: Seq<Option<Object>>)
    requires
        spec_trace_viable(s, trace),
    ensures
        spec_apply_trace(s, trace).len() == s.len() + spec_count_pushes(trace) - spec_count_pops(
            trace,
        ),
    decreases trace.len(),
{
    if trace.len() > 0 {
        match trace.first() {
            Some(x) => {
                lemma_depth_is_pushes_minus_pops(s.push(x), trace.drop_first());
            },
            None => {
                lemma_depth_is_pushes_minus_pops(s.drop_last(), trace.drop_first());
            },
        }
    }
}

/// Pushing `x` and then popping returns exactly `x` — whatever kind of
/// object it is — and leaves the stack as it was.
pub proof fn lemma_push_pop_round_trip(s: Seq<Object>, x: Object)
    ensures
        s.push(x).len() > 0,
        s.push(x).last() == x,
        s.push(x).drop_last() == s,
{
    assert(s.push(x).drop_last() =~= s);
}

/// After `dup`, the two topmost entries hold equal values. (That they are
/// moreover the same shared instance is a property of the handles, visible
/// through `Rc::ptr_eq`, not of the value model.)
pub proof fn lemma_dup_top_two_equal(s: Seq<Object>)
    requires
        s.len() > 0,
    ensures
        s.push(s.last()).last() == s.push(s.last())[s.push(s.last()).len() - 2],
{
}

/// Swapping the top two entries twice restores the stack, for any stack of
/// depth at least two.
pub proof fn lemma_swap_involution(s: Seq<Object>)
    requires
        s.len() >= 2,
    ensures
        spec_swapped(spec_swapped(s)) == s,
{
    assert(spec_swapped(spec_swapped(s)) =~= s);
}

/// Rotating the top three entries three times restores the stack, for any
/// stack of depth at least three: the rotation's orbit has length three.
pub proof fn lemma_rot_orbit(s: Seq<Object>)
    requires
        s.len() >= 3,
    ensures
        spec_rotted(spec_rotted(spec_rotted(s))) == s,
{
    assert(spec_rotted(spec_rotted(spec_rotted(s))) =~= s);
}

/// Shadowing: after a visible definition is appended, it is the one
/// resolution selects — defining an identifier twice executes only the
/// second definition, while the first still sits in the list for anything
/// that captured it.
pub proof fn lemma_define_shadows(ws: Seq<Word>, w1: Word, w2: Word)
    requires
        !w2.hidden,
    ensures
        spec_last_visible(ws.push(w1).push(w2)) == Some(w2),
{
}

/// A hidden definition is invisible, not blocking: appending one leaves the
/// selection exactly where it was.
pub proof fn lemma_hidden_is_invisible(ws: Seq<Word>, w: Word)
    requires
        w.hidden,
    ensures
        spec_last_visible(ws.push(w)) == spec_last_visible(ws),
{
    assert(ws.push(w).drop_last() =~= ws);
}

} // verus!
