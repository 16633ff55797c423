//! Arithmetic on TCP sequence numbers.
//!
//! Sequence numbers are points on a circle of 2^32 positions. Every
//! comparison in the engine goes through [`is_between_wrapped`], which is
//! indifferent to where on the circle zero lies.

use vstd::prelude::*;
use vstd::wrapping::u32_specs::{wrapping_add, wrapping_sub};

verus! {

/// The number of forward steps that lead from `from` to `to` on the circle:
/// `(to - from) mod 2^32`.
pub open spec fn distance(from: u32, to: u32) -> int {
    (to - from) % 0x1_0000_0000
}

/// The sequence number reached from `from` after `steps` steps forward.
pub open spec fn step_forward(from: u32, steps: int) -> int {
    (from + steps) % 0x1_0000_0000
}

/// `x` lies strictly inside the forward arc that starts at `start` and stops
/// at `end`: it takes at least one step to reach `x` from `start`, and fewer
/// than it takes to reach `end`.
pub open spec fn between_wrapped(start: u32, x: u32, end: u32) -> bool {
    0 < distance(start, x) < distance(start, end)
}

/// `a` does not lie ahead of `b`: stepping forward from `b`, one does not meet
/// `a` within the next half of the circle.
pub open spec fn wrapped_le(a: u32, b: u32) -> bool {
    !between_wrapped(b, a, wrapping_add(b, 0x8000_0000))
}

/// An acknowledgment number acknowledges something new and nothing that was
/// never sent: it lies after `una` and not after `nxt`.
pub open spec fn acceptable_ack(una: u32, ack: u32, nxt: u32) -> bool {
    between_wrapped(una, ack, wrapping_add(nxt, 1))
}

/// The distance without the modulus: the plain difference, made up by one
/// turn of the circle where it would be negative.
pub proof fn lemma_distance_unwrapped(from: u32, to: u32)
    ensures
        distance(from, to) == if from <= to {
            to - from
        } else {
            to - from + 0x1_0000_0000
        },
        wrapping_sub(to, from) == distance(from, to),
        0 <= distance(from, to) < 0x1_0000_0000,
{
}

/// Whether `x` lies strictly between `start` and `end` on the circle of
/// sequence numbers, going forward from `start`.
pub fn is_between_wrapped(start: u32, x: u32, end: u32) -> (inside: bool)
    ensures
        inside == between_wrapped(start, x, end),
{
    let to_x: u32 = x.wrapping_sub(start);
    let to_end: u32 = end.wrapping_sub(start);
    proof {
        lemma_distance_unwrapped(start, x);
        lemma_distance_unwrapped(start, end);
    }
    0 < to_x && to_x < to_end
}

/// Whether an acknowledgment number is acceptable for a sender whose oldest
/// unacknowledged number is `una` and whose next number to send is `nxt`.
pub fn is_acceptable_ack(una: u32, ack: u32, nxt: u32) -> (acceptable: bool)
    ensures
        acceptable == acceptable_ack(una, ack, nxt),
{
    is_between_wrapped(una, ack, nxt.wrapping_add(1))
}

/// Neither end of an arc lies strictly inside it.
pub proof fn lemma_between_excludes_endpoints(start: u32, end: u32)
    ensures
        !between_wrapped(start, start, end),
        !between_wrapped(start, end, end),
{
}

/// The arc read off the number line. Where `start` is the smaller number the
/// arc is the open interval between the two; where it is the larger, the arc
/// runs up from `start`, through zero, and on to `end`. From a point to
/// itself there is no arc.
pub proof fn lemma_between_is_forward_arc(start: u32, x: u32, end: u32)
    ensures
        start < end ==> (between_wrapped(start, x, end) <==> start < x < end),
        end < start ==> (between_wrapped(start, x, end) <==> (start < x || x < end)),
        start == end ==> !between_wrapped(start, x, end),
{
}

/// A point is strictly inside an arc exactly when it is reached from `start`
/// by a number of steps that is positive and smaller than the arc's length.
pub proof fn lemma_between_counts_steps(start: u32, x: u32, end: u32)
    ensures
        between_wrapped(start, x, end) <==> exists|steps: int|
            0 < steps < distance(start, end) && x == #[trigger] step_forward(start, steps),
{
    if between_wrapped(start, x, end) {
        assert(x == step_forward(start, distance(start, x)));
    }
}

/// `wrapped_le` in plain terms: the way forward from `a` to `b` is at most
/// half the circle.
pub proof fn lemma_wrapped_le_is_half_circle(a: u32, b: u32)
    ensures
        wrapped_le(a, b) <==> distance(a, b) <= 0x8000_0000,
{
}

/// The acceptable acknowledgments are those after `una` up to and including
/// `nxt`, counted in steps from `una`. Where everything but one number is in
/// flight, so that `nxt + 1` wraps onto `una`, none is acceptable.
pub proof fn lemma_acceptable_ack_window(una: u32, ack: u32, nxt: u32)
    ensures
        distance(una, nxt) < 0xffff_ffff ==> (acceptable_ack(una, ack, nxt) <==> 0 < distance(
            una,
            ack,
        ) <= distance(una, nxt)),
        distance(una, nxt) == 0xffff_ffff ==> !acceptable_ack(una, ack, nxt),
{
}

/// What was already acknowledged is never acceptable again, and neither is
/// the number after the last one sent.
pub proof fn lemma_stale_and_future_acks_rejected(una: u32, nxt: u32)
    ensures
        !acceptable_ack(una, una, nxt),
        !acceptable_ack(una, wrapping_add(nxt, 1), nxt),
{
}

/// Acknowledging the whole of what is in flight is acceptable, as long as
/// something is in flight and the window is not the entire circle.
pub proof fn lemma_full_ack_accepted(una: u32, nxt: u32)
    requires
        0 < distance(una, nxt) < 0xffff_ffff,
    ensures
        acceptable_ack(una, nxt, nxt),
{
}

/// Taking an acceptable acknowledgment as the new `una` moves `una` forward
/// and keeps it from overtaking `nxt`.
pub proof fn lemma_acceptable_ack_keeps_order(una: u32, ack: u32, nxt: u32)
    requires
        wrapped_le(una, nxt),
        acceptable_ack(una, ack, nxt),
    ensures
        wrapped_le(una, ack),
        wrapped_le(ack, nxt),
        distance(ack, nxt) < distance(una, nxt),
{
    let after_nxt = wrapping_add(nxt, 1);
    let half = wrapping_add(nxt, 0x8000_0000);
    let ack_half = wrapping_add(ack, 0x8000_0000);
    lemma_distance_unwrapped(una, nxt);
    lemma_distance_unwrapped(una, ack);
    lemma_distance_unwrapped(una, after_nxt);
    lemma_distance_unwrapped(ack, nxt);
    lemma_distance_unwrapped(nxt, una);
    lemma_distance_unwrapped(nxt, half);
    lemma_distance_unwrapped(nxt, ack);
    lemma_distance_unwrapped(ack, una);
    lemma_distance_unwrapped(ack, ack_half);
}

} // verus!
