use crate::animations::{Direction, MAX_OFFSET};
use crate::progression::Progression;
use vstd::prelude::*;

verus! {

/// The number of whole frames that `nanos` nanoseconds last at `frame_rate` frames a second.
pub fn convert_ns_to_frames(nanos: u64, frame_rate: u32) -> (r: usize)
    requires
        nanos * frame_rate <= u64::MAX,
        nanos * frame_rate / 1_000_000_000 <= usize::MAX,
    ensures
        r == nanos * frame_rate / 1_000_000_000,
{
    (nanos * frame_rate as u64 / 1_000_000_000u64) as usize
}

/// The number of whole frames that `millis` milliseconds last at `frame_rate` frames a second.
pub fn convert_ms_to_frames(millis: u64, frame_rate: u32) -> (r: usize)
    requires
        millis * frame_rate <= u64::MAX,
        millis * frame_rate / 1_000 <= usize::MAX,
    ensures
        r == millis * frame_rate / 1_000,
{
    (millis * frame_rate as u64 / 1_000u64) as usize
}

/// A translation table of `size` entries counting up from `start_at`.
pub fn default_translation_array(size: usize, start_at: usize) -> (r: Vec<usize>)
    requires
        start_at + size <= usize::MAX + 1,
    ensures
        r@.len() == size,
        forall|i: int| 0 <= i < size ==> #[trigger] r@[i] == start_at + i,
{
    let mut result: Vec<usize> = Vec::new();
    let mut index: usize = 0;
    while index < size
        invariant
            index <= size,
            start_at + size <= usize::MAX + 1,
            result@.len() == index,
            forall|i: int| 0 <= i < index ==> #[trigger] result@[i] == start_at + i,
        decreases size - index,
    {
        result.push(start_at + index);
        index = index + 1;
    }
    result
}

/// How far a rotation has moved over the full supersampled range after the frames elapsed.
pub open spec fn offset_shift(frames: Progression, direction: Direction) -> int {
    match direction {
        Direction::Positive => MAX_OFFSET * frames.position() / (frames.total as int),
        Direction::Negative => MAX_OFFSET * (frames.total - frames.position()) / (frames.total as int),
        Direction::Stopped => 0,
    }
}

/// The rotation phase reached from `start` after the frames elapsed, wrapping in 16 bits.
pub open spec fn shifted_offset(start: u16, frames: Progression, direction: Direction) -> u16 {
    if frames.total == 0 {
        start
    } else {
        ((start + offset_shift(frames, direction)) % 0x1_0000) as u16
    }
}

/// Moves `starting_offset` by the share of the full offset range that `frames` has covered
/// (Positive), has still to cover (Negative), or not at all (Stopped).
pub fn shift_offset(starting_offset: u16, frames: Progression, direction: Direction) -> (r: u16)
    requires
        frames.wf(),
    ensures
        r == shifted_offset(starting_offset, frames, direction),
        frames.total == 0 ==> r == starting_offset,
{
    if frames.total == 0 {
        return starting_offset;
    }
    let max_offset: u128 = MAX_OFFSET as u128;
    let total: u128 = frames.total as u128;
    let current: u128 = frames.get_current() as u128;
    proof {
        assert(max_offset * current <= max_offset * total) by (nonlinear_arith)
            requires
                current < total,
                max_offset == 65535,
        ;
        assert(max_offset * (total - current) <= max_offset * total) by (nonlinear_arith)
            requires
                current < total,
                max_offset == 65535,
        ;
        assert(max_offset * total <= 65535 * 0xffff_ffff_ffff_ffff) by (nonlinear_arith)
            requires
                total <= 0xffff_ffff_ffff_ffff,
                max_offset == 65535,
        ;
        vstd::arithmetic::div_mod::lemma_div_is_ordered(
            max_offset * current,
            max_offset * total,
            total as int,
        );
        vstd::arithmetic::div_mod::lemma_div_is_ordered(
            max_offset * (total - current),
            max_offset * total,
            total as int,
        );
        vstd::arithmetic::div_mod::lemma_div_multiples_vanish(max_offset as int, total as int);
        assert(max_offset * total == total * max_offset) by (nonlinear_arith);
    }
    let offset_shift: u128 = match direction {
        Direction::Positive => max_offset * current / total,
        Direction::Negative => max_offset * (total - current) / total,
        Direction::Stopped => 0,
    };
    ((starting_offset as u128 + offset_shift) % 0x1_0000) as u16
}

} // verus!
