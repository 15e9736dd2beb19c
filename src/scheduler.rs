//! Load-to-rate mapping and drift-free, wall-clock-driven frame selection.

use vstd::prelude::*;
use vstd::arithmetic::div_mod::{
    lemma_add_mod_noop,
    lemma_div_is_ordered,
    lemma_div_multiples_vanish_fancy,
    lemma_fundamental_div_mod,
    lemma_mod_bound,
};

verus! {

/// Frame rate of an idle system.
pub const BASE_FPS: u32 = 15;

/// Frame rate of a fully loaded system.
pub const MAX_FPS: u32 = 60;

/// Load is measured in basis points: hundredths of a percent, 0 ..= 10000.
pub const FULL_LOAD_BP: u32 = 10000;

/// Load clamped into the meaningful range `[0, FULL_LOAD_BP]`.
pub open spec fn clamped_load(load_bp: int) -> int {
    if load_bp < 0 {
        0
    } else if load_bp > FULL_LOAD_BP {
        FULL_LOAD_BP as int
    } else {
        load_bp
    }
}

/// `clamp(BASE + load% * (MAX - BASE) / 100, BASE, MAX)`, rounded down.
pub open spec fn fps_spec(load_bp: int) -> int {
    BASE_FPS + clamped_load(load_bp) * (MAX_FPS - BASE_FPS) / (FULL_LOAD_BP as int)
}

/// The frame shown at `now_ms`: `floor(now_ms / (1000 / fps)) mod n`,
/// i.e. `floor(now_ms * fps / 1000) mod n`.
pub open spec fn frame_index_spec(now_ms: int, fps: int, n: int) -> int {
    (now_ms * fps / 1000) % n
}

/// Target frame rate for a load sample given in basis points.
pub fn fps_for_load(load_bp: u32) -> (fps: u32)
    ensures
        fps == fps_spec(load_bp as int),
        BASE_FPS <= fps <= MAX_FPS,
{
    let clamped: u32 = if load_bp > FULL_LOAD_BP { FULL_LOAD_BP } else { load_bp };
    assert(0 <= clamped * 45 <= 450000) by (nonlinear_arith)
        requires clamped <= 10000;
    let extra: u32 = clamped * (MAX_FPS - BASE_FPS) / FULL_LOAD_BP;
    assert(extra <= 45) by {
        lemma_div_is_ordered(clamped * 45, 450000, 10000);
    }
    BASE_FPS + extra
}

/// Index of the frame to show at wall-clock time `now_ms` (milliseconds),
/// for a frame rate `fps` and a bank of `n` frames. A pure function of its
/// inputs: no counter is kept, so a late tick never replays missed frames.
pub fn frame_index(now_ms: u64, fps: u32, n: usize) -> (index: usize)
    requires
        n > 0,
    ensures
        index == frame_index_spec(now_ms as int, fps as int, n as int),
        index < n,
{
    let t: u128 = now_ms as u128;
    let f: u128 = fps as u128;
    assert(t * f <= 0xffff_ffff_ffff_ffffu128 * 0xffff_ffffu128) by (nonlinear_arith)
        requires t <= 0xffff_ffff_ffff_ffffu128, f <= 0xffff_ffffu128;
    let frames_elapsed: u128 = t * f / 1000;
    let index: u128 = frames_elapsed % (n as u128);
    index as usize
}

/// Within the load range the rate starts at `BASE_FPS`, ends at `MAX_FPS`,
/// and never decreases as the load grows.
pub proof fn lemma_fps_monotone(lo_bp: int, hi_bp: int)
    requires
        0 <= lo_bp <= hi_bp <= FULL_LOAD_BP,
    ensures
        fps_spec(0) == BASE_FPS,
        fps_spec(FULL_LOAD_BP as int) == MAX_FPS,
        fps_spec(lo_bp) <= fps_spec(hi_bp),
{
    assert(lo_bp * 45 <= hi_bp * 45) by (nonlinear_arith)
        requires lo_bp <= hi_bp;
    lemma_div_is_ordered(lo_bp * 45, hi_bp * 45, 10000);
}

/// For every time and rate and every non-empty bank the index lies in `[0, n)`.
/// It is a function of those three inputs alone (`frame_index` returns
/// `frame_index_spec`), so asking twice for the same instant gives the same frame.
pub proof fn lemma_frame_index_in_range(now_ms: int, fps: int, n: int)
    requires
        n > 0,
    ensures
        0 <= frame_index_spec(now_ms, fps, n) < n,
{
    lemma_mod_bound(now_ms * fps / 1000, n);
}

/// Over any one-second window the shown index advances by exactly `fps`
/// frames, modulo the bank size.
pub proof fn lemma_advance_per_second(now_ms: int, fps: int, n: int)
    requires
        now_ms >= 0,
        fps >= 0,
        n > 0,
    ensures
        frame_index_spec(now_ms + 1000, fps, n)
            == (frame_index_spec(now_ms, fps, n) + fps) % n,
{
    let q = now_ms * fps / 1000;
    let r = now_ms * fps % 1000;
    lemma_fundamental_div_mod(now_ms * fps, 1000);
    assert((now_ms + 1000) * fps == 1000 * (q + fps) + r) by (nonlinear_arith)
        requires now_ms * fps == 1000 * q + r;
    lemma_div_multiples_vanish_fancy(q + fps, r, 1000);
    lemma_add_mod_noop(q, fps, n);
    lemma_add_mod_noop(q % n, fps, n);
    lemma_mod_bound(q, n);
    vstd::arithmetic::div_mod::lemma_mod_twice(q, n);
}

} // verus!
