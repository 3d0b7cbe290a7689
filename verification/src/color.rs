//! Colors and their 8-bit channel encoding.
//!
//! A `Color` is a vector of three channel intensities in `[0, 1]` (values
//! outside that range are legal while accumulating and are clamped when
//! encoded).  A channel intensity `c` maps to the byte
//! `floor(256 * clamp(c, 0, 0.999))`; the `0.999` ceiling keeps the byte
//! below 256.

use crate::fix::{Fix, SCALE};
use crate::vec3::Vec3;
use vstd::prelude::*;

verus! {

pub type Color = Vec3;

/// Raw count for the clamp ceiling `0.999`.
pub const CLAMP_MAX_RAW: i128 = 999_000;

/// The byte a channel intensity encodes to.
pub open spec fn channel_byte_of(c: int) -> int {
    let clamped = if c < 0 {
        0
    } else if c > CLAMP_MAX_RAW {
        CLAMP_MAX_RAW as int
    } else {
        c
    };
    256 * clamped / (SCALE as int)
}

/// Every channel byte fits in eight bits.
pub proof fn lemma_channel_byte_range(c: int)
    ensures
        0 <= channel_byte_of(c) <= 255,
{
    let clamped = if c < 0 {
        0
    } else if c > CLAMP_MAX_RAW {
        CLAMP_MAX_RAW as int
    } else {
        c
    };
    assert(256 * clamped <= 256 * CLAMP_MAX_RAW);
    assert(256 * CLAMP_MAX_RAW / (SCALE as int) == 255);
    vstd::arithmetic::div_mod::lemma_div_is_ordered(
        256 * clamped,
        256 * (CLAMP_MAX_RAW as int),
        SCALE as int,
    );
    vstd::arithmetic::div_mod::lemma_div_pos_is_pos(256 * clamped, SCALE as int);
}

/// Encode one channel intensity as a byte.
pub fn channel_byte(c: Fix) -> (r: u8)
    ensures
        r as int == channel_byte_of(c@),
{
    let micros = c.to_micros();
    let clamped: i64 = if micros < 0 {
        0
    } else if micros > CLAMP_MAX_RAW as i64 {
        CLAMP_MAX_RAW as i64
    } else {
        micros
    };
    proof {
        lemma_channel_byte_range(c@);
    }
    ((256 * clamped) / (SCALE as i64)) as u8
}

/// The three channel bytes of a color, red, green, blue.
pub fn color_bytes(c: &Color) -> (r: (u8, u8, u8))
    ensures
        r.0 as int == channel_byte_of(c@.x),
        r.1 as int == channel_byte_of(c@.y),
        r.2 as int == channel_byte_of(c@.z),
{
    (channel_byte(c.x()), channel_byte(c.y()), channel_byte(c.z()))
}

/// Model of pure white, `(1, 1, 1)`.
pub open spec fn white_v3() -> crate::vec3::V3 {
    crate::vec3::V3 { x: SCALE as int, y: SCALE as int, z: SCALE as int }
}

/// Model of pure black, `(0, 0, 0)`.
pub open spec fn black_v3() -> crate::vec3::V3 {
    crate::vec3::V3 { x: 0, y: 0, z: 0 }
}

/// Pure white.
pub fn white() -> (r: Color)
    ensures
        r@ == white_v3(),
{
    let one = Fix::one();
    Color::new(one, one, one)
}

/// Pure black.
pub fn black() -> (r: Color)
    ensures
        r@ == black_v3(),
{
    let zero = Fix::zero();
    Color::new(zero, zero, zero)
}

} // verus!
