//! Packing of one player's per-tick intent into a 16-bit wire word.
use vstd::prelude::*;

verus! {

pub const INPUT_UP: u16 = 0x01;

pub const INPUT_RIGHT: u16 = 0x02;

pub const INPUT_DOWN: u16 = 0x04;

pub const INPUT_LEFT: u16 = 0x08;

pub const INPUT_FIRE: u16 = 0x10;

pub const INPUT_ANGLE: u16 = 0xff00;

/// What a player wants to do this tick: four direction flags, the trigger,
/// and the aim angle quantized to one of 256 levels.
#[derive(Clone, Copy, Debug, PartialEq, Eq, Structural)]
pub struct PlayerIntent {
    pub up: bool,
    pub down: bool,
    pub right: bool,
    pub left: bool,
    pub fire: bool,
    pub angle_level: u8,
}

pub open spec fn flag(b: bool, mask: u16) -> u16 {
    if b {
        mask
    } else {
        0
    }
}

/// The wire word: bits 0-3 directions, bit 4 fire, bits 8-15 the aim level.
pub open spec fn encode_spec(i: PlayerIntent) -> u16 {
    flag(i.up, INPUT_UP) | flag(i.right, INPUT_RIGHT) | flag(i.down, INPUT_DOWN) | flag(
        i.left,
        INPUT_LEFT,
    ) | flag(i.fire, INPUT_FIRE) | ((i.angle_level as u16) << 8u16)
}

pub open spec fn decode_spec(x: u16) -> PlayerIntent {
    PlayerIntent {
        up: x & INPUT_UP != 0,
        down: x & INPUT_DOWN != 0,
        right: x & INPUT_RIGHT != 0,
        left: x & INPUT_LEFT != 0,
        fire: x & INPUT_FIRE != 0,
        angle_level: ((x & INPUT_ANGLE) >> 8u16) as u8,
    }
}

/// Encodes the intent of the local player into its wire word.
pub fn input(intent: PlayerIntent) -> (r: u16)
    ensures
        r == encode_spec(intent),
{
    let up: u16 = if intent.up { INPUT_UP } else { 0 };
    let right: u16 = if intent.right { INPUT_RIGHT } else { 0 };
    let down: u16 = if intent.down { INPUT_DOWN } else { 0 };
    let left: u16 = if intent.left { INPUT_LEFT } else { 0 };
    let fire: u16 = if intent.fire { INPUT_FIRE } else { 0 };
    let level = intent.angle_level as u16;
    up | right | down | left | fire | (level << 8u16)
}

/// Splits a wire word back into the intent it carries.
pub fn decode_input(x: u16) -> (r: PlayerIntent)
    ensures
        r == decode_spec(x),
{
    PlayerIntent {
        up: x & INPUT_UP != 0,
        down: x & INPUT_DOWN != 0,
        right: x & INPUT_RIGHT != 0,
        left: x & INPUT_LEFT != 0,
        fire: x & INPUT_FIRE != 0,
        angle_level: ((x & INPUT_ANGLE) >> 8u16) as u8,
    }
}

/// Decoding an encoded intent gives back every flag and the aim level exactly.
pub proof fn lemma_input_round_trip(i: PlayerIntent)
    ensures
        decode_spec(encode_spec(i)) == i,
{
    let u = i.up;
    let d = i.down;
    let r = i.right;
    let l = i.left;
    let f = i.fire;
    let a = i.angle_level as u16;
    let x = encode_spec(i);
    assert(a <= 0xff);
    assert(x == (if u { 1u16 } else { 0u16 }) | (if r { 2u16 } else { 0u16 }) | (if d { 4u16 } else {
        0u16
    }) | (if l { 8u16 } else { 0u16 }) | (if f { 16u16 } else { 0u16 }) | (a << 8u16));
    assert(((x & 1u16) != 0) == u && ((x & 2u16) != 0) == r && ((x & 4u16) != 0) == d && ((x
        & 8u16) != 0) == l && ((x & 16u16) != 0) == f && ((x & 0xff00u16) >> 8u16) == a)
        by (bit_vector)
        requires
            a <= 0xffu16,
            x == (if u { 1u16 } else { 0u16 }) | (if r { 2u16 } else { 0u16 }) | (if d {
                4u16
            } else {
                0u16
            }) | (if l { 8u16 } else { 0u16 }) | (if f { 16u16 } else { 0u16 }) | (a << 8u16),
    ;
    assert(((x & 0xff00u16) >> 8u16) as u8 == i.angle_level);
}

} // verus!
