use vstd::prelude::*;

verus! {

/// The output and format-text bytes this renderer spells or recognises,
/// named by their ASCII characters.
pub const PERCENT: u8 = 37;

pub const STAR: u8 = 42;

pub const PLUS: u8 = 43;

pub const MINUS: u8 = 45;

pub const DOT: u8 = 46;

pub const SPACE: u8 = 32;

pub const HASH: u8 = 35;

pub const DIGIT_ZERO: u8 = 48;

pub const DIGIT_NINE: u8 = 57;

pub const UPPER_D: u8 = 68;

pub const UPPER_X: u8 = 88;

pub const LOWER_C: u8 = 99;

pub const LOWER_D: u8 = 100;

pub const LOWER_I: u8 = 105;

pub const LOWER_O: u8 = 111;

pub const LOWER_P: u8 = 112;

pub const LOWER_S: u8 = 115;

pub const LOWER_U: u8 = 117;

pub const LOWER_X: u8 = 120;

pub const LOWER_N: u8 = 110;

pub const LOWER_H: u8 = 104;

pub const LOWER_L: u8 = 108;

pub const LOWER_J: u8 = 106;

pub const LOWER_Z: u8 = 122;

pub const LOWER_T: u8 = 116;

pub const UPPER_L: u8 = 76;

pub const LOWER_F: u8 = 102;

pub const UPPER_F: u8 = 70;

pub const LOWER_E: u8 = 101;

pub const UPPER_E: u8 = 69;

pub const LOWER_A: u8 = 97;

pub const UPPER_A: u8 = 65;

pub const LOWER_G: u8 = 103;

pub const UPPER_G: u8 = 71;

} // verus!
