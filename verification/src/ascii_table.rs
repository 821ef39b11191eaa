//! The key codes that gitko's windows answer to, as `getch` reports them.
use vstd::prelude::*;

verus! {

/// Ctrl-D.
pub const KEY_EOT: i32 = 4;
/// Enter.
pub const KEY_LF: i32 = 10;
/// Ctrl-U.
pub const KEY_NAK: i32 = 21;
/// Ctrl-W.
pub const KEY_ETB: i32 = 23;
/// `:`.
pub const KEY_COLON: i32 = 58;
/// `b`.
pub const KEY_B_LOWER: i32 = 98;
/// `c`.
pub const KEY_C_LOWER: i32 = 99;
/// `j`.
pub const KEY_J_LOWER: i32 = 106;
/// `k`.
pub const KEY_K_LOWER: i32 = 107;
/// `l`.
pub const KEY_L_LOWER: i32 = 108;
/// `t`.
pub const KEY_T_LOWER: i32 = 116;
/// `u`.
pub const KEY_U_LOWER: i32 = 117;
/// `y`.
pub const KEY_Y_LOWER: i32 = 121;

} // verus!
