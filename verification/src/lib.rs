use vstd::prelude::*;

pub mod analyse;
pub mod bits;
pub mod board;
pub mod convert;
pub mod bridge;
pub mod dealer_par;
pub mod groups;
pub mod held;
pub mod later_tricks;
pub mod lookup;
pub mod move_type;
pub mod moves;
pub mod network;
pub mod par;
pub mod play;
pub mod pos;
pub mod quick_tricks;
pub mod search;
pub mod solve_board;
pub mod solver;
pub mod strain_flags;
pub mod tricks;
pub mod tt;

verus! {

} // verus!
