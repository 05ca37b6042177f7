//! Daily check-in and gift-code redemption for HoYoLAB games: the request
//! catalogue, the decisions taken on each reply, and the text sent to a
//! Discord webhook, with their contracts.

pub mod env_file;
pub mod redeem;
pub mod refresh;
pub mod sign;
pub mod structs;
pub mod text;
