//! Rules engine for a two-player Bao-style sowing-and-capture board game.
//!
//! Each player owns a row of sixteen bowls. A move picks up a bowl and sows
//! its stones around the mover's own row; relays chain the sowing, and relays
//! landing in the inner row capture from the opponent. `stones` counts stones,
//! `sowing` holds the move machinery and the rules it obeys, and `game` holds
//! the players, the turn order and the termination checks.

pub mod game;
pub mod sowing;
pub mod stones;
