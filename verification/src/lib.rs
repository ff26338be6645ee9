//! The rules of a real-time arena game, as far as they are exact.
//!
//! Balls fly through a circular field and bounce off the paddles of up to
//! five teams. This crate holds what a room of such a game decides in whole
//! numbers: the history that every ball keeps and how a late hit rewrites
//! it, who hit a ball and who is to receive it, the order in which a
//! client's moves are taken, how players are dealt out to teams, what a
//! power-up announces, which requests a host may make, and the codes that
//! rooms go by. Positions, angles and countdowns are the caller's: they
//! pass through this crate as payloads that it never looks into.
//!
//! Contracts state what each function returns and changes. Three calls into
//! std and `rand` are taken as their documentation gives them; they are
//! marked where they stand.
pub mod ball;
pub mod bot;
pub mod circular_buffer;
pub mod player;
pub mod player_container;
pub mod powerup;
pub mod protocol;
pub mod room;
pub mod room_manager;
pub mod shared_room_data;
pub mod tracker;
