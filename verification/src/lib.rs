//! Engine of a werewolf party game for a host and its clients.
//!
//! - [`comm`]: the messages that host and clients exchange;
//! - [`server`]: the host's game, from the joining of players and the drawing
//!   of roles to the nights and days and the side that wins;
//! - [`director`]: the order in which the host sends its messages;
//! - [`poll`] and [`tally`]: the ballots of a day and their count;
//! - [`client`]: what a client keeps of the game, and how it answers.
//!
//! Nothing here touches a socket or a terminal: every step takes the replies
//! that came in and says what is to go out.

pub mod client;
pub mod comm;
pub mod director;
pub mod poll;
pub mod server;
pub mod tally;
