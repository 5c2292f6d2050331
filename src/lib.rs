//! A commit-then-reveal card draw among participants, with the card of each
//! participant taken from a verifiable random function evaluated over a seed
//! that all of them contributed to.
pub mod commitment;
pub mod vrf;
pub mod player;
pub mod croupier;
