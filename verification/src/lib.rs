//! A capital-constrained quadratic-funding round: proposals are submitted
//! while a proposal window is open, backers vote with funds while a voting
//! window is open, and once voting closes an administrator triggers a
//! distribution that splits a fixed matching budget across proposals in
//! proportion to the breadth of their support (the CLR formula), paying each
//! proposal its collected votes plus its match and sending the rounding
//! leftover to a configured recipient.

pub mod contract;
pub mod error;
pub mod helper;
pub mod matching;
pub mod msg;
pub mod sqrt;
pub mod state;
