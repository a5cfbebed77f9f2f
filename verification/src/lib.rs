//! Pricing and fee schedule for short positions in a fixed-rate bonding-curve
//! market, over exact 18-decimal fixed-point arithmetic.
pub mod wide;
pub mod fixed;
pub mod state;
pub mod curve;
pub mod fees;
pub mod open;
pub mod entry;
