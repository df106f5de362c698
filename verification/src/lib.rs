//! Progressive income tax on a salary, computed in exact integer arithmetic.
//!
//! Every monetary amount is a whole number of minor units (cents) and every
//! rate a whole number of basis points, so results are reproducible to the
//! cent. A [`band::BandTable`] partitions income from zero upwards into
//! contiguous bands; [`tax::calculate`] charges each band's rate on the part
//! of an annual income that lies inside that band. [`salary`] brings a quoted
//! salary to a year, and [`euro`] reads amounts written in the notation of
//! the currency.
//!
//! Beside the tax, [`game`] holds the rules of rock, paper, scissors.
pub mod amount;
pub mod band;
pub mod error;
pub mod euro;
pub mod game;
pub mod salary;
pub mod tax;
