//! The engine of a command-line client for a banking API: it decides how
//! the transactions of an account are retrieved page by page, groups them by
//! calendar month, sums them under a sign filter, works out past balances
//! from the balance of today, and ranks counterparties by spend.
//!
//! Amounts are exact: they are read from decimal text into whole minor
//! units and never pass through floating point. Input and output are left
//! to the caller, who hands in what the API answered and prints what the
//! library wrote.

pub mod aggregate;
pub mod balance;
pub mod bucket;
pub mod cli;
pub mod client;
pub mod config;
pub mod counterparties;
pub mod date;
pub mod inform;
pub mod inquirer;
pub mod money;
pub mod order;
pub mod represent;
pub mod text;
