//! Verified core logic of the finsight personal-finance engine: calendar
//! arithmetic on `YYYY-MM` months, the funding-schedule grammar, budget and
//! allocation rules, balance reconstruction, and the small decision procedures
//! that the SQLite repositories apply before and after their queries.

pub mod text;
pub mod ids;
pub mod sums;
pub mod balance;
pub mod sql;
pub mod unicode;
pub mod imports;
pub mod calendar;
pub mod dates;
pub mod schedule;
pub mod goals;
pub mod json;
pub mod budgets;
pub mod timeline;
pub mod widgets;
pub mod restoration;
pub mod net_worth;
pub mod splits;
pub mod transactions;
pub mod scenarios;
pub mod sync_runs;
pub mod reports;
pub mod payees;
pub mod categories;
pub mod household;
pub mod month_close;
pub mod proposals;
pub mod reset;
pub mod recipes;
pub mod rules;
pub mod examples;
