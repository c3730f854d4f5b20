//! Scheduling and backup-execution engine of a desktop backup tool.
//!
//! Users define missions: a source path to protect, a destination and a
//! procedure that says how to back it up. A mission fires on a cron schedule
//! or on file-system changes, produces an artifact filtered by ignore rules,
//! and the artifact history is pruned by a retention policy.
//!
//! Everything here is state and decision logic with machine-checked
//! contracts: the tables of the store and their operations ([`db`]), the
//! registry that owns the status of every mission ([`registry`],
//! [`tickets`]), cron schedules and timers ([`cron`], [`scheduler`]),
//! debounced watches ([`debounce`], [`monitor`]), the choice of what goes
//! into an artifact ([`glob`], [`executor`]), retention ([`retention`],
//! [`settled`]), the rules that tie these together ([`engine`], [`missions`], [`restore`]), and the
//! settings and the answers to the front end ([`config`], [`cmd`]). Timers,
//! file-system watches, file copies and the SQL store are driven by the
//! surrounding application.

pub mod time;
pub mod ident;
pub mod db;
pub mod registry;
pub mod tickets;
pub mod retention;
pub mod settled;
pub mod cron;
pub mod debounce;
pub mod glob;
pub mod executor;
pub mod scheduler;
pub mod monitor;
pub mod engine;
pub mod missions;
pub mod restore;
pub mod revived;
pub mod config;
pub mod cmd;
