//! The tables of the bot as the core sees them: scheduled jobs and
//! per-issue decision state, with the rules that every change to them
//! obeys. The tables are held in memory; whoever stores them elsewhere
//! fills them from there and carries their changes back.
pub mod issue_decision_state;
pub mod jobs;
