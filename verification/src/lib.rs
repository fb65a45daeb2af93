//! Verified analytics core of a trading journal.
//!
//! A trade history goes in; an analysis report comes out, and is cached
//! for five minutes. Every executable function carries a contract that
//! says what it returns, over plain mathematical models.
//!
//! Money is held in minor currency units (hundredths) as `i64`, so every
//! sum is exact; quotients are kept as exact [`ratio::Ratio`] values.
//! Metrics that need a square root or a real power are decided here, as
//! the rule of their policy that applies, and evaluated by the caller.
//!
//! - [`trade`], [`series`], [`drawdown`], [`deviation`], [`metrics`],
//!   [`streak`]: the metric library.
//! - [`timeline`], [`groups`], [`tags`], [`patterns`], [`strategies`]:
//!   breakdowns by time, pattern and strategy.
//! - [`report`], [`analysis`]: the report and its builder.
//! - [`cache`]: the report cache as a state machine.
//! - [`alerts`], [`quick`]: what the dashboard derives from a report.
//! - [`config`], [`backup`], [`plugin`], [`schema`]: settings and plain
//!   descriptions shared with the rest of the application.

pub mod alerts;
pub mod analysis;
pub mod backup;
pub mod cache;
pub mod config;
pub mod deviation;
pub mod drawdown;
pub mod groups;
pub mod metrics;
pub mod patterns;
pub mod plugin;
pub mod quick;
pub mod ratio;
pub mod report;
pub mod schema;
pub mod series;
pub mod strategies;
pub mod streak;
pub mod tags;
pub mod timeline;
pub mod trade;
