//! Alerts: threshold checks on a computed report.

use vstd::prelude::*;
use crate::ratio::MetricRule;
use crate::report::TradeAnalysis;

verus! {

/// A maximum drawdown above this amount raises an alert: one thousand
/// currency units, in minor units.
pub const DRAWDOWN_ALERT_ABOVE: i128 = 100_000;

/// A win rate below this percentage raises an alert.
pub const WIN_RATE_ALERT_BELOW: i64 = 40;

/// A Sharpe ratio below this many thousandths, that is below one, raises an
/// alert.
pub const SHARPE_ALERT_BELOW: i64 = 1000;

/// What an alert is about.
#[derive(Clone, Copy, Debug, PartialEq, Eq, Structural)]
pub enum AlertKind {
    HighMaximumDrawdown,
    LowWinRate,
    SuboptimalRiskAdjustedReturns,
    OvertradingDetected,
}

/// How grave an alert is.
#[derive(Clone, Copy, Debug, PartialEq, Eq, Structural)]
pub enum Severity {
    Warning,
    Error,
}

/// One alert for the dashboard.
#[derive(Clone, Copy, Debug, PartialEq, Eq, Structural)]
pub struct Alert {
    pub kind: AlertKind,
    pub severity: Severity,
}

/// The severity of each kind of alert: a low win rate is an error, the
/// others are warnings.
pub open spec fn severity_of(kind: AlertKind) -> Severity {
    match kind {
        AlertKind::LowWinRate => Severity::Error,
        _ => Severity::Warning,
    }
}

/// The alert of a kind.
pub open spec fn alert_of(kind: AlertKind) -> Alert {
    Alert { kind, severity: severity_of(kind) }
}

/// The Sharpe ratio is below one: it is zero by rule, or its formula,
/// evaluated by the caller and rounded down to thousandths, is below one
/// thousand.
pub open spec fn sharpe_is_low(rule: MetricRule, evaluated_thousandths: i64) -> bool {
    match rule {
        MetricRule::Zero => true,
        MetricRule::Infinite => false,
        MetricRule::Formula => evaluated_thousandths < SHARPE_ALERT_BELOW,
    }
}

/// The one alert of `kind` where `raised` holds, else none.
pub open spec fn alert_if(raised: bool, kind: AlertKind) -> Seq<Alert> {
    if raised {
        seq![alert_of(kind)]
    } else {
        Seq::empty()
    }
}

/// The alerts of a report, in the order drawdown, win rate, Sharpe ratio,
/// overtrading.
pub open spec fn alerts_of(analysis: TradeAnalysis, sharpe_thousandths: i64) -> Seq<Alert> {
    alert_if(analysis.summary.max_drawdown > DRAWDOWN_ALERT_ABOVE, AlertKind::HighMaximumDrawdown)
        + alert_if(
        analysis.summary.win_rate@.below(WIN_RATE_ALERT_BELOW as int),
        AlertKind::LowWinRate,
    ) + alert_if(
        sharpe_is_low(analysis.summary.sharpe_ratio, sharpe_thousandths),
        AlertKind::SuboptimalRiskAdjustedReturns,
    ) + alert_if(
        analysis.psychological.behavioral_patterns.overtrading,
        AlertKind::OvertradingDetected,
    )
}

impl AlertKind {
    /// The severity of this kind of alert.
    pub fn severity(&self) -> (severity: Severity)
        ensures
            severity == severity_of(*self),
    {
        match self {
            AlertKind::LowWinRate => Severity::Error,
            _ => Severity::Warning,
        }
    }

    /// The alert of this kind.
    pub fn alert(self) -> (alert: Alert)
        ensures
            alert == alert_of(self),
    {
        Alert { kind: self, severity: self.severity() }
    }
}

/// Whether the Sharpe ratio is below one, given its rule and, for the rule
/// `Formula`, the evaluated ratio rounded down to thousandths.
pub fn sharpe_below_one(rule: MetricRule, evaluated_thousandths: i64) -> (low: bool)
    ensures
        low == sharpe_is_low(rule, evaluated_thousandths),
{
    match rule {
        MetricRule::Zero => true,
        MetricRule::Infinite => false,
        MetricRule::Formula => evaluated_thousandths < SHARPE_ALERT_BELOW,
    }
}

/// The alerts of a report. `sharpe_thousandths` is the Sharpe ratio as the
/// caller evaluated it, rounded down to thousandths; it is read only where
/// the report gives the rule `Formula` for the ratio.
pub fn generate_alerts(analysis: &TradeAnalysis, sharpe_thousandths: i64) -> (alerts: Vec<Alert>)
    ensures
        alerts@ == alerts_of(*analysis, sharpe_thousandths),
{
    let mut alerts: Vec<Alert> = Vec::new();
    if analysis.summary.max_drawdown > DRAWDOWN_ALERT_ABOVE {
        alerts.push(AlertKind::HighMaximumDrawdown.alert());
    }
    if analysis.summary.win_rate.is_below(WIN_RATE_ALERT_BELOW) {
        alerts.push(AlertKind::LowWinRate.alert());
    }
    if sharpe_below_one(analysis.summary.sharpe_ratio, sharpe_thousandths) {
        alerts.push(AlertKind::SuboptimalRiskAdjustedReturns.alert());
    }
    if analysis.psychological.behavioral_patterns.overtrading {
        alerts.push(AlertKind::OvertradingDetected.alert());
    }
    proof {
        assert(alerts@ =~= alerts_of(*analysis, sharpe_thousandths));
    }
    alerts
}

} // verus!
