//! Process-wide constants of the analysis.

use vstd::prelude::*;

verus! {

/// Constants of the analysis, read-only after construction. Rates are held
/// in basis points, hundredths of a percent.
#[derive(Clone, Copy, Debug, PartialEq, Eq, Structural)]
pub struct AnalysisConfig {
    /// Confidence level in basis points.
    pub confidence_level: u32,
    /// Lookback period in trading days.
    pub lookback_period: u32,
    /// Risk-free rate in basis points.
    pub risk_free_rate: u32,
    /// Trading days per year.
    pub trading_days_per_year: u32,
    /// Window of the maximum drawdown in days.
    pub max_drawdown_period: u32,
    /// Horizon of the value at risk in days.
    pub var_horizon: u32,
}

impl AnalysisConfig {
    /// The default constants: 95 % confidence, a lookback of 252 trading
    /// days, a risk-free rate of 2 %, 252 trading days a year, a drawdown
    /// window of 21 days and a one-day horizon for the value at risk.
    pub open spec fn spec_default() -> AnalysisConfig {
        AnalysisConfig {
            confidence_level: 9500,
            lookback_period: 252,
            risk_free_rate: 200,
            trading_days_per_year: 252,
            max_drawdown_period: 21,
            var_horizon: 1,
        }
    }
}

impl Default for AnalysisConfig {
    fn default() -> (config: Self)
        ensures
            config == AnalysisConfig::spec_default(),
    {
        AnalysisConfig {
            confidence_level: 9500,
            lookback_period: 252,
            risk_free_rate: 200,
            trading_days_per_year: 252,
            max_drawdown_period: 21,
            var_horizon: 1,
        }
    }
}

} // verus!
