use vstd::prelude::*;

use crate::grafana::Dashboard;
use crate::names::names;
use crate::usage::{
    all_wf, build_report, dashboard_usages, get_used_metrics_from_dashboard, report, usage_views,
    MetricsUsage,
};

verus! {

/// The command that lists the alerting rules of the metrics backend.
pub struct GetAlertsCmd {}

/// The command that lists the values of one label in the metrics backend.
pub struct GetValuesCmd {}

/// The command that reports the unknown metrics a dashboard refers to.
pub struct ValidateDashboardCmd {}

impl GetAlertsCmd {
    pub fn get_name(&self) -> (r: &'static str)
        ensures
            r@ == "get-alerts"@,
    {
        "get-alerts"
    }
}

impl GetValuesCmd {
    pub fn get_name(&self) -> (r: &'static str)
        ensures
            r@ == "get-values"@,
    {
        "get-values"
    }
}

impl ValidateDashboardCmd {
    pub fn get_name(&self) -> (r: &'static str)
        ensures
            r@ == "validate-dashboard"@,
    {
        "validate-dashboard"
    }
}

/// The report on `dashboard` against the metric names that the backend
/// knows: each usage site of the dashboard that refers to unknown metrics,
/// with exactly those metrics.
pub fn validate_dashboard(valid_metrics: &Vec<String>, dashboard: Dashboard) -> (r: Vec<MetricsUsage>)
    ensures
        usage_views(r@) == report(names(valid_metrics@), dashboard_usages(dashboard)),
        all_wf(r@),
{
    let usages = get_used_metrics_from_dashboard(dashboard);
    build_report(valid_metrics, &usages)
}

} // verus!
