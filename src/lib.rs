pub mod commands;
pub mod errors;
pub mod expr;
pub mod grafana;
pub mod names;
pub mod parse;
pub mod prometheus;
pub mod usage;

pub use commands::{validate_dashboard, GetAlertsCmd, GetValuesCmd, ValidateDashboardCmd};
pub use errors::CliError;
pub use expr::{get_used_metrics_from_node, Expr, LabelMatcher};
pub use grafana::{Dashboard, DashboardSearchResult, Panel, Row, Target};
pub use prometheus::Alert;
pub use usage::{
    build_report, get_used_metrics_from_alert, get_used_metrics_from_dashboard, usage_from_parsed_alert,
    usage_of, MetricsUsage, Pointer, PointerKind,
};
