use std::collections::HashMap;

use promqueen::{
    build_report, get_used_metrics_from_alert, get_used_metrics_from_dashboard,
    get_used_metrics_from_node, usage_from_parsed_alert, validate_dashboard, Alert, CliError,
    Dashboard, Expr, GetAlertsCmd, GetValuesCmd, LabelMatcher, MetricsUsage, Panel, Pointer,
    PointerKind, Row, Target, ValidateDashboardCmd,
};

fn matcher(name: &str, value: &str) -> LabelMatcher {
    LabelMatcher { name: name.to_string(), value: value.to_string() }
}

fn selector(metric: &str) -> Expr {
    Expr::VectorSelector { matchers: vec![matcher("__name__", metric)] }
}

fn extract(e: &Expr) -> Vec<String> {
    let mut metrics = Vec::new();
    get_used_metrics_from_node(e, &mut metrics);
    metrics.sort();
    metrics
}

fn strings(v: &[&str]) -> Vec<String> {
    v.iter().map(|s| s.to_string()).collect()
}

fn target(expr: Option<&str>) -> Target {
    Target { title: Some("t".to_string()), expr: expr.map(|e| e.to_string()) }
}

fn panel(datasource: Option<&str>, targets: Vec<Target>) -> Panel {
    Panel { title: "p".to_string(), datasource: datasource.map(|d| d.to_string()), targets }
}

fn dashboard(id: u32, rows: Vec<Row>) -> Dashboard {
    Dashboard { id, title: "d".to_string(), rows }
}

fn row(panels: Vec<Panel>) -> Row {
    Row { title: "r".to_string(), panels }
}

fn alert(expression: &str) -> Alert {
    Alert {
        name: "HighErrorRate".to_string(),
        expression: expression.to_string(),
        labels: HashMap::new(),
        annotations: HashMap::new(),
    }
}

fn usage(metrics: &[&str]) -> MetricsUsage {
    MetricsUsage {
        pointer: vec![Pointer { id: 0, title: None, pointer_type: PointerKind::Alert }],
        expression: "x".to_string(),
        metrics: strings(metrics),
    }
}

fn sorted(v: &[String]) -> Vec<String> {
    let mut v = v.to_vec();
    v.sort();
    v
}

#[test]
fn no_selector_gives_no_metrics() {
    let e = Expr::FunctionCall {
        name: "abs".to_string(),
        args: vec![Expr::Negation(Box::new(Expr::Other)), Expr::BinaryOp { operands: vec![Expr::Other, Expr::Other] }],
    };
    assert!(extract(&e).is_empty());
    assert!(extract(&Expr::Other).is_empty());
}

#[test]
fn selector_with_name_and_other_matcher() {
    let e = Expr::VectorSelector { matchers: vec![matcher("__name__", "up"), matcher("job", "api")] };
    assert_eq!(extract(&e), strings(&["up"]));
}

#[test]
fn binary_op_of_two_selectors() {
    let e = Expr::BinaryOp { operands: vec![selector("a"), selector("b")] };
    assert_eq!(extract(&e), strings(&["a", "b"]));
}

#[test]
fn selector_without_name_and_with_two_names() {
    let none = Expr::VectorSelector { matchers: vec![matcher("job", "api")] };
    assert!(extract(&none).is_empty());
    let two = Expr::VectorSelector { matchers: vec![matcher("__name__", "x"), matcher("__name__", "y")] };
    assert_eq!(extract(&two), strings(&["x", "y"]));
}

#[test]
fn repeated_metric_listed_once() {
    let e = Expr::BinaryOp {
        operands: vec![selector("a"), Expr::Negation(Box::new(selector("a"))), selector("b")],
    };
    assert_eq!(extract(&e), strings(&["a", "b"]));
}

#[test]
fn extraction_adds_to_existing_names() {
    let mut metrics = strings(&["a"]);
    get_used_metrics_from_node(&Expr::BinaryOp { operands: vec![selector("a"), selector("c")] }, &mut metrics);
    assert_eq!(sorted(&metrics), strings(&["a", "c"]));
}

#[test]
fn report_is_idempotent() {
    let valid = strings(&["a", "b"]);
    let usages = vec![usage(&["a", "x"]), usage(&["b"]), usage(&["y", "z", "a"])];
    let once = build_report(&valid, &usages);
    let twice = build_report(&valid, &once);
    assert_eq!(once.len(), 2);
    assert_eq!(twice.len(), 2);
    for (a, b) in once.iter().zip(twice.iter()) {
        assert_eq!(sorted(&a.metrics), sorted(&b.metrics));
        assert_eq!(a.expression, b.expression);
    }
    assert_eq!(sorted(&once[0].metrics), strings(&["x"]));
    assert_eq!(sorted(&once[1].metrics), strings(&["y", "z"]));
}

#[test]
fn report_drops_all_valid_usages() {
    let valid = strings(&["a", "b", "a"]);
    let usages = vec![usage(&["a"]), usage(&[]), usage(&["a", "b"])];
    assert!(build_report(&valid, &usages).is_empty());
    assert!(build_report(&valid, &Vec::new()).is_empty());
}

#[test]
fn report_keeps_order_and_place() {
    let mut first = usage(&["q"]);
    first.expression = "first".to_string();
    let mut second = usage(&["r"]);
    second.expression = "second".to_string();
    second.pointer[0].id = 7;
    let report = build_report(&Vec::new(), &vec![first, usage(&[]), second]);
    assert_eq!(report.len(), 2);
    assert_eq!(report[0].expression, "first");
    assert_eq!(report[1].expression, "second");
    assert_eq!(report[1].pointer[0].id, 7);
}

fn scenario_dashboard() -> Dashboard {
    dashboard(42, vec![row(vec![panel(Some("Prometheus"), vec![target(Some("sum(rate(http_requests_total[5m]))"))])])])
}

#[test]
fn dashboard_scenario_valid_metric() {
    let report = validate_dashboard(&strings(&["http_requests_total"]), scenario_dashboard());
    assert!(report.is_empty());
}

#[test]
fn dashboard_scenario_unknown_metric() {
    let report = validate_dashboard(&Vec::new(), scenario_dashboard());
    assert_eq!(report.len(), 1);
    assert_eq!(report[0].metrics, strings(&["http_requests_total"]));
    assert_eq!(report[0].expression, "sum(rate(http_requests_total[5m]))");
    let lineage: Vec<(u64, PointerKind)> = report[0].pointer.iter().map(|p| (p.id, p.pointer_type)).collect();
    assert_eq!(
        lineage,
        vec![(42, PointerKind::Dashboard), (0, PointerKind::Row), (0, PointerKind::Panel), (0, PointerKind::Target)]
    );
    assert_eq!(report[0].pointer[0].title, Some("d".to_string()));
    assert_eq!(report[0].pointer[3].title, Some("t".to_string()));
}

#[test]
fn other_datasource_gives_nothing() {
    let d = dashboard(1, vec![row(vec![
        panel(Some("InfluxDB"), vec![target(Some("up"))]),
        panel(None, vec![target(Some("up"))]),
        panel(Some("prometheus"), vec![target(Some("up"))]),
    ])]);
    assert!(get_used_metrics_from_dashboard(d).is_empty());
}

#[test]
fn target_without_expression_gives_nothing() {
    let d = dashboard(1, vec![row(vec![panel(Some("Prometheus"), vec![target(None)])])]);
    assert!(get_used_metrics_from_dashboard(d).is_empty());
}

#[test]
fn unparsable_target_is_skipped() {
    let d = dashboard(1, vec![row(vec![panel(Some("Prometheus"), vec![target(Some("sum(")), target(Some("up"))])])]);
    let usages = get_used_metrics_from_dashboard(d);
    assert_eq!(usages.len(), 1);
    assert_eq!(usages[0].expression, "up");
    assert_eq!(usages[0].pointer[3].id, 1);
}

#[test]
fn positions_identify_rows_panels_targets() {
    let d = dashboard(9, vec![
        row(vec![]),
        row(vec![
            panel(Some("InfluxDB"), vec![]),
            panel(Some("Prometheus"), vec![target(None), target(Some("a + b")), target(Some("vector(1)"))]),
        ]),
    ]);
    let usages = get_used_metrics_from_dashboard(d);
    assert_eq!(usages.len(), 2);
    let ids: Vec<u64> = usages[0].pointer.iter().map(|p| p.id).collect();
    assert_eq!(ids, vec![9, 1, 1, 1]);
    assert_eq!(sorted(&usages[0].metrics), strings(&["a", "b"]));
    assert_eq!(usages[1].pointer[3].id, 2);
    assert!(usages[1].metrics.is_empty());
}

#[test]
fn unparsable_alert_fails() {
    match get_used_metrics_from_alert(alert("rate(x[5m]")) {
        Err(CliError::PromqlError(expression, message)) => {
            assert_eq!(expression, "rate(x[5m]");
            assert_eq!(message, None);
        }
        other => panic!("expected a parse error, got {:?}", other),
    }
}

#[test]
fn alert_usage_lists_metrics() {
    let u = get_used_metrics_from_alert(alert("errors_total / requests_total > 0.1")).unwrap();
    assert_eq!(sorted(&u.metrics), strings(&["errors_total", "requests_total"]));
    assert_eq!(u.expression, "errors_total / requests_total > 0.1");
    assert_eq!(u.pointer.len(), 1);
    assert_eq!(u.pointer[0].id, 0);
    assert_eq!(u.pointer[0].title, Some("HighErrorRate".to_string()));
    assert_eq!(u.pointer[0].pointer_type, PointerKind::Alert);
}

#[test]
fn alert_from_given_tree() {
    let u = usage_from_parsed_alert(&alert("up"), Some(selector("up"))).unwrap();
    assert_eq!(u.metrics, strings(&["up"]));
    assert!(matches!(usage_from_parsed_alert(&alert("("), None), Err(CliError::PromqlError(_, None))));
}

#[test]
fn names_of_kinds_and_commands() {
    assert_eq!(PointerKind::Dashboard.as_str(), "dashboard");
    assert_eq!(PointerKind::Row.as_str(), "row");
    assert_eq!(PointerKind::Panel.as_str(), "panel");
    assert_eq!(PointerKind::Target.as_str(), "target");
    assert_eq!(PointerKind::Alert.as_str(), "alert");
    assert_eq!(GetAlertsCmd {}.get_name(), "get-alerts");
    assert_eq!(GetValuesCmd {}.get_name(), "get-values");
    assert_eq!(ValidateDashboardCmd {}.get_name(), "validate-dashboard");
}
