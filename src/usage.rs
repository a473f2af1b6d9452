use vstd::prelude::*;

use crate::errors::CliError;
use crate::expr::{get_used_metrics_from_node, metrics_of, Expr};
use crate::grafana::{Dashboard, Panel, Row, Target};
use crate::names::{contains_name, distinct_names, insert_name, lemma_names_empty, names};
use crate::parse::{parse_query, parsed_query};
use crate::prometheus::Alert;

verus! {

/// What a lineage entry points at.
#[derive(Clone, Copy, Debug, PartialEq, Eq, Structural)]
pub enum PointerKind {
    Dashboard,
    Row,
    Panel,
    Target,
    Alert,
}

/// The name of each kind as it appears in a report.
pub open spec fn kind_name(k: PointerKind) -> Seq<char> {
    match k {
        PointerKind::Dashboard => "dashboard"@,
        PointerKind::Row => "row"@,
        PointerKind::Panel => "panel"@,
        PointerKind::Target => "target"@,
        PointerKind::Alert => "alert"@,
    }
}

impl PointerKind {
    /// The name of this kind as it appears in a report.
    pub fn as_str(&self) -> (r: &'static str)
        ensures
            r@ == kind_name(*self),
    {
        match self {
            PointerKind::Dashboard => "dashboard",
            PointerKind::Row => "row",
            PointerKind::Panel => "panel",
            PointerKind::Target => "target",
            PointerKind::Alert => "alert",
        }
    }
}

/// One entry of a lineage: the position (or identifier) and title of a
/// dashboard, row, panel, target or alert.
#[derive(Clone, Debug)]
pub struct Pointer {
    pub id: u64,
    pub title: Option<String>,
    pub pointer_type: PointerKind,
}

/// A lineage entry as the contracts see it.
pub struct PointerView {
    pub id: u64,
    pub title: Option<Seq<char>>,
    pub kind: PointerKind,
}

/// An optional string as an optional character sequence.
pub open spec fn opt_view(o: Option<String>) -> Option<Seq<char>> {
    match o {
        Some(s) => Some(s@),
        None => None,
    }
}

impl View for Pointer {
    type V = PointerView;

    open spec fn view(&self) -> PointerView {
        PointerView { id: self.id, title: opt_view(self.title), kind: self.pointer_type }
    }
}

/// The metrics that one expression refers to, with the place where the
/// expression stands, outermost entry first.
#[derive(Clone, Debug)]
pub struct MetricsUsage {
    pub pointer: Vec<Pointer>,
    pub expression: String,
    pub metrics: Vec<String>,
}

/// A usage record as the contracts see it: lineage, expression text, and
/// the set of metric names.
pub struct UsageView {
    pub pointer: Seq<PointerView>,
    pub expression: Seq<char>,
    pub metrics: Set<Seq<char>>,
}

/// The lineage entries of `ps`, as seen by the contracts.
pub open spec fn pointer_views(ps: Seq<Pointer>) -> Seq<PointerView> {
    ps.map_values(|p: Pointer| p@)
}

impl View for MetricsUsage {
    type V = UsageView;

    open spec fn view(&self) -> UsageView {
        UsageView {
            pointer: pointer_views(self.pointer@),
            expression: self.expression@,
            metrics: names(self.metrics@),
        }
    }
}

impl MetricsUsage {
    /// No metric is listed twice.
    pub open spec fn wf(&self) -> bool {
        distinct_names(self.metrics@)
    }
}

/// The usage records of `us`, as seen by the contracts.
pub open spec fn usage_views(us: Seq<MetricsUsage>) -> Seq<UsageView> {
    us.map_values(|u: MetricsUsage| u@)
}

/// Every record of `us` lists each metric once.
pub open spec fn all_wf(us: Seq<MetricsUsage>) -> bool {
    forall|i: int| 0 <= i < us.len() ==> (#[trigger] us[i]).wf()
}

// ---------------------------------------------------------------------------
// Dashboards

/// The first lineage entry of every record of a dashboard.
pub open spec fn dashboard_pointer(d: Dashboard) -> PointerView {
    PointerView { id: d.id as u64, title: Some(d.title@), kind: PointerKind::Dashboard }
}

/// The lineage entry of the row at position `i`.
pub open spec fn row_pointer(i: int, row: Row) -> PointerView {
    PointerView { id: i as u64, title: Some(row.title@), kind: PointerKind::Row }
}

/// The lineage entry of the panel at position `j`.
pub open spec fn panel_pointer(j: int, panel: Panel) -> PointerView {
    PointerView { id: j as u64, title: Some(panel.title@), kind: PointerKind::Panel }
}

/// The lineage entry of the target at position `k`.
pub open spec fn target_pointer(k: int, target: Target) -> PointerView {
    PointerView { id: k as u64, title: opt_view(target.title), kind: PointerKind::Target }
}

/// The panel queries the metrics backend: its datasource is exactly `Prometheus`.
pub open spec fn is_prometheus(panel: Panel) -> bool {
    panel.datasource matches Some(s) && s@ == "Prometheus"@
}

/// The usage record of the target at position `k`, below `lineage`: none where
/// the target has no expression or the expression does not parse.
pub open spec fn target_usages(lineage: Seq<PointerView>, k: int, target: Target) -> Seq<UsageView> {
    match target.expr {
        None => seq![],
        Some(e) => match parsed_query(e@) {
            None => seq![],
            Some(ast) => seq![
                UsageView {
                    pointer: lineage.push(target_pointer(k, target)),
                    expression: e@,
                    metrics: metrics_of(ast),
                },
            ],
        },
    }
}

/// The usage records of `targets`, in order.
pub open spec fn targets_usages(lineage: Seq<PointerView>, targets: Seq<Target>) -> Seq<UsageView>
    decreases targets.len(),
{
    if targets.len() == 0 {
        seq![]
    } else {
        targets_usages(lineage, targets.drop_last()) + target_usages(
            lineage,
            targets.len() - 1,
            targets.last(),
        )
    }
}

/// The usage records of the panel at position `j`: none unless it queries
/// the metrics backend.
pub open spec fn panel_usages(lineage: Seq<PointerView>, j: int, panel: Panel) -> Seq<UsageView> {
    if is_prometheus(panel) {
        targets_usages(lineage.push(panel_pointer(j, panel)), panel.targets@)
    } else {
        seq![]
    }
}

/// The usage records of `panels`, in order.
pub open spec fn panels_usages(lineage: Seq<PointerView>, panels: Seq<Panel>) -> Seq<UsageView>
    decreases panels.len(),
{
    if panels.len() == 0 {
        seq![]
    } else {
        panels_usages(lineage, panels.drop_last()) + panel_usages(
            lineage,
            panels.len() - 1,
            panels.last(),
        )
    }
}

/// The usage records of `rows`, in order.
pub open spec fn rows_usages(lineage: Seq<PointerView>, rows: Seq<Row>) -> Seq<UsageView>
    decreases rows.len(),
{
    if rows.len() == 0 {
        seq![]
    } else {
        rows_usages(lineage, rows.drop_last()) + panels_usages(
            lineage.push(row_pointer(rows.len() - 1, rows.last())),
            rows.last().panels@,
        )
    }
}

/// A panel whose datasource is not exactly `Prometheus`, or is absent,
/// gives no usage record, whatever its targets hold.
pub proof fn lemma_other_datasource_silent(lineage: Seq<PointerView>, j: int, panel: Panel)
    requires
        !is_prometheus(panel),
    ensures
        panel_usages(lineage, j, panel) == Seq::<UsageView>::empty(),
{
}

/// A target without an expression gives no usage record.
pub proof fn lemma_no_expression_silent(lineage: Seq<PointerView>, k: int, target: Target)
    requires
        target.expr is None,
    ensures
        target_usages(lineage, k, target) == Seq::<UsageView>::empty(),
{
}

/// The usage records of a dashboard, in document order.
pub open spec fn dashboard_usages(d: Dashboard) -> Seq<UsageView> {
    rows_usages(seq![dashboard_pointer(d)], d.rows@)
}

/// A copy of an optional title.
fn copy_title(t: &Option<String>) -> (r: Option<String>)
    ensures
        opt_view(r) == opt_view(*t),
{
    match t {
        Some(s) => Some(s.clone()),
        None => None,
    }
}

/// A copy of a lineage entry.
fn copy_pointer(p: &Pointer) -> (r: Pointer)
    ensures
        r@ == p@,
{
    Pointer { id: p.id, title: copy_title(&p.title), pointer_type: p.pointer_type }
}

/// `lineage` with one more entry at its end.
fn extend_lineage(lineage: &Vec<Pointer>, p: Pointer) -> (r: Vec<Pointer>)
    ensures
        pointer_views(r@) == pointer_views(lineage@).push(p@),
{
    let mut r = copy_lineage(lineage);
    let ghost before = r@;
    r.push(p);
    assert(pointer_views(r@) =~= pointer_views(before).push(p@));
    r
}

/// Pushing a record pushes its view.
proof fn lemma_push_view(us: Seq<MetricsUsage>, u: MetricsUsage)
    ensures
        usage_views(us.push(u)) == usage_views(us) + seq![u@],
{
    assert(usage_views(us.push(u)) =~= usage_views(us) + seq![u@]);
}

/// Appends the usage records of `targets`, below `lineage`, to `usages`.
fn collect_targets(lineage: &Vec<Pointer>, targets: &Vec<Target>, usages: &mut Vec<MetricsUsage>)
    requires
        all_wf(old(usages)@),
    ensures
        all_wf(final(usages)@),
        usage_views(final(usages)@) == usage_views(old(usages)@) + targets_usages(
            pointer_views(lineage@),
            targets@,
        ),
{
    let ghost lin = pointer_views(lineage@);
    let mut k: usize = 0;
    while k < targets.len()
        invariant
            0 <= k <= targets.len(),
            lin == pointer_views(lineage@),
            all_wf(usages@),
            usage_views(usages@) == usage_views(old(usages)@) + targets_usages(lin, targets@.take(k as int)),
        decreases targets.len() - k,
    {
        let target = &targets[k];
        let ghost prev = usages@;
        assert(targets@.take(k + 1).drop_last() =~= targets@.take(k as int));
        assert(targets@.take(k + 1).last() == targets@[k as int]);
        match &target.expr {
            None => {},
            Some(expression) => {
                match parse_query(expression) {
                    None => {},
                    Some(ast) => {
                        let tp = Pointer {
                            id: k as u64,
                            title: copy_title(&target.title),
                            pointer_type: PointerKind::Target,
                        };
                        let pointer = extend_lineage(lineage, tp);
                        let u = usage_of(pointer, expression.clone(), &ast);
                        usages.push(u);
                        proof {
                            lemma_push_view(prev, u);
                        }
                    },
                }
            },
        }
        k = k + 1;
        assert(usage_views(usages@) =~= usage_views(old(usages)@) + targets_usages(lin, targets@.take(k as int)));
    }
    assert(targets@.take(targets.len() as int) =~= targets@);
}

/// A copy of a lineage.
fn copy_lineage(ps: &Vec<Pointer>) -> (r: Vec<Pointer>)
    ensures
        pointer_views(r@) == pointer_views(ps@),
{
    let mut r: Vec<Pointer> = Vec::new();
    let mut i: usize = 0;
    while i < ps.len()
        invariant
            0 <= i <= ps.len(),
            r@.len() == i,
            forall|k: int| 0 <= k < i ==> (#[trigger] r@[k])@ == ps@[k]@,
        decreases ps.len() - i,
    {
        r.push(copy_pointer(&ps[i]));
        i = i + 1;
    }
    assert(pointer_views(r@) =~= pointer_views(ps@));
    r
}

/// Appends the usage records of `panels`, below `lineage`, to `usages`.
fn collect_panels(
    lineage: &Vec<Pointer>,
    panels: &Vec<Panel>,
    prometheus: &String,
    usages: &mut Vec<MetricsUsage>,
)
    requires
        all_wf(old(usages)@),
        prometheus@ == "Prometheus"@,
    ensures
        all_wf(final(usages)@),
        usage_views(final(usages)@) == usage_views(old(usages)@) + panels_usages(
            pointer_views(lineage@),
            panels@,
        ),
{
    let ghost lin = pointer_views(lineage@);
    let mut j: usize = 0;
    while j < panels.len()
        invariant
            0 <= j <= panels.len(),
            lin == pointer_views(lineage@),
            prometheus@ == "Prometheus"@,
            all_wf(usages@),
            usage_views(usages@) == usage_views(old(usages)@) + panels_usages(lin, panels@.take(j as int)),
        decreases panels.len() - j,
    {
        let panel = &panels[j];
        assert(panels@.take(j + 1).drop_last() =~= panels@.take(j as int));
        assert(panels@.take(j + 1).last() == panels@[j as int]);
        let queries_backend = match &panel.datasource {
            Some(ds) => *ds == *prometheus,
            None => false,
        };
        if queries_backend {
            let pp = Pointer {
                id: j as u64,
                title: Some(panel.title.clone()),
                pointer_type: PointerKind::Panel,
            };
            let panel_lineage = extend_lineage(lineage, pp);
            collect_targets(&panel_lineage, &panel.targets, usages);
        }
        j = j + 1;
        assert(usage_views(usages@) =~= usage_views(old(usages)@) + panels_usages(lin, panels@.take(j as int)));
    }
    assert(panels@.take(panels.len() as int) =~= panels@);
}

/// The usage records of every query target of `dashboard`, in document
/// order. Only panels whose datasource is exactly `Prometheus` count; a
/// target without an expression, or whose expression does not parse, is
/// skipped. Rows, panels and targets are identified by their position.
pub fn get_used_metrics_from_dashboard(dashboard: Dashboard) -> (r: Vec<MetricsUsage>)
    ensures
        usage_views(r@) == dashboard_usages(dashboard),
        all_wf(r@),
{
    let prometheus: String = "Prometheus".to_owned();
    let mut lineage: Vec<Pointer> = Vec::new();
    lineage.push(Pointer {
        id: dashboard.id as u64,
        title: Some(dashboard.title.clone()),
        pointer_type: PointerKind::Dashboard,
    });
    assert(pointer_views(lineage@) =~= seq![dashboard_pointer(dashboard)]);
    let ghost lin = seq![dashboard_pointer(dashboard)];
    let rows = &dashboard.rows;
    let mut usages: Vec<MetricsUsage> = Vec::new();
    assert(usage_views(usages@) =~= seq![]);
    let mut i: usize = 0;
    while i < rows.len()
        invariant
            0 <= i <= rows.len(),
            rows == &dashboard.rows,
            lin == pointer_views(lineage@),
            lin == seq![dashboard_pointer(dashboard)],
            prometheus@ == "Prometheus"@,
            all_wf(usages@),
            usage_views(usages@) == rows_usages(lin, rows@.take(i as int)),
        decreases rows.len() - i,
    {
        let row = &rows[i];
        assert(rows@.take(i + 1).drop_last() =~= rows@.take(i as int));
        assert(rows@.take(i + 1).last() == rows@[i as int]);
        let rp = Pointer { id: i as u64, title: Some(row.title.clone()), pointer_type: PointerKind::Row };
        let row_lineage = extend_lineage(&lineage, rp);
        collect_panels(&row_lineage, &row.panels, &prometheus, &mut usages);
        i = i + 1;
    }
    assert(rows@.take(rows.len() as int) =~= rows@);
    usages
}

/// The usage record of an expression that parsed into `ast`, standing at
/// `pointer`: it lists exactly the metrics that `ast` refers to.
pub fn usage_of(pointer: Vec<Pointer>, expression: String, ast: &Expr) -> (r: MetricsUsage)
    ensures
        r@ == (UsageView {
            pointer: pointer_views(pointer@),
            expression: expression@,
            metrics: metrics_of(*ast),
        }),
        r.wf(),
{
    let mut metrics: Vec<String> = Vec::new();
    assert(names(metrics@) =~= Set::empty());
    get_used_metrics_from_node(ast, &mut metrics);
    assert(names(metrics@) =~= metrics_of(*ast));
    MetricsUsage { pointer, expression, metrics }
}

// ---------------------------------------------------------------------------
// Alerts

/// The usage record of an alert whose expression parsed into `ast`.
pub open spec fn alert_usage(alert: Alert, ast: Expr) -> UsageView {
    UsageView {
        pointer: seq![PointerView { id: 0, title: Some(alert.name@), kind: PointerKind::Alert }],
        expression: alert.expression@,
        metrics: metrics_of(ast),
    }
}

/// What collecting `alert` gives when its expression parsed into `parsed`:
/// its usage record, or an error that carries the expression.
pub open spec fn alert_outcome(alert: Alert, parsed: Option<Expr>, r: Result<MetricsUsage, CliError>) -> bool {
    match parsed {
        Some(ast) => r matches Ok(u) && u@ == alert_usage(alert, ast) && u.wf(),
        None => r matches Err(CliError::PromqlError(e, m)) && e@ == alert.expression@ && m is None,
    }
}

/// The usage record of `alert`, given what its expression parsed into;
/// `None` stands for an expression that does not parse.
pub fn usage_from_parsed_alert(alert: &Alert, parsed: Option<Expr>) -> (r: Result<MetricsUsage, CliError>)
    ensures
        alert_outcome(*alert, parsed, r),
{
    match parsed {
        None => Err(CliError::PromqlError(alert.expression.clone(), None)),
        Some(ast) => {
            let mut pointer: Vec<Pointer> = Vec::new();
            pointer.push(Pointer {
                id: 0,
                title: Some(alert.name.clone()),
                pointer_type: PointerKind::Alert,
            });
            assert(pointer_views(pointer@) =~= alert_usage(*alert, ast).pointer);
            Ok(usage_of(pointer, alert.expression.clone(), &ast))
        },
    }
}

/// The usage record of `alert`. Unlike a dashboard target, an alert whose
/// expression does not parse is an error, which carries the expression.
pub fn get_used_metrics_from_alert(alert: Alert) -> (r: Result<MetricsUsage, CliError>)
    ensures
        alert_outcome(alert, parsed_query(alert.expression@), r),
{
    let parsed = parse_query(&alert.expression);
    usage_from_parsed_alert(&alert, parsed)
}

// ---------------------------------------------------------------------------
// Reports

/// `u` with only those of its metrics that are not in `valid`.
pub open spec fn invalid_usage(valid: Set<Seq<char>>, u: UsageView) -> UsageView {
    UsageView { pointer: u.pointer, expression: u.expression, metrics: u.metrics.difference(valid) }
}

/// The report on `us` against the valid metrics `valid`: for each usage in
/// order, the metrics it refers to that are not valid, where there is one.
pub open spec fn report(valid: Set<Seq<char>>, us: Seq<UsageView>) -> Seq<UsageView>
    decreases us.len(),
{
    if us.len() == 0 {
        seq![]
    } else {
        let d = invalid_usage(valid, us.last());
        report(valid, us.drop_last()) + if d.metrics == Set::<Seq<char>>::empty() {
            seq![]
        } else {
            seq![d]
        }
    }
}

/// The report on two lists one after the other is the two reports one after
/// the other.
pub proof fn lemma_report_append(valid: Set<Seq<char>>, a: Seq<UsageView>, b: Seq<UsageView>)
    ensures
        report(valid, a + b) == report(valid, a) + report(valid, b),
    decreases b.len(),
{
    if b.len() == 0 {
        assert(a + b =~= a);
        assert(report(valid, a) + report(valid, b) =~= report(valid, a));
    } else {
        assert((a + b).drop_last() =~= a + b.drop_last());
        assert((a + b).last() == b.last());
        lemma_report_append(valid, a, b.drop_last());
        assert(report(valid, a + b) =~= report(valid, a) + report(valid, b));
    }
}

/// Reporting on a report against the same valid metrics gives that report
/// back: what is left of each record is already disjoint from them.
pub proof fn lemma_report_idempotent(valid: Set<Seq<char>>, us: Seq<UsageView>)
    ensures
        report(valid, report(valid, us)) == report(valid, us),
    decreases us.len(),
{
    if us.len() > 0 {
        let rest = report(valid, us.drop_last());
        let d = invalid_usage(valid, us.last());
        lemma_report_idempotent(valid, us.drop_last());
        if d.metrics == Set::<Seq<char>>::empty() {
            assert(report(valid, us) =~= rest);
        } else {
            lemma_report_append(valid, rest, seq![d]);
            assert(seq![d].drop_last() =~= Seq::<UsageView>::empty());
            assert(invalid_usage(valid, d).metrics =~= d.metrics);
            assert(invalid_usage(valid, d) == d);
            assert(seq![d].last() == d);
            assert(report(valid, Seq::<UsageView>::empty()) == Seq::<UsageView>::empty());
            assert(report(valid, seq![d]) =~= seq![d]);
        }
    }
}

/// A usage whose metrics are all valid leaves no record in the report,
/// wherever it stands.
pub proof fn lemma_report_drops_valid(
    valid: Set<Seq<char>>,
    before: Seq<UsageView>,
    u: UsageView,
    after: Seq<UsageView>,
)
    requires
        u.metrics.subset_of(valid),
    ensures
        report(valid, before + seq![u] + after) == report(valid, before) + report(valid, after),
{
    lemma_report_append(valid, before + seq![u], after);
    lemma_report_append(valid, before, seq![u]);
    assert(seq![u].drop_last() =~= Seq::<UsageView>::empty());
    assert(seq![u].last() == u);
    assert(invalid_usage(valid, u).metrics =~= Set::<Seq<char>>::empty());
    assert(report(valid, Seq::<UsageView>::empty()) == Seq::<UsageView>::empty());
    assert(report(valid, seq![u]) =~= Seq::<UsageView>::empty());
    assert(report(valid, before) + report(valid, seq![u]) =~= report(valid, before));
}

/// The names of `metrics` that are not in `valid`, each once.
fn invalid_metrics(valid: &Vec<String>, metrics: &Vec<String>) -> (r: Vec<String>)
    ensures
        distinct_names(r@),
        names(r@) == names(metrics@).difference(names(valid@)),
{
    let mut r: Vec<String> = Vec::new();
    assert(names(r@) =~= Set::empty());
    let mut i: usize = 0;
    while i < metrics.len()
        invariant
            0 <= i <= metrics.len(),
            distinct_names(r@),
            names(r@) == names(metrics@.take(i as int)).difference(names(valid@)),
        decreases metrics.len() - i,
    {
        let ghost before = names(metrics@.take(i as int));
        assert(names(metrics@.take(i + 1)) =~= before.insert(metrics@[i as int]@)) by {
            assert forall|m: Seq<char>| names(metrics@.take(i + 1)).contains(m) implies before.insert(metrics@[i as int]@).contains(m) by {
                let k = choose|k: int| 0 <= k < i + 1 && (#[trigger] metrics@.take(i + 1)[k])@ == m;
                if k < i {
                    assert(metrics@.take(i as int)[k] == metrics@.take(i + 1)[k]);
                }
            }
            assert forall|m: Seq<char>| before.insert(metrics@[i as int]@).contains(m) implies names(metrics@.take(i + 1)).contains(m) by {
                if m == metrics@[i as int]@ {
                    assert(metrics@.take(i + 1)[i as int] == metrics@[i as int]);
                } else {
                    let k = choose|k: int| 0 <= k < i && (#[trigger] metrics@.take(i as int)[k])@ == m;
                    assert(metrics@.take(i as int)[k] == metrics@.take(i + 1)[k]);
                }
            }
        }
        if !contains_name(valid, &metrics[i]) {
            insert_name(&mut r, metrics[i].clone());
        }
        i = i + 1;
        assert(names(r@) =~= names(metrics@.take(i as int)).difference(names(valid@)));
    }
    assert(metrics@.take(metrics.len() as int) =~= metrics@);
    r
}

/// The report on `usages`: for each usage, in order, a record of the same
/// place and expression that lists the metrics not among `valid_metrics`;
/// usages whose metrics are all valid are left out. Repeated names in
/// `valid_metrics` do not matter.
pub fn build_report(valid_metrics: &Vec<String>, usages: &Vec<MetricsUsage>) -> (r: Vec<MetricsUsage>)
    ensures
        usage_views(r@) == report(names(valid_metrics@), usage_views(usages@)),
        all_wf(r@),
{
    let ghost valid = names(valid_metrics@);
    let mut r: Vec<MetricsUsage> = Vec::new();
    assert(usage_views(r@) =~= seq![]);
    let mut i: usize = 0;
    while i < usages.len()
        invariant
            0 <= i <= usages.len(),
            valid == names(valid_metrics@),
            all_wf(r@),
            usage_views(r@) == report(valid, usage_views(usages@.take(i as int))),
        decreases usages.len() - i,
    {
        let u = &usages[i];
        let ghost prev = r@;
        assert(usage_views(usages@.take(i + 1)).drop_last() =~= usage_views(usages@.take(i as int)));
        assert(usage_views(usages@.take(i + 1)).last() == u@);
        let invalid = invalid_metrics(valid_metrics, &u.metrics);
        proof {
            lemma_names_empty(invalid@);
        }
        if invalid.len() > 0 {
            let d = MetricsUsage { pointer: copy_lineage(&u.pointer), expression: u.expression.clone(), metrics: invalid };
            assert(d@ == invalid_usage(valid, u@));
            r.push(d);
            proof {
                lemma_push_view(prev, d);
            }
        }
        i = i + 1;
    }
    assert(usages@.take(usages.len() as int) =~= usages@);
    r
}

} // verus!
