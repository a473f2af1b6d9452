use vstd::prelude::*;

verus! {

/// A dashboard: its numeric identifier, its title and its rows.
#[derive(Clone, Debug)]
pub struct Dashboard {
    pub id: u32,
    pub title: String,
    pub rows: Vec<Row>,
}

/// A row of a dashboard.
#[derive(Clone, Debug)]
pub struct Row {
    pub title: String,
    pub panels: Vec<Panel>,
}

/// A panel of a row; `datasource` names the backend its targets query.
#[derive(Clone, Debug)]
pub struct Panel {
    pub title: String,
    pub datasource: Option<String>,
    pub targets: Vec<Target>,
}

/// A query target of a panel.
#[derive(Clone, Debug)]
pub struct Target {
    pub title: Option<String>,
    pub expr: Option<String>,
}

/// One entry of a dashboard search.
#[derive(Clone, Debug)]
pub struct DashboardSearchResult {
    pub id: u32,
    pub is_starred: bool,
    pub tags: Vec<String>,
    pub title: String,
    pub dashboard_type: String,
    pub uri: String,
}

} // verus!
