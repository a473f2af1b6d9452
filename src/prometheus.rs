use std::collections::HashMap;

use vstd::prelude::*;

verus! {

/// An alerting rule: its name, its query expression, and its label and
/// annotation maps.
#[derive(Clone, Debug)]
pub struct Alert {
    pub name: String,
    pub expression: String,
    pub labels: HashMap<String, String>,
    pub annotations: HashMap<String, String>,
}

} // verus!
