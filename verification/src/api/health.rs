//! The health summary of the projections.

use vstd::prelude::*;
use vstd::string::*;

use crate::domain::types::{ProjectionHealth, ProjectionStatus};
use crate::projection::catalog::{CatalogEntry, ProjectionCatalog};

verus! {

#[derive(Debug, Clone)]
pub struct ProjectionHealthInfo {
    pub id: String,
    pub status: ProjectionStatus,
    pub health: ProjectionHealth,
}

#[derive(Debug, Clone)]
pub struct HealthResponse {
    pub status: String,
    pub version: String,
    pub projections: Vec<ProjectionHealthInfo>,
}

impl HealthResponse {
    /// The health of every catalogued projection, in catalogue order;
    /// `ok` when all are healthy, else `degraded`.
    pub fn from_catalog(catalog: &ProjectionCatalog, app_version: &str) -> (r: Self)
        ensures
            r.projections@.len() == catalog.entry_seq().len(),
            forall|i: int|
                0 <= i < r.projections@.len() ==> (#[trigger] r.projections@[i]).id@
                    == catalog.entry_seq()[i].spec.id@ && r.projections@[i].status
                    == catalog.entry_seq()[i].status && r.projections@[i].health
                    == catalog.entry_seq()[i].health,
            r.status@ == if forall|i: int|
                0 <= i < catalog.entry_seq().len() ==> (#[trigger] catalog.entry_seq()[i]).health
                    == ProjectionHealth::Healthy {
                "ok"@
            } else {
                "degraded"@
            },
            r.version@ == app_version@,
    {
        let entries = catalog.entries();
        let mut projections: Vec<ProjectionHealthInfo> = Vec::new();
        let mut all_healthy = true;
        let mut i: usize = 0;
        while i < entries.len()
            invariant
                i <= entries@.len(),
                entries@ == catalog.entry_seq(),
                projections@.len() == i,
                forall|k: int|
                    0 <= k < i ==> (#[trigger] projections@[k]).id@ == entries@[k].spec.id@
                        && projections@[k].status == entries@[k].status && projections@[k].health
                        == entries@[k].health,
                all_healthy == forall|k: int|
                    0 <= k < i ==> (#[trigger] entries@[k]).health == ProjectionHealth::Healthy,
            decreases entries@.len() - i,
        {
            let e = &entries[i];
            projections.push(
                ProjectionHealthInfo { id: e.spec.id.to_string(), status: e.status, health: e.health },
            );
            if e.health != ProjectionHealth::Healthy {
                all_healthy = false;
            }
            i = i + 1;
        }
        let status = if all_healthy {
            "ok"
        } else {
            "degraded"
        };
        HealthResponse {
            status: String::from_str(status),
            version: String::from_str(app_version),
            projections,
        }
    }
}

} // verus!
