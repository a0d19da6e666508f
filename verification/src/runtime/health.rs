//! Aggregated service health: component statuses and projection health
//! folded into one overall status.

use vstd::prelude::*;
use vstd::string::*;

use crate::domain::types::ProjectionHealth;
use crate::domain::values::ProjectionRef;
use crate::table::{
    keys_distinct, lemma_table_map_entry, lemma_table_map_key, table_insert, table_map,
};
use crate::text::copy_opt_string;

verus! {

#[derive(Debug, Clone)]
pub struct ServiceHealth {
    pub status: HealthStatus,
    pub version: String,
    /// Projection health keyed by projection reference.
    pub projections: Vec<(String, ProjectionHealthInfo)>,
    /// Component health keyed by component name.
    pub components: Vec<(String, ComponentHealth)>,
}

#[derive(Debug, Clone, Copy, PartialEq, Eq, Structural)]
pub enum HealthStatus {
    Healthy,
    Degraded,
    Unhealthy,
}

#[derive(Debug, Clone)]
pub struct ProjectionHealthInfo {
    pub status: ProjectionHealth,
    pub built_at: Option<String>,
    pub stale: bool,
}

impl ProjectionHealthInfo {
    pub fn duplicate(&self) -> (r: Self)
        ensures
            r == *self,
    {
        ProjectionHealthInfo {
            status: self.status,
            built_at: copy_opt_string(&self.built_at),
            stale: self.stale,
        }
    }
}

#[derive(Debug, Clone)]
pub struct ComponentHealth {
    pub name: String,
    pub status: HealthStatus,
    pub message: Option<String>,
}

impl ComponentHealth {
    pub fn duplicate(&self) -> (r: Self)
        ensures
            r == *self,
    {
        ComponentHealth {
            name: self.name.clone(),
            status: self.status,
            message: copy_opt_string(&self.message),
        }
    }
}

/// The projections as a map from reference to health; a later entry for
/// the same reference replaces an earlier one.
pub open spec fn projection_map(p: Seq<(ProjectionRef, ProjectionHealthInfo)>) -> Map<
    Seq<char>,
    ProjectionHealthInfo,
>
    decreases p.len(),
{
    if p.len() == 0 {
        Map::empty()
    } else {
        projection_map(p.drop_last()).insert(p.last().0@, p.last().1)
    }
}

/// The components as a map from name to health; a later component with
/// the same name replaces an earlier one.
pub open spec fn component_map(c: Seq<ComponentHealth>) -> Map<Seq<char>, ComponentHealth>
    decreases c.len(),
{
    if c.len() == 0 {
        Map::empty()
    } else {
        component_map(c.drop_last()).insert(c.last().name@, c.last())
    }
}

/// Whether a projection health counts against the service.
pub open spec fn projection_degrades(h: ProjectionHealth) -> bool {
    h == ProjectionHealth::Degraded || h == ProjectionHealth::Broken
}

/// Unhealthy when any component is unhealthy; else degraded when any
/// component is degraded or any projection is degraded or broken; else
/// healthy.
pub open spec fn overall_status(
    components: Seq<ComponentHealth>,
    projections: Map<Seq<char>, ProjectionHealthInfo>,
) -> HealthStatus {
    if exists|i: int|
        0 <= i < components.len() && (#[trigger] components[i]).status
            == HealthStatus::Unhealthy {
        HealthStatus::Unhealthy
    } else if (exists|i: int|
        0 <= i < components.len() && (#[trigger] components[i]).status == HealthStatus::Degraded)
        || (exists|k: Seq<char>|
        projections.contains_key(k) && projection_degrades(#[trigger] projections[k].status)) {
        HealthStatus::Degraded
    } else {
        HealthStatus::Healthy
    }
}

pub struct HealthAggregator {
    pub version: String,
}

impl HealthAggregator {
    pub fn new(version: &str) -> (r: Self)
        ensures
            r.version@ == version@,
    {
        HealthAggregator { version: String::from_str(version) }
    }

    /// The service health of the given components and projections.
    pub fn aggregate(
        &self,
        components: Vec<ComponentHealth>,
        projections: Vec<(ProjectionRef, ProjectionHealthInfo)>,
    ) -> (r: ServiceHealth)
        ensures
            keys_distinct(r.projections@),
            table_map(r.projections@) == projection_map(projections@),
            keys_distinct(r.components@),
            table_map(r.components@) == component_map(components@),
            r.status == overall_status(components@, projection_map(projections@)),
            r.version@ == self.version@,
    {
        let mut proj_table: Vec<(String, ProjectionHealthInfo)> = Vec::new();
        let mut i: usize = 0;
        while i < projections.len()
            invariant
                i <= projections@.len(),
                keys_distinct(proj_table@),
                table_map(proj_table@) == projection_map(projections@.take(i as int)),
            decreases projections@.len() - i,
        {
            let entry = &projections[i];
            assert(projections@.take(i + 1).drop_last() =~= projections@.take(i as int));
            table_insert(&mut proj_table, entry.0.to_string(), entry.1.duplicate());
            i = i + 1;
        }
        assert(projections@.take(projections@.len() as int) =~= projections@);
        let mut comp_table: Vec<(String, ComponentHealth)> = Vec::new();
        let mut j: usize = 0;
        while j < components.len()
            invariant
                j <= components@.len(),
                keys_distinct(comp_table@),
                table_map(comp_table@) == component_map(components@.take(j as int)),
            decreases components@.len() - j,
        {
            let c = &components[j];
            assert(components@.take(j + 1).drop_last() =~= components@.take(j as int));
            table_insert(&mut comp_table, c.name.clone(), c.duplicate());
            j = j + 1;
        }
        assert(components@.take(components@.len() as int) =~= components@);
        let status = Self::compute_overall(&components, &proj_table);
        ServiceHealth {
            status,
            version: self.version.clone(),
            projections: proj_table,
            components: comp_table,
        }
    }

    fn compute_overall(
        components: &Vec<ComponentHealth>,
        projections: &Vec<(String, ProjectionHealthInfo)>,
    ) -> (r: HealthStatus)
        requires
            keys_distinct(projections@),
        ensures
            r == overall_status(components@, table_map(projections@)),
    {
        let ghost m = table_map(projections@);
        let mut any_unhealthy = false;
        let mut any_degraded = false;
        let mut i: usize = 0;
        while i < components.len()
            invariant
                i <= components@.len(),
                any_unhealthy == exists|k: int|
                    0 <= k < i && (#[trigger] components@[k]).status == HealthStatus::Unhealthy,
                any_degraded == exists|k: int|
                    0 <= k < i && (#[trigger] components@[k]).status == HealthStatus::Degraded,
            decreases components@.len() - i,
        {
            match components[i].status {
                HealthStatus::Unhealthy => {
                    any_unhealthy = true;
                },
                HealthStatus::Degraded => {
                    any_degraded = true;
                },
                HealthStatus::Healthy => {},
            }
            i = i + 1;
        }
        if any_unhealthy {
            return HealthStatus::Unhealthy;
        }
        let mut proj_degraded = false;
        let mut p: usize = 0;
        while p < projections.len()
            invariant
                p <= projections@.len(),
                keys_distinct(projections@),
                m == table_map(projections@),
                proj_degraded == exists|k: int|
                    0 <= k < p && projection_degrades((#[trigger] projections@[k]).1.status),
            decreases projections@.len() - p,
        {
            let s = projections[p].1.status;
            if s == ProjectionHealth::Degraded || s == ProjectionHealth::Broken {
                proj_degraded = true;
            }
            p = p + 1;
        }
        proof {
            if proj_degraded {
                let k = choose|k: int|
                    0 <= k < projections@.len() && projection_degrades(
                        (#[trigger] projections@[k]).1.status,
                    );
                lemma_table_map_entry(projections@, k);
                assert(m.contains_key(projections@[k].0@) && projection_degrades(
                    m[projections@[k].0@].status,
                ));
            } else {
                assert forall|key: Seq<char>| m.contains_key(key) implies !projection_degrades(
                    #[trigger] m[key].status,
                ) by {
                    let k = lemma_table_map_key(projections@, key);
                    lemma_table_map_entry(projections@, k);
                    assert(!projection_degrades(projections@[k].1.status));
                }
            }
        }
        if any_degraded || proj_degraded {
            HealthStatus::Degraded
        } else {
            HealthStatus::Healthy
        }
    }
}

/// An unhealthy component makes the service unhealthy, whatever the other
/// components and the projections report.
pub proof fn lemma_unhealthy_component_dominates(
    components: Seq<ComponentHealth>,
    projections: Map<Seq<char>, ProjectionHealthInfo>,
    i: int,
)
    requires
        0 <= i < components.len(),
        components[i].status == HealthStatus::Unhealthy,
    ensures
        overall_status(components, projections) == HealthStatus::Unhealthy,
{
}

/// The service is healthy exactly when no component is unhealthy or
/// degraded and no projection is degraded or broken.
pub proof fn lemma_healthy_iff_nothing_wrong(
    components: Seq<ComponentHealth>,
    projections: Map<Seq<char>, ProjectionHealthInfo>,
)
    ensures
        (overall_status(components, projections) == HealthStatus::Healthy) <==> (
        (forall|i: int|
            0 <= i < components.len() ==> (#[trigger] components[i]).status == HealthStatus::Healthy)
            && (forall|k: Seq<char>|
            projections.contains_key(k) ==> !projection_degrades(#[trigger] projections[k].status))),
{
    if overall_status(components, projections) == HealthStatus::Healthy {
        assert forall|i: int|
            0 <= i < components.len() implies (#[trigger] components[i]).status
            == HealthStatus::Healthy by {
            match components[i].status {
                HealthStatus::Unhealthy => {},
                HealthStatus::Degraded => {},
                HealthStatus::Healthy => {},
            }
        }
    }
}

} // verus!
