//! The registry store: each collection is keyed by id, and every
//! registration is checked against what it refers to.

use vstd::prelude::*;
use vstd::string::*;

use crate::domain::error::DomainError;
use crate::domain::json::JsonValue;
use crate::domain::types::ProjectionStatus;
use crate::domain::values::{EntityTypeRef, ObserverRef, ProjectionRef, SchemaRef, SemVer, SourceSystemRef};
use crate::registry::catalog::ProjectionCatalogEntry;
use crate::registry::entity_type::{base_entity_types, base_type_ids, EntityType};
use crate::registry::observer::{Observer, SourceSystem};
use crate::registry::schema::{ObservationSchema, SchemaVersion};
use crate::text::{concat3, str_eq};
use crate::trusted::now_micros;

verus! {

/// Anything the registry keys by an id.
pub trait Identified {
    spec fn key(&self) -> Seq<char>;

    fn key_str(&self) -> (r: &str)
        ensures
            r@ == self.key(),
    ;
}

impl Identified for EntityType {
    open spec fn key(&self) -> Seq<char> {
        self.id@
    }

    fn key_str(&self) -> (r: &str) {
        self.id.as_str()
    }
}

impl Identified for ObservationSchema {
    open spec fn key(&self) -> Seq<char> {
        self.id@
    }

    fn key_str(&self) -> (r: &str) {
        self.id.as_str()
    }
}

impl Identified for SourceSystem {
    open spec fn key(&self) -> Seq<char> {
        self.id@
    }

    fn key_str(&self) -> (r: &str) {
        self.id.as_str()
    }
}

impl Identified for Observer {
    open spec fn key(&self) -> Seq<char> {
        self.id@
    }

    fn key_str(&self) -> (r: &str) {
        self.id.as_str()
    }
}

impl Identified for ProjectionCatalogEntry {
    open spec fn key(&self) -> Seq<char> {
        self.id@
    }

    fn key_str(&self) -> (r: &str) {
        self.id.as_str()
    }
}

/// Some item of `s` has id `id`.
pub open spec fn holds_id<T: Identified>(s: Seq<T>, id: Seq<char>) -> bool {
    exists|i: int| 0 <= i < s.len() && #[trigger] s[i].key() == id
}

/// No two items of `s` share an id.
pub open spec fn ids_unique<T: Identified>(s: Seq<T>) -> bool {
    forall|i: int, j: int| 0 <= i < j < s.len() ==> #[trigger] s[i].key() != #[trigger] s[j].key()
}

/// Pushing an item with a new id keeps the ids unique.
pub proof fn lemma_push_unique<T: Identified>(s: Seq<T>, x: T)
    requires
        ids_unique(s),
        !holds_id(s, x.key()),
    ensures
        ids_unique(s.push(x)),
{
    assert forall|i: int, j: int| 0 <= i < j < s.push(x).len() implies #[trigger] s.push(x)[i].key()
        != #[trigger] s.push(x)[j].key() by {
        if j == s.len() {
            assert(s[i] == s.push(x)[i]);
        } else {
            assert(s[i] == s.push(x)[i]);
            assert(s[j] == s.push(x)[j]);
        }
    }
}

/// Position of the item with id `id`.
fn position<T: Identified>(v: &Vec<T>, id: &str) -> (r: Option<usize>)
    ensures
        match r {
            Some(i) => i < v@.len() && v@[i as int].key() == id@,
            None => !holds_id(v@, id@),
        },
{
    let mut i: usize = 0;
    while i < v.len()
        invariant
            i <= v@.len(),
            forall|j: int| 0 <= j < i ==> #[trigger] v@[j].key() != id@,
        decreases v@.len() - i,
    {
        let k = v[i].key_str();
        if str_eq(k, id) {
            return Some(i);
        }
        i = i + 1;
    }
    None
}

/// The item with id `id`, if any.
fn find<'a, T: Identified>(v: &'a Vec<T>, id: &str) -> (r: Option<&'a T>)
    ensures
        match r {
            Some(x) => x.key() == id@ && v@.contains(*x),
            None => !holds_id(v@, id@),
        },
{
    match position(v, id) {
        Some(i) => {
            assert(v@[i as int] == v@[i as int]);
            Some(&v[i])
        },
        None => None,
    }
}

/// References to every item, in order.
fn all_of<'a, T>(v: &'a Vec<T>) -> (r: Vec<&'a T>)
    ensures
        r@.len() == v@.len(),
        forall|i: int| 0 <= i < v@.len() ==> *#[trigger] r@[i] == v@[i],
{
    let mut out: Vec<&'a T> = Vec::new();
    let mut i: usize = 0;
    while i < v.len()
        invariant
            i <= v@.len(),
            out@.len() == i,
            forall|k: int| 0 <= k < i ==> *#[trigger] out@[k] == v@[k],
        decreases v@.len() - i,
    {
        out.push(&v[i]);
        i = i + 1;
    }
    out
}

/// The registry, held in memory.
#[derive(Debug)]
pub struct RegistryStore {
    entity_types: Vec<EntityType>,
    schemas: Vec<ObservationSchema>,
    schema_versions: Vec<SchemaVersion>,
    observers: Vec<Observer>,
    source_systems: Vec<SourceSystem>,
    projections: Vec<ProjectionCatalogEntry>,
}

impl RegistryStore {
    pub closed spec fn entity_types(&self) -> Seq<EntityType> {
        self.entity_types@
    }

    pub closed spec fn schemas(&self) -> Seq<ObservationSchema> {
        self.schemas@
    }

    pub closed spec fn schema_versions(&self) -> Seq<SchemaVersion> {
        self.schema_versions@
    }

    pub closed spec fn observers(&self) -> Seq<Observer> {
        self.observers@
    }

    pub closed spec fn source_systems(&self) -> Seq<SourceSystem> {
        self.source_systems@
    }

    pub closed spec fn projections(&self) -> Seq<ProjectionCatalogEntry> {
        self.projections@
    }

    /// The observer registered under `id`.
    pub open spec fn observer_of(&self, id: Seq<char>) -> Option<Observer> {
        if holds_id(self.observers(), id) {
            Some(
                self.observers()[choose|i: int|
                    0 <= i < self.observers().len() && #[trigger] self.observers()[i].key() == id],
            )
        } else {
            None
        }
    }

    /// The schema registered under `id`.
    pub open spec fn schema_of(&self, id: Seq<char>) -> Option<ObservationSchema> {
        if holds_id(self.schemas(), id) {
            Some(
                self.schemas()[choose|i: int|
                    0 <= i < self.schemas().len() && #[trigger] self.schemas()[i].key() == id],
            )
        } else {
            None
        }
    }

    /// Every collection is keyed: no two items share an id.
    pub open spec fn wf(&self) -> bool {
        &&& ids_unique(self.entity_types())
        &&& ids_unique(self.schemas())
        &&& ids_unique(self.observers())
        &&& ids_unique(self.source_systems())
        &&& ids_unique(self.projections())
    }

    /// A registry holding the base entity types and nothing else.
    pub fn new() -> (r: Self)
        ensures
            r.wf(),
            r.entity_types().map_values(|e: EntityType| e.id@) == base_type_ids(),
            r.schemas().len() == 0,
            r.schema_versions().len() == 0,
            r.observers().len() == 0,
            r.source_systems().len() == 0,
            r.projections().len() == 0,
    {
        let types = base_entity_types();
        proof {
            reveal_strlit("et:person");
            reveal_strlit("et:space");
            reveal_strlit("et:artifact");
            reveal_strlit("et:document");
            reveal_strlit("et:message");
            reveal_strlit("et:observer");
            let ids = base_type_ids();
            assert(ids[2][3] != ids[3][3]);
            assert(ids[2][3] != ids[5][3]);
            assert(ids[3][3] != ids[5][3]);
            assert forall|i: int, j: int| 0 <= i < j < types@.len() implies #[trigger] types@[i].key()
                != #[trigger] types@[j].key() by {
                assert(types@[i].id@ == ids[i]);
                assert(types@[j].id@ == ids[j]);
                if ids[i] == ids[j] {
                    assert(ids[i].len() == ids[j].len());
                    assert(ids[i][3] == ids[j][3]);
                }
            }
            assert(types@.map_values(|e: EntityType| e.id@) =~= base_type_ids());
        }
        RegistryStore {
            entity_types: types,
            schemas: Vec::new(),
            schema_versions: Vec::new(),
            observers: Vec::new(),
            source_systems: Vec::new(),
            projections: Vec::new(),
        }
    }

    // ---- entity types ------------------------------------------------------
    /// Registers an entity type. Its id must be new (else `Conflict`) and
    /// its parent, if any, registered (else `Validation`).
    pub fn register_entity_type(&mut self, et: EntityType) -> (r: Result<(), DomainError>)
        requires
            old(self).wf(),
        ensures
            final(self).wf(),
            holds_id(old(self).entity_types(), et.id@) ==> (r matches Err(DomainError::Conflict(m))
                && m@ == "EntityType "@ + et.id@ + " already exists"@),
            !holds_id(old(self).entity_types(), et.id@) && (et.parent matches Some(p)
                && !holds_id(old(self).entity_types(), p@)) ==> (r matches Err(
                DomainError::Validation(m),
            ) && m@ == "Parent EntityType "@ + et.parent->0@ + " does not exist"@),
            r is Ok <==> !holds_id(old(self).entity_types(), et.id@) && !(et.parent matches Some(p)
                && !holds_id(old(self).entity_types(), p@)),
            r is Ok ==> final(self).entity_types() == old(self).entity_types().push(et),
            r is Err ==> final(self).entity_types() == old(self).entity_types(),
            final(self).schemas() == old(self).schemas(),
            final(self).schema_versions() == old(self).schema_versions(),
            final(self).observers() == old(self).observers(),
            final(self).source_systems() == old(self).source_systems(),
            final(self).projections() == old(self).projections(),
    {
        if position(&self.entity_types, et.id.as_str()).is_some() {
            return Err(
                DomainError::Conflict(concat3("EntityType ", et.id.as_str(), " already exists")),
            );
        }
        match &et.parent {
            Some(parent) => {
                if position(&self.entity_types, parent.as_str()).is_none() {
                    return Err(
                        DomainError::Validation(
                            concat3("Parent EntityType ", parent.as_str(), " does not exist"),
                        ),
                    );
                }
            },
            None => {},
        }
        proof {
            lemma_push_unique(self.entity_types@, et);
        }
        self.entity_types.push(et);
        Ok(())
    }

    pub fn get_entity_type(&self, id: &EntityTypeRef) -> (r: Option<&EntityType>)
        ensures
            match r {
                Some(e) => e.id@ == id@ && self.entity_types().contains(*e),
                None => !holds_id(self.entity_types(), id@),
            },
    {
        find(&self.entity_types, id.as_str())
    }

    /// Every entity type, in registration order.
    pub fn list_entity_types(&self) -> (r: Vec<&EntityType>)
        ensures
            r@.len() == self.entity_types().len(),
            forall|i: int| 0 <= i < r@.len() ==> *#[trigger] r@[i] == self.entity_types()[i],
    {
        all_of(&self.entity_types)
    }

    // ---- schemas -------------------------------------------------------------
    /// Registers a schema and records its first version. Its id must be
    /// new (else `Conflict`) and its subject type registered or `et:*`
    /// (else `Validation`).
    pub fn register_schema(&mut self, schema: ObservationSchema) -> (r: Result<(), DomainError>)
        requires
            old(self).wf(),
        ensures
            final(self).wf(),
            holds_id(old(self).schemas(), schema.id@) ==> (r matches Err(DomainError::Conflict(m))
                && m@ == "Schema "@ + schema.id@
                + " already exists \u{2013} use add_schema_version for new versions"@),
            !holds_id(old(self).schemas(), schema.id@) && schema.subject_type@ != "et:*"@
                && !holds_id(old(self).entity_types(), schema.subject_type@) ==> (r matches Err(
                DomainError::Validation(m),
            ) && m@ == "Subject EntityType "@ + schema.subject_type@ + " does not exist"@),
            r is Ok <==> !holds_id(old(self).schemas(), schema.id@) && (schema.subject_type@
                == "et:*"@ || holds_id(old(self).entity_types(), schema.subject_type@)),
            r is Ok ==> final(self).schemas() == old(self).schemas().push(schema),
            r is Ok ==> final(self).schema_versions().len() == old(self).schema_versions().len() + 1
                && final(self).schema_versions().drop_last() == old(self).schema_versions()
                && final(self).schema_versions().last().schema_id@ == schema.id@
                && final(self).schema_versions().last().version@ == schema.version@
                && final(self).schema_versions().last().payload_schema@ == schema.payload_schema@,
            r is Err ==> final(self).schemas() == old(self).schemas()
                && final(self).schema_versions() == old(self).schema_versions(),
            final(self).entity_types() == old(self).entity_types(),
            final(self).observers() == old(self).observers(),
            final(self).source_systems() == old(self).source_systems(),
            final(self).projections() == old(self).projections(),
    {
        if position(&self.schemas, schema.id.as_str()).is_some() {
            return Err(
                DomainError::Conflict(
                    concat3(
                        "Schema ",
                        schema.id.as_str(),
                        " already exists \u{2013} use add_schema_version for new versions",
                    ),
                ),
            );
        }
        let wildcard = schema.subject_type.0 == String::from_str("et:*");
        if !wildcard && position(&self.entity_types, schema.subject_type.as_str()).is_none() {
            return Err(
                DomainError::Validation(
                    concat3("Subject EntityType ", schema.subject_type.as_str(), " does not exist"),
                ),
            );
        }
        let ver = SchemaVersion {
            schema_id: schema.id.duplicate(),
            version: schema.version.duplicate(),
            payload_schema: schema.payload_schema.duplicate(),
            created_at: now_micros(),
        };
        proof {
            lemma_push_unique(self.schemas@, schema);
        }
        self.schemas.push(schema);
        self.schema_versions.push(ver);
        Ok(())
    }

    /// Records a new version of a registered schema (else `NotFound`) and
    /// makes it the schema's current version.
    pub fn add_schema_version(
        &mut self,
        id: &SchemaRef,
        version: SemVer,
        payload_schema: JsonValue,
    ) -> (r: Result<(), DomainError>)
        requires
            old(self).wf(),
        ensures
            final(self).wf(),
            r is Ok <==> holds_id(old(self).schemas(), id@),
            r is Err ==> (r matches Err(DomainError::NotFound(m)) && m@ == "Schema "@ + id@
                + " not found"@) && final(self).schemas() == old(self).schemas()
                && final(self).schema_versions() == old(self).schema_versions(),
            r is Ok ==> final(self).schema_versions().len() == old(self).schema_versions().len() + 1
                && final(self).schema_versions().drop_last() == old(self).schema_versions()
                && final(self).schema_versions().last().schema_id@ == id@
                && final(self).schema_versions().last().version@ == version@
                && final(self).schema_versions().last().payload_schema@ == payload_schema@,
            r is Ok ==> final(self).schemas().len() == old(self).schemas().len() && forall|i: int|
                0 <= i < old(self).schemas().len() ==> (#[trigger] final(self).schemas()[i]).id@
                    == old(self).schemas()[i].id@ && (final(self).schemas()[i].version@ == if old(
                    self,
                ).schemas()[i].id@ == id@ {
                    version@
                } else {
                    old(self).schemas()[i].version@
                }),
            final(self).entity_types() == old(self).entity_types(),
            final(self).observers() == old(self).observers(),
            final(self).source_systems() == old(self).source_systems(),
            final(self).projections() == old(self).projections(),
    {
        let pos = match position(&self.schemas, id.as_str()) {
            Some(p) => p,
            None => {
                return Err(DomainError::NotFound(concat3("Schema ", id.as_str(), " not found")));
            },
        };
        let ver = SchemaVersion {
            schema_id: id.duplicate(),
            version: version.duplicate(),
            payload_schema,
            created_at: now_micros(),
        };
        self.schema_versions.push(ver);
        let ghost before = self.schemas@;
        let mut s = self.schemas.remove(pos);
        s.version = version;
        self.schemas.insert(pos, s);
        proof {
            assert forall|i: int| 0 <= i < before.len() implies (#[trigger] self.schemas@[i]).id@
                == before[i].id@ && (self.schemas@[i].version@ == if before[i].id@ == id@ {
                version@
            } else {
                before[i].version@
            }) by {
                if i != pos {
                    assert(before[i].key() != before[pos as int].key());
                }
            }
            assert forall|i: int, j: int| 0 <= i < j < self.schemas@.len() implies #[trigger] self.schemas@[i].key()
                != #[trigger] self.schemas@[j].key() by {
                assert(self.schemas@[i].id@ == before[i].id@);
                assert(self.schemas@[j].id@ == before[j].id@);
            }
        }
        Ok(())
    }

    pub fn get_schema(&self, id: &SchemaRef) -> (r: Option<&ObservationSchema>)
        ensures
            match r {
                Some(s) => s.id@ == id@ && self.schemas().contains(*s),
                None => !holds_id(self.schemas(), id@),
            },
            self.wf() ==> match r {
                Some(s) => self.schema_of(id@) == Some(*s),
                None => self.schema_of(id@) is None,
            },
    {
        match position(&self.schemas, id.as_str()) {
            Some(i) => {
                proof {
                    let j = choose|j: int|
                        0 <= j < self.schemas().len() && #[trigger] self.schemas()[j].key() == id@;
                    if self.wf() && j != i {
                        assert(self.schemas()[j].key() != self.schemas()[i as int].key());
                    }
                }
                Some(&self.schemas[i])
            },
            None => None,
        }
    }

    /// The recorded versions of schema `id`, oldest first.
    pub fn get_schema_versions(&self, id: &SchemaRef) -> (r: Vec<&SchemaVersion>)
        ensures
            r@.map_values(|v: &SchemaVersion| *v) == self.schema_versions().filter(
                |v: SchemaVersion| v.schema_id@ == id@,
            ),
    {
        let ghost all = self.schema_versions@;
        let ghost pred = |v: SchemaVersion| v.schema_id@ == id@;
        let mut out: Vec<&SchemaVersion> = Vec::new();
        let mut i: usize = 0;
        proof {
            reveal(Seq::filter);
            assert(all.take(0) =~= Seq::<SchemaVersion>::empty());
        }
        while i < self.schema_versions.len()
            invariant
                i <= all.len(),
                all == self.schema_versions@,
                pred == (|v: SchemaVersion| v.schema_id@ == id@),
                out@.map_values(|v: &SchemaVersion| *v) == all.take(i as int).filter(pred),
            decreases all.len() - i,
        {
            proof {
                reveal(Seq::filter);
                assert(all.take(i + 1).drop_last() =~= all.take(i as int));
                assert(all.take(i + 1).last() == all[i as int]);
            }
            if self.schema_versions[i].schema_id.0 == id.0 {
                out.push(&self.schema_versions[i]);
                assert(out@.map_values(|v: &SchemaVersion| *v) =~= all.take(i as int).filter(
                    pred,
                ).push(all[i as int]));
            }
            i = i + 1;
        }
        assert(all.take(all.len() as int) =~= all);
        out
    }

    /// Every schema, in registration order.
    pub fn list_schemas(&self) -> (r: Vec<&ObservationSchema>)
        ensures
            r@.len() == self.schemas().len(),
            forall|i: int| 0 <= i < r@.len() ==> *#[trigger] r@[i] == self.schemas()[i],
    {
        all_of(&self.schemas)
    }

    // ---- source systems ------------------------------------------------------
    /// Registers a source system; its id must be new (else `Conflict`).
    pub fn register_source_system(&mut self, ss: SourceSystem) -> (r: Result<(), DomainError>)
        requires
            old(self).wf(),
        ensures
            final(self).wf(),
            r is Ok <==> !holds_id(old(self).source_systems(), ss.id@),
            r is Err ==> (r matches Err(DomainError::Conflict(m)) && m@ == "SourceSystem "@ + ss.id@
                + " already exists"@) && final(self).source_systems() == old(self).source_systems(),
            r is Ok ==> final(self).source_systems() == old(self).source_systems().push(ss),
            final(self).entity_types() == old(self).entity_types(),
            final(self).schemas() == old(self).schemas(),
            final(self).schema_versions() == old(self).schema_versions(),
            final(self).observers() == old(self).observers(),
            final(self).projections() == old(self).projections(),
    {
        if position(&self.source_systems, ss.id.as_str()).is_some() {
            return Err(
                DomainError::Conflict(concat3("SourceSystem ", ss.id.as_str(), " already exists")),
            );
        }
        proof {
            lemma_push_unique(self.source_systems@, ss);
        }
        self.source_systems.push(ss);
        Ok(())
    }

    pub fn get_source_system(&self, id: &SourceSystemRef) -> (r: Option<&SourceSystem>)
        ensures
            match r {
                Some(s) => s.id@ == id@ && self.source_systems().contains(*s),
                None => !holds_id(self.source_systems(), id@),
            },
    {
        find(&self.source_systems, id.as_str())
    }

    pub fn list_source_systems(&self) -> (r: Vec<&SourceSystem>)
        ensures
            r@.len() == self.source_systems().len(),
            forall|i: int| 0 <= i < r@.len() ==> *#[trigger] r@[i] == self.source_systems()[i],
    {
        all_of(&self.source_systems)
    }

    // ---- observers -----------------------------------------------------------
    /// Registers an observer. Its id must be new (else `Conflict`) and its
    /// source system registered (else `Validation`).
    pub fn register_observer(&mut self, obs: Observer) -> (r: Result<(), DomainError>)
        requires
            old(self).wf(),
        ensures
            final(self).wf(),
            holds_id(old(self).observers(), obs.id@) ==> (r matches Err(DomainError::Conflict(m))
                && m@ == "Observer "@ + obs.id@ + " already exists"@),
            !holds_id(old(self).observers(), obs.id@) && !holds_id(
                old(self).source_systems(),
                obs.source_system@,
            ) ==> (r matches Err(DomainError::Validation(m)) && m@ == "SourceSystem "@
                + obs.source_system@ + " does not exist"@),
            r is Ok <==> !holds_id(old(self).observers(), obs.id@) && holds_id(
                old(self).source_systems(),
                obs.source_system@,
            ),
            r is Ok ==> final(self).observers() == old(self).observers().push(obs),
            r is Err ==> final(self).observers() == old(self).observers(),
            final(self).entity_types() == old(self).entity_types(),
            final(self).schemas() == old(self).schemas(),
            final(self).schema_versions() == old(self).schema_versions(),
            final(self).source_systems() == old(self).source_systems(),
            final(self).projections() == old(self).projections(),
    {
        if position(&self.observers, obs.id.as_str()).is_some() {
            return Err(
                DomainError::Conflict(concat3("Observer ", obs.id.as_str(), " already exists")),
            );
        }
        if position(&self.source_systems, obs.source_system.as_str()).is_none() {
            return Err(
                DomainError::Validation(
                    concat3("SourceSystem ", obs.source_system.as_str(), " does not exist"),
                ),
            );
        }
        proof {
            lemma_push_unique(self.observers@, obs);
        }
        self.observers.push(obs);
        Ok(())
    }

    pub fn get_observer(&self, id: &ObserverRef) -> (r: Option<&Observer>)
        ensures
            match r {
                Some(o) => o.id@ == id@ && self.observers().contains(*o),
                None => !holds_id(self.observers(), id@),
            },
            self.wf() ==> match r {
                Some(o) => self.observer_of(id@) == Some(*o),
                None => self.observer_of(id@) is None,
            },
    {
        match position(&self.observers, id.as_str()) {
            Some(i) => {
                proof {
                    let j = choose|j: int|
                        0 <= j < self.observers().len() && #[trigger] self.observers()[j].key() == id@;
                    if self.wf() && j != i {
                        assert(self.observers()[j].key() != self.observers()[i as int].key());
                    }
                }
                Some(&self.observers[i])
            },
            None => None,
        }
    }

    pub fn list_observers(&self) -> (r: Vec<&Observer>)
        ensures
            r@.len() == self.observers().len(),
            forall|i: int| 0 <= i < r@.len() ==> *#[trigger] r@[i] == self.observers()[i],
    {
        all_of(&self.observers)
    }

    // ---- projections ---------------------------------------------------------
    /// Registers a projection; its id must be new (else `Conflict`).
    pub fn register_projection(&mut self, entry: ProjectionCatalogEntry) -> (r: Result<(), DomainError>)
        requires
            old(self).wf(),
        ensures
            final(self).wf(),
            r is Ok <==> !holds_id(old(self).projections(), entry.id@),
            r is Err ==> (r matches Err(DomainError::Conflict(m)) && m@ == "Projection "@ + entry.id@
                + " already exists"@) && final(self).projections() == old(self).projections(),
            r is Ok ==> final(self).projections() == old(self).projections().push(entry),
            final(self).entity_types() == old(self).entity_types(),
            final(self).schemas() == old(self).schemas(),
            final(self).schema_versions() == old(self).schema_versions(),
            final(self).observers() == old(self).observers(),
            final(self).source_systems() == old(self).source_systems(),
    {
        if position(&self.projections, entry.id.as_str()).is_some() {
            return Err(
                DomainError::Conflict(concat3("Projection ", entry.id.as_str(), " already exists")),
            );
        }
        proof {
            lemma_push_unique(self.projections@, entry);
        }
        self.projections.push(entry);
        Ok(())
    }

    pub fn get_projection(&self, id: &ProjectionRef) -> (r: Option<&ProjectionCatalogEntry>)
        ensures
            match r {
                Some(p) => p.id@ == id@ && self.projections().contains(*p),
                None => !holds_id(self.projections(), id@),
            },
    {
        find(&self.projections, id.as_str())
    }

    pub fn list_projections(&self) -> (r: Vec<&ProjectionCatalogEntry>)
        ensures
            r@.len() == self.projections().len(),
            forall|i: int| 0 <= i < r@.len() ==> *#[trigger] r@[i] == self.projections()[i],
    {
        all_of(&self.projections)
    }

    /// Sets the status of a registered projection (else `NotFound`).
    pub fn update_projection_status(&mut self, id: &ProjectionRef, status: ProjectionStatus) -> (r:
        Result<(), DomainError>)
        requires
            old(self).wf(),
        ensures
            final(self).wf(),
            r is Ok <==> holds_id(old(self).projections(), id@),
            r is Err ==> (r matches Err(DomainError::NotFound(m)) && m@ == "Projection "@ + id@
                + " not found"@) && final(self).projections() == old(self).projections(),
            final(self).projections().len() == old(self).projections().len(),
            forall|i: int|
                0 <= i < old(self).projections().len() ==> {
                    let before = old(self).projections()[i];
                    let after = #[trigger] final(self).projections()[i];
                    if before.id@ == id@ {
                        after == ProjectionCatalogEntry { status, ..before }
                    } else {
                        after == before
                    }
                },
            final(self).entity_types() == old(self).entity_types(),
            final(self).schemas() == old(self).schemas(),
            final(self).schema_versions() == old(self).schema_versions(),
            final(self).observers() == old(self).observers(),
            final(self).source_systems() == old(self).source_systems(),
    {
        let pos = match position(&self.projections, id.as_str()) {
            Some(p) => p,
            None => {
                proof {
                    assert forall|i: int| 0 <= i < self.projections@.len() implies (
                    #[trigger] self.projections@[i]).id@ != id@ by {
                        assert(self.projections@[i].key() == self.projections@[i].id@);
                    }
                }
                return Err(DomainError::NotFound(concat3("Projection ", id.as_str(), " not found")));
            },
        };
        let ghost before = self.projections@;
        let mut e = self.projections.remove(pos);
        e.status = status;
        self.projections.insert(pos, e);
        proof {
            assert forall|i: int| 0 <= i < before.len() implies {
                let b = before[i];
                let a = #[trigger] self.projections@[i];
                if b.id@ == id@ {
                    a == ProjectionCatalogEntry { status, ..b }
                } else {
                    a == b
                }
            } by {
                if i != pos {
                    assert(before[i].key() != before[pos as int].key());
                }
            }
            assert forall|i: int, j: int| 0 <= i < j < self.projections@.len() implies #[trigger] self.projections@[i].key()
                != #[trigger] self.projections@[j].key() by {
                assert(self.projections@[i].id@ == before[i].id@);
                assert(self.projections@[j].id@ == before[j].id@);
            }
        }
        Ok(())
    }
}

} // verus!
