//! Entity types and the base types every registry starts with.

use vstd::prelude::*;
use vstd::string::*;

use crate::domain::values::EntityTypeRef;
use crate::trusted::now_micros;

verus! {

/// A registered entity type. `registered_at` is in microseconds since the
/// Unix epoch.
#[derive(Debug, Clone)]
pub struct EntityType {
    pub id: EntityTypeRef,
    pub name: String,
    pub description: String,
    pub parent: Option<EntityTypeRef>,
    pub attributes: Vec<String>,
    pub registered_by: Option<String>,
    pub registered_at: Option<i64>,
}

/// The ids of the base entity types, in order.
pub open spec fn base_type_ids() -> Seq<Seq<char>> {
    seq![
        "et:person"@,
        "et:space"@,
        "et:artifact"@,
        "et:document"@,
        "et:message"@,
        "et:observer"@,
    ]
}

/// The names of the base entity types, in order.
pub open spec fn base_type_names() -> Seq<Seq<char>> {
    seq!["Person"@, "Space"@, "Artifact"@, "Document"@, "Message"@, "Observer"@]
}

fn base(id: &str, name: &str, desc: &str, now: i64) -> (r: EntityType)
    ensures
        r.id@ == id@,
        r.name@ == name@,
        r.description@ == desc@,
        r.parent is None,
        r.attributes@.len() == 0,
        r.registered_by matches Some(s) && s@ == "system"@,
        r.registered_at == Some(now),
{
    EntityType {
        id: EntityTypeRef::new(id),
        name: String::from_str(name),
        description: String::from_str(desc),
        parent: None,
        attributes: Vec::new(),
        registered_by: Some(String::from_str("system")),
        registered_at: Some(now),
    }
}

/// The base entity types: person, space, artifact, document, message and
/// observer, registered by `system` at the current time, without parents.
pub fn base_entity_types() -> (r: Vec<EntityType>)
    ensures
        r@.len() == 6,
        forall|i: int|
            0 <= i < 6 ==> #[trigger] r@[i].id@ == base_type_ids()[i] && r@[i].name@
                == base_type_names()[i] && r@[i].parent is None && (r@[i].registered_by matches Some(
                s,
            ) && s@ == "system"@),
{
    let now = now_micros();
    let r = vec![
        base("et:person", "Person", "寮に関わる人物", now),
        base("et:space", "Space", "物理空間", now),
        base("et:artifact", "Artifact", "物理的・デジタルな対象物", now),
        base("et:document", "Document", "デジタル文書", now),
        base("et:message", "Message", "メッセージ", now),
        base("et:observer", "Observer", "Observer 自身", now),
    ];
    r
}

} // verus!
