//! Value objects: branded string identifiers.
//!
//! Each identifier wraps a `String`; its view is the character sequence.

use vstd::prelude::*;
use vstd::string::*;

verus! {

/// `{type}:{id}` — for example `person:tanaka-2026` or `room:A-301`.
#[derive(Debug, Clone, PartialEq, Eq, Hash)]
pub struct EntityRef(pub String);

impl View for EntityRef {
    type V = Seq<char>;

    open spec fn view(&self) -> Seq<char> {
        self.0@
    }
}

impl EntityRef {
    pub fn new(s: &str) -> (r: Self)
        ensures
            r@ == s@,
    {
        EntityRef(String::from_str(s))
    }

    pub fn as_str(&self) -> (r: &str)
        ensures
            r@ == self@,
    {
        self.0.as_str()
    }

    /// The identifier as an owned string.
    pub fn to_string(&self) -> (r: String)
        ensures
            r@ == self@,
    {
        self.0.clone()
    }

    /// A second value with the same contents.
    pub fn duplicate(&self) -> (r: Self)
        ensures
            r@ == self@,
    {
        EntityRef(self.0.clone())
    }
}

/// `obs:{name}`.
#[derive(Debug, Clone, PartialEq, Eq, Hash)]
pub struct ObserverRef(pub String);

impl View for ObserverRef {
    type V = Seq<char>;

    open spec fn view(&self) -> Seq<char> {
        self.0@
    }
}

impl ObserverRef {
    pub fn new(s: &str) -> (r: Self)
        ensures
            r@ == s@,
    {
        ObserverRef(String::from_str(s))
    }

    pub fn as_str(&self) -> (r: &str)
        ensures
            r@ == self@,
    {
        self.0.as_str()
    }

    /// The identifier as an owned string.
    pub fn to_string(&self) -> (r: String)
        ensures
            r@ == self@,
    {
        self.0.clone()
    }

    /// A second value with the same contents.
    pub fn duplicate(&self) -> (r: Self)
        ensures
            r@ == self@,
    {
        ObserverRef(self.0.clone())
    }
}

/// `sys:{name}`.
#[derive(Debug, Clone, PartialEq, Eq, Hash)]
pub struct SourceSystemRef(pub String);

impl View for SourceSystemRef {
    type V = Seq<char>;

    open spec fn view(&self) -> Seq<char> {
        self.0@
    }
}

impl SourceSystemRef {
    pub fn new(s: &str) -> (r: Self)
        ensures
            r@ == s@,
    {
        SourceSystemRef(String::from_str(s))
    }

    pub fn as_str(&self) -> (r: &str)
        ensures
            r@ == self@,
    {
        self.0.as_str()
    }

    /// The identifier as an owned string.
    pub fn to_string(&self) -> (r: String)
        ensures
            r@ == self@,
    {
        self.0.clone()
    }

    /// A second value with the same contents.
    pub fn duplicate(&self) -> (r: Self)
        ensures
            r@ == self@,
    {
        SourceSystemRef(self.0.clone())
    }
}

/// `schema:{name}`.
#[derive(Debug, Clone, PartialEq, Eq, Hash)]
pub struct SchemaRef(pub String);

impl View for SchemaRef {
    type V = Seq<char>;

    open spec fn view(&self) -> Seq<char> {
        self.0@
    }
}

impl SchemaRef {
    pub fn new(s: &str) -> (r: Self)
        ensures
            r@ == s@,
    {
        SchemaRef(String::from_str(s))
    }

    pub fn as_str(&self) -> (r: &str)
        ensures
            r@ == self@,
    {
        self.0.as_str()
    }

    /// The identifier as an owned string.
    pub fn to_string(&self) -> (r: String)
        ensures
            r@ == self@,
    {
        self.0.clone()
    }

    /// A second value with the same contents.
    pub fn duplicate(&self) -> (r: Self)
        ensures
            r@ == self@,
    {
        SchemaRef(self.0.clone())
    }
}

/// `proj:{name}`.
#[derive(Debug, Clone, PartialEq, Eq, Hash)]
pub struct ProjectionRef(pub String);

impl View for ProjectionRef {
    type V = Seq<char>;

    open spec fn view(&self) -> Seq<char> {
        self.0@
    }
}

impl ProjectionRef {
    pub fn new(s: &str) -> (r: Self)
        ensures
            r@ == s@,
    {
        ProjectionRef(String::from_str(s))
    }

    pub fn as_str(&self) -> (r: &str)
        ensures
            r@ == self@,
    {
        self.0.as_str()
    }

    /// The identifier as an owned string.
    pub fn to_string(&self) -> (r: String)
        ensures
            r@ == self@,
    {
        self.0.clone()
    }

    /// A second value with the same contents.
    pub fn duplicate(&self) -> (r: Self)
        ensures
            r@ == self@,
    {
        ProjectionRef(self.0.clone())
    }
}

/// `blob:sha256:{hex}`.
#[derive(Debug, Clone, PartialEq, Eq, Hash)]
pub struct BlobRef(pub String);

impl View for BlobRef {
    type V = Seq<char>;

    open spec fn view(&self) -> Seq<char> {
        self.0@
    }
}

impl BlobRef {
    pub fn new(s: &str) -> (r: Self)
        ensures
            r@ == s@,
    {
        BlobRef(String::from_str(s))
    }

    pub fn as_str(&self) -> (r: &str)
        ensures
            r@ == self@,
    {
        self.0.as_str()
    }

    /// The identifier as an owned string.
    pub fn to_string(&self) -> (r: String)
        ensures
            r@ == self@,
    {
        self.0.clone()
    }

    /// A second value with the same contents.
    pub fn duplicate(&self) -> (r: Self)
        ensures
            r@ == self@,
    {
        BlobRef(self.0.clone())
    }
}

/// `lineage:{...}`.
#[derive(Debug, Clone, PartialEq, Eq, Hash)]
pub struct LineageRef(pub String);

impl View for LineageRef {
    type V = Seq<char>;

    open spec fn view(&self) -> Seq<char> {
        self.0@
    }
}

impl LineageRef {
    pub fn new(s: &str) -> (r: Self)
        ensures
            r@ == s@,
    {
        LineageRef(String::from_str(s))
    }

    pub fn as_str(&self) -> (r: &str)
        ensures
            r@ == self@,
    {
        self.0.as_str()
    }

    /// The identifier as an owned string.
    pub fn to_string(&self) -> (r: String)
        ensures
            r@ == self@,
    {
        self.0.clone()
    }

    /// A second value with the same contents.
    pub fn duplicate(&self) -> (r: Self)
        ensures
            r@ == self@,
    {
        LineageRef(self.0.clone())
    }
}

/// `et:{name}`.
#[derive(Debug, Clone, PartialEq, Eq, Hash)]
pub struct EntityTypeRef(pub String);

impl View for EntityTypeRef {
    type V = Seq<char>;

    open spec fn view(&self) -> Seq<char> {
        self.0@
    }
}

impl EntityTypeRef {
    pub fn new(s: &str) -> (r: Self)
        ensures
            r@ == s@,
    {
        EntityTypeRef(String::from_str(s))
    }

    pub fn as_str(&self) -> (r: &str)
        ensures
            r@ == self@,
    {
        self.0.as_str()
    }

    /// The identifier as an owned string.
    pub fn to_string(&self) -> (r: String)
        ensures
            r@ == self@,
    {
        self.0.clone()
    }

    /// A second value with the same contents.
    pub fn duplicate(&self) -> (r: Self)
        ensures
            r@ == self@,
    {
        EntityTypeRef(self.0.clone())
    }
}

/// Deterministic key that identifies one capture of source data.
#[derive(Debug, Clone, PartialEq, Eq, Hash)]
pub struct IdempotencyKey(pub String);

impl View for IdempotencyKey {
    type V = Seq<char>;

    open spec fn view(&self) -> Seq<char> {
        self.0@
    }
}

impl IdempotencyKey {
    pub fn new(s: &str) -> (r: Self)
        ensures
            r@ == s@,
    {
        IdempotencyKey(String::from_str(s))
    }

    pub fn as_str(&self) -> (r: &str)
        ensures
            r@ == self@,
    {
        self.0.as_str()
    }

    /// The identifier as an owned string.
    pub fn to_string(&self) -> (r: String)
        ensures
            r@ == self@,
    {
        self.0.clone()
    }

    /// A second value with the same contents.
    pub fn duplicate(&self) -> (r: Self)
        ensures
            r@ == self@,
    {
        IdempotencyKey(self.0.clone())
    }
}

/// Reference to a consent record.
#[derive(Debug, Clone, PartialEq, Eq, Hash)]
pub struct ConsentRef(pub String);

impl View for ConsentRef {
    type V = Seq<char>;

    open spec fn view(&self) -> Seq<char> {
        self.0@
    }
}

impl ConsentRef {
    pub fn new(s: &str) -> (r: Self)
        ensures
            r@ == s@,
    {
        ConsentRef(String::from_str(s))
    }

    pub fn as_str(&self) -> (r: &str)
        ensures
            r@ == self@,
    {
        self.0.as_str()
    }

    /// The identifier as an owned string.
    pub fn to_string(&self) -> (r: String)
        ensures
            r@ == self@,
    {
        self.0.clone()
    }

    /// A second value with the same contents.
    pub fn duplicate(&self) -> (r: Self)
        ensures
            r@ == self@,
    {
        ConsentRef(self.0.clone())
    }
}

/// Identifier of an ingested observation.
#[derive(Debug, Clone, PartialEq, Eq, Hash)]
pub struct ObservationId(pub String);

impl View for ObservationId {
    type V = Seq<char>;

    open spec fn view(&self) -> Seq<char> {
        self.0@
    }
}

impl ObservationId {
    pub fn new(s: &str) -> (r: Self)
        ensures
            r@ == s@,
    {
        ObservationId(String::from_str(s))
    }

    pub fn as_str(&self) -> (r: &str)
        ensures
            r@ == self@,
    {
        self.0.as_str()
    }

    /// The identifier as an owned string.
    pub fn to_string(&self) -> (r: String)
        ensures
            r@ == self@,
    {
        self.0.clone()
    }

    /// A second value with the same contents.
    pub fn duplicate(&self) -> (r: Self)
        ensures
            r@ == self@,
    {
        ObservationId(self.0.clone())
    }
}

/// Identifier of a supplemental record.
#[derive(Debug, Clone, PartialEq, Eq, Hash)]
pub struct SupplementalId(pub String);

impl View for SupplementalId {
    type V = Seq<char>;

    open spec fn view(&self) -> Seq<char> {
        self.0@
    }
}

impl SupplementalId {
    pub fn new(s: &str) -> (r: Self)
        ensures
            r@ == s@,
    {
        SupplementalId(String::from_str(s))
    }

    pub fn as_str(&self) -> (r: &str)
        ensures
            r@ == self@,
    {
        self.0.as_str()
    }

    /// The identifier as an owned string.
    pub fn to_string(&self) -> (r: String)
        ensures
            r@ == self@,
    {
        self.0.clone()
    }

    /// A second value with the same contents.
    pub fn duplicate(&self) -> (r: Self)
        ensures
            r@ == self@,
    {
        SupplementalId(self.0.clone())
    }
}

/// Identifier of a write command.
#[derive(Debug, Clone, PartialEq, Eq, Hash)]
pub struct CommandId(pub String);

impl View for CommandId {
    type V = Seq<char>;

    open spec fn view(&self) -> Seq<char> {
        self.0@
    }
}

impl CommandId {
    pub fn new(s: &str) -> (r: Self)
        ensures
            r@ == s@,
    {
        CommandId(String::from_str(s))
    }

    pub fn as_str(&self) -> (r: &str)
        ensures
            r@ == self@,
    {
        self.0.as_str()
    }

    /// The identifier as an owned string.
    pub fn to_string(&self) -> (r: String)
        ensures
            r@ == self@,
    {
        self.0.clone()
    }

    /// A second value with the same contents.
    pub fn duplicate(&self) -> (r: Self)
        ensures
            r@ == self@,
    {
        CommandId(self.0.clone())
    }
}

/// Reference to an acting human or agent.
#[derive(Debug, Clone, PartialEq, Eq, Hash)]
pub struct ActorRef(pub String);

impl View for ActorRef {
    type V = Seq<char>;

    open spec fn view(&self) -> Seq<char> {
        self.0@
    }
}

impl ActorRef {
    pub fn new(s: &str) -> (r: Self)
        ensures
            r@ == s@,
    {
        ActorRef(String::from_str(s))
    }

    pub fn as_str(&self) -> (r: &str)
        ensures
            r@ == self@,
    {
        self.0.as_str()
    }

    /// The identifier as an owned string.
    pub fn to_string(&self) -> (r: String)
        ensures
            r@ == self@,
    {
        self.0.clone()
    }

    /// A second value with the same contents.
    pub fn duplicate(&self) -> (r: Self)
        ensures
            r@ == self@,
    {
        ActorRef(self.0.clone())
    }
}

/// Semantic version string (for example `1.0.0`).
#[derive(Debug, Clone, PartialEq, Eq, Hash)]
pub struct SemVer(pub String);

impl View for SemVer {
    type V = Seq<char>;

    open spec fn view(&self) -> Seq<char> {
        self.0@
    }
}

impl SemVer {
    pub fn new(s: &str) -> (r: Self)
        ensures
            r@ == s@,
    {
        SemVer(String::from_str(s))
    }

    pub fn as_str(&self) -> (r: &str)
        ensures
            r@ == self@,
    {
        self.0.as_str()
    }

    /// The identifier as an owned string.
    pub fn to_string(&self) -> (r: String)
        ensures
            r@ == self@,
    {
        self.0.clone()
    }

    /// A second value with the same contents.
    pub fn duplicate(&self) -> (r: Self)
        ensures
            r@ == self@,
    {
        SemVer(self.0.clone())
    }
}

/// Maximum allowed clock skew between `published` and `recorded_at`,
/// in microseconds (ten minutes).
pub const MAX_CLOCK_SKEW_MICROS: i64 = 600_000_000;

} // verus!
