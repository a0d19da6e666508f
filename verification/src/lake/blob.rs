//! Content-addressed store for binary attachments, keyed by the
//! lower-case hex SHA-256 digest of the content.

use vstd::prelude::*;
use vstd::string::*;

use crate::domain::values::BlobRef;
use crate::text::{concat2, str_eq, strip_prefix, strip_prefix_spec};
use crate::trusted::{hex_encode, lower_hex, sha256, sha256_digest};

verus! {

/// The key of some content: its lower-case hex SHA-256 digest.
pub open spec fn content_key(data: Seq<u8>) -> Seq<char> {
    lower_hex(sha256(data))
}

/// The prefix of every blob reference.
pub open spec fn blob_prefix() -> Seq<char> {
    "blob:sha256:"@
}

/// The content stored under `key`, if any (the first entry with that key).
pub open spec fn lookup(entries: Seq<(Seq<char>, Seq<u8>)>, key: Seq<char>) -> Option<Seq<u8>>
    decreases entries.len(),
{
    if entries.len() == 0 {
        None
    } else if entries[0].0 == key {
        Some(entries[0].1)
    } else {
        lookup(entries.drop_first(), key)
    }
}

proof fn lemma_lookup_at(entries: Seq<(Seq<char>, Seq<u8>)>, key: Seq<char>, i: int)
    requires
        0 <= i <= entries.len(),
        forall|j: int| 0 <= j < i ==> entries[j].0 != key,
    ensures
        i < entries.len() && entries[i].0 == key ==> lookup(entries, key) == Some(entries[i].1),
        i == entries.len() ==> lookup(entries, key) is None,
    decreases i,
{
    if i > 0 {
        assert forall|j: int| 0 <= j < i - 1 implies entries.drop_first()[j].0 != key by {
            assert(entries.drop_first()[j] == entries[j + 1]);
        }
        lemma_lookup_at(entries.drop_first(), key, i - 1);
    }
}

proof fn lemma_lookup_push(entries: Seq<(Seq<char>, Seq<u8>)>, e: (Seq<char>, Seq<u8>), key: Seq<char>)
    requires
        lookup(entries, e.0) is None,
    ensures
        lookup(entries.push(e), key) == if key == e.0 {
            Some(e.1)
        } else {
            lookup(entries, key)
        },
    decreases entries.len(),
{
    if entries.len() > 0 {
        assert(entries.push(e).drop_first() =~= entries.drop_first().push(e));
        assert(entries.push(e)[0] == entries[0]);
        assert(entries[0].0 != e.0);
        assert(lookup(entries.drop_first(), e.0) is None);
        if entries[0].0 != key {
            lemma_lookup_push(entries.drop_first(), e, key);
        }
    } else {
        assert(entries.push(e).drop_first() =~= Seq::<(Seq<char>, Seq<u8>)>::empty());
        assert(lookup(Seq::<(Seq<char>, Seq<u8>)>::empty(), key) is None);
        assert(entries.push(e)[0] == e);
    }
}

/// A content-addressed blob store held in memory.
#[derive(Debug)]
pub struct BlobStore {
    blobs: Vec<(String, Vec<u8>)>,
}

impl BlobStore {
    /// The stored keys and contents, in the order first stored.
    pub closed spec fn entries(&self) -> Seq<(Seq<char>, Seq<u8>)> {
        self.blobs@.map_values(|e: (String, Vec<u8>)| (e.0@, e.1@))
    }

    /// The content stored under `key`.
    pub open spec fn stored(&self, key: Seq<char>) -> Option<Seq<u8>> {
        lookup(self.entries(), key)
    }

    /// Each content is stored once, under its own digest.
    pub open spec fn wf(&self) -> bool {
        &&& forall|i: int, j: int|
            0 <= i < j < self.entries().len() ==> #[trigger] self.entries()[i].0
                != #[trigger] self.entries()[j].0
        &&& forall|i: int|
            0 <= i < self.entries().len() ==> #[trigger] self.entries()[i].0 == content_key(
                self.entries()[i].1,
            )
    }

    pub fn new() -> (r: Self)
        ensures
            r.wf(),
            r.entries().len() == 0,
    {
        let r = BlobStore { blobs: Vec::new() };
        assert(r.entries() =~= Seq::<(Seq<char>, Seq<u8>)>::empty());
        r
    }

    fn position(&self, key: &str) -> (r: Option<usize>)
        ensures
            match r {
                Some(i) => i < self.entries().len() && self.entries()[i as int].0 == key@
                    && self.stored(key@) == Some(self.entries()[i as int].1),
                None => self.stored(key@) is None,
            },
    {
        let ghost es = self.entries();
        let mut i: usize = 0;
        while i < self.blobs.len()
            invariant
                i <= self.blobs@.len(),
                es == self.entries(),
                es.len() == self.blobs@.len(),
                forall|j: int| 0 <= j < i ==> es[j].0 != key@,
            decreases self.blobs@.len() - i,
        {
            assert(es[i as int] == (self.blobs@[i as int].0@, self.blobs@[i as int].1@));
            if str_eq(self.blobs[i].0.as_str(), key) {
                proof {
                    lemma_lookup_at(es, key@, i as int);
                }
                return Some(i);
            }
            i = i + 1;
        }
        proof {
            lemma_lookup_at(es, key@, i as int);
        }
        None
    }

    /// Stores bytes and returns their reference `blob:sha256:<hex>`.
    /// Storing content whose digest is already stored changes nothing.
    pub fn put(&mut self, data: &[u8]) -> (r: BlobRef)
        requires
            old(self).wf(),
        ensures
            final(self).wf(),
            r@ == blob_prefix() + content_key(data@),
            old(self).stored(content_key(data@)) is Some ==> final(self).entries() == old(
                self,
            ).entries(),
            old(self).stored(content_key(data@)) is None ==> final(self).entries() == old(
                self,
            ).entries().push((content_key(data@), data@)),
            final(self).stored(content_key(data@)) is Some,
    {
        let digest = sha256_digest(data);
        let hash = hex_encode(digest.as_slice());
        let ghost key = content_key(data@);
        assert(hash@ == key);
        match self.position(hash.as_str()) {
            Some(_) => {},
            None => {
                let ghost before = self.entries();
                let bytes = vstd::slice::slice_to_vec(data);
                self.blobs.push((hash.clone(), bytes));
                proof {
                    assert(self.entries() =~= before.push((key, data@)));
                    lemma_lookup_push(before, (key, data@), key);
                    lemma_lookup_none(before, key);
                }
            },
        }
        BlobRef(concat2("blob:sha256:", hash.as_str()))
    }

    /// The bytes behind a reference: `None` unless it is `blob:sha256:`
    /// followed by a stored key.
    pub fn get(&self, blob_ref: &BlobRef) -> (r: Option<&[u8]>)
        ensures
            match strip_prefix_spec(blob_ref@, blob_prefix()) {
                Some(key) => match self.stored(key) {
                    Some(bytes) => r matches Some(b) && b@ == bytes,
                    None => r is None,
                },
                None => r is None,
            },
    {
        let hash = match strip_prefix(blob_ref.as_str(), "blob:sha256:") {
            Some(h) => h,
            None => {
                return None;
            },
        };
        match self.position(hash) {
            Some(i) => Some(self.blobs[i].1.as_slice()),
            None => None,
        }
    }

    /// Whether a reference names stored content.
    pub fn contains(&self, blob_ref: &BlobRef) -> (r: bool)
        ensures
            r == (strip_prefix_spec(blob_ref@, blob_prefix()) matches Some(key) && self.stored(
                key,
            ) is Some),
    {
        let hash = match strip_prefix(blob_ref.as_str(), "blob:sha256:") {
            Some(h) => h,
            None => {
                return false;
            },
        };
        self.position(hash).is_some()
    }

    /// The number of stored contents.
    pub fn len(&self) -> (r: usize)
        ensures
            r == self.entries().len(),
    {
        self.blobs.len()
    }

    pub fn is_empty(&self) -> (r: bool)
        ensures
            r == (self.entries().len() == 0),
    {
        self.blobs.len() == 0
    }
}

/// Read after write: the bytes found under the reference `put` returns
/// have the digest of the bytes that were put, and are those bytes when
/// their digest was not stored before.
pub proof fn lemma_put_then_get(before: BlobStore, after: BlobStore, data: Seq<u8>)
    requires
        before.wf(),
        after.wf(),
        before.stored(content_key(data)) is Some ==> after.entries() == before.entries(),
        before.stored(content_key(data)) is None ==> after.entries() == before.entries().push(
            (content_key(data), data),
        ),
    ensures
        after.stored(content_key(data)) matches Some(bytes) && content_key(bytes) == content_key(
            data,
        ),
        before.stored(content_key(data)) is None ==> after.stored(content_key(data)) == Some(data),
{
    let key = content_key(data);
    if before.stored(key) is None {
        lemma_lookup_push(before.entries(), (key, data), key);
    } else {
        lemma_lookup_found(after.entries(), key);
        let i = choose|i: int| 0 <= i < after.entries().len() && after.entries()[i].0 == key
            && after.entries()[i].1 == after.stored(key)->0;
        assert(after.entries()[i].0 == content_key(after.entries()[i].1));
    }
}

proof fn lemma_lookup_none(entries: Seq<(Seq<char>, Seq<u8>)>, key: Seq<char>)
    requires
        lookup(entries, key) is None,
    ensures
        forall|i: int| 0 <= i < entries.len() ==> #[trigger] entries[i].0 != key,
    decreases entries.len(),
{
    if entries.len() > 0 {
        lemma_lookup_none(entries.drop_first(), key);
        assert forall|i: int| 0 <= i < entries.len() implies #[trigger] entries[i].0 != key by {
            if i > 0 {
                assert(entries[i] == entries.drop_first()[i - 1]);
            }
        }
    }
}

proof fn lemma_lookup_found(entries: Seq<(Seq<char>, Seq<u8>)>, key: Seq<char>)
    requires
        lookup(entries, key) is Some,
    ensures
        exists|i: int| 0 <= i < entries.len() && entries[i].0 == key && entries[i].1 == lookup(entries, key)->0,
    decreases entries.len(),
{
    if entries[0].0 != key {
        lemma_lookup_found(entries.drop_first(), key);
        let i = choose|i: int| 0 <= i < entries.drop_first().len() && entries.drop_first()[i].0 == key && entries.drop_first()[i].1 == lookup(entries.drop_first(), key)->0;
        assert(entries[i + 1] == entries.drop_first()[i]);
    }
}

} // verus!
