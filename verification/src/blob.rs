use vstd::prelude::*;

use crate::errors::ProtocolError;
use crate::util::{bytes_eq, clone_bytes};

verus! {

/// One stored blob: opaque bytes keyed by (owner public key, resource name).
#[derive(Debug)]
pub struct BlobRecord {
    pub owner: Vec<u8>,
    pub name: Vec<u8>,
    pub data: Vec<u8>,
}

/// Whether a record sits under the given key.
pub open spec fn key_matches(r: BlobRecord, owner: Seq<u8>, name: Seq<u8>) -> bool {
    r.owner@ == owner && r.name@ == name
}

/// The payload stored under a key, if any: the first record with that key.
/// Under the store's invariant the match is unique.
pub open spec fn lookup(s: Seq<BlobRecord>, owner: Seq<u8>, name: Seq<u8>) -> Option<Seq<u8>>
    decreases s.len(),
{
    if s.len() == 0 {
        None
    } else if key_matches(s[0], owner, name) {
        Some(s[0].data@)
    } else {
        lookup(s.drop_first(), owner, name)
    }
}

proof fn lemma_lookup_none(s: Seq<BlobRecord>, owner: Seq<u8>, name: Seq<u8>)
    ensures
        lookup(s, owner, name) is None <==> (forall|i: int|
            0 <= i < s.len() ==> !key_matches(#[trigger] s[i], owner, name)),
    decreases s.len(),
{
    if s.len() > 0 {
        lemma_lookup_none(s.drop_first(), owner, name);
        assert forall|i: int| 1 <= i < s.len() implies s.drop_first()[i - 1] == s[i] by {}
    }
}

proof fn lemma_lookup_push(s: Seq<BlobRecord>, r: BlobRecord, owner: Seq<u8>, name: Seq<u8>)
    ensures
        lookup(s.push(r), owner, name) == if lookup(s, owner, name) is Some {
            lookup(s, owner, name)
        } else if key_matches(r, owner, name) {
            Some(r.data@)
        } else {
            None
        },
    decreases s.len(),
{
    if s.len() == 0 {
        assert(s.push(r)[0] == r);
        assert(s.push(r).drop_first() =~= Seq::<BlobRecord>::empty());
    } else {
        assert(s.push(r)[0] == s[0]);
        assert(s.push(r).drop_first() =~= s.drop_first().push(r));
        lemma_lookup_push(s.drop_first(), r, owner, name);
    }
}

proof fn lemma_lookup_remove(s: Seq<BlobRecord>, idx: int, owner: Seq<u8>, name: Seq<u8>)
    requires
        0 <= idx < s.len(),
        !key_matches(s[idx], owner, name),
    ensures
        lookup(s.remove(idx), owner, name) == lookup(s, owner, name),
    decreases s.len(),
{
    if idx == 0 {
        assert(s.remove(0) =~= s.drop_first());
    } else {
        assert(s.remove(idx)[0] == s[0]);
        assert(s.remove(idx).drop_first() =~= s.drop_first().remove(idx - 1));
        lemma_lookup_remove(s.drop_first(), idx - 1, owner, name);
    }
}

/// Name-addressed storage of opaque byte payloads, keyed by the pair of an
/// owner's public identity and a resource name. Writes are last-write-wins;
/// no versioning, no encryption (callers encrypt before storing).
#[derive(Debug)]
pub struct BlobStore {
    pub records: Vec<BlobRecord>,
}

impl BlobStore {
    /// Each key holds at most one record.
    pub open spec fn wf(&self) -> bool {
        forall|i: int, j: int|
            #![trigger self.records@[i], self.records@[j]]
            0 <= i < j < self.records@.len() ==> !(key_matches(
                self.records@[i],
                self.records@[j].owner@,
                self.records@[j].name@,
            ))
    }

    pub fn new() -> (r: BlobStore)
        ensures
            r.wf(),
            r.records@.len() == 0,
    {
        BlobStore { records: Vec::new() }
    }

    fn find(&self, owner: &Vec<u8>, name: &Vec<u8>) -> (r: Option<usize>)
        ensures
            r is Some ==> r->0 < self.records@.len() && key_matches(
                self.records@[r->0 as int],
                owner@,
                name@,
            ),
            r is None ==> forall|i: int|
                0 <= i < self.records@.len() ==> !key_matches(
                    #[trigger] self.records@[i],
                    owner@,
                    name@,
                ),
    {
        let mut i: usize = 0;
        while i < self.records.len()
            invariant
                i <= self.records@.len(),
                forall|j: int|
                    0 <= j < i ==> !key_matches(#[trigger] self.records@[j], owner@, name@),
            decreases self.records@.len() - i,
        {
            if bytes_eq(&self.records[i].owner, owner) && bytes_eq(&self.records[i].name, name) {
                return Some(i);
            }
            i += 1;
        }
        None
    }

    /// Store a payload under (owner, name), creating the slot if absent and
    /// overwriting any earlier payload under the same key. Every other key's
    /// payload is untouched.
    pub fn put(&mut self, owner: Vec<u8>, name: Vec<u8>, data: Vec<u8>)
        requires
            old(self).wf(),
        ensures
            final(self).wf(),
            lookup(final(self).records@, owner@, name@) == Some::<Seq<u8>>(data@),
            forall|o2: Seq<u8>, n2: Seq<u8>|
                !(o2 == owner@ && n2 == name@) ==> #[trigger] lookup(final(self).records@, o2, n2)
                    == lookup(old(self).records@, o2, n2),
    {
        let ghost orig = self.records@;
        let found = self.find(&owner, &name);
        match found {
            Some(idx) => {
                let _old_record = self.records.remove(idx);
                proof {
                    assert forall|o2: Seq<u8>, n2: Seq<u8>|
                        !(o2 == owner@ && n2 == name@) implies #[trigger] lookup(
                        self.records@,
                        o2,
                        n2,
                    ) == lookup(orig, o2, n2) by {
                        assert(!key_matches(orig[idx as int], o2, n2));
                        lemma_lookup_remove(orig, idx as int, o2, n2);
                    }
                    assert forall|i: int| 0 <= i < self.records@.len() implies !key_matches(
                        #[trigger] self.records@[i],
                        owner@,
                        name@,
                    ) by {
                        if i < idx {
                            assert(self.records@[i] == orig[i]);
                        } else {
                            assert(self.records@[i] == orig[i + 1]);
                        }
                    }
                    lemma_lookup_none(self.records@, owner@, name@);
                }
            },
            None => {
                proof {
                    lemma_lookup_none(self.records@, owner@, name@);
                }
            },
        }
        let ghost pruned = self.records@;
        let record = BlobRecord { owner, name, data };
        self.records.push(record);
        proof {
            assert(lookup(pruned, owner@, name@) is None);
            lemma_lookup_push(pruned, record, owner@, name@);
            assert forall|o2: Seq<u8>, n2: Seq<u8>|
                !(o2 == owner@ && n2 == name@) implies #[trigger] lookup(self.records@, o2, n2)
                == lookup(pruned, o2, n2) by {
                lemma_lookup_push(pruned, record, o2, n2);
                if lookup(pruned, o2, n2) is None {
                    assert(!key_matches(record, o2, n2));
                }
            }
            assert forall|i: int, j: int|
                #![trigger self.records@[i], self.records@[j]]
                0 <= i < j < self.records@.len() implies !(key_matches(
                self.records@[i],
                self.records@[j].owner@,
                self.records@[j].name@,
            )) by {
                if j == self.records@.len() - 1 {
                    assert(self.records@[i] == pruned[i]);
                    lemma_lookup_none(pruned, owner@, name@);
                } else {
                    assert(self.records@[i] == pruned[i]);
                    assert(self.records@[j] == pruned[j]);
                }
            }
        }
    }

    /// Fetch the payload under (owner, name); `NotFound` exactly when no such
    /// record exists.
    pub fn get(&self, owner: &Vec<u8>, name: &Vec<u8>) -> (r: Result<Vec<u8>, ProtocolError>)
        requires
            self.wf(),
        ensures
            r is Ok <==> lookup(self.records@, owner@, name@) is Some,
            r is Ok ==> Some(r->Ok_0@) == lookup(self.records@, owner@, name@),
            r is Err ==> r->Err_0 == ProtocolError::NotFound,
    {
        let found = self.find(owner, name);
        match found {
            Some(idx) => {
                proof {
                    lemma_lookup_unique(self.records@, idx as int, owner@, name@);
                }
                Ok(clone_bytes(&self.records[idx].data))
            },
            None => {
                proof {
                    lemma_lookup_none(self.records@, owner@, name@);
                }
                Err(ProtocolError::NotFound)
            },
        }
    }
}

/// If the record at `idx` carries the key, the lookup returns some matching
/// record's payload; the first match wins, and the first match has the same
/// key, hence under a unique-key invariant it is the record at `idx`.
proof fn lemma_lookup_unique(s: Seq<BlobRecord>, idx: int, owner: Seq<u8>, name: Seq<u8>)
    requires
        0 <= idx < s.len(),
        key_matches(s[idx], owner, name),
        forall|i: int, j: int|
            #![trigger s[i], s[j]]
            0 <= i < j < s.len() ==> !(key_matches(s[i], s[j].owner@, s[j].name@)),
    ensures
        lookup(s, owner, name) == Some(s[idx].data@),
    decreases s.len(),
{
    if idx == 0 {
    } else {
        assert(!key_matches(s[0], s[idx].owner@, s[idx].name@));
        assert(s.drop_first()[idx - 1] == s[idx]);
        assert forall|i: int, j: int|
            #![trigger s.drop_first()[i], s.drop_first()[j]]
            0 <= i < j < s.drop_first().len() implies !(key_matches(
            s.drop_first()[i],
            s.drop_first()[j].owner@,
            s.drop_first()[j].name@,
        )) by {
            assert(s.drop_first()[i] == s[i + 1]);
            assert(s.drop_first()[j] == s[j + 1]);
        }
        lemma_lookup_unique(s.drop_first(), idx - 1, owner, name);
    }
}

} // verus!
