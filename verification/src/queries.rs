//! In-flight block fetches: which content identifier each query is for.

use vstd::prelude::*;

use crate::ident::Cid;

verus! {

/// Identifier that the block exchange gives to a fetch.
pub type QueryId = u64;

/// `fnv::FnvHasher`, the hasher of the map of queries. Nothing is read of
/// it.
#[verifier::external_type_specification]
#[verifier::external_body]
pub struct ExFnvHasher(fnv::FnvHasher);

/// `core::hash::BuildHasherDefault`, which makes the hasher of the map of
/// queries. Nothing is read of it.
#[verifier::external_type_specification]
#[verifier::external_body]
#[verifier::reject_recursive_types(H)]
pub struct ExBuildHasherDefault<H>(core::hash::BuildHasherDefault<H>);

/// `HashMap::insert` on a map that hashes with `fnv::FnvHasher`: afterwards
/// the map pairs `query` with `cid` and is otherwise as before. The hasher
/// starts from a fixed basis and folds the bytes written to it and nothing
/// else, so a key is always looked for where it was put.
#[verifier::external_body]
fn query_map_insert(map: &mut fnv::FnvHashMap<u64, Cid>, query: u64, cid: Cid)
    ensures
        final(map)@ == old(map)@.insert(query, cid),
{
    map.insert(query, cid);
}

/// `HashMap::remove` on a map that hashes with `fnv::FnvHasher`: hands out
/// the value that `query` was paired with, if any, and leaves the map without
/// that key.
#[verifier::external_body]
fn query_map_remove(map: &mut fnv::FnvHashMap<u64, Cid>, query: u64) -> (taken: Option<Cid>)
    ensures
        final(map)@ == old(map)@.remove(query),
        taken == (if old(map)@.contains_key(query) {
            Some(old(map)@[query])
        } else {
            None
        }),
{
    map.remove(&query)
}

/// Mapping from query identifier to the content identifier being fetched.
#[derive(Debug)]
pub struct BitswapQueries {
    map: fnv::FnvHashMap<u64, Cid>,
}

impl View for BitswapQueries {
    type V = Map<u64, Seq<u8>>;

    closed spec fn view(&self) -> Map<u64, Seq<u8>> {
        self.map@.map_values(|cid: Cid| cid@)
    }
}

impl BitswapQueries {
    pub fn new() -> (table: BitswapQueries)
        ensures
            table@ == Map::<u64, Seq<u8>>::empty(),
    {
        let table = BitswapQueries { map: fnv::FnvHashMap::default() };
        assert(table@ =~= Map::<u64, Seq<u8>>::empty());
        table
    }

    /// Records that `query` fetches `cid`.
    pub fn insert(&mut self, query: QueryId, cid: Cid)
        ensures
            final(self)@ == old(self)@.insert(query, cid@),
    {
        query_map_insert(&mut self.map, query, cid);
        assert(self@ =~= old(self)@.insert(query, cid@));
    }

    /// Forgets `query` and says what it fetched.
    pub fn remove(&mut self, query: QueryId) -> (cid: Option<Cid>)
        ensures
            final(self)@ == old(self)@.remove(query),
            cid is Some <==> old(self)@.contains_key(query),
            cid matches Some(c) ==> c@ == old(self)@[query],
    {
        let cid = query_map_remove(&mut self.map, query);
        assert(self@ =~= old(self)@.remove(query));
        cid
    }

    pub fn is_empty(&self) -> (empty: bool)
        ensures
            empty == (self@ == Map::<u64, Seq<u8>>::empty()),
    {
        let empty = self.map.is_empty();
        proof {
            if empty {
                assert(self.map@ =~= Map::<u64, Cid>::empty());
                assert(self@ =~= Map::<u64, Seq<u8>>::empty());
            } else {
                assert(self.map@.dom() =~= self@.dom());
            }
        }
        empty
    }
}

} // verus!
