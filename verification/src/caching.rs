//! When a cached beatmap or beatmapset is still good, and what a refresh
//! of the cache drops and downloads.

use vstd::prelude::*;
use crate::text::str_eq;

verus! {

broadcast use vstd::seq_lib::group_seq_properties;

/// Whether a cached entry with the given ranked status, cached the given
/// number of whole days ago, may still be used: loved maps are kept for
/// half a year, maps that can still change for a week, and every other
/// status for good.
pub open spec fn cache_valid(status: Seq<char>, days_cached: int) -> bool {
    if status == "Loved"@ {
        days_cached <= 182
    } else if status == "Pending"@ || status == "Graveyard"@ || status == "WIP"@
        || status == "Qualified"@ {
        days_cached <= 7
    } else {
        true
    }
}

/// Whether the cached entry may be used; `days_cached` is how many whole
/// days have passed since it was cached.
pub fn check_valid_result(status: &str, days_cached: i64) -> (r: bool)
    ensures
        r == cache_valid(status@, days_cached as int),
{
    if str_eq(status, "Loved") {
        days_cached <= 182
    } else if str_eq(status, "Pending") || str_eq(status, "Graveyard") || str_eq(status, "WIP")
        || str_eq(status, "Qualified") {
        days_cached <= 7
    } else {
        true
    }
}

/// Whether `id` is among `ids`.
fn contains_id(ids: &Vec<u32>, id: u32) -> (r: bool)
    ensures
        r == ids@.contains(id),
{
    let mut i: usize = 0;
    while i < ids.len()
        invariant
            i <= ids@.len(),
            forall|j: int| 0 <= j < i ==> ids@[j] != id,
        decreases ids@.len() - i,
    {
        if ids[i] == id {
            return true;
        }
        i = i + 1;
    }
    false
}

/// Whether a cached beatmap id is missing from the map ids the API sent
/// (an id is compared as the API's unsigned 32-bit id).
pub open spec fn dropped_by_api(api_ids: Seq<u32>) -> spec_fn(i64) -> bool {
    |id: i64| !api_ids.contains(id as u32)
}

/// The ids of cached beatmaps that the set no longer holds, in the cached
/// order: none where the API sent no beatmaps.
pub open spec fn deleted_ids(cached: Seq<i64>, api_maps: Option<Seq<u32>>) -> Seq<i64> {
    match api_maps {
        Some(api_ids) => cached.filter(dropped_by_api(api_ids)),
        None => Seq::empty(),
    }
}

/// The cached beatmaps of a set that the API no longer lists, to be
/// deleted from the cache.
pub fn check_if_deleted(cached_ids: &Vec<i64>, api_map_ids: &Option<Vec<u32>>) -> (r: Vec<i64>)
    ensures
        r@ == deleted_ids(
            cached_ids@,
            match api_map_ids {
                Some(v) => Some(v@),
                None => None,
            },
        ),
{
    let mut to_delete: Vec<i64> = Vec::new();
    if let Some(beatmaps) = api_map_ids {
        let ghost pred = dropped_by_api(beatmaps@);
        let mut i: usize = 0;
        while i < cached_ids.len()
            invariant
                i <= cached_ids@.len(),
                pred == dropped_by_api(beatmaps@),
                to_delete@ == cached_ids@.subrange(0, i as int).filter(pred),
            decreases cached_ids@.len() - i,
        {
            let id = cached_ids[i];
            proof {
                assert(cached_ids@.subrange(0, i + 1) == cached_ids@.subrange(0, i as int).push(id));
                cached_ids@.subrange(0, i as int).lemma_filter_push(id, pred);
            }
            #[verifier::truncate]
            let short = id as u32;
            if !contains_id(beatmaps, short) {
                to_delete.push(id);
            }
            i = i + 1;
        }
        assert(cached_ids@.subrange(0, cached_ids@.len() as int) == cached_ids@);
    }
    to_delete
}

/// The ids among `beatmap_ids` that have no stored file yet, in order:
/// the files a refresh of the cache downloads.
pub open spec fn files_missing(beatmap_ids: Seq<i64>, existing: Seq<i64>) -> Seq<i64> {
    beatmap_ids.filter(|id: i64| !existing.contains(id))
}

/// Whether `id` is among `ids`.
fn contains_i64(ids: &Vec<i64>, id: i64) -> (r: bool)
    ensures
        r == ids@.contains(id),
{
    let mut i: usize = 0;
    while i < ids.len()
        invariant
            i <= ids@.len(),
            forall|j: int| 0 <= j < i ==> ids@[j] != id,
        decreases ids@.len() - i,
    {
        if ids[i] == id {
            return true;
        }
        i = i + 1;
    }
    false
}

/// The beatmaps of a set whose files must still be downloaded, given the
/// ids of the files already stored.
pub fn files_to_download(beatmap_ids: &Vec<i64>, existing_file_ids: &Vec<i64>) -> (r: Vec<i64>)
    ensures
        r@ == files_missing(beatmap_ids@, existing_file_ids@),
{
    let ghost pred = |id: i64| !existing_file_ids@.contains(id);
    let mut out: Vec<i64> = Vec::new();
    let mut i: usize = 0;
    while i < beatmap_ids.len()
        invariant
            i <= beatmap_ids@.len(),
            pred == (|id: i64| !existing_file_ids@.contains(id)),
            out@ == beatmap_ids@.subrange(0, i as int).filter(pred),
        decreases beatmap_ids@.len() - i,
    {
        let id = beatmap_ids[i];
        proof {
            assert(beatmap_ids@.subrange(0, i + 1) == beatmap_ids@.subrange(0, i as int).push(id));
            beatmap_ids@.subrange(0, i as int).lemma_filter_push(id, pred);
        }
        if !contains_i64(existing_file_ids, id) {
            out.push(id);
        }
        i = i + 1;
    }
    assert(beatmap_ids@.subrange(0, beatmap_ids@.len() as int) == beatmap_ids@);
    out
}

/// What a lookup of a beatmap or beatmapset does with what the cache
/// holds.
#[derive(Debug, Clone, Copy, PartialEq, Eq, Structural)]
pub enum CacheLookup {
    /// The cached entry is still good: answer with it.
    UseCached,
    /// The entry is cached but stale: fetch it again, delete the beatmaps
    /// the set no longer has, and store the rest.
    Refresh,
    /// Nothing is cached: fetch and store it.
    Fetch,
}

/// The lookup's course, given the cached entry's status and age in whole
/// days, if one is cached.
pub fn plan_lookup(cached: Option<(&str, i64)>) -> (r: CacheLookup)
    ensures
        r == match cached {
            None => CacheLookup::Fetch,
            Some((status, days)) => if cache_valid(status@, days as int) {
                CacheLookup::UseCached
            } else {
                CacheLookup::Refresh
            },
        },
{
    match cached {
        None => CacheLookup::Fetch,
        Some((status, days)) => {
            if check_valid_result(status, days) {
                CacheLookup::UseCached
            } else {
                CacheLookup::Refresh
            }
        },
    }
}

/// What a refresh deletes was cached before and is no longer listed by
/// the API, and each cached beatmap that the API no longer lists is
/// deleted.
pub proof fn lemma_deleted_exactly(cached: Seq<i64>, api_ids: Seq<u32>)
    ensures
        forall|id: i64| #[trigger]
            deleted_ids(cached, Some(api_ids)).contains(id) <==> (cached.contains(id)
                && !api_ids.contains(id as u32)),
{
    let pred = dropped_by_api(api_ids);
    assert forall|id: i64| #[trigger]
        deleted_ids(cached, Some(api_ids)).contains(id) <==> (cached.contains(id)
            && !api_ids.contains(id as u32)) by {
        if cached.contains(id) && pred(id) {
            let k = choose|k: int| 0 <= k < cached.len() && cached[k] == id;
            cached.lemma_filter_contains(pred, k);
        }
        if cached.filter(pred).contains(id) {
            cached.lemma_filter_contains_rev(pred, id);
            let k = choose|k: int| 0 <= k < cached.filter(pred).len() && cached.filter(pred)[k] == id;
            cached.lemma_filter_pred(pred, k);
        }
    }
}

} // verus!
