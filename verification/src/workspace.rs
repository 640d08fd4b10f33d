//! The workspace digest: canonical globs select a subset of the file
//! catalog, the matched files' content hashes are joined in catalog order and
//! hashed into one digest, memoized in the digest cache under the joined-glob
//! key.
use vstd::prelude::*;

use crate::FileData;
use crate::cache::{DigestCache, cache_entries};
use crate::digest::{digest_chars, hash};
use crate::join::{comma_join, join_with_commas};
use crate::matching::{Matchers, PatternError, any_match, build_matchers, first_bad, globs_ok};
use crate::pattern::{canonical_globs, carries_root_marker, globs_from_workspace_inputs, lemma_no_marker_no_globs, negatives_of, positives_of};
use vstd::utf8::encode_utf8;

verus! {

/// The files of a catalog whose paths match some positive pattern and no
/// negative one, in catalog order.
pub open spec fn filtered(catalog: Seq<FileData>, pos: Seq<Seq<char>>, neg: Seq<Seq<char>>) -> Seq<
    FileData,
>
    decreases catalog.len(),
{
    if catalog.len() == 0 {
        Seq::empty()
    } else {
        let rest = filtered(catalog.drop_last(), pos, neg);
        let f = catalog.last();
        if any_match(pos, f.file@) && !any_match(neg, f.file@) {
            rest.push(f)
        } else {
            rest
        }
    }
}

/// The files of a catalog selected by a canonical glob list.
pub open spec fn matched(catalog: Seq<FileData>, globs: Seq<Seq<char>>) -> Seq<FileData> {
    filtered(catalog, positives_of(globs), negatives_of(globs))
}

/// The content hashes of the selected files, in catalog order.
pub open spec fn matched_hashes(catalog: Seq<FileData>, globs: Seq<Seq<char>>) -> Seq<Seq<char>> {
    matched(catalog, globs).map_values(|f: FileData| f.hash@)
}

/// The digest computed on a cache miss: the matched files' hashes joined
/// with commas, encoded as UTF-8 and fed to the content hash primitive.
pub open spec fn miss_digest(globs: Seq<Seq<char>>, catalog: Seq<FileData>) -> Seq<char> {
    digest_chars(encode_utf8(comma_join(matched_hashes(catalog, globs))))
}

/// The sentinel digest for "no workspace files are relevant": the digest of
/// an empty byte sequence.
pub open spec fn empty_digest() -> Seq<char> {
    digest_chars(Seq::empty())
}

/// What one digest request returns and what it leaves in the cache: the
/// sentinel digest, bypassing the cache, when no pattern survives
/// normalization; the stored value verbatim on a hit; otherwise the computed
/// digest, stored under the joined-glob key — unless some pattern is not
/// accepted glob syntax, in which case the first such pattern is reported
/// and the cache is left untouched.
pub open spec fn digest_outcome(
    raws: Seq<Seq<char>>,
    catalog: Seq<FileData>,
    cache: Map<Seq<char>, Seq<char>>,
) -> (Result<Seq<char>, Seq<char>>, Map<Seq<char>, Seq<char>>) {
    let globs = canonical_globs(raws);
    if globs.len() == 0 {
        (Ok(empty_digest()), cache)
    } else {
        let key = comma_join(globs);
        if cache.contains_key(key) {
            (Ok(cache[key]), cache)
        } else if globs_ok(globs) {
            let d = miss_digest(globs, catalog);
            (Ok(d), cache.insert(key, d))
        } else {
            (Err(first_bad(globs)), cache)
        }
    }
}

/// Filters the catalog down to the files the matchers select, preserving
/// catalog order.
fn filter_catalog(matchers: &Matchers, catalog: &[FileData]) -> (out: Vec<FileData>)
    ensures
        out@ == filtered(catalog@, matchers.pos_patterns(), matchers.neg_patterns()),
{
    let mut out: Vec<FileData> = Vec::new();
    let mut i: usize = 0;
    while i < catalog.len()
        invariant
            i <= catalog@.len(),
            out@ == filtered(
                catalog@.subrange(0, i as int),
                matchers.pos_patterns(),
                matchers.neg_patterns(),
            ),
        decreases catalog@.len() - i,
    {
        proof {
            assert(catalog@.subrange(0, (i + 1) as int).drop_last() =~= catalog@.subrange(
                0,
                i as int,
            ));
            assert(catalog@.subrange(0, (i + 1) as int).last() == catalog@[i as int]);
        }
        let f: &FileData = vstd::slice::slice_index_get(catalog, i);
        if matchers.path_selected(f.file.as_str()) {
            out.push(f.clone());
        }
        i = i + 1;
    }
    proof {
        assert(catalog@.subrange(0, catalog@.len() as int) =~= catalog@);
    }
    out
}

/// Copies out the content hash of each file, in order.
fn collect_hashes(files: &Vec<FileData>) -> (hashes: Vec<String>)
    ensures
        hashes.deep_view() == files@.map_values(|f: FileData| f.hash@),
{
    let mut hashes: Vec<String> = Vec::new();
    let mut i: usize = 0;
    while i < files.len()
        invariant
            i <= files@.len(),
            hashes@.len() == i,
            forall|k: int| 0 <= k < i ==> #[trigger] hashes@[k]@ == files@[k].hash@,
        decreases files@.len() - i,
    {
        let ghost before = hashes@;
        let h = files[i].hash.clone();
        hashes.push(h);
        proof {
            assert(hashes@ == before.push(h));
            assert(forall|k: int| 0 <= k < i ==> hashes@[k] == #[trigger] before[k]);
            assert(hashes@[i as int]@ == files@[i as int].hash@);
        }
        i = i + 1;
    }
    proof {
        assert(hashes.deep_view() =~~= files@.map_values(|f: FileData| f.hash@));
    }
    hashes
}

/// Resolves raw patterns against the catalog and hands back the matching
/// files themselves, preserving catalog order. Always recomputes: the digest
/// cache is neither consulted nor filled.
pub fn get_workspace_files(
    workspace_file_sets: &[String],
    all_workspace_files: &[FileData],
) -> (r: Result<Vec<FileData>, PatternError>)
    ensures
        ({
            let globs = canonical_globs(workspace_file_sets.deep_view());
            &&& (r is Ok <==> globs_ok(globs))
            &&& (r matches Ok(v) ==> v@ == matched(all_workspace_files@, globs))
            &&& (r matches Err(e) ==> e.pattern@ == first_bad(globs))
        }),
{
    let globs = globs_from_workspace_inputs(workspace_file_sets);
    match build_matchers(&globs) {
        Ok(matchers) => Ok(filter_catalog(&matchers, all_workspace_files)),
        Err(e) => Err(e),
    }
}

/// Computes the workspace digest for the given raw patterns and catalog,
/// memoizing it in the given cache: exactly the request `digest_outcome`
/// describes.
pub fn hash_workspace_files(
    workspace_file_sets: &[String],
    all_workspace_files: &[FileData],
    cache: &mut DigestCache,
) -> (r: Result<String, PatternError>)
    ensures
        ({
            let outcome = digest_outcome(
                workspace_file_sets.deep_view(),
                all_workspace_files@,
                cache_entries(*old(cache)),
            );
            &&& cache_entries(*final(cache)) == outcome.1
            &&& (r matches Ok(d) ==> outcome.0 == Ok::<Seq<char>, Seq<char>>(d@))
            &&& (r matches Err(e) ==> outcome.0 == Err::<Seq<char>, Seq<char>>(e.pattern@))
        }),
{
    let ghost raws: Seq<Seq<char>> = workspace_file_sets.deep_view();
    let ghost catalog: Seq<FileData> = all_workspace_files@;
    let globs = globs_from_workspace_inputs(workspace_file_sets);
    if globs.len() == 0 {
        let empty: Vec<u8> = Vec::new();
        return Ok(hash(empty.as_slice()));
    }
    let cache_key = join_with_commas(&globs);
    match cache.get(cache_key.as_str()) {
        Some(v) => {
            return Ok(v);
        },
        None => {},
    }
    let matchers = match build_matchers(&globs) {
        Ok(m) => m,
        Err(e) => {
            return Err(e);
        },
    };
    let files = filter_catalog(&matchers, all_workspace_files);
    proof {
        assert(files@ == matched(catalog, canonical_globs(raws)));
    }
    let hashes = collect_hashes(&files);
    let joined = join_with_commas(&hashes);
    let digest = hash(joined.as_str().as_bytes());
    proof {
        assert(digest@ == miss_digest(canonical_globs(raws), catalog));
    }
    cache.insert(cache_key, digest.clone());
    Ok(digest)
}

/// When no raw entry carries the root-scope marker, the digest of an empty
/// byte sequence is returned and nothing is stored under any key.
pub proof fn lemma_unusable_patterns_give_empty_hash(
    raws: Seq<Seq<char>>,
    catalog: Seq<FileData>,
    cache: Map<Seq<char>, Seq<char>>,
)
    requires
        forall|i: int| 0 <= i < raws.len() ==> !carries_root_marker(#[trigger] raws[i]),
    ensures
        digest_outcome(raws, catalog, cache).0 == Ok::<Seq<char>, Seq<char>>(empty_digest()),
        digest_outcome(raws, catalog, cache).1 == cache,
{
    lemma_no_marker_no_globs(raws);
}

/// Determinism: the digest request is a function of the pattern list, the
/// catalog and the cache state alone, so repeated calls with equal inputs —
/// in particular with a fresh cache each time — return the identical digest.
pub proof fn lemma_digest_deterministic(
    raws1: Seq<Seq<char>>,
    catalog1: Seq<FileData>,
    cache1: Map<Seq<char>, Seq<char>>,
    raws2: Seq<Seq<char>>,
    catalog2: Seq<FileData>,
    cache2: Map<Seq<char>, Seq<char>>,
)
    requires
        raws1 == raws2,
        catalog1 == catalog2,
        cache1 == cache2,
    ensures
        digest_outcome(raws1, catalog1, cache1) == digest_outcome(raws2, catalog2, cache2),
{
}

/// A warm hit equals the cold value: requesting the same digest twice in a
/// row returns the same result both times — the second request, served from
/// the cache the first one filled, hands back exactly the digest the first
/// one computed — and leaves the cache as the first request left it.
pub proof fn lemma_warm_hit_equals_cold(
    raws: Seq<Seq<char>>,
    catalog: Seq<FileData>,
    cache: Map<Seq<char>, Seq<char>>,
)
    ensures
        ({
            let (r1, m1) = digest_outcome(raws, catalog, cache);
            digest_outcome(raws, catalog, m1) == (r1, m1)
        }),
{
    let globs = canonical_globs(raws);
    if globs.len() > 0 {
        let key = comma_join(globs);
        if !cache.contains_key(key) && globs_ok(globs) {
            let d = miss_digest(globs, catalog);
            assert(cache.insert(key, d).contains_key(key));
            assert(cache.insert(key, d)[key] == d);
        }
    }
}

} // verus!
