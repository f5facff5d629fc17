//! Where an episode's audio is cached on disk, and what to do to serve it.
//!
//! A cached file is named after the episode id and a hash of the source
//! address it was downloaded from, so a changed address never reuses a stale
//! download. Files of an older, unversioned layout are adopted once when a
//! sidecar file proves they came from the requested address, and discarded
//! otherwise.
use vstd::prelude::*;
use std::collections::hash_map::DefaultHasher;
use std::hash::Hasher;
use vstd::string::StringSliceAdditionalSpecFns;
use vstd::std_specs::hash::DefaultHasherAdditionalSpecFns;
use crate::text::{decimal, i64_to_decimal, lemma_decimal_injective, signed_decimal, u64_to_decimal};

verus! {

/// The hash under which audio downloaded from an address is filed: the
/// standard hasher fed the address bytes and a terminating `0xff` byte, as
/// `str`'s `Hash` implementation feeds it.
pub open spec fn url_hash(bytes: Seq<u8>) -> u64 {
    DefaultHasher::spec_finish(seq![bytes, seq![0xffu8]])
}

pub open spec fn versioned_name(episode_id: i32, hash: u64) -> Seq<char> {
    "episode_"@ + signed_decimal(episode_id as int) + "_"@ + decimal(hash as nat) + ".mp3"@
}

pub open spec fn legacy_name(episode_id: i32) -> Seq<char> {
    "episode_"@ + signed_decimal(episode_id as int) + ".mp3"@
}

pub open spec fn sidecar_name(episode_id: i32) -> Seq<char> {
    "episode_"@ + signed_decimal(episode_id as int) + ".url"@
}

/// What the cache directory showed for one episode and address.
#[derive(Debug, Clone)]
pub struct CacheProbe {
    /// The file for this episode and this address exists.
    pub versioned_exists: bool,
    /// A file of the older, unversioned layout exists for this episode.
    pub legacy_exists: bool,
    /// The address recorded in the legacy file's sidecar, when there is a
    /// sidecar and it could be read.
    pub sidecar_url: Option<String>,
}

/// The step that serves a resolve request.
#[derive(Debug, Clone, Copy, PartialEq, Eq, Structural)]
pub enum CachePlan {
    /// Serve the versioned file as it is; no network access.
    UseCached,
    /// Rename the legacy file to the versioned name and delete its sidecar;
    /// download only if the rename fails.
    AdoptLegacy,
    /// Delete the legacy file and its sidecar as stale, then download.
    DiscardLegacy,
    /// Download into the versioned name.
    Download,
}

pub open spec fn plan_spec(
    versioned_exists: bool,
    legacy_exists: bool,
    sidecar_url: Option<Seq<char>>,
    url: Seq<char>,
) -> CachePlan {
    if versioned_exists {
        CachePlan::UseCached
    } else if legacy_exists {
        if sidecar_url == Some(url) {
            CachePlan::AdoptLegacy
        } else {
            CachePlan::DiscardLegacy
        }
    } else {
        CachePlan::Download
    }
}

pub open spec fn probe_sidecar(probe: CacheProbe) -> Option<Seq<char>> {
    match probe.sidecar_url {
        Some(s) => Some(s@),
        None => None,
    }
}

/// Names and plans the on-disk audio cache kept under `cache_dir`.
#[derive(Debug, Clone)]
pub struct AudioDownloader {
    pub cache_dir: String,
}

impl AudioDownloader {
    pub fn new() -> (r: AudioDownloader)
        ensures
            r.cache_dir@ == "./cache/audio"@,
    {
        AudioDownloader { cache_dir: String::from_str("./cache/audio") }
    }

    pub fn hash_url(url: &str) -> (r: u64)
        ensures
            r == url_hash(url.spec_bytes()),
    {
        let mut hasher = DefaultHasher::new();
        hasher.write(url.as_bytes());
        let terminator: [u8; 1] = [0xff];
        let tail = terminator.as_slice();
        proof {
            broadcast use vstd::array::group_array_axioms;
            assert(terminator@ =~= seq![0xffu8]);
            assert(tail@ == terminator@);
        }
        hasher.write(tail);
        assert(hasher@ == seq![url.spec_bytes(), seq![0xffu8]]);
        hasher.finish()
    }

    /// The name of the file that holds the audio of `episode_id` downloaded
    /// from `url`.
    pub fn versioned_file_name(url: &str, episode_id: i32) -> (r: String)
        ensures
            r@ == versioned_name(episode_id, url_hash(url.spec_bytes())),
    {
        let hash = Self::hash_url(url);
        let r = String::from_str("episode_").concat(i64_to_decimal(episode_id as i64).as_str()).concat(
            "_",
        ).concat(u64_to_decimal(hash).as_str()).concat(".mp3");
        r
    }

    pub fn legacy_file_name(episode_id: i32) -> (r: String)
        ensures
            r@ == legacy_name(episode_id),
    {
        String::from_str("episode_").concat(i64_to_decimal(episode_id as i64).as_str()).concat(".mp3")
    }

    pub fn sidecar_file_name(episode_id: i32) -> (r: String)
        ensures
            r@ == sidecar_name(episode_id),
    {
        String::from_str("episode_").concat(i64_to_decimal(episode_id as i64).as_str()).concat(".url")
    }

    /// Decides how to serve `url` from what the directory showed.
    pub fn plan(probe: &CacheProbe, url: &str) -> (r: CachePlan)
        ensures
            r == plan_spec(probe.versioned_exists, probe.legacy_exists, probe_sidecar(*probe), url@),
    {
        if probe.versioned_exists {
            CachePlan::UseCached
        } else if probe.legacy_exists {
            let wanted = url.to_owned();
            let matches = match &probe.sidecar_url {
                Some(s) => *s == wanted,
                None => false,
            };
            if matches {
                CachePlan::AdoptLegacy
            } else {
                CachePlan::DiscardLegacy
            }
        } else {
            CachePlan::Download
        }
    }
}


/// The plan a resolve of (`episode_id`, `url`) takes on a cache directory
/// holding `files`, where `sidecars` gives the text of each sidecar file and
/// `hash` is the address's hash.
pub open spec fn observed_plan(
    files: Set<Seq<char>>,
    sidecars: Map<Seq<char>, Seq<char>>,
    episode_id: i32,
    hash: u64,
    url: Seq<char>,
) -> CachePlan {
    let sidecar = sidecar_name(episode_id);
    plan_spec(
        files.contains(versioned_name(episode_id, hash)),
        files.contains(legacy_name(episode_id)),
        if files.contains(sidecar) && sidecars.contains_key(sidecar) {
            Some(sidecars[sidecar])
        } else {
            None
        },
        url,
    )
}

/// The files present after a plan has been carried out successfully.
pub open spec fn files_after(
    files: Set<Seq<char>>,
    plan: CachePlan,
    episode_id: i32,
    hash: u64,
) -> Set<Seq<char>> {
    match plan {
        CachePlan::UseCached => files,
        CachePlan::Download => files.insert(versioned_name(episode_id, hash)),
        _ => files.remove(legacy_name(episode_id)).remove(sidecar_name(episode_id)).insert(
            versioned_name(episode_id, hash),
        ),
    }
}

pub proof fn lemma_versioned_name_injective(episode_id: i32, h1: u64, h2: u64)
    requires
        versioned_name(episode_id, h1) == versioned_name(episode_id, h2),
    ensures
        h1 == h2,
{
    let p = "episode_"@ + signed_decimal(episode_id as int) + "_"@;
    let d1 = decimal(h1 as nat);
    let d2 = decimal(h2 as nat);
    let s = ".mp3"@;
    assert(versioned_name(episode_id, h1) =~= p + d1 + s);
    assert(versioned_name(episode_id, h2) =~= p + d2 + s);
    assert(d1.len() == d2.len());
    assert((p + d1 + s).subrange(p.len() as int, (p.len() + d1.len()) as int) =~= d1);
    assert((p + d2 + s).subrange(p.len() as int, (p.len() + d2.len()) as int) =~= d2);
    lemma_decimal_injective(h1 as nat, h2 as nat);
}

/// Resolving the same episode and address twice downloads at most once:
/// whatever the first resolve did, the second is served from the cache.
pub proof fn lemma_second_resolve_cached(
    files: Set<Seq<char>>,
    sidecars: Map<Seq<char>, Seq<char>>,
    episode_id: i32,
    hash: u64,
    url: Seq<char>,
)
    ensures
        observed_plan(
            files_after(
                files,
                observed_plan(files, sidecars, episode_id, hash, url),
                episode_id,
                hash,
            ),
            sidecars,
            episode_id,
            hash,
            url,
        ) == CachePlan::UseCached,
{
}

/// After a resolve for one address, a resolve of the same episode for an
/// address with another hash never serves the file downloaded for the
/// first: it is served from the cache only when its own versioned file was
/// already there before.
pub proof fn lemma_changed_url_not_stale(
    files: Set<Seq<char>>,
    sidecars: Map<Seq<char>, Seq<char>>,
    episode_id: i32,
    hash: u64,
    url: Seq<char>,
    new_hash: u64,
    new_url: Seq<char>,
)
    requires
        hash != new_hash,
    ensures
        versioned_name(episode_id, new_hash) != versioned_name(episode_id, hash),
        observed_plan(
            files_after(
                files,
                observed_plan(files, sidecars, episode_id, hash, url),
                episode_id,
                hash,
            ),
            sidecars,
            episode_id,
            new_hash,
            new_url,
        ) == CachePlan::UseCached ==> files.contains(versioned_name(episode_id, new_hash)),
{
    if versioned_name(episode_id, new_hash) == versioned_name(episode_id, hash) {
        lemma_versioned_name_injective(episode_id, hash, new_hash);
    }
}

} // verus!
