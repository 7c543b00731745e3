//! Where model answers are cached: a directory of JSON files, one per stage and
//! payload, named after the SHA-256 digest of the payload.

use vstd::prelude::*;
use std::path::PathBuf;
use crate::text::{hex_lower, push_hex_lower};

verus! {

#[verifier::external_type_specification]
#[verifier::external_body]
pub struct ExPathBuf(PathBuf);

/// A name for the SHA-256 digest of `data`.
pub uninterp spec fn sha256_of(data: Seq<u8>) -> Seq<u8>;

/// The SHA-256 digest of `data`, by `sha2::Sha256` through `Digest::digest`; the digest
/// of `Sha256` is 32 bytes long (its `OutputSize` is `U32`). The digest itself is named.
#[verifier::external_body]
fn sha256(data: &[u8]) -> (d: Vec<u8>)
    ensures
        d@ == sha256_of(data@),
        d.len() == 32,
{
    <sha2::Sha256 as sha2::Digest>::digest(data).to_vec()
}

/// The file name of a cached answer: the stage, a dot, the first 16 lowercase hex
/// digits of the SHA-256 digest of the payload's UTF-8 bytes, and `.json`.
pub open spec fn cache_key(stage: Seq<char>, payload: Seq<char>) -> Seq<char> {
    stage + "."@ + hex_lower(sha256_of(vstd::utf8::encode_utf8(payload)).take(8)) + ".json"@
}

/// The file name of a stage's answer that serves every payload: the stage and `.json`.
pub open spec fn fallback_key(stage: Seq<char>) -> Seq<char> {
    stage + ".json"@
}

/// Where the cache lives: the directory that `VOUCH_CACHE_DIR` names, else
/// `.cache/vouch/responses` under the home directory, else `fixtures/responses`.
#[derive(Debug, Clone, PartialEq, Eq)]
pub enum CacheDir {
    /// This directory, as given.
    Given(String),
    /// `.cache/vouch/responses` under this home directory.
    UnderHome(String),
    /// `fixtures/responses`, relative to the working directory.
    Fixtures,
}

/// The directory under the home directory that holds the cache.
pub const HOME_CACHE_SUBDIR: &'static str = ".cache/vouch/responses";

/// The cache directory when neither the setting nor a home directory is known.
pub const FALLBACK_CACHE_DIR: &'static str = "fixtures/responses";

/// Chooses the cache directory from the `VOUCH_CACHE_DIR` setting and the home
/// directory, where they are set (see `CacheDir`).
pub fn cache_dir(setting: Option<String>, home: Option<String>) -> (d: CacheDir)
    ensures
        match setting {
            Some(s) => d == CacheDir::Given(s),
            None => match home {
                Some(h) => d == CacheDir::UnderHome(h),
                None => d == CacheDir::Fixtures,
            },
        },
{
    match setting {
        Some(s) => CacheDir::Given(s),
        None => match home {
            Some(h) => CacheDir::UnderHome(h),
            None => CacheDir::Fixtures,
        },
    }
}

/// A cache of model answers in a directory.
pub struct Cache {
    dir: PathBuf,
}

impl Cache {
    /// The directory of the cache.
    pub closed spec fn location(&self) -> PathBuf {
        self.dir
    }

    /// A cache in `dir`.
    pub fn new(dir: PathBuf) -> (c: Cache)
        ensures
            c.location() == dir,
    {
        Cache { dir }
    }

    /// The directory of the cache.
    pub fn dir(&self) -> (d: &PathBuf)
        ensures
            *d == self.location(),
    {
        &self.dir
    }

    /// The file name under which the answer of `stage` for `payload` is kept.
    pub fn key(&self, stage: &str, payload: &str) -> (k: String)
        ensures
            k@ == cache_key(stage@, payload@),
            k@.len() == stage@.len() + 22,
    {
        let digest = sha256(payload.as_bytes());
        let mut k = String::from_str(stage);
        k.append(".");
        push_hex_lower(&mut k, digest.as_slice(), 8);
        k.append(".json");
        proof {
            reveal_strlit(".");
            reveal_strlit(".json");
            crate::text::lemma_hex_lower_len(digest@.take(8));
        }
        k
    }

    /// The file name of the answer of `stage` that serves any payload.
    pub fn fallback_key(&self, stage: &str) -> (k: String)
        ensures
            k@ == fallback_key(stage@),
    {
        let mut k = String::from_str(stage);
        k.append(".json");
        k
    }
}

/// The text of the cached answer, given what was read from the payload's own file and
/// from the stage's file: the payload's own answer wins wherever it was found, and the
/// stage's answer serves only when there is none.
pub fn cached_answer(own: Option<String>, stage_wide: Option<String>) -> (t: Option<String>)
    ensures
        t == (if own is Some { own } else { stage_wide }),
{
    match own {
        Some(text) => Some(text),
        None => stage_wide,
    }
}

} // verus!
