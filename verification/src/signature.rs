//! Signatures over manifests and the keys of the publishers that make
//! them.

use crate::manifest::Timestamp;
use vstd::prelude::*;

verus! {

/// The signature of a manifest.
#[derive(Debug, Clone)]
pub struct CanonSignature {
    pub canon: String,
    pub signature_version: String,
    pub manifest_hash: String,
    pub signature: SignatureData,
}

/// A signature and how it was made.
#[derive(Debug, Clone)]
pub struct SignatureData {
    pub algorithm: String,
    pub key_id: String,
    pub signature: String,
    pub signed_at: Timestamp,
}

/// The keys of a publisher, each under its id, and those it has revoked.
#[derive(Debug, Clone)]
pub struct PublisherKeys {
    pub version: String,
    pub keys: Vec<(String, PublisherKey)>,
    pub revoked_keys: Vec<(String, RevokedKey)>,
}

/// One key of a publisher.
#[derive(Debug, Clone)]
pub struct PublisherKey {
    pub algorithm: String,
    pub public_key: String,
    pub created_at: Timestamp,
    pub expires_at: Option<Timestamp>,
    pub revoked: bool,
    pub usage: String,
}

/// When and why a key was revoked.
#[derive(Debug, Clone)]
pub struct RevokedKey {
    pub revoked_at: Timestamp,
    pub reason: String,
}

impl PublisherKeys {
    /// Whether no id stands for two keys, and none for two revocations.
    pub open spec fn well_formed(&self) -> bool {
        &&& forall|i: int, j: int|
            0 <= i < j < self.keys@.len() ==> (#[trigger] self.keys@[i]).0@ != (
            #[trigger] self.keys@[j]).0@
        &&& forall|i: int, j: int|
            0 <= i < j < self.revoked_keys@.len() ==> (#[trigger] self.revoked_keys@[i]).0@ != (
            #[trigger] self.revoked_keys@[j]).0@
    }
}

} // verus!
