//! Certificate trust on first use.
//!
//! During a TLS handshake the transport asks this evaluator whether to
//! accept the server's certificate. Under the pinning policy the first
//! contact with a host records a fingerprint of its certificate; later
//! contacts are accepted silently while the fingerprint matches and refused
//! when it changes, so that the caller can decide whether to re-pin.
//! Verifying the handshake signature itself is cryptography and stays with
//! the transport; its failure is [`CertificateError::SignatureInvalid`].

use vstd::prelude::*;

verus! {

/// Why a certificate is refused.
#[derive(Debug, Clone, Copy, PartialEq, Eq, Structural)]
pub enum CertificateError {
    /// The handshake signature fails its cryptographic check.
    SignatureInvalid,
    /// The presented certificate differs from the pinned fingerprint.
    IdentityChanged,
}

/// How presented certificates are judged.
#[derive(Debug, Clone, Copy, PartialEq, Eq, Structural)]
pub enum TrustPolicy {
    /// Every certificate is accepted. For testing only.
    AcceptAll,
    /// Trust on first use against the pinned fingerprints.
    PinnedTofu,
}

/// Pinned certificate fingerprints by host. Later pins shadow earlier ones,
/// so the store reads as a map from host to fingerprint.
#[derive(Debug, Clone)]
pub struct FingerprintStore {
    entries: Vec<(String, Vec<u8>)>,
}

/// The map the entries spell out, later entries winning.
spec fn spec_map_of(es: Seq<(String, Vec<u8>)>) -> Map<Seq<char>, Seq<u8>>
    decreases es.len(),
{
    if es.len() == 0 {
        Map::empty()
    } else {
        spec_map_of(es.drop_last()).insert(es.last().0@, es.last().1@)
    }
}

impl View for FingerprintStore {
    type V = Map<Seq<char>, Seq<u8>>;

    closed spec fn view(&self) -> Map<Seq<char>, Seq<u8>> {
        spec_map_of(self.entries@)
    }
}

/// The last entry under a key decides what the map holds there.
proof fn lemma_map_of_found(es: Seq<(String, Vec<u8>)>, k: Seq<char>, i: int)
    requires
        0 <= i < es.len(),
        es[i].0@ == k,
        forall|j: int| i < j < es.len() ==> es[j].0@ != k,
    ensures
        spec_map_of(es).contains_key(k),
        spec_map_of(es)[k] == es[i].1@,
    decreases es.len(),
{
    if i < es.len() - 1 {
        lemma_map_of_found(es.drop_last(), k, i);
    }
}

/// A key no entry holds is not in the map.
proof fn lemma_map_of_absent(es: Seq<(String, Vec<u8>)>, k: Seq<char>)
    requires
        forall|j: int| 0 <= j < es.len() ==> es[j].0@ != k,
    ensures
        !spec_map_of(es).contains_key(k),
    decreases es.len(),
{
    if es.len() > 0 {
        lemma_map_of_absent(es.drop_last(), k);
    }
}

/// Whether `a` and `b` hold the same bytes.
pub fn bytes_eq(a: &[u8], b: &[u8]) -> (r: bool)
    ensures
        r == (a@ == b@),
{
    let n = a.len();
    if n != b.len() {
        return false;
    }
    let mut i: usize = 0;
    while i < n
        invariant
            i <= n,
            n == a@.len() == b@.len(),
            forall|j: int| 0 <= j < i ==> a@[j] == b@[j],
        decreases n - i,
    {
        if a[i] != b[i] {
            return false;
        }
        i = i + 1;
    }
    proof {
        assert(a@ =~= b@);
    }
    true
}

impl FingerprintStore {
    /// An empty store.
    pub fn new() -> (r: FingerprintStore)
        ensures
            r@ == Map::<Seq<char>, Seq<u8>>::empty(),
    {
        FingerprintStore { entries: Vec::new() }
    }

    /// The fingerprint pinned for `host`, if any.
    pub fn lookup(&self, host: &str) -> (r: Option<&Vec<u8>>)
        ensures
            match r {
                Some(f) => self@.contains_key(host@) && f@ == self@[host@],
                None => !self@.contains_key(host@),
            },
    {
        let n = self.entries.len();
        let mut i: usize = n;
        while i > 0
            invariant
                i <= n == self.entries@.len(),
                forall|j: int| i <= j < n ==> self.entries@[j].0@ != host@,
            decreases i,
        {
            i = i - 1;
            if crate::text::str_eq(self.entries[i].0.as_str(), host) {
                proof {
                    lemma_map_of_found(self.entries@, host@, i as int);
                }
                return Some(&self.entries[i].1);
            }
        }
        proof {
            lemma_map_of_absent(self.entries@, host@);
        }
        None
    }

    /// Pins `fingerprint` for `host`, shadowing any earlier pin.
    pub fn pin(&mut self, host: &str, fingerprint: Vec<u8>)
        ensures
            final(self)@ == old(self)@.insert(host@, fingerprint@),
    {
        let ghost es0 = self.entries@;
        self.entries.push((String::from_str(host), fingerprint));
        proof {
            assert(self.entries@.drop_last() =~= es0);
        }
    }
}

/// The certificate trust evaluator: a policy and the fingerprints pinned so
/// far.
#[derive(Debug, Clone)]
pub struct TrustEvaluator {
    pub policy: TrustPolicy,
    pub pins: FingerprintStore,
}

impl TrustEvaluator {
    /// An evaluator with no pins yet.
    pub fn new(policy: TrustPolicy) -> (r: TrustEvaluator)
        ensures
            r.policy == policy,
            r.pins@ == Map::<Seq<char>, Seq<u8>>::empty(),
    {
        TrustEvaluator { policy, pins: FingerprintStore::new() }
    }

    /// Judges the certificate `fingerprint` presented by `host`.
    ///
    /// Accepting everything accepts; otherwise a first contact pins the
    /// fingerprint and accepts, a matching pin accepts silently, and a
    /// differing pin fails closed, leaving the store as it was.
    pub fn evaluate(&mut self, host: &str, fingerprint: &[u8]) -> (r: Result<
        (),
        CertificateError,
    >)
        ensures
            old(self).policy == TrustPolicy::AcceptAll ==> r is Ok && *final(self) == *old(self),
            old(self).policy == TrustPolicy::PinnedTofu && !old(self).pins@.contains_key(host@)
                ==> r is Ok && final(self).pins@ == old(self).pins@.insert(host@, fingerprint@),
            old(self).policy == TrustPolicy::PinnedTofu && old(self).pins@.contains_key(host@)
                && old(self).pins@[host@] == fingerprint@ ==> r is Ok && *final(self) == *old(
                self,
            ),
            old(self).policy == TrustPolicy::PinnedTofu && old(self).pins@.contains_key(host@)
                && old(self).pins@[host@] != fingerprint@ ==> r == Err::<(), CertificateError>(
                CertificateError::IdentityChanged,
            ) && *final(self) == *old(self),
            final(self).policy == old(self).policy,
    {
        if self.policy == TrustPolicy::AcceptAll {
            return Ok(());
        }
        let known = match self.pins.lookup(host) {
            None => None,
            Some(f) => Some(bytes_eq(f.as_slice(), fingerprint)),
        };
        match known {
            None => {
                let mut fp: Vec<u8> = Vec::new();
                fp.extend_from_slice(fingerprint);
                proof {
                    assert(fp@ =~= fingerprint@);
                }
                self.pins.pin(host, fp);
                Ok(())
            },
            Some(true) => Ok(()),
            Some(false) => Err(CertificateError::IdentityChanged),
        }
    }
}

} // verus!
