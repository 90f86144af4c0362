//! Trust: which TLS policy the transport is to follow, and the cache of CA
//! certificates that pinned policies draw on.

use crate::assoc::{
    assoc_map, distinct_keys, lemma_assoc_key_has_pair, lemma_assoc_pair_is_entry,
    lemma_assoc_push,
};
use crate::error::{Error, Fault};
use crate::text::same_text;
use rustls::pki_types::pem::PemObject;
use rustls::pki_types::CertificateDer;
use vstd::prelude::*;
use vstd::string::*;

verus! {

/// Seconds after which a request to the service is abandoned.
pub const REQUEST_TIMEOUT_SECS: u64 = 5;

/// How the transport decides whether to trust the service's certificate.
#[derive(Debug, Clone, PartialEq, Eq)]
pub enum TrustPolicy {
    /// No certificate is checked at all. Insecure; only ever on request.
    SkipVerification,
    /// Only the CA certificate in the PEM file at this path is trusted.
    PinnedCa(String),
    /// The trust store of the platform.
    SystemDefault,
}

/// The mathematical value of a [`TrustPolicy`].
pub enum Trust {
    SkipVerification,
    PinnedCa(Seq<char>),
    SystemDefault,
}

impl View for TrustPolicy {
    type V = Trust;

    open spec fn view(&self) -> Trust {
        match self {
            TrustPolicy::SkipVerification => Trust::SkipVerification,
            TrustPolicy::PinnedCa(path) => Trust::PinnedCa(path@),
            TrustPolicy::SystemDefault => Trust::SystemDefault,
        }
    }
}

/// The policy that the configuration asks for: to skip verification comes
/// first, then a pinned CA, then the platform's default.
pub open spec fn trust_of(ca_cert: Option<Seq<char>>, skip_verify: Option<bool>) -> Trust {
    if skip_verify == Some(true) {
        Trust::SkipVerification
    } else {
        match ca_cert {
            Some(path) => Trust::PinnedCa(path),
            None => Trust::SystemDefault,
        }
    }
}

/// Chooses the trust policy from the path of a CA certificate, if one is
/// configured, and the flag that switches verification off, if it is set.
pub fn trust_policy(ca_cert: Option<String>, skip_verify: Option<bool>) -> (policy: TrustPolicy)
    ensures
        policy@ == trust_of(
            match ca_cert {
                Some(path) => Some(path@),
                None => None,
            },
            skip_verify,
        ),
{
    let skip = match skip_verify {
        Some(flag) => flag,
        None => false,
    };
    if skip {
        TrustPolicy::SkipVerification
    } else {
        match ca_cert {
            Some(path) => TrustPolicy::PinnedCa(path),
            None => TrustPolicy::SystemDefault,
        }
    }
}

/// The text by which the client names itself to the service: its name, a
/// slash, its version.
pub fn client_identification(name: &str, version: &str) -> (text: String)
    ensures
        text@ == name@ + "/"@ + version@,
{
    String::from_str(name).concat("/").concat(version)
}

/// What `rustls` reads from `pem` as the first PEM certificate in it: the
/// certificate in DER, or its description of what is wrong with the bytes.
pub uninterp spec fn certificate_der(pem: Seq<u8>) -> Result<Seq<u8>, Seq<char>>;

/// `CertificateDer::from_pem_slice`: the first certificate in `pem`, in
/// DER, or the parser's error, written out by its `Display`.
#[verifier::external_body]
fn parse_certificate(pem: &[u8]) -> (res: Result<Vec<u8>, String>)
    ensures
        match certificate_der(pem@) {
            Ok(der) => res matches Ok(bytes) && bytes@ == der,
            Err(why) => res matches Err(said) && said@ == why,
        },
{
    CertificateDer::from_pem_slice(pem).map(|der| der.to_vec()).map_err(|e| e.to_string())
}

/// The reason given for a CA certificate file that holds no certificate.
pub open spec fn invalid_certificate_text(path: Seq<char>, why: Seq<char>) -> Seq<char> {
    "CA certificate \""@ + path + "\": "@ + why
}

#[derive(Debug)]
struct CachedCertificate {
    path: String,
    der: Vec<u8>,
}

/// The CA certificates read so far, in DER, each under the path of its
/// file. What stands under a path is written once and never changes.
#[derive(Debug)]
pub struct CertCache {
    entries: Vec<CachedCertificate>,
}

/// What resolving `path` comes to when its file holds `parsed`: what the
/// cache holds under the path where it holds something, else what the file
/// holds. The second component is the cache afterwards.
pub open spec fn resolved(
    cache: Map<Seq<char>, Seq<u8>>,
    path: Seq<char>,
    parsed: Result<Seq<u8>, Seq<char>>,
) -> (Result<Seq<u8>, Fault>, Map<Seq<char>, Seq<u8>>) {
    if cache.contains_key(path) {
        (Ok(cache[path]), cache)
    } else {
        match parsed {
            Ok(der) => (Ok(der), cache.insert(path, der)),
            Err(why) => (Err(Fault::InvalidCertificate(invalid_certificate_text(path, why))), cache),
        }
    }
}

/// Once a path has been resolved, resolving it again gives the same bytes
/// whatever its file holds by then, leaves the cache as it is, and needs no
/// file to be read.
pub proof fn lemma_resolve_is_write_once(
    cache: Map<Seq<char>, Seq<u8>>,
    path: Seq<char>,
    first: Result<Seq<u8>, Seq<char>>,
    second: Result<Seq<u8>, Seq<char>>,
)
    requires
        resolved(cache, path, first).0 is Ok,
    ensures
        resolved(cache, path, first).1.contains_key(path),
        resolved(resolved(cache, path, first).1, path, second) == resolved(cache, path, first),
{
    assert(resolved(cache, path, first).1.insert(
        path,
        resolved(cache, path, first).0->Ok_0,
    ) =~= resolved(cache, path, first).1);
}

/// Resolving one path leaves what stands under every other path alone.
pub proof fn lemma_resolve_keeps_other_paths(
    cache: Map<Seq<char>, Seq<u8>>,
    path: Seq<char>,
    parsed: Result<Seq<u8>, Seq<char>>,
    other: Seq<char>,
)
    requires
        other != path,
    ensures
        resolved(cache, path, parsed).1.contains_key(other) == cache.contains_key(other),
        cache.contains_key(other) ==> resolved(cache, path, parsed).1[other] == cache[other],
{
}

impl CertCache {
    spec fn pairs(self) -> Seq<(Seq<char>, Seq<u8>)> {
        self.entries@.map_values(|e: CachedCertificate| (e.path@, e.der@))
    }

    #[verifier::type_invariant]
    spec fn distinct(self) -> bool {
        distinct_keys(self.pairs())
    }

    /// A cache that holds nothing yet.
    pub fn new() -> (cache: Self)
        ensures
            cache@ == Map::<Seq<char>, Seq<u8>>::empty(),
    {
        let cache = CertCache { entries: Vec::new() };
        assert(cache.pairs() =~= Seq::empty());
        cache
    }

    fn position(&self, path: &str) -> (at: Option<usize>)
        ensures
            match at {
                Some(i) => i < self.entries.len() && self.entries[i as int].path@ == path@
                    && self@.contains_key(path@) && self@[path@] == self.entries[i as int].der@,
                None => !self@.contains_key(path@),
            },
    {
        let mut i: usize = 0;
        while i < self.entries.len()
            invariant
                i <= self.entries.len(),
                forall|j: int| 0 <= j < i ==> self.entries[j].path@ != path@,
            decreases self.entries.len() - i,
        {
            if same_text(self.entries[i].path.as_str(), path) {
                proof {
                    use_type_invariant(self);
                    lemma_assoc_pair_is_entry(self.pairs(), i as int);
                }
                return Some(i);
            }
            i = i + 1;
        }
        proof {
            if self@.contains_key(path@) {
                lemma_assoc_key_has_pair(self.pairs(), path@);
            }
        }
        None
    }

    /// The certificate cached under `path`, if there is one. Where there is
    /// none the caller has to read the file and hand it to
    /// [`CertCache::resolve`].
    pub fn lookup(&self, path: &str) -> (found: Option<&Vec<u8>>)
        ensures
            match found {
                Some(der) => self@.contains_key(path@) && self@[path@] == der@,
                None => !self@.contains_key(path@),
            },
    {
        match self.position(path) {
            Some(i) => Some(&self.entries[i].der),
            None => None,
        }
    }

    /// Resolves `path` from what the PEM parser made of its file: the cached
    /// certificate if there is one, else the parsed one, which is then
    /// cached.
    pub fn store(&mut self, path: &str, parsed: Result<Vec<u8>, String>) -> (res: Result<
        Vec<u8>,
        Error,
    >)
        ensures
            final(self)@ == resolved(
                old(self)@,
                path@,
                match parsed {
                    Ok(der) => Ok(der@),
                    Err(said) => Err(said@),
                },
            ).1,
            match resolved(
                old(self)@,
                path@,
                match parsed {
                    Ok(der) => Ok(der@),
                    Err(said) => Err(said@),
                },
            ).0 {
                Ok(der) => res matches Ok(bytes) && bytes@ == der,
                Err(fault) => res matches Err(e) && e@ == fault,
            },
    {
        proof {
            use_type_invariant(&*self);
        }
        match self.position(path) {
            Some(i) => Ok(copy_bytes(&self.entries[i].der)),
            None => match parsed {
                Err(said) => Err(
                    Error::InvalidCertificate(
                        String::from_str("CA certificate \"").concat(path).concat("\": ").concat(
                            said.as_str(),
                        ),
                    ),
                ),
                Ok(der) => {
                    let bytes = copy_bytes(&der);
                    let entry = CachedCertificate { path: String::from_str(path), der };
                    let mut entries: Vec<CachedCertificate> = Vec::new();
                    proof {
                        assert(entries@.map_values(|e: CachedCertificate| (e.path@, e.der@))
                            =~= Seq::empty());
                        let before = self.pairs();
                        let after = before.push((entry.path@, entry.der@));
                        lemma_assoc_push(before, entry.path@, entry.der@);
                        assert(after =~= self.entries@.push(entry).map_values(
                            |e: CachedCertificate| (e.path@, e.der@),
                        ));
                        assert(distinct_keys(after)) by {
                            assert forall|a: int, b: int|
                                0 <= a < after.len() && 0 <= b < after.len() && a != b implies (
                            #[trigger] after[a]).0 != (#[trigger] after[b]).0 by {
                                if a < before.len() && b < before.len() {
                                    assert(before[a].0 != before[b].0);
                                } else if a < before.len() {
                                    lemma_assoc_pair_is_entry(before, a);
                                } else {
                                    lemma_assoc_pair_is_entry(before, b);
                                }
                            }
                        }
                    }
                    std::mem::swap(&mut self.entries, &mut entries);
                    entries.push(entry);
                    std::mem::swap(&mut self.entries, &mut entries);
                    Ok(bytes)
                },
            },
        }
    }

    /// Resolves `path`, whose file holds `pem`: the certificate cached under
    /// the path if there is one, else the first PEM certificate in `pem`, in
    /// DER, which is then cached under the path.
    pub fn resolve(&mut self, path: &str, pem: &[u8]) -> (res: Result<Vec<u8>, Error>)
        ensures
            final(self)@ == resolved(old(self)@, path@, certificate_der(pem@)).1,
            match resolved(old(self)@, path@, certificate_der(pem@)).0 {
                Ok(der) => res matches Ok(bytes) && bytes@ == der,
                Err(fault) => res matches Err(e) && e@ == fault,
            },
    {
        let parsed = parse_certificate(pem);
        self.store(path, parsed)
    }
}

impl View for CertCache {
    type V = Map<Seq<char>, Seq<u8>>;

    closed spec fn view(&self) -> Map<Seq<char>, Seq<u8>> {
        assoc_map(self.pairs())
    }
}

/// A copy of `bytes`.
fn copy_bytes(bytes: &Vec<u8>) -> (copy: Vec<u8>)
    ensures
        copy@ == bytes@,
{
    let mut copy: Vec<u8> = Vec::new();
    let mut i: usize = 0;
    while i < bytes.len()
        invariant
            i <= bytes.len(),
            copy@ == bytes@.take(i as int),
        decreases bytes.len() - i,
    {
        copy.push(bytes[i]);
        proof {
            assert(bytes@.take(i as int).push(bytes@[i as int]) =~= bytes@.take(i + 1));
        }
        i = i + 1;
    }
    assert(bytes@.take(bytes.len() as int) =~= bytes@);
    copy
}

} // verus!
