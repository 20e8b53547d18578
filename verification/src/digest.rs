//! The running tally of a streamed download: how many bytes came in, checked
//! against the size limit as they come, and their SHA-256 digest. The digest
//! itself is `sha2`'s.

use vstd::prelude::*;
use sha2::Digest;
use crate::client::{check_download_limit, exceeds_limit_message, DownloadInfo};
use crate::error::Error;

verus! {

/// A `sha2::Sha256` hashing state, held opaque (the type is an alias of a
/// generic `sha2` core wrapper that cannot be declared to Verus directly).
#[verifier::external_body]
pub struct Sha256State {
    h: sha2::Sha256,
}

/// The bytes fed to a hashing state so far, in order.
pub uninterp spec fn fed_bytes(s: Sha256State) -> Seq<u8>;

/// The SHA-256 digest of `data`, written as lowercase hex.
pub uninterp spec fn sha256_hex_of(data: Seq<u8>) -> Seq<char>;

/// `Sha256::new`: a state that has been fed nothing.
#[verifier::external_body]
fn sha256_new() -> (s: Sha256State)
    ensures
        fed_bytes(s) == Seq::<u8>::empty(),
{
    Sha256State { h: sha2::Sha256::new() }
}

/// `Digest::update`: feed `data` after what the state was fed before.
#[verifier::external_body]
fn sha256_update(s: &mut Sha256State, data: &[u8])
    ensures
        fed_bytes(*final(s)) == fed_bytes(*old(s)) + data@,
{
    s.h.update(data)
}

/// `Digest::finalize`, written as lowercase hex (`{:x}`): the digest of all
/// the state was fed, named by [`sha256_hex_of`].
#[verifier::external_body]
fn sha256_finish(s: Sha256State) -> (r: String)
    ensures
        r@ == sha256_hex_of(fed_bytes(s)),
{
    format!("{:x}", s.h.finalize())
}

/// The running tally of a download: the bytes received so far, their
/// digest, and the optional size limit.
pub struct DownloadTally {
    bytes: u64,
    state: Sha256State,
    max_bytes: Option<u64>,
}

impl DownloadTally {
    /// The bytes received so far, in order.
    pub closed spec fn received(&self) -> Seq<u8> {
        fed_bytes(self.state)
    }

    /// The size limit.
    pub closed spec fn limit(&self) -> Option<u64> {
        self.max_bytes
    }

    /// The count kept is the length of what was received.
    pub closed spec fn wf(&self) -> bool {
        self.bytes == fed_bytes(self.state).len()
    }

    /// A tally of nothing received yet, under the limit `max_bytes`.
    pub fn new(max_bytes: Option<u64>) -> (t: Self)
        ensures
            t.wf(),
            t.received() == Seq::<u8>::empty(),
            t.limit() == max_bytes,
    {
        DownloadTally { bytes: 0, state: sha256_new(), max_bytes }
    }

    /// The number of bytes received so far.
    pub fn count(&self) -> (n: u64)
        requires
            self.wf(),
        ensures
            n == self.received().len(),
    {
        self.bytes
    }

    /// Take in the next chunk: a chunk that brings the total past the limit
    /// is refused with the limit's usage error; otherwise it is counted and
    /// hashed. The total must fit in a `u64`.
    pub fn add(&mut self, chunk: &[u8]) -> (r: Result<(), Error>)
        requires
            old(self).wf(),
            old(self).received().len() + chunk@.len() <= u64::MAX,
        ensures
            final(self).wf(),
            final(self).limit() == old(self).limit(),
            ({
                let total = old(self).received().len() + chunk@.len();
                match old(self).limit() {
                    Some(l) => if total > l {
                        (r matches Err(Error::Usage(m)) && m@ == exceeds_limit_message(l))
                            && final(self).received() == old(self).received()
                    } else {
                        r is Ok && final(self).received() == old(self).received() + chunk@
                    },
                    None => r is Ok && final(self).received() == old(self).received() + chunk@,
                }
            }),
    {
        let total = self.bytes + chunk.len() as u64;
        match check_download_limit(total, self.max_bytes) {
            Err(e) => Err(e),
            Ok(()) => {
                sha256_update(&mut self.state, chunk);
                self.bytes = total;
                Ok(())
            },
        }
    }

    /// The size and digest of everything received.
    pub fn finish(self) -> (info: DownloadInfo)
        requires
            self.wf(),
        ensures
            info.bytes == self.received().len(),
            info.sha256@ == sha256_hex_of(self.received()),
    {
        let bytes = self.bytes;
        DownloadInfo { bytes, sha256: sha256_finish(self.state) }
    }
}

} // verus!
