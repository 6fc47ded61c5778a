//! SHA-1 of a byte stream fed in chunks, for checking a downloaded or an
//! installed model against the catalog's checksum. The reading and writing
//! of the stream stay with the caller; what was fed, how much, and the
//! verdict are decided here.
use vstd::prelude::*;

use crate::error::CommandError;
use crate::model_manager::{verify_download, verify_file_checksum};
use crate::text::decimal_of;

verus! {

/// Lowercase hex SHA-1 of `bytes` (`sha1::Sha1`, formatted with `{:x}`).
pub uninterp spec fn sha1_hex_of(bytes: Seq<u8>) -> Seq<char>;

/// A running `sha1::Sha1`. It is held opaque (Verus does not take the
/// declaration of the hasher's generic wrapper type); the bytes it has been
/// fed are named by `sha1_fed`.
#[verifier::external_body]
pub struct Sha1Stream {
    hasher: sha1::Sha1,
}

/// The bytes a `Sha1Stream` has been fed, in order.
pub uninterp spec fn sha1_fed(h: Sha1Stream) -> Seq<u8>;

impl Sha1Stream {
    /// `Sha1::new`. Claimed: nothing fed yet.
    #[verifier::external_body]
    fn new() -> (h: Sha1Stream)
        ensures
            sha1_fed(h) == Seq::<u8>::empty(),
    {
        Sha1Stream { hasher: sha1::Digest::new() }
    }

    /// `Digest::update`. Claimed: `chunk` is appended to what was fed.
    #[verifier::external_body]
    fn update(&mut self, chunk: &[u8])
        ensures
            sha1_fed(*final(self)) == sha1_fed(*old(self)) + chunk@,
    {
        sha1::Digest::update(&mut self.hasher, chunk)
    }

    /// `Digest::finalize` shown as lowercase hex. Claimed: the result is
    /// `sha1_hex_of` of what was fed, 40 hex digits for the 20-byte digest.
    #[verifier::external_body]
    fn finalize_hex(self) -> (r: String)
        ensures
            r@ == sha1_hex_of(sha1_fed(self)),
            r@.len() == 40,
    {
        format!("{:x}", sha1::Digest::finalize(self.hasher))
    }
}

/// The bytes of a model as they arrive: their SHA-1 and their count, which
/// always agree.
pub struct ModelHash {
    hash: Sha1Stream,
    bytes: u64,
}

impl ModelHash {
    #[verifier::type_invariant]
    spec fn counted(self) -> bool {
        self.bytes == sha1_fed(self.hash).len()
    }

    /// The bytes fed so far.
    pub closed spec fn fed(self) -> Seq<u8> {
        sha1_fed(self.hash)
    }

    /// Nothing fed yet.
    pub fn new() -> (h: ModelHash)
        ensures
            h.fed() == Seq::<u8>::empty(),
    {
        ModelHash { hash: Sha1Stream::new(), bytes: 0 }
    }

    /// How many bytes were fed.
    pub fn byte_count(&self) -> (n: u64)
        ensures
            n == self.fed().len(),
    {
        proof {
            use_type_invariant(self);
        }
        self.bytes
    }

    /// Feeds the next `chunk` of the stream.
    pub fn feed(&mut self, chunk: &[u8])
        requires
            old(self).fed().len() + chunk@.len() <= u64::MAX,
        ensures
            final(self).fed() == old(self).fed() + chunk@,
    {
        proof {
            use_type_invariant(&*self);
        }
        let mut taken = ModelHash::new();
        std::mem::swap(&mut taken, self);
        proof {
            use_type_invariant(&taken);
        }
        let ModelHash { mut hash, bytes } = taken;
        hash.update(chunk);
        *self = ModelHash { hash, bytes: bytes + chunk.len() as u64 };
    }

    /// The checks a finished download must pass, over what was fed: the
    /// size the server announced (`total_bytes`), then the catalog checksum
    /// against the SHA-1 of the bytes. The byte count on success.
    pub fn check_download(self, name: &str, total_bytes: Option<u64>, expected_sha1: Option<&str>) -> (r:
        Result<u64, CommandError>)
        ensures
            match total_bytes {
                Some(total) if total != self.fed().len() => r matches Err(e) && e.code@
                    == "model_download_failed"@ && e.message@ == "Downloaded size for "@ + name@
                    + " did not match the server response. Expected "@ + decimal_of(total as nat)
                    + " bytes, got "@ + decimal_of(self.fed().len()) + " bytes."@,
                _ => match expected_sha1 {
                    Some(expected) if expected@ != sha1_hex_of(self.fed()) => r matches Err(e)
                        && e.code@ == "model_checksum_mismatch"@ && e.message@ == "Downloaded "@
                        + name@ + " did not match the expected checksum. Retry the download."@,
                    _ => r == Ok::<u64, CommandError>(self.fed().len() as u64),
                },
            },
    {
        proof {
            use_type_invariant(&self);
        }
        let n = self.bytes;
        let ModelHash { hash, bytes: _ } = self;
        let actual = hash.finalize_hex();
        verify_download(name, total_bytes, n, expected_sha1, actual.as_str())?;
        Ok(n)
    }

    /// The check of an installed model file whose bytes were all fed: its
    /// SHA-1 against the catalog checksum.
    pub fn check_installed(self, name: &str, expected_sha1: Option<&str>) -> (r: Result<(), CommandError>)
        ensures
            match expected_sha1 {
                Some(expected) if expected@ != sha1_hex_of(self.fed()) => r matches Err(e) && e.code@
                    == "model_checksum_mismatch"@ && e.message@ == name@
                    + " did not match the expected checksum. Re-download the model."@,
                _ => r is Ok,
            },
    {
        let ModelHash { hash, bytes: _ } = self;
        let actual = hash.finalize_hex();
        verify_file_checksum(name, expected_sha1, actual.as_str())
    }
}

} // verus!
