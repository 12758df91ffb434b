//! A hasher for `u64` keys that are already well distributed.
use vstd::prelude::*;

verus! {

/// No-op hasher that returns the last `u64` value submitted as the hash.
///
/// It takes `u64` values only; feeding it raw bytes is a misuse, which the
/// `std::hash::Hasher` impl that app/ gives its copy of this type reports by
/// panicking.
#[derive(Default, Clone, Copy)]
pub struct IdentityHash(pub u64);

impl IdentityHash {
    /// The hash: the last `u64` written, or 0 when nothing was written yet.
    pub fn finish(&self) -> (hash: u64)
        ensures
            hash == self.0,
    {
        self.0
    }

    /// Submit a `u64`; it replaces whatever was submitted before.
    pub fn write_u64(&mut self, i: u64)
        ensures
            final(self).0 == i,
    {
        self.0 = i;
    }

    /// A fresh hasher in the same state as this one.
    pub fn build_hasher(&self) -> (hasher: IdentityHash)
        ensures
            hasher.0 == self.0,
    {
        *self
    }
}

} // verus!
