//! Key material that is wiped when it is dropped.

use vstd::prelude::*;

verus! {

/// Bytes in a `zeroize::Zeroizing`, which wipes them when it is dropped.
#[verifier::external_body]
pub struct Secret {
    bytes: zeroize::Zeroizing<Vec<u8>>,
}

/// The bytes that a secret holds.
pub uninterp spec fn secret_bytes(s: Secret) -> Seq<u8>;

impl View for Secret {
    type V = Seq<u8>;

    open spec fn view(&self) -> Seq<u8> {
        secret_bytes(*self)
    }
}

impl Secret {
    /// `zeroize::Zeroizing::new` holds the bytes that it is given.
    #[verifier::external_body]
    pub(crate) fn new(bytes: &[u8]) -> (r: Secret)
        ensures
            secret_bytes(r) == bytes@,
    {
        Secret { bytes: zeroize::Zeroizing::new(bytes.to_vec()) }
    }

    /// `Deref` on `zeroize::Zeroizing` gives the bytes that it holds.
    #[verifier::external_body]
    pub(crate) fn bytes(&self) -> (r: &[u8])
        ensures
            r@ == secret_bytes(*self),
    {
        self.bytes.as_slice()
    }
}

} // verus!
