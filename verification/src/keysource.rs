//! The boundary to the wallet toolkit: drawing a random seed, deriving a
//! master extended private key, and parsing / canonically serializing
//! descriptors for the target network (Signet). Everything behind these
//! wrappers is computed by `bdk`; the rest of the crate works on the byte
//! strings they hand back.

use vstd::prelude::*;
use bdk::bitcoin::secp256k1::rand::RngCore;
use bdk::descriptor::IntoWalletDescriptor;

verus! {

/// What BIP-32 master-key derivation returns for a seed on Signet: `None`
/// where the derived key material is rejected, otherwise the base58 form of
/// the master extended private key. Deterministic in the seed alone.
pub uninterp spec fn master_xprv_of(seed: Seq<u8>) -> Option<Seq<u8>>;

/// What descriptor parsing and re-serialization with secret keys returns for
/// a byte string on Signet: `None` where the bytes are not a valid descriptor
/// for that network, otherwise the canonical serialized descriptor with its
/// embedded private keys. Deterministic in the bytes alone.
pub uninterp spec fn canonical_of(s: Seq<u8>) -> Option<Seq<u8>>;

/// The bytes begin with the Taproot descriptor opening `tr(`.
pub open spec fn starts_with_tr(s: Seq<u8>) -> bool {
    s.len() >= 3 && s[0] == 116 && s[1] == 114 && s[2] == 40
}

/// Relies on `rand::thread_rng` and `RngCore::fill_bytes` (reached through
/// `bdk::bitcoin::secp256k1::rand`): 32 bytes from the cryptographically
/// secure generator. Nothing is promised of their value. `thread_rng`
/// panics if the operating system's entropy source fails at its
/// first use; no input avoids or provokes that.
#[verifier::external_body]
pub(crate) fn random_seed() -> (r: Vec<u8>)
    ensures
        r@.len() == 32,
{
    let mut seed = [0u8; 32];
    bdk::bitcoin::secp256k1::rand::thread_rng().fill_bytes(&mut seed);
    seed.to_vec()
}

/// Relies on `bdk::bitcoin::bip32::ExtendedPrivKey::new_master` and the
/// base58 `Display` form of the key: the result is a function of the seed
/// (HMAC-SHA512 of it), and derivation fails only where the derived secret
/// key is out of range.
#[verifier::external_body]
pub(crate) fn master_xprv(seed: &Vec<u8>) -> (r: Option<Vec<u8>>)
    ensures
        r is Some <==> master_xprv_of(seed@) is Some,
        r is Some ==> (r->0)@ == master_xprv_of(seed@)->0,
{
    match bdk::bitcoin::bip32::ExtendedPrivKey::new_master(
        bdk::bitcoin::Network::Signet,
        seed.as_slice(),
    ) {
        Ok(key) => Some(key.to_string().into_bytes()),
        Err(_) => None,
    }
}

/// Relies on `bdk::descriptor::IntoWalletDescriptor` for `&str` (descriptor
/// parsing bound to Signet) and on miniscript's
/// `Descriptor::to_string_with_secret` (serialization with the parsed key
/// map): both are functions of the input bytes. The serialized form of an
/// accepted descriptor carries its checksum and parses back, which the
/// third clause records. An accepted input opening with `tr(` is a Taproot
/// descriptor, and its serialized form opens with `tr(` again, which the
/// last clause records.
#[verifier::external_body]
pub(crate) fn canonical_descriptor(s: &Vec<u8>) -> (r: Option<Vec<u8>>)
    ensures
        r is Some <==> canonical_of(s@) is Some,
        r is Some ==> (r->0)@ == canonical_of(s@)->0,
        r is Some ==> canonical_of(canonical_of(s@)->0) is Some,
        r is Some && starts_with_tr(s@) ==> starts_with_tr(canonical_of(s@)->0),
{
    let secp = bdk::bitcoin::secp256k1::Secp256k1::new();
    let text = match core::str::from_utf8(s.as_slice()) {
        Ok(text) => text,
        Err(_) => return None,
    };
    match text.into_wallet_descriptor(&secp, bdk::bitcoin::Network::Signet) {
        Ok((descriptor, keymap)) => Some(descriptor.to_string_with_secret(&keymap).into_bytes()),
        Err(_) => None,
    }
}

} // verus!
