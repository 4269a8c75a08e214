//! The descriptor provisioner: load a descriptor pair from an existing
//! configuration record, or derive a fresh pair from a random seed and hand
//! back the record to persist. The pair is always produced or loaded
//! together, external first.

use vstd::prelude::*;
use crate::record::{
    DELIM, ProvisionError, well_formed_record, record_parts,
    encode_record, parse_record, has_delim, lemma_record_parts_unique,
};
use crate::keysource::{
    master_xprv_of, canonical_of, starts_with_tr, master_xprv, canonical_descriptor, random_seed,
};

verus! {

/// A serialized descriptor pair: the receive branch and the change branch,
/// each with its embedded private key material.
#[derive(Debug, PartialEq, Eq)]
pub struct DescriptorPair {
    pub external: Vec<u8>,
    pub internal: Vec<u8>,
}

/// The outcome of a provisioning run. Only a `Created` outcome carries a
/// record to write; a `Loaded` one must leave the file untouched.
#[derive(Debug, PartialEq, Eq)]
pub enum Provisioned {
    Loaded { pair: DescriptorPair },
    Created { pair: DescriptorPair, record: Vec<u8> },
}

/// The opening of a Taproot descriptor, the ASCII codes of `tr(`.
pub open spec fn tr_open() -> Seq<u8> {
    seq![116u8, 114u8, 40u8]
}

/// The fixed derivation path suffix and closing parenthesis: the ASCII codes
/// of `/86'/1'/0'/0/0)` for the external branch and `/86'/1'/0'/0/1)` for
/// the internal one.
pub open spec fn path_tail(internal: bool) -> Seq<u8> {
    seq![
        47u8, 56u8, 54u8, 39u8, 47u8, 49u8, 39u8, 47u8, 48u8, 39u8, 47u8, 48u8, 47u8,
        if internal { 49u8 } else { 48u8 },
        41u8,
    ]
}

/// The raw single-key Taproot descriptor over an extended private key:
/// `tr(<xprv>/86'/1'/0'/0/<branch>)`.
pub open spec fn raw_descriptor_spec(xprv: Seq<u8>, internal: bool) -> Seq<u8> {
    tr_open() + xprv + path_tail(internal)
}

/// The master key the seed derives, where derivation accepts it.
pub open spec fn seed_xprv(seed: Seq<u8>) -> Seq<u8> {
    master_xprv_of(seed)->0
}

/// The raw descriptor of the external (receive) branch for a seed.
pub open spec fn external_raw(seed: Seq<u8>) -> Seq<u8> {
    raw_descriptor_spec(seed_xprv(seed), false)
}

/// The raw descriptor of the internal (change) branch for a seed.
pub open spec fn internal_raw(seed: Seq<u8>) -> Seq<u8> {
    raw_descriptor_spec(seed_xprv(seed), true)
}

/// The bytes are a valid descriptor for the target network.
pub open spec fn descriptor_ok(s: Seq<u8>) -> bool {
    canonical_of(s) is Some
}

/// The canonical external descriptor derived from a seed.
pub open spec fn external_descriptor_of(seed: Seq<u8>) -> Seq<u8> {
    canonical_of(external_raw(seed))->0
}

/// The canonical internal descriptor derived from a seed.
pub open spec fn internal_descriptor_of(seed: Seq<u8>) -> Seq<u8> {
    canonical_of(internal_raw(seed))->0
}

/// A descriptor string that the record format can carry: non-empty and free
/// of the field delimiter.
pub open spec fn usable_field(s: Seq<u8>) -> bool {
    s.len() > 0 && !s.contains(DELIM)
}

/// Creation succeeds for a seed: the master key derives, both raw
/// descriptors are accepted, and the canonical forms parse back and fit the
/// record format.
pub open spec fn create_ok(seed: Seq<u8>) -> bool {
    &&& master_xprv_of(seed) is Some
    &&& canonical_of(external_raw(seed)) is Some
    &&& canonical_of(internal_raw(seed)) is Some
    &&& descriptor_ok(external_descriptor_of(seed))
    &&& descriptor_ok(internal_descriptor_of(seed))
    &&& usable_field(external_descriptor_of(seed))
    &&& usable_field(internal_descriptor_of(seed))
}

/// The error a failed creation reports for a seed.
pub open spec fn create_err(seed: Seq<u8>) -> ProvisionError {
    if master_xprv_of(seed) is None {
        ProvisionError::KeyDerivation
    } else {
        ProvisionError::DescriptorParse
    }
}

/// Both fields of a well-formed record are valid descriptors.
pub open spec fn parts_ok(s: Seq<u8>) -> bool {
    descriptor_ok(record_parts(s).0) && descriptor_ok(record_parts(s).1)
}

/// Loading succeeds for a record: it is well formed and its fields parse.
pub open spec fn load_ok(s: Seq<u8>) -> bool {
    well_formed_record(s) && parts_ok(s)
}

/// The error a failed load reports: the format error where the record does
/// not split, else the parse error for an invalid field.
pub open spec fn load_err(s: Seq<u8>) -> ProvisionError {
    if !well_formed_record(s) {
        ProvisionError::ConfigFormat
    } else {
        ProvisionError::DescriptorParse
    }
}

/// A raw descriptor opens with `tr(` by construction.
proof fn lemma_raw_starts_with_tr(xprv: Seq<u8>, internal: bool)
    ensures
        starts_with_tr(raw_descriptor_spec(xprv, internal)),
{
    let s = raw_descriptor_spec(xprv, internal);
    assert(s[0] == tr_open()[0]);
    assert(s[1] == tr_open()[1]);
    assert(s[2] == tr_open()[2]);
}

/// Build the raw single-key Taproot descriptor for one branch over a master
/// key: `tr(<xprv>/86'/1'/0'/0/0)` or `tr(<xprv>/86'/1'/0'/0/1)`.
pub fn build_raw_descriptor(xprv: &Vec<u8>, internal: bool) -> (r: Vec<u8>)
    ensures
        r@ == raw_descriptor_spec(xprv@, internal),
{
    let mut r: Vec<u8> = Vec::new();
    r.push(116);
    r.push(114);
    r.push(40);
    proof {
        assert(r@ =~= tr_open() + xprv@.subrange(0, 0));
    }
    let mut k: usize = 0;
    while k < xprv.len()
        invariant
            k <= xprv.len(),
            r@ == tr_open() + xprv@.subrange(0, k as int),
        decreases xprv.len() - k,
    {
        r.push(xprv[k]);
        proof {
            assert(r@ =~= tr_open() + xprv@.subrange(0, k + 1));
        }
        k = k + 1;
    }
    proof {
        assert(r@ =~= tr_open() + xprv@);
    }
    r.push(47);
    r.push(56);
    r.push(54);
    r.push(39);
    r.push(47);
    r.push(49);
    r.push(39);
    r.push(47);
    r.push(48);
    r.push(39);
    r.push(47);
    r.push(48);
    r.push(47);
    if internal {
        r.push(49);
    } else {
        r.push(48);
    }
    r.push(41);
    proof {
        assert(r@ =~= raw_descriptor_spec(xprv@, internal));
    }
    r
}

/// Derive a fresh descriptor pair from a 32-byte seed and encode the record
/// that persists it. On success the record splits back into exactly the two
/// descriptors of the pair, and both reload as valid descriptors.
pub fn create_from_seed(seed: &Vec<u8>) -> (r: Result<Provisioned, ProvisionError>)
    requires
        seed@.len() == 32,
    ensures
        match r {
            Ok(p) => {
                &&& create_ok(seed@)
                &&& p matches Provisioned::Created { pair, record }
                &&& pair.external@ == external_descriptor_of(seed@)
                &&& pair.internal@ == internal_descriptor_of(seed@)
                &&& record@ == external_descriptor_of(seed@) + seq![DELIM]
                    + internal_descriptor_of(seed@)
                &&& well_formed_record(record@)
                &&& record_parts(record@)
                    == (external_descriptor_of(seed@), internal_descriptor_of(seed@))
                &&& starts_with_tr(external_descriptor_of(seed@))
                &&& starts_with_tr(internal_descriptor_of(seed@))
            },
            Err(e) => {
                &&& !create_ok(seed@)
                &&& e == create_err(seed@)
            },
        },
{
    let xprv = match master_xprv(seed) {
        Some(xprv) => xprv,
        None => {
            return Err(ProvisionError::KeyDerivation);
        },
    };
    let raw_external = build_raw_descriptor(&xprv, false);
    let raw_internal = build_raw_descriptor(&xprv, true);
    proof {
        lemma_raw_starts_with_tr(xprv@, false);
        lemma_raw_starts_with_tr(xprv@, true);
    }
    let external = match canonical_descriptor(&raw_external) {
        Some(d) => d,
        None => {
            return Err(ProvisionError::DescriptorParse);
        },
    };
    let internal = match canonical_descriptor(&raw_internal) {
        Some(d) => d,
        None => {
            return Err(ProvisionError::DescriptorParse);
        },
    };
    if external.len() == 0 || has_delim(&external) || internal.len() == 0 || has_delim(&internal)
    {
        return Err(ProvisionError::DescriptorParse);
    }
    let record = encode_record(&external, &internal);
    proof {
        lemma_record_parts_unique(record@, external@, internal@);
    }
    Ok(Provisioned::Created { pair: DescriptorPair { external, internal }, record })
}

/// Load the descriptor pair from an existing configuration record. The pair
/// comes back exactly as stored; failure reports the format error where the
/// record does not split into two non-empty fields, and the parse error
/// where a field is not a valid descriptor.
pub fn load_from_record(content: &Vec<u8>) -> (r: Result<DescriptorPair, ProvisionError>)
    ensures
        match r {
            Ok(pair) => {
                &&& load_ok(content@)
                &&& pair.external@ == record_parts(content@).0
                &&& pair.internal@ == record_parts(content@).1
            },
            Err(e) => {
                &&& !load_ok(content@)
                &&& e == load_err(content@)
            },
        },
{
    let (external, internal) = match parse_record(content) {
        Ok(p) => p,
        Err(e) => {
            return Err(e);
        },
    };
    match canonical_descriptor(&external) {
        Some(_) => {},
        None => {
            return Err(ProvisionError::DescriptorParse);
        },
    }
    match canonical_descriptor(&internal) {
        Some(_) => {},
        None => {
            return Err(ProvisionError::DescriptorParse);
        },
    }
    Ok(DescriptorPair { external, internal })
}

/// Provision the descriptor pair: load it from the configuration record
/// where one exists, otherwise derive a fresh pair from a random 32-byte
/// seed. An existing record is only ever loaded, never rewritten.
pub fn provision(existing: Option<&Vec<u8>>) -> (r: Result<Provisioned, ProvisionError>)
    ensures
        match existing {
            Some(content) => match r {
                Ok(p) => {
                    &&& p matches Provisioned::Loaded { pair }
                    &&& load_ok(content@)
                    &&& pair.external@ == record_parts(content@).0
                    &&& pair.internal@ == record_parts(content@).1
                },
                Err(e) => {
                    &&& !load_ok(content@)
                    &&& e == load_err(content@)
                },
            },
            None => match r {
                Ok(p) => {
                    &&& p matches Provisioned::Created { pair, record }
                    &&& starts_with_tr(pair.external@)
                    &&& starts_with_tr(pair.internal@)
                    &&& exists|seed: Seq<u8>|
                        {
                            &&& #[trigger] create_ok(seed)
                            &&& seed.len() == 32
                            &&& pair.external@ == external_descriptor_of(seed)
                            &&& pair.internal@ == internal_descriptor_of(seed)
                            &&& record@ == external_descriptor_of(seed) + seq![DELIM]
                                + internal_descriptor_of(seed)
                        }
                },
                Err(e) => exists|seed: Seq<u8>|
                    {
                        &&& seed.len() == 32
                        &&& !create_ok(seed)
                        &&& e == #[trigger] create_err(seed)
                    },
            },
        },
{
    match existing {
        Some(content) => match load_from_record(content) {
            Ok(pair) => Ok(Provisioned::Loaded { pair }),
            Err(e) => Err(e),
        },
        None => {
            let seed = random_seed();
            let r = create_from_seed(&seed);
            proof {
                // The drawn seed is the witness for the postcondition.
                if r is Ok {
                    assert(create_ok(seed@));
                } else {
                    assert(r matches Err(e) && e == create_err(seed@));
                }
            }
            r
        },
    }
}

/// Law (round trip): a record joining two non-empty, delimiter-free, valid
/// descriptor fields loads back to exactly those fields.
pub proof fn lemma_round_trip(external: Seq<u8>, internal: Seq<u8>)
    ensures
        (usable_field(external) && usable_field(internal) && descriptor_ok(external)
            && descriptor_ok(internal)) ==> {
            &&& load_ok(external + seq![DELIM] + internal)
            &&& record_parts(external + seq![DELIM] + internal) == (external, internal)
        },
{
    if usable_field(external) && usable_field(internal) && descriptor_ok(external)
        && descriptor_ok(internal) {
        lemma_record_parts_unique(external + seq![DELIM] + internal, external, internal);
    }
}

/// Law (round trip after creation): the record written by a successful
/// creation loads back to the created pair, byte for byte. A second run
/// over that record therefore returns the same pair and writes nothing.
pub proof fn lemma_create_load_round_trip(seed: Seq<u8>)
    ensures
        create_ok(seed) ==> {
            let rec = external_descriptor_of(seed) + seq![DELIM] + internal_descriptor_of(seed);
            &&& load_ok(rec)
            &&& record_parts(rec) == (external_descriptor_of(seed), internal_descriptor_of(seed))
        },
{
    if create_ok(seed) {
        lemma_round_trip(external_descriptor_of(seed), internal_descriptor_of(seed));
    }
}

/// Law (determinism): what creation derives is a function of the seed
/// alone; equal seeds give equal descriptors, outcomes and errors.
pub proof fn lemma_derivation_deterministic(seed1: Seq<u8>, seed2: Seq<u8>)
    ensures
        seed1 == seed2 ==> {
            &&& create_ok(seed1) == create_ok(seed2)
            &&& external_descriptor_of(seed1) == external_descriptor_of(seed2)
            &&& internal_descriptor_of(seed1) == internal_descriptor_of(seed2)
            &&& create_err(seed1) == create_err(seed2)
        },
{
}

/// Law (format invariant): content that does not split into exactly two
/// non-empty fields on the delimiter always loads with the format error.
pub proof fn lemma_format_invariant(content: Seq<u8>)
    ensures
        !well_formed_record(content) ==> {
            &&& !load_ok(content)
            &&& load_err(content) == ProvisionError::ConfigFormat
        },
{
}

} // verus!
