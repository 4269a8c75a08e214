//! Provisioning flows with the real wallet toolkit linked: creation from a
//! seed, persistence round trips, determinism, and rejection of corrupted
//! or foreign-network records.

use bdk::bitcoin::bip32::ExtendedPrivKey;
use bdk::bitcoin::Network;
use descriptor_provisioner::provision::{
    create_from_seed, load_from_record, provision, DescriptorPair, Provisioned,
};
use descriptor_provisioner::record::ProvisionError;

fn created(seed: [u8; 32]) -> (DescriptorPair, Vec<u8>) {
    match create_from_seed(&seed.to_vec()).unwrap() {
        Provisioned::Created { pair, record } => (pair, record),
        Provisioned::Loaded { .. } => panic!("creation must report a created pair"),
    }
}

#[test]
fn create_then_load_round_trip() {
    let (pair, record) = created([7u8; 32]);
    let loaded = load_from_record(&record).unwrap();
    assert_eq!(loaded.external, pair.external);
    assert_eq!(loaded.internal, pair.internal);
}

#[test]
fn creation_is_deterministic_in_the_seed() {
    let (first, record_a) = created([42u8; 32]);
    let (second, record_b) = created([42u8; 32]);
    assert_eq!(first, second);
    assert_eq!(record_a, record_b);
}

#[test]
fn different_seeds_differ() {
    let (first, _) = created([1u8; 32]);
    let (second, _) = created([2u8; 32]);
    assert_ne!(first.external, second.external);
}

#[test]
fn first_run_creates_a_taproot_pair() {
    let outcome = provision(None).unwrap();
    let (pair, record) = match outcome {
        Provisioned::Created { pair, record } => (pair, record),
        Provisioned::Loaded { .. } => panic!("a first run must create the pair"),
    };
    assert_eq!(record.iter().filter(|b| **b == b'|').count(), 1);
    assert!(pair.external.starts_with(b"tr("));
    assert!(pair.internal.starts_with(b"tr("));
    let window = |hay: &[u8], needle: &[u8]| hay.windows(needle.len()).any(|w| w == needle);
    assert!(window(&pair.external, b"tprv"));
    assert!(window(&pair.internal, b"tprv"));
    assert!(window(&pair.external, b"/86'/1'/0'/0/0"));
    assert!(window(&pair.internal, b"/86'/1'/0'/0/1"));
    assert!(window(&pair.external, b"#"));
}

#[test]
fn second_run_loads_the_same_pair() {
    let (pair, record) = created([11u8; 32]);
    for _ in 0..2 {
        match provision(Some(&record)).unwrap() {
            Provisioned::Loaded { pair: loaded } => {
                assert_eq!(loaded, pair);
            }
            Provisioned::Created { .. } => panic!("an existing record must be loaded, not rewritten"),
        }
    }
}

#[test]
fn corrupted_record_fails_with_format_error() {
    assert_eq!(
        provision(Some(&b"abc".to_vec())),
        Err(ProvisionError::ConfigFormat)
    );
}

#[test]
fn invalid_descriptors_fail_with_parse_error() {
    assert_eq!(
        load_from_record(&b"abc|def".to_vec()),
        Err(ProvisionError::DescriptorParse)
    );
}

#[test]
fn foreign_network_descriptors_are_rejected() {
    let key = ExtendedPrivKey::new_master(Network::Bitcoin, &[9u8; 32])
        .unwrap()
        .to_string();
    let record = format!("tr({key}/86'/1'/0'/0/0)|tr({key}/86'/1'/0'/0/1)").into_bytes();
    assert_eq!(
        load_from_record(&record),
        Err(ProvisionError::DescriptorParse)
    );
}

// The expected pair for the all-zero seed, derived once and pinned: the
// BIP-86-style single-key Taproot descriptors over the master key, external
// branch first.
#[test]
fn derivation_known_answer() {
    let (_, record) = created([0u8; 32]);
    let key = "tprv8ZgxMBicQKsPe2MzCEmfUKuUyaerdtY5tR54SKCw3jKsmrjXixa4NFZTqjDvntbEnZPBL861gQ1FNQCDGaCBEpH7iZNWUHqexCgDRha6qRu";
    let expected = format!(
        "tr({key}/86'/1'/0'/0/0)#9882lpfw|tr({key}/86'/1'/0'/0/1)#rt0xe770"
    );
    assert_eq!(String::from_utf8(record).unwrap(), expected);
}
