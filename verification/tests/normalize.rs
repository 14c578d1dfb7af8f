use clevis_pin_tpm2::config::{
    Normalization, TPM2Config, DEFAULT_PCR_BANK, DEFAULT_POLICY_PATH, DEFAULT_POLICY_REF,
    DEFAULT_PUBKEY_PATH,
};
use clevis_pin_tpm2::error::{ConfigError, Warning};
use clevis_pin_tpm2::pcr_ids::{PcrIds, PcrIdsEntry};

fn empty_config() -> TPM2Config {
    TPM2Config {
        hash: None,
        key: None,
        pcr_bank: None,
        pcr_ids: None,
        pcr_digest: None,
        use_policy: None,
        policy_pubkey_path: None,
        policy_ref: None,
        policy_path: None,
    }
}

fn with_ids(ids: PcrIds) -> TPM2Config {
    let mut config = empty_config();
    config.pcr_ids = Some(ids);
    config
}

fn index_list(ids: &[u64]) -> PcrIds {
    PcrIds::List(ids.iter().map(|id| PcrIdsEntry::Integer(*id as i128)).collect())
}

fn text_entry(value: &str) -> PcrIdsEntry {
    PcrIdsEntry::Text(value.to_string())
}

fn some(value: &str) -> Option<String> {
    Some(value.to_string())
}

#[test]
fn defaults_have_their_fixed_values() {
    assert_eq!(DEFAULT_POLICY_PATH, "/boot/clevis_policy.json");
    assert_eq!(DEFAULT_PUBKEY_PATH, "/boot/clevis_pubkey.json");
    assert_eq!(DEFAULT_POLICY_REF, "");
    assert_eq!(DEFAULT_PCR_BANK, "sha256");
}

#[test]
fn empty_config_is_already_normal() {
    let out = empty_config().normalize();
    assert_eq!(out, Normalization { warning: None, result: Ok(empty_config()) });
}

#[test]
fn text_of_indices_becomes_index_list() {
    let out = with_ids(PcrIds::Text("1, 7,12".to_string())).normalize();
    assert_eq!(out.warning, None);
    let config = out.result.unwrap();
    assert_eq!(config.pcr_ids, Some(index_list(&[1, 7, 12])));
}

#[test]
fn every_shape_of_indices_gives_the_same_config() {
    let shapes = vec![
        PcrIds::Text("1,7".to_string()),
        PcrIds::List(vec![text_entry("1"), text_entry("7")]),
        PcrIds::List(vec![PcrIdsEntry::Integer(1), PcrIdsEntry::Integer(7)]),
        PcrIds::List(vec![text_entry("1,7")]),
    ];
    for shape in shapes {
        let config = with_ids(shape).normalize().result.unwrap();
        assert_eq!(config.pcr_ids, Some(index_list(&[1, 7])));
        assert_eq!(config.pcr_bank, some("sha256"));
    }
}

#[test]
fn bank_defaults_to_sha256_when_indices_are_given() {
    let config = with_ids(index_list(&[3])).normalize().result.unwrap();
    assert_eq!(config.pcr_bank, some("sha256"));
    assert_eq!(config.pcr_ids, Some(index_list(&[3])));
}

#[test]
fn bank_stays_absent_without_indices() {
    let config = empty_config().normalize().result.unwrap();
    assert_eq!(config.pcr_bank, None);
}

#[test]
fn named_bank_is_kept() {
    let mut config = with_ids(index_list(&[3]));
    config.pcr_bank = some("sha1");
    let config = config.normalize().result.unwrap();
    assert_eq!(config.pcr_bank, some("sha1"));

    let mut config = empty_config();
    config.pcr_bank = some("sha384");
    let config = config.normalize().result.unwrap();
    assert_eq!(config.pcr_bank, some("sha384"));
}

#[test]
fn bank_defaults_for_an_empty_list_too() {
    let config = with_ids(PcrIds::List(vec![])).normalize().result.unwrap();
    assert_eq!(config.pcr_ids, Some(PcrIds::List(vec![])));
    assert_eq!(config.pcr_bank, some("sha256"));
}

#[test]
fn use_policy_fills_in_all_three_defaults() {
    let mut config = empty_config();
    config.use_policy = Some(true);
    let out = config.normalize();
    assert_eq!(out.warning, None);
    let config = out.result.unwrap();
    assert_eq!(config.policy_path, some("/boot/clevis_policy.json"));
    assert_eq!(config.policy_pubkey_path, some("/boot/clevis_pubkey.json"));
    assert_eq!(config.policy_ref, some(""));
    assert_eq!(config.use_policy, Some(true));
}

#[test]
fn use_policy_keeps_what_is_given() {
    let mut config = empty_config();
    config.use_policy = Some(true);
    config.policy_pubkey_path = some("/keys/pub.json");
    let out = config.normalize();
    assert_eq!(out.warning, None);
    let config = out.result.unwrap();
    assert_eq!(config.policy_path, some("/boot/clevis_policy.json"));
    assert_eq!(config.policy_pubkey_path, some("/keys/pub.json"));
    assert_eq!(config.policy_ref, some(""));

    let mut config = empty_config();
    config.use_policy = Some(true);
    config.policy_path = some("/p.json");
    config.policy_ref = some("ref");
    let config = config.normalize().result.unwrap();
    assert_eq!(config.policy_path, some("/p.json"));
    assert_eq!(config.policy_pubkey_path, some("/boot/clevis_pubkey.json"));
    assert_eq!(config.policy_ref, some("ref"));
}

#[test]
fn one_policy_field_alone_is_rejected() {
    let mut config = empty_config();
    config.policy_pubkey_path = some("/keys/pub.json");
    let out = config.normalize();
    assert_eq!(out.result, Err(ConfigError::PartialPolicy));
    assert_eq!(out.warning, Some(Warning::UsePolicyNotSet));

    let mut config = empty_config();
    config.policy_path = some("/p.json");
    assert_eq!(config.normalize().result, Err(ConfigError::PartialPolicy));

    let mut config = empty_config();
    config.policy_ref = some("");
    assert_eq!(config.normalize().result, Err(ConfigError::PartialPolicy));
}

#[test]
fn two_policy_fields_are_rejected() {
    let mut config = empty_config();
    config.policy_pubkey_path = some("/keys/pub.json");
    config.policy_ref = some("ref");
    let out = config.normalize();
    assert_eq!(out.result, Err(ConfigError::PartialPolicy));
    assert_eq!(out.warning, Some(Warning::UsePolicyNotSet));
}

#[test]
fn partial_policy_is_rejected_when_use_policy_is_false() {
    let mut config = empty_config();
    config.use_policy = Some(false);
    config.policy_path = some("/p.json");
    let out = config.normalize();
    assert_eq!(out.result, Err(ConfigError::PartialPolicy));
    assert_eq!(out.warning, Some(Warning::UsePolicyNotSet));
}

#[test]
fn use_policy_false_without_fields_is_silent() {
    let mut config = empty_config();
    config.use_policy = Some(false);
    let out = config.normalize();
    assert_eq!(out.warning, None);
    let config = out.result.unwrap();
    assert_eq!(config.policy_path, None);
    assert_eq!(config.policy_pubkey_path, None);
    assert_eq!(config.policy_ref, None);
    assert_eq!(config.use_policy, Some(false));
}

#[test]
fn all_policy_fields_without_use_policy_warn_and_pass() {
    let mut config = empty_config();
    config.policy_pubkey_path = some("/keys/pub.json");
    config.policy_path = some("/p.json");
    config.policy_ref = some("ref");
    let out = config.normalize();
    assert_eq!(out.warning, Some(Warning::UsePolicyNotSet));
    let config = out.result.unwrap();
    assert_eq!(config.policy_pubkey_path, some("/keys/pub.json"));
    assert_eq!(config.policy_path, some("/p.json"));
    assert_eq!(config.policy_ref, some("ref"));
    assert_eq!(config.use_policy, None);
}

#[test]
fn rejected_indices_come_before_policy_fields() {
    let mut config = with_ids(PcrIds::Text("x".to_string()));
    config.policy_path = some("/p.json");
    let out = config.normalize();
    assert_eq!(out.result, Err(ConfigError::UnparseableStringInt));
    assert_eq!(out.warning, None);
}

#[test]
fn malformed_indices_are_rejected() {
    let rejected = vec![
        (PcrIds::List(vec![PcrIdsEntry::Integer(-1)]), ConfigError::NonPositiveInt),
        (PcrIds::List(vec![PcrIdsEntry::Float]), ConfigError::NonPositiveInt),
        (PcrIds::Text("-1".to_string()), ConfigError::NonPositiveStringInt),
        (PcrIds::List(vec![text_entry("-1"), text_entry("2")]), ConfigError::NonPositiveStringInt),
        (PcrIds::Text("one".to_string()), ConfigError::UnparseableStringInt),
        (PcrIds::List(vec![text_entry("1"), text_entry("two")]), ConfigError::UnparseableStringInt),
        (PcrIds::List(vec![PcrIdsEntry::Other]), ConfigError::InvalidValue),
        (PcrIds::Other, ConfigError::InvalidType),
    ];
    for (ids, error) in rejected {
        let out = with_ids(ids).normalize();
        assert_eq!(out.result, Err(error));
        assert_eq!(out.warning, None);
    }
}

#[test]
fn other_fields_are_carried_along() {
    let mut config = with_ids(PcrIds::Text("7".to_string()));
    config.hash = some("sha1");
    config.key = some("ecc");
    config.pcr_digest = some("abcdef");
    let config = config.normalize().result.unwrap();
    assert_eq!(config.hash, some("sha1"));
    assert_eq!(config.key, some("ecc"));
    assert_eq!(config.pcr_digest, some("abcdef"));
    assert_eq!(config.pcr_ids, Some(index_list(&[7])));
}

#[test]
fn normalizing_a_normal_config_changes_nothing() {
    let mut config = with_ids(PcrIds::Text(" 7, 1".to_string()));
    config.use_policy = Some(true);
    config.policy_ref = some("ref");
    config.hash = some("sha1");
    let once = config.normalize().result.unwrap();
    let expected = TPM2Config {
        hash: some("sha1"),
        key: None,
        pcr_bank: some("sha256"),
        pcr_ids: Some(index_list(&[7, 1])),
        pcr_digest: None,
        use_policy: Some(true),
        policy_pubkey_path: some("/boot/clevis_pubkey.json"),
        policy_ref: some("ref"),
        policy_path: some("/boot/clevis_policy.json"),
    };
    assert_eq!(once, expected);
    let twice = once.normalize();
    assert_eq!(twice, Normalization { warning: None, result: Ok(expected) });
}

#[test]
fn normalize_pcr_ids_touches_only_the_indices() {
    let mut config = with_ids(PcrIds::Text("1, 7".to_string()));
    config.policy_path = some("/p.json");
    assert_eq!(config.normalize_pcr_ids(), Ok(()));
    assert_eq!(config.pcr_ids, Some(index_list(&[1, 7])));
    assert_eq!(config.pcr_bank, None);
    assert_eq!(config.policy_path, some("/p.json"));

    let mut config = empty_config();
    assert_eq!(config.normalize_pcr_ids(), Ok(()));
    assert_eq!(config, empty_config());
}

#[test]
fn normalize_pcr_ids_leaves_a_rejected_text_split() {
    let mut config = with_ids(PcrIds::Text("1, x".to_string()));
    assert_eq!(config.normalize_pcr_ids(), Err(ConfigError::UnparseableStringInt));
    assert_eq!(config.pcr_ids, Some(PcrIds::List(vec![text_entry("1"), text_entry("x")])));

    let mut config = with_ids(PcrIds::Other);
    assert_eq!(config.normalize_pcr_ids(), Err(ConfigError::InvalidType));
    assert_eq!(config.pcr_ids, Some(PcrIds::Other));
}

#[test]
fn getters_of_a_normal_config() {
    let mut config = with_ids(PcrIds::Text("12, 1,7".to_string()));
    config.hash = some("sha512");
    let config = config.normalize().result.unwrap();
    assert!(config.has_canonical_pcr_ids());
    assert_eq!(config.get_pcr_ids(), Some(vec![12, 1, 7]));
    assert_eq!(config.get_pcr_ids_str(), some("12,1,7"));
    assert_eq!(config.get_pcr_hash_alg(), Some(&"sha256".to_string()));
    assert_eq!(config.get_name_hash_alg(), Some(&"sha512".to_string()));
}

#[test]
fn getters_without_indices() {
    let config = empty_config();
    assert!(config.has_canonical_pcr_ids());
    assert_eq!(config.get_pcr_ids(), None);
    assert_eq!(config.get_pcr_ids_str(), None);
    assert_eq!(config.get_pcr_hash_alg(), None);
    assert_eq!(config.get_name_hash_alg(), None);
}

#[test]
fn getters_of_an_empty_index_list() {
    let config = with_ids(PcrIds::List(vec![]));
    assert!(config.has_canonical_pcr_ids());
    assert_eq!(config.get_pcr_ids(), Some(vec![]));
    assert_eq!(config.get_pcr_ids_str(), some(""));
}

#[test]
fn indices_that_are_not_canonical_are_told() {
    assert!(!with_ids(PcrIds::Text("1".to_string())).has_canonical_pcr_ids());
    assert!(!with_ids(PcrIds::List(vec![text_entry("1")])).has_canonical_pcr_ids());
    assert!(!with_ids(PcrIds::List(vec![PcrIdsEntry::Integer(-1)])).has_canonical_pcr_ids());
    assert!(!with_ids(PcrIds::Other).has_canonical_pcr_ids());
}

#[test]
fn error_messages() {
    assert_eq!(ConfigError::UnparseableStringInt.message(), "Unparseable string int");
    assert_eq!(ConfigError::NonPositiveStringInt.message(), "Non-positive string int");
    assert_eq!(ConfigError::NonPositiveInt.message(), "Non-positive int");
    assert_eq!(ConfigError::InvalidValue.message(), "Invalid value in pcr_ids");
    assert_eq!(ConfigError::InvalidType.message(), "Invalid type");
    assert_eq!(
        ConfigError::PartialPolicy.message(),
        "Not all of policy pubkey, path and ref are specified"
    );
}

#[test]
fn warning_message() {
    assert_eq!(
        Warning::UsePolicyNotSet.message(),
        "To use a policy, please specifiy use_policy: true. Not specifying this will be a fatal error in a next release"
    );
}
