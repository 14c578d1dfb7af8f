//! The configuration of an unlock policy and its normalisation.

use crate::error::{ConfigError, Warning};
use crate::pcr_ids::{PcrIds, PcrIdsView};
use crate::text::{comma_joined, join_decimal};
use vstd::prelude::*;

verus! {

/// Where the policy is stored when `use_policy` asks for it and names no path.
pub const DEFAULT_POLICY_PATH: &'static str = "/boot/clevis_policy.json";

/// Where the public key is looked for when `use_policy` asks for a policy and
/// names no key.
pub const DEFAULT_PUBKEY_PATH: &'static str = "/boot/clevis_pubkey.json";

/// The policy reference when `use_policy` asks for a policy and names none.
pub const DEFAULT_POLICY_REF: &'static str = "";

/// The PCR bank when PCR indices are given and no bank is named.
pub const DEFAULT_PCR_BANK: &'static str = "sha256";

/// The conditions under which a secret is to be unlocked, as the user
/// describes them.
#[derive(Debug, PartialEq, Eq)]
pub struct TPM2Config {
    /// The hash algorithm for name-hierarchy operations, by name.
    pub hash: Option<String>,
    /// Carried along; not read here.
    pub key: Option<String>,
    /// The hash algorithm of the PCR bank to read, by name.
    pub pcr_bank: Option<String>,
    /// The PCR indices to match, in any of the accepted shapes.
    pub pcr_ids: Option<PcrIds>,
    /// Carried along; not read here.
    pub pcr_digest: Option<String>,
    /// Whether a signed policy is asked for, with defaults for what is not
    /// named.
    pub use_policy: Option<bool>,
    /// The path of the public key that a signed policy is verified with.
    pub policy_pubkey_path: Option<String>,
    /// The reference bound into the signed policy.
    pub policy_ref: Option<String>,
    /// The path where the policy is stored.
    pub policy_path: Option<String>,
}

/// The mathematical content of a [`TPM2Config`].
pub struct ConfigView {
    pub hash: Option<Seq<char>>,
    pub key: Option<Seq<char>>,
    pub pcr_bank: Option<Seq<char>>,
    pub pcr_ids: Option<PcrIdsView>,
    pub pcr_digest: Option<Seq<char>>,
    pub use_policy: Option<bool>,
    pub policy_pubkey_path: Option<Seq<char>>,
    pub policy_ref: Option<Seq<char>>,
    pub policy_path: Option<Seq<char>>,
}

/// What an optional string holds.
pub open spec fn text_of(field: Option<String>) -> Option<Seq<char>> {
    match field {
        Some(text) => Some(text@),
        None => None,
    }
}

/// What an optional `pcr_ids` field holds.
pub open spec fn ids_of(field: Option<PcrIds>) -> Option<PcrIdsView> {
    match field {
        Some(ids) => Some(ids@),
        None => None,
    }
}

impl View for TPM2Config {
    type V = ConfigView;

    open spec fn view(&self) -> ConfigView {
        ConfigView {
            hash: text_of(self.hash),
            key: text_of(self.key),
            pcr_bank: text_of(self.pcr_bank),
            pcr_ids: ids_of(self.pcr_ids),
            pcr_digest: text_of(self.pcr_digest),
            use_policy: self.use_policy,
            policy_pubkey_path: text_of(self.policy_pubkey_path),
            policy_ref: text_of(self.policy_ref),
            policy_path: text_of(self.policy_path),
        }
    }
}

/// The canonical form of an optional `pcr_ids` field: an absent field stays
/// absent.
pub open spec fn canonical_ids(field: Option<PcrIdsView>) -> Result<
    Option<PcrIdsView>,
    ConfigError,
> {
    match field {
        None => Ok(None),
        Some(ids) => match ids.canonical() {
            Ok(canonical) => Ok(Some(canonical)),
            Err(error) => Err(error),
        },
    }
}

/// `given` if it is there, else `default`.
pub open spec fn or_default(given: Option<Seq<char>>, default: Seq<char>) -> Option<Seq<char>> {
    match given {
        Some(text) => Some(text),
        None => Some(default),
    }
}

impl ConfigView {
    /// The configuration with `pcr_ids` in canonical form.
    pub open spec fn with_canonical_ids(self) -> Result<ConfigView, ConfigError> {
        match canonical_ids(self.pcr_ids) {
            Ok(ids) => Ok(ConfigView { pcr_ids: ids, ..self }),
            Err(error) => Err(error),
        }
    }

    /// The configuration with the default PCR bank, where PCR indices are
    /// given and no bank is named.
    pub open spec fn with_default_bank(self) -> ConfigView {
        if self.pcr_ids is Some && self.pcr_bank is None {
            ConfigView { pcr_bank: Some(DEFAULT_PCR_BANK@), ..self }
        } else {
            self
        }
    }

    /// Whether `use_policy` is set to `true`.
    pub open spec fn asks_for_policy(self) -> bool {
        self.use_policy == Some(true)
    }

    /// The configuration with the defaults for the policy fields that are not
    /// set, where `use_policy` is set to `true`.
    pub open spec fn with_policy_defaults(self) -> ConfigView {
        if self.asks_for_policy() {
            ConfigView {
                policy_path: or_default(self.policy_path, DEFAULT_POLICY_PATH@),
                policy_pubkey_path: or_default(self.policy_pubkey_path, DEFAULT_PUBKEY_PATH@),
                policy_ref: or_default(self.policy_ref, DEFAULT_POLICY_REF@),
                ..self
            }
        } else {
            self
        }
    }

    /// Whether at least one of the three policy fields is set.
    pub open spec fn any_policy_field(self) -> bool {
        self.policy_pubkey_path is Some || self.policy_path is Some || self.policy_ref is Some
    }

    /// Whether all three policy fields are set.
    pub open spec fn all_policy_fields(self) -> bool {
        self.policy_pubkey_path is Some && self.policy_path is Some && self.policy_ref is Some
    }

    /// Whether some, but not all, of the three policy fields are set.
    pub open spec fn partial_policy(self) -> bool {
        self.any_policy_field() && !self.all_policy_fields()
    }

    /// The configuration, unless its policy fields are set in part only.
    pub open spec fn with_whole_policy(self) -> Result<ConfigView, ConfigError> {
        if self.partial_policy() {
            Err(ConfigError::PartialPolicy)
        } else {
            Ok(self)
        }
    }

    /// The normal form of the configuration, or the reason why it has none.
    pub open spec fn normalized(self) -> Result<ConfigView, ConfigError> {
        match self.with_canonical_ids() {
            Ok(listed) => listed.with_default_bank().with_policy_defaults().with_whole_policy(),
            Err(error) => Err(error),
        }
    }

    /// The advisory that normalising the configuration gives rise to: policy
    /// fields are set while `use_policy` is not set to `true`. There is none
    /// where `pcr_ids` is rejected.
    pub open spec fn warning(self) -> Option<Warning> {
        if self.with_canonical_ids() is Ok && !self.asks_for_policy() && self.any_policy_field() {
            Some(Warning::UsePolicyNotSet)
        } else {
            None
        }
    }

    /// Whether `pcr_ids` is absent or in canonical form.
    pub open spec fn has_canonical_ids(self) -> bool {
        self.pcr_ids matches Some(ids) ==> ids.is_canonical()
    }

    /// Whether the configuration is in normal form.
    pub open spec fn is_normalized(self) -> bool {
        &&& self.has_canonical_ids()
        &&& self.pcr_ids is Some ==> self.pcr_bank is Some
        &&& self.asks_for_policy() ==> self.all_policy_fields()
        &&& !self.partial_policy()
    }

    /// The PCR indices of a configuration whose `pcr_ids` is absent or in
    /// canonical form.
    pub open spec fn pcr_index_list(self) -> Option<Seq<u64>>
        recommends
            self.has_canonical_ids(),
    {
        match self.pcr_ids {
            Some(ids) => Some(ids.index_list()),
            None => None,
        }
    }
}

/// What normalising a configuration gives.
#[derive(Debug, PartialEq, Eq)]
pub struct Normalization {
    /// The advisory to show to the user, if there is one. It is due whether
    /// or not the configuration was accepted.
    pub warning: Option<Warning>,
    /// The configuration in normal form, or the reason why it was rejected.
    pub result: Result<TPM2Config, ConfigError>,
}

impl TPM2Config {
    /// Brings `pcr_ids` to its canonical form, a list of PCR indices, and
    /// leaves the other fields alone. Where that fails, `pcr_ids` is left
    /// with a text split up, and a list of one text split up as that text.
    pub fn normalize_pcr_ids(&mut self) -> (outcome: Result<(), ConfigError>)
        ensures
            match outcome {
                Ok(()) => old(self)@.with_canonical_ids() == Ok::<ConfigView, ConfigError>(
                    final(self)@,
                ),
                Err(error) => {
                    &&& old(self)@.with_canonical_ids() == Err::<ConfigView, ConfigError>(error)
                    &&& old(self)@.pcr_ids matches Some(ids)
                    &&& final(self)@ == (ConfigView {
                        pcr_ids: Some(ids.collapsed().split()),
                        ..old(self)@
                    })
                },
            },
    {
        match &mut self.pcr_ids {
            Some(ids) => ids.normalize(),
            None => Ok(()),
        }
    }

    /// Normalises the configuration: `pcr_ids` becomes a list of PCR indices,
    /// the PCR bank and the policy fields get their defaults, and policy
    /// fields that are set in part only are rejected.
    pub fn normalize(self) -> (out: Normalization)
        ensures
            out.warning == self@.warning(),
            match out.result {
                Ok(config) => self@.normalized() == Ok::<ConfigView, ConfigError>(config@),
                Err(error) => self@.normalized() == Err::<ConfigView, ConfigError>(error),
            },
    {
        let mut config = self;
        match config.normalize_pcr_ids() {
            Ok(()) => {},
            Err(error) => {
                return Normalization { warning: None, result: Err(error) };
            },
        }
        if config.pcr_ids.is_some() && config.pcr_bank.is_none() {
            config.pcr_bank = Some(DEFAULT_PCR_BANK.to_string());
        }
        let mut warning: Option<Warning> = None;
        if config.use_policy == Some(true) {
            if config.policy_path.is_none() {
                config.policy_path = Some(DEFAULT_POLICY_PATH.to_string());
            }
            if config.policy_pubkey_path.is_none() {
                config.policy_pubkey_path = Some(DEFAULT_PUBKEY_PATH.to_string());
            }
            if config.policy_ref.is_none() {
                config.policy_ref = Some(DEFAULT_POLICY_REF.to_string());
            }
        } else if config.policy_pubkey_path.is_some() || config.policy_path.is_some()
            || config.policy_ref.is_some() {
            warning = Some(Warning::UsePolicyNotSet);
        }
        if (config.policy_pubkey_path.is_some() || config.policy_path.is_some()
            || config.policy_ref.is_some()) && (config.policy_pubkey_path.is_none()
            || config.policy_path.is_none() || config.policy_ref.is_none()) {
            return Normalization { warning, result: Err(ConfigError::PartialPolicy) };
        }
        Normalization { warning, result: Ok(config) }
    }

    /// Tells whether `pcr_ids` is absent or a list of PCR indices.
    pub fn has_canonical_pcr_ids(&self) -> (canonical: bool)
        ensures
            canonical == self@.has_canonical_ids(),
    {
        match &self.pcr_ids {
            Some(ids) => ids.is_index_list(),
            None => true,
        }
    }

    /// The name of the hash algorithm of the PCR bank, as it was given.
    pub fn get_pcr_hash_alg(&self) -> (name: Option<&String>)
        ensures
            name matches Some(text) ==> self.pcr_bank == Some(*text),
            name is None ==> self.pcr_bank is None,
    {
        self.pcr_bank.as_ref()
    }

    /// The name of the hash algorithm for name-hierarchy operations, as it
    /// was given.
    pub fn get_name_hash_alg(&self) -> (name: Option<&String>)
        ensures
            name matches Some(text) ==> self.hash == Some(*text),
            name is None ==> self.hash is None,
    {
        self.hash.as_ref()
    }

    /// The PCR indices, if any are given.
    pub fn get_pcr_ids(&self) -> (ids: Option<Vec<u64>>)
        requires
            self@.has_canonical_ids(),
        ensures
            match ids {
                Some(list) => self@.pcr_index_list() == Some(list@),
                None => self@.pcr_index_list() is None,
            },
    {
        match &self.pcr_ids {
            Some(ids) => Some(ids.index_list()),
            None => None,
        }
    }

    /// The PCR indices in base ten with commas between them, if any are
    /// given.
    pub fn get_pcr_ids_str(&self) -> (text: Option<String>)
        requires
            self@.has_canonical_ids(),
        ensures
            match text {
                Some(joined) => self@.pcr_index_list() matches Some(list) && joined@
                    == comma_joined(list),
                None => self@.pcr_index_list() is None,
            },
    {
        match &self.pcr_ids {
            Some(ids) => Some(join_decimal(&ids.index_list())),
            None => None,
        }
    }
}

} // verus!
