//! Errors and advisories raised while a configuration is normalised.

use vstd::prelude::*;

verus! {

/// Why a configuration was rejected.
#[derive(Debug, Clone, Copy, PartialEq, Eq, Structural)]
pub enum ConfigError {
    /// A text entry of `pcr_ids` is not a number at all.
    UnparseableStringInt,
    /// A text entry of `pcr_ids` is a number, but not a non-negative integer.
    NonPositiveStringInt,
    /// A numeric entry of `pcr_ids` is not a non-negative integer.
    NonPositiveInt,
    /// An entry of `pcr_ids` is neither text nor a number.
    InvalidValue,
    /// `pcr_ids` is neither text nor a list.
    InvalidType,
    /// Some, but not all, of the three policy fields are set.
    PartialPolicy,
}

impl ConfigError {
    /// The text shown to the user for this error.
    pub open spec fn message_text(self) -> Seq<char> {
        match self {
            ConfigError::UnparseableStringInt => "Unparseable string int"@,
            ConfigError::NonPositiveStringInt => "Non-positive string int"@,
            ConfigError::NonPositiveInt => "Non-positive int"@,
            ConfigError::InvalidValue => "Invalid value in pcr_ids"@,
            ConfigError::InvalidType => "Invalid type"@,
            ConfigError::PartialPolicy => "Not all of policy pubkey, path and ref are specified"@,
        }
    }

    /// Gives the text shown to the user for this error.
    pub fn message(&self) -> (text: &'static str)
        ensures
            text@ == self.message_text(),
    {
        match self {
            ConfigError::UnparseableStringInt => "Unparseable string int",
            ConfigError::NonPositiveStringInt => "Non-positive string int",
            ConfigError::NonPositiveInt => "Non-positive int",
            ConfigError::InvalidValue => "Invalid value in pcr_ids",
            ConfigError::InvalidType => "Invalid type",
            ConfigError::PartialPolicy => "Not all of policy pubkey, path and ref are specified",
        }
    }
}

/// An advisory that does not stop the normalisation.
#[derive(Debug, Clone, Copy, PartialEq, Eq, Structural)]
pub enum Warning {
    /// Policy fields are set, but `use_policy` is not set to `true`.
    UsePolicyNotSet,
}

impl Warning {
    /// The text shown to the user for this advisory.
    pub open spec fn message_text(self) -> Seq<char> {
        match self {
            Warning::UsePolicyNotSet =>
                "To use a policy, please specifiy use_policy: true. Not specifying this will be a fatal error in a next release"@,
        }
    }

    /// Gives the text shown to the user for this advisory.
    pub fn message(&self) -> (text: &'static str)
        ensures
            text@ == self.message_text(),
    {
        match self {
            Warning::UsePolicyNotSet =>
                "To use a policy, please specifiy use_policy: true. Not specifying this will be a fatal error in a next release",
        }
    }
}

} // verus!
