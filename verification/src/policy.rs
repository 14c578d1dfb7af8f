//! Policy expressions and the compilation of a configuration into one.

use crate::config::{text_of, ConfigView, TPM2Config};
use vstd::prelude::*;

verus! {

/// A policy expression: what must hold for the secret to be released.
#[derive(Debug, PartialEq, Eq)]
pub enum TPMPolicyStep {
    /// Nothing is asked.
    NoStep,
    /// The PCRs with the given indices, in the bank of the named hash
    /// algorithm, must match; then `next` must hold.
    PCRMatch { hash_algorithm: Option<String>, indices: Vec<u64>, next: Box<TPMPolicyStep> },
    /// A signature over the policy must be presented that the public key at
    /// `pubkey_path` verifies.
    AuthorizedMatch { pubkey_path: String, key_hint: Option<String>, policy_ref: Option<String> },
    /// At least one of the eight branches must hold. The evaluator takes
    /// eight branches, no more and no fewer; a branch that is not needed is
    /// `NoStep`.
    Or(
        Box<TPMPolicyStep>,
        Box<TPMPolicyStep>,
        Box<TPMPolicyStep>,
        Box<TPMPolicyStep>,
        Box<TPMPolicyStep>,
        Box<TPMPolicyStep>,
        Box<TPMPolicyStep>,
        Box<TPMPolicyStep>,
    ),
}

/// The mathematical content of a [`TPMPolicyStep`].
pub enum PolicyView {
    NoStep,
    PCRMatch { hash_algorithm: Option<Seq<char>>, indices: Seq<u64>, next: Box<PolicyView> },
    AuthorizedMatch {
        pubkey_path: Seq<char>,
        key_hint: Option<Seq<char>>,
        policy_ref: Option<Seq<char>>,
    },
    /// The branches, eight of them.
    Or(Seq<PolicyView>),
}

impl TPMPolicyStep {
    /// What the expression holds.
    pub open spec fn content(self) -> PolicyView
        decreases self,
    {
        match self {
            TPMPolicyStep::NoStep => PolicyView::NoStep,
            TPMPolicyStep::PCRMatch { hash_algorithm, indices, next } => PolicyView::PCRMatch {
                hash_algorithm: text_of(hash_algorithm),
                indices: indices@,
                next: Box::new((*next).content()),
            },
            TPMPolicyStep::AuthorizedMatch {
                pubkey_path,
                key_hint,
                policy_ref,
            } => PolicyView::AuthorizedMatch {
                pubkey_path: pubkey_path@,
                key_hint: text_of(key_hint),
                policy_ref: text_of(policy_ref),
            },
            TPMPolicyStep::Or(b0, b1, b2, b3, b4, b5, b6, b7) => PolicyView::Or(
                seq![
                    (*b0).content(),
                    (*b1).content(),
                    (*b2).content(),
                    (*b3).content(),
                    (*b4).content(),
                    (*b5).content(),
                    (*b6).content(),
                    (*b7).content(),
                ],
            ),
        }
    }
}

impl View for TPMPolicyStep {
    type V = PolicyView;

    open spec fn view(&self) -> PolicyView {
        self.content()
    }
}

/// What an optional policy expression holds.
pub open spec fn step_of(step: Option<TPMPolicyStep>) -> Option<PolicyView> {
    match step {
        Some(step) => Some(step@),
        None => None,
    }
}

/// The PCR match that a configuration asks for, if it names PCR indices: the
/// PCR bank as it is named, the indices, and nothing after them.
pub open spec fn pcr_match(config: ConfigView) -> Option<PolicyView>
    recommends
        config.has_canonical_ids(),
{
    match config.pcr_index_list() {
        Some(indices) => Some(
            PolicyView::PCRMatch {
                hash_algorithm: config.pcr_bank,
                indices,
                next: Box::new(PolicyView::NoStep),
            },
        ),
        None => None,
    }
}

/// The policy expression for a PCR match and a signed match, where each may
/// be absent: both make an `Or` of the two, filled up with `NoStep`; one
/// alone stands for itself; none is `NoStep`.
pub open spec fn combined(pcrs: Option<PolicyView>, authorized: Option<PolicyView>) -> PolicyView {
    match (pcrs, authorized) {
        (Some(pcrs), Some(authorized)) => PolicyView::Or(
            seq![
                pcrs,
                authorized,
                PolicyView::NoStep,
                PolicyView::NoStep,
                PolicyView::NoStep,
                PolicyView::NoStep,
                PolicyView::NoStep,
                PolicyView::NoStep,
            ],
        ),
        (Some(pcrs), None) => pcrs,
        (None, Some(authorized)) => authorized,
        (None, None) => PolicyView::NoStep,
    }
}

/// The policy expression for a configuration, given the signed match that
/// was constructed for it; `authorized` is read only where the configuration
/// names a public key.
pub open spec fn compiled(config: ConfigView, authorized: PolicyView) -> PolicyView
    recommends
        config.has_canonical_ids(),
{
    combined(
        pcr_match(config),
        if config.policy_pubkey_path is Some {
            Some(authorized)
        } else {
            None
        },
    )
}

/// Whether `outcome` is what compiling `config` gives once the signed match
/// was constructed with the result `constructed`: the policy expression with
/// the signed match in its place, or the failure as it came.
pub open spec fn handed_on<E>(
    config: ConfigView,
    constructed: Result<TPMPolicyStep, E>,
    outcome: Result<TPMPolicyStep, E>,
) -> bool
    recommends
        config.has_canonical_ids(),
{
    match constructed {
        Ok(authorized) => outcome matches Ok(step) && step@ == compiled(config, authorized@),
        Err(error) => outcome matches Err(handed) && handed == error,
    }
}

impl TPM2Config {
    /// The PCR match that the configuration asks for, if it names PCR
    /// indices.
    pub fn pcr_step(&self) -> (step: Option<TPMPolicyStep>)
        requires
            self@.has_canonical_ids(),
        ensures
            step_of(step) == pcr_match(self@),
    {
        match self.get_pcr_ids() {
            Some(indices) => {
                let step = TPMPolicyStep::PCRMatch {
                    hash_algorithm: self.pcr_bank.clone(),
                    indices,
                    next: Box::new(TPMPolicyStep::NoStep),
                };
                proof {
                    reveal_with_fuel(TPMPolicyStep::content, 2);
                }
                Some(step)
            },
            None => None,
        }
    }
}

impl TPMPolicyStep {
    /// Puts a PCR match and a signed match together, where each may be
    /// absent.
    pub fn combine(pcrs: Option<TPMPolicyStep>, authorized: Option<TPMPolicyStep>) -> (step:
        TPMPolicyStep)
        ensures
            step@ == combined(step_of(pcrs), step_of(authorized)),
    {
        match (pcrs, authorized) {
            (Some(pcrs), Some(authorized)) => {
                let step = TPMPolicyStep::Or(
                    Box::new(pcrs),
                    Box::new(authorized),
                    Box::new(TPMPolicyStep::NoStep),
                    Box::new(TPMPolicyStep::NoStep),
                    Box::new(TPMPolicyStep::NoStep),
                    Box::new(TPMPolicyStep::NoStep),
                    Box::new(TPMPolicyStep::NoStep),
                    Box::new(TPMPolicyStep::NoStep),
                );
                proof {
                    reveal_with_fuel(TPMPolicyStep::content, 2);
                }
                step
            },
            (Some(pcrs), None) => pcrs,
            (None, Some(authorized)) => authorized,
            (None, None) => TPMPolicyStep::NoStep,
        }
    }

    /// Compiles a configuration into a policy expression. Where the
    /// configuration names a public key, `construct` is called once, with the
    /// path of the key, no key hint and the policy reference as it is given,
    /// and what it returns stands for the signed match; its failure is
    /// handed on as it is. Where no public key is named, `construct` is not
    /// called.
    pub fn try_from<E, F>(config: &TPM2Config, construct: F) -> (outcome: Result<TPMPolicyStep, E>)
        where
            F: FnOnce(&String, &Option<String>, &Option<String>) -> Result<TPMPolicyStep, E>,
        requires
            config@.has_canonical_ids(),
            config.policy_pubkey_path matches Some(path) ==> call_requires(
                construct,
                (&path, &None, &config.policy_ref),
            ),
        ensures
            config.policy_pubkey_path is None ==> (outcome matches Ok(step) && step@ == combined(
                pcr_match(config@),
                None,
            )),
            config.policy_pubkey_path matches Some(path) ==> (exists|
                constructed: Result<TPMPolicyStep, E>,
            |
                call_ensures(construct, (&path, &None, &config.policy_ref), constructed)
                    && handed_on(config@, constructed, outcome)),
    {
        let pcrs = config.pcr_step();
        match &config.policy_pubkey_path {
            Some(path) => {
                let no_hint: Option<String> = None;
                let constructed = construct(path, &no_hint, &config.policy_ref);
                let ghost returned = constructed;
                let outcome = match constructed {
                    Ok(authorized) => Ok(TPMPolicyStep::combine(pcrs, Some(authorized))),
                    Err(error) => Err(error),
                };
                proof {
                    assert(call_ensures(construct, (path, &None, &config.policy_ref), returned));
                    assert(handed_on(config@, returned, outcome));
                }
                outcome
            },
            None => Ok(TPMPolicyStep::combine(pcrs, None)),
        }
    }
}

} // verus!
