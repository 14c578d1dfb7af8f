//! What holds of normalisation and compilation for every configuration.

use crate::config::{
    canonical_ids, ConfigView, DEFAULT_PCR_BANK, DEFAULT_POLICY_PATH, DEFAULT_POLICY_REF,
    DEFAULT_PUBKEY_PATH,
};
use crate::error::{ConfigError, Warning};
use crate::mode::{selected, ActionMode};
use crate::pcr_ids::{
    all_indices, index_of_entry, index_of_text, indices, integers, is_index,
    lemma_canonical_is_integers, lemma_indices_entrywise, lemma_indices_of_integers,
    text_entries, EntryView, PcrIdsView,
};
use crate::policy::{combined, compiled, pcr_match, PolicyView, TPMPolicyStep};
use crate::text::{
    comma_free, comma_pieces, joined, lemma_pieces_comma_free, lemma_pieces_of_comma_free,
    lemma_pieces_of_joined, lemma_trimmed_idempotent, lemma_trimmed_keeps_comma_free, trimmed,
    trimmed_pieces,
};
use vstd::prelude::*;

verus! {

/// Entries that each stand for an index stand, together, for these indices.
pub proof fn lemma_indices_from_entries(entries: Seq<EntryView>, ids: Seq<u64>)
    requires
        entries.len() == ids.len(),
        forall|i: int|
            0 <= i < entries.len() ==> index_of_entry(#[trigger] entries[i]) == Ok::<
                u64,
                ConfigError,
            >(ids[i]),
    ensures
        indices(entries) == Ok::<Seq<u64>, ConfigError>(ids),
    decreases entries.len(),
{
    if entries.len() == 0 {
        assert(ids =~= Seq::<u64>::empty());
    } else {
        let front = entries.drop_last();
        assert forall|i: int| 0 <= i < front.len() implies index_of_entry(#[trigger] front[i])
            == Ok::<u64, ConfigError>(ids.drop_last()[i]) by {
            assert(front[i] == entries[i]);
        }
        lemma_indices_from_entries(front, ids.drop_last());
        assert(index_of_entry(entries[entries.len() - 1]) == Ok::<u64, ConfigError>(
            ids[entries.len() - 1],
        ));
        assert(ids.drop_last().push(ids.last()) =~= ids);
    }
}

/// A trimmed text stands for the index that the text stands for.
pub proof fn lemma_index_of_trimmed(text: Seq<char>)
    ensures
        index_of_text(trimmed(text)) == index_of_text(text),
{
    lemma_trimmed_idempotent(text);
}

/// A list of one text is taken as that text.
pub proof fn lemma_single_text_is_text(text: Seq<char>)
    ensures
        PcrIdsView::List(seq![EntryView::Text(text)]).canonical() == PcrIdsView::Text(
            text,
        ).canonical(),
{
}

/// A text is taken as the list of its trimmed pieces between commas.
pub proof fn lemma_text_is_list_of_pieces(text: Seq<char>)
    ensures
        PcrIdsView::Text(text).canonical() == PcrIdsView::List(
            text_entries(trimmed_pieces(text)),
        ).canonical(),
{
    let pieces = trimmed_pieces(text);
    let entries = text_entries(pieces);
    lemma_pieces_comma_free(text);
    if entries.len() == 1 {
        let raw = comma_pieces(text)[0];
        let piece = trimmed(raw);
        assert(pieces[0] == piece);
        assert(entries[0] == EntryView::Text(piece));
        assert(!raw.contains(','));
        lemma_trimmed_keeps_comma_free(raw);
        lemma_pieces_of_comma_free(piece);
        lemma_trimmed_idempotent(raw);
        assert(trimmed_pieces(piece) =~= seq![piece]);
        assert(text_entries(trimmed_pieces(piece)) =~= entries);
    }
}

/// The accepted shapes agree. Take texts without commas that each stand for
/// an index. Then the texts joined by commas, the list of the texts and the
/// list of the indices as integers all have the same canonical form: the
/// list of these indices, in their order.
pub proof fn lemma_shapes_agree(pieces: Seq<Seq<char>>, ids: Seq<u64>)
    requires
        pieces.len() >= 1,
        pieces.len() == ids.len(),
        comma_free(pieces),
        forall|i: int|
            0 <= i < pieces.len() ==> index_of_text(#[trigger] pieces[i]) == Ok::<
                u64,
                ConfigError,
            >(ids[i]),
    ensures
        PcrIdsView::Text(joined(pieces)).canonical() == Ok::<PcrIdsView, ConfigError>(
            PcrIdsView::List(integers(ids)),
        ),
        PcrIdsView::List(text_entries(pieces)).canonical() == Ok::<PcrIdsView, ConfigError>(
            PcrIdsView::List(integers(ids)),
        ),
        PcrIdsView::List(integers(ids)).canonical() == Ok::<PcrIdsView, ConfigError>(
            PcrIdsView::List(integers(ids)),
        ),
{
    // The indices as integers.
    lemma_indices_of_integers(ids);
    assert(integers(ids)[0] is Integer);

    // The texts joined by commas.
    lemma_pieces_of_joined(pieces);
    let split = text_entries(trimmed_pieces(joined(pieces)));
    assert forall|i: int| 0 <= i < split.len() implies index_of_entry(#[trigger] split[i]) == Ok::<
        u64,
        ConfigError,
    >(ids[i]) by {
        assert(split[i] == EntryView::Text(trimmed(pieces[i])));
        lemma_index_of_trimmed(pieces[i]);
    }
    lemma_indices_from_entries(split, ids);

    // The list of the texts.
    let listed = text_entries(pieces);
    if pieces.len() == 1 {
        let only = pieces[0];
        assert(listed[0] == EntryView::Text(only));
        assert(!pieces[0].contains(','));
        lemma_pieces_of_comma_free(only);
        let again = text_entries(trimmed_pieces(only));
        assert(again =~= seq![EntryView::Text(trimmed(only))]);
        lemma_index_of_trimmed(only);
        assert(index_of_text(pieces[0]) == Ok::<u64, ConfigError>(ids[0]));
        assert forall|i: int| 0 <= i < again.len() implies index_of_entry(#[trigger] again[i])
            == Ok::<u64, ConfigError>(ids[i]) by {}
        lemma_indices_from_entries(again, ids);
    } else {
        assert forall|i: int| 0 <= i < listed.len() implies index_of_entry(#[trigger] listed[i])
            == Ok::<u64, ConfigError>(ids[i]) by {
            assert(listed[i] == EntryView::Text(pieces[i]));
        }
        lemma_indices_from_entries(listed, ids);
    }
}

/// A field in canonical form is its own canonical form.
pub proof fn lemma_canonical_is_fixed(ids: PcrIdsView)
    requires
        ids.is_canonical(),
    ensures
        ids.canonical() == Ok::<PcrIdsView, ConfigError>(ids),
{
    lemma_canonical_is_integers(ids);
    lemma_indices_of_integers(ids.index_list());
    let entries = ids->List_0;
    if entries.len() == 1 {
        assert(is_index(entries[0]));
    }
}

/// What normalising a field gives is in canonical form, so that normalising
/// it once more changes nothing.
pub proof fn lemma_canonical_idempotent(ids: PcrIdsView)
    ensures
        ids.canonical() matches Ok(canonical) ==> canonical.is_canonical() && canonical.canonical()
            == Ok::<PcrIdsView, ConfigError>(canonical),
{
    match ids.canonical() {
        Ok(canonical) => {
            let entries = canonical->List_0;
            assert forall|i: int| 0 <= i < entries.len() implies is_index(#[trigger] entries[i]) by {
            }
            assert(all_indices(entries));
            lemma_canonical_is_fixed(canonical);
        },
        Err(_) => {},
    }
}

/// A list is taken entry by entry, unless it is a list of one text. If it is
/// accepted, there are as many indices as entries, and each is the index
/// that the entry in its place stands for: none is dropped and none is
/// changed. If it is rejected, the error is that of one of its entries.
pub proof fn lemma_list_entry_by_entry(entries: Seq<EntryView>)
    requires
        !(entries.len() == 1 && entries[0] is Text),
    ensures
        match PcrIdsView::List(entries).canonical() {
            Ok(canonical) => {
                &&& canonical.is_canonical()
                &&& canonical.index_list().len() == entries.len()
                &&& forall|i: int|
                    0 <= i < entries.len() ==> index_of_entry(#[trigger] entries[i]) == Ok::<
                        u64,
                        ConfigError,
                    >(canonical.index_list()[i])
            },
            Err(error) => exists|i: int|
                0 <= i < entries.len() && index_of_entry(#[trigger] entries[i]) == Err::<
                    u64,
                    ConfigError,
                >(error),
        },
{
    lemma_indices_entrywise(entries);
    match indices(entries) {
        Ok(ids) => {
            let canonical = PcrIdsView::List(integers(ids));
            lemma_canonical_idempotent(PcrIdsView::List(entries));
            assert(canonical.index_list() =~= ids);
        },
        Err(_) => {},
    }
}

/// An entry that stands for no index has the whole list rejected, unless it
/// is a list of one text: such an entry is never passed over.
pub proof fn lemma_bad_entry_rejects(entries: Seq<EntryView>, at: int)
    requires
        0 <= at < entries.len(),
        index_of_entry(entries[at]) is Err,
        !(entries.len() == 1 && entries[0] is Text),
    ensures
        PcrIdsView::List(entries).canonical() is Err,
{
    lemma_indices_entrywise(entries);
}

/// A piece of a text that stands for no index has the whole text rejected.
pub proof fn lemma_bad_piece_rejects(text: Seq<char>, at: int)
    requires
        0 <= at < comma_pieces(text).len(),
        index_of_text(comma_pieces(text)[at]) is Err,
    ensures
        PcrIdsView::Text(text).canonical() is Err,
{
    let entries = text_entries(trimmed_pieces(text));
    assert(entries[at] == EntryView::Text(trimmed(comma_pieces(text)[at])));
    lemma_index_of_trimmed(comma_pieces(text)[at]);
    lemma_indices_entrywise(entries);
}

/// A field that is neither a text nor a list is rejected.
pub proof fn lemma_other_shape_rejects()
    ensures
        PcrIdsView::Other.canonical() == Err::<PcrIdsView, ConfigError>(ConfigError::InvalidType),
{
}

/// What normalising a configuration gives is in normal form.
pub proof fn lemma_normalized_is_normal(config: ConfigView)
    ensures
        config.normalized() matches Ok(normal) ==> normal.is_normalized(),
{
    match config.pcr_ids {
        Some(ids) => {
            lemma_canonical_idempotent(ids);
        },
        None => {},
    }
}

/// Normalising a configuration in normal form changes nothing.
pub proof fn lemma_normal_is_fixed(config: ConfigView)
    requires
        config.is_normalized(),
    ensures
        config.normalized() == Ok::<ConfigView, ConfigError>(config),
{
    match config.pcr_ids {
        Some(ids) => {
            lemma_canonical_is_fixed(ids);
        },
        None => {},
    }
    let listed = config.with_canonical_ids()->Ok_0;
    assert(listed == config);
}

/// Normalising twice is normalising once.
pub proof fn lemma_normalize_idempotent(config: ConfigView)
    ensures
        config.normalized() matches Ok(normal) ==> normal.normalized() == Ok::<
            ConfigView,
            ConfigError,
        >(normal),
{
    lemma_normalized_is_normal(config);
    match config.normalized() {
        Ok(normal) => {
            lemma_normal_is_fixed(normal);
        },
        Err(_) => {},
    }
}

/// Where PCR indices are given and accepted and no bank is named, the bank
/// is the default one; a bank that is named stays.
pub proof fn lemma_bank_defaults(config: ConfigView)
    requires
        config.normalized() is Ok,
    ensures
        config.pcr_ids is Some && config.pcr_bank is None ==> config.normalized()->Ok_0.pcr_bank
            == Some(DEFAULT_PCR_BANK@),
        config.pcr_ids is None || config.pcr_bank is Some ==> config.normalized()->Ok_0.pcr_bank
            == config.pcr_bank,
{
}

/// Where `use_policy` is set to `true` and `pcr_ids` is accepted, so is the
/// configuration, and each policy field is as given or else its default.
pub proof fn lemma_policy_defaults(config: ConfigView)
    requires
        config.asks_for_policy(),
        canonical_ids(config.pcr_ids) is Ok,
    ensures
        config.normalized() matches Ok(normal) && {
            &&& normal.policy_path == Some(
                if config.policy_path is Some {
                    config.policy_path->Some_0
                } else {
                    DEFAULT_POLICY_PATH@
                },
            )
            &&& normal.policy_pubkey_path == Some(
                if config.policy_pubkey_path is Some {
                    config.policy_pubkey_path->Some_0
                } else {
                    DEFAULT_PUBKEY_PATH@
                },
            )
            &&& normal.policy_ref == Some(
                if config.policy_ref is Some {
                    config.policy_ref->Some_0
                } else {
                    DEFAULT_POLICY_REF@
                },
            )
        },
        config.warning() is None,
{
}

/// Where `use_policy` is not set to `true`, `pcr_ids` is accepted and some
/// but not all of the policy fields are set, the configuration is rejected
/// for that, after the advisory.
pub proof fn lemma_partial_policy_rejects(config: ConfigView)
    requires
        !config.asks_for_policy(),
        canonical_ids(config.pcr_ids) is Ok,
        config.partial_policy(),
    ensures
        config.normalized() == Err::<ConfigView, ConfigError>(ConfigError::PartialPolicy),
        config.warning() == Some(Warning::UsePolicyNotSet),
{
}

/// A configuration that is rejected for its policy fields always comes with
/// the advisory, and one that is rejected for `pcr_ids` never does.
pub proof fn lemma_warning_on_rejection(config: ConfigView)
    ensures
        config.normalized() == Err::<ConfigView, ConfigError>(ConfigError::PartialPolicy)
            ==> config.warning() == Some(Warning::UsePolicyNotSet),
        config.normalized() matches Err(error) && error != ConfigError::PartialPolicy
            ==> config.warning() is None,
{
    match config.pcr_ids {
        Some(ids) => {
            lemma_canonical_never_partial_policy(ids);
        },
        None => {},
    }
}

/// `pcr_ids` is never rejected with the error that is kept for the policy
/// fields.
pub proof fn lemma_canonical_never_partial_policy(ids: PcrIdsView)
    ensures
        ids.canonical() != Err::<PcrIdsView, ConfigError>(ConfigError::PartialPolicy),
{
    let listed = ids.collapsed().split();
    match listed {
        PcrIdsView::List(entries) => {
            lemma_indices_entrywise(entries);
        },
        _ => {},
    }
}

/// An `Or` has eight branches, whatever stands in them.
pub proof fn lemma_or_has_eight_branches(step: TPMPolicyStep)
    ensures
        step@ matches PolicyView::Or(branches) ==> branches.len() == 8,
{
}

/// Where PCR indices and a public key are both named, the policy expression
/// is an `Or` of eight branches: the PCR match over the named bank and the
/// indices, then the signed match as it was constructed, then six times
/// `NoStep`.
pub proof fn lemma_both_make_or(config: ConfigView, authorized: PolicyView)
    requires
        config.has_canonical_ids(),
        config.pcr_ids is Some,
        config.policy_pubkey_path is Some,
    ensures
        compiled(config, authorized) matches PolicyView::Or(branches) && {
            &&& branches.len() == 8
            &&& branches[0] == (PolicyView::PCRMatch {
                hash_algorithm: config.pcr_bank,
                indices: config.pcr_ids->Some_0.index_list(),
                next: Box::new(PolicyView::NoStep),
            })
            &&& branches[1] == authorized
            &&& forall|i: int| 2 <= i < 8 ==> branches[i] == PolicyView::NoStep
        },
{
}

/// Where only PCR indices are named, the policy expression is the PCR match;
/// where only a public key is named, it is the signed match as it was
/// constructed; where neither is named, it is `NoStep`.
pub proof fn lemma_one_or_none(config: ConfigView, authorized: PolicyView)
    requires
        config.has_canonical_ids(),
    ensures
        config.pcr_ids is Some && config.policy_pubkey_path is None ==> Some(
            compiled(config, authorized),
        ) == pcr_match(config),
        config.pcr_ids is None && config.policy_pubkey_path is Some ==> compiled(
            config,
            authorized,
        ) == authorized,
        config.pcr_ids is None && config.policy_pubkey_path is None ==> compiled(
            config,
            authorized,
        ) == PolicyView::NoStep,
        config.pcr_ids is None && config.policy_pubkey_path is None ==> combined(
            pcr_match(config),
            None,
        ) == PolicyView::NoStep,
{
}

/// An encryption, and no other mode, comes with the place of a
/// configuration among the arguments, and that place holds an argument.
pub proof fn lemma_only_encryption_takes_config(args: Seq<Seq<char>>, on_terminal: bool)
    ensures
        selected(args, on_terminal) matches Ok((mode, place)) ==> {
            &&& place is Some <==> mode == ActionMode::Encrypt
            &&& place matches Some(at) ==> 1 <= at < args.len()
        },
{
}

} // verus!
