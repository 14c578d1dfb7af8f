//! The `pcr_ids` field: the shapes it is accepted in and the rewriting that
//! brings each of them to a list of PCR indices.

use crate::error::ConfigError;
use crate::number::{json_number, parse_json_number, ParsedNumber};
use crate::text::{split_trimmed, texts, trim, trimmed, trimmed_pieces};
use vstd::prelude::*;

verus! {

/// One entry of a `pcr_ids` list.
#[derive(Debug, PartialEq, Eq)]
pub enum PcrIdsEntry {
    /// A text, expected to hold a number.
    Text(String),
    /// An integer.
    Integer(i128),
    /// A number that is no integer.
    Float,
    /// Anything else.
    Other,
}

/// The `pcr_ids` field as it was given.
#[derive(Debug, PartialEq, Eq)]
pub enum PcrIds {
    /// A text: numbers with commas between them.
    Text(String),
    /// A list of entries.
    List(Vec<PcrIdsEntry>),
    /// Anything else.
    Other,
}

/// The mathematical content of a [`PcrIdsEntry`].
pub enum EntryView {
    Text(Seq<char>),
    Integer(int),
    Float,
    Other,
}

/// The mathematical content of a [`PcrIds`].
pub enum PcrIdsView {
    Text(Seq<char>),
    List(Seq<EntryView>),
    Other,
}

impl View for PcrIdsEntry {
    type V = EntryView;

    open spec fn view(&self) -> EntryView {
        match self {
            PcrIdsEntry::Text(text) => EntryView::Text(text@),
            PcrIdsEntry::Integer(value) => EntryView::Integer(*value as int),
            PcrIdsEntry::Float => EntryView::Float,
            PcrIdsEntry::Other => EntryView::Other,
        }
    }
}

/// What each of the entries holds.
pub open spec fn entry_views(entries: Seq<PcrIdsEntry>) -> Seq<EntryView> {
    entries.map_values(|entry: PcrIdsEntry| entry@)
}

impl View for PcrIds {
    type V = PcrIdsView;

    open spec fn view(&self) -> PcrIdsView {
        match self {
            PcrIds::Text(text) => PcrIdsView::Text(text@),
            PcrIds::List(entries) => PcrIdsView::List(entry_views(entries@)),
            PcrIds::Other => PcrIdsView::Other,
        }
    }
}

/// The PCR index that a text read as a number stands for.
pub open spec fn index_of_parsed(parsed: ParsedNumber) -> Result<u64, ConfigError> {
    match parsed {
        ParsedNumber::Unsigned(value) => Ok(value),
        ParsedNumber::NotUnsigned => Err(ConfigError::NonPositiveStringInt),
        ParsedNumber::Malformed => Err(ConfigError::UnparseableStringInt),
    }
}

/// The PCR index that a text stands for: the text is trimmed, then read as a
/// JSON number.
pub open spec fn index_of_text(text: Seq<char>) -> Result<u64, ConfigError> {
    index_of_parsed(json_number(trimmed(text)))
}

/// The PCR index that one entry stands for.
pub open spec fn index_of_entry(entry: EntryView) -> Result<u64, ConfigError> {
    match entry {
        EntryView::Text(text) => index_of_text(text),
        EntryView::Integer(value) => if 0 <= value <= u64::MAX {
            Ok(value as u64)
        } else {
            Err(ConfigError::NonPositiveInt)
        },
        EntryView::Float => Err(ConfigError::NonPositiveInt),
        EntryView::Other => Err(ConfigError::InvalidValue),
    }
}

/// The PCR indices that the entries stand for, in their order. Where an entry
/// stands for none, the error of the first such entry.
pub open spec fn indices(entries: Seq<EntryView>) -> Result<Seq<u64>, ConfigError>
    decreases entries.len(),
{
    if entries.len() == 0 {
        Ok(Seq::<u64>::empty())
    } else {
        match indices(entries.drop_last()) {
            Err(error) => Err(error),
            Ok(ids) => match index_of_entry(entries.last()) {
                Err(error) => Err(error),
                Ok(id) => Ok(ids.push(id)),
            },
        }
    }
}

/// The entries that hold the given indices as integers.
pub open spec fn integers(ids: Seq<u64>) -> Seq<EntryView> {
    ids.map_values(|id: u64| EntryView::Integer(id as int))
}

/// The entries that hold the given texts.
pub open spec fn text_entries(pieces: Seq<Seq<char>>) -> Seq<EntryView> {
    pieces.map_values(|piece: Seq<char>| EntryView::Text(piece))
}

impl PcrIdsView {
    /// A list of exactly one text becomes that text.
    pub open spec fn collapsed(self) -> PcrIdsView {
        match self {
            PcrIdsView::List(entries) => if entries.len() == 1 {
                match entries[0] {
                    EntryView::Text(text) => PcrIdsView::Text(text),
                    _ => self,
                }
            } else {
                self
            },
            _ => self,
        }
    }

    /// A text becomes the list of its trimmed pieces between commas.
    pub open spec fn split(self) -> PcrIdsView {
        match self {
            PcrIdsView::Text(text) => PcrIdsView::List(text_entries(trimmed_pieces(text))),
            _ => self,
        }
    }

    /// A list becomes the list of the indices its entries stand for, or the
    /// error of the first entry that stands for none.
    pub open spec fn numbered(self) -> Result<PcrIdsView, ConfigError> {
        match self {
            PcrIdsView::List(entries) => match indices(entries) {
                Ok(ids) => Ok(PcrIdsView::List(integers(ids))),
                Err(error) => Err(error),
            },
            _ => Ok(self),
        }
    }

    /// Nothing but a list passes.
    pub open spec fn as_list(self) -> Result<PcrIdsView, ConfigError> {
        match self {
            PcrIdsView::List(_) => Ok(self),
            _ => Err(ConfigError::InvalidType),
        }
    }

    /// The canonical form of the field: the four rewriting steps in turn.
    pub open spec fn canonical(self) -> Result<PcrIdsView, ConfigError> {
        match self.collapsed().split().numbered() {
            Ok(numbered) => numbered.as_list(),
            Err(error) => Err(error),
        }
    }

    /// Whether the field is a list of integers from zero to `u64::MAX`.
    pub open spec fn is_canonical(self) -> bool {
        match self {
            PcrIdsView::List(entries) => all_indices(entries),
            _ => false,
        }
    }

    /// The PCR indices of a canonical field.
    pub open spec fn index_list(self) -> Seq<u64>
        recommends
            self.is_canonical(),
    {
        match self {
            PcrIdsView::List(entries) => entries.map_values(|entry: EntryView| index_held(entry)),
            _ => Seq::<u64>::empty(),
        }
    }
}

/// Whether the entry is an integer from zero to `u64::MAX`.
pub open spec fn is_index(entry: EntryView) -> bool {
    entry matches EntryView::Integer(value) && 0 <= value <= u64::MAX
}

/// Whether every entry is an integer from zero to `u64::MAX`.
pub open spec fn all_indices(entries: Seq<EntryView>) -> bool {
    forall|i: int| 0 <= i < entries.len() ==> is_index(#[trigger] entries[i])
}

/// The PCR index that an integer entry holds.
pub open spec fn index_held(entry: EntryView) -> u64
    recommends
        is_index(entry),
{
    match entry {
        EntryView::Integer(value) => value as u64,
        _ => 0,
    }
}

/// Once an entry stands for no index, no later entry changes the outcome.
pub proof fn lemma_indices_error_persists(entries: Seq<EntryView>, n: int)
    requires
        0 <= n <= entries.len(),
        indices(entries.take(n)) is Err,
    ensures
        indices(entries) == indices(entries.take(n)),
    decreases entries.len(),
{
    if n == entries.len() {
        assert(entries.take(n) =~= entries);
    } else {
        assert(entries.drop_last().take(n) =~= entries.take(n));
        lemma_indices_error_persists(entries.drop_last(), n);
    }
}

/// Where the entries stand for indices, they stand for as many indices as
/// there are entries, each entry for the index in its place.
pub proof fn lemma_indices_entrywise(entries: Seq<EntryView>)
    ensures
        indices(entries) matches Ok(ids) ==> ids.len() == entries.len() && forall|i: int|
            0 <= i < entries.len() ==> index_of_entry(#[trigger] entries[i]) == Ok::<
                u64,
                ConfigError,
            >(ids[i]),
        indices(entries) matches Err(error) ==> exists|i: int|
            0 <= i < entries.len() && index_of_entry(#[trigger] entries[i]) == Err::<
                u64,
                ConfigError,
            >(error),
    decreases entries.len(),
{
    if entries.len() > 0 {
        let front = entries.drop_last();
        lemma_indices_entrywise(front);
        match indices(front) {
            Ok(ids) => {
                match index_of_entry(entries.last()) {
                    Ok(id) => {
                        let all = ids.push(id);
                        assert forall|i: int| 0 <= i < entries.len() implies index_of_entry(
                            #[trigger] entries[i],
                        ) == Ok::<u64, ConfigError>(all[i]) by {
                            if i < front.len() {
                                assert(entries[i] == front[i]);
                            }
                        }
                    },
                    Err(error) => {
                        assert(index_of_entry(entries[entries.len() - 1]) == Err::<
                            u64,
                            ConfigError,
                        >(error));
                    },
                }
            },
            Err(error) => {
                let i = choose|i: int|
                    0 <= i < front.len() && index_of_entry(#[trigger] front[i]) == Err::<
                        u64,
                        ConfigError,
                    >(error);
                assert(entries[i] == front[i]);
            },
        }
    }
}

/// Integers from zero to `u64::MAX` stand for themselves.
pub proof fn lemma_indices_of_integers(ids: Seq<u64>)
    ensures
        indices(integers(ids)) == Ok::<Seq<u64>, ConfigError>(ids),
    decreases ids.len(),
{
    if ids.len() == 0 {
        assert(ids =~= Seq::<u64>::empty());
    } else {
        lemma_indices_of_integers(ids.drop_last());
        assert(integers(ids).drop_last() =~= integers(ids.drop_last()));
        assert(ids.drop_last().push(ids.last()) =~= ids);
    }
}

/// A canonical field is the list of the integers that it holds.
pub proof fn lemma_canonical_is_integers(ids: PcrIdsView)
    requires
        ids.is_canonical(),
    ensures
        ids == PcrIdsView::List(integers(ids.index_list())),
{
    let entries = ids->List_0;
    assert(integers(ids.index_list()) =~= entries) by {
        assert forall|i: int| 0 <= i < entries.len() implies integers(ids.index_list())[i]
            == entries[i] by {
            assert(is_index(entries[i]));
        }
    }
}

impl Clone for PcrIdsEntry {
    fn clone(&self) -> (copy: Self)
        ensures
            copy == *self,
    {
        match self {
            PcrIdsEntry::Text(text) => PcrIdsEntry::Text(text.clone()),
            PcrIdsEntry::Integer(value) => PcrIdsEntry::Integer(*value),
            PcrIdsEntry::Float => PcrIdsEntry::Float,
            PcrIdsEntry::Other => PcrIdsEntry::Other,
        }
    }
}

impl Clone for PcrIds {
    fn clone(&self) -> (copy: Self)
        ensures
            copy@ == self@,
    {
        match self {
            PcrIds::Text(text) => PcrIds::Text(text.clone()),
            PcrIds::List(entries) => {
                let mut copies: Vec<PcrIdsEntry> = Vec::new();
                let mut at: usize = 0;
                while at < entries.len()
                    invariant
                        at <= entries.len(),
                        copies@ == entries@.take(at as int),
                    decreases entries.len() - at,
                {
                    copies.push(entries[at].clone());
                    proof {
                        assert(entries@.take(at + 1) =~= entries@.take(at as int).push(
                            entries@[at as int],
                        ));
                    }
                    at += 1;
                }
                proof {
                    assert(entries@.take(at as int) =~= entries@);
                }
                PcrIds::List(copies)
            },
            PcrIds::Other => PcrIds::Other,
        }
    }
}

/// The PCR index for a text that was read as a number.
pub fn index_from_parsed(parsed: ParsedNumber) -> (index: Result<u64, ConfigError>)
    ensures
        index == index_of_parsed(parsed),
{
    match parsed {
        ParsedNumber::Unsigned(value) => Ok(value),
        ParsedNumber::NotUnsigned => Err(ConfigError::NonPositiveStringInt),
        ParsedNumber::Malformed => Err(ConfigError::UnparseableStringInt),
    }
}

/// The PCR index that a text stands for.
pub fn index_from_text(text: &str) -> (index: Result<u64, ConfigError>)
    ensures
        index == index_of_text(text@),
{
    index_from_parsed(parse_json_number(trim(text)))
}

impl PcrIdsEntry {
    /// The PCR index that the entry stands for.
    pub fn index(&self) -> (index: Result<u64, ConfigError>)
        ensures
            index == index_of_entry(self@),
    {
        match self {
            PcrIdsEntry::Text(text) => index_from_text(text.as_str()),
            PcrIdsEntry::Integer(value) => {
                if 0 <= *value && *value <= u64::MAX as i128 {
                    Ok(*value as u64)
                } else {
                    Err(ConfigError::NonPositiveInt)
                }
            },
            PcrIdsEntry::Float => Err(ConfigError::NonPositiveInt),
            PcrIdsEntry::Other => Err(ConfigError::InvalidValue),
        }
    }

    /// The PCR index that the entry holds as an integer, if it holds one.
    pub fn index_held(&self) -> (held: Option<u64>)
        ensures
            match held {
                Some(id) => is_index(self@) && id == index_held(self@),
                None => !is_index(self@),
            },
    {
        match self {
            PcrIdsEntry::Integer(value) => {
                if 0 <= *value && *value <= u64::MAX as i128 {
                    Some(*value as u64)
                } else {
                    None
                }
            },
            _ => None,
        }
    }
}

/// The PCR indices that the entries stand for, in their order, or the error
/// of the first entry that stands for none.
pub fn indices_of(entries: &Vec<PcrIdsEntry>) -> (outcome: Result<Vec<u64>, ConfigError>)
    ensures
        match outcome {
            Ok(ids) => indices(entry_views(entries@)) == Ok::<Seq<u64>, ConfigError>(ids@),
            Err(error) => indices(entry_views(entries@)) == Err::<Seq<u64>, ConfigError>(error),
        },
{
    let mut ids: Vec<u64> = Vec::new();
    let mut at: usize = 0;
    proof {
        assert(entry_views(entries@).take(0) =~= Seq::<EntryView>::empty());
    }
    while at < entries.len()
        invariant
            at <= entries.len(),
            indices(entry_views(entries@).take(at as int)) == Ok::<Seq<u64>, ConfigError>(ids@),
        decreases entries.len() - at,
    {
        proof {
            let grown = entry_views(entries@).take(at + 1);
            assert(grown.drop_last() =~= entry_views(entries@).take(at as int));
            assert(grown.last() == entries@[at as int]@);
        }
        match entries[at].index() {
            Ok(id) => {
                ids.push(id);
            },
            Err(error) => {
                proof {
                    lemma_indices_error_persists(entry_views(entries@), at + 1);
                }
                return Err(error);
            },
        }
        at += 1;
    }
    proof {
        assert(entry_views(entries@).take(at as int) =~= entry_views(entries@));
    }
    Ok(ids)
}

/// Tells whether every entry is an integer from zero to `u64::MAX`.
pub fn hold_indices(entries: &Vec<PcrIdsEntry>) -> (all: bool)
    ensures
        all == all_indices(entry_views(entries@)),
{
    let mut at: usize = 0;
    while at < entries.len()
        invariant
            at <= entries.len(),
            forall|i: int| 0 <= i < at ==> is_index(#[trigger] entry_views(entries@)[i]),
        decreases entries.len() - at,
    {
        if entries[at].index_held().is_none() {
            assert(!is_index(entry_views(entries@)[at as int]));
            return false;
        }
        at += 1;
    }
    true
}

/// The entries that hold the given PCR indices as integers.
pub fn integer_entries(ids: &Vec<u64>) -> (entries: Vec<PcrIdsEntry>)
    ensures
        entry_views(entries@) == integers(ids@),
{
    let mut entries: Vec<PcrIdsEntry> = Vec::new();
    let mut at: usize = 0;
    while at < ids.len()
        invariant
            at <= ids.len(),
            entry_views(entries@) == integers(ids@.take(at as int)),
        decreases ids.len() - at,
    {
        let ghost before = entries@;
        entries.push(PcrIdsEntry::Integer(ids[at] as i128));
        proof {
            assert(entry_views(entries@) =~= entry_views(before).push(
                EntryView::Integer(ids@[at as int] as int),
            ));
            assert(integers(ids@.take(at + 1)) =~= integers(ids@.take(at as int)).push(
                EntryView::Integer(ids@[at as int] as int),
            ));
        }
        at += 1;
    }
    proof {
        assert(ids@.take(at as int) =~= ids@);
    }
    entries
}

/// The entries that hold the given texts.
pub fn text_entries_of(pieces: &Vec<String>) -> (entries: Vec<PcrIdsEntry>)
    ensures
        entry_views(entries@) == text_entries(texts(pieces@)),
{
    let mut entries: Vec<PcrIdsEntry> = Vec::new();
    let mut at: usize = 0;
    while at < pieces.len()
        invariant
            at <= pieces.len(),
            entry_views(entries@) == text_entries(texts(pieces@).take(at as int)),
        decreases pieces.len() - at,
    {
        let ghost before = entries@;
        entries.push(PcrIdsEntry::Text(pieces[at].clone()));
        proof {
            assert(entry_views(entries@) =~= entry_views(before).push(
                EntryView::Text(pieces@[at as int]@),
            ));
            assert(text_entries(texts(pieces@).take(at + 1)) =~= text_entries(
                texts(pieces@).take(at as int),
            ).push(EntryView::Text(pieces@[at as int]@)));
        }
        at += 1;
    }
    proof {
        assert(texts(pieces@).take(at as int) =~= texts(pieces@));
    }
    entries
}

impl PcrIds {
    /// Rewrites a list of exactly one text into that text.
    pub fn collapse_single_text(&mut self)
        ensures
            final(self)@ == old(self)@.collapsed(),
    {
        let mut single: Option<String> = None;
        match &*self {
            PcrIds::List(entries) => {
                if entries.len() == 1 {
                    match &entries[0] {
                        PcrIdsEntry::Text(text) => {
                            single = Some(text.clone());
                        },
                        _ => {},
                    }
                }
            },
            _ => {},
        }
        match single {
            Some(text) => {
                *self = PcrIds::Text(text);
            },
            None => {},
        }
    }

    /// Rewrites a text into the list of its trimmed pieces between commas.
    pub fn split_text(&mut self)
        ensures
            final(self)@ == old(self)@.split(),
    {
        let mut pieces: Option<Vec<String>> = None;
        match &*self {
            PcrIds::Text(text) => {
                pieces = Some(split_trimmed(text.as_str()));
            },
            _ => {},
        }
        match pieces {
            Some(pieces) => {
                *self = PcrIds::List(text_entries_of(&pieces));
            },
            None => {},
        }
    }

    /// Rewrites a list into the list of the indices that its entries stand
    /// for. Where an entry stands for none, the field is left as it was.
    pub fn number_entries(&mut self) -> (outcome: Result<(), ConfigError>)
        ensures
            match outcome {
                Ok(()) => old(self)@.numbered() == Ok::<PcrIdsView, ConfigError>(final(self)@),
                Err(error) => old(self)@.numbered() == Err::<PcrIdsView, ConfigError>(error)
                    && *final(self) == *old(self),
            },
    {
        let found: Option<Result<Vec<u64>, ConfigError>> = match &*self {
            PcrIds::List(entries) => Some(indices_of(entries)),
            _ => None,
        };
        match found {
            Some(Ok(ids)) => {
                *self = PcrIds::List(integer_entries(&ids));
                Ok(())
            },
            Some(Err(error)) => Err(error),
            None => Ok(()),
        }
    }

    /// Tells whether the field is a list.
    pub fn is_list(&self) -> (list: bool)
        ensures
            list == (self@ is List),
    {
        match self {
            PcrIds::List(_) => true,
            _ => false,
        }
    }

    /// Brings the field to its canonical form: a list of PCR indices. Where
    /// that fails, the field is left as the first two steps made it: a text
    /// split up, a list of one text split up as that text.
    pub fn normalize(&mut self) -> (outcome: Result<(), ConfigError>)
        ensures
            match outcome {
                Ok(()) => old(self)@.canonical() == Ok::<PcrIdsView, ConfigError>(final(self)@),
                Err(error) => old(self)@.canonical() == Err::<PcrIdsView, ConfigError>(error)
                    && final(self)@ == old(self)@.collapsed().split(),
            },
    {
        self.collapse_single_text();
        self.split_text();
        match self.number_entries() {
            Ok(()) => {},
            Err(error) => {
                return Err(error);
            },
        }
        if self.is_list() {
            Ok(())
        } else {
            Err(ConfigError::InvalidType)
        }
    }

    /// Tells whether the field is in canonical form.
    pub fn is_index_list(&self) -> (canonical: bool)
        ensures
            canonical == self@.is_canonical(),
    {
        match self {
            PcrIds::List(entries) => hold_indices(entries),
            _ => false,
        }
    }

    /// The PCR indices of a field in canonical form.
    pub fn index_list(&self) -> (ids: Vec<u64>)
        requires
            self@.is_canonical(),
        ensures
            ids@ == self@.index_list(),
    {
        let mut ids: Vec<u64> = Vec::new();
        match self {
            PcrIds::List(entries) => {
                let ghost all = entry_views(entries@).map_values(
                    |entry: EntryView| index_held(entry),
                );
                let mut at: usize = 0;
                while at < entries.len()
                    invariant
                        at <= entries.len(),
                        all_indices(entry_views(entries@)),
                        all == entry_views(entries@).map_values(
                            |entry: EntryView| index_held(entry),
                        ),
                        ids@ == all.take(at as int),
                    decreases entries.len() - at,
                {
                    assert(is_index(entry_views(entries@)[at as int]));
                    match entries[at].index_held() {
                        Some(id) => {
                            ids.push(id);
                        },
                        None => {},
                    }
                    proof {
                        assert(all.take(at + 1) =~= all.take(at as int).push(all[at as int]));
                    }
                    at += 1;
                }
                proof {
                    assert(all.take(at as int) =~= all);
                }
            },
            _ => {},
        }
        ids
    }
}

} // verus!
