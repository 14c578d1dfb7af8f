use clevis_pin_tpm2::error::ConfigError;
use clevis_pin_tpm2::number::ParsedNumber;
use clevis_pin_tpm2::pcr_ids::{
    hold_indices, index_from_parsed, index_from_text, indices_of, integer_entries,
    text_entries_of, PcrIds, PcrIdsEntry,
};

fn text(value: &str) -> PcrIdsEntry {
    PcrIdsEntry::Text(value.to_string())
}

fn integers(ids: &[u64]) -> Vec<PcrIdsEntry> {
    ids.iter().map(|id| PcrIdsEntry::Integer(*id as i128)).collect()
}

fn normalized(mut ids: PcrIds) -> Result<PcrIds, ConfigError> {
    ids.normalize().map(|()| ids)
}

#[test]
fn four_shapes_give_the_same_list() {
    let expected = Ok(PcrIds::List(integers(&[1, 7])));
    assert_eq!(normalized(PcrIds::Text("1,7".to_string())), expected);
    assert_eq!(normalized(PcrIds::List(vec![text("1"), text("7")])), expected);
    assert_eq!(normalized(PcrIds::List(integers(&[1, 7]))), expected);
    assert_eq!(
        normalized(PcrIds::List(vec![text("7")])),
        normalized(PcrIds::Text("7".to_string()))
    );
    assert_eq!(
        normalized(PcrIds::List(vec![text("7")])),
        Ok(PcrIds::List(integers(&[7])))
    );
}

#[test]
fn comma_separated_text_with_spaces() {
    assert_eq!(
        normalized(PcrIds::Text("1, 7,12".to_string())),
        Ok(PcrIds::List(integers(&[1, 7, 12])))
    );
}

#[test]
fn order_and_duplicates_are_kept() {
    assert_eq!(
        normalized(PcrIds::Text("12,1,7,1".to_string())),
        Ok(PcrIds::List(integers(&[12, 1, 7, 1])))
    );
    assert_eq!(
        normalized(PcrIds::List(integers(&[9, 3, 9]))),
        Ok(PcrIds::List(integers(&[9, 3, 9])))
    );
}

#[test]
fn single_text_in_a_list_is_split_like_a_text() {
    assert_eq!(
        normalized(PcrIds::List(vec![text("1, 7,12")])),
        Ok(PcrIds::List(integers(&[1, 7, 12])))
    );
}

#[test]
fn texts_in_a_longer_list_are_not_split() {
    assert_eq!(
        normalized(PcrIds::List(vec![text("1,2"), text("3")])),
        Err(ConfigError::UnparseableStringInt)
    );
}

#[test]
fn mixed_list_of_texts_and_integers() {
    assert_eq!(
        normalized(PcrIds::List(vec![text(" 4 "), PcrIdsEntry::Integer(5), text("6")])),
        Ok(PcrIds::List(integers(&[4, 5, 6])))
    );
}

#[test]
fn empty_list_stays_empty() {
    assert_eq!(normalized(PcrIds::List(vec![])), Ok(PcrIds::List(vec![])));
}

#[test]
fn canonical_list_is_left_alone() {
    let canonical = PcrIds::List(integers(&[0, 23, 7]));
    let once = normalized(canonical.clone()).unwrap();
    assert_eq!(once, canonical);
    let twice = normalized(once.clone()).unwrap();
    assert_eq!(twice, once);
}

#[test]
fn normalizing_twice_is_normalizing_once() {
    let once = normalized(PcrIds::Text(" 3,1 ,2".to_string())).unwrap();
    assert_eq!(normalized(once.clone()), Ok(once));
}

#[test]
fn negative_integer_is_rejected() {
    assert_eq!(
        normalized(PcrIds::List(vec![PcrIdsEntry::Integer(-1)])),
        Err(ConfigError::NonPositiveInt)
    );
    assert_eq!(
        normalized(PcrIds::List(vec![PcrIdsEntry::Integer(1), PcrIdsEntry::Integer(-7)])),
        Err(ConfigError::NonPositiveInt)
    );
}

#[test]
fn float_is_rejected() {
    assert_eq!(
        normalized(PcrIds::List(vec![PcrIdsEntry::Integer(1), PcrIdsEntry::Float])),
        Err(ConfigError::NonPositiveInt)
    );
}

#[test]
fn integer_beyond_u64_is_rejected() {
    assert_eq!(
        normalized(PcrIds::List(vec![PcrIdsEntry::Integer(18446744073709551616)])),
        Err(ConfigError::NonPositiveInt)
    );
    assert_eq!(
        normalized(PcrIds::List(vec![PcrIdsEntry::Integer(18446744073709551615)])),
        Ok(PcrIds::List(integers(&[u64::MAX])))
    );
}

#[test]
fn negative_text_is_rejected() {
    assert_eq!(
        normalized(PcrIds::Text("-1".to_string())),
        Err(ConfigError::NonPositiveStringInt)
    );
    assert_eq!(
        normalized(PcrIds::List(vec![text("1"), text("-7")])),
        Err(ConfigError::NonPositiveStringInt)
    );
}

#[test]
fn text_that_is_no_number_is_rejected() {
    assert_eq!(
        normalized(PcrIds::Text("seven".to_string())),
        Err(ConfigError::UnparseableStringInt)
    );
    assert_eq!(
        normalized(PcrIds::List(vec![text("1"), text("x")])),
        Err(ConfigError::UnparseableStringInt)
    );
    assert_eq!(normalized(PcrIds::Text("".to_string())), Err(ConfigError::UnparseableStringInt));
    assert_eq!(normalized(PcrIds::Text("1,".to_string())), Err(ConfigError::UnparseableStringInt));
    assert_eq!(
        normalized(PcrIds::Text("1,,2".to_string())),
        Err(ConfigError::UnparseableStringInt)
    );
}

#[test]
fn other_entry_is_rejected() {
    assert_eq!(
        normalized(PcrIds::List(vec![PcrIdsEntry::Integer(1), PcrIdsEntry::Other])),
        Err(ConfigError::InvalidValue)
    );
}

#[test]
fn other_shape_is_rejected() {
    assert_eq!(normalized(PcrIds::Other), Err(ConfigError::InvalidType));
}

#[test]
fn first_bad_entry_decides_the_error() {
    assert_eq!(
        normalized(PcrIds::List(vec![
            PcrIdsEntry::Integer(1),
            PcrIdsEntry::Other,
            PcrIdsEntry::Integer(-1),
            text("x"),
        ])),
        Err(ConfigError::InvalidValue)
    );
    assert_eq!(
        normalized(PcrIds::List(vec![text("x"), PcrIdsEntry::Other])),
        Err(ConfigError::UnparseableStringInt)
    );
    assert_eq!(
        normalized(PcrIds::Text("1,-2,x".to_string())),
        Err(ConfigError::NonPositiveStringInt)
    );
}

#[test]
fn rejected_field_is_left_split() {
    let mut ids = PcrIds::Text("1, x".to_string());
    assert_eq!(ids.normalize(), Err(ConfigError::UnparseableStringInt));
    assert_eq!(ids, PcrIds::List(vec![text("1"), text("x")]));

    let mut ids = PcrIds::List(vec![text(" 1,-2 ")]);
    assert_eq!(ids.normalize(), Err(ConfigError::NonPositiveStringInt));
    assert_eq!(ids, PcrIds::List(vec![text("1"), text("-2")]));

    let mut ids = PcrIds::List(vec![text(" 1 "), PcrIdsEntry::Integer(-2)]);
    assert_eq!(ids.normalize(), Err(ConfigError::NonPositiveInt));
    assert_eq!(ids, PcrIds::List(vec![text(" 1 "), PcrIdsEntry::Integer(-2)]));

    let mut ids = PcrIds::Other;
    assert_eq!(ids.normalize(), Err(ConfigError::InvalidType));
    assert_eq!(ids, PcrIds::Other);
}

#[test]
fn collapse_single_text_rewrites_only_a_list_of_one_text() {
    let mut ids = PcrIds::List(vec![text("1,2")]);
    ids.collapse_single_text();
    assert_eq!(ids, PcrIds::Text("1,2".to_string()));
    ids.collapse_single_text();
    assert_eq!(ids, PcrIds::Text("1,2".to_string()));

    let mut ids = PcrIds::List(vec![text("1"), text("2")]);
    ids.collapse_single_text();
    assert_eq!(ids, PcrIds::List(vec![text("1"), text("2")]));

    let mut ids = PcrIds::List(vec![PcrIdsEntry::Integer(1)]);
    ids.collapse_single_text();
    assert_eq!(ids, PcrIds::List(vec![PcrIdsEntry::Integer(1)]));

    let mut ids = PcrIds::List(vec![]);
    ids.collapse_single_text();
    assert_eq!(ids, PcrIds::List(vec![]));

    let mut ids = PcrIds::Other;
    ids.collapse_single_text();
    assert_eq!(ids, PcrIds::Other);
}

#[test]
fn split_text_rewrites_only_a_text() {
    let mut ids = PcrIds::Text(" 1 , x,".to_string());
    ids.split_text();
    assert_eq!(ids, PcrIds::List(vec![text("1"), text("x"), text("")]));
    ids.split_text();
    assert_eq!(ids, PcrIds::List(vec![text("1"), text("x"), text("")]));

    let mut ids = PcrIds::List(vec![text("1,2")]);
    ids.split_text();
    assert_eq!(ids, PcrIds::List(vec![text("1,2")]));

    let mut ids = PcrIds::Other;
    ids.split_text();
    assert_eq!(ids, PcrIds::Other);
}

#[test]
fn number_entries_rewrites_only_a_list() {
    let mut ids = PcrIds::List(vec![text(" 1"), PcrIdsEntry::Integer(2)]);
    assert_eq!(ids.number_entries(), Ok(()));
    assert_eq!(ids, PcrIds::List(integers(&[1, 2])));
    assert_eq!(ids.number_entries(), Ok(()));
    assert_eq!(ids, PcrIds::List(integers(&[1, 2])));

    let mut ids = PcrIds::List(vec![text("1"), PcrIdsEntry::Float]);
    assert_eq!(ids.number_entries(), Err(ConfigError::NonPositiveInt));
    assert_eq!(ids, PcrIds::List(vec![text("1"), PcrIdsEntry::Float]));

    let mut ids = PcrIds::Text("1".to_string());
    assert_eq!(ids.number_entries(), Ok(()));
    assert_eq!(ids, PcrIds::Text("1".to_string()));

    let mut ids = PcrIds::Other;
    assert_eq!(ids.number_entries(), Ok(()));
    assert_eq!(ids, PcrIds::Other);
}

#[test]
fn is_list_tells_lists_apart() {
    assert!(PcrIds::List(vec![]).is_list());
    assert!(PcrIds::List(vec![PcrIdsEntry::Other]).is_list());
    assert!(!PcrIds::Text("1".to_string()).is_list());
    assert!(!PcrIds::Other.is_list());
}

#[test]
fn index_from_text_reads_unsigned_integers() {
    assert_eq!(index_from_text("7"), Ok(7));
    assert_eq!(index_from_text("0"), Ok(0));
    assert_eq!(index_from_text(" 7 "), Ok(7));
    assert_eq!(index_from_text("\t23\n"), Ok(23));
    assert_eq!(index_from_text("18446744073709551615"), Ok(u64::MAX));
}

#[test]
fn index_from_text_rejects_other_numbers() {
    assert_eq!(index_from_text("-1"), Err(ConfigError::NonPositiveStringInt));
    assert_eq!(index_from_text(" -12 "), Err(ConfigError::NonPositiveStringInt));
    assert_eq!(index_from_text("-0"), Err(ConfigError::NonPositiveStringInt));
    assert_eq!(index_from_text("1.5"), Err(ConfigError::NonPositiveStringInt));
    assert_eq!(index_from_text("1.0"), Err(ConfigError::NonPositiveStringInt));
    assert_eq!(index_from_text("1e2"), Err(ConfigError::NonPositiveStringInt));
    assert_eq!(index_from_text("18446744073709551616"), Err(ConfigError::NonPositiveStringInt));
}

#[test]
fn index_from_text_rejects_what_is_no_number() {
    assert_eq!(index_from_text(""), Err(ConfigError::UnparseableStringInt));
    assert_eq!(index_from_text("   "), Err(ConfigError::UnparseableStringInt));
    assert_eq!(index_from_text("seven"), Err(ConfigError::UnparseableStringInt));
    assert_eq!(index_from_text("7a"), Err(ConfigError::UnparseableStringInt));
    assert_eq!(index_from_text("1 2"), Err(ConfigError::UnparseableStringInt));
    assert_eq!(index_from_text("1,2"), Err(ConfigError::UnparseableStringInt));
    assert_eq!(index_from_text("+1"), Err(ConfigError::UnparseableStringInt));
    assert_eq!(index_from_text("01"), Err(ConfigError::UnparseableStringInt));
    assert_eq!(index_from_text("0x10"), Err(ConfigError::UnparseableStringInt));
    assert_eq!(index_from_text("-"), Err(ConfigError::UnparseableStringInt));
    assert_eq!(index_from_text("1."), Err(ConfigError::UnparseableStringInt));
    assert_eq!(index_from_text("\"1\""), Err(ConfigError::UnparseableStringInt));
    assert_eq!(index_from_text("null"), Err(ConfigError::UnparseableStringInt));
}

#[test]
fn index_from_parsed_maps_each_outcome() {
    assert_eq!(index_from_parsed(ParsedNumber::Unsigned(0)), Ok(0));
    assert_eq!(index_from_parsed(ParsedNumber::Unsigned(u64::MAX)), Ok(u64::MAX));
    assert_eq!(
        index_from_parsed(ParsedNumber::NotUnsigned),
        Err(ConfigError::NonPositiveStringInt)
    );
    assert_eq!(index_from_parsed(ParsedNumber::Malformed), Err(ConfigError::UnparseableStringInt));
}

#[test]
fn entry_index_for_each_kind_of_entry() {
    assert_eq!(text(" 5 ").index(), Ok(5));
    assert_eq!(text("-5").index(), Err(ConfigError::NonPositiveStringInt));
    assert_eq!(text("five").index(), Err(ConfigError::UnparseableStringInt));
    assert_eq!(PcrIdsEntry::Integer(0).index(), Ok(0));
    assert_eq!(PcrIdsEntry::Integer(u64::MAX as i128).index(), Ok(u64::MAX));
    assert_eq!(PcrIdsEntry::Integer(u64::MAX as i128 + 1).index(), Err(ConfigError::NonPositiveInt));
    assert_eq!(PcrIdsEntry::Integer(-1).index(), Err(ConfigError::NonPositiveInt));
    assert_eq!(PcrIdsEntry::Integer(i128::MIN).index(), Err(ConfigError::NonPositiveInt));
    assert_eq!(PcrIdsEntry::Float.index(), Err(ConfigError::NonPositiveInt));
    assert_eq!(PcrIdsEntry::Other.index(), Err(ConfigError::InvalidValue));
}

#[test]
fn entry_index_held_only_for_integers_in_range() {
    assert_eq!(PcrIdsEntry::Integer(7).index_held(), Some(7));
    assert_eq!(PcrIdsEntry::Integer(u64::MAX as i128).index_held(), Some(u64::MAX));
    assert_eq!(PcrIdsEntry::Integer(-7).index_held(), None);
    assert_eq!(PcrIdsEntry::Integer(u64::MAX as i128 + 1).index_held(), None);
    assert_eq!(text("7").index_held(), None);
    assert_eq!(PcrIdsEntry::Float.index_held(), None);
    assert_eq!(PcrIdsEntry::Other.index_held(), None);
}

#[test]
fn indices_of_entries() {
    assert_eq!(indices_of(&vec![]), Ok(vec![]));
    assert_eq!(indices_of(&vec![text("3"), PcrIdsEntry::Integer(1)]), Ok(vec![3, 1]));
    assert_eq!(
        indices_of(&vec![text("3"), PcrIdsEntry::Other, PcrIdsEntry::Float]),
        Err(ConfigError::InvalidValue)
    );
}

#[test]
fn entries_from_indices_and_texts() {
    assert_eq!(integer_entries(&vec![]), vec![]);
    assert_eq!(
        integer_entries(&vec![3, u64::MAX]),
        vec![PcrIdsEntry::Integer(3), PcrIdsEntry::Integer(18446744073709551615)]
    );
    assert_eq!(text_entries_of(&vec![]), vec![]);
    assert_eq!(
        text_entries_of(&vec!["a".to_string(), " b".to_string()]),
        vec![text("a"), text(" b")]
    );
}

#[test]
fn canonical_form_is_recognised() {
    assert!(PcrIds::List(vec![]).is_index_list());
    assert!(PcrIds::List(integers(&[1, 7, u64::MAX])).is_index_list());
    assert!(!PcrIds::List(vec![PcrIdsEntry::Integer(1), text("7")]).is_index_list());
    assert!(!PcrIds::List(vec![PcrIdsEntry::Integer(-1)]).is_index_list());
    assert!(!PcrIds::List(vec![PcrIdsEntry::Float]).is_index_list());
    assert!(!PcrIds::List(vec![PcrIdsEntry::Other]).is_index_list());
    assert!(!PcrIds::Text("1".to_string()).is_index_list());
    assert!(!PcrIds::Other.is_index_list());
    assert!(hold_indices(&integers(&[4, 5])));
    assert!(!hold_indices(&vec![PcrIdsEntry::Integer(4), PcrIdsEntry::Float]));
}

#[test]
fn index_list_of_canonical_form() {
    assert_eq!(PcrIds::List(vec![]).index_list(), Vec::<u64>::new());
    assert_eq!(PcrIds::List(integers(&[7, 1, 7])).index_list(), vec![7, 1, 7]);
    assert_eq!(PcrIds::List(integers(&[u64::MAX])).index_list(), vec![u64::MAX]);
}

#[test]
fn clone_gives_an_equal_value() {
    let samples = vec![
        PcrIds::Text("1, 2".to_string()),
        PcrIds::List(vec![text("1"), PcrIdsEntry::Integer(-2), PcrIdsEntry::Float, PcrIdsEntry::Other]),
        PcrIds::List(vec![]),
        PcrIds::Other,
    ];
    for sample in samples {
        assert_eq!(sample.clone(), sample);
    }
    assert_eq!(text("x").clone(), text("x"));
}
