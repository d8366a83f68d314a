use ghostex_desktop::revision_ranges::{dismissal_writes, DismissalGroup, DismissalWrite};
use ghostex_desktop::revision_ranges::{
    group_dismissals, merge_in_order_ranges, merge_revision_ranges, ranges, shrunk_marker,
    sort_by_start, Marker,
};

#[test]
fn adjacent_and_overlapping_revisions_fold_into_one_range() {
    let merged = merge_revision_ranges(vec![(1, 3)], vec![(4, 4), (2, 2), (9, 9)]);
    assert_eq!(merged, vec![(1, 4), (9, 9)]);
}

#[test]
fn gaps_are_kept_between_ranges() {
    let merged = merge_revision_ranges(vec![], vec![(5, 5), (1, 1), (3, 3)]);
    assert_eq!(merged, vec![(1, 1), (3, 3), (5, 5)]);
}

#[test]
fn a_range_inside_another_leaves_the_outer_end() {
    let merged = merge_revision_ranges(vec![(1, 10)], vec![(2, 3)]);
    assert_eq!(merged, vec![(1, 10)]);
}

#[test]
fn nothing_merged_is_nothing() {
    assert_eq!(merge_revision_ranges(vec![], vec![]), Vec::<(i64, i64)>::new());
}

#[test]
fn merged_ranges_cover_exactly_the_revisions_given() {
    let previous = vec![(1, 2), (7, 8)];
    let added = vec![(3, 3), (10, 12), (-4, -2)];
    let merged = merge_revision_ranges(previous.clone(), added.clone());
    for v in -10..20i64 {
        let before = previous.iter().chain(added.iter()).any(|&(s, e)| s <= v && v <= e);
        let after = merged.iter().any(|&(s, e)| s <= v && v <= e);
        assert_eq!(before, after, "revision {v}");
    }
}

#[test]
fn sorting_by_start_is_stable() {
    let sorted = sort_by_start(vec![(3, 9), (1, 1), (3, 4), (2, 2), (3, 3)]);
    assert_eq!(sorted, vec![(1, 1), (2, 2), (3, 9), (3, 4), (3, 3)]);
}

#[test]
fn folding_in_order_joins_only_touching_ranges() {
    assert_eq!(
        merge_in_order_ranges(&vec![(1, 2), (3, 5), (7, 7), (7, 9)]),
        vec![(1, 5), (7, 9)]
    );
}

#[test]
fn ranges_are_written_as_json_pairs() {
    assert_eq!(ranges(vec![(1, 3)], vec![(4, 4), (8, 8)]), "[[1,4],[8,8]]");
    assert_eq!(ranges(vec![], vec![]), "[]");
}

#[test]
fn a_legacy_marker_is_shrunk_when_the_array_form_is_shorter() {
    let marker = Marker {
        session_key: "s".to_string(),
        draft_id: "d".to_string(),
        revision: 7,
    };
    let legacy = r#"{"sessionKey":"s","draftId":"d","revision":7}"#;
    assert_eq!(shrunk_marker(&marker, legacy), Some(r#"["s","d",7]"#.to_string()));
    assert_eq!(shrunk_marker(&marker, r#"["s","d",7]"#), None);
}

#[test]
fn dismissals_group_by_key_in_first_appearance_order() {
    let markers = vec![
        ("m1".to_string(), "b".to_string(), 2),
        ("m2".to_string(), "a".to_string(), 5),
        ("m3".to_string(), "b".to_string(), 3),
    ];
    let groups = group_dismissals(&markers);
    assert_eq!(groups.len(), 2);
    assert_eq!(groups[0].key, "b");
    assert_eq!(groups[0].names, vec!["m1".to_string(), "m3".to_string()]);
    assert_eq!(groups[0].revisions, vec![(2, 2), (3, 3)]);
    assert_eq!(groups[1].key, "a");
    assert_eq!(groups[1].names, vec!["m2".to_string()]);
    assert_eq!(groups[1].revisions, vec![(5, 5)]);
}

#[test]
fn a_drafts_ranges_are_stored_before_its_markers_go() {
    let group = DismissalGroup {
        key: r#"["s","d"]"#.to_string(),
        names: vec!["s:1".to_string(), "s:2".to_string()],
        revisions: vec![(3, 3), (2, 2)],
    };
    assert_eq!(
        dismissal_writes(group, vec![(5, 6)]),
        vec![
            DismissalWrite::Ranges { suffix: r#"["s","d"]"#.to_string(), text: "[[2,3],[5,6]]".to_string() },
            DismissalWrite::RemoveMarker { suffix: "s:1".to_string() },
            DismissalWrite::RemoveMarker { suffix: "s:2".to_string() },
        ]
    );
}
