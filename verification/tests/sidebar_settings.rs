use ghostex_desktop::keyed::KeyedMap;
use ghostex_desktop::sidebar::{armed_actions_changed, SettingsCache, SettingsStep};
use ghostex_desktop::sidebar_inputs::SessionSortMode;

fn actions(pairs: &[(&str, &str)]) -> Vec<(String, String)> {
    pairs.iter().map(|(id, label)| (id.to_string(), label.to_string())).collect()
}

#[test]
fn settings_are_read_when_nothing_is_held() {
    let cache = SettingsCache { held: None, read_at: None };
    assert_eq!(cache.settings_step(SessionSortMode::Manual, 5_000), SettingsStep::Read);
}

#[test]
fn settings_read_under_a_second_ago_stand() {
    let cache = SettingsCache { held: Some((7, SessionSortMode::Manual)), read_at: Some(4_200) };
    assert_eq!(cache.settings_step(SessionSortMode::Manual, 5_000), SettingsStep::Reuse);
    assert_eq!(cache.settings_step(SessionSortMode::Manual, 5_200), SettingsStep::Read);
    assert_eq!(cache.settings_step(SessionSortMode::LastActivity, 5_000), SettingsStep::Read);
}

#[test]
fn a_read_of_unchanged_settings_keeps_them() {
    let mut cache = SettingsCache { held: Some((7, SessionSortMode::Manual)), read_at: Some(1_000) };
    assert_eq!(cache.after_read(7, SessionSortMode::Manual, 9_000), SettingsStep::Reuse);
    assert_eq!(cache.read_at, Some(9_000));
    assert_eq!(cache.after_read(8, SessionSortMode::Manual, 9_500), SettingsStep::Read);
    assert_eq!(cache.held, Some((8, SessionSortMode::Manual)));
    assert_eq!(cache.after_read(8, SessionSortMode::LastActivity, 9_600), SettingsStep::Read);
    assert_eq!(cache.held, Some((8, SessionSortMode::LastActivity)));
}

#[test]
fn armed_actions_compare_by_session_and_label() {
    let mut current: KeyedMap<Vec<(String, String)>> = KeyedMap::new();
    current.put("s1", actions(&[("delayed-send", "Send in 5s")]));
    let same = vec![("s1".to_string(), actions(&[("delayed-send", "Send in 5s")]))];
    assert!(!armed_actions_changed(&same, &current));
    let relabelled = vec![("s1".to_string(), actions(&[("delayed-send", "Send in 4s")]))];
    assert!(armed_actions_changed(&relabelled, &current));
    let other = vec![("s2".to_string(), actions(&[("delayed-send", "Send in 5s")]))];
    assert!(armed_actions_changed(&other, &current));
    let more = vec![
        ("s1".to_string(), actions(&[("delayed-send", "Send in 5s")])),
        ("s2".to_string(), actions(&[])),
    ];
    assert!(armed_actions_changed(&more, &current));
}
