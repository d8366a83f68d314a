use ghostex_desktop::effects::Json;
use ghostex_desktop::json_fields::{get, member};
use ghostex_desktop::keyed::KeyedMap;
use ghostex_desktop::sidebar_inputs::{
    close_after_done, delayed_send, detail_bool, detail_str, detail_u64,
    project_diff_stats, refresh_mirrored, sort_mode, MirroredInputs, ProjectDiffStats,
    ProjectKeyParts, PublishedGroup, PublishedSession, PublishedSnapshot, RecentProject,
    SessionSortMode,
};

fn text(s: &str) -> Json {
    Json::Text(s.to_string())
}

fn object(members: Vec<(&str, Json)>) -> Json {
    Json::Object(members.into_iter().map(|(k, v)| (k.to_string(), v)).collect())
}

fn session(id: &str, details: Vec<(&str, Json)>) -> PublishedSession {
    PublishedSession {
        session_id: id.to_string(),
        details: details.into_iter().map(|(k, v)| (k.to_string(), v)).collect(),
    }
}

fn snapshot(hud: Vec<(&str, Json)>) -> PublishedSnapshot {
    PublishedSnapshot {
        hud: hud.into_iter().map(|(k, v)| (k.to_string(), v)).collect(),
        recent_projects: Vec::new(),
        groups: Vec::new(),
    }
}

fn empty_host() -> MirroredInputs {
    MirroredInputs {
        recent_project_ids: KeyedMap::new(),
        remote_recent_project_ids: KeyedMap::new(),
        recent_project_count: 0,
        project_diff_stats: KeyedMap::new(),
        close_after_done: KeyedMap::new(),
        local_delayed_sends: KeyedMap::new(),
    }
}

fn keys<V>(map: &KeyedMap<V>) -> Vec<&str> {
    map.entries.iter().map(|(k, _)| k.as_str()).collect()
}

#[test]
fn member_takes_the_first_under_its_key() {
    let members = vec![
        ("a".to_string(), Json::UInt(1)),
        ("b".to_string(), Json::UInt(2)),
        ("a".to_string(), Json::UInt(3)),
    ];
    assert!(matches!(member(&members, "a"), Some(Json::UInt(1))));
    assert!(matches!(member(&members, "b"), Some(Json::UInt(2))));
    assert!(member(&members, "c").is_none());
    assert!(get(&text("a"), "a").is_none());
}

#[test]
fn sort_mode_is_manual_only_when_the_hud_says_so() {
    assert_eq!(sort_mode(None), SessionSortMode::LastActivity);
    let manual = snapshot(vec![("activeSessionsSortMode", text("manual"))]);
    assert_eq!(sort_mode(Some(&manual)), SessionSortMode::Manual);
    let other = snapshot(vec![("activeSessionsSortMode", text("lastActivity"))]);
    assert_eq!(sort_mode(Some(&other)), SessionSortMode::LastActivity);
    let not_text = snapshot(vec![("activeSessionsSortMode", Json::Bool(true))]);
    assert_eq!(sort_mode(Some(&not_text)), SessionSortMode::LastActivity);
    let missing = snapshot(vec![]);
    assert_eq!(sort_mode(Some(&missing)), SessionSortMode::LastActivity);
}

#[test]
fn details_are_read_by_their_type() {
    let row = session(
        "s1",
        vec![
            ("flag", Json::Bool(true)),
            ("off", Json::Bool(false)),
            ("label", text("2m")),
            ("count", Json::UInt(7)),
            ("negative", Json::Int(-4)),
        ],
    );
    assert!(detail_bool(&row, "flag"));
    assert!(!detail_bool(&row, "off"));
    assert!(!detail_bool(&row, "label"));
    assert!(!detail_bool(&row, "missing"));
    assert_eq!(detail_str(&row, "label"), Some("2m"));
    assert_eq!(detail_str(&row, "count"), None);
    assert_eq!(detail_u64(&row, "count"), 7);
    assert_eq!(detail_u64(&row, "negative"), 0);
    assert_eq!(detail_u64(&row, "label"), 0);
}

#[test]
fn diff_stats_need_an_editor_id_and_stats() {
    let context = object(vec![(
        "editor",
        object(vec![
            ("projectId", text("p1")),
            (
                "diffStats",
                object(vec![
                    ("additions", Json::UInt(12)),
                    ("deletions", Json::Int(-1)),
                    ("files", text("3")),
                    ("isLoading", Json::Bool(true)),
                    ("isRepo", Json::Bool(false)),
                ]),
            ),
        ]),
    )]);
    let (id, stats) = project_diff_stats(Some(&context)).expect("stats");
    assert_eq!(id, "p1");
    assert_eq!(
        stats,
        ProjectDiffStats { additions: 12, deletions: -1, files: 0, is_loading: true, is_repo: false }
    );
    let no_stats = object(vec![("editor", object(vec![("projectId", text("p1"))]))]);
    assert!(project_diff_stats(Some(&no_stats)).is_none());
    let id_not_text = object(vec![(
        "editor",
        object(vec![("projectId", Json::UInt(1)), ("diffStats", object(vec![]))]),
    )]);
    assert!(project_diff_stats(Some(&id_not_text)).is_none());
    assert!(project_diff_stats(None).is_none());
    let stats_not_object = object(vec![(
        "editor",
        object(vec![("projectId", text("p2")), ("diffStats", Json::Null)]),
    )]);
    let (_, zeros) = project_diff_stats(Some(&stats_not_object)).expect("zeros");
    assert_eq!(
        zeros,
        ProjectDiffStats { additions: 0, deletions: 0, files: 0, is_loading: false, is_repo: false }
    );
    let huge = object(vec![(
        "editor",
        object(vec![
            ("projectId", text("p3")),
            ("diffStats", object(vec![("additions", Json::UInt(u64::MAX))])),
        ]),
    )]);
    assert_eq!(project_diff_stats(Some(&huge)).expect("huge").1.additions, 0);
}

#[test]
fn close_after_done_needs_an_armed_flag_a_deadline_or_a_label() {
    let armed = close_after_done(&session("s", vec![("closeAfterDone", Json::Bool(true))]))
        .expect("armed");
    assert!(armed.armed);
    assert_eq!(armed.deadline_at, None);
    assert_eq!(armed.remaining_label, None);
    assert_eq!(armed.remaining_ms, None);
    let counting = close_after_done(&session(
        "s",
        vec![
            ("closeAfterDoneRemainingLabel", text("1m")),
            ("closeAfterDoneRemainingMs", Json::UInt(60000)),
        ],
    ))
    .expect("label");
    assert!(!counting.armed);
    assert_eq!(counting.remaining_label.as_deref(), Some("1m"));
    assert_eq!(counting.remaining_ms, Some(60000));
    assert!(close_after_done(&session("s", vec![("closeAfterDoneRemainingMs", Json::UInt(5))]))
        .is_none());
    assert!(close_after_done(&session("s", vec![])).is_none());
}

#[test]
fn delayed_send_is_present_when_any_of_its_values_is() {
    let ms = delayed_send(&session("s", vec![("delayedSendRemainingMs", Json::Int(-20))]))
        .expect("ms");
    assert_eq!(ms.remaining_ms, Some(-20));
    assert!(!ms.send_when_agent_stops_active);
    let agent = delayed_send(&session("s", vec![("sendWhenAgentStopsActive", Json::Bool(true))]))
        .expect("agent");
    assert!(agent.send_when_agent_stops_active);
    assert!(!agent.send_when_all_project_sessions_stop_active);
    let deadline = delayed_send(&session(
        "s",
        vec![("delayedSendDeadlineAt", text("2026-01-01T00:00:00Z"))],
    ))
    .expect("deadline");
    assert_eq!(deadline.deadline_at.as_deref(), Some("2026-01-01T00:00:00Z"));
    assert!(delayed_send(&session("s", vec![("sendWhenAgentStopsActive", Json::Bool(false))]))
        .is_none());
}

fn recent(entry: Json, parsed: Option<(Option<&str>, &str)>) -> RecentProject {
    RecentProject {
        entry,
        parsed_project: parsed.map(|(machine, id)| ProjectKeyParts {
            remote_machine: machine.map(str::to_string),
            project_id: id.to_string(),
        }),
    }
}

#[test]
fn refresh_mirrored_takes_everything_from_the_newest_publish() {
    let mut host = empty_host();
    host.recent_project_ids.put("stale", ());
    host.recent_project_count = 9;
    let published = PublishedSnapshot {
        hud: Vec::new(),
        recent_projects: vec![
            recent(object(vec![("projectId", text("local-1"))]), Some((None, "local-1"))),
            recent(
                object(vec![
                    ("projectId", text("remote:m1:project:raw-7")),
                    ("remoteMachineId", text("m1")),
                ]),
                Some((Some("m1"), "raw-7")),
            ),
            // Its id names another machine, so it is not m2's to hide.
            recent(
                object(vec![
                    ("projectId", text("remote:m1:project:raw-8")),
                    ("remoteMachineId", text("m2")),
                ]),
                Some((Some("m1"), "raw-8")),
            ),
            // A remote entry never hides a local project, whatever its id.
            recent(
                object(vec![("projectId", text("local-1b")), ("remoteMachineId", Json::Null)]),
                None,
            ),
            recent(text("not an object"), None),
        ],
        groups: vec![
            PublishedGroup {
                project_context: Some(object(vec![(
                    "editor",
                    object(vec![
                        ("projectId", text("p1")),
                        ("diffStats", object(vec![("files", Json::UInt(2))])),
                    ]),
                )])),
                sessions: vec![
                    session("a", vec![("closeAfterDone", Json::Bool(true))]),
                    session("b", vec![("delayedSendRemainingLabel", text("30s"))]),
                ],
            },
            PublishedGroup {
                project_context: Some(object(vec![(
                    "editor",
                    object(vec![
                        ("projectId", text("p1")),
                        ("diffStats", object(vec![("files", Json::UInt(5))])),
                    ]),
                )])),
                sessions: vec![session("c", vec![])],
            },
        ],
    };
    refresh_mirrored(&mut host, Some(&published));
    assert_eq!(keys(&host.recent_project_ids), vec!["local-1"]);
    assert_eq!(keys(&host.remote_recent_project_ids), vec!["m1"]);
    assert_eq!(keys(&host.remote_recent_project_ids.entries[0].1), vec!["raw-7"]);
    assert_eq!(host.recent_project_count, 5);
    assert_eq!(keys(&host.project_diff_stats), vec!["p1"]);
    assert_eq!(host.project_diff_stats.entries[0].1.files, 5);
    assert_eq!(keys(&host.close_after_done), vec!["a"]);
    assert_eq!(keys(&host.local_delayed_sends), vec!["b"]);

    refresh_mirrored(&mut host, None);
    assert!(host.recent_project_ids.entries.is_empty());
    assert!(host.remote_recent_project_ids.entries.is_empty());
    assert_eq!(host.recent_project_count, 0);
    assert!(host.project_diff_stats.entries.is_empty());
    assert!(host.close_after_done.entries.is_empty());
    assert!(host.local_delayed_sends.entries.is_empty());
}

#[test]
fn one_machine_gathers_every_parked_project_of_its_own() {
    let mut host = empty_host();
    let entry = |raw: &str| {
        recent(
            object(vec![
                ("projectId", text(&format!("remote:m1:project:{raw}"))),
                ("remoteMachineId", text("m1")),
            ]),
            Some((Some("m1"), raw)),
        )
    };
    let published = PublishedSnapshot {
        hud: Vec::new(),
        recent_projects: vec![entry("b"), entry("a"), entry("b")],
        groups: Vec::new(),
    };
    refresh_mirrored(&mut host, Some(&published));
    assert_eq!(keys(&host.remote_recent_project_ids.entries[0].1), vec!["a", "b"]);
    assert_eq!(host.recent_project_count, 3);
}
