use ghostex_desktop::added_project::{AddedPlacement, AddedProjectHost};
use ghostex_desktop::effects::Json;

#[test]
fn an_added_project_waits_for_its_group_then_goes_to_the_top() {
    let mut host = AddedProjectHost::new();
    host.note_added_project("p1", Some("m1"), true);
    assert_eq!(host.pending_project, Some((Some("m1".to_string()), "p1".to_string())));
    assert_eq!((host.counters.added, host.counters.remotes, host.counters.space_memberships), (1, 1, 1));
    assert!(host.place_added_project(AddedPlacement::Waiting).is_none());
    assert!(host.pending_project.is_some());
    let message = host
        .place_added_project(AddedPlacement::Placed(Some(vec!["g2".to_string(), "g1".to_string()])))
        .expect("an order");
    assert!(host.pending_project.is_none());
    assert_eq!(host.counters.placements, 1);
    match message {
        Json::Object(m) => {
            assert!(matches!(&m[0], (k, Json::Text(t)) if k == "type" && t == "syncGroupOrder"));
            match &m[1] {
                (k, Json::Array(ids)) => {
                    assert_eq!(k, "groupIds");
                    assert!(matches!(&ids[0], Json::Text(t) if t == "g2"));
                    assert!(matches!(&ids[1], Json::Text(t) if t == "g1"));
                }
                _ => panic!("an array was expected"),
            }
        }
        _ => panic!("an object was expected"),
    }
}

#[test]
fn a_project_already_in_place_is_counted_and_forgotten() {
    let mut host = AddedProjectHost::new();
    assert!(host.place_added_project(AddedPlacement::Placed(None)).is_none());
    assert_eq!(host.counters.placements_unchanged, 0);
    host.note_added_project("p1", None, false);
    assert_eq!(host.counters.space_memberships, 0);
    assert!(host.place_added_project(AddedPlacement::Placed(None)).is_none());
    assert_eq!(host.counters.placements_unchanged, 1);
    assert!(host.pending_project.is_none());
}
