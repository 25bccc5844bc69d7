use agent_runtime::registry::{plan_manifest_loading, LoadEnd};

fn h(id: &str, extends: Option<&str>) -> Option<(String, Option<String>)> {
    Some((id.to_string(), extends.map(|e| e.to_string())))
}

fn known() -> Vec<String> {
    vec!["codex".to_string(), "qoder".to_string()]
}

#[test]
fn manifests_wait_for_the_manifest_they_extend() {
    let headers = vec![h("b-child", Some("z-base")), h("z-base", Some("codex"))];
    assert_eq!(plan_manifest_loading(&known(), &headers), (vec![1, 0], LoadEnd::Done));
}

#[test]
fn local_manifest_cannot_take_an_existing_id() {
    let headers = vec![h("demo", None), h("codex", None), h("late", None)];
    assert_eq!(plan_manifest_loading(&known(), &headers), (vec![0], LoadEnd::Conflict(1)));
}

#[test]
fn unreadable_header_stops_loading() {
    let headers = vec![h("demo", None), None, h("late", None)];
    assert_eq!(plan_manifest_loading(&known(), &headers), (vec![0], LoadEnd::BadHeader(1)));
}

#[test]
fn missing_base_is_reported_as_unresolved() {
    let headers = vec![h("a", Some("missing")), h("b", None), h("c", Some("a"))];
    assert_eq!(plan_manifest_loading(&known(), &headers), (vec![1], LoadEnd::Unresolved(vec![0, 2])));
}

#[test]
fn no_local_manifests_load_nothing() {
    assert_eq!(plan_manifest_loading(&known(), &Vec::new()), (Vec::new(), LoadEnd::Done));
}
