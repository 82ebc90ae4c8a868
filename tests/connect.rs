use jmssh::entity::local_auth;
use jmssh::entity::profiles::{AuthMode, Model};
use jmssh::entity::routes;
use jmssh::error::AppError;
use jmssh::invocation::{assemble_ssh_args, password_profile_id, session_end, sshpass_args, SessionEnd};
use jmssh::store::ProfileStore;
use jmssh::usecase::connect::build_connect_plan;
use jmssh::usecase::profile::{add_profile, delete_profile_by_label, set_profile};
use jmssh::usecase::{ConnectHop, ConnectInput, ConnectPlan, EditProfileInput};

fn input(label: &str, host: &str, user: &str, port: Option<u16>, mode: Option<&str>, jumps: &[&str]) -> EditProfileInput {
    EditProfileInput {
        label: label.to_string(),
        host: Some(host.to_string()),
        user: Some(user.to_string()),
        port,
        mode: mode.map(|m| m.to_string()),
        tags: None,
        notes: None,
        jumps: jumps.iter().map(|j| j.to_string()).collect(),
    }
}

fn by_label(label: &str) -> ConnectInput {
    ConnectInput { target: label.to_string(), id: None }
}

fn hop(user: &str, host: &str, port: u16, mode: AuthMode, key: Option<&str>) -> ConnectHop {
    ConnectHop {
        id: 1,
        label: "x".to_string(),
        host: host.to_string(),
        user: user.to_string(),
        port,
        auth_mode: mode,
        key_path_local: key.map(|k| k.to_string()),
    }
}

fn strings(v: &[&str]) -> Vec<String> {
    v.iter().map(|s| s.to_string()).collect()
}

#[test]
fn profile_without_edges_is_one_hop() {
    let mut store = ProfileStore::new();
    add_profile(&mut store, input("web", "10.0.0.5", "deploy", Some(2200), None, &[])).unwrap();
    let plan = build_connect_plan(&store, by_label("web")).unwrap();
    assert_eq!(plan.hops.len(), 1);
    let h = &plan.hops[0];
    assert_eq!(h.id, 1);
    assert_eq!(h.label, "web");
    assert_eq!(h.host, "10.0.0.5");
    assert_eq!(h.user, "deploy");
    assert_eq!(h.port, 2200);
    assert_eq!(h.auth_mode, AuthMode::Agent);
    assert_eq!(h.key_path_local, None);
}

#[test]
fn unlabelled_profile_without_port_defaults() {
    let p = Model {
        id: 7,
        label: None,
        hostname: "h".to_string(),
        username: "u".to_string(),
        port: None,
        auth_mode: AuthMode::Key,
        tags: None,
        note: None,
    };
    let keys = vec![local_auth::Model { id: 1, profile_id: 7, key_path_local: Some("/k".to_string()) }];
    let store = ProfileStore::from_rows(vec![p], vec![], keys).unwrap();
    let plan = build_connect_plan(&store, ConnectInput { target: String::new(), id: Some(7) }).unwrap();
    assert_eq!(plan.hops.len(), 1);
    assert_eq!(plan.hops[0].label, "#7");
    assert_eq!(plan.hops[0].port, 22);
    assert_eq!(plan.hops[0].key_path_local, Some("/k".to_string()));
}

#[test]
fn chain_resolves_in_sequence_order() {
    let mut store = ProfileStore::new();
    add_profile(&mut store, input("B", "hb", "b", None, None, &[])).unwrap();
    add_profile(&mut store, input("C", "hc", "c", Some(2222), None, &[])).unwrap();
    add_profile(&mut store, input("A", "ha", "a", None, None, &["B", "C"])).unwrap();
    let plan = build_connect_plan(&store, by_label("A")).unwrap();
    let labels: Vec<&str> = plan.hops.iter().map(|h| h.label.as_str()).collect();
    assert_eq!(labels, vec!["B", "C", "A"]);
    let routes = store.routes();
    assert_eq!(routes.len(), 2);
    assert_eq!(routes[0], routes::Model { profile_id: 3, seq: 0, via_profile_id: 1 });
    assert_eq!(routes[1], routes::Model { profile_id: 3, seq: 1, via_profile_id: 2 });
}

#[test]
fn bastion_chain_is_not_expanded() {
    let mut store = ProfileStore::new();
    add_profile(&mut store, input("edge", "he", "e", None, None, &[])).unwrap();
    add_profile(&mut store, input("B", "hb", "b", None, None, &["edge"])).unwrap();
    add_profile(&mut store, input("A", "ha", "a", None, None, &["B"])).unwrap();
    let plan = build_connect_plan(&store, by_label("A")).unwrap();
    let labels: Vec<&str> = plan.hops.iter().map(|h| h.label.as_str()).collect();
    assert_eq!(labels, vec!["B", "A"]);
}

#[test]
fn removed_bastion_fails_resolution() {
    let mut store = ProfileStore::new();
    add_profile(&mut store, input("B", "hb", "b", None, None, &[])).unwrap();
    add_profile(&mut store, input("A", "ha", "a", None, None, &["B"])).unwrap();
    delete_profile_by_label(&mut store, "B".to_string()).unwrap();
    let r = build_connect_plan(&store, by_label("A"));
    assert_eq!(r.unwrap_err(), AppError::ProfileRouteTargetNotFound("#1".to_string()));
}

#[test]
fn id_wins_over_label() {
    let mut store = ProfileStore::new();
    add_profile(&mut store, input("one", "h1", "u1", None, None, &[])).unwrap();
    add_profile(&mut store, input("two", "h2", "u2", None, None, &[])).unwrap();
    let plan = build_connect_plan(&store, ConnectInput { target: "one".to_string(), id: Some(2) }).unwrap();
    assert_eq!(plan.hops[0].label, "two");
}

#[test]
fn missing_base_profile_is_not_found() {
    let store = ProfileStore::new();
    let r = build_connect_plan(&store, by_label("nope"));
    assert_eq!(r.unwrap_err(), AppError::ProfileNotFound("nope".to_string()));
    let r = build_connect_plan(&store, ConnectInput { target: "x".to_string(), id: Some(42) });
    assert_eq!(r.unwrap_err(), AppError::ProfileNotFound("#42".to_string()));
}

#[test]
fn two_hop_arguments_exact() {
    let plan = ConnectPlan {
        hops: vec![
            hop("b", "hb", 22, AuthMode::Agent, None),
            hop("c", "hc", 2222, AuthMode::Key, Some("/k")),
        ],
    };
    let args = assemble_ssh_args(&plan).unwrap();
    assert_eq!(args, strings(&["-J", "b@hb:22", "-p", "2222", "-i", "/k", "c@hc"]));
}

#[test]
fn single_hop_default_port_arguments() {
    let plan = ConnectPlan { hops: vec![hop("c", "hc", 22, AuthMode::Agent, None)] };
    assert_eq!(assemble_ssh_args(&plan).unwrap(), strings(&["c@hc"]));
}

#[test]
fn three_hop_jump_list_and_key_needs_key_mode() {
    let plan = ConnectPlan {
        hops: vec![
            hop("a", "ha", 22, AuthMode::Agent, None),
            hop("b", "hb", 2022, AuthMode::Password, None),
            hop("c", "hc", 22, AuthMode::Agent, Some("/k")),
        ],
    };
    assert_eq!(assemble_ssh_args(&plan).unwrap(), strings(&["-J", "a@ha:22,b@hb:2022", "c@hc"]));
}

#[test]
fn empty_plan_has_no_arguments() {
    assert_eq!(assemble_ssh_args(&ConnectPlan { hops: vec![] }), None);
}

#[test]
fn password_looked_up_for_first_hop_only() {
    let mut single = hop("u", "h", 22, AuthMode::Password, None);
    single.id = 5;
    assert_eq!(password_profile_id(&ConnectPlan { hops: vec![single.clone()] }), Some(5));

    let mut last = hop("u", "h", 22, AuthMode::Agent, None);
    last.id = 6;
    assert_eq!(password_profile_id(&ConnectPlan { hops: vec![single.clone(), last.clone()] }), Some(5));

    let mut pw_last = last.clone();
    pw_last.auth_mode = AuthMode::Password;
    let mut first = hop("u", "h", 22, AuthMode::Agent, None);
    first.id = 4;
    assert_eq!(password_profile_id(&ConnectPlan { hops: vec![first, pw_last] }), None);
    assert_eq!(password_profile_id(&ConnectPlan { hops: vec![] }), None);
}

#[test]
fn helper_arguments_and_session_end() {
    let args = sshpass_args("s3cret", &strings(&["-p", "2222", "c@hc"]));
    assert_eq!(args, strings(&["-p", "s3cret", "ssh", "-p", "2222", "c@hc"]));
    assert_eq!(session_end(true, Some(0)), SessionEnd::Finished);
    assert_eq!(session_end(false, Some(255)), SessionEnd::Failed(255));
    assert_eq!(session_end(false, None), SessionEnd::Signalled);
}

#[test]
fn update_with_jumps_replaces_chain() {
    let mut store = ProfileStore::new();
    add_profile(&mut store, input("B", "hb", "b", None, None, &[])).unwrap();
    add_profile(&mut store, input("C", "hc", "c", None, None, &[])).unwrap();
    add_profile(&mut store, input("D", "hd", "d", None, None, &[])).unwrap();
    add_profile(&mut store, input("A", "ha", "a", None, None, &["B", "C"])).unwrap();
    add_profile(&mut store, input("E", "he", "e", None, None, &["B"])).unwrap();
    let mut upd = input("A", "ha", "a", None, None, &["D", "B", "C"]);
    upd.host = None;
    upd.user = None;
    set_profile(&mut store, upd).unwrap();
    let own: Vec<routes::Model> = store.routes().iter().filter(|r| r.profile_id == 4).cloned().collect();
    assert_eq!(
        own,
        vec![
            routes::Model { profile_id: 4, seq: 0, via_profile_id: 3 },
            routes::Model { profile_id: 4, seq: 1, via_profile_id: 1 },
            routes::Model { profile_id: 4, seq: 2, via_profile_id: 2 },
        ]
    );
    let other: Vec<routes::Model> = store.routes().iter().filter(|r| r.profile_id == 5).cloned().collect();
    assert_eq!(other, vec![routes::Model { profile_id: 5, seq: 0, via_profile_id: 1 }]);
    let plan = build_connect_plan(&store, by_label("A")).unwrap();
    let labels: Vec<&str> = plan.hops.iter().map(|h| h.label.as_str()).collect();
    assert_eq!(labels, vec!["D", "B", "C", "A"]);
}

#[test]
fn update_without_jumps_keeps_chain() {
    let mut store = ProfileStore::new();
    add_profile(&mut store, input("B", "hb", "b", None, None, &[])).unwrap();
    add_profile(&mut store, input("A", "ha", "a", None, None, &["B"])).unwrap();
    let before = store.routes().clone();
    let mut upd = input("A", "new-host", "a", Some(2201), Some("key"), &[]);
    upd.user = None;
    let view = set_profile(&mut store, upd).unwrap();
    assert_eq!(store.routes(), &before);
    assert_eq!(view.host, "new-host");
    assert_eq!(view.user, "a");
    assert_eq!(view.port, 2201);
    assert_eq!(view.mode, "key");
}

#[test]
fn update_with_unknown_jump_changes_nothing() {
    let mut store = ProfileStore::new();
    add_profile(&mut store, input("B", "hb", "b", None, None, &[])).unwrap();
    add_profile(&mut store, input("A", "ha", "a", None, None, &["B"])).unwrap();
    let profiles_before = store.profiles().clone();
    let routes_before = store.routes().clone();
    let r = set_profile(&mut store, input("A", "elsewhere", "a", None, None, &["x", "B", "y"]));
    assert_eq!(r.unwrap_err(), AppError::ProfileRouteTargetNotFound("x,y".to_string()));
    assert_eq!(store.profiles(), &profiles_before);
    assert_eq!(store.routes(), &routes_before);
}

#[test]
fn update_with_bad_mode_or_missing_profile_fails() {
    let mut store = ProfileStore::new();
    add_profile(&mut store, input("A", "ha", "a", None, None, &[])).unwrap();
    let r = set_profile(&mut store, input("A", "ha", "a", None, Some("Telnet"), &[]));
    assert_eq!(r.unwrap_err(), AppError::InvalidAuthMode("telnet".to_string()));
    let r = set_profile(&mut store, input("Z", "hz", "z", None, None, &[]));
    assert_eq!(r.unwrap_err(), AppError::ProfileNotFound("Z".to_string()));
}

#[test]
fn creating_existing_label_writes_nothing() {
    let mut store = ProfileStore::new();
    add_profile(&mut store, input("A", "ha", "a", None, None, &[])).unwrap();
    let before = store.profiles().clone();
    let r = add_profile(&mut store, input("A", "other", "o", Some(2), Some("key"), &[]));
    assert_eq!(r.unwrap_err(), AppError::ProfileAlreadyExists("A".to_string()));
    assert_eq!(store.profiles(), &before);
    let rows: Vec<&Model> = store.profiles().iter().filter(|p| p.label.as_deref() == Some("A")).collect();
    assert_eq!(rows.len(), 1);
    assert_eq!(rows[0].hostname, "ha");
}

#[test]
fn create_defaults_and_rollback_on_missing_jump() {
    let mut store = ProfileStore::new();
    let view = add_profile(
        &mut store,
        EditProfileInput {
            label: "d".to_string(),
            host: None,
            user: None,
            port: None,
            mode: Some("PASSWORD".to_string()),
            tags: Some("t".to_string()),
            notes: None,
            jumps: vec![],
        },
    )
    .unwrap();
    assert_eq!(view.host, "127.0.0.1");
    assert_eq!(view.user, "root");
    assert_eq!(view.port, 22);
    assert_eq!(view.mode, "password");
    assert_eq!(view.tags, Some("t".to_string()));
    let r = add_profile(&mut store, input("e", "he", "e", None, None, &["ghost"]));
    assert_eq!(r.unwrap_err(), AppError::ProfileRouteTargetNotFound("ghost".to_string()));
    assert_eq!(store.profiles().len(), 1);
    assert!(store.routes().is_empty());
    let r = add_profile(&mut store, input("f", "hf", "f", None, Some("rsh"), &[]));
    assert_eq!(r.unwrap_err(), AppError::InvalidAuthMode("rsh".to_string()));
}

#[test]
fn delete_removes_owned_edges_only() {
    let mut store = ProfileStore::new();
    add_profile(&mut store, input("B", "hb", "b", None, None, &[])).unwrap();
    add_profile(&mut store, input("A", "ha", "a", None, None, &["B"])).unwrap();
    add_profile(&mut store, input("C", "hc", "c", None, None, &["B"])).unwrap();
    delete_profile_by_label(&mut store, "A".to_string()).unwrap();
    assert_eq!(store.profiles().len(), 2);
    assert_eq!(store.routes(), &vec![routes::Model { profile_id: 3, seq: 0, via_profile_id: 1 }]);
    let r = delete_profile_by_label(&mut store, "A".to_string());
    assert_eq!(r.unwrap_err(), AppError::ProfileNotFound("A".to_string()));
}
