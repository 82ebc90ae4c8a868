use jmssh::cli::{connect_input, start_mode, Cli, Command, ConnectArgs, StartMode};
use jmssh::entity::profiles::{AuthMode, Model};
use jmssh::entity::routes;
use jmssh::error::AppError;
use jmssh::infra::password_store::{CredentialAnswer, NoopPasswordStore, OsPasswordStore, PasswordStore};
use jmssh::picker::{column_spans, fit_col, join_columns, ProfileSkimItem};
use jmssh::store::ProfileStore;
use jmssh::term::{c_accent, c_error, c_prefix, color};
use jmssh::text::{decimal_string, hash_id_string, join_strings};
use jmssh::usecase::password::{find_profile_id_by_label, get_profile_password_by_label};
use jmssh::usecase::profile::{get_profile_by_label, get_profile_detail_by_label, list_profiles, to_view};
use jmssh::usecase::ProfileView;

fn model(id: u32, label: Option<&str>) -> Model {
    Model {
        id,
        label: label.map(|l| l.to_string()),
        hostname: format!("h{id}"),
        username: format!("u{id}"),
        port: None,
        auth_mode: AuthMode::Agent,
        tags: None,
        note: None,
    }
}

fn view(label: &str, user: &str, host: &str, port: u16, mode: &str) -> ProfileView {
    ProfileView {
        id: 1,
        label: label.to_string(),
        host: host.to_string(),
        user: user.to_string(),
        port,
        mode: mode.to_string(),
        tags: None,
        note: None,
    }
}

#[test]
fn auth_mode_parsing() {
    assert_eq!(AuthMode::from_str(None), Ok(AuthMode::Agent));
    assert_eq!(AuthMode::from_str(Some("")), Ok(AuthMode::Agent));
    assert_eq!(AuthMode::from_str(Some("Auto")), Ok(AuthMode::Agent));
    assert_eq!(AuthMode::from_str(Some("agent")), Ok(AuthMode::Agent));
    assert_eq!(AuthMode::from_str(Some("PASSWORD")), Ok(AuthMode::Password));
    assert_eq!(AuthMode::from_str(Some("Key")), Ok(AuthMode::Key));
    assert_eq!(AuthMode::from_str(Some("BoGuS")), Err(AppError::InvalidAuthMode("bogus".to_string())));
    assert_eq!(AuthMode::Agent.as_str(), "agent");
    assert_eq!(AuthMode::Password.as_str(), "password");
    assert_eq!(AuthMode::Key.as_str(), "key");
}

#[test]
fn decimal_rendering() {
    assert_eq!(decimal_string(0), "0");
    assert_eq!(decimal_string(22), "22");
    assert_eq!(decimal_string(4294967295), "4294967295");
    assert_eq!(hash_id_string(105), "#105");
    assert_eq!(join_strings(&vec!["a".to_string(), "b".to_string(), "c".to_string()], ", "), "a, b, c");
    assert_eq!(join_strings(&vec![], ","), "");
}

#[test]
fn colours() {
    assert_eq!(color("1;36", "Hello World", true), "\x1b[1;36mhello world\x1b[0m");
    assert_eq!(color("1;36", "Hello World", false), "hello world");
    assert_eq!(c_prefix("[JMSSH]", true), "\x1b[1;32m[jmssh]\x1b[0m");
    assert_eq!(c_accent("X", true), "\x1b[1;36mx\x1b[0m");
    assert_eq!(c_error("Ünï", false), "Ünï");
}

#[test]
fn error_messages() {
    assert_eq!(AppError::ProfileNotFound("web".to_string()).message(), "profile not found: web");
    assert_eq!(
        AppError::ProfileRouteTargetNotFound("#3".to_string()).message(),
        "route target profile not found for label: #3"
    );
    assert_eq!(AppError::InvalidAuthMode("x".to_string()).message(), "invalid auth mode: x");
}

#[test]
fn picker_columns() {
    assert_eq!(fit_col("ab", 5), "ab   ");
    assert_eq!(fit_col("abcdefghijklmnop", 10), "abcdefg...");
    let item = ProfileSkimItem::new(view("web", "deploy", "example.com", 2222, "key"));
    let (label, dest, mode) = item.cols();
    assert_eq!(label, format!("{:<22}", "web"));
    assert_eq!(dest, format!("{:<30}", "deploy@example.com:2222"));
    assert_eq!(mode, format!("{:<10}", "key"));
    assert_eq!(item.line(), format!("{:<22}  {:<30}  {:<10}", "web", "deploy@example.com:2222", "key"));
    assert_eq!(join_columns("a", "b", "c"), "a  b  c");
}

#[test]
fn password_store_answers() {
    assert_eq!(NoopPasswordStore.get_profile_password(3), Ok(None));
    assert_eq!(NoopPasswordStore.set_profile_password(3, Some("p".to_string())), Ok(()));
    assert_eq!(OsPasswordStore::account(12), "profile:12");
    let s = OsPasswordStore::new("svc".to_string());
    assert_eq!(s.service(), "svc");
    assert_eq!(
        OsPasswordStore::read_result(4, CredentialAnswer::Done("pw".to_string())),
        Ok(Some("pw".to_string()))
    );
    assert_eq!(OsPasswordStore::read_result(4, CredentialAnswer::NoEntry), Ok(None));
    assert_eq!(
        OsPasswordStore::read_result(4, CredentialAnswer::Failed("locked".to_string())),
        Err(AppError::PasswordStoreError("failed to get password for profile #4: locked".to_string()))
    );
    assert_eq!(OsPasswordStore::clear_result(4, CredentialAnswer::NoEntry), Ok(()));
    assert_eq!(OsPasswordStore::clear_result(4, CredentialAnswer::Done(())), Ok(()));
    assert_eq!(OsPasswordStore::write_result(4, Ok(())), Ok(()));
    assert_eq!(
        OsPasswordStore::write_result(9, Err("no".to_string())),
        Err(AppError::PasswordStoreError("failed to set password for profile #9: no".to_string()))
    );
    assert_eq!(
        OsPasswordStore::entry_error(9, "bad"),
        AppError::PasswordStoreError("failed to create keyring entry for profile #9: bad".to_string())
    );
}

#[test]
fn loading_rejects_malformed_rows() {
    let dup_id = ProfileStore::from_rows(vec![model(1, Some("a")), model(1, Some("b"))], vec![], vec![]);
    assert!(matches!(dup_id, Err(AppError::InternalError(_))));
    let dup_label = ProfileStore::from_rows(vec![model(1, Some("a")), model(2, Some("a"))], vec![], vec![]);
    assert!(matches!(dup_label, Err(AppError::InternalError(_))));
    let gap = ProfileStore::from_rows(
        vec![model(1, Some("a")), model(2, Some("b"))],
        vec![routes::Model { profile_id: 2, seq: 1, via_profile_id: 1 }],
        vec![],
    );
    assert!(matches!(gap, Err(AppError::InternalError(_))));
    let good = ProfileStore::from_rows(
        vec![model(1, None), model(2, None)],
        vec![
            routes::Model { profile_id: 2, seq: 0, via_profile_id: 1 },
            routes::Model { profile_id: 1, seq: 0, via_profile_id: 2 },
        ],
        vec![],
    );
    assert!(good.is_ok());
}

#[test]
fn listing_goes_by_label() {
    let store = ProfileStore::from_rows(
        vec![model(1, Some("web")), model(2, None), model(3, Some("Db")), model(4, Some("app"))],
        vec![],
        vec![],
    )
    .unwrap();
    let labels: Vec<String> = list_profiles(&store).into_iter().map(|v| v.label).collect();
    assert_eq!(labels, vec!["", "Db", "app", "web"]);
}

#[test]
fn detail_skips_missing_bastions() {
    let store = ProfileStore::from_rows(
        vec![model(1, Some("a")), model(2, Some("b"))],
        vec![
            routes::Model { profile_id: 1, seq: 0, via_profile_id: 9 },
            routes::Model { profile_id: 1, seq: 1, via_profile_id: 2 },
        ],
        vec![],
    )
    .unwrap();
    let (base, jumps) = get_profile_detail_by_label(&store, "a".to_string()).unwrap();
    assert_eq!(base.label, "a");
    assert_eq!(base.port, 22);
    assert_eq!(jumps.len(), 1);
    assert_eq!(jumps[0].label, "b");
    assert_eq!(get_profile_by_label(&store, "b".to_string()).unwrap().host, "h2");
    assert!(matches!(
        get_profile_detail_by_label(&store, "zz".to_string()),
        Err(AppError::ProfileNotFound(_))
    ));
    let v = to_view(&model(5, None));
    assert_eq!((v.label.as_str(), v.mode.as_str(), v.port), ("", "agent", 22));
}

#[test]
fn password_use_cases_need_the_profile() {
    let store = ProfileStore::from_rows(vec![model(1, Some("a"))], vec![], vec![]).unwrap();
    assert_eq!(find_profile_id_by_label(&store, "a".to_string()).unwrap().id, 1);
    assert_eq!(get_profile_password_by_label(&store, &NoopPasswordStore, "a".to_string()), Ok(None));
    assert_eq!(
        get_profile_password_by_label(&store, &NoopPasswordStore, "b".to_string()),
        Err(AppError::ProfileNotFound("b".to_string()))
    );
}

#[test]
fn start_up_decisions() {
    let bare = |interactive: bool, no_interactive: bool, command: Option<Command>| Cli {
        no_interactive,
        interactive,
        command,
    };
    assert_eq!(start_mode(&bare(true, false, None), false), StartMode::NeedsTerminal);
    assert_eq!(start_mode(&bare(false, false, None), true), StartMode::Pick);
    assert_eq!(start_mode(&bare(false, true, None), true), StartMode::MissingSubcommand);
    assert_eq!(start_mode(&bare(false, false, None), false), StartMode::MissingSubcommand);
    assert_eq!(start_mode(&bare(false, false, Some(Command::Init)), false), StartMode::Run);
    let c = connect_input(ConnectArgs { target: None, id: Some(3) });
    assert_eq!((c.target.as_str(), c.id), ("", Some(3)));
}

#[test]
fn picker_column_spans() {
    assert_eq!(column_spans("ab", "cde", "f"), ((0, 2), (4, 7), (9, 10)));
    assert_eq!(column_spans("é", "", "xy"), ((0, 1), (3, 3), (5, 7)));
}
