use botrunner::config::{validate_config, ConfigError, MasterConfig};
use botrunner::models::{
    StartInfo, StateVersion, UpdateVersion, WorkerAction, WorkerInfo,
};
use botrunner::start_infos::StartInfos;
use botrunner::state::{Action, State};

fn info(command: &str, dir: &str, args: &[&str]) -> StartInfo {
    StartInfo {
        command: command.to_string(),
        current_dir: dir.to_string(),
        args: args.iter().map(|a| a.to_string()).collect(),
    }
}

fn infos(names: &[&str]) -> StartInfos {
    let mut m = StartInfos::new();
    for n in names {
        m.insert(n.to_string(), info(&format!("./{}", n), "", &[]));
    }
    m
}

#[test]
fn update_version_increment_and_next() {
    let mut v = UpdateVersion::default();
    assert_eq!(v.0, 0);
    v.increment();
    assert_eq!(v.0, 1);
    let n = v.next();
    assert_eq!(n.0, 2);
    assert_eq!(v.0, 1);
    let mut w = v;
    w.increment();
    assert_eq!(w, n);
}

#[test]
fn update_version_displays_in_decimal() {
    assert_eq!(UpdateVersion(0).to_string(), "0");
    assert_eq!(UpdateVersion(42).to_string(), "42");
    assert_eq!(UpdateVersion(u32::MAX).to_string(), "4294967295");
}

#[test]
fn state_version_increment() {
    let mut v = StateVersion::default();
    v.increment();
    v.increment();
    assert_eq!(v, StateVersion(2));
}

#[test]
fn worker_info_default_is_stop_at_zero() {
    let w = WorkerInfo::default();
    assert_eq!(w.version, StateVersion(0));
    assert_eq!(w.update_version, UpdateVersion(0));
    assert!(matches!(w.action, WorkerAction::Stop));
}

#[test]
fn start_info_default_and_clone() {
    let d = StartInfo::default();
    assert!(d.command.is_empty() && d.current_dir.is_empty() && d.args.is_empty());
    let a = info("./bot", "b", &["-x", "1"]);
    let c = a.clone();
    assert_eq!(c.command, "./bot");
    assert_eq!(c.current_dir, "b");
    assert_eq!(c.args, vec!["-x".to_string(), "1".to_string()]);
}

#[test]
fn start_infos_insert_get_replace() {
    let mut m = StartInfos::new();
    assert!(m.is_empty());
    assert_eq!(m.first_key(), None);
    assert!(m.insert("a".to_string(), info("x", "", &[])).is_none());
    assert!(m.insert("b".to_string(), info("y", "", &[])).is_none());
    assert_eq!(m.len(), 2);
    assert!(m.contains_key("a"));
    assert!(!m.contains_key("c"));
    assert_eq!(m.get("b").unwrap().command, "y");
    let previous = m.insert("a".to_string(), info("z", "", &[])).unwrap();
    assert_eq!(previous.command, "x");
    assert_eq!(m.get("a").unwrap().command, "z");
    assert_eq!(m.len(), 2);
    assert_eq!(m.first_key(), Some("a".to_string()));
    assert!(m.get("c").is_none());
}

#[test]
fn state_new_is_stopped() {
    let s = State::new(infos(&["a"]));
    assert_eq!(s.version, StateVersion(0));
    assert_eq!(s.update_version, UpdateVersion(0));
    assert_eq!(s.action, Action::Stop);
    assert!(s.update_file.is_none());
    assert!(s.last_start_info.is_none());
    assert!(s.start_infos.contains_key("a"));
}

#[test]
fn start_raises_version_only_on_change() {
    let mut s = State::new(infos(&["a", "b"]));
    s.start("a".to_string());
    assert_eq!(s.version, StateVersion(1));
    assert_eq!(s.action, Action::Start("a".to_string()));
    s.start("a".to_string());
    assert_eq!(s.version, StateVersion(1));
    s.start("b".to_string());
    assert_eq!(s.version, StateVersion(2));
    assert_eq!(s.update_version, UpdateVersion(0));
}

#[test]
fn stop_is_idempotent() {
    let mut s = State::new(infos(&["a"]));
    s.stop();
    assert_eq!(s.version, StateVersion(0));
    s.start("a".to_string());
    s.stop();
    assert_eq!(s.version, StateVersion(2));
    s.stop();
    assert_eq!(s.version, StateVersion(2));
    assert_eq!(s.action, Action::Stop);
}

#[test]
fn update_raises_both_versions() {
    let mut s = State::new(infos(&["a"]));
    s.update("data/updates/1.zip".to_string());
    assert_eq!(s.version, StateVersion(1));
    assert_eq!(s.update_version, UpdateVersion(1));
    assert_eq!(s.action, Action::Update);
    assert_eq!(s.update_file.as_deref(), Some("data/updates/1.zip"));
    s.update("data/updates/2.zip".to_string());
    assert_eq!(s.version, StateVersion(2));
    assert_eq!(s.update_version, UpdateVersion(2));
}

#[test]
fn published_state_resolves_start() {
    let mut s = State::new(infos(&["a"]));
    s.start_infos.insert("bot".to_string(), info("./bot", "dir", &["1"]));
    s.start("bot".to_string());
    let w = s.worker_info();
    assert_eq!(w.version, StateVersion(1));
    match w.action {
        WorkerAction::Start(i) => {
            assert_eq!(i.command, "./bot");
            assert_eq!(i.current_dir, "dir");
            assert_eq!(i.args, vec!["1".to_string()]);
        }
        _ => panic!("expected a start"),
    }
    s.update("f".to_string());
    assert!(matches!(s.worker_info().action, WorkerAction::Update));
    s.stop();
    let w = s.worker_info();
    assert!(matches!(w.action, WorkerAction::Stop));
    assert_eq!(w.version, StateVersion(3));
    assert_eq!(w.update_version, UpdateVersion(1));
}

#[test]
fn action_equality() {
    assert_eq!(Action::Start("a".to_string()), Action::Start("a".to_string()));
    assert_ne!(Action::Start("a".to_string()), Action::Start("b".to_string()));
    assert_ne!(Action::Stop, Action::Update);
    assert_eq!(Action::Update.duplicate(), Action::Update);
}

#[test]
fn config_without_start_infos_is_refused() {
    let c = MasterConfig {
        addr: "0.0.0.0:8080".to_string(),
        data_path: "data".to_string(),
        start_infos: StartInfos::new(),
    };
    assert_eq!(validate_config(c).err(), Some(ConfigError::NoStartInfos));
    let c = MasterConfig {
        addr: "0.0.0.0:8080".to_string(),
        data_path: "data".to_string(),
        start_infos: infos(&["a"]),
    };
    let ok = validate_config(c).ok().unwrap();
    assert_eq!(ok.addr, "0.0.0.0:8080");
    assert!(ok.start_infos.contains_key("a"));
}
