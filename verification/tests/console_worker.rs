use botrunner::archive::{archive_path, is_directory_entry};
use botrunner::console::{
    is_whitespace, next_update_path, parse_command, schedule_run, ConsoleCommand, RunOutcome,
};
use botrunner::models::{StartInfo, StateVersion, UpdateVersion, WorkerAction, WorkerInfo};
use botrunner::start_infos::StartInfos;
use botrunner::state::{Action, State};
use botrunner::worker::{
    commands_for_status, is_resolvable, launch_plan, process_step, running_after, ProcessStep,
    ProgramPath, StatusTracker, WorkerCommand,
};

fn info(command: &str, dir: &str, args: &[&str]) -> StartInfo {
    StartInfo {
        command: command.to_string(),
        current_dir: dir.to_string(),
        args: args.iter().map(|a| a.to_string()).collect(),
    }
}

fn state_with(names: &[&str]) -> State {
    let mut m = StartInfos::new();
    for n in names {
        m.insert(n.to_string(), info(&format!("./{}", n), "", &[]));
    }
    State::new(m)
}

fn status(version: u32, update_version: u32, action: WorkerAction) -> WorkerInfo {
    WorkerInfo::new(StateVersion(version), UpdateVersion(update_version), action)
}

fn kinds(cmds: &[WorkerCommand]) -> Vec<String> {
    cmds.iter()
        .map(|c| match c {
            WorkerCommand::Stop => "stop".to_string(),
            WorkerCommand::Start(i) => format!("start {}", i.command),
            WorkerCommand::Update(v) => format!("update {}", v.0),
            WorkerCommand::Quit => "quit".to_string(),
        })
        .collect()
}

#[test]
fn parse_single_letter_commands() {
    assert!(matches!(parse_command("h\n"), ConsoleCommand::Help));
    assert!(matches!(parse_command("c"), ConsoleCommand::ReadConfig));
    assert!(matches!(parse_command("  u \r\n"), ConsoleCommand::Update));
    assert!(matches!(parse_command("\ts\t"), ConsoleCommand::Stop));
    assert!(matches!(parse_command("s extra words"), ConsoleCommand::Stop));
}

#[test]
fn parse_run_with_and_without_name() {
    match parse_command("r   bot-one  ignored\n") {
        ConsoleCommand::Run(Some(name)) => assert_eq!(name, "bot-one"),
        other => panic!("unexpected {:?}", other),
    }
    assert!(matches!(parse_command("r\n"), ConsoleCommand::Run(None)));
    match parse_command("\u{3000}r\u{3000}ботик\u{2028}") {
        ConsoleCommand::Run(Some(name)) => assert_eq!(name, "ботик"),
        other => panic!("unexpected {:?}", other),
    }
}

#[test]
fn parse_invalid_lines() {
    assert!(matches!(parse_command(""), ConsoleCommand::Invalid));
    assert!(matches!(parse_command(" \n"), ConsoleCommand::Invalid));
    assert!(matches!(parse_command("hh"), ConsoleCommand::Invalid));
    assert!(matches!(parse_command("x"), ConsoleCommand::Invalid));
    assert!(matches!(parse_command("run a"), ConsoleCommand::Invalid));
}

#[test]
fn whitespace_matches_std() {
    for c in ['\t', '\n', '\u{b}', '\u{c}', '\r', ' ', '\u{85}', '\u{a0}', '\u{1680}', '\u{2000}',
        '\u{200a}', '\u{2028}', '\u{2029}', '\u{202f}', '\u{205f}', '\u{3000}', 'a', '\u{200b}',
        '\u{180e}', '_', '\u{feff}'] {
        assert_eq!(is_whitespace(c), c.is_whitespace(), "{:?}", c);
    }
}

#[test]
fn run_known_and_unknown_names() {
    let mut s = state_with(&["a", "b"]);
    match schedule_run(&mut s, Some("b".to_string())) {
        RunOutcome::Scheduled(k) => assert_eq!(k, "b"),
        _ => panic!("expected scheduled"),
    }
    assert_eq!(s.action, Action::Start("b".to_string()));
    assert_eq!(s.version, StateVersion(1));
    match schedule_run(&mut s, Some("zzz".to_string())) {
        RunOutcome::UnknownKey(k) => assert_eq!(k, "zzz"),
        _ => panic!("expected unknown"),
    }
    assert_eq!(s.action, Action::Start("b".to_string()));
    assert_eq!(s.version, StateVersion(1));
}

#[test]
fn run_without_name_uses_last_then_first() {
    let mut s = state_with(&["first", "second"]);
    s.last_start_info = Some("second".to_string());
    match schedule_run(&mut s, None) {
        RunOutcome::ScheduledLast(k) => assert_eq!(k, "second"),
        _ => panic!("expected last"),
    }
    assert!(s.last_start_info.is_none());
    assert_eq!(s.action, Action::Start("second".to_string()));
    match schedule_run(&mut s, None) {
        RunOutcome::ScheduledFirst(k) => assert_eq!(k, "first"),
        _ => panic!("expected first"),
    }
    assert_eq!(s.action, Action::Start("first".to_string()));
    assert_eq!(s.version, StateVersion(2));
}

#[test]
fn next_update_path_names_next_version() {
    let mut s = state_with(&["a"]);
    assert_eq!(next_update_path(&s, "data/updates"), "data/updates/1.zip");
    let p = next_update_path(&s, "data/updates");
    s.update(p);
    assert_eq!(s.update_version, UpdateVersion(1));
    assert_eq!(next_update_path(&s, "data/updates"), "data/updates/2.zip");
}

#[test]
fn archive_names() {
    assert_eq!(archive_path("data/download", UpdateVersion(7)), "data/download/7.zip");
    assert_eq!(archive_path("", UpdateVersion(10)), "/10.zip");
    assert!(is_directory_entry("a/b/"));
    assert!(is_directory_entry("a\\"));
    assert!(!is_directory_entry("a/b"));
    assert!(!is_directory_entry(""));
}

#[test]
fn commands_for_newer_state() {
    let prev = WorkerInfo::default();
    let s = status(1, 1, WorkerAction::Start(info("./bot", "", &[])));
    assert_eq!(kinds(&commands_for_status(&prev, &s)), vec!["stop", "update 1", "start ./bot"]);
    let s2 = status(2, 1, WorkerAction::Stop);
    assert_eq!(kinds(&commands_for_status(&s, &s2)), vec!["stop"]);
    let s3 = status(3, 2, WorkerAction::Update);
    assert_eq!(kinds(&commands_for_status(&s2, &s3)), vec!["stop", "update 2"]);
}

#[test]
fn commands_for_same_or_older_state() {
    let s = status(5, 3, WorkerAction::Start(info("./bot", "", &[])));
    assert!(commands_for_status(&s, &s).is_empty());
    let older = status(4, 9, WorkerAction::Update);
    assert!(commands_for_status(&s, &older).is_empty());
}

#[test]
fn tracker_reacts_once() {
    let mut t = StatusTracker::new();
    let s = status(1, 0, WorkerAction::Start(info("./bot", "", &[])));
    assert_eq!(kinds(&t.observe(s.clone())), vec!["stop", "start ./bot"]);
    assert!(t.observe(s).is_empty());
    assert_eq!(t.last_seen.version, StateVersion(1));
}

#[test]
fn resolvable_commands() {
    assert!(!is_resolvable(""));
    assert!(!is_resolvable("a"));
    assert!(is_resolvable("./"));
    assert!(!is_resolvable("ab"));
    assert!(is_resolvable("abc"));
    assert!(is_resolvable("./é"));
    assert!(!is_resolvable("aé"));
    assert!(is_resolvable("éa"));
    assert!(!is_resolvable("é"));
    assert!(is_resolvable("éab"));
}

#[test]
fn launch_plans() {
    let p = launch_plan(&info("./bot", "sub", &["-v"]));
    assert_eq!(p.work_subdir.as_deref(), Some("sub"));
    assert!(matches!(p.program, ProgramPath::InWorkDir(ref n) if n == "bot"));
    assert_eq!(p.args, vec!["-v".to_string()]);
    let p = launch_plan(&info("/usr/bin/bot", "", &[]));
    assert!(p.work_subdir.is_none());
    assert!(matches!(p.program, ProgramPath::AsGiven(ref n) if n == "/usr/bin/bot"));
    let p = launch_plan(&info(".\\bot.exe", "", &[]));
    assert!(matches!(p.program, ProgramPath::AsGiven(ref n) if n == ".\\bot.exe"));
}

#[test]
fn process_steps() {
    assert!(matches!(process_step(true, &WorkerCommand::Quit), ProcessStep::Exit));
    assert!(matches!(process_step(true, &WorkerCommand::Stop), ProcessStep::KillRunning));
    assert!(matches!(process_step(false, &WorkerCommand::Stop), ProcessStep::Idle));
    assert!(matches!(
        process_step(false, &WorkerCommand::Update(UpdateVersion(3))),
        ProcessStep::FetchUpdate(UpdateVersion(3))
    ));
    match process_step(false, &WorkerCommand::Start(info("./run.sh", "x", &[]))) {
        ProcessStep::Launch(plan) => {
            assert!(matches!(plan.program, ProgramPath::InWorkDir(ref n) if n == "run.sh"))
        }
        _ => panic!("expected a launch"),
    }
}

#[test]
fn workers_follow_every_change() {
    let mut s = state_with(&["a"]);
    let mut t = StatusTracker::new();
    assert!(t.observe(s.worker_info()).is_empty());
    s.start("a".to_string());
    assert_eq!(kinds(&t.observe(s.worker_info())), vec!["stop", "start ./a"]);
    s.start("a".to_string());
    assert!(t.observe(s.worker_info()).is_empty());
    let p = next_update_path(&s, "data/updates");
    s.update(p);
    assert_eq!(kinds(&t.observe(s.worker_info())), vec!["stop", "update 1"]);
    s.stop();
    assert_eq!(kinds(&t.observe(s.worker_info())), vec!["stop"]);
    s.stop();
    assert!(t.observe(s.worker_info()).is_empty());
}

#[test]
fn surrounding_space_is_ignored() {
    for line in ["r bot", "h", "s", "u", "c", "x y", "r"] {
        let padded = format!(" \t\u{a0}{}\u{3000} \r\n", line);
        let plain = format!("{:?}", parse_command(line));
        assert_eq!(format!("{:?}", parse_command(&padded)), plain, "{:?}", line);
    }
}

#[test]
fn run_preconditions() {
    let s = state_with(&[]);
    assert!(!botrunner::console::can_schedule_run(&s, &None));
    assert!(botrunner::console::can_schedule_run(&s, &Some("x".to_string())));
    let mut s = state_with(&["a"]);
    assert!(botrunner::console::can_schedule_run(&s, &None));
    s.version = StateVersion(u32::MAX);
    assert!(!botrunner::console::can_schedule_run(&s, &Some("a".to_string())));
    s.action = Action::Start("a".to_string());
    assert!(botrunner::console::can_schedule_run(&s, &Some("a".to_string())));
}

#[test]
fn process_held_after_each_step() {
    let launch = process_step(false, &WorkerCommand::Start(info("./a", "", &[])));
    assert!(running_after(false, &launch, true));
    assert!(!running_after(false, &launch, false));
    assert!(running_after(true, &launch, false));
    let kill = process_step(true, &WorkerCommand::Stop);
    assert!(!running_after(true, &kill, false));
    let idle = process_step(false, &WorkerCommand::Stop);
    assert!(!running_after(false, &idle, false));
    let fetch = process_step(true, &WorkerCommand::Update(UpdateVersion(1)));
    assert!(running_after(true, &fetch, false));
}

#[test]
fn reachable_states_stay_consistent() {
    let mut s = state_with(&["a", "b"]);
    let check = |s: &State| {
        assert!(s.update_version.0 <= s.version.0);
        assert_eq!(s.update_file.is_some(), s.update_version.0 > 0);
        if s.action == Action::Update {
            assert!(s.update_file.is_some());
        }
        assert!(s.last_start_info.is_none());
        assert_eq!(s.start_infos.len(), 2);
    };
    check(&s);
    s.start("a".to_string());
    check(&s);
    s.update("u1".to_string());
    check(&s);
    s.start("b".to_string());
    check(&s);
    s.stop();
    check(&s);
    s.update("u2".to_string());
    check(&s);
    assert_eq!(s.version, StateVersion(5));
    assert_eq!(s.update_version, UpdateVersion(2));
}

#[test]
fn repeated_start_or_stop_changes_nothing() {
    let mut s = state_with(&["a"]);
    s.update("u".to_string());
    s.start("a".to_string());
    let before = (s.version, s.update_version, s.update_file.clone(), s.action.duplicate());
    s.start("a".to_string());
    assert_eq!((s.version, s.update_version, s.update_file.clone(), s.action.duplicate()), before);
    s.stop();
    let before = (s.version, s.update_version, s.update_file.clone(), s.action.duplicate());
    s.stop();
    assert_eq!((s.version, s.update_version, s.update_file.clone(), s.action.duplicate()), before);
}

#[test]
fn versions_compare_in_order() {
    assert!(UpdateVersion(1) < UpdateVersion(2));
    assert!(StateVersion(3) > StateVersion(2));
}
