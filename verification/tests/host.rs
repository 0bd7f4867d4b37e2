use std::path::Path;

use buzz_host::host::{
    agents_among, check_description, install, list, paths, remove, settle_program, status,
    status_query, Installed, Report,
};
use buzz_host::launch::{exec_agent, AgentUnit};
use buzz_host::machine::{
    check_name, home, log_file, state_dir, unit_file, HostError, Platform, Surroundings,
};
use buzz_host::programs::{default_path, find_buzz_acp, is_executable, resolve_on_path};
use buzz_host::steps::{verdict, Action, Course, Failure, Outcome, Plan, Step};
use buzz_host::supervisor::{
    plist_text, service_text, supervisor, Launchd, Supervisor, Systemd,
};
use buzz_host::table::Table;

fn linux() -> Surroundings {
    Surroundings {
        platform: Platform::Other,
        home: Some("/home/uni".to_string()),
        state: None,
        acp: None,
        path: Some("/usr/bin:/bin:/usr/sbin:/sbin".to_string()),
        uid: 1000,
    }
}

fn mac() -> Surroundings {
    Surroundings { platform: Platform::MacOs, home: Some("/Users/uni".to_string()), uid: 501, ..linux() }
}

fn homeless() -> Surroundings {
    Surroundings { home: None, ..linux() }
}

fn unit(program: Option<&str>, env: &[(&str, &str)]) -> AgentUnit {
    let mut table: Table<String> = Table::new();
    for (k, v) in env {
        table.set(k, v);
    }
    AgentUnit { program: program.map(str::to_string), args: vec!["--x".to_string()], env: table }
}

fn ran(success: bool, stdout: &str, stderr: &str) -> Outcome {
    Outcome::Ran { success, stdout: stdout.to_string(), stderr: stderr.to_string() }
}

fn words(args: &[&str]) -> Vec<String> {
    args.iter().map(|s| s.to_string()).collect()
}

fn shell(program: &str, args: &[&str]) -> Action {
    Action::Run { program: program.to_string(), args: words(args) }
}

fn told(action: &Action) -> String {
    match action {
        Action::CreateDirs(path) => format!("mkdir {}", path),
        Action::CreatePrivate(path) => format!("private {}", path),
        Action::Secure(path) => format!("secure {}", path),
        Action::Write { path, text } => format!("write {} {}", path, text.len()),
        Action::Rename { from, to } => format!("rename {} {}", from, to),
        Action::Remove(path) => format!("remove {}", path),
        Action::Run { program, args } => format!("{} {}", program, args.join(" ")),
    }
}

/// Go through a plan, and say what was done and how it ended.
fn go<T>(plan: Plan<T>, perform: impl Fn(&Action) -> Outcome) -> (Vec<String>, Result<T, HostError>) {
    let mut seen = Vec::new();
    let mut course = Course::through(plan.steps);
    loop {
        let outcome = match course.next() {
            Some(action) => {
                seen.push(told(action));
                perform(action)
            }
            None => return (seen, plan.end),
        };
        match course.after(&outcome) {
            Ok(on) => course = on,
            Err(e) => return (seen, Err(e)),
        }
    }
}

fn is_there(p: &str) -> bool {
    Path::new(p).is_file()
}

#[test]
fn a_bare_name_is_found_on_path_and_a_missing_one_is_not() {
    assert!(resolve_on_path("sh", "/nonexistent:/bin:/usr/bin", &is_there).is_some());
    assert!(resolve_on_path("definitely-not-a-harness", "/bin:/usr/bin", &is_there).is_none());
}

#[test]
fn an_explicit_path_is_used_as_given_rather_than_searched() {
    assert!(resolve_on_path("/bin/sh", "/nowhere", &is_there).is_some());
    assert!(resolve_on_path("/bin/definitely-not-here", "/bin", &is_there).is_none());
}

#[test]
fn a_file_that_is_present_but_not_executable_counts_as_missing() {
    let unreadable = |p: &str| p == "/d/harness" && is_executable(true, 0o644);
    assert!(resolve_on_path("harness", "/d", &unreadable).is_none());
    let runnable = |p: &str| p == "/d/harness" && is_executable(true, 0o755);
    assert!(resolve_on_path("harness", "/d", &runnable).is_some());
    assert!(is_executable(true, 0o001));
    assert!(!is_executable(false, 0o755));
}

#[test]
fn the_injected_path_reaches_where_harnesses_are_actually_installed() {
    let p = default_path(&linux());
    assert!(p.contains("/opt/homebrew/bin"), "{}", p);
    assert!(p.contains(".local/bin"), "{}", p);
}

#[test]
fn a_name_that_could_escape_the_state_directory_is_refused() {
    for bad in ["", "../etc/passwd", "a/b", "Agent", "has space", "sem;colon"] {
        assert!(check_name(bad).is_err(), "accepted {:?}", bad);
    }
    for good in ["research", "uni-2", "a_b", "x9"] {
        assert!(check_name(good).is_ok(), "refused {:?}", good);
    }
}

#[test]
fn the_agent_path_leads_with_the_conventional_install_prefixes() {
    let p = default_path(&linux());
    let parts: Vec<&str> = p.split(':').collect();
    assert!(parts.iter().any(|d| d.ends_with("/.local/bin")), "{}", p);
    assert!(parts.contains(&"/opt/homebrew/bin"), "{}", p);
    assert!(parts.contains(&"/usr/bin"), "{}", p);

    let local = parts.iter().position(|d| d.ends_with("/.local/bin")).unwrap();
    let usr = parts.iter().position(|d| *d == "/usr/bin").unwrap();
    assert!(local < usr, "a hand-installed harness must win over a system one: {}", p);
}

#[test]
fn the_path_has_no_duplicates() {
    let p = default_path(&linux());
    let parts: Vec<&str> = p.split(':').collect();
    let mut uniq = parts.clone();
    uniq.sort_unstable();
    uniq.dedup();
    assert_eq!(parts.len(), uniq.len(), "{}", p);
}

#[test]
fn a_home_whose_bin_is_a_usual_one_is_not_named_twice() {
    for (home, path) in [
        ("/", "/.local/bin:/bin:/opt/homebrew/bin:/usr/local/bin:/usr/bin:/usr/sbin:/sbin"),
        ("/usr", "/usr/.local/bin:/usr/bin:/opt/homebrew/bin:/usr/local/bin:/bin:/usr/sbin:/sbin"),
        (
            "/usr/local",
            "/usr/local/.local/bin:/usr/local/bin:/opt/homebrew/bin:/usr/bin:/bin:/usr/sbin:/sbin",
        ),
    ] {
        let s = Surroundings { home: Some(home.to_string()), path: None, ..linux() };
        assert_eq!(default_path(&s), path);
    }
}

#[test]
fn the_inherited_path_follows_what_is_new_in_it() {
    let s = Surroundings { path: Some("/sbin::/snap/bin:/snap/bin:/x".to_string()), ..linux() };
    assert_eq!(
        default_path(&s),
        "/home/uni/.local/bin:/home/uni/bin:/opt/homebrew/bin:/usr/local/bin:/usr/bin:/bin:/usr/sbin:/sbin:/snap/bin:/x"
    );
    let bare = Surroundings { home: None, path: None, ..linux() };
    assert_eq!(default_path(&bare), "/opt/homebrew/bin:/usr/local/bin:/usr/bin:/bin:/usr/sbin:/sbin");
}

#[test]
fn a_name_is_at_most_sixty_four_characters() {
    assert!(check_name(&"a".repeat(64)).is_ok());
    let long = "a".repeat(65);
    assert_eq!(check_name(&long), Err(HostError::InvalidName(long.clone())));
}

#[test]
fn state_lies_below_the_home_directory_unless_it_is_said() {
    assert_eq!(state_dir(&linux()).unwrap(), "/home/uni/.local/state/buzz-host");
    assert_eq!(state_dir(&mac()).unwrap(), "/Users/uni/Library/Application Support/buzz-host");
    assert_eq!(home(&homeless()), Err(HostError::NoHome));
    assert_eq!(state_dir(&homeless()), Err(HostError::NoHome));
    let said = Surroundings { state: Some("/var/buzz/".to_string()), ..homeless() };
    assert_eq!(state_dir(&said).unwrap(), "/var/buzz/");
    assert_eq!(unit_file(&said, "x").unwrap(), "/var/buzz/x.json");
    assert_eq!(log_file(&said, "x").unwrap(), "/var/buzz/logs/x.log");
    assert_eq!(unit_file(&homeless(), "x"), Err(HostError::NoHome));
    assert_eq!(log_file(&homeless(), "x"), Err(HostError::NoHome));
}

#[test]
fn files_of_different_agents_differ() {
    assert_ne!(unit_file(&linux(), "a").unwrap(), unit_file(&linux(), "b").unwrap());
    assert_ne!(log_file(&linux(), "a").unwrap(), log_file(&linux(), "b").unwrap());
}

#[test]
fn the_program_is_looked_for_where_it_is_said_and_then_in_the_usual_places() {
    let said = Surroundings { acp: Some("/x/acp".to_string()), ..linux() };
    assert_eq!(find_buzz_acp(&said, &|_: &str| true), Ok("/x/acp".to_string()));
    assert_eq!(
        find_buzz_acp(&said, &|_: &str| false),
        Err(HostError::NotAFile("/x/acp".to_string()))
    );
    assert_eq!(
        find_buzz_acp(&linux(), &|p: &str| p.starts_with("/Applications") || p.starts_with("/usr/bin")),
        Ok("/Applications/Buzz.app/Contents/MacOS/buzz-acp".to_string())
    );
    assert_eq!(
        find_buzz_acp(&linux(), &|_: &str| true),
        Ok("/home/uni/.local/bin/buzz-acp".to_string())
    );
    assert_eq!(find_buzz_acp(&homeless(), &|_: &str| true), Err(HostError::NoHome));
    let nowhere = find_buzz_acp(&linux(), &|_: &str| false).unwrap_err();
    assert_eq!(
        nowhere.message(),
        "cannot find buzz-acp. Looked in: /home/uni/.local/bin/buzz-acp, /usr/local/bin/buzz-acp, /opt/homebrew/bin/buzz-acp, /Applications/Buzz.app/Contents/MacOS/buzz-acp, /usr/bin/buzz-acp. Set BUZZ_ACP_BIN to its path."
    );
}

#[test]
fn the_users_own_copy_of_a_program_wins() {
    let p = default_path(&linux());
    assert_eq!(
        resolve_on_path("hive-acp", &p, &|_: &str| true),
        Some("/home/uni/.local/bin/hive-acp".to_string())
    );
}

#[test]
fn an_empty_directory_of_a_search_path_is_passed_over() {
    assert_eq!(resolve_on_path("x", "::/d", &|_: &str| true), Some("/d/x".to_string()));
    assert_eq!(resolve_on_path("x", "", &|_: &str| true), None);
}

#[test]
fn a_unit_becomes_a_process() {
    let u = unit(
        Some("/usr/bin/buzz-acp"),
        &[("BUZZ_ACP_AGENT_COMMAND", "hive-acp --fast"), ("KEY", "value")],
    );
    let l = exec_agent("x", &u, &linux(), &|p: &str| p == "/home/uni", &|p: &str| {
        p == "/usr/local/bin/hive-acp"
    })
    .unwrap();
    assert_eq!(l.program, "/usr/bin/buzz-acp");
    assert_eq!(l.args, words(&["--x"]));
    assert_eq!(l.workdir, Some("/home/uni".to_string()));
    assert_eq!(l.env.text_at("PATH"), Some(default_path(&linux()).as_str()));
    assert_eq!(l.env.text_at("BUZZ_HOST_UNIT"), Some("x"));
    assert_eq!(l.env.text_at("KEY"), Some("value"));
    assert_eq!(l.env.entries().len(), 4);
}

#[test]
fn the_units_own_environment_wins() {
    let u = unit(
        None,
        &[("PATH", "/mine"), ("BUZZ_HOST_UNIT", "y"), ("BUZZ_HOST_WORKDIR", "/work")],
    );
    let l = exec_agent("x", &u, &homeless(), &|p: &str| p == "/work", &|_: &str| false).unwrap();
    assert_eq!(l.program, "buzz-acp");
    assert_eq!(l.env.text_at("PATH"), Some("/mine"));
    assert_eq!(l.env.text_at("BUZZ_HOST_UNIT"), Some("y"));
    assert_eq!(l.workdir, Some("/work".to_string()));
    let u = unit(None, &[("BUZZ_ACP_AGENT_COMMAND", "")]);
    let l = exec_agent("x", &u, &homeless(), &|_: &str| false, &|_: &str| false).unwrap();
    assert_eq!(l.workdir, None);
}

#[test]
fn what_is_missing_is_reported_before_launching() {
    let u = unit(None, &[("BUZZ_HOST_WORKDIR", "/no\"where")]);
    let e = exec_agent("x", &u, &linux(), &|_: &str| false, &|_: &str| true).unwrap_err();
    assert_eq!(
        e.message(),
        "BUZZ_HOST_WORKDIR is \"/no\\\"where\", which is not a directory on this machine.\nAgent: x\nCreate it, or unset it to start in the home directory."
    );
    let u = unit(None, &[("BUZZ_ACP_AGENT_COMMAND", "hive-acp --x")]);
    let s = Surroundings { home: None, path: None, ..linux() };
    let e = exec_agent("x", &u, &s, &|_: &str| true, &|_: &str| false).unwrap_err();
    assert_eq!(
        e.message(),
        "harness \"hive-acp\" is not on this machine's PATH, so every agent would fail to spawn.\nAgent:    x\nSearched: /opt/homebrew/bin:/usr/local/bin:/usr/bin:/bin:/usr/sbin:/sbin\n\nEither install it here, or point the agent at a harness that is present. An ACP harness has to exist on the machine that runs it — a containerised one (hive-acp) brings its own, a native one (codex-acp) must be installed."
    );
    let blank = unit(None, &[("BUZZ_ACP_AGENT_COMMAND", "  ")]);
    match exec_agent("x", &blank, &linux(), &|_: &str| true, &|_: &str| false) {
        Err(HostError::NoHarness { bin, .. }) => assert_eq!(bin, "  "),
        other => panic!("{:?}", other),
    }
    match exec_agent("X", &blank, &linux(), &|_: &str| true, &|_: &str| true) {
        Err(HostError::InvalidName(name)) => assert_eq!(name, "X"),
        other => panic!("{:?}", other),
    }
}

#[test]
fn errors_of_the_host_read_as_the_user_sees_them() {
    for (e, text) in [
        (
            HostError::InvalidName("a/b".to_string()),
            "invalid name \"a/b\": 1-64 characters of lowercase letters, digits, '-' and '_'. It becomes a filename and a unit label.",
        ),
        (HostError::NoHome, "HOME is not set, so there is nowhere to keep state"),
        (
            HostError::NotAFile("/x".to_string()),
            "BUZZ_ACP_BIN is set to /x, which is not a file",
        ),
        (HostError::NoDescription, "no unit description on stdin"),
        (HostError::NoProgram("/x".to_string()), "/x is not a file on this machine"),
        (HostError::Step("why".to_string()), "why"),
    ] {
        assert_eq!(e.message(), text);
    }
}

#[test]
fn a_description_has_to_hold_something() {
    assert_eq!(check_description(" \n\t"), Err(HostError::NoDescription));
    assert_eq!(check_description("{}"), Ok(()));
}

#[test]
fn the_program_is_settled_on_the_machine_that_runs_it() {
    let named = settle_program(unit(Some("/x"), &[]), &linux(), &|p: &str| p == "/x").unwrap();
    assert_eq!(named.program, Some("/x".to_string()));
    assert_eq!(named.args, words(&["--x"]));
    for nothing in [None, Some("")] {
        let found = settle_program(unit(nothing, &[("K", "v")]), &linux(), &|_: &str| true).unwrap();
        assert_eq!(found.program, Some("/home/uni/.local/bin/buzz-acp".to_string()));
        assert_eq!(found.env.text_at("K"), Some("v"));
    }
    assert_eq!(
        settle_program(unit(Some("/x"), &[]), &linux(), &|_: &str| false).unwrap_err(),
        HostError::NoProgram("/x".to_string())
    );
    assert_eq!(
        settle_program(unit(None, &[]), &homeless(), &|_: &str| true).unwrap_err(),
        HostError::NoHome
    );
}

#[test]
fn a_failure_means_what_its_step_says() {
    let failed = Outcome::Failed("no space".to_string());
    assert_eq!(verdict(&Failure::Ignored, &failed), Ok(()));
    let plain = Failure::Fatal { heading: String::new() };
    assert_eq!(verdict(&plain, &failed), Err(HostError::Step("no space".to_string())));
    let headed = Failure::Fatal { heading: "writing /x".to_string() };
    assert_eq!(verdict(&headed, &failed), Err(HostError::Step("writing /x: no space".to_string())));
    assert_eq!(verdict(&headed, &ran(false, "", "bad")), Ok(()));
    assert_eq!(verdict(&headed, &Outcome::Done), Ok(()));
    let refusal = Failure::Refusal {
        heading: "running".to_string(),
        before: "it said: ".to_string(),
        after: ".".to_string(),
    };
    assert_eq!(verdict(&refusal, &failed), Err(HostError::Step("running: no space".to_string())));
    assert_eq!(
        verdict(&refusal, &ran(false, "out", " bad \n")),
        Err(HostError::Step("it said: bad.".to_string()))
    );
    assert_eq!(verdict(&refusal, &ran(true, "", "bad")), Ok(()));
}

#[test]
fn nothing_follows_a_step_that_is_the_end() {
    let step = |path: &str, failure: Failure| Step { action: Action::Remove(path.to_string()), failure };
    let plan = || Plan {
        steps: vec![
            step("a", Failure::Ignored),
            step("b", Failure::Fatal { heading: String::new() }),
            step("c", Failure::Ignored),
        ],
        end: Ok(()),
    };
    let (seen, end) = go(plan(), |_| Outcome::Failed("no".to_string()));
    assert_eq!(seen, ["remove a", "remove b"]);
    assert_eq!(end, Err(HostError::Step("no".to_string())));
    let (seen, end) = go(plan(), |_| Outcome::Done);
    assert_eq!(seen, ["remove a", "remove b", "remove c"]);
    assert_eq!(end, Ok(()));
}

#[test]
fn a_course_hands_out_one_action_at_a_time() {
    let steps = || vec![Step { action: Action::Remove("a".to_string()), failure: Failure::Ignored }];
    let course = Course::through(steps());
    assert_eq!(course.next(), Some(&Action::Remove("a".to_string())));
    assert_eq!(course.next(), Some(&Action::Remove("a".to_string())));
    let course = course.after(&Outcome::Done).unwrap();
    assert_eq!(course, Course { steps: steps(), at: 1 });
    assert_eq!(course.next(), None);
    let failed = Outcome::Failed("no".to_string());
    assert_eq!(course.after(&failed), Ok(Course { steps: steps(), at: 1 }));
}

#[test]
fn units_are_named_after_agents() {
    assert_eq!(Systemd::unit_name("x"), "buzz-host-x.service");
    assert_eq!(
        supervisor(&linux()).unit_path("x", &linux()).unwrap(),
        "/home/uni/.config/systemd/user/buzz-host-x.service"
    );
    assert_eq!(
        supervisor(&mac()).unit_path("x", &mac()).unwrap(),
        "/Users/uni/Library/LaunchAgents/dev.buzz.host.x.plist"
    );
    assert_eq!(supervisor(&linux()).unit_path("x", &homeless()), Err(HostError::NoHome));
    assert_eq!(supervisor(&mac()), Supervisor::Launchd(Launchd { uid: 501 }));
    assert_eq!(supervisor(&linux()), Supervisor::Systemd(Systemd));
    assert_eq!(Launchd { uid: 501 }.domain(), "gui/501");
    assert_eq!(
        Systemd::systemctl(words(&["restart", "x"])),
        shell("systemctl", &["--user", "restart", "x"])
    );
}

#[test]
fn unit_definitions_hold_a_name_and_no_environment() {
    assert_eq!(
        service_text("x", "/bin/buzz-host"),
        "[Unit]\nDescription=buzz agent x\nAfter=network-online.target\n\n[Service]\nType=simple\nExecStart=/bin/buzz-host run x\nRestart=always\nRestartSec=5\n\n[Install]\nWantedBy=default.target\n"
    );
    let plist = r#"<?xml version="1.0" encoding="UTF-8"?>
<!DOCTYPE plist PUBLIC "-//Apple//DTD PLIST 1.0//EN" "http://www.apple.com/DTDs/PropertyList-1.0.dtd">
<plist version="1.0">
<dict>
  <key>Label</key><string>dev.buzz.host.x</string>
  <key>ProgramArguments</key>
  <array>
    <string>/a &amp; b</string>
    <string>run</string>
    <string>x</string>
  </array>
  <key>RunAtLoad</key><true/>
  <key>KeepAlive</key><true/>
  <key>ProcessType</key><string>Background</string>
  <key>StandardOutPath</key><string>/l&lt;og</string>
  <key>StandardErrorPath</key><string>/l&lt;og</string>
</dict>
</plist>
"#;
    assert_eq!(plist_text("x", "/a & b", "/l<og"), plist);
}

#[test]
fn installing_a_unit_ends_with_a_fresh_start() {
    let plan = supervisor(&mac()).install("x", "/bin/buzz-host", &mac());
    let plist = "/Users/uni/Library/LaunchAgents/dev.buzz.host.x.plist";
    let seen: Vec<String> = plan.steps.iter().map(|step| told(&step.action)).collect();
    assert_eq!(seen[0], "mkdir /Users/uni/Library/LaunchAgents");
    assert!(seen[1].starts_with(&format!("write {} ", plist)));
    assert_eq!(
        seen[2..],
        [
            "launchctl bootout gui/501/dev.buzz.host.x".to_string(),
            format!("launchctl bootstrap gui/501 {}", plist),
            "launchctl kickstart -k gui/501/dev.buzz.host.x".to_string(),
        ]
    );
    assert_eq!(plan.end, Ok("dev.buzz.host.x".to_string()));
    assert_eq!(
        verdict(&plan.steps[3].failure, &ran(false, "", "busy\n")),
        Err(HostError::Step(format!("launchctl bootstrap {}: busy", plist)))
    );

    let plan = supervisor(&linux()).install("x", "/bin/buzz-host", &linux());
    let seen: Vec<String> = plan.steps.iter().map(|step| told(&step.action)).collect();
    assert_eq!(seen[0], "mkdir /home/uni/.config/systemd/user");
    assert_eq!(
        seen[2..],
        [
            "systemctl --user daemon-reload",
            "systemctl --user enable --now buzz-host-x.service",
            "systemctl --user restart buzz-host-x.service",
        ]
    );
    assert_eq!(plan.end, Ok("buzz-host-x.service".to_string()));
    assert_eq!(
        verdict(&plan.steps[2].failure, &Outcome::Failed("gone".to_string())),
        Err(HostError::Step("running systemctl --user: gone".to_string()))
    );
    assert_eq!(verdict(&plan.steps[2].failure, &ran(false, "", "x")), Ok(()));
    assert_eq!(
        verdict(&plan.steps[3].failure, &ran(false, "", "no bus")),
        Err(HostError::Step("systemctl --user enable --now buzz-host-x.service: no bus. If this is a headless host, `loginctl enable-linger $USER` is what keeps user units running after logout.".to_string()))
    );
    for s in [linux(), mac()] {
        let plan = supervisor(&s).install("x", "/bin/buzz-host", &homeless());
        assert!(plan.steps.is_empty());
        assert_eq!(plan.end, Err(HostError::NoHome));
    }
}

#[test]
fn whether_an_agent_runs_is_for_the_supervisor_to_say() {
    let launchd = supervisor(&mac());
    assert_eq!(launchd.query("x"), shell("launchctl", &["print", "gui/501/dev.buzz.host.x"]));
    assert!(launchd.is_running(&ran(true, "\tstate = running\n", "")));
    assert!(!launchd.is_running(&ran(true, "state = waiting", "")));
    assert!(!launchd.is_running(&ran(false, "state = running", "")));
    assert!(!launchd.is_running(&Outcome::Failed("gone".to_string())));
    let systemd = supervisor(&linux());
    assert_eq!(
        systemd.query("x"),
        shell("systemctl", &["--user", "is-active", "--quiet", "buzz-host-x.service"])
    );
    assert!(systemd.is_running(&ran(true, "", "")));
    assert!(!systemd.is_running(&ran(false, "", "")));
    assert!(!systemd.is_running(&Outcome::Failed("gone".to_string())));
}

fn sent(raw: &str) -> Result<AgentUnit, String> {
    match raw.strip_prefix("run ") {
        Some(program) => Ok(unit(Some(program), &[])),
        None if raw == "run" => Ok(unit(None, &[])),
        None => Err("no unit".to_string()),
    }
}

fn written(u: &AgentUnit) -> Result<String, String> {
    Ok(format!("{} secret", u.program.as_ref().unwrap()))
}

fn buzz_host_at() -> Result<String, HostError> {
    Ok("/bin/buzz-host".to_string())
}

#[test]
fn installing_keeps_the_description_private_and_starts_the_unit() {
    let plan = install("x", "run", &linux(), buzz_host_at(), &sent, &|_: &str| true, &written);
    let dir = "/home/uni/.local/state/buzz-host";
    let write = Action::Write {
        path: format!("{}/.x.json.tmp", dir),
        text: "/home/uni/.local/bin/buzz-acp secret".to_string(),
    };
    assert_eq!(plan.steps[4].action, write);
    let (seen, end) = go(plan, |_| Outcome::Done);
    assert_eq!(
        end,
        Ok(Installed {
            id: "buzz-host-x.service".to_string(),
            notes: words(&[
                "buzz-host: x installed (/home/uni/.local/bin/buzz-acp)",
                "buzz-host: logs at /home/uni/.local/state/buzz-host/logs/x.log",
            ]),
        })
    );
    assert_eq!(
        seen[..6],
        [
            format!("mkdir {}", dir),
            format!("mkdir {}/logs", dir),
            format!("private {}/.x.json.tmp", dir),
            format!("secure {}/.x.json.tmp", dir),
            format!("write {}/.x.json.tmp 36", dir),
            format!("rename {}/.x.json.tmp {}/x.json", dir, dir),
        ]
    );
    assert_eq!(seen.len(), 11);
    assert_eq!(seen[10], "systemctl --user restart buzz-host-x.service");
    for (i, action) in seen.iter().enumerate() {
        assert_eq!(action.contains("36"), i == 4);
    }
}

#[test]
fn installing_again_differs_in_the_description_alone() {
    let plan = |raw: &str| install("x", raw, &mac(), buzz_host_at(), &sent, &|_: &str| true, &written);
    let first = plan("run /a");
    let second = plan("run /b");
    assert_eq!(first.end.as_ref().unwrap().id, second.end.as_ref().unwrap().id);
    assert_eq!(first.steps.len(), second.steps.len());
    for (i, (a, b)) in first.steps.iter().zip(&second.steps).enumerate() {
        assert_eq!(a == b, i != 4);
    }
}

#[test]
fn a_refused_install_does_nothing() {
    let yes = |_: &str| true;
    let no = |_: &str| false;
    let parsing = "parsing the unit description: no unit".to_string();
    for (name, raw, s, there, e) in [
        ("X", "run /x", linux(), true, HostError::InvalidName("X".to_string())),
        ("x", " \n", linux(), true, HostError::NoDescription),
        ("x", "odd", linux(), true, HostError::Step(parsing)),
        ("x", "run /x", linux(), false, HostError::NoProgram("/x".to_string())),
        ("x", "run", homeless(), true, HostError::NoHome),
        ("x", "run /x", homeless(), true, HostError::NoHome),
    ] {
        let plan = if there {
            install(name, raw, &s, buzz_host_at(), &sent, &yes, &written)
        } else {
            install(name, raw, &s, buzz_host_at(), &sent, &no, &written)
        };
        assert_eq!(plan, Plan { steps: Vec::new(), end: Err(e) });
    }
    let unwritable = |_: &AgentUnit| Err("odd".to_string());
    assert_eq!(
        install("x", "run /x", &linux(), buzz_host_at(), &sent, &yes, &unwritable),
        Plan { steps: Vec::new(), end: Err(HostError::Step("odd".to_string())) }
    );
}

#[test]
fn an_install_that_fails_says_where() {
    let yes = |_: &str| true;
    let kept = Surroundings { state: Some("/s".to_string()), ..linux() };
    for (at, message) in [
        ("mkdir /s", "creating /s: no"),
        ("mkdir /s/logs", "no"),
        ("private /s/.x.json.tmp", "writing /s/.x.json.tmp: no"),
        ("secure /s/.x.json.tmp", "securing /s/.x.json.tmp: no"),
        ("write /s/.x.json.tmp 9", "writing /s/.x.json.tmp: no"),
        ("rename /s/.x.json.tmp /s/x.json", "installing /s/x.json: no"),
        ("mkdir /home/uni/.config/systemd/user", "no"),
    ] {
        let plan = install("x", "run /x", &kept, buzz_host_at(), &sent, &yes, &written);
        let (seen, end) = go(plan, |action| {
            if told(action) == at {
                Outcome::Failed("no".to_string())
            } else {
                Outcome::Done
            }
        });
        assert_eq!(end, Err(HostError::Step(message.to_string())));
        assert_eq!(seen.last().unwrap(), at);
    }
    let lost = || HostError::Step("locating this binary: no".to_string());
    let plan = install("x", "run /x", &linux(), Err(lost()), &sent, &yes, &written);
    assert_eq!(plan.steps.len(), 6);
    assert_eq!(plan.end, Err(lost()));
    let no_home = Surroundings { state: Some("/s".to_string()), ..homeless() };
    let plan = install("x", "run /x", &no_home, buzz_host_at(), &sent, &yes, &written);
    assert_eq!(plan.steps.len(), 6);
    assert_eq!(plan.end, Err(HostError::NoHome));
}

#[test]
fn removing_forgets_the_agent_and_keeps_its_log() {
    let (seen, end) = go(remove("x", &mac()), |_| Outcome::Done);
    assert_eq!(end, Ok("buzz-host: x removed (its log is kept)".to_string()));
    assert_eq!(
        seen,
        [
            "launchctl bootout gui/501/dev.buzz.host.x",
            "remove /Users/uni/Library/LaunchAgents/dev.buzz.host.x.plist",
            "remove /Users/uni/Library/Application Support/buzz-host/x.json",
        ]
    );
    let (seen, end) = go(remove("x", &linux()), |_| Outcome::Done);
    assert!(end.is_ok());
    assert_eq!(
        seen,
        [
            "systemctl --user disable --now buzz-host-x.service",
            "remove /home/uni/.config/systemd/user/buzz-host-x.service",
            "systemctl --user daemon-reload",
            "remove /home/uni/.local/state/buzz-host/x.json",
        ]
    );
    let (seen, end) = go(remove("x", &homeless()), |_| Outcome::Done);
    assert_eq!(end, Err(HostError::NoHome));
    assert_eq!(seen, ["systemctl --user disable --now buzz-host-x.service"]);
    let (seen, end) = go(remove("x", &linux()), |_| Outcome::Failed("no".to_string()));
    assert_eq!(
        end,
        Err(HostError::Step("removing /home/uni/.config/systemd/user/buzz-host-x.service: no".to_string()))
    );
    assert_eq!(seen.len(), 2);
    assert_eq!(
        remove("../x", &linux()),
        Plan { steps: Vec::new(), end: Err(HostError::InvalidName("../x".to_string())) }
    );
}

#[test]
fn agents_are_listed_in_order_with_their_state() {
    let files = words(&["b.json", ".c.json.tmp", ".d.json", "logs", "a.json", "json", "e.json.bak"]);
    assert_eq!(agents_among(&files), words(&["a", "b"]));
    let agents = vec![
        ("a".to_string(), ran(true, "", "")),
        ("b".to_string(), ran(false, "", "")),
    ];
    assert_eq!(
        list(&agents, &linux()),
        words(&[
            "NAME                     STATE",
            "a                        running",
            "b                        stopped",
        ])
    );
    assert_eq!(list(&Vec::new(), &linux()), words(&["no agents installed"]));
    let long = vec![("x".repeat(30), ran(true, "state = running", ""))];
    assert_eq!(list(&long, &mac())[1], format!("{} running", "x".repeat(30)));
}

#[test]
fn one_agent_is_running_or_not() {
    assert_eq!(
        status_query("x", &linux()),
        Ok(shell("systemctl", &["--user", "is-active", "--quiet", "buzz-host-x.service"]))
    );
    assert_eq!(status_query("", &linux()), Err(HostError::InvalidName(String::new())));
    assert_eq!(
        status("x", &ran(true, "", ""), &linux()),
        ("x: running".to_string(), true)
    );
    assert_eq!(
        status("x", &ran(true, "", ""), &mac()),
        ("x: not running".to_string(), false)
    );
}

#[test]
fn a_report_says_where_things_are() {
    let host = || Ok("/bin/buzz-host".to_string());
    let machine = [
        "state:     /home/uni/.local/state/buzz-host",
        "buzz-host: /bin/buzz-host",
        "buzz-acp:  /usr/bin/buzz-acp",
    ];
    let found = |p: &str| p == "/usr/bin/buzz-acp";
    assert_eq!(
        paths(None, &linux(), host(), &found),
        Report { lines: words(&machine), end: Ok(()) }
    );
    let full = paths(Some("x"), &linux(), host(), &found);
    assert_eq!(full.lines[..3], machine);
    assert_eq!(
        full.lines[3..],
        [
            "unit:      /home/uni/.local/state/buzz-host/x.json",
            "log:       /home/uni/.local/state/buzz-host/logs/x.log",
            "supervisor unit: /home/uni/.config/systemd/user/buzz-host-x.service",
        ]
    );
    assert_eq!(full.end, Ok(()));
    let bad = paths(Some("X"), &linux(), host(), &found);
    assert_eq!(bad, Report { lines: words(&machine), end: Err(HostError::InvalidName("X".to_string())) });
    let lost = paths(None, &linux(), Err(HostError::Step("no".to_string())), &found);
    assert_eq!(lost, Report { lines: words(&machine[..1]), end: Err(HostError::Step("no".to_string())) });
    let nowhere = paths(None, &homeless(), host(), &found);
    assert_eq!(nowhere, Report { lines: Vec::new(), end: Err(HostError::NoHome) });
    let s = Surroundings { state: Some("/s".to_string()), acp: Some("/y".to_string()), ..homeless() };
    let partly = paths(Some("x"), &s, host(), &found);
    assert_eq!(partly.lines[2], "buzz-acp:  NOT FOUND (BUZZ_ACP_BIN is set to /y, which is not a file)");
    assert_eq!(partly.lines.len(), 5);
    assert_eq!(partly.end, Err(HostError::NoHome));
}
