//! Supervisors: what keeps an agent's process running on a machine.

use vstd::prelude::*;
use vstd::string::*;

use crate::files::{below, join_path};
use crate::lists::texts;
use crate::machine::{
    home, is_place, log_file, log_path_in, state_of, text_in, HostError, Platform, Surroundings,
};
use crate::names::{is_name, label, label_of, labels_tell_names_apart};
use crate::quoting::{xml_escape, xml_escaped};
use crate::steps::{
    is_told, script, verdict_of, Action, ActionView, Failure, FailureView, Outcome, Plan, Step, StepView,
};
use crate::text::{contains, decimal, decimal_text, held_texts_stand_in_between, holds};

verus! {

// Steps.

/// A step whose failure means nothing.
pub open spec fn tried(action: ActionView) -> StepView {
    StepView { action, failure: FailureView::Ignored }
}

/// A step whose failure is the end, with the reason under a heading.
pub open spec fn needed(action: ActionView, heading: Seq<char>) -> StepView {
    StepView { action, failure: FailureView::Fatal { heading } }
}

/// A step that is the end where a program fails or refuses.
pub open spec fn insisted(
    action: ActionView,
    heading: Seq<char>,
    before: Seq<char>,
    after: Seq<char>,
) -> StepView {
    StepView { action, failure: FailureView::Refusal { heading, before, after } }
}

/// A run of a program.
pub open spec fn run_of(program: Seq<char>, args: Seq<Seq<char>>) -> ActionView {
    ActionView::Run { program, args }
}

/// A step whose failure means nothing.
pub(crate) fn try_to(action: Action) -> (r: Step)
    ensures
        r@ == tried(action@),
{
    Step { action, failure: Failure::Ignored }
}

/// A step whose failure is the end, with the reason under a heading.
pub(crate) fn need_to(action: Action, verb: &str, path: &str) -> (r: Step)
    ensures
        r@ == needed(action@, verb@ + path@),
{
    let mut heading = verb.to_owned();
    heading.append(path);
    Step { action, failure: Failure::Fatal { heading } }
}

// launchd.

/// The supervisor of a Mac.
#[derive(Debug, PartialEq, Eq)]
pub struct Launchd {
    /// The number of the user whose session it is.
    pub uid: u32,
}

/// The session of a user.
pub open spec fn domain_of(uid: u32) -> Seq<char> {
    "gui/"@ + decimal(uid as int)
}

/// An agent's unit in the session of a user.
pub open spec fn launchd_target(uid: u32, name: Seq<char>) -> Seq<char> {
    domain_of(uid) + "/"@ + label_of(name)
}

/// Where unit definitions lie.
pub open spec fn launchd_dir(home: Seq<char>) -> Seq<char> {
    below(home, "Library/LaunchAgents"@)
}

/// Where the definition of an agent's unit lies.
pub open spec fn plist_path(home: Seq<char>, name: Seq<char>) -> Seq<char> {
    below(launchd_dir(home), label_of(name) + ".plist"@)
}

/// The definition of an agent's unit. It starts when it is loaded and comes back
/// when it stops, and it holds no environment.
pub open spec fn plist_of(name: Seq<char>, host: Seq<char>, log: Seq<char>) -> Seq<char> {
    "<?xml version=\"1.0\" encoding=\"UTF-8\"?>\n<!DOCTYPE plist PUBLIC \"-//Apple//DTD PLIST 1.0//EN\" \"http://www.apple.com/DTDs/PropertyList-1.0.dtd\">\n<plist version=\"1.0\">\n<dict>\n  <key>Label</key><string>"@
        + label_of(name)
        + "</string>\n  <key>ProgramArguments</key>\n  <array>\n    <string>"@ + xml_escaped(host)
        + "</string>\n    <string>run</string>\n    <string>"@ + xml_escaped(name)
        + "</string>\n  </array>\n  <key>RunAtLoad</key><true/>\n  <key>KeepAlive</key><true/>\n  <key>ProcessType</key><string>Background</string>\n  <key>StandardOutPath</key><string>"@
        + xml_escaped(log) + "</string>\n  <key>StandardErrorPath</key><string>"@ + xml_escaped(log)
        + "</string>\n</dict>\n</plist>\n"@
}

/// The steps that install a unit: the definition is written, the one that is
/// loaded is dropped, so that the new one is read, and the agent is started anew.
pub open spec fn launchd_install(
    uid: u32,
    home: Seq<char>,
    log: Seq<char>,
    name: Seq<char>,
    host: Seq<char>,
) -> Seq<StepView> {
    let plist = plist_path(home, name);
    let target = launchd_target(uid, name);
    seq![
        needed(ActionView::CreateDirs(launchd_dir(home)), ""@),
        needed(ActionView::Write { path: plist, text: plist_of(name, host, log) }, "writing "@ + plist),
        tried(run_of("launchctl"@, seq!["bootout"@, target])),
        insisted(
            run_of("launchctl"@, seq!["bootstrap"@, domain_of(uid), plist]),
            "launchctl bootstrap"@,
            "launchctl bootstrap "@ + plist + ": "@,
            ""@,
        ),
        tried(run_of("launchctl"@, seq!["kickstart"@, "-k"@, target])),
    ]
}

/// The steps that remove a unit, as far as there is a home directory.
pub open spec fn launchd_remove(
    uid: u32,
    home: Option<Seq<char>>,
    name: Seq<char>,
) -> Seq<StepView> {
    let drop = tried(run_of("launchctl"@, seq!["bootout"@, launchd_target(uid, name)]));
    match home {
        Some(home) => seq![
            drop,
            needed(
                ActionView::Remove(plist_path(home, name)),
                "removing "@ + plist_path(home, name),
            ),
        ],
        None => seq![drop],
    }
}

/// How to ask after a unit.
pub open spec fn launchd_query(uid: u32, name: Seq<char>) -> ActionView {
    run_of("launchctl"@, seq!["print"@, launchd_target(uid, name)])
}

/// Whether the answer is that a process exists. That a unit is loaded is not
/// enough: one that crashes over and over is loaded too.
pub open spec fn launchd_says_running(outcome: Outcome) -> bool {
    outcome matches Outcome::Ran { success, stdout, .. } && success && holds(
        stdout@,
        "state = running"@,
    )
}

impl Launchd {
    /// The session of the user.
    pub fn domain(&self) -> (r: String)
        ensures
            r@ == domain_of(self.uid),
    {
        let mut r = "gui/".to_owned();
        r.append(decimal_text(self.uid as i64).as_str());
        r
    }

    /// An agent's unit in the session of the user.
    fn target(&self, name: &str) -> (r: String)
        ensures
            r@ == launchd_target(self.uid, name@),
    {
        let mut r = self.domain();
        r.append("/");
        r.append(label(name).as_str());
        r
    }

    /// Where the definition of an agent's unit lies.
    pub fn unit_path(&self, name: &str, s: &Surroundings) -> (r: Result<String, HostError>)
        ensures
            is_place(
                r,
                match s.home {
                    Some(home) => Some(plist_path(home@, name@)),
                    None => None,
                },
            ),
    {
        match home(s) {
            Ok(home) => {
                let mut file = label(name);
                file.append(".plist");
                let dir = join_path(home.as_str(), "Library/LaunchAgents");
                Ok(join_path(dir.as_str(), file.as_str()))
            },
            Err(e) => Err(e),
        }
    }

    /// How to install a unit that runs an agent through the program at
    /// `buzz_host`. The end is the unit's label.
    pub fn install(&self, name: &str, buzz_host: &str, s: &Surroundings) -> (r: Plan<String>)
        requires
            is_name(name@),
        ensures
            match s.home {
                None => r.only_says(HostError::NoHome),
                Some(home) => {
                    &&& script(r.steps@) == launchd_install(
                        self.uid,
                        home@,
                        log_path_in(state_of(*s)->0, name@),
                        name@,
                        buzz_host@,
                    )
                    &&& r.end matches Ok(id) && id@ == label_of(name@)
                },
            },
    {
        let plist = match self.unit_path(name, s) {
            Ok(path) => path,
            Err(e) => {
                return Plan::refusal(e);
            },
        };
        let log = match log_file(s, name) {
            Ok(path) => path,
            Err(e) => {
                return Plan::refusal(e);
            },
        };
        let home = match home(s) {
            Ok(home) => home,
            Err(e) => {
                return Plan::refusal(e);
            },
        };
        let mut steps: Vec<Step> = Vec::new();
        steps.push(
            need_to(
                Action::CreateDirs(join_path(home.as_str(), "Library/LaunchAgents")),
                "",
                "",
            ),
        );
        let text = plist_text(name, buzz_host, log.as_str());
        steps.push(
            need_to(Action::Write { path: plist.clone(), text }, "writing ", plist.as_str()),
        );
        let bootout = vec!["bootout".to_owned(), self.target(name)];
        assert(texts(bootout@) =~= seq!["bootout"@, launchd_target(self.uid, name@)]);
        steps.push(try_to(Action::Run { program: "launchctl".to_owned(), args: bootout }));
        let bootstrap = vec!["bootstrap".to_owned(), self.domain(), plist.clone()];
        assert(texts(bootstrap@) =~= seq!["bootstrap"@, domain_of(self.uid), plist@]);
        let mut before = "launchctl bootstrap ".to_owned();
        before.append(plist.as_str());
        before.append(": ");
        steps.push(
            Step {
                action: Action::Run { program: "launchctl".to_owned(), args: bootstrap },
                failure: Failure::Refusal {
                    heading: "launchctl bootstrap".to_owned(),
                    before,
                    after: "".to_owned(),
                },
            },
        );
        let kickstart = vec!["kickstart".to_owned(), "-k".to_owned(), self.target(name)];
        assert(texts(kickstart@) =~= seq![
            "kickstart"@,
            "-k"@,
            launchd_target(self.uid, name@),
        ]);
        steps.push(try_to(Action::Run { program: "launchctl".to_owned(), args: kickstart }));
        assert(""@ + ""@ =~= ""@) by {
            reveal_strlit("");
        }
        assert(script(steps@) =~= launchd_install(
            self.uid,
            home@,
            log_path_in(state_of(*s)->0, name@),
            name@,
            buzz_host@,
        ));
        Plan { steps, end: Ok(label(name)) }
    }

    /// How to remove a unit. The end is where its definition lay.
    pub fn remove(&self, name: &str, s: &Surroundings) -> (r: Plan<String>)
        ensures
            script(r.steps@) == launchd_remove(self.uid, text_in(s.home), name@),
            is_place(
                r.end,
                match s.home {
                    Some(home) => Some(plist_path(home@, name@)),
                    None => None,
                },
            ),
    {
        let mut steps: Vec<Step> = Vec::new();
        let bootout = vec!["bootout".to_owned(), self.target(name)];
        assert(texts(bootout@) =~= seq!["bootout"@, launchd_target(self.uid, name@)]);
        steps.push(try_to(Action::Run { program: "launchctl".to_owned(), args: bootout }));
        match self.unit_path(name, s) {
            Ok(path) => {
                steps.push(need_to(Action::Remove(path.clone()), "removing ", path.as_str()));
                assert(script(steps@) =~= launchd_remove(self.uid, text_in(s.home), name@));
                Plan { steps, end: Ok(path) }
            },
            Err(e) => {
                assert(script(steps@) =~= launchd_remove(self.uid, text_in(s.home), name@));
                Plan { steps, end: Err(e) }
            },
        }
    }

    /// How to ask after an agent's unit.
    pub fn query(&self, name: &str) -> (r: Action)
        ensures
            r@ == launchd_query(self.uid, name@),
    {
        let args = vec!["print".to_owned(), self.target(name)];
        assert(texts(args@) =~= seq!["print"@, launchd_target(self.uid, name@)]);
        Action::Run { program: "launchctl".to_owned(), args }
    }

    /// Whether the answer is that an agent's process exists.
    pub fn is_running(&self, answer: &Outcome) -> (r: bool)
        ensures
            r == launchd_says_running(*answer),
    {
        match answer {
            Outcome::Ran { success, stdout, .. } => *success && contains(
                stdout.as_str(),
                "state = running",
            ),
            _ => false,
        }
    }
}

/// The definition of an agent's unit.
pub fn plist_text(name: &str, host: &str, log: &str) -> (r: String)
    ensures
        r@ == plist_of(name@, host@, log@),
{
    let log_text = xml_escape(log);
    let mut r =
        "<?xml version=\"1.0\" encoding=\"UTF-8\"?>\n<!DOCTYPE plist PUBLIC \"-//Apple//DTD PLIST 1.0//EN\" \"http://www.apple.com/DTDs/PropertyList-1.0.dtd\">\n<plist version=\"1.0\">\n<dict>\n  <key>Label</key><string>".to_owned();
    r.append(label(name).as_str());
    r.append("</string>\n  <key>ProgramArguments</key>\n  <array>\n    <string>");
    r.append(xml_escape(host).as_str());
    r.append("</string>\n    <string>run</string>\n    <string>");
    r.append(xml_escape(name).as_str());
    r.append(
        "</string>\n  </array>\n  <key>RunAtLoad</key><true/>\n  <key>KeepAlive</key><true/>\n  <key>ProcessType</key><string>Background</string>\n  <key>StandardOutPath</key><string>",
    );
    r.append(log_text.as_str());
    r.append("</string>\n  <key>StandardErrorPath</key><string>");
    r.append(log_text.as_str());
    r.append("</string>\n</dict>\n</plist>\n");
    r
}

// systemd.

/// The supervisor of any other machine.
#[derive(Debug, PartialEq, Eq)]
pub struct Systemd;

/// The name of an agent's unit.
pub open spec fn service_of(name: Seq<char>) -> Seq<char> {
    "buzz-host-"@ + name + ".service"@
}

/// Where unit definitions lie.
pub open spec fn systemd_dir(home: Seq<char>) -> Seq<char> {
    below(home, ".config/systemd/user"@)
}

/// Where the definition of an agent's unit lies.
pub open spec fn service_path(home: Seq<char>, name: Seq<char>) -> Seq<char> {
    below(systemd_dir(home), service_of(name))
}

/// The definition of an agent's unit. It starts with the user's session and comes
/// back when it stops, and it holds no environment.
pub open spec fn service_text_of(name: Seq<char>, host: Seq<char>) -> Seq<char> {
    "[Unit]\nDescription=buzz agent "@ + name
        + "\nAfter=network-online.target\n\n[Service]\nType=simple\nExecStart="@ + host + " run "@
        + name
        + "\nRestart=always\nRestartSec=5\n\n[Install]\nWantedBy=default.target\n"@
}

/// A call of `systemctl` for the user's own units.
pub open spec fn systemctl_of(args: Seq<Seq<char>>) -> ActionView {
    run_of("systemctl"@, seq!["--user"@] + args)
}

/// The steps that install a unit: the definition is written and read, the unit is
/// enabled, and the agent is started anew, since enabling leaves one that runs as
/// it is.
pub open spec fn systemd_install(
    home: Seq<char>,
    name: Seq<char>,
    host: Seq<char>,
) -> Seq<StepView> {
    let path = service_path(home, name);
    let service = service_of(name);
    seq![
        needed(ActionView::CreateDirs(systemd_dir(home)), ""@),
        needed(
            ActionView::Write { path, text: service_text_of(name, host) },
            "writing "@ + path,
        ),
        needed(systemctl_of(seq!["daemon-reload"@]), "running systemctl --user"@),
        insisted(
            systemctl_of(seq!["enable"@, "--now"@, service]),
            "running systemctl --user"@,
            "systemctl --user enable --now "@ + service + ": "@,
            ". If this is a headless host, `loginctl enable-linger $USER` is what keeps user units running after logout."@,
        ),
        tried(systemctl_of(seq!["restart"@, service])),
    ]
}

/// The steps that remove a unit, as far as there is a home directory.
pub open spec fn systemd_remove(home: Option<Seq<char>>, name: Seq<char>) -> Seq<StepView> {
    let disable = tried(systemctl_of(seq!["disable"@, "--now"@, service_of(name)]));
    match home {
        Some(home) => seq![
            disable,
            needed(
                ActionView::Remove(service_path(home, name)),
                "removing "@ + service_path(home, name),
            ),
            tried(systemctl_of(seq!["daemon-reload"@])),
        ],
        None => seq![disable],
    }
}

/// How to ask after a unit.
pub open spec fn systemd_query(name: Seq<char>) -> ActionView {
    systemctl_of(seq!["is-active"@, "--quiet"@, service_of(name)])
}

/// Whether the answer is that the unit is active.
pub open spec fn systemd_says_running(outcome: Outcome) -> bool {
    outcome matches Outcome::Ran { success, .. } && success
}

/// The definition of an agent's unit.
pub fn service_text(name: &str, host: &str) -> (r: String)
    ensures
        r@ == service_text_of(name@, host@),
{
    let mut r = "[Unit]\nDescription=buzz agent ".to_owned();
    r.append(name);
    r.append("\nAfter=network-online.target\n\n[Service]\nType=simple\nExecStart=");
    r.append(host);
    r.append(" run ");
    r.append(name);
    r.append("\nRestart=always\nRestartSec=5\n\n[Install]\nWantedBy=default.target\n");
    r
}

impl Systemd {
    /// The name of an agent's unit.
    pub fn unit_name(name: &str) -> (r: String)
        ensures
            r@ == service_of(name@),
    {
        let mut r = "buzz-host-".to_owned();
        r.append(name);
        r.append(".service");
        r
    }

    /// A call of `systemctl` for the user's own units.
    pub fn systemctl(args: Vec<String>) -> (r: Action)
        ensures
            r@ == systemctl_of(texts(args@)),
    {
        let ghost given = texts(args@);
        let mut all = vec!["--user".to_owned()];
        let mut rest = args;
        all.append(&mut rest);
        assert(texts(all@) =~= seq!["--user"@] + given);
        Action::Run { program: "systemctl".to_owned(), args: all }
    }

    /// Where the definition of an agent's unit lies.
    pub fn unit_path(&self, name: &str, s: &Surroundings) -> (r: Result<String, HostError>)
        ensures
            is_place(
                r,
                match s.home {
                    Some(home) => Some(service_path(home@, name@)),
                    None => None,
                },
            ),
    {
        match home(s) {
            Ok(home) => {
                let dir = join_path(home.as_str(), ".config/systemd/user");
                Ok(join_path(dir.as_str(), Systemd::unit_name(name).as_str()))
            },
            Err(e) => Err(e),
        }
    }

    /// How to install a unit that runs an agent through the program at
    /// `buzz_host`. The end is the unit's name.
    pub fn install(&self, name: &str, buzz_host: &str, s: &Surroundings) -> (r: Plan<String>)
        requires
            is_name(name@),
        ensures
            match s.home {
                None => r.only_says(HostError::NoHome),
                Some(home) => {
                    &&& script(r.steps@) == systemd_install(home@, name@, buzz_host@)
                    &&& r.end matches Ok(id) && id@ == service_of(name@)
                },
            },
    {
        let path = match self.unit_path(name, s) {
            Ok(path) => path,
            Err(e) => {
                return Plan::refusal(e);
            },
        };
        let home = match home(s) {
            Ok(home) => home,
            Err(e) => {
                return Plan::refusal(e);
            },
        };
        let service = Systemd::unit_name(name);
        let mut steps: Vec<Step> = Vec::new();
        steps.push(
            need_to(
                Action::CreateDirs(join_path(home.as_str(), ".config/systemd/user")),
                "",
                "",
            ),
        );
        steps.push(
            need_to(
                Action::Write { path: path.clone(), text: service_text(name, buzz_host) },
                "writing ",
                path.as_str(),
            ),
        );
        let reload = vec!["daemon-reload".to_owned()];
        assert(texts(reload@) =~= seq!["daemon-reload"@]);
        steps.push(need_to(Systemd::systemctl(reload), "running systemctl --user", ""));
        let enable = vec!["enable".to_owned(), "--now".to_owned(), service.clone()];
        assert(texts(enable@) =~= seq!["enable"@, "--now"@, service@]);
        let mut before = "systemctl --user enable --now ".to_owned();
        before.append(service.as_str());
        before.append(": ");
        steps.push(
            Step {
                action: Systemd::systemctl(enable),
                failure: Failure::Refusal {
                    heading: "running systemctl --user".to_owned(),
                    before,
                    after: ". If this is a headless host, `loginctl enable-linger $USER` is what keeps user units running after logout.".to_owned(),
                },
            },
        );
        let restart = vec!["restart".to_owned(), service.clone()];
        assert(texts(restart@) =~= seq!["restart"@, service@]);
        steps.push(try_to(Systemd::systemctl(restart)));
        assert(""@ + ""@ =~= ""@ && "running systemctl --user"@ + ""@
            =~= "running systemctl --user"@) by {
            reveal_strlit("");
        }
        assert(script(steps@) =~= systemd_install(home@, name@, buzz_host@));
        Plan { steps, end: Ok(service) }
    }

    /// How to remove a unit. The end is where its definition lay.
    pub fn remove(&self, name: &str, s: &Surroundings) -> (r: Plan<String>)
        ensures
            script(r.steps@) == systemd_remove(text_in(s.home), name@),
            is_place(
                r.end,
                match s.home {
                    Some(home) => Some(service_path(home@, name@)),
                    None => None,
                },
            ),
    {
        let mut steps: Vec<Step> = Vec::new();
        let disable = vec!["disable".to_owned(), "--now".to_owned(), Systemd::unit_name(name)];
        assert(texts(disable@) =~= seq!["disable"@, "--now"@, service_of(name@)]);
        steps.push(try_to(Systemd::systemctl(disable)));
        match self.unit_path(name, s) {
            Ok(path) => {
                steps.push(need_to(Action::Remove(path.clone()), "removing ", path.as_str()));
                let reload = vec!["daemon-reload".to_owned()];
                assert(texts(reload@) =~= seq!["daemon-reload"@]);
                steps.push(try_to(Systemd::systemctl(reload)));
                assert(script(steps@) =~= systemd_remove(text_in(s.home), name@));
                Plan { steps, end: Ok(path) }
            },
            Err(e) => {
                assert(script(steps@) =~= systemd_remove(text_in(s.home), name@));
                Plan { steps, end: Err(e) }
            },
        }
    }

    /// How to ask after an agent's unit.
    pub fn query(&self, name: &str) -> (r: Action)
        ensures
            r@ == systemd_query(name@),
    {
        let args = vec!["is-active".to_owned(), "--quiet".to_owned(), Systemd::unit_name(name)];
        assert(texts(args@) =~= seq!["is-active"@, "--quiet"@, service_of(name@)]);
        Systemd::systemctl(args)
    }

    /// Whether the answer is that the unit is active.
    pub fn is_running(&self, answer: &Outcome) -> (r: bool)
        ensures
            r == systemd_says_running(*answer),
    {
        match answer {
            Outcome::Ran { success, .. } => *success,
            _ => false,
        }
    }
}

// Either of them.

/// What keeps agents running on this machine.
#[derive(Debug, PartialEq, Eq)]
pub enum Supervisor {
    Launchd(Launchd),
    Systemd(Systemd),
}

/// The supervisor of a machine.
pub fn supervisor(s: &Surroundings) -> (r: Supervisor)
    ensures
        r == supervisor_of(*s),
{
    match s.platform {
        Platform::MacOs => Supervisor::Launchd(Launchd { uid: s.uid }),
        Platform::Other => Supervisor::Systemd(Systemd),
    }
}

/// The supervisor of a machine.
pub open spec fn supervisor_of(s: Surroundings) -> Supervisor {
    match s.platform {
        Platform::MacOs => Supervisor::Launchd(Launchd { uid: s.uid }),
        Platform::Other => Supervisor::Systemd(Systemd),
    }
}

impl Supervisor {
    /// What a unit is called.
    pub open spec fn id_of(self, name: Seq<char>) -> Seq<char> {
        match self {
            Supervisor::Launchd(_) => label_of(name),
            Supervisor::Systemd(_) => service_of(name),
        }
    }

    /// Where the definition of a unit lies.
    pub open spec fn definition_path(self, home: Seq<char>, name: Seq<char>) -> Seq<char> {
        match self {
            Supervisor::Launchd(_) => plist_path(home, name),
            Supervisor::Systemd(_) => service_path(home, name),
        }
    }

    /// The steps that install a unit.
    pub open spec fn install_script(
        self,
        home: Seq<char>,
        log: Seq<char>,
        name: Seq<char>,
        host: Seq<char>,
    ) -> Seq<StepView> {
        match self {
            Supervisor::Launchd(launchd) => launchd_install(launchd.uid, home, log, name, host),
            Supervisor::Systemd(_) => systemd_install(home, name, host),
        }
    }

    /// The steps that remove a unit, as far as there is a home directory.
    pub open spec fn remove_script(
        self,
        home: Option<Seq<char>>,
        name: Seq<char>,
    ) -> Seq<StepView> {
        match self {
            Supervisor::Launchd(launchd) => launchd_remove(launchd.uid, home, name),
            Supervisor::Systemd(_) => systemd_remove(home, name),
        }
    }

    /// How to ask after a unit.
    pub open spec fn query_of(self, name: Seq<char>) -> ActionView {
        match self {
            Supervisor::Launchd(launchd) => launchd_query(launchd.uid, name),
            Supervisor::Systemd(_) => systemd_query(name),
        }
    }

    /// Whether the answer is that the agent is running.
    pub open spec fn says_running(self, outcome: Outcome) -> bool {
        match self {
            Supervisor::Launchd(_) => launchd_says_running(outcome),
            Supervisor::Systemd(_) => systemd_says_running(outcome),
        }
    }

    /// Where the definition of an agent's unit lies.
    pub fn unit_path(&self, name: &str, s: &Surroundings) -> (r: Result<String, HostError>)
        ensures
            is_place(
                r,
                match s.home {
                    Some(home) => Some(self.definition_path(home@, name@)),
                    None => None,
                },
            ),
    {
        match self {
            Supervisor::Launchd(launchd) => launchd.unit_path(name, s),
            Supervisor::Systemd(systemd) => systemd.unit_path(name, s),
        }
    }

    /// How to create or replace a unit and start it anew. The end is what the
    /// unit is called.
    pub fn install(&self, name: &str, buzz_host: &str, s: &Surroundings) -> (r: Plan<String>)
        requires
            is_name(name@),
        ensures
            match s.home {
                None => r.only_says(HostError::NoHome),
                Some(home) => {
                    &&& script(r.steps@) == self.install_script(
                        home@,
                        log_path_in(state_of(*s)->0, name@),
                        name@,
                        buzz_host@,
                    )
                    &&& r.end matches Ok(id) && id@ == self.id_of(name@)
                },
            },
    {
        match self {
            Supervisor::Launchd(launchd) => launchd.install(name, buzz_host, s),
            Supervisor::Systemd(systemd) => systemd.install(name, buzz_host, s),
        }
    }

    /// How to remove a unit. The end is where its definition lay.
    pub fn remove(&self, name: &str, s: &Surroundings) -> (r: Plan<String>)
        ensures
            script(r.steps@) == self.remove_script(text_in(s.home), name@),
            is_place(
                r.end,
                match s.home {
                    Some(home) => Some(self.definition_path(home@, name@)),
                    None => None,
                },
            ),
    {
        match self {
            Supervisor::Launchd(launchd) => launchd.remove(name, s),
            Supervisor::Systemd(systemd) => systemd.remove(name, s),
        }
    }

    /// How to ask after an agent's unit.
    pub fn query(&self, name: &str) -> (r: Action)
        ensures
            r@ == self.query_of(name@),
    {
        match self {
            Supervisor::Launchd(launchd) => launchd.query(name),
            Supervisor::Systemd(systemd) => systemd.query(name),
        }
    }

    /// Whether the answer is that the agent is running.
    pub fn is_running(&self, answer: &Outcome) -> (r: bool)
        ensures
            r == self.says_running(*answer),
    {
        match self {
            Supervisor::Launchd(launchd) => launchd.is_running(answer),
            Supervisor::Systemd(systemd) => systemd.is_running(answer),
        }
    }
}

// What holds of units.

/// The units of agents with different names are different: in what they are
/// called and in where their definitions lie.
pub proof fn units_tell_names_apart(
    sup: Supervisor,
    home: Seq<char>,
    a: Seq<char>,
    b: Seq<char>,
)
    requires
        a != b,
    ensures
        sup.id_of(a) != sup.id_of(b),
        sup.definition_path(home, a) != sup.definition_path(home, b),
{
    labels_tell_names_apart(a, b);
    services_tell_names_apart(a, b);
    reveal_strlit("dev.buzz.host.");
    reveal_strlit("buzz-host-");
    let (dir, x, y) = match sup {
        Supervisor::Launchd(_) => (
            launchd_dir(home),
            label_of(a) + ".plist"@,
            label_of(b) + ".plist"@,
        ),
        Supervisor::Systemd(_) => (systemd_dir(home), service_of(a), service_of(b)),
    };
    assert(x != y) by {
        if x == y && sup is Launchd {
            let n = x.len() - ".plist"@.len();
            assert(label_of(a) =~= x.take(n));
            assert(label_of(b) =~= y.take(n));
        }
    }
    assert(x.first() != '/' && y.first() != '/');
    let lead = below(dir, x).len() - x.len();
    assert(x =~= below(dir, x).skip(lead));
    assert(y =~= below(dir, y).skip(below(dir, y).len() - y.len()));
    assert(below(dir, y).len() - y.len() == lead);
}

proof fn services_tell_names_apart(a: Seq<char>, b: Seq<char>)
    requires
        a != b,
    ensures
        service_of(a) != service_of(b),
{
    let start = "buzz-host-"@.len() as int;
    assert(a =~= service_of(a).subrange(start, start + a.len()));
    assert(b =~= service_of(b).subrange(start, start + b.len()));
    if service_of(a) == service_of(b) {
        assert(a.len() == b.len());
    }
}

/// Installing a unit over one that is there takes effect: the definition is
/// written before the supervisor is called at all, and the last call starts the
/// agent anew. On a Mac the loaded definition is dropped before the new one is
/// loaded.
pub proof fn installing_starts_anew(
    sup: Supervisor,
    home: Seq<char>,
    log: Seq<char>,
    name: Seq<char>,
    host: Seq<char>,
)
    ensures
        ({
            let steps = sup.install_script(home, log, name, host);
            &&& steps.len() == 5
            &&& steps[1].action matches ActionView::Write { path, .. }
            &&& path == sup.definition_path(home, name)
            &&& forall|i: int| 0 <= i < 2 ==> !((#[trigger] steps[i]).action is Run)
            &&& match sup {
                Supervisor::Launchd(launchd) => {
                    let target = launchd_target(launchd.uid, name);
                    &&& steps[2].action == run_of("launchctl"@, seq!["bootout"@, target])
                    &&& steps[3].action == run_of(
                        "launchctl"@,
                        seq!["bootstrap"@, domain_of(launchd.uid), path],
                    )
                    &&& steps[4].action == run_of("launchctl"@, seq!["kickstart"@, "-k"@, target])
                },
                Supervisor::Systemd(_) => {
                    &&& steps[2].action == systemctl_of(seq!["daemon-reload"@])
                    &&& steps[3].action == systemctl_of(
                        seq!["enable"@, "--now"@, service_of(name)],
                    )
                    &&& steps[4].action == systemctl_of(seq!["restart"@, service_of(name)])
                },
            }
        }),
{
}

/// Whether an outcome is that a program could not be run, or ran without success.
pub open spec fn went_wrong(outcome: Outcome) -> bool {
    match outcome {
        Outcome::Done => false,
        Outcome::Failed(_) => true,
        Outcome::Ran { success, .. } => !success,
    }
}

/// An install on a Mac ends early exactly where a file could not be written or a
/// directory not made, or where the new definition was not loaded. That nothing was
/// loaded before, and so nothing could be dropped, is no reason to end, nor is a
/// restart that failed.
pub proof fn mac_installs_end_where_nothing_is_loaded(
    uid: u32,
    home: Seq<char>,
    log: Seq<char>,
    name: Seq<char>,
    host: Seq<char>,
    i: int,
    outcome: Outcome,
)
    requires
        0 <= i < launchd_install(uid, home, log, name, host).len(),
    ensures
        ({
            let step = launchd_install(uid, home, log, name, host)[i];
            verdict_of(step.failure, outcome) is Some <==> match step.action {
                ActionView::Run { args, .. } => args.first() == "bootstrap"@ && went_wrong(outcome),
                _ => outcome is Failed,
            }
        }),
{
    reveal_strlit("bootout");
    reveal_strlit("bootstrap");
    reveal_strlit("kickstart");
    assert("bootout"@.len() != "bootstrap"@.len());
    assert("kickstart"@[0] != "bootstrap"@[0]);
}

/// An install anywhere else ends early exactly where a file could not be written or
/// a directory not made, where `systemctl` could not be run to reload or to enable,
/// or where it would not enable the unit. A restart that failed is no reason to end.
pub proof fn other_installs_end_where_nothing_is_enabled(
    home: Seq<char>,
    name: Seq<char>,
    host: Seq<char>,
    i: int,
    outcome: Outcome,
)
    requires
        0 <= i < systemd_install(home, name, host).len(),
    ensures
        ({
            let step = systemd_install(home, name, host)[i];
            verdict_of(step.failure, outcome) is Some <==> match step.action {
                ActionView::Run { args, .. } => {
                    ||| args[1] == "enable"@ && went_wrong(outcome)
                    ||| args[1] == "daemon-reload"@ && outcome is Failed
                },
                _ => outcome is Failed,
            }
        }),
{
    reveal_strlit("enable");
    reveal_strlit("daemon-reload");
    reveal_strlit("restart");
    assert("enable"@.len() == 6 && "daemon-reload"@.len() == 13 && "restart"@.len() == 7);
    let steps = systemd_install(home, name, host);
    let service = service_of(name);
    let reload = seq!["--user"@] + seq!["daemon-reload"@];
    let enable = seq!["--user"@] + seq!["enable"@, "--now"@, service];
    let restart = seq!["--user"@] + seq!["restart"@, service];
    assert(reload[1] == "daemon-reload"@);
    assert(enable[1] == "enable"@);
    assert(restart[1] == "restart"@);
    assert(steps[2].action == (ActionView::Run { program: "systemctl"@, args: reload }));
    assert(steps[3].action == (ActionView::Run { program: "systemctl"@, args: enable }));
    assert(steps[4].action == (ActionView::Run { program: "systemctl"@, args: restart }));
}

/// A removal ends early exactly where a file could not be removed: a unit that was
/// not running is no reason to end.
pub proof fn removals_end_where_a_file_stays(
    sup: Supervisor,
    home: Option<Seq<char>>,
    name: Seq<char>,
    i: int,
    outcome: Outcome,
)
    requires
        0 <= i < sup.remove_script(home, name).len(),
    ensures
        verdict_of(sup.remove_script(home, name)[i].failure, outcome) is Some <==> (
        sup.remove_script(home, name)[i].action is Remove && outcome is Failed),
{
}

/// On a Mac an agent is running exactly where the unit could be printed and the
/// print says so in full, with something in front of it and something behind it or
/// nothing. Anywhere else it is running exactly where asking had success.
pub proof fn running_is_what_supervisors_say(outcome: Outcome)
    ensures
        launchd_says_running(outcome) <==> {
            &&& outcome matches Outcome::Ran { success, stdout, .. }
            &&& success
            &&& is_told(stdout@, "state = running"@)
        },
        systemd_says_running(outcome) <==> (outcome is Ran && !went_wrong(outcome)),
{
    if let Outcome::Ran { stdout, .. } = outcome {
        held_texts_stand_in_between(stdout@, "state = running"@);
    }
}

/// An agent whose unit is loaded but whose process is gone is not running: it is
/// not where `state = running` is nowhere in the print, whatever else is.
pub proof fn loaded_is_not_running(success: bool, stdout: String, stderr: String)
    requires
        forall|i: int|
            0 <= i <= stdout@.len() - 15 ==> #[trigger] stdout@.subrange(i, i + 15)
                != "state = running"@,
    ensures
        !launchd_says_running(Outcome::Ran { success, stdout, stderr }),
{
    reveal_strlit("state = running");
    assert("state = running"@.len() == 15);
}

/// The last argument of a call.
pub open spec fn subject(action: ActionView) -> Seq<char> {
    action->Run_args.last()
}

/// One unit is meant throughout: the one that is started anew is the one that is
/// dropped or disabled, removed and asked after. On a Mac it is the agent's unit in
/// the session that the definition is loaded into.
pub proof fn one_unit_is_meant(
    sup: Supervisor,
    home: Seq<char>,
    log: Seq<char>,
    name: Seq<char>,
    host: Seq<char>,
)
    ensures
        ({
            let install = sup.install_script(home, log, name, host);
            let unit = subject(install[4].action);
            &&& subject(sup.remove_script(Some(home), name)[0].action) == unit
            &&& subject(sup.remove_script(None, name)[0].action) == unit
            &&& subject(sup.query_of(name)) == unit
            &&& match sup {
                Supervisor::Launchd(launchd) => {
                    &&& subject(install[2].action) == unit
                    &&& subject(install[3].action) == sup.definition_path(home, name)
                    &&& unit == seq!['g', 'u', 'i', '/'] + decimal(launchd.uid as int) + seq!['/']
                        + sup.id_of(name)
                    &&& install[3].action->Run_args[1] + seq!['/'] + sup.id_of(name) == unit
                },
                Supervisor::Systemd(_) => {
                    &&& subject(install[3].action) == unit
                    &&& unit == sup.id_of(name)
                },
            }
        }),
{
    reveal_strlit("gui/");
    reveal_strlit("/");
    assert("gui/"@ =~= seq!['g', 'u', 'i', '/']);
    assert("/"@ =~= seq!['/']);
    let service = service_of(name);
    assert((seq!["--user"@] + seq!["enable"@, "--now"@, service]).last() == service);
    assert((seq!["--user"@] + seq!["restart"@, service]).last() == service);
    assert((seq!["--user"@] + seq!["disable"@, "--now"@, service]).last() == service);
    assert((seq!["--user"@] + seq!["is-active"@, "--quiet"@, service]).last() == service);
}

/// The definition of a unit on a Mac, told in its parts: it has the agent's label, it
/// runs the host program with `run` and the agent's name, it starts when it is
/// loaded and comes back when it stops, and all its output goes to the log.
pub proof fn mac_definitions_run_the_agent(
    uid: u32,
    home: Seq<char>,
    log: Seq<char>,
    name: Seq<char>,
    host: Seq<char>,
)
    ensures
        ({
            let step = launchd_install(uid, home, log, name, host)[1];
            let text = step.action->Write_text;
            &&& step.action is Write
            &&& is_told(text, "<key>Label</key><string>"@ + label_of(name) + "</string>"@)
            &&& is_told(
                text,
                "<array>\n    <string>"@ + xml_escaped(host)
                    + "</string>\n    <string>run</string>\n    <string>"@ + xml_escaped(name)
                    + "</string>\n  </array>"@,
            )
            &&& is_told(text, "<key>RunAtLoad</key><true/>"@)
            &&& is_told(text, "<key>KeepAlive</key><true/>"@)
            &&& is_told(
                text,
                "<key>StandardOutPath</key><string>"@ + xml_escaped(log) + "</string>"@,
            )
            &&& is_told(
                text,
                "<key>StandardErrorPath</key><string>"@ + xml_escaped(log) + "</string>"@,
            )
        }),
{
    let one =
        "<?xml version=\"1.0\" encoding=\"UTF-8\"?>\n<!DOCTYPE plist PUBLIC \"-//Apple//DTD PLIST 1.0//EN\" \"http://www.apple.com/DTDs/PropertyList-1.0.dtd\">\n<plist version=\"1.0\">\n<dict>\n  <key>Label</key><string>"@;
    let two = "</string>\n  <key>ProgramArguments</key>\n  <array>\n    <string>"@;
    let three = "</string>\n    <string>run</string>\n    <string>"@;
    let four =
        "</string>\n  </array>\n  <key>RunAtLoad</key><true/>\n  <key>KeepAlive</key><true/>\n  <key>ProcessType</key><string>Background</string>\n  <key>StandardOutPath</key><string>"@;
    let five = "</string>\n  <key>StandardErrorPath</key><string>"@;
    let six = "</string>\n</dict>\n</plist>\n"@;
    reveal_strlit(
        "<?xml version=\"1.0\" encoding=\"UTF-8\"?>\n<!DOCTYPE plist PUBLIC \"-//Apple//DTD PLIST 1.0//EN\" \"http://www.apple.com/DTDs/PropertyList-1.0.dtd\">\n<plist version=\"1.0\">\n<dict>\n  <key>Label</key><string>",
    );
    reveal_strlit("</string>\n  <key>ProgramArguments</key>\n  <array>\n    <string>");
    reveal_strlit(
        "</string>\n  </array>\n  <key>RunAtLoad</key><true/>\n  <key>KeepAlive</key><true/>\n  <key>ProcessType</key><string>Background</string>\n  <key>StandardOutPath</key><string>",
    );
    reveal_strlit("</string>\n  <key>StandardErrorPath</key><string>");
    reveal_strlit("</string>\n</dict>\n</plist>\n");
    reveal_strlit("<key>Label</key><string>");
    reveal_strlit("</string>");
    reveal_strlit("<array>\n    <string>");
    reveal_strlit("</string>\n  </array>");
    reveal_strlit("<key>RunAtLoad</key><true/>");
    reveal_strlit("<key>KeepAlive</key><true/>");
    reveal_strlit("<key>StandardOutPath</key><string>");
    reveal_strlit("<key>StandardErrorPath</key><string>");
    let text = plist_of(name, host, log);
    let l = label_of(name);
    let h = xml_escaped(host);
    let n = xml_escaped(name);
    let g = xml_escaped(log);
    let end = "</string>"@;
    assert(one.skip(one.len() - 24) =~= "<key>Label</key><string>"@);
    assert(two.take(9) =~= end);
    assert(two.skip(two.len() - 20) =~= "<array>\n    <string>"@);
    assert(four.take(20) =~= "</string>\n  </array>"@);
    assert(four.subrange(23, 50) =~= "<key>RunAtLoad</key><true/>"@);
    assert(four.subrange(53, 80) =~= "<key>KeepAlive</key><true/>"@);
    assert(four.skip(four.len() - 34) =~= "<key>StandardOutPath</key><string>"@);
    assert(five.take(9) =~= end);
    assert(five.skip(12) =~= "<key>StandardErrorPath</key><string>"@);
    assert(six.take(9) =~= end);
    assert(text == one + l + two + h + three + n + four + g + five + g + six);
    tell(
        text,
        one.take(one.len() - 24),
        one.skip(one.len() - 24) + l + two.take(9),
        two.skip(9) + h + three + n + four + g + five + g + six,
    );
    tell(
        text,
        one + l + two.take(two.len() - 20),
        two.skip(two.len() - 20) + h + three + n + four.take(20),
        four.skip(20) + g + five + g + six,
    );
    let until = one + l + two + h + three + n;
    let rest = g + five + g + six;
    tell(text, until + four.take(23), four.subrange(23, 50), four.skip(50) + rest);
    tell(text, until + four.take(53), four.subrange(53, 80), four.skip(80) + rest);
    tell(
        text,
        until + four.take(four.len() - 34),
        four.skip(four.len() - 34) + g + five.take(9),
        five.skip(9) + g + six,
    );
    tell(text, until + four + g + five.take(12), five.skip(12) + g + six.take(9), six.skip(9));
}

proof fn tell(whole: Seq<char>, before: Seq<char>, part: Seq<char>, after: Seq<char>)
    requires
        whole =~= before + part + after,
    ensures
        is_told(whole, part),
{
    assert(before + part + after == whole);
}

/// The definition of a unit anywhere else, told in its parts: it runs the host
/// program with `run` and the agent's name, it comes back when it stops, and it
/// starts with the user's session.
pub proof fn other_definitions_run_the_agent(home: Seq<char>, name: Seq<char>, host: Seq<char>)
    ensures
        ({
            let step = systemd_install(home, name, host)[1];
            let text = step.action->Write_text;
            &&& step.action is Write
            &&& is_told(text, "\nExecStart="@ + host + " run "@ + name + "\n"@)
            &&& is_told(text, "\nRestart=always\n"@)
            &&& is_told(text, "\n[Install]\nWantedBy=default.target\n"@)
        }),
{
    let one = "[Unit]\nDescription=buzz agent "@;
    let two = "\nAfter=network-online.target\n\n[Service]\nType=simple\nExecStart="@;
    let three = " run "@;
    let four = "\nRestart=always\nRestartSec=5\n\n[Install]\nWantedBy=default.target\n"@;
    reveal_strlit("\nAfter=network-online.target\n\n[Service]\nType=simple\nExecStart=");
    reveal_strlit("\nRestart=always\nRestartSec=5\n\n[Install]\nWantedBy=default.target\n");
    reveal_strlit("\nExecStart=");
    reveal_strlit("\n");
    reveal_strlit("\nRestart=always\n");
    reveal_strlit("\n[Install]\nWantedBy=default.target\n");
    let text = service_text_of(name, host);
    assert(two.skip(two.len() - 11) =~= "\nExecStart="@);
    assert(four.take(1) =~= "\n"@);
    assert(four.take(16) =~= "\nRestart=always\n"@);
    assert(four.skip(four.len() - 35) =~= "\n[Install]\nWantedBy=default.target\n"@);
    assert(text == one + name + two + host + three + name + four);
    tell(
        text,
        one + name + two.take(two.len() - 11),
        two.skip(two.len() - 11) + host + three + name + four.take(1),
        four.skip(1),
    );
    let until = one + name + two + host + three + name;
    tell(text, until, four.take(16), four.skip(16));
    tell(text, until + four.take(four.len() - 35), four.skip(four.len() - 35), Seq::empty());
}

/// The definition of a unit is written into a directory that is made first, under
/// the name that the unit is called by.
pub proof fn definitions_have_a_directory(
    sup: Supervisor,
    home: Seq<char>,
    log: Seq<char>,
    name: Seq<char>,
    host: Seq<char>,
)
    ensures
        ({
            let steps = sup.install_script(home, log, name, host);
            let dir = steps[0].action->CreateDirs_0;
            let file = match sup {
                Supervisor::Launchd(_) => sup.id_of(name) + seq!['.', 'p', 'l', 'i', 's', 't'],
                Supervisor::Systemd(_) => sup.id_of(name),
            };
            &&& steps[0].action is CreateDirs
            &&& steps[1].action is Write
            &&& steps[1].action->Write_path == below(dir, file)
            &&& home.is_prefix_of(dir)
        }),
{
    reveal_strlit(".plist");
    reveal_strlit("Library/LaunchAgents");
    reveal_strlit(".config/systemd/user");
    assert(".plist"@ =~= seq!['.', 'p', 'l', 'i', 's', 't']);
}

} // verus!
