//! The machine that runs agents: what it is, and where it keeps things.

use vstd::prelude::*;
use vstd::string::*;

use crate::files::{below, join_path};
use crate::lists::{join_texts, joined, texts};
use crate::names::{is_name, is_name_char, is_valid_name, names_stay_put};
use crate::steps::is_told;
use crate::text::{debug_form, debug_text};

verus! {

/// The kind of machine.
#[derive(Debug, Clone, Copy, PartialEq, Eq)]
pub enum Platform {
    /// One with launchd.
    MacOs,
    /// Any other, with systemd.
    Other,
}

/// What the host finds around it when it starts.
#[derive(Debug, PartialEq, Eq)]
pub struct Surroundings {
    pub platform: Platform,
    /// `HOME`.
    pub home: Option<String>,
    /// `BUZZ_HOST_STATE`, which says where to keep state.
    pub state: Option<String>,
    /// `BUZZ_ACP_BIN`, which says where `buzz-acp` is.
    pub acp: Option<String>,
    /// `PATH`.
    pub path: Option<String>,
    /// The user's number.
    pub uid: u32,
}

/// The text that may be there.
pub open spec fn text_in(s: Option<String>) -> Option<Seq<char>> {
    match s {
        Some(s) => Some(s@),
        None => None,
    }
}

// Errors.

/// Why the host could not do what it was asked to.
#[derive(Debug, PartialEq, Eq)]
pub enum HostError {
    /// This is no name.
    InvalidName(String),
    /// There is no home directory.
    NoHome,
    /// `BUZZ_ACP_BIN` leads to this path, where there is no file.
    NotAFile(String),
    /// `buzz-acp` is in none of these places.
    NoAcp(Vec<String>),
    /// There is no description of a unit.
    NoDescription,
    /// There is no file at the path of the program.
    NoProgram(String),
    /// The directory to start in is not there.
    NoWorkdir { dir: String, name: String },
    /// The harness is not on the search path.
    NoHarness { bin: String, name: String, path: String },
    /// A step failed, for this reason.
    Step(String),
}

/// What an error says.
pub open spec fn host_message_of(e: HostError) -> Seq<char> {
    match e {
        HostError::InvalidName(name) => "invalid name "@ + debug_form(name@)
            + ": 1-64 characters of lowercase letters, digits, '-' and '_'. It becomes a filename and a unit label."@,
        HostError::NoHome => "HOME is not set, so there is nowhere to keep state"@,
        HostError::NotAFile(path) => "BUZZ_ACP_BIN is set to "@ + path@ + ", which is not a file"@,
        HostError::NoAcp(places) => "cannot find buzz-acp. Looked in: "@ + joined(
            texts(places@),
            ", "@,
        ) + ". Set BUZZ_ACP_BIN to its path."@,
        HostError::NoDescription => "no unit description on stdin"@,
        HostError::NoProgram(path) => path@ + " is not a file on this machine"@,
        HostError::NoWorkdir { dir, name } => "BUZZ_HOST_WORKDIR is "@ + debug_form(dir@)
            + ", which is not a directory on this machine.\nAgent: "@ + name@
            + "\nCreate it, or unset it to start in the home directory."@,
        HostError::NoHarness { bin, name, path } => "harness "@ + debug_form(bin@)
            + " is not on this machine's PATH, so every agent would fail to spawn.\nAgent:    "@
            + name@ + "\nSearched: "@ + path@
            + "\n\nEither install it here, or point the agent at a harness that is present. An ACP harness has to exist on the machine that runs it — a containerised one (hive-acp) brings its own, a native one (codex-acp) must be installed."@,
        HostError::Step(reason) => reason@,
    }
}

impl HostError {
    /// What the error says.
    pub fn message(&self) -> (r: String)
        ensures
            r@ == host_message_of(*self),
    {
        match self {
            HostError::InvalidName(name) => {
                let mut r = "invalid name ".to_owned();
                r.append(debug_text(name.as_str()).as_str());
                r.append(
                    ": 1-64 characters of lowercase letters, digits, '-' and '_'. It becomes a filename and a unit label.",
                );
                r
            },
            HostError::NoHome => "HOME is not set, so there is nowhere to keep state".to_owned(),
            HostError::NotAFile(path) => {
                let mut r = "BUZZ_ACP_BIN is set to ".to_owned();
                r.append(path.as_str());
                r.append(", which is not a file");
                r
            },
            HostError::NoAcp(places) => {
                let mut r = "cannot find buzz-acp. Looked in: ".to_owned();
                r.append(join_texts(places, ", ").as_str());
                r.append(". Set BUZZ_ACP_BIN to its path.");
                r
            },
            HostError::NoDescription => "no unit description on stdin".to_owned(),
            HostError::NoProgram(path) => {
                let mut r = path.clone();
                r.append(" is not a file on this machine");
                r
            },
            HostError::NoWorkdir { dir, name } => {
                let mut r = "BUZZ_HOST_WORKDIR is ".to_owned();
                r.append(debug_text(dir.as_str()).as_str());
                r.append(", which is not a directory on this machine.\nAgent: ");
                r.append(name.as_str());
                r.append("\nCreate it, or unset it to start in the home directory.");
                r
            },
            HostError::NoHarness { bin, name, path } => {
                let mut r = "harness ".to_owned();
                r.append(debug_text(bin.as_str()).as_str());
                r.append(
                    " is not on this machine's PATH, so every agent would fail to spawn.\nAgent:    ",
                );
                r.append(name.as_str());
                r.append("\nSearched: ");
                r.append(path.as_str());
                r.append(
                    "\n\nEither install it here, or point the agent at a harness that is present. An ACP harness has to exist on the machine that runs it — a containerised one (hive-acp) brings its own, a native one (codex-acp) must be installed.",
                );
                r
            },
            HostError::Step(reason) => reason.clone(),
        }
    }
}

// Names and places.

/// Refuse what is no name.
pub fn check_name(name: &str) -> (r: Result<(), HostError>)
    ensures
        match r {
            Ok(()) => is_name(name@),
            Err(HostError::InvalidName(refused)) => !is_name(name@) && refused@ == name@,
            Err(_) => false,
        },
{
    if is_valid_name(name) {
        Ok(())
    } else {
        Err(HostError::InvalidName(name.to_owned()))
    }
}

/// Whether a result is the text that there is, or the error for want of a home.
pub open spec fn is_place(r: Result<String, HostError>, place: Option<Seq<char>>) -> bool {
    match place {
        Some(path) => r matches Ok(found) && found@ == path,
        None => r == Err::<String, HostError>(HostError::NoHome),
    }
}

/// The home directory.
pub fn home(s: &Surroundings) -> (r: Result<String, HostError>)
    ensures
        is_place(r, text_in(s.home)),
{
    match &s.home {
        Some(home) => Ok(home.clone()),
        None => Err(HostError::NoHome),
    }
}

/// A path below the home directory, if there is one.
pub open spec fn below_home(s: Surroundings, path: Seq<char>) -> Option<Seq<char>> {
    match s.home {
        Some(home) => Some(below(home@, path)),
        None => None,
    }
}

/// Where state is kept: where `BUZZ_HOST_STATE` says, or else in the usual place
/// below the home directory.
pub open spec fn state_of(s: Surroundings) -> Option<Seq<char>> {
    match s.state {
        Some(dir) => Some(dir@),
        None => below_home(
            s,
            match s.platform {
                Platform::MacOs => "Library/Application Support/buzz-host"@,
                Platform::Other => ".local/state/buzz-host"@,
            },
        ),
    }
}

/// Where state is kept.
pub fn state_dir(s: &Surroundings) -> (r: Result<String, HostError>)
    ensures
        is_place(r, state_of(*s)),
{
    match &s.state {
        Some(dir) => Ok(dir.clone()),
        None => match home(s) {
            Ok(home) => Ok(
                match s.platform {
                    Platform::MacOs => join_path(
                        home.as_str(),
                        "Library/Application Support/buzz-host",
                    ),
                    Platform::Other => join_path(home.as_str(), ".local/state/buzz-host"),
                },
            ),
            Err(e) => Err(e),
        },
    }
}

/// The description of a unit, in the directory where state is kept.
pub open spec fn unit_path_in(dir: Seq<char>, name: Seq<char>) -> Seq<char> {
    below(dir, name + ".json"@)
}

/// The log of a unit, in the directory where state is kept.
pub open spec fn log_path_in(dir: Seq<char>, name: Seq<char>) -> Seq<char> {
    below(below(dir, "logs"@), name + ".log"@)
}

/// The description of a unit.
pub fn unit_file(s: &Surroundings, name: &str) -> (r: Result<String, HostError>)
    ensures
        is_place(
            r,
            match state_of(*s) {
                Some(dir) => Some(unit_path_in(dir, name@)),
                None => None,
            },
        ),
{
    match state_dir(s) {
        Ok(dir) => {
            let mut file = name.to_owned();
            file.append(".json");
            Ok(join_path(dir.as_str(), file.as_str()))
        },
        Err(e) => Err(e),
    }
}

/// The log of a unit.
pub fn log_file(s: &Surroundings, name: &str) -> (r: Result<String, HostError>)
    ensures
        is_place(
            r,
            match state_of(*s) {
                Some(dir) => Some(log_path_in(dir, name@)),
                None => None,
            },
        ),
{
    match state_dir(s) {
        Ok(dir) => {
            let mut file = name.to_owned();
            file.append(".log");
            Ok(join_path(join_path(dir.as_str(), "logs").as_str(), file.as_str()))
        },
        Err(e) => Err(e),
    }
}

// What holds of these places.

/// The files of agents with different names are different.
pub proof fn files_tell_names_apart(dir: Seq<char>, a: Seq<char>, b: Seq<char>)
    requires
        is_name(a),
        is_name(b),
        a != b,
    ensures
        unit_path_in(dir, a) != unit_path_in(dir, b),
        log_path_in(dir, a) != log_path_in(dir, b),
{
    below_tells_names_apart(dir, a, b, ".json"@);
    below_tells_names_apart(below(dir, "logs"@), a, b, ".log"@);
}

proof fn below_tells_names_apart(dir: Seq<char>, a: Seq<char>, b: Seq<char>, end: Seq<char>)
    requires
        is_name(a),
        is_name(b),
        a != b,
    ensures
        below(dir, a + end) != below(dir, b + end),
{
    assert((a + end).first() == a[0]);
    assert((b + end).first() == b[0]);
    let lead = below(dir, a + end).len() - (a + end).len();
    assert(a =~= below(dir, a + end).subrange(lead, lead + a.len()));
    assert(b =~= below(dir, b + end).subrange(lead, lead + b.len()));
    if below(dir, a + end) == below(dir, b + end) {
        assert(a.len() == b.len());
    }
}

/// The files of an agent lie in the directory where state is kept, and in the
/// directory of logs there: what follows the directory holds no slash, and is
/// neither the directory itself nor the one above it.
pub proof fn files_stay_in_place(dir: Seq<char>, name: Seq<char>)
    requires
        is_name(name),
    ensures
        unit_path_in(dir, name) == below(dir, Seq::empty()) + name + ".json"@,
        log_path_in(dir, name) == below(below(dir, "logs"@), Seq::empty()) + name + ".log"@,
        !(name + ".json"@).contains('/'),
        !(name + ".log"@).contains('/'),
        (name + ".json"@).first() != '.',
        (name + ".log"@).first() != '.',
{
    names_stay_put(name);
    reveal_strlit(".json");
    reveal_strlit(".log");
    assert(is_name_char(name[0]));
    assert((name + ".json"@).first() == name[0]);
    assert((name + ".log"@).first() == name[0]);
    assert(unit_path_in(dir, name) =~= below(dir, Seq::empty()) + name + ".json"@);
    assert(log_path_in(dir, name) =~= below(below(dir, "logs"@), Seq::empty()) + name + ".log"@);
    assert forall|i: int| 0 <= i < (name + ".json"@).len() implies (name + ".json"@)[i] != '/' by {
        if i < name.len() {
            assert((name + ".json"@)[i] == name[i]);
            assert(name.contains(name[i]));
        }
    }
    assert forall|i: int| 0 <= i < (name + ".log"@).len() implies (name + ".log"@)[i] != '/' by {
        if i < name.len() {
            assert((name + ".log"@)[i] == name[i]);
            assert(name.contains(name[i]));
        }
    }
}

/// State is kept where the user says, whatever that is, and otherwise below the home
/// directory, which is needed only then.
pub proof fn state_is_kept_where_it_is_said(s: Surroundings)
    ensures
        s.state matches Some(dir) ==> state_of(s) == Some(dir@),
        s.state is None ==> (state_of(s) is Some <==> s.home is Some),
        s.state is None && s.home is Some ==> (s.home->0)@.is_prefix_of(state_of(s)->0),
{
    reveal_strlit("Library/Application Support/buzz-host");
    reveal_strlit(".local/state/buzz-host");
}

/// An error tells the user what it is about: the name, the path, the harness, the
/// places, the reason.
pub proof fn errors_tell_what_they_are_about(e: HostError)
    ensures
        match e {
            HostError::InvalidName(name) => is_told(host_message_of(e), debug_form(name@)),
            HostError::NotAFile(path) => is_told(host_message_of(e), path@),
            HostError::NoAcp(places) => is_told(
                host_message_of(e),
                joined(texts(places@), seq![',', ' ']),
            ),
            HostError::NoProgram(path) => is_told(host_message_of(e), path@),
            HostError::NoWorkdir { dir, name } => {
                &&& is_told(host_message_of(e), debug_form(dir@))
                &&& is_told(host_message_of(e), name@)
            },
            HostError::NoHarness { bin, name, path } => {
                &&& is_told(host_message_of(e), debug_form(bin@))
                &&& is_told(host_message_of(e), name@)
                &&& is_told(host_message_of(e), path@)
            },
            HostError::Step(reason) => host_message_of(e) == reason@,
            HostError::NoHome | HostError::NoDescription => host_message_of(e).len() > 0,
        },
{
    let told = host_message_of(e);
    let none = Seq::<char>::empty();
    match e {
        HostError::InvalidName(name) => tells(told, debug_form(name@), "invalid name "@),
        HostError::NotAFile(path) => tells(told, path@, "BUZZ_ACP_BIN is set to "@),
        HostError::NoAcp(places) => {
            reveal_strlit(", ");
            assert(", "@ =~= seq![',', ' ']);
            tells(told, joined(texts(places@), ", "@), "cannot find buzz-acp. Looked in: "@);
        },
        HostError::NoProgram(path) => tells(told, path@, none),
        HostError::NoWorkdir { dir, name } => {
            let first = "BUZZ_HOST_WORKDIR is "@;
            let second = first + debug_form(dir@)
                + ", which is not a directory on this machine.\nAgent: "@;
            tells(told, debug_form(dir@), first);
            tells(told, name@, second);
        },
        HostError::NoHarness { bin, name, path } => {
            let first = "harness "@;
            let second = first + debug_form(bin@)
                + " is not on this machine's PATH, so every agent would fail to spawn.\nAgent:    "@;
            let third = second + name@ + "\nSearched: "@;
            tells(told, debug_form(bin@), first);
            tells(told, name@, second);
            tells(told, path@, third);
        },
        HostError::Step(_) => {},
        HostError::NoHome => {
            reveal_strlit("HOME is not set, so there is nowhere to keep state");
        },
        HostError::NoDescription => {
            reveal_strlit("no unit description on stdin");
        },
    }
}

proof fn tells(whole: Seq<char>, part: Seq<char>, before: Seq<char>)
    requires
        (before + part).is_prefix_of(whole),
    ensures
        is_told(whole, part),
{
    assert(before + part + whole.skip((before + part).len() as int) =~= whole);
}

} // verus!
