//! The host: installing agents on this machine, removing them, and saying how
//! they are.

use vstd::prelude::*;
use vstd::string::*;

use crate::files::{answered, below, can_look, join_path};
use crate::launch::{launch_env, AgentUnit, Launch};
use crate::lists::{is_sorted, sort_texts, texts};
use crate::machine::{
    check_name, host_message_of, log_file, log_path_in, state_dir, state_of, text_in, unit_file,
    unit_path_in, HostError, Surroundings,
};
use crate::names::{is_name, is_name_char};
use crate::programs::{find_buzz_acp, found_acp, path_of};
use crate::quoting::xml_escaped;
use crate::steps::{
    is_told, script, verdict_of, Action, ActionView, Outcome, Plan, Step, StepView,
};
use crate::supervisor::{
    launchd_install, mac_definitions_run_the_agent, need_to, needed,
    removals_end_where_a_file_stays, supervisor, supervisor_of, Supervisor,
};
use crate::text::{chars_of, part_of, text_of, trim, trimmed};

verus! {

// Installing.

/// Refuse a description that holds nothing.
pub fn check_description(raw: &str) -> (r: Result<(), HostError>)
    ensures
        match r {
            Ok(()) => trimmed(raw@).len() > 0,
            Err(e) => trimmed(raw@).len() == 0 && e == HostError::NoDescription,
        },
{
    if trim(raw).as_str().is_empty() {
        Err(HostError::NoDescription)
    } else {
        Ok(())
    }
}

/// Whether a unit names a program itself.
pub open spec fn names_program(unit: AgentUnit) -> bool {
    unit.program matches Some(program) && program@.len() > 0
}

/// Whether a program may have been chosen like this: the one that the unit
/// names, or else `buzz-acp`, where this machine has it.
pub open spec fn chosen<L: Fn(&str) -> bool>(
    unit: AgentUnit,
    s: Surroundings,
    is_file: L,
    found: Result<String, HostError>,
) -> bool {
    if names_program(unit) {
        found matches Ok(program) && program@ == (unit.program->0)@
    } else {
        found_acp(s, is_file, found)
    }
}

/// Whether this is a unit with its program filled in, which may have been found
/// to be a file, or the reason why not.
pub open spec fn filled_in<L: Fn(&str) -> bool>(
    unit: AgentUnit,
    is_file: L,
    found: Result<String, HostError>,
    r: Result<AgentUnit, HostError>,
) -> bool {
    match found {
        Ok(program) => match r {
            Ok(filled) => {
                &&& answered(is_file, program@, true)
                &&& text_in(filled.program) == Some(program@)
                &&& filled.args == unit.args
                &&& filled.env == unit.env
            },
            Err(HostError::NoProgram(path)) => answered(is_file, program@, false) && path@
                == program@,
            Err(_) => false,
        },
        Err(e) => r == Err::<AgentUnit, HostError>(e),
    }
}

/// Whether the program of a unit may have been settled like this.
pub open spec fn settled<L: Fn(&str) -> bool>(
    unit: AgentUnit,
    s: Surroundings,
    is_file: L,
    r: Result<AgentUnit, HostError>,
) -> bool {
    exists|found: Result<String, HostError>| #[trigger]
        chosen(unit, s, is_file, found) && filled_in(unit, is_file, found, r)
}

/// Settle the program of a unit here, on the machine that will run it: no one
/// else knows where it is.
pub fn settle_program<L: Fn(&str) -> bool>(
    unit: AgentUnit,
    s: &Surroundings,
    is_file: &L,
) -> (r: Result<AgentUnit, HostError>)
    requires
        can_look(*is_file),
    ensures
        settled(unit, *s, *is_file, r),
{
    let AgentUnit { program: named, args, env } = unit;
    let found: Result<String, HostError> = match named {
        Some(program) => {
            if program.as_str().is_empty() {
                find_buzz_acp(s, is_file)
            } else {
                Ok(program)
            }
        },
        None => find_buzz_acp(s, is_file),
    };
    assert(chosen(unit, *s, *is_file, found));
    match found {
        Ok(program) => {
            if is_file(program.as_str()) {
                let r = Ok(AgentUnit { program: Some(program), args, env });
                assert(filled_in(unit, *is_file, found, r));
                r
            } else {
                let r = Err(HostError::NoProgram(program));
                assert(filled_in(unit, *is_file, found, r));
                r
            }
        },
        Err(e) => Err(e),
    }
}

/// Where a description is written before it is moved to its place.
pub open spec fn draft_path(dir: Seq<char>, name: Seq<char>) -> Seq<char> {
    below(dir, "."@ + name + ".json.tmp"@)
}

/// The steps that keep a description: it is written to a file that already no
/// one but its owner can open, and then moved to its place.
pub open spec fn keep_script(
    dir: Seq<char>,
    name: Seq<char>,
    description: Seq<char>,
) -> Seq<StepView> {
    let draft = draft_path(dir, name);
    let unit = unit_path_in(dir, name);
    seq![
        needed(ActionView::CreateDirs(dir), "creating "@ + dir),
        needed(ActionView::CreateDirs(below(dir, "logs"@)), ""@),
        needed(ActionView::CreatePrivate(draft), "writing "@ + draft),
        needed(ActionView::Secure(draft), "securing "@ + draft),
        needed(ActionView::Write { path: draft, text: description }, "writing "@ + draft),
        needed(ActionView::Rename { from: draft, to: unit }, "installing "@ + unit),
    ]
}

/// How to keep the description of a unit in a directory.
fn keep(dir: &str, name: &str, description: String) -> (r: Vec<Step>)
    ensures
        script(r@) == keep_script(dir@, name@, description@),
{
    let mut file = ".".to_owned();
    file.append(name);
    file.append(".json.tmp");
    let draft = join_path(dir, file.as_str());
    let mut file = name.to_owned();
    file.append(".json");
    let unit = join_path(dir, file.as_str());
    let ghost text = description@;
    let mut steps: Vec<Step> = Vec::new();
    steps.push(need_to(Action::CreateDirs(dir.to_owned()), "creating ", dir));
    steps.push(need_to(Action::CreateDirs(join_path(dir, "logs")), "", ""));
    steps.push(need_to(Action::CreatePrivate(draft.clone()), "writing ", draft.as_str()));
    steps.push(need_to(Action::Secure(draft.clone()), "securing ", draft.as_str()));
    steps.push(
        need_to(
            Action::Write { path: draft.clone(), text: description },
            "writing ",
            draft.as_str(),
        ),
    );
    steps.push(
        need_to(
            Action::Rename { from: draft.clone(), to: unit.clone() },
            "installing ",
            unit.as_str(),
        ),
    );
    assert(""@ + ""@ =~= ""@) by {
        reveal_strlit("");
    }
    assert(script(steps@) =~= keep_script(dir@, name@, text));
    steps
}

/// An agent that was installed: what its unit is called, and what to tell the
/// user of it.
#[derive(Debug, PartialEq, Eq)]
pub struct Installed {
    pub id: String,
    pub notes: Vec<String>,
}

/// What to tell of an agent that was installed.
pub open spec fn install_notes(
    name: Seq<char>,
    program: Seq<char>,
    log: Seq<char>,
) -> Seq<Seq<char>> {
    seq![
        "buzz-host: "@ + name + " installed ("@ + program + ")"@,
        "buzz-host: logs at "@ + log,
    ]
}

/// The steps that install an agent.
pub open spec fn whole_install(
    dir: Seq<char>,
    home: Seq<char>,
    sup: Supervisor,
    name: Seq<char>,
    host: Seq<char>,
    description: Seq<char>,
) -> Seq<StepView> {
    keep_script(dir, name, description) + sup.install_script(
        home,
        log_path_in(dir, name),
        name,
        host,
    )
}

/// Whether this is the plan that keeps a description and runs its unit, as far as
/// it is known where this program is and where unit definitions lie.
pub open spec fn is_install(
    name: Seq<char>,
    program: Seq<char>,
    description: Seq<char>,
    s: Surroundings,
    buzz_host: Result<String, HostError>,
    r: Plan<Installed>,
) -> bool {
    let dir = state_of(s)->0;
    let keep = keep_script(dir, name, description);
    let log = log_path_in(dir, name);
    match buzz_host {
        Err(e) => script(r.steps@) == keep && r.end == Err::<Installed, HostError>(e),
        Ok(host) => match s.home {
            None => script(r.steps@) == keep && r.end == Err::<Installed, HostError>(
                HostError::NoHome,
            ),
            Some(home) => {
                &&& script(r.steps@) == whole_install(
                    dir,
                    home@,
                    supervisor_of(s),
                    name,
                    host@,
                    description,
                )
                &&& r.end matches Ok(installed)
                &&& installed.id@ == supervisor_of(s).id_of(name)
                &&& texts(installed.notes@) == install_notes(name, program, log)
            },
        },
    }
}

/// Whether this is the plan for a unit with its program settled, once it may have
/// been written like this.
pub open spec fn is_install_of<W: Fn(&AgentUnit) -> Result<String, String>>(
    name: Seq<char>,
    unit: AgentUnit,
    s: Surroundings,
    buzz_host: Result<String, HostError>,
    write: W,
    r: Plan<Installed>,
) -> bool {
    match state_of(s) {
        None => r.only_says(HostError::NoHome),
        Some(_) => exists|text: Result<String, String>| #[trigger]
            write.ensures((&unit,), text) && match text {
                Err(reason) => r.only_says(HostError::Step(reason)),
                Ok(description) => is_install(
                    name,
                    (unit.program->0)@,
                    description@,
                    s,
                    buzz_host,
                    r,
                ),
            },
    }
}

/// Whether this is the plan for a unit whose program may have been settled like
/// this.
pub open spec fn is_install_settled<
    L: Fn(&str) -> bool,
    W: Fn(&AgentUnit) -> Result<String, String>,
>(
    name: Seq<char>,
    unit: AgentUnit,
    s: Surroundings,
    buzz_host: Result<String, HostError>,
    is_file: L,
    write: W,
    r: Plan<Installed>,
) -> bool {
    exists|filled: Result<AgentUnit, HostError>| #[trigger]
        settled(unit, s, is_file, filled) && match filled {
            Err(e) => r.only_says(e),
            Ok(filled) => is_install_of(name, filled, s, buzz_host, write, r),
        }
}

/// What an agent that was installed is to be told as.
fn notes_of(name: &str, program: &str, log: &str) -> (r: Vec<String>)
    ensures
        texts(r@) == install_notes(name@, program@, log@),
{
    let mut installed = "buzz-host: ".to_owned();
    installed.append(name);
    installed.append(" installed (");
    installed.append(program);
    installed.append(")");
    let mut logs = "buzz-host: logs at ".to_owned();
    logs.append(log);
    let notes = vec![installed, logs];
    assert(texts(notes@) =~= install_notes(name@, program@, log@));
    notes
}

/// How to keep a description and run its unit.
fn install_kept(
    name: &str,
    program: &str,
    description: String,
    s: &Surroundings,
    buzz_host: Result<String, HostError>,
) -> (r: Plan<Installed>)
    requires
        is_name(name@),
        state_of(*s) is Some,
    ensures
        is_install(name@, program@, description@, *s, buzz_host, r),
{
    let ghost text = description@;
    let dir = match state_dir(s) {
        Ok(dir) => dir,
        Err(e) => {
            return Plan::refusal(e);
        },
    };
    let log = match log_file(s, name) {
        Ok(log) => log,
        Err(e) => {
            return Plan::refusal(e);
        },
    };
    let mut steps = keep(dir.as_str(), name, description);
    let host = match buzz_host {
        Ok(host) => host,
        Err(e) => {
            return Plan { steps, end: Err(e) };
        },
    };
    let Plan { steps: start, end } = supervisor(s).install(name, host.as_str(), s);
    let id = match end {
        Ok(id) => id,
        Err(e) => {
            return Plan { steps, end: Err(e) };
        },
    };
    let ghost before = script(steps@);
    let ghost added = script(start@);
    let mut start = start;
    steps.append(&mut start);
    assert(script(steps@) =~= before + added);
    let notes = notes_of(name, program, log.as_str());
    Plan { steps, end: Ok(Installed { id, notes }) }
}

/// How to install an agent from what was sent: settle its program, keep its
/// description, and have a unit run it through the program at `buzz_host`.
/// Installing again under the same name replaces the description and starts the
/// agent anew. Where the name, what was sent or the program will not do, there is
/// nothing to be done to the machine.
pub fn install<
    P: Fn(&str) -> Result<AgentUnit, String>,
    L: Fn(&str) -> bool,
    W: Fn(&AgentUnit) -> Result<String, String>,
>(
    name: &str,
    raw: &str,
    s: &Surroundings,
    buzz_host: Result<String, HostError>,
    parse: &P,
    is_file: &L,
    write: &W,
) -> (r: Plan<Installed>)
    requires
        parse.requires((raw,)),
        can_look(*is_file),
        forall|u: &AgentUnit| #[trigger] write.requires((u,)),
    ensures
        if !is_name(name@) {
            &&& r.steps@.len() == 0
            &&& r.end matches Err(HostError::InvalidName(refused))
            &&& refused@ == name@
        } else if trimmed(raw@).len() == 0 {
            r.only_says(HostError::NoDescription)
        } else {
            exists|unit: Result<AgentUnit, String>| #[trigger]
                parse.ensures((raw,), unit) && match unit {
                    Err(reason) => {
                        &&& r.steps@.len() == 0
                        &&& r.end matches Err(HostError::Step(message))
                        &&& message@ == "parsing the unit description: "@ + reason@
                    },
                    Ok(unit) => is_install_settled(
                        name@,
                        unit,
                        *s,
                        buzz_host,
                        *is_file,
                        *write,
                        r,
                    ),
                }
        },
{
    match check_name(name) {
        Ok(()) => {},
        Err(e) => {
            return Plan::refusal(e);
        },
    }
    match check_description(raw) {
        Ok(()) => {},
        Err(e) => {
            return Plan::refusal(e);
        },
    }
    let read = parse(raw);
    assert(parse.ensures((raw,), read));
    let unit = match read {
        Ok(unit) => unit,
        Err(reason) => {
            let mut message = "parsing the unit description: ".to_owned();
            message.append(reason.as_str());
            return Plan::refusal(HostError::Step(message));
        },
    };
    let settled_unit = settle_program(unit, s, is_file);
    assert(settled(unit, *s, *is_file, settled_unit));
    let filled = match settled_unit {
        Ok(filled) => filled,
        Err(e) => {
            return Plan::refusal(e);
        },
    };
    match state_dir(s) {
        Ok(_) => {},
        Err(e) => {
            return Plan::refusal(e);
        },
    }
    let text = write(&filled);
    assert(write.ensures((&filled,), text));
    let description = match text {
        Ok(description) => description,
        Err(reason) => {
            return Plan::refusal(HostError::Step(reason));
        },
    };
    let program = match &filled.program {
        Some(program) => program.as_str(),
        None => "",
    };
    install_kept(name, program, description, s, buzz_host)
}

// Removing.

/// The steps that remove an agent: its unit first, and then its description.
/// Without a home directory there is no telling where either lies, and only the
/// unit is stopped.
pub open spec fn forget_script(name: Seq<char>, s: Surroundings) -> Seq<StepView> {
    let stop = supervisor_of(s).remove_script(text_in(s.home), name);
    match s.home {
        Some(_) => {
            let unit = unit_path_in(state_of(s)->0, name);
            stop.push(needed(ActionView::Remove(unit), "removing "@ + unit))
        },
        None => stop,
    }
}

/// What to tell of an agent that was removed.
pub open spec fn remove_note(name: Seq<char>) -> Seq<char> {
    "buzz-host: "@ + name + " removed (its log is kept)"@
}

/// How to stop an agent and forget it. The end is what to tell the user of it.
pub fn remove(name: &str, s: &Surroundings) -> (r: Plan<String>)
    ensures
        if is_name(name@) {
            &&& script(r.steps@) == forget_script(name@, *s)
            &&& match s.home {
                Some(_) => r.end matches Ok(note) && note@ == remove_note(name@),
                None => r.end == Err::<String, HostError>(HostError::NoHome),
            }
        } else {
            &&& r.steps@.len() == 0
            &&& r.end matches Err(HostError::InvalidName(refused))
            &&& refused@ == name@
        },
{
    match check_name(name) {
        Ok(()) => {},
        Err(e) => {
            return Plan::refusal(e);
        },
    }
    let Plan { steps: stop, end } = supervisor(s).remove(name, s);
    let mut steps = stop;
    match end {
        Ok(_) => {},
        Err(e) => {
            return Plan { steps, end: Err(e) };
        },
    }
    match unit_file(s, name) {
        Ok(path) => {
            let ghost before = script(steps@);
            steps.push(need_to(Action::Remove(path.clone()), "removing ", path.as_str()));
            assert(script(steps@) =~= before.push(
                needed(ActionView::Remove(path@), "removing "@ + path@),
            ));
            let mut note = "buzz-host: ".to_owned();
            note.append(name);
            note.append(" removed (its log is kept)");
            Plan { steps, end: Ok(note) }
        },
        Err(e) => Plan { steps, end: Err(e) },
    }
}

// Listing.

/// The name of the agent whose description a file is, if it is one. Files that
/// start with a dot are none.
pub open spec fn described_by(file: Seq<char>) -> Option<Seq<char>> {
    let stem = file.len() - 5;
    if stem > 0 && file.skip(stem) == ".json"@ && file.first() != '.' {
        Some(file.take(stem))
    } else {
        None
    }
}

/// The names of the agents whose descriptions some files are.
pub open spec fn names_among(files: Seq<Seq<char>>) -> Seq<Seq<char>>
    decreases files.len(),
{
    if files.len() == 0 {
        files
    } else {
        let before = names_among(files.drop_last());
        match described_by(files.last()) {
            Some(name) => before.push(name),
            None => before,
        }
    }
}

/// The name of the agent whose description a file is, if it is one.
fn agent_of(file: &str) -> (r: Option<String>)
    ensures
        text_in(r) == described_by(file@),
{
    let cs = chars_of(file);
    let end = chars_of(".json");
    proof {
        reveal_strlit(".json");
    }
    if cs.len() <= 5 || cs[0] == '.' {
        return None;
    }
    let stem: usize = cs.len() - 5;
    let mut i: usize = 0;
    while i < 5
        invariant
            i <= 5,
            cs@ == file@,
            end@ == ".json"@,
            end@.len() == 5,
            stem == cs.len() - 5,
            forall|j: int| 0 <= j < i ==> file@.skip(stem as int)[j] == end@[j],
        decreases 5 - i,
    {
        if cs[stem + i] != end[i] {
            assert(file@.skip(stem as int)[i as int] != end@[i as int]);
            return None;
        }
        i += 1;
    }
    assert(file@.skip(stem as int) =~= ".json"@);
    let name = part_of(&cs, 0, stem);
    assert(name@ =~= file@.take(stem as int));
    Some(text_of(&name))
}

/// The names of the agents whose descriptions some files are, in order.
pub fn agents_among(files: &Vec<String>) -> (r: Vec<String>)
    ensures
        is_sorted(texts(r@)),
        texts(r@).to_multiset() == names_among(texts(files@)).to_multiset(),
{
    let ghost all = texts(files@);
    let mut names: Vec<String> = Vec::new();
    let mut i: usize = 0;
    assert(all.take(0) =~= texts(names@));
    while i < files.len()
        invariant
            i <= files.len(),
            all == texts(files@),
            texts(names@) == names_among(all.take(i as int)),
        decreases files.len() - i,
    {
        assert(all.take(i + 1).drop_last() =~= all.take(i as int));
        let ghost before = texts(names@);
        if let Some(name) = agent_of(files[i].as_str()) {
            let ghost added = name@;
            names.push(name);
            assert(texts(names@) =~= before.push(added));
        }
        i += 1;
    }
    assert(all.take(all.len() as int) =~= all);
    sort_texts(names)
}

/// Spaces.
pub open spec fn spaces(n: int) -> Seq<char> {
    Seq::new(
        if n > 0 {
            n as nat
        } else {
            0
        },
        |i: int| ' ',
    )
}

/// A line of a list: a name in a column of its own, and a state.
pub open spec fn row(name: Seq<char>, state: Seq<char>) -> Seq<char> {
    name + spaces(24 - name.len()) + " "@ + state
}

/// What a state is called in a list.
pub open spec fn state_text(running: bool) -> Seq<char> {
    if running {
        "running"@
    } else {
        "stopped"@
    }
}

/// The list of some agents, each with whether it is running: a heading and a line
/// for each.
pub open spec fn listing(agents: Seq<(Seq<char>, bool)>) -> Seq<Seq<char>> {
    if agents.len() == 0 {
        seq!["no agents installed"@]
    } else {
        seq![row("NAME"@, "STATE"@)] + agents.map_values(
            |agent: (Seq<char>, bool)| row(agent.0, state_text(agent.1)),
        )
    }
}

/// Some agents, each with what the answer that the supervisor gave says of it.
pub open spec fn states(agents: Seq<(String, Outcome)>, sup: Supervisor) -> Seq<
    (Seq<char>, bool),
> {
    agents.map_values(|agent: (String, Outcome)| (agent.0@, sup.says_running(agent.1)))
}

/// A line of a list.
fn row_text(name: &str, state: &str) -> (r: String)
    ensures
        r@ == row(name@, state@),
{
    let cs = chars_of(name);
    let mut r = name.to_owned();
    let mut n: usize = cs.len();
    while n < 24
        invariant
            cs@ == name@,
            cs@.len() <= n,
            n <= 24 || n == cs@.len(),
            r@ == name@ + spaces(n - cs@.len()),
        decreases 24 - n,
    {
        r.push(' ');
        assert(r@ =~= name@ + spaces(n + 1 - cs@.len()));
        n += 1;
    }
    assert(spaces(n - cs@.len()) =~= spaces(24 - cs@.len()));
    r.append(" ");
    r.append(state);
    r
}

/// The agents that this machine knows about, and whether each is running, from
/// their names and what came of asking after each.
pub fn list(agents: &Vec<(String, Outcome)>, s: &Surroundings) -> (r: Vec<String>)
    ensures
        texts(r@) == listing(states(agents@, supervisor_of(*s))),
{
    let sup = supervisor(s);
    let ghost all = states(agents@, sup);
    let mut lines: Vec<String> = Vec::new();
    if agents.len() == 0 {
        lines.push("no agents installed".to_owned());
        assert(texts(lines@) =~= listing(all));
        return lines;
    }
    lines.push(row_text("NAME", "STATE"));
    let mut i: usize = 0;
    while i < agents.len()
        invariant
            i <= agents.len(),
            all == states(agents@, sup),
            lines@.len() == i + 1,
            lines@[0]@ == row("NAME"@, "STATE"@),
            forall|j: int|
                0 <= j < i ==> lines@[j + 1]@ == row(
                    (#[trigger] all[j]).0,
                    state_text(all[j].1),
                ),
        decreases agents.len() - i,
    {
        let state = if sup.is_running(&agents[i].1) {
            "running"
        } else {
            "stopped"
        };
        assert(all[i as int] == (agents@[i as int].0@, sup.says_running(agents@[i as int].1)));
        lines.push(row_text(agents[i].0.as_str(), state));
        i += 1;
    }
    assert forall|j: int| 0 <= j < lines@.len() implies #[trigger] texts(lines@)[j] == listing(
        all,
    )[j] by {
        if j > 0 {
            assert(lines@[(j - 1) + 1]@ == row(all[j - 1].0, state_text(all[j - 1].1)));
        }
    }
    assert(texts(lines@) =~= listing(all));
    lines
}

/// How one agent is, as a line of text.
pub open spec fn status_line(name: Seq<char>, running: bool) -> Seq<char> {
    if running {
        name + ": running"@
    } else {
        name + ": not running"@
    }
}

/// How to ask after one agent.
pub fn status_query(name: &str, s: &Surroundings) -> (r: Result<Action, HostError>)
    ensures
        match r {
            Ok(query) => is_name(name@) && query@ == supervisor_of(*s).query_of(name@),
            Err(HostError::InvalidName(refused)) => !is_name(name@) && refused@ == name@,
            Err(_) => false,
        },
{
    match check_name(name) {
        Ok(()) => Ok(supervisor(s).query(name)),
        Err(e) => Err(e),
    }
}

/// Whether one agent is running, and a line of text that says so, from what came
/// of asking after it.
pub fn status(name: &str, answer: &Outcome, s: &Surroundings) -> (r: (String, bool))
    ensures
        r.1 == supervisor_of(*s).says_running(*answer),
        r.0@ == status_line(name@, r.1),
{
    let running = supervisor(s).is_running(answer);
    let mut line = name.to_owned();
    if running {
        line.append(": running");
    } else {
        line.append(": not running");
    }
    (line, running)
}

// Where things are.

/// Some lines, and how the saying of them ended.
#[derive(Debug, PartialEq, Eq)]
pub struct Report {
    pub lines: Vec<String>,
    pub end: Result<(), HostError>,
}

/// What a search for `buzz-acp` is told as.
pub open spec fn acp_line(found: Result<String, HostError>) -> Seq<char> {
    match found {
        Ok(path) => "buzz-acp:  "@ + path@,
        Err(e) => "buzz-acp:  NOT FOUND ("@ + host_message_of(e) + ")"@,
    }
}

/// Where things are on the machine.
pub open spec fn machine_lines(
    dir: Seq<char>,
    host: Seq<char>,
    found: Result<String, HostError>,
) -> Seq<Seq<char>> {
    seq!["state:     "@ + dir, "buzz-host: "@ + host, acp_line(found)]
}

/// Where the things of an agent are, as far as there is a home directory.
pub open spec fn agent_lines(name: Seq<char>, s: Surroundings) -> Seq<Seq<char>> {
    let dir = state_of(s)->0;
    let own = seq![
        "unit:      "@ + unit_path_in(dir, name),
        "log:       "@ + log_path_in(dir, name),
    ];
    match s.home {
        Some(home) => own.push(
            "supervisor unit: "@ + supervisor_of(s).definition_path(home@, name),
        ),
        None => own,
    }
}

/// Whether this may be the report on where things are.
pub open spec fn is_report<L: Fn(&str) -> bool>(
    name: Option<Seq<char>>,
    s: Surroundings,
    buzz_host: Result<String, HostError>,
    is_file: L,
    r: Report,
) -> bool {
    match state_of(s) {
        None => texts(r.lines@) == Seq::<Seq<char>>::empty() && r.end == Err::<(), HostError>(
            HostError::NoHome,
        ),
        Some(dir) => match buzz_host {
            Err(e) => texts(r.lines@) == seq!["state:     "@ + dir] && r.end == Err::<
                (),
                HostError,
            >(e),
            Ok(host) => exists|found: Result<String, HostError>| #[trigger]
                found_acp(s, is_file, found) && is_full_report(name, s, dir, host@, found, r),
        },
    }
}

/// Whether this is the report, once `buzz-acp` was looked for.
pub open spec fn is_full_report(
    name: Option<Seq<char>>,
    s: Surroundings,
    dir: Seq<char>,
    host: Seq<char>,
    found: Result<String, HostError>,
    r: Report,
) -> bool {
    let lines = machine_lines(dir, host, found);
    match name {
        None => texts(r.lines@) == lines && r.end is Ok,
        Some(name) => if is_name(name) {
            &&& texts(r.lines@) == lines + agent_lines(name, s)
            &&& match s.home {
                Some(_) => r.end is Ok,
                None => r.end == Err::<(), HostError>(HostError::NoHome),
            }
        } else {
            &&& texts(r.lines@) == lines
            &&& r.end matches Err(HostError::InvalidName(refused)) && refused@ == name
        },
    }
}

/// A line that says where something is.
fn place_line(what: &str, path: &str) -> (r: String)
    ensures
        r@ == what@ + path@,
{
    let mut r = what.to_owned();
    r.append(path);
    r
}

/// Where things are, for finding out what is wrong with an install.
pub fn paths<L: Fn(&str) -> bool>(
    name: Option<&str>,
    s: &Surroundings,
    buzz_host: Result<String, HostError>,
    is_file: &L,
) -> (r: Report)
    requires
        can_look(*is_file),
    ensures
        is_report(
            match name {
                Some(name) => Some(name@),
                None => None,
            },
            *s,
            buzz_host,
            *is_file,
            r,
        ),
{
    let mut lines: Vec<String> = Vec::new();
    let dir = match state_dir(s) {
        Ok(dir) => dir,
        Err(e) => {
            assert(texts(lines@) =~= Seq::<Seq<char>>::empty());
            return Report { lines, end: Err(e) };
        },
    };
    lines.push(place_line("state:     ", dir.as_str()));
    let host = match buzz_host {
        Ok(host) => host,
        Err(e) => {
            assert(texts(lines@) =~= seq!["state:     "@ + dir@]);
            return Report { lines, end: Err(e) };
        },
    };
    lines.push(place_line("buzz-host: ", host.as_str()));
    let found = find_buzz_acp(s, is_file);
    match &found {
        Ok(path) => {
            lines.push(place_line("buzz-acp:  ", path.as_str()));
        },
        Err(e) => {
            let mut line = "buzz-acp:  NOT FOUND (".to_owned();
            line.append(e.message().as_str());
            line.append(")");
            lines.push(line);
        },
    }
    let ghost first = machine_lines(dir@, host@, found);
    assert(texts(lines@) =~= first);
    let name = match name {
        Some(name) => name,
        None => {
            return Report { lines, end: Ok(()) };
        },
    };
    match check_name(name) {
        Ok(()) => {},
        Err(e) => {
            return Report { lines, end: Err(e) };
        },
    }
    match unit_file(s, name) {
        Ok(path) => {
            lines.push(place_line("unit:      ", path.as_str()));
        },
        Err(e) => {
            return Report { lines, end: Err(e) };
        },
    }
    match log_file(s, name) {
        Ok(path) => {
            lines.push(place_line("log:       ", path.as_str()));
        },
        Err(e) => {
            return Report { lines, end: Err(e) };
        },
    }
    match supervisor(s).unit_path(name, s) {
        Ok(path) => {
            lines.push(place_line("supervisor unit: ", path.as_str()));
            assert(texts(lines@) =~= first + agent_lines(name@, *s));
            Report { lines, end: Ok(()) }
        },
        Err(e) => {
            assert(texts(lines@) =~= first + agent_lines(name@, *s));
            Report { lines, end: Err(e) }
        },
    }
}

// What holds of the host.

/// The description, which holds the agent's private key, goes nowhere but into
/// one file, and only once no one but its owner can open that file: two installs
/// that differ in the description alone differ in no other step, so neither the
/// definition of the unit nor any command depends on it.
pub proof fn descriptions_stay_private(
    dir: Seq<char>,
    home: Seq<char>,
    sup: Supervisor,
    name: Seq<char>,
    host: Seq<char>,
    a: Seq<char>,
    b: Seq<char>,
)
    ensures
        ({
            let steps = whole_install(dir, home, sup, name, host, a);
            let others = whole_install(dir, home, sup, name, host, b);
            let draft = draft_path(dir, name);
            &&& steps.len() == others.len()
            &&& forall|i: int|
                0 <= i < steps.len() && i != 4 ==> #[trigger] steps[i] == others[i]
            &&& steps[2].action == ActionView::CreatePrivate(draft)
            &&& steps[3].action == ActionView::Secure(draft)
            &&& steps[4].action == (ActionView::Write { path: draft, text: a })
            &&& steps[5].action == (ActionView::Rename {
                from: draft,
                to: unit_path_in(dir, name),
            })
        }),
{
    assert forall|i: int|
        0 <= i < whole_install(dir, home, sup, name, host, a).len() && i
            != 4 implies #[trigger] whole_install(dir, home, sup, name, host, a)[i]
        == whole_install(dir, home, sup, name, host, b)[i] by {
        if i < 6 {
            assert(keep_script(dir, name, a)[i] == keep_script(dir, name, b)[i]);
        }
    }
}

/// An agent whose description is in its place is listed under its name, and one
/// whose description is still being written is not listed.
pub proof fn installed_agents_are_listed(name: Seq<char>)
    requires
        is_name(name),
    ensures
        described_by(name + ".json"@) == Some(name),
        described_by("."@ + name + ".json.tmp"@) is None,
{
    reveal_strlit(".json");
    reveal_strlit(".");
    assert((name + ".json"@).skip(name.len() as int) =~= ".json"@);
    assert((name + ".json"@).take(name.len() as int) =~= name);
    assert(is_name_char(name[0]));
    assert((name + ".json"@).first() == name[0]);
    assert(("."@ + name + ".json.tmp"@).first() == '.');
}

/// Whether two units are the same: the same program, arguments and environment.
pub open spec fn same_unit(a: AgentUnit, b: AgentUnit) -> bool {
    &&& text_in(a.program) == text_in(b.program)
    &&& texts(a.args@) == texts(b.args@)
    &&& a.env.texts() == b.env.texts()
}

/// What is installed is what is launched: where the description that was kept reads
/// back as the unit that was written, the agent runs the program that was settled
/// when it was installed, with the arguments and, over the search path and the
/// agent's name, the environment that were sent.
pub proof fn what_is_installed_is_launched<L: Fn(&str) -> bool>(
    sent: AgentUnit,
    s: Surroundings,
    is_file: L,
    found: Result<String, HostError>,
    filled: AgentUnit,
    read: AgentUnit,
    name: Seq<char>,
    later: Surroundings,
    launch: Launch,
)
    requires
        chosen(sent, s, is_file, found),
        filled_in(sent, is_file, found, Ok(filled)),
        same_unit(read, filled),
        launch.runs(name, read, later),
    ensures
        found matches Ok(program) && launch.program@ == program@,
        sent.program matches Some(program) ==> program@.len() > 0 ==> launch.program@ == program@,
        texts(launch.args@) == texts(sent.args@),
        launch.env.texts() == launch_env(
            name,
            path_of(text_in(later.home), text_in(later.path)),
            sent.env.texts(),
        ),
{
}

/// A unit that names a program keeps it, whatever it is, where there is a file at
/// its path, and is refused only where there may be none; one that names none gets
/// one that is there; and its arguments and its environment stay as they are.
pub proof fn programs_are_settled_as_sent<L: Fn(&str) -> bool>(
    unit: AgentUnit,
    s: Surroundings,
    is_file: L,
    r: Result<AgentUnit, HostError>,
)
    requires
        settled(unit, s, is_file, r),
    ensures
        r matches Ok(filled) ==> {
            &&& filled.program matches Some(program)
            &&& answered(is_file, program@, true)
            &&& filled.args == unit.args
            &&& filled.env == unit.env
        },
        unit.program matches Some(program) ==> program@.len() > 0 ==> match r {
            Ok(filled) => (filled.program->0)@ == program@,
            Err(e) => answered(is_file, program@, false) && (e matches HostError::NoProgram(path)
                && path@ == program@),
        },
{
}

/// Whether a text ends in another one.
pub open spec fn ends_in(s: Seq<char>, end: Seq<char>) -> bool {
    end.is_suffix_of(s)
}

/// A file is the description of an agent exactly where its name ends in `.json`,
/// with something in front of that, and does not start with a dot; and the agent's
/// name is what stands in front.
pub proof fn descriptions_are_told_by_their_names(file: Seq<char>, name: Seq<char>)
    ensures
        described_by(file) is Some <==> (file.len() > 5 && file[0] != '.' && ends_in(
            file,
            seq!['.', 'j', 's', 'o', 'n'],
        )),
        name.len() > 0 && name[0] != '.' ==> described_by(
            name + seq!['.', 'j', 's', 'o', 'n'],
        ) == Some(name),
{
    reveal_strlit(".json");
    let end = seq!['.', 'j', 's', 'o', 'n'];
    assert(".json"@ =~= end);
    if file.len() > 5 {
        let tail = file.skip(file.len() - 5);
        if ends_in(file, end) {
            assert(tail =~= end);
        }
        if tail == end {
            assert(end =~= file.subrange(file.len() - 5, file.len() as int));
        }
    }
    let whole = name + end;
    if name.len() > 0 {
        assert(whole.skip(name.len() as int) =~= end);
        assert(whole.take(name.len() as int) =~= name);
    }
}

/// The agents among two lists of files are those among the one and then those among
/// the other: none is left out, none is added, and each file counts for itself.
pub proof fn agents_among_lists_follow(a: Seq<Seq<char>>, b: Seq<Seq<char>>)
    ensures
        names_among(a + b) == names_among(a) + names_among(b),
        a.len() == 1 ==> names_among(a) == match described_by(a[0]) {
            Some(name) => seq![name],
            None => Seq::<Seq<char>>::empty(),
        },
        a.len() == 0 ==> names_among(a).len() == 0,
    decreases b.len(),
{
    if b.len() == 0 {
        assert(a + b =~= a);
        assert(names_among(a) + names_among(b) =~= names_among(a));
    } else {
        agents_among_lists_follow(a, b.drop_last());
        assert((a + b).drop_last() =~= a + b.drop_last());
        assert((a + b).last() == b.last());
        assert(names_among(a + b) =~= names_among(a) + names_among(b));
    }
    if a.len() == 1 {
        assert(a.drop_last() =~= Seq::<Seq<char>>::empty());
        assert(names_among(a.drop_last()) =~= Seq::<Seq<char>>::empty());
        assert(names_among(a) =~= match described_by(a[0]) {
            Some(name) => seq![name],
            None => Seq::<Seq<char>>::empty(),
        });
    }
}

/// The list of agents has a heading and one line for each agent, in their order.
/// Each line starts with the agent's name and ends in how it is, as the supervisor
/// says of that agent, in a column of its own.
pub proof fn lines_tell_agents_and_states(
    agents: Seq<(String, Outcome)>,
    sup: Supervisor,
    i: int,
)
    requires
        0 <= i < agents.len(),
    ensures
        ({
            let lines = listing(states(agents, sup));
            let line = lines[i + 1];
            let name = agents[i].0@;
            let state = if sup.says_running(agents[i].1) {
                seq!['r', 'u', 'n', 'n', 'i', 'n', 'g']
            } else {
                seq!['s', 't', 'o', 'p', 'p', 'e', 'd']
            };
            let column = if name.len() > 24 {
                name.len() as int
            } else {
                24
            };
            &&& lines.len() == agents.len() + 1
            &&& name.is_prefix_of(line)
            &&& ends_in(line, state)
            &&& line.len() == column + 1 + state.len()
            &&& forall|j: int| name.len() <= j <= column ==> #[trigger] line[j] == ' '
        }),
{
    reveal_strlit("running");
    reveal_strlit("stopped");
    reveal_strlit(" ");
    let all = states(agents, sup);
    let line = listing(all)[i + 1];
    let running = sup.says_running(agents[i].1);
    let name = agents[i].0@;
    assert(all[i] == (name, running));
    assert(line == row(name, state_text(running)));
    assert("running"@ =~= seq!['r', 'u', 'n', 'n', 'i', 'n', 'g']);
    assert("stopped"@ =~= seq!['s', 't', 'o', 'p', 'p', 'e', 'd']);
    let state = state_text(running);
    assert(name =~= line.subrange(0, name.len() as int));
    assert(state =~= line.subrange(line.len() - state.len(), line.len() as int));
}

/// One agent is said to be running or not running, as it is, after its name; and
/// the two are told apart.
pub proof fn states_are_told_apart(name: Seq<char>)
    ensures
        status_line(name, true) == name + seq![':', ' ', 'r', 'u', 'n', 'n', 'i', 'n', 'g'],
        status_line(name, false) == name + seq![
            ':',
            ' ',
            'n',
            'o',
            't',
            ' ',
            'r',
            'u',
            'n',
            'n',
            'i',
            'n',
            'g',
        ],
{
    reveal_strlit(": running");
    reveal_strlit(": not running");
    assert(": running"@ =~= seq![':', ' ', 'r', 'u', 'n', 'n', 'i', 'n', 'g']);
    assert(": not running"@ =~= seq![
        ':',
        ' ',
        'n',
        'o',
        't',
        ' ',
        'r',
        'u',
        'n',
        'n',
        'i',
        'n',
        'g',
    ]);
}

/// Keeping a description ends early exactly where one of its steps could not be
/// done, and so does forgetting an agent where a file could not be removed.
pub proof fn plans_end_where_files_fail(
    dir: Seq<char>,
    name: Seq<char>,
    description: Seq<char>,
    s: Surroundings,
    i: int,
    outcome: Outcome,
)
    ensures
        0 <= i < keep_script(dir, name, description).len() ==> (verdict_of(
            keep_script(dir, name, description)[i].failure,
            outcome,
        ) is Some <==> outcome is Failed),
        0 <= i < forget_script(name, s).len() ==> (verdict_of(
            forget_script(name, s)[i].failure,
            outcome,
        ) is Some <==> (forget_script(name, s)[i].action is Remove && outcome is Failed)),
{
    if 0 <= i < supervisor_of(s).remove_script(text_in(s.home), name).len() {
        removals_end_where_a_file_stays(
            supervisor_of(s),
            text_in(s.home),
            name,
            i,
            outcome,
        );
    }
}

/// What the user is told of an install names the agent, its program and its log.
pub proof fn notes_tell_where_things_are(name: Seq<char>, program: Seq<char>, log: Seq<char>)
    ensures
        install_notes(name, program, log).len() == 2,
        is_told(install_notes(name, program, log)[0], name),
        is_told(install_notes(name, program, log)[0], program),
        ends_in(install_notes(name, program, log)[1], log),
{
    let first = install_notes(name, program, log)[0];
    let second = install_notes(name, program, log)[1];
    assert("buzz-host: "@ + name + (" installed ("@ + program + ")"@) =~= first);
    assert(("buzz-host: "@ + name + " installed ("@) + program + ")"@ =~= first);
    assert(log =~= second.subrange(second.len() - log.len(), second.len() as int));
}

/// The log of an agent has a directory before the agent is started: it is made when
/// the description is kept. On a Mac the unit writes to that log.
pub proof fn logs_have_a_directory(
    dir: Seq<char>,
    home: Seq<char>,
    sup: Supervisor,
    name: Seq<char>,
    host: Seq<char>,
    description: Seq<char>,
)
    ensures
        ({
            let steps = whole_install(dir, home, sup, name, host, description);
            let logs = steps[1].action->CreateDirs_0;
            &&& steps[0].action == ActionView::CreateDirs(dir)
            &&& steps[1].action is CreateDirs
            &&& log_path_in(dir, name) == below(logs, name + seq!['.', 'l', 'o', 'g'])
            &&& sup is Launchd ==> steps[7].action is Write && is_told(
                steps[7].action->Write_text,
                "<key>StandardOutPath</key><string>"@ + xml_escaped(log_path_in(dir, name))
                    + "</string>"@,
            ) && is_told(
                steps[7].action->Write_text,
                "<key>StandardErrorPath</key><string>"@ + xml_escaped(log_path_in(dir, name))
                    + "</string>"@,
            )
        }),
{
    reveal_strlit(".log");
    assert(".log"@ =~= seq!['.', 'l', 'o', 'g']);
    if let Supervisor::Launchd(launchd) = sup {
        mac_definitions_run_the_agent(launchd.uid, home, log_path_in(dir, name), name, host);
        assert(whole_install(dir, home, sup, name, host, description)[7] == launchd_install(
            launchd.uid,
            home,
            log_path_in(dir, name),
            name,
            host,
        )[1]);
    }
}

} // verus!
