//! Launching: from the description of a unit to the process that it becomes.

use vstd::prelude::*;
use vstd::string::*;

use crate::files::{answered, below, can_look, searched};
use crate::lists::{split, texts};
use crate::machine::{check_name, home, text_in, HostError, Surroundings};
use crate::names::is_name;
use crate::programs::{
    default_path, path_of, program_places,
    programs_are_looked_for_on_the_whole_path, resolve_on_path, search_paths_hold_these,
};
use crate::table::Table;
use crate::text::{
    first_word, first_word_of, first_words_end_at_white_space, is_blank, is_white_space,
};

verus! {

/// What a provider sends: a program, its arguments and an environment.
#[derive(Debug)]
pub struct AgentUnit {
    /// The path of the program. Without one, it is `buzz-acp`, wherever that is.
    pub program: Option<String>,
    pub args: Vec<String>,
    pub env: Table<String>,
}

/// A process to become: what to run, and what to set before running it.
#[derive(Debug)]
pub struct Launch {
    pub program: String,
    pub args: Vec<String>,
    /// Variables to set on top of the inherited ones.
    pub env: Table<String>,
    /// The directory to start in, if there is one to choose.
    pub workdir: Option<String>,
}

/// The directory to start in: the one that the unit's environment chooses, or
/// else the home directory.
pub open spec fn workdir_of(
    env: Map<Seq<char>, Seq<char>>,
    home: Option<Seq<char>>,
) -> Option<Seq<char>> {
    if env.contains_key("BUZZ_HOST_WORKDIR"@) {
        Some(env["BUZZ_HOST_WORKDIR"@])
    } else {
        home
    }
}

/// The harness that the program will spawn: the first word of its command.
pub open spec fn harness_of(env: Map<Seq<char>, Seq<char>>) -> Option<Seq<char>> {
    if env.contains_key("BUZZ_ACP_AGENT_COMMAND"@) {
        let command = env["BUZZ_ACP_AGENT_COMMAND"@];
        let bin = match first_word_of(command) {
            Some(word) => word,
            None => command,
        };
        if bin.len() == 0 {
            None
        } else {
            Some(bin)
        }
    } else {
        None
    }
}

/// The variables to set: a search path worth having and what this machine calls
/// the agent, unless the unit's own environment says otherwise.
pub open spec fn launch_env(
    name: Seq<char>,
    path: Seq<char>,
    env: Map<Seq<char>, Seq<char>>,
) -> Map<Seq<char>, Seq<char>> {
    map!["PATH"@ => path, "BUZZ_HOST_UNIT"@ => name].union_prefer_right(env)
}

impl Launch {
    /// Whether this is what a unit becomes.
    pub open spec fn runs(self, name: Seq<char>, unit: AgentUnit, s: Surroundings) -> bool {
        &&& self.program@ == match unit.program {
            Some(program) => program@,
            None => "buzz-acp"@,
        }
        &&& texts(self.args@) == texts(unit.args@)
        &&& self.env.texts() == launch_env(
            name,
            path_of(text_in(s.home), text_in(s.path)),
            unit.env.texts(),
        )
        &&& text_in(self.workdir) == workdir_of(unit.env.texts(), text_in(s.home))
    }
}

/// Whether the directory to start in, if there is one, may have been found.
pub open spec fn workdir_is_there<D: Fn(&str) -> bool>(
    unit: AgentUnit,
    s: Surroundings,
    is_dir: D,
) -> bool {
    workdir_of(unit.env.texts(), text_in(s.home)) matches Some(dir) ==> answered(is_dir, dir, true)
}

/// Where the harness may be.
pub open spec fn harness_places(bin: Seq<char>, s: Surroundings) -> Seq<Seq<char>> {
    program_places(bin, path_of(text_in(s.home), text_in(s.path)))
}

/// Whether the harness, if there is one, may have been found.
pub open spec fn harness_is_there<E: Fn(&str) -> bool>(
    unit: AgentUnit,
    s: Surroundings,
    executable: E,
) -> bool {
    match harness_of(unit.env.texts()) {
        Some(bin) => exists|found: Option<int>| #[trigger]
            searched(executable, harness_places(bin, s), found) && found is Some,
        None => true,
    }
}

/// Whether a program may have been found nowhere: not where its path says, or below
/// none of the directories of a search path.
pub open spec fn is_nowhere<E: Fn(&str) -> bool>(
    bin: Seq<char>,
    path: Seq<char>,
    executable: E,
) -> bool {
    if bin.contains('/') {
        answered(executable, bin, false)
    } else {
        forall|dir: Seq<char>| #[trigger]
            split(path, ':').contains(dir) && dir.len() > 0 ==> answered(
                executable,
                below(dir, bin),
                false,
            )
    }
}

/// A program that was looked for in all its places and found in none is nowhere.
proof fn looked_for_everywhere<E: Fn(&str) -> bool>(
    bin: Seq<char>,
    path: Seq<char>,
    executable: E,
)
    requires
        searched(executable, program_places(bin, path), None),
    ensures
        is_nowhere(bin, path, executable),
{
    let places = program_places(bin, path);
    if bin.contains('/') {
        programs_are_looked_for_on_the_whole_path(bin, path, Seq::empty());
        assert(places[0] == bin);
    } else {
        assert forall|dir: Seq<char>| #[trigger]
            split(path, ':').contains(dir) && dir.len() > 0 implies answered(
            executable,
            below(dir, bin),
            false,
        ) by {
            programs_are_looked_for_on_the_whole_path(bin, path, dir);
            let i = places.index_of(below(dir, bin));
            assert(places[i] == below(dir, bin));
        }
    }
}

/// Copy a list of texts.
fn copy_list(list: &Vec<String>) -> (r: Vec<String>)
    ensures
        texts(r@) == texts(list@),
{
    let mut r: Vec<String> = Vec::new();
    let mut i: usize = 0;
    while i < list.len()
        invariant
            i <= list.len(),
            r.len() == i,
            forall|j: int| 0 <= j < i ==> (#[trigger] r@[j])@ == list@[j]@,
        decreases list.len() - i,
    {
        r.push(list[i].clone());
        i += 1;
    }
    assert(texts(r@) =~= texts(list@));
    r
}

/// What a unit becomes. A directory that is not there, or a harness that is not
/// on the search path, is reported before anything is launched.
pub fn exec_agent<D: Fn(&str) -> bool, E: Fn(&str) -> bool>(
    name: &str,
    unit: &AgentUnit,
    s: &Surroundings,
    is_dir: &D,
    executable: &E,
) -> (r: Result<Launch, HostError>)
    requires
        can_look(*is_dir),
        can_look(*executable),
    ensures
        match r {
            Ok(launch) => {
                &&& is_name(name@)
                &&& workdir_is_there(*unit, *s, *is_dir)
                &&& harness_is_there(*unit, *s, *executable)
                &&& launch.runs(name@, *unit, *s)
            },
            Err(HostError::InvalidName(refused)) => !is_name(name@) && refused@ == name@,
            Err(HostError::NoWorkdir { dir, name: agent }) => {
                &&& is_name(name@)
                &&& workdir_of(unit.env.texts(), text_in(s.home)) == Some(dir@)
                &&& answered(*is_dir, dir@, false)
                &&& agent@ == name@
            },
            Err(HostError::NoHarness { bin, name: agent, path }) => {
                &&& is_name(name@)
                &&& workdir_is_there(*unit, *s, *is_dir)
                &&& harness_of(unit.env.texts()) == Some(bin@)
                &&& searched(*executable, harness_places(bin@, *s), None)
                &&& agent@ == name@
                &&& path@ == path_of(text_in(s.home), text_in(s.path))
                &&& is_nowhere(bin@, path@, *executable)
            },
            Err(_) => false,
        },
{
    match check_name(name) {
        Ok(()) => {},
        Err(e) => {
            return Err(e);
        },
    }
    let program = match &unit.program {
        Some(program) => program.clone(),
        None => "buzz-acp".to_owned(),
    };
    let path = default_path(s);
    let workdir: Option<String> = match unit.env.text_at("BUZZ_HOST_WORKDIR") {
        Some(dir) => Some(dir.to_owned()),
        None => match home(s) {
            Ok(home) => Some(home),
            Err(_) => None,
        },
    };
    if let Some(dir) = &workdir {
        if !is_dir(dir.as_str()) {
            return Err(HostError::NoWorkdir { dir: dir.clone(), name: name.to_owned() });
        }
    }
    if let Some(command) = unit.env.text_at("BUZZ_ACP_AGENT_COMMAND") {
        let bin = match first_word(command) {
            Some(word) => word,
            None => command.to_owned(),
        };
        if !bin.as_str().is_empty() {
            if resolve_on_path(bin.as_str(), path.as_str(), executable).is_none() {
                proof {
                    looked_for_everywhere(bin@, path@, *executable);
                }
                return Err(HostError::NoHarness { bin, name: name.to_owned(), path });
            }
            assert(harness_of(unit.env.texts())->0 == bin@);
            assert(harness_places(harness_of(unit.env.texts())->0, *s) == program_places(
                bin@,
                path@,
            ));
        }
    }
    let mut env: Table<String> = Table::new();
    env.set("PATH", path.as_str());
    env.set("BUZZ_HOST_UNIT", name);
    assert(env.texts() =~= map!["PATH"@ => path@, "BUZZ_HOST_UNIT"@ => name@]);
    env.overlay(&unit.env);
    let launch = Launch { program, args: copy_list(&unit.args), env, workdir };
    assert(launch.runs(name@, *unit, *s));
    Ok(launch)
}

// What holds of a launch.

/// The unit's own environment passes through untouched, and an explicit search
/// path or unit name in it still wins.
pub proof fn unit_env_wins(
    name: Seq<char>,
    path: Seq<char>,
    env: Map<Seq<char>, Seq<char>>,
    variable: Seq<char>,
)
    requires
        env.contains_key(variable),
    ensures
        launch_env(name, path, env).contains_key(variable),
        launch_env(name, path, env)[variable] == env[variable],
{
}

/// An agent always has a search path and knows what this machine calls it.
pub proof fn agents_know_their_name(
    name: Seq<char>,
    path: Seq<char>,
    env: Map<Seq<char>, Seq<char>>,
)
    ensures
        launch_env(name, path, env).contains_key("PATH"@),
        launch_env(name, path, env).contains_key("BUZZ_HOST_UNIT"@),
        !env.contains_key("PATH"@) ==> launch_env(name, path, env)["PATH"@] == path,
        !env.contains_key("BUZZ_HOST_UNIT"@) ==> launch_env(name, path, env)["BUZZ_HOST_UNIT"@]
            == name,
{
    reveal_strlit("PATH");
    reveal_strlit("BUZZ_HOST_UNIT");
    assert("PATH"@.len() != "BUZZ_HOST_UNIT"@.len());
}

/// Nothing else is set.
pub proof fn launching_adds_nothing_else(
    name: Seq<char>,
    path: Seq<char>,
    env: Map<Seq<char>, Seq<char>>,
    variable: Seq<char>,
)
    requires
        variable != "PATH"@,
        variable != "BUZZ_HOST_UNIT"@,
    ensures
        launch_env(name, path, env).contains_key(variable) == env.contains_key(variable),
{
}

/// A process is what its unit says: its program, or `buzz-acp` where it names none;
/// its arguments, as they are; and in the directory that it chooses, or else in the
/// home directory.
pub proof fn launches_are_as_described(
    launch: Launch,
    name: Seq<char>,
    unit: AgentUnit,
    s: Surroundings,
)
    requires
        launch.runs(name, unit, s),
    ensures
        unit.program matches Some(program) ==> launch.program@ == program@,
        unit.program is None ==> launch.program@ == seq!['b', 'u', 'z', 'z', '-', 'a', 'c', 'p'],
        launch.args@.len() == unit.args@.len(),
        forall|i: int| 0 <= i < unit.args@.len() ==> (#[trigger] launch.args@[i])@ == unit.args@[i]@,
        unit.env.texts().contains_key("BUZZ_HOST_WORKDIR"@) ==> (launch.workdir matches Some(dir)
            && dir@ == unit.env.texts()["BUZZ_HOST_WORKDIR"@]),
        !unit.env.texts().contains_key("BUZZ_HOST_WORKDIR"@) ==> text_in(launch.workdir) == text_in(
            s.home,
        ),
        forall|variable: Seq<char>| #[trigger]
            unit.env.texts().contains_key(variable) ==> launch.env.texts().contains_key(variable)
                && launch.env.texts()[variable] == unit.env.texts()[variable],
        !unit.env.texts().contains_key("BUZZ_HOST_UNIT"@) ==> launch.env.texts().contains_key(
            "BUZZ_HOST_UNIT"@,
        ) && launch.env.texts()["BUZZ_HOST_UNIT"@] == name,
{
    reveal_strlit("buzz-acp");
    assert("buzz-acp"@ =~= seq!['b', 'u', 'z', 'z', '-', 'a', 'c', 'p']);
    agents_know_their_name(
        name,
        path_of(text_in(s.home), text_in(s.path)),
        unit.env.texts(),
    );
    assert(texts(launch.args@).len() == texts(unit.args@).len());
    assert forall|i: int| 0 <= i < unit.args@.len() implies (#[trigger] launch.args@[i])@
        == unit.args@[i]@ by {
        assert(texts(launch.args@)[i] == texts(unit.args@)[i]);
    }
}

/// The harness is looked for where the agent will find it: in every directory of
/// the search path that the agent gets, unless its unit chooses another one.
pub proof fn harnesses_are_looked_for_where_agents_look(
    launch: Launch,
    name: Seq<char>,
    unit: AgentUnit,
    s: Surroundings,
    bin: Seq<char>,
    dir: Seq<char>,
)
    requires
        launch.runs(name, unit, s),
        !unit.env.texts().contains_key("PATH"@),
        !bin.contains('/'),
        split(launch.env.texts()["PATH"@], ':').contains(dir),
        dir.len() > 0,
    ensures
        harness_places(bin, s).contains(below(dir, bin)),
{
    let path = path_of(text_in(s.home), text_in(s.path));
    agents_know_their_name(name, path, unit.env.texts());
    programs_are_looked_for_on_the_whole_path(bin, path, dir);
}

/// A harness in the user's own directories, in one that every machine has or in one
/// of the inherited search path is found: each of these is among the places that
/// are looked at.
pub proof fn installed_harnesses_are_found(s: Surroundings, bin: Seq<char>, dir: Seq<char>)
    requires
        !bin.contains('/'),
        dir.len() > 0,
        s.home matches Some(h) ==> !h@.contains(':'),
        (s.home matches Some(h) && (dir == below(h@, ".local/bin"@) || dir == below(h@, "bin"@)))
            || dir == "/opt/homebrew/bin"@ || dir == "/usr/local/bin"@ || dir == "/usr/bin"@ || dir
            == "/bin"@ || dir == "/usr/sbin"@ || dir == "/sbin"@ || (s.path matches Some(p)
            && split(p@, ':').contains(dir)),
    ensures
        harness_places(bin, s).contains(below(dir, bin)),
{
    search_paths_hold_these(text_in(s.home), text_in(s.path), dir);
    programs_are_looked_for_on_the_whole_path(
        bin,
        path_of(text_in(s.home), text_in(s.path)),
        dir,
    );
}

/// The harness is the first word of the agent's command, past any white space in
/// front of it; a command of white space alone is taken as it is, and an empty one
/// names none.
pub proof fn harnesses_are_first_words(
    env: Map<Seq<char>, Seq<char>>,
    before: Seq<char>,
    word: Seq<char>,
    after: Seq<char>,
)
    requires
        is_blank(before),
        forall|i: int| 0 <= i < word.len() ==> !is_white_space(#[trigger] word[i]),
        after.len() > 0 ==> is_white_space(after.first()),
        word.len() == 0 ==> is_blank(after),
    ensures
        env.contains_key("BUZZ_ACP_AGENT_COMMAND"@) && env["BUZZ_ACP_AGENT_COMMAND"@] == before
            + word + after ==> harness_of(env) == if word.len() > 0 {
            Some(word)
        } else if (before + word + after).len() > 0 {
            Some(before + word + after)
        } else {
            None
        },
        !env.contains_key("BUZZ_ACP_AGENT_COMMAND"@) ==> harness_of(env) is None,
{
    first_words_end_at_white_space(before, word, after);
}

} // verus!
