//! An agent's environment: what a deploy payload says, in the variables that
//! `buzz-acp` reads.
//!
//! Several of the variables are near-duplicates of one another, and setting the
//! wrong one of a pair fails silently. A field that is absent leaves its
//! variable unset, so that the default of `buzz-acp` applies: writing an empty
//! text is not the same as not writing it.

use vstd::prelude::*;
use vstd::string::*;

use crate::json::{number_int, written, Json, JsonView};
use crate::lists::{join_texts, joined, texts};
use crate::table::{has_key, place, Table};
use crate::text::{decimal, decimal_text, same};

verus! {

/// Why a payload describes no agent.
#[derive(Debug, Clone, Copy, PartialEq, Eq)]
pub enum AgentError {
    /// There is no private key.
    NoPrivateKey,
    /// There is no relay.
    NoRelay,
}

/// A member that is a string with something in it.
pub open spec fn filled(agent: JsonView, field: Seq<char>) -> Option<Seq<char>> {
    match agent.field(field) {
        Some(JsonView::Str(s)) => if s.len() > 0 {
            Some(s)
        } else {
            None
        },
        _ => None,
    }
}

/// The strings among the items of an array.
pub open spec fn strings_of(items: Seq<JsonView>) -> Seq<Seq<char>>
    decreases items.len(),
{
    if items.len() == 0 {
        Seq::empty()
    } else {
        match items.last().text() {
            Some(s) => strings_of(items.drop_last()).push(s),
            None => strings_of(items.drop_last()),
        }
    }
}

/// A member that is an array with something in it, its strings joined.
pub open spec fn listed(agent: JsonView, field: Seq<char>, sep: Seq<char>) -> Option<Seq<char>> {
    match agent.field(field) {
        Some(JsonView::Array(items)) => if items.len() > 0 {
            Some(joined(strings_of(items), sep))
        } else {
            None
        },
        _ => None,
    }
}

/// A member that is an integer, in decimal.
pub open spec fn counted(agent: JsonView, field: Seq<char>) -> Option<Seq<char>> {
    match agent.field(field) {
        Some(v) => match v.integer() {
            Some(n) => Some(decimal(n as int)),
            None => None,
        },
        None => None,
    }
}

/// The attestation of the agent's owner: a string as it is, an array as JSON.
pub open spec fn attested(agent: JsonView) -> Option<Seq<char>> {
    match agent.field("auth_tag"@) {
        Some(JsonView::Str(s)) => if s.len() > 0 {
            Some(s)
        } else {
            None
        },
        Some(JsonView::Array(items)) => Some(written(JsonView::Array(items))),
        _ => None,
    }
}

/// The variables that a payload decides, each with its value if it has one.
pub open spec fn settings_of(agent: JsonView) -> Seq<(Seq<char>, Option<Seq<char>>)> {
    seq![
        ("BUZZ_PRIVATE_KEY"@, filled(agent, "private_key_nsec"@)),
        ("BUZZ_RELAY_URL"@, filled(agent, "relay_url"@)),
        ("BUZZ_AUTH_TAG"@, attested(agent)),
        ("BUZZ_ACP_AGENT_OWNER"@, filled(agent, "owner_pubkey"@)),
        ("BUZZ_ACP_AGENT_COMMAND"@, filled(agent, "agent_command"@)),
        ("BUZZ_ACP_AGENT_ARGS"@, listed(agent, "agent_args"@, " "@)),
        ("BUZZ_ACP_MODEL"@, filled(agent, "model"@)),
        ("BUZZ_ACP_SYSTEM_PROMPT"@, filled(agent, "system_prompt"@)),
        ("BUZZ_ACP_RESPOND_TO"@, filled(agent, "respond_to"@)),
        ("BUZZ_ACP_RESPOND_TO_ALLOWLIST"@, listed(agent, "respond_to_allowlist"@, ","@)),
        ("BUZZ_ACP_IDLE_TIMEOUT"@, counted(agent, "idle_timeout_seconds"@)),
        ("BUZZ_ACP_MAX_TURN_DURATION"@, counted(agent, "max_turn_duration_seconds"@)),
        ("BUZZ_ACP_TURN_TIMEOUT"@, counted(agent, "turn_timeout_seconds"@)),
        ("BUZZ_ACP_AGENTS"@, counted(agent, "parallelism"@)),
        ("BUZZ_ACP_RELAY_OBSERVER"@, Some("true"@)),
    ]
}

/// The environment that some settings make.
pub open spec fn applied(settings: Seq<(Seq<char>, Option<Seq<char>>)>) -> Map<
    Seq<char>,
    Seq<char>,
>
    decreases settings.len(),
{
    if settings.len() == 0 {
        Map::empty()
    } else {
        let before = applied(settings.drop_last());
        match settings.last().1 {
            Some(value) => before.insert(settings.last().0, value),
            None => before,
        }
    }
}

/// The two variables that say who the agent is and where it speaks.
pub open spec fn is_identity(variable: Seq<char>) -> bool {
    variable == "BUZZ_PRIVATE_KEY"@ || variable == "BUZZ_RELAY_URL"@
}

/// The variables that the user has set: the strings among `env_vars`, but for
/// the identity, which is not the user's to override.
pub open spec fn user_env(agent: JsonView) -> Map<Seq<char>, Seq<char>> {
    match agent.field("env_vars"@) {
        Some(JsonView::Object(members)) => Map::new(
            |k: Seq<char>| members.contains_key(k) && members[k] is Str && !is_identity(k),
            |k: Seq<char>| members[k]->Str_0,
        ),
        _ => Map::empty(),
    }
}

/// The environment that a payload describes: what it decides, and over it what
/// the user has set.
pub open spec fn env_of(agent: JsonView) -> Map<Seq<char>, Seq<char>> {
    applied(settings_of(agent)).union_prefer_right(user_env(agent))
}

/// A member that is a string with something in it.
fn filled_text(agent: &Json, field: &str) -> (r: Option<String>)
    ensures
        match r {
            Some(s) => filled(agent@, field@) == Some(s@),
            None => filled(agent@, field@) is None,
        },
{
    match agent.get(field) {
        Some(v) => match v.as_str() {
            Some(s) => if s.is_empty() {
                None
            } else {
                Some(s.to_owned())
            },
            None => None,
        },
        None => None,
    }
}

/// A member that is an array with something in it, its strings joined.
fn listed_text(agent: &Json, field: &str, sep: &str) -> (r: Option<String>)
    ensures
        match r {
            Some(s) => listed(agent@, field@, sep@) == Some(s@),
            None => listed(agent@, field@, sep@) is None,
        },
{
    match agent.get(field) {
        Some(v) => match v.as_array() {
            Some(items) => {
                if items.len() == 0 {
                    return None;
                }
                let ghost all = v@->Array_0;
                let mut found: Vec<String> = Vec::new();
                let mut i: usize = 0;
                assert(all.take(0) =~= Seq::<JsonView>::empty());
                assert(texts(found@) =~= Seq::<Seq<char>>::empty());
                while i < items.len()
                    invariant
                        i <= items.len(),
                        all == Seq::new(items@.len(), |j: int| items@[j]@),
                        texts(found@) == strings_of(all.take(i as int)),
                    decreases items.len() - i,
                {
                    let ghost before = texts(found@);
                    assert(all.take(i + 1).drop_last() =~= all.take(i as int));
                    match items[i].as_str() {
                        Some(s) => {
                            found.push(s.to_owned());
                            assert(texts(found@) =~= before.push(s@));
                        },
                        None => {},
                    }
                    i += 1;
                }
                assert(all.take(all.len() as int) =~= all);
                Some(join_texts(&found, sep))
            },
            None => None,
        },
        None => None,
    }
}

/// A member that is an integer, in decimal.
fn counted_text(agent: &Json, field: &str) -> (r: Option<String>)
    ensures
        match r {
            Some(s) => counted(agent@, field@) == Some(s@),
            None => counted(agent@, field@) is None,
        },
{
    match agent.get(field) {
        Some(v) => match v.as_i64() {
            Some(n) => Some(decimal_text(n)),
            None => None,
        },
        None => None,
    }
}

/// The attestation of the agent's owner.
fn attested_text(agent: &Json) -> (r: Option<String>)
    ensures
        match r {
            Some(s) => attested(agent@) == Some(s@),
            None => attested(agent@) is None,
        },
{
    match agent.get("auth_tag") {
        Some(v) => match v {
            Json::Str(s) => if s.as_str().is_empty() {
                None
            } else {
                Some(s.clone())
            },
            Json::Array(_) => Some(v.to_text()),
            _ => None,
        },
        None => None,
    }
}

/// What a setting says: a variable, and its value if it has one.
pub open spec fn setting_of(setting: (String, Option<String>)) -> (Seq<char>, Option<Seq<char>>) {
    (
        setting.0@,
        match setting.1 {
            Some(value) => Some(value@),
            None => None,
        },
    )
}

/// The variables that a payload decides, each with its value if it has one.
pub fn settings(agent: &Json) -> (r: Vec<(String, Option<String>)>)
    ensures
        r@.map_values(|s: (String, Option<String>)| setting_of(s)) == settings_of(agent@),
{
    let mut r: Vec<(String, Option<String>)> = Vec::new();
    r.push(("BUZZ_PRIVATE_KEY".to_owned(), filled_text(agent, "private_key_nsec")));
    r.push(("BUZZ_RELAY_URL".to_owned(), filled_text(agent, "relay_url")));
    r.push(("BUZZ_AUTH_TAG".to_owned(), attested_text(agent)));
    r.push(("BUZZ_ACP_AGENT_OWNER".to_owned(), filled_text(agent, "owner_pubkey")));
    r.push(("BUZZ_ACP_AGENT_COMMAND".to_owned(), filled_text(agent, "agent_command")));
    r.push(("BUZZ_ACP_AGENT_ARGS".to_owned(), listed_text(agent, "agent_args", " ")));
    r.push(("BUZZ_ACP_MODEL".to_owned(), filled_text(agent, "model")));
    r.push(("BUZZ_ACP_SYSTEM_PROMPT".to_owned(), filled_text(agent, "system_prompt")));
    r.push(("BUZZ_ACP_RESPOND_TO".to_owned(), filled_text(agent, "respond_to")));
    r.push(
        ("BUZZ_ACP_RESPOND_TO_ALLOWLIST".to_owned(), listed_text(agent, "respond_to_allowlist", ",")),
    );
    r.push(("BUZZ_ACP_IDLE_TIMEOUT".to_owned(), counted_text(agent, "idle_timeout_seconds")));
    r.push(
        ("BUZZ_ACP_MAX_TURN_DURATION".to_owned(), counted_text(agent, "max_turn_duration_seconds")),
    );
    r.push(("BUZZ_ACP_TURN_TIMEOUT".to_owned(), counted_text(agent, "turn_timeout_seconds")));
    r.push(("BUZZ_ACP_AGENTS".to_owned(), counted_text(agent, "parallelism")));
    r.push(("BUZZ_ACP_RELAY_OBSERVER".to_owned(), Some("true".to_owned())));
    assert(r@.map_values(|s: (String, Option<String>)| setting_of(s)) =~= settings_of(agent@));
    r
}

/// Apply settings to an environment.
fn apply(settings: &Vec<(String, Option<String>)>) -> (env: Table<String>)
    ensures
        env.texts() == applied(settings@.map_values(|s: (String, Option<String>)| setting_of(s))),
{
    let ghost all = settings@.map_values(|s: (String, Option<String>)| setting_of(s));
    let mut env: Table<String> = Table::new();
    let mut i: usize = 0;
    assert(all.take(0) =~= Seq::<(Seq<char>, Option<Seq<char>>)>::empty());
    assert(env.texts() =~= Map::<Seq<char>, Seq<char>>::empty());
    while i < settings.len()
        invariant
            i <= settings.len(),
            all == settings@.map_values(|s: (String, Option<String>)| setting_of(s)),
            env.texts() == applied(all.take(i as int)),
        decreases settings.len() - i,
    {
        assert(all.take(i + 1).drop_last() =~= all.take(i as int));
        match &settings[i].1 {
            Some(value) => {
                env.set(settings[i].0.as_str(), value.as_str());
            },
            None => {},
        }
        i += 1;
    }
    assert(all.take(all.len() as int) =~= all);
    env
}

/// Whether one of the first entries is a string that the user may set.
spec fn set_among(entries: Seq<(String, Json)>, n: int, k: Seq<char>) -> bool {
    has_key(entries, k) && place(entries, k) < n && entries[place(entries, k)].1@ is Str
        && !is_identity(k)
}

/// An environment with the first of the user's entries over it.
spec fn set_over(
    env: Map<Seq<char>, Seq<char>>,
    entries: Seq<(String, Json)>,
    n: int,
) -> Map<Seq<char>, Seq<char>> {
    Map::new(
        |k: Seq<char>| env.contains_key(k) || set_among(entries, n, k),
        |k: Seq<char>|
            if set_among(entries, n, k) {
                entries[place(entries, k)].1@->Str_0
            } else {
                env[k]
            },
    )
}

/// Put what the user has set over an environment.
fn override_with(env: &mut Table<String>, user: &Table<Json>)
    ensures
        final(env).texts() == old(env).texts().union_prefer_right(
            Map::new(
                |k: Seq<char>|
                    user.members().contains_key(k) && user.members()[k] is Str && !is_identity(k),
                |k: Seq<char>| user.members()[k]->Str_0,
            ),
        ),
{
    let ghost base = env.texts();
    let ghost entries = user.entries@;
    proof {
        use_type_invariant(user);
        user.shows_entries();
        user.members_are_views();
        assert(base =~= set_over(base, entries, 0));
    }
    let mut i: usize = 0;
    while i < user.entries.len()
        invariant
            i <= user.entries.len(),
            entries == user.entries@,
            crate::table::distinct_keys(entries),
            env.texts() == set_over(base, entries, i as int),
        decreases user.entries.len() - i,
    {
        let key = user.entries[i].0.as_str();
        proof {
            assert(entries[i as int].0@ == key@);
            assert(has_key(entries, key@));
            assert(place(entries, key@) == i);
            assert forall|k: Seq<char>| has_key(entries, k) && #[trigger] place(entries, k)
                == i implies k == key@ by {
                assert(entries[place(entries, k)].0@ == k);
            }
        }
        match user.entries[i].1.as_str() {
            Some(value) => {
                if !same(key, "BUZZ_PRIVATE_KEY") && !same(key, "BUZZ_RELAY_URL") {
                    env.set(key, value);
                }
            },
            None => {},
        }
        assert(env.texts() =~= set_over(base, entries, i + 1));
        i += 1;
    }
    proof {
        let set = Map::new(
            |k: Seq<char>|
                user.members().contains_key(k) && user.members()[k] is Str && !is_identity(k),
            |k: Seq<char>| user.members()[k]->Str_0,
        );
        assert forall|k: Seq<char>| has_key(entries, k) implies 0 <= #[trigger] place(entries, k)
            < entries.len() by {
            let at = place(entries, k);
            assert(entries[at].0@ == k);
        }
        assert(set_over(base, entries, entries.len() as int) =~= base.union_prefer_right(set));
    }
}

/// Translate a deploy payload into the environment of `buzz-acp`.
///
/// There has to be a private key, and then a relay: without them the agent
/// would come up as nobody.
pub fn agent_env(agent: &Json) -> (r: Result<Table<String>, AgentError>)
    ensures
        match r {
            Ok(env) => {
                &&& filled(agent@, "private_key_nsec"@) is Some
                &&& filled(agent@, "relay_url"@) is Some
                &&& env.texts() == env_of(agent@)
            },
            Err(AgentError::NoPrivateKey) => filled(agent@, "private_key_nsec"@) is None,
            Err(AgentError::NoRelay) => filled(agent@, "private_key_nsec"@) is Some && filled(
                agent@,
                "relay_url"@,
            ) is None,
        },
{
    if filled_text(agent, "private_key_nsec").is_none() {
        return Err(AgentError::NoPrivateKey);
    }
    if filled_text(agent, "relay_url").is_none() {
        return Err(AgentError::NoRelay);
    }
    let mut env = apply(&settings(agent));
    match agent.get("env_vars") {
        Some(v) => match v.as_object() {
            Some(user) => {
                override_with(&mut env, user);
            },
            None => {
                assert(env.texts() =~= env_of(agent@));
            },
        },
        None => {
            assert(env.texts() =~= env_of(agent@));
        },
    }
    Ok(env)
}

// What holds of an agent's environment.

/// No two settings are of the same variable.
pub open spec fn distinct_variables(settings: Seq<(Seq<char>, Option<Seq<char>>)>) -> bool {
    forall|i: int, j: int|
        0 <= i < j < settings.len() ==> (#[trigger] settings[i]).0 != (#[trigger] settings[j]).0
}

/// Settings of different variables make an environment that says the same.
proof fn settings_are_kept(settings: Seq<(Seq<char>, Option<Seq<char>>)>)
    requires
        distinct_variables(settings),
    ensures
        forall|i: int|
            0 <= i < settings.len() ==> applied(settings).contains_key(
                (#[trigger] settings[i]).0,
            ) == settings[i].1 is Some,
        forall|i: int|
            0 <= i < settings.len() && (#[trigger] settings[i]).1 is Some ==> applied(
                settings,
            )[settings[i].0] == settings[i].1->0,
        forall|k: Seq<char>| #[trigger]
            applied(settings).contains_key(k) ==> exists|i: int|
                0 <= i < settings.len() && (#[trigger] settings[i]).0 == k,
    decreases settings.len(),
{
    if settings.len() > 0 {
        let front = settings.drop_last();
        settings_are_kept(front);
        let last = settings.len() - 1;
        let made = applied(settings);
        assert forall|i: int| 0 <= i < settings.len() implies made.contains_key(
            (#[trigger] settings[i]).0,
        ) == settings[i].1 is Some && (settings[i].1 is Some ==> made[settings[i].0]
            == settings[i].1->0) by {
            if i < last {
                assert(front[i] == settings[i]);
                assert(settings[i].0 != settings[last].0);
            } else if applied(front).contains_key(settings[last].0) {
                let j = choose|j: int| 0 <= j < front.len() && front[j].0 == settings[last].0;
                assert(settings[j].0 == settings[last].0);
            }
        }
        assert forall|k: Seq<char>| #[trigger] made.contains_key(k) implies exists|i: int|
            0 <= i < settings.len() && (#[trigger] settings[i]).0 == k by {
            if applied(front).contains_key(k) {
                let j = choose|j: int| 0 <= j < front.len() && front[j].0 == k;
                assert(settings[j].0 == k);
            } else {
                assert(settings[last].0 == k);
            }
        }
    }
}

/// The variables that a payload decides are all different.
pub proof fn variables_are_distinct(agent: JsonView)
    ensures
        distinct_variables(settings_of(agent)),
{
    reveal_strlit("BUZZ_PRIVATE_KEY");
    reveal_strlit("BUZZ_RELAY_URL");
    reveal_strlit("BUZZ_AUTH_TAG");
    reveal_strlit("BUZZ_ACP_AGENT_OWNER");
    reveal_strlit("BUZZ_ACP_AGENT_COMMAND");
    reveal_strlit("BUZZ_ACP_AGENT_ARGS");
    reveal_strlit("BUZZ_ACP_MODEL");
    reveal_strlit("BUZZ_ACP_SYSTEM_PROMPT");
    reveal_strlit("BUZZ_ACP_RESPOND_TO");
    reveal_strlit("BUZZ_ACP_RESPOND_TO_ALLOWLIST");
    reveal_strlit("BUZZ_ACP_IDLE_TIMEOUT");
    reveal_strlit("BUZZ_ACP_MAX_TURN_DURATION");
    reveal_strlit("BUZZ_ACP_TURN_TIMEOUT");
    reveal_strlit("BUZZ_ACP_AGENTS");
    reveal_strlit("BUZZ_ACP_RELAY_OBSERVER");
    let s = settings_of(agent);
    assert(s[0].0 == "BUZZ_PRIVATE_KEY"@ && s[0].0.len() == 16);
    assert(s[1].0 == "BUZZ_RELAY_URL"@ && s[1].0.len() == 14);
    assert(s[2].0 == "BUZZ_AUTH_TAG"@ && s[2].0.len() == 13);
    assert(s[3].0 == "BUZZ_ACP_AGENT_OWNER"@ && s[3].0.len() == 20);
    assert(s[4].0 == "BUZZ_ACP_AGENT_COMMAND"@ && s[4].0.len() == 22);
    assert(s[5].0 == "BUZZ_ACP_AGENT_ARGS"@ && s[5].0.len() == 19);
    assert(s[6].0 == "BUZZ_ACP_MODEL"@ && s[6].0.len() == 14);
    assert(s[7].0 == "BUZZ_ACP_SYSTEM_PROMPT"@ && s[7].0.len() == 22);
    assert(s[8].0 == "BUZZ_ACP_RESPOND_TO"@ && s[8].0.len() == 19);
    assert(s[9].0 == "BUZZ_ACP_RESPOND_TO_ALLOWLIST"@ && s[9].0.len() == 29);
    assert(s[10].0 == "BUZZ_ACP_IDLE_TIMEOUT"@ && s[10].0.len() == 21);
    assert(s[11].0 == "BUZZ_ACP_MAX_TURN_DURATION"@ && s[11].0.len() == 26);
    assert(s[12].0 == "BUZZ_ACP_TURN_TIMEOUT"@ && s[12].0.len() == 21);
    assert(s[13].0 == "BUZZ_ACP_AGENTS"@ && s[13].0.len() == 15);
    assert(s[14].0 == "BUZZ_ACP_RELAY_OBSERVER"@ && s[14].0.len() == 23);
    assert("BUZZ_RELAY_URL"@[5] != "BUZZ_ACP_MODEL"@[5]);
    assert("BUZZ_ACP_AGENT_COMMAND"@[9] != "BUZZ_ACP_SYSTEM_PROMPT"@[9]);
    assert("BUZZ_ACP_AGENT_ARGS"@[9] != "BUZZ_ACP_RESPOND_TO"@[9]);
    assert("BUZZ_ACP_IDLE_TIMEOUT"@[9] != "BUZZ_ACP_TURN_TIMEOUT"@[9]);
}

/// Each variable that a payload decides has the value that the payload gives
/// it, and is not there where the payload gives none, unless the user has set
/// it. So what the payload says of the harness passes through untouched, a
/// field that is absent leaves its variable unset, and the observer is on.
pub proof fn payload_decides(agent: JsonView, i: int)
    requires
        0 <= i < settings_of(agent).len(),
        !user_env(agent).contains_key(settings_of(agent)[i].0),
    ensures
        env_of(agent).contains_key(settings_of(agent)[i].0) == settings_of(agent)[i].1 is Some,
        settings_of(agent)[i].1 is Some ==> env_of(agent)[settings_of(agent)[i].0] == settings_of(
            agent,
        )[i].1->0,
{
    variables_are_distinct(agent);
    settings_are_kept(settings_of(agent));
    assert(settings_of(agent)[i] == settings_of(agent)[i]);
}

/// A variable that the user has set has the user's value, whatever the rest of
/// the payload says.
pub proof fn user_env_passes_through(agent: JsonView, variable: Seq<char>)
    requires
        user_env(agent).contains_key(variable),
    ensures
        env_of(agent).contains_key(variable),
        env_of(agent)[variable] == user_env(agent)[variable],
{
}

/// The identity is the payload's, whatever the user has set: the private key
/// and the relay cannot be overridden.
pub proof fn identity_is_kept(agent: JsonView)
    ensures
        env_of(agent).contains_key("BUZZ_PRIVATE_KEY"@) == filled(
            agent,
            "private_key_nsec"@,
        ) is Some,
        env_of(agent).contains_key("BUZZ_RELAY_URL"@) == filled(agent, "relay_url"@) is Some,
        filled(agent, "private_key_nsec"@) is Some ==> env_of(agent)["BUZZ_PRIVATE_KEY"@]
            == filled(agent, "private_key_nsec"@)->0,
        filled(agent, "relay_url"@) is Some ==> env_of(agent)["BUZZ_RELAY_URL"@] == filled(
            agent,
            "relay_url"@,
        )->0,
{
    assert(settings_of(agent)[0].0 == "BUZZ_PRIVATE_KEY"@);
    assert(settings_of(agent)[1].0 == "BUZZ_RELAY_URL"@);
    payload_decides(agent, 0);
    payload_decides(agent, 1);
}

/// Nothing else is in the environment: each variable is one that a payload
/// decides or one that the user has set.
pub proof fn nothing_is_added(agent: JsonView, variable: Seq<char>)
    requires
        env_of(agent).contains_key(variable),
    ensures
        user_env(agent).contains_key(variable) || exists|i: int|
            0 <= i < settings_of(agent).len() && (#[trigger] settings_of(agent)[i]).0 == variable,
{
    variables_are_distinct(agent);
    settings_are_kept(settings_of(agent));
    if !user_env(agent).contains_key(variable) {
        assert(applied(settings_of(agent)).contains_key(variable));
    }
}

/// Whether `env_vars` of a payload sets a variable to a text.
pub open spec fn user_sets(members: Map<Seq<char>, JsonView>, variable: Seq<char>) -> bool {
    members.contains_key("env_vars"@) && match members["env_vars"@] {
        JsonView::Object(user) => user.contains_key(variable) && user[variable] is Str,
        _ => false,
    }
}

/// Whether a variable has the text of a field: it is there exactly where the field
/// is a string with something in it, and then it is that string.
pub open spec fn has_text_of(
    env: Map<Seq<char>, Seq<char>>,
    variable: Seq<char>,
    members: Map<Seq<char>, JsonView>,
    field: Seq<char>,
) -> bool {
    if members.contains_key(field) && members[field] is Str && members[field]->Str_0.len() > 0 {
        env.contains_key(variable) && env[variable] == members[field]->Str_0
    } else {
        !env.contains_key(variable)
    }
}

/// Whether a variable has the number of a field: it is there exactly where the
/// field is an integer, and then it is that integer in decimal.
pub open spec fn has_count_of(
    env: Map<Seq<char>, Seq<char>>,
    variable: Seq<char>,
    members: Map<Seq<char>, JsonView>,
    field: Seq<char>,
) -> bool {
    if members.contains_key(field) && members[field] is Number && number_int(
        members[field]->Number_0,
    ) is Some {
        env.contains_key(variable) && env[variable] == decimal(
            number_int(members[field]->Number_0)->0 as int,
        )
    } else {
        !env.contains_key(variable)
    }
}

/// Whether a variable has the texts of a field: it is there exactly where the
/// field is an array with something in it, and where the array is these texts it
/// is them, joined.
pub open spec fn has_list_of(
    env: Map<Seq<char>, Seq<char>>,
    variable: Seq<char>,
    members: Map<Seq<char>, JsonView>,
    field: Seq<char>,
    list: Seq<Seq<char>>,
    sep: Seq<char>,
) -> bool {
    if members.contains_key(field) && members[field] is Array && members[field]->Array_0.len() > 0 {
        &&& env.contains_key(variable)
        &&& members[field]->Array_0 == list.map_values(|s: Seq<char>| JsonView::Str(s))
            ==> env[variable] == joined(list, sep)
    } else {
        !env.contains_key(variable)
    }
}

proof fn users_set_what_they_set(members: Map<Seq<char>, JsonView>, variable: Seq<char>)
    ensures
        user_env(JsonView::Object(members)).contains_key(variable) == (user_sets(members, variable)
            && variable != "BUZZ_PRIVATE_KEY"@ && variable != "BUZZ_RELAY_URL"@),
        user_sets(members, variable) && variable != "BUZZ_PRIVATE_KEY"@ && variable
            != "BUZZ_RELAY_URL"@ ==> user_env(JsonView::Object(members))[variable]
            == members["env_vars"@]->Object_0[variable]->Str_0,
{
}

/// Each text of the payload goes out in the variable that is meant for it, as it
/// is, unless the user sets that variable; and the identity goes out whatever the
/// user sets.
pub proof fn texts_go_to_their_variables(members: Map<Seq<char>, JsonView>)
    ensures
        ({
            let env = env_of(JsonView::Object(members));
            &&& has_text_of(env, "BUZZ_PRIVATE_KEY"@, members, "private_key_nsec"@)
            &&& has_text_of(env, "BUZZ_RELAY_URL"@, members, "relay_url"@)
            &&& user_sets(members, "BUZZ_ACP_AGENT_OWNER"@) || has_text_of(env, "BUZZ_ACP_AGENT_OWNER"@, members, "owner_pubkey"@)
            &&& user_sets(members, "BUZZ_ACP_AGENT_COMMAND"@) || has_text_of(env, "BUZZ_ACP_AGENT_COMMAND"@, members, "agent_command"@)
            &&& user_sets(members, "BUZZ_ACP_MODEL"@) || has_text_of(env, "BUZZ_ACP_MODEL"@, members, "model"@)
            &&& user_sets(members, "BUZZ_ACP_SYSTEM_PROMPT"@) || has_text_of(env, "BUZZ_ACP_SYSTEM_PROMPT"@, members, "system_prompt"@)
            &&& user_sets(members, "BUZZ_ACP_RESPOND_TO"@) || has_text_of(env, "BUZZ_ACP_RESPOND_TO"@, members, "respond_to"@)
        }),
{
    let agent = JsonView::Object(members);
    users_set_what_they_set(members, "BUZZ_PRIVATE_KEY"@);
    assert(settings_of(agent)[0].0 == "BUZZ_PRIVATE_KEY"@);
    if !user_env(agent).contains_key("BUZZ_PRIVATE_KEY"@) {
        payload_decides(agent, 0);
    }
    users_set_what_they_set(members, "BUZZ_RELAY_URL"@);
    assert(settings_of(agent)[1].0 == "BUZZ_RELAY_URL"@);
    if !user_env(agent).contains_key("BUZZ_RELAY_URL"@) {
        payload_decides(agent, 1);
    }
    users_set_what_they_set(members, "BUZZ_ACP_AGENT_OWNER"@);
    assert(settings_of(agent)[3].0 == "BUZZ_ACP_AGENT_OWNER"@);
    if !user_env(agent).contains_key("BUZZ_ACP_AGENT_OWNER"@) {
        payload_decides(agent, 3);
    }
    users_set_what_they_set(members, "BUZZ_ACP_AGENT_COMMAND"@);
    assert(settings_of(agent)[4].0 == "BUZZ_ACP_AGENT_COMMAND"@);
    if !user_env(agent).contains_key("BUZZ_ACP_AGENT_COMMAND"@) {
        payload_decides(agent, 4);
    }
    users_set_what_they_set(members, "BUZZ_ACP_MODEL"@);
    assert(settings_of(agent)[6].0 == "BUZZ_ACP_MODEL"@);
    if !user_env(agent).contains_key("BUZZ_ACP_MODEL"@) {
        payload_decides(agent, 6);
    }
    users_set_what_they_set(members, "BUZZ_ACP_SYSTEM_PROMPT"@);
    assert(settings_of(agent)[7].0 == "BUZZ_ACP_SYSTEM_PROMPT"@);
    if !user_env(agent).contains_key("BUZZ_ACP_SYSTEM_PROMPT"@) {
        payload_decides(agent, 7);
    }
    users_set_what_they_set(members, "BUZZ_ACP_RESPOND_TO"@);
    assert(settings_of(agent)[8].0 == "BUZZ_ACP_RESPOND_TO"@);
    if !user_env(agent).contains_key("BUZZ_ACP_RESPOND_TO"@) {
        payload_decides(agent, 8);
    }
}

/// Each number of the payload goes out in the variable that is meant for it, unless
/// the user sets that variable.
pub proof fn counts_go_to_their_variables(members: Map<Seq<char>, JsonView>)
    ensures
        ({
            let env = env_of(JsonView::Object(members));
            &&& user_sets(members, "BUZZ_ACP_IDLE_TIMEOUT"@) || has_count_of(
                env,
                "BUZZ_ACP_IDLE_TIMEOUT"@,
                members,
                "idle_timeout_seconds"@,
            )
            &&& user_sets(members, "BUZZ_ACP_MAX_TURN_DURATION"@) || has_count_of(
                env,
                "BUZZ_ACP_MAX_TURN_DURATION"@,
                members,
                "max_turn_duration_seconds"@,
            )
            &&& user_sets(members, "BUZZ_ACP_TURN_TIMEOUT"@) || has_count_of(
                env,
                "BUZZ_ACP_TURN_TIMEOUT"@,
                members,
                "turn_timeout_seconds"@,
            )
            &&& user_sets(members, "BUZZ_ACP_AGENTS"@) || has_count_of(
                env,
                "BUZZ_ACP_AGENTS"@,
                members,
                "parallelism"@,
            )
        }),
{
    let agent = JsonView::Object(members);
    variables_are_distinct(agent);
    users_set_what_they_set(members, "BUZZ_ACP_IDLE_TIMEOUT"@);
    assert(settings_of(agent)[10].0 == "BUZZ_ACP_IDLE_TIMEOUT"@);
    if !user_env(agent).contains_key("BUZZ_ACP_IDLE_TIMEOUT"@) {
        payload_decides(agent, 10);
    } else {
        assert(!is_identity(settings_of(agent)[10].0));
    }
    users_set_what_they_set(members, "BUZZ_ACP_MAX_TURN_DURATION"@);
    assert(settings_of(agent)[11].0 == "BUZZ_ACP_MAX_TURN_DURATION"@);
    if !user_env(agent).contains_key("BUZZ_ACP_MAX_TURN_DURATION"@) {
        payload_decides(agent, 11);
    } else {
        assert(!is_identity(settings_of(agent)[11].0));
    }
    users_set_what_they_set(members, "BUZZ_ACP_TURN_TIMEOUT"@);
    assert(settings_of(agent)[12].0 == "BUZZ_ACP_TURN_TIMEOUT"@);
    if !user_env(agent).contains_key("BUZZ_ACP_TURN_TIMEOUT"@) {
        payload_decides(agent, 12);
    } else {
        assert(!is_identity(settings_of(agent)[12].0));
    }
    users_set_what_they_set(members, "BUZZ_ACP_AGENTS"@);
    assert(settings_of(agent)[13].0 == "BUZZ_ACP_AGENTS"@);
    if !user_env(agent).contains_key("BUZZ_ACP_AGENTS"@) {
        payload_decides(agent, 13);
    } else {
        assert(!is_identity(settings_of(agent)[13].0));
    }
}

/// The harness's arguments go out with spaces between them, and those whom the
/// agent answers with commas between them, unless the user sets those variables.
pub proof fn lists_go_to_their_variables(
    members: Map<Seq<char>, JsonView>,
    list: Seq<Seq<char>>,
)
    ensures
        ({
            let env = env_of(JsonView::Object(members));
            &&& user_sets(members, "BUZZ_ACP_AGENT_ARGS"@) || has_list_of(
                env,
                "BUZZ_ACP_AGENT_ARGS"@,
                members,
                "agent_args"@,
                list,
                seq![' '],
            )
            &&& user_sets(members, "BUZZ_ACP_RESPOND_TO_ALLOWLIST"@) || has_list_of(
                env,
                "BUZZ_ACP_RESPOND_TO_ALLOWLIST"@,
                members,
                "respond_to_allowlist"@,
                list,
                seq![','],
            )
        }),
{
    let agent = JsonView::Object(members);
    reveal_strlit(" ");
    reveal_strlit(",");
    assert(" "@ =~= seq![' ']);
    assert(","@ =~= seq![',']);
    strings_are_all_taken(list);
    users_set_what_they_set(members, "BUZZ_ACP_AGENT_ARGS"@);
    assert(settings_of(agent)[5].0 == "BUZZ_ACP_AGENT_ARGS"@);
    if !user_env(agent).contains_key("BUZZ_ACP_AGENT_ARGS"@) {
        payload_decides(agent, 5);
    }
    users_set_what_they_set(members, "BUZZ_ACP_RESPOND_TO_ALLOWLIST"@);
    assert(settings_of(agent)[9].0 == "BUZZ_ACP_RESPOND_TO_ALLOWLIST"@);
    if !user_env(agent).contains_key("BUZZ_ACP_RESPOND_TO_ALLOWLIST"@) {
        payload_decides(agent, 9);
    }
}

proof fn strings_are_all_taken(list: Seq<Seq<char>>)
    ensures
        strings_of(list.map_values(|s: Seq<char>| JsonView::Str(s))) == list,
    decreases list.len(),
{
    let items = list.map_values(|s: Seq<char>| JsonView::Str(s));
    if list.len() > 0 {
        strings_are_all_taken(list.drop_last());
        assert(items.drop_last() =~= list.drop_last().map_values(
            |s: Seq<char>| JsonView::Str(s),
        ));
        assert(items.last() == JsonView::Str(list.last()));
        assert(list.drop_last().push(list.last()) =~= list);
    }
}

/// The strings of two arrays one after the other are those of the one and then
/// those of the other: a string is kept, and anything else is passed over.
pub proof fn only_strings_are_taken(a: Seq<JsonView>, b: Seq<JsonView>, other: JsonView, s: Seq<char>)
    requires
        !(other is Str),
    ensures
        strings_of(a + b) == strings_of(a) + strings_of(b),
        strings_of(seq![JsonView::Str(s)]) == seq![s],
        strings_of(seq![other]).len() == 0,
    decreases b.len(),
{
    if b.len() == 0 {
        assert(a + b =~= a);
    } else {
        only_strings_are_taken(a, b.drop_last(), other, s);
        assert((a + b).drop_last() =~= a + b.drop_last());
        assert((a + b).last() == b.last());
        assert(strings_of(a + b) =~= strings_of(a) + strings_of(b));
    }
    reveal_with_fuel(strings_of, 2);
    let one = seq![JsonView::Str(s)];
    assert(one.drop_last() =~= Seq::<JsonView>::empty());
    assert(strings_of(one) =~= seq![s]);
    assert(seq![other].drop_last() =~= Seq::<JsonView>::empty());
}

/// The attestation goes out as it is where it is a string with something in it, as
/// JSON where it is an array, and not at all otherwise, unless the user sets its
/// variable. The observer is on unless the user sets it.
pub proof fn attestations_and_observers_go_out(members: Map<Seq<char>, JsonView>)
    ensures
        ({
            let env = env_of(JsonView::Object(members));
            let tag = "BUZZ_AUTH_TAG"@;
            &&& user_sets(members, tag) || if members.contains_key("auth_tag"@)
                && members["auth_tag"@] is Array {
                env.contains_key(tag) && env[tag] == written(members["auth_tag"@])
            } else {
                has_text_of(env, tag, members, "auth_tag"@)
            }
            &&& user_sets(members, "BUZZ_ACP_RELAY_OBSERVER"@) || (env.contains_key(
                "BUZZ_ACP_RELAY_OBSERVER"@,
            ) && env["BUZZ_ACP_RELAY_OBSERVER"@] == seq!['t', 'r', 'u', 'e'])
        }),
{
    let agent = JsonView::Object(members);
    reveal_strlit("true");
    assert("true"@ =~= seq!['t', 'r', 'u', 'e']);
    users_set_what_they_set(members, "BUZZ_AUTH_TAG"@);
    users_set_what_they_set(members, "BUZZ_ACP_RELAY_OBSERVER"@);
    assert(settings_of(agent)[2].0 == "BUZZ_AUTH_TAG"@);
    assert(settings_of(agent)[14].0 == "BUZZ_ACP_RELAY_OBSERVER"@);
    if !user_env(agent).contains_key("BUZZ_AUTH_TAG"@) {
        payload_decides(agent, 2);
    }
    if !user_env(agent).contains_key("BUZZ_ACP_RELAY_OBSERVER"@) {
        payload_decides(agent, 14);
    }
}

/// What the user sets goes out as it is, but for the identity; and no variable goes
/// out but those that `buzz-acp` reads and those that the user sets.
pub proof fn users_set_any_other_variable(members: Map<Seq<char>, JsonView>, variable: Seq<char>)
    ensures
        ({
            let env = env_of(JsonView::Object(members));
            &&& user_sets(members, variable) && variable != "BUZZ_PRIVATE_KEY"@ && variable
                != "BUZZ_RELAY_URL"@ ==> env.contains_key(variable) && env[variable]
                == members["env_vars"@]->Object_0[variable]->Str_0
            &&& env.contains_key(variable) && !user_sets(members, variable) ==> {
                ||| variable == "BUZZ_PRIVATE_KEY"@
                ||| variable == "BUZZ_RELAY_URL"@
                ||| variable == "BUZZ_AUTH_TAG"@
                ||| variable == "BUZZ_ACP_AGENT_OWNER"@
                ||| variable == "BUZZ_ACP_AGENT_COMMAND"@
                ||| variable == "BUZZ_ACP_AGENT_ARGS"@
                ||| variable == "BUZZ_ACP_MODEL"@
                ||| variable == "BUZZ_ACP_SYSTEM_PROMPT"@
                ||| variable == "BUZZ_ACP_RESPOND_TO"@
                ||| variable == "BUZZ_ACP_RESPOND_TO_ALLOWLIST"@
                ||| variable == "BUZZ_ACP_IDLE_TIMEOUT"@
                ||| variable == "BUZZ_ACP_MAX_TURN_DURATION"@
                ||| variable == "BUZZ_ACP_TURN_TIMEOUT"@
                ||| variable == "BUZZ_ACP_AGENTS"@
                ||| variable == "BUZZ_ACP_RELAY_OBSERVER"@
            }
        }),
{
    let agent = JsonView::Object(members);
    users_set_what_they_set(members, variable);
    if env_of(agent).contains_key(variable) && !user_sets(members, variable) {
        nothing_is_added(agent, variable);
    }
}

} // verus!
