//! The provider: one request in, one ssh call, one reply out.
//!
//! A request is a JSON object on one line. `{"op":"info"}` is answered with a
//! schema that the desktop renders as a form. `{"op":"deploy", …}` is answered
//! once the agent runs on the other machine. There is no third operation.

use vstd::prelude::*;
use vstd::string::*;

use crate::agent::{
    agent_env, env_of, filled, identity_is_kept, texts_go_to_their_variables, AgentError,
};
use crate::files::{answered, can_look, search, searched, searches_end_at_the_first};
use crate::json::{is_shallow, parsed, written, Json, JsonView};
use crate::lists::{split, split_text, texts};
use crate::names::{unit_name, unit_name_of};
use crate::quoting::{
    letters_are_read, quoted_text_is_read, read_words, shell_quote, shell_quoted, shell_words,
};
use crate::steps::is_told;
use crate::table::Table;
use crate::text::{
    blank_texts_are_trimmed_away, debug_form, debug_text, holds, holds_at, is_blank,
    is_white_space, same, trim, trimmed, trimming_takes_the_ends,
};

verus! {

// Errors.

/// Why a request could not be met.
#[derive(Debug, PartialEq, Eq)]
pub enum ProviderError {
    /// The request is not JSON, for this reason.
    NotJson(String),
    /// The request asks for this operation, which there is not.
    UnknownOp(String),
    /// The payload describes no agent.
    Agent(AgentError),
    /// No host is configured.
    NoHost,
    /// The host refused, for this reason.
    Refused { host: String, detail: String },
}

/// What an error says.
pub open spec fn message_of(e: ProviderError) -> Seq<char> {
    match e {
        ProviderError::NotJson(reason) => "parsing the request: "@ + reason@,
        ProviderError::UnknownOp(op) => "unknown op "@ + debug_form(op@),
        ProviderError::Agent(AgentError::NoPrivateKey) =>
            "agent.private_key_nsec is missing — the desktop refuses to deploy without it, so this means a payload from a different Buzz version"@,
        ProviderError::Agent(AgentError::NoRelay) => "agent.relay_url is missing"@,
        ProviderError::NoHost =>
            "no host configured: set 'Host' to the user@host that should run this agent"@,
        ProviderError::Refused { host, detail } => host@ + ": "@ + detail@,
    }
}

impl ProviderError {
    /// What the error says.
    pub fn message(&self) -> (r: String)
        ensures
            r@ == message_of(*self),
    {
        match self {
            ProviderError::NotJson(reason) => {
                let mut r = "parsing the request: ".to_owned();
                r.append(reason.as_str());
                r
            },
            ProviderError::UnknownOp(op) => {
                let mut r = "unknown op ".to_owned();
                r.append(debug_text(op.as_str()).as_str());
                r
            },
            ProviderError::Agent(AgentError::NoPrivateKey) =>
                "agent.private_key_nsec is missing — the desktop refuses to deploy without it, so this means a payload from a different Buzz version".to_owned(),
            ProviderError::Agent(AgentError::NoRelay) => "agent.relay_url is missing".to_owned(),
            ProviderError::NoHost =>
                "no host configured: set 'Host' to the user@host that should run this agent".to_owned(),
            ProviderError::Refused { host, detail } => {
                let mut r = host.clone();
                r.append(": ");
                r.append(detail.as_str());
                r
            },
        }
    }
}

// Building values.

/// File a value under a key of an object.
fn put(object: &mut Table<Json>, key: &str, value: Json)
    ensures
        final(object).members() == old(object).members().insert(key@, value@),
{
    let ghost before = *object;
    object.insert(key.to_owned(), value);
    proof {
        before.members_are_views();
        object.members_are_views();
        assert(object.members() =~= before.members().insert(key@, value@));
    }
}

/// An object with nothing in it.
fn empty_object() -> (r: Table<Json>)
    ensures
        r.members() == Map::<Seq<char>, JsonView>::empty(),
{
    let r: Table<Json> = Table::new();
    proof {
        r.members_are_views();
        assert(r.members() =~= Map::<Seq<char>, JsonView>::empty());
    }
    r
}

/// A string.
fn string(s: &str) -> (r: Json)
    ensures
        r@ == JsonView::Str(s@),
{
    Json::Str(s.to_owned())
}

/// An array of strings.
pub open spec fn strings(list: Seq<Seq<char>>) -> JsonView {
    JsonView::Array(list.map_values(|s: Seq<char>| JsonView::Str(s)))
}

/// An array of strings.
fn string_array(list: &Vec<String>) -> (r: Json)
    ensures
        r@ == strings(texts(list@)),
{
    let mut items: Vec<Json> = Vec::new();
    let mut i: usize = 0;
    while i < list.len()
        invariant
            i <= list.len(),
            items@.len() == i,
            forall|j: int| 0 <= j < i ==> (#[trigger] items@[j])@ == JsonView::Str(list@[j]@),
        decreases list.len() - i,
    {
        items.push(string(list[i].as_str()));
        i += 1;
    }
    let r = Json::Array(items);
    assert(r@->Array_0 =~= strings(texts(list@))->Array_0);
    r
}

/// An object of strings.
pub open spec fn string_object(env: Map<Seq<char>, Seq<char>>) -> JsonView {
    JsonView::Object(env.map_values(|s: Seq<char>| JsonView::Str(s)))
}

/// An object of strings.
fn string_members(env: &Table<String>) -> (r: Json)
    ensures
        r@ == string_object(env.texts()),
{
    let mut entries: Vec<(String, Json)> = Vec::new();
    let mut i: usize = 0;
    while i < env.entries.len()
        invariant
            i <= env.entries.len(),
            entries@.len() == i,
            forall|j: int|
                0 <= j < i ==> (#[trigger] entries@[j]).0@ == env.entries@[j].0@
                    && entries@[j].1@ == JsonView::Str(env.entries@[j].1@),
        decreases env.entries.len() - i,
    {
        entries.push((env.entries[i].0.clone(), string(env.entries[i].1.as_str())));
        i += 1;
    }
    proof {
        use_type_invariant(env);
        env.shows_entries();
        crate::table::aligned_entries(env.entries@, entries@);
    }
    let table = Table::of_entries(entries);
    proof {
        table.members_are_views();
    }
    let r = Json::Object(table);
    assert(r@->Object_0 =~= string_object(env.texts())->Object_0);
    r
}

// Info.

/// A text field of the form, with its title, its description and what it holds
/// at first.
pub open spec fn text_field(
    title: Seq<char>,
    description: Seq<char>,
    default: Seq<char>,
) -> JsonView {
    JsonView::Object(
        Map::empty().insert("type"@, JsonView::Str("string"@)).insert(
            "title"@,
            JsonView::Str(title),
        ).insert("description"@, JsonView::Str(description)).insert(
            "default"@,
            JsonView::Str(default),
        ),
    )
}

/// The fields of the form.
pub open spec fn form_fields() -> Map<Seq<char>, JsonView> {
    Map::empty().insert(
        "ssh_host"@,
        text_field(
            "Host"@,
            "user@host, as ssh would take it. Uses your existing ssh config and identity; nothing new is exposed to the network. The host needs buzz-host and buzz-acp installed."@,
            "uni@uni"@,
        ),
    ).insert(
        "buzz_host_bin"@,
        text_field(
            "buzz-host path (on that machine)"@,
            "Leave blank unless buzz-host is somewhere unusual. A non-interactive ssh has a minimal PATH, so ~/.local/bin/buzz-host is tried before a bare command."@,
            ""@,
        ),
    ).insert(
        "buzz_acp_bin"@,
        text_field(
            "buzz-acp path (on that machine)"@,
            "Leave blank to let that machine find its own. Set it when several copies exist and you care which one runs."@,
            ""@,
        ),
    )
}

/// The fields that must be filled in.
pub open spec fn required_fields() -> Seq<Seq<char>> {
    seq!["ssh_host"@]
}

/// What the provider says of itself.
pub open spec fn info_of(version: Seq<char>) -> JsonView {
    JsonView::Object(
        Map::empty().insert("id"@, JsonView::Str("ssh"@)).insert(
            "name"@,
            JsonView::Str("Another machine (over SSH)"@),
        ).insert("version"@, JsonView::Str(version)).insert(
            "config_schema"@,
            JsonView::Object(
                Map::empty().insert("type"@, JsonView::Str("object"@)).insert(
                    "required"@,
                    strings(required_fields()),
                ).insert("properties"@, JsonView::Object(form_fields())),
            ),
        ),
    )
}

/// A text field of the form.
fn form_field(title: &str, description: &str, default: &str) -> (r: Json)
    ensures
        r@ == text_field(title@, description@, default@),
{
    let mut field = empty_object();
    put(&mut field, "type", string("string"));
    put(&mut field, "title", string(title));
    put(&mut field, "description", string(description));
    put(&mut field, "default", string(default));
    Json::Object(field)
}

/// What the provider says of itself: its name, its version, and a schema of what
/// it has to be told. Without the schema the desktop would show no form at all.
/// None of the fields asks for a credential: ssh has one already, and the
/// agent's own comes with the payload.
pub fn info(version: &str) -> (r: Json)
    ensures
        r@ == info_of(version@),
{
    let mut fields = empty_object();
    put(
        &mut fields,
        "ssh_host",
        form_field(
            "Host",
            "user@host, as ssh would take it. Uses your existing ssh config and identity; nothing new is exposed to the network. The host needs buzz-host and buzz-acp installed.",
            "uni@uni",
        ),
    );
    put(
        &mut fields,
        "buzz_host_bin",
        form_field(
            "buzz-host path (on that machine)",
            "Leave blank unless buzz-host is somewhere unusual. A non-interactive ssh has a minimal PATH, so ~/.local/bin/buzz-host is tried before a bare command.",
            "",
        ),
    );
    put(
        &mut fields,
        "buzz_acp_bin",
        form_field(
            "buzz-acp path (on that machine)",
            "Leave blank to let that machine find its own. Set it when several copies exist and you care which one runs.",
            "",
        ),
    );
    let mut required: Vec<String> = Vec::new();
    required.push("ssh_host".to_owned());
    assert(texts(required@) =~= required_fields());
    let mut schema = empty_object();
    put(&mut schema, "type", string("object"));
    put(&mut schema, "required", string_array(&required));
    put(&mut schema, "properties", Json::Object(fields));
    let mut about = empty_object();
    put(&mut about, "id", string("ssh"));
    put(&mut about, "name", string("Another machine (over SSH)"));
    put(&mut about, "version", string(version));
    put(&mut about, "config_schema", Json::Object(schema));
    Json::Object(about)
}

// Deploying.

/// The payload of a request.
pub open spec fn payload_of(request: JsonView) -> JsonView {
    match request.field("agent"@) {
        Some(agent) => agent,
        None => JsonView::Object(Map::empty()),
    }
}

/// What a request configures under a key, without the white space around it;
/// nothing where it does not.
pub open spec fn configured(request: JsonView, key: Seq<char>) -> Seq<char> {
    match request.field("provider_config"@) {
        Some(config) => match config.field(key) {
            Some(JsonView::Str(s)) => trimmed(s),
            _ => Seq::empty(),
        },
        None => Seq::empty(),
    }
}

/// What the agent of a request is called.
pub open spec fn display_of(request: JsonView) -> Seq<char> {
    match payload_of(request).field("name"@) {
        Some(JsonView::Str(s)) => s,
        _ => "agent"@,
    }
}

/// The unit that runs the agent of a request.
pub open spec fn unit_of(request: JsonView) -> Seq<char> {
    unit_name_of(display_of(request), filled(payload_of(request), "relay_url"@)->0)
}

/// The command that the remote shell is given: one that is valid as it stands,
/// since ssh hands it over as one text for that shell to take apart. Without a
/// configured path the usual place is tried before a bare name, because the
/// shell has next to nothing on its search path.
pub open spec fn remote_command(bin: Seq<char>, unit: Seq<char>) -> Seq<char> {
    if bin.len() == 0 {
        "BH=\"$HOME/.local/bin/buzz-host\"; [ -x \"$BH\" ] || BH=buzz-host; exec \"$BH\" install "@
            + shell_quoted(unit)
    } else {
        "exec "@ + shell_quoted(bin) + " install "@ + shell_quoted(unit)
    }
}

/// The description of the unit: the agent's environment, and the program where
/// one is configured.
pub open spec fn description_of(request: JsonView) -> JsonView {
    let described = Map::empty().insert("env"@, string_object(env_of(payload_of(request))));
    JsonView::Object(
        if configured(request, "buzz_acp_bin"@).len() == 0 {
            described
        } else {
            described.insert("program"@, JsonView::Str(configured(request, "buzz_acp_bin"@)))
        },
    )
}

/// One deployment: what goes where.
#[derive(Debug, PartialEq, Eq)]
pub struct Deployment {
    /// The machine, as ssh takes it.
    pub host: String,
    /// The command for the shell of that machine.
    pub remote: String,
    /// What the command reads: the description of the unit, with the agent's
    /// private key in it.
    pub description: String,
    /// The name of the unit.
    pub name: String,
    /// What the agent is called.
    pub display: String,
}

impl Deployment {
    /// Whether this is the deployment that a request asks for.
    pub open spec fn answers(self, request: JsonView) -> bool {
        &&& self.host@ == configured(request, "ssh_host"@)
        &&& self.remote@ == remote_command(
            configured(request, "buzz_host_bin"@),
            unit_of(request),
        )
        &&& self.description@ == written(description_of(request))
        &&& parsed(self.description@) == Ok::<JsonView, Seq<char>>(description_of(request))
        &&& self.name@ == unit_of(request)
        &&& self.display@ == display_of(request)
    }
}

/// What a request configures under a key.
fn config_text(request: &Json, key: &str) -> (r: String)
    ensures
        r@ == configured(request@, key@),
{
    match request.get("provider_config") {
        Some(config) => match config.get(key) {
            Some(v) => match v.as_str() {
                Some(s) => trim(s),
                None => String::new(),
            },
            None => String::new(),
        },
        None => String::new(),
    }
}

/// A description is an object of a string and an object of strings.
proof fn descriptions_are_shallow(request: JsonView)
    ensures
        is_shallow(description_of(request)),
{
}

/// The command for the remote shell.
pub fn remote_text(bin: &str, unit: &str) -> (r: String)
    ensures
        r@ == remote_command(bin@, unit@),
{
    if bin.is_empty() {
        let mut r =
            "BH=\"$HOME/.local/bin/buzz-host\"; [ -x \"$BH\" ] || BH=buzz-host; exec \"$BH\" install ".to_owned();
        r.append(shell_quote(unit).as_str());
        r
    } else {
        let mut r = "exec ".to_owned();
        r.append(shell_quote(bin).as_str());
        r.append(" install ");
        r.append(shell_quote(unit).as_str());
        r
    }
}

/// What a deploy request asks for.
pub fn deploy(request: &Json) -> (r: Result<Deployment, ProviderError>)
    ensures
        match r {
            Ok(deployment) => {
                &&& configured(request@, "ssh_host"@).len() > 0
                &&& filled(payload_of(request@), "private_key_nsec"@) is Some
                &&& filled(payload_of(request@), "relay_url"@) is Some
                &&& deployment.answers(request@)
            },
            Err(ProviderError::NoHost) => configured(request@, "ssh_host"@).len() == 0,
            Err(ProviderError::Agent(AgentError::NoPrivateKey)) => {
                &&& configured(request@, "ssh_host"@).len() > 0
                &&& filled(payload_of(request@), "private_key_nsec"@) is None
            },
            Err(ProviderError::Agent(AgentError::NoRelay)) => {
                &&& configured(request@, "ssh_host"@).len() > 0
                &&& filled(payload_of(request@), "private_key_nsec"@) is Some
                &&& filled(payload_of(request@), "relay_url"@) is None
            },
            Err(_) => false,
        },
{
    let host = config_text(request, "ssh_host");
    if host.as_str().is_empty() {
        return Err(ProviderError::NoHost);
    }
    let nobody = Json::Object(empty_object());
    let agent = match request.get("agent") {
        Some(agent) => agent,
        None => &nobody,
    };
    let env = match agent_env(agent) {
        Ok(env) => env,
        Err(e) => {
            return Err(ProviderError::Agent(e));
        },
    };
    proof {
        identity_is_kept(agent@);
        descriptions_are_shallow(request@);
    }
    let relay = match env.text_at("BUZZ_RELAY_URL") {
        Some(relay) => relay,
        None => "",
    };
    let display = match agent.get("name") {
        Some(v) => match v.as_str() {
            Some(s) => s,
            None => "agent",
        },
        None => "agent",
    };
    let name = unit_name(display, relay);

    let mut unit = empty_object();
    put(&mut unit, "env", string_members(&env));
    let program = config_text(request, "buzz_acp_bin");
    if !program.as_str().is_empty() {
        put(&mut unit, "program", Json::Str(program));
    }
    let unit = Json::Object(unit);
    assert(unit@ == description_of(request@));
    let bin = config_text(request, "buzz_host_bin");
    let remote = remote_text(bin.as_str(), name.as_str());
    Ok(
        Deployment {
            host,
            remote,
            description: unit.to_text(),
            name,
            display: display.to_owned(),
        },
    )
}

/// What ssh is called with. It is to fail rather than to ask: there is no
/// terminal to answer on.
pub open spec fn ssh_arguments(host: Seq<char>, remote: Seq<char>) -> Seq<Seq<char>> {
    seq!["-o"@, "BatchMode=yes"@, "-o"@, "ConnectTimeout=15"@, host, remote]
}

/// What ssh is called with.
pub fn ssh_args(host: &str, remote: &str) -> (r: Vec<String>)
    ensures
        texts(r@) == ssh_arguments(host@, remote@),
{
    let mut r: Vec<String> = Vec::new();
    r.push("-o".to_owned());
    r.push("BatchMode=yes".to_owned());
    r.push("-o".to_owned());
    r.push("ConnectTimeout=15".to_owned());
    r.push(host.to_owned());
    r.push(remote.to_owned());
    assert(texts(r@) =~= ssh_arguments(host@, remote@));
    r
}

/// Where ssh may be.
pub open spec fn ssh_places() -> Seq<Seq<char>> {
    seq!["/usr/bin/ssh"@, "/usr/local/bin/ssh"@, "/opt/homebrew/bin/ssh"@, "/bin/ssh"@]
}

/// Where ssh is, without trusting the search path: the first of its places where
/// there is a file, or else the bare name.
pub fn find_ssh<F: Fn(&str) -> bool>(is_file: F) -> (r: String)
    requires
        can_look(is_file),
    ensures
        exists|found: Option<int>| #[trigger]
            searched(is_file, ssh_places(), found) && r@ == match found {
                Some(i) => ssh_places()[i],
                None => "ssh"@,
            },
{
    let mut places: Vec<String> = Vec::new();
    places.push("/usr/bin/ssh".to_owned());
    places.push("/usr/local/bin/ssh".to_owned());
    places.push("/opt/homebrew/bin/ssh".to_owned());
    places.push("/bin/ssh".to_owned());
    assert(texts(places@) =~= ssh_places());
    match search(&places, &is_file) {
        Some(i) => {
            assert(searched(is_file, ssh_places(), Some(i as int)));
            places[i].clone()
        },
        None => {
            assert(searched(is_file, ssh_places(), None));
            "ssh".to_owned()
        },
    }
}

/// What the call came to on the other machine.
#[derive(Debug, PartialEq, Eq)]
pub struct Output {
    pub stdout: String,
    pub stderr: String,
}

/// What to make of a finished call: its output, or the reason that it gives for
/// having failed.
pub fn ssh_stdin(host: &str, success: bool, stdout: String, stderr: String) -> (r: Result<
    Output,
    ProviderError,
>)
    ensures
        match r {
            Ok(out) => success && out.stdout@ == stdout@ && out.stderr@ == stderr@,
            Err(ProviderError::Refused { host: from, detail }) => {
                &&& !success
                &&& from@ == host@
                &&& detail@ == if trimmed(stderr@).len() == 0 {
                    trimmed(stdout@)
                } else {
                    trimmed(stderr@)
                }
            },
            Err(_) => false,
        },
{
    if success {
        return Ok(Output { stdout, stderr });
    }
    let said = trim(stderr.as_str());
    let detail = if said.as_str().is_empty() {
        trim(stdout.as_str())
    } else {
        said
    };
    Err(ProviderError::Refused { host: host.to_owned(), detail })
}

// Replies.

/// The lines of a text with something in them, without the white space around
/// them.
pub open spec fn filled_lines(lines: Seq<Seq<char>>) -> Seq<Seq<char>>
    decreases lines.len(),
{
    if lines.len() == 0 {
        lines
    } else {
        let before = filled_lines(lines.drop_last());
        if trimmed(lines.last()).len() == 0 {
            before
        } else {
            before.push(trimmed(lines.last()))
        }
    }
}

/// The id that the other machine has given to the unit, or else its name.
pub open spec fn id_from(stdout: Seq<char>, name: Seq<char>) -> Seq<char> {
    if trimmed(stdout).len() == 0 {
        name
    } else {
        trimmed(stdout)
    }
}

/// Where the user finds the agent from now on.
pub open spec fn closing_note(
    display: Seq<char>,
    host: Seq<char>,
    id: Seq<char>,
    name: Seq<char>,
) -> Seq<char> {
    display + " is supervised on "@ + host + " as "@ + id
        + ". `buzz-host list` there shows its state; `buzz-host paths "@ + name
        + "` shows where its log is."@
}

/// The reply to a deploy request that was met.
pub open spec fn reply_of(d: Deployment, stdout: Seq<char>, stderr: Seq<char>) -> JsonView {
    let id = id_from(stdout, d.name@);
    JsonView::Object(
        Map::empty().insert("agent_id"@, JsonView::Str(id)).insert(
            "warnings"@,
            strings(
                filled_lines(split(stderr, '\n')).push(
                    closing_note(d.display@, d.host@, id, d.name@),
                ),
            ),
        ),
    )
}

/// The lines of a text with something in them.
fn lines_in(s: &str) -> (r: Vec<String>)
    ensures
        texts(r@) == filled_lines(split(s@, '\n')),
{
    let lines = split_text(s, '\n');
    let ghost all = texts(lines@);
    let mut r: Vec<String> = Vec::new();
    let mut i: usize = 0;
    assert(all.take(0) =~= texts(r@));
    while i < lines.len()
        invariant
            i <= lines.len(),
            all == texts(lines@),
            texts(r@) == filled_lines(all.take(i as int)),
        decreases lines.len() - i,
    {
        assert(all.take(i + 1).drop_last() =~= all.take(i as int));
        let ghost before = texts(r@);
        let line = trim(lines[i].as_str());
        if !line.as_str().is_empty() {
            let ghost kept = line@;
            r.push(line);
            assert(texts(r@) =~= before.push(kept));
        }
        i += 1;
    }
    assert(all.take(all.len() as int) =~= all);
    r
}

/// The reply to a deploy request that was met: the id of the unit, what the
/// other machine had to say, and where to find the agent.
pub fn deploy_reply(d: &Deployment, out: &Output) -> (r: Json)
    ensures
        r@ == reply_of(*d, out.stdout@, out.stderr@),
{
    let said = trim(out.stdout.as_str());
    let id = if said.as_str().is_empty() {
        d.name.clone()
    } else {
        said
    };
    let mut warnings = lines_in(out.stderr.as_str());
    let mut note = d.display.clone();
    note.append(" is supervised on ");
    note.append(d.host.as_str());
    note.append(" as ");
    note.append(id.as_str());
    note.append(". `buzz-host list` there shows its state; `buzz-host paths ");
    note.append(d.name.as_str());
    note.append("` shows where its log is.");
    let ghost before = texts(warnings@);
    let ghost closing = note@;
    warnings.push(note);
    assert(texts(warnings@) =~= before.push(closing));
    let mut reply = empty_object();
    put(&mut reply, "agent_id", Json::Str(id));
    put(&mut reply, "warnings", string_array(&warnings));
    Json::Object(reply)
}

/// The reply to a request that was not met.
pub open spec fn error_reply_of(message: Seq<char>) -> JsonView {
    JsonView::Object(Map::empty().insert("error"@, JsonView::Str(message)))
}

/// The reply to a request that was not met.
pub fn error_reply(message: &str) -> (r: Json)
    ensures
        r@ == error_reply_of(message@),
{
    let mut reply = empty_object();
    put(&mut reply, "error", string(message));
    Json::Object(reply)
}

// Requests.

/// What a request leads to.
#[derive(Debug)]
pub enum Answer {
    /// A reply, at once.
    Reply(Json),
    /// A deployment, to be made before there is a reply.
    Deploy(Deployment),
}

/// The operation that a request asks for.
pub open spec fn op_of(request: JsonView) -> Option<Seq<char>> {
    match request.field("op"@) {
        Some(v) => v.text(),
        None => None,
    }
}

/// Whether this is what a request leads to.
pub open spec fn is_answer(
    request: JsonView,
    version: Seq<char>,
    r: Result<Answer, ProviderError>,
) -> bool {
    let ready = configured(request, "ssh_host"@).len() > 0;
    let key = filled(payload_of(request), "private_key_nsec"@);
    let relay = filled(payload_of(request), "relay_url"@);
    if op_of(request) == Some("info"@) {
        r matches Ok(Answer::Reply(reply)) && reply@ == info_of(version)
    } else if op_of(request) == Some("deploy"@) {
        if !ready {
            r == Err::<Answer, ProviderError>(ProviderError::NoHost)
        } else if key is None {
            r == Err::<Answer, ProviderError>(ProviderError::Agent(AgentError::NoPrivateKey))
        } else if relay is None {
            r == Err::<Answer, ProviderError>(ProviderError::Agent(AgentError::NoRelay))
        } else {
            r matches Ok(Answer::Deploy(d)) && d.answers(request)
        }
    } else {
        r matches Err(ProviderError::UnknownOp(op)) && op@ == match op_of(request) {
            Some(op) => op,
            None => "<missing>"@,
        }
    }
}

/// What a request leads to.
pub fn answer(request: &Json, version: &str) -> (r: Result<Answer, ProviderError>)
    ensures
        is_answer(request@, version@, r),
{
    let op = match request.get("op") {
        Some(v) => v.as_str(),
        None => None,
    };
    match op {
        Some(op) => {
            if same(op, "info") {
                Ok(Answer::Reply(info(version)))
            } else if same(op, "deploy") {
                proof {
                    reveal_strlit("info");
                    reveal_strlit("deploy");
                }
                match deploy(request) {
                    Ok(d) => Ok(Answer::Deploy(d)),
                    Err(e) => Err(e),
                }
            } else {
                Err(ProviderError::UnknownOp(op.to_owned()))
            }
        },
        None => Err(ProviderError::UnknownOp("<missing>".to_owned())),
    }
}

/// What a line asks for: an empty object where there is nothing on it, and
/// otherwise what it stands for as JSON.
pub open spec fn request_on(line: Seq<char>) -> Result<JsonView, Seq<char>> {
    if trimmed(line).len() == 0 {
        Ok(JsonView::Object(Map::empty()))
    } else {
        parsed(line)
    }
}

/// What one line of input leads to.
pub fn run(line: &str, version: &str) -> (r: Result<Answer, ProviderError>)
    ensures
        match request_on(line@) {
            Ok(request) => is_answer(request, version@, r),
            Err(reason) => r matches Err(ProviderError::NotJson(why)) && why@ == reason,
        },
{
    if trim(line).as_str().is_empty() {
        return answer(&Json::Object(empty_object()), version);
    }
    match Json::parse(line) {
        Ok(request) => answer(&request, version),
        Err(reason) => Err(ProviderError::NotJson(reason)),
    }
}

// What holds of the provider.

/// The command line of ssh for a request.
pub open spec fn command_line(request: JsonView) -> Seq<Seq<char>> {
    ssh_arguments(
        configured(request, "ssh_host"@),
        remote_command(configured(request, "buzz_host_bin"@), unit_of(request)),
    )
}

/// Nothing of the payload is on the command line but what the unit's name is
/// made from: two requests with one configuration, one display name and one
/// relay give the same command line, whatever else the payloads hold, the
/// private key among it.
pub proof fn secrets_stay_off_the_command_line(a: JsonView, b: JsonView)
    requires
        a.field("provider_config"@) == b.field("provider_config"@),
        display_of(a) == display_of(b),
        filled(payload_of(a), "relay_url"@) == filled(payload_of(b), "relay_url"@),
    ensures
        command_line(a) == command_line(b),
{
}

/// Deploying again lands on the same unit, whatever has changed but the display
/// name and the relay: it updates in place.
pub proof fn deploying_again_updates_in_place(a: JsonView, b: JsonView)
    requires
        display_of(a) == display_of(b),
        filled(payload_of(a), "relay_url"@) == filled(payload_of(b), "relay_url"@),
    ensures
        unit_of(a) == unit_of(b),
{
}

/// Every field that must be filled in is on the form, and holds something at
/// first: one that held nothing could not be edited.
pub proof fn required_fields_hold_something(i: int)
    requires
        0 <= i < required_fields().len(),
    ensures
        form_fields().contains_key(required_fields()[i]),
        form_fields()[required_fields()[i]].field("default"@) matches Some(JsonView::Str(s))
            && s.len() > 0,
{
    reveal_strlit("ssh_host");
    reveal_strlit("buzz_host_bin");
    reveal_strlit("buzz_acp_bin");
    reveal_strlit("uni@uni");
    assert("ssh_host"@.len() == 8 && "buzz_host_bin"@.len() == 13 && "buzz_acp_bin"@.len() == 12);
}

/// Where the path of the host program is configured, the remote shell runs that
/// program, whatever its path holds, with the unit's name as it is: the command
/// is read as these four words.
pub proof fn remote_shells_read_four_words(bin: Seq<char>, unit: Seq<char>)
    requires
        bin.len() > 0,
    ensures
        shell_words(remote_command(bin, unit)) == Some(seq!["exec"@, bin, "install"@, unit]),
{
    reveal_strlit("exec");
    reveal_strlit("exec ");
    reveal_strlit("install");
    reveal_strlit(" install ");
    let none = Seq::<char>::empty();
    let last = shell_quoted(unit) + none;
    quoted_text_is_read(unit, none, None);
    assert(none + unit =~= unit);
    assert(read_words(last, false, None) == Some(seq![unit]));

    let third = "install"@ + (seq![' '] + last);
    letters_are_read("install"@, seq![' '] + last, None);
    assert(none + "install"@ =~= "install"@);
    assert((seq![' '] + last).drop_first() =~= last);
    assert(read_words(third, false, None) == Some(seq!["install"@] + seq![unit]));

    let second = shell_quoted(bin) + (seq![' '] + third);
    quoted_text_is_read(bin, seq![' '] + third, None);
    assert(none + bin =~= bin);
    assert((seq![' '] + third).drop_first() =~= third);
    assert(read_words(second, false, None) == Some(
        seq![bin] + (seq!["install"@] + seq![unit]),
    ));

    letters_are_read("exec"@, seq![' '] + second, None);
    assert(none + "exec"@ =~= "exec"@);
    assert((seq![' '] + second).drop_first() =~= second);
    assert(remote_command(bin, unit) =~= "exec"@ + (seq![' '] + second));
    assert(seq!["exec"@] + (seq![bin] + (seq!["install"@] + seq![unit])) =~= seq![
        "exec"@,
        bin,
        "install"@,
        unit,
    ]);
}

/// The words that the desktop takes for the mark of a credential in the name of a
/// field.
pub open spec fn credential_words() -> Seq<Seq<char>> {
    seq!["secret"@, "password"@, "token"@, "key"@, "credential"@]
}

/// No field of the form is named like a credential: what the user fills in there
/// would never arrive.
pub proof fn no_field_is_named_like_a_credential(field: Seq<char>, i: int)
    requires
        form_fields().contains_key(field),
        0 <= i < credential_words().len(),
    ensures
        !holds(field, credential_words()[i]),
{
    reveal_strlit("ssh_host");
    reveal_strlit("buzz_host_bin");
    reveal_strlit("buzz_acp_bin");
    reveal_strlit("secret");
    reveal_strlit("password");
    reveal_strlit("token");
    reveal_strlit("key");
    reveal_strlit("credential");
    let word = credential_words()[i];
    assert forall|j: int| 0 <= j <= field.len() - word.len() implies !#[trigger] holds_at(
        field,
        word,
        j,
    ) by {
        let part = field.subrange(j, j + word.len());
        assert(part[0] == field[j]);
        assert(part[1] == field[j + 1]);
        assert(field[j] != word[0] || field[j + 1] != word[1]);
    }
}

/// A request is answered for exactly two operations, by their exact names; any other
/// is named in the error.
pub proof fn there_are_two_operations(
    members: Map<Seq<char>, JsonView>,
    version: Seq<char>,
    r: Result<Answer, ProviderError>,
)
    requires
        is_answer(JsonView::Object(members), version, r),
    ensures
        r matches Ok(Answer::Reply(_)) ==> members.contains_key("op"@) && members["op"@]
            == JsonView::Str(seq!['i', 'n', 'f', 'o']),
        r matches Ok(Answer::Deploy(_)) ==> members.contains_key("op"@) && members["op"@]
            == JsonView::Str(seq!['d', 'e', 'p', 'l', 'o', 'y']),
        members.contains_key("op"@) && members["op"@] == JsonView::Str(seq!['i', 'n', 'f', 'o'])
            ==> r matches Ok(Answer::Reply(_)),
        members.contains_key("op"@) && members["op"@] == JsonView::Str(
            seq!['d', 'e', 'p', 'l', 'o', 'y'],
        ) ==> !(r matches Ok(Answer::Reply(_))) && !(r matches Err(ProviderError::UnknownOp(_))),
        r matches Err(ProviderError::UnknownOp(op)) ==> op@ == if members.contains_key("op"@)
            && members["op"@] is Str {
            members["op"@]->Str_0
        } else {
            "<missing>"@
        },
{
    reveal_strlit("info");
    reveal_strlit("deploy");
    assert("info"@ =~= seq!['i', 'n', 'f', 'o']);
    assert("deploy"@ =~= seq!['d', 'e', 'p', 'l', 'o', 'y']);
    assert("info"@.len() != "deploy"@.len());
}

/// A line with nothing on it is an empty request.
pub proof fn blank_lines_ask_for_nothing(line: Seq<char>)
    ensures
        is_blank(line) ==> request_on(line) == Ok::<JsonView, Seq<char>>(
            JsonView::Object(Map::empty()),
        ),
        !is_blank(line) ==> request_on(line) == parsed(line),
{
    blank_texts_are_trimmed_away(line);
}

/// What is configured is the text of the configuration under that key, without the
/// white space around it, and nothing where that is no text.
pub proof fn configurations_are_read_by_key(
    members: Map<Seq<char>, JsonView>,
    config: Map<Seq<char>, JsonView>,
    key: Seq<char>,
    before: Seq<char>,
    core: Seq<char>,
    after: Seq<char>,
)
    requires
        members.contains_key("provider_config"@),
        members["provider_config"@] == JsonView::Object(config),
        is_blank(before),
        is_blank(after),
        core.len() > 0 ==> !is_white_space(core.first()) && !is_white_space(core.last()),
    ensures
        config.contains_key(key) && config[key] == JsonView::Str(before + core + after)
            ==> configured(JsonView::Object(members), key) == core,
        !config.contains_key(key) || !(config[key] is Str) ==> configured(
            JsonView::Object(members),
            key,
        ).len() == 0,
{
    trimming_takes_the_ends(before, core, after);
}

/// The unit is named after the agent's name and its relay, each from its own field
/// of the payload; an agent without a name is called `agent`.
pub proof fn units_are_named_after_agent_and_relay(
    members: Map<Seq<char>, JsonView>,
    agent: Map<Seq<char>, JsonView>,
    relay: Seq<char>,
)
    requires
        members.contains_key("agent"@),
        members["agent"@] == JsonView::Object(agent),
        agent.contains_key("relay_url"@),
        agent["relay_url"@] == JsonView::Str(relay),
        relay.len() > 0,
    ensures
        unit_of(JsonView::Object(members)) == unit_name_of(
            display_of(JsonView::Object(members)),
            relay,
        ),
        agent.contains_key("name"@) && agent["name"@] is Str ==> display_of(
            JsonView::Object(members),
        ) == agent["name"@]->Str_0,
        !agent.contains_key("name"@) || !(agent["name"@] is Str) ==> display_of(
            JsonView::Object(members),
        ) == seq!['a', 'g', 'e', 'n', 't'],
{
    reveal_strlit("agent");
    assert("agent"@ =~= seq!['a', 'g', 'e', 'n', 't']);
}

/// A description is the agent's environment, each variable with its value, and the
/// program exactly where one is configured; it holds nothing else.
pub proof fn descriptions_hold_environment_and_program(
    members: Map<Seq<char>, JsonView>,
    agent: JsonView,
    variable: Seq<char>,
    key: Seq<char>,
)
    requires
        members.contains_key("agent"@),
        members["agent"@] == agent,
    ensures
        ({
            let request = JsonView::Object(members);
            let described = description_of(request)->Object_0;
            let env = described["env"@]->Object_0;
            let program = configured(request, "buzz_acp_bin"@);
            &&& description_of(request) is Object
            &&& described.contains_key("env"@)
            &&& described["env"@] is Object
            &&& env.contains_key(variable) <==> env_of(agent).contains_key(variable)
            &&& env_of(agent).contains_key(variable) ==> env[variable] == JsonView::Str(
                env_of(agent)[variable],
            )
            &&& described.contains_key("program"@) <==> program.len() > 0
            &&& program.len() > 0 ==> described["program"@] == JsonView::Str(program)
            &&& described.contains_key(key) ==> key == "env"@ || key == "program"@
        }),
{
    reveal_strlit("env");
    reveal_strlit("program");
    assert("env"@.len() != "program"@.len());
}

/// The remote command ends in the unit's name, quoted, and what stands before that
/// does not depend on the name.
pub proof fn remote_commands_end_in_the_unit(bin: Seq<char>, a: Seq<char>, b: Seq<char>)
    ensures
        ({
            let front = remote_command(bin, a).len() - shell_quoted(a).len();
            &&& front >= 0
            &&& remote_command(bin, a).skip(front) == shell_quoted(a)
            &&& remote_command(bin, b).len() == front + shell_quoted(b).len()
            &&& remote_command(bin, b).take(front) == remote_command(bin, a).take(front)
        }),
{
    let front = remote_command(bin, a).len() - shell_quoted(a).len();
    assert(remote_command(bin, a).skip(front) =~= shell_quoted(a));
    assert(remote_command(bin, b).take(front) =~= remote_command(bin, a).take(front));
}

/// The form asks for exactly what a deployment reads of its configuration: requests
/// that agree in the payload and in the fields of the form agree in what they lead
/// to, and the fields of the form are these three.
pub proof fn the_form_asks_for_what_is_read(a: JsonView, b: JsonView, field: Seq<char>)
    ensures
        form_fields().contains_key(field) <==> (field == "ssh_host"@ || field == "buzz_host_bin"@
            || field == "buzz_acp_bin"@),
        a.field("agent"@) == b.field("agent"@) && (forall|f: Seq<char>| #[trigger]
            form_fields().contains_key(f) ==> configured(a, f) == configured(b, f)) ==> {
            &&& command_line(a) == command_line(b)
            &&& description_of(a) == description_of(b)
        },
{
    assert(form_fields().contains_key("ssh_host"@));
    assert(form_fields().contains_key("buzz_host_bin"@));
    assert(form_fields().contains_key("buzz_acp_bin"@));
}

/// Every field of the form is a text field with a title that names what it asks for;
/// the host has to be given, and the other two are blank at first.
pub proof fn fields_are_titled_for_what_they_ask()
    ensures
        ({
            let host = form_fields()["ssh_host"@];
            let own = form_fields()["buzz_host_bin"@];
            let acp = form_fields()["buzz_acp_bin"@];
            &&& host.field("title"@) == Some(JsonView::Str("Host"@))
            &&& own.field("title"@) == Some(JsonView::Str("buzz-host path (on that machine)"@))
            &&& acp.field("title"@) == Some(JsonView::Str("buzz-acp path (on that machine)"@))
            &&& host.field("type"@) == Some(JsonView::Str("string"@))
            &&& own.field("type"@) == Some(JsonView::Str("string"@))
            &&& acp.field("type"@) == Some(JsonView::Str("string"@))
            &&& own.field("default"@) == Some(JsonView::Str(""@))
            &&& acp.field("default"@) == Some(JsonView::Str(""@))
            &&& host.field("description"@) == Some(
                JsonView::Str(
                    "user@host, as ssh would take it. Uses your existing ssh config and identity; nothing new is exposed to the network. The host needs buzz-host and buzz-acp installed."@,
                ),
            )
            &&& own.field("description"@) == Some(
                JsonView::Str(
                    "Leave blank unless buzz-host is somewhere unusual. A non-interactive ssh has a minimal PATH, so ~/.local/bin/buzz-host is tried before a bare command."@,
                ),
            )
            &&& acp.field("description"@) == Some(
                JsonView::Str(
                    "Leave blank to let that machine find its own. Set it when several copies exist and you care which one runs."@,
                ),
            )
        }),
{
    reveal_strlit("ssh_host");
    reveal_strlit("buzz_host_bin");
    reveal_strlit("buzz_acp_bin");
    reveal_strlit("type");
    reveal_strlit("title");
    reveal_strlit("description");
    reveal_strlit("default");
    assert("ssh_host"@.len() == 8 && "buzz_host_bin"@.len() == 13 && "buzz_acp_bin"@.len() == 12);
    assert("type"@.len() == 4 && "title"@.len() == 5 && "description"@.len() == 11
        && "default"@.len() == 7);
}

/// What the provider says of itself holds its version, and the form under the
/// schema, where the desktop looks for it.
pub proof fn the_schema_holds_the_form(version: Seq<char>)
    ensures
        info_of(version).field("version"@) == Some(JsonView::Str(version)),
        info_of(version).field("id"@) == Some(JsonView::Str("ssh"@)),
        info_of(version).field("name"@) == Some(JsonView::Str("Another machine (over SSH)"@)),
        ({
            let schema = info_of(version).field("config_schema"@);
            &&& schema matches Some(schema)
            &&& schema.field("type"@) == Some(JsonView::Str("object"@))
            &&& schema.field("properties"@) == Some(JsonView::Object(form_fields()))
            &&& schema.field("required"@) == Some(
                JsonView::Array(seq![JsonView::Str("ssh_host"@)]),
            )
        }),
{
    reveal_strlit("id");
    reveal_strlit("name");
    reveal_strlit("version");
    reveal_strlit("config_schema");
    reveal_strlit("type");
    reveal_strlit("required");
    reveal_strlit("properties");
    assert("id"@.len() == 2 && "name"@.len() == 4 && "version"@.len() == 7
        && "config_schema"@.len() == 13);
    assert("type"@.len() == 4 && "required"@.len() == 8 && "properties"@.len() == 10);
    assert(required_fields().map_values(|s: Seq<char>| JsonView::Str(s)) =~= seq![
        JsonView::Str("ssh_host"@),
    ]);
}

/// Every line that the other machine said something on is passed on, in order and
/// without the white space around it, and no other: of two stretches of lines, those
/// of the one and then those of the other.
pub proof fn every_filled_line_is_passed_on(a: Seq<Seq<char>>, b: Seq<Seq<char>>)
    ensures
        filled_lines(a + b) == filled_lines(a) + filled_lines(b),
        a.len() == 0 ==> filled_lines(a).len() == 0,
        a.len() == 1 ==> filled_lines(a) == if is_blank(a[0]) {
            Seq::<Seq<char>>::empty()
        } else {
            seq![trimmed(a[0])]
        },
    decreases b.len(),
{
    if b.len() == 0 {
        assert(a + b =~= a);
        assert(filled_lines(a) + filled_lines(b) =~= filled_lines(a));
    } else {
        every_filled_line_is_passed_on(a, b.drop_last());
        assert((a + b).drop_last() =~= a + b.drop_last());
        assert((a + b).last() == b.last());
        assert(filled_lines(a + b) =~= filled_lines(a) + filled_lines(b));
    }
    if a.len() == 1 {
        blank_texts_are_trimmed_away(a[0]);
        assert(a.drop_last() =~= Seq::<Seq<char>>::empty());
        assert(filled_lines(a.drop_last()) =~= Seq::<Seq<char>>::empty());
        assert(filled_lines(a) =~= if is_blank(a[0]) {
            Seq::<Seq<char>>::empty()
        } else {
            seq![trimmed(a[0])]
        });
    }
}

/// A reply holds the id that the other machine gave, or else the unit's name, and
/// what that machine said, with one note behind it that tells the agent, the
/// machine, the id and the unit; it holds nothing else.
pub proof fn replies_hold_the_id_and_what_was_said(
    d: Deployment,
    stdout: Seq<char>,
    stderr: Seq<char>,
    key: Seq<char>,
)
    ensures
        ({
            let reply = reply_of(d, stdout, stderr)->Object_0;
            let id = if is_blank(stdout) {
                d.name@
            } else {
                trimmed(stdout)
            };
            let said = filled_lines(split(stderr, '\n'));
            let warnings = reply["warnings"@]->Array_0;
            let note = warnings.last()->Str_0;
            &&& reply_of(d, stdout, stderr) is Object
            &&& reply.contains_key("agent_id"@)
            &&& reply["agent_id"@] == JsonView::Str(id)
            &&& reply.contains_key("warnings"@)
            &&& reply["warnings"@] is Array
            &&& warnings.len() == said.len() + 1
            &&& forall|i: int|
                0 <= i < said.len() ==> #[trigger] warnings[i] == JsonView::Str(said[i])
            &&& warnings.last() is Str
            &&& is_told(note, d.display@)
            &&& is_told(note, d.host@)
            &&& is_told(note, id)
            &&& is_told(note, d.name@)
            &&& reply.contains_key(key) ==> key == "agent_id"@ || key == "warnings"@
        }),
{
    reveal_strlit("agent_id");
    reveal_strlit("warnings");
    assert("agent_id"@[0] != "warnings"@[0]);
    blank_texts_are_trimmed_away(stdout);
    let id = id_from(stdout, d.name@);
    let note = closing_note(d.display@, d.host@, id, d.name@);
    let first = d.display@ + " is supervised on "@;
    let second = first + d.host@ + " as "@;
    let third = second + id + ". `buzz-host list` there shows its state; `buzz-host paths "@;
    let none = Seq::<char>::empty();
    assert(none + d.display@ + note.skip(d.display@.len() as int) =~= note);
    assert(first + d.host@ + note.skip((first + d.host@).len() as int) =~= note);
    assert(second + id + note.skip((second + id).len() as int) =~= note);
    assert(third + d.name@ + note.skip((third + d.name@).len() as int) =~= note);
    let list = filled_lines(split(stderr, '\n')).push(note);
    let warnings = reply_of(d, stdout, stderr)->Object_0["warnings"@]->Array_0;
    assert(warnings =~= list.map_values(|s: Seq<char>| JsonView::Str(s)));
    assert(warnings.last() == JsonView::Str(note));
}

/// A request that was not met is answered with its message as the error, and with
/// nothing else.
pub proof fn errors_are_replies_with_a_message(message: Seq<char>, key: Seq<char>)
    ensures
        error_reply_of(message).field("error"@) == Some(JsonView::Str(message)),
        key != "error"@ ==> error_reply_of(message).field(key) is None,
{
}

/// A message tells what it is about: the reason, the operation, the machine and what
/// it said.
pub proof fn messages_tell_the_reason(e: ProviderError)
    ensures
        match e {
            ProviderError::NotJson(reason) => is_told(message_of(e), reason@),
            ProviderError::UnknownOp(op) => is_told(message_of(e), debug_form(op@)),
            ProviderError::Refused { host, detail } => message_of(e) == host@ + seq![':', ' ']
                + detail@,
            ProviderError::Agent(AgentError::NoPrivateKey) => is_told(
                message_of(e),
                "agent.private_key_nsec"@,
            ),
            ProviderError::Agent(AgentError::NoRelay) => is_told(
                message_of(e),
                "agent.relay_url"@,
            ),
            ProviderError::NoHost => is_told(message_of(e), "no host configured"@),
        },
{
    let none = Seq::<char>::empty();
    let told = message_of(e);
    match e {
        ProviderError::NotJson(reason) => {
            assert("parsing the request: "@ + reason@ + none =~= told);
        },
        ProviderError::UnknownOp(op) => {
            assert("unknown op "@ + debug_form(op@) + none =~= told);
        },
        ProviderError::Refused { .. } => {
            reveal_strlit(": ");
            assert(": "@ =~= seq![':', ' ']);
        },
        ProviderError::Agent(AgentError::NoPrivateKey) => {
            reveal_strlit("agent.private_key_nsec");
            reveal_strlit(
                "agent.private_key_nsec is missing — the desktop refuses to deploy without it, so this means a payload from a different Buzz version",
            );
            assert(none + "agent.private_key_nsec"@ + told.skip(22) =~= told);
        },
        ProviderError::Agent(AgentError::NoRelay) => {
            reveal_strlit("agent.relay_url");
            reveal_strlit("agent.relay_url is missing");
            assert(none + "agent.relay_url"@ + told.skip(15) =~= told);
        },
        ProviderError::NoHost => {
            reveal_strlit("no host configured");
            reveal_strlit(
                "no host configured: set 'Host' to the user@host that should run this agent",
            );
            assert(none + "no host configured"@ + told.skip(18) =~= told);
        },
    }
}

/// Whether a look at a path can only be answered like this.
pub open spec fn only_answer<F: Fn(&str) -> bool>(look: F, path: Seq<char>, answer: bool) -> bool {
    !answered(look, path, !answer)
}

/// The system's own ssh is called where it is there, then the one installed by hand,
/// then the one of Homebrew, then the one below the root, and then whichever the
/// search path has.
pub proof fn the_system_ssh_wins<F: Fn(&str) -> bool>(is_file: F, found: Option<int>)
    requires
        searched(is_file, ssh_places(), found),
    ensures
        ({
            let r = match found {
                Some(i) => ssh_places()[i],
                None => "ssh"@,
            };
            if only_answer(is_file, "/usr/bin/ssh"@, true) {
                r == "/usr/bin/ssh"@
            } else if only_answer(is_file, "/usr/bin/ssh"@, false) {
                if only_answer(is_file, "/usr/local/bin/ssh"@, true) {
                    r == "/usr/local/bin/ssh"@
                } else if only_answer(is_file, "/usr/local/bin/ssh"@, false) {
                    if only_answer(is_file, "/opt/homebrew/bin/ssh"@, true) {
                        r == "/opt/homebrew/bin/ssh"@
                    } else if only_answer(is_file, "/opt/homebrew/bin/ssh"@, false) {
                        if only_answer(is_file, "/bin/ssh"@, true) {
                            r == "/bin/ssh"@
                        } else if only_answer(is_file, "/bin/ssh"@, false) {
                            found is None
                        } else {
                            true
                        }
                    } else {
                        true
                    }
                } else {
                    true
                }
            } else {
                true
            }
        }),
{
    searches_end_at_the_first(is_file, ssh_places(), found, 0);
    searches_end_at_the_first(is_file, ssh_places(), found, 1);
    searches_end_at_the_first(is_file, ssh_places(), found, 2);
    searches_end_at_the_first(is_file, ssh_places(), found, 3);
}

/// Whether a payload has a text with something in it in a field.
pub open spec fn has_something(agent: Map<Seq<char>, JsonView>, field: Seq<char>) -> bool {
    agent.contains_key(field) && agent[field] is Str && agent[field]->Str_0.len() > 0
}

/// A deploy request leads to a deployment exactly where a host is configured and the
/// payload has a private key and a relay, and otherwise to the error for the first of
/// these that is missing. The deployment goes to that host, carries a description
/// that reads back with the private key, the relay and the rest of the environment in
/// it, and has the unit's name as its own and in its command.
pub proof fn deployments_carry_what_is_asked(
    members: Map<Seq<char>, JsonView>,
    agent: Map<Seq<char>, JsonView>,
    version: Seq<char>,
    r: Result<Answer, ProviderError>,
)
    requires
        is_answer(JsonView::Object(members), version, r),
        members.contains_key("op"@),
        members["op"@] == JsonView::Str("deploy"@),
        members.contains_key("agent"@),
        members["agent"@] == JsonView::Object(agent),
    ensures
        ({
            let request = JsonView::Object(members);
            let host = configured(request, "ssh_host"@);
            if host.len() == 0 {
                r == Err::<Answer, ProviderError>(ProviderError::NoHost)
            } else if !has_something(agent, "private_key_nsec"@) {
                r == Err::<Answer, ProviderError>(ProviderError::Agent(AgentError::NoPrivateKey))
            } else if !has_something(agent, "relay_url"@) {
                r == Err::<Answer, ProviderError>(ProviderError::Agent(AgentError::NoRelay))
            } else {
                &&& r matches Ok(Answer::Deploy(d))
                &&& d.host@ == host
                &&& d.display@ == display_of(request)
                &&& d.name@ == unit_name_of(display_of(request), agent["relay_url"@]->Str_0)
                &&& d.remote@ == remote_command(configured(request, "buzz_host_bin"@), d.name@)
                &&& parsed(d.description@) matches Ok(read)
                &&& read is Object
                &&& read->Object_0.contains_key("env"@)
                &&& read->Object_0["env"@] is Object
                &&& read->Object_0["env"@]->Object_0.contains_key("BUZZ_PRIVATE_KEY"@)
                &&& read->Object_0["env"@]->Object_0["BUZZ_PRIVATE_KEY"@]
                    == agent["private_key_nsec"@]
                &&& read->Object_0["env"@]->Object_0.contains_key("BUZZ_RELAY_URL"@)
                &&& read->Object_0["env"@]->Object_0["BUZZ_RELAY_URL"@] == agent["relay_url"@]
                &&& forall|variable: Seq<char>| #[trigger]
                    env_of(JsonView::Object(agent)).contains_key(variable)
                        ==> read->Object_0["env"@]->Object_0.contains_key(variable)
                        && read->Object_0["env"@]->Object_0[variable] == JsonView::Str(
                        env_of(JsonView::Object(agent))[variable],
                    )
            }
        }),
{
    reveal_strlit("info");
    reveal_strlit("deploy");
    assert("info"@.len() != "deploy"@.len());
    let payload = JsonView::Object(agent);
    identity_is_kept(payload);
    texts_go_to_their_variables(agent);
    descriptions_hold_environment_and_program(members, payload, "BUZZ_PRIVATE_KEY"@, "env"@);
    descriptions_hold_environment_and_program(members, payload, "BUZZ_RELAY_URL"@, "env"@);
    assert forall|variable: Seq<char>| #[trigger]
        env_of(payload).contains_key(variable) implies description_of(
        JsonView::Object(members),
    )->Object_0["env"@]->Object_0.contains_key(variable) && description_of(
        JsonView::Object(members),
    )->Object_0["env"@]->Object_0[variable] == JsonView::Str(env_of(payload)[variable]) by {
        descriptions_hold_environment_and_program(members, payload, variable, "env"@);
    }
}

} // verus!
