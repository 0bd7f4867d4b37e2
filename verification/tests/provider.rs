use buzz_host::agent::{agent_env, settings, AgentError};
use buzz_host::json::Json;
use buzz_host::names::{label, slug, unit_name, unit_name_for};
use buzz_host::provider::{
    answer, deploy, deploy_reply, error_reply, find_ssh, info, remote_text, run, ssh_args,
    ssh_stdin, Answer, Deployment, Output, ProviderError,
};
use buzz_host::quoting::shell_quote;
use buzz_host::table::Table;

fn json(text: &str) -> Json {
    Json::parse(text).unwrap()
}

fn with(object: Json, key: &str, value: Json) -> Json {
    match object {
        Json::Object(mut members) => {
            members.insert(key.to_string(), value);
            Json::Object(members)
        }
        other => panic!("{:?} is no object", other),
    }
}

fn at<'a>(value: &'a Json, keys: &[&str]) -> &'a Json {
    let mut here = value;
    for key in keys {
        here = here.get(key).unwrap();
    }
    here
}

fn texts(value: &Json) -> Vec<String> {
    let items = value.as_array().unwrap();
    items.iter().map(|v| v.as_str().unwrap().to_string()).collect()
}

fn payload() -> Json {
    json(
        r#"{
            "name": "Research Bot",
            "relay_url": "wss://buzz.unforced.dev",
            "private_key_nsec": "nsec1example",
            "auth_tag": ["auth", "ownerpubkey", "", "sig"],
            "agent_command": "hive-acp",
            "agent_args": [],
            "model": "opus",
            "respond_to": "owner-only",
            "idle_timeout_seconds": 300,
            "max_turn_duration_seconds": 600,
            "env_vars": {"HIVE_ENV": "research", "HIVE_HARNESS": "codex"}
        }"#,
    )
}

fn request() -> Json {
    let request = json(r#"{"op": "deploy", "provider_config": {"ssh_host": " uni@uni "}}"#);
    with(request, "agent", payload())
}

fn env_of(agent: &Json) -> Table<String> {
    agent_env(agent).unwrap()
}

fn deployment() -> Deployment {
    deploy(&request()).unwrap()
}

#[test]
fn info_declares_a_schema_or_the_desktop_renders_nothing() {
    let i = info("1.2.3");
    let fields = at(&i, &["config_schema", "properties"]);
    assert!(fields.get("ssh_host").unwrap().as_object().is_some());
    for (k, _) in fields.as_object().unwrap().entries() {
        for word in ["secret", "password", "token", "key", "credential"] {
            assert!(!k.contains(word), "config key {:?} contains {:?}", k, word);
        }
    }
}

#[test]
fn the_harness_and_user_env_pass_through_untouched() {
    let env = env_of(&payload());
    assert_eq!(env.text_at("BUZZ_ACP_AGENT_COMMAND"), Some("hive-acp"));
    assert_eq!(env.text_at("HIVE_ENV"), Some("research"));
    assert_eq!(env.text_at("HIVE_HARNESS"), Some("codex"));
}

#[test]
fn the_identity_cannot_be_overridden_by_user_env() {
    let user = json(
        r#"{"BUZZ_PRIVATE_KEY": "nsec1attacker", "BUZZ_RELAY_URL": "wss://elsewhere"}"#,
    );
    let env = env_of(&with(payload(), "env_vars", user));
    assert_eq!(env.text_at("BUZZ_PRIVATE_KEY"), Some("nsec1example"));
    assert_eq!(env.text_at("BUZZ_RELAY_URL"), Some("wss://buzz.unforced.dev"));
}

#[test]
fn an_auth_tag_array_is_serialized_and_a_string_is_kept() {
    let env = env_of(&payload());
    assert_eq!(env.text_at("BUZZ_AUTH_TAG"), Some(r#"["auth","ownerpubkey","","sig"]"#));

    let p = with(payload(), "auth_tag", Json::Str("already-a-string".to_string()));
    assert_eq!(env_of(&p).text_at("BUZZ_AUTH_TAG"), Some("already-a-string"));
}

#[test]
fn a_missing_identity_is_an_error_rather_than_a_silent_anonymous_agent() {
    let p = with(payload(), "private_key_nsec", Json::Str(String::new()));
    assert!(agent_env(&p).is_err());
}

#[test]
fn absent_optional_fields_are_left_unset_rather_than_blanked() {
    let p = with(payload(), "model", Json::Null);
    let p = with(p, "system_prompt", Json::Null);
    let env = env_of(&p);
    assert!(env.get("BUZZ_ACP_MODEL").is_none());
    assert!(env.get("BUZZ_ACP_SYSTEM_PROMPT").is_none());
}

#[test]
fn the_observer_is_on_because_a_remote_agent_has_no_stdio_to_watch() {
    assert_eq!(env_of(&payload()).text_at("BUZZ_ACP_RELAY_OBSERVER"), Some("true"));
}

#[test]
fn a_name_is_stable_across_redeploys_and_distinct_per_relay() {
    let a = unit_name("Research Bot", "wss://buzz.unforced.dev");
    assert_eq!(a, unit_name("Research Bot", "wss://buzz.unforced.dev"), "not stable");
    assert_ne!(a, unit_name("Research Bot", "wss://other.example"), "collides across relays");
    assert!(a.starts_with("research-bot-"), "{}", a);
}

#[test]
fn a_hostile_display_name_still_produces_a_usable_unit_name() {
    for weird in ["../../etc/passwd", "", "!!!", "Ünïcödé Bot", &"x".repeat(200)] {
        let n = unit_name(weird, "wss://r");
        assert!(!n.contains('/'), "{}", n);
        assert!(!n.contains('.'), "{}", n);
        assert!(n.len() <= 48, "{} is {} chars", n, n.len());
        assert!(
            n.chars().all(|c| c.is_ascii_lowercase() || c.is_ascii_digit() || c == '-'),
            "{}",
            n
        );
    }
}

#[test]
fn shell_quoting_survives_a_path_with_a_quote_in_it() {
    assert_eq!(shell_quote("/a'b"), r"'/a'\''b'");
}

#[test]
fn every_default_is_non_empty_or_the_field_cannot_be_edited() {
    let i = info("1.2.3");
    let schema = at(&i, &["config_schema"]);
    let props = schema.get("properties").unwrap();
    let required = schema.get("required").unwrap().as_array().unwrap();
    assert!(!required.is_empty());
    for r in required {
        let key = r.as_str().unwrap();
        let default = props.get(key).unwrap().get("default").unwrap().as_str().unwrap_or("");
        assert!(
            !default.is_empty(),
            "required field {:?} has an empty default, so it cannot be edited",
            key
        );
    }
}

#[test]
fn info_says_who_the_provider_is() {
    let about = info("1.2.3");
    assert_eq!(about.get("id").unwrap().as_str(), Some("ssh"));
    assert_eq!(about.get("name").unwrap().as_str(), Some("Another machine (over SSH)"));
    assert_eq!(about.get("version").unwrap().as_str(), Some("1.2.3"));
    let schema = about.get("config_schema").unwrap();
    assert_eq!(schema.get("type").unwrap().as_str(), Some("object"));
    let host = schema.get("properties").unwrap().get("ssh_host").unwrap();
    assert_eq!(host.get("default").unwrap().as_str(), Some("uni@uni"));
    assert_eq!(texts(schema.get("required").unwrap()), ["ssh_host"]);
}

#[test]
fn numbers_and_lists_of_the_payload_become_texts() {
    let agent = json(
        r#"{
            "private_key_nsec": "k",
            "relay_url": "r",
            "agent_args": ["--fast", 7, "now"],
            "respond_to_allowlist": ["a", "b"],
            "turn_timeout_seconds": -9223372036854775808,
            "parallelism": 10,
            "idle_timeout_seconds": 1.5,
            "max_turn_duration_seconds": "600",
            "owner_pubkey": "owner"
        }"#,
    );
    let env = env_of(&agent);
    assert_eq!(env.text_at("BUZZ_ACP_AGENT_ARGS"), Some("--fast now"));
    assert_eq!(env.text_at("BUZZ_ACP_RESPOND_TO_ALLOWLIST"), Some("a,b"));
    assert_eq!(env.text_at("BUZZ_ACP_TURN_TIMEOUT"), Some("-9223372036854775808"));
    assert_eq!(env.text_at("BUZZ_ACP_AGENTS"), Some("10"));
    assert_eq!(env.text_at("BUZZ_ACP_IDLE_TIMEOUT"), None);
    assert_eq!(env.text_at("BUZZ_ACP_MAX_TURN_DURATION"), None);
    assert_eq!(env.text_at("BUZZ_ACP_AGENT_OWNER"), Some("owner"));
}

#[test]
fn an_empty_list_leaves_its_variable_unset() {
    let env = env_of(&payload());
    assert_eq!(env.text_at("BUZZ_ACP_AGENT_ARGS"), None);
    let nothing = json(r#"{"private_key_nsec": "k", "relay_url": "r", "agent_args": [1]}"#);
    assert_eq!(env_of(&nothing).text_at("BUZZ_ACP_AGENT_ARGS"), Some(""));
}

#[test]
fn a_user_may_override_anything_but_the_identity() {
    let user = json(r#"{"BUZZ_ACP_MODEL": "haiku", "BUZZ_ACP_RELAY_OBSERVER": "false", "N": 1}"#);
    let env = env_of(&with(payload(), "env_vars", user));
    assert_eq!(env.text_at("BUZZ_ACP_MODEL"), Some("haiku"));
    assert_eq!(env.text_at("BUZZ_ACP_RELAY_OBSERVER"), Some("false"));
    assert_eq!(env.text_at("N"), None);
}

#[test]
fn each_part_of_the_identity_has_its_own_error() {
    let no_relay = with(payload(), "relay_url", Json::Null);
    assert_eq!(agent_env(&no_relay).unwrap_err(), AgentError::NoRelay);
    let neither = json("{}");
    assert_eq!(agent_env(&neither).unwrap_err(), AgentError::NoPrivateKey);
}

#[test]
fn every_variable_is_set_at_most_once() {
    let all = settings(&payload());
    assert_eq!(all.len(), 15);
    for (i, a) in all.iter().enumerate() {
        for b in &all[i + 1..] {
            assert_ne!(a.0, b.0);
        }
    }
}

#[test]
fn names_are_made_of_a_slug_and_a_digest() {
    assert_eq!(unit_name("Research Bot", "wss://buzz.unforced.dev"), "research-bot-421825");
    assert_eq!(unit_name("Research Bot", "wss://other.example"), "research-bot-d26b04");
    assert_eq!(unit_name("!!!", "wss://r"), "agent-0bcf77");
    assert_eq!(unit_name("ÜNÏ", ""), "n-e3b0c4");
    assert_eq!(unit_name_for("abc", &vec![0x0f, 0xa0, 0xff, 0x12]), "abc-0fa0ff");
}

#[test]
fn slugs_are_single_dashed_and_short() {
    assert_eq!(slug("--a  --  b!"), "a-b");
    assert_eq!(slug(""), "agent");
    assert_eq!(slug(&"x".repeat(41)), "x".repeat(40));
    assert_eq!(slug(&format!("{} tail", "x".repeat(39))), "x".repeat(39));
}

#[test]
fn labels_carry_the_name() {
    assert_eq!(label("research"), "dev.buzz.host.research");
}

#[test]
fn a_deployment_says_what_goes_where() {
    let d = deployment();
    assert_eq!(d.host, "uni@uni");
    assert_eq!(d.name, "research-bot-421825");
    assert_eq!(d.display, "Research Bot");
    assert_eq!(
        d.remote,
        "BH=\"$HOME/.local/bin/buzz-host\"; [ -x \"$BH\" ] || BH=buzz-host; exec \"$BH\" install 'research-bot-421825'"
    );
    assert!(!d.remote.contains("nsec1example"));
    let args = ssh_args(&d.host, &d.remote);
    assert_eq!(args[..5], ["-o", "BatchMode=yes", "-o", "ConnectTimeout=15", "uni@uni"]);
    assert_eq!(args[5], d.remote);
    assert_eq!(args.len(), 6);
}

#[test]
fn what_is_sent_reads_back_as_it_was_written() {
    let description = json(&deployment().description);
    let env = description.get("env").unwrap();
    assert_eq!(env.get("BUZZ_PRIVATE_KEY").unwrap().as_str(), Some("nsec1example"));
    assert_eq!(env.get("HIVE_ENV").unwrap().as_str(), Some("research"));
    assert!(description.get("program").is_none());
    assert_eq!(description.to_text(), deployment().description);
}

#[test]
fn a_configured_program_is_named_and_a_configured_host_is_quoted() {
    let config = json(
        r#"{"ssh_host": "h", "buzz_acp_bin": " /opt/acp ", "buzz_host_bin": "/a'b"}"#,
    );
    let d = deploy(&with(request(), "provider_config", config)).unwrap();
    assert_eq!(json(&d.description).get("program").unwrap().as_str(), Some("/opt/acp"));
    assert_eq!(d.remote, "exec '/a'\\''b' install 'research-bot-421825'");
    assert_eq!(remote_text("/x", "y"), "exec '/x' install 'y'");
}

#[test]
fn deploying_again_lands_on_the_same_unit() {
    let again = with(payload(), "private_key_nsec", Json::Str("nsec1other".to_string()));
    let again = deploy(&with(request(), "agent", again)).unwrap();
    assert_eq!(again.name, deployment().name);
    assert_eq!(again.remote, deployment().remote);
    assert_ne!(again.description, deployment().description);
}

#[test]
fn an_agent_without_a_name_is_called_agent() {
    let agent = json(r#"{"private_key_nsec": "k", "relay_url": "wss://r", "name": 3}"#);
    let d = deploy(&with(request(), "agent", agent)).unwrap();
    assert_eq!(d.display, "agent");
    assert_eq!(d.name, "agent-0bcf77");
}

#[test]
fn a_request_that_cannot_be_met_says_why() {
    let no_host = with(request(), "provider_config", json(r#"{"ssh_host": "  "}"#));
    assert_eq!(deploy(&no_host).unwrap_err(), ProviderError::NoHost);
    let no_config = with(request(), "provider_config", Json::Null);
    assert_eq!(deploy(&no_config).unwrap_err(), ProviderError::NoHost);
    let nobody = with(request(), "agent", Json::Bool(true));
    assert_eq!(
        deploy(&nobody).unwrap_err(),
        ProviderError::Agent(AgentError::NoPrivateKey)
    );
    let no_relay = with(payload(), "relay_url", Json::Str(String::new()));
    assert_eq!(
        deploy(&with(request(), "agent", no_relay)).unwrap_err(),
        ProviderError::Agent(AgentError::NoRelay)
    );
}

#[test]
fn messages_read_as_the_desktop_shows_them() {
    assert_eq!(
        ProviderError::NotJson("why".to_string()).message(),
        "parsing the request: why"
    );
    assert_eq!(
        ProviderError::UnknownOp("a\"b\n".to_string()).message(),
        "unknown op \"a\\\"b\\n\""
    );
    assert_eq!(
        ProviderError::Agent(AgentError::NoPrivateKey).message(),
        "agent.private_key_nsec is missing — the desktop refuses to deploy without it, so this means a payload from a different Buzz version"
    );
    assert_eq!(
        ProviderError::Agent(AgentError::NoRelay).message(),
        "agent.relay_url is missing"
    );
    assert_eq!(
        ProviderError::NoHost.message(),
        "no host configured: set 'Host' to the user@host that should run this agent"
    );
    let refused = ProviderError::Refused { host: "h".to_string(), detail: "no".to_string() };
    assert_eq!(refused.message(), "h: no");
}

#[test]
fn a_line_leads_to_an_answer() {
    match run("{\"op\":\"info\"}\n", "9.9") {
        Ok(Answer::Reply(reply)) => {
            assert_eq!(reply.get("version").unwrap().as_str(), Some("9.9"));
        }
        other => panic!("{:?}", other),
    }
    match run(&request().to_text(), "9.9") {
        Ok(Answer::Deploy(d)) => assert_eq!(d, deployment()),
        other => panic!("{:?}", other),
    }
    for (line, op) in [
        ("", "<missing>"),
        (" \n", "<missing>"),
        ("{}", "<missing>"),
        ("[]", "<missing>"),
        ("{\"op\":1}", "<missing>"),
        ("{\"op\":\"undeploy\"}", "undeploy"),
    ] {
        match run(line, "9.9") {
            Err(ProviderError::UnknownOp(unknown)) => assert_eq!(unknown, op),
            other => panic!("{:?}", other),
        }
    }
    match run("not json", "9.9") {
        Err(ProviderError::NotJson(why)) => {
            assert_eq!(why, "expected ident at line 1 column 2");
        }
        other => panic!("{:?}", other),
    }
    assert!(answer(&json("{\"op\":\"info\"}"), "1").is_ok());
}

#[test]
fn a_finished_call_is_output_or_a_reason() {
    let ok = ssh_stdin("h", true, "id\n".to_string(), "note".to_string()).unwrap();
    assert_eq!(ok, Output { stdout: "id\n".to_string(), stderr: "note".to_string() });
    for (stdout, stderr, detail) in [("out\n", " \n", "out"), ("out", " no such host \n", "no such host")] {
        assert_eq!(
            ssh_stdin("h", false, stdout.to_string(), stderr.to_string()).unwrap_err(),
            ProviderError::Refused { host: "h".to_string(), detail: detail.to_string() }
        );
    }
}

#[test]
fn a_reply_carries_the_id_and_what_was_said() {
    let out = Output {
        stdout: "dev.buzz.host.x\n".to_string(),
        stderr: "one\r\n\n  two  \n".to_string(),
    };
    let reply = deploy_reply(&deployment(), &out);
    assert_eq!(reply.get("agent_id").unwrap().as_str(), Some("dev.buzz.host.x"));
    assert_eq!(
        texts(at(&reply, &["warnings"])),
        [
            "one",
            "two",
            "Research Bot is supervised on uni@uni as dev.buzz.host.x. `buzz-host list` there shows its state; `buzz-host paths research-bot-421825` shows where its log is."
        ]
    );
    let silent = Output { stdout: " ".to_string(), stderr: String::new() };
    let reply = deploy_reply(&deployment(), &silent);
    assert_eq!(reply.get("agent_id").unwrap().as_str(), Some("research-bot-421825"));
}

#[test]
fn an_error_is_a_reply_too() {
    assert_eq!(error_reply("a \"b\"").to_text(), r#"{"error":"a \"b\""}"#);
}

#[test]
fn ssh_is_looked_for_before_it_is_named() {
    assert_eq!(find_ssh(|p: &str| p.starts_with("/opt") || p == "/bin/ssh"), "/opt/homebrew/bin/ssh");
    assert_eq!(find_ssh(|_: &str| true), "/usr/bin/ssh");
    assert_eq!(find_ssh(|_: &str| false), "ssh");
}
