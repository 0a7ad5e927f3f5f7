use dack::config::read::default_trust_tiers;
use dack::config::{
    sha256_hex, to_hex, CapabilityTier, Connector, DackConfig, IdentityRole, McpTransport, RuntimeEngine,
};
use dack::error::DackError;
use dack::model::stimulus::TrustTier;
use dack::secrets::providers::{
    broker_from_config, read_env, show_code, FileEnvProvider, Gathered, ScriptRun, ScriptSecretsProvider,
    SecretsBroker, SecretsProvider, StaticEnvProvider,
};
use dack::secrets::{bridge_env, forwarded_env, pick_env, sensor_env, FileSecretStore};
use dack::json::Json;
use dack::state::ConsciousnessState;
use dack::strmap::StrMap;
use sha2::{Digest, Sha256};

fn map(pairs: &[(&str, &str)]) -> StrMap<String> {
    let mut m = StrMap::new();
    for (k, v) in pairs {
        m.insert(k.to_string(), v.to_string());
    }
    m
}

fn has(m: &StrMap<String>, key: &str) -> Option<String> {
    m.get(key).cloned()
}

const SAMPLE: &str = r#"
operator_did: "did:key:z6MkOperator"
forwarded_env: [TWITTER_API_KEY, BANKR_API_KEY, BUILDER_DID_KEY, DACK_HANDLE, RATE_LIMIT]
secrets:
  soul_did_key: "file:///run/secrets/soul_did_key"
"#;

#[test]
fn parses_sample_config() {
    let cfg = DackConfig::from_yaml(SAMPLE).expect("config parses");
    assert_eq!(cfg.operator_did, "did:key:z6MkOperator");
    assert!(cfg.forwarded_env.contains(&"TWITTER_API_KEY".to_string()));
    // Soul key is a reference, never forwarded.
    assert!(cfg.secrets.get("soul_did_key").is_some());
    assert!(!cfg.forwarded_env.contains(&"SOUL_DID_KEY".to_string()));
}

#[test]
fn validate_capabilities_rejects_overlapping_prefixes() {
    let mut cfg = DackConfig::from_yaml(SAMPLE).unwrap();
    // Defaults (mcp__twitter__ vs mcp__bankr__/mcp__dac__) are disjoint.
    assert!(cfg.validate_capabilities().is_ok());
    // A post prefix that swallows a settle prefix is rejected (settle would classify as Post).
    cfg.post_tools = vec!["mcp__".into()];
    cfg.settle_tools = vec!["mcp__bankr__".into()];
    assert!(cfg.validate_capabilities().is_err());
}

#[test]
fn the_first_overlap_is_named() {
    let mut cfg = DackConfig::from_yaml("operator_did: x").unwrap();
    cfg.post_tools = vec!["mcp__b".into(), "mcp__a".into()];
    cfg.settle_tools = vec!["mcp__z".into(), "mcp__a__".into(), "mcp__b__".into()];
    let why = cfg.validate_capabilities().unwrap_err().text();
    assert!(why.contains("settle `mcp__a__` vs `mcp__a`"), "{why}");
}

#[test]
fn trust_lattice_ranks_meets_and_reaches() {
    let cfg = DackConfig::from_yaml(
        "operator_did: \"x\"\ntrust_tiers:\n  - { name: public, reaches: express }\n  \
         - { name: org, reaches: settle }\n  - { name: self, reaches: reflect }\n  \
         - { name: operator_signed, reaches: reflect }\n",
    )
    .unwrap();
    let l = cfg.lattice();
    // Rank ascends with the list; meet (taint) returns the lower-trust tier.
    assert!(l.rank(&TrustTier::public()) < l.rank(&TrustTier::named("org")));
    assert!(l.rank(&TrustTier::named("org")) < l.rank(&TrustTier::self_()));
    assert_eq!(l.meet(&TrustTier::self_(), &TrustTier::public()), TrustTier::public());
    assert_eq!(l.meet(&TrustTier::named("org"), &TrustTier::self_()), TrustTier::named("org"));
    // Each tier's state ceiling.
    assert_eq!(l.reaches(&TrustTier::public()), ConsciousnessState::Express);
    assert_eq!(l.reaches(&TrustTier::named("org")), ConsciousnessState::Settle);
    assert_eq!(l.reaches(&TrustTier::self_()), ConsciousnessState::Reflect);
    // An unknown tier fails safe: rank 0 (lowest), reaches Express (never raises a ceiling).
    assert_eq!(l.rank(&TrustTier::named("bogus")), 0);
    assert_eq!(l.reaches(&TrustTier::named("bogus")), ConsciousnessState::Express);
    // The default lattice (no `trust_tiers:`).
    let d = DackConfig::from_yaml("operator_did: \"x\"").unwrap().lattice();
    assert_eq!(d.reaches(&TrustTier::self_()), ConsciousnessState::Reflect);
    assert_eq!(d.reaches(&TrustTier::public()), ConsciousnessState::Express);
    assert_eq!(d.tiers.len(), default_trust_tiers().len());
}

#[test]
fn seed_trust_from_signed_script_webhook_and_secret() {
    let src = b"print('hi')\n";
    let hash: String = Sha256::digest(src).iter().map(|b| format!("{b:02x}")).collect();
    let yaml = format!(
        "operator_did: \"x\"\nsigned_scripts:\n  \"{hash}\": self\nwebhooks:\n  \"/telegram/op\": self\n\
         secrets_providers:\n  - {{ name: x, command: [echo], trust: public }}\n  - {{ name: cove, command: [echo], trust: self }}\n"
    );
    let cfg = DackConfig::from_yaml(&yaml).unwrap();
    // A signed script's source hashes to its tier; an unsigned/edited script → public.
    assert_eq!(cfg.script_trust(src), TrustTier::self_());
    assert_eq!(cfg.script_trust(b"edited"), TrustTier::public());
    // A registered webhook path → its tier; an unknown path → public.
    assert_eq!(cfg.webhook_trust("/telegram/op"), TrustTier::self_());
    assert_eq!(cfg.webhook_trust("/random"), TrustTier::public());
    // Secret provider trust labels; an unknown provider → self (a no-op in the seed meet).
    assert_eq!(cfg.secret_trust("x"), TrustTier::public());
    assert_eq!(cfg.secret_trust("cove"), TrustTier::self_());
    assert_eq!(cfg.secret_trust("nope"), TrustTier::self_());
}

#[test]
fn a_digest_is_written_in_hex() {
    assert_eq!(to_hex(&vec![0x00, 0x0f, 0xa5, 0xff]), "000fa5ff");
    assert_eq!(sha256_hex(b"abc"), "ba7816bf8f01cfea414140de5dae2223b00361a396177a9cb410ff61f20015ad");
}

#[test]
fn an_empty_config_has_its_defaults() {
    let cfg = DackConfig::from_yaml("operator_did: x").unwrap();
    assert_eq!(cfg.default_entry, "perceive");
    assert_eq!(cfg.post_tools, vec!["mcp__twitter__"]);
    assert!(cfg.soul_remotes.is_empty() && cfg.modules.is_empty() && cfg.mcp_servers.is_empty());
    assert!(!cfg.dry_run.enabled);
    assert!(cfg.dry_run.active_block().is_empty());
    let policy = cfg.tier_policy_for(ConsciousnessState::Settle);
    assert!(policy.import.is_empty() && policy.deny.is_empty());
    assert!(!policy.allow_model_override);
    assert!(cfg.identity_dirs().is_empty());
}

#[test]
fn a_config_names_its_parts() {
    let cfg = DackConfig::from_yaml(
        "operator_did: x\n\
         tier_policy:\n  settle: { mcp_whitelist: true, import: [cove], deny: [bad], model: big }\n\
         identities: { soul: /ids/soul, operator: /ids/op }\n\
         runtime:\n  engine: { type: openclaude, bridge_dir: /bridge }\n  connector: { type: anthropic, api_key: k }\n  model: m\n  env: [A]\n\
         dry_run: { enabled: true, block: [mcp__x__] }\n\
         mcp_servers:\n  - { name: cove, transport: { type: http, url: 'https://c' }, tier: settle, tools: [buy], auth: { secret: cove, header: Authorization, scheme: Bearer } }\n  - { name: sh, transport: { type: stdio, command: run, args: [a] }, tier: read, min_trust: self }\n",
    );
    let cfg = match cfg {
        Ok(c) => c,
        Err(e) => panic!("{}", e.text()),
    };
    let policy = cfg.tier_policy_for(ConsciousnessState::Settle);
    assert!(policy.mcp_whitelist);
    assert_eq!(policy.import, vec!["cove"]);
    assert_eq!(policy.deny, vec!["bad"]);
    assert_eq!(policy.model.as_deref(), Some("big"));
    assert_eq!(
        cfg.identity_dirs(),
        vec![(IdentityRole::Soul, "/ids/soul".to_string()), (IdentityRole::Operator, "/ids/op".to_string())]
    );
    let RuntimeEngine::Openclaude { bridge_dir } = &cfg.runtime.engine;
    assert_eq!(bridge_dir, "/bridge");
    assert!(matches!(&cfg.runtime.connector, Connector::Anthropic { api_key: Some(k) } if k == "k"));
    assert_eq!(cfg.dry_run.active_block(), vec!["mcp__x__"]);
    let cove = cfg.mcp_server("cove").unwrap();
    assert_eq!(cove.tier, CapabilityTier::Settle);
    assert!(matches!(&cove.transport, McpTransport::Http { url } if url == "https://c"));
    assert_eq!(cove.auth.as_ref().unwrap().scheme.as_deref(), Some("Bearer"));
    let sh = cfg.mcp_server("sh").unwrap();
    assert_eq!(sh.min_trust, Some(TrustTier::self_()));
    assert!(cfg.mcp_server("none").is_none());
    let caps = cfg.capability_prefixes();
    assert_eq!(caps.settle.last().unwrap().prefix, "mcp__cove__");
    assert_eq!(caps.settle.last().unwrap().tools, vec!["buy"]);
    assert_eq!(caps.read.last().unwrap().prefix, "mcp__sh__");
}

#[test]
fn a_config_that_cannot_be_read_is_refused() {
    assert!(DackConfig::from_yaml("a: [").is_err());
    assert!(DackConfig::from_yaml("forwarded_env: []").is_err(), "no operator");
    assert!(DackConfig::from_yaml("operator_did: x\ntrust_tiers: [{ name: a, reaches: nowhere }]").is_err());
    let why = |text: &str| DackConfig::from_yaml(text).unwrap_err().text();
    assert_eq!(why("forwarded_env: []"), "yaml: missing field `operator_did`");
    assert_eq!(
        why("operator_did: x\nforwarded_env: 3"),
        "yaml: field `forwarded_env`: expected a list of strings"
    );
}

#[test]
fn soul_key_is_never_forwarded() {
    let cfg = DackConfig::from_yaml(
        r#"
operator_did: "did:key:zOp"
forwarded_env: [TWITTER_API_KEY]
secrets:
  soul_did_key: "file:///run/secrets/soul_did_key"
"#,
    )
    .unwrap();
    let host = map(&[("SOUL_DID_KEY", "k"), ("soul_did_key", "k"), ("TWITTER_API_KEY", "t"), ("PATH", "/bin")]);
    let env = forwarded_env(&cfg, &host);
    // Even if the process happened to export it, it's not in the forwarded set.
    assert!(env.get("soul_did_key").is_none());
    assert!(env.get("SOUL_DID_KEY").is_none());
    assert_eq!(has(&env, "TWITTER_API_KEY").as_deref(), Some("t"));
    assert!(sensor_env(&cfg, &host).get("SOUL_DID_KEY").is_none());
    assert!(bridge_env(&cfg, &host).get("SOUL_DID_KEY").is_none());
    assert_eq!(has(&sensor_env(&cfg, &host), "PATH").as_deref(), Some("/bin"));
}

#[test]
fn only_named_variables_are_picked() {
    let host = map(&[("A", "1"), ("B", "2")]);
    let env = pick_env(&host, &vec!["B".to_string(), "C".to_string()]);
    assert_eq!(env.len(), 1);
    assert_eq!(has(&env, "B").as_deref(), Some("2"));
}

#[test]
fn a_secret_is_a_file_reference() {
    assert_eq!(FileSecretStore.path("file:///run/secrets/k").unwrap(), "/run/secrets/k");
    assert!(matches!(FileSecretStore.path("vault://k"), Err(DackError::Config(_))));
}

fn gather(broker: &SecretsBroker, scopes: &[&str], outs: Vec<StrMap<String>>) -> Gathered {
    broker.env_for(&scopes.iter().map(|s| s.to_string()).collect(), &outs)
}

#[test]
fn broker_scopes_to_declared_providers_and_fails_closed() {
    let provider = StaticEnvProvider::new("twitter".into(), vec!["DACK_TEST_TOKEN".into()]);
    let host = map(&[("DACK_TEST_TOKEN", "abc"), ("OTHER", "no")]);
    let out = provider.materialize(&host);
    let broker = SecretsBroker::new(vec![SecretsProvider::Static(provider)]);

    // A consumer that declares the `twitter` scope gets exactly its keys.
    assert!(matches!(gather(&broker, &["twitter"], vec![]), Gathered::Needs(0)));
    match gather(&broker, &["twitter"], vec![out]) {
        Gathered::Env(env) => {
            assert_eq!(env.get("DACK_TEST_TOKEN").map(String::as_str), Some("abc"));
            assert_eq!(env.len(), 1);
        }
        other => panic!("{other:?}"),
    }
    // An undeclared/unknown scope fails closed (never a silent empty env).
    assert!(matches!(gather(&broker, &["nope"], vec![]), Gathered::Unknown(_)));
}

#[test]
fn script_provider_runs_a_command_and_parses_json_env() {
    let provider = ScriptSecretsProvider::new(
        "x".into(),
        vec!["/bin/sh".into(), "prov.sh".into()],
        map(&[("WHO", "agentdack")]),
        vec!["X_BEARER_TOKEN".into()],
    );
    let plan = provider.plan(&map(&[("PATH", "/bin"), ("HOME", "/h"), ("LEAK", "no")])).unwrap();
    assert_eq!(plan.program, "/bin/sh");
    assert_eq!(plan.args, vec!["prov.sh"]);
    assert_eq!(plan.env.get("WHO").map(String::as_str), Some("agentdack"));
    assert!(plan.env.get("LEAK").is_none());

    let env = provider
        .outcome(&ScriptRun {
            code: Some(0),
            success: true,
            stdout: b"{\"X_BEARER_TOKEN\":\"tok-agentdack\"}\n".to_vec(),
            stderr: String::new(),
        })
        .unwrap();
    assert_eq!(env.get("X_BEARER_TOKEN").map(String::as_str), Some("tok-agentdack"));

    // A failing provider is an error, never a silent empty env.
    let failed = provider.outcome(&ScriptRun {
        code: Some(3),
        success: false,
        stdout: vec![],
        stderr: "boom\n".into(),
    });
    match failed {
        Err(e) => assert!(e.text().contains("boom") && e.text().contains("3"), "{}", e.text()),
        Ok(_) => panic!("a failing provider must fail"),
    }
    // So is one that prints no object of texts.
    for (out, why) in [
        (&b"[]"[..], "expected texts"),
        (b"{\"A\":1}", "expected texts"),
        (b"nope", "expected ident at line 1 column 2"),
        (b"\xff", "not UTF-8"),
    ] {
        let run = ScriptRun { code: Some(0), success: true, stdout: out.to_vec(), stderr: String::new() };
        assert_eq!(
            provider.outcome(&run).unwrap_err().text(),
            format!("config: secrets provider `x` output is not a JSON object: {why}")
        );
    }
}

#[test]
fn a_file_provider_trims_its_file() {
    let p = FileEnvProvider::new("f".into(), "TOKEN".into(), "/t".into());
    assert_eq!(has(&p.materialize("  abc\n"), "TOKEN").as_deref(), Some("abc"));
}

#[test]
fn a_broker_holds_what_the_config_declares() {
    let cfg = DackConfig::from_yaml(
        "operator_did: x\nsecrets_providers:\n  - { name: x, command: [run], keys: [K] }\n",
    )
    .unwrap();
    let broker = broker_from_config(&cfg);
    assert_eq!(broker.providers.len(), 1);
    assert_eq!(broker.providers[0].name(), "x");
    assert_eq!(broker.providers[0].keys(), vec!["K"]);
}

#[test]
fn an_exit_code_is_shown() {
    assert_eq!(show_code(Some(3)), "Some(3)");
    assert_eq!(show_code(Some(-1)), "Some(-1)");
    assert_eq!(show_code(None), "None");
    assert!(read_env(&Json::parse("{\"A\":\"1\"}").unwrap()).is_some());
    assert!(read_env(&Json::parse("{\"A\":null}").unwrap()).is_none());
}
