use agent_runner::agent::{Agent, AgentBuilder};
use agent_runner::content::{Content, Part};
use agent_runner::errors::ConfigError;
use agent_runner::runner::{
    ArtifactHook, CollaboratorKind, MemoryHook, Runner, RunnerConfig,
};
use agent_runner::session::{Session, SessionKey, SessionStore};

fn key(app: &str, user: &str, session: &str) -> SessionKey {
    SessionKey {
        app: app.to_string(),
        user: user.to_string(),
        session_id: session.to_string(),
    }
}

#[test]
fn content_collects_parts_in_order() {
    let c = Content::new("user").with_text("a").with_text("b").with_text("c");
    assert_eq!(c.role, "user");
    assert_eq!(c.parts.len(), 3);
    assert_eq!(c.joined_text(), "abc");
    let Part::Text { text } = &c.parts[0];
    assert_eq!(text, "a");
}

#[test]
fn content_duplicate_is_equal_and_independent() {
    let original = Content::new("user").with_text("hello");
    let copy = original.duplicate();
    assert_eq!(copy.role, original.role);
    assert_eq!(copy.joined_text(), original.joined_text());
    let extended = copy.with_text(" world");
    assert_eq!(extended.joined_text(), "hello world");
    assert_eq!(original.joined_text(), "hello");
}

#[test]
fn builder_requires_a_name() {
    let r = AgentBuilder::new("").instruction("be nice").model("m").build();
    assert!(matches!(r, Err(ConfigError::EmptyAgentName)));
}

#[test]
fn builder_requires_a_model() {
    let r = AgentBuilder::new("helper").instruction("be nice").build();
    assert!(matches!(r, Err(ConfigError::MissingModel)));
}

#[test]
fn builder_keeps_every_field() {
    let a = AgentBuilder::new("helper")
        .description("short description")
        .instruction("be nice")
        .model("gemini-2.0-flash")
        .build()
        .expect("agent builds");
    assert_eq!(a.name, "helper");
    assert_eq!(a.description, "short description");
    assert_eq!(a.instruction, "be nice");
    assert_eq!(a.model, "gemini-2.0-flash");
}

#[test]
fn runner_rejects_empty_app_name() {
    let agent = AgentBuilder::new("helper").model("m").build().expect("agent builds");
    let r = Runner::new(RunnerConfig {
        app_name: String::new(),
        agent,
        artifact_service: None,
        memory_service: None,
    });
    assert!(matches!(r, Err(ConfigError::EmptyAppName)));
}

#[test]
fn runner_rejects_nameless_agent() {
    let agent = Agent {
        name: String::new(),
        description: String::new(),
        instruction: String::new(),
        model: "m".to_string(),
    };
    let r = Runner::new(RunnerConfig {
        app_name: "app".to_string(),
        agent,
        artifact_service: None,
        memory_service: None,
    });
    assert!(matches!(r, Err(ConfigError::EmptyAgentName)));
}

#[test]
fn get_or_create_is_idempotent() {
    let mut store = SessionStore::new();
    let k = key("app", "u", "s");
    assert!(store.get_or_create(&k));
    store.append_turn(
        &k,
        Content::new("user").with_text("q"),
        Content::new("model").with_text("a"),
    );
    // A second resolution reuses the session rather than resetting it.
    assert!(!store.get_or_create(&k));
    assert_eq!(store.transcript_len(&k), 2);
}

#[test]
fn append_turn_keeps_other_keys_apart() {
    let mut store = SessionStore::new();
    let k1 = key("app", "u1", "s");
    let k2 = key("app", "u2", "s");
    store.get_or_create(&k1);
    store.get_or_create(&k2);
    store.append_turn(
        &k1,
        Content::new("user").with_text("first"),
        Content::new("model").with_text("reply"),
    );
    assert_eq!(store.transcript_len(&k1), 2);
    assert_eq!(store.transcript_len(&k2), 0);
    let t1 = store.transcript_snapshot(&k1);
    assert_eq!(t1[0].joined_text(), "first");
    assert_eq!(t1[1].joined_text(), "reply");
}

#[test]
fn acquire_is_exclusive_until_released() {
    let mut store = SessionStore::new();
    let k = key("app", "u", "s");
    store.get_or_create(&k);
    assert!(!store.is_in_flight(&k));
    assert!(store.try_acquire(&k));
    assert!(store.is_in_flight(&k));
    assert!(!store.try_acquire(&k));
    store.release(&k);
    assert!(!store.is_in_flight(&k));
    assert!(store.try_acquire(&k));
}

#[test]
fn session_state_latest_binding_wins() {
    let mut s = Session::new(key("app", "u", "s"));
    assert_eq!(s.state_get("mode"), None);
    s.state_set("mode", "draft");
    s.state_set("lang", "en");
    assert_eq!(s.state_get("mode").as_deref(), Some("draft"));
    s.state_set("mode", "final");
    assert_eq!(s.state_get("mode").as_deref(), Some("final"));
    assert_eq!(s.state_get("lang").as_deref(), Some("en"));
    assert_eq!(s.state_get("missing"), None);
}

#[test]
fn part_new_text_carries_its_text() {
    let p = Part::new_text("chunk");
    let Part::Text { text } = &p;
    assert_eq!(text, "chunk");
}

#[test]
fn collaborator_fanout_is_empty_without_services() {
    let agent = AgentBuilder::new("helper").model("m").build().expect("agent builds");
    let runner = Runner::new(RunnerConfig {
        app_name: "app".to_string(),
        agent,
        artifact_service: None,
        memory_service: None,
    })
    .expect("runner builds");
    let reply = Content::new("model").with_text("done");
    assert!(runner.collaborator_fanout(&reply).is_empty());
}

#[test]
fn collaborator_fanout_reaches_each_attached_service_once() {
    let agent = AgentBuilder::new("helper").model("m").build().expect("agent builds");
    let runner = Runner::new(RunnerConfig {
        app_name: "app".to_string(),
        agent,
        artifact_service: Some(ArtifactHook {}),
        memory_service: Some(MemoryHook {}),
    })
    .expect("runner builds");
    let reply = Content::new("model").with_text("done");
    let calls = runner.collaborator_fanout(&reply);
    assert_eq!(calls.len(), 2);
    assert_eq!(calls[0].target, CollaboratorKind::Artifact);
    assert_eq!(calls[1].target, CollaboratorKind::Memory);
    assert_eq!(calls[0].content.joined_text(), "done");
    assert_eq!(calls[1].content.joined_text(), "done");
}

#[test]
fn key_matches_compares_all_three_parts() {
    let a = key("app", "u", "s");
    assert!(a.key_matches(&key("app", "u", "s")));
    assert!(!a.key_matches(&key("app2", "u", "s")));
    assert!(!a.key_matches(&key("app", "u2", "s")));
    assert!(!a.key_matches(&key("app", "u", "s2")));
}
