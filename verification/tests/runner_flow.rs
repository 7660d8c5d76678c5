use agent_runner::agent::AgentBuilder;
use agent_runner::content::Content;
use agent_runner::errors::{ModelError, RunError};
use agent_runner::runner::{RunPhase, Runner, RunnerConfig};
use agent_runner::session::SessionStore;

fn simple_runner(app: &str) -> Runner {
    let agent = AgentBuilder::new("simple-agent")
        .description("a simple assistant")
        .instruction("answer briefly")
        .model("gemini-2.0-flash")
        .build()
        .expect("agent builds");
    Runner::new(RunnerConfig {
        app_name: app.to_string(),
        agent,
        artifact_service: None,
        memory_service: None,
    })
    .expect("runner builds")
}

#[test]
fn scenario_two_chunk_turn() {
    let runner = simple_runner("demo-app");
    let mut store = SessionStore::new();
    let input = Content::new("user").with_text("Hello!");
    let mut run = runner
        .begin_run(&mut store, "u1", "s1", input)
        .expect("run starts on a fresh session");
    assert_eq!(run.phase, RunPhase::Streaming);

    let ev1 = run.on_chunk("Hi");
    assert_eq!(ev1.author, "simple-agent");
    assert_eq!(ev1.content.as_ref().expect("chunk carries content").joined_text(), "Hi");
    assert!(ev1.error.is_none());
    assert!(!ev1.turn_complete);

    let ev2 = run.on_chunk(" there!");
    assert_eq!(ev2.content.as_ref().expect("chunk carries content").joined_text(), " there!");

    let done = run.finish(&mut store);
    assert!(done.turn_complete);
    assert!(done.error.is_none());
    assert_eq!(run.phase, RunPhase::Completed);

    let key = run.key;
    let transcript = store.transcript_snapshot(&key);
    assert_eq!(transcript.len(), 2);
    assert_eq!(transcript[0].role, "user");
    assert_eq!(transcript[0].joined_text(), "Hello!");
    assert_eq!(transcript[1].role, "model");
    assert_eq!(transcript[1].joined_text(), "Hi there!");
}

#[test]
fn transcript_grows_by_two_per_successful_run() {
    let runner = simple_runner("demo-app");
    let mut store = SessionStore::new();
    for expected_before in [0usize, 2, 4] {
        let input = Content::new("user").with_text("question");
        let mut run = runner.begin_run(&mut store, "u1", "s1", input).expect("run starts");
        assert_eq!(store.transcript_len(&run.key), expected_before);
        run.on_chunk("answer");
        run.finish(&mut store);
        assert_eq!(store.transcript_len(&run.key), expected_before + 2);
    }
}

#[test]
fn second_run_sees_first_transcript_as_history() {
    let runner = simple_runner("demo-app");
    let mut store = SessionStore::new();

    let mut run1 = runner
        .begin_run(&mut store, "u1", "s1", Content::new("user").with_text("first question"))
        .expect("first run starts");
    assert_eq!(run1.context.len(), 2); // instruction + empty history + input
    run1.on_chunk("first answer");
    run1.finish(&mut store);

    let run2 = runner
        .begin_run(&mut store, "u1", "s1", Content::new("user").with_text("second question"))
        .expect("second run starts");
    // instruction, then the first run's two entries, then the new input.
    assert_eq!(run2.context.len(), 4);
    assert_eq!(run2.context[0].role, "system");
    assert_eq!(run2.context[0].joined_text(), "answer briefly");
    assert_eq!(run2.context[1].role, "user");
    assert_eq!(run2.context[1].joined_text(), "first question");
    assert_eq!(run2.context[2].role, "model");
    assert_eq!(run2.context[2].joined_text(), "first answer");
    assert_eq!(run2.context[3].role, "user");
    assert_eq!(run2.context[3].joined_text(), "second question");
}

#[test]
fn unreachable_before_any_chunk_leaves_transcript_unchanged() {
    let runner = simple_runner("demo-app");
    let mut store = SessionStore::new();
    let mut run = runner
        .begin_run(&mut store, "u1", "s1", Content::new("user").with_text("Hello!"))
        .expect("run starts");
    let ev = run.on_model_error(&mut store, ModelError::Unreachable);
    assert!(ev.content.is_none());
    assert_eq!(ev.error, Some(ModelError::Unreachable));
    assert!(!ev.turn_complete);
    assert_eq!(run.phase, RunPhase::Failed);
    // No partial user-only append: the transcript is exactly as before.
    assert_eq!(store.transcript_len(&run.key), 0);
    // And the key is free again.
    assert!(!store.is_in_flight(&run.key));
}

#[test]
fn concurrent_run_on_same_key_is_rejected_until_released() {
    let runner = simple_runner("demo-app");
    let mut store = SessionStore::new();
    let mut run1 = runner
        .begin_run(&mut store, "u1", "s1", Content::new("user").with_text("one"))
        .expect("first run starts");
    let r2 = runner.begin_run(&mut store, "u1", "s1", Content::new("user").with_text("two"));
    assert!(matches!(r2, Err(RunError::SessionBusy)));
    // A different key proceeds in parallel, untouched by the first run.
    let mut other = runner
        .begin_run(&mut store, "u2", "s1", Content::new("user").with_text("other"))
        .expect("different key is free");
    other.on_chunk("fine");
    other.finish(&mut store);
    run1.on_chunk("done");
    run1.finish(&mut store);
    assert_eq!(store.transcript_len(&run1.key), 2);
    assert_eq!(store.transcript_len(&other.key), 2);
}

#[test]
fn serialized_runs_give_alternating_roles() {
    let runner = simple_runner("demo-app");
    let mut store = SessionStore::new();
    let n = 5usize;
    for i in 0..n {
        let input = Content::new("user").with_text(&format!("question {i}"));
        let mut run = runner.begin_run(&mut store, "u1", "s1", input).expect("run starts");
        run.on_chunk("answer ");
        run.on_chunk(&format!("{i}"));
        run.finish(&mut store);
    }
    let key = agent_runner::session::SessionKey {
        app: "demo-app".to_string(),
        user: "u1".to_string(),
        session_id: "s1".to_string(),
    };
    let transcript = store.transcript_snapshot(&key);
    assert_eq!(transcript.len(), 2 * n);
    for (j, entry) in transcript.iter().enumerate() {
        if j % 2 == 0 {
            assert_eq!(entry.role, "user");
        } else {
            assert_eq!(entry.role, "model");
            assert_eq!(entry.joined_text(), format!("answer {}", j / 2));
        }
    }
}

#[test]
fn cancellation_releases_the_session_lock() {
    let runner = simple_runner("demo-app");
    let mut store = SessionStore::new();
    let mut run = runner
        .begin_run(&mut store, "u1", "s1", Content::new("user").with_text("Hello!"))
        .expect("run starts");
    let first = run.on_chunk("Hi");
    assert!(first.content.is_some());
    // The consumer stops pulling here.
    run.cancel(&mut store);
    assert_eq!(run.phase, RunPhase::Failed);
    assert!(!store.is_in_flight(&run.key));
    assert_eq!(store.transcript_len(&run.key), 0);
    // A second run on the same key starts immediately.
    let mut again = runner
        .begin_run(&mut store, "u1", "s1", Content::new("user").with_text("Hello again"))
        .expect("lock was released");
    again.on_chunk("Hi");
    again.finish(&mut store);
    assert_eq!(store.transcript_len(&again.key), 2);
}

#[test]
fn every_model_error_variant_is_surfaced() {
    let runner = simple_runner("demo-app");
    let variants = [
        ModelError::AuthFailure,
        ModelError::Unreachable,
        ModelError::RateLimited,
        ModelError::MalformedResponse,
        ModelError::Timeout,
    ];
    for (i, err) in variants.into_iter().enumerate() {
        let mut store = SessionStore::new();
        let session = format!("s{i}");
        let mut run = runner
            .begin_run(&mut store, "u1", &session, Content::new("user").with_text("q"))
            .expect("run starts");
        run.on_chunk("partial");
        let ev = run.on_model_error(&mut store, err);
        assert_eq!(ev.error, Some(err));
        assert_eq!(run.phase, RunPhase::Failed);
        // A partial response is never written back as a completed turn.
        assert_eq!(store.transcript_len(&run.key), 0);
    }
}
