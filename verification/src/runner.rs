//! Turn orchestration: session resolution, the streaming state machine,
//! and write-back of completed turns.

use vstd::prelude::*;
use vstd::string::StringExecFns;
use crate::agent::{Agent, AgentView, assembled_context};
use crate::content::{Content, ContentView, PartView, content_views};
use crate::errors::{ConfigError, ModelError, RunError};
use crate::event::{
    Event, EventView, chunk_event, completion_event, error_event, streamed_events,
};
use crate::session::{SessionKey, SessionKeyView, SessionStore, SessionView};

verus! {

/// Handle for an artifact-storage collaborator, attached when present.
/// The core never drives it; it only schedules fan-out once per turn.
pub struct ArtifactHook {}

/// Handle for a long-term-memory collaborator, attached when present.
pub struct MemoryHook {}

/// Which optional collaborator a fan-out call is owed to.
#[derive(Clone, Copy, PartialEq, Eq, Structural, Debug)]
pub enum CollaboratorKind {
    Artifact,
    Memory,
}

/// One owed collaborator invocation, carrying the turn's final content.
pub struct CollaboratorCall {
    pub target: CollaboratorKind,
    pub content: Content,
}

/// Composition root: the application name, the agent to drive, and the
/// optional collaborator plug points (absent by default).
pub struct RunnerConfig {
    pub app_name: String,
    pub agent: Agent,
    pub artifact_service: Option<ArtifactHook>,
    pub memory_service: Option<MemoryHook>,
}

/// Mathematical model of a `RunnerConfig`: the identifiers plus whether
/// each optional collaborator is attached.
#[verifier::ext_equal]
pub struct RunnerConfigView {
    pub app_name: Seq<char>,
    pub agent: AgentView,
    pub artifact_service: bool,
    pub memory_service: bool,
}

impl View for RunnerConfig {
    type V = RunnerConfigView;

    open spec fn view(&self) -> RunnerConfigView {
        RunnerConfigView {
            app_name: self.app_name@,
            agent: self.agent@,
            artifact_service: self.artifact_service is Some,
            memory_service: self.memory_service is Some,
        }
    }
}

/// Where a run stands. A run begins streaming once its session is resolved
/// and its key acquired; it ends `Completed` when the turn was written back,
/// or `Failed` on a model error or cancellation.
#[derive(Clone, Copy, PartialEq, Eq, Structural, Debug)]
pub enum RunPhase {
    Streaming,
    Completed,
    Failed,
}

/// The views of a sequence of strings, elementwise.
pub open spec fn string_views(chunks: Seq<String>) -> Seq<Seq<char>> {
    Seq::new(chunks.len(), |i: int| chunks[i]@)
}

/// Concatenation of incremental chunks, in arrival order.
pub open spec fn concat_chunks(chunks: Seq<Seq<char>>) -> Seq<char>
    decreases chunks.len(),
{
    if chunks.len() == 0 {
        Seq::<char>::empty()
    } else {
        concat_chunks(chunks.drop_last()) + chunks.last()
    }
}

/// The agent reply written back after a successful turn: one content with
/// role "model" carrying the accumulated chunk text.
pub open spec fn response_view(chunks: Seq<Seq<char>>) -> ContentView {
    ContentView { role: "model"@, parts: seq![PartView::Text { text: concat_chunks(chunks) }] }
}

/// The transcript a run starts from: the stored one, or empty for a key
/// not seen before.
pub open spec fn prior_transcript(store: SessionStore, k: SessionKeyView) -> Seq<ContentView> {
    if store.has_session(k) {
        store.transcript_of(k)
    } else {
        Seq::<ContentView>::empty()
    }
}

/// One in-flight turn: the state machine between "session acquired" and a
/// terminal phase. The caller feeds it model output (chunks, an error, or
/// completion) and it emits events in strict order while keeping the
/// session store consistent.
pub struct TurnRun {
    pub key: SessionKey,
    pub agent_name: String,
    pub input: Content,
    pub context: Vec<Content>,
    pub chunks: Vec<String>,
    pub phase: RunPhase,
    pub emitted: Ghost<Seq<EventView>>,
}

impl TurnRun {
    /// The chunk texts received so far.
    pub open spec fn chunk_views(self) -> Seq<Seq<char>> {
        string_views(self.chunks@)
    }

    /// While streaming, the emitted events are exactly one content event
    /// per received chunk, in order.
    pub open spec fn wf(self) -> bool {
        self.phase is Streaming ==> self.emitted@ == streamed_events(
            self.agent_name@,
            self.chunk_views(),
        )
    }

    /// Wraps one incremental model chunk into the next stream event.
    /// The event is yielded immediately; nothing is buffered.
    pub fn on_chunk(&mut self, text: &str) -> (ev: Event)
        requires
            old(self).wf(),
            old(self).phase is Streaming,
        ensures
            final(self).wf(),
            final(self).phase is Streaming,
            final(self).key == old(self).key,
            final(self).agent_name == old(self).agent_name,
            final(self).input == old(self).input,
            final(self).context == old(self).context,
            final(self).chunk_views() == old(self).chunk_views().push(text@),
            ev@ == chunk_event(old(self).agent_name@, text@),
            final(self).emitted@ == old(self).emitted@.push(ev@),
    {
        let ghost pre_chunks = self.chunks@;
        self.chunks.push(text.to_owned());
        proof {
            reveal_strlit("model");
            assert(string_views(self.chunks@) =~= string_views(pre_chunks).push(text@));
        }
        let payload = Content::new("model").with_text(text);
        let ev = Event {
            author: self.agent_name.clone(),
            content: Option::Some(payload),
            turn_complete: false,
            error: Option::None,
        };
        proof {
            assert(ev@.content->Some_0.parts =~= seq![PartView::Text { text: text@ }]);
            assert(ev@.content->Some_0 =~= chunk_event(self.agent_name@, text@).content->Some_0);
            assert(ev@ =~= chunk_event(self.agent_name@, text@));
        }
        self.emitted = Ghost(self.emitted@.push(ev@));
        proof {
            assert(streamed_events(self.agent_name@, string_views(pre_chunks).push(text@))
                =~= streamed_events(self.agent_name@, string_views(pre_chunks)).push(
                chunk_event(self.agent_name@, text@),
            ));
        }
        ev
    }

    /// Surfaces a model failure as the terminal element of the stream: the
    /// run moves to `Failed`, the session lock is released, and the
    /// transcript is left exactly as it was — no partial append.
    pub fn on_model_error(&mut self, store: &mut SessionStore, err: ModelError) -> (ev: Event)
        requires
            old(self).wf(),
            old(self).phase is Streaming,
            old(store).wf(),
            old(store).has_session(old(self).key@),
            old(store).in_flight(old(self).key@),
        ensures
            final(self).wf(),
            final(store).wf(),
            final(self).phase is Failed,
            final(self).key == old(self).key,
            final(self).chunk_views() == old(self).chunk_views(),
            final(store).session_of(old(self).key@) == (SessionView {
                in_flight: false,
                ..old(store).session_of(old(self).key@)
            }),
            forall|k2: SessionKeyView|
                final(store).has_session(k2) == old(store).has_session(k2),
            forall|k2: SessionKeyView|
                k2 != old(self).key@ && old(store).has_session(k2) ==> final(store).session_of(
                    k2,
                ) == old(store).session_of(k2),
            ev@ == error_event(old(self).agent_name@, err),
            final(self).emitted@ == old(self).emitted@.push(ev@),
    {
        store.release(&self.key);
        self.phase = RunPhase::Failed;
        let ev = Event {
            author: self.agent_name.clone(),
            content: Option::None,
            turn_complete: false,
            error: Option::Some(err),
        };
        proof {
            assert(ev@ =~= error_event(self.agent_name@, err));
        }
        self.emitted = Ghost(self.emitted@.push(ev@));
        ev
    }

    /// Completes the turn normally: appends the user input and the
    /// accumulated reply to the transcript as one atomic two-entry turn,
    /// releases the session lock, and emits the closing event.
    pub fn finish(&mut self, store: &mut SessionStore) -> (ev: Event)
        requires
            old(self).wf(),
            old(self).phase is Streaming,
            old(store).wf(),
            old(store).has_session(old(self).key@),
            old(store).in_flight(old(self).key@),
        ensures
            final(self).wf(),
            final(store).wf(),
            final(self).phase is Completed,
            final(self).key == old(self).key,
            final(store).session_of(old(self).key@) == (SessionView {
                transcript: old(store).transcript_of(old(self).key@) + seq![
                    old(self).input@,
                    response_view(old(self).chunk_views()),
                ],
                in_flight: false,
                ..old(store).session_of(old(self).key@)
            }),
            final(store).transcript_of(old(self).key@).len() == old(store).transcript_of(
                old(self).key@,
            ).len() + 2,
            forall|k2: SessionKeyView|
                final(store).has_session(k2) == old(store).has_session(k2),
            forall|k2: SessionKeyView|
                k2 != old(self).key@ && old(store).has_session(k2) ==> final(store).session_of(
                    k2,
                ) == old(store).session_of(k2),
            ev@ == completion_event(old(self).agent_name@),
            final(self).emitted@ == old(self).emitted@.push(ev@),
    {
        let mut joined = String::new();
        let mut i: usize = 0;
        proof {
            assert(string_views(self.chunks@).subrange(0, 0) =~= Seq::<Seq<char>>::empty());
        }
        while i < self.chunks.len()
            invariant
                i <= self.chunks.len(),
                joined@ == concat_chunks(string_views(self.chunks@).subrange(0, i as int)),
            decreases self.chunks.len() - i,
        {
            joined.append(self.chunks[i].as_str());
            proof {
                let all = string_views(self.chunks@);
                let sub = all.subrange(0, i as int);
                let next = all.subrange(0, (i + 1) as int);
                assert(next.last() == all[i as int]);
                assert(next.drop_last() =~= sub);
                assert(concat_chunks(next) == concat_chunks(sub) + all[i as int]);
            }
            i += 1;
        }
        proof {
            assert(string_views(self.chunks@).subrange(0, self.chunks.len() as int)
                =~= string_views(self.chunks@));
        }
        proof {
            reveal_strlit("model");
        }
        let reply = Content::new("model").with_text(joined.as_str());
        proof {
            assert(reply@.parts =~= seq![
                PartView::Text { text: concat_chunks(self.chunk_views()) },
            ]);
            assert(reply@ =~= response_view(self.chunk_views()));
        }
        let user_turn = self.input.duplicate();
        store.append_turn(&self.key, user_turn, reply);
        store.release(&self.key);
        proof {
            assert(store.session_of(self.key@) =~= (SessionView {
                transcript: old(store).transcript_of(self.key@) + seq![
                    self.input@,
                    response_view(self.chunk_views()),
                ],
                in_flight: false,
                ..old(store).session_of(self.key@)
            }));
        }
        self.phase = RunPhase::Completed;
        let ev = Event {
            author: self.agent_name.clone(),
            content: Option::None,
            turn_complete: true,
            error: Option::None,
        };
        proof {
            assert(ev@ =~= completion_event(self.agent_name@));
        }
        self.emitted = Ghost(self.emitted@.push(ev@));
        ev
    }

    /// Abandons the run: the consumer stopped pulling. The session lock is
    /// released promptly, the transcript is left untouched, and no further
    /// event is emitted.
    pub fn cancel(&mut self, store: &mut SessionStore)
        requires
            old(self).wf(),
            old(self).phase is Streaming,
            old(store).wf(),
            old(store).has_session(old(self).key@),
            old(store).in_flight(old(self).key@),
        ensures
            final(self).wf(),
            final(store).wf(),
            final(self).phase is Failed,
            final(self).key == old(self).key,
            final(self).emitted@ == old(self).emitted@,
            final(store).session_of(old(self).key@) == (SessionView {
                in_flight: false,
                ..old(store).session_of(old(self).key@)
            }),
            !final(store).in_flight(old(self).key@),
            forall|k2: SessionKeyView|
                final(store).has_session(k2) == old(store).has_session(k2),
            forall|k2: SessionKeyView|
                k2 != old(self).key@ && old(store).has_session(k2) ==> final(store).session_of(
                    k2,
                ) == old(store).session_of(k2),
    {
        store.release(&self.key);
        self.phase = RunPhase::Failed;
    }
}

/// Orchestration entry point: resolves session state and drives one agent
/// turn, producing the event stream.
pub struct Runner {
    pub config: RunnerConfig,
}

impl Runner {
    /// A usable runner has an application name and a named agent.
    pub open spec fn wf(self) -> bool {
        self.config@.app_name.len() > 0 && self.config@.agent.wf()
    }

    /// The session key one run resolves against.
    pub open spec fn run_key(self, user_id: Seq<char>, session_id: Seq<char>) -> SessionKeyView {
        SessionKeyView { app: self.config@.app_name, user: user_id, session_id }
    }

    /// Validates the composition root; succeeds if and only if the
    /// application name and the agent name are non-empty.
    pub fn new(config: RunnerConfig) -> (r: Result<Runner, ConfigError>)
        ensures
            match r {
                Result::Ok(rn) => rn.config == config && rn.wf(),
                Result::Err(e) => {
                    &&& (config@.app_name.len() == 0 || !config@.agent.wf())
                    &&& e == (if config@.app_name.len() == 0 {
                        ConfigError::EmptyAppName
                    } else {
                        ConfigError::EmptyAgentName
                    })
                },
            },
    {
        if config.app_name.as_str().is_empty() {
            Result::Err(ConfigError::EmptyAppName)
        } else if config.agent.name.as_str().is_empty() {
            Result::Err(ConfigError::EmptyAgentName)
        } else {
            Result::Ok(Runner { config })
        }
    }

    /// The fan-out owed to the optional collaborators once a turn has
    /// completed: one call per attached service, each carrying the turn's
    /// final content. With no services attached the fan-out is empty — a
    /// safe no-op, never an error.
    pub fn collaborator_fanout(&self, final_content: &Content) -> (r: Vec<CollaboratorCall>)
        ensures
            r@.len() == (if self.config@.artifact_service {
                1int
            } else {
                0int
            }) + (if self.config@.memory_service {
                1int
            } else {
                0int
            }),
            forall|i: int| 0 <= i < r@.len() ==> (#[trigger] r@[i]).content@ == final_content@,
            self.config@.artifact_service ==> r@[0].target is Artifact,
            self.config@.memory_service ==> r@[r@.len() - 1].target is Memory,
    {
        let mut out: Vec<CollaboratorCall> = Vec::new();
        if self.config.artifact_service.is_some() {
            out.push(
                CollaboratorCall {
                    target: CollaboratorKind::Artifact,
                    content: final_content.duplicate(),
                },
            );
        }
        if self.config.memory_service.is_some() {
            out.push(
                CollaboratorCall {
                    target: CollaboratorKind::Memory,
                    content: final_content.duplicate(),
                },
            );
        }
        out
    }

    /// Starts one turn. Resolves or creates the session (idempotently),
    /// takes the per-key lock, and hands back the streaming state machine
    /// together with its assembled model context. Fails — before any
    /// stream exists — when another run holds the same key; the store is
    /// then unchanged.
    pub fn begin_run(
        &self,
        store: &mut SessionStore,
        user_id: &str,
        session_id: &str,
        input: Content,
    ) -> (r: Result<TurnRun, RunError>)
        requires
            old(store).wf(),
            self.wf(),
        ensures
            final(store).wf(),
            match r {
                Result::Ok(run) => {
                    &&& !(old(store).has_session(self.run_key(user_id@, session_id@)) && old(
                        store,
                    ).in_flight(self.run_key(user_id@, session_id@)))
                    &&& final(store).has_session(self.run_key(user_id@, session_id@))
                    &&& final(store).in_flight(self.run_key(user_id@, session_id@))
                    &&& final(store).transcript_of(self.run_key(user_id@, session_id@))
                        == prior_transcript(*old(store), self.run_key(user_id@, session_id@))
                    &&& forall|k2: SessionKeyView|
                        k2 != self.run_key(user_id@, session_id@) ==> final(store).has_session(k2)
                            == old(store).has_session(k2)
                    &&& forall|k2: SessionKeyView|
                        k2 != self.run_key(user_id@, session_id@) && old(store).has_session(k2)
                            ==> final(store).session_of(k2) == old(store).session_of(k2)
                    &&& run.wf()
                    &&& run.phase is Streaming
                    &&& run.key@ == self.run_key(user_id@, session_id@)
                    &&& run.agent_name@ == self.config@.agent.name
                    &&& run.input == input
                    &&& run.chunk_views() == Seq::<Seq<char>>::empty()
                    &&& run.emitted@ == Seq::<EventView>::empty()
                    &&& content_views(run.context@) == assembled_context(
                        self.config@.agent.instruction,
                        prior_transcript(*old(store), self.run_key(user_id@, session_id@)),
                        input@,
                    )
                },
                Result::Err(e) => {
                    &&& e == RunError::SessionBusy
                    &&& old(store).has_session(self.run_key(user_id@, session_id@))
                    &&& old(store).in_flight(self.run_key(user_id@, session_id@))
                    &&& *final(store) == *old(store)
                },
            },
    {
        let key = SessionKey {
            app: self.config.app_name.clone(),
            user: user_id.to_owned(),
            session_id: session_id.to_owned(),
        };
        proof {
            assert(key@ =~= self.run_key(user_id@, session_id@));
        }
        let created = store.get_or_create(&key);
        let ok = store.try_acquire(&key);
        if !ok {
            return Result::Err(RunError::SessionBusy);
        }
        let history = store.transcript_snapshot(&key);
        let context = self.config.agent.assemble_context(&history, &input);
        let run = TurnRun {
            key,
            agent_name: self.config.agent.name.clone(),
            input,
            context,
            chunks: Vec::new(),
            phase: RunPhase::Streaming,
            emitted: Ghost(Seq::<EventView>::empty()),
        };
        proof {
            assert(run.chunk_views() =~= Seq::<Seq<char>>::empty());
            assert(streamed_events(run.agent_name@, run.chunk_views()) =~= Seq::<
                EventView,
            >::empty());
        }
        Result::Ok(run)
    }
}

} // verus!
