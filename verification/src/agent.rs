//! Agent configuration and prompt-context assembly.

use vstd::prelude::*;
use crate::content::{Content, ContentView, PartView, content_views};
use crate::errors::ConfigError;

verus! {

/// Immutable configuration of one agent: its name, a human-readable
/// description, the system instruction, and the identifier of the bound
/// model backend. Runs are stateless with respect to the agent itself.
pub struct Agent {
    pub name: String,
    pub description: String,
    pub instruction: String,
    pub model: String,
}

/// Mathematical model of an `Agent`.
#[verifier::ext_equal]
pub struct AgentView {
    pub name: Seq<char>,
    pub description: Seq<char>,
    pub instruction: Seq<char>,
    pub model: Seq<char>,
}

impl View for Agent {
    type V = AgentView;

    open spec fn view(&self) -> AgentView {
        AgentView {
            name: self.name@,
            description: self.description@,
            instruction: self.instruction@,
            model: self.model@,
        }
    }
}

impl AgentView {
    /// A usable agent has a name.
    pub open spec fn wf(self) -> bool {
        self.name.len() > 0
    }
}

/// The system instruction rendered as the leading context message.
pub open spec fn instruction_content_view(instruction: Seq<char>) -> ContentView {
    ContentView { role: "system"@, parts: seq![PartView::Text { text: instruction }] }
}

/// The full prompt context of one turn: the system instruction, then the
/// whole session history in order, then the new input. History is never
/// truncated here; any windowing is an explicit collaborator's job.
pub open spec fn assembled_context(
    instruction: Seq<char>,
    history: Seq<ContentView>,
    input: ContentView,
) -> Seq<ContentView> {
    seq![instruction_content_view(instruction)] + history + seq![input]
}

impl Agent {
    /// Assembles the prompt context for one turn.
    pub fn assemble_context(&self, history: &Vec<Content>, input: &Content) -> (r: Vec<Content>)
        ensures
            content_views(r@) == assembled_context(
                self@.instruction,
                content_views(history@),
                input@,
            ),
    {
        let mut out: Vec<Content> = Vec::new();
        proof {
            reveal_strlit("system");
        }
        let ic = Content::new("system").with_text(self.instruction.as_str());
        proof {
            assert(ic@.parts =~= seq![PartView::Text { text: self@.instruction }]);
            assert(ic@ =~= instruction_content_view(self@.instruction));
        }
        out.push(ic);
        proof {
            assert(content_views(out@) =~= seq![instruction_content_view(self@.instruction)]);
        }
        let mut i: usize = 0;
        while i < history.len()
            invariant
                i <= history.len(),
                content_views(out@) == seq![instruction_content_view(self@.instruction)]
                    + content_views(history@).subrange(0, i as int),
            decreases history.len() - i,
        {
            let ghost pre = out@;
            let d = history[i].duplicate();
            out.push(d);
            proof {
                assert(content_views(pre).len() == pre.len());
                assert(pre.len() == i + 1);
                assert(out@ == pre.push(d));
                assert(d@ == content_views(history@)[i as int]);
                let ghost rhs = seq![instruction_content_view(self@.instruction)] + content_views(
                    history@,
                ).subrange(0, (i + 1) as int);
                assert forall|j: int| 0 <= j < i + 2 implies #[trigger] content_views(out@)[j]
                    == rhs[j] by {
                    if 0 <= j < i + 1 {
                        assert(content_views(pre)[j] == (seq![
                            instruction_content_view(self@.instruction),
                        ] + content_views(history@).subrange(0, i as int))[j]);
                    }
                }
                assert(content_views(out@) =~= rhs);
            }
            i += 1;
        }
        proof {
            assert(content_views(history@).subrange(0, history.len() as int) =~= content_views(
                history@,
            ));
        }
        let ghost pre = out@;
        let d = input.duplicate();
        out.push(d);
        proof {
            assert(out@ == pre.push(d));
            assert(content_views(out@) =~= assembled_context(
                self@.instruction,
                content_views(history@),
                input@,
            ));
        }
        out
    }
}

/// Step-by-step construction of an `Agent`, validated at `build`.
pub struct AgentBuilder {
    pub name: String,
    pub description: String,
    pub instruction: String,
    pub model: Option<String>,
}

/// Mathematical model of an `AgentBuilder`.
#[verifier::ext_equal]
pub struct AgentBuilderView {
    pub name: Seq<char>,
    pub description: Seq<char>,
    pub instruction: Seq<char>,
    pub model: Option<Seq<char>>,
}

impl View for AgentBuilder {
    type V = AgentBuilderView;

    open spec fn view(&self) -> AgentBuilderView {
        AgentBuilderView {
            name: self.name@,
            description: self.description@,
            instruction: self.instruction@,
            model: match self.model {
                Option::Some(m) => Option::Some(m@),
                Option::None => Option::None,
            },
        }
    }
}

impl AgentBuilderView {
    /// `build` succeeds exactly on builders with a name and a bound model.
    pub open spec fn buildable(self) -> bool {
        self.name.len() > 0 && self.model is Some
    }

    /// The error `build` reports when it fails.
    pub open spec fn build_error(self) -> ConfigError {
        if self.name.len() == 0 {
            ConfigError::EmptyAgentName
        } else {
            ConfigError::MissingModel
        }
    }
}

impl AgentBuilder {
    /// Starts a builder with the given agent name and everything else unset.
    pub fn new(name: &str) -> (r: AgentBuilder)
        ensures
            r@ == (AgentBuilderView {
                name: name@,
                description: Seq::<char>::empty(),
                instruction: Seq::<char>::empty(),
                model: Option::None,
            }),
    {
        AgentBuilder {
            name: name.to_owned(),
            description: String::new(),
            instruction: String::new(),
            model: Option::None,
        }
    }

    /// Sets the human-readable description.
    pub fn description(self, d: &str) -> (r: AgentBuilder)
        ensures
            r@ == (AgentBuilderView { description: d@, ..self@ }),
    {
        AgentBuilder { description: d.to_owned(), ..self }
    }

    /// Sets the system instruction.
    pub fn instruction(self, text: &str) -> (r: AgentBuilder)
        ensures
            r@ == (AgentBuilderView { instruction: text@, ..self@ }),
    {
        AgentBuilder { instruction: text.to_owned(), ..self }
    }

    /// Binds the model backend identifier.
    pub fn model(self, model: &str) -> (r: AgentBuilder)
        ensures
            r@ == (AgentBuilderView { model: Option::Some(model@), ..self@ }),
    {
        AgentBuilder { model: Option::Some(model.to_owned()), ..self }
    }

    /// Validates the configuration: succeeds if and only if the agent has a
    /// name and a bound model, and then preserves every field exactly.
    pub fn build(self) -> (r: Result<Agent, ConfigError>)
        ensures
            match r {
                Result::Ok(a) => self@.buildable() && a@.name == self@.name && a@.description
                    == self@.description && a@.instruction == self@.instruction && self@.model
                    == Option::Some(a@.model) && a@.wf(),
                Result::Err(e) => !self@.buildable() && e == self@.build_error(),
            },
    {
        if self.name.as_str().is_empty() {
            return Result::Err(ConfigError::EmptyAgentName);
        }
        match self.model {
            Option::None => Result::Err(ConfigError::MissingModel),
            Option::Some(m) => Result::Ok(
                Agent {
                    name: self.name,
                    description: self.description,
                    instruction: self.instruction,
                    model: m,
                },
            ),
        }
    }
}

} // verus!
