//! Retrieval-augmented generation: the decisions between search, prompt
//! rendering, trimming and completion.
//!
//! The searching, rendering and completing themselves are done by whoever
//! drives the flow. After each piece of work the driver reports what came of
//! it as an event; `rag_step` answers with the next state and the next thing
//! to do.

use crate::model::resolvable;
use crate::model::resolves_to;
use crate::model::Model;
use crate::model::ModelError;
use crate::transform::RequestError;
use vstd::prelude::*;

verus! {

/// The kinds of failure that an operation can end in.
#[derive(Debug, Clone, Copy, PartialEq, Eq, Structural)]
pub enum ErrorKind {
    /// An invalid setting: no column, a schedule that is none, chunk
    /// parameters that cannot be used.
    Config,
    /// A table or column could not be created or written.
    Schema,
    /// A model could not be resolved.
    Model,
    /// The embedding provider failed or answered without a vector.
    Transform,
    /// The chat provider failed, or there is no prompt to send it.
    Provider,
    /// The prompt does not fit the context window, even without context.
    ContextOverflow,
}

/// A prompt, ready to be sent.
#[derive(Debug, Clone, PartialEq, Eq)]
pub struct RenderedPrompt {
    pub sys_rendered: String,
    pub user_rendered: String,
}

impl RenderedPrompt {
    /// A prompt can be sent only if its user part is not empty.
    pub open spec fn wf(&self) -> bool {
        self.user_rendered@.len() > 0
    }

    /// Whether the prompt can be sent.
    pub fn is_valid(&self) -> (valid: bool)
        ensures
            valid == self.wf(),
    {
        !self.user_rendered.as_str().is_empty()
    }
}

/// A single completion that is ready to be asked for.
#[derive(Debug, Clone, PartialEq, Eq)]
pub struct CompletionRequest {
    pub prompt: RenderedPrompt,
    pub model: Model,
    pub api_key: Option<String>,
}

/// The key to call a provider with: the one given explicitly, else the
/// provider's default.
pub fn resolve_api_key(explicit: Option<String>, default: Option<String>) -> (key: Option<String>)
    ensures
        key == (if explicit is Some {
            explicit
        } else {
            default
        }),
{
    match explicit {
        Some(key) => Some(key),
        None => default,
    }
}

/// Prepares a completion of `input` alone, without retrieved context: the
/// system part of the prompt is empty, the user part is `input`. An explicit
/// `api_key` is used in place of the provider's `default_key`.
///
/// Fails with `Model` when `model` does not resolve; else with `EmptyInput`
/// when `input` is empty.
pub fn generate(input: &str, model: &str, api_key: Option<String>, default_key: Option<String>) -> (res:
    Result<CompletionRequest, RequestError>)
    ensures
        res is Ok <==> resolvable(model@) && input@.len() > 0,
        res == Err::<CompletionRequest, RequestError>(
            RequestError::Model(ModelError::InvalidFormat),
        ) <==> !resolvable(model@),
        res == Err::<CompletionRequest, RequestError>(RequestError::EmptyInput) <==> (resolvable(
            model@,
        ) && input@.len() == 0),
        res matches Ok(request) ==> {
            &&& request.prompt.wf()
            &&& request.prompt.sys_rendered@ == Seq::<char>::empty()
            &&& request.prompt.user_rendered@ == input@
            &&& resolves_to(model@, request.model@)
            &&& request.api_key == (if api_key is Some {
                api_key
            } else {
                default_key
            })
        },
{
    let model = match Model::new(model) {
        Ok(model) => model,
        Err(e) => {
            return Err(RequestError::Model(e));
        },
    };
    if input.is_empty() {
        return Err(RequestError::EmptyInput);
    }
    let prompt = RenderedPrompt {
        sys_rendered: String::new(),
        user_rendered: String::from_str(input),
    };
    Ok(CompletionRequest { prompt, model, api_key: resolve_api_key(api_key, default_key) })
}

/// A retrieval-augmented completion that is ready to be started.
#[derive(Debug, Clone, PartialEq, Eq)]
pub struct RagRequest {
    pub agent_name: String,
    pub query: String,
    pub chat_model: Model,
    pub task: String,
    pub api_key: Option<String>,
    pub num_context: usize,
    pub force_trim: bool,
}

impl RagRequest {
    /// The settings of the flow, once the size of the chat model's context
    /// window is known.
    pub fn config(&self, context_window: usize) -> (cfg: RagConfig)
        ensures
            cfg == (RagConfig {
                num_context: self.num_context,
                force_trim: self.force_trim,
                context_window,
            }),
    {
        RagConfig { num_context: self.num_context, force_trim: self.force_trim, context_window }
    }
}

/// Prepares a completion of `query` by `chat_model`, with the `num_context`
/// best records of the agent's job as context and the prompt template of
/// `task`.
///
/// Fails with `Model` when the chat model does not resolve; else with
/// `NegativeCount` when `num_context` is below zero.
pub fn rag(
    agent_name: &str,
    query: &str,
    chat_model: &str,
    task: &str,
    api_key: Option<String>,
    num_context: i32,
    force_trim: bool,
) -> (res: Result<RagRequest, RequestError>)
    ensures
        res is Ok <==> resolvable(chat_model@) && num_context >= 0,
        res == Err::<RagRequest, RequestError>(RequestError::Model(ModelError::InvalidFormat))
            <==> !resolvable(chat_model@),
        res == Err::<RagRequest, RequestError>(RequestError::NegativeCount) <==> (resolvable(
            chat_model@,
        ) && num_context < 0),
        res matches Ok(request) ==> {
            &&& request.agent_name@ == agent_name@
            &&& request.query@ == query@
            &&& resolves_to(chat_model@, request.chat_model@)
            &&& request.task@ == task@
            &&& request.api_key == api_key
            &&& request.num_context == num_context
            &&& request.force_trim == force_trim
        },
{
    let model = match Model::new(chat_model) {
        Ok(model) => model,
        Err(e) => {
            return Err(RequestError::Model(e));
        },
    };
    if num_context < 0 {
        return Err(RequestError::NegativeCount);
    }
    Ok(
        RagRequest {
            agent_name: String::from_str(agent_name),
            query: String::from_str(query),
            chat_model: model,
            task: String::from_str(task),
            api_key,
            num_context: num_context as usize,
            force_trim,
        },
    )
}

/// What a retrieval-augmented completion was asked to do.
#[derive(Debug, Clone, Copy, PartialEq, Eq, Structural)]
pub struct RagConfig {
    /// Number of records to put into the prompt as context.
    pub num_context: usize,
    /// Whether context is dropped until the prompt fits the context window.
    pub force_trim: bool,
    /// Size of the chat model's context window.
    pub context_window: usize,
}

/// Where a retrieval-augmented completion stands.
#[derive(Debug, Clone, Copy, PartialEq, Eq, Structural)]
pub enum RagState {
    Idle,
    Searching,
    /// The prompt is being rendered with the `contexts` best records.
    Rendering { contexts: usize },
    /// The prompt is being rendered again, with `contexts` records left.
    Trimming { contexts: usize },
    Completing,
    Done,
    Failed(ErrorKind),
}

/// What the driver reports.
#[derive(Debug, Clone, Copy, PartialEq, Eq, Structural)]
pub enum RagEvent {
    /// The completion was asked for.
    Start,
    /// The search returned `rows` records, best first.
    Found { rows: usize },
    /// The prompt was rendered: its estimated `size`, in the unit of the
    /// context window, and the length of its user part.
    Rendered { size: usize, user_len: usize },
    /// The provider answered.
    Completed,
    /// The work failed.
    Failure(ErrorKind),
}

/// What the driver is to do next.
#[derive(Debug, Clone, Copy, PartialEq, Eq, Structural)]
pub enum RagAction {
    /// Search for the `num_results` best records.
    Search { num_results: usize },
    /// Render the prompt with the `contexts` best records of those found.
    Render { contexts: usize },
    /// Send the prompt rendered last to the provider.
    Complete,
    /// Hand the provider's answer to the caller.
    Return,
    /// Give up with this error; nothing was persisted.
    Abort(ErrorKind),
    /// The event does not belong to the state; nothing changes.
    Reject,
}

/// Whether a rendered prompt may be sent: its user part is not empty and,
/// where trimming was asked for, it fits the context window.
pub open spec fn sendable(cfg: RagConfig, size: usize, user_len: usize) -> bool {
    user_len > 0 && (cfg.force_trim ==> size <= cfg.context_window)
}

/// The decision on a rendered prompt that holds `contexts` records.
///
/// A prompt that may be sent is sent. Else, where trimming was asked for, the
/// record of lowest rank is dropped and the prompt is rendered again; with
/// no record left to drop, the flow fails with `ContextOverflow`. Without
/// trimming a prompt of any size is sent as it is, but an empty one is not a
/// request: the flow fails with `Provider`.
pub open spec fn after_render(cfg: RagConfig, contexts: usize, size: usize, user_len: usize) -> (
    RagState,
    RagAction,
) {
    if sendable(cfg, size, user_len) {
        (RagState::Completing, RagAction::Complete)
    } else if !cfg.force_trim {
        (RagState::Failed(ErrorKind::Provider), RagAction::Abort(ErrorKind::Provider))
    } else if contexts > 0 {
        (
            RagState::Trimming { contexts: (contexts - 1) as usize },
            RagAction::Render { contexts: (contexts - 1) as usize },
        )
    } else {
        (RagState::Failed(ErrorKind::ContextOverflow), RagAction::Abort(ErrorKind::ContextOverflow))
    }
}

/// Whether the flow has ended.
pub open spec fn terminal(state: RagState) -> bool {
    state is Done || state is Failed
}

/// The state and action that follow `event` in `state`.
pub open spec fn rag_next(cfg: RagConfig, state: RagState, event: RagEvent) -> (
    RagState,
    RagAction,
) {
    match (state, event) {
        (RagState::Idle, RagEvent::Start) => (
            RagState::Searching,
            RagAction::Search { num_results: cfg.num_context },
        ),
        (RagState::Searching, RagEvent::Found { rows }) => {
            let contexts = if rows < cfg.num_context {
                rows
            } else {
                cfg.num_context
            };
            (RagState::Rendering { contexts }, RagAction::Render { contexts })
        },
        (RagState::Rendering { contexts }, RagEvent::Rendered { size, user_len }) => after_render(
            cfg,
            contexts,
            size,
            user_len,
        ),
        (RagState::Trimming { contexts }, RagEvent::Rendered { size, user_len }) => after_render(
            cfg,
            contexts,
            size,
            user_len,
        ),
        (RagState::Completing, RagEvent::Completed) => (RagState::Done, RagAction::Return),
        (_, RagEvent::Failure(kind)) => if terminal(state) {
            (state, RagAction::Reject)
        } else {
            (RagState::Failed(kind), RagAction::Abort(kind))
        },
        _ => (state, RagAction::Reject),
    }
}

/// Decides on a rendered prompt that holds `contexts` records.
pub fn decide_after_render(cfg: &RagConfig, contexts: usize, size: usize, user_len: usize) -> (res: (
    RagState,
    RagAction,
))
    ensures
        res == after_render(*cfg, contexts, size, user_len),
{
    if user_len > 0 && (!cfg.force_trim || size <= cfg.context_window) {
        (RagState::Completing, RagAction::Complete)
    } else if !cfg.force_trim {
        (RagState::Failed(ErrorKind::Provider), RagAction::Abort(ErrorKind::Provider))
    } else if contexts > 0 {
        (RagState::Trimming { contexts: contexts - 1 }, RagAction::Render { contexts: contexts - 1 })
    } else {
        (RagState::Failed(ErrorKind::ContextOverflow), RagAction::Abort(ErrorKind::ContextOverflow))
    }
}

/// Takes one step of the flow: the state and the action that follow `event`
/// in `state`.
pub fn rag_step(cfg: &RagConfig, state: RagState, event: RagEvent) -> (res: (RagState, RagAction))
    ensures
        res == rag_next(*cfg, state, event),
{
    match event {
        RagEvent::Failure(kind) => match state {
            RagState::Done => (state, RagAction::Reject),
            RagState::Failed(_) => (state, RagAction::Reject),
            _ => (RagState::Failed(kind), RagAction::Abort(kind)),
        },
        RagEvent::Start => match state {
            RagState::Idle => (
                RagState::Searching,
                RagAction::Search { num_results: cfg.num_context },
            ),
            _ => (state, RagAction::Reject),
        },
        RagEvent::Found { rows } => match state {
            RagState::Searching => {
                let contexts: usize = if rows < cfg.num_context {
                    rows
                } else {
                    cfg.num_context
                };
                (RagState::Rendering { contexts }, RagAction::Render { contexts })
            },
            _ => (state, RagAction::Reject),
        },
        RagEvent::Rendered { size, user_len } => match state {
            RagState::Rendering { contexts } => decide_after_render(cfg, contexts, size, user_len),
            RagState::Trimming { contexts } => decide_after_render(cfg, contexts, size, user_len),
            _ => (state, RagAction::Reject),
        },
        RagEvent::Completed => match state {
            RagState::Completing => (RagState::Done, RagAction::Return),
            _ => (state, RagAction::Reject),
        },
    }
}

/// The state of a flow that started idle and was told `events`, in order.
pub open spec fn state_after(cfg: RagConfig, events: Seq<RagEvent>) -> RagState
    decreases events.len(),
{
    if events.len() == 0 {
        RagState::Idle
    } else {
        rag_next(cfg, state_after(cfg, events.drop_last()), events.last()).0
    }
}

/// Whether `event` reports a prompt that may be sent.
pub open spec fn reports_sendable(cfg: RagConfig, event: RagEvent) -> bool {
    match event {
        RagEvent::Rendered { size, user_len } => sendable(cfg, size, user_len),
        _ => false,
    }
}

/// Whether one of `events` reports a prompt that may be sent.
pub open spec fn saw_sendable(cfg: RagConfig, events: Seq<RagEvent>) -> bool {
    exists|k: int| 0 <= k < events.len() && reports_sendable(cfg, #[trigger] events[k])
}

/// The number of records in the prompt that is being rendered, if one is.
pub open spec fn contexts_of(state: RagState) -> Option<usize> {
    match state {
        RagState::Rendering { contexts } => Some(contexts),
        RagState::Trimming { contexts } => Some(contexts),
        _ => None,
    }
}

/// Whatever the driver reports, a flow sends a prompt, and ends well, only
/// after a prompt was rendered whose user part is not empty and which, where
/// trimming was asked for, fits the context window. And no prompt is
/// rendered with more records than were asked for.
pub proof fn lemma_only_sendable_prompts_complete(cfg: RagConfig, events: Seq<RagEvent>)
    ensures
        state_after(cfg, events) is Completing || state_after(cfg, events) is Done ==> saw_sendable(
            cfg,
            events,
        ),
        contexts_of(state_after(cfg, events)) matches Some(contexts) ==> contexts
            <= cfg.num_context,
    decreases events.len(),
{
    if events.len() > 0 {
        let head = events.drop_last();
        lemma_only_sendable_prompts_complete(cfg, head);
        if saw_sendable(cfg, head) {
            let k = choose|k: int| 0 <= k < head.len() && reports_sendable(cfg, #[trigger] head[k]);
            assert(events[k] == head[k]);
        }
        let now = state_after(cfg, events);
        if (now is Completing || now is Done) && !saw_sendable(cfg, head) {
            assert(events[events.len() - 1] == events.last());
        }
    }
}

/// Trimming ends: each time a prompt is rejected, the next one is rendered
/// with one record less, and a prompt without records is never rendered
/// again. A flow fails with `ContextOverflow` on a rendered prompt only when
/// trimming was asked for, no record is left and the prompt may not be sent.
pub proof fn lemma_trimming_drops_one(
    cfg: RagConfig,
    state: RagState,
    size: usize,
    user_len: usize,
)
    requires
        contexts_of(state) is Some,
    ensures
        ({
            let next = rag_next(cfg, state, RagEvent::Rendered { size, user_len });
            let contexts = contexts_of(state)->0;
            &&& next.1 is Render ==> contexts > 0 && next.1 == (RagAction::Render {
                contexts: (contexts - 1) as usize,
            }) && contexts_of(next.0) == Some((contexts - 1) as usize)
            &&& next.1 == RagAction::Complete <==> sendable(cfg, size, user_len)
            &&& next.1 == RagAction::Abort(ErrorKind::ContextOverflow) <==> (cfg.force_trim
                && contexts == 0 && !sendable(cfg, size, user_len))
        }),
{
}

} // verus!
