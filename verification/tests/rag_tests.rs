use vectorize::model::ModelError;
use vectorize::rag::decide_after_render;
use vectorize::rag::generate;
use vectorize::rag::rag;
use vectorize::rag::rag_step;
use vectorize::rag::resolve_api_key;
use vectorize::rag::ErrorKind;
use vectorize::rag::RagAction;
use vectorize::rag::RagConfig;
use vectorize::rag::RagEvent;
use vectorize::rag::RagState;
use vectorize::rag::RenderedPrompt;
use vectorize::transform::encode;
use vectorize::transform::single_embedding;
use vectorize::transform::transform_embeddings;
use vectorize::transform::RequestError;
use vectorize::transform::TransformError;

const CHAT: &str = "tembo/meta-llama/Meta-Llama-3-8B-Instruct";

fn cfg(num_context: usize, force_trim: bool, context_window: usize) -> RagConfig {
    RagConfig { num_context, force_trim, context_window }
}

fn run(cfg: &RagConfig, events: &[RagEvent]) -> (RagState, Vec<RagAction>) {
    let mut state = RagState::Idle;
    let mut actions = Vec::new();
    for event in events {
        let (next, action) = rag_step(cfg, state, *event);
        state = next;
        actions.push(action);
    }
    (state, actions)
}

#[test]
fn explicit_key_goes_over_the_default() {
    let explicit = Some("explicit".to_string());
    let default = Some("default".to_string());
    assert_eq!(resolve_api_key(explicit.clone(), default.clone()), explicit);
    assert_eq!(resolve_api_key(None, default.clone()), default);
    assert_eq!(resolve_api_key(explicit.clone(), None), explicit);
    assert_eq!(resolve_api_key(None, None), None);
}

#[test]
fn generate_sends_the_input_as_the_user_part() {
    let request = generate("tell me", CHAT, None, Some("default".to_string())).unwrap();
    assert_eq!(request.prompt.sys_rendered, "");
    assert_eq!(request.prompt.user_rendered, "tell me");
    assert!(request.prompt.is_valid());
    assert_eq!(request.model.source, "tembo");
    assert_eq!(request.model.name, "meta-llama/Meta-Llama-3-8B-Instruct");
    assert_eq!(request.api_key, Some("default".to_string()));
    let request = generate("tell me", CHAT, Some("mine".to_string()), None).unwrap();
    assert_eq!(request.api_key, Some("mine".to_string()));
}

#[test]
fn generate_refuses_a_bad_model_and_an_empty_input() {
    let bad = Err(RequestError::Model(ModelError::InvalidFormat));
    assert_eq!(generate("tell me", "llama", None, None).map(|r| r.api_key), bad);
    assert_eq!(generate("", "llama", None, None).map(|r| r.api_key), bad);
    assert_eq!(generate("", CHAT, None, None).map(|r| r.api_key), Err(RequestError::EmptyInput));
}

#[test]
fn prompt_without_user_part_is_not_valid() {
    let prompt = RenderedPrompt { sys_rendered: "be brief".to_string(), user_rendered: String::new() };
    assert!(!prompt.is_valid());
}

#[test]
fn rag_request_keeps_what_was_asked() {
    let request = rag("agent", "why?", CHAT, "question_answer", None, 2, true).unwrap();
    assert_eq!(request.agent_name, "agent");
    assert_eq!(request.query, "why?");
    assert_eq!(request.chat_model.source, "tembo");
    assert_eq!(request.task, "question_answer");
    assert_eq!(request.api_key, None);
    assert_eq!(request.num_context, 2);
    assert!(request.force_trim);
    assert_eq!(request.config(4096), cfg(2, true, 4096));
}

#[test]
fn rag_request_refuses_a_bad_model_and_a_negative_count() {
    assert_eq!(
        rag("agent", "why?", "llama", "question_answer", None, -1, false).map(|r| r.num_context),
        Err(RequestError::Model(ModelError::InvalidFormat))
    );
    assert_eq!(
        rag("agent", "why?", CHAT, "question_answer", None, -1, false).map(|r| r.num_context),
        Err(RequestError::NegativeCount)
    );
    assert_eq!(
        rag("agent", "why?", CHAT, "question_answer", None, 0, false).map(|r| r.num_context),
        Ok(0)
    );
}

#[test]
fn flow_without_trimming_runs_straight_through() {
    let cfg = cfg(2, false, 10);
    let (state, actions) = run(
        &cfg,
        &[
            RagEvent::Start,
            RagEvent::Found { rows: 5 },
            RagEvent::Rendered { size: 1000, user_len: 300 },
            RagEvent::Completed,
        ],
    );
    assert_eq!(state, RagState::Done);
    assert_eq!(
        actions,
        vec![
            RagAction::Search { num_results: 2 },
            RagAction::Render { contexts: 2 },
            RagAction::Complete,
            RagAction::Return,
        ]
    );
}

#[test]
fn fewer_rows_than_asked_are_all_rendered() {
    let cfg = cfg(4, false, 10);
    let (state, actions) = run(&cfg, &[RagEvent::Start, RagEvent::Found { rows: 1 }]);
    assert_eq!(state, RagState::Rendering { contexts: 1 });
    assert_eq!(actions[1], RagAction::Render { contexts: 1 });
}

#[test]
fn trimming_drops_one_record_at_a_time_until_the_prompt_fits() {
    let cfg = cfg(3, true, 100);
    let (state, actions) = run(
        &cfg,
        &[
            RagEvent::Start,
            RagEvent::Found { rows: 3 },
            RagEvent::Rendered { size: 250, user_len: 900 },
            RagEvent::Rendered { size: 180, user_len: 600 },
            RagEvent::Rendered { size: 100, user_len: 300 },
            RagEvent::Completed,
        ],
    );
    assert_eq!(state, RagState::Done);
    assert_eq!(
        actions,
        vec![
            RagAction::Search { num_results: 3 },
            RagAction::Render { contexts: 3 },
            RagAction::Render { contexts: 2 },
            RagAction::Render { contexts: 1 },
            RagAction::Complete,
            RagAction::Return,
        ]
    );
}

#[test]
fn tiny_window_ends_in_context_overflow() {
    let cfg = cfg(2, true, 1);
    let (state, actions) = run(
        &cfg,
        &[
            RagEvent::Start,
            RagEvent::Found { rows: 2 },
            RagEvent::Rendered { size: 50, user_len: 200 },
            RagEvent::Rendered { size: 30, user_len: 120 },
            RagEvent::Rendered { size: 10, user_len: 40 },
        ],
    );
    assert_eq!(state, RagState::Failed(ErrorKind::ContextOverflow));
    assert_eq!(
        actions,
        vec![
            RagAction::Search { num_results: 2 },
            RagAction::Render { contexts: 2 },
            RagAction::Render { contexts: 1 },
            RagAction::Render { contexts: 0 },
            RagAction::Abort(ErrorKind::ContextOverflow),
        ]
    );
}

#[test]
fn tiny_window_may_still_fit_without_context() {
    let cfg = cfg(1, true, 10);
    let (state, actions) = run(
        &cfg,
        &[
            RagEvent::Start,
            RagEvent::Found { rows: 1 },
            RagEvent::Rendered { size: 50, user_len: 200 },
            RagEvent::Rendered { size: 10, user_len: 40 },
            RagEvent::Completed,
        ],
    );
    assert_eq!(state, RagState::Done);
    assert_eq!(actions[2], RagAction::Render { contexts: 0 });
    assert_eq!(actions[3], RagAction::Complete);
}

#[test]
fn empty_user_part_is_never_sent() {
    let trimming = cfg(1, true, 100);
    assert_eq!(
        decide_after_render(&trimming, 1, 5, 0),
        (RagState::Trimming { contexts: 0 }, RagAction::Render { contexts: 0 })
    );
    assert_eq!(
        decide_after_render(&trimming, 0, 5, 0),
        (RagState::Failed(ErrorKind::ContextOverflow), RagAction::Abort(ErrorKind::ContextOverflow))
    );
    let plain = cfg(1, false, 100);
    assert_eq!(
        decide_after_render(&plain, 1, 5, 0),
        (RagState::Failed(ErrorKind::Provider), RagAction::Abort(ErrorKind::Provider))
    );
    assert_eq!(
        decide_after_render(&plain, 1, 5000, 1),
        (RagState::Completing, RagAction::Complete)
    );
}

#[test]
fn failure_aborts_from_every_stage_that_is_not_over() {
    let cfg = cfg(2, false, 10);
    let open = [
        RagState::Idle,
        RagState::Searching,
        RagState::Rendering { contexts: 2 },
        RagState::Trimming { contexts: 1 },
        RagState::Completing,
    ];
    for state in open {
        assert_eq!(
            rag_step(&cfg, state, RagEvent::Failure(ErrorKind::Transform)),
            (RagState::Failed(ErrorKind::Transform), RagAction::Abort(ErrorKind::Transform))
        );
    }
    for state in [RagState::Done, RagState::Failed(ErrorKind::Provider)] {
        assert_eq!(
            rag_step(&cfg, state, RagEvent::Failure(ErrorKind::Transform)),
            (state, RagAction::Reject)
        );
    }
}

#[test]
fn events_out_of_place_change_nothing() {
    let cfg = cfg(2, true, 10);
    assert_eq!(rag_step(&cfg, RagState::Idle, RagEvent::Completed), (RagState::Idle, RagAction::Reject));
    assert_eq!(
        rag_step(&cfg, RagState::Searching, RagEvent::Start),
        (RagState::Searching, RagAction::Reject)
    );
    assert_eq!(
        rag_step(&cfg, RagState::Completing, RagEvent::Rendered { size: 1, user_len: 1 }),
        (RagState::Completing, RagAction::Reject)
    );
    assert_eq!(
        rag_step(&cfg, RagState::Rendering { contexts: 1 }, RagEvent::Found { rows: 1 }),
        (RagState::Rendering { contexts: 1 }, RagAction::Reject)
    );
    assert_eq!(rag_step(&cfg, RagState::Done, RagEvent::Start), (RagState::Done, RagAction::Reject));
}

#[test]
fn embedding_request_keeps_input_model_and_key() {
    let request =
        encode("hello", "sentence-transformers/all-MiniLM-L6-v2", Some("k".to_string())).unwrap();
    assert_eq!(request.input, "hello");
    assert_eq!(request.model.source, "sentence-transformers");
    assert_eq!(request.model.name, "all-MiniLM-L6-v2");
    assert_eq!(request.api_key, Some("k".to_string()));
    assert_eq!(
        transform_embeddings("hello", "sentence-transformers/all-MiniLM-L6-v2", None),
        encode("hello", "sentence-transformers/all-MiniLM-L6-v2", None)
    );
}

#[test]
fn embedding_of_nothing_is_refused() {
    assert_eq!(encode("", "openai/ada", None), Err(RequestError::EmptyInput));
    assert_eq!(transform_embeddings("", "openai/ada", None), Err(RequestError::EmptyInput));
    assert_eq!(encode("", "ada", None), Err(RequestError::Model(ModelError::InvalidFormat)));
    assert_eq!(
        transform_embeddings("x", "ada", None),
        Err(RequestError::Model(ModelError::InvalidFormat))
    );
}

#[test]
fn exactly_one_vector_is_taken() {
    let one: Vec<Vec<f64>> = vec![vec![0.25, -1.5, 3.0]];
    assert_eq!(single_embedding(one, 3), Ok(vec![0.25, -1.5, 3.0]));
    let none: Vec<Vec<f64>> = Vec::new();
    assert_eq!(single_embedding(none, 3), Err(TransformError::NotOneVector { returned: 0 }));
    let two: Vec<Vec<f64>> = vec![vec![1.0], vec![2.0]];
    assert_eq!(single_embedding(two, 1), Err(TransformError::NotOneVector { returned: 2 }));
}

#[test]
fn vector_of_another_dimension_is_refused() {
    let short: Vec<Vec<f64>> = vec![vec![0.25, -1.5]];
    assert_eq!(
        single_embedding(short, 384),
        Err(TransformError::WrongDimension { expected: 384, returned: 2 })
    );
    let empty: Vec<Vec<f64>> = vec![vec![]];
    assert_eq!(
        single_embedding(empty.clone(), 1),
        Err(TransformError::WrongDimension { expected: 1, returned: 0 })
    );
    assert_eq!(single_embedding(empty, 0), Ok(vec![]));
}
