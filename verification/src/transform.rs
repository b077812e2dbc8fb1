//! Embedding one text: the request that goes to the provider, and the one
//! vector that must come back.

use crate::model::resolvable;
use crate::model::resolves_to;
use crate::model::Model;
use crate::model::ModelError;
use vstd::prelude::*;

verus! {

/// Why a request to a provider cannot be made.
#[derive(Debug, Clone, Copy, PartialEq, Eq, Structural)]
pub enum RequestError {
    /// The model identifier does not resolve.
    Model(ModelError),
    /// There is no text to send.
    EmptyInput,
    /// A number of records below zero was asked for.
    NegativeCount,
    /// No job of the name is registered.
    UnknownJob,
}

/// Why a provider's answer cannot be used.
#[derive(Debug, Clone, Copy, PartialEq, Eq, Structural)]
pub enum TransformError {
    /// The provider returned this many vectors where one was asked for.
    NotOneVector { returned: usize },
    /// The provider's vector has `returned` components where the model
    /// declares `expected`.
    WrongDimension { expected: usize, returned: usize },
}

/// One text to be embedded by one model.
#[derive(Debug, Clone, PartialEq, Eq)]
pub struct EmbeddingRequest {
    pub input: String,
    pub model: Model,
    pub api_key: Option<String>,
}

/// Prepares the embedding of `input` by the model `model_name`.
///
/// Fails with `Model` when the model does not resolve; else with
/// `EmptyInput` when `input` is empty.
pub fn transform_embeddings(input: &str, model_name: &str, api_key: Option<String>) -> (res: Result<
    EmbeddingRequest,
    RequestError,
>)
    ensures
        res is Ok <==> resolvable(model_name@) && input@.len() > 0,
        res == Err::<EmbeddingRequest, RequestError>(RequestError::Model(ModelError::InvalidFormat))
            <==> !resolvable(model_name@),
        res == Err::<EmbeddingRequest, RequestError>(RequestError::EmptyInput) <==> (resolvable(
            model_name@,
        ) && input@.len() == 0),
        res matches Ok(request) ==> {
            &&& request.input@ == input@
            &&& request.input@.len() > 0
            &&& resolves_to(model_name@, request.model@)
            &&& request.api_key == api_key
        },
{
    let model = match Model::new(model_name) {
        Ok(model) => model,
        Err(e) => {
            return Err(RequestError::Model(e));
        },
    };
    if input.is_empty() {
        return Err(RequestError::EmptyInput);
    }
    Ok(EmbeddingRequest { input: String::from_str(input), model, api_key })
}

/// Prepares the embedding of `input` by `model`: another name for
/// `transform_embeddings`.
pub fn encode(input: &str, model: &str, api_key: Option<String>) -> (res: Result<
    EmbeddingRequest,
    RequestError,
>)
    ensures
        res is Ok <==> resolvable(model@) && input@.len() > 0,
        res == Err::<EmbeddingRequest, RequestError>(RequestError::Model(ModelError::InvalidFormat))
            <==> !resolvable(model@),
        res == Err::<EmbeddingRequest, RequestError>(RequestError::EmptyInput) <==> (resolvable(
            model@,
        ) && input@.len() == 0),
        res matches Ok(request) ==> {
            &&& request.input@ == input@
            &&& request.input@.len() > 0
            &&& resolves_to(model@, request.model@)
            &&& request.api_key == api_key
        },
{
    transform_embeddings(input, model, api_key)
}

/// The one vector that a provider returned for one text, for a model that
/// declares vectors of `dimension` components.
///
/// Fails with `NotOneVector` unless the provider returned exactly one
/// vector: none is made up where it returned nothing, and none is picked
/// where it returned several. Fails with `WrongDimension` when the one
/// vector has not `dimension` components. Otherwise the vector is handed on
/// as the provider gave it.
pub fn single_embedding<T>(vectors: Vec<Vec<T>>, dimension: usize) -> (res: Result<
    Vec<T>,
    TransformError,
>)
    ensures
        res is Ok <==> vectors@.len() == 1 && vectors@[0]@.len() == dimension,
        res matches Ok(vector) ==> vector == vectors@[0],
        vectors@.len() != 1 ==> res == Err::<Vec<T>, TransformError>(
            TransformError::NotOneVector { returned: vectors.len() },
        ),
        vectors@.len() == 1 && vectors@[0]@.len() != dimension ==> res == Err::<
            Vec<T>,
            TransformError,
        >(TransformError::WrongDimension { expected: dimension, returned: vectors@[0].len() }),
{
    let mut vectors = vectors;
    let returned: usize = vectors.len();
    if returned != 1 {
        return Err(TransformError::NotOneVector { returned });
    }
    match vectors.pop() {
        Some(vector) => {
            if vector.len() != dimension {
                return Err(
                    TransformError::WrongDimension { expected: dimension, returned: vector.len() },
                );
            }
            Ok(vector)
        },
        None => Err(TransformError::NotOneVector { returned }),
    }
}

} // verus!
