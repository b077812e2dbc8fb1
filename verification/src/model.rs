//! Model identifiers of the form `provider/model-name`.

use vstd::prelude::*;

verus! {

/// Why a model identifier could not be resolved.
#[derive(Debug, Clone, Copy, PartialEq, Eq, Structural)]
pub enum ModelError {
    /// The identifier is not a provider, a slash and a model name.
    InvalidFormat,
}

/// A model: the provider that serves it and the name by which the provider
/// knows it.
#[derive(Debug, Clone, PartialEq, Eq)]
pub struct Model {
    pub source: String,
    pub name: String,
}

/// Whether `i` is the position of the first slash of `s`.
pub open spec fn first_slash(s: Seq<char>, i: int) -> bool {
    &&& 0 <= i < s.len()
    &&& s[i] == '/'
    &&& forall|j: int| 0 <= j < i ==> #[trigger] s[j] != '/'
}

/// Whether `s` names a provider and a model: there is text before its first
/// slash and text behind it. The form alone is tested: whether a provider of
/// that name exists is known only to whoever calls it.
pub open spec fn resolvable(s: Seq<char>) -> bool {
    exists|i: int| first_slash(s, i) && 0 < i && i + 1 < s.len()
}

/// Whether `model` is what the identifier `s` resolves to: the provider is
/// the text before the first slash of `s`, the name all the text behind it.
pub open spec fn resolves_to(s: Seq<char>, model: (Seq<char>, Seq<char>)) -> bool {
    &&& first_slash(s, model.0.len() as int)
    &&& model.0 == s.take(model.0.len() as int)
    &&& model.1 == s.skip(model.0.len() as int + 1)
}

impl Model {
    /// The provider and the model name, as plain values.
    pub open spec fn view(&self) -> (Seq<char>, Seq<char>) {
        (self.source@, self.name@)
    }

    /// Resolves an identifier such as `provider/model-name`. The provider is
    /// what stands before the first slash; the model name is all that
    /// follows it, further slashes included.
    ///
    /// Fails exactly when the identifier has no slash, or nothing before its
    /// first slash, or nothing behind it. No list of providers is consulted.
    pub fn new(input: &str) -> (res: Result<Model, ModelError>)
        ensures
            res is Ok <==> resolvable(input@),
            res matches Ok(model) ==> resolves_to(input@, model@),
            res is Err ==> res == Err::<Model, ModelError>(ModelError::InvalidFormat),
    {
        let len: usize = input.unicode_len();
        let mut i: usize = 0;
        while i < len && input.get_char(i) != '/'
            invariant
                i <= len,
                len == input@.len(),
                forall|j: int| 0 <= j < i ==> #[trigger] input@[j] != '/',
            decreases len - i,
        {
            i = i + 1;
        }
        if i == 0 || i >= len || len - i < 2 {
            proof {
                assert forall|k: int| first_slash(input@, k) implies !(0 < k && k + 1
                    < input@.len()) by {
                    if i < len {
                        assert(input@[i as int] == '/');
                        assert(k == i);
                    }
                }
            }
            return Err(ModelError::InvalidFormat);
        }
        let source = String::from_str(input.substring_char(0, i));
        let name = String::from_str(input.substring_char(i + 1, len));
        proof {
            assert(first_slash(input@, i as int));
            assert(input@.subrange(0, i as int) =~= input@.take(i as int));
            assert(input@.subrange(i + 1, len as int) =~= input@.skip(i + 1));
        }
        Ok(Model { source, name })
    }

    /// The identifier that resolves to this model.
    pub fn identifier(&self) -> (text: String)
        ensures
            text@ == self.source@ + "/"@ + self.name@,
    {
        self.source.clone().concat("/").concat(self.name.as_str())
    }
}

} // verus!
