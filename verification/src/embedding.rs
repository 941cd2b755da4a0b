//! The integer side of the token embedding table: its sizes, and which
//! token ids it accepts.

use vstd::prelude::*;

verus! {

/// Why an embedding table cannot be built, or cannot look up a token.
#[derive(Debug, Clone, Copy, PartialEq, Eq, Structural)]
pub enum EmbeddingError {
    /// The vocabulary size is zero.
    ZeroVocabulary,
    /// The embedding dimension is zero.
    ZeroDimension,
    /// The token sequence to embed is empty.
    EmptySequence,
    /// A token id is not below the vocabulary size.
    TokenOutOfRange { token_id: usize, vocab_size: usize },
}

/// The first token id of `ids`, from the front, that is not below `vocab_size`.
pub open spec fn first_token_out_of_range(ids: Seq<usize>, vocab_size: nat) -> Option<usize>
    decreases ids.len(),
{
    if ids.len() == 0 {
        None
    } else if ids[0] >= vocab_size {
        Some(ids[0])
    } else {
        first_token_out_of_range(ids.drop_first(), vocab_size)
    }
}

/// A sequence with no out-of-range id holds only ids below the vocabulary
/// size, each of which a single-token lookup accepts; the reported id is the
/// earliest one in the sequence that is out of range.
pub proof fn lemma_first_token_out_of_range(ids: Seq<usize>, vocab_size: nat)
    ensures
        first_token_out_of_range(ids, vocab_size) is None <==> forall|k: int|
            0 <= k < ids.len() ==> #[trigger] ids[k] < vocab_size,
        first_token_out_of_range(ids, vocab_size) matches Some(token_id) ==> exists|k: int|
            0 <= k < ids.len() && #[trigger] ids[k] == token_id && token_id >= vocab_size && forall|j: int|
                0 <= j < k ==> #[trigger] ids[j] < vocab_size,
    decreases ids.len(),
{
    if ids.len() > 0 {
        let rest = ids.drop_first();
        lemma_first_token_out_of_range(rest, vocab_size);
        if ids[0] < vocab_size {
            if first_token_out_of_range(rest, vocab_size) is None {
                assert forall|k: int| 0 <= k < ids.len() implies #[trigger] ids[k] < vocab_size by {
                    if k > 0 {
                        assert(ids[k] == rest[k - 1]);
                    }
                }
            } else {
                let token_id = first_token_out_of_range(rest, vocab_size)->0;
                let k = choose|k: int|
                    0 <= k < rest.len() && #[trigger] rest[k] == token_id && token_id >= vocab_size
                        && forall|j: int| 0 <= j < k ==> #[trigger] rest[j] < vocab_size;
                assert(ids[k + 1] == token_id);
                assert forall|j: int| 0 <= j < k + 1 implies #[trigger] ids[j] < vocab_size by {
                    if j > 0 {
                        assert(ids[j] == rest[j - 1]);
                    }
                }
            }
        }
    }
}

/// The sizes of an embedding table: `vocab_size` rows of `embedding_dim`
/// values each, both positive.
pub struct EmbeddingShape {
    vocab_size: usize,
    embedding_dim: usize,
}

impl EmbeddingShape {
    #[verifier::type_invariant]
    spec fn positive(self) -> bool {
        self.vocab_size > 0 && self.embedding_dim > 0
    }

    /// The number of tokens in the vocabulary.
    pub closed spec fn spec_vocab_size(self) -> nat {
        self.vocab_size as nat
    }

    /// The length of each embedding vector.
    pub closed spec fn spec_embedding_dim(self) -> nat {
        self.embedding_dim as nat
    }

    /// Checks the sizes of an embedding table: the vocabulary size first,
    /// then the embedding dimension, must be positive.
    pub fn new(vocab_size: usize, embedding_dim: usize) -> (r: Result<Self, EmbeddingError>)
        ensures
            vocab_size == 0 ==> r == Err::<Self, EmbeddingError>(EmbeddingError::ZeroVocabulary),
            vocab_size > 0 && embedding_dim == 0 ==> r == Err::<Self, EmbeddingError>(
                EmbeddingError::ZeroDimension,
            ),
            vocab_size > 0 && embedding_dim > 0 ==> (r matches Ok(shape) && shape.spec_vocab_size()
                == vocab_size && shape.spec_embedding_dim() == embedding_dim),
    {
        if vocab_size == 0 {
            Err(EmbeddingError::ZeroVocabulary)
        } else if embedding_dim == 0 {
            Err(EmbeddingError::ZeroDimension)
        } else {
            Ok(EmbeddingShape { vocab_size, embedding_dim })
        }
    }

    /// The number of tokens in the vocabulary.
    pub fn vocab_size(&self) -> (r: usize)
        ensures
            r == self.spec_vocab_size(),
            r > 0,
    {
        proof {
            use_type_invariant(self);
        }
        self.vocab_size
    }

    /// The length of each embedding vector.
    pub fn embedding_dim(&self) -> (r: usize)
        ensures
            r == self.spec_embedding_dim(),
            r > 0,
    {
        proof {
            use_type_invariant(self);
        }
        self.embedding_dim
    }

    /// Checks that a single token id has a row in the table.
    pub fn check_token(&self, token_id: usize) -> (r: Result<(), EmbeddingError>)
        ensures
            token_id < self.spec_vocab_size() ==> r is Ok,
            token_id >= self.spec_vocab_size() ==> r == Err::<(), EmbeddingError>(
                EmbeddingError::TokenOutOfRange { token_id, vocab_size: self.spec_vocab_size() as usize },
            ),
    {
        if token_id < self.vocab_size {
            Ok(())
        } else {
            Err(EmbeddingError::TokenOutOfRange { token_id, vocab_size: self.vocab_size })
        }
    }

    /// Checks a token sequence before it is embedded: it must not be empty,
    /// and every id must have a row in the table; the first id that has
    /// none is the one reported.
    pub fn check_sequence(&self, token_ids: &[usize]) -> (r: Result<(), EmbeddingError>)
        ensures
            token_ids@.len() == 0 ==> r == Err::<(), EmbeddingError>(EmbeddingError::EmptySequence),
            token_ids@.len() > 0 ==> r == match first_token_out_of_range(
                token_ids@,
                self.spec_vocab_size(),
            ) {
                Some(token_id) => Err(
                    EmbeddingError::TokenOutOfRange {
                        token_id,
                        vocab_size: self.spec_vocab_size() as usize,
                    },
                ),
                None => Ok(()),
            },
            r is Ok <==> token_ids@.len() > 0 && forall|k: int|
                0 <= k < token_ids@.len() ==> #[trigger] token_ids@[k] < self.spec_vocab_size(),
    {
        if token_ids.len() == 0 {
            return Err(EmbeddingError::EmptySequence);
        }
        let mut i: usize = 0;
        assert(token_ids@.skip(0) =~= token_ids@);
        while i < token_ids.len()
            invariant
                i <= token_ids@.len(),
                first_token_out_of_range(token_ids@, self.spec_vocab_size())
                    == first_token_out_of_range(token_ids@.skip(i as int), self.spec_vocab_size()),
                forall|k: int| 0 <= k < i ==> #[trigger] token_ids@[k] < self.spec_vocab_size(),
            decreases token_ids@.len() - i,
        {
            let token_id = token_ids[i];
            assert(token_ids@.skip(i as int)[0] == token_id);
            if token_id >= self.vocab_size {
                return Err(EmbeddingError::TokenOutOfRange { token_id, vocab_size: self.vocab_size });
            }
            assert(token_ids@.skip(i as int).drop_first() =~= token_ids@.skip(i + 1));
            i = i + 1;
        }
        assert(token_ids@.skip(i as int) =~= Seq::<usize>::empty());
        Ok(())
    }
}

/// The token ids as the 64-bit signed integers a tensor of ids holds, each
/// converted with `as i64`.
pub fn token_ids_to_i64(token_ids: &[usize]) -> (r: Vec<i64>)
    ensures
        r@.len() == token_ids@.len(),
        forall|k: int| 0 <= k < token_ids@.len() ==> #[trigger] r@[k] == token_ids@[k] as i64,
        forall|k: int|
            0 <= k < token_ids@.len() && token_ids@[k] <= i64::MAX ==> #[trigger] r@[k] as int
                == token_ids@[k] as int,
{
    let mut r: Vec<i64> = Vec::new();
    let mut i: usize = 0;
    while i < token_ids.len()
        invariant
            i <= token_ids@.len(),
            r@.len() == i,
            forall|k: int| 0 <= k < i ==> #[trigger] r@[k] == token_ids@[k] as i64,
        decreases token_ids@.len() - i,
    {
        r.push(token_ids[i] as i64);
        i = i + 1;
    }
    r
}

} // verus!
