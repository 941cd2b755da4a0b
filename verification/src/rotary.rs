//! The integer side of rotary positional encoding: the embedding is read as
//! consecutive coordinate pairs `(x0, x1), (x2, x3), ...`, each rotated by
//! an angle that depends on the token position; this module holds the
//! sizes, the pairing and the checks made before any rotation.

use vstd::prelude::*;

verus! {

/// Why a rotary encoding cannot be built, or cannot encode its input.
#[derive(Debug, Clone, Copy, PartialEq, Eq, Structural)]
pub enum RopeError {
    /// The embedding dimension is zero.
    ZeroDimension,
    /// The embedding dimension is odd, so it does not split into pairs.
    OddDimension,
    /// The maximum sequence length is zero.
    ZeroMaxSequenceLength,
    /// A vector's length differs from the encoding's dimension.
    DimensionMismatch { len: usize, dimension: usize },
    /// A query vector's length differs from the encoding's dimension.
    QueryDimensionMismatch { len: usize, dimension: usize },
    /// A key vector's length differs from the encoding's dimension.
    KeyDimensionMismatch { len: usize, dimension: usize },
    /// A position is not below the maximum sequence length.
    PositionOutOfRange { position: usize, max_sequence_length: usize },
    /// A sequence is longer than the maximum sequence length.
    SequenceTooLong { len: usize, max_sequence_length: usize },
}

/// The error, if any, that building a rotary encoding with these sizes
/// reports (the check on the rotation base comes after these).
pub open spec fn rope_config_error(dimension: nat, max_sequence_length: nat) -> Option<RopeError> {
    if dimension == 0 {
        Some(RopeError::ZeroDimension)
    } else if dimension % 2 != 0 {
        Some(RopeError::OddDimension)
    } else if max_sequence_length == 0 {
        Some(RopeError::ZeroMaxSequenceLength)
    } else {
        None
    }
}

/// The error, if any, of encoding a vector of length `len` at `position`.
pub open spec fn vector_error(dimension: nat, max_sequence_length: nat, len: nat, position: nat) -> Option<
    RopeError,
> {
    if len != dimension {
        Some(RopeError::DimensionMismatch { len: len as usize, dimension: dimension as usize })
    } else if position >= max_sequence_length {
        Some(
            RopeError::PositionOutOfRange {
                position: position as usize,
                max_sequence_length: max_sequence_length as usize,
            },
        )
    } else {
        None
    }
}

/// The error, if any, of encoding a sequence of `len` vectors.
pub open spec fn sequence_error(max_sequence_length: nat, len: nat) -> Option<RopeError> {
    if len > max_sequence_length {
        Some(
            RopeError::SequenceTooLong {
                len: len as usize,
                max_sequence_length: max_sequence_length as usize,
            },
        )
    } else {
        None
    }
}

/// The error, if any, of encoding a query of length `query_len` and a key of
/// length `key_len` at `position`: the query is checked, then the key, then
/// the position.
pub open spec fn query_key_error(
    dimension: nat,
    max_sequence_length: nat,
    query_len: nat,
    key_len: nat,
    position: nat,
) -> Option<RopeError> {
    if query_len != dimension {
        Some(RopeError::QueryDimensionMismatch { len: query_len as usize, dimension: dimension as usize })
    } else if key_len != dimension {
        Some(RopeError::KeyDimensionMismatch { len: key_len as usize, dimension: dimension as usize })
    } else {
        vector_error(dimension, max_sequence_length, query_len, position)
    }
}

/// The sizes of a rotary encoding: an even, positive embedding dimension and
/// a positive maximum sequence length.
pub struct RopeLayout {
    dimension: usize,
    max_sequence_length: usize,
}

impl RopeLayout {
    #[verifier::type_invariant]
    spec fn valid(self) -> bool {
        rope_config_error(self.dimension as nat, self.max_sequence_length as nat) is None
    }

    pub closed spec fn spec_dimension(self) -> nat {
        self.dimension as nat
    }

    pub closed spec fn spec_max_sequence_length(self) -> nat {
        self.max_sequence_length as nat
    }

    /// Checks the sizes of a rotary encoding: a positive dimension, an even
    /// one, and a positive maximum sequence length, in that order.
    pub fn new(dimension: usize, max_sequence_length: usize) -> (r: Result<Self, RopeError>)
        ensures
            match r {
                Ok(layout) => {
                    &&& rope_config_error(dimension as nat, max_sequence_length as nat) is None
                    &&& layout.spec_dimension() == dimension
                    &&& layout.spec_max_sequence_length() == max_sequence_length
                },
                Err(e) => rope_config_error(dimension as nat, max_sequence_length as nat) == Some(e),
            },
    {
        if dimension == 0 {
            Err(RopeError::ZeroDimension)
        } else if dimension % 2 != 0 {
            Err(RopeError::OddDimension)
        } else if max_sequence_length == 0 {
            Err(RopeError::ZeroMaxSequenceLength)
        } else {
            Ok(RopeLayout { dimension, max_sequence_length })
        }
    }

    /// The embedding dimension: positive and even.
    pub fn dimension(&self) -> (r: usize)
        ensures
            r == self.spec_dimension(),
            r > 0,
            r % 2 == 0,
    {
        proof {
            use_type_invariant(self);
        }
        self.dimension
    }

    /// The maximum sequence length: positions run from zero up to it.
    pub fn max_sequence_length(&self) -> (r: usize)
        ensures
            r == self.spec_max_sequence_length(),
            r > 0,
    {
        proof {
            use_type_invariant(self);
        }
        self.max_sequence_length
    }

    /// The number of coordinate pairs, half the dimension.
    pub fn pair_count(&self) -> (r: usize)
        ensures
            r == self.spec_dimension() / 2,
            2 * r == self.spec_dimension(),
    {
        proof {
            use_type_invariant(self);
        }
        self.dimension / 2
    }

    /// The two coordinates that pair `pair_index` rotates: `2 * pair_index`
    /// and the one after it.
    pub fn pair_coordinates(&self, pair_index: usize) -> (r: (usize, usize))
        requires
            pair_index < self.spec_dimension() / 2,
        ensures
            r.0 == 2 * pair_index,
            r.1 == 2 * pair_index + 1,
            r.1 < self.spec_dimension(),
    {
        proof {
            use_type_invariant(self);
        }
        let i = pair_index * 2;
        (i, i + 1)
    }

    /// Checks one vector before it is encoded at `position`: its length
    /// must be the dimension, then the position must be below the maximum
    /// sequence length.
    pub fn check_vector(&self, len: usize, position: usize) -> (r: Result<(), RopeError>)
        ensures
            r == match vector_error(
                self.spec_dimension(),
                self.spec_max_sequence_length(),
                len as nat,
                position as nat,
            ) {
                Some(e) => Err(e),
                None => Ok(()),
            },
    {
        if len != self.dimension {
            Err(RopeError::DimensionMismatch { len, dimension: self.dimension })
        } else if position >= self.max_sequence_length {
            Err(RopeError::PositionOutOfRange { position, max_sequence_length: self.max_sequence_length })
        } else {
            Ok(())
        }
    }

    /// Checks a sequence before it is encoded: it may hold at most the
    /// maximum sequence length of vectors.
    pub fn check_sequence(&self, len: usize) -> (r: Result<(), RopeError>)
        ensures
            r == match sequence_error(self.spec_max_sequence_length(), len as nat) {
                Some(e) => Err(e),
                None => Ok(()),
            },
    {
        if len > self.max_sequence_length {
            Err(RopeError::SequenceTooLong { len, max_sequence_length: self.max_sequence_length })
        } else {
            Ok(())
        }
    }

    /// Checks a query and a key before both are encoded at `position`.
    pub fn check_query_key(&self, query_len: usize, key_len: usize, position: usize) -> (r: Result<
        (),
        RopeError,
    >)
        ensures
            r == match query_key_error(
                self.spec_dimension(),
                self.spec_max_sequence_length(),
                query_len as nat,
                key_len as nat,
                position as nat,
            ) {
                Some(e) => Err(e),
                None => Ok(()),
            },
    {
        if query_len != self.dimension {
            Err(RopeError::QueryDimensionMismatch { len: query_len, dimension: self.dimension })
        } else if key_len != self.dimension {
            Err(RopeError::KeyDimensionMismatch { len: key_len, dimension: self.dimension })
        } else {
            self.check_vector(query_len, position)
        }
    }
}

/// Every coordinate of an even-dimensioned vector belongs to exactly one
/// pair: coordinate `c` is rotated by pair `c / 2`, as its first member when
/// `c` is even and its second when odd.
pub proof fn lemma_pairs_cover(dimension: nat, c: nat)
    requires
        dimension % 2 == 0,
        c < dimension,
    ensures
        c / 2 < dimension / 2,
        c == 2 * (c / 2) || c == 2 * (c / 2) + 1,
{
}

/// A sequence that passes the length check can be encoded position by
/// position: each of its vectors of the right length passes the check made
/// for its position.
pub proof fn lemma_sequence_positions_in_range(
    dimension: nat,
    max_sequence_length: nat,
    len: nat,
    position: nat,
)
    requires
        sequence_error(max_sequence_length, len) is None,
        position < len,
    ensures
        vector_error(dimension, max_sequence_length, dimension, position) is None,
{
}

/// What the checks accept, in terms of the sizes alone: a rotary encoding
/// is built exactly when its dimension is positive and even and its maximum
/// sequence length is positive; a vector is encoded exactly when its length
/// is the dimension and its position is below the maximum sequence length;
/// a sequence exactly when it is no longer than that maximum.
pub proof fn lemma_rope_checks_accept(
    dimension: nat,
    max_sequence_length: nat,
    len: nat,
    position: nat,
)
    ensures
        rope_config_error(dimension, max_sequence_length) is None <==> (dimension > 0 && dimension % 2
            == 0 && max_sequence_length > 0),
        vector_error(dimension, max_sequence_length, len, position) is None <==> (len == dimension
            && position < max_sequence_length),
        sequence_error(max_sequence_length, len) is None <==> len <= max_sequence_length,
        dimension == 0 ==> rope_config_error(dimension, max_sequence_length) == Some(
            RopeError::ZeroDimension,
        ),
        dimension > 0 && dimension % 2 == 1 ==> rope_config_error(dimension, max_sequence_length)
            == Some(RopeError::OddDimension),
        dimension > 0 && dimension % 2 == 0 && max_sequence_length == 0 ==> rope_config_error(
            dimension,
            max_sequence_length,
        ) == Some(RopeError::ZeroMaxSequenceLength),
        len != dimension ==> vector_error(dimension, max_sequence_length, len, position) matches Some(
            RopeError::DimensionMismatch { .. },
        ),
        len == dimension && position >= max_sequence_length ==> vector_error(
            dimension,
            max_sequence_length,
            len,
            position,
        ) matches Some(RopeError::PositionOutOfRange { .. }),
        len > max_sequence_length ==> sequence_error(max_sequence_length, len) matches Some(
            RopeError::SequenceTooLong { .. },
        ),
{
}

/// A query and a key are encoded exactly when both have the dimension's
/// length and the position is below the maximum sequence length; when both
/// lengths are right, the pair check agrees with the check of one vector at
/// that position, and a failure reports the position against the maximum
/// sequence length.
pub proof fn lemma_query_key_check(
    dimension: nat,
    max_sequence_length: nat,
    query_len: nat,
    key_len: nat,
    position: nat,
)
    ensures
        query_key_error(dimension, max_sequence_length, query_len, key_len, position) is None <==> (
        query_len == dimension && key_len == dimension && position < max_sequence_length),
        query_len != dimension ==> query_key_error(
            dimension,
            max_sequence_length,
            query_len,
            key_len,
            position,
        ) matches Some(RopeError::QueryDimensionMismatch { .. }),
        query_len == dimension && key_len != dimension ==> query_key_error(
            dimension,
            max_sequence_length,
            query_len,
            key_len,
            position,
        ) matches Some(RopeError::KeyDimensionMismatch { .. }),
        query_key_error(dimension, max_sequence_length, dimension, dimension, position) == vector_error(
            dimension,
            max_sequence_length,
            dimension,
            position,
        ),
        position >= max_sequence_length && dimension < usize::MAX && position < usize::MAX
            && max_sequence_length < usize::MAX ==> query_key_error(
            dimension,
            max_sequence_length,
            dimension,
            dimension,
            position,
        ) == Some(
            RopeError::PositionOutOfRange {
                position: position as usize,
                max_sequence_length: max_sequence_length as usize,
            },
        ),
{
}

} // verus!
