//! The integer side of multi-head attention: how the embedding dimension is
//! divided among heads, how tensor shapes change when heads are split off
//! and joined again, and which key positions a causal mask hides.
//!
//! Self-attention, masked self-attention and cross-attention share these
//! rules; their projections and score arithmetic run on floating-point
//! tensors outside this crate.

use vstd::prelude::*;

verus! {

/// Why an attention layer cannot be built with the requested sizes.
#[derive(Debug, Clone, Copy, PartialEq, Eq, Structural)]
pub enum AttentionConfigError {
    /// The embedding dimension is zero.
    ZeroEmbeddingDimension,
    /// The number of heads is zero.
    ZeroHeads,
    /// The embedding dimension is not a multiple of the number of heads.
    IndivisibleHeads { embedding_dimension: usize, num_heads: usize },
}

/// The error, if any, that building an attention layer with these sizes
/// reports; the checks run in this order.
pub open spec fn attention_config_error(embedding_dimension: nat, num_heads: nat) -> Option<
    AttentionConfigError,
> {
    if embedding_dimension == 0 {
        Some(AttentionConfigError::ZeroEmbeddingDimension)
    } else if num_heads == 0 {
        Some(AttentionConfigError::ZeroHeads)
    } else if embedding_dimension % num_heads != 0 {
        Some(
            AttentionConfigError::IndivisibleHeads {
                embedding_dimension: embedding_dimension as usize,
                num_heads: num_heads as usize,
            },
        )
    } else {
        None
    }
}

/// How the embedding dimension of an attention layer is divided among its
/// heads. Both sizes are positive and the heads share the dimension evenly.
pub struct HeadLayout {
    embedding_dimension: usize,
    num_heads: usize,
}

/// The shape `[batch, heads, sequence, head_dimension]` that splitting
/// `[batch, sequence, embedding]` into `num_heads` heads produces.
pub open spec fn split_heads_shape(num_heads: nat, dims: Seq<nat>) -> Seq<nat> {
    seq![dims[0], num_heads, dims[1], dims[2] / num_heads]
}

/// The shape `[batch, sequence, heads * head_dimension]` that joining the
/// heads of `[batch, heads, sequence, head_dimension]` produces.
pub open spec fn combine_heads_shape(num_heads: nat, dims: Seq<nat>) -> Seq<nat> {
    seq![dims[0], dims[2], dims[3] * num_heads]
}

/// An array of sizes as a sequence of naturals.
pub open spec fn dims_view<const N: usize>(dims: [usize; N]) -> Seq<nat> {
    dims@.map_values(|d: usize| d as nat)
}

impl HeadLayout {
    #[verifier::type_invariant]
    spec fn even_split(self) -> bool {
        &&& self.embedding_dimension > 0
        &&& self.num_heads > 0
        &&& self.embedding_dimension % self.num_heads == 0
    }

    /// The total embedding dimension.
    pub closed spec fn spec_embedding_dimension(self) -> nat {
        self.embedding_dimension as nat
    }

    /// The number of heads.
    pub closed spec fn spec_num_heads(self) -> nat {
        self.num_heads as nat
    }

    /// Checks the sizes of an attention layer: the embedding dimension and
    /// the number of heads must be positive, and the heads must divide the
    /// dimension evenly.
    pub fn new(embedding_dimension: usize, num_heads: usize) -> (r: Result<Self, AttentionConfigError>)
        ensures
            match r {
                Ok(layout) => {
                    &&& attention_config_error(embedding_dimension as nat, num_heads as nat) is None
                    &&& layout.spec_embedding_dimension() == embedding_dimension
                    &&& layout.spec_num_heads() == num_heads
                },
                Err(e) => attention_config_error(embedding_dimension as nat, num_heads as nat) == Some(e),
            },
    {
        if embedding_dimension == 0 {
            Err(AttentionConfigError::ZeroEmbeddingDimension)
        } else if num_heads == 0 {
            Err(AttentionConfigError::ZeroHeads)
        } else if embedding_dimension % num_heads != 0 {
            Err(AttentionConfigError::IndivisibleHeads { embedding_dimension, num_heads })
        } else {
            Ok(HeadLayout { embedding_dimension, num_heads })
        }
    }

    /// The total embedding dimension.
    pub fn embedding_dimension(&self) -> (r: usize)
        ensures
            r == self.spec_embedding_dimension(),
            r > 0,
    {
        proof {
            use_type_invariant(self);
        }
        self.embedding_dimension
    }

    /// The number of heads.
    pub fn num_heads(&self) -> (r: usize)
        ensures
            r == self.spec_num_heads(),
            r > 0,
    {
        proof {
            use_type_invariant(self);
        }
        self.num_heads
    }

    /// The dimension of each head: the embedding dimension divided by the
    /// number of heads, exactly.
    pub fn head_dimension(&self) -> (r: usize)
        ensures
            r == self.spec_embedding_dimension() / self.spec_num_heads(),
            r * self.spec_num_heads() == self.spec_embedding_dimension(),
            r > 0,
    {
        proof {
            use_type_invariant(self);
            let e = self.embedding_dimension as int;
            let h = self.num_heads as int;
            assert(e == h * (e / h) + e % h) by (nonlinear_arith)
                requires
                    h > 0,
            ;
            assert((e / h) * h == e);
            assert(e / h > 0) by (nonlinear_arith)
                requires
                    e > 0,
                    h > 0,
                    e == h * (e / h),
            ;
        }
        self.embedding_dimension / self.num_heads
    }

    /// The shape after splitting `[batch, sequence, embedding]` into heads:
    /// `[batch, heads, sequence, embedding / heads]`. When the heads divide
    /// the embedding evenly the number of elements is unchanged, which is
    /// what lets the tensor be reshaped.
    pub fn split_heads_dims(&self, dims: [usize; 3]) -> (r: [usize; 4])
        ensures
            dims_view(r) == split_heads_shape(self.spec_num_heads(), dims_view(dims)),
            r[0] == dims[0] && r[1] == self.spec_num_heads() && r[2] == dims[1] && r[3] == dims[2]
                / self.spec_num_heads() as usize,
            (dims[2] as nat) % self.spec_num_heads() == 0 ==> r[0] * r[1] * r[2] * r[3] == dims[0] * dims[1]
                * dims[2],
    {
        proof {
            use_type_invariant(self);
        }
        let h = self.num_heads;
        let r = [dims[0], h, dims[1], dims[2] / h];
        proof {
            assert(dims_view(r) =~= split_heads_shape(self.spec_num_heads(), dims_view(dims)));
            let b = dims[0] as int;
            let s = dims[1] as int;
            let e = dims[2] as int;
            let hh = h as int;
            if e % hh == 0 {
                assert(e == hh * (e / hh) + e % hh) by (nonlinear_arith)
                    requires
                        hh > 0,
                ;
                assert(b * hh * s * (e / hh) == b * s * e) by (nonlinear_arith)
                    requires
                        hh > 0,
                        e % hh == 0,
                        e == hh * (e / hh) + e % hh,
                ;
            }
        }
        r
    }

    /// The shape after joining the heads of
    /// `[batch, heads, sequence, head_dimension]`:
    /// `[batch, sequence, head_dimension * heads]`.
    pub fn combine_heads_dims(&self, dims: [usize; 4]) -> (r: [usize; 3])
        requires
            dims[3] * self.spec_num_heads() <= usize::MAX,
        ensures
            dims_view(r) == combine_heads_shape(self.spec_num_heads(), dims_view(dims)),
            r[0] == dims[0] && r[1] == dims[2] && r[2] == dims[3] * self.spec_num_heads(),
            dims[1] == self.spec_num_heads() ==> r[0] * r[1] * r[2] == dims[0] * dims[1] * dims[2]
                * dims[3],
    {
        let h = self.num_heads;
        let r = [dims[0], dims[2], dims[3] * h];
        proof {
            assert(dims_view(r) =~= combine_heads_shape(self.spec_num_heads(), dims_view(dims)));
            let b = dims[0] as int;
            let s = dims[2] as int;
            let d = dims[3] as int;
            let hh = h as int;
            assert(b * s * (d * hh) == b * hh * s * d) by (nonlinear_arith);
        }
        r
    }
}

/// Splitting the heads off a `[batch, sequence, embedding]` shape whose
/// embedding the heads divide evenly, then joining them again, gives back
/// the original shape.
pub proof fn lemma_combine_after_split(num_heads: nat, dims: Seq<nat>)
    requires
        num_heads > 0,
        dims.len() == 3,
        dims[2] % num_heads == 0,
    ensures
        combine_heads_shape(num_heads, split_heads_shape(num_heads, dims)) == dims,
{
    let e = dims[2] as int;
    let h = num_heads as int;
    assert(e == h * (e / h) + e % h) by (nonlinear_arith)
        requires
            h > 0,
    ;
    assert((e / h) * h == e);
    assert(combine_heads_shape(num_heads, split_heads_shape(num_heads, dims)) =~= dims);
}

/// Joining the heads of a `[batch, heads, sequence, head_dimension]` shape
/// and splitting them off again gives back the original shape.
pub proof fn lemma_split_after_combine(num_heads: nat, dims: Seq<nat>)
    requires
        num_heads > 0,
        dims.len() == 4,
        dims[1] == num_heads,
    ensures
        split_heads_shape(num_heads, combine_heads_shape(num_heads, dims)) == dims,
{
    let d = dims[3] as int;
    let h = num_heads as int;
    assert((d * h) / h == d) by (nonlinear_arith)
        requires
            h > 0,
    ;
    assert(split_heads_shape(num_heads, combine_heads_shape(num_heads, dims)) =~= dims);
}

/// An attention layer is built exactly when the embedding dimension and the
/// number of heads are positive and the heads divide the dimension evenly;
/// otherwise the first of those three conditions that fails is reported.
pub proof fn lemma_attention_sizes_accept(embedding_dimension: nat, num_heads: nat)
    ensures
        attention_config_error(embedding_dimension, num_heads) is None <==> (embedding_dimension > 0
            && num_heads > 0 && embedding_dimension % num_heads == 0),
        embedding_dimension == 0 ==> attention_config_error(embedding_dimension, num_heads) == Some(
            AttentionConfigError::ZeroEmbeddingDimension,
        ),
        embedding_dimension > 0 && num_heads == 0 ==> attention_config_error(
            embedding_dimension,
            num_heads,
        ) == Some(AttentionConfigError::ZeroHeads),
        embedding_dimension > 0 && num_heads > 0 && embedding_dimension % num_heads != 0
            ==> attention_config_error(embedding_dimension, num_heads) matches Some(
            AttentionConfigError::IndivisibleHeads { .. },
        ),
{
}

/// Whether a causal mask hides key position `key` from query position
/// `query`: a query may look at its own position and earlier ones only.
pub open spec fn is_masked(query: int, key: int) -> bool {
    key > query
}

/// The causal mask of a sequence of length `n`, row by row: entry
/// `query * n + key` is `true` when the key position is hidden from the
/// query position, that is when it comes later in the sequence.
pub fn causal_mask_pattern(n: usize) -> (r: Vec<bool>)
    requires
        n * n <= usize::MAX,
    ensures
        r.len() == n * n,
        forall|query: int, key: int|
            0 <= query < n && 0 <= key < n ==> #[trigger] r@[query * n + key] == is_masked(query, key),
        forall|query: int, key: int|
            0 <= query < n && 0 <= key < n ==> (#[trigger] r@[query * n + key] <==> key > query),
{
    let mut r: Vec<bool> = Vec::new();
    let mut i: usize = 0;
    while i < n
        invariant
            i <= n,
            n * n <= usize::MAX,
            r.len() == i * n,
            forall|query: int, key: int|
                0 <= query < i && 0 <= key < n ==> #[trigger] r@[query * n + key] == is_masked(query, key),
        decreases n - i,
    {
        let mut j: usize = 0;
        proof {
            assert(i * n + n <= n * n) by (nonlinear_arith)
                requires
                    i < n,
            ;
        }
        while j < n
            invariant
                i < n,
                j <= n,
                i * n + n <= n * n,
                n * n <= usize::MAX,
                r.len() == i * n + j,
                forall|query: int, key: int|
                    0 <= query < i && 0 <= key < n ==> #[trigger] r@[query * n + key] == is_masked(query, key),
                forall|key: int| 0 <= key < j ==> #[trigger] r@[i * n + key] == is_masked(i as int, key),
            decreases n - j,
        {
            let ghost before = r@;
            r.push(j > i);
            proof {
                assert forall|query: int, key: int|
                    0 <= query < i && 0 <= key < n implies #[trigger] r@[query * n + key] == is_masked(
                        query,
                        key,
                    ) by {
                    assert(query * n + key < i * n) by (nonlinear_arith)
                        requires
                            0 <= query < i,
                            0 <= key < n,
                    ;
                    assert(r@[query * n + key] == before[query * n + key]);
                }
                assert forall|key: int| 0 <= key < j + 1 implies #[trigger] r@[i * n + key] == is_masked(
                    i as int,
                    key,
                ) by {
                    if key < j {
                        assert(r@[i * n + key] == before[i * n + key]);
                    }
                }
            }
            j = j + 1;
        }
        proof {
            assert((i + 1) * n == i * n + n) by (nonlinear_arith);
            assert forall|query: int, key: int|
                0 <= query < i + 1 && 0 <= key < n implies #[trigger] r@[query * n + key] == is_masked(
                    query,
                    key,
                ) by {
                if query == i {
                    assert(r@[i * n + key] == is_masked(i as int, key));
                }
            }
        }
        i = i + 1;
    }
    r
}

} // verus!
