//! Shape checks for multiplying two row-major matrices and for the dense
//! layer built on that product; the matrices are described by the lengths
//! of their rows.

use vstd::prelude::*;

verus! {

/// Why two matrices cannot be multiplied, or a dense layer cannot be applied.
#[derive(Debug, Clone, Copy, PartialEq, Eq, Structural)]
pub enum MatrixError {
    /// The left matrix has no rows.
    EmptyLeft,
    /// The right matrix has no rows.
    EmptyRight,
    /// The first row of the left matrix is empty.
    ZeroLeftColumns,
    /// A row of the left matrix differs in length from its first row.
    RaggedLeft,
    /// The first row of the right matrix is empty.
    ZeroRightColumns,
    /// A row of the right matrix differs in length from its first row.
    RaggedRight,
    /// The left matrix's column count differs from the right matrix's row count.
    InnerMismatch { left_columns: usize, right_rows: usize },
    /// The bias vector's length differs from the number of layer outputs.
    BiasMismatch { biases: usize, outputs: usize },
}

/// The dimensions of a valid product: a `rows x inner` matrix times an
/// `inner x columns` matrix gives a `rows x columns` matrix.
#[derive(Debug, Clone, Copy, PartialEq, Eq, Structural)]
pub struct MatmulShape {
    pub rows: usize,
    pub inner: usize,
    pub columns: usize,
}

/// Whether every row has the length of the first.
pub open spec fn rectangular(row_lengths: Seq<usize>) -> bool {
    forall|k: int| 0 <= k < row_lengths.len() ==> #[trigger] row_lengths[k] == row_lengths[0]
}

/// The outcome of checking two matrices, given by their row lengths, for
/// multiplication. The checks run in this order: both have rows, the left
/// one has columns and is rectangular, the right one has columns and is
/// rectangular, and the left column count equals the right row count.
pub open spec fn matmul_shape(a: Seq<usize>, b: Seq<usize>) -> Result<MatmulShape, MatrixError> {
    if a.len() == 0 {
        Err(MatrixError::EmptyLeft)
    } else if b.len() == 0 {
        Err(MatrixError::EmptyRight)
    } else if a[0] == 0 {
        Err(MatrixError::ZeroLeftColumns)
    } else if !rectangular(a) {
        Err(MatrixError::RaggedLeft)
    } else if b[0] == 0 {
        Err(MatrixError::ZeroRightColumns)
    } else if !rectangular(b) {
        Err(MatrixError::RaggedRight)
    } else if a[0] != b.len() {
        Err(MatrixError::InnerMismatch { left_columns: a[0], right_rows: b.len() as usize })
    } else {
        Ok(MatmulShape { rows: a.len() as usize, inner: a[0], columns: b[0] })
    }
}

/// Whether every row has length `len`; returns at the first that does not.
fn all_rows_have_length(row_lengths: &[usize], len: usize) -> (r: bool)
    ensures
        r == forall|k: int| 0 <= k < row_lengths@.len() ==> #[trigger] row_lengths@[k] == len,
{
    let mut i: usize = 0;
    while i < row_lengths.len()
        invariant
            i <= row_lengths@.len(),
            forall|k: int| 0 <= k < i ==> #[trigger] row_lengths@[k] == len,
        decreases row_lengths@.len() - i,
    {
        if row_lengths[i] != len {
            return false;
        }
        i = i + 1;
    }
    true
}

/// Checks that a matrix whose rows have lengths `a_row_lengths` can be
/// multiplied by one whose rows have lengths `b_row_lengths`, and gives the
/// dimensions of the product.
pub fn check_matmul_shapes(a_row_lengths: &[usize], b_row_lengths: &[usize]) -> (r: Result<
    MatmulShape,
    MatrixError,
>)
    ensures
        r == matmul_shape(a_row_lengths@, b_row_lengths@),
{
    if a_row_lengths.len() == 0 {
        return Err(MatrixError::EmptyLeft);
    }
    if b_row_lengths.len() == 0 {
        return Err(MatrixError::EmptyRight);
    }
    let cols_a = a_row_lengths[0];
    if cols_a == 0 {
        return Err(MatrixError::ZeroLeftColumns);
    }
    if !all_rows_have_length(a_row_lengths, cols_a) {
        return Err(MatrixError::RaggedLeft);
    }
    let cols_b = b_row_lengths[0];
    if cols_b == 0 {
        return Err(MatrixError::ZeroRightColumns);
    }
    if !all_rows_have_length(b_row_lengths, cols_b) {
        return Err(MatrixError::RaggedRight);
    }
    if cols_a != b_row_lengths.len() {
        return Err(MatrixError::InnerMismatch { left_columns: cols_a, right_rows: b_row_lengths.len() });
    }
    Ok(MatmulShape { rows: a_row_lengths.len(), inner: cols_a, columns: cols_b })
}

/// The outcome of checking a dense layer: an input row of `input_len`
/// values times weights with rows of lengths `weights`, plus `bias_len`
/// biases, one per output.
pub open spec fn dense_shape(input_len: usize, weights: Seq<usize>, bias_len: usize) -> Result<
    MatmulShape,
    MatrixError,
> {
    match matmul_shape(seq![input_len], weights) {
        Ok(shape) => if shape.columns != bias_len {
            Err(MatrixError::BiasMismatch { biases: bias_len, outputs: shape.columns })
        } else {
            Ok(shape)
        },
        Err(e) => Err(e),
    }
}

/// Checks the shapes of a dense layer applied to one input row: the row
/// (as a one-row matrix) times the weights must be defined, and there must
/// be one bias per output.
pub fn check_dense_shapes(input_len: usize, weight_row_lengths: &[usize], bias_len: usize) -> (r: Result<
    MatmulShape,
    MatrixError,
>)
    ensures
        r == dense_shape(input_len, weight_row_lengths@, bias_len),
        r matches Ok(shape) ==> shape.rows == 1 && shape.inner == input_len,
{
    let input_rows = [input_len];
    let ghost rows_view = seq![input_len];
    assert(input_rows@ =~= rows_view);
    let shape = check_matmul_shapes(input_rows.as_slice(), weight_row_lengths)?;
    if shape.columns != bias_len {
        Err(MatrixError::BiasMismatch { biases: bias_len, outputs: shape.columns })
    } else {
        Ok(shape)
    }
}

/// Two matrices multiply exactly when both have rows, every row of each has
/// the length of its first row, that length is positive, and the left
/// matrix's column count equals the right one's row count; the product is
/// then `a.len() x b[0]` over an inner dimension of `a[0]`. Nothing else
/// about the sizes matters.
pub proof fn lemma_matmul_shape_accepts(a: Seq<usize>, b: Seq<usize>)
    ensures
        matmul_shape(a, b) is Ok <==> (a.len() > 0 && b.len() > 0 && a[0] > 0 && b[0] > 0 && (forall|
            k: int,
        | 0 <= k < a.len() ==> #[trigger] a[k] == a[0]) && (forall|k: int|
            0 <= k < b.len() ==> #[trigger] b[k] == b[0]) && a[0] == b.len()),
        matmul_shape(a, b) is Ok ==> matmul_shape(a, b) == Ok::<MatmulShape, MatrixError>(
            (MatmulShape { rows: a.len() as usize, inner: a[0], columns: b[0] }),
        ),
{
}

/// When the matrices do not multiply, the first failed check in the order
/// left rows, right rows, left columns, left rectangular, right columns,
/// right rectangular, inner sizes is the one reported.
pub proof fn lemma_matmul_first_failure(a: Seq<usize>, b: Seq<usize>)
    ensures
        a.len() == 0 ==> matmul_shape(a, b) == Err::<MatmulShape, MatrixError>(MatrixError::EmptyLeft),
        a.len() > 0 && b.len() == 0 ==> matmul_shape(a, b) == Err::<MatmulShape, MatrixError>(
            MatrixError::EmptyRight,
        ),
        a.len() > 0 && b.len() > 0 && a[0] == 0 ==> matmul_shape(a, b) == Err::<MatmulShape, MatrixError>(
            MatrixError::ZeroLeftColumns,
        ),
        a.len() > 0 && b.len() > 0 && a[0] > 0 && (exists|k: int| 0 <= k < a.len() && #[trigger] a[k]
            != a[0]) ==> matmul_shape(a, b) == Err::<MatmulShape, MatrixError>(MatrixError::RaggedLeft),
        a.len() > 0 && b.len() > 0 && a[0] > 0 && (forall|k: int| 0 <= k < a.len() ==> #[trigger] a[k]
            == a[0]) && b[0] == 0 ==> matmul_shape(a, b) == Err::<MatmulShape, MatrixError>(
            MatrixError::ZeroRightColumns,
        ),
        a.len() > 0 && b.len() > 0 && a[0] > 0 && (forall|k: int| 0 <= k < a.len() ==> #[trigger] a[k]
            == a[0]) && b[0] > 0 && (exists|k: int| 0 <= k < b.len() && #[trigger] b[k] != b[0])
            ==> matmul_shape(a, b) == Err::<MatmulShape, MatrixError>(MatrixError::RaggedRight),
        a.len() > 0 && b.len() > 0 && a[0] > 0 && b[0] > 0 && (forall|k: int|
            0 <= k < a.len() ==> #[trigger] a[k] == a[0]) && (forall|k: int|
            0 <= k < b.len() ==> #[trigger] b[k] == b[0]) && a[0] != b.len() ==> matmul_shape(a, b)
            == Err::<MatmulShape, MatrixError>(
            MatrixError::InnerMismatch { left_columns: a[0], right_rows: b.len() as usize },
        ),
{
}

/// A dense layer applies exactly when the input is non-empty, the weights
/// have one rectangular row per input value with a positive number of
/// outputs, and there is one bias per output; the result is one row of
/// those outputs.
pub proof fn lemma_dense_shape_accepts(input_len: usize, weights: Seq<usize>, bias_len: usize)
    ensures
        dense_shape(input_len, weights, bias_len) is Ok <==> (input_len > 0 && weights.len()
            == input_len && weights[0] > 0 && (forall|k: int|
            0 <= k < weights.len() ==> #[trigger] weights[k] == weights[0]) && bias_len == weights[0]),
        dense_shape(input_len, weights, bias_len) is Ok ==> dense_shape(input_len, weights, bias_len)
            == Ok::<MatmulShape, MatrixError>(
            (MatmulShape { rows: 1, inner: input_len, columns: weights[0] }),
        ),
        matmul_shape(seq![input_len], weights) is Ok && bias_len != weights[0] ==> dense_shape(
            input_len,
            weights,
            bias_len,
        ) == Err::<MatmulShape, MatrixError>(
            MatrixError::BiasMismatch { biases: bias_len, outputs: weights[0] },
        ),
        matmul_shape(seq![input_len], weights) is Err ==> dense_shape(input_len, weights, bias_len)
            == matmul_shape(seq![input_len], weights),
{
    let a = seq![input_len];
    assert(a.len() == 1 && a[0] == input_len);
    lemma_matmul_shape_accepts(a, weights);
    if input_len > 0 {
        assert(forall|k: int| 0 <= k < a.len() ==> #[trigger] a[k] == a[0]);
    }
}

} // verus!
