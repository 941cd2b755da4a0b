//! Verified building blocks of a small Transformer pipeline: the dataset
//! loader's decisions, text trimming and decimal file naming, and the
//! integer shape logic of the attention, embedding, feed-forward and
//! rotary-encoding layers.

mod attention;
mod dataset;
mod embedding;
mod feed_forward;
mod matrix;
mod rotary;
mod text;

pub use attention::{
    attention_config_error, causal_mask_pattern, combine_heads_shape, dims_view, is_masked,
    lemma_attention_sizes_accept, lemma_combine_after_split, lemma_split_after_combine, split_heads_shape, AttentionConfigError,
    HeadLayout,
};
pub use dataset::{
    lemma_file_names_distinct, lemma_file_names_spell_index, make_pair, pair_view, source_file_name, spec_source_file_name,
    spec_target_file_name, target_file_name, DatasetLoader, LoadStep, TranslationPair,
};
pub use embedding::{
    first_token_out_of_range, lemma_first_token_out_of_range, token_ids_to_i64, EmbeddingError,
    EmbeddingShape,
};
pub use feed_forward::{ffn_config_error, lemma_ffn_sizes_accept, FfnConfigError, FfnShape};
pub use matrix::{
    check_dense_shapes, check_matmul_shapes, dense_shape, lemma_dense_shape_accepts,
    lemma_matmul_first_failure, lemma_matmul_shape_accepts, matmul_shape, rectangular, MatmulShape,
    MatrixError,
};
pub use rotary::{
    lemma_pairs_cover, lemma_query_key_check, lemma_rope_checks_accept,
    lemma_sequence_positions_in_range, query_key_error, rope_config_error,
    sequence_error, vector_error, RopeError, RopeLayout,
};
pub use text::{
    decimal_string, decimal_value, digit_char, digit_value, is_decimal_digit, is_white_space,
    lemma_decimal_injective, lemma_decimal_shape, lemma_decimal_value,
    lemma_trim_chars, lemma_trim_end, lemma_trim_keeps_middle, lemma_trim_start, spec_decimal, trim_chars, trim_end_chars,
    trim_start_chars, trim_text,
};
