use transformer::{
    causal_mask_pattern, check_dense_shapes, check_matmul_shapes, AttentionConfigError,
    EmbeddingError, EmbeddingShape, FfnConfigError, FfnShape, HeadLayout, MatmulShape,
    MatrixError, RopeError, RopeLayout, token_ids_to_i64,
};

#[test]
fn head_layout_rejects_zero_embedding_dimension() {
    assert_eq!(HeadLayout::new(0, 4).err(), Some(AttentionConfigError::ZeroEmbeddingDimension));
    assert_eq!(HeadLayout::new(0, 0).err(), Some(AttentionConfigError::ZeroEmbeddingDimension));
}

#[test]
fn head_layout_rejects_zero_heads() {
    assert_eq!(HeadLayout::new(8, 0).err(), Some(AttentionConfigError::ZeroHeads));
}

#[test]
fn head_layout_rejects_indivisible_heads() {
    assert_eq!(
        HeadLayout::new(10, 3).err(),
        Some(AttentionConfigError::IndivisibleHeads { embedding_dimension: 10, num_heads: 3 })
    );
}

#[test]
fn head_dimension_divides_embedding() {
    let layout = HeadLayout::new(512, 8).unwrap();
    assert_eq!(layout.head_dimension(), 64);
    assert_eq!(layout.num_heads(), 8);
    assert_eq!(layout.embedding_dimension(), 512);
}

#[test]
fn split_heads_example_from_docs() {
    let layout = HeadLayout::new(512, 8).unwrap();
    assert_eq!(layout.split_heads_dims([2, 10, 512]), [2, 8, 10, 64]);
}

#[test]
fn combine_heads_undoes_split() {
    let layout = HeadLayout::new(512, 8).unwrap();
    let split = layout.split_heads_dims([2, 10, 512]);
    assert_eq!(layout.combine_heads_dims(split), [2, 10, 512]);
    assert_eq!(layout.split_heads_dims(layout.combine_heads_dims([3, 8, 5, 64])), [3, 8, 5, 64]);
}

#[test]
fn cross_attention_combines_decoder_length() {
    let layout = HeadLayout::new(12, 3).unwrap();
    assert_eq!(layout.combine_heads_dims([1, 3, 7, 4]), [1, 7, 12]);
}

#[test]
fn causal_mask_of_four() {
    let mask = causal_mask_pattern(4);
    let expected = vec![
        false, true, true, true, //
        false, false, true, true, //
        false, false, false, true, //
        false, false, false, false,
    ];
    assert_eq!(mask, expected);
}

#[test]
fn causal_mask_edge_cases() {
    assert!(causal_mask_pattern(0).is_empty());
    assert_eq!(causal_mask_pattern(1), vec![false]);
}

#[test]
fn embedding_shape_checks_sizes() {
    assert_eq!(EmbeddingShape::new(0, 4).err(), Some(EmbeddingError::ZeroVocabulary));
    assert_eq!(EmbeddingShape::new(0, 0).err(), Some(EmbeddingError::ZeroVocabulary));
    assert_eq!(EmbeddingShape::new(100, 0).err(), Some(EmbeddingError::ZeroDimension));
    let shape = EmbeddingShape::new(100, 128).unwrap();
    assert_eq!(shape.vocab_size(), 100);
    assert_eq!(shape.embedding_dim(), 128);
}

#[test]
fn embedding_checks_tokens() {
    let shape = EmbeddingShape::new(50, 8).unwrap();
    assert_eq!(shape.check_token(49), Ok(()));
    assert_eq!(
        shape.check_token(50),
        Err(EmbeddingError::TokenOutOfRange { token_id: 50, vocab_size: 50 })
    );
    assert_eq!(shape.check_sequence(&[2, 17, 45, 8, 3]), Ok(()));
    assert_eq!(shape.check_sequence(&[]), Err(EmbeddingError::EmptySequence));
    assert_eq!(
        shape.check_sequence(&[2, 70, 45, 60]),
        Err(EmbeddingError::TokenOutOfRange { token_id: 70, vocab_size: 50 })
    );
}

#[test]
fn token_ids_convert_to_i64() {
    assert_eq!(token_ids_to_i64(&[2, 17, 45, 8, 3]), vec![2i64, 17, 45, 8, 3]);
    assert_eq!(token_ids_to_i64(&[]), Vec::<i64>::new());
}

#[test]
fn ffn_shape_checks_sizes_in_order() {
    assert_eq!(FfnShape::new(0, 0, 0).err(), Some(FfnConfigError::ZeroInputSize));
    assert_eq!(FfnShape::new(4, 0, 0).err(), Some(FfnConfigError::ZeroHiddenSize));
    assert_eq!(FfnShape::new(4, 16, 0).err(), Some(FfnConfigError::ZeroOutputSize));
    let shape = FfnShape::new(4, 16, 2).unwrap();
    assert_eq!((shape.input_size(), shape.hidden_size(), shape.output_size()), (4, 16, 2));
}

#[test]
fn rope_layout_checks_sizes() {
    assert_eq!(RopeLayout::new(0, 10).err(), Some(RopeError::ZeroDimension));
    assert_eq!(RopeLayout::new(7, 10).err(), Some(RopeError::OddDimension));
    assert_eq!(RopeLayout::new(8, 0).err(), Some(RopeError::ZeroMaxSequenceLength));
    let layout = RopeLayout::new(8, 10).unwrap();
    assert_eq!(layout.dimension(), 8);
    assert_eq!(layout.max_sequence_length(), 10);
    assert_eq!(layout.pair_count(), 4);
    assert_eq!(layout.pair_coordinates(0), (0, 1));
    assert_eq!(layout.pair_coordinates(3), (6, 7));
}

#[test]
fn rope_checks_vectors_and_sequences() {
    let layout = RopeLayout::new(4, 3).unwrap();
    assert_eq!(layout.check_vector(4, 2), Ok(()));
    assert_eq!(layout.check_vector(5, 2), Err(RopeError::DimensionMismatch { len: 5, dimension: 4 }));
    assert_eq!(
        layout.check_vector(4, 3),
        Err(RopeError::PositionOutOfRange { position: 3, max_sequence_length: 3 })
    );
    assert_eq!(layout.check_vector(5, 9), Err(RopeError::DimensionMismatch { len: 5, dimension: 4 }));
    assert_eq!(layout.check_sequence(3), Ok(()));
    assert_eq!(layout.check_sequence(0), Ok(()));
    assert_eq!(
        layout.check_sequence(4),
        Err(RopeError::SequenceTooLong { len: 4, max_sequence_length: 3 })
    );
    assert_eq!(layout.check_query_key(4, 4, 0), Ok(()));
    assert_eq!(
        layout.check_query_key(3, 5, 0),
        Err(RopeError::QueryDimensionMismatch { len: 3, dimension: 4 })
    );
    assert_eq!(
        layout.check_query_key(4, 5, 0),
        Err(RopeError::KeyDimensionMismatch { len: 5, dimension: 4 })
    );
    assert_eq!(
        layout.check_query_key(4, 4, 7),
        Err(RopeError::PositionOutOfRange { position: 7, max_sequence_length: 3 })
    );
}

#[test]
fn sequence_within_limit_encodes_every_position() {
    let layout = RopeLayout::new(6, 5).unwrap();
    assert_eq!(layout.check_sequence(5), Ok(()));
    for position in 0..5 {
        assert_eq!(layout.check_vector(6, position), Ok(()));
    }
}

#[test]
fn matmul_shapes_accept_compatible_matrices() {
    assert_eq!(
        check_matmul_shapes(&[4], &[4, 4, 4, 4]),
        Ok(MatmulShape { rows: 1, inner: 4, columns: 4 })
    );
    assert_eq!(
        check_matmul_shapes(&[3, 3], &[2, 2, 2]),
        Ok(MatmulShape { rows: 2, inner: 3, columns: 2 })
    );
}

#[test]
fn matmul_shapes_report_first_failure() {
    assert_eq!(check_matmul_shapes(&[], &[]), Err(MatrixError::EmptyLeft));
    assert_eq!(check_matmul_shapes(&[2], &[]), Err(MatrixError::EmptyRight));
    assert_eq!(check_matmul_shapes(&[0, 5], &[1]), Err(MatrixError::ZeroLeftColumns));
    assert_eq!(check_matmul_shapes(&[2, 3], &[0]), Err(MatrixError::RaggedLeft));
    assert_eq!(check_matmul_shapes(&[2, 2], &[0, 1]), Err(MatrixError::ZeroRightColumns));
    assert_eq!(check_matmul_shapes(&[2, 2], &[3, 1]), Err(MatrixError::RaggedRight));
    assert_eq!(
        check_matmul_shapes(&[2, 2], &[3, 3, 3]),
        Err(MatrixError::InnerMismatch { left_columns: 2, right_rows: 3 })
    );
}

#[test]
fn dense_shapes_check_biases() {
    assert_eq!(
        check_dense_shapes(4, &[4, 4, 4, 4], 4),
        Ok(MatmulShape { rows: 1, inner: 4, columns: 4 })
    );
    assert_eq!(
        check_dense_shapes(4, &[4, 4, 4, 4], 3),
        Err(MatrixError::BiasMismatch { biases: 3, outputs: 4 })
    );
    assert_eq!(
        check_dense_shapes(4, &[2, 2, 2], 2),
        Err(MatrixError::InnerMismatch { left_columns: 4, right_rows: 3 })
    );
    assert_eq!(check_dense_shapes(0, &[2], 2), Err(MatrixError::ZeroLeftColumns));
}
