use typst_preview::encoding::rle_encode;

#[test]
fn test_rle_encode() {
    // assert_eq!(rle_encode::<4>(&[0, 0, 0, 0]), &[4, 0, 0, 0, 0]);
    assert_eq!(rle_encode::<4>(&[2, 3, 3, 3, 2, 3, 3, 3]), &[2, 2, 3, 3, 3]);
    assert_eq!(
        rle_encode::<4>(&[2, 3, 3, 3, 2, 3, 3, 3, 1, 1, 4, 5]),
        &[2, 2, 3, 3, 3, 1, 1, 1, 4, 5]
    );
}

#[test]
fn rle_splits_a_run_longer_than_255() {
    let mut input = Vec::new();
    for _ in 0..300 {
        input.extend_from_slice(&[7u8, 8, 9, 10]);
    }
    assert_eq!(
        rle_encode::<4>(&input),
        vec![255u8, 7, 8, 9, 10, 45, 7, 8, 9, 10]
    );
}

#[test]
fn rle_run_of_exactly_255_is_one_record() {
    let mut input = Vec::new();
    for _ in 0..255 {
        input.extend_from_slice(&[1u8, 1, 1, 1]);
    }
    input.extend_from_slice(&[2u8, 2, 2, 2]);
    assert_eq!(
        rle_encode::<4>(&input),
        vec![255u8, 1, 1, 1, 1, 1, 2, 2, 2, 2]
    );
}

#[test]
fn rle_alternating_chunks_are_not_merged() {
    let input = [1u8, 0, 0, 0, 2, 0, 0, 0, 1, 0, 0, 0, 2, 0, 0, 0];
    assert_eq!(
        rle_encode::<4>(&input),
        vec![1u8, 1, 0, 0, 0, 1, 2, 0, 0, 0, 1, 1, 0, 0, 0, 1, 2, 0, 0, 0]
    );
}

#[test]
fn rle_passes_over_bytes_that_fill_no_chunk() {
    // One block of 64 bytes holds two chunks of 24 bytes; the 16 bytes behind
    // them and the tail of 8 bytes hold none.
    let mut input = vec![5u8; 24];
    input.extend_from_slice(&[6u8; 24]);
    input.extend_from_slice(&[9u8; 16]);
    input.extend_from_slice(&[9u8; 8]);
    assert_eq!(input.len(), 72);
    let mut expected = vec![1u8];
    expected.extend_from_slice(&[5u8; 24]);
    expected.push(1);
    expected.extend_from_slice(&[6u8; 24]);
    assert_eq!(rle_encode::<24>(&input), expected);
}

#[test]
fn rle_chunk_longer_than_a_block_gives_one_empty_record() {
    let input: Vec<u8> = (0..128u32).map(|i| i as u8).collect();
    let mut expected = vec![0u8];
    expected.extend_from_slice(&input[0..128]);
    assert_eq!(rle_encode::<128>(&input), expected);
}

#[test]
fn rle_chunks_continue_over_block_borders() {
    // 68 bytes: one block of 16 equal chunks and one more equal chunk in the
    // tail make one run of 17.
    let input = vec![3u8; 68];
    assert_eq!(rle_encode::<4>(&input), vec![17u8, 3, 3, 3, 3]);
}
