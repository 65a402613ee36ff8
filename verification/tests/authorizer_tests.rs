use jam_services::authorizer::{
    accumulate_operand, build_combined_input, refine_output, refine_preimage, AUTH_QUEUE_SIZE,
    HASH_LEN,
};

#[test]
fn combined_input_is_concatenation() {
    assert_eq!(build_combined_input(&[1, 2], &[3, 4, 5]), vec![1, 2, 3, 4, 5]);
    assert_eq!(build_combined_input(&[], &[]), Vec::<u8>::new());
}

#[test]
fn preimage_without_payload_is_input() {
    let input = [7u8; 32];
    assert_eq!(refine_preimage(&input, &[]), input.to_vec());
}

#[test]
fn preimage_with_payload_appends_it() {
    let input = [7u8; 32];
    let mut expected = input.to_vec();
    expected.extend_from_slice(&[1, 2, 3]);
    assert_eq!(refine_preimage(&input, &[1, 2, 3]), expected);
}

#[test]
fn refine_output_is_hash_then_parameter() {
    let digest: [u8; 32] = core::array::from_fn(|i| i as u8);
    let out = refine_output(&digest, &[9, 8, 7, 6]);
    assert_eq!(out.len(), 36);
    assert_eq!(&out[..32], &digest[..]);
    assert_eq!(&out[32..], &[9, 8, 7, 6]);
}

#[test]
fn accumulate_rejects_short_operand() {
    assert!(accumulate_operand(&[0u8; 35]).is_none());
    assert!(accumulate_operand(&[]).is_none());
}

#[test]
fn accumulate_reads_refine_output_at_end_of_operand() {
    let digest: [u8; 32] = core::array::from_fn(|i| (i * 3) as u8);
    let mut operand = vec![0xEEu8; 17];
    operand.extend(refine_output(&digest, &[0x01, 0x02, 0x00, 0x00]));
    let a = accumulate_operand(&operand).expect("long enough");
    assert_eq!(a.record, operand[17..].to_vec());
    assert_eq!(a.service, 0x0201);
    assert_eq!(a.cores, vec![0, 1]);
    assert_eq!(a.queue.len(), AUTH_QUEUE_SIZE * HASH_LEN);
    for entry in a.queue.chunks(HASH_LEN) {
        assert_eq!(entry, &digest[..]);
    }
}

#[test]
fn accumulate_service_is_little_endian() {
    let mut operand = vec![0u8; 32];
    operand.extend_from_slice(&[0x78, 0x56, 0x34, 0x12]);
    assert_eq!(accumulate_operand(&operand).unwrap().service, 0x1234_5678);
}
