use websocket_server::utils::unmask_payload;

#[test]
fn mask_twice_restores_payload() {
    let key = [0xde, 0xad, 0xbe, 0xef];
    let payload: Vec<u8> = (0..=255).collect();
    let masked = unmask_payload(&payload, &key);
    assert_ne!(masked, payload);
    assert_eq!(unmask_payload(&masked, &key), payload);
}

#[test]
fn mask_cycles_through_key() {
    let key = [0x01, 0x02, 0x04, 0x08];
    let payload = [0u8; 9];
    assert_eq!(unmask_payload(&payload, &key), vec![1, 2, 4, 8, 1, 2, 4, 8, 1]);
}

#[test]
fn mask_xors_each_byte() {
    let key = [0x37, 0xfa, 0x21, 0x3d];
    assert_eq!(unmask_payload(&[0x7f, 0x9f, 0x4d, 0x51, 0x58], &key), b"Hello".to_vec());
}

#[test]
fn mask_of_empty_payload_is_empty() {
    assert_eq!(unmask_payload(&[], &[1, 2, 3, 4]), Vec::<u8>::new());
}

#[test]
fn mask_with_zero_key_changes_nothing() {
    assert_eq!(unmask_payload(&[5, 6, 7], &[0, 0, 0, 0]), vec![5, 6, 7]);
}

#[test]
fn push_range_appends_the_range() {
    let mut bytes = vec![1, 2];
    websocket_server::utils::byte_buffer::push_range(&mut bytes, &[10, 20, 30, 40], 1, 3);
    assert_eq!(bytes, vec![1, 2, 20, 30]);
    websocket_server::utils::byte_buffer::push_range(&mut bytes, &[10, 20], 2, 2);
    assert_eq!(bytes, vec![1, 2, 20, 30]);
}
