use korneplod::message::Message;

#[test]
fn ser_de_test() {
    let message = Message::new("78".as_bytes().to_vec(), 78);
    let msg = Message::from_bytes(&message.as_bytes()[..]);

    assert_eq!(msg.get_code(), message.get_code());
    assert_eq!(msg.get_content(), message.get_content());
}

#[test]
fn round_trip_empty_content() {
    let message = Message::new(Vec::new(), 0);
    let bytes = message.as_bytes();
    assert_eq!(bytes, vec![0u8]);
    let msg = Message::from_bytes(&bytes[..]);
    assert_eq!(msg.get_code(), 0);
    assert_eq!(msg.get_content(), &[] as &[u8]);
}

#[test]
fn round_trip_extreme_codes() {
    for code in [0u8, 255u8] {
        let message = Message::new(vec![255u8, 0u8, 7u8], code);
        let msg = Message::from_bytes(&message.as_bytes()[..]);
        assert_eq!(msg.get_code(), code);
        assert_eq!(msg.get_content_vec(), vec![255u8, 0u8, 7u8]);
    }
}

#[test]
fn serialized_form_is_code_then_content() {
    let message = Message::new(vec![10u8, 20u8], 3);
    assert_eq!(message.as_bytes(), vec![3u8, 10u8, 20u8]);
    assert_eq!(message.as_bytes_once(), vec![3u8, 10u8, 20u8]);
}
