use korneplod::FailPolicy;
use korneplod::ProtocolError;
use korneplod::cipher::SessionCipher;
use korneplod::codec::{body_len, decode_message, encode_message, read_be64};
use korneplod::derive_nonce;
use korneplod::handshake::{
    initiator_check_echo, initiator_derive, initiator_hello, initiator_session, responder_accept,
    responder_check_challenge, responder_session,
};
use korneplod::message::Message;
use korneplod::tag_bytes;

fn receive(cipher: &mut SessionCipher, wire: &[u8]) -> Message {
    let prefix: [u8; 8] = wire[0..8].try_into().unwrap();
    let len = read_be64(&prefix);
    let total = body_len(len).unwrap();
    assert_eq!(wire.len() as u64, 8 + total);
    decode_message(cipher, len, &wire[8..])
}

#[test]
fn derive_nonce_fixed_permutation() {
    let mut secret = [0u8; 32];
    for (i, b) in secret.iter_mut().enumerate() {
        *b = i as u8;
    }
    assert_eq!(derive_nonce(&secret), [15, 19, 1, 10, 23, 30, 26, 27, 4, 31, 8, 5]);
}

#[test]
fn tag_bytes_is_protocol_version() {
    assert_eq!(tag_bytes(), [2u8, 2u8, 8u8]);
}

#[test]
fn fail_policy_decides_abort() {
    assert!(FailPolicy::AbortOnFailure.aborts());
    assert!(!FailPolicy::SkipAndContinue.aborts());
}

#[test]
fn hello_carries_tag_then_key() {
    let (st, hello) = initiator_hello();
    assert_eq!(hello.len(), 3 + 1568);
    assert_eq!(&hello[0..3], &[2u8, 2u8, 8u8]);
    assert_eq!(st.dk.len(), 3168);
}

/// Runs the full no-password handshake over an in-memory "wire" and hands
/// back the two live session ciphers (initiator's, responder's).
fn run_handshake_no_password() -> (SessionCipher, SessionCipher) {
    let (hello_state, hello) = initiator_hello();
    let tag: [u8; 3] = hello[0..3].try_into().unwrap();
    let ek: [u8; 1568] = hello[3..].try_into().unwrap();

    let (resp_pending, cts) = responder_accept(&tag, &ek).unwrap();
    let ct_a: [u8; 1568] = cts[0..1568].try_into().unwrap();
    let ct_b: [u8; 1568] = cts[1568..].try_into().unwrap();

    let (init_pending, challenge) = initiator_derive(hello_state, &ct_a, &ct_b).unwrap();
    let (resp_authed, echo) = responder_check_challenge(resp_pending, &challenge).unwrap();
    let init_authed = initiator_check_echo(init_pending, &echo).unwrap();

    (init_authed.finish(), resp_authed.finish())
}

#[test]
fn dungeon_master_scenario() {
    let (mut client, mut server) = run_handshake_no_password();

    let m = Message::new("i am dungeon master".as_bytes().to_vec(), 56);
    let wire = encode_message(&mut client, &m);
    client.commit();

    let got = receive(&mut server, &wire);
    assert_eq!(got.get_code(), 56);
    assert_eq!(String::from_utf8(got.get_content_vec()).unwrap(), "i am dungeon master");
}

#[test]
fn handshaked_session_works_both_ways() {
    let (mut client, mut server) = run_handshake_no_password();

    let m = Message::new(b"from client".to_vec(), 1);
    let wire = encode_message(&mut client, &m);
    client.commit();
    assert_eq!(receive(&mut server, &wire).get_content(), b"from client");

    let back = Message::new(b"from server".to_vec(), 2);
    let wire_back = encode_message(&mut server, &back);
    server.commit();
    assert_eq!(receive(&mut client, &wire_back).get_content(), b"from server");
}

#[test]
fn password_path_yields_interoperable_sessions() {
    let password = [78u8; 32];

    let (hello_state, hello) = initiator_hello();
    let tag: [u8; 3] = hello[0..3].try_into().unwrap();
    let ek: [u8; 1568] = hello[3..].try_into().unwrap();

    let (resp_pending, cts) = responder_accept(&tag, &ek).unwrap();
    let ct_a: [u8; 1568] = cts[0..1568].try_into().unwrap();
    let ct_b: [u8; 1568] = cts[1568..].try_into().unwrap();

    let (init_pending, challenge) = initiator_derive(hello_state, &ct_a, &ct_b).unwrap();
    let (resp_authed, echo) = responder_check_challenge(resp_pending, &challenge).unwrap();
    let mut init_authed = initiator_check_echo(init_pending, &echo).unwrap();

    let pw_wire = init_authed.encrypt_password(&password);
    let pw_buf: [u8; 32] = pw_wire[..].try_into().unwrap();
    let (reply, mut server) = resp_authed.check_password(&pw_buf, &password).unwrap();
    assert_eq!(reply, password.to_vec());

    let mut client = init_authed.finish();

    let m = Message::new(b"with password".to_vec(), 3);
    let wire = encode_message(&mut client, &m);
    client.commit();
    assert_eq!(receive(&mut server, &wire).get_content(), b"with password");

    let back = Message::new(b"accepted".to_vec(), 4);
    let wire_back = encode_message(&mut server, &back);
    server.commit();
    assert_eq!(receive(&mut client, &wire_back).get_content(), b"accepted");
}

#[test]
fn wrong_password_is_rejected() {
    let (hello_state, hello) = initiator_hello();
    let tag: [u8; 3] = hello[0..3].try_into().unwrap();
    let ek: [u8; 1568] = hello[3..].try_into().unwrap();
    let (resp_pending, cts) = responder_accept(&tag, &ek).unwrap();
    let ct_a: [u8; 1568] = cts[0..1568].try_into().unwrap();
    let ct_b: [u8; 1568] = cts[1568..].try_into().unwrap();
    let (init_pending, challenge) = initiator_derive(hello_state, &ct_a, &ct_b).unwrap();
    let (resp_authed, echo) = responder_check_challenge(resp_pending, &challenge).unwrap();
    let mut init_authed = initiator_check_echo(init_pending, &echo).unwrap();

    let pw_wire = init_authed.encrypt_password(&[78u8; 32]);
    let pw_buf: [u8; 32] = pw_wire[..].try_into().unwrap();
    let r = resp_authed.check_password(&pw_buf, &[79u8; 32]);
    assert!(matches!(r, Err(ProtocolError::Authentication)));
}

#[test]
fn tampered_challenge_is_rejected() {
    let (hello_state, hello) = initiator_hello();
    let tag: [u8; 3] = hello[0..3].try_into().unwrap();
    let ek: [u8; 1568] = hello[3..].try_into().unwrap();
    let (resp_pending, cts) = responder_accept(&tag, &ek).unwrap();
    let ct_a: [u8; 1568] = cts[0..1568].try_into().unwrap();
    let ct_b: [u8; 1568] = cts[1568..].try_into().unwrap();
    let (_init_pending, mut challenge) = initiator_derive(hello_state, &ct_a, &ct_b).unwrap();

    challenge[0] ^= 0xFF;
    let r = responder_check_challenge(resp_pending, &challenge);
    assert!(matches!(r, Err(ProtocolError::ProtocolIntegrity)));
}

#[test]
fn wrong_echo_is_rejected() {
    let secret_a = [1u8; 32];
    let secret_b = [2u8; 32];
    let rand = [3u8; 16];
    let (pending, sent) = initiator_session(secret_a, secret_b, rand);
    let mut echo = sent.clone();
    echo[5] ^= 1;
    let r = initiator_check_echo(pending, &echo);
    assert!(matches!(r, Err(ProtocolError::ProtocolIntegrity)));
}

#[test]
fn matching_echo_is_accepted() {
    let secret_a = [1u8; 32];
    let secret_b = [2u8; 32];
    let rand = [3u8; 16];
    let (pending, sent) = initiator_session(secret_a, secret_b, rand);
    let echo = sent.clone();
    assert!(initiator_check_echo(pending, &echo).is_ok());
}

#[test]
fn bad_tag_is_rejected() {
    let ek = [0u8; 1568];
    let r = responder_accept(&[2u8, 2u8, 9u8], &ek);
    assert!(matches!(r, Err(ProtocolError::ProtocolIntegrity)));
}

#[test]
fn same_secrets_give_matching_challenge_views() {
    // the responder, holding the same secrets, decrypts the initiator's
    // challenge to the protocol tag
    let secret_a = [21u8; 32];
    let secret_b = [22u8; 32];
    let rand = [23u8; 16];
    let (_pending, challenge) = initiator_session(secret_a, secret_b, rand);
    let resp = responder_session(secret_a, secret_b);
    let (_authed, echo) = responder_check_challenge(resp, &challenge).unwrap();
    assert_eq!(echo, challenge);
}
