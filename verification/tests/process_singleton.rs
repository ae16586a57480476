use shiba_preview::persistent::DataDir;
use shiba_preview::process_singleton::{decode_length, encode, ProcessSingleton, MAX_MESSAGE_SIZE};

#[test]
fn framed_message_announces_its_length() {
    let payload = br#"{"watched":["/a"]}"#;
    let frame = encode(payload).unwrap();
    assert_eq!(frame.len(), payload.len() + 4);
    assert_eq!(&frame[..4], &(payload.len() as u32).to_le_bytes());
    assert_eq!(decode_length(&frame[..4]).unwrap(), payload.len());
    assert_eq!(&frame[4..], payload);
}

#[test]
fn send_too_large_payload_is_refused() {
    let payload = vec![b'a'; MAX_MESSAGE_SIZE + 1];
    let err = encode(&payload).unwrap_err();
    assert_eq!(err, "Could not send too large message (16777217 bytes > 16 MiB)");
    assert!(encode(&vec![b'a'; MAX_MESSAGE_SIZE]).is_ok());
}

#[test]
fn receive_too_large_length_is_refused() {
    let too_large_len = (16u32 * 1024 * 1024 + 1).to_le_bytes();
    let err = decode_length(&too_large_len).unwrap_err();
    assert!(err.contains("Could not receive too large message"), "{err}");
    assert_eq!(err, "Could not receive too large message (16777217 bytes > 16 MiB)");
    assert_eq!(decode_length(&(16u32 * 1024 * 1024).to_le_bytes()).unwrap(), MAX_MESSAGE_SIZE);
}

#[test]
fn create_process_singleton() {
    let singleton = ProcessSingleton::with_socket_file(&DataDir::new(Some("/work".to_string())));
    assert!(singleton.can_listen());
    assert_eq!(singleton.name(), Some("/work/singleton.sock"));

    let singleton = ProcessSingleton::with_default_namespace();
    assert!(singleton.can_listen());
    assert_eq!(singleton.name(), Some("shiba.singleton.sock"));

    let singleton = ProcessSingleton::default();
    assert!(!singleton.can_listen());
    assert_eq!(singleton.name(), None);
}

#[test]
fn nop_empty_singleton() {
    let mut singleton = ProcessSingleton::default();
    assert_eq!(singleton.name(), None);
    assert_eq!(singleton.listen(), None);
    assert_eq!(singleton.file_to_remove(), None);
}

#[test]
fn listening_takes_the_socket_and_cleans_up_its_file() {
    let mut listener = ProcessSingleton::with_socket_file(&DataDir::new(Some("/work".to_string())));
    assert_eq!(listener.file_to_remove(), None);
    let (name, stale) = listener.listen().unwrap();
    assert_eq!(name, "/work/singleton.sock");
    assert_eq!(stale.as_deref(), Some("/work/singleton.sock"));
    assert!(!listener.can_listen());
    assert_eq!(listener.file_to_remove(), Some("/work/singleton.sock"));
    assert_eq!(listener.listen(), None);

    let mut ns = ProcessSingleton::with_namespace("shiba.test");
    assert_eq!(ns.listen(), Some(("shiba.test".to_string(), None)));
    assert_eq!(ns.file_to_remove(), None);
}
