use signer::network::SentMessages;
use signer::network::SENT_BUFFER_CAPACITY;

fn id(n: u32) -> [u8; 32] {
    let mut id = [0u8; 32];
    id[..4].copy_from_slice(&n.to_le_bytes());
    id
}

#[test]
fn sent_messages_are_not_forwarded_back() {
    let mut sent = SentMessages::new();
    assert!(sent.should_forward(&id(1)));
    sent.dedup_buffer(id(1));
    assert!(sent.contains(&id(1)));
    assert!(!sent.should_forward(&id(1)));
    assert!(sent.should_forward(&id(2)));
}

#[test]
fn the_oldest_id_is_forgotten_beyond_the_capacity() {
    let mut sent = SentMessages::new();
    for n in 0..SENT_BUFFER_CAPACITY as u32 {
        sent.dedup_buffer(id(n));
    }
    assert_eq!(sent.len(), 500);
    assert!(sent.contains(&id(0)));
    sent.dedup_buffer(id(500));
    assert_eq!(sent.len(), 500);
    assert!(!sent.contains(&id(0)));
    assert!(sent.contains(&id(1)));
    assert!(sent.contains(&id(500)));
}

#[test]
fn an_own_message_survives_fewer_than_capacity_later_sends() {
    let mut sent = SentMessages::new();
    sent.dedup_buffer(id(7));
    for n in 1000..(1000 + SENT_BUFFER_CAPACITY as u32 - 1) {
        sent.dedup_buffer(id(n));
    }
    assert!(sent.contains(&id(7)));
    sent.dedup_buffer(id(5000));
    assert!(!sent.contains(&id(7)));
}
