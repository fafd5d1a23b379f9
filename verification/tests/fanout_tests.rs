use blackjack::fanout::publish;
use blackjack::protocol::{PublishRequest, PublishTrigger};
use blackjack::registry::Registry;
use tokio::sync::mpsc::error::TryRecvError;

fn event() -> PublishRequest {
    PublishRequest { trigger: PublishTrigger::GameFinished }
}

#[test]
fn publish_reaches_every_attached_connection() {
    let mut reg = Registry::new();
    reg.register("id-a".to_string(), "Alice".to_string());
    reg.register("id-b".to_string(), "Bob".to_string());
    reg.register("id-c".to_string(), "Carol".to_string());

    let (tx_a, mut rx_a) = tokio::sync::mpsc::unbounded_channel::<PublishRequest>();
    let (tx_c, mut rx_c) = tokio::sync::mpsc::unbounded_channel::<PublishRequest>();
    reg.attach_sender("id-a", tx_a);
    // Bob's handshake never completed: no channel attached.
    reg.attach_sender("id-c", tx_c);

    let delivered = publish(&reg, &event(), None);
    assert_eq!(delivered, vec!["id-a".to_string(), "id-c".to_string()]);

    assert_eq!(rx_a.try_recv().unwrap(), event());
    assert_eq!(rx_c.try_recv().unwrap(), event());
    assert!(matches!(rx_a.try_recv(), Err(TryRecvError::Empty)));
}

#[test]
fn publish_survives_a_closed_channel() {
    let mut reg = Registry::new();
    reg.register("id-a".to_string(), "Alice".to_string());
    reg.register("id-b".to_string(), "Bob".to_string());
    reg.register("id-c".to_string(), "Carol".to_string());

    let (tx_a, rx_a) = tokio::sync::mpsc::unbounded_channel::<PublishRequest>();
    let (tx_b, mut rx_b) = tokio::sync::mpsc::unbounded_channel::<PublishRequest>();
    let (tx_c, mut rx_c) = tokio::sync::mpsc::unbounded_channel::<PublishRequest>();
    reg.attach_sender("id-a", tx_a);
    reg.attach_sender("id-b", tx_b);
    reg.attach_sender("id-c", tx_c);

    // Alice's receive half is gone: her channel is closed.
    drop(rx_a);

    let delivered = publish(&reg, &event(), None);
    // Delivery was still attempted for every attached connection, in
    // registry order, and the closed channel kept nobody else waiting.
    assert_eq!(
        delivered,
        vec!["id-a".to_string(), "id-b".to_string(), "id-c".to_string()]
    );
    assert_eq!(rx_b.try_recv().unwrap(), event());
    assert_eq!(rx_c.try_recv().unwrap(), event());
}

#[test]
fn publish_can_exclude_one_identity() {
    let mut reg = Registry::new();
    reg.register("id-a".to_string(), "Alice".to_string());
    reg.register("id-b".to_string(), "Bob".to_string());

    let (tx_a, mut rx_a) = tokio::sync::mpsc::unbounded_channel::<PublishRequest>();
    let (tx_b, mut rx_b) = tokio::sync::mpsc::unbounded_channel::<PublishRequest>();
    reg.attach_sender("id-a", tx_a);
    reg.attach_sender("id-b", tx_b);

    let delivered = publish(&reg, &event(), Some("id-a"));
    assert_eq!(delivered, vec!["id-b".to_string()]);
    assert!(matches!(rx_a.try_recv(), Err(TryRecvError::Empty)));
    assert_eq!(rx_b.try_recv().unwrap(), event());
}

#[test]
fn publish_to_empty_registry_delivers_nothing() {
    let reg = Registry::new();
    let delivered = publish(&reg, &event(), None);
    assert!(delivered.is_empty());
}
