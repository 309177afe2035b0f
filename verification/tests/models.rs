use dothtml_backend::models::shuffle_pending;
use dothtml_backend::models::PendingMessage;

fn messages(count: u128) -> Vec<PendingMessage> {
    (0..count)
        .map(|id| PendingMessage {
            id,
            name: format!("sender {}", id),
            email: format!("sender{}@example.com", id),
            message: format!("message {}", id),
        })
        .collect()
}

#[test]
fn shuffling_keeps_every_message() {
    let mut inbox = messages(20);
    shuffle_pending(&mut inbox);
    assert_eq!(inbox.len(), 20);
    let mut ids: Vec<u128> = inbox.iter().map(|message| message.id).collect();
    ids.sort();
    assert_eq!(ids, (0..20).collect::<Vec<u128>>());
    for message in &inbox {
        assert_eq!(message.name, format!("sender {}", message.id));
        assert_eq!(message.email, format!("sender{}@example.com", message.id));
        assert_eq!(message.message, format!("message {}", message.id));
    }
}

#[test]
fn shuffling_changes_the_order_sooner_or_later() {
    let in_order: Vec<u128> = (0..20).collect();
    let mut changed = false;
    for _ in 0..20 {
        let mut inbox = messages(20);
        shuffle_pending(&mut inbox);
        let ids: Vec<u128> = inbox.iter().map(|message| message.id).collect();
        if ids != in_order {
            changed = true;
        }
    }
    assert!(changed);
}

#[test]
fn shuffling_few_messages_keeps_them() {
    let mut none = messages(0);
    shuffle_pending(&mut none);
    assert!(none.is_empty());
    let mut one = messages(1);
    shuffle_pending(&mut one);
    assert_eq!(one.len(), 1);
    assert_eq!(one[0].id, 0);
}

#[test]
fn copy_of_a_message_holds_the_same_values() {
    let inbox = messages(3);
    let copy = inbox[2].clone();
    assert_eq!(copy.id, 2);
    assert_eq!(copy.name, "sender 2");
    assert_eq!(copy.email, "sender2@example.com");
    assert_eq!(copy.message, "message 2");
}
