use aws_manager::notifications::{
    _build_notification, build_fan_notifications, build_notification, classify, event_of,
    message_text, notification_of, relayed_message, subscriber_connected, welcome_message,
    NotUtf8, Notification, Subscribers, ERROR_WORD,
};
use tokio::sync::mpsc::unbounded_channel;
use tokio::sync::mpsc::UnboundedReceiver;

fn text(s: &str) -> String {
    s.to_string()
}

fn next(rx: &mut UnboundedReceiver<Notification>) -> Option<Notification> {
    rx.try_recv().ok()
}

#[test]
fn subscriber_is_greeted_with_its_identifier() {
    let mut hub = Subscribers::new();
    assert_eq!(hub.next_id(), 1);
    assert_eq!(hub.len(), 0);
    let (tx, mut rx) = unbounded_channel();
    assert_eq!(subscriber_connected(&mut hub, tx), Some(1));
    assert_eq!(next(&mut rx), Some(Notification::Message(text("User ID: 1"))));
    assert_eq!(next(&mut rx), None);
    assert_eq!(hub.len(), 1);
    assert_eq!(hub.id_at(0), 1);
    assert_eq!(hub.next_id(), 2);
    assert!(hub.is_connected(1));
    assert!(!hub.is_connected(2));
}

#[test]
fn identifiers_rise_and_are_not_given_out_again() {
    let mut hub = Subscribers::new();
    let (tx1, rx1) = unbounded_channel();
    let (tx2, mut rx2) = unbounded_channel();
    assert_eq!(hub.connect(tx1), Some(1));
    assert_eq!(hub.connect(tx2), Some(2));
    drop(rx1);
    assert_eq!(build_fan_notifications(text("tick"), &mut hub), vec![false, true]);
    assert_eq!(hub.len(), 1);
    assert_eq!(hub.id_at(0), 2);
    let (tx3, mut rx3) = unbounded_channel();
    assert_eq!(hub.connect(tx3), Some(3));
    assert_eq!(hub.next_id(), 4);
    assert_eq!(next(&mut rx3), Some(Notification::Message(text("User ID: 3"))));
    assert_eq!(next(&mut rx2), Some(Notification::Message(text("User ID: 2"))));
    assert_eq!(next(&mut rx2), Some(Notification::Message(text("\"tick\""))));
}

#[test]
fn closed_subscriber_is_evicted_on_the_next_broadcast() {
    let mut hub = Subscribers::new();
    let (tx1, mut rx1) = unbounded_channel();
    let (tx2, rx2) = unbounded_channel();
    let (tx3, mut rx3) = unbounded_channel();
    hub.connect(tx1);
    hub.connect(tx2);
    hub.connect(tx3);
    assert_eq!(build_fan_notifications(text("one"), &mut hub), vec![true, true, true]);
    assert_eq!(hub.len(), 3);
    drop(rx2);
    assert_eq!(hub.len(), 3);
    assert!(hub.is_connected(2));
    let report = build_fan_notifications(text("two"), &mut hub);
    assert_eq!(report, vec![true, false, true]);
    assert_eq!(hub.len(), 2);
    assert_eq!((hub.id_at(0), hub.id_at(1)), (1, 3));
    assert!(!hub.is_connected(2));
    assert_eq!(build_fan_notifications(text("three"), &mut hub), vec![true, true]);
    for rx in [&mut rx1, &mut rx3] {
        next(rx);
        assert_eq!(next(rx), Some(Notification::Message(text("\"one\""))));
        assert_eq!(next(rx), Some(Notification::Message(text("\"two\""))));
        assert_eq!(next(rx), Some(Notification::Message(text("\"three\""))));
        assert_eq!(next(rx), None);
    }
}

#[test]
fn published_text_goes_out_as_a_json_string_with_its_class() {
    assert_eq!(ERROR_WORD, "error");
    assert_eq!(build_notification("deploy done"), Some(Notification::Message(text("\"deploy done\""))));
    assert_eq!(build_notification("Error: disk full"), Some(Notification::Error(text("\"Error: disk full\""))));
    assert_eq!(build_notification("say \"hi\"\n\\"), Some(Notification::Message(text("\"say \\\"hi\\\"\\n\\\\\""))));
    assert_eq!(build_notification(""), Some(Notification::Message(text("\"\""))));
    assert_eq!(build_notification("tab\tü"), Some(Notification::Message(text("\"tab\\tü\""))));
}

#[test]
fn error_class_is_told_by_the_word_in_any_case() {
    for message in ["error", "ERROR", "Error", "eRrOr", "an error occurred", "3 ERRORS", "terror", "xERRORx"] {
        assert!(classify(message));
    }
    for message in ["", "err", "erro", "er ror", "warning", "ERR0R", "rorre", "errör"] {
        assert!(!classify(message));
    }
    assert_eq!(notification_of("Error", text("p")), Notification::Error(text("p")));
    assert_eq!(notification_of("fine", text("p")), Notification::Message(text("p")));
}

#[test]
fn broadcast_reaches_every_subscriber() {
    let mut hub = Subscribers::new();
    let (tx1, mut rx1) = unbounded_channel();
    let (tx2, mut rx2) = unbounded_channel();
    hub.connect(tx1);
    hub.connect(tx2);
    next(&mut rx1);
    next(&mut rx2);
    assert_eq!(build_fan_notifications(text("an ERROR"), &mut hub), vec![true, true]);
    assert_eq!(next(&mut rx1), Some(Notification::Error(text("\"an ERROR\""))));
    assert_eq!(next(&mut rx2), Some(Notification::Error(text("\"an ERROR\""))));
    assert_eq!(hub.broadcast(&Notification::Message(text("raw"))), vec![true, true]);
    assert_eq!(next(&mut rx1), Some(Notification::Message(text("raw"))));
    assert_eq!(next(&mut rx2), Some(Notification::Message(text("raw"))));
    let mut empty = Subscribers::new();
    assert_eq!(build_fan_notifications(text("nobody"), &mut empty), Vec::<bool>::new());
    assert_eq!(empty.next_id(), 1);
}

#[test]
fn relayed_message_skips_its_sender() {
    let mut hub = Subscribers::new();
    let (tx1, mut rx1) = unbounded_channel();
    let (tx2, mut rx2) = unbounded_channel();
    let (tx3, rx3) = unbounded_channel();
    hub.connect(tx1);
    hub.connect(tx2);
    hub.connect(tx3);
    next(&mut rx1);
    next(&mut rx2);
    drop(rx3);
    assert_eq!(_build_notification(2, text("hello"), &mut hub), vec![true, true, false]);
    assert_eq!(next(&mut rx1), Some(Notification::Message(text("<Subscriber#2>: hello"))));
    assert_eq!(next(&mut rx2), None);
    assert_eq!(hub.len(), 2);
    drop(rx1);
    assert_eq!(hub.broadcast_from(1, &Notification::Message(text("m"))), vec![true, true]);
    assert_eq!(hub.len(), 2);
    assert_eq!(relayed_message(10, "x"), Notification::Message(text("<Subscriber#10>: x")));
}

#[test]
fn retained_are_those_that_took_the_message() {
    let mut hub = Subscribers::new();
    let mut receivers = Vec::new();
    for _ in 0..5 {
        let (tx, rx) = unbounded_channel();
        hub.connect(tx);
        receivers.push(rx);
    }
    hub.retain_delivered(&vec![true, false, false, true, true]);
    assert_eq!(hub.len(), 3);
    assert_eq!((hub.id_at(0), hub.id_at(1), hub.id_at(2)), (1, 4, 5));
    assert_eq!(hub.next_id(), 6);
    hub.retain_delivered(&vec![true, false]);
    assert_eq!(hub.len(), 3);
    hub.retain_delivered(&vec![]);
    assert_eq!(hub.len(), 3);
    hub.retain_delivered(&vec![true, false, true, false, false]);
    assert_eq!(hub.len(), 2);
    assert_eq!((hub.id_at(0), hub.id_at(1)), (1, 5));
    hub.retain_delivered(&vec![false, false]);
    assert_eq!(hub.len(), 0);
    assert_eq!(hub.next_id(), 6);
}

#[test]
fn welcome_carries_the_decimal_identifier() {
    assert_eq!(welcome_message(1), Notification::Message(text("User ID: 1")));
    assert_eq!(welcome_message(0), Notification::Message(text("User ID: 0")));
    assert_eq!(welcome_message(1_234_567_890), Notification::Message(text("User ID: 1234567890")));
    assert_eq!(welcome_message(usize::MAX), Notification::Message(format!("User ID: {}", usize::MAX)));
}

#[test]
fn messages_are_pushed_as_info_or_error_events() {
    assert_eq!(event_of(Notification::Error(text("boom"))), (text("ERROR"), text("boom")));
    assert_eq!(event_of(Notification::Message(text("ok"))), (text("INFO"), text("ok")));
}

#[test]
fn body_of_a_publish_request_must_be_utf8() {
    assert_eq!(message_text(b"plain".to_vec()), Ok(text("plain")));
    assert_eq!(message_text("grüß dich ✓".as_bytes().to_vec()), Ok(text("grüß dich ✓")));
    assert_eq!(message_text(vec![]), Ok(String::new()));
    assert_eq!(message_text(vec![0xff, 0xfe]), Err(NotUtf8));
    assert_eq!(message_text(vec![b'a', 0xc3]), Err(NotUtf8));
    assert_eq!(message_text(vec![0xed, 0xa0, 0x80]), Err(NotUtf8));
}
