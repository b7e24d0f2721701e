use schorl::id::{Id, IdScheme, IdempotencyKey};
use schorl::input::testing::RecordingSink;
use schorl::input::{
    ButtonState, Delivery, KeyEvent, KeyboardSink, Keycode, PointerButton, PointerEvent,
    PointerEventKind, PointerSink,
};
use schorl::time::UtcTimestamp;

fn key(text: &str) -> IdempotencyKey {
    IdempotencyKey::new(Id::new(IdScheme::Ulid, text).expect("valid text"))
}

fn at(millis: i64) -> UtcTimestamp {
    UtcTimestamp::from_millis_since_epoch(millis)
}

fn motion(k: &str) -> PointerEvent {
    PointerEvent {
        idempotency_key: key(k),
        at: at(1),
        kind: PointerEventKind::MotionAbsolute {
            x_px: 960,
            y_px: 540,
        },
    }
}

#[test]
fn a_click_reaches_the_sink() {
    let mut sink = RecordingSink::new();
    let click = PointerEvent {
        idempotency_key: key("click-1"),
        at: at(2),
        kind: PointerEventKind::Button {
            button: PointerButton::Left,
            state: ButtonState::Pressed,
        },
    };
    assert_eq!(
        PointerSink::deliver(&mut sink, &click).expect("delivered"),
        Delivery::Delivered
    );
    assert_eq!(sink.pointer_events().len(), 1);
}

#[test]
fn a_key_press_reaches_the_sink() {
    let mut sink = RecordingSink::new();
    let event = KeyEvent {
        idempotency_key: key("key-1"),
        at: at(3),
        keycode: Keycode(30),
        state: ButtonState::Pressed,
    };
    assert_eq!(
        KeyboardSink::deliver(&mut sink, &event).expect("delivered"),
        Delivery::Delivered
    );
    assert_eq!(sink.key_events().len(), 1);
    assert_eq!(sink.key_events()[0].keycode, Keycode(30));
}

#[test]
fn resending_the_same_key_changes_nothing() {
    let mut sink = RecordingSink::new();
    let event = motion("motion-1");
    assert_eq!(
        PointerSink::deliver(&mut sink, &event).expect("delivered"),
        Delivery::Delivered
    );
    assert_eq!(
        PointerSink::deliver(&mut sink, &event).expect("second attempt"),
        Delivery::DuplicateIgnored
    );
    assert_eq!(sink.pointer_events().len(), 1);
}

#[test]
fn motion_carries_the_surface_local_pixel_position() {
    let event = motion("motion-2");
    match event.kind {
        PointerEventKind::MotionAbsolute { x_px, y_px } => {
            assert_eq!((x_px, y_px), (960, 540));
        }
        PointerEventKind::Button { .. } => unreachable!("constructed as motion"),
    }
}

#[test]
fn one_memory_of_keys_serves_both_kinds_of_events() {
    let mut sink = RecordingSink::new();
    PointerSink::deliver(&mut sink, &motion("shared")).expect("delivered");
    let event = KeyEvent {
        idempotency_key: key("shared"),
        at: at(3),
        keycode: Keycode(1),
        state: ButtonState::Released,
    };
    assert_eq!(
        KeyboardSink::deliver(&mut sink, &event).expect("second attempt"),
        Delivery::DuplicateIgnored
    );
    assert!(sink.key_events().is_empty());
}
