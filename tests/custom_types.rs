use rust_basics::custom_types::{
    inspect, is_big, Color, List, Number, Operations, Person, Status, WebEvent, Work, LANGUAGE,
    THRESHOLD,
};

#[test]
fn empty_list_has_length_zero() {
    let list = List::new();
    assert_eq!(list.len(), 0);
    assert_eq!(list.stringify(), "Nil");
}

#[test]
fn prepend_three_values() {
    let mut list = List::new();
    list = list.prepend(1);
    list = list.prepend(2);
    list = list.prepend(3);
    assert_eq!(list.len(), 3);
    assert_eq!(list.stringify(), "3, 2, 1, Nil");
}

#[test]
fn prepend_multi_digit_values() {
    let list = List::new().prepend(4294967295).prepend(0).prepend(120);
    assert_eq!(list.len(), 3);
    assert_eq!(list.stringify(), "120, 0, 4294967295, Nil");
}

#[test]
fn inspect_each_event() {
    assert_eq!(inspect(WebEvent::PageLoad), "Page loaded");
    assert_eq!(inspect(WebEvent::PageUnload), "Page unloaded");
    assert_eq!(inspect(WebEvent::KeyPress('x')), "Pressed \"x\"");
    assert_eq!(inspect(WebEvent::Paste("my test".to_owned())), "Pasted \"my test\"");
    assert_eq!(inspect(WebEvent::Click { x: 20, y: 80 }), "Clicked at x=20, y=80");
}

#[test]
fn inspect_negative_click() {
    assert_eq!(
        inspect(WebEvent::Click { x: -7, y: i64::MIN }),
        "Clicked at x=-7, y=-9223372036854775808"
    );
}

#[test]
fn operations_run() {
    assert_eq!(Operations::Add.run(2, 3), 5);
    assert_eq!(Operations::Subtract.run(2, 3), -1);
    assert_eq!(Operations::Add.run(i32::MAX, 0), i32::MAX);
}

#[test]
fn threshold_is_exclusive() {
    assert_eq!(THRESHOLD, 10);
    assert!(is_big(16));
    assert!(!is_big(10));
    assert!(is_big(11));
    assert_eq!(LANGUAGE, "Rust");
}

#[test]
fn status_and_work_lines() {
    assert_eq!(Status::Poor.describe(), "The poor have no money...");
    assert_eq!(Status::Rich.describe(), "The rich have lots of money!");
    assert_eq!(Work::Civilian.describe(), "Civilians work!");
    assert_eq!(Work::Soldier.describe(), "Soldiers fight!");
}

#[test]
fn numbers_count_from_zero() {
    assert_eq!(Number::Zero.value(), 0);
    assert_eq!(Number::One.value(), 1);
    assert_eq!(Number::Two.value(), 2);
}

#[test]
fn color_hex_codes() {
    assert_eq!(Color::Red.rgb(), 0xff0000);
    assert_eq!(Color::Red.hex_code(), "#ff0000");
    assert_eq!(Color::Green.hex_code(), "#00ff00");
    assert_eq!(Color::Blue.hex_code(), "#0000ff");
}

#[test]
fn person_debug() {
    let peter = Person { name: String::from("Peter"), age: 27 };
    assert_eq!(format!("{:?}", peter), "Person { name: \"Peter\", age: 27 }");
}
