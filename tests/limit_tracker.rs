use rustbook::limit_tracker::{level_of, LimitTracker, Messenger, QuotaLevel};
use std::cell::{RefCell, RefMut};

struct MockMessenger2 {
    sent_messages: RefCell<Vec<String>>,
}

impl Messenger for MockMessenger2 {
    fn send(&self, msg: &str) {
        self.sent_messages.borrow_mut().push(msg.to_string());
    }
}

fn recorder() -> MockMessenger2 {
    MockMessenger2 { sent_messages: RefCell::new(vec![]) }
}

#[test]
fn it_sends_an_over_75_percent_warning_message() {
    let mock_messenger = recorder();
    let mut limit_tracker = LimitTracker::new(&mock_messenger, 100);

    limit_tracker.set_value(80);

    assert_eq!(mock_messenger.sent_messages.borrow().len(), 1);
}

struct MockMessenger3 {
    sent_messages: RefCell<Vec<String>>,
}

impl Messenger for MockMessenger3 {
    fn send(&self, _msg: &str) {
        let _ref_mut1: RefMut<_> = self.sent_messages.borrow_mut();
        let _ref_mut2: RefMut<_> = self.sent_messages.borrow_mut();
    }
}

#[test]
#[should_panic]
fn panic_if_multiple_mutable_references() {
    let mock_messenger = MockMessenger3 { sent_messages: RefCell::new(vec![]) };
    let mut limit_tracker = LimitTracker::new(&mock_messenger, 100);
    limit_tracker.set_value(80);
}

#[test]
fn each_value_is_judged_afresh() {
    let m = recorder();
    let mut t = LimitTracker::new(&m, 100);
    assert_eq!(t.set_value(74), None);
    assert_eq!(m.sent_messages.borrow().len(), 0);
    t.set_value(75);
    assert_eq!(
        *m.sent_messages.borrow(),
        vec!["Warning: You've used up over 75% of your quota!".to_string()]
    );
    t.set_value(95);
    assert_eq!(m.sent_messages.borrow().len(), 2);
    assert_eq!(
        m.sent_messages.borrow()[1],
        "Urgent warning: You've used up over 90% of your quota!"
    );
    t.set_value(100);
    assert_eq!(m.sent_messages.borrow().len(), 3);
    assert_eq!(m.sent_messages.borrow()[2], "Error: You are over your quota!");
    t.set_value(10);
    assert_eq!(m.sent_messages.borrow().len(), 3);
}

#[test]
fn set_value_returns_what_it_sent() {
    let m = recorder();
    let mut t = LimitTracker::new(&m, 100);
    assert_eq!(t.set_value(250), Some("Error: You are over your quota!"));
    assert_eq!(t.set_value(90), Some("Urgent warning: You've used up over 90% of your quota!"));
    assert_eq!(t.set_value(89), Some("Warning: You've used up over 75% of your quota!"));
}

#[test]
fn levels_at_the_thresholds() {
    assert_eq!(level_of(0, 100), QuotaLevel::Within);
    assert_eq!(level_of(74, 100), QuotaLevel::Within);
    assert_eq!(level_of(75, 100), QuotaLevel::Warning);
    assert_eq!(level_of(89, 100), QuotaLevel::Warning);
    assert_eq!(level_of(90, 100), QuotaLevel::Urgent);
    assert_eq!(level_of(99, 100), QuotaLevel::Urgent);
    assert_eq!(level_of(100, 100), QuotaLevel::Over);
    assert_eq!(level_of(3, 4), QuotaLevel::Warning);
    assert_eq!(level_of(usize::MAX, usize::MAX), QuotaLevel::Over);
}

#[test]
fn zero_maximum() {
    assert_eq!(level_of(0, 0), QuotaLevel::Within);
    assert_eq!(level_of(1, 0), QuotaLevel::Over);
    assert_eq!(QuotaLevel::Within.message(), None);
}
