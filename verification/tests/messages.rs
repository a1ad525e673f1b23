use authentication_background::text::same_text;
use authentication_background::{Message, DEFAULT_RETRIES, EXIT};

#[test]
fn new_item_has_the_default_retries() {
    let item = Message::new("welcome_email".to_owned(), Some(7));
    assert_eq!(item.name(), "welcome_email");
    assert_eq!(item.message(), &Some(7));
    assert_eq!(item.retries(), 10);
    assert_eq!(DEFAULT_RETRIES, 10);
}

#[test]
fn new_item_may_carry_no_data() {
    let item: Message<String> = Message::new("cleanup".to_owned(), None);
    assert_eq!(item.name(), "cleanup");
    assert_eq!(item.message(), &None);
    assert_eq!(item.retries(), 10);
}

#[test]
fn new_item_keeps_an_empty_name() {
    let item = Message::new(String::new(), Some(1u8));
    assert_eq!(item.name(), "");
    assert_eq!(item.retries(), 10);
}

#[test]
fn exit_item_has_the_reserved_name_and_nothing_else() {
    let item: Message<i32> = Message::exit();
    assert_eq!(item.name(), "exit");
    assert_eq!(item.name(), EXIT);
    assert_eq!(item.message(), &None);
    assert_eq!(item.retries(), 0);
}

#[test]
fn retry_takes_one_retry_and_keeps_name_and_data() {
    let item = Message::new("resize".to_owned(), Some("cat.png".to_owned()));
    let next = match item.retry() {
        Ok(next) => next,
        Err(_) => panic!("a new item has retries left"),
    };
    assert_eq!(next.name(), "resize");
    assert_eq!(next.message(), &Some("cat.png".to_owned()));
    assert_eq!(next.retries(), 9);
}

#[test]
fn retry_counts_down_to_zero_and_then_gives_the_item_back() {
    let mut item = Message::new("resize".to_owned(), Some(3));
    let mut expected = 10;
    while expected > 0 {
        assert_eq!(item.retries(), expected);
        item = match item.retry() {
            Ok(next) => next,
            Err(_) => panic!("retries were left"),
        };
        expected -= 1;
    }
    assert_eq!(item.retries(), 0);
    match item.retry() {
        Ok(_) => panic!("no retry was left"),
        Err(last) => {
            assert_eq!(last.name(), "resize");
            assert_eq!(last.message(), &Some(3));
            assert_eq!(last.retries(), 0);
        }
    }
}

#[test]
fn exit_item_has_no_retry() {
    let item: Message<i32> = Message::exit();
    assert!(item.retry().is_err());
}

#[test]
fn same_text_accepts_equal_strings() {
    assert!(same_text("exit", "exit"));
    assert!(same_text("", ""));
    assert!(same_text("grüße", "grüße"));
}

#[test]
fn same_text_rejects_different_strings() {
    assert!(!same_text("exit", "exiT"));
    assert!(!same_text("exit", "exit "));
    assert!(!same_text("exit", ""));
    assert!(!same_text("", "exit"));
    assert!(!same_text("mail", "exit"));
    assert!(!same_text("é", "e"));
    assert!(!same_text("é", "è"));
}
