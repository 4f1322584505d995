use stackable_agent::provider::systemdmanager::journal_reader::JournalReading;

#[test]
fn tail_without_follow_is_bounded() {
    let mut reading = JournalReading::new(Some(2), false);
    assert!(reading.wants_more());
    reading.record_sent();
    assert!(reading.wants_more());
    reading.record_sent();
    assert!(!reading.wants_more());
}

#[test]
fn follow_is_unbounded() {
    let mut reading = JournalReading::new(Some(2), true);
    for _ in 0..5 {
        reading.record_sent();
    }
    assert!(reading.wants_more());
    assert!(JournalReading::new(None, false).wants_more());
}

#[test]
fn seeking_back_from_the_end() {
    assert_eq!(4, JournalReading::entries_to_skip(3));
    assert!(JournalReading::beginning_reached(3, 2));
    assert!(!JournalReading::beginning_reached(3, 4));
    assert_eq!("hello\n", JournalReading::message_line("hello"));
}

#[test]
fn the_last_messages_are_sent_in_order() {
    let entries = vec![String::from("a"), String::from("b"), String::from("c")];
    assert_eq!(vec![String::from("b\n"), String::from("c\n")], JournalReading::messages_to_send(&entries, Some(2)));
    assert_eq!(
        vec![String::from("a\n"), String::from("b\n"), String::from("c\n")],
        JournalReading::messages_to_send(&entries, Some(5))
    );
    assert_eq!(
        vec![String::from("a\n"), String::from("b\n"), String::from("c\n")],
        JournalReading::messages_to_send(&entries, None)
    );
    assert!(JournalReading::messages_to_send(&entries, Some(0)).is_empty());
}
