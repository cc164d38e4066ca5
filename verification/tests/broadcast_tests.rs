use nmea_log_player::broadcast::Broadcaster;

fn drain(b: &mut Broadcaster, h: usize) -> Vec<String> {
    let mut got: Vec<String> = Vec::new();
    while let Some(s) = b.poll(h) {
        got.push(s);
    }
    got
}

#[test]
fn all_consumers_receive_all_sentences_in_order() {
    let mut b = Broadcaster::new();
    let h1 = b.register();
    let h2 = b.register();

    b.publish(String::from("$GPGGA,074100\r\n"));
    b.publish(String::from("$GPGGA,074101\r\n"));
    b.publish(String::from("$GPGGA,074103\r\n"));

    let expected = vec![
        String::from("$GPGGA,074100\r\n"),
        String::from("$GPGGA,074101\r\n"),
        String::from("$GPGGA,074103\r\n"),
    ];
    assert_eq!(drain(&mut b, h1), expected);
    assert_eq!(drain(&mut b, h2), expected);
}

#[test]
fn late_joiner_sees_no_history() {
    let mut b = Broadcaster::new();
    let h1 = b.register();
    let h2 = b.register();

    b.publish(String::from("one"));
    let h3 = b.register();
    b.publish(String::from("two"));
    b.publish(String::from("three"));

    let all = vec![String::from("one"), String::from("two"), String::from("three")];
    let late = vec![String::from("two"), String::from("three")];
    assert_eq!(drain(&mut b, h1), all);
    assert_eq!(drain(&mut b, h2), all);
    assert_eq!(drain(&mut b, h3), late);
}

#[test]
fn a_failed_consumer_is_dropped_and_the_rest_go_on() {
    let mut b = Broadcaster::new();
    let h1 = b.register();
    let h2 = b.register();

    b.publish(String::from("one"));
    assert_eq!(b.poll(h1), Some(String::from("one")));
    assert_eq!(b.poll(h2), Some(String::from("one")));

    b.publish(String::from("two"));
    assert_eq!(b.poll(h1), Some(String::from("two")));
    // The write of sentence two to the second consumer fails: it is dropped.
    b.unregister(h2);
    assert_eq!(b.poll(h2), None);

    b.publish(String::from("three"));
    assert_eq!(b.poll(h1), Some(String::from("three")));
    assert_eq!(b.poll(h2), None);
}

#[test]
fn a_slow_consumer_never_blocks_the_publisher() {
    let mut b = Broadcaster::new();
    let slow = b.register();
    let fast = b.register();

    for i in 0..100u32 {
        b.publish(format!("line {}", i));
        assert_eq!(b.poll(fast), Some(format!("line {}", i)));
    }
    // The slow consumer has read nothing; everything is still there for it.
    let got = drain(&mut b, slow);
    assert_eq!(got.len(), 100);
    assert_eq!(got[0], "line 0");
    assert_eq!(got[99], "line 99");
}

#[test]
fn polling_an_empty_broadcaster_yields_nothing() {
    let mut b = Broadcaster::new();
    let h = b.register();
    assert_eq!(b.poll(h), None);
}
