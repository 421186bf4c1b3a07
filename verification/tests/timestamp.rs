use taskboard::timestamp::Timestamp;

#[test]
fn a_timestamp_is_its_distance_from_the_epoch() {
    assert_eq!(
        Timestamp::since_epoch(12, 34),
        Timestamp { before_epoch: false, secs: 12, nanos: 34 }
    );
    assert_eq!(
        Timestamp::until_epoch(12, 34),
        Timestamp { before_epoch: true, secs: 12, nanos: 34 }
    );
}

#[test]
fn the_epoch_lies_on_one_side_only() {
    assert_eq!(Timestamp::until_epoch(0, 0), Timestamp::since_epoch(0, 0));
    assert_ne!(Timestamp::until_epoch(0, 1), Timestamp::since_epoch(0, 1));
    assert_ne!(Timestamp::until_epoch(1, 0), Timestamp::since_epoch(1, 0));
}

#[test]
fn an_unknown_time_is_the_epoch() {
    assert_eq!(Timestamp::or_epoch(None), Timestamp::since_epoch(0, 0));
    assert_eq!(
        Timestamp::or_epoch(Some(Timestamp::since_epoch(3, 4))),
        Timestamp::since_epoch(3, 4)
    );
    assert_eq!(
        Timestamp::or_epoch(Some(Timestamp::until_epoch(3, 4))),
        Timestamp::until_epoch(3, 4)
    );
}
