use mmo::object::ObjectId;
use mmo::room_writer::{target_reaches, RoomWriter, RoomWriterTarget};

#[test]
fn new_writer_is_empty() {
    let w: RoomWriter<u32, ()> = RoomWriter::new();
    assert!(w.events.is_empty());
    assert!(w.upstream_messages.is_empty());
}

#[test]
fn tell_and_tell_many_keep_order() {
    let mut w: RoomWriter<u32, ()> = RoomWriter::new();
    w.tell(RoomWriterTarget::All, 1);
    w.tell_many(RoomWriterTarget::Player(ObjectId(7)), vec![2, 3]);
    w.tell(RoomWriterTarget::AllExcept(ObjectId(7)), 4);
    let written: Vec<(RoomWriterTarget, u32)> = w.events.iter().map(|e| (e.target, e.event)).collect();
    assert_eq!(
        written,
        vec![
            (RoomWriterTarget::All, 1),
            (RoomWriterTarget::Player(ObjectId(7)), 2),
            (RoomWriterTarget::Player(ObjectId(7)), 3),
            (RoomWriterTarget::AllExcept(ObjectId(7)), 4),
        ]
    );
}

#[test]
fn deliveries_follow_targets() {
    let mut w: RoomWriter<&str, ()> = RoomWriter::new();
    w.tell(RoomWriterTarget::All, "everyone");
    w.tell(RoomWriterTarget::Player(ObjectId(1)), "only one");
    w.tell(RoomWriterTarget::AllExcept(ObjectId(1)), "all but one");
    w.tell(RoomWriterTarget::Player(ObjectId(3)), "absent");
    let players = vec![ObjectId(1), ObjectId(2)];
    let d = w.deliveries(&players);
    assert_eq!(d, vec![vec![0, 1], vec![0, 2]]);
}

#[test]
fn deliveries_of_nothing() {
    let w: RoomWriter<u8, ()> = RoomWriter::new();
    assert_eq!(w.deliveries(&vec![ObjectId(4)]), vec![Vec::<usize>::new()]);
    assert!(w.deliveries(&vec![]).is_empty());
}

#[test]
fn targets_reach_the_right_players() {
    assert!(target_reaches(RoomWriterTarget::All, ObjectId(5)));
    assert!(target_reaches(RoomWriterTarget::Player(ObjectId(5)), ObjectId(5)));
    assert!(!target_reaches(RoomWriterTarget::Player(ObjectId(5)), ObjectId(6)));
    assert!(!target_reaches(RoomWriterTarget::AllExcept(ObjectId(5)), ObjectId(5)));
    assert!(target_reaches(RoomWriterTarget::AllExcept(ObjectId(5)), ObjectId(6)));
}
