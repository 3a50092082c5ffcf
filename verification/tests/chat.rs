use route_guide::chat::{ChatBoard, ChatEvent, ChatStep};
use route_guide::messages::{Point, RouteNote};

fn note(message: &str, latitude: i32, longitude: i32) -> RouteNote {
    RouteNote {
        location: Some(Point { latitude, longitude }),
        message: message.to_string(),
    }
}

#[test]
fn first_note_comes_back_alone() {
    let mut board = ChatBoard::new();
    assert_eq!(board.post(note("hello", 0, 1)), vec![note("hello", 0, 1)]);
}

#[test]
fn notes_of_a_location_come_back_in_order() {
    let mut board = ChatBoard::new();
    board.post(note("one", 0, 1));
    board.post(note("elsewhere", 0, 2));
    board.post(note("two", 0, 1));
    assert_eq!(
        board.post(note("three", 0, 1)),
        vec![note("one", 0, 1), note("two", 0, 1), note("three", 0, 1)]
    );
    assert_eq!(board.post(note("again", 0, 2)), vec![note("elsewhere", 0, 2), note("again", 0, 2)]);
}

#[test]
fn same_note_twice_is_kept_twice() {
    let mut board = ChatBoard::new();
    board.post(note("echo", 3, 3));
    assert_eq!(board.post(note("echo", 3, 3)), vec![note("echo", 3, 3), note("echo", 3, 3)]);
}

#[test]
fn locations_are_told_apart() {
    let locations =
        vec![(0, 1), (1, 0), (-1, 0), (0, -1), (i32::MIN, i32::MAX), (i32::MAX, i32::MIN), (0, 0)];
    let mut board = ChatBoard::new();
    for (latitude, longitude) in &locations {
        assert_eq!(board.post(note("a", *latitude, *longitude)).len(), 1);
    }
    for (latitude, longitude) in &locations {
        assert_eq!(board.post(note("b", *latitude, *longitude)).len(), 2);
    }
}

#[test]
fn events_of_a_chat() {
    let mut board = ChatBoard::new();
    board.post(note("one", 1, 1));
    let arrived: ChatEvent<String> = ChatEvent::Arrived(note("two", 1, 1));
    match board.step(arrived) {
        ChatStep::Replies(notes) => assert_eq!(notes, vec![note("one", 1, 1), note("two", 1, 1)]),
        _ => panic!("expected replies"),
    }
    match board.step(ChatEvent::Failed("gone".to_string())) {
        ChatStep::Fail(reason) => assert_eq!(reason, "gone"),
        _ => panic!("expected a failure"),
    }
    let ended: ChatEvent<String> = ChatEvent::Ended;
    assert!(matches!(board.step(ended), ChatStep::Finish));
}
