use route_guide::messages::{Feature, Point, Rectangle};
use route_guide::text::{describe_feature, feature_line, label_feature};
use route_guide::web::{default_rectangle, keeps_trying, poll_read, rectangle_between};
use route_guide::web::{ReadStep, StreamPoll};

fn feature(name: &str, latitude: i32, longitude: i32) -> Feature {
    Feature { name: name.to_string(), location: Some(Point { latitude, longitude }) }
}

#[test]
fn feature_with_a_location() {
    assert_eq!(
        describe_feature(&feature("Berkshire Valley", 409146138, -746188906)),
        "Feature { name: \"Berkshire Valley\", \
         location: Some(Point { latitude: 409146138, longitude: -746188906 }) }"
    );
}

#[test]
fn feature_without_a_location() {
    assert_eq!(
        describe_feature(&Feature::default()),
        "Feature { name: \"\", location: None }"
    );
}

#[test]
fn text_is_the_debug_text() {
    let names = vec!["", "plain", "say \"hi\"", "back\\slash", "tab\there", "caf\u{e9}", "it's"];
    let numbers =
        vec![0, 7, 9, 10, 99, 100, 1000000007, -1, -10, -987654321, i32::MAX, i32::MIN];
    for name in names {
        for n in &numbers {
            let f = feature(name, *n, n.wrapping_add(3));
            assert_eq!(describe_feature(&f), format!("{:?}", f));
            assert_eq!(feature_line(&f), format!("{:?}\n", f));
        }
    }
}

#[test]
fn label_takes_the_name_as_it_is() {
    assert_eq!(
        label_feature("<x>", &Some(Point { latitude: -5, longitude: 60 })),
        "Feature { name: <x>, location: Some(Point { latitude: -5, longitude: 60 }) }"
    );
    assert_eq!(label_feature("", &None), "Feature { name: , location: None }");
}

#[test]
fn stream_becomes_lines() {
    match poll_read(StreamPoll::Item(feature("a", 1, 2))) {
        ReadStep::Emit(line) => assert_eq!(
            line,
            "Feature { name: \"a\", location: Some(Point { latitude: 1, longitude: 2 }) }\n"
        ),
        _ => panic!("expected a line"),
    }
    match poll_read(StreamPoll::Failed("gone".to_string())) {
        ReadStep::Fail(reason) => assert_eq!(reason, "gone"),
        _ => panic!("expected a failure"),
    }
    assert!(matches!(poll_read(StreamPoll::Ended), ReadStep::Finish));
    assert!(matches!(poll_read(StreamPoll::Pending), ReadStep::Wait));
}

#[test]
fn rectangles_asked_for() {
    let corners = |low: (i32, i32), high: (i32, i32)| Rectangle {
        low: Some(Point { latitude: low.0, longitude: low.1 }),
        high: Some(Point { latitude: high.0, longitude: high.1 }),
    };
    assert_eq!(rectangle_between(1, 2, 3, 4), corners((1, 2), (3, 4)));
    assert_eq!(
        default_rectangle(),
        corners((400000000, -750000000), (420000000, -730000000))
    );
}

#[test]
fn connecting_takes_a_minute_at_most() {
    assert!(keeps_trying(0));
    assert!(keeps_trying(59));
    assert!(!keeps_trying(60));
    assert!(!keeps_trying(u64::MAX));
}
