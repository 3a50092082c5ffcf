use route_guide::messages::{Feature, Point, RouteSummary};
use route_guide::recorder::{RouteEvent, RouteRecorder, RouteStep, SummaryOverflow};
use route_guide::table::FeatureWriter;

fn point(latitude: i32, longitude: i32) -> Point {
    Point { latitude, longitude }
}

#[test]
fn empty_route() {
    let recorder = RouteRecorder::new();
    assert_eq!(recorder.last_point(), None);
    assert_eq!(recorder.finish(7), RouteSummary { elapsed_time_seconds: 7, ..Default::default() });
}

#[test]
fn points_features_and_legs_are_added_up() {
    let mut recorder = RouteRecorder::new();
    recorder.add_point(point(1, 1), 2, 999);
    recorder.add_point(point(2, 2), 0, 10);
    recorder.add_point(point(3, 3), 1, 32);
    assert_eq!(recorder.last_point(), Some(point(3, 3)));
    assert_eq!(
        recorder.finish(61),
        RouteSummary { point_count: 3, feature_count: 3, distance: 42, elapsed_time_seconds: 61 }
    );
}

#[test]
fn leg_of_the_first_point_is_ignored() {
    let mut recorder = RouteRecorder::new();
    recorder.add_point(point(1, 1), 0, 12345);
    assert_eq!(recorder.finish(0).distance, 0);
}

#[test]
fn features_are_counted_in_the_table() {
    let mut other = FeatureWriter::new();
    let mut table = other.share();
    for name in vec!["a", "b"] {
        other.push(Feature { name: name.to_string(), location: Some(point(1, 1)) });
    }
    other.push(Feature { name: "c".to_string(), location: Some(point(1, 2)) });
    let mut recorder = RouteRecorder::new();
    assert_eq!(recorder.record(&mut table, point(1, 1), 0), Ok(()));
    assert_eq!(recorder.record(&mut table, point(2, 1), 5), Ok(()));
    // A feature that is added on the way counts from then on.
    other.push(Feature { name: "d".to_string(), location: Some(point(2, 1)) });
    assert_eq!(recorder.record(&mut table, point(2, 1), 0), Ok(()));
    assert_eq!(
        recorder.finish(1),
        RouteSummary { point_count: 3, feature_count: 3, distance: 5, elapsed_time_seconds: 1 }
    );
}

#[test]
fn sums_that_do_not_fit_are_refused() {
    let mut table = FeatureWriter::new().finish();
    let mut recorder = RouteRecorder::new();
    recorder.add_point(point(0, 0), i32::MAX as usize, 0);
    assert!(recorder.has_room(0, i32::MAX));
    assert!(!recorder.has_room(1, 0));
    recorder.add_point(point(0, 1), 0, i32::MAX);
    assert_eq!(recorder.record(&mut table, point(0, 2), 1), Err(SummaryOverflow));
    assert_eq!(recorder.last_point(), Some(point(0, 1)));
    assert_eq!(recorder.record(&mut table, point(0, 2), 0), Ok(()));
    assert_eq!(
        recorder.finish(0),
        RouteSummary {
            point_count: 3,
            feature_count: i32::MAX,
            distance: i32::MAX,
            elapsed_time_seconds: 0
        }
    );
}

#[test]
fn long_times_keep_their_low_bits() {
    assert_eq!(RouteRecorder::new().finish(i32::MAX as u64).elapsed_time_seconds, i32::MAX);
    assert_eq!(RouteRecorder::new().finish(0x8000_0000).elapsed_time_seconds, i32::MIN);
    assert_eq!(RouteRecorder::new().finish(0x1_0000_0005).elapsed_time_seconds, 5);
}

#[test]
fn events_of_a_route() {
    let mut table = FeatureWriter::new().finish();
    let mut recorder = RouteRecorder::new();
    let first: RouteEvent<String> = RouteEvent::Arrived { point: point(1, 1), leg: 0 };
    assert!(matches!(recorder.step(&mut table, first), RouteStep::Continue));
    let second: RouteEvent<String> = RouteEvent::Arrived { point: point(2, 2), leg: 9 };
    assert!(matches!(recorder.step(&mut table, second), RouteStep::Continue));
    let broken = RouteEvent::Failed("gone".to_string());
    match recorder.step(&mut table, broken) {
        RouteStep::Fail(reason) => assert_eq!(reason, "gone"),
        _ => panic!("expected a failure"),
    }
    let ended: RouteEvent<String> = RouteEvent::Ended { elapsed_seconds: 5 };
    match recorder.step(&mut table, ended) {
        RouteStep::Reply(summary) => assert_eq!(
            summary,
            RouteSummary { point_count: 2, feature_count: 0, distance: 9, elapsed_time_seconds: 5 }
        ),
        _ => panic!("expected a summary"),
    }
    recorder.add_point(point(0, 0), i32::MAX as usize, i32::MAX - 9);
    let too_far: RouteEvent<String> = RouteEvent::Arrived { point: point(1, 1), leg: 1 };
    assert!(matches!(recorder.step(&mut table, too_far), RouteStep::Overflow));
}

#[test]
fn reversed_route_agrees() {
    let mut writer = FeatureWriter::new();
    for (latitude, name) in vec![(1, "a"), (1, "b"), (4, "c")] {
        writer.push(Feature { name: name.to_string(), location: Some(point(latitude, 0)) });
    }
    let mut table = writer.finish();
    let route = vec![point(1, 0), point(4, 0), point(-2, 0), point(1, 0)];
    let mut summaries = vec![];
    for points in vec![route.clone(), route.into_iter().rev().collect()] {
        let mut recorder = RouteRecorder::new();
        for p in points {
            let leg = match recorder.last_point() {
                Some(last) => (last.latitude - p.latitude).abs(),
                None => 0,
            };
            assert_eq!(recorder.record(&mut table, p, leg), Ok(()));
        }
        summaries.push(recorder.finish(0));
    }
    assert_eq!(summaries[0], summaries[1]);
    assert_eq!(
        summaries[0],
        RouteSummary { point_count: 4, feature_count: 5, distance: 12, elapsed_time_seconds: 0 }
    );
}
