use route_guide::messages::{Feature, Point, Rectangle, RpcError, Status, CODE_OK};
use route_guide::dispatch::{worker_for, Dispatcher, NUM_WORKERS};
use route_guide::server::{add_feature_reply, is_accepted, list_features, store_received};
use route_guide::server::{
    ProgramRouteService, Received, RouteGuideServiceRequest, RouteGuideServiceResponse,
    RouteGuideWorker, StoreStep,
};
use route_guide::recorder::RouteRecorder;
use route_guide::table::{FeatureTable, FeatureWriter};

fn point(latitude: i32, longitude: i32) -> Point {
    Point { latitude, longitude }
}

fn feature(name: &str, latitude: i32, longitude: i32) -> Feature {
    Feature { name: name.to_string(), location: Some(point(latitude, longitude)) }
}

#[test]
fn worker_sees_what_was_written() {
    let mut table = FeatureWriter::new();
    let mut worker = RouteGuideWorker::new(table.share());
    assert_eq!(worker.get_feature(point(1, 1)), Feature::default());
    table.push(feature("a", 1, 1));
    assert_eq!(worker.get_feature(point(1, 1)), feature("a", 1, 1));
    table.push(feature("b", 1, 1));
    assert_eq!(worker.get_feature(point(1, 1)), feature("a", 1, 1));
    assert_eq!(worker.get_feature(point(2, 1)), Feature::default());
}

#[test]
fn worker_answers_a_request() {
    let mut table = FeatureWriter::new();
    table.push(feature("a", 4, 5));
    let mut worker = RouteGuideWorker::new(table.finish());
    let RouteGuideServiceResponse::GetFeature(answer) =
        worker.answer(RouteGuideServiceRequest::GetFeature(point(4, 5)));
    assert_eq!(answer, feature("a", 4, 5));
}

#[test]
fn table_is_shared_but_tables_are_separate() {
    let mut one = FeatureWriter::new();
    let mut other = FeatureWriter::new().finish();
    let mut shared = one.share();
    let mut shared_again = shared.share();
    one.push(feature("a", 1, 1));
    let bounds = Rectangle { low: Some(point(0, 0)), high: Some(point(9, 9)) };
    assert_eq!(list_features(&mut shared, &bounds).found, vec![feature("a", 1, 1)]);
    assert_eq!(list_features(&mut shared_again, &bounds).found, vec![feature("a", 1, 1)]);
    assert!(list_features(&mut other, &bounds).found.is_empty());
}

#[test]
fn nothing_is_known_at_first() {
    let writer = FeatureWriter::new();
    let bounds = Rectangle { low: Some(point(-9, -9)), high: Some(point(9, 9)) };
    for mut table in vec![writer.share(), writer.finish()] {
        let listing = list_features(&mut table, &bounds);
        assert!(listing.found.is_empty() && listing.complete);
        let mut recorder = RouteRecorder::new();
        assert_eq!(recorder.record(&mut table, point(0, 0), 0), Ok(()));
        assert_eq!(recorder.finish(0).feature_count, 0);
        assert_eq!(RouteGuideWorker::new(table).get_feature(point(0, 0)), Feature::default());
    }
}

#[test]
fn table_holds_exactly_what_was_added() {
    let mut writer = FeatureWriter::new();
    let added = vec![feature("a", 1, 1), feature("b", 2, 2), feature("a", 1, 1)];
    for f in &added {
        writer.push(f.clone());
    }
    let mut table = writer.finish();
    let bounds = Rectangle { low: Some(point(0, 0)), high: Some(point(9, 9)) };
    assert_eq!(list_features(&mut table, &bounds).found, added);
    // Asking leaves the table as it is.
    assert_eq!(list_features(&mut table, &bounds).found, added);
}

#[test]
fn table_lists_what_was_written_in_order() {
    let mut table = FeatureWriter::new();
    table.push(feature("a", 1, 1));
    table.push(feature("far", 100, 1));
    table.push(feature("b", 2, 2));
    let bounds = Rectangle { low: Some(point(0, 0)), high: Some(point(9, 9)) };
    let listing = list_features(&mut table.share(), &bounds);
    assert_eq!(listing.found, vec![feature("a", 1, 1), feature("b", 2, 2)]);
    assert!(listing.complete);
}

#[test]
fn feature_is_passed_on() {
    let (mut service, mut inbox) = ProgramRouteService::new();
    let mut writer = FeatureWriter::new();
    assert_eq!(inbox.store_next(&mut writer), StoreStep::Empty);
    let reply = service.add_feature(feature("a", 1, 2));
    assert_eq!(reply, Ok(Status { status: CODE_OK, error_message: String::new() }));
    assert!(reply.is_ok_and(|status| is_accepted(&status)));
    assert_eq!(inbox.store_next(&mut writer), StoreStep::Stored);
    assert_eq!(inbox.store_next(&mut writer), StoreStep::Empty);
    drop(service);
    assert_eq!(inbox.store_next(&mut writer), StoreStep::Closed);
    let mut worker = RouteGuideWorker::new(writer.finish());
    assert_eq!(worker.get_feature(point(1, 2)), feature("a", 1, 2));
}

#[test]
fn feature_nobody_takes_is_an_internal_error() {
    let (mut service, inbox) = ProgramRouteService::new();
    drop(inbox);
    assert_eq!(
        service.add_feature(feature("a", 1, 2)),
        Err(RpcError::Internal("\"SendError(..)\"".to_string()))
    );
}

#[test]
fn replies_to_added_features() {
    assert_eq!(
        add_feature_reply(Ok(())),
        Ok(Status { status: 0, error_message: String::new() })
    );
    assert_eq!(
        add_feature_reply(Err(feature("lost", 0, 0))),
        Err(RpcError::Internal("\"SendError(..)\"".to_string()))
    );
    assert!(!is_accepted(&Status { status: 1, error_message: "no".to_string() }));
}

#[test]
fn requests_go_round() {
    let workers = NUM_WORKERS as usize;
    let mut dispatcher = Dispatcher::new();
    let picked: Vec<usize> = (0..6).map(|_| dispatcher.next_worker(workers)).collect();
    assert_eq!(picked, vec![0, 1, 2, 3, 0, 1]);
}

#[test]
fn request_numbers_that_run_out_start_again() {
    let workers = NUM_WORKERS as usize;
    assert_eq!(worker_for(usize::MAX, workers), 3);
    assert_eq!(worker_for(usize::MAX.wrapping_add(1), workers), 0);
    assert_eq!(worker_for(17, 5), 2);
}

#[test]
fn added_feature_is_found_through_every_later_handle() {
    let mut table = FeatureWriter::new();
    let mut before = RouteGuideWorker::new(table.share());
    table.push(feature("a", 7, 8));
    let mut after = RouteGuideWorker::new(table.share());
    for i in 0..10 {
        table.push(feature("more", 7, 8 + i));
        assert_eq!(after.get_feature(point(7, 8)), feature("a", 7, 8));
        assert_eq!(before.get_feature(point(7, 8)), feature("a", 7, 8));
    }
}

#[test]
fn writer_on_another_thread_does_not_disturb_readers() {
    let mut writer = FeatureWriter::new();
    let readers: Vec<FeatureTable> = (0..3).map(|_| writer.share()).collect();
    let outcome = crossbeam::scope(|scope| {
        scope.spawn(move |_| {
            for i in 0..100 {
                writer.push(feature("x", i, i));
            }
        });
        for mut reader in readers {
            scope.spawn(move |_| {
                let bounds = Rectangle { low: Some(point(0, 0)), high: Some(point(99, 99)) };
                let mut seen: Vec<Feature> = vec![];
                while seen.len() < 100 {
                    let found = list_features(&mut reader, &bounds).found;
                    assert_eq!(found[..seen.len()], seen[..]);
                    seen = found;
                }
                let all: Vec<Feature> = (0..100).map(|i| feature("x", i, i)).collect();
                assert_eq!(seen, all);
            });
        }
    });
    assert!(outcome.is_ok());
}

#[test]
fn features_are_passed_on_once_and_in_order() {
    let (mut service, mut inbox) = ProgramRouteService::new();
    let mut writer = FeatureWriter::new();
    writer.push(feature("old", 5, 5));
    let mut table = writer.share();
    let sent = vec![feature("a", 1, 1), feature("", 3, 3), feature("a", 1, 1)];
    for f in &sent {
        assert!(service.add_feature(f.clone()).is_ok());
    }
    let mut stored = 0;
    while inbox.store_next(&mut writer) == StoreStep::Stored {
        stored += 1;
    }
    assert_eq!(stored, 3);
    let bounds = Rectangle { low: Some(point(0, 0)), high: Some(point(9, 9)) };
    let mut expected = vec![feature("old", 5, 5)];
    expected.extend(sent);
    assert_eq!(list_features(&mut table, &bounds).found, expected);
}

#[test]
fn feature_without_location_is_passed_on_too() {
    let (mut service, mut inbox) = ProgramRouteService::new();
    let mut writer = FeatureWriter::new();
    assert!(service.add_feature(Feature { name: "x".to_string(), location: None }).is_ok());
    assert_eq!(inbox.store_next(&mut writer), StoreStep::Stored);
    let bounds = Rectangle { low: Some(point(0, 0)), high: Some(point(9, 9)) };
    let listing = list_features(&mut writer.finish(), &bounds);
    assert!(listing.found.is_empty() && !listing.complete);
}

#[test]
fn closed_inbox_has_given_everything() {
    let (mut service, mut inbox) = ProgramRouteService::new();
    let mut writer = FeatureWriter::new();
    for i in 0..100 {
        assert!(service.add_feature(feature("x", i, i)).is_ok());
    }
    drop(service);
    while inbox.store_next(&mut writer) != StoreStep::Closed {}
    let bounds = Rectangle { low: Some(point(0, 0)), high: Some(point(99, 99)) };
    let all: Vec<Feature> = (0..100).map(|i| feature("x", i, i)).collect();
    assert_eq!(list_features(&mut writer.finish(), &bounds).found, all);
}

#[test]
fn early_answers_come_from_what_is_added() {
    let mut writer = FeatureWriter::new();
    let mut worker = RouteGuideWorker::new(writer.share());
    assert_eq!(worker.get_feature(point(1, 1)), Feature::default());
    writer.push(feature("a", 1, 1));
    writer.push(feature("b", 1, 1));
    assert_eq!(worker.get_feature(point(1, 1)), feature("a", 1, 1));
    let mut settled = RouteGuideWorker::new(writer.finish().share());
    assert_eq!(settled.get_feature(point(1, 1)), worker.get_feature(point(1, 1)));
}

#[test]
fn every_round_serves_every_worker() {
    for workers in 1..6 {
        let mut dispatcher = Dispatcher::new();
        let mut served = vec![0; workers];
        for _ in 0..7 * workers {
            served[dispatcher.next_worker(workers)] += 1;
        }
        assert_eq!(served, vec![7; workers]);
    }
}

#[test]
fn handle_catches_up_with_the_writer() {
    let mut writer = FeatureWriter::new();
    let mut table = writer.share();
    let bounds = Rectangle { low: Some(point(0, 0)), high: Some(point(9, 9)) };
    table.catch_up(&writer);
    assert!(list_features(&mut table, &bounds).found.is_empty());
    writer.push(feature("a", 1, 1));
    writer.push(feature("b", 2, 2));
    table.catch_up(&writer);
    table.catch_up(&writer);
    let added = vec![feature("a", 1, 1), feature("b", 2, 2)];
    assert_eq!(list_features(&mut table, &bounds).found, added);
    writer.push(feature("c", 3, 3));
    assert_eq!(list_features(&mut table, &bounds).found.len(), 3);
}

#[test]
fn storing_what_was_received() {
    let mut writer = FeatureWriter::new();
    assert_eq!(store_received(Received::Empty, &mut writer), StoreStep::Empty);
    assert_eq!(store_received(Received::Next(feature("a", 1, 1)), &mut writer), StoreStep::Stored);
    assert_eq!(store_received(Received::Closed, &mut writer), StoreStep::Closed);
    let bounds = Rectangle { low: Some(point(0, 0)), high: Some(point(9, 9)) };
    let listing = list_features(&mut writer.finish(), &bounds);
    assert_eq!(listing.found, vec![feature("a", 1, 1)]);
}
