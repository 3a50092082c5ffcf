use route_guide::data::{load_data, DataFeature, Location};
use route_guide::features::{count_at, find_feature, select_features};
use route_guide::messages::{Feature, Point, Rectangle};

fn point(latitude: i32, longitude: i32) -> Point {
    Point { latitude, longitude }
}

fn feature(name: &str, latitude: i32, longitude: i32) -> Feature {
    Feature { name: name.to_string(), location: Some(point(latitude, longitude)) }
}

fn nowhere(name: &str) -> Feature {
    Feature { name: name.to_string(), location: None }
}

fn names(features: &Vec<Feature>) -> Vec<String> {
    features.iter().map(|f| f.name.clone()).collect()
}

#[test]
fn known_point_gives_its_feature() {
    let features = vec![feature("a", 1, 1), feature("b", 2, 2)];
    assert_eq!(find_feature(&features, &point(2, 2)), feature("b", 2, 2));
}

#[test]
fn oldest_feature_wins() {
    let features = vec![feature("x", 0, 0), feature("first", 1, 1), feature("second", 1, 1)];
    assert_eq!(find_feature(&features, &point(1, 1)).name, "first");
}

#[test]
fn unknown_point_gives_the_nameless_feature() {
    let features = vec![feature("a", 1, 2), nowhere("b")];
    let answer = find_feature(&features, &point(2, 1));
    assert_eq!(answer, Feature { name: String::new(), location: None });
    assert_eq!(find_feature(&vec![], &point(0, 0)), Feature::default());
}

#[test]
fn added_feature_answers_a_new_point_only() {
    let mut features = vec![feature("a", 1, 1)];
    features.push(feature("b", 2, 2));
    features.push(feature("c", 1, 1));
    assert_eq!(find_feature(&features, &point(2, 2)).name, "b");
    assert_eq!(find_feature(&features, &point(1, 1)).name, "a");
    assert_eq!(find_feature(&features, &point(3, 3)).name, "");
}

#[test]
fn counting_features_at_a_point() {
    let features =
        vec![feature("a", 1, 1), feature("b", 1, 1), feature("c", 1, 2), nowhere("d")];
    assert_eq!(count_at(&features, &point(1, 1)), 2);
    assert_eq!(count_at(&features, &point(1, 2)), 1);
    assert_eq!(count_at(&features, &point(2, 1)), 0);
}

#[test]
fn listing_keeps_order_and_filters() {
    let features =
        vec![feature("a", 1, 1), feature("out", 50, 1), feature("b", 10, 10), feature("c", 0, 0)];
    let bounds = Rectangle { low: Some(point(10, 10)), high: Some(point(0, 0)) };
    let listing = select_features(&features, &bounds);
    assert_eq!(names(&listing.found), vec!["a", "b", "c"]);
    assert!(listing.complete);
}

#[test]
fn feature_without_location_cuts_a_listing_short() {
    let features = vec![feature("a", 1, 1), nowhere("x"), feature("b", 1, 1)];
    let bounds = Rectangle { low: Some(point(0, 0)), high: Some(point(5, 5)) };
    let listing = select_features(&features, &bounds);
    assert_eq!(names(&listing.found), vec!["a"]);
    assert!(!listing.complete);
}

#[test]
fn rectangle_without_corner_lists_nothing() {
    let features = vec![feature("a", 1, 1)];
    for bounds in vec![
        Rectangle { low: None, high: Some(point(5, 5)) },
        Rectangle { low: Some(point(0, 0)), high: None },
        Rectangle { low: None, high: None },
    ] {
        let listing = select_features(&features, &bounds);
        assert!(listing.found.is_empty() && !listing.complete);
        // There is nothing to compare in an empty table.
        assert!(select_features(&vec![], &bounds).complete);
    }
}

#[test]
fn point_rectangle_lists_what_is_counted() {
    let features = vec![feature("a", 1, 1), feature("b", 2, 2), feature("c", 1, 1)];
    let bounds = Rectangle { low: Some(point(1, 1)), high: Some(point(1, 1)) };
    let listing = select_features(&features, &bounds);
    assert_eq!(names(&listing.found), vec!["a", "c"]);
    assert_eq!(listing.found.len(), count_at(&features, &point(1, 1)));
    assert_eq!(listing.found[0], find_feature(&features, &point(1, 1)));
}

#[test]
fn added_feature_extends_a_listing() {
    let bounds = Rectangle { low: Some(point(0, 0)), high: Some(point(5, 5)) };
    let mut features = vec![feature("a", 1, 1)];
    features.push(feature("b", 2, 2));
    features.push(feature("c", 9, 9));
    assert_eq!(names(&select_features(&features, &bounds).found), vec!["a", "b"]);
}

#[test]
fn loading_keeps_names_positions_and_order() {
    let decoded = vec![
        DataFeature {
            location: Location { latitude: 407838351, longitude: -746143763 },
            name: "Patriots Path, Mendham, NJ 07945, USA".to_string(),
        },
        DataFeature {
            location: Location { latitude: 408122808, longitude: -743999179 },
            name: String::new(),
        },
    ];
    let features = load_data(decoded);
    assert_eq!(
        features,
        vec![
            feature("Patriots Path, Mendham, NJ 07945, USA", 407838351, -746143763),
            feature("", 408122808, -743999179),
        ]
    );
    let bounds = Rectangle {
        low: Some(point(400000000, -750000000)),
        high: Some(point(420000000, -730000000)),
    };
    let listing = select_features(&features, &bounds);
    assert!(listing.complete);
    assert_eq!(listing.found.len(), 2);
}
