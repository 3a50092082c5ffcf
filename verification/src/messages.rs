//! The messages that clients and the service exchange.

use vstd::prelude::*;

verus! {

/// A position on the map, in units of 1e-7 degrees.
#[derive(Clone, Copy, PartialEq, Eq, Structural, Hash, Debug)]
pub struct Point {
    pub latitude: i32,
    pub longitude: i32,
}

/// A rectangle of the map, given by two opposite corners in either order.
#[derive(Clone, Copy, PartialEq, Eq, Structural, Debug)]
pub struct Rectangle {
    pub low: Option<Point>,
    pub high: Option<Point>,
}

/// A named place. An empty name marks an answer for an unknown position.
#[derive(PartialEq, Debug)]
pub struct Feature {
    pub name: String,
    pub location: Option<Point>,
}

/// A chat message that was sent from a position.
#[derive(PartialEq, Debug)]
pub struct RouteNote {
    pub location: Option<Point>,
    pub message: String,
}

/// What a recorded route amounts to.
#[derive(Clone, Copy, PartialEq, Eq, Structural, Debug)]
pub struct RouteSummary {
    pub point_count: i32,
    pub feature_count: i32,
    pub distance: i32,
    pub elapsed_time_seconds: i32,
}

/// The answer to a request that changes the feature table.
#[derive(PartialEq, Debug)]
pub struct Status {
    pub status: i32,
    pub error_message: String,
}

/// The number by which [`Status`] reports success.
pub const CODE_OK: i32 = 0;

/// Why a request was turned down.
#[derive(PartialEq, Debug)]
pub enum RpcError {
    /// The service itself failed; the text says how.
    Internal(String),
}

/// What a [`Feature`] holds, with its name as a sequence of characters.
pub struct FeatureView {
    pub name: Seq<char>,
    pub location: Option<Point>,
}

impl View for Feature {
    type V = FeatureView;

    open spec fn view(&self) -> FeatureView {
        FeatureView { name: self.name@, location: self.location }
    }
}

/// The feature that stands for "nothing is known here".
pub open spec fn no_feature() -> FeatureView {
    FeatureView { name: Seq::empty(), location: None }
}

impl Clone for Feature {
    fn clone(&self) -> (copy: Self)
        ensures
            copy == *self,
    {
        Feature { name: self.name.clone(), location: self.location }
    }
}

impl Default for Feature {
    fn default() -> (feature: Self)
        ensures
            feature@ == no_feature(),
            feature.name@.len() == 0,
            feature.location is None,
    {
        Feature { name: String::new(), location: None }
    }
}

impl Feature {
    /// Whether the feature is placed exactly at `point`.
    pub open spec fn at(self, point: Point) -> bool {
        self.location == Some(point)
    }

    /// Whether the feature is placed exactly at `point`.
    pub fn is_at(&self, point: &Point) -> (at: bool)
        ensures
            at == self.at(*point),
            at <==> self.location is Some && self.location->0.latitude == point.latitude
                && self.location->0.longitude == point.longitude,
    {
        match &self.location {
            Some(location) => *location == *point,
            None => false,
        }
    }
}

/// A feature is placed at a point if both of its coordinates are the point's.
pub proof fn placed_where_both_coordinates_agree(feature: Feature, point: Point)
    ensures
        feature.at(point) ==> feature.location is Some,
        feature.at(point) ==> feature.location->0.latitude == point.latitude,
        feature.at(point) ==> feature.location->0.longitude == point.longitude,
        feature.location is Some && feature.location->0.latitude == point.latitude
            && feature.location->0.longitude == point.longitude ==> feature.at(point),
{
}

/// A feature is placed at one point at most.
pub proof fn placed_at_one_point(feature: Feature, one: Point, other: Point)
    requires
        feature.at(one),
        feature.at(other),
    ensures
        one.latitude == other.latitude,
        one.longitude == other.longitude,
{
}

/// A feature shows its own name and its own location, and "nothing is known
/// here" is shown by no name and no location.
pub proof fn view_shows_name_and_location(feature: Feature)
    ensures
        feature@.name == feature.name@,
        feature@.location == feature.location,
        feature@ == no_feature() <==> feature.name@.len() == 0 && feature.location is None,
{
    assert(feature.name@.len() == 0 ==> feature.name@ =~= Seq::<char>::empty());
}

impl Clone for RouteNote {
    fn clone(&self) -> (copy: Self)
        ensures
            copy == *self,
    {
        RouteNote { location: self.location, message: self.message.clone() }
    }
}

impl Default for RouteSummary {
    fn default() -> (summary: Self)
        ensures
            summary == (RouteSummary {
                point_count: 0,
                feature_count: 0,
                distance: 0,
                elapsed_time_seconds: 0,
            }),
    {
        RouteSummary { point_count: 0, feature_count: 0, distance: 0, elapsed_time_seconds: 0 }
    }
}

} // verus!
