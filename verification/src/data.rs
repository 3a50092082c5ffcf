//! The features that a data file lists.

use vstd::prelude::*;

use crate::features::{all_comparable, answers, comparable_prefix, is_oldest_at};
use crate::messages::{Feature, Point, Rectangle};

verus! {

/// The position of an entry of a data file.
#[derive(Clone, Copy, PartialEq, Eq, Structural, Debug)]
pub struct Location {
    pub latitude: i32,
    pub longitude: i32,
}

/// One entry of a data file.
#[derive(PartialEq, Debug)]
pub struct DataFeature {
    pub location: Location,
    pub name: String,
}

impl DataFeature {
    /// The position of the entry on the map.
    pub open spec fn point(self) -> Point {
        Point { latitude: self.location.latitude, longitude: self.location.longitude }
    }
}

/// Whether `feature` says what `entry` says.
pub open spec fn loaded_from(feature: Feature, entry: DataFeature) -> bool {
    feature.name == entry.name && feature.location == Some(entry.point())
}

/// Whether `features` are the features of `entries`, in the same order.
pub open spec fn all_loaded_from(features: Seq<Feature>, entries: Seq<DataFeature>) -> bool {
    &&& features.len() == entries.len()
    &&& forall|i: int| 0 <= i < entries.len() ==> loaded_from(#[trigger] features[i], entries[i])
}

/// The features of the decoded entries of a data file.
pub fn load_data(decoded: Vec<DataFeature>) -> (features: Vec<Feature>)
    ensures
        all_loaded_from(features@, decoded@),
        features.len() == decoded.len(),
        forall|i: int|
            0 <= i < decoded.len() ==> {
                &&& (#[trigger] features[i]).name == decoded[i].name
                &&& features[i].location is Some
                &&& features[i].location->0.latitude == decoded[i].location.latitude
                &&& features[i].location->0.longitude == decoded[i].location.longitude
            },
{
    let mut features: Vec<Feature> = Vec::new();
    for entry in entries: decoded
        invariant
            features.len() == entries.index(),
            entries.seq() == decoded@,
            forall|i: int|
                0 <= i < features.len() ==> loaded_from(#[trigger] features[i], decoded[i]),
    {
        features.push(
            Feature {
                name: entry.name,
                location: Some(
                    Point {
                        longitude: entry.location.longitude,
                        latitude: entry.location.latitude,
                    },
                ),
            },
        );
    }
    features
}

/// Each entry becomes the feature in the same place of the list, with the
/// entry's name, latitude and longitude, and there are no other features.
pub proof fn entries_keep_name_and_coordinates(
    features: Seq<Feature>,
    entries: Seq<DataFeature>,
    i: int,
)
    requires
        all_loaded_from(features, entries),
    ensures
        features.len() == entries.len(),
        0 <= i < entries.len() ==> {
            &&& features[i].name == entries[i].name
            &&& features[i].location is Some
            &&& features[i].location->0.latitude == entries[i].location.latitude
            &&& features[i].location->0.longitude == entries[i].location.longitude
        },
{
}

/// Asked at the coordinates of an entry, the loaded features answer with a
/// feature at these coordinates: the one of the first entry that has them.
pub proof fn loaded_entry_is_found(
    features: Seq<Feature>,
    entries: Seq<DataFeature>,
    i: int,
    point: Point,
    answer: Feature,
)
    requires
        all_loaded_from(features, entries),
        0 <= i < entries.len(),
        point.latitude == entries[i].location.latitude,
        point.longitude == entries[i].location.longitude,
        answers(features, point, answer),
    ensures
        answer.location is Some,
        answer.location->0.latitude == entries[i].location.latitude,
        answer.location->0.longitude == entries[i].location.longitude,
        (forall|j: int| 0 <= j < i ==> (#[trigger] entries[j]).location != entries[i].location)
            ==> answer.name == entries[i].name,
{
    assert(features[i].at(point));
    let k = choose|k: int| #[trigger] is_oldest_at(features, point, k) && answer == features[k];
    assert(k <= i);
    assert(loaded_from(features[k], entries[k]));
    if k < i {
        assert(entries[k].location == entries[i].location);
    }
}

/// Loaded features never cut a search short: in a rectangle with both corners
/// all of them are searched.
pub proof fn loaded_features_are_searched(
    features: Seq<Feature>,
    entries: Seq<DataFeature>,
    bounds: Rectangle,
)
    requires
        all_loaded_from(features, entries),
        bounds.complete(),
    ensures
        all_comparable(features, bounds),
        comparable_prefix(features, bounds) == features,
{
    crate::features::comparable_table_is_searched(features, bounds);
}

} // verus!
