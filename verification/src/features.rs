//! Questions asked of the features of one version of the table.

use vstd::prelude::*;

use crate::geometry::in_range;
use crate::messages::{no_feature, Feature, Point, Rectangle};

verus! {

/// The test for features placed exactly at `point`.
pub open spec fn at_point(point: Point) -> spec_fn(Feature) -> bool {
    |feature: Feature| feature.at(point)
}

/// The features placed exactly at `point`, oldest first.
pub open spec fn features_at(features: Seq<Feature>, point: Point) -> Seq<Feature> {
    features.filter(at_point(point))
}

/// Whether some feature is placed exactly at `point`.
pub open spec fn is_known(features: Seq<Feature>, point: Point) -> bool {
    exists|i: int| 0 <= i < features.len() && (#[trigger] features[i]).at(point)
}

/// Whether `features[i]` is the oldest feature placed exactly at `point`.
pub open spec fn is_oldest_at(features: Seq<Feature>, point: Point, i: int) -> bool {
    &&& 0 <= i < features.len()
    &&& features[i].at(point)
    &&& forall|j: int| 0 <= j < i ==> !(#[trigger] features[j]).at(point)
}

/// Whether `answer` is what the table has to say about `point`: the oldest
/// feature placed there, or the nameless feature where there is none.
pub open spec fn answers(features: Seq<Feature>, point: Point, answer: Feature) -> bool {
    if is_known(features, point) {
        exists|i: int| #[trigger] is_oldest_at(features, point, i) && answer == features[i]
    } else {
        answer@ == no_feature()
    }
}

/// The test for features that `bounds` covers.
pub open spec fn covered_by(bounds: Rectangle) -> spec_fn(Feature) -> bool {
    |feature: Feature| feature.location is Some && bounds.covers(feature.location->0)
}

/// Whether it can be told if `feature` lies in `bounds`: it needs a location,
/// and the rectangle needs both corners.
pub open spec fn comparable(feature: Feature, bounds: Rectangle) -> bool {
    feature.location is Some && bounds.complete()
}

/// The leading features up to the first one that cannot be compared with
/// `bounds`.
pub open spec fn comparable_prefix(features: Seq<Feature>, bounds: Rectangle) -> Seq<Feature>
    decreases features.len(),
{
    if features.len() == 0 || !comparable(features[0], bounds) {
        Seq::empty()
    } else {
        seq![features[0]] + comparable_prefix(features.drop_first(), bounds)
    }
}

/// Whether every feature can be compared with `bounds`.
pub open spec fn all_comparable(features: Seq<Feature>, bounds: Rectangle) -> bool {
    forall|i: int| 0 <= i < features.len() ==> comparable(#[trigger] features[i], bounds)
}

/// The features that `bounds` covers, oldest first, up to the first feature
/// that cannot be compared with it.
pub open spec fn listed(features: Seq<Feature>, bounds: Rectangle) -> Seq<Feature> {
    comparable_prefix(features, bounds).filter(covered_by(bounds))
}

/// The features of a rectangle, as far as the table could be searched.
pub struct Listing {
    /// The features found, oldest first.
    pub found: Vec<Feature>,
    /// Whether the search reached the end of the table.
    pub complete: bool,
}

/// The oldest feature at `point`, or the nameless feature.
pub fn find_feature(features: &Vec<Feature>, point: &Point) -> (answer: Feature)
    ensures
        answers(features@, *point, answer),
        (exists|i: int| 0 <= i < features.len() && (#[trigger] features[i]).location == Some(*point))
            ==> {
            &&& answer.location is Some
            &&& answer.location->0.latitude == point.latitude
            &&& answer.location->0.longitude == point.longitude
            &&& exists|i: int|
                #![trigger features[i]]
                0 <= i < features.len() && answer == features[i] && forall|j: int|
                    0 <= j < i ==> (#[trigger] features[j]).location != Some(*point)
        },
        (forall|i: int|
            0 <= i < features.len() ==> (#[trigger] features[i]).location != Some(*point)) ==> {
            &&& answer.name@.len() == 0
            &&& answer.location is None
        },
{
    let mut i: usize = 0;
    while i < features.len()
        invariant
            i <= features.len(),
            forall|j: int| 0 <= j < i ==> !(#[trigger] features[j]).at(*point),
        decreases features.len() - i,
    {
        if features[i].is_at(point) {
            assert(is_oldest_at(features@, *point, i as int));
            let answer = features[i].clone();
            proof {
                answer_is_the_oldest_with_the_coordinates(features@, *point, answer);
            }
            return answer;
        }
        i += 1;
    }
    let answer = Feature::default();
    proof {
        answer_is_the_oldest_with_the_coordinates(features@, *point, answer);
    }
    answer
}

/// How many features are placed exactly at `point`.
pub fn count_at(features: &Vec<Feature>, point: &Point) -> (count: usize)
    ensures
        count == features_at(features@, *point).len(),
        count == features@.filter(|feature: Feature| feature.location == Some(*point)).len(),
{
    let mut count: usize = 0;
    let mut i: usize = 0;
    while i < features.len()
        invariant
            i <= features.len(),
            count <= i,
            count == features_at(features@.take(i as int), *point).len(),
        decreases features.len() - i,
    {
        proof {
            lemma_filter_next(features@, at_point(*point), i as int);
        }
        if features[i].is_at(point) {
            count += 1;
        }
        i += 1;
    }
    assert(features@.take(i as int) =~= features@);
    proof {
        features_at_are_those_located_there(features@, *point);
    }
    count
}

/// The features that lie in `bounds`, up to the first feature for which that
/// cannot be told.
pub fn select_features(features: &Vec<Feature>, bounds: &Rectangle) -> (listing: Listing)
    ensures
        listing.found@ == listed(features@, *bounds),
        listing.complete == all_comparable(features@, *bounds),
        listing.complete <==> forall|i: int|
            0 <= i < features.len() ==> (#[trigger] features[i]).location is Some && bounds.low is Some
                && bounds.high is Some,
        forall|i: int|
            0 <= i < listing.found.len() ==> {
                let point = (#[trigger] listing.found[i]).location->0;
                let low = bounds.low->0;
                let high = bounds.high->0;
                &&& features@.contains(listing.found[i])
                &&& listing.found[i].location is Some
                &&& low.latitude <= point.latitude || high.latitude <= point.latitude
                &&& point.latitude <= low.latitude || point.latitude <= high.latitude
                &&& low.longitude <= point.longitude || high.longitude <= point.longitude
                &&& point.longitude <= low.longitude || point.longitude <= high.longitude
            },
{
    let mut found: Vec<Feature> = Vec::new();
    let mut i: usize = 0;
    while i < features.len()
        invariant
            i <= features.len(),
            forall|j: int| 0 <= j < i ==> comparable(#[trigger] features[j], *bounds),
            found@ == features@.take(i as int).filter(covered_by(*bounds)),
        decreases features.len() - i,
    {
        proof {
            lemma_filter_next(features@, covered_by(*bounds), i as int);
        }
        let location = match &features[i].location {
            Some(location) if bounds.low.is_some() && bounds.high.is_some() => location,
            _ => {
                proof {
                    lemma_comparable_prefix(features@, *bounds, i as int);
                    features_with_locations_are_comparable(features@, *bounds);
                    lemma_listed_features_lie_between_the_corners(features@, *bounds);
                }
                return Listing { found, complete: false };
            },
        };
        if in_range(location, bounds) {
            found.push(features[i].clone());
        }
        i += 1;
    }
    proof {
        lemma_comparable_prefix(features@, *bounds, i as int);
        features_with_locations_are_comparable(features@, *bounds);
        lemma_listed_features_lie_between_the_corners(features@, *bounds);
    }
    Listing { found, complete: true }
}

/// One more element adds itself to a filtered prefix if it passes the test.
proof fn lemma_filter_next<A>(items: Seq<A>, test: spec_fn(A) -> bool, i: int)
    requires
        0 <= i < items.len(),
    ensures
        items.take(i + 1).filter(test) == if test(items[i]) {
            items.take(i).filter(test).push(items[i])
        } else {
            items.take(i).filter(test)
        },
{
    reveal(Seq::filter);
    assert(items.take(i + 1).drop_last() =~= items.take(i));
}

/// The comparable prefix ends at the first feature that cannot be compared.
proof fn lemma_comparable_prefix(features: Seq<Feature>, bounds: Rectangle, len: int)
    requires
        0 <= len <= features.len(),
        forall|i: int| 0 <= i < len ==> comparable(#[trigger] features[i], bounds),
        len < features.len() ==> !comparable(features[len], bounds),
    ensures
        comparable_prefix(features, bounds) == features.take(len),
    decreases len,
{
    if len > 0 {
        let rest = features.drop_first();
        assert forall|i: int| 0 <= i < len - 1 implies comparable(#[trigger] rest[i], bounds) by {
            assert(rest[i] == features[i + 1]);
        }
        lemma_comparable_prefix(rest, bounds, len - 1);
        assert(seq![features[0]] + rest.take(len - 1) =~= features.take(len));
    } else {
        assert(features.take(0) =~= Seq::<Feature>::empty());
    }
}

/// There is an oldest feature wherever there is a feature at all.
proof fn lemma_oldest_exists(features: Seq<Feature>, point: Point) -> (i: int)
    requires
        is_known(features, point),
    ensures
        is_oldest_at(features, point, i),
    decreases features.len(),
{
    let front = features.drop_last();
    if is_known(front, point) {
        let i = lemma_oldest_exists(front, point);
        assert forall|j: int| 0 <= j < i implies !(#[trigger] features[j]).at(point) by {
            assert(front[j] == features[j]);
        }
        i
    } else {
        let last = features.len() - 1;
        assert forall|j: int| 0 <= j < last implies !(#[trigger] features[j]).at(point) by {
            assert(front[j] == features[j]);
        }
        last
    }
}

/// Before the first feature is added, every point is unknown, no rectangle has
/// anything to list, and no point counts any features.
pub proof fn empty_table_knows_nothing(point: Point, bounds: Rectangle, answer: Feature)
    ensures
        answers(Seq::empty(), point, answer) <==> answer@ == no_feature(),
        listed(Seq::empty(), bounds) == Seq::<Feature>::empty(),
        all_comparable(Seq::empty(), bounds),
        features_at(Seq::empty(), point).len() == 0,
{
    reveal(Seq::filter);
}

/// The table does not give two different answers for one point.
pub proof fn one_answer_per_point(features: Seq<Feature>, point: Point, one: Feature, other: Feature)
    requires
        answers(features, point, one),
        answers(features, point, other),
    ensures
        one@ == other@,
        is_known(features, point) ==> one == other,
{
}

/// A feature at the asked point is in the table; nothing else is made up.
pub proof fn answers_come_from_the_table(features: Seq<Feature>, point: Point, answer: Feature)
    requires
        answers(features, point, answer),
    ensures
        is_known(features, point) <==> answer.at(point),
        is_known(features, point) ==> features.contains(answer),
{
}

/// Adding a feature answers the points that were unknown before, at its own
/// location only, and changes no other answer.
pub proof fn added_feature_is_found(
    features: Seq<Feature>,
    added: Feature,
    point: Point,
    answer: Feature,
)
    ensures
        !is_known(features, point) && added.at(point) ==> (answers(
            features.push(added),
            point,
            answer,
        ) <==> answer == added),
        is_known(features, point) || !added.at(point) ==> (answers(
            features.push(added),
            point,
            answer,
        ) <==> answers(features, point, answer)),
{
    let grown = features.push(added);
    assert(forall|i: int| 0 <= i < features.len() ==> grown[i] == features[i]);
    assert(grown[features.len() as int] == added);
    if is_known(features, point) {
        let i = lemma_oldest_exists(features, point);
        assert(is_oldest_at(grown, point, i));
        assert(grown[i].at(point));
    } else if added.at(point) {
        assert(is_oldest_at(grown, point, features.len() as int));
    }
}

/// A point that has an answer keeps it in every later version of the table.
pub proof fn answers_are_kept(
    features: Seq<Feature>,
    later: Seq<Feature>,
    point: Point,
    answer: Feature,
)
    requires
        features.is_prefix_of(later),
        is_known(features, point),
    ensures
        answers(later, point, answer) <==> answers(features, point, answer),
{
    assert(forall|i: int| 0 <= i < features.len() ==> later[i] == features[i]);
    let i = lemma_oldest_exists(features, point);
    assert(later[i].at(point));
    assert(is_oldest_at(later, point, i));
}

/// Once a feature was added, every later version of the table has an answer
/// for its location, and has this feature for an answer if the location was
/// unknown before.
pub proof fn added_feature_stays_found(
    features: Seq<Feature>,
    added: Feature,
    later: Seq<Feature>,
    point: Point,
    answer: Feature,
)
    requires
        added.at(point),
        features.push(added).is_prefix_of(later),
        answers(later, point, answer),
    ensures
        answer.at(point),
        !is_known(features, point) ==> answer == added,
        is_known(features, point) ==> answers(features, point, answer),
{
    let grown = features.push(added);
    assert(grown[features.len() as int].at(point));
    answers_are_kept(grown, later, point, answer);
    added_feature_is_found(features, added, point, answer);
    answers_come_from_the_table(grown, point, answer);
}

/// Whatever version of the table is asked, its answer is the one that all of
/// the table's history gives, or else the nameless feature. Where nothing is
/// ever added, it is the nameless feature.
pub proof fn answers_come_from_what_is_added(
    version: Seq<Feature>,
    history: Seq<Feature>,
    point: Point,
    answer: Feature,
)
    requires
        version.is_prefix_of(history),
        answers(version, point, answer),
    ensures
        is_known(version, point) ==> answers(history, point, answer),
        !is_known(version, point) ==> answer@ == no_feature(),
        answer@ == no_feature() || (answer.at(point) && history.contains(answer)),
        history.len() == 0 ==> answer@ == no_feature(),
{
    if is_known(version, point) {
        answers_are_kept(version, history, point, answer);
        let i = lemma_oldest_exists(version, point);
        assert(history[i] == version[i]);
        answers_come_from_the_table(history, point, answer);
    }
}

/// A listing holds the features that the rectangle covers, and only those.
pub proof fn listing_is_exact(features: Seq<Feature>, bounds: Rectangle, feature: Feature)
    ensures
        listed(features, bounds).contains(feature) <==> comparable_prefix(
            features,
            bounds,
        ).contains(feature) && covered_by(bounds)(feature),
{
    let searched = comparable_prefix(features, bounds);
    let test = covered_by(bounds);
    if searched.filter(test).contains(feature) {
        searched.lemma_filter_contains_rev(test, feature);
        let i = choose|i: int|
            0 <= i < searched.filter(test).len() && searched.filter(test)[i] == feature;
        searched.lemma_filter_pred(test, i);
    }
    if searched.contains(feature) && test(feature) {
        let i = choose|i: int| 0 <= i < searched.len() && searched[i] == feature;
        searched.lemma_filter_contains(test, i);
    }
}

/// Where every feature can be compared, the whole table is searched.
pub proof fn comparable_table_is_searched(features: Seq<Feature>, bounds: Rectangle)
    requires
        all_comparable(features, bounds),
    ensures
        comparable_prefix(features, bounds) == features,
{
    lemma_comparable_prefix(features, bounds, features.len() as int);
    assert(features.take(features.len() as int) =~= features);
}

/// The answer for a known point is listed by every rectangle that covers the
/// point.
pub proof fn found_feature_is_listed(
    features: Seq<Feature>,
    bounds: Rectangle,
    point: Point,
    answer: Feature,
)
    requires
        all_comparable(features, bounds),
        is_known(features, point),
        answers(features, point, answer),
        bounds.covers(point),
    ensures
        listed(features, bounds).contains(answer),
{
    comparable_table_is_searched(features, bounds);
    listing_is_exact(features, bounds, answer);
}

/// A rectangle that is a single point lists the features at that point.
pub proof fn point_rectangle_lists_the_point(features: Seq<Feature>, point: Point)
    requires
        forall|i: int| 0 <= i < features.len() ==> (#[trigger] features[i]).location is Some,
    ensures
        listed(features, Rectangle { low: Some(point), high: Some(point) }) == features_at(
            features,
            point,
        ),
{
    let bounds = Rectangle { low: Some(point), high: Some(point) };
    comparable_table_is_searched(features, bounds);
    assert(covered_by(bounds) =~= at_point(point));
}

/// Adding a comparable feature extends a complete listing by that feature, if
/// the rectangle covers it, and by nothing else.
pub proof fn added_feature_is_listed(features: Seq<Feature>, bounds: Rectangle, added: Feature)
    requires
        all_comparable(features, bounds),
        comparable(added, bounds),
    ensures
        listed(features.push(added), bounds) == if bounds.covers(added.location->0) {
            listed(features, bounds).push(added)
        } else {
            listed(features, bounds)
        },
{
    comparable_table_is_searched(features, bounds);
    comparable_table_is_searched(features.push(added), bounds);
    features.lemma_filter_push(added, covered_by(bounds));
}

/// The answer for a point is the oldest feature whose latitude and longitude
/// are those of the point. Where no feature has both, it is a feature without
/// a name and without a location.
pub proof fn answer_is_the_oldest_with_the_coordinates(
    features: Seq<Feature>,
    point: Point,
    answer: Feature,
)
    requires
        answers(features, point, answer),
    ensures
        (forall|i: int|
            0 <= i < features.len() ==> (#[trigger] features[i]).location != Some(point)) ==> {
            &&& answer.name@.len() == 0
            &&& answer.location is None
        },
        (exists|i: int| 0 <= i < features.len() && (#[trigger] features[i]).location == Some(point))
            ==> {
            &&& answer.location is Some
            &&& answer.location->0.latitude == point.latitude
            &&& answer.location->0.longitude == point.longitude
            &&& exists|i: int|
                #![trigger features[i]]
                0 <= i < features.len() && answer == features[i] && forall|j: int|
                    0 <= j < i ==> (#[trigger] features[j]).location != Some(point)
        },
{
    if is_known(features, point) {
        let i = choose|i: int| #[trigger] is_oldest_at(features, point, i) && answer == features[i];
        assert(answer == features[i]);
        assert forall|j: int| 0 <= j < i implies (#[trigger] features[j]).location != Some(
            point,
        ) by {
            assert(!features[j].at(point));
        }
    } else {
        assert forall|i: int| 0 <= i < features.len() implies (
        #[trigger] features[i]).location != Some(point) by {
            assert(!features[i].at(point));
        }
    }
}

/// A point is known if some feature has its coordinates, and not otherwise.
pub proof fn known_points_are_the_located_ones(features: Seq<Feature>, point: Point)
    ensures
        is_known(features, point) <==> exists|i: int|
            0 <= i < features.len() && (#[trigger] features[i]).location == Some(point),
{
    if is_known(features, point) {
        let i = choose|i: int| 0 <= i < features.len() && (#[trigger] features[i]).at(point);
        assert(features[i].location == Some(point));
    }
    if exists|i: int| 0 <= i < features.len() && (#[trigger] features[i]).location == Some(point) {
        let i = choose|i: int|
            0 <= i < features.len() && (#[trigger] features[i]).location == Some(point);
        assert(features[i].at(point));
    }
}

/// The features at a point are those that have it for a location.
pub proof fn features_at_are_those_located_there(features: Seq<Feature>, point: Point)
    ensures
        features_at(features, point) == features.filter(
            |feature: Feature| feature.location == Some(point),
        ),
{
    assert(at_point(point) =~= (|feature: Feature| feature.location == Some(point)));
}

/// One more feature is one more at its own location, and changes the count of
/// no other point.
pub proof fn added_feature_counts_at_its_location(
    features: Seq<Feature>,
    added: Feature,
    point: Point,
)
    ensures
        added.location == Some(point) ==> features_at(features.push(added), point) == features_at(
            features,
            point,
        ).push(added),
        added.location != Some(point) ==> features_at(features.push(added), point) == features_at(
            features,
            point,
        ),
{
    features.lemma_filter_push(added, at_point(point));
}

/// It can be told of every feature whether it lies in a rectangle if every
/// feature has a location and, unless there are no features, both corners are
/// given.
pub proof fn features_with_locations_are_comparable(features: Seq<Feature>, bounds: Rectangle)
    ensures
        all_comparable(features, bounds) <==> forall|i: int|
            0 <= i < features.len() ==> (#[trigger] features[i]).location is Some
                && bounds.low is Some && bounds.high is Some,
{
    if all_comparable(features, bounds) {
        assert forall|i: int| 0 <= i < features.len() implies (
        #[trigger] features[i]).location is Some && bounds.low is Some && bounds.high is Some by {
            assert(comparable(features[i], bounds));
        }
    }
}

/// A listed feature is in the table and lies neither south nor north nor west
/// nor east of both corners of the rectangle.
pub proof fn listed_features_lie_between_the_corners(
    features: Seq<Feature>,
    bounds: Rectangle,
    feature: Feature,
)
    requires
        listed(features, bounds).contains(feature),
    ensures
        features.contains(feature),
        feature.location is Some,
        bounds.low is Some,
        bounds.high is Some,
        ({
            let point = feature.location->0;
            let low = bounds.low->0;
            let high = bounds.high->0;
            &&& low.latitude <= point.latitude || high.latitude <= point.latitude
            &&& point.latitude <= low.latitude || point.latitude <= high.latitude
            &&& low.longitude <= point.longitude || high.longitude <= point.longitude
            &&& point.longitude <= low.longitude || point.longitude <= high.longitude
        }),
{
    listing_is_exact(features, bounds, feature);
    lemma_comparable_prefix_length(features, bounds);
    let searched = comparable_prefix(features, bounds);
    let i = choose|i: int| 0 <= i < searched.len() && searched[i] == feature;
    assert(features[i] == feature);
}

/// Every listed feature lies between the corners.
proof fn lemma_listed_features_lie_between_the_corners(features: Seq<Feature>, bounds: Rectangle)
    ensures
        forall|i: int|
            0 <= i < listed(features, bounds).len() ==> {
                let point = (#[trigger] listed(features, bounds)[i]).location->0;
                let low = bounds.low->0;
                let high = bounds.high->0;
                &&& features.contains(listed(features, bounds)[i])
                &&& listed(features, bounds)[i].location is Some
                &&& low.latitude <= point.latitude || high.latitude <= point.latitude
                &&& point.latitude <= low.latitude || point.latitude <= high.latitude
                &&& low.longitude <= point.longitude || high.longitude <= point.longitude
                &&& point.longitude <= low.longitude || point.longitude <= high.longitude
            },
{
    assert forall|i: int| 0 <= i < listed(features, bounds).len() implies {
        let point = (#[trigger] listed(features, bounds)[i]).location->0;
        let low = bounds.low->0;
        let high = bounds.high->0;
        &&& features.contains(listed(features, bounds)[i])
        &&& listed(features, bounds)[i].location is Some
        &&& low.latitude <= point.latitude || high.latitude <= point.latitude
        &&& point.latitude <= low.latitude || point.latitude <= high.latitude
        &&& low.longitude <= point.longitude || high.longitude <= point.longitude
        &&& point.longitude <= low.longitude || point.longitude <= high.longitude
    } by {
        listed_features_lie_between_the_corners(features, bounds, listed(features, bounds)[i]);
    }
}

/// Where every feature has a location, no feature between two given corners is
/// left out.
pub proof fn features_between_the_corners_are_listed(
    features: Seq<Feature>,
    low: Point,
    high: Point,
    i: int,
)
    requires
        forall|j: int| 0 <= j < features.len() ==> (#[trigger] features[j]).location is Some,
        0 <= i < features.len(),
        ({
            let point = features[i].location->0;
            &&& low.latitude <= point.latitude || high.latitude <= point.latitude
            &&& point.latitude <= low.latitude || point.latitude <= high.latitude
            &&& low.longitude <= point.longitude || high.longitude <= point.longitude
            &&& point.longitude <= low.longitude || point.longitude <= high.longitude
        }),
    ensures
        listed(features, (Rectangle { low: Some(low), high: Some(high) })).contains(features[i]),
{
    let bounds = Rectangle { low: Some(low), high: Some(high) };
    comparable_table_is_searched(features, bounds);
    listing_is_exact(features, bounds, features[i]);
}

/// A feature that is added behind features with locations is listed last if it
/// lies between the corners, and else the listing stays as it was.
pub proof fn added_feature_is_listed_last(
    features: Seq<Feature>,
    added: Feature,
    low: Point,
    high: Point,
)
    requires
        forall|j: int| 0 <= j < features.len() ==> (#[trigger] features[j]).location is Some,
        added.location is Some,
    ensures
        ({
            let bounds = Rectangle { low: Some(low), high: Some(high) };
            let point = added.location->0;
            let inside = {
                &&& low.latitude <= point.latitude || high.latitude <= point.latitude
                &&& point.latitude <= low.latitude || point.latitude <= high.latitude
                &&& low.longitude <= point.longitude || high.longitude <= point.longitude
                &&& point.longitude <= low.longitude || point.longitude <= high.longitude
            };
            &&& inside ==> listed(features.push(added), bounds) == listed(features, bounds).push(
                added,
            )
            &&& !inside ==> listed(features.push(added), bounds) == listed(features, bounds)
        }),
{
    let bounds = Rectangle { low: Some(low), high: Some(high) };
    added_feature_is_listed(features, bounds, added);
}

/// A listing stops at a feature without a location, whatever comes after it.
pub proof fn listing_stops_at_a_feature_without_location(
    features: Seq<Feature>,
    lost: Feature,
    rest: Seq<Feature>,
    bounds: Rectangle,
)
    requires
        lost.location is None,
    ensures
        listed(features.push(lost) + rest, bounds) == listed(features, bounds),
        !all_comparable(features.push(lost) + rest, bounds),
{
    let all = features.push(lost) + rest;
    let len = lemma_comparable_prefix_length(features, bounds);
    assert(all[features.len() as int] == lost);
    assert(forall|i: int| 0 <= i < features.len() ==> all[i] == features[i]);
    lemma_comparable_prefix(all, bounds, len);
    assert(all.take(len) =~= features.take(len));
}

/// Without both corners nothing is listed.
pub proof fn incomplete_rectangle_lists_nothing(features: Seq<Feature>, bounds: Rectangle)
    requires
        bounds.low is None || bounds.high is None,
    ensures
        listed(features, bounds) == Seq::<Feature>::empty(),
        all_comparable(features, bounds) <==> features.len() == 0,
{
    reveal(Seq::filter);
    if features.len() > 0 {
        assert(!comparable(features[0], bounds));
    }
}

/// Where the comparable prefix ends.
proof fn lemma_comparable_prefix_length(features: Seq<Feature>, bounds: Rectangle) -> (len: int)
    ensures
        0 <= len <= features.len(),
        forall|i: int| 0 <= i < len ==> comparable(#[trigger] features[i], bounds),
        len < features.len() ==> !comparable(features[len], bounds),
        comparable_prefix(features, bounds) == features.take(len),
    decreases features.len(),
{
    let len = if features.len() == 0 || !comparable(features[0], bounds) {
        0
    } else {
        let rest = features.drop_first();
        let len = lemma_comparable_prefix_length(rest, bounds) + 1;
        assert forall|i: int| 0 <= i < len implies comparable(#[trigger] features[i], bounds) by {
            if i > 0 {
                assert(features[i] == rest[i - 1]);
            }
        }
        if len < features.len() {
            assert(features[len] == rest[len - 1]);
        }
        len
    };
    lemma_comparable_prefix(features, bounds, len);
    len
}

/// The listing of a later version of the table starts with the listing of an
/// earlier one.
pub proof fn listings_only_grow(features: Seq<Feature>, later: Seq<Feature>, bounds: Rectangle)
    requires
        features.is_prefix_of(later),
    ensures
        listed(features, bounds).is_prefix_of(listed(later, bounds)),
{
    lemma_comparable_prefix_grows(features, later, bounds);
    let searched = comparable_prefix(features, bounds);
    let searched_later = comparable_prefix(later, bounds);
    let rest = searched_later.skip(searched.len() as int);
    assert(searched + rest =~= searched_later);
    Seq::filter_distributes_over_add(searched, rest, covered_by(bounds));
}

/// The part of the table that can be searched only grows.
proof fn lemma_comparable_prefix_grows(
    features: Seq<Feature>,
    later: Seq<Feature>,
    bounds: Rectangle,
)
    requires
        features.is_prefix_of(later),
    ensures
        comparable_prefix(features, bounds).is_prefix_of(comparable_prefix(later, bounds)),
    decreases features.len(),
{
    if features.len() > 0 && comparable(features[0], bounds) {
        assert(later[0] == features[0]);
        assert(features.drop_first() =~= later.drop_first().subrange(0, features.len() - 1));
        lemma_comparable_prefix_grows(features.drop_first(), later.drop_first(), bounds);
        let rest = comparable_prefix(features.drop_first(), bounds);
        let rest_later = comparable_prefix(later.drop_first(), bounds);
        assert(seq![features[0]] + rest =~= (seq![later[0]] + rest_later).subrange(
            0,
            1 + rest.len() as int,
        ));
    }
}

} // verus!
