//! The summing up of a route while its points come in.

use vstd::prelude::*;

use crate::features::{count_at, features_at};
use crate::messages::{Feature, Point, RouteSummary};
use crate::table::FeatureTable;

verus! {

/// One point of a route: where it is, how many features the table held there
/// when it came in, and how far it is from the point before it.
pub struct Sighting {
    pub point: Point,
    pub features: nat,
    pub leg: int,
}

/// The sums over a route, without machine limits.
pub struct RouteTotals {
    pub points: int,
    pub features: int,
    pub distance: int,
    pub last_point: Option<Point>,
}

/// The sums over a route without points.
pub open spec fn no_totals() -> RouteTotals {
    RouteTotals { points: 0, features: 0, distance: 0, last_point: None }
}

impl RouteTotals {
    /// The sums after one more point. The first point of a route has no point
    /// before it and adds no distance.
    pub open spec fn plus(self, sighting: Sighting) -> RouteTotals {
        RouteTotals {
            points: self.points + 1,
            features: self.features + sighting.features,
            distance: self.distance + if self.last_point is Some { sighting.leg } else { 0 },
            last_point: Some(sighting.point),
        }
    }

    /// Whether the sums fit the fields of a [`RouteSummary`] after one more
    /// point, with `features` features and `leg` from the point before it.
    pub open spec fn room_for(self, features: nat, leg: int) -> bool {
        &&& self.points < i32::MAX
        &&& self.features + features <= i32::MAX
        &&& self.last_point is Some ==> i32::MIN <= self.distance + leg <= i32::MAX
    }
}

/// A sum left the range of its field in a [`RouteSummary`].
#[derive(Clone, Copy, PartialEq, Eq, Structural, Debug)]
pub struct SummaryOverflow;

/// What the stream of a route's points came up with.
pub enum RouteEvent<E> {
    /// The next point, and how far it is from the point before it.
    Arrived { point: Point, leg: i32 },
    /// The stream broke.
    Failed(E),
    /// The route is complete. It took this many seconds.
    Ended { elapsed_seconds: u64 },
}

/// What becomes of a route after an event.
pub enum RouteStep<E> {
    /// More points are awaited.
    Continue,
    /// The route is given up for this reason.
    Fail(E),
    /// The route is given up because a sum does not fit its summary.
    Overflow,
    /// The route is answered with this summary.
    Reply(RouteSummary),
}

/// The sums over the part of a route that has come in so far.
pub struct RouteRecorder {
    point_count: i32,
    feature_count: i32,
    distance: i32,
    last_point: Option<Point>,
}

impl View for RouteRecorder {
    type V = RouteTotals;

    closed spec fn view(&self) -> RouteTotals {
        RouteTotals {
            points: self.point_count as int,
            features: self.feature_count as int,
            distance: self.distance as int,
            last_point: self.last_point,
        }
    }
}

/// Whether `summary` holds `totals` and the time that the route took. Of the
/// time, a summary holds the low 32 bits as a signed number.
pub open spec fn sums_up(summary: RouteSummary, totals: RouteTotals, elapsed_seconds: u64) -> bool {
    &&& summary.point_count == totals.points
    &&& summary.feature_count == totals.features
    &&& summary.distance == totals.distance
    &&& summary.elapsed_time_seconds == elapsed_seconds as i32
}

impl RouteRecorder {
    /// Counts are never negative, and there is a last point once there is any.
    #[verifier::type_invariant]
    spec fn well_formed(self) -> bool {
        &&& self@.points >= 0
        &&& self@.features >= 0
        &&& self@.last_point is Some <==> self@.points > 0
    }

    /// A recorder for a route that is about to start.
    pub fn new() -> (recorder: RouteRecorder)
        ensures
            recorder@ == no_totals(),
            recorder@.points == 0,
            recorder@.features == 0,
            recorder@.distance == 0,
            recorder@.last_point is None,
    {
        RouteRecorder { point_count: 0, feature_count: 0, distance: 0, last_point: None }
    }

    /// The point that came in last.
    pub fn last_point(&self) -> (point: Option<Point>)
        ensures
            point == self@.last_point,
    {
        self.last_point
    }

    /// Whether the sums still fit a summary after a point at which `features`
    /// features are placed, and which lies `leg` from the point before it.
    pub fn has_room(&self, features: usize, leg: i32) -> (room: bool)
        ensures
            room == self@.room_for(features as nat, leg as int),
            room <==> {
                &&& self@.points + 1 <= i32::MAX
                &&& self@.features + features <= i32::MAX
                &&& self@.last_point is None || i32::MIN <= self@.distance + leg <= i32::MAX
            },
    {
        proof {
            use_type_invariant(self);
        }
        let distance_fits = match self.last_point {
            Some(_) => self.distance.checked_add(leg).is_some(),
            None => true,
        };
        self.point_count < i32::MAX && features <= (i32::MAX
            - self.feature_count) as usize && distance_fits
    }

    /// Adds a point at which `features` features are placed, and which lies
    /// `leg` from the point before it. For the first point `leg` is ignored.
    pub fn add_point(&mut self, point: Point, features: usize, leg: i32)
        requires
            old(self)@.room_for(features as nat, leg as int),
        ensures
            final(self)@ == old(self)@.plus(
                Sighting { point, features: features as nat, leg: leg as int },
            ),
            final(self)@.points == old(self)@.points + 1,
            final(self)@.features == old(self)@.features + features,
            old(self)@.last_point is Some ==> final(self)@.distance == old(self)@.distance + leg,
            old(self)@.last_point is None ==> final(self)@.distance == old(self)@.distance,
            final(self)@.last_point == Some(point),
    {
        proof {
            use_type_invariant(&*self);
        }
        *self = RouteRecorder {
            point_count: self.point_count + 1,
            feature_count: self.feature_count + features as i32,
            distance: if self.last_point.is_some() {
                self.distance + leg
            } else {
                self.distance
            },
            last_point: Some(point),
        };
    }

    /// Adds a point of the route, with the features that the current version of
    /// the table has there. Where a sum would not fit, nothing is added.
    pub fn record(&mut self, table: &mut FeatureTable, point: Point, leg: i32) -> (added: Result<
        (),
        SummaryOverflow,
    >)
        ensures
            final(table).read_on_from(*old(table)),
            ({
                let here = features_at(final(table)@, point).len();
                if old(self)@.room_for(here, leg as int) {
                    &&& added is Ok
                    &&& final(self)@ == old(self)@.plus(
                        Sighting { point, features: here, leg: leg as int },
                    )
                } else {
                    added is Err && *final(self) == *old(self)
                }
            }),
    {
        let reader = table.read();
        let features: usize = count_at(reader.features(), &point);
        if self.has_room(features, leg) {
            self.add_point(point, features, leg);
            Ok(())
        } else {
            Err(SummaryOverflow)
        }
    }

    /// The summary of the finished route, which took `elapsed_seconds`.
    pub fn finish(&self, elapsed_seconds: u64) -> (summary: RouteSummary)
        ensures
            sums_up(summary, self@, elapsed_seconds),
            summary.point_count == self@.points,
            summary.feature_count == self@.features,
            summary.distance == self@.distance,
            forall|route: Seq<Sighting>|
                self@ == #[trigger] route_totals(route) ==> {
                    &&& summary.point_count == route.len()
                    &&& summary.feature_count == features_met(route)
                    &&& summary.distance == route_length(route)
                },
            elapsed_seconds <= i32::MAX ==> summary.elapsed_time_seconds == elapsed_seconds,
            summary.elapsed_time_seconds == elapsed_seconds as i32,
    {
        proof {
            assert forall|route: Seq<Sighting>| self@ == #[trigger] route_totals(route) implies {
                &&& self@.points == route.len()
                &&& self@.features == features_met(route)
                &&& self@.distance == route_length(route)
            } by {
                totals_of_a_route(route);
            }
        }
        RouteSummary {
            point_count: self.point_count,
            feature_count: self.feature_count,
            distance: self.distance,
            elapsed_time_seconds: #[verifier::truncate]
            (elapsed_seconds as i32),
        }
    }

    /// Takes in what the stream of the route's points came up with.
    pub fn step<E>(&mut self, table: &mut FeatureTable, event: RouteEvent<E>) -> (step: RouteStep<
        E,
    >)
        ensures
            match event {
                RouteEvent::Arrived { point, leg } => {
                    let here = features_at(final(table)@, point).len();
                    &&& final(table).read_on_from(*old(table))
                    &&& if old(self)@.room_for(here, leg as int) {
                        &&& step is Continue
                        &&& final(self)@ == old(self)@.plus(
                            Sighting { point, features: here, leg: leg as int },
                        )
                    } else {
                        step is Overflow && *final(self) == *old(self)
                    }
                },
                RouteEvent::Failed(reason) => {
                    &&& step == RouteStep::Fail(reason)
                    &&& *final(self) == *old(self)
                    &&& *final(table) == *old(table)
                },
                RouteEvent::Ended { elapsed_seconds } => {
                    &&& step matches RouteStep::Reply(summary)
                    &&& sums_up(summary, old(self)@, elapsed_seconds)
                    &&& summary.point_count == old(self)@.points
                    &&& summary.feature_count == old(self)@.features
                    &&& summary.distance == old(self)@.distance
                    &&& summary.elapsed_time_seconds == elapsed_seconds as i32
                    &&& forall|route: Seq<Sighting>|
                        old(self)@ == #[trigger] route_totals(route) ==> {
                            &&& summary.point_count == route.len()
                            &&& summary.feature_count == features_met(route)
                            &&& summary.distance == route_length(route)
                        }
                    &&& *final(self) == *old(self)
                    &&& *final(table) == *old(table)
                },
            },
    {
        match event {
            RouteEvent::Arrived { point, leg } => match self.record(table, point, leg) {
                Ok(()) => RouteStep::Continue,
                Err(SummaryOverflow) => RouteStep::Overflow,
            },
            RouteEvent::Failed(reason) => RouteStep::Fail(reason),
            RouteEvent::Ended { elapsed_seconds } => RouteStep::Reply(self.finish(elapsed_seconds)),
        }
    }
}

/// The sums over a whole route.
pub open spec fn route_totals(route: Seq<Sighting>) -> RouteTotals
    decreases route.len(),
{
    if route.len() == 0 {
        no_totals()
    } else {
        route_totals(route.drop_last()).plus(route.last())
    }
}

/// The features met along a route.
pub open spec fn features_met(route: Seq<Sighting>) -> int {
    route.fold_left(0int, |sum: int, sighting: Sighting| sum + sighting.features)
}

/// The length of a route: the legs of all points but the first.
pub open spec fn route_length(route: Seq<Sighting>) -> int {
    if route.len() == 0 {
        0
    } else {
        route.drop_first().fold_left(0int, |sum: int, sighting: Sighting| sum + sighting.leg)
    }
}

/// A recorder counts the points, adds up the features met at each of them and
/// the legs between them, and keeps the last point.
pub proof fn totals_of_a_route(route: Seq<Sighting>)
    ensures
        route_totals(route).points == route.len(),
        route_totals(route).features == features_met(route),
        route_totals(route).distance == route_length(route),
        route_totals(route).last_point == if route.len() == 0 {
            None
        } else {
            Some(route.last().point)
        },
    decreases route.len(),
{
    reveal_with_fuel(Seq::fold_left, 2);
    if route.len() > 0 {
        let front = route.drop_last();
        totals_of_a_route(front);
        if route.len() > 1 {
            assert(route.drop_first().drop_last() =~= front.drop_first());
            assert(route.drop_first().last() == route.last());
        }
    }
}

/// The summary of a route counts its points, and adds up the features met at
/// each of them and the legs of all points but the first. The time is the
/// elapsed time, of which the low 32 bits are kept.
pub proof fn summary_adds_up_the_route(
    route: Seq<Sighting>,
    summary: RouteSummary,
    elapsed_seconds: u64,
)
    requires
        sums_up(summary, route_totals(route), elapsed_seconds),
    ensures
        summary.point_count == route.len(),
        summary.feature_count == route.fold_left(
            0int,
            |sum: int, sighting: Sighting| sum + sighting.features,
        ),
        route.len() > 0 ==> summary.distance == route.drop_first().fold_left(
            0int,
            |sum: int, sighting: Sighting| sum + sighting.leg,
        ),
        route.len() == 0 ==> summary.distance == 0,
        elapsed_seconds <= i32::MAX ==> summary.elapsed_time_seconds == elapsed_seconds,
        summary.elapsed_time_seconds == elapsed_seconds as i32,
{
    totals_of_a_route(route);
    assert(features_met(route) == route.fold_left(
        0int,
        |sum: int, sighting: Sighting| sum + sighting.features,
    ));
    if route.len() > 0 {
        assert(route_length(route) == route.drop_first().fold_left(
            0int,
            |sum: int, sighting: Sighting| sum + sighting.leg,
        ));
    }
}

/// One more point adds itself, the features met there and, unless it is the
/// first, its leg to the summary.
pub proof fn next_point_adds_to_the_summary(
    route: Seq<Sighting>,
    next: Sighting,
    before: RouteSummary,
    after: RouteSummary,
    elapsed_before: u64,
    elapsed_after: u64,
)
    requires
        sums_up(before, route_totals(route), elapsed_before),
        sums_up(after, route_totals(route.push(next)), elapsed_after),
    ensures
        after.point_count == before.point_count + 1,
        after.feature_count == before.feature_count + next.features,
        route.len() > 0 ==> after.distance == before.distance + next.leg,
        route.len() == 0 ==> after.distance == 0,
{
    assert(route.push(next).drop_last() =~= route);
    totals_of_a_route(route);
    totals_of_a_route(route.push(next));
}

/// A route without points sums up to nothing, and each point of a route takes
/// the sums over the points before it to the sums that include it.
pub proof fn totals_grow_point_by_point(route: Seq<Sighting>, next: Sighting)
    ensures
        route_totals(Seq::empty()) == no_totals(),
        route_totals(route.push(next)) == route_totals(route).plus(next),
{
    assert(route.push(next).drop_last() =~= route);
}

/// Two routes one after the other: the points and features are those of both,
/// and the length is that of both and of the leg in between.
pub proof fn joined_routes_add_up(first: Seq<Sighting>, second: Seq<Sighting>)
    requires
        first.len() > 0,
        second.len() > 0,
    ensures
        features_met(first + second) == features_met(first) + features_met(second),
        route_length(first + second) == route_length(first) + second[0].leg + route_length(second),
        route_totals(first + second).points == first.len() + second.len(),
        route_totals(first + second).features == route_totals(first).features + route_totals(
            second,
        ).features,
        route_totals(first + second).distance == route_totals(first).distance + second[0].leg
            + route_totals(second).distance,
    decreases second.len(),
{
    let both = first + second;
    totals_of_a_route(first);
    totals_of_a_route(second);
    totals_of_a_route(both);
    assert(both.drop_last() =~= first + second.drop_last());
    assert(both.last() == second.last());
    if second.len() > 1 {
        assert(second.drop_last()[0] == second[0]);
        joined_routes_add_up(first, second.drop_last());
        totals_of_a_route(first + second.drop_last());
        totals_of_a_route(second.drop_last());
    } else {
        assert(both.drop_last() =~= first);
        assert(second.drop_last() =~= Seq::<Sighting>::empty());
    }
}

/// A single point is a route of no length, with the features met there.
pub proof fn single_point_has_no_length(sighting: Sighting)
    ensures
        route_length(seq![sighting]) == 0,
        features_met(seq![sighting]) == sighting.features,
        route_totals(seq![sighting]).points == 1,
        route_totals(seq![sighting]).distance == 0,
        route_totals(seq![sighting]).features == sighting.features,
        route_totals(seq![sighting]).last_point == Some(sighting.point),
{
    let route = seq![sighting];
    reveal_with_fuel(route_totals, 2);
    totals_of_a_route(route);
    assert(route.drop_last() =~= Seq::<Sighting>::empty());
}

/// A recorder has room for a point exactly if no sum leaves the range of its
/// field by it.
pub proof fn room_is_left_until_a_sum_overflows(
    totals: RouteTotals,
    point: Point,
    features: nat,
    leg: int,
)
    requires
        0 <= totals.points <= i32::MAX,
        0 <= totals.features <= i32::MAX,
        i32::MIN <= totals.distance <= i32::MAX,
    ensures
        totals.room_for(features, leg) <==> {
            let grown = totals.plus(Sighting { point, features, leg });
            &&& grown.points <= i32::MAX
            &&& grown.features <= i32::MAX
            &&& i32::MIN <= grown.distance <= i32::MAX
        },
        totals.room_for(features, leg) <==> {
            &&& totals.points + 1 <= i32::MAX
            &&& totals.features + features <= i32::MAX
            &&& totals.last_point is None || i32::MIN <= totals.distance + leg <= i32::MAX
        },
{
}

/// A point adds one point, its features and, unless it is the first, its leg,
/// and becomes the last point.
pub proof fn point_adds_itself(totals: RouteTotals, next: Sighting)
    ensures
        totals.plus(next).points == totals.points + 1,
        totals.plus(next).features == totals.features + next.features,
        totals.last_point is Some ==> totals.plus(next).distance == totals.distance + next.leg,
        totals.last_point is None ==> totals.plus(next).distance == totals.distance,
        totals.plus(next).last_point == Some(next.point),
        no_totals().points == 0,
        no_totals().features == 0,
        no_totals().distance == 0,
        no_totals().last_point is None,
{
}

/// The points of a route as a recorder meets them: `features` stay as they are
/// meanwhile, and `distance` tells how far two points are apart.
pub open spec fn sightings(
    points: Seq<Point>,
    features: Seq<Feature>,
    distance: spec_fn(Point, Point) -> int,
) -> Seq<Sighting> {
    Seq::new(
        points.len(),
        |i: int|
            Sighting {
                point: points[i],
                features: features_at(features, points[i]).len(),
                leg: if i > 0 {
                    distance(points[i - 1], points[i])
                } else {
                    0
                },
            },
    )
}

/// Along an unchanged table a route and its reverse agree in points, features
/// and distance, if it is as far from one point to another as it is back.
pub proof fn reversed_route_has_the_same_totals(
    points: Seq<Point>,
    features: Seq<Feature>,
    distance: spec_fn(Point, Point) -> int,
)
    requires
        forall|a: Point, b: Point| #[trigger] distance(a, b) == distance(b, a),
    ensures
        ({
            let there = route_totals(sightings(points, features, distance));
            let back = route_totals(sightings(points.reverse(), features, distance));
            &&& there.points == back.points
            &&& there.features == back.features
            &&& there.distance == back.distance
        }),
{
    let there = sightings(points, features, distance);
    let back = sightings(points.reverse(), features, distance);
    totals_of_a_route(there);
    totals_of_a_route(back);

    let counts = there.map_values(|s: Sighting| s.features as int);
    let counts_back = back.map_values(|s: Sighting| s.features as int);
    lemma_features_met(there);
    lemma_features_met(back);
    assert(counts_back =~= counts.reverse());
    lemma_sum_reverse(counts);

    if points.len() > 0 {
        let legs = there.drop_first().map_values(|s: Sighting| s.leg);
        let legs_back = back.drop_first().map_values(|s: Sighting| s.leg);
        lemma_legs(there.drop_first());
        lemma_legs(back.drop_first());
        assert(legs_back =~= legs.reverse()) by {
            assert forall|i: int| 0 <= i < legs_back.len() implies legs_back[i] == legs.reverse()[i] by {
                let n = points.len() as int;
                let from = points[n - 1 - i];
                let to = points[n - 2 - i];
                assert(legs_back[i] == distance(from, to));
                assert(legs.reverse()[i] == legs[n - 2 - i]);
                assert(legs[n - 2 - i] == distance(to, from));
            }
        }
        lemma_sum_reverse(legs);
    }
}

/// The sum of a sequence of numbers.
spec fn sum(values: Seq<int>) -> int
    decreases values.len(),
{
    if values.len() == 0 {
        0
    } else {
        sum(values.drop_last()) + values.last()
    }
}

/// The features met are the sum over the points.
proof fn lemma_features_met(route: Seq<Sighting>)
    ensures
        features_met(route) == sum(route.map_values(|s: Sighting| s.features as int)),
    decreases route.len(),
{
    reveal_with_fuel(Seq::fold_left, 2);
    let counts = route.map_values(|s: Sighting| s.features as int);
    if route.len() > 0 {
        lemma_features_met(route.drop_last());
        assert(counts.drop_last() =~= route.drop_last().map_values(
            |s: Sighting| s.features as int,
        ));
    }
}

/// The length of a route is the sum of the legs.
proof fn lemma_legs(legs: Seq<Sighting>)
    ensures
        legs.fold_left(0int, |sum: int, sighting: Sighting| sum + sighting.leg) == sum(
            legs.map_values(|s: Sighting| s.leg),
        ),
    decreases legs.len(),
{
    reveal_with_fuel(Seq::fold_left, 2);
    let values = legs.map_values(|s: Sighting| s.leg);
    if legs.len() > 0 {
        lemma_legs(legs.drop_last());
        assert(values.drop_last() =~= legs.drop_last().map_values(|s: Sighting| s.leg));
    }
}

/// A first number adds itself to the sum.
proof fn lemma_sum_first(first: int, values: Seq<int>)
    ensures
        sum(seq![first] + values) == first + sum(values),
    decreases values.len(),
{
    let all = seq![first] + values;
    if values.len() == 0 {
        assert(all.drop_last() =~= values);
        assert(all.last() == first);
    } else {
        assert(all.last() == values.last());
        assert(all.drop_last() =~= seq![first] + values.drop_last());
        lemma_sum_first(first, values.drop_last());
    }
}

/// Numbers have the same sum in reverse.
proof fn lemma_sum_reverse(values: Seq<int>)
    ensures
        sum(values.reverse()) == sum(values),
    decreases values.len(),
{
    if values.len() > 0 {
        let front = values.drop_last();
        lemma_sum_reverse(front);
        assert(values.reverse() =~= seq![values.last()] + front.reverse());
        lemma_sum_first(values.last(), front.reverse());
    } else {
        assert(values.reverse() =~= values);
    }
}

} // verus!
