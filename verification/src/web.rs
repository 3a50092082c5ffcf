//! The browser's side: what is asked of the service for it, and how the
//! answers are passed on.

use vstd::prelude::*;

use crate::messages::{Feature, Point, Rectangle};
use crate::text::{feature_line, feature_text};

verus! {

/// For how many seconds a client keeps trying to reach the service.
pub const CONNECT_SECONDS: u64 = 60;

/// Whether a client that has been trying for this many whole seconds tries
/// once more.
pub fn keeps_trying(elapsed_seconds: u64) -> (again: bool)
    ensures
        again == (elapsed_seconds < CONNECT_SECONDS),
        again <==> elapsed_seconds < 60,
{
    elapsed_seconds < CONNECT_SECONDS
}

/// The rectangle between two corners.
pub fn rectangle_between(
    low_lat: i32,
    low_long: i32,
    high_lat: i32,
    high_long: i32,
) -> (rectangle: Rectangle)
    ensures
        rectangle.complete(),
        rectangle.low->0 == (Point { latitude: low_lat, longitude: low_long }),
        rectangle.high->0 == (Point { latitude: high_lat, longitude: high_long }),
        rectangle.low is Some,
        rectangle.high is Some,
        rectangle.low->0.latitude == low_lat,
        rectangle.low->0.longitude == low_long,
        rectangle.high->0.latitude == high_lat,
        rectangle.high->0.longitude == high_long,
{
    Rectangle {
        low: Some(Point { latitude: low_lat, longitude: low_long }),
        high: Some(Point { latitude: high_lat, longitude: high_long }),
    }
}

/// The rectangle that is listed where none was asked for.
pub fn default_rectangle() -> (rectangle: Rectangle)
    ensures
        rectangle.complete(),
        rectangle.low is Some,
        rectangle.high is Some,
        rectangle.low->0.latitude == 400000000,
        rectangle.low->0.longitude == -750000000,
        rectangle.high->0.latitude == 420000000,
        rectangle.high->0.longitude == -730000000,
{
    rectangle_between(400000000, -750000000, 420000000, -730000000)
}

/// What a stream of features came up with when it was polled.
pub enum StreamPoll {
    /// The next feature.
    Item(Feature),
    /// An error, described.
    Failed(String),
    /// There are no more features.
    Ended,
    /// Nothing yet.
    Pending,
}

/// What a reader of the stream gets.
pub enum ReadStep {
    /// This text.
    Emit(String),
    /// A failure with this description.
    Fail(String),
    /// The end: success, without any text.
    Finish,
    /// It has to wait.
    Wait,
}

/// Turns a stream of features into a stream of lines.
pub fn poll_read(polled: StreamPoll) -> (step: ReadStep)
    ensures
        match polled {
            StreamPoll::Item(feature) => step matches ReadStep::Emit(line) && line@
                == feature_text(feature@) + "\n"@,
            StreamPoll::Failed(reason) => step == ReadStep::Fail(reason),
            StreamPoll::Ended => step is Finish,
            StreamPoll::Pending => step is Wait,
        },
{
    match polled {
        StreamPoll::Item(feature) => ReadStep::Emit(feature_line(&feature)),
        StreamPoll::Failed(reason) => ReadStep::Fail(reason),
        StreamPoll::Ended => ReadStep::Finish,
        StreamPoll::Pending => ReadStep::Wait,
    }
}

} // verus!
