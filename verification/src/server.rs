//! The service's side of a request: answering it from the feature table, and
//! passing new features on to the table's writer.

use crossbeam::channel::{Receiver, SendError, Sender, TryRecvError};
use vstd::prelude::*;

use crate::features::{all_comparable, answers, listed};
use crate::features::{find_feature, select_features, Listing};
use crate::messages::{Feature, Point, Rectangle, RpcError, Status, CODE_OK};
use crate::table::{additions_follow_in_order, after_adding, FeatureTable, FeatureWriter};

verus! {

/// A request that a worker can answer.
pub enum RouteGuideServiceRequest {
    GetFeature(Point),
}

/// A worker's answer.
pub enum RouteGuideServiceResponse {
    GetFeature(Feature),
}

/// Answers requests from its own handle to the feature table.
pub struct RouteGuideWorker {
    features: FeatureTable,
}

impl RouteGuideWorker {
    /// The handle that the worker answers from.
    pub closed spec fn table(self) -> FeatureTable {
        self.features
    }

    /// A worker that answers from `features`.
    pub fn new(features: FeatureTable) -> (worker: RouteGuideWorker)
        ensures
            worker.table() == features,
    {
        RouteGuideWorker { features }
    }

    /// The oldest feature at `point` in the current version of the table, or
    /// the nameless feature.
    pub fn get_feature(&mut self, point: Point) -> (feature: Feature)
        ensures
            final(self).table().read_on_from(old(self).table()),
            answers(final(self).table()@, point, feature),
    {
        let reader = self.features.read();
        find_feature(reader.features(), &point)
    }

    /// Answers one request.
    pub fn answer(&mut self, request: RouteGuideServiceRequest) -> (response:
        RouteGuideServiceResponse)
        ensures
            final(self).table().read_on_from(old(self).table()),
            match (request, response) {
                (
                    RouteGuideServiceRequest::GetFeature(point),
                    RouteGuideServiceResponse::GetFeature(feature),
                ) => answers(final(self).table()@, point, feature),
            },
    {
        match request {
            RouteGuideServiceRequest::GetFeature(point) => RouteGuideServiceResponse::GetFeature(
                self.get_feature(point),
            ),
        }
    }
}

/// The features of the current version of the table that lie in `bounds`, up
/// to the first feature for which that cannot be told.
pub fn list_features(table: &mut FeatureTable, bounds: &Rectangle) -> (listing: Listing)
    ensures
        final(table).read_on_from(*old(table)),
        listing.found@ == listed(final(table)@, *bounds),
        listing.complete == all_comparable(final(table)@, *bounds),
{
    let reader = table.read();
    select_features(reader.features(), bounds)
}

/// `Sender` of `crossbeam`: the sending half of a channel.
#[verifier::external_type_specification]
#[verifier::external_body]
#[verifier::reject_recursive_types(T)]
pub struct ExSender<T>(Sender<T>);

/// `Receiver` of `crossbeam`: the receiving half of a channel.
#[verifier::external_type_specification]
#[verifier::external_body]
#[verifier::reject_recursive_types(T)]
pub struct ExReceiver<T>(Receiver<T>);

/// Whether the channel of a sender has no bound, so that sending never waits.
pub uninterp spec fn never_full(sender: Sender<Feature>) -> bool;

/// Whether nothing is put into the channel but by [`send_feature`] through this
/// very sender. It is so of the senders of this module, which do not leave it.
pub uninterp spec fn only_sender(sender: Sender<Feature>) -> bool;

/// Whether nothing is taken out of the channel but by [`receive_feature`]
/// through this very receiver. It is so of the receivers of this module, which
/// do not leave it.
pub uninterp spec fn only_receiver(receiver: Receiver<Feature>) -> bool;

/// All that is ever put into the channel of a sender, oldest first.
pub uninterp spec fn flow_into(sender: Sender<Feature>) -> Seq<Feature>;

/// All that is ever put into the channel of a receiver, oldest first.
pub uninterp spec fn flow_out_of(receiver: Receiver<Feature>) -> Seq<Feature>;

/// What was put into the channel through this very sender, oldest first.
pub uninterp spec fn sent_through(sender: Sender<Feature>) -> Seq<Feature>;

/// What was taken out of the channel through this very receiver, oldest first.
pub uninterp spec fn received_through(receiver: Receiver<Feature>) -> Seq<Feature>;

/// Calls `crossbeam::channel::unbounded`: the two ends of a new channel without
/// a bound.
#[verifier::external_body]
fn unbounded_channel() -> (channel: (Sender<Feature>, Receiver<Feature>))
    ensures
        never_full(channel.0),
        only_sender(channel.0),
        only_receiver(channel.1),
        flow_into(channel.0) == flow_out_of(channel.1),
        sent_through(channel.0) == Seq::<Feature>::empty(),
        received_through(channel.1) == Seq::<Feature>::empty(),
    no_unwind
{
    crossbeam::channel::unbounded()
}

/// Calls `Sender::send`: puts a feature into the channel, or gives it back
/// where nobody can receive it any more. Whether somebody can depends on the
/// receiving task; nothing is said of it. Once the receiver is gone it does not
/// come back, and the channel takes nothing any more: what was sent up to a
/// feature that came back is all that is ever put in. A channel with a bound
/// would make the call wait for room, and is left out.
#[verifier::external_body]
fn send_feature(sender: &mut Sender<Feature>, feature: Feature) -> (sent: Result<(), Feature>)
    requires
        never_full(*old(sender)),
        only_sender(*old(sender)),
    ensures
        never_full(*final(sender)),
        only_sender(*final(sender)),
        flow_into(*final(sender)) == flow_into(*old(sender)),
        sent is Ok ==> sent_through(*final(sender)) == sent_through(*old(sender)).push(feature),
        sent is Ok ==> sent_through(*final(sender)).is_prefix_of(flow_into(*final(sender))),
        sent is Err ==> sent_through(*final(sender)) == sent_through(*old(sender)),
        sent is Err ==> sent_through(*final(sender)) == flow_into(*final(sender)),
        sent matches Err(returned) ==> returned == feature,
    no_unwind
{
    sender.send(feature).map_err(SendError::into_inner)
}

/// What a channel came up with.
pub enum Received {
    /// The feature that was put in first of those still there.
    Next(Feature),
    /// Nothing for now.
    Empty,
    /// Nothing any more: all that was put in was taken out.
    Closed,
}

/// Calls `Receiver::try_recv`: takes the oldest feature out of the channel. It
/// does not wait; a channel without a feature is told apart by whether another
/// can come. Which of the three outcomes it is depends on the sending task.
#[verifier::external_body]
fn receive_feature(receiver: &mut Receiver<Feature>) -> (received: Received)
    requires
        only_receiver(*old(receiver)),
    ensures
        only_receiver(*final(receiver)),
        flow_out_of(*final(receiver)) == flow_out_of(*old(receiver)),
        received matches Received::Next(feature) ==> {
            &&& received_through(*final(receiver)) == received_through(*old(receiver)).push(feature)
            &&& received_through(*final(receiver)).is_prefix_of(flow_out_of(*final(receiver)))
        },
        !(received is Next) ==> received_through(*final(receiver)) == received_through(
            *old(receiver),
        ),
        received is Closed ==> received_through(*final(receiver)) == flow_out_of(*final(receiver)),
    no_unwind
{
    match receiver.try_recv() {
        Ok(feature) => Received::Next(feature),
        Err(TryRecvError::Empty) => Received::Empty,
        Err(TryRecvError::Disconnected) => Received::Closed,
    }
}

/// The text of a failed send.
pub open spec fn send_error_text() -> Seq<char> {
    "\"SendError(..)\""@
}

/// Calls the `Debug` implementation of `SendError`: the text names the error,
/// in quotes, and nothing of what was sent.
#[verifier::external_body]
fn describe_send_error(unsent: Feature) -> (text: String)
    ensures
        text@ == send_error_text(),
{
    format!("{:?}", SendError(unsent))
}

/// Whether `reply` tells the client that its feature was taken.
pub open spec fn taken(reply: Result<Status, RpcError>) -> bool {
    reply matches Ok(status) && status.status == CODE_OK && status.error_message@ == ""@
}

/// Whether `reply` tells the client that the service failed to pass its
/// feature on.
pub open spec fn not_passed_on(reply: Result<Status, RpcError>) -> bool {
    reply matches Err(RpcError::Internal(text)) && text@ == send_error_text()
}

/// What a client is told after its feature was sent to the table's writer, or
/// came back unsent.
pub fn add_feature_reply(sent: Result<(), Feature>) -> (reply: Result<Status, RpcError>)
    ensures
        sent is Ok ==> taken(reply),
        sent is Err ==> not_passed_on(reply),
        sent is Ok <==> reply is Ok,
        reply matches Ok(status) ==> status.status == 0 && status.error_message@.len() == 0,
        reply matches Err(RpcError::Internal(text)) ==> text@ == "\"SendError(..)\""@,
{
    proof {
        reveal_strlit("");
    }
    match sent {
        Ok(()) => Ok(Status { status: CODE_OK, error_message: "".to_owned() }),
        Err(unsent) => Err(RpcError::Internal(describe_send_error(unsent))),
    }
}

/// Takes in new features on behalf of the table's writer.
pub struct ProgramRouteService {
    features_sender: Sender<Feature>,
}

impl ProgramRouteService {
    #[verifier::type_invariant]
    spec fn valid(self) -> bool {
        &&& never_full(self.features_sender)
        &&& only_sender(self.features_sender)
        &&& sent_through(self.features_sender).is_prefix_of(flow_into(self.features_sender))
    }

    /// The features that were passed on to the table's writer, oldest first.
    pub closed spec fn passed_on(self) -> Seq<Feature> {
        sent_through(self.features_sender)
    }

    /// All the features that are ever passed on, oldest first.
    pub closed spec fn history(self) -> Seq<Feature> {
        flow_into(self.features_sender)
    }

    /// A service, and the inbox in which the table's writer finds the features
    /// that are passed on.
    pub fn new() -> (service: (ProgramRouteService, FeatureInbox))
        ensures
            service.0.passed_on().len() == 0,
            service.1.taken_out().len() == 0,
            service.0.passed_on() == Seq::<Feature>::empty(),
            service.1.taken_out() == Seq::<Feature>::empty(),
            service.0.history() == service.1.history(),
    {
        let (features_sender, receiver) = unbounded_channel();
        (ProgramRouteService { features_sender }, FeatureInbox { receiver })
    }

    /// Passes `feature` on to the table's writer. Whether that works depends on
    /// the writer; the reply is what [`add_feature_reply`] makes of the
    /// outcome. A feature is only ever refused if from then on nothing can be
    /// passed on any more, whatever the feature.
    pub fn add_feature(&mut self, feature: Feature) -> (reply: Result<Status, RpcError>)
        ensures
            final(self).history() == old(self).history(),
            final(self).passed_on().is_prefix_of(final(self).history()),
            ({
                ||| taken(reply) && final(self).passed_on() == old(self).passed_on().push(feature)
                ||| not_passed_on(reply) && final(self).passed_on() == old(self).passed_on()
            }),
            reply matches Ok(status) ==> {
                &&& status.status == 0
                &&& status.error_message@.len() == 0
                &&& final(self).passed_on() == old(self).passed_on().push(feature)
            },
            reply matches Err(RpcError::Internal(text)) ==> {
                &&& text@ == "\"SendError(..)\""@
                &&& final(self).passed_on() == old(self).passed_on()
                &&& final(self).passed_on() == final(self).history()
            },
            old(self).passed_on() != old(self).history() ==> reply is Ok,
    {
        proof {
            use_type_invariant(&*self);
        }
        add_feature_reply(send_feature(&mut self.features_sender, feature))
    }
}

/// The features that were passed on and wait for the table's writer.
pub struct FeatureInbox {
    receiver: Receiver<Feature>,
}

/// What became of an attempt to store a feature.
#[derive(Clone, Copy, PartialEq, Eq, Structural, Debug)]
pub enum StoreStep {
    /// One feature was moved from the inbox to the table.
    Stored,
    /// The inbox is empty for now.
    Empty,
    /// The inbox is empty, and nothing comes in any more.
    Closed,
}

/// What becomes of the table when the channel came up with `received`.
pub fn store_received(received: Received, writer: &mut FeatureWriter) -> (step: StoreStep)
    ensures
        final(writer).identity() == old(writer).identity(),
        final(writer).history() == old(writer).history(),
        match received {
            Received::Next(feature) => step is Stored && final(writer)@ == old(writer)@.push(
                feature,
            ),
            Received::Empty => step is Empty && *final(writer) == *old(writer),
            Received::Closed => step is Closed && *final(writer) == *old(writer),
        },
{
    match received {
        Received::Next(feature) => {
            writer.push(feature);
            StoreStep::Stored
        },
        Received::Empty => StoreStep::Empty,
        Received::Closed => StoreStep::Closed,
    }
}

impl FeatureInbox {
    #[verifier::type_invariant]
    spec fn valid(self) -> bool {
        &&& only_receiver(self.receiver)
        &&& received_through(self.receiver).is_prefix_of(flow_out_of(self.receiver))
    }

    /// The features that were taken out of the inbox, oldest first.
    pub closed spec fn taken_out(self) -> Seq<Feature> {
        received_through(self.receiver)
    }

    /// All the features that ever come in, oldest first.
    pub closed spec fn history(self) -> Seq<Feature> {
        flow_out_of(self.receiver)
    }

    /// Moves the oldest feature of the inbox, if there is one, to the end of
    /// the table. Whether there is one depends on the tasks that pass features
    /// on; the rest is what [`store_received`] makes of the outcome.
    pub fn store_next(&mut self, writer: &mut FeatureWriter) -> (step: StoreStep)
        ensures
            final(self).history() == old(self).history(),
            final(self).taken_out().is_prefix_of(final(self).history()),
            final(writer).identity() == old(writer).identity(),
            final(writer).history() == old(writer).history(),
            step is Stored ==> {
                let feature = final(self).taken_out().last();
                &&& final(self).taken_out() == old(self).taken_out().push(feature)
                &&& final(writer)@ == old(writer)@.push(feature)
            },
            !(step is Stored) ==> final(self).taken_out() == old(self).taken_out()
                && *final(writer) == *old(writer),
            step is Closed ==> final(self).taken_out() == final(self).history(),
    {
        proof {
            use_type_invariant(&*self);
        }
        store_received(receive_feature(&mut self.receiver), writer)
    }
}

/// Once as many features were taken out of the inbox as were passed on, they
/// are the features that were passed on, and a table to which they were added
/// holds what it held before, followed by them in the order in which they were
/// passed on.
pub proof fn accepted_features_reach_the_table(
    features: Seq<Feature>,
    passed_on: Seq<Feature>,
    taken_out: Seq<Feature>,
    history: Seq<Feature>,
)
    requires
        passed_on.is_prefix_of(history),
        taken_out.is_prefix_of(history),
        taken_out.len() == passed_on.len(),
    ensures
        taken_out == passed_on,
        after_adding(features, taken_out) == features + passed_on,
{
    additions_follow_in_order(features, taken_out);
}

/// The replies to a client tell the two outcomes apart: a feature that was
/// taken is answered with success and no message, one that was not with the
/// text of the failed send.
pub proof fn replies_tell_the_outcome(reply: Result<Status, RpcError>)
    ensures
        taken(reply) ==> {
            &&& reply matches Ok(status)
            &&& status.status == 0
            &&& status.error_message@.len() == 0
        },
        not_passed_on(reply) ==> {
            &&& reply matches Err(RpcError::Internal(text))
            &&& text@ == "\"SendError(..)\""@
        },
        !(taken(reply) && not_passed_on(reply)),
{
    reveal_strlit("");
}

/// A feature is refused only when nothing is passed on after it. So whatever
/// is passed on later in the same history, or comes out of the inbox, was passed
/// on before the refusal: where another feature still gets through, none was
/// refused before it.
pub proof fn features_are_refused_for_good(
    passed_on: Seq<Feature>,
    later: Seq<Feature>,
    taken_out: Seq<Feature>,
    history: Seq<Feature>,
)
    requires
        passed_on == history,
        passed_on.is_prefix_of(later),
        later.is_prefix_of(history),
        taken_out.is_prefix_of(history),
    ensures
        later == passed_on,
        taken_out.is_prefix_of(passed_on),
        forall|feature: Feature| !passed_on.push(feature).is_prefix_of(history),
{
    assert(later =~= passed_on);
    assert forall|feature: Feature| !passed_on.push(feature).is_prefix_of(history) by {
        assert(passed_on.push(feature).len() == history.len() + 1);
    }
}

/// Once a closed inbox has given everything, a table to which that was added
/// starts with what it held before, followed by the features that were passed
/// on, in order.
pub proof fn closed_inbox_has_given_everything(
    features: Seq<Feature>,
    passed_on: Seq<Feature>,
    taken_out: Seq<Feature>,
    history: Seq<Feature>,
)
    requires
        passed_on.is_prefix_of(history),
        taken_out == history,
    ensures
        (features + passed_on).is_prefix_of(after_adding(features, taken_out)),
{
    additions_follow_in_order(features, taken_out);
    let table = after_adding(features, taken_out);
    assert(features + passed_on =~= table.subrange(0, (features + passed_on).len() as int));
}

/// Whether a client may go on after this reply.
pub fn is_accepted(status: &Status) -> (accepted: bool)
    ensures
        accepted == (status.status == CODE_OK),
        accepted <==> status.status == 0,
{
    status.status == CODE_OK
}

} // verus!
