//! The feature table, shared between the task that adds features and the
//! tasks that answer requests.
//!
//! The table is a vector of the `active_standby` crate: readers see the last
//! published version and never wait for the writer. There is one writer, which
//! only ever adds features at the end, so each version starts with the one
//! before it, and all of them are the beginnings of one history: all that is
//! ever added. The writer knows the table exactly. How far the writer has come
//! by the time of another task's read is not known, unless the writer is held
//! meanwhile; whatever is read is a beginning of the history, and what one
//! handle has seen, it goes on seeing.

use active_standby::collections::vec::AsLockHandle;
use active_standby::primitives::ReadGuard;
use vstd::prelude::*;

use crate::messages::Feature;

verus! {

/// `AsLockHandle` of `active_standby`: one task's access to a shared vector.
#[verifier::external_type_specification]
#[verifier::external_body]
#[verifier::reject_recursive_types(T)]
pub struct ExAsLockHandle<T>(AsLockHandle<T>);

/// `ReadGuard` of `active_standby`: a published version, held for reading.
#[verifier::external_type_specification]
#[verifier::external_body]
#[verifier::reject_recursive_types(T)]
pub struct ExReadGuard<'r, T>(ReadGuard<'r, T>);

/// Whether the vector behind a handle was empty at first and is written to by
/// [`push_to_handle`] alone. It is so of the handles of this module, which do
/// not leave it.
pub uninterp spec fn only_grows(handle: AsLockHandle<Feature>) -> bool;

/// Whether no other handle is ever given to [`push_to_handle`] for the vector
/// behind this one. It is so of the first handle to a vector of this module.
pub uninterp spec fn sole_writer(handle: AsLockHandle<Feature>) -> bool;

/// Which vector a handle leads to.
pub uninterp spec fn vector_of(handle: AsLockHandle<Feature>) -> int;

/// All that is ever added to the vector behind a handle, oldest first.
pub uninterp spec fn additions(handle: AsLockHandle<Feature>) -> Seq<Feature>;

/// The latest version that a handle is known to have got to.
pub uninterp spec fn seen(handle: AsLockHandle<Feature>) -> Seq<Feature>;

/// The version that a read guard shows.
pub uninterp spec fn shown(guard: ReadGuard<'_, Vec<Feature>>) -> Seq<Feature>;

/// Calls `AsLockHandle::default`: the first handle to a new, empty vector.
#[verifier::external_body]
fn new_handle() -> (handle: AsLockHandle<Feature>)
    ensures
        only_grows(handle),
        sole_writer(handle),
        seen(handle) == Seq::<Feature>::empty(),
        seen(handle).is_prefix_of(additions(handle)),
    no_unwind
{
    AsLockHandle::default()
}

/// Calls `AsLockHandle::clone`: another handle to the same vector. It starts at
/// the current version, which the first handle has not gone past.
#[verifier::external_body]
fn clone_handle(handle: &AsLockHandle<Feature>) -> (other: AsLockHandle<Feature>)
    requires
        only_grows(*handle),
    ensures
        only_grows(other),
        vector_of(other) == vector_of(*handle),
        additions(other) == additions(*handle),
        seen(other) == seen(*handle),
    no_unwind
{
    handle.clone()
}

/// Calls `AsLockHandle::clone`: another handle to the same vector, in place of
/// the one that writes, which is dropped. Nothing is added from then on.
#[verifier::external_body]
fn end_writing(handle: AsLockHandle<Feature>) -> (other: AsLockHandle<Feature>)
    requires
        only_grows(handle),
        sole_writer(handle),
    ensures
        only_grows(other),
        vector_of(other) == vector_of(handle),
        additions(other) == additions(handle),
        seen(other) == seen(handle),
        seen(other) == additions(other),
    no_unwind
{
    handle.clone()
}

/// Calls `AsLockHandle::read`: takes the version that was published last. It is
/// not older than what the handle has seen, and holds nothing but what was
/// added, in that order. The function panics where an earlier guard of the same
/// handle is still alive, which the exclusive borrow rules out.
#[verifier::external_body]
fn read_handle(handle: &mut AsLockHandle<Feature>) -> (guard: ReadGuard<'_, Vec<Feature>>)
    requires
        only_grows(*old(handle)),
    ensures
        seen(*old(handle)).is_prefix_of(shown(guard)),
        shown(guard).is_prefix_of(additions(*old(handle))),
        only_grows(*final(handle)),
        vector_of(*final(handle)) == vector_of(*old(handle)),
        additions(*final(handle)) == additions(*old(handle)),
        seen(*final(handle)) == shown(guard),
    no_unwind
{
    handle.read()
}

/// Calls `AsLockHandle::read` while the one handle that writes to the vector is
/// borrowed, so that nothing is added meanwhile: the version that was published
/// last is the one that the writing handle has got to. As in [`read_handle`],
/// the exclusive borrow rules out an earlier guard, on which the function would
/// panic.
#[verifier::external_body]
fn read_beside<'a>(
    handle: &'a mut AsLockHandle<Feature>,
    writer: &AsLockHandle<Feature>,
) -> (guard: ReadGuard<'a, Vec<Feature>>)
    requires
        only_grows(*old(handle)),
        only_grows(*writer),
        sole_writer(*writer),
        vector_of(*writer) == vector_of(*old(handle)),
    ensures
        seen(*old(handle)).is_prefix_of(shown(guard)),
        shown(guard) == seen(*writer),
        shown(guard).is_prefix_of(additions(*old(handle))),
        only_grows(*final(handle)),
        vector_of(*final(handle)) == vector_of(*old(handle)),
        additions(*final(handle)) == additions(*old(handle)),
        seen(*final(handle)) == shown(guard),
    no_unwind
{
    handle.read()
}

/// Calls `ReadGuard::deref`: lends the vector that the guard shows.
#[verifier::external_body]
fn lend<'a>(guard: &'a ReadGuard<'_, Vec<Feature>>) -> (features: &'a Vec<Feature>)
    ensures
        features@ == shown(*guard),
{
    guard
}

/// Calls `AsLockHandle::write` and `WriteGuard::push`: appends `feature` to the
/// vector and publishes that as the next version. It waits until no reader can
/// be at the copy that is written next: for the read guards that were alive at
/// the last publication, and, where the handle of such a guard was dropped and
/// a new handle has taken its slot, until the new handle has read as often. No
/// code of this crate holds a read guard while it writes.
#[verifier::external_body]
fn push_to_handle(handle: &mut AsLockHandle<Feature>, feature: Feature)
    requires
        only_grows(*old(handle)),
        sole_writer(*old(handle)),
    ensures
        only_grows(*final(handle)),
        sole_writer(*final(handle)),
        vector_of(*final(handle)) == vector_of(*old(handle)),
        additions(*final(handle)) == additions(*old(handle)),
        seen(*final(handle)) == seen(*old(handle)).push(feature),
        seen(*final(handle)).is_prefix_of(additions(*final(handle))),
    no_unwind
{
    handle.write().push(feature)
}

/// One task's handle to the feature table, for reading.
pub struct FeatureTable {
    handle: AsLockHandle<Feature>,
}

/// The one handle through which features are added to a table.
pub struct FeatureWriter {
    handle: AsLockHandle<Feature>,
}

/// One version of the feature table, held for reading.
pub(crate) struct FeatureReader<'r> {
    guard: ReadGuard<'r, Vec<Feature>>,
}

impl View for FeatureTable {
    type V = Seq<Feature>;

    /// The latest version of the table that this handle has got to.
    closed spec fn view(&self) -> Seq<Feature> {
        seen(self.handle)
    }
}

impl View for FeatureWriter {
    type V = Seq<Feature>;

    /// The features of the table.
    closed spec fn view(&self) -> Seq<Feature> {
        seen(self.handle)
    }
}

impl<'r> View for FeatureReader<'r> {
    type V = Seq<Feature>;

    closed spec fn view(&self) -> Seq<Feature> {
        shown(self.guard)
    }
}

impl FeatureTable {
    #[verifier::type_invariant]
    spec fn valid(self) -> bool {
        only_grows(self.handle) && seen(self.handle).is_prefix_of(additions(self.handle))
    }

    /// Which table the handle leads to.
    pub closed spec fn identity(self) -> int {
        vector_of(self.handle)
    }

    /// All that is ever added to the table, oldest first.
    pub closed spec fn history(self) -> Seq<Feature> {
        additions(self.handle)
    }

    /// Whether the handle has seen all that is ever added.
    pub open spec fn settled(self) -> bool {
        self@ == self.history()
    }

    /// Whether `self` is what `before` may have become by reading: a handle to
    /// the same table that has got to the same version or to a later one, and
    /// has seen nothing but what is added to the table.
    pub open spec fn read_on_from(self, before: FeatureTable) -> bool {
        &&& self.identity() == before.identity()
        &&& self.history() == before.history()
        &&& before@.is_prefix_of(self@)
        &&& self@.is_prefix_of(self.history())
    }

    /// Another handle to the same table, for another task.
    pub fn share(&self) -> (other: FeatureTable)
        ensures
            other.identity() == self.identity(),
            other.history() == self.history(),
            other@ == self@,
    {
        proof {
            use_type_invariant(self);
        }
        FeatureTable { handle: clone_handle(&self.handle) }
    }

    /// The version of the table that was published last.
    pub(crate) fn read(&mut self) -> (reader: FeatureReader<'_>)
        ensures
            final(self).read_on_from(*old(self)),
            final(self)@ == reader@,
    {
        proof {
            use_type_invariant(&*self);
        }
        FeatureReader { guard: read_handle(&mut self.handle) }
    }

    /// Reads up to where the writer has come, which does not go on meanwhile:
    /// all that was added shows through the handle, and nothing else.
    pub fn catch_up(&mut self, writer: &FeatureWriter)
        requires
            writer.identity() == old(self).identity(),
        ensures
            final(self).read_on_from(*old(self)),
            final(self)@ == writer@,
    {
        proof {
            use_type_invariant(&*self);
            use_type_invariant(writer);
        }
        let _guard = read_beside(&mut self.handle, &writer.handle);
    }
}

impl FeatureWriter {
    #[verifier::type_invariant]
    spec fn valid(self) -> bool {
        &&& only_grows(self.handle)
        &&& sole_writer(self.handle)
        &&& seen(self.handle).is_prefix_of(additions(self.handle))
    }

    /// Which table the writer adds to.
    pub closed spec fn identity(self) -> int {
        vector_of(self.handle)
    }

    /// All that is ever added to the table, oldest first.
    pub closed spec fn history(self) -> Seq<Feature> {
        additions(self.handle)
    }

    /// The writer of a new, empty table.
    pub fn new() -> (writer: FeatureWriter)
        ensures
            writer@ == Seq::<Feature>::empty(),
    {
        FeatureWriter { handle: new_handle() }
    }

    /// A handle to the table, for another task.
    pub fn share(&self) -> (table: FeatureTable)
        ensures
            table.identity() == self.identity(),
            table.history() == self.history(),
            table@ == self@,
    {
        proof {
            use_type_invariant(self);
        }
        FeatureTable { handle: clone_handle(&self.handle) }
    }

    /// Adds a feature behind all others.
    pub fn push(&mut self, feature: Feature)
        ensures
            final(self).identity() == old(self).identity(),
            final(self).history() == old(self).history(),
            final(self)@ == old(self)@.push(feature),
            final(self)@.is_prefix_of(final(self).history()),
    {
        proof {
            use_type_invariant(&*self);
        }
        push_to_handle(&mut self.handle, feature);
    }

    /// Gives up writing. Nothing is added to the table from now on, so what was
    /// added is the whole history.
    pub fn finish(self) -> (table: FeatureTable)
        ensures
            table.identity() == self.identity(),
            table.history() == self.history(),
            table@ == self@,
            table.settled(),
    {
        proof {
            use_type_invariant(&self);
        }
        FeatureTable { handle: end_writing(self.handle) }
    }
}

impl<'r> FeatureReader<'r> {
    /// The features of this version, oldest first.
    pub(crate) fn features(&self) -> (features: &Vec<Feature>)
        ensures
            features@ == self@,
    {
        lend(&self.guard)
    }
}

/// Reading goes forward in one and the same history: nothing that a handle has
/// seen is lost or changed, and what it sees is what is added.
pub proof fn reading_goes_forward(table: FeatureTable, before: FeatureTable)
    requires
        table.read_on_from(before),
    ensures
        table.identity() == before.identity(),
        table.history() == before.history(),
        before@.len() <= table@.len() <= table.history().len(),
        forall|i: int| 0 <= i < before@.len() ==> #[trigger] table@[i] == before@[i],
        forall|i: int| 0 <= i < table@.len() ==> #[trigger] table@[i] == table.history()[i],
        before.settled() ==> table@ == before@,
        before@ == before.history() ==> table@ == before.history(),
{
    if before@ == before.history() {
        assert(table@ =~= before@);
    }
}

/// The table after `added` were added, one after the other.
pub open spec fn after_adding(features: Seq<Feature>, added: Seq<Feature>) -> Seq<Feature>
    decreases added.len(),
{
    if added.len() == 0 {
        features
    } else {
        after_adding(features, added.drop_last()).push(added.last())
    }
}

/// A table holds what it held before, followed by exactly what was added, in
/// the order of the additions.
pub proof fn additions_follow_in_order(features: Seq<Feature>, added: Seq<Feature>)
    ensures
        after_adding(features, added) == features + added,
    decreases added.len(),
{
    if added.len() == 0 {
        assert(features + added =~= features);
    } else {
        additions_follow_in_order(features, added.drop_last());
        assert((features + added.drop_last()).push(added.last()) =~= features + added);
    }
}

} // verus!
