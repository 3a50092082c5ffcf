//! The notes left at each location during one chat.

use std::collections::HashMap;

use vstd::prelude::*;

use crate::messages::{Point, RouteNote};

verus! {

broadcast use vstd::std_specs::hash::group_hash_axioms;

/// A number for each point, different points having different numbers.
spec fn key_of(point: Point) -> u64 {
    ((point.latitude - i32::MIN) * 0x1_0000_0000 + (point.longitude - i32::MIN)) as u64
}

/// The number of a point.
fn point_key(point: &Point) -> (key: u64)
    ensures
        key == key_of(*point),
{
    let row: u64 = (point.latitude as i64 + 0x8000_0000) as u64;
    let column: u64 = (point.longitude as i64 + 0x8000_0000) as u64;
    row * 0x1_0000_0000 + column
}

/// Different points have different numbers.
proof fn lemma_key_is_injective(a: Point, b: Point)
    ensures
        key_of(a) == key_of(b) <==> a == b,
{
}

/// The test for notes sent from `point`.
pub open spec fn sent_from(point: Point) -> spec_fn(RouteNote) -> bool {
    |note: RouteNote| note.location == Some(point)
}

/// The notes that `board` holds for `point`, oldest first.
pub open spec fn notes_at(board: Map<Point, Seq<RouteNote>>, point: Point) -> Seq<RouteNote> {
    if board.contains_key(point) {
        board[point]
    } else {
        Seq::empty()
    }
}

/// What becomes of `board` when `note` is posted.
pub open spec fn posted(board: Map<Point, Seq<RouteNote>>, note: RouteNote) -> Map<
    Point,
    Seq<RouteNote>,
> {
    let point = note.location->0;
    board.insert(point, notes_at(board, point).push(note))
}

/// What the stream of a chat's notes came up with.
pub enum ChatEvent<E> {
    /// The next note.
    Arrived(RouteNote),
    /// The stream broke.
    Failed(E),
    /// The chat is over.
    Ended,
}

/// What is sent back after an event.
pub enum ChatStep<E> {
    /// These notes.
    Replies(Vec<RouteNote>),
    /// This failure, and nothing after it.
    Fail(E),
    /// Nothing more.
    Finish,
}

/// The notes of one chat, kept by the location that they were sent from.
pub struct ChatBoard {
    notes: HashMap<u64, Vec<RouteNote>>,
}

impl View for ChatBoard {
    type V = Map<Point, Seq<RouteNote>>;

    closed spec fn view(&self) -> Map<Point, Seq<RouteNote>> {
        Map::new(
            |point: Point| self.notes@.contains_key(key_of(point)),
            |point: Point| self.notes@[key_of(point)]@,
        )
    }
}

/// Copies a list of notes.
fn copy_notes(notes: &Vec<RouteNote>) -> (copy: Vec<RouteNote>)
    ensures
        copy@ == notes@,
{
    let mut copy: Vec<RouteNote> = Vec::new();
    let mut i: usize = 0;
    while i < notes.len()
        invariant
            i <= notes.len(),
            copy@ == notes@.take(i as int),
        decreases notes.len() - i,
    {
        copy.push(notes[i].clone());
        assert(notes@.take(i + 1) =~= notes@.take(i as int).push(notes[i as int]));
        i += 1;
    }
    assert(notes@.take(i as int) =~= notes@);
    copy
}

impl ChatBoard {
    /// The board of a chat in which nothing was said yet.
    pub fn new() -> (board: ChatBoard)
        ensures
            board@ == Map::<Point, Seq<RouteNote>>::empty(),
    {
        let board = ChatBoard { notes: HashMap::new() };
        assert(board@ =~= Map::<Point, Seq<RouteNote>>::empty());
        board
    }

    /// Posts `note` and gives back every note sent from its location so far,
    /// `note` itself last.
    pub fn post(&mut self, note: RouteNote) -> (replies: Vec<RouteNote>)
        requires
            note.location is Some,
        ensures
            final(self)@ == posted(old(self)@, note),
            replies@ == notes_at(old(self)@, note.location->0).push(note),
            ({
                let point = note.location->0;
                &&& old(self)@.contains_key(point) ==> replies@ == old(self)@[point].push(note)
                &&& !old(self)@.contains_key(point) ==> replies@ == seq![note]
                &&& final(self)@ == old(self)@.insert(point, replies@)
            }),
    {
        let point = note.location.unwrap();
        let key: u64 = point_key(&point);
        let mut notes = match self.notes.remove(&key) {
            Some(notes) => notes,
            None => Vec::new(),
        };
        assert(notes@ =~= notes_at(old(self)@, point));
        let ghost posted_note = note;
        notes.push(note);
        let replies = copy_notes(&notes);
        self.notes.insert(key, notes);
        proof {
            assert forall|p: Point| true implies (#[trigger] key_of(p) == key <==> p == point) by {
                lemma_key_is_injective(p, point);
            }
            assert(self@ =~= posted(old(self)@, posted_note));
            assert(Seq::<RouteNote>::empty().push(posted_note) =~= seq![posted_note]);
        }
        replies
    }

    /// Takes in what the stream of the chat's notes came up with.
    pub fn step<E>(&mut self, event: ChatEvent<E>) -> (step: ChatStep<E>)
        requires
            event matches ChatEvent::Arrived(note) ==> note.location is Some,
        ensures
            match event {
                ChatEvent::Arrived(note) => {
                    &&& step matches ChatStep::Replies(replies)
                    &&& replies@ == notes_at(old(self)@, note.location->0).push(note)
                    &&& final(self)@ == posted(old(self)@, note)
                    &&& old(self)@.contains_key(note.location->0) ==> replies@ == old(
                        self,
                    )@[note.location->0].push(note)
                    &&& !old(self)@.contains_key(note.location->0) ==> replies@ == seq![note]
                    &&& final(self)@ == old(self)@.insert(note.location->0, replies@)
                },
                ChatEvent::Failed(reason) => step == ChatStep::Fail(reason) && *final(self) == *old(
                    self,
                ),
                ChatEvent::Ended => step is Finish && *final(self) == *old(self),
            },
    {
        match event {
            ChatEvent::Arrived(note) => ChatStep::Replies(self.post(note)),
            ChatEvent::Failed(reason) => ChatStep::Fail(reason),
            ChatEvent::Ended => ChatStep::Finish,
        }
    }
}

/// The board of a chat in which `notes` were posted, in that order.
pub open spec fn board_after(notes: Seq<RouteNote>) -> Map<Point, Seq<RouteNote>>
    decreases notes.len(),
{
    if notes.len() == 0 {
        Map::empty()
    } else {
        posted(board_after(notes.drop_last()), notes.last())
    }
}

/// For every location, a board holds exactly the notes that were sent from
/// there, in the order in which they were posted.
pub proof fn board_remembers_every_note(notes: Seq<RouteNote>, point: Point)
    requires
        forall|i: int| 0 <= i < notes.len() ==> (#[trigger] notes[i]).location is Some,
    ensures
        notes_at(board_after(notes), point) == notes.filter(sent_from(point)),
        notes_at(board_after(notes), point) == notes.filter(
            |note: RouteNote| note.location == Some(point),
        ),
    decreases notes.len(),
{
    reveal(Seq::filter);
    if notes.len() > 0 {
        let earlier = notes.drop_last();
        assert forall|i: int| 0 <= i < earlier.len() implies (
        #[trigger] earlier[i]).location is Some by {
            assert(earlier[i] == notes[i]);
        }
        board_remembers_every_note(earlier, point);
    }
    assert(sent_from(point) =~= (|note: RouteNote| note.location == Some(point)));
}

/// A note is answered with the notes that were sent from its location up to
/// and including itself.
pub proof fn reply_is_the_history_of_the_location(earlier: Seq<RouteNote>, note: RouteNote)
    requires
        forall|i: int| 0 <= i < earlier.len() ==> (#[trigger] earlier[i]).location is Some,
        note.location is Some,
    ensures
        notes_at(board_after(earlier), note.location->0).push(note) == earlier.push(note).filter(
            sent_from(note.location->0),
        ),
        notes_at(board_after(earlier), note.location->0).push(note) == earlier.push(note).filter(
            |other: RouteNote| other.location == note.location,
        ),
{
    let point = note.location->0;
    board_remembers_every_note(earlier, point);
    earlier.lemma_filter_push(note, sent_from(point));
    assert(sent_from(point) =~= (|other: RouteNote| other.location == note.location));
}

/// A note that is posted comes last at its own location, behind the notes that
/// were there, and a chat's board grows note by note.
pub proof fn posted_note_comes_last(
    board: Map<Point, Seq<RouteNote>>,
    earlier: Seq<RouteNote>,
    note: RouteNote,
)
    requires
        note.location is Some,
    ensures
        notes_at(posted(board, note), note.location->0) == notes_at(board, note.location->0).push(
            note,
        ),
        board_after(earlier.push(note)) == posted(board_after(earlier), note),
        board_after(Seq::empty()) == Map::<Point, Seq<RouteNote>>::empty(),
{
    assert(earlier.push(note).drop_last() =~= earlier);
}

/// The notes at a location are those that the board holds under it, and none
/// where it holds nothing.
pub proof fn notes_are_held_by_location(board: Map<Point, Seq<RouteNote>>, point: Point)
    ensures
        board.contains_key(point) ==> notes_at(board, point) == board[point],
        !board.contains_key(point) ==> notes_at(board, point).len() == 0,
{
}

/// Posting a note leaves the notes of every other location as they were.
pub proof fn other_locations_are_untouched(
    board: Map<Point, Seq<RouteNote>>,
    note: RouteNote,
    point: Point,
)
    requires
        note.location is Some,
        point != note.location->0,
    ensures
        notes_at(posted(board, note), point) == notes_at(board, point),
{
}

} // verus!
