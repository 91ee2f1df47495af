use vstd::multiset::Multiset;
use vstd::prelude::*;
use vstd::seq_lib::{to_multiset_build, to_multiset_remove};

use std::collections::VecDeque;

use crate::piece::Piece;

verus! {

broadcast use vstd::multiset::group_multiset_axioms;

/// The indices of a sequence of pieces.
pub open spec fn indices(s: Seq<Piece>) -> Seq<u32> {
    s.map_values(|p: Piece| p.idx())
}

/// Every piece index of the torrent, wherever it is: in the queue, held by
/// a session, or handed to the supervisor as downloaded.
pub open spec fn pool(queue: Seq<u32>, held: Multiset<u32>, done: Multiset<u32>) -> Multiset<u32> {
    queue.to_multiset().add(held).add(done)
}

/// The shared pool of pieces that are still to be downloaded, first in,
/// first out.
pub struct PieceQueue {
    pieces: VecDeque<Piece>,
}

impl PieceQueue {
    /// The pieces in the queue, front first.
    pub closed spec fn contents(&self) -> Seq<Piece> {
        self.pieces@
    }

    /// An empty queue.
    pub fn new() -> (r: PieceQueue)
        ensures
            r.contents().len() == 0,
    {
        PieceQueue { pieces: VecDeque::new() }
    }

    /// The number of pieces in the queue.
    pub fn len(&self) -> (r: usize)
        ensures
            r == self.contents().len(),
    {
        self.pieces.len()
    }

    /// Takes the piece at the front, or `None` where the queue is empty.
    pub fn get_next_piece(&mut self) -> (r: Option<Piece>)
        ensures
            old(self).contents().len() == 0 ==> r is None && final(self).contents() == old(
                self,
            ).contents(),
            old(self).contents().len() > 0 ==> r == Some(old(self).contents()[0])
                && final(self).contents() == old(self).contents().drop_first() && indices(
                final(self).contents(),
            ) == indices(old(self).contents()).drop_first() && old(self).contents()[0].idx()
                == indices(old(self).contents())[0],
    {
        let r = self.pieces.pop_front();
        proof {
            if old(self).contents().len() > 0 {
                assert(self.contents() =~= old(self).contents().drop_first());
                assert(indices(self.contents()) =~= indices(old(self).contents()).drop_first());
            }
        }
        r
    }

    /// Puts a piece at the back of the queue.
    pub fn push_back(&mut self, piece: Piece)
        ensures
            final(self).contents() == old(self).contents().push(piece),
            indices(final(self).contents()) == indices(old(self).contents()).push(piece.idx()),
    {
        self.pieces.push_back(piece);
        assert(indices(self.contents()) =~= indices(old(self).contents()).push(piece.idx()));
    }
}

/// Taking the front piece of the queue into a session keeps every piece
/// accounted for, once.
pub proof fn lemma_fetch_conserves(queue: Seq<u32>, held: Multiset<u32>, done: Multiset<u32>)
    requires
        queue.len() > 0,
    ensures
        pool(queue.drop_first(), held.insert(queue[0]), done) =~= pool(queue, held, done),
{
    to_multiset_remove(queue, 0);
    assert(queue.remove(0) =~= queue.drop_first());
    queue.to_multiset_ensures();
    assert(queue.contains(queue[0]));
    assert(queue.drop_first().to_multiset().insert(queue[0]) =~= queue.to_multiset());
}

/// Returning a held piece to the back of the queue keeps every piece
/// accounted for, once.
pub proof fn lemma_return_conserves(
    queue: Seq<u32>,
    held: Multiset<u32>,
    done: Multiset<u32>,
    i: u32,
)
    requires
        held.contains(i),
    ensures
        pool(queue.push(i), held.remove(i), done) =~= pool(queue, held, done),
{
    to_multiset_build(queue, i);
}

/// Handing a held piece to the supervisor as downloaded keeps every piece
/// accounted for, once.
pub proof fn lemma_finish_conserves(
    queue: Seq<u32>,
    held: Multiset<u32>,
    done: Multiset<u32>,
    i: u32,
)
    requires
        held.contains(i),
    ensures
        pool(queue, held.remove(i), done.insert(i)) =~= pool(queue, held, done),
{
}

/// Where every piece is accounted for once, no piece is both in the queue
/// and held by a session, or both held and downloaded, or in two queue
/// slots, or held twice.
pub proof fn lemma_single_holder(
    queue: Seq<u32>,
    held: Multiset<u32>,
    done: Multiset<u32>,
    i: u32,
)
    requires
        pool(queue, held, done).count(i) <= 1,
    ensures
        !(queue.contains(i) && held.contains(i)),
        !(queue.contains(i) && done.contains(i)),
        !(held.contains(i) && done.contains(i)),
        queue.to_multiset().count(i) <= 1,
        held.count(i) <= 1,
{
    queue.to_multiset_ensures();
}

/// Where every piece index is at one moment: in the queue (in order), held
/// by sessions, or handed to the supervisor as downloaded.
pub struct PoolState {
    pub queue: Seq<u32>,
    pub held: Multiset<u32>,
    pub done: Multiset<u32>,
}

/// One move of a piece between the queue, the sessions and the supervisor.
pub enum PoolStep {
    /// A session takes the piece at the front of the queue.
    Fetch,
    /// A session puts a piece it holds at the back of the queue.
    Return(u32),
    /// A session hands a piece it holds to the supervisor as downloaded.
    Finish(u32),
}

/// The state after `step`, or `None` where the step cannot happen.
pub open spec fn apply(st: PoolState, step: PoolStep) -> Option<PoolState> {
    match step {
        PoolStep::Fetch => if st.queue.len() > 0 {
            Some(
                PoolState {
                    queue: st.queue.drop_first(),
                    held: st.held.insert(st.queue[0]),
                    done: st.done,
                },
            )
        } else {
            None
        },
        PoolStep::Return(i) => if st.held.contains(i) {
            Some(PoolState { queue: st.queue.push(i), held: st.held.remove(i), done: st.done })
        } else {
            None
        },
        PoolStep::Finish(i) => if st.held.contains(i) {
            Some(PoolState { queue: st.queue, held: st.held.remove(i), done: st.done.insert(i) })
        } else {
            None
        },
    }
}

/// The state after the steps, in order, or `None` where one cannot happen.
pub open spec fn run(st: PoolState, steps: Seq<PoolStep>) -> Option<PoolState>
    decreases steps.len(),
{
    if steps.len() == 0 {
        Some(st)
    } else {
        match apply(st, steps[0]) {
            Some(next) => run(next, steps.drop_first()),
            None => None,
        }
    }
}

/// Over every trace of moves, each piece stays accounted for exactly as
/// often as at the start: none is lost or duplicated, also when sessions
/// end with a piece in progress and return it.
pub proof fn lemma_trace_conserves(st: PoolState, steps: Seq<PoolStep>)
    ensures
        run(st, steps) matches Some(end) ==> pool(end.queue, end.held, end.done) == pool(
            st.queue,
            st.held,
            st.done,
        ),
    decreases steps.len(),
{
    if steps.len() > 0 {
        if let Some(next) = apply(st, steps[0]) {
            match steps[0] {
                PoolStep::Fetch => lemma_fetch_conserves(st.queue, st.held, st.done),
                PoolStep::Return(i) => lemma_return_conserves(st.queue, st.held, st.done, i),
                PoolStep::Finish(i) => lemma_finish_conserves(st.queue, st.held, st.done, i),
            }
            lemma_trace_conserves(next, steps.drop_first());
        }
    }
}

/// Over every trace that starts with each piece accounted for at most
/// once, no piece is ever held while it is also queued or downloaded.
pub proof fn lemma_trace_single_holder(st: PoolState, steps: Seq<PoolStep>, i: u32)
    requires
        pool(st.queue, st.held, st.done).count(i) <= 1,
    ensures
        run(st, steps) matches Some(end) ==> !(end.queue.contains(i) && end.held.contains(i)) && !(
        end.held.contains(i) && end.done.contains(i)) && end.held.count(i) <= 1,
{
    lemma_trace_conserves(st, steps);
    if let Some(end) = run(st, steps) {
        lemma_single_holder(end.queue, end.held, end.done, i);
    }
}

} // verus!
