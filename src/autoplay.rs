//! Chains the next queued episode when playback finishes by itself. The
//! driver is polled once per UI frame.
use vstd::prelude::*;
use crate::player::PlaybackState;
use crate::types::QueueItem;

verus! {

/// What the caller should do after a poll that advanced the queue.
#[derive(Debug, Clone, Copy, PartialEq, Eq, Structural)]
pub enum AutoplayAction {
    /// Remove this entry from the queue and play its episode.
    PlayNext { queue_id: Option<i32>, episode_id: i32 },
    /// The queue is empty: stop playback and clear what is shown as playing.
    StopPlayback,
}

/// Whether a poll advances the queue, and the guard it leaves behind.
pub open spec fn poll_outcome(
    last_finished: Option<i32>,
    finished: bool,
    auto_play_next: bool,
    state: PlaybackState,
    current_episode_id: Option<i32>,
) -> (bool, Option<i32>) {
    if finished && auto_play_next {
        if current_episode_id != last_finished {
            (true, current_episode_id)
        } else {
            (false, last_finished)
        }
    } else if !finished && state == PlaybackState::Playing {
        (false, None)
    } else {
        (false, last_finished)
    }
}

/// Index of the queue's head: the first entry with the lowest position.
pub open spec fn is_head(queue: Seq<QueueItem>, i: int) -> bool {
    &&& 0 <= i < queue.len()
    &&& forall|j: int| 0 <= j < queue.len() ==> queue[i].position <= (#[trigger] queue[j]).position
    &&& forall|j: int| 0 <= j < i ==> (#[trigger] queue[j]).position > queue[i].position
}

pub open spec fn action_for(queue: Seq<QueueItem>, a: AutoplayAction) -> bool {
    if queue.len() == 0 {
        a == AutoplayAction::StopPlayback
    } else {
        exists|i: int|
            #[trigger] is_head(queue, i) && a == (AutoplayAction::PlayNext {
                queue_id: queue[i].id,
                episode_id: queue[i].episode_id,
            })
    }
}

/// Remembers which finished episode was already handled, so that a session
/// that stays finished over several frames advances the queue once.
#[derive(Debug)]
pub struct AutoplayDriver {
    last_finished_episode_id: Option<i32>,
}

impl View for AutoplayDriver {
    type V = Option<i32>;

    closed spec fn view(&self) -> Option<i32> {
        self.last_finished_episode_id
    }
}

impl AutoplayDriver {
    pub fn new() -> (r: AutoplayDriver)
        ensures
            r@ is None,
    {
        AutoplayDriver { last_finished_episode_id: None }
    }

    /// One frame's poll; `true` means the caller should fetch the queue and
    /// carry out `next_action` on it.
    pub fn poll(
        &mut self,
        finished: bool,
        auto_play_next: bool,
        state: PlaybackState,
        current_episode_id: Option<i32>,
    ) -> (advance: bool)
        ensures
            (advance, final(self)@) == poll_outcome(
                old(self)@,
                finished,
                auto_play_next,
                state,
                current_episode_id,
            ),
    {
        if finished && auto_play_next {
            if current_episode_id != self.last_finished_episode_id {
                self.last_finished_episode_id = current_episode_id;
                true
            } else {
                false
            }
        } else {
            if !finished && state == PlaybackState::Playing {
                self.last_finished_episode_id = None;
            }
            false
        }
    }
}

/// What to do with the queue once a finished session advances it; a queue
/// that could not be read is passed as empty.
pub fn next_action(queue: &Vec<QueueItem>) -> (r: AutoplayAction)
    ensures
        action_for(queue@, r),
{
    if queue.len() == 0 {
        return AutoplayAction::StopPlayback;
    }
    let mut best: usize = 0;
    let mut i: usize = 1;
    while i < queue.len()
        invariant
            1 <= i <= queue@.len(),
            best < i,
            forall|j: int| 0 <= j < i ==> queue@[best as int].position <= (#[trigger] queue@[j]).position,
            forall|j: int| 0 <= j < best ==> (#[trigger] queue@[j]).position > queue@[best as int].position,
        decreases queue@.len() - i,
    {
        if queue[i].position < queue[best].position {
            best = i;
        }
        i = i + 1;
    }
    let head = queue[best];
    assert(is_head(queue@, best as int));
    AutoplayAction::PlayNext { queue_id: head.id, episode_id: head.episode_id }
}

/// Autoplay fires once per finish: a poll that advanced the queue for a
/// finished episode leaves a guard under which the very same poll on the
/// next frame does nothing; an empty queue stops, and a non-empty one plays
/// its head.
pub proof fn lemma_autoplay_once(
    last_finished: Option<i32>,
    state: PlaybackState,
    current_episode_id: Option<i32>,
    queue: Seq<QueueItem>,
    a: AutoplayAction,
)
    requires
        current_episode_id != last_finished,
        action_for(queue, a),
    ensures
        poll_outcome(last_finished, true, true, state, current_episode_id).0,
        !poll_outcome(
            poll_outcome(last_finished, true, true, state, current_episode_id).1,
            true,
            true,
            state,
            current_episode_id,
        ).0,
        queue.len() == 0 ==> a == AutoplayAction::StopPlayback,
        queue.len() > 0 ==> (exists|i: int|
            #[trigger] is_head(queue, i) && a == (AutoplayAction::PlayNext {
                queue_id: queue[i].id,
                episode_id: queue[i].episode_id,
            })),
{
}

} // verus!
