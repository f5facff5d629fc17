//! The single-flight flag shared by every trigger of a full sync, and the
//! steps of one full sync over the subscribed shows.
use vstd::prelude::*;
use crate::errors::DatabaseError;
use crate::types::Podcast;

verus! {

/// Admits at most one full sync at a time; a trigger that finds a sync in
/// flight is turned away rather than queued.
#[derive(Debug)]
pub struct SyncFlag {
    syncing: bool,
}

impl SyncFlag {
    pub closed spec fn busy(&self) -> bool {
        self.syncing
    }

    pub fn new() -> (r: SyncFlag)
        ensures
            !r.busy(),
    {
        SyncFlag { syncing: false }
    }

    pub fn is_syncing(&self) -> (r: bool)
        ensures
            r == self.busy(),
    {
        self.syncing
    }

    /// Claims the flag; `true` means the caller runs the sync and must
    /// call `finish` afterwards, `false` that another sync is in flight.
    pub fn try_begin(&mut self) -> (started: bool)
        ensures
            started == !old(self).busy(),
            final(self).busy(),
    {
        if self.syncing {
            false
        } else {
            self.syncing = true;
            true
        }
    }

    /// Releases the flag, whatever became of the sync.
    pub fn finish(&mut self)
        ensures
            !final(self).busy(),
    {
        self.syncing = false;
    }
}

/// Of two sync triggers that claim the flag one after the other, with no
/// `finish` between them, at most one runs; when no sync was in flight
/// before, exactly the first one runs.
pub proof fn lemma_single_flight(
    g0: SyncFlag,
    g1: SyncFlag,
    g2: SyncFlag,
    first: bool,
    second: bool,
)
    requires
        first == !g0.busy(),
        g1.busy(),
        second == !g1.busy(),
        g2.busy(),
    ensures
        !(first && second),
        !g0.busy() ==> first && !second,
{
}

/// The next thing a running full sync does.
#[derive(Debug)]
pub enum SyncCommand {
    /// Fetch, merge and store this show.
    SyncShow(Podcast),
    /// Nothing is left: release the flag.
    Finished,
}

/// The shows of one full sync and how far it has got through them.
#[derive(Debug)]
pub struct SyncCycle {
    shows: Vec<Podcast>,
    next: usize,
}

impl View for SyncCycle {
    type V = (Seq<Podcast>, nat);

    closed spec fn view(&self) -> (Seq<Podcast>, nat) {
        (self.shows@, self.next as nat)
    }
}

/// The command for a cycle over `shows` that has handled `done` of them.
pub open spec fn command_at(shows: Seq<Podcast>, done: nat, c: SyncCommand) -> bool {
    if done < shows.len() {
        c matches SyncCommand::SyncShow(p) && p == shows[done as int]
    } else {
        c is Finished
    }
}

impl SyncCycle {
    fn command(&self) -> (c: SyncCommand)
        requires
            self@.1 <= self@.0.len(),
        ensures
            command_at(self@.0, self@.1, c),
    {
        if self.next < self.shows.len() {
            SyncCommand::SyncShow(self.shows[self.next].copied())
        } else {
            SyncCommand::Finished
        }
    }

    /// Starts a cycle from the loaded show list; a list that could not be
    /// loaded ends the cycle at once.
    pub fn begin(loaded: Result<Vec<Podcast>, DatabaseError>) -> (r: (SyncCycle, SyncCommand))
        ensures
            r.0@.1 == 0,
            match loaded {
                Ok(shows) => r.0@.0 == shows@,
                Err(_) => r.0@.0.len() == 0,
            },
            command_at(r.0@.0, 0, r.1),
    {
        let shows = match loaded {
            Ok(shows) => shows,
            Err(_) => Vec::new(),
        };
        let cycle = SyncCycle { shows, next: 0 };
        let c = cycle.command();
        (cycle, c)
    }

    /// Moves on after the current show, whether or not it synced: one
    /// show's failure never ends the cycle.
    pub fn advance(&mut self) -> (c: SyncCommand)
        requires
            old(self)@.1 < old(self)@.0.len(),
        ensures
            final(self)@.0 == old(self)@.0,
            final(self)@.1 == old(self)@.1 + 1,
            command_at(final(self)@.0, final(self)@.1, c),
    {
        if self.next < self.shows.len() {
            self.next = self.next + 1;
        }
        self.command()
    }

    /// Whether the current show is still to be handled; a caller checks it
    /// before `advance`.
    pub fn in_progress(&self) -> (r: bool)
        ensures
            r == (self@.1 < self@.0.len()),
    {
        self.next < self.shows.len()
    }
}

} // verus!
