use vstd::prelude::*;

use std::sync::mpsc::Sender;

use crate::action::Action;
use crate::grid::{applied, applied_all, DropletInfo, GridView};

verus! {

/// What the execution loop waits for next.
#[derive(Clone, Copy, Debug, PartialEq, Eq, Structural)]
pub enum Phase {
    /// A poll from the observer (blocking mode only).
    AwaitPoll,
    /// The next command from the queue.
    AwaitCommand,
    /// Nothing: the loop is over.
    Finished,
}

/// What the loop received while it waited.
#[derive(Debug)]
pub enum Event {
    /// The observer asked for a snapshot.
    Poll,
    /// The observer's side of the handshake was closed.
    ObserverClosed,
    /// A command arrived on the queue.
    Command(Action),
    /// The command queue was closed.
    QueueClosed,
}

/// What the loop must do outside before it waits again.
#[derive(Debug)]
pub enum Response {
    /// Reply to the observer with this snapshot.
    Snapshot(Vec<DropletInfo>),
    /// A Ping was applied: signal its reply channel.
    Signal(Sender<()>),
    /// A command was applied; there is nothing to send.
    Applied,
    /// The loop ends here.
    Stop,
}

/// Owns the droplet table and decides, one event at a time, what the
/// execution loop does. With `blocking` set, every command is preceded by a
/// poll/snapshot handshake with an observer.
pub struct Executor {
    blocking: bool,
    gridview: GridView,
    phase: Phase,
    initial: Ghost<Seq<DropletInfo>>,
    received: Ghost<Seq<Action>>,
}

/// The phase the loop waits in before each command.
pub open spec fn ready(blocking: bool) -> Phase {
    if blocking {
        Phase::AwaitPoll
    } else {
        Phase::AwaitCommand
    }
}

impl Executor {
    /// Whether each command waits for an observer handshake first.
    pub closed spec fn is_blocking(&self) -> bool {
        self.blocking
    }

    /// What the loop waits for next.
    pub closed spec fn stage(&self) -> Phase {
        self.phase
    }

    /// The droplet table as it stands.
    pub closed spec fn table(&self) -> Seq<DropletInfo> {
        self.gridview@
    }

    /// The droplet table the executor was built with.
    pub closed spec fn initial(&self) -> Seq<DropletInfo> {
        self.initial@
    }

    /// Every command applied so far, in the order it arrived.
    pub closed spec fn history(&self) -> Seq<Action> {
        self.received@
    }

    /// The table is the initial one with the history applied in order, and
    /// without blocking the loop never waits for the observer.
    pub closed spec fn wf(&self) -> bool {
        &&& self.gridview@ == applied_all(self.initial@, self.received@)
        &&& !self.blocking ==> self.phase != Phase::AwaitPoll
    }

    /// `event` is one that the loop can receive in its current phase.
    pub open spec fn accepts(&self, event: Event) -> bool {
        match event {
            Event::Poll | Event::ObserverClosed => self.stage() == Phase::AwaitPoll,
            Event::Command(_) | Event::QueueClosed => self.stage() == Phase::AwaitCommand,
        }
    }

    /// An executor that owns `grid` and has received nothing yet.
    pub fn new(blocking: bool, grid: GridView) -> (r: Executor)
        ensures
            r.wf(),
            r.is_blocking() == blocking,
            r.stage() == ready(blocking),
            r.initial() == grid@,
            r.table() == grid@,
            r.history() == Seq::<Action>::empty(),
    {
        let ghost start = grid@;
        Executor {
            blocking,
            gridview: grid,
            phase: if blocking {
                Phase::AwaitPoll
            } else {
                Phase::AwaitCommand
            },
            initial: Ghost(start),
            received: Ghost(Seq::empty()),
        }
    }

    /// What the loop waits for next.
    pub fn phase(&self) -> (r: Phase)
        ensures
            r == self.stage(),
    {
        self.phase
    }

    /// A snapshot of the droplet table as it stands.
    pub fn snapshot(&self) -> (r: Vec<DropletInfo>)
        ensures
            r@ == self.table(),
    {
        self.gridview.droplet_info()
    }

    /// Takes one event that the loop received and says what to do next.
    /// A poll is answered with the whole table. A command is applied as one
    /// unit, a group with all its members, before anything else is taken.
    /// Either side closing ends the loop without touching the table.
    pub fn step(&mut self, event: Event) -> (r: Response)
        requires
            old(self).wf(),
            old(self).accepts(event),
        ensures
            final(self).wf(),
            final(self).is_blocking() == old(self).is_blocking(),
            final(self).initial() == old(self).initial(),
            r is Snapshot ==> old(self).is_blocking(),
            (match event {
                Event::Poll => {
                    &&& r matches Response::Snapshot(v) && v@ == old(self).table()
                    &&& final(self).stage() == Phase::AwaitCommand
                    &&& final(self).table() == old(self).table()
                    &&& final(self).history() == old(self).history()
                },
                Event::Command(a) => {
                    &&& r == (if a is Ping {
                        Response::Signal(a->tx)
                    } else {
                        Response::Applied
                    })
                    &&& final(self).stage() == ready(old(self).is_blocking())
                    &&& final(self).table() == applied(old(self).table(), a)
                    &&& final(self).history() == old(self).history().push(a)
                },
                _ => {
                    &&& r is Stop
                    &&& final(self).stage() == Phase::Finished
                    &&& final(self).table() == old(self).table()
                    &&& final(self).history() == old(self).history()
                },
            }),
    {
        match event {
            Event::Poll => {
                self.phase = Phase::AwaitCommand;
                Response::Snapshot(self.gridview.droplet_info())
            },
            Event::Command(action) => {
                self.gridview.apply(&action);
                proof {
                    let prior = self.received@;
                    self.received@ = prior.push(action);
                    assert(self.received@.drop_last() =~= prior);
                }
                self.phase = if self.blocking {
                    Phase::AwaitPoll
                } else {
                    Phase::AwaitCommand
                };
                match action {
                    Action::Ping { tx } => Response::Signal(tx),
                    _ => Response::Applied,
                }
            },
            _ => {
                self.phase = Phase::Finished;
                Response::Stop
            },
        }
    }
}

/// A Ping leaves the table as it was, so once the step that signals a Ping
/// is done the table holds exactly every command received before the Ping,
/// each applied in full and in order.
pub proof fn lemma_ping_sees_prior(before: Executor, after: Executor, ping: Action)
    requires
        before.wf(),
        after.wf(),
        ping is Ping,
        after.initial() == before.initial(),
        after.history() == before.history().push(ping),
    ensures
        after.table() == applied_all(before.initial(), before.history()),
        after.table() == before.table(),
{
    assert(after.history().drop_last() =~= before.history());
    assert(after.history().last() == ping);
    let prior = applied_all(before.initial(), before.history());
    assert(applied_all(after.initial(), after.history()) == applied(prior, ping));
    assert(applied(prior, ping) == prior);
}

/// A finished loop accepts no event at all, so after the queue (or the
/// observer) closes, nothing touches the table again.
pub proof fn lemma_finished_accepts_nothing(e: Executor, event: Event)
    requires
        e.stage() == Phase::Finished,
    ensures
        !e.accepts(event),
{
}

/// Without blocking, the loop never waits for the observer, whatever state
/// the observer's side is in: it accepts neither a poll nor its closing.
pub proof fn lemma_non_blocking_ignores_observer(e: Executor, event: Event)
    requires
        e.wf(),
        !e.is_blocking(),
        e.accepts(event),
    ensures
        !(event is Poll),
        !(event is ObserverClosed),
{
}

} // verus!
