use vstd::prelude::*;

use std::sync::mpsc::Sender;

use crate::grid::{DropletId, Location};
use crate::placement::Placement;

verus! {

/// Relies on std's `Sender<T>`, the sending half of a channel; a Ping command
/// carries one and it is only moved around, never looked into.
#[verifier::external_type_specification]
#[verifier::external_body]
#[verifier::reject_recursive_types(T)]
pub struct ExSender<T>(Sender<T>);

/// One change to the grid state, or a control signal.
#[derive(Debug)]
pub enum Action {
    AddDroplet { id: DropletId, location: Location },
    RemoveDroplet { id: DropletId },
    Mix { in0: DropletId, in1: DropletId, out: DropletId },
    Split { inp: DropletId, out0: DropletId, out1: DropletId },
    SetCollisionGroup { id: DropletId, cg: usize },
    /// Carries an old and a new id; what it should do to the grid is not
    /// settled, so applying it changes nothing.
    UpdateDroplet { old_id: DropletId, new_id: DropletId },
    MoveDroplet { id: DropletId, location: Location },
    /// Members applied back to back, in order, as one unit.
    Lockstep { actions: Vec<Action> },
    /// A barrier: its channel is signalled once every earlier command is applied.
    Ping { tx: Sender<()> },
}

/// Every location that `a` carries, members of groups included, is a key of `p`.
pub open spec fn covered(a: Action, p: Map<Location, Location>) -> bool
    decreases a,
{
    match a {
        Action::AddDroplet { location, .. } => p.contains_key(location),
        Action::MoveDroplet { location, .. } => p.contains_key(location),
        Action::Lockstep { actions } => forall|i: int|
            0 <= i < actions@.len() ==> covered(#[trigger] actions@[i], p),
        _ => true,
    }
}

/// `b` is `a` with each location `l` it carries replaced by `p[l]`, members of
/// groups included, and nothing else changed.
pub open spec fn translates_to(a: Action, b: Action, p: Map<Location, Location>) -> bool
    decreases a,
{
    match a {
        Action::AddDroplet { id, location } => b == Action::AddDroplet { id, location: p[location] },
        Action::MoveDroplet { id, location } => b == Action::MoveDroplet { id, location: p[location] },
        Action::Lockstep { actions } => match b {
            Action::Lockstep { actions: members } => {
                &&& members@.len() == actions@.len()
                &&& forall|i: int|
                    0 <= i < actions@.len() ==> translates_to(#[trigger] actions@[i], members@[i], p)
            },
            _ => false,
        },
        _ => b == a,
    }
}

/// `b` is `a` itself, member for member through groups.
pub open spec fn equivalent(a: Action, b: Action) -> bool
    decreases a,
{
    match a {
        Action::Lockstep { actions } => match b {
            Action::Lockstep { actions: members } => {
                &&& members@.len() == actions@.len()
                &&& forall|i: int|
                    0 <= i < actions@.len() ==> equivalent(#[trigger] actions@[i], members@[i])
            },
            _ => false,
        },
        _ => b == a,
    }
}

/// Translating under a placement that maps each location to itself changes
/// no location: the result is the command it started from.
pub proof fn lemma_identity_translation(a: Action, b: Action, p: Map<Location, Location>)
    requires
        forall|l: Location| p.contains_key(l) ==> p[l] == l,
        covered(a, p),
        translates_to(a, b, p),
    ensures
        equivalent(a, b),
    decreases a,
{
    if let Action::Lockstep { actions } = a {
        let members = b->actions;
        assert forall|i: int| 0 <= i < actions@.len() implies equivalent(
            #[trigger] actions@[i],
            members@[i],
        ) by {
            assert(decreases_to!(a => a->actions));
            assert(decreases_to!(a->actions => actions@));
            assert(decreases_to!(actions@ => actions@[i]));
            lemma_identity_translation(actions@[i], members@[i], p);
        }
    }
}

/// Translating a group of two commands is translating each of them on its
/// own, the first result first.
pub proof fn lemma_pair_translation(g: Action, c1: Action, c2: Action, h: Action, p: Map<Location, Location>)
    requires
        g is Lockstep,
        g->actions@ == seq![c1, c2],
    ensures
        covered(g, p) <==> covered(c1, p) && covered(c2, p),
        translates_to(g, h, p) <==> {
            &&& h is Lockstep
            &&& h->actions@.len() == 2
            &&& translates_to(c1, h->actions@[0], p)
            &&& translates_to(c2, h->actions@[1], p)
        },
{
    let actions = g->actions@;
    assert(actions[0] == c1 && actions[1] == c2);
    if h is Lockstep && h->actions@.len() == 2 && translates_to(c1, h->actions@[0], p)
        && translates_to(c2, h->actions@[1], p) {
        assert forall|i: int| 0 <= i < actions.len() implies translates_to(
            #[trigger] actions[i],
            h->actions@[i],
            p,
        ) by {
            if i == 0 {
            } else {
            }
        }
    }
    if covered(c1, p) && covered(c2, p) {
        assert forall|i: int| 0 <= i < actions.len() implies covered(#[trigger] actions[i], p) by {
            if i == 0 {
            } else {
            }
        }
    }
}

impl Action {
    /// Rewrites every logical location in the command, recursively through
    /// groups, into its physical location under `placement`.
    pub fn translate(&mut self, placement: &Placement)
        requires
            covered(*old(self), placement@),
        ensures
            translates_to(*old(self), *final(self), placement@),
        decreases *old(self),
    {
        let mut taken = Action::Lockstep { actions: Vec::new() };
        std::mem::swap(self, &mut taken);
        *self = match taken {
            Action::AddDroplet { id, location } => Action::AddDroplet {
                id,
                location: placement.get(location).unwrap(),
            },
            Action::MoveDroplet { id, location } => Action::MoveDroplet {
                id,
                location: placement.get(location).unwrap(),
            },
            Action::Lockstep { mut actions } => {
                let ghost start = actions@;
                let n = actions.len();
                let mut i: usize = 0;
                while i < n
                    invariant
                        *old(self) is Lockstep,
                        n == actions@.len(),
                        i <= n,
                        (*old(self))->actions@ == start,
                        start.len() == n,
                        forall|j: int| i <= j < n ==> actions@[j] == start[j],
                        forall|j: int|
                            0 <= j < i ==> translates_to(#[trigger] start[j], actions@[j], placement@),
                        forall|j: int| 0 <= j < n ==> covered(#[trigger] start[j], placement@),
                    decreases n - i,
                {
                    proof {
                        let whole = *old(self);
                        assert(decreases_to!(whole => whole->actions));
                        assert(decreases_to!(whole->actions => whole->actions@));
                        assert(decreases_to!(whole->actions@ => start[i as int]));
                    }
                    actions[i].translate(placement);
                    i = i + 1;
                }
                Action::Lockstep { actions }
            },
            other => other,
        };
    }
}

} // verus!
