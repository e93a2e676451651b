use vstd::prelude::*;

use crate::action::Action;

verus! {

/// A grid coordinate, logical or physical.
#[derive(Clone, Copy, Debug, PartialEq, Eq, Structural)]
pub struct Location {
    pub y: i32,
    pub x: i32,
}

/// Handle of one droplet while it lives on the grid.
#[derive(Clone, Copy, Debug, PartialEq, Eq, Structural)]
pub struct DropletId {
    pub id: usize,
}

/// What a snapshot reports of one droplet.
#[derive(Clone, Copy, Debug, PartialEq, Eq, Structural)]
pub struct DropletInfo {
    pub id: DropletId,
    pub location: Location,
    pub collision_group: usize,
}

/// A droplet as it is introduced: it starts in a collision group of its own,
/// numbered after its id.
pub open spec fn fresh(id: DropletId, location: Location) -> DropletInfo {
    DropletInfo { id, location, collision_group: id.id }
}

/// Keeps the records of every droplet but `id`.
pub open spec fn other_than(id: DropletId) -> spec_fn(DropletInfo) -> bool {
    |d: DropletInfo| d.id != id
}

/// `s` with the record of `id` taken out.
pub open spec fn without(s: Seq<DropletInfo>, id: DropletId) -> Seq<DropletInfo> {
    s.filter(other_than(id))
}

/// The first record of `id` in `s`, if any.
pub open spec fn find(s: Seq<DropletInfo>, id: DropletId) -> Option<DropletInfo>
    decreases s.len(),
{
    if s.len() == 0 {
        None
    } else if s[0].id == id {
        Some(s[0])
    } else {
        find(s.drop_first(), id)
    }
}

/// `s` with the record of `id` moved to `location`.
pub open spec fn relocated(s: Seq<DropletInfo>, id: DropletId, location: Location) -> Seq<DropletInfo> {
    s.map_values(|d: DropletInfo| if d.id == id { DropletInfo { location, ..d } } else { d })
}

/// `s` with the record of `id` put in collision group `cg`.
pub open spec fn regrouped(s: Seq<DropletInfo>, id: DropletId, cg: usize) -> Seq<DropletInfo> {
    s.map_values(|d: DropletInfo| if d.id == id { DropletInfo { collision_group: cg, ..d } } else { d })
}

/// The droplet table after applying `a` to `s`. Commands that name a droplet
/// the table does not hold change nothing; adding an id that is present
/// replaces its record. Mixing puts the product where the first input was;
/// splitting puts both products where the input was.
pub open spec fn applied(s: Seq<DropletInfo>, a: Action) -> Seq<DropletInfo>
    decreases a,
{
    match a {
        Action::AddDroplet { id, location } => without(s, id).push(fresh(id, location)),
        Action::RemoveDroplet { id } => without(s, id),
        Action::Mix { in0, in1, out } => match (find(s, in0), find(s, in1)) {
            (Some(d0), Some(_)) => without(without(s, in0), in1).push(fresh(out, d0.location)),
            _ => s,
        },
        Action::Split { inp, out0, out1 } => match find(s, inp) {
            Some(d) => without(s, inp).push(fresh(out0, d.location)).push(fresh(out1, d.location)),
            None => s,
        },
        Action::SetCollisionGroup { id, cg } => regrouped(s, id, cg),
        Action::MoveDroplet { id, location } => relocated(s, id, location),
        Action::Lockstep { actions } => applied_all(s, actions@),
        _ => s,
    }
}

/// The droplet table after applying each of `actions` in turn to `s`.
pub open spec fn applied_all(s: Seq<DropletInfo>, actions: Seq<Action>) -> Seq<DropletInfo>
    decreases actions,
{
    if actions.len() == 0 {
        s
    } else {
        applied(applied_all(s, actions.drop_last()), actions.last())
    }
}

/// The droplets currently on the grid, in the order they were introduced.
pub struct GridView {
    droplets: Vec<DropletInfo>,
}

impl View for GridView {
    type V = Seq<DropletInfo>;

    closed spec fn view(&self) -> Seq<DropletInfo> {
        self.droplets@
    }
}

impl GridView {
    /// An empty grid.
    pub fn new() -> (r: GridView)
        ensures
            r@ == Seq::<DropletInfo>::empty(),
    {
        GridView { droplets: Vec::new() }
    }

    /// A snapshot of every droplet, in table order, with no filter applied.
    pub fn droplet_info(&self) -> (r: Vec<DropletInfo>)
        ensures
            r@ == self@,
    {
        let mut out: Vec<DropletInfo> = Vec::new();
        let mut i: usize = 0;
        while i < self.droplets.len()
            invariant
                i <= self.droplets@.len(),
                out@ == self.droplets@.subrange(0, i as int),
            decreases self.droplets@.len() - i,
        {
            out.push(self.droplets[i]);
            i = i + 1;
            assert(out@ =~= self.droplets@.subrange(0, i as int));
        }
        assert(out@ =~= self.droplets@);
        out
    }

    /// Applies one command to the table; a group's members are applied in
    /// order, one after another.
    pub fn apply(&mut self, action: &Action)
        ensures
            final(self)@ == applied(old(self)@, *action),
        decreases *action,
    {
        match action {
            Action::AddDroplet { id, location } => {
                self.discard(*id);
                self.droplets.push(DropletInfo { id: *id, location: *location, collision_group: id.id });
            },
            Action::RemoveDroplet { id } => {
                self.discard(*id);
            },
            Action::Mix { in0, in1, out } => {
                let first = self.lookup(*in0);
                let second = self.lookup(*in1);
                if let (Some(d0), Some(_)) = (first, second) {
                    self.discard(*in0);
                    self.discard(*in1);
                    self.droplets.push(DropletInfo { id: *out, location: d0.location, collision_group: out.id });
                }
            },
            Action::Split { inp, out0, out1 } => {
                if let Some(d) = self.lookup(*inp) {
                    self.discard(*inp);
                    self.droplets.push(DropletInfo { id: *out0, location: d.location, collision_group: out0.id });
                    self.droplets.push(DropletInfo { id: *out1, location: d.location, collision_group: out1.id });
                }
            },
            Action::SetCollisionGroup { id, cg } => {
                self.regroup(*id, *cg);
            },
            Action::MoveDroplet { id, location } => {
                self.relocate(*id, *location);
            },
            Action::Lockstep { actions } => {
                let ghost start = self@;
                let mut i: usize = 0;
                while i < actions.len()
                    invariant
                        *action is Lockstep,
                        action->actions == *actions,
                        i <= actions@.len(),
                        self@ == applied_all(start, actions@.subrange(0, i as int)),
                    decreases actions@.len() - i,
                {
                    proof {
                        let whole = *action;
                        assert(decreases_to!(whole => whole->actions));
                        assert(decreases_to!(whole->actions => whole->actions@));
                        assert(decreases_to!(whole->actions@ => actions@[i as int]));
                    }
                    self.apply(&actions[i]);
                    assert(actions@.subrange(0, i + 1).drop_last() =~= actions@.subrange(0, i as int));
                    i = i + 1;
                }
                assert(actions@.subrange(0, actions@.len() as int) =~= actions@);
            },
            _ => {},
        }
    }

    /// The record of `id`, if the table holds one.
    fn lookup(&self, id: DropletId) -> (r: Option<DropletInfo>)
        ensures
            r == find(self@, id),
    {
        let n = self.droplets.len();
        let mut i: usize = 0;
        assert(self.droplets@.subrange(0, n as int) =~= self.droplets@);
        while i < n
            invariant
                n == self.droplets@.len(),
                i <= n,
                find(self.droplets@.subrange(i as int, n as int), id) == find(self@, id),
            decreases n - i,
        {
            let ghost rest = self.droplets@.subrange(i as int, n as int);
            assert(rest.drop_first() =~= self.droplets@.subrange(i + 1, n as int));
            if self.droplets[i].id == id {
                return Some(self.droplets[i]);
            }
            i = i + 1;
        }
        None
    }

    /// Takes the record of `id` out of the table.
    fn discard(&mut self, id: DropletId)
        ensures
            final(self)@ == without(old(self)@, id),
    {
        let ghost s = self.droplets@;
        let mut kept: Vec<DropletInfo> = Vec::new();
        let mut i: usize = 0;
        while i < self.droplets.len()
            invariant
                self.droplets@ == s,
                i <= s.len(),
                kept@ == s.subrange(0, i as int).filter(other_than(id)),
            decreases s.len() - i,
        {
            let d = self.droplets[i];
            proof {
                assert(s.subrange(0, i + 1) =~= s.subrange(0, i as int).push(d));
                s.subrange(0, i as int).lemma_filter_push(d, other_than(id));
            }
            if d.id != id {
                kept.push(d);
            }
            i = i + 1;
        }
        assert(s.subrange(0, s.len() as int) =~= s);
        self.droplets = kept;
    }

    /// Moves the record of `id` to `location`.
    fn relocate(&mut self, id: DropletId, location: Location)
        ensures
            final(self)@ == relocated(old(self)@, id, location),
    {
        let ghost s = self.droplets@;
        let mut i: usize = 0;
        while i < self.droplets.len()
            invariant
                self.droplets@.len() == s.len(),
                i <= s.len(),
                forall|j: int| 0 <= j < i ==> self.droplets@[j] == relocated(s, id, location)[j],
                forall|j: int| i <= j < s.len() ==> self.droplets@[j] == s[j],
            decreases s.len() - i,
        {
            if self.droplets[i].id == id {
                self.droplets[i].location = location;
            }
            i = i + 1;
        }
        assert(self.droplets@ =~= relocated(s, id, location));
    }

    /// Puts the record of `id` in collision group `cg`.
    fn regroup(&mut self, id: DropletId, cg: usize)
        ensures
            final(self)@ == regrouped(old(self)@, id, cg),
    {
        let ghost s = self.droplets@;
        let mut i: usize = 0;
        while i < self.droplets.len()
            invariant
                self.droplets@.len() == s.len(),
                i <= s.len(),
                forall|j: int| 0 <= j < i ==> self.droplets@[j] == regrouped(s, id, cg)[j],
                forall|j: int| i <= j < s.len() ==> self.droplets@[j] == s[j],
            decreases s.len() - i,
        {
            if self.droplets[i].id == id {
                self.droplets[i].collision_group = cg;
            }
            i = i + 1;
        }
        assert(self.droplets@ =~= regrouped(s, id, cg));
    }
}

} // verus!
