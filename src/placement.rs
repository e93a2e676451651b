use vstd::prelude::*;

use crate::grid::Location;

verus! {

/// The mapping that a list of (logical, physical) pairs denotes; where a
/// logical location occurs twice the earlier pair wins.
pub open spec fn pairs_map(s: Seq<(Location, Location)>) -> Map<Location, Location>
    decreases s.len(),
{
    if s.len() == 0 {
        Map::empty()
    } else {
        pairs_map(s.drop_first()).insert(s[0].0, s[0].1)
    }
}

/// A read-only translation table from logical to physical locations.
pub struct Placement {
    pairs: Vec<(Location, Location)>,
}

impl View for Placement {
    type V = Map<Location, Location>;

    closed spec fn view(&self) -> Map<Location, Location> {
        pairs_map(self.pairs@)
    }
}

impl Placement {
    /// A placement that maps nothing.
    pub fn new() -> (r: Placement)
        ensures
            r@ == Map::<Location, Location>::empty(),
    {
        Placement { pairs: Vec::new() }
    }

    /// Maps `logical` to `physical`, replacing any earlier entry for `logical`.
    pub fn insert(&mut self, logical: Location, physical: Location)
        ensures
            final(self)@ == old(self)@.insert(logical, physical),
    {
        self.pairs.insert(0, (logical, physical));
        assert(self.pairs@.drop_first() =~= old(self).pairs@);
    }

    /// The physical location of `logical`, if the table has one.
    pub fn get(&self, logical: Location) -> (r: Option<Location>)
        ensures
            r == (if self@.contains_key(logical) {
                Some(self@[logical])
            } else {
                None::<Location>
            }),
    {
        let n = self.pairs.len();
        let mut i: usize = 0;
        assert(self.pairs@.subrange(0, n as int) =~= self.pairs@);
        while i < n
            invariant
                n == self.pairs@.len(),
                i <= n,
                pairs_map(self.pairs@.subrange(i as int, n as int)).contains_key(logical)
                    == self@.contains_key(logical),
                pairs_map(self.pairs@.subrange(i as int, n as int)).contains_key(logical)
                    ==> pairs_map(self.pairs@.subrange(i as int, n as int))[logical]
                    == self@[logical],
            decreases n - i,
        {
            let rest = Ghost(self.pairs@.subrange(i as int, n as int));
            assert(rest@.drop_first() =~= self.pairs@.subrange(i + 1, n as int));
            assert(rest@[0] == self.pairs@[i as int]);
            if self.pairs[i].0 == logical {
                return Some(self.pairs[i].1);
            }
            i = i + 1;
        }
        assert(self.pairs@.subrange(n as int, n as int) =~= Seq::<(Location, Location)>::empty());
        None
    }
}

} // verus!
