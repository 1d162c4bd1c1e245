use vstd::prelude::*;

use crate::symbol::Symbol;

verus! {

/// A variable-binding environment: a finite map from symbol names to the
/// bits of their double values. The caller fills it and hands it to `eval`,
/// which only reads it. Inserting a name twice keeps the latest value, as a
/// hash map would.
pub struct Bindings {
    entries: Vec<(Symbol, u64)>,
}

/// The map an entry list denotes: later entries win.
spec fn map_of(entries: Seq<(Symbol, u64)>) -> Map<Seq<char>, u64>
    decreases entries.len(),
{
    if entries.len() == 0 {
        Map::empty()
    } else {
        map_of(entries.drop_last()).insert(entries.last().0@, entries.last().1)
    }
}

impl View for Bindings {
    type V = Map<Seq<char>, u64>;

    closed spec fn view(&self) -> Map<Seq<char>, u64> {
        map_of(self.entries@)
    }
}

impl Bindings {
    /// An empty environment.
    pub fn new() -> (b: Bindings)
        ensures
            b@ == Map::<Seq<char>, u64>::empty(),
    {
        Bindings { entries: Vec::new() }
    }

    /// Binds `sym` to `val` (the bits of a double), replacing any earlier
    /// binding of the same name; returns the value it replaced, if any.
    pub fn insert(&mut self, sym: Symbol, val: u64) -> (prev: Option<u64>)
        ensures
            final(self)@ == old(self)@.insert(sym@, val),
            match prev {
                Some(v) => old(self)@.contains_key(sym@) && old(self)@[sym@] == v,
                None => !old(self)@.contains_key(sym@),
            },
    {
        let prev = self.get(&sym);
        self.entries.push((sym, val));
        proof {
            assert(self.entries@.drop_last() =~= old(self).entries@);
        }
        prev
    }

    /// The value bound to `sym`, or `None` when the name is unbound.
    pub fn get(&self, sym: &Symbol) -> (r: Option<u64>)
        ensures
            match r {
                Some(v) => self@.contains_key(sym@) && self@[sym@] == v,
                None => !self@.contains_key(sym@),
            },
    {
        let ghost whole = self.entries@;
        let mut i: usize = self.entries.len();
        proof {
            assert(whole.take(i as int) =~= whole);
        }
        while i > 0
            invariant
                i <= self.entries@.len(),
                self.entries@ == whole,
                map_of(whole).contains_key(sym@) == map_of(whole.take(i as int)).contains_key(
                    sym@,
                ),
                map_of(whole).contains_key(sym@) ==> map_of(whole)[sym@] == map_of(
                    whole.take(i as int),
                )[sym@],
            decreases i,
        {
            let entry = &self.entries[i - 1];
            proof {
                assert(whole.take(i as int).drop_last() =~= whole.take(i - 1));
                assert(whole.take(i as int).last() == whole[i - 1]);
            }
            if entry.0.eq(sym) {
                return Some(entry.1);
            }
            i = i - 1;
        }
        proof {
            assert(whole.take(0) =~= Seq::<(Symbol, u64)>::empty());
        }
        None
    }
}

} // verus!
