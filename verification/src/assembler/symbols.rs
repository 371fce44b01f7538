//! The symbol table: which label stands for which offset.

use vstd::prelude::*;

verus! {

/// The mapping that a list of entries stands for, where a later entry for a name
/// replaces an earlier one.
pub open spec fn spec_table(entries: Seq<(String, usize)>) -> Map<Seq<char>, nat>
    decreases entries.len(),
{
    if entries.len() == 0 {
        Map::empty()
    } else {
        spec_table(entries.drop_last()).insert(entries.last().0@, entries.last().1 as nat)
    }
}

/// A mapping from label names to word offsets. A name is entered once: a second
/// entry for it is refused.
pub struct SymbolTable {
    entries: Vec<(String, usize)>,
}

impl View for SymbolTable {
    type V = Map<Seq<char>, nat>;

    closed spec fn view(&self) -> Map<Seq<char>, nat> {
        spec_table(self.entries@)
    }
}

impl SymbolTable {
    /// An empty table.
    pub fn new() -> (t: SymbolTable)
        ensures
            t@ == Map::<Seq<char>, nat>::empty(),
    {
        SymbolTable { entries: Vec::new() }
    }

    /// The offset that `name` stands for, if the table has the name.
    pub fn lookup(&self, name: &String) -> (r: Option<usize>)
        ensures
            match r {
                Some(offset) => self@.dom().contains(name@) && self@[name@] == offset,
                None => !self@.dom().contains(name@),
            },
    {
        let mut i = self.entries.len();
        assert(self.entries@.take(i as int) =~= self.entries@);
        while i > 0
            invariant
                i <= self.entries.len(),
                self@.dom().contains(name@) == spec_table(self.entries@.take(i as int)).dom().contains(
                    name@,
                ),
                self@.dom().contains(name@) ==> self@[name@] == spec_table(
                    self.entries@.take(i as int),
                )[name@],
            decreases i,
        {
            proof {
                assert(self.entries@.take(i as int).drop_last() =~= self.entries@.take(i - 1));
            }
            i -= 1;
            if self.entries[i].0 == *name {
                return Some(self.entries[i].1);
            }
        }
        assert(self.entries@.take(0) =~= Seq::empty());
        None
    }

    /// Enters `name` with `offset`, unless the table has the name already. Returns
    /// whether it was entered.
    pub fn insert(&mut self, name: String, offset: usize) -> (fresh: bool)
        ensures
            fresh == !old(self)@.dom().contains(name@),
            fresh ==> final(self)@ == old(self)@.insert(name@, offset as nat),
            !fresh ==> final(self)@ == old(self)@,
    {
        if self.lookup(&name).is_some() {
            return false;
        }
        let ghost before = self.entries@;
        self.entries.push((name, offset));
        assert(self.entries@.drop_last() =~= before);
        true
    }
}

} // verus!
