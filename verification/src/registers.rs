//! The register file: named signed 64-bit cells, each zero until first written.
use vstd::prelude::*;

verus! {

/// The value that `registers` holds for `name`: zero for a name never written.
pub open spec fn read(registers: Map<Seq<char>, i64>, name: Seq<char>) -> i64 {
    if registers.contains_key(name) {
        registers[name]
    } else {
        0
    }
}

/// The mapping that a list of name and value pairs stands for; where a name
/// occurs more than once its last pair counts.
pub open spec fn table(entries: Seq<(String, i64)>) -> Map<Seq<char>, i64>
    decreases entries.len(),
{
    if entries.len() == 0 {
        Map::empty()
    } else {
        table(entries.drop_last()).insert(entries.last().0@, entries.last().1)
    }
}

/// Whether no two entries carry the same name.
pub open spec fn distinct(entries: Seq<(String, i64)>) -> bool {
    forall|i: int, j: int|
        0 <= i < j < entries.len() ==> (#[trigger] entries[i]).0@ != (#[trigger] entries[j]).0@
}

/// The names of a table are those of its entries.
pub proof fn lemma_table_names(entries: Seq<(String, i64)>, name: Seq<char>)
    ensures
        table(entries).contains_key(name) <==> exists|i: int|
            0 <= i < entries.len() && (#[trigger] entries[i]).0@ == name,
    decreases entries.len(),
{
    if entries.len() > 0 {
        let shorter = entries.drop_last();
        lemma_table_names(shorter, name);
        if table(entries).contains_key(name) {
            if entries.last().0@ == name {
            } else {
                let i = choose|i: int| 0 <= i < shorter.len() && (#[trigger] shorter[i]).0@ == name;
            }
        } else if exists|i: int| 0 <= i < entries.len() && (#[trigger] entries[i]).0@ == name {
            let i = choose|i: int| 0 <= i < entries.len() && (#[trigger] entries[i]).0@ == name;
            assert(shorter[i].0@ == name);
        }
    }
}

/// With distinct names, each entry's value is the one the table holds for its name.
pub proof fn lemma_table_value(entries: Seq<(String, i64)>, at: int)
    requires
        distinct(entries),
        0 <= at < entries.len(),
    ensures
        table(entries).contains_key(entries[at].0@),
        table(entries)[entries[at].0@] == entries[at].1,
    decreases entries.len(),
{
    let shorter = entries.drop_last();
    if at < entries.len() - 1 {
        lemma_table_value(shorter, at);
    }
}

/// With distinct names, giving one entry a new value is an insertion into the table.
pub proof fn lemma_table_update(entries: Seq<(String, i64)>, at: int, value: i64)
    requires
        distinct(entries),
        0 <= at < entries.len(),
    ensures
        table(entries.update(at, (entries[at].0, value))) == table(entries).insert(
            entries[at].0@,
            value,
        ),
    decreases entries.len(),
{
    let changed = entries.update(at, (entries[at].0, value));
    let shorter = entries.drop_last();
    if at < entries.len() - 1 {
        lemma_table_update(shorter, at, value);
        assert(changed.drop_last() == shorter.update(at, (entries[at].0, value)));
    } else {
        assert(changed.drop_last() == shorter);
    }
}

/// The registers written so far, with their values.
pub struct Registers {
    entries: Vec<(String, i64)>,
}

impl View for Registers {
    type V = Map<Seq<char>, i64>;

    closed spec fn view(&self) -> Map<Seq<char>, i64> {
        table(self.entries@)
    }
}

impl Registers {
    #[verifier::type_invariant]
    spec fn names_differ(self) -> bool {
        distinct(self.entries@)
    }

    /// A register file in which nothing was written yet.
    pub fn new() -> (registers: Self)
        ensures
            registers@ == Map::<Seq<char>, i64>::empty(),
    {
        Registers { entries: Vec::new() }
    }

    /// Where the entry for `name` stands, if there is one.
    fn position(&self, name: &String) -> (found: Option<usize>)
        ensures
            match found {
                Some(at) => at < self.entries@.len() && self.entries@[at as int].0@ == name@,
                None => !self@.contains_key(name@),
            },
    {
        let mut at: usize = 0;
        while at < self.entries.len()
            invariant
                at <= self.entries@.len(),
                forall|i: int| 0 <= i < at ==> (#[trigger] self.entries@[i]).0@ != name@,
            decreases self.entries@.len() - at,
        {
            if self.entries[at].0 == *name {
                return Some(at);
            }
            at += 1;
        }
        proof {
            lemma_table_names(self.entries@, name@);
        }
        None
    }

    /// Reads the register `name`: zero if it was never written.
    pub fn get(&self, name: &String) -> (value: i64)
        ensures
            value == read(self@, name@),
    {
        match self.position(name) {
            Some(at) => {
                proof {
                    use_type_invariant(self);
                    lemma_table_value(self.entries@, at as int);
                }
                self.entries[at].1
            },
            None => 0,
        }
    }

    /// Writes `value` to the register `name`.
    pub fn set(&mut self, name: &String, value: i64)
        ensures
            final(self)@ == old(self)@.insert(name@, value),
    {
        proof {
            use_type_invariant(&*self);
        }
        let found = self.position(name);
        // The list is taken out while it changes and put back whole, so that
        // this struct holds a list with distinct names at every moment.
        let mut entries: Vec<(String, i64)> = Vec::new();
        std::mem::swap(&mut self.entries, &mut entries);
        match found {
            Some(at) => {
                proof {
                    lemma_table_update(entries@, at as int, value);
                }
                entries[at].1 = value;
            },
            None => {
                proof {
                    lemma_table_names(entries@, name@);
                }
                entries.push((name.clone(), value));
                assert(entries@.drop_last() == old(self).entries@);
            },
        }
        std::mem::swap(&mut self.entries, &mut entries);
    }

    /// The registers written so far, each once, with its value. The listing is
    /// complete: a name is in it exactly when the view holds it.
    pub fn entries(&self) -> (list: &Vec<(String, i64)>)
        ensures
            distinct(list@),
            table(list@) == self@,
    {
        proof {
            use_type_invariant(self);
        }
        &self.entries
    }
}

} // verus!
