//! The symbol table: normalized names with their resolved values, each name
//! held once, in the order in which the names were first defined.

use std::collections::HashSet;
use vstd::prelude::*;

verus! {

/// The contents of a symbol table: `(name, value)` pairs in definition order.
pub type Entries = Seq<(Seq<char>, usize)>;

/// Whether some entry carries `name`.
pub open spec fn defines(entries: Entries, name: Seq<char>) -> bool {
    exists|i: int| 0 <= i < entries.len() && (#[trigger] entries[i]).0 == name
}

/// An index at which `name` is held, where `defines(entries, name)`.
pub open spec fn position(entries: Entries, name: Seq<char>) -> int {
    choose|i: int| 0 <= i < entries.len() && (#[trigger] entries[i]).0 == name
}

/// The value recorded for `name`, if any.
pub open spec fn lookup(entries: Entries, name: Seq<char>) -> Option<usize> {
    if defines(entries, name) {
        Some(entries[position(entries, name)].1)
    } else {
        None
    }
}

/// The entries after `name` has been given `value`: an existing entry is
/// overwritten in place, a new name is appended.
pub open spec fn define(entries: Entries, name: Seq<char>, value: usize) -> Entries {
    if defines(entries, name) {
        entries.update(position(entries, name), (name, value))
    } else {
        entries.push((name, value))
    }
}

/// No name occurs in two entries.
pub open spec fn names_distinct(entries: Entries) -> bool {
    forall|i: int, j: int|
        0 <= i < j < entries.len() ==> (#[trigger] entries[i]).0 != (#[trigger] entries[j]).0
}

/// The entries read as a finite map from name to value.
pub open spec fn as_map(entries: Entries) -> Map<Seq<char>, usize> {
    Map::new(
        |name: Seq<char>| defines(entries, name),
        |name: Seq<char>| entries[position(entries, name)].1,
    )
}

/// The values of the entries, in entry order.
pub open spec fn values_of(entries: Entries) -> Seq<usize> {
    entries.map_values(|e: (Seq<char>, usize)| e.1)
}

/// There are fewer distinct values than entries.
pub open spec fn values_collide(entries: Entries) -> bool {
    values_of(entries).to_set().len() != entries.len()
}

/// Two entries share a value exactly when the values collide.
pub proof fn lemma_values_collide(entries: Entries)
    ensures
        values_collide(entries) <==> exists|i: int, j: int|
            0 <= i < j < entries.len() && (#[trigger] entries[i]).1 == (#[trigger] entries[j]).1,
{
    let values = values_of(entries);
    if values.no_duplicates() {
        values.unique_seq_to_set();
        if exists|i: int, j: int|
            0 <= i < j < entries.len() && (#[trigger] entries[i]).1 == (#[trigger] entries[j]).1 {
            let (i, j) = choose|i: int, j: int|
                0 <= i < j < entries.len() && (#[trigger] entries[i]).1 == (#[trigger] entries[j]).1;
            assert(values[i] == values[j]);
        }
    } else {
        if values.to_set().len() == values.len() {
            values.lemma_no_dup_set_cardinality();
        }
        let (i, j) = choose|i: int, j: int|
            0 <= i < values.len() && 0 <= j < values.len() && i != j && values[i] == values[j];
        if i < j {
            assert(entries[i].1 == entries[j].1);
        } else {
            assert(entries[j].1 == entries[i].1);
        }
    }
}

/// Defining a name in entries with distinct names keeps the names distinct
/// and acts on the map as an insertion.
pub proof fn lemma_define(entries: Entries, name: Seq<char>, value: usize)
    requires
        names_distinct(entries),
    ensures
        names_distinct(define(entries, name, value)),
        as_map(define(entries, name, value)) == as_map(entries).insert(name, value),
        lookup(define(entries, name, value), name) == Some(value),
        forall|other: Seq<char>|
            other != name ==> lookup(define(entries, name, value), other) == lookup(entries, other),
{
    let after = define(entries, name, value);
    if defines(entries, name) {
        let p = position(entries, name);
        assert forall|k: Seq<char>| defines(after, k) <==> defines(entries, k) by {
            if defines(entries, k) {
                let i = position(entries, k);
                assert(after[i].0 == k);
            }
            if defines(after, k) {
                let i = position(after, k);
                assert(entries[i].0 == k);
            }
        }
        assert forall|k: Seq<char>| defines(after, k) implies after[position(after, k)].1 == (if k
            == name {
            value
        } else {
            entries[position(entries, k)].1
        }) by {
            let i = position(after, k);
            let j = position(entries, k);
            assert(entries[i].0 == k);
            assert(i == j);
        }
        assert(after[p].0 == name);
    } else {
        let n = entries.len() as int;
        assert(after[n].0 == name);
        assert forall|k: Seq<char>| defines(after, k) <==> (k == name || defines(entries, k)) by {
            if defines(entries, k) {
                let i = position(entries, k);
                assert(after[i].0 == k);
            }
            if defines(after, k) {
                let i = position(after, k);
                if i < n {
                    assert(entries[i].0 == k);
                }
            }
        }
        assert forall|k: Seq<char>| defines(after, k) implies after[position(after, k)].1 == (if k
            == name {
            value
        } else {
            entries[position(entries, k)].1
        }) by {
            let i = position(after, k);
            if k != name {
                let j = position(entries, k);
                assert(entries[i].0 == k);
                assert(i == j);
            } else if i < n {
                assert(entries[i].0 == k);
            }
        }
    }
    assert(as_map(after) =~= as_map(entries).insert(name, value));
}

/// One name with its value.
#[derive(Debug)]
pub struct Symbol {
    pub name: String,
    pub value: usize,
}

impl View for Symbol {
    type V = (Seq<char>, usize);

    open spec fn view(&self) -> (Seq<char>, usize) {
        (self.name@, self.value)
    }
}

/// A mapping from normalized name to value.
#[derive(Debug)]
pub struct SymbolTable {
    symbols: Vec<Symbol>,
}

impl View for SymbolTable {
    type V = Map<Seq<char>, usize>;

    open spec fn view(&self) -> Map<Seq<char>, usize> {
        as_map(self.entries())
    }
}

impl SymbolTable {
    /// The entries of the table, in the order in which their names were first defined.
    pub closed spec fn entries(&self) -> Entries {
        self.symbols@.map_values(|s: Symbol| s@)
    }

    /// The table holds each name once.
    pub open spec fn wf(&self) -> bool {
        names_distinct(self.entries())
    }

    /// An empty table.
    pub fn new() -> (table: SymbolTable)
        ensures
            table.entries() == Seq::<(Seq<char>, usize)>::empty(),
            table.wf(),
    {
        let table = SymbolTable { symbols: Vec::new() };
        assert(table.entries() =~= Seq::<(Seq<char>, usize)>::empty());
        table
    }

    /// The number of names in the table.
    pub fn len(&self) -> (n: usize)
        ensures
            n == self.entries().len(),
    {
        self.symbols.len()
    }

    /// The entry at `index`, in definition order.
    pub fn symbol(&self, index: usize) -> (symbol: &Symbol)
        requires
            index < self.entries().len(),
        ensures
            symbol@ == self.entries()[index as int],
    {
        &self.symbols[index]
    }

    /// Where `name` is held, if it is defined.
    fn find(&self, name: &String) -> (r: Option<usize>)
        ensures
            match r {
                Some(i) => i < self.entries().len() && self.entries()[i as int].0 == name@,
                None => !defines(self.entries(), name@),
            },
    {
        let mut i: usize = 0;
        while i < self.symbols.len()
            invariant
                i <= self.symbols.len(),
                forall|j: int| 0 <= j < i ==> (#[trigger] self.entries()[j]).0 != name@,
            decreases self.symbols.len() - i,
        {
            if self.symbols[i].name == *name {
                return Some(i);
            }
            i += 1;
        }
        None
    }

    /// The value recorded for `name`, if any.
    pub fn get(&self, name: &str) -> (value: Option<usize>)
        requires
            self.wf(),
        ensures
            value == lookup(self.entries(), name@),
            value == if self@.contains_key(name@) {
                Some(self@[name@])
            } else {
                None
            },
    {
        let key = name.to_owned();
        match self.find(&key) {
            Some(i) => {
                assert(self.entries()[position(self.entries(), name@)].0 == name@);
                Some(self.symbols[i].value)
            },
            None => None,
        }
    }

    /// Records `value` for `name`, replacing what the name had before.
    pub fn insert(&mut self, name: String, value: usize)
        requires
            old(self).wf(),
        ensures
            final(self).wf(),
            final(self).entries() == define(old(self).entries(), name@, value),
            final(self)@ == old(self)@.insert(name@, value),
    {
        proof {
            lemma_define(self.entries(), name@, value);
        }
        let ghost before = self.entries();
        match self.find(&name) {
            Some(i) => {
                assert(before[position(before, name@)].0 == name@);
                self.symbols.set(i, Symbol { name, value });
                assert(self.entries() =~= define(before, name@, value));
            },
            None => {
                self.symbols.push(Symbol { name, value });
                assert(self.entries() =~= define(before, name@, value));
            },
        }
    }

    /// Whether two names of the table carry the same value.
    pub fn values_collide(&self) -> (r: bool)
        ensures
            r == values_collide(self.entries()),
    {
        broadcast use vstd::std_specs::hash::group_hash_axioms;

        let ghost values = values_of(self.entries());
        let mut seen: HashSet<usize> = HashSet::new();
        let mut i: usize = 0;
        while i < self.symbols.len()
            invariant
                i <= self.symbols.len(),
                values == values_of(self.entries()),
                seen@ == values.take(i as int).to_set(),
                values.take(i as int).no_duplicates(),
            decreases self.symbols.len() - i,
        {
            let value = self.symbols[i].value;
            assert(value == values[i as int]);
            assert(values.take(i + 1) =~= values.take(i as int).push(value));
            let fresh = seen.insert(value);
            if !fresh {
                proof {
                    let j = choose|j: int|
                        0 <= j < values.take(i as int).len() && values.take(i as int)[j] == value;
                    assert(values[j] == values[i as int]);
                    if values.to_set().len() == values.len() {
                        values.lemma_no_dup_set_cardinality();
                    }
                }
                return true;
            }
            proof {
                values.take(i as int).lemma_push_to_set_commute(value);
            }
            i += 1;
        }
        proof {
            assert(values.take(i as int) =~= values);
            values.unique_seq_to_set();
        }
        false
    }
}

} // verus!
