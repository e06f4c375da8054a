//! The store of functions that the page may call: each name maps to the
//! number of arguments the function takes and the function itself.
//! Registering a name again replaces what it mapped to.

use vstd::prelude::*;
use crate::protocol::{register_message, FunctionRegister, MessageType};

verus! {

/// One registered function.
#[derive(Clone, Debug)]
pub struct FunctionEntry<F> {
    pub name: String,
    /// The number of arguments the function takes.
    pub args: usize,
    pub handler: F,
}

/// The registered functions, by name.
#[derive(Debug)]
pub struct FunctionStore<F> {
    entries: Vec<FunctionEntry<F>>,
}

/// No two entries carry the same name.
pub open spec fn names_distinct<F>(s: Seq<FunctionEntry<F>>) -> bool {
    forall|i: int, j: int|
        0 <= i < s.len() && 0 <= j < s.len() && i != j ==> #[trigger] s[i].name@ != #[trigger] s[j].name@
}

/// Some entry carries the name `k`.
pub open spec fn has_name<F>(s: Seq<FunctionEntry<F>>, k: Seq<char>) -> bool {
    exists|i: int| 0 <= i < s.len() && #[trigger] s[i].name@ == k
}

/// The position of an entry that carries the name `k`.
pub open spec fn position_of<F>(s: Seq<FunctionEntry<F>>, k: Seq<char>) -> int {
    choose|i: int| 0 <= i < s.len() && #[trigger] s[i].name@ == k
}

/// The map from names to (number of arguments, function) that the entries give.
pub open spec fn entries_map<F>(s: Seq<FunctionEntry<F>>) -> Map<Seq<char>, (usize, F)> {
    Map::new(
        |k: Seq<char>| has_name(s, k),
        |k: Seq<char>| (s[position_of(s, k)].args, s[position_of(s, k)].handler),
    )
}

/// Where names are distinct, the entry at `i` is the one the map holds for its name.
pub proof fn lemma_entry_in_map<F>(s: Seq<FunctionEntry<F>>, i: int)
    requires
        names_distinct(s),
        0 <= i < s.len(),
    ensures
        entries_map(s).contains_key(s[i].name@),
        entries_map(s)[s[i].name@] == (s[i].args, s[i].handler),
{
    assert(has_name(s, s[i].name@));
    let p = position_of(s, s[i].name@);
    assert(s[p].name@ == s[i].name@);
}

/// What registering does to lookups: the name just registered gives the
/// function just registered, every other name gives what it gave before,
/// and of two registrations under one name the later one stands alone.
pub proof fn lemma_lookup_after_register<F>(
    m: Map<Seq<char>, (usize, F)>,
    name: Seq<char>,
    other: Seq<char>,
    args: usize,
    f: F,
    args2: usize,
    f2: F,
)
    requires
        other != name,
    ensures
        m.insert(name, (args, f)).contains_key(name),
        m.insert(name, (args, f))[name] == (args, f),
        m.insert(name, (args, f)).contains_key(other) == m.contains_key(other),
        m.contains_key(other) ==> m.insert(name, (args, f))[other] == m[other],
        m.insert(name, (args, f)).insert(name, (args2, f2)) == m.insert(name, (args2, f2)),
{
    assert(m.insert(name, (args, f)).insert(name, (args2, f2)) =~= m.insert(name, (args2, f2)));
}

impl<F> View for FunctionStore<F> {
    type V = Map<Seq<char>, (usize, F)>;

    closed spec fn view(&self) -> Map<Seq<char>, (usize, F)> {
        entries_map(self.entries@)
    }
}

impl<F: Clone> Clone for FunctionStore<F> {
    /// A copy with the same names, each with the same number of arguments and
    /// a clone of the function registered under it.
    fn clone(&self) -> (r: Self)
        ensures
            r@.dom() == self@.dom(),
            forall|k: Seq<char>| #[trigger] r@.contains_key(k) ==> r@[k].0 == self@[k].0,
            forall|k: Seq<char>|
                #[trigger] r@.contains_key(k) ==> vstd::pervasive::cloned::<F>(self@[k].1, r@[k].1),
    {
        proof {
            use_type_invariant(self);
        }
        let mut entries: Vec<FunctionEntry<F>> = Vec::new();
        let mut i: usize = 0;
        while i < self.entries.len()
            invariant
                i <= self.entries@.len(),
                names_distinct(self.entries@),
                entries@.len() == i,
                forall|j: int|
                    0 <= j < i ==> (#[trigger] entries@[j]).name@ == self.entries@[j].name@
                        && entries@[j].args == self.entries@[j].args
                        && vstd::pervasive::cloned::<F>(self.entries@[j].handler, entries@[j].handler),
            decreases self.entries@.len() - i,
        {
            let e = &self.entries[i];
            entries.push(FunctionEntry { name: e.name.clone(), args: e.args, handler: e.handler.clone() });
            i = i + 1;
        }
        let ghost s = self.entries@;
        let ghost t = entries@;
        assert(names_distinct(t)) by {
            assert forall|a: int, b: int|
                0 <= a < t.len() && 0 <= b < t.len() && a != b implies #[trigger] t[a].name@
                != #[trigger] t[b].name@ by {
                assert(s[a].name@ != s[b].name@);
            }
        }
        let r = FunctionStore { entries };
        assert(r@.dom() =~= self@.dom()) by {
            assert forall|k: Seq<char>| has_name(t, k) == has_name(s, k) by {
                if has_name(t, k) {
                    let p = choose|p: int| 0 <= p < t.len() && #[trigger] t[p].name@ == k;
                    assert(s[p].name@ == k);
                }
                if has_name(s, k) {
                    let p = choose|p: int| 0 <= p < s.len() && #[trigger] s[p].name@ == k;
                    assert(t[p].name@ == k);
                }
            }
        }
        assert forall|k: Seq<char>| #[trigger] r@.contains_key(k) implies r@[k].0 == self@[k].0
            && vstd::pervasive::cloned::<F>(self@[k].1, r@[k].1) by {
            let p = choose|p: int| 0 <= p < t.len() && #[trigger] t[p].name@ == k;
            lemma_entry_in_map(t, p);
            lemma_entry_in_map(s, p);
        }
        r
    }
}

impl<F> FunctionStore<F> {
    #[verifier::type_invariant]
    closed spec fn inv(self) -> bool {
        names_distinct(self.entries@)
    }

    /// An empty store.
    pub fn new() -> (r: Self)
        ensures
            r@ == Map::<Seq<char>, (usize, F)>::empty(),
    {
        let r = FunctionStore { entries: Vec::new() };
        assert(r@ =~= Map::<Seq<char>, (usize, F)>::empty());
        r
    }

    /// The number of registered functions.
    pub fn len(&self) -> (n: usize)
        ensures
            n == self@.len(),
            self@.dom().finite(),
    {
        proof {
            use_type_invariant(self);
            self.lemma_dom_len();
        }
        self.entries.len()
    }

    proof fn lemma_dom_len(&self)
        requires
            names_distinct(self.entries@),
        ensures
            self@.dom().finite(),
            self@.len() == self.entries@.len(),
    {
        let s = self.entries@;
        let names = s.map_values(|e: FunctionEntry<F>| e.name@);
        assert(names.no_duplicates()) by {
            assert forall|i: int, j: int|
                0 <= i < names.len() && 0 <= j < names.len() && i != j implies names[i]
                != names[j] by {
                assert(s[i].name@ != s[j].name@);
            }
        }
        assert(self@.dom() =~= names.to_set()) by {
            assert forall|k: Seq<char>| self@.dom().contains(k) implies names.to_set().contains(
                k,
            ) by {
                let p = position_of(s, k);
                assert(names[p] == k);
            }
            assert forall|k: Seq<char>| names.to_set().contains(k) implies self@.dom().contains(
                k,
            ) by {
                let i = choose|i: int| 0 <= i < names.len() && names[i] == k;
                assert(s[i].name@ == k);
            }
        }
        names.unique_seq_to_set();
    }

    /// The position of the entry named `name`, if there is one.
    fn find(&self, name: &String) -> (r: Option<usize>)
        ensures
            match r {
                Some(i) => i < self.entries@.len() && self.entries@[i as int].name@ == name@,
                None => !has_name(self.entries@, name@),
            },
    {
        let mut i: usize = 0;
        while i < self.entries.len()
            invariant
                i <= self.entries@.len(),
                forall|j: int| 0 <= j < i ==> #[trigger] self.entries@[j].name@ != name@,
            decreases self.entries@.len() - i,
        {
            if self.entries[i].name == *name {
                return Some(i);
            }
            i = i + 1;
        }
        None
    }

    /// The function registered under `name`, if any.
    pub fn get(&self, name: &String) -> (r: Option<&FunctionEntry<F>>)
        ensures
            match r {
                Some(e) => self@.contains_key(name@) && e.name@ == name@ && (e.args, e.handler)
                    == self@[name@],
                None => !self@.contains_key(name@),
            },
    {
        proof {
            use_type_invariant(self);
        }
        match self.find(name) {
            Some(i) => {
                proof {
                    lemma_entry_in_map(self.entries@, i as int);
                }
                Some(&self.entries[i])
            },
            None => None,
        }
    }

    /// Registers `handler`, taking `args` arguments, under `name`; a function
    /// registered before under that name is replaced.
    pub fn register(&mut self, name: String, args: usize, handler: F)
        ensures
            final(self)@ == old(self)@.insert(name@, (args, handler)),
    {
        proof {
            use_type_invariant(&*self);
        }
        let ghost old_entries = self.entries@;
        let ghost key = name@;
        let found = self.find(&name);
        let entry = FunctionEntry { name, args, handler };
        let mut entries = Vec::new();
        std::mem::swap(&mut entries, &mut self.entries);
        match found {
            Some(i) => {
                entries.set(i, entry);
            },
            None => {
                entries.push(entry);
            },
        }
        proof {
            let s = entries@;
            assert(names_distinct(s)) by {
                assert forall|a: int, b: int|
                    0 <= a < s.len() && 0 <= b < s.len() && a != b implies #[trigger] s[a].name@
                    != #[trigger] s[b].name@ by {
                    if a < old_entries.len() && b < old_entries.len() {
                        assert(old_entries[a].name@ != old_entries[b].name@);
                    } else if a >= old_entries.len() {
                        assert(!has_name(old_entries, key));
                        assert(s[b] == old_entries[b]);
                    } else {
                        assert(!has_name(old_entries, key));
                        assert(s[a] == old_entries[a]);
                    }
                }
            }
            assert(entries_map(s) =~= entries_map(old_entries).insert(key, (args, handler))) by {
                assert forall|k: Seq<char>| #[trigger]
                    entries_map(s).contains_key(k) == entries_map(old_entries).insert(
                        key,
                        (args, handler),
                    ).contains_key(k) by {
                    if has_name(s, k) {
                        let p = choose|p: int| 0 <= p < s.len() && #[trigger] s[p].name@ == k;
                        if k != key {
                            assert(s[p] == old_entries[p]);
                            assert(has_name(old_entries, k));
                        }
                    }
                    if has_name(old_entries, k) && k != key {
                        let p = choose|p: int|
                            0 <= p < old_entries.len() && #[trigger] old_entries[p].name@ == k;
                        assert(s[p] == old_entries[p]);
                        assert(has_name(s, k));
                    }
                    if k == key {
                        let p = match found {
                            Some(i) => i as int,
                            None => old_entries.len() as int,
                        };
                        assert(s[p].name@ == k);
                        assert(has_name(s, k));
                    }
                }
                assert forall|k: Seq<char>| #[trigger] entries_map(s).contains_key(k) implies
                    entries_map(s)[k] == entries_map(old_entries).insert(
                    key,
                    (args, handler),
                )[k] by {
                    let p = choose|p: int| 0 <= p < s.len() && #[trigger] s[p].name@ == k;
                    lemma_entry_in_map(s, p);
                    if k != key {
                        assert(s[p] == old_entries[p]);
                        lemma_entry_in_map(old_entries, p);
                    }
                }
            }
        }
        self.entries = entries;
    }

    /// One register message for each registered function, in the order of
    /// the entries: each names a registered function and carries its number
    /// of arguments, and each registered function is named by exactly one.
    pub fn register_messages(&self) -> (r: Vec<FunctionRegister>)
        ensures
            r@.len() == self@.len(),
            forall|i: int|
                0 <= i < r@.len() ==> {
                    &&& self@.contains_key(#[trigger] r@[i].function@)
                    &&& r@[i].args == self@[r@[i].function@].0
                    &&& r@[i].actiontype == MessageType::ServerToClientRegister
                },
            forall|i: int, j: int|
                0 <= i < r@.len() && 0 <= j < r@.len() && i != j ==> #[trigger] r@[i].function@
                    != #[trigger] r@[j].function@,
            forall|k: Seq<char>|
                #[trigger] self@.contains_key(k) ==> exists|i: int|
                    0 <= i < r@.len() && #[trigger] r@[i].function@ == k,
    {
        proof {
            use_type_invariant(self);
            self.lemma_dom_len();
        }
        let mut r: Vec<FunctionRegister> = Vec::new();
        let mut i: usize = 0;
        while i < self.entries.len()
            invariant
                i <= self.entries@.len(),
                names_distinct(self.entries@),
                r@.len() == i,
                forall|j: int|
                    0 <= j < i ==> {
                        &&& (#[trigger] r@[j]).function@ == self.entries@[j].name@
                        &&& r@[j].args == self.entries@[j].args
                        &&& r@[j].actiontype == MessageType::ServerToClientRegister
                    },
            decreases self.entries@.len() - i,
        {
            let e = &self.entries[i];
            r.push(register_message(e.name.clone(), e.args));
            i = i + 1;
        }
        proof {
            let s = self.entries@;
            assert forall|j: int| 0 <= j < r@.len() implies {
                &&& self@.contains_key(#[trigger] r@[j].function@)
                &&& r@[j].args == self@[r@[j].function@].0
                &&& r@[j].actiontype == MessageType::ServerToClientRegister
            } by {
                lemma_entry_in_map(s, j);
            }
            assert forall|a: int, b: int|
                0 <= a < r@.len() && 0 <= b < r@.len() && a != b implies #[trigger] r@[a].function@
                != #[trigger] r@[b].function@ by {
                assert(s[a].name@ != s[b].name@);
                assert(r@[a].function@ == s[a].name@);
                assert(r@[b].function@ == s[b].name@);
            }
            assert forall|k: Seq<char>| #[trigger] self@.contains_key(k) implies exists|j: int|
                0 <= j < r@.len() && #[trigger] r@[j].function@ == k by {
                let p = position_of(s, k);
                assert(r@[p].function@ == k);
            }
        }
        r
    }
}

} // verus!
