use vstd::prelude::*;
use crate::value::{Value, ValueView};

verus! {

/// One entry of a scope: an identifier and the value bound to it.
#[derive(Debug)]
pub struct Binding {
    /// The identifier.
    pub name: String,
    /// The value bound to it.
    pub value: Value,
}

/// A mapping from identifiers to values. The bindings are kept in the order in which
/// they were made; binding a name again puts the new binding last.
#[derive(Debug)]
pub struct Scope {
    /// The bindings, the oldest first. No name occurs twice.
    entries: Vec<Binding>,
}

/// Whether no name occurs twice among the bindings.
pub open spec fn distinct_names(entries: Seq<Binding>) -> bool {
    forall|i: int, j: int|
        0 <= i < j < entries.len() ==> (#[trigger] entries[i]).name@ != (#[trigger] entries[j]).name@
}

/// The mapping that a sequence of bindings stands for: each binding in turn overrides
/// what came before it.
pub open spec fn bindings_view(entries: Seq<Binding>) -> Map<Seq<char>, ValueView>
    decreases entries,
{
    if entries.len() == 0 {
        Map::empty()
    } else {
        bindings_view(entries.drop_last()).insert(entries.last().name@, entries.last().value@)
    }
}

impl View for Scope {
    type V = Map<Seq<char>, ValueView>;

    closed spec fn view(&self) -> Map<Seq<char>, ValueView>
        decreases self,
    {
        bindings_view(self.entries@)
    }
}

/// Bindings with distinct names stand for a mapping of as many names.
proof fn lemma_distinct_names_count(entries: Seq<Binding>)
    requires
        distinct_names(entries),
    ensures
        bindings_view(entries).dom().finite(),
        bindings_view(entries).dom().len() == entries.len(),
    decreases entries.len(),
{
    lemma_bindings_step(entries);
    if entries.len() > 0 {
        let rest = entries.drop_last();
        assert(distinct_names(rest)) by {
            assert forall|i: int, j: int| 0 <= i < j < rest.len() implies (#[trigger] rest[i]).name@
                != (#[trigger] rest[j]).name@ by {
                assert(rest[i] == entries[i]);
                assert(rest[j] == entries[j]);
            }
        }
        lemma_distinct_names_count(rest);
        assert forall|j: int| 0 <= j < rest.len() implies rest[j].name@ != entries.last().name@ by {
            assert(rest[j] == entries[j]);
        }
        lemma_unmentioned_is_unbound(rest, entries.last().name@);
    }
}

/// How the mapping of a sequence of bindings is built from that of its front part.
pub proof fn lemma_bindings_step(entries: Seq<Binding>)
    ensures
        entries.len() == 0 ==> bindings_view(entries) == Map::<Seq<char>, ValueView>::empty(),
        entries.len() > 0 ==> bindings_view(entries) == bindings_view(entries.drop_last()).insert(
            entries.last().name@,
            entries.last().value@,
        ),
{
}

/// The binding in force for a name is the last one made for it.
pub proof fn lemma_last_binding_wins(entries: Seq<Binding>, name: Seq<char>, i: int)
    requires
        0 <= i < entries.len(),
        entries[i].name@ == name,
        forall|j: int| i < j < entries.len() ==> entries[j].name@ != name,
    ensures
        bindings_view(entries).contains_key(name),
        bindings_view(entries)[name] == entries[i].value@,
    decreases entries.len(),
{
    lemma_bindings_step(entries);
    if i < entries.len() - 1 {
        lemma_last_binding_wins(entries.drop_last(), name, i);
    }
}

/// A name that no binding mentions is unbound.
pub proof fn lemma_unmentioned_is_unbound(entries: Seq<Binding>, name: Seq<char>)
    requires
        forall|j: int| 0 <= j < entries.len() ==> entries[j].name@ != name,
    ensures
        !bindings_view(entries).contains_key(name),
    decreases entries.len(),
{
    lemma_bindings_step(entries);
    if entries.len() > 0 {
        lemma_unmentioned_is_unbound(entries.drop_last(), name);
    }
}

/// Taking out one binding of a name changes nothing for the other names.
proof fn lemma_drop_one_binding(entries: Seq<Binding>, name: Seq<char>, i: int)
    requires
        0 <= i < entries.len(),
        entries[i].name@ == name,
    ensures
        bindings_view(entries.remove(i)).remove(name) =~= bindings_view(entries).remove(name),
    decreases entries.len(),
{
    let rest = entries.drop_last();
    lemma_bindings_step(entries);
    lemma_bindings_step(entries.remove(i));
    if i == entries.len() - 1 {
        assert(entries.remove(i) =~= rest);
    } else {
        lemma_drop_one_binding(rest, name, i);
        assert(entries.remove(i).drop_last() =~= rest.remove(i));
        assert(entries.remove(i).last() == entries.last());
        let last = entries.last();
        let shorter = bindings_view(rest.remove(i));
        let longer = bindings_view(rest);
        if last.name@ == name {
            assert(shorter.insert(name, last.value@).remove(name) =~= shorter.remove(name));
            assert(longer.insert(name, last.value@).remove(name) =~= longer.remove(name));
        } else {
            assert(shorter.insert(last.name@, last.value@).remove(name) =~= shorter.remove(
                name,
            ).insert(last.name@, last.value@));
            assert(longer.insert(last.name@, last.value@).remove(name) =~= longer.remove(
                name,
            ).insert(last.name@, last.value@));
        }
    }
}

/// Bindings that agree name by name and value by value stand for the same mapping.
proof fn lemma_equal_bindings_equal_view(a: Seq<Binding>, b: Seq<Binding>)
    requires
        a.len() == b.len(),
        forall|j: int| 0 <= j < a.len() ==> a[j].name@ == b[j].name@ && a[j].value@ == b[j].value@,
    ensures
        bindings_view(a) == bindings_view(b),
    decreases a.len(),
{
    lemma_bindings_step(a);
    lemma_bindings_step(b);
    if a.len() > 0 {
        lemma_equal_bindings_equal_view(a.drop_last(), b.drop_last());
    }
}

/// Takes every binding of `name` out of `entries`.
fn remove_binding(entries: &mut Vec<Binding>, name: &String)
    ensures
        bindings_view(final(entries)@) == bindings_view(old(entries)@).remove(name@),
        forall|j: int| 0 <= j < final(entries)@.len() ==> final(entries)@[j].name@ != name@,
        distinct_names(old(entries)@) ==> distinct_names(final(entries)@),
{
    let mut i: usize = 0;
    while i < entries.len()
        invariant
            i <= entries.len(),
            forall|j: int| 0 <= j < i ==> entries@[j].name@ != name@,
            bindings_view(entries@).remove(name@) == bindings_view(old(entries)@).remove(name@),
            distinct_names(old(entries)@) ==> distinct_names(entries@),
        decreases entries.len() - i,
    {
        if entries[i].name == *name {
            proof {
                lemma_drop_one_binding(entries@, name@, i as int);
                let before = entries@;
                let after = before.remove(i as int);
                if distinct_names(before) {
                    assert forall|p: int, q: int| 0 <= p < q < after.len() implies (
                    #[trigger] after[p]).name@ != (#[trigger] after[q]).name@ by {
                        let p0 = if p < i {
                            p
                        } else {
                            p + 1
                        };
                        let q0 = if q < i {
                            q
                        } else {
                            q + 1
                        };
                        assert(after[p] == before[p0]);
                        assert(after[q] == before[q0]);
                    }
                }
            }
            entries.remove(i);
        } else {
            i += 1;
        }
    }
    proof {
        lemma_unmentioned_is_unbound(entries@, name@);
        assert(bindings_view(entries@).remove(name@) =~= bindings_view(entries@));
    }
}

impl Default for Scope {
    /// The empty scope.
    fn default() -> (scope: Scope)
        ensures
            scope@ == Map::<Seq<char>, ValueView>::empty(),
    {
        Scope::new()
    }
}

impl Clone for Scope {
    /// A deep copy: a scope with the same bindings.
    fn clone(&self) -> (copy: Scope)
        ensures
            copy@ == self@,
        decreases self,
    {
        let mut entries: Vec<Binding> = Vec::new();
        let mut i: usize = 0;
        while i < self.entries.len()
            invariant
                i <= self.entries.len(),
                entries@.len() == i,
                forall|j: int|
                    0 <= j < i ==> entries@[j].name@ == self.entries@[j].name@ && entries@[j].value@
                        == self.entries@[j].value@,
            decreases self.entries.len() - i,
        {
            let name = self.entries[i].name.clone();
            let value = self.entries[i].value.clone();
            entries.push(Binding { name, value });
            i += 1;
        }
        proof {
            use_type_invariant(self);
            lemma_equal_bindings_equal_view(entries@, self.entries@);
            assert(distinct_names(entries@)) by {
                assert forall|i: int, j: int| 0 <= i < j < entries@.len() implies (
                #[trigger] entries@[i]).name@ != (#[trigger] entries@[j]).name@ by {
                    assert(self.entries@[i].name@ != self.entries@[j].name@);
                }
            }
        }
        Scope { entries }
    }
}

impl Scope {
    /// What holds of every scope: no name occurs twice among its bindings.
    #[verifier::type_invariant]
    spec fn no_name_twice(self) -> bool {
        distinct_names(self.entries@)
    }

    /// The number of names that are bound.
    pub fn len(&self) -> (n: usize)
        ensures
            self@.dom().finite(),
            n == self@.dom().len(),
    {
        proof {
            use_type_invariant(self);
            lemma_distinct_names_count(self.entries@);
        }
        self.entries.len()
    }

    /// Whether no name is bound.
    pub fn is_empty(&self) -> (r: bool)
        ensures
            r == (self@ == Map::<Seq<char>, ValueView>::empty()),
    {
        proof {
            lemma_bindings_step(self.entries@);
            if self.entries@.len() > 0 {
                assert(self@.contains_key(self.entries@.last().name@));
                assert(!Map::<Seq<char>, ValueView>::empty().contains_key(
                    self.entries@.last().name@,
                ));
            }
        }
        self.entries.len() == 0
    }

    /// The bindings, the oldest first.
    pub fn bindings(&self) -> (entries: &Vec<Binding>)
        ensures
            bindings_view(entries@) == self@,
            distinct_names(entries@),
    {
        proof {
            use_type_invariant(self);
        }
        &self.entries
    }

    /// The bindings of the scope, the oldest first.
    pub fn into_bindings(self) -> (entries: Vec<Binding>)
        ensures
            bindings_view(entries@) == self@,
            distinct_names(entries@),
    {
        proof {
            use_type_invariant(&self);
        }
        self.entries
    }

    /// The empty scope.
    pub fn new() -> (scope: Scope)
        ensures
            scope@ == Map::<Seq<char>, ValueView>::empty(),
    {
        Scope { entries: Vec::new() }
    }

    /// The value bound to `name`, if there is one.
    pub fn get(&self, name: &String) -> (found: Option<&Value>)
        ensures
            match found {
                Some(value) => self@.contains_key(name@) && value@ == self@[name@],
                None => !self@.contains_key(name@),
            },
    {
        let mut i: usize = self.entries.len();
        while i > 0
            invariant
                i <= self.entries.len(),
                forall|j: int| i <= j < self.entries.len() ==> self.entries[j].name@ != name@,
            decreases i,
        {
            i -= 1;
            if self.entries[i].name == *name {
                proof {
                    lemma_last_binding_wins(self.entries@, name@, i as int);
                }
                return Some(&self.entries[i].value);
            }
        }
        proof {
            lemma_unmentioned_is_unbound(self.entries@, name@);
        }
        None
    }

    /// Takes the bindings out of the scope, which is left empty.
    fn take(&mut self) -> (entries: Vec<Binding>)
        ensures
            bindings_view(entries@) == old(self)@,
            distinct_names(entries@),
            final(self).entries@.len() == 0,
    {
        proof {
            use_type_invariant(&*self);
        }
        let mut entries: Vec<Binding> = Vec::new();
        std::mem::swap(&mut entries, &mut self.entries);
        entries
    }

    /// Puts bindings into the scope, which must be empty.
    fn put(&mut self, entries: Vec<Binding>)
        requires
            old(self).entries@.len() == 0,
            distinct_names(entries@),
        ensures
            final(self)@ == bindings_view(entries@),
    {
        let mut entries = entries;
        std::mem::swap(&mut entries, &mut self.entries);
    }

    /// Unbinds `name`. Nothing happens if it is not bound.
    pub fn remove(&mut self, name: &String)
        ensures
            final(self)@ == old(self)@.remove(name@),
    {
        let mut entries = self.take();
        remove_binding(&mut entries, name);
        self.put(entries);
    }

    /// Binds `name` to `value`, in place of any value it was bound to.
    pub fn insert(&mut self, name: String, value: Value)
        ensures
            final(self)@ == old(self)@.insert(name@, value@),
    {
        let mut entries = self.take();
        remove_binding(&mut entries, &name);
        let ghost before = entries@;
        entries.push(Binding { name, value });
        proof {
            assert(entries@.drop_last() =~= before);
            lemma_bindings_step(entries@);
            assert(bindings_view(entries@) =~= old(self)@.insert(name@, value@));
            assert forall|p: int, q: int| 0 <= p < q < entries@.len() implies (
            #[trigger] entries@[p]).name@ != (#[trigger] entries@[q]).name@ by {
                assert(entries@[p] == before[p]);
                if q < before.len() {
                    assert(entries@[q] == before[q]);
                }
            }
        }
        self.put(entries);
    }
}

} // verus!
