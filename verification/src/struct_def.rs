//! Schemas: named, unordered field-to-primitive-type mappings describing the
//! persistent global and local storage declared by a contract.

use vstd::prelude::*;

use crate::typing::TypePrimitive;

verus! {

/// Pairwise-distinct field names.
pub open spec fn unique_keys(s: Seq<(String, TypePrimitive)>) -> bool {
    forall|i: int, j: int| 0 <= i < j < s.len() ==> s[i].0@ != s[j].0@
}

/// The name-to-type map modelled by a field list.
pub open spec fn fields_map(s: Seq<(String, TypePrimitive)>) -> Map<Seq<char>, TypePrimitive> {
    crate::context::assoc_map(s)
}

proof fn lemma_fields_map_len(s: Seq<(String, TypePrimitive)>)
    requires
        unique_keys(s),
    ensures
        fields_map(s).dom().finite(),
        fields_map(s).dom().len() == s.len(),
    decreases s.len(),
{
    if s.len() == 0 {
        assert(fields_map(s).dom() =~= Set::<Seq<char>>::empty());
    } else {
        let s0 = s.drop_last();
        assert(unique_keys(s0)) by {
            assert(forall|i: int, j: int|
                0 <= i < j < s0.len() ==> s[i].0@ != s[j].0@);
        }
        lemma_fields_map_len(s0);
        crate::context::lemma_assoc_contains(s0, s.last().0@);
        assert(!fields_map(s0).contains_key(s.last().0@)) by {
            assert(forall|i: int| 0 <= i < s0.len() ==> s[i].0@ != s.last().0@);
        }
        assert(fields_map(s).dom() =~= fields_map(s0).dom().insert(s.last().0@));
    }
}

proof fn lemma_fields_map_update(
    s: Seq<(String, TypePrimitive)>,
    i: int,
    name: String,
    t: TypePrimitive,
)
    requires
        unique_keys(s),
        0 <= i < s.len(),
        s[i].0@ == name@,
    ensures
        fields_map(s.update(i, (name, t))) == fields_map(s).insert(name@, t),
    decreases s.len(),
{
    let u = s.update(i, (name, t));
    if i == s.len() - 1 {
        assert(u.drop_last() =~= s.drop_last());
        assert(fields_map(u) =~= fields_map(s).insert(name@, t));
    } else {
        let s0 = s.drop_last();
        assert(unique_keys(s0)) by {
            assert(forall|ii: int, jj: int|
                0 <= ii < jj < s0.len() ==> s[ii].0@ != s[jj].0@);
        }
        assert(u.drop_last() =~= s0.update(i, (name, t)));
        lemma_fields_map_update(s0, i, name, t);
        assert(s.last().0@ != name@);
        assert(fields_map(u) =~= fields_map(s).insert(name@, t));
    }
}

/// A mapping from field name to primitive type. Field order is not
/// significant: only the name-to-type association is, and each name occurs
/// at most once.
#[derive(Debug)]
pub struct FieldMap {
    entries: Vec<(String, TypePrimitive)>,
}

impl View for FieldMap {
    type V = Map<Seq<char>, TypePrimitive>;

    closed spec fn view(&self) -> Map<Seq<char>, TypePrimitive> {
        fields_map(self.entries@)
    }
}

impl FieldMap {
    /// Each field name occurs at most once. Established by the constructor
    /// and preserved by every method.
    pub closed spec fn wf(&self) -> bool {
        unique_keys(self.entries@)
    }

    /// An empty field map.
    pub fn new() -> (r: FieldMap)
        ensures
            r@ == Map::<Seq<char>, TypePrimitive>::empty(),
            r.wf(),
    {
        let r = FieldMap { entries: Vec::new() };
        proof {
            assert(r@ =~= Map::<Seq<char>, TypePrimitive>::empty());
        }
        r
    }

    /// The number of fields.
    pub fn len(&self) -> (r: usize)
        requires
            self.wf(),
        ensures
            r == self@.dom().len(),
    {
        proof {
            lemma_fields_map_len(self.entries@);
        }
        self.entries.len()
    }

    /// The type associated with a field name, if the name is present.
    pub fn get<'a>(&'a self, name: &str) -> (r: Option<&'a TypePrimitive>)
        ensures
            match r {
                Some(t) => self@.contains_key(name@) && *t == self@[name@],
                None => !self@.contains_key(name@),
            },
    {
        crate::context::assoc_get(&self.entries, name)
    }

    /// Associates a field name with a type, replacing any earlier
    /// association for the same name.
    pub fn insert(&mut self, name: String, t: TypePrimitive)
        requires
            old(self).wf(),
        ensures
            final(self).wf(),
            final(self)@ == old(self)@.insert(name@, t),
    {
        let n = self.entries.len();
        let mut i: usize = 0;
        while i < n
            invariant
                0 <= i <= n,
                n == self.entries@.len(),
                forall|j: int| 0 <= j < i ==> self.entries@[j].0@ != name@,
                self.entries@ == old(self).entries@,
                unique_keys(self.entries@),
            decreases n - i,
        {
            if crate::utils::eq_str(self.entries[i].0.as_str(), name.as_str()) {
                proof {
                    lemma_fields_map_update(self.entries@, i as int, name, t);
                    let u = self.entries@.update(i as int, (name, t));
                    assert(forall|j: int|
                        0 <= j < u.len() ==> u[j].0@ == self.entries@[j].0@);
                }
                self.entries[i] = (name, t);
                return ;
            }
            i = i + 1;
        }
        proof {
            crate::context::lemma_assoc_contains(self.entries@, name@);
            assert(self.entries@.push((name, t)).drop_last() =~= self.entries@);
        }
        self.entries.push((name, t));
    }
}

impl Default for FieldMap {
    /// An empty field map.
    fn default() -> (r: FieldMap)
        ensures
            r@ == Map::<Seq<char>, TypePrimitive>::empty(),
            r.wf(),
    {
        FieldMap::new()
    }
}

/// A schema: the declared layout of one storage area of a contract.
#[derive(Debug)]
pub struct StructDef {
    pub fields: FieldMap,
}

impl StructDef {
    /// Borrows the field map.
    pub fn as_ref(&self) -> (r: &FieldMap)
        ensures
            r == &self.fields,
    {
        &self.fields
    }

    /// Mutably borrows the field map.
    pub fn as_mut(&mut self) -> &mut FieldMap {
        &mut self.fields
    }
}

impl Default for StructDef {
    /// A schema with no fields.
    fn default() -> (r: StructDef)
        ensures
            r.fields@ == Map::<Seq<char>, TypePrimitive>::empty(),
            r.fields.wf(),
    {
        StructDef { fields: FieldMap::new() }
    }
}

} // verus!
