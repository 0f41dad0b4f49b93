//! The environments threaded through resolution and compilation: name-to-type
//! bindings for the type checker, and name-to-fragment bindings plus the
//! label-allocation counter for the code generator.
//!
//! Bindings are kept as a stack of pairs; a name pushed later shadows an
//! earlier one, which gives the scope chain of nested applications. The
//! mathematical model of such a stack is the map that records, for every
//! bound name, its most recent value.

use vstd::prelude::*;

use crate::typing::TypeEnum;

verus! {

/// The map modelled by a binding stack: for each name, the value bound last.
pub open spec fn assoc_map<V>(s: Seq<(String, V)>) -> Map<Seq<char>, V>
    decreases s.len(),
{
    if s.len() == 0 {
        Map::empty()
    } else {
        assoc_map(s.drop_last()).insert(s.last().0@, s.last().1)
    }
}

/// A name is bound in the modelled map exactly when some entry carries it.
pub proof fn lemma_assoc_contains<V>(s: Seq<(String, V)>, k: Seq<char>)
    ensures
        assoc_map(s).contains_key(k) <==> exists|i: int| 0 <= i < s.len() && s[i].0@ == k,
    decreases s.len(),
{
    if s.len() > 0 {
        lemma_assoc_contains(s.drop_last(), k);
        if s.last().0@ == k {
            assert(s[s.len() - 1].0@ == k);
        } else {
            if assoc_map(s).contains_key(k) {
                let i = choose|i: int| 0 <= i < s.drop_last().len() && s.drop_last()[i].0@ == k;
                assert(s[i].0@ == k);
            }
            if exists|i: int| 0 <= i < s.len() && s[i].0@ == k {
                let i = choose|i: int| 0 <= i < s.len() && s[i].0@ == k;
                assert(s.drop_last()[i].0@ == k);
            }
        }
    }
}

/// Looks a name up among the first `n` entries, preferring the entry pushed
/// last, which is exactly lookup in the modelled map.
fn assoc_get_upto<'a, V>(entries: &'a Vec<(String, V)>, n: usize, name: &str) -> (r: Option<
    &'a V,
>)
    requires
        n <= entries@.len(),
    ensures
        match r {
            Some(v) => assoc_map(entries@.take(n as int)).contains_key(name@) && *v == assoc_map(
                entries@.take(n as int),
            )[name@],
            None => !assoc_map(entries@.take(n as int)).contains_key(name@),
        },
    decreases n,
{
    if n == 0 {
        None
    } else {
        let entry = &entries[n - 1];
        proof {
            assert(entries@.take(n as int).drop_last() =~= entries@.take(n - 1));
            assert(entries@.take(n as int).last() == entries@[n - 1]);
        }
        if crate::utils::eq_str(entry.0.as_str(), name) {
            Some(&entry.1)
        } else {
            assoc_get_upto(entries, n - 1, name)
        }
    }
}

/// Looks a name up in a binding stack, preferring the binding pushed last.
pub fn assoc_get<'a, V>(entries: &'a Vec<(String, V)>, name: &str) -> (r: Option<&'a V>)
    ensures
        match r {
            Some(v) => assoc_map(entries@).contains_key(name@) && *v == assoc_map(entries@)[name@],
            None => !assoc_map(entries@).contains_key(name@),
        },
{
    let n = entries.len();
    proof {
        assert(entries@.take(n as int) =~= entries@);
    }
    assoc_get_upto(entries, n, name)
}

/// The environment of the type checker: a stack of variable-name-to-type
/// bindings.
#[derive(Debug)]
pub struct TypeContext {
    pub entries: Vec<(String, TypeEnum)>,
}

impl TypeContext {
    /// The name-to-type map modelled by the binding stack.
    pub open spec fn view_map(&self) -> Map<Seq<char>, TypeEnum> {
        assoc_map(self.entries@)
    }
}

impl Default for TypeContext {
    /// An empty type context: no name is bound.
    fn default() -> (r: TypeContext)
        ensures
            r.entries@.len() == 0,
    {
        TypeContext { entries: Vec::new() }
    }
}

/// The environment of the code generator: a stack of
/// parameter-name-to-compiled-fragment bindings, and the counter from which
/// branch labels are allocated.
#[derive(Debug)]
pub struct CompilationContext {
    pub bindings: Vec<(String, String)>,
    pub labels: u64,
}

impl CompilationContext {
    /// The name-to-fragment map modelled by the binding stack.
    pub open spec fn view_map(&self) -> Map<Seq<char>, Seq<char>> {
        assoc_map_view(self.bindings@)
    }
}

/// The map modelled by a fragment binding stack, with fragments taken as
/// character sequences.
pub open spec fn assoc_map_view(s: Seq<(String, String)>) -> Map<Seq<char>, Seq<char>>
    decreases s.len(),
{
    if s.len() == 0 {
        Map::empty()
    } else {
        assoc_map_view(s.drop_last()).insert(s.last().0@, s.last().1@)
    }
}

/// A name is bound in the modelled fragment map exactly when some entry
/// carries it.
pub proof fn lemma_assoc_view_contains(s: Seq<(String, String)>, k: Seq<char>)
    ensures
        assoc_map_view(s).contains_key(k) <==> exists|i: int| 0 <= i < s.len() && s[i].0@ == k,
    decreases s.len(),
{
    if s.len() > 0 {
        lemma_assoc_view_contains(s.drop_last(), k);
        if s.last().0@ == k {
            assert(s[s.len() - 1].0@ == k);
        } else {
            if assoc_map_view(s).contains_key(k) {
                let i = choose|i: int|
                    0 <= i < s.drop_last().len() && s.drop_last()[i].0@ == k;
                assert(s[i].0@ == k);
            }
            if exists|i: int| 0 <= i < s.len() && s[i].0@ == k {
                let i = choose|i: int| 0 <= i < s.len() && s[i].0@ == k;
                assert(s.drop_last()[i].0@ == k);
            }
        }
    }
}

/// Looks a name up among the first `n` fragment bindings, preferring the
/// entry pushed last, which is exactly lookup in the modelled map.
fn fragment_get_upto<'a>(entries: &'a Vec<(String, String)>, n: usize, name: &str) -> (r: Option<
    &'a String,
>)
    requires
        n <= entries@.len(),
    ensures
        match r {
            Some(v) => assoc_map_view(entries@.take(n as int)).contains_key(name@) && v@
                == assoc_map_view(entries@.take(n as int))[name@],
            None => !assoc_map_view(entries@.take(n as int)).contains_key(name@),
        },
    decreases n,
{
    if n == 0 {
        None
    } else {
        let entry = &entries[n - 1];
        proof {
            assert(entries@.take(n as int).drop_last() =~= entries@.take(n - 1));
            assert(entries@.take(n as int).last() == entries@[n - 1]);
        }
        if crate::utils::eq_str(entry.0.as_str(), name) {
            Some(&entry.1)
        } else {
            fragment_get_upto(entries, n - 1, name)
        }
    }
}

/// Looks a name up in a fragment binding stack, preferring the binding
/// pushed last.
pub fn fragment_get<'a>(entries: &'a Vec<(String, String)>, name: &str) -> (r: Option<&'a String>)
    ensures
        match r {
            Some(v) => assoc_map_view(entries@).contains_key(name@) && v@ == assoc_map_view(
                entries@,
            )[name@],
            None => !assoc_map_view(entries@).contains_key(name@),
        },
{
    let n = entries.len();
    proof {
        assert(entries@.take(n as int) =~= entries@);
    }
    fragment_get_upto(entries, n, name)
}

impl Default for CompilationContext {
    /// A fresh compilation context: no binding, and the label counter at
    /// zero, so that every program compilation numbers its labels from the
    /// same deterministic starting point.
    fn default() -> (r: CompilationContext)
        ensures
            r.bindings@.len() == 0,
            r.labels == 0,
    {
        CompilationContext { bindings: Vec::new(), labels: 0 }
    }
}

} // verus!
