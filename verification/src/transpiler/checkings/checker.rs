//! The name-to-type table of one scope: a later definition of the same name
//! replaces the earlier one.
use vstd::prelude::*;

use crate::tokenizer::chars::str_eq;
use crate::transpiler::BeatriceType;
use crate::transpiler::BeatriceTypeV;

verus! {

/// One name bound to a type.
pub struct Binding {
    pub name: String,
    pub kind: BeatriceType,
}

/// The types of the names defined in one scope.
pub struct TypeChecker {
    pub bindings: Vec<Binding>,
}

/// The table a binding list stands for: each name maps to its newest
/// binding.
pub open spec fn table_of(l: Seq<Binding>) -> Map<Seq<char>, BeatriceTypeV>
    decreases l,
{
    if l.len() == 0 {
        Map::empty()
    } else {
        table_of(l.drop_last()).insert(l.last().name@, l.last().kind@)
    }
}

/// Membership in the table is having some binding of the name.
pub proof fn lemma_table_contains(l: Seq<Binding>, x: Seq<char>)
    ensures
        table_of(l).contains_key(x) <==> exists|i: int| 0 <= i < l.len() && l[i].name@ == x,
    decreases l,
{
    if l.len() > 0 {
        lemma_table_contains(l.drop_last(), x);
        if l.last().name@ == x {
            assert(l[l.len() - 1].name@ == x);
        } else if table_of(l).contains_key(x) {
            let i = choose|i: int| 0 <= i < l.drop_last().len() && l.drop_last()[i].name@ == x;
            assert(l[i].name@ == x);
        } else {
            if exists|i: int| 0 <= i < l.len() && l[i].name@ == x {
                let i = choose|i: int| 0 <= i < l.len() && l[i].name@ == x;
                assert(l.drop_last()[i].name@ == x);
            }
        }
    }
}

/// The newest binding of a name gives its entry in the table.
pub proof fn lemma_table_newest(l: Seq<Binding>, i: int)
    requires
        0 <= i < l.len(),
        forall|j: int| i < j < l.len() ==> l[j].name@ != l[i].name@,
    ensures
        table_of(l).contains_key(l[i].name@),
        table_of(l)[l[i].name@] == l[i].kind@,
    decreases l,
{
    if i == l.len() - 1 {
    } else {
        assert(l.drop_last()[i] == l[i]);
        lemma_table_newest(l.drop_last(), i);
    }
}

impl View for TypeChecker {
    type V = Map<Seq<char>, BeatriceTypeV>;

    open spec fn view(&self) -> Map<Seq<char>, BeatriceTypeV> {
        table_of(self.bindings@)
    }
}

impl TypeChecker {
    /// An empty table.
    pub fn new() -> (r: Self)
        ensures
            r@ == Map::<Seq<char>, BeatriceTypeV>::empty(),
    {
        let r = Self { bindings: Vec::new() };
        proof {
            assert(r@ =~= Map::<Seq<char>, BeatriceTypeV>::empty());
        }
        r
    }

    /// Binds the name to the type, replacing any earlier binding.
    pub fn define(&mut self, varname: String, kind: BeatriceType)
        ensures
            final(self)@ == old(self)@.insert(varname@, kind@),
    {
        let ghost oldb = self.bindings@;
        let ghost nv = varname@;
        let ghost kv = kind@;
        self.bindings.push(Binding { name: varname, kind });
        proof {
            assert(self.bindings@.drop_last() =~= oldb);
            assert(table_of(self.bindings@) =~= table_of(oldb).insert(nv, kv));
        }
    }

    /// The type of a name, or nothing when the name is not defined here.
    pub fn get(&self, name: &str) -> (r: Option<&BeatriceType>)
        ensures
            match r {
                Some(t) => self@.contains_key(name@) && t@ == self@[name@],
                None => !self@.contains_key(name@),
            },
    {
        let ghost l = self.bindings@;
        let mut i: usize = self.bindings.len();
        loop
            invariant
                i <= l.len(),
                l == self.bindings@,
                forall|j: int| i <= j < l.len() ==> l[j].name@ != name@,
            ensures
                i == 0,
                l == self.bindings@,
                forall|j: int| 0 <= j < l.len() ==> l[j].name@ != name@,
            decreases i,
        {
            if i == 0 {
                break;
            }
            i = i - 1;
            let b = &self.bindings[i];
            if str_eq(b.name.as_str(), name) {
                proof {
                    lemma_table_newest(l, i as int);
                }
                return Some(&b.kind);
            }
        }
        proof {
            lemma_table_contains(l, name@);
        }
        None
    }
}

impl Default for TypeChecker {
    /// An empty table.
    fn default() -> (r: Self)
        ensures
            r@ == Map::<Seq<char>, BeatriceTypeV>::empty(),
    {
        Self::new()
    }
}

} // verus!
