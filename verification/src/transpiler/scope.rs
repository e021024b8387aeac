//! One lexical frame: the names declared in it, sorted into variables,
//! functions and struct names, and the type of each.
use vstd::prelude::*;

use crate::tokenizer::chars::str_eq;
use crate::transpiler::BeatriceType;
use crate::transpiler::BeatriceTypeV;
use crate::transpiler::checkings::checker::TypeChecker;

verus! {

/// A frame of the scope chain: three name sets and one name-to-type table.
pub struct Scope {
    pub var_names: Vec<String>,
    pub function_names: Vec<String>,
    pub struct_names: Vec<String>,
    pub types: TypeChecker,
}

/// The mathematical value of a frame.
pub struct ScopeV {
    pub var_names: Set<Seq<char>>,
    pub function_names: Set<Seq<char>>,
    pub struct_names: Set<Seq<char>>,
    pub types: Map<Seq<char>, BeatriceTypeV>,
}

/// The set of names a name list stands for.
pub open spec fn names_of(l: Seq<String>) -> Set<Seq<char>>
    decreases l,
{
    if l.len() == 0 {
        Set::empty()
    } else {
        names_of(l.drop_last()).insert(l.last()@)
    }
}

/// Membership in the name set is having an entry in the list.
pub proof fn lemma_names_contains(l: Seq<String>, x: Seq<char>)
    ensures
        names_of(l).contains(x) <==> exists|i: int| 0 <= i < l.len() && l[i]@ == x,
    decreases l,
{
    if l.len() > 0 {
        lemma_names_contains(l.drop_last(), x);
        if l.last()@ == x {
            assert(l[l.len() - 1]@ == x);
        } else if names_of(l).contains(x) {
            let i = choose|i: int| 0 <= i < l.drop_last().len() && l.drop_last()[i]@ == x;
            assert(l[i]@ == x);
        } else {
            if exists|i: int| 0 <= i < l.len() && l[i]@ == x {
                let i = choose|i: int| 0 <= i < l.len() && l[i]@ == x;
                assert(l.drop_last()[i]@ == x);
            }
        }
    }
}

/// Whether the list holds the name.
fn names_contain(l: &Vec<String>, name: &str) -> (r: bool)
    ensures
        r == names_of(l@).contains(name@),
{
    let ghost lv = l@;
    let mut i: usize = 0;
    loop
        invariant
            i <= lv.len(),
            lv == l@,
            forall|j: int| 0 <= j < i ==> lv[j]@ != name@,
        ensures
            lv == l@,
            forall|j: int| 0 <= j < lv.len() ==> lv[j]@ != name@,
        decreases lv.len() - i,
    {
        if i >= l.len() {
            break;
        }
        if str_eq(l[i].as_str(), name) {
            proof {
                lemma_names_contains(lv, name@);
            }
            return true;
        }
        i = i + 1;
    }
    proof {
        lemma_names_contains(lv, name@);
    }
    false
}

impl View for Scope {
    type V = ScopeV;

    open spec fn view(&self) -> ScopeV {
        ScopeV {
            var_names: names_of(self.var_names@),
            function_names: names_of(self.function_names@),
            struct_names: names_of(self.struct_names@),
            types: self.types@,
        }
    }
}

/// Looking a name up in a frame: its type when the frame defines it.
pub open spec fn spec_kindof(s: ScopeV, name: Seq<char>) -> Option<BeatriceTypeV> {
    if s.types.contains_key(name) {
        Some(s.types[name])
    } else {
        None
    }
}

impl Scope {
    /// An empty frame.
    pub fn new() -> (r: Self)
        ensures
            r@.var_names == Set::<Seq<char>>::empty(),
            r@.function_names == Set::<Seq<char>>::empty(),
            r@.struct_names == Set::<Seq<char>>::empty(),
            r@.types == Map::<Seq<char>, BeatriceTypeV>::empty(),
    {
        let r = Self {
            var_names: Vec::new(),
            function_names: Vec::new(),
            struct_names: Vec::new(),
            types: TypeChecker::new(),
        };
        proof {
            assert(names_of(r.var_names@) =~= Set::<Seq<char>>::empty());
            assert(names_of(r.function_names@) =~= Set::<Seq<char>>::empty());
            assert(names_of(r.struct_names@) =~= Set::<Seq<char>>::empty());
        }
        r
    }

    /// Defines a variable: the name joins the variable set and is bound to
    /// the type.
    #[inline]
    pub fn define_variable(&mut self, varname: String, kind: BeatriceType)
        ensures
            final(self)@.var_names == old(self)@.var_names.insert(varname@),
            final(self)@.types == old(self)@.types.insert(varname@, kind@),
            final(self)@.function_names == old(self)@.function_names,
            final(self)@.struct_names == old(self)@.struct_names,
    {
        let ghost oldv = self.var_names@;
        let name2 = varname.clone();
        self.var_names.push(name2);
        proof {
            assert(self.var_names@.drop_last() =~= oldv);
            assert(names_of(self.var_names@) =~= names_of(oldv).insert(varname@));
        }
        self.types.define(varname, kind);
    }

    /// Defines a function: the name joins the function set and is bound to
    /// the type, which must be a function type.
    #[inline]
    pub fn define_function(&mut self, name: String, kind: BeatriceType)
        requires
            kind@ is Function,
        ensures
            final(self)@.function_names == old(self)@.function_names.insert(name@),
            final(self)@.types == old(self)@.types.insert(name@, kind@),
            final(self)@.var_names == old(self)@.var_names,
            final(self)@.struct_names == old(self)@.struct_names,
    {
        let ghost oldv = self.function_names@;
        let name2 = name.clone();
        self.function_names.push(name2);
        proof {
            assert(self.function_names@.drop_last() =~= oldv);
            assert(names_of(self.function_names@) =~= names_of(oldv).insert(name@));
        }
        self.types.define(name, kind);
    }

    /// Defines a struct: the name joins the struct set and is bound to the
    /// type, which must be a struct shape.
    #[inline]
    pub fn define_struct(&mut self, name: String, kind: BeatriceType)
        requires
            kind@ is Struct,
        ensures
            final(self)@.struct_names == old(self)@.struct_names.insert(name@),
            final(self)@.types == old(self)@.types.insert(name@, kind@),
            final(self)@.var_names == old(self)@.var_names,
            final(self)@.function_names == old(self)@.function_names,
    {
        let ghost oldv = self.struct_names@;
        let name2 = name.clone();
        self.struct_names.push(name2);
        proof {
            assert(self.struct_names@.drop_last() =~= oldv);
            assert(names_of(self.struct_names@) =~= names_of(oldv).insert(name@));
        }
        self.types.define(name, kind);
    }

    /// Whether the frame defines a function of this name.
    #[inline]
    pub fn has_function(&self, name: &str) -> (r: bool)
        ensures
            r == self@.function_names.contains(name@),
    {
        names_contain(&self.function_names, name)
    }

    /// Whether the frame defines a struct of this name.
    #[inline]
    pub fn has_struct(&self, name: &str) -> (r: bool)
        ensures
            r == self@.struct_names.contains(name@),
    {
        names_contain(&self.struct_names, name)
    }

    /// Whether the frame defines a variable or a function of this name.
    #[inline]
    pub fn has_variable_or_function(&self, name: &str) -> (r: bool)
        ensures
            r == (self@.var_names.contains(name@) || self@.function_names.contains(name@)),
    {
        names_contain(&self.var_names, name) || names_contain(&self.function_names, name)
    }

    /// The type bound to a name in this frame; the unknown-name error when
    /// there is none.
    #[inline]
    pub fn kindof(&self, name: &str) -> (r: Result<&BeatriceType, crate::transpiler::TypeError>)
        ensures
            match r {
                Ok(t) => spec_kindof(self@, name@) == Some(t@),
                Err(e) => spec_kindof(self@, name@) is None && e@
                    == crate::transpiler::TypeErrorV::NotRecognizedVar(name@),
            },
    {
        match self.types.get(name) {
            Some(t) => Ok(t),
            None => Err(crate::transpiler::TypeError::NotRecognizedVar(name.to_owned())),
        }
    }
}

impl Default for Scope {
    /// An empty frame.
    fn default() -> (r: Self)
        ensures
            r@.var_names == Set::<Seq<char>>::empty(),
            r@.function_names == Set::<Seq<char>>::empty(),
            r@.struct_names == Set::<Seq<char>>::empty(),
            r@.types == Map::<Seq<char>, BeatriceTypeV>::empty(),
    {
        Self::new()
    }
}

} // verus!
