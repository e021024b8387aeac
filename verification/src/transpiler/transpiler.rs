//! The transpiler state: the scope chain used by the checking pass and the
//! indentation counter used by the generating pass.
use vstd::prelude::*;

use crate::tokenizer::chars::push_char;
use crate::transpiler::scope::Scope;
use crate::transpiler::scope::ScopeV;
use vstd::string::StringExecFns;

verus! {

/// The step the indentation grows by when a brace-delimited block is
/// entered.
pub const INDENT_STEP: usize = 4;

/// The compiler state shared by checking and generation: the scope chain —
/// the global frame always at its front — and the indentation level.
pub struct BeatriceTranspiler {
    pub scopes: Vec<Scope>,
    pub indent_level: usize,
}

/// The mathematical values of the scope chain.
pub open spec fn view_scope_seq(l: Seq<Scope>) -> Seq<ScopeV>
    decreases l,
{
    if l.len() == 0 {
        Seq::empty()
    } else {
        view_scope_seq(l.drop_last()).push(l.last()@)
    }
}

/// The viewed chain has the length of the original and holds the view of
/// each frame.
pub proof fn lemma_view_scope_seq_len(l: Seq<Scope>)
    ensures
        view_scope_seq(l).len() == l.len(),
    decreases l,
{
    if l.len() > 0 {
        lemma_view_scope_seq_len(l.drop_last());
    }
}

/// The viewed chain holds the view of each frame.
pub proof fn lemma_view_scope_seq_index(l: Seq<Scope>, i: int)
    requires
        0 <= i < l.len(),
    ensures
        view_scope_seq(l).len() == l.len(),
        view_scope_seq(l)[i] == l[i]@,
    decreases l,
{
    lemma_view_scope_seq_len(l);
    if i == l.len() - 1 {
    } else {
        lemma_view_scope_seq_index(l.drop_last(), i);
    }
}

/// A run of spaces of the given width.
pub open spec fn spaces(n: int) -> Seq<char> {
    Seq::new(n as nat, |i: int| ' ')
}

/// Growing the indentation by one step, capped at the largest
/// representable level.
pub open spec fn spec_indent_grow(n: int) -> int {
    if n + INDENT_STEP <= usize::MAX {
        n + INDENT_STEP
    } else {
        n
    }
}

impl View for BeatriceTranspiler {
    type V = Seq<ScopeV>;

    open spec fn view(&self) -> Seq<ScopeV> {
        view_scope_seq(self.scopes@)
    }
}

/// A run of spaces of the given width, as an owned string.
pub fn spaces_string(n: usize) -> (r: String)
    ensures
        r@ == spaces(n as int),
{
    let mut out = String::new();
    let mut i: usize = 0;
    while i < n
        invariant
            i <= n,
            out@ == spaces(i as int),
        decreases n - i,
    {
        push_char(&mut out, ' ');
        i = i + 1;
        proof {
            assert(out@ =~= spaces(i as int));
        }
    }
    out
}

/// Growing the indentation by one step, capped at the largest
/// representable level.
pub fn grow_indent(n: usize) -> (r: usize)
    ensures
        r as int == spec_indent_grow(n as int),
{
    if n <= usize::MAX - INDENT_STEP {
        n + INDENT_STEP
    } else {
        n
    }
}

impl BeatriceTranspiler {
    /// A fresh compiler state: one global frame and no indentation.
    pub fn new() -> (r: Self)
        ensures
            r@.len() == 1,
            r@[0].var_names == Set::<Seq<char>>::empty(),
            r@[0].function_names == Set::<Seq<char>>::empty(),
            r@[0].struct_names == Set::<Seq<char>>::empty(),
            r@[0].types == Map::<Seq<char>, crate::transpiler::BeatriceTypeV>::empty(),
            r.indent_level == 0,
    {
        let mut scopes: Vec<Scope> = Vec::new();
        scopes.push(Scope::new());
        let r = Self { scopes, indent_level: 0 };
        proof {
            lemma_view_scope_seq_index(r.scopes@, 0);
        }
        r
    }

    /// The given line prefixed with the current indentation.
    pub fn indent(&self, content: &str) -> (r: String)
        ensures
            r@ == spaces(self.indent_level as int) + content@,
    {
        let mut out = String::new();
        let mut i: usize = 0;
        while i < self.indent_level
            invariant
                i <= self.indent_level,
                out@ == spaces(i as int),
            decreases self.indent_level - i,
        {
            push_char(&mut out, ' ');
            i = i + 1;
            proof {
                assert(out@ =~= spaces(i as int));
            }
        }
        out.append(content);
        out
    }

    /// The current indentation level.
    pub fn indentation_level(&self) -> (r: usize)
        ensures
            r == self.indent_level,
    {
        self.indent_level
    }

    /// Grows the indentation by one step on entering a block.
    pub fn increase_identation_level(&mut self)
        ensures
            final(self).indent_level == spec_indent_grow(old(self).indent_level as int),
            final(self).scopes == old(self).scopes,
    {
        if self.indent_level <= usize::MAX - INDENT_STEP {
            self.indent_level = self.indent_level + INDENT_STEP;
        }
    }

    /// Shrinks the indentation by one step on leaving a block.
    pub fn decrease_identation_level(&mut self)
        requires
            old(self).indent_level >= INDENT_STEP,
        ensures
            final(self).indent_level == old(self).indent_level - INDENT_STEP,
            final(self).scopes == old(self).scopes,
    {
        self.indent_level = self.indent_level - INDENT_STEP;
    }

    /// The whole scope chain, outermost frame first.
    pub fn scopes(&self) -> (r: &Vec<Scope>)
        ensures
            r == self.scopes,
    {
        &self.scopes
    }

    /// Opens a child frame at the inner end of the chain.
    pub fn enter_scope(&mut self)
        ensures
            final(self)@ =~= old(self)@.push(
                ScopeV {
                    var_names: Set::empty(),
                    function_names: Set::empty(),
                    struct_names: Set::empty(),
                    types: Map::empty(),
                },
            ),
            final(self).indent_level == old(self).indent_level,
    {
        let ghost olds = self.scopes@;
        let s = Scope::new();
        let ghost sv = s@;
        self.scopes.push(s);
        proof {
            assert(self.scopes@.drop_last() =~= olds);
            assert(view_scope_seq(self.scopes@) =~= view_scope_seq(olds).push(sv));
            assert(sv =~= ScopeV {
                var_names: Set::empty(),
                function_names: Set::empty(),
                struct_names: Set::empty(),
                types: Map::empty(),
            });
        }
    }

    /// Closes the innermost frame and hands it back; the global frame is
    /// never removed.
    pub fn exit_scope(&mut self) -> (r: Option<Scope>)
        ensures
            old(self)@.len() == 1 ==> r is None && final(self)@ == old(self)@,
            old(self)@.len() != 1 ==> match r {
                Some(s) => old(self)@.len() > 0 && final(self)@ == old(self)@.drop_last() && s@
                    == old(self)@.last(),
                None => final(self)@ == old(self)@ && old(self)@.len() == 0,
            },
            final(self).indent_level == old(self).indent_level,
    {
        proof {
            lemma_view_scope_seq_len(self.scopes@);
        }
        if self.scopes.len() == 1 {
            None
        } else {
            let ghost olds = self.scopes@;
            let r = self.scopes.pop();
            proof {
                if olds.len() > 0 {
                    assert(self.scopes@ =~= olds.drop_last());
                    lemma_view_scope_seq_index(olds, olds.len() - 1);
                }
            }
            r
        }
    }

    /// The innermost frame.
    pub fn current_scope(&self) -> (r: &Scope)
        requires
            self@.len() > 0,
        ensures
            r@ == self@.last(),
    {
        proof {
            lemma_view_scope_seq_len(self.scopes@);
            lemma_view_scope_seq_index(self.scopes@, self.scopes@.len() - 1);
        }
        &self.scopes[self.scopes.len() - 1]
    }

    /// The innermost frame, for definition.
    pub fn current_scope_mut(&mut self) -> (r: &mut Scope)
        requires
            old(self)@.len() > 0,
        ensures
            *r == old(self).scopes@.last(),
            final(self).scopes@ == old(self).scopes@.update(
                old(self).scopes@.len() - 1,
                *final(r),
            ),
            final(self)@ == old(self)@.update(old(self)@.len() - 1, final(r)@),
            final(self).indent_level == old(self).indent_level,
    {
        proof {
            lemma_view_scope_seq_len(self.scopes@);
        }
        let n = self.scopes.len();
        let r = vec_index_mut(&mut self.scopes, n - 1);
        proof {
            lemma_update_view(old(self).scopes@, old(self).scopes@.len() - 1);
        }
        r
    }
}

/// A mutable borrow of one element of a vector.
fn vec_index_mut<T>(v: &mut Vec<T>, i: usize) -> (element: &mut T)
    requires
        i < old(v).len(),
    ensures
        *element == old(v)@[i as int],
        final(v)@ == old(v)@.update(i as int, *final(element)),
{
    &mut v[i]
}

/// Updating one frame updates exactly its view in the viewed chain.
proof fn lemma_update_view(l: Seq<Scope>, i: int)
    requires
        0 <= i < l.len(),
    ensures
        forall|s: Scope| #[trigger] view_scope_seq(l.update(i, s)) =~= view_scope_seq(l).update(
            i,
            s@,
        ),
    decreases l,
{
    lemma_view_scope_seq_len(l);
    assert forall|s: Scope| #[trigger] view_scope_seq(l.update(i, s)) =~= view_scope_seq(
        l,
    ).update(i, s@) by {
        lemma_view_scope_seq_len(l.update(i, s));
        assert forall|j: int| 0 <= j < l.len() implies view_scope_seq(l.update(i, s))[j]
            == view_scope_seq(l).update(i, s@)[j] by {
            lemma_view_scope_seq_index(l.update(i, s), j);
            lemma_view_scope_seq_index(l, j);
        }
    }
}

} // verus!
