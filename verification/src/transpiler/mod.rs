//! The back half of the pipeline: scope-aware type checking over the syntax
//! tree, and generation of statement-oriented target text from it.
pub mod checkings;
pub mod scope;
pub mod transpilation;
pub mod transpiler;

use vstd::prelude::*;

verus! {

/// A type of the source language: void, the integer and float primitives, a
/// function type, or a struct shape whose field order is significant for
/// literal-completeness checking.
#[derive(Debug, PartialEq)]
pub enum BeatriceType {
    Void,
    Int,
    Float,
    Function { params: Vec<BeatriceType>, return_type: Box<BeatriceType> },
    Struct { fields: Vec<FieldType> },
}

/// One declared field of a struct type: its name and its type, in
/// declaration order.
#[derive(Debug, PartialEq)]
pub struct FieldType {
    pub name: String,
    pub kindof: BeatriceType,
}

/// A type error found while checking a declaration.
#[derive(Debug)]
pub enum TypeError {
    NotRecognizedVar(String),
    NotRecognizedType(String),
    ExpectedValue,
    UnexpectedType { expected: BeatriceType, received: BeatriceType },
    InvalidFieldName { field: String, target_struct: String },
    InvalidFieldValue { target: String, field: String, expected: BeatriceType, received: BeatriceType },
    NotCorrectFields { fields: Vec<String>, target: String },
    IfElseWrong { ifbranch: BeatriceType, elsebranch: BeatriceType },
}

/// The mathematical value of a source-language type.
pub enum BeatriceTypeV {
    Void,
    Int,
    Float,
    Function { params: Seq<BeatriceTypeV>, return_type: Box<BeatriceTypeV> },
    Struct { fields: Seq<FieldTypeV> },
}

/// The mathematical value of a declared struct field.
pub struct FieldTypeV {
    pub name: Seq<char>,
    pub kindof: BeatriceTypeV,
}

/// The mathematical value of a type error.
pub enum TypeErrorV {
    NotRecognizedVar(Seq<char>),
    NotRecognizedType(Seq<char>),
    ExpectedValue,
    UnexpectedType { expected: BeatriceTypeV, received: BeatriceTypeV },
    InvalidFieldName { field: Seq<char>, target_struct: Seq<char> },
    InvalidFieldValue {
        target: Seq<char>,
        field: Seq<char>,
        expected: BeatriceTypeV,
        received: BeatriceTypeV,
    },
    NotCorrectFields { fields: Seq<Seq<char>>, target: Seq<char> },
    IfElseWrong { ifbranch: BeatriceTypeV, elsebranch: BeatriceTypeV },
}

/// The mathematical value of a source-language type.
pub open spec fn view_bt(t: BeatriceType) -> BeatriceTypeV
    decreases t,
{
    match t {
        BeatriceType::Void => BeatriceTypeV::Void,
        BeatriceType::Int => BeatriceTypeV::Int,
        BeatriceType::Float => BeatriceTypeV::Float,
        BeatriceType::Function { params, return_type } => BeatriceTypeV::Function {
            params: view_bt_seq(params@),
            return_type: Box::new(view_bt(*return_type)),
        },
        BeatriceType::Struct { fields } => BeatriceTypeV::Struct {
            fields: view_ft_seq(fields@),
        },
    }
}

/// The mathematical values of a sequence of types.
pub open spec fn view_bt_seq(l: Seq<BeatriceType>) -> Seq<BeatriceTypeV>
    decreases l,
{
    if l.len() == 0 {
        Seq::empty()
    } else {
        view_bt_seq(l.drop_last()).push(view_bt(l.last()))
    }
}

/// The mathematical values of a sequence of declared fields.
pub open spec fn view_ft_seq(l: Seq<FieldType>) -> Seq<FieldTypeV>
    decreases l,
{
    if l.len() == 0 {
        Seq::empty()
    } else {
        view_ft_seq(l.drop_last()).push(
            FieldTypeV { name: l.last().name@, kindof: view_bt(l.last().kindof) },
        )
    }
}

/// The mathematical values of a sequence of names.
pub open spec fn view_name_seq(l: Seq<String>) -> Seq<Seq<char>>
    decreases l,
{
    if l.len() == 0 {
        Seq::empty()
    } else {
        view_name_seq(l.drop_last()).push(l.last()@)
    }
}

impl View for BeatriceType {
    type V = BeatriceTypeV;

    open spec fn view(&self) -> BeatriceTypeV {
        view_bt(*self)
    }
}

impl View for FieldType {
    type V = FieldTypeV;

    open spec fn view(&self) -> FieldTypeV {
        FieldTypeV { name: self.name@, kindof: view_bt(self.kindof) }
    }
}

impl View for TypeError {
    type V = TypeErrorV;

    open spec fn view(&self) -> TypeErrorV {
        match self {
            TypeError::NotRecognizedVar(s) => TypeErrorV::NotRecognizedVar(s@),
            TypeError::NotRecognizedType(s) => TypeErrorV::NotRecognizedType(s@),
            TypeError::ExpectedValue => TypeErrorV::ExpectedValue,
            TypeError::UnexpectedType { expected, received } => TypeErrorV::UnexpectedType {
                expected: expected@,
                received: received@,
            },
            TypeError::InvalidFieldName { field, target_struct } => TypeErrorV::InvalidFieldName {
                field: field@,
                target_struct: target_struct@,
            },
            TypeError::InvalidFieldValue { target, field, expected, received } => {
                TypeErrorV::InvalidFieldValue {
                    target: target@,
                    field: field@,
                    expected: expected@,
                    received: received@,
                }
            },
            TypeError::NotCorrectFields { fields, target } => TypeErrorV::NotCorrectFields {
                fields: view_name_seq(fields@),
                target: target@,
            },
            TypeError::IfElseWrong { ifbranch, elsebranch } => TypeErrorV::IfElseWrong {
                ifbranch: ifbranch@,
                elsebranch: elsebranch@,
            },
        }
    }
}

impl Clone for BeatriceType {
    /// A deep copy carrying the same mathematical value.
    fn clone(&self) -> (r: Self)
        ensures
            r@ == self@,
    {
        clone_bt(self)
    }
}

/// Deep copy of a type, preserving its mathematical value.
fn clone_bt(t: &BeatriceType) -> (r: BeatriceType)
    ensures
        r@ == t@,
    decreases *t,
{
    match t {
        BeatriceType::Void => BeatriceType::Void,
        BeatriceType::Int => BeatriceType::Int,
        BeatriceType::Float => BeatriceType::Float,
        BeatriceType::Function { params, return_type } => {
            let mut ps: Vec<BeatriceType> = Vec::new();
            let mut i: usize = 0;
            proof {
                assert(decreases_to!(*t => *params));
                assert(decreases_to!(*params => params@));
            }
            while i < params.len()
                invariant
                    i <= params@.len(),
                    view_bt_seq(ps@) == view_bt_seq(params@.subrange(0, i as int)),
                    (decreases_to!(*t => params@)),
                decreases params@.len() - i,
            {
                let ghost oldps = ps@;
                proof {
                    assert(decreases_to!(params@ => params@[i as int]));
                }
                ps.push(clone_bt(&params[i]));
                i = i + 1;
                proof {
                    assert(ps@.drop_last() =~= oldps);
                    assert(params@.subrange(0, i as int).drop_last() =~= params@.subrange(
                        0,
                        i as int - 1,
                    ));
                    assert(params@.subrange(0, i as int).last() == params@[i - 1]);
                    assert(view_bt_seq(ps@) =~= view_bt_seq(params@.subrange(0, i as int)));
                }
            }
            proof {
                assert(params@.subrange(0, params@.len() as int) =~= params@);
            }
            BeatriceType::Function {
                params: ps,
                return_type: Box::new(clone_bt(return_type)),
            }
        },
        BeatriceType::Struct { fields } => {
            let mut fs: Vec<FieldType> = Vec::new();
            let mut i: usize = 0;
            proof {
                assert(decreases_to!(*t => *fields));
                assert(decreases_to!(*fields => fields@));
            }
            while i < fields.len()
                invariant
                    i <= fields@.len(),
                    view_ft_seq(fs@) == view_ft_seq(fields@.subrange(0, i as int)),
                    (decreases_to!(*t => fields@)),
                decreases fields@.len() - i,
            {
                let ghost oldfs = fs@;
                let f = &fields[i];
                proof {
                    assert(decreases_to!(fields@ => fields@[i as int]));
                    assert(decreases_to!(fields@[i as int] => fields@[i as int].kindof));
                }
                fs.push(FieldType { name: f.name.clone(), kindof: clone_bt(&f.kindof) });
                i = i + 1;
                proof {
                    assert(fs@.drop_last() =~= oldfs);
                    assert(fields@.subrange(0, i as int).drop_last() =~= fields@.subrange(
                        0,
                        i as int - 1,
                    ));
                    assert(fields@.subrange(0, i as int).last() == fields@[i - 1]);
                    assert(view_ft_seq(fs@) =~= view_ft_seq(fields@.subrange(0, i as int)));
                }
            }
            proof {
                assert(fields@.subrange(0, fields@.len() as int) =~= fields@);
            }
            BeatriceType::Struct { fields: fs }
        },
    }
}

/// Deep equality of two types, decided on their mathematical values.
pub fn bt_eq(a: &BeatriceType, b: &BeatriceType) -> (r: bool)
    ensures
        r == (a@ == b@),
    decreases *a,
{
    match (a, b) {
        (BeatriceType::Void, BeatriceType::Void) => true,
        (BeatriceType::Int, BeatriceType::Int) => true,
        (BeatriceType::Float, BeatriceType::Float) => true,
        (
            BeatriceType::Function { params: pa, return_type: ra },
            BeatriceType::Function { params: pb, return_type: rb },
        ) => {
            if pa.len() != pb.len() {
                proof {
                    lemma_view_bt_seq_len(pa@);
                    lemma_view_bt_seq_len(pb@);
                }
                return false;
            }
            let ghost av = a@;
            let ghost bv = b@;
            proof {
                assert(decreases_to!(*a => *pa));
                assert(decreases_to!(*pa => pa@));
            }
            let mut i: usize = 0;
            while i < pa.len()
                invariant
                    i <= pa@.len(),
                    pa@.len() == pb@.len(),
                    av == a@,
                    bv == b@,
                    (match av {
                        BeatriceTypeV::Function { params: px, .. } => px == view_bt_seq(pa@),
                        _ => false,
                    }),
                    (match bv {
                        BeatriceTypeV::Function { params: px, .. } => px == view_bt_seq(pb@),
                        _ => false,
                    }),
                    forall|j: int| 0 <= j < i ==> view_bt(pa@[j]) == view_bt(pb@[j]),
                    (decreases_to!(*a => pa@)),
                decreases pa@.len() - i,
            {
                proof {
                    assert(decreases_to!(pa@ => pa@[i as int]));
                }
                if !bt_eq(&pa[i], &pb[i]) {
                    proof {
                        lemma_view_bt_seq_index(pa@, i as int);
                        lemma_view_bt_seq_index(pb@, i as int);
                        lemma_view_bt_seq_len(pa@);
                        lemma_view_bt_seq_len(pb@);
                        assert(view_bt_seq(pa@) != view_bt_seq(pb@));
                    }
                    return false;
                }
                i = i + 1;
            }
            let req = bt_eq(ra, rb);
            proof {
                lemma_view_bt_seq_len(pa@);
                lemma_view_bt_seq_len(pb@);
                if req {
                    assert forall|j: int| 0 <= j < view_bt_seq(pa@).len() implies view_bt_seq(
                        pa@,
                    )[j] == view_bt_seq(pb@)[j] by {
                        lemma_view_bt_seq_index(pa@, j);
                        lemma_view_bt_seq_index(pb@, j);
                    }
                    assert(view_bt_seq(pa@) =~= view_bt_seq(pb@));
                }
            }
            req
        },
        (BeatriceType::Struct { fields: fa }, BeatriceType::Struct { fields: fb }) => {
            if fa.len() != fb.len() {
                proof {
                    lemma_view_ft_seq_len(fa@);
                    lemma_view_ft_seq_len(fb@);
                }
                return false;
            }
            let ghost av = a@;
            let ghost bv = b@;
            proof {
                assert(decreases_to!(*a => *fa));
                assert(decreases_to!(*fa => fa@));
            }
            let mut i: usize = 0;
            while i < fa.len()
                invariant
                    i <= fa@.len(),
                    fa@.len() == fb@.len(),
                    av == a@,
                    bv == b@,
                    (match av {
                        BeatriceTypeV::Struct { fields: fx } => fx == view_ft_seq(fa@),
                        _ => false,
                    }),
                    (match bv {
                        BeatriceTypeV::Struct { fields: fx } => fx == view_ft_seq(fb@),
                        _ => false,
                    }),
                    forall|j: int| 0 <= j < i ==> fa@[j]@ == fb@[j]@,
                    (decreases_to!(*a => fa@)),
                decreases fa@.len() - i,
            {
                let na = &fa[i];
                let nb = &fb[i];
                let same_name = crate::tokenizer::chars::str_eq(na.name.as_str(), nb.name.as_str());
                if !same_name {
                    proof {
                        lemma_view_ft_seq_index(fa@, i as int);
                        lemma_view_ft_seq_index(fb@, i as int);
                        lemma_view_ft_seq_len(fa@);
                        lemma_view_ft_seq_len(fb@);
                        assert(view_ft_seq(fa@)[i as int].name != view_ft_seq(fb@)[i as int].name);
                        assert(view_ft_seq(fa@) != view_ft_seq(fb@));
                    }
                    return false;
                }
                proof {
                    assert(decreases_to!(fa@ => fa@[i as int]));
                    assert(decreases_to!(fa@[i as int] => fa@[i as int].kindof));
                }
                if !bt_eq(&na.kindof, &nb.kindof) {
                    proof {
                        lemma_view_ft_seq_index(fa@, i as int);
                        lemma_view_ft_seq_index(fb@, i as int);
                        lemma_view_ft_seq_len(fa@);
                        lemma_view_ft_seq_len(fb@);
                        assert(view_ft_seq(fa@) != view_ft_seq(fb@));
                    }
                    return false;
                }
                i = i + 1;
            }
            proof {
                lemma_view_ft_seq_len(fa@);
                lemma_view_ft_seq_len(fb@);
                assert forall|j: int| 0 <= j < view_ft_seq(fa@).len() implies view_ft_seq(fa@)[j]
                    == view_ft_seq(fb@)[j] by {
                    lemma_view_ft_seq_index(fa@, j);
                    lemma_view_ft_seq_index(fb@, j);
                }
                assert(view_ft_seq(fa@) =~= view_ft_seq(fb@));
            }
            true
        },
        _ => {
            proof {
                assert(a@ != b@);
            }
            false
        },
    }
}

/// The viewed sequence has the length of the original.
pub proof fn lemma_view_bt_seq_len(l: Seq<BeatriceType>)
    ensures
        view_bt_seq(l).len() == l.len(),
    decreases l,
{
    if l.len() > 0 {
        lemma_view_bt_seq_len(l.drop_last());
    }
}

/// The viewed sequence holds the view of each element.
pub proof fn lemma_view_bt_seq_index(l: Seq<BeatriceType>, i: int)
    requires
        0 <= i < l.len(),
    ensures
        view_bt_seq(l).len() == l.len(),
        view_bt_seq(l)[i] == view_bt(l[i]),
    decreases l,
{
    lemma_view_bt_seq_len(l);
    if i == l.len() - 1 {
    } else {
        lemma_view_bt_seq_index(l.drop_last(), i);
    }
}

/// The viewed field sequence has the length of the original.
pub proof fn lemma_view_ft_seq_len(l: Seq<FieldType>)
    ensures
        view_ft_seq(l).len() == l.len(),
    decreases l,
{
    if l.len() > 0 {
        lemma_view_ft_seq_len(l.drop_last());
    }
}

/// The viewed field sequence holds the view of each element.
pub proof fn lemma_view_ft_seq_index(l: Seq<FieldType>, i: int)
    requires
        0 <= i < l.len(),
    ensures
        view_ft_seq(l).len() == l.len(),
        view_ft_seq(l)[i] == l[i]@,
    decreases l,
{
    lemma_view_ft_seq_len(l);
    if i == l.len() - 1 {
    } else {
        lemma_view_ft_seq_index(l.drop_last(), i);
    }
}

/// The viewed name sequence has the length of the original.
pub proof fn lemma_view_name_seq_len(l: Seq<String>)
    ensures
        view_name_seq(l).len() == l.len(),
    decreases l,
{
    if l.len() > 0 {
        lemma_view_name_seq_len(l.drop_last());
    }
}

} // verus!
