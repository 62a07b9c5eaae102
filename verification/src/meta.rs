//! The generic tagged value that carries frontmatter metadata. Arbitrary
//! author-supplied data survives from parsing through to the template
//! context without loss of structure.

use vstd::prelude::*;

verus! {

broadcast use vstd::std_specs::vec::group_vec_axioms, vstd::seq::group_seq_axioms;

/// A dynamically-typed metadata value: null, boolean, number, string,
/// sequence or mapping. A number is carried as its decimal rendering, so
/// that no numeric information is lost.
#[derive(Debug, PartialEq, Eq)]
pub enum MetaValue {
    Null,
    Bool(bool),
    Num(String),
    Str(String),
    List(Vec<MetaValue>),
    Dict(Vec<(String, MetaValue)>),
}

/// The mathematical model of a `MetaValue`.
pub enum MetaNode {
    Null,
    Bool(bool),
    Num(Seq<char>),
    Str(Seq<char>),
    List(Seq<MetaNode>),
    Dict(Seq<(Seq<char>, MetaNode)>),
}


/// The models of a sequence of metadata values.
pub open spec fn models_of(items: Seq<MetaValue>) -> Seq<MetaNode> {
    Seq::new(
        items.len(),
        |i: int|
            if 0 <= i < items.len() {
                items[i].model()
            } else {
                MetaNode::Null
            },
    )
}

/// The models of a sequence of key/value pairs.
pub open spec fn pair_models_of(pairs: Seq<(String, MetaValue)>) -> Seq<(Seq<char>, MetaNode)> {
    Seq::new(
        pairs.len(),
        |i: int|
            if 0 <= i < pairs.len() {
                (pairs[i].0@, pairs[i].1.model())
            } else {
                (Seq::empty(), MetaNode::Null)
            },
    )
}

impl MetaValue {
    /// The mathematical model of this value.
    pub open spec fn model(self) -> MetaNode
        decreases self,
    {
        match self {
            MetaValue::Null => MetaNode::Null,
            MetaValue::Bool(b) => MetaNode::Bool(b),
            MetaValue::Num(s) => MetaNode::Num(s@),
            MetaValue::Str(s) => MetaNode::Str(s@),
            MetaValue::List(items) => MetaNode::List(
                Seq::new(
                    items@.len(),
                    |i: int|
                        if 0 <= i < items@.len() {
                            items@[i].model()
                        } else {
                            MetaNode::Null
                        },
                ),
            ),
            MetaValue::Dict(pairs) => MetaNode::Dict(
                Seq::new(
                    pairs@.len(),
                    |i: int|
                        if 0 <= i < pairs@.len() {
                            (pairs@[i].0@, pairs@[i].1.model())
                        } else {
                            (Seq::empty(), MetaNode::Null)
                        },
                ),
            ),
        }
    }

    /// A deep copy of this value.
    pub fn duplicate(&self) -> (r: MetaValue)
        ensures
            r.model() == self.model(),
        decreases *self,
    {
        match self {
            MetaValue::Null => MetaValue::Null,
            MetaValue::Bool(b) => MetaValue::Bool(*b),
            MetaValue::Num(s) => MetaValue::Num(s.clone()),
            MetaValue::Str(s) => MetaValue::Str(s.clone()),
            MetaValue::List(items) => {
                let mut out: Vec<MetaValue> = Vec::new();
                let n = items.len();
                let mut i: usize = 0;
                while i < n
                    invariant
                        i <= n,
                        n == items@.len(),
                        out@.len() == i,
                        forall|j: int| 0 <= j < i ==> out@[j].model() == items@[j].model(),
                        *self == MetaValue::List(*items),
                    decreases n - i,
                {
                    proof {
                        assert(decreases_to!(*self => self->List_0));
                        assert(decreases_to!(self->List_0 => self->List_0@));
                        assert(decreases_to!(self->List_0@ => self->List_0@[i as int]));
                        assert(self->List_0@[i as int] == items@[i as int]);
                        assert(decreases_to!(*self => items@[i as int]));
                    }
                    out.push(items[i].duplicate());
                    i += 1;
                }
                let r = MetaValue::List(out);
                proof {
                    assert(r.model() matches MetaNode::List(a) && self.model()
                        matches MetaNode::List(b) ==> a =~= b);
                }
                r
            },
            MetaValue::Dict(pairs) => {
                let mut out: Vec<(String, MetaValue)> = Vec::new();
                let n = pairs.len();
                let mut i: usize = 0;
                while i < n
                    invariant
                        i <= n,
                        n == pairs@.len(),
                        out@.len() == i,
                        forall|j: int|
                            0 <= j < i ==> out@[j].0@ == pairs@[j].0@ && out@[j].1.model()
                                == pairs@[j].1.model(),
                        *self == MetaValue::Dict(*pairs),
                    decreases n - i,
                {
                    proof {
                        assert(decreases_to!(*self => self->Dict_0));
                        assert(decreases_to!(self->Dict_0 => self->Dict_0@));
                        assert(decreases_to!(self->Dict_0@ => self->Dict_0@[i as int]));
                        assert(decreases_to!(self->Dict_0@[i as int] => self->Dict_0@[i as int].1));
                        assert(self->Dict_0@[i as int].1 == pairs@[i as int].1);
                        assert(decreases_to!(*self => pairs@[i as int].1));
                    }
                    let (k, v) = &pairs[i];
                    out.push((k.clone(), v.duplicate()));
                    i += 1;
                }
                let r = MetaValue::Dict(out);
                proof {
                    assert(r.model() matches MetaNode::Dict(a) && self.model()
                        matches MetaNode::Dict(b) ==> a =~= b);
                }
                r
            },
        }
    }
}

/// The model of a list value, spelled over `models_of`.
pub proof fn lemma_list_model(items: Vec<MetaValue>)
    ensures
        MetaValue::List(items).model() == MetaNode::List(models_of(items@)),
{
    assert(MetaValue::List(items).model()->List_0 =~= models_of(items@));
}

/// The model of a mapping value, spelled over `pair_models_of`.
pub proof fn lemma_dict_model(pairs: Vec<(String, MetaValue)>)
    ensures
        MetaValue::Dict(pairs).model() == MetaNode::Dict(pair_models_of(pairs@)),
{
    assert(MetaValue::Dict(pairs).model()->Dict_0 =~= pair_models_of(pairs@));
}

} // verus!
