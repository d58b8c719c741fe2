//! Building contexts and looking names up in them.
use crate::spec::{binding_value, create_ctx, cur_dollar, cur_super, cur_this, extend_ctx, find_binding, lookup, with_var};
use crate::val::{
    binding_view, bindings_view, creator_view, lemma_bindings_view_push, opt_obj_view, Context,
    ContextCreator, ContextInternals, FuncDesc, LazyBinding, LazyVal, ObjValue, SBinding, SFrame,
    SVal, Val,
};
use std::rc::Rc;
use vstd::prelude::*;

verus! {

pub proof fn lemma_bindings_view_len(s: Seq<(String, LazyBinding)>)
    ensures
        bindings_view(s).len() == s.len(),
    decreases s.len(),
{
    if s.len() > 0 {
        lemma_bindings_view_len(s.drop_last());
    }
}

pub proof fn lemma_bindings_view_index(s: Seq<(String, LazyBinding)>, i: int)
    requires
        0 <= i < s.len(),
    ensures
        bindings_view(s)[i] == (s[i].0@, binding_view(s[i].1)),
    decreases s.len(),
{
    lemma_bindings_view_len(s.drop_last());
    if i < s.len() - 1 {
        lemma_bindings_view_index(s.drop_last(), i);
    }
}

impl Context {
    /// The empty context: no bindings, no `$`, `self` or `super`.
    pub fn new() -> (c: Context)
        ensures
            c@ == seq![
                SFrame {
                    dollar: None,
                    this: None,
                    super_obj: None,
                    bindings: Seq::<(Seq<char>, SBinding)>::empty(),
                },
            ],
    {
        let c = Context(
            Rc::new(
                ContextInternals {
                    dollar: None,
                    this: None,
                    super_obj: None,
                    bindings: Vec::new(),
                    parent: None,
                },
            ),
        );
        assert(bindings_view(c.0.bindings@) =~= Seq::<(Seq<char>, SBinding)>::empty());
        assert(opt_obj_view(None) == None::<crate::val::SObj>);
        assert(c@ =~= seq![
            SFrame {
                dollar: None,
                this: None,
                super_obj: None,
                bindings: Seq::<(Seq<char>, SBinding)>::empty(),
            },
        ]);
        c
    }

    /// `self`, where it is defined.
    pub fn this(&self) -> (r: Option<ObjValue>)
        ensures
            opt_obj_view(r) == cur_this(self@),
    {
        match &self.0.this {
            Some(o) => Some(o.clone()),
            None => None,
        }
    }

    /// `super`, where it is defined.
    pub fn super_obj(&self) -> (r: Option<ObjValue>)
        ensures
            opt_obj_view(r) == cur_super(self@),
    {
        match &self.0.super_obj {
            Some(o) => Some(o.clone()),
            None => None,
        }
    }

    /// `$`, where it is defined.
    pub fn dollar(&self) -> (r: Option<ObjValue>)
        ensures
            opt_obj_view(r) == cur_dollar(self@),
    {
        match &self.0.dollar {
            Some(o) => Some(o.clone()),
            None => None,
        }
    }

    /// This context with a frame of `new_bindings` over it; `$`, `self` and
    /// `super` are those given, where given, else those of this context.
    pub fn extend(
        &self,
        new_bindings: Vec<(String, LazyBinding)>,
        new_dollar: Option<ObjValue>,
        new_this: Option<ObjValue>,
        new_super_obj: Option<ObjValue>,
    ) -> (c: Context)
        ensures
            c@ == extend_ctx(
                self@,
                bindings_view(new_bindings@),
                opt_obj_view(new_dollar),
                opt_obj_view(new_this),
                opt_obj_view(new_super_obj),
            ),
    {
        let dollar = match new_dollar {
            Some(d) => Some(d),
            None => self.dollar(),
        };
        let this = match new_this {
            Some(t) => Some(t),
            None => self.this(),
        };
        let super_obj = match new_super_obj {
            Some(s) => Some(s),
            None => self.super_obj(),
        };
        Context(
            Rc::new(
                ContextInternals {
                    dollar,
                    this,
                    super_obj,
                    bindings: new_bindings,
                    parent: Some(self.clone()),
                },
            ),
        )
    }

    /// This context with `name` bound to `value`.
    pub fn with_var(&self, name: String, value: Val) -> (c: Context)
        ensures
            c@ == with_var(self@, name@, value@),
    {
        let mut bs: Vec<(String, LazyBinding)> = Vec::new();
        bs.push((name, LazyBinding::Value(value)));
        proof {
            lemma_bindings_view_push(Seq::empty(), (name, LazyBinding::Value(value)));
            assert(bs@ =~= Seq::<(String, LazyBinding)>::empty().push((name, LazyBinding::Value(value))));
            assert(bindings_view(Seq::<(String, LazyBinding)>::empty()) =~= Seq::<(Seq<char>, SBinding)>::empty());
            assert(bindings_view(bs@) =~= seq![(name@, SBinding::Value(value@))]);
        }
        self.extend(bs, None, None, None)
    }

    /// What `name` stands for in this context: its value, a thunk that
    /// evaluates its code, or the function it defines.
    pub fn binding(&self, name: &String) -> (r: Option<Val>)
        ensures
            match r {
                Some(v) => lookup(self@, name@) == Some(v@),
                None => lookup(self@, name@) == None::<SVal>,
            },
    {
        let mut node = self.clone();
        loop
            invariant
                lookup(self@, name@) == lookup(node@, name@),
            decreases node@.len(),
        {
            let bs = &node.0.bindings;
            let ghost bv = bindings_view(bs@);
            proof {
                lemma_bindings_view_len(bs@);
            }
            let ghost here = node@.last();
            proof {
                assert(here.bindings == bv);
                assert(bv.take(bs.len() as int) =~= bv);
                match &node.0.parent {
                    Some(p) => {
                        assert(node@.drop_last() =~= p@);
                    },
                    None => {
                        assert(node@.drop_last() =~= Seq::<SFrame>::empty());
                    },
                }
            }
            let mut j: usize = bs.len();
            while j > 0
                invariant
                    j <= bs.len(),
                    bv == bindings_view(bs@),
                    bv.len() == bs.len(),
                    node@.len() > 0,
                    node@.last().bindings == bv,
                    lookup(self@, name@) == lookup(node@, name@),
                    find_binding(bv, name@) == find_binding(bv.take(j as int), name@),
                decreases j,
            {
                proof {
                    lemma_bindings_view_index(bs@, j - 1);
                    assert(bv.take(j as int).drop_last() =~= bv.take(j - 1));
                }
                if bs[j - 1].0 == *name {
                    let b = &bs[j - 1].1;
                    let v = match b {
                        LazyBinding::Value(v) => v.clone(),
                        LazyBinding::Code(None, e) => Val::Lazy(
                            LazyVal { ctx: node.clone(), expr: e.clone() },
                        ),
                        LazyBinding::Code(Some(p), e) => Val::Func(
                            FuncDesc { ctx: node.clone(), params: p.clone(), body: e.clone() },
                        ),
                    };
                    proof {
                        assert(find_binding(bv, name@) == Some(binding_view(*b)));
                        assert(lookup(node@, name@) == Some(binding_value(node@, binding_view(*b))));
                        assert(v@ == binding_value(node@, binding_view(*b)));
                    }
                    return Some(v);
                }
                j -= 1;
            }
            proof {
                assert(bv.take(0) =~= Seq::<(Seq<char>, SBinding)>::empty());
                assert(find_binding(bv, name@) == None::<SBinding>);
                assert(lookup(node@, name@) == lookup(node@.drop_last(), name@));
                match &node.0.parent {
                    Some(p) => {
                        assert(node@.drop_last() =~= p@);
                    },
                    None => {
                        assert(node@.drop_last() =~= Seq::<SFrame>::empty());
                    },
                }
            }
            match &node.0.parent {
                Some(p) => {
                    node = p.clone();
                },
                None => {
                    return None;
                },
            }
        }
    }
}

impl ContextCreator {
    /// The context of a field, `self` and `super` being given.
    pub fn create(&self, this: ObjValue, super_obj: Option<ObjValue>) -> (c: Context)
        ensures
            c@ == create_ctx(creator_view(*self), this@, opt_obj_view(super_obj)),
    {
        let dollar = match self.context.dollar() {
            Some(d) => d,
            None => this.clone(),
        };
        let bindings: Vec<(String, LazyBinding)> = copy_bindings(&self.bindings);
        self.context.extend(bindings, Some(dollar), Some(this), super_obj)
    }
}

/// A copy of a frame's bindings.
pub fn copy_bindings(bs: &Vec<(String, LazyBinding)>) -> (r: Vec<(String, LazyBinding)>)
    ensures
        r@ == bs@,
{
    let mut out: Vec<(String, LazyBinding)> = Vec::new();
    let mut i: usize = 0;
    while i < bs.len()
        invariant
            i <= bs.len(),
            out@ == bs@.take(i as int),
        decreases bs.len() - i,
    {
        let b = (bs[i].0.clone(), bs[i].1.clone());
        out.push(b);
        assert(bs@.take(i + 1) =~= bs@.take(i as int).push(bs@[i as int]));
        i += 1;
    }
    assert(bs@.take(bs.len() as int) =~= bs@);
    out
}

} // verus!
