//! The variable reference cache: identifier-addressed stack scopes and
//! variable nodes, which the IDE expands lazily by identifier.
use std::collections::HashMap;
use std::sync::Arc;
use vstd::prelude::*;

use crate::proto::{children_view, vars_view, EvalRsp, Stack, ValueType, VarView, Variable};

verus! {

broadcast use vstd::std_specs::hash::group_hash_axioms;

/// A cached value together with the identifier it is cached under.
#[derive(Debug)]
pub struct DebuggerCacheRef<T> {
    pub id: i64,
    pub item: T,
}

impl<T> DebuggerCacheRef<T> {
    pub fn new(id: i64, item: T) -> (r: Self)
        ensures
            r.id == id,
            r.item == item,
    {
        DebuggerCacheRef { id, item }
    }
}

/// A node of the materialised variable tree: the variable and the identifier
/// of the node it was expanded from (0 for the root of an evaluation).
#[derive(Debug)]
pub struct DebuggerVariable {
    pub var: Variable,
    pub parent_ref_id: i64,
}

/// An entry of the cache.
#[derive(Debug)]
pub enum DebuggerCacheItem {
    /// The locals and upvalues of a frame.
    Stack(Arc<DebuggerCacheRef<Stack>>),
    /// The environment of a frame.
    Env(Arc<DebuggerCacheRef<Stack>>),
    /// A variable node.
    Variable(Arc<DebuggerCacheRef<DebuggerVariable>>),
}

impl Clone for DebuggerCacheItem {
    fn clone(&self) -> (r: Self)
        ensures
            r == *self,
    {
        match self {
            DebuggerCacheItem::Stack(s) => DebuggerCacheItem::Stack(s.clone()),
            DebuggerCacheItem::Env(s) => DebuggerCacheItem::Env(s.clone()),
            DebuggerCacheItem::Variable(v) => DebuggerCacheItem::Variable(v.clone()),
        }
    }
}

/// The identifier an entry is cached under.
pub open spec fn item_id(item: DebuggerCacheItem) -> int {
    match item {
        DebuggerCacheItem::Stack(s) => s.id as int,
        DebuggerCacheItem::Env(s) => s.id as int,
        DebuggerCacheItem::Variable(v) => v.id as int,
    }
}

/// A variable as the IDE is shown it.
#[derive(Debug, Clone, PartialEq, Eq)]
pub struct DapVariable {
    pub name: String,
    pub value: String,
    pub variables_reference: i64,
}

/// What the IDE is shown of a variable.
pub struct DapVariableView {
    pub name: Seq<char>,
    pub value: Seq<char>,
    pub variables_reference: int,
}

impl View for DapVariable {
    type V = DapVariableView;

    open spec fn view(&self) -> DapVariableView {
        DapVariableView {
            name: self.name@,
            value: self.value@,
            variables_reference: self.variables_reference as int,
        }
    }
}

/// Whether a value kind can be expanded into children.
pub open spec fn is_expandable(t: ValueType) -> bool {
    t == ValueType::TTABLE || t == ValueType::TUSERDATA || t == ValueType::GROUP
}

/// The projection of a variable cached under `id`: string values are quoted,
/// names that are not identifiers are bracketed, and only tables, userdata
/// and groups carry a reference for expansion.
pub open spec fn project(v: VarView, id: int) -> DapVariableView {
    DapVariableView {
        name: if v.name_type == ValueType::TSTRING {
            v.name
        } else {
            seq!['['] + v.name + seq![']']
        },
        value: if v.value_type == ValueType::TSTRING {
            seq!['"'] + v.value + seq!['"']
        } else {
            v.value
        },
        variables_reference: if is_expandable(v.value_type) {
            id
        } else {
            0
        },
    }
}

/// The names that make up the expression of a node: those of its ancestors
/// first, then its own; group nodes contribute no name.
pub open spec fn expr_names(entries: Map<i64, DebuggerCacheItem>, v: DebuggerVariable) -> Seq<
    Seq<char>,
>
    decreases v.parent_ref_id,
{
    let own = if v.var.value_type != ValueType::GROUP {
        seq![v.var.name@]
    } else {
        Seq::empty()
    };
    if v.parent_ref_id > 0 && entries.contains_key(v.parent_ref_id) {
        match entries[v.parent_ref_id] {
            DebuggerCacheItem::Variable(p) => {
                if 0 <= p.item.parent_ref_id < v.parent_ref_id {
                    expr_names(entries, p.item) + own
                } else {
                    own
                }
            },
            _ => own,
        }
    } else {
        own
    }
}

/// Names joined with dots.
pub open spec fn join_dotted(names: Seq<Seq<char>>) -> Seq<char>
    decreases names.len(),
{
    if names.len() == 0 {
        Seq::empty()
    } else if names.len() == 1 {
        names[0]
    } else {
        join_dotted(names.drop_last()) + seq!['.'] + names.last()
    }
}

/// The identifier-addressed cache, with the counter that issues identifiers.
#[derive(Debug)]
pub struct DebuggerCache {
    cache_id: i64,
    caches: HashMap<i64, DebuggerCacheItem>,
}

impl DebuggerCache {
    /// The entries by identifier.
    pub closed spec fn entries(&self) -> Map<i64, DebuggerCacheItem> {
        self.caches@
    }

    /// The identifier that the next allocation hands out.
    pub closed spec fn next_id(&self) -> int {
        self.cache_id as int
    }

    /// Every entry sits under its own identifier, which was allocated before;
    /// a variable node's parent identifier is smaller than its own.
    pub open spec fn wf(&self) -> bool {
        &&& 1 <= self.next_id()
        &&& forall|k: i64| #[trigger]
            self.entries().contains_key(k) ==> {
                &&& 1 <= k < self.next_id()
                &&& item_id(self.entries()[k]) == k
                &&& match self.entries()[k] {
                    DebuggerCacheItem::Variable(v) => 0 <= v.item.parent_ref_id < k,
                    _ => true,
                }
            }
    }

    /// The identifier that the next allocation hands out.
    pub fn next_value(&self) -> (r: i64)
        ensures
            r == self.next_id(),
    {
        self.cache_id
    }

    /// An empty cache whose first identifier is 1.
    pub fn new() -> (r: Self)
        ensures
            r.wf(),
            r.entries() == Map::<i64, DebuggerCacheItem>::empty(),
            r.next_id() == 1,
    {
        DebuggerCache { cache_id: 1, caches: HashMap::new() }
    }

    /// A copy of the entry cached under `id`.
    pub fn get_cache(&self, id: i64) -> (r: Option<DebuggerCacheItem>)
        ensures
            r == (if self.entries().contains_key(id) {
                Some(self.entries()[id])
            } else {
                None
            }),
    {
        match self.caches.get(&id) {
            Some(item) => Some(item.clone()),
            None => None,
        }
    }

    /// The entry cached under `id`.
    pub fn get_cache_ref(&self, id: i64) -> (r: Option<&DebuggerCacheItem>)
        ensures
            r == (if self.entries().contains_key(id) {
                Some(&self.entries()[id])
            } else {
                None
            }),
    {
        self.caches.get(&id)
    }

    /// Stores `item` under its identifier, replacing what was there; returns
    /// the identifier that the next allocation hands out.
    pub fn add_cache(&mut self, item: DebuggerCacheItem) -> (r: i64)
        requires
            old(self).wf(),
            1 <= item_id(item) < old(self).next_id(),
            match item {
                DebuggerCacheItem::Variable(v) => 0 <= v.item.parent_ref_id < v.id,
                _ => true,
            },
        ensures
            final(self).wf(),
            final(self).entries() == old(self).entries().insert(item_id(item) as i64, item),
            final(self).next_id() == old(self).next_id(),
            r == old(self).next_id(),
    {
        let cache_id = match &item {
            DebuggerCacheItem::Stack(s) => s.id,
            DebuggerCacheItem::Env(s) => s.id,
            DebuggerCacheItem::Variable(v) => v.id,
        };
        self.caches.insert(cache_id, item);
        self.cache_id
    }

    /// Hands out a fresh identifier: larger than every identifier handed out
    /// or stored before.
    pub fn allocate_cache_id(&mut self) -> (r: i64)
        requires
            old(self).wf(),
            old(self).next_id() < i64::MAX,
        ensures
            final(self).wf(),
            r == old(self).next_id(),
            r >= 1,
            !old(self).entries().contains_key(r),
            forall|k: i64| old(self).entries().contains_key(k) ==> k < r,
            allocated(*old(self), *final(self), r as int),
    {
        let cache_id = self.cache_id;
        self.cache_id = self.cache_id + 1;
        cache_id
    }
}

impl Default for DebuggerCache {
    fn default() -> (r: Self)
        ensures
            r.wf(),
            r.entries() == Map::<i64, DebuggerCacheItem>::empty(),
            r.next_id() == 1,
    {
        DebuggerCache::new()
    }
}

impl DebuggerVariable {
    /// Appends the names of this node's expression, ancestors first.
    fn collect_names(&self, cache: &DebuggerCache, out: &mut Vec<String>)
        requires
            cache.wf(),
        ensures
            final(out)@.map_values(|s: String| s@) == old(out)@.map_values(|s: String| s@)
                + expr_names(cache.entries(), *self),
        decreases self.parent_ref_id,
    {
        if self.parent_ref_id > 0 {
            match cache.get_cache_ref(self.parent_ref_id) {
                Some(DebuggerCacheItem::Variable(p)) => {
                    p.item.collect_names(cache, out);
                },
                _ => {},
            }
        }
        if self.var.value_type != ValueType::GROUP {
            let ghost before = out@;
            out.push(self.var.name.clone());
            assert(out@.map_values(|s: String| s@) =~= before.map_values(|s: String| s@).push(
                self.var.name@,
            ));
        }
        assert(final(out)@.map_values(|s: String| s@) =~= old(out)@.map_values(|s: String| s@)
            + expr_names(cache.entries(), *self));
    }

    /// The dotted expression that reaches this node from its evaluation root.
    pub fn get_expr(&self, cache: &DebuggerCache) -> (r: String)
        requires
            cache.wf(),
        ensures
            r@ == join_dotted(expr_names(cache.entries(), *self)),
    {
        let mut arr: Vec<String> = Vec::new();
        self.collect_names(cache, &mut arr);
        let ghost names = arr@.map_values(|s: String| s@);
        assert(names =~= expr_names(cache.entries(), *self));
        let mut out = String::new();
        let mut i: usize = 0;
        while i < arr.len()
            invariant
                i <= arr.len(),
                names == arr@.map_values(|s: String| s@),
                out@ == join_dotted(names.take(i as int)),
            decreases arr.len() - i,
        {
            if i > 0 {
                out.append(".");
            }
            out.append(arr[i].as_str());
            proof {
                let t = names.take(i as int + 1);
                assert(t.drop_last() =~= names.take(i as int));
                reveal_strlit(".");
            }
            i = i + 1;
        }
        assert(names.take(arr.len() as int) =~= names);
        out
    }
}

/// `after` is `before` after handing out the identifier `r`.
pub open spec fn allocated(before: DebuggerCache, after: DebuggerCache, r: int) -> bool {
    &&& r == before.next_id()
    &&& after.next_id() == r + 1
    &&& after.entries() == before.entries()
}

/// The entry under `k` is the variable node `k` holding a copy of `var`
/// with parent `parent`.
pub open spec fn holds_node(
    entries: Map<i64, DebuggerCacheItem>,
    k: int,
    var: Variable,
    parent: int,
) -> bool {
    &&& entries.contains_key(k as i64)
    &&& match entries[k as i64] {
        DebuggerCacheItem::Variable(n) => {
            &&& n.id == k
            &&& n.item.var@ == var@
            &&& children_view(n.item.var) == children_view(var)
            &&& n.item.parent_ref_id == parent
        },
        _ => false,
    }
}

/// `after` keeps every entry of `before` and adds entries only under the
/// identifiers from `lo` up to `hi`.
pub open spec fn grows_within(
    before: Map<i64, DebuggerCacheItem>,
    after: Map<i64, DebuggerCacheItem>,
    lo: int,
    hi: int,
) -> bool {
    &&& forall|k: i64| #[trigger]
        before.contains_key(k) ==> after.contains_key(k) && after[k] == before[k]
    &&& forall|k: i64| #[trigger] after.contains_key(k) ==> before.contains_key(k) || lo <= k < hi
}

/// The variables of a frame's scope: locals first, then upvalues.
pub open spec fn scope_vars(s: Stack) -> Seq<Variable> {
    s.local_variables@ + s.upvalue_variables@
}

/// A request to the debugger for the children of a node.
#[derive(Debug)]
pub struct EvalQuery {
    pub expr: String,
    pub cache_id: i64,
    pub depth: i64,
    pub frame_id: i64,
}

/// The outcome of expanding an entry: the children, or the evaluation that
/// must be made first.
#[derive(Debug)]
pub enum Expansion {
    Ready(Vec<DapVariable>),
    Evaluate(EvalQuery),
}

impl DebuggerCacheItem {
    /// The identifier this entry is cached under.
    pub fn get_ref_id(&self) -> (r: i64)
        ensures
            r as int == item_id(*self),
    {
        match self {
            DebuggerCacheItem::Stack(stack) => stack.id,
            DebuggerCacheItem::Env(stack) => stack.id,
            DebuggerCacheItem::Variable(var_ref) => var_ref.id,
        }
    }

    /// How a variable node is shown to the IDE.
    pub fn to_dap_variable(&self) -> (r: DapVariable)
        requires
            self is Variable,
        ensures
            r@ == project(self->Variable_0.item.var@, self->Variable_0.id as int),
    {
        match self {
            DebuggerCacheItem::Variable(var_ref) => project_variable(&var_ref.item.var, var_ref.id),
            _ => DapVariable { name: String::new(), value: String::new(), variables_reference: 0 },
        }
    }
}

/// How `var`, cached under `id`, is shown to the IDE.
pub fn project_variable(var: &Variable, id: i64) -> (r: DapVariable)
    ensures
        r@ == project(var@, id as int),
{
    let mut value = String::new();
    let mut variables_reference: i64 = 0;
    match var.value_type {
        ValueType::TSTRING => {
            value.append("\"");
            value.append(var.value.as_str());
            value.append("\"");
        },
        ValueType::TTABLE | ValueType::TUSERDATA | ValueType::GROUP => {
            value.append(var.value.as_str());
            variables_reference = id;
        },
        _ => {
            value.append(var.value.as_str());
        },
    }
    let mut name = String::new();
    match var.name_type {
        ValueType::TSTRING => {
            name.append(var.name.as_str());
        },
        _ => {
            name.append("[");
            name.append(var.name.as_str());
            name.append("]");
        },
    }
    proof {
        reveal_strlit("\"");
        reveal_strlit("[");
        reveal_strlit("]");
        assert(value@ =~= project(var@, id as int).value);
        assert(name@ =~= project(var@, id as int).name);
    }
    DapVariable { name, value, variables_reference }
}

impl DebuggerCache {
    /// Caches each of `vars` as a new child node of `parent_id`, in order,
    /// under fresh identifiers, and returns their projections.
    pub fn adopt_children(&mut self, parent_id: i64, vars: &Vec<Variable>) -> (r: Vec<DapVariable>)
        requires
            old(self).wf(),
            0 <= parent_id < old(self).next_id(),
            old(self).next_id() + vars@.len() < i64::MAX,
        ensures
            final(self).wf(),
            final(self).next_id() == old(self).next_id() + vars@.len(),
            grows_within(old(self).entries(), final(self).entries(), old(self).next_id(), final(self).next_id()),
            r@.len() == vars@.len(),
            forall|i: int|
                0 <= i < vars@.len() ==> {
                    &&& #[trigger] r@[i]@ == project(vars@[i]@, old(self).next_id() + i)
                    &&& holds_node(final(self).entries(), old(self).next_id() + i, vars@[i], parent_id as int)
                },
    {
        let mut out: Vec<DapVariable> = Vec::new();
        let mut i: usize = 0;
        while i < vars.len()
            invariant
                self.wf(),
                0 <= parent_id < old(self).next_id(),
                old(self).next_id() + vars@.len() < i64::MAX,
                i <= vars@.len(),
                self.next_id() == old(self).next_id() + i,
                grows_within(old(self).entries(), self.entries(), old(self).next_id(), self.next_id()),
                out@.len() == i,
                forall|j: int|
                    0 <= j < i ==> {
                        &&& #[trigger] out@[j]@ == project(vars@[j]@, old(self).next_id() + j)
                        &&& holds_node(self.entries(), old(self).next_id() + j, vars@[j], parent_id as int)
                    },
            decreases vars@.len() - i,
        {
            let id = self.allocate_cache_id();
            let node = DebuggerCacheRef::new(id, DebuggerVariable { var: vars[i].clone(), parent_ref_id: parent_id });
            let item = DebuggerCacheItem::Variable(Arc::new(node));
            out.push(item.to_dap_variable());
            self.add_cache(item);
            i = i + 1;
        }
        out
    }

    /// Caches the variables of a frame's scope, locals first, as children of
    /// the scope entry `scope_id`, and returns their projections.
    pub fn expand_stack(&mut self, scope_id: i64, stack: &Stack) -> (r: Vec<DapVariable>)
        requires
            old(self).wf(),
            0 <= scope_id < old(self).next_id(),
            old(self).next_id() + scope_vars(*stack).len() < i64::MAX,
        ensures
            final(self).wf(),
            final(self).next_id() == old(self).next_id() + scope_vars(*stack).len(),
            grows_within(old(self).entries(), final(self).entries(), old(self).next_id(), final(self).next_id()),
            r@.len() == scope_vars(*stack).len(),
            forall|i: int|
                0 <= i < scope_vars(*stack).len() ==> {
                    &&& #[trigger] r@[i]@ == project(scope_vars(*stack)[i]@, old(self).next_id() + i)
                    &&& holds_node(final(self).entries(), old(self).next_id() + i, scope_vars(*stack)[i], scope_id as int)
                },
    {
        let ghost start = self.next_id();
        let ghost e0 = self.entries();
        let mut r = self.adopt_children(scope_id, &stack.local_variables);
        let ghost mid = self.next_id();
        let ghost e1 = self.entries();
        let ghost r1 = r@;
        let mut r2 = self.adopt_children(scope_id, &stack.upvalue_variables);
        let ghost r2v = r2@;
        r.append(&mut r2);
        proof {
            let vs = scope_vars(*stack);
            let nl = stack.local_variables@.len();
            assert forall|i: int| 0 <= i < vs.len() implies {
                &&& #[trigger] r@[i]@ == project(vs[i]@, start + i)
                &&& holds_node(self.entries(), start + i, vs[i], scope_id as int)
            } by {
                if i < nl {
                    assert(r@[i] == r1[i]);
                    assert(vs[i] == stack.local_variables@[i]);
                    assert(r1[i]@ == project(vs[i]@, start + i));
                    assert(holds_node(e1, start + i, vs[i], scope_id as int));
                    assert(e1.contains_key((start + i) as i64));
                    assert(self.entries()[(start + i) as i64] == e1[(start + i) as i64]);
                } else {
                    assert(r@[i] == r2v[i - nl]);
                    assert(vs[i] == stack.upvalue_variables@[i - nl]);
                    assert(mid == start + nl);
                    assert(r2v[i - nl]@ == project(vs[i]@, mid + (i - nl)));
                    assert(holds_node(self.entries(), mid + (i - nl), vs[i], scope_id as int));
                }
            }
            assert forall|k: i64| #[trigger] self.entries().contains_key(k) implies e0.contains_key(k) || start <= k
                < self.next_id() by {
                if e1.contains_key(k) {
                    assert(e0.contains_key(k) || start <= k < mid);
                }
            }
        }
        r
    }
}

/// What expanding `item` gives, from the cache `before` to the cache
/// `after`: a frame's scope lists its variables as new nodes under fresh
/// identifiers, locals first; an environment scope lists nothing; a group
/// lists the children it came with as new nodes; any other variable asks
/// for an evaluation of its path and leaves the cache as it was.
pub open spec fn expansion_result(
    before: DebuggerCache,
    after: DebuggerCache,
    item: DebuggerCacheItem,
    r: Expansion,
) -> bool {
    match item {
        DebuggerCacheItem::Stack(s) => {
            let vs = scope_vars(s.item);
            &&& r is Ready
            &&& after.next_id() == before.next_id() + vs.len()
            &&& r->Ready_0@.len() == vs.len()
            &&& forall|i: int| 0 <= i < vs.len() ==> {
                &&& #[trigger] r->Ready_0@[i]@ == project(vs[i]@, before.next_id() + i)
                &&& holds_node(after.entries(), before.next_id() + i, vs[i], s.id as int)
            }
        },
        DebuggerCacheItem::Env(_) => {
            &&& r is Ready
            &&& r->Ready_0@.len() == 0
            &&& after == before
        },
        DebuggerCacheItem::Variable(n) => if n.item.var.value_type == ValueType::GROUP {
            let vs = match n.item.var.children {
                Some(c) => c@,
                None => Seq::empty(),
            };
            &&& r is Ready
            &&& after.next_id() == before.next_id() + vs.len()
            &&& r->Ready_0@.len() == vs.len()
            &&& forall|i: int| 0 <= i < vs.len() ==> {
                &&& #[trigger] r->Ready_0@[i]@ == project(vs[i]@, before.next_id() + i)
                &&& holds_node(after.entries(), before.next_id() + i, vs[i], n.id as int)
            }
        } else {
            &&& r is Evaluate
            &&& r->Evaluate_0.expr@ == join_dotted(expr_names(before.entries(), n.item))
            &&& r->Evaluate_0.cache_id == n.item.var.cache_id as i64
            &&& r->Evaluate_0.depth == 2
            &&& r->Evaluate_0.frame_id == -1
            &&& after == before
        },
    }
}

impl DebuggerCacheItem {
    /// Starts the expansion of this entry of `cache`. A frame's
    /// scope lists its variables; an environment scope lists nothing; a group
    /// lists the children it came with. Any other variable needs the
    /// debugger to evaluate its expression first (depth 2, no frame).
    pub fn compute_children(&self, cache: &mut DebuggerCache) -> (r: Expansion)
        requires
            old(cache).wf(),
            old(cache).entries().contains_key(item_id(*self) as i64),
            old(cache).entries()[item_id(*self) as i64] == *self,
            old(cache).next_id() + expansion_size(*self) < i64::MAX,
        ensures
            final(cache).wf(),
            grows_within(old(cache).entries(), final(cache).entries(), old(cache).next_id(), final(cache).next_id()),
            expansion_result(*old(cache), *final(cache), *self, r),
    {
        match self {
            DebuggerCacheItem::Stack(s) => Expansion::Ready(cache.expand_stack(s.id, &s.item)),
            DebuggerCacheItem::Env(_) => Expansion::Ready(Vec::new()),
            DebuggerCacheItem::Variable(n) => {
                if n.item.var.value_type == ValueType::GROUP {
                    match &n.item.var.children {
                        Some(c) => Expansion::Ready(cache.adopt_children(n.id, c)),
                        None => Expansion::Ready(Vec::new()),
                    }
                } else {
                    Expansion::Evaluate(
                        EvalQuery {
                            expr: n.item.get_expr(cache),
                            cache_id: n.item.var.cache_id as i64,
                            depth: 2,
                            frame_id: -1,
                        },
                    )
                }
            },
        }
    }
}

/// How many entries the expansion of `item` adds before any evaluation.
pub open spec fn expansion_size(item: DebuggerCacheItem) -> int {
    match item {
        DebuggerCacheItem::Stack(s) => scope_vars(s.item).len() as int,
        DebuggerCacheItem::Env(_) => 0,
        DebuggerCacheItem::Variable(n) => if n.item.var.value_type == ValueType::GROUP {
            match n.item.var.children {
                Some(c) => c@.len() as int,
                None => 0,
            }
        } else {
            0
        },
    }
}

impl DebuggerCache {
    /// Finishes the expansion of the variable node `item` once the debugger
    /// has answered (`Some`) or the evaluation failed (`None`). Only a
    /// successful answer supplies children; an answer that reports a failure,
    /// and a failed evaluation, give none and use no identifiers.
    pub fn finish_children(&mut self, item: &DebuggerCacheItem, rsp: Option<EvalRsp>) -> (r: Vec<
        DapVariable,
    >)
        requires
            old(self).wf(),
            item is Variable,
            old(self).entries().contains_key(item_id(*item) as i64),
            old(self).entries()[item_id(*item) as i64] == *item,
            old(self).next_id() + evaluated_children(*item, rsp).len() < i64::MAX,
        ensures
            final(self).wf(),
            grows_within(old(self).entries(), final(self).entries(), old(self).next_id(), final(self).next_id()),
            ({
                let vs = evaluated_children(*item, rsp);
                &&& final(self).next_id() == old(self).next_id() + vs.len()
                &&& r@.len() == vs.len()
                &&& forall|i: int| 0 <= i < vs.len() ==> {
                    &&& #[trigger] r@[i]@ == project(vs[i]@, old(self).next_id() + i)
                    &&& holds_node(final(self).entries(), old(self).next_id() + i, vs[i], item_id(*item))
                }
            }),
    {
        match item {
            DebuggerCacheItem::Variable(n) => {
                match rsp {
                    Some(rsp) => {
                        let children = if rsp.success {
                            rsp.value.children
                        } else {
                            None
                        };
                        match children {
                            Some(c) => {
                                let r = self.adopt_children(n.id, &c);
                                proof {
                                    let vs = evaluated_children(*item, Some(rsp));
                                    assert(vars_view(c@) == vars_view(vs));
                                    assert forall|i: int| 0 <= i < vs.len() implies {
                                        &&& #[trigger] r@[i]@ == project(vs[i]@, old(self).next_id() + i)
                                        &&& holds_node(self.entries(), old(self).next_id() + i, vs[i], item_id(*item))
                                    } by {
                                        assert(vars_view(c@)[i] == vars_view(vs)[i]);
                                        assert(r@[i]@ == project(c@[i]@, old(self).next_id() + i));
                                    }
                                }
                                r
                            },
                            None => Vec::new(),
                        }
                    },
                    None => Vec::new(),
                }
            },
            _ => Vec::new(),
        }
    }

    /// Caches the value of an evaluation as a root node (parent 0) under a
    /// fresh identifier and returns its projection.
    pub fn add_eval_root(&mut self, value: Variable) -> (r: DapVariable)
        requires
            old(self).wf(),
            old(self).next_id() + 1 < i64::MAX,
        ensures
            final(self).wf(),
            final(self).next_id() == old(self).next_id() + 1,
            grows_within(old(self).entries(), final(self).entries(), old(self).next_id(), final(self).next_id()),
            r@ == project(value@, old(self).next_id()),
            holds_node(final(self).entries(), old(self).next_id(), value, 0),
    {
        let ghost v = value;
        let id = self.allocate_cache_id();
        let item = DebuggerCacheItem::Variable(
            Arc::new(DebuggerCacheRef::new(id, DebuggerVariable { var: value, parent_ref_id: 0 })),
        );
        let r = item.to_dap_variable();
        self.add_cache(item);
        r
    }
}

/// The children that an answered evaluation gives a variable node: those of
/// a successful answer; none when the answer reports a failure or no answer
/// came.
pub open spec fn evaluated_children(item: DebuggerCacheItem, rsp: Option<EvalRsp>) -> Seq<Variable> {
    match rsp {
        Some(rsp) => {
            if rsp.success {
                match rsp.value.children {
                    Some(c) => c@,
                    None => Seq::empty(),
                }
            } else {
                Seq::empty()
            }
        },
        None => Seq::empty(),
    }
}

/// Once cached under a fresh identifier, an entry stays: storing a new entry
/// under the identifier that allocation hands out replaces no earlier entry,
/// and for any change that only adds entries (as every expansion and every
/// registration of this cache does) each earlier entry is still found under
/// its identifier, unchanged.
pub proof fn lemma_entries_persist(
    before: DebuggerCache,
    item: DebuggerCacheItem,
    after: DebuggerCache,
    lo: int,
    hi: int,
    id: i64,
)
    requires
        before.wf(),
        before.entries().contains_key(id),
    ensures
        item_id(item) == before.next_id() ==> grows_within(
            before.entries(),
            before.entries().insert(item_id(item) as i64, item),
            before.next_id(),
            before.next_id() + 1,
        ),
        grows_within(before.entries(), after.entries(), lo, hi) ==> {
            &&& after.entries().contains_key(id)
            &&& after.entries()[id] == before.entries()[id]
        },
{
}

/// Entries persist across any sequence of changes that only add entries:
/// two such changes in a row are again one.
pub proof fn lemma_persistence_composes(
    a: Map<i64, DebuggerCacheItem>,
    b: Map<i64, DebuggerCacheItem>,
    c: Map<i64, DebuggerCacheItem>,
    lo: int,
    mid: int,
    hi: int,
)
    requires
        lo <= mid <= hi,
        grows_within(a, b, lo, mid),
        grows_within(b, c, mid, hi),
    ensures
        grows_within(a, c, lo, hi),
{
    assert forall|k: i64| #[trigger] c.contains_key(k) implies a.contains_key(k) || lo <= k < hi by {
        if b.contains_key(k) {
            assert(a.contains_key(k) || lo <= k < mid);
        }
    }
}

/// Identifiers are handed out in strictly increasing order: each one is
/// larger than every identifier cached before it, and two successive
/// allocations give identifiers that differ by at least one.
pub proof fn lemma_ids_strictly_increase(
    c1: DebuggerCache,
    c2: DebuggerCache,
    c3: DebuggerCache,
    r1: int,
    r2: int,
)
    requires
        c1.wf(),
        allocated(c1, c2, r1),
        allocated(c2, c3, r2),
    ensures
        r2 >= r1 + 1,
        forall|k: i64| c1.entries().contains_key(k) ==> k < r1,
        forall|k: i64| c2.entries().contains_key(k) ==> k < r2,
{
}

} // verus!
