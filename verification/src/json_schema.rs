//! What the JSON Schema documents of a registry are built from: the flat
//! list of every RIAPI querystring key that a registered node handles.

use vstd::prelude::*;

use crate::registry::{full_schemas, NodeRegistry};
use crate::schema::{NodeSchema, ParamDesc, ParamKind};
use crate::text::str_eq;
use crate::traits::NodeDef;

verus! {

/// A single RIAPI querystring key with its metadata.
#[derive(Clone, Copy, Debug)]
pub struct QsKey {
    /// The querystring key (e.g., "w", "jpeg.quality").
    pub key: &'static str,
    /// The node ID that consumes this key.
    pub node_id: &'static str,
    /// The node label.
    pub node_label: &'static str,
    /// The parameter name on the node.
    pub param_name: &'static str,
    /// The parameter label.
    pub param_label: &'static str,
    /// The parameter description.
    pub param_description: &'static str,
    /// Type, range and default of the parameter's value.
    pub value_kind: ParamKind,
    /// Whether this key is an alias (not the primary key for this param).
    pub is_alias: bool,
    /// The primary key of the parameter (its first key).
    pub primary_key: &'static str,
}

/// The keys of parameter `p` of schema `s`, primary key first.
pub open spec fn param_qs_keys(s: NodeSchema, p: ParamDesc) -> Seq<QsKey> {
    Seq::new(
        p.kv_keys@.len(),
        |k: int|
            QsKey {
                key: p.kv_keys@[k],
                node_id: s.id,
                node_label: s.label,
                param_name: p.name,
                param_label: p.label,
                param_description: p.description,
                value_kind: p.kind,
                is_alias: k > 0,
                primary_key: p.kv_keys@[0],
            },
    )
}

/// The keys of the first `n` parameters of `s`, in order.
pub open spec fn schema_qs_keys(s: NodeSchema, n: int) -> Seq<QsKey>
    decreases n,
{
    if n <= 0 {
        Seq::empty()
    } else {
        schema_qs_keys(s, n - 1) + param_qs_keys(s, s.params@[n - 1])
    }
}

/// The keys of the first `n` schemas of `ss`, in order.
pub open spec fn schemas_qs_keys(ss: Seq<NodeSchema>, n: int) -> Seq<QsKey>
    decreases n,
{
    if n <= 0 {
        Seq::empty()
    } else {
        schemas_qs_keys(ss, n - 1) + schema_qs_keys(ss[n - 1], ss[n - 1].params@.len() as int)
    }
}

/// The schemas that the references `rs` point to.
pub open spec fn derefs(rs: Seq<&'static NodeSchema>) -> Seq<NodeSchema> {
    rs.map_values(|s: &'static NodeSchema| *s)
}

/// Every querystring key of `schemas`: schema by schema, parameter by
/// parameter, each parameter's keys in order with the first as primary and
/// the others marked as its aliases.
pub fn querystring_keys(schemas: &[&'static NodeSchema]) -> (r: Vec<QsKey>)
    ensures
        r@ == schemas_qs_keys(derefs(schemas@), schemas@.len() as int),
{
    let mut r: Vec<QsKey> = Vec::new();
    let mut i: usize = 0;
    while i < schemas.len()
        invariant
            i <= schemas@.len(),
            r@ == schemas_qs_keys(derefs(schemas@), i as int),
        decreases schemas@.len() - i,
    {
        let s: &'static NodeSchema = schemas[i];
        let ghost base = r@;
        let mut j: usize = 0;
        while j < s.params.len()
            invariant
                i < schemas@.len(),
                s == schemas@[i as int],
                j <= s.params@.len(),
                r@ == base + schema_qs_keys(*s, j as int),
            decreases s.params@.len() - j,
        {
            let p: &'static ParamDesc = &s.params[j];
            let ghost before = r@;
            let mut k: usize = 0;
            while k < p.kv_keys.len()
                invariant
                    j < s.params@.len(),
                    *p == s.params@[j as int],
                    k <= p.kv_keys@.len(),
                    r@ == before + param_qs_keys(*s, *p).take(k as int),
                decreases p.kv_keys@.len() - k,
            {
                r.push(
                    QsKey {
                        key: p.kv_keys[k],
                        node_id: s.id,
                        node_label: s.label,
                        param_name: p.name,
                        param_label: p.label,
                        param_description: p.description,
                        value_kind: p.kind,
                        is_alias: k > 0,
                        primary_key: p.kv_keys[0],
                    },
                );
                proof {
                    assert(param_qs_keys(*s, *p).take(k + 1) =~= param_qs_keys(*s, *p).take(
                        k as int,
                    ).push(param_qs_keys(*s, *p)[k as int]));
                }
                k = k + 1;
            }
            proof {
                assert(param_qs_keys(*s, *p).take(k as int) =~= param_qs_keys(*s, *p));
                assert(schema_qs_keys(*s, j + 1) == schema_qs_keys(*s, j as int) + param_qs_keys(
                    *s,
                    s.params@[j as int],
                ));
                assert(r@ =~= base + schema_qs_keys(*s, j + 1));
            }
            j = j + 1;
        }
        i = i + 1;
    }
    r
}

/// Every querystring key that a node registered in `registry` handles, in
/// registration order (see [`querystring_keys`]), read from the schemas that
/// the definitions hand out.
pub fn registry_querystring_keys<D: NodeDef + Copy>(registry: &NodeRegistry<D>) -> (r: Vec<QsKey>)
    ensures
        r@ == schemas_qs_keys(full_schemas(registry.defs()), registry.defs().len() as int),
{
    let defs = registry.all();
    let mut schemas: Vec<&'static NodeSchema> = Vec::new();
    let mut i: usize = 0;
    while i < defs.len()
        invariant
            i <= defs@.len(),
            defs@ == registry.defs(),
            derefs(schemas@) =~= full_schemas(defs@).take(i as int),
        decreases defs@.len() - i,
    {
        let s = defs[i].schema();
        let ghost before = schemas@;
        schemas.push(s);
        proof {
            assert(derefs(schemas@) =~= derefs(before).push(*s));
            assert(full_schemas(defs@).take(i + 1) =~= full_schemas(defs@).take(i as int).push(
                defs@[i as int].spec_schema(),
            ));
        }
        i = i + 1;
    }
    proof {
        assert(derefs(schemas@) =~= full_schemas(defs@));
    }
    querystring_keys(schemas.as_slice())
}

// ─── Keys grouped by node ───

/// A parameter's primary querystring key with what it maps to and its
/// aliases.
#[derive(Clone, Debug)]
pub struct KeyEntry {
    /// The primary key.
    pub key: &'static str,
    /// The parameter name.
    pub param: &'static str,
    /// The parameter label.
    pub label: &'static str,
    /// The parameter description.
    pub description: &'static str,
    /// Type, range and default of the parameter's value.
    pub value_kind: ParamKind,
    /// The parameter's other keys, in order.
    pub aliases: Vec<&'static str>,
}

/// The querystring keys of one node.
#[derive(Clone, Debug)]
pub struct NodeKeys {
    /// The node ID.
    pub node_id: &'static str,
    /// The node label.
    pub node_label: &'static str,
    /// One entry per parameter with keys, in parameter order.
    pub keys: Vec<KeyEntry>,
}

/// The distinct node IDs of `ks`, in order of first appearance.
pub open spec fn node_ids(ks: Seq<QsKey>) -> Seq<Seq<char>>
    decreases ks.len(),
{
    if ks.len() == 0 {
        Seq::empty()
    } else {
        let prev = node_ids(ks.drop_last());
        if prev.contains(ks.last().node_id@) {
            prev
        } else {
            prev.push(ks.last().node_id@)
        }
    }
}

/// The first key of `ks` that node `node` owns.
pub open spec fn first_of_node(ks: Seq<QsKey>, node: Seq<char>) -> QsKey
    decreases ks.len(),
{
    if ks.len() == 0 {
        vstd::pervasive::arbitrary()
    } else if node_ids(ks.drop_last()).contains(node) {
        first_of_node(ks.drop_last(), node)
    } else {
        ks.last()
    }
}

/// The primary keys of node `node` in `ks`, in order.
pub open spec fn primaries_of(ks: Seq<QsKey>, node: Seq<char>) -> Seq<QsKey>
    decreases ks.len(),
{
    if ks.len() == 0 {
        Seq::empty()
    } else {
        let prev = primaries_of(ks.drop_last(), node);
        if !ks.last().is_alias && ks.last().node_id@ == node {
            prev.push(ks.last())
        } else {
            prev
        }
    }
}

/// The alias keys of parameter `param` of node `node` in `ks`, in order.
pub open spec fn aliases_of(ks: Seq<QsKey>, node: Seq<char>, param: Seq<char>) -> Seq<&'static str>
    decreases ks.len(),
{
    if ks.len() == 0 {
        Seq::empty()
    } else {
        let prev = aliases_of(ks.drop_last(), node, param);
        let k = ks.last();
        if k.is_alias && k.node_id@ == node && k.param_name@ == param {
            prev.push(k.key)
        } else {
            prev
        }
    }
}

/// Whether `e` is the entry of primary key `k` among the keys `ks`.
pub open spec fn entry_of(ks: Seq<QsKey>, k: QsKey, e: KeyEntry) -> bool {
    &&& e.key == k.key
    &&& e.param == k.param_name
    &&& e.label == k.param_label
    &&& e.description == k.param_description
    &&& e.value_kind == k.value_kind
    &&& e.aliases@ == aliases_of(ks, k.node_id@, k.param_name@)
}

/// Whether `g` groups the keys of node `node` among `ks`: labelled by the
/// node's first key, one entry per primary key in order.
pub open spec fn group_of(ks: Seq<QsKey>, node: Seq<char>, g: NodeKeys) -> bool {
    &&& g.node_id@ == node
    &&& g.node_label == first_of_node(ks, node).node_label
    &&& g.keys@.len() == primaries_of(ks, node).len()
    &&& forall|j: int|
        0 <= j < g.keys@.len() ==> entry_of(ks, primaries_of(ks, node)[j], #[trigger] g.keys@[j])
}

proof fn lemma_node_ids_grow(ks: Seq<QsKey>, a: int, b: int, node: Seq<char>)
    requires
        0 <= a <= b <= ks.len(),
        node_ids(ks.take(a)).contains(node),
    ensures
        node_ids(ks.take(b)).contains(node),
    decreases b - a,
{
    if a < b {
        lemma_node_ids_grow(ks, a, b - 1, node);
        let s = ks.take(b);
        assert(s.drop_last() =~= ks.take(b - 1));
        let prev = node_ids(s.drop_last());
        let i = choose|i: int| 0 <= i < prev.len() && prev[i] == node;
        if !prev.contains(s.last().node_id@) {
            assert(prev.push(s.last().node_id@)[i] == node);
        }
    }
}

proof fn lemma_first_of_node(ks: Seq<QsKey>, t: int, m: int)
    requires
        0 <= t < m <= ks.len(),
        !node_ids(ks.take(t)).contains(ks[t].node_id@),
    ensures
        first_of_node(ks.take(m), ks[t].node_id@) == ks[t],
    decreases m - t,
{
    let node = ks[t].node_id@;
    assert(ks.take(m).drop_last() =~= ks.take(m - 1));
    if m > t + 1 {
        lemma_first_of_node(ks, t, m - 1);
        let s = ks.take(t + 1);
        assert(s.drop_last() =~= ks.take(t));
        assert(s.last() == ks[t]);
        let prev = node_ids(ks.take(t));
        assert(prev.push(node)[prev.len() as int] == node);
        assert(node_ids(ks.take(t + 1)).contains(node));
        lemma_node_ids_grow(ks, t + 1, m - 1, node);
    }
}

/// The alias keys of parameter `param` of node `node` among `ks`.
fn aliases_for(ks: &Vec<QsKey>, node: &str, param: &str) -> (r: Vec<&'static str>)
    ensures
        r@ == aliases_of(ks@, node@, param@),
{
    let mut r: Vec<&'static str> = Vec::new();
    let mut u: usize = 0;
    while u < ks.len()
        invariant
            u <= ks@.len(),
            r@ == aliases_of(ks@.take(u as int), node@, param@),
        decreases ks@.len() - u,
    {
        let k = ks[u];
        proof {
            assert(ks@.take(u + 1).drop_last() =~= ks@.take(u as int));
        }
        if k.is_alias && str_eq(k.node_id, node) && str_eq(k.param_name, param) {
            r.push(k.key);
        }
        u = u + 1;
    }
    proof {
        assert(ks@.take(u as int) =~= ks@);
    }
    r
}

/// The group of the node that owns key `t`, the node's first key.
fn group_at(ks: &Vec<QsKey>, t: usize) -> (g: NodeKeys)
    requires
        t < ks@.len(),
        !node_ids(ks@.take(t as int)).contains(ks@[t as int].node_id@),
    ensures
        group_of(ks@, ks@[t as int].node_id@, g),
{
    let first = ks[t];
    let node = first.node_id;
    let mut keys: Vec<KeyEntry> = Vec::new();
    let mut u: usize = 0;
    while u < ks.len()
        invariant
            u <= ks@.len(),
            node == ks@[t as int].node_id,
            keys@.len() == primaries_of(ks@.take(u as int), node@).len(),
            forall|j: int|
                0 <= j < keys@.len() ==> entry_of(
                    ks@,
                    primaries_of(ks@.take(u as int), node@)[j],
                    #[trigger] keys@[j],
                ),
        decreases ks@.len() - u,
    {
        let k = ks[u];
        let ghost before = keys@;
        proof {
            assert(ks@.take(u + 1).drop_last() =~= ks@.take(u as int));
            assert(ks@.take(u + 1).last() == k);
        }
        if !k.is_alias && str_eq(k.node_id, node) {
            let aliases = aliases_for(ks, k.node_id, k.param_name);
            keys.push(
                KeyEntry {
                    key: k.key,
                    param: k.param_name,
                    label: k.param_label,
                    description: k.param_description,
                    value_kind: k.value_kind,
                    aliases,
                },
            );
            proof {
                assert forall|j: int| 0 <= j < keys@.len() implies entry_of(
                    ks@,
                    primaries_of(ks@.take(u + 1), node@)[j],
                    #[trigger] keys@[j],
                ) by {
                    if j < before.len() {
                        assert(keys@[j] == before[j]);
                    }
                }
            }
        }
        u = u + 1;
    }
    proof {
        assert(ks@.take(u as int) =~= ks@);
        lemma_first_of_node(ks@, t as int, ks@.len() as int);
    }
    NodeKeys { node_id: node, node_label: first.node_label, keys }
}

/// The keys `ks` grouped by node, nodes in order of first appearance: each
/// node labelled by its first key, with one entry per primary key (in
/// order) listing the aliases that follow it.
pub fn querystring_key_groups(ks: &Vec<QsKey>) -> (r: Vec<NodeKeys>)
    ensures
        r@.len() == node_ids(ks@).len(),
        forall|i: int| 0 <= i < r@.len() ==> group_of(ks@, node_ids(ks@)[i], #[trigger] r@[i]),
{
    let mut r: Vec<NodeKeys> = Vec::new();
    let mut t: usize = 0;
    while t < ks.len()
        invariant
            t <= ks@.len(),
            r@.len() == node_ids(ks@.take(t as int)).len(),
            forall|i: int|
                0 <= i < r@.len() ==> group_of(ks@, node_ids(ks@.take(t as int))[i], #[trigger] r@[i]),
        decreases ks@.len() - t,
    {
        let k = ks[t];
        let ghost prev_ids = node_ids(ks@.take(t as int));
        proof {
            assert(ks@.take(t + 1).drop_last() =~= ks@.take(t as int));
            assert(ks@.take(t + 1).last() == k);
        }
        let mut seen = false;
        let mut g: usize = 0;
        while g < r.len()
            invariant
                g <= r@.len(),
                r@.len() == prev_ids.len(),
                forall|i: int| 0 <= i < r@.len() ==> group_of(ks@, prev_ids[i], #[trigger] r@[i]),
                seen == exists|i: int| 0 <= i < g && prev_ids[i] == k.node_id@,
            decreases r@.len() - g,
        {
            proof {
                assert(group_of(ks@, prev_ids[g as int], r@[g as int]));
            }
            if str_eq(r[g].node_id, k.node_id) {
                seen = true;
            }
            g = g + 1;
        }
        proof {
            if prev_ids.contains(k.node_id@) {
                let i = choose|i: int| 0 <= i < prev_ids.len() && prev_ids[i] == k.node_id@;
                assert(seen);
            }
        }
        if !seen {
            let ghost before = r@;
            let grp = group_at(ks, t);
            r.push(grp);
            proof {
                assert forall|i: int| 0 <= i < r@.len() implies group_of(
                    ks@,
                    node_ids(ks@.take(t + 1))[i],
                    #[trigger] r@[i],
                ) by {
                    if i < before.len() {
                        assert(r@[i] == before[i]);
                    }
                }
            }
        }
        t = t + 1;
    }
    proof {
        assert(ks@.take(t as int) =~= ks@);
    }
    r
}

} // verus!
