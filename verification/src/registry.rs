//! Node registry — aggregation point for node definitions.

use vstd::prelude::*;

use crate::error::{error_text, NodeError};
use crate::kv::{unconsumed_pairs, with_warning, KvPairs, KvView, KvWarning, KvWarningKind, WarningView};
use crate::param::ParamMap;
use crate::schema::{
    rendered, renders_floats, schema_markdown, schema_view, FloatBits, FloatText, NodeGroup, NodeSchema,
};
use crate::text::{concat2, decimal, decimal_text, str_eq};
use crate::traits::{view_of, NodeDef};

verus! {

/// Aggregation point for node definitions from across the ecosystem.
///
/// Aggregating crates populate a registry and expose it for UI generation,
/// serialization, and RIAPI parsing. `D` is the definition handle, usually
/// `&'static dyn NodeDef<Instance = ...>`.
pub struct NodeRegistry<D> {
    nodes: Vec<D>,
}

/// Result of parsing a querystring through the registry.
pub struct KvResult<I> {
    /// Node instances created from consumed keys.
    pub instances: Vec<I>,
    /// Warnings from parsing (unrecognized keys, invalid values, etc.).
    pub warnings: Vec<KvWarning>,
}

/// The warning for an unconsumed querystring key.
pub open spec fn unrecognized_warning(key: Seq<char>) -> WarningView {
    WarningView { key, kind: KvWarningKind::UnrecognizedKey, message: "unrecognized key: "@ + key }
}

/// The warnings a finished parse reports: those the pairs collected, then one
/// unrecognized-key warning per unconsumed key, in order.
pub open spec fn final_warnings(v: KvView) -> Seq<WarningView> {
    v.warnings + unconsumed_pairs(v.entries).map_values(
        |p: (Seq<char>, Seq<char>)| unrecognized_warning(p.0),
    )
}

/// The warning recorded when a node definition fails while reading the
/// querystring.
pub open spec fn creation_warning(id: Seq<char>, e: NodeError) -> WarningView {
    WarningView {
        key: id,
        kind: KvWarningKind::InvalidValue,
        message: "error creating "@ + id + ": "@ + error_text(e),
    }
}

/// The instances among `results`, in order.
pub open spec fn created_instances<I>(results: Seq<Result<Option<I>, NodeError>>) -> Seq<I>
    decreases results.len(),
{
    if results.len() == 0 {
        Seq::empty()
    } else {
        let prev = created_instances(results.drop_last());
        match results.last() {
            Ok(Some(x)) => prev.push(x),
            _ => prev,
        }
    }
}

/// One definition's turn in a querystring parse: `d.from_kv` takes the
/// pairs from `before` to `after` with result `res`, and the next
/// definition reads `next`, which is `after` with the creation warning
/// added when `res` is an error.
pub open spec fn run_step<D: NodeDef>(
    d: D,
    before: KvView,
    after: KvView,
    res: Result<Option<D::Instance>, NodeError>,
    next: KvView,
) -> bool {
    &&& d.reads_kv(before, after, res)
    &&& next == match res {
        Err(e) => with_warning(after, creation_warning(d.spec_schema().id@, e)),
        _ => after,
    }
}

/// Whether `defs` read the pairs in turn: definition `i` reads `states[i]`,
/// leaves `afters[i]` and returns `results[i]`, and `states[i + 1]` is what
/// the next one reads.
pub open spec fn parse_run<D: NodeDef>(
    defs: Seq<D>,
    states: Seq<KvView>,
    afters: Seq<KvView>,
    results: Seq<Result<Option<D::Instance>, NodeError>>,
) -> bool {
    &&& states.len() == defs.len() + 1
    &&& afters.len() == defs.len()
    &&& results.len() == defs.len()
    &&& forall|i: int|
        0 <= i < defs.len() ==> #[trigger] run_step(defs[i], states[i], afters[i], results[i], states[i + 1])
}

/// Whether `d`'s schema has ID `id`.
pub open spec fn has_schema_id<D: NodeDef>(d: D, id: Seq<char>) -> bool {
    view_of(d).id == id
}

/// Whether some definition of `defs` has ID `id`.
pub open spec fn registered<D: NodeDef>(defs: Seq<D>, id: Seq<char>) -> bool {
    exists|i: int| 0 <= i < defs.len() && has_schema_id(#[trigger] defs[i], id)
}

/// The position of the first definition of `defs` with ID `id`.
pub open spec fn first_registered<D: NodeDef>(defs: Seq<D>, id: Seq<char>) -> int {
    choose|i: int|
        0 <= i < defs.len() && has_schema_id(#[trigger] defs[i], id) && forall|j: int|
            0 <= j < i ==> !has_schema_id(#[trigger] defs[j], id)
}

/// The definition that a lookup of `id` finds: the first one registered.
pub open spec fn lookup_id<D: NodeDef>(defs: Seq<D>, id: Seq<char>) -> Option<D> {
    if registered(defs, id) {
        Some(defs[first_registered(defs, id)])
    } else {
        None
    }
}

/// Whether `d`'s schema serializes under the JSON key `key`.
pub open spec fn has_json_key<D: NodeDef>(d: D, key: Seq<char>) -> bool {
    view_of(d).json_key == key
}

/// The first definition of `defs` that serializes under `key`.
pub open spec fn lookup_json_key<D: NodeDef>(defs: Seq<D>, key: Seq<char>) -> Option<D> {
    if exists|i: int| 0 <= i < defs.len() && has_json_key(#[trigger] defs[i], key) {
        Some(
            defs[choose|i: int|
                0 <= i < defs.len() && has_json_key(#[trigger] defs[i], key) && forall|j: int|
                    0 <= j < i ==> !has_json_key(#[trigger] defs[j], key)],
        )
    } else {
        None
    }
}

/// The definitions of `defs` in group `g`, in registration order.
pub open spec fn in_group<D: NodeDef>(defs: Seq<D>, g: NodeGroup) -> Seq<D>
    decreases defs.len(),
{
    if defs.len() == 0 {
        Seq::empty()
    } else if view_of(defs.last()).group == g {
        in_group(defs.drop_last(), g).push(defs.last())
    } else {
        in_group(defs.drop_last(), g)
    }
}

/// The definitions of `defs` that carry `tag`, in registration order.
pub open spec fn with_tag<D: NodeDef>(defs: Seq<D>, tag: Seq<char>) -> Seq<D>
    decreases defs.len(),
{
    if defs.len() == 0 {
        Seq::empty()
    } else if view_of(defs.last()).tags.contains(tag) {
        with_tag(defs.drop_last(), tag).push(defs.last())
    } else {
        with_tag(defs.drop_last(), tag)
    }
}

proof fn lemma_first_registered<D: NodeDef>(defs: Seq<D>, id: Seq<char>, i: int)
    requires
        0 <= i < defs.len(),
        has_schema_id(defs[i], id),
        forall|j: int| 0 <= j < i ==> !has_schema_id(#[trigger] defs[j], id),
    ensures
        registered(defs, id),
        first_registered(defs, id) == i,
        lookup_id(defs, id) == Some(defs[i]),
{
}

impl<D> NodeRegistry<D> {
    /// The registered definitions, in registration order.
    pub closed spec fn defs(&self) -> Seq<D> {
        self.nodes@
    }

    /// Create an empty registry.
    pub fn new() -> (r: Self)
        ensures
            r.defs() == Seq::<D>::empty(),
    {
        NodeRegistry { nodes: Vec::new() }
    }

    /// Register a single node definition.
    pub fn register(&mut self, def: D)
        ensures
            final(self).defs() == old(self).defs().push(def),
    {
        self.nodes.push(def);
    }

    /// All registered node definitions.
    pub fn all(&self) -> (r: &[D])
        ensures
            r@ == self.defs(),
    {
        self.nodes.as_slice()
    }
}

impl<D: Copy> NodeRegistry<D> {
    /// Register multiple node definitions at once, in order.
    pub fn register_all(&mut self, defs: &[D])
        ensures
            final(self).defs() == old(self).defs() + defs@,
    {
        let ghost pre = self.nodes@;
        let mut i: usize = 0;
        while i < defs.len()
            invariant
                i <= defs@.len(),
                self.nodes@ == pre + defs@.take(i as int),
            decreases defs@.len() - i,
        {
            self.nodes.push(defs[i]);
            proof {
                assert(defs@.take(i + 1) == defs@.take(i as int).push(defs@[i as int]));
                assert(pre + defs@.take(i + 1) == (pre + defs@.take(i as int)).push(defs@[i as int]));
            }
            i = i + 1;
        }
        proof {
            assert(defs@.take(defs@.len() as int) == defs@);
        }
    }
}

impl<D: NodeDef + Copy> NodeRegistry<D> {
    /// Look up a node definition by its ID (the first one registered with
    /// that ID).
    pub fn get(&self, id: &str) -> (r: Option<D>)
        ensures
            r == lookup_id(self.defs(), id@),
    {
        let mut i: usize = 0;
        while i < self.nodes.len()
            invariant
                i <= self.nodes@.len(),
                forall|j: int| 0 <= j < i ==> !has_schema_id(#[trigger] self.nodes@[j], id@),
            decreases self.nodes@.len() - i,
        {
            let d = self.nodes[i];
            if str_eq(d.schema().id, id) {
                proof {
                    lemma_first_registered(self.nodes@, id@, i as int);
                }
                return Some(d);
            }
            i = i + 1;
        }
        None
    }

    /// Look up a node definition by its JSON key (its ID when it has none).
    pub fn get_by_json_key(&self, key: &str) -> (r: Option<D>)
        ensures
            r == lookup_json_key(self.defs(), key@),
    {
        let mut i: usize = 0;
        while i < self.nodes.len()
            invariant
                i <= self.nodes@.len(),
                forall|j: int| 0 <= j < i ==> !has_json_key(#[trigger] self.nodes@[j], key@),
            decreases self.nodes@.len() - i,
        {
            let d = self.nodes[i];
            if str_eq(d.schema().effective_json_key(), key) {
                proof {
                    let defs = self.nodes@;
                    let c = choose|c: int|
                        0 <= c < defs.len() && has_json_key(#[trigger] defs[c], key@) && forall|j: int|
                            0 <= j < c ==> !has_json_key(#[trigger] defs[j], key@);
                    assert(has_json_key(defs[i as int], key@));
                    assert(c == i);
                }
                return Some(d);
            }
            i = i + 1;
        }
        None
    }

    /// All nodes in a particular group, in registration order.
    pub fn by_group(&self, group: NodeGroup) -> (r: Vec<D>)
        ensures
            r@ == in_group(self.defs(), group),
    {
        let mut out: Vec<D> = Vec::new();
        let mut i: usize = 0;
        proof {
            assert(self.nodes@.take(0) == Seq::<D>::empty());
        }
        while i < self.nodes.len()
            invariant
                i <= self.nodes@.len(),
                out@ == in_group(self.nodes@.take(i as int), group),
            decreases self.nodes@.len() - i,
        {
            let d = self.nodes[i];
            proof {
                assert(self.nodes@.take(i + 1).drop_last() == self.nodes@.take(i as int));
                assert(self.nodes@.take(i + 1).last() == d);
            }
            if d.schema().group == group {
                out.push(d);
            }
            i = i + 1;
        }
        proof {
            assert(self.nodes@.take(self.nodes@.len() as int) == self.nodes@);
        }
        out
    }

    /// All nodes that have a particular tag, in registration order.
    pub fn by_tag(&self, tag: &str) -> (r: Vec<D>)
        ensures
            r@ == with_tag(self.defs(), tag@),
    {
        let mut out: Vec<D> = Vec::new();
        let mut i: usize = 0;
        proof {
            assert(self.nodes@.take(0) == Seq::<D>::empty());
        }
        while i < self.nodes.len()
            invariant
                i <= self.nodes@.len(),
                out@ == with_tag(self.nodes@.take(i as int), tag@),
            decreases self.nodes@.len() - i,
        {
            let d = self.nodes[i];
            proof {
                assert(self.nodes@.take(i + 1).drop_last() == self.nodes@.take(i as int));
                assert(self.nodes@.take(i + 1).last() == d);
            }
            let s = d.schema();
            proof {
                crate::schema::lemma_has_tag_view(*s, tag@);
            }
            if s.has_tag(tag) {
                out.push(d);
            }
            i = i + 1;
        }
        proof {
            assert(self.nodes@.take(self.nodes@.len() as int) == self.nodes@);
        }
        out
    }

    /// Create a node instance by ID and parameter map. Fails with
    /// `UnknownNode(id)` when no node has that ID; otherwise hands the
    /// parameters to the first node with that ID.
    pub fn create(&self, id: &str, params: &ParamMap) -> (r: Result<D::Instance, NodeError>)
        ensures
            !registered(self.defs(), id@) ==> (r matches Err(NodeError::UnknownNode(s)) && s@
                == id@),
            registered(self.defs(), id@) ==> lookup_id(self.defs(), id@)->0.creates(params@, r),
    {
        match self.get(id) {
            Some(def) => def.create(params),
            None => Err(NodeError::UnknownNode(id.to_owned())),
        }
    }

    /// Parse a RIAPI querystring against all registered nodes.
    ///
    /// Each node definition, in registration order, reads the parsed pairs
    /// as the previous one left them; a definition that fails leaves a
    /// warning. The instances are those the definitions built, in order; the
    /// warnings are those the pairs collected followed by one per key that
    /// no node consumed.
    pub fn from_querystring(&self, qs: &str) -> (r: KvResult<D::Instance>)
        ensures
            exists|
                states: Seq<KvView>,
                afters: Seq<KvView>,
                results: Seq<Result<Option<D::Instance>, NodeError>>,
            |
                {
                    &&& #[trigger] parse_run(self.defs(), states, afters, results)
                    &&& states[0] == crate::kv::parse_querystring(qs@)
                    &&& r.instances@ == created_instances(results)
                    &&& r.warnings@.map_values(|w: KvWarning| w@) == final_warnings(
                        states.last(),
                    )
                },
    {
        let mut kv = KvPairs::from_querystring(qs);
        let mut instances: Vec<D::Instance> = Vec::new();
        let ghost mut states: Seq<KvView> = seq![kv@];
        let ghost mut afters: Seq<KvView> = Seq::empty();
        let ghost mut results: Seq<Result<Option<D::Instance>, NodeError>> = Seq::empty();
        let mut i: usize = 0;
        while i < self.nodes.len()
            invariant
                i <= self.nodes@.len(),
                states.len() == i + 1,
                afters.len() == i,
                results.len() == i,
                states[0] == crate::kv::parse_querystring(qs@),
                states[i as int] == kv@,
                forall|j: int|
                    0 <= j < i ==> #[trigger] run_step(
                        self.nodes@[j],
                        states[j],
                        afters[j],
                        results[j],
                        states[j + 1],
                    ),
                instances@ == created_instances(results),
            decreases self.nodes@.len() - i,
        {
            let def = self.nodes[i];
            let res = def.from_kv(&mut kv);
            let ghost after = kv@;
            let ghost earlier = results;
            proof {
                results = results.push(res);
                assert(results.drop_last() =~= earlier);
                afters = afters.push(after);
            }
            match res {
                Ok(Some(instance)) => instances.push(instance),
                Ok(None) => {},
                Err(e) => {
                    let id = def.schema().id;
                    let text = e.message();
                    let head = concat2("error creating ", id);
                    let head = crate::text::concat2_owned(head, ": ");
                    let message = crate::text::concat2_owned(head, text.as_str());
                    kv.warn(id, KvWarningKind::InvalidValue, message.as_str());
                    proof {
                        reveal_strlit("error creating ");
                        reveal_strlit(": ");
                        assert(message@ =~= "error creating "@ + id@ + ": "@ + error_text(e));
                    }
                },
            }
            proof {
                states = states.push(kv@);
                assert(run_step(self.nodes@[i as int], states[i as int], afters[i as int], results[i as int], states[i + 1]));
            }
            i = i + 1;
        }
        let r = Self::collect_result(&kv, instances);
        proof {
            assert(parse_run(self.defs(), states, afters, results));
        }
        r
    }

    /// The result of a finished parse: the given instances, and the warnings
    /// of `kv` followed by one unrecognized-key warning per unconsumed key.
    pub fn collect_result(kv: &KvPairs, instances: Vec<D::Instance>) -> (r: KvResult<D::Instance>)
        ensures
            r.instances@ == instances@,
            r.warnings@.map_values(|w: KvWarning| w@) == final_warnings(kv@),
    {
        let mut warnings: Vec<KvWarning> = Vec::new();
        let kw = kv.warnings();
        let mut i: usize = 0;
        while i < kw.len()
            invariant
                i <= kw@.len(),
                kw@.map_values(|w: KvWarning| w@) == kv@.warnings,
                warnings@.map_values(|w: KvWarning| w@) == kv@.warnings.take(i as int),
            decreases kw@.len() - i,
        {
            let w = kw[i].clone();
            let ghost before = warnings@;
            warnings.push(w);
            proof {
                assert(warnings@.map_values(|w: KvWarning| w@) =~= before.map_values(|w: KvWarning| w@).push(
                    kw@[i as int]@,
                ));
                assert(kv@.warnings.take(i + 1) =~= kv@.warnings.take(i as int).push(kw@[i as int]@));
            }
            i = i + 1;
        }
        let unconsumed = kv.unconsumed();
        let ghost tail = unconsumed_pairs(kv@.entries).map_values(
            |p: (Seq<char>, Seq<char>)| unrecognized_warning(p.0),
        );
        proof {
            assert(kv@.warnings.take(kv@.warnings.len() as int) == kv@.warnings);
            assert(tail.take(0) == Seq::<WarningView>::empty());
        }
        let mut j: usize = 0;
        while j < unconsumed.len()
            invariant
                j <= unconsumed@.len(),
                unconsumed@.map_values(|p: (&str, &str)| (p.0@, p.1@)) == unconsumed_pairs(kv@.entries),
                tail == unconsumed_pairs(kv@.entries).map_values(
                    |p: (Seq<char>, Seq<char>)| unrecognized_warning(p.0),
                ),
                warnings@.map_values(|w: KvWarning| w@) == kv@.warnings + tail.take(j as int),
            decreases unconsumed@.len() - j,
        {
            let (key, _value) = unconsumed[j];
            let message = concat2("unrecognized key: ", key);
            let w = KvWarning { key: key.to_owned(), kind: KvWarningKind::UnrecognizedKey, message };
            let ghost before = warnings@;
            warnings.push(w);
            proof {
                assert(unconsumed@.map_values(|p: (&str, &str)| (p.0@, p.1@))[j as int] == (
                    key@,
                    _value@,
                ));
                assert(tail[j as int] == unrecognized_warning(key@));
                assert(warnings@.map_values(|w: KvWarning| w@) =~= before.map_values(|w: KvWarning| w@).push(
                    w@,
                ));
                assert(tail.take(j + 1) =~= tail.take(j as int).push(tail[j as int]));
            }
            j = j + 1;
        }
        proof {
            assert(tail.take(tail.len() as int) == tail);
        }
        KvResult { instances, warnings }
    }
}

/// The Markdown of the schemas `ss`, one after the other.
pub open spec fn schemas_markdown(ss: Seq<NodeSchema>, ft: FloatText) -> Seq<char>
    decreases ss.len(),
{
    if ss.len() == 0 {
        Seq::empty()
    } else {
        schemas_markdown(ss.drop_last(), ft) + schema_markdown(ss.last(), ft)
    }
}

/// The schemas of `defs`, in order.
pub open spec fn full_schemas<D: NodeDef>(defs: Seq<D>) -> Seq<NodeSchema> {
    defs.map_values(|d: D| d.spec_schema())
}

/// The Markdown reference of a registry whose definitions return the
/// schemas `ss`.
pub open spec fn registry_markdown(ss: Seq<NodeSchema>, ft: FloatText) -> Seq<char> {
    "# Node Reference\n\n"@ + decimal(ss.len()) + " nodes registered.\n\n"@ + schemas_markdown(ss, ft)
}

impl<D: NodeDef + Copy> NodeRegistry<D> {
    /// Render all registered nodes as a Markdown reference document. Floats
    /// are written by `render` (see [`NodeSchema::to_markdown`]).
    pub fn to_markdown<R: Fn(FloatBits, bool) -> String>(&self, render: &R) -> (r: String)
        requires
            renders_floats(*render),
        ensures
            r@ == registry_markdown(
                full_schemas(self.defs()),
                (|b: FloatBits, d: bool| rendered(*render, b, d)),
            ),
    {
        let ghost ft = |b: FloatBits, d: bool| rendered(*render, b, d);
        let mut md = String::from_str("# Node Reference\n\n");
        let count = decimal_text(self.nodes.len() as u64);
        md.append(count.as_str());
        md.append(" nodes registered.\n\n");
        let ghost header = md@;
        let ghost mut ss: Seq<NodeSchema> = Seq::empty();
        let mut i: usize = 0;
        while i < self.nodes.len()
            invariant
                i <= self.nodes@.len(),
                renders_floats(*render),
                ft == (|b: FloatBits, d: bool| rendered(*render, b, d)),
                ss.len() == i,
                ss =~= full_schemas(self.nodes@).take(i as int),
                md@ == header + schemas_markdown(ss, ft),
            decreases self.nodes@.len() - i,
        {
            let s = self.nodes[i].schema();
            let text = s.to_markdown(render);
            md.append(text.as_str());
            proof {
                let prev = ss;
                ss = ss.push(*s);
                assert(ss.drop_last() =~= prev);
            }
            i = i + 1;
        }
        proof {
            assert(ss =~= full_schemas(self.nodes@));
            assert(md@ =~= registry_markdown(ss, ft));
        }
        md
    }
}

impl<D> Default for NodeRegistry<D> {
    fn default() -> (r: Self)
        ensures
            r.defs() == Seq::<D>::empty(),
    {
        Self::new()
    }
}

// ───────────────────────── Laws ─────────────────────────

/// Registering a definition makes a lookup of its ID find it, unless a
/// definition with that ID was registered before (the first one wins);
/// lookups of other IDs are unchanged.
pub proof fn lookup_after_register<D: NodeDef>(defs: Seq<D>, d: D, id: Seq<char>)
    ensures
        lookup_id(defs.push(d), id) == if registered(defs, id) {
            lookup_id(defs, id)
        } else if has_schema_id(d, id) {
            Some(d)
        } else {
            None::<D>
        },
{
    let post = defs.push(d);
    if registered(defs, id) {
        let i0 = choose|i: int| 0 <= i < defs.len() && has_schema_id(#[trigger] defs[i], id);
        lemma_first_registered_exists(defs, id, i0);
        let i = first_registered(defs, id);
        assert(post[i] == defs[i]);
        assert(forall|j: int| 0 <= j < i ==> #[trigger] post[j] == defs[j]);
        lemma_first_registered(post, id, i);
    } else if has_schema_id(d, id) {
        assert(forall|j: int| 0 <= j < defs.len() ==> #[trigger] post[j] == defs[j]);
        lemma_first_registered(post, id, defs.len() as int);
    } else {
        assert(!registered(post, id)) by {
            if registered(post, id) {
                let j = choose|j: int| 0 <= j < post.len() && has_schema_id(#[trigger] post[j], id);
                assert(j < defs.len());
                assert(post[j] == defs[j]);
            }
        }
    }
}

/// A node written under its definition's JSON key is read back through a
/// definition with that key: the lookup finds one, the first registered
/// with that key, which is the writer itself unless an earlier definition
/// shares its key.
pub proof fn json_key_lookup_finds_writer<D: NodeDef>(defs: Seq<D>, i: int)
    requires
        0 <= i < defs.len(),
    ensures
        lookup_json_key(defs, view_of(defs[i]).json_key) matches Some(d) && has_json_key(
            d,
            view_of(defs[i]).json_key,
        ),
        (forall|j: int| 0 <= j < i ==> !has_json_key(#[trigger] defs[j], view_of(defs[i]).json_key))
            ==> lookup_json_key(defs, view_of(defs[i]).json_key) == Some(defs[i]),
{
    let key = view_of(defs[i]).json_key;
    assert(has_json_key(defs[i], key));
    let k = choose|k: int|
        0 <= k < defs.len() && has_json_key(#[trigger] defs[k], key) && forall|j: int|
            0 <= j < k ==> !has_json_key(#[trigger] defs[j], key);
    lemma_first_json_key_exists(defs, key, i);
    if forall|j: int| 0 <= j < i ==> !has_json_key(#[trigger] defs[j], key) {
        if k != i {
            if k < i {
                assert(!has_json_key(defs[k], key));
            } else {
                assert(!has_json_key(defs[i], key));
            }
        }
    }
}

/// When some definition has JSON key `key`, one is first.
proof fn lemma_first_json_key_exists<D: NodeDef>(defs: Seq<D>, key: Seq<char>, i: int)
    requires
        0 <= i < defs.len(),
        has_json_key(defs[i], key),
    ensures
        exists|k: int|
            0 <= k <= i && has_json_key(#[trigger] defs[k], key) && forall|j: int|
                0 <= j < k ==> !has_json_key(#[trigger] defs[j], key),
    decreases i,
{
    if exists|j: int| 0 <= j < i && has_json_key(#[trigger] defs[j], key) {
        let j = choose|j: int| 0 <= j < i && has_json_key(#[trigger] defs[j], key);
        lemma_first_json_key_exists(defs, key, j);
    } else {
        assert(forall|j: int| 0 <= j < i ==> !has_json_key(#[trigger] defs[j], key));
    }
}

/// When `id` is registered, `first_registered` names its first definition.
proof fn lemma_first_registered_exists<D: NodeDef>(defs: Seq<D>, id: Seq<char>, i: int)
    requires
        0 <= i < defs.len(),
        has_schema_id(defs[i], id),
    ensures
        0 <= first_registered(defs, id) <= i,
        has_schema_id(defs[first_registered(defs, id)], id),
        forall|j: int| 0 <= j < first_registered(defs, id) ==> !has_schema_id(#[trigger] defs[j], id),
    decreases i,
{
    if exists|j: int| 0 <= j < i && has_schema_id(#[trigger] defs[j], id) {
        let j = choose|j: int| 0 <= j < i && has_schema_id(#[trigger] defs[j], id);
        lemma_first_registered_exists(defs, id, j);
    } else {
        lemma_first_registered(defs, id, i);
    }
}

/// A group query returns exactly the definitions in that group: every one
/// it returns is in the group, and every registered definition in the group
/// is among them.
pub proof fn group_query_is_exact<D: NodeDef>(defs: Seq<D>, g: NodeGroup)
    ensures
        forall|i: int|
            0 <= i < in_group(defs, g).len() ==> view_of(#[trigger] in_group(defs, g)[i]).group == g,
        forall|i: int|
            0 <= i < defs.len() && view_of(#[trigger] defs[i]).group == g ==> in_group(defs, g).contains(
                defs[i],
            ),
    decreases defs.len(),
{
    if defs.len() > 0 {
        let prev = defs.drop_last();
        group_query_is_exact(prev, g);
        let r = in_group(defs, g);
        let rp = in_group(prev, g);
        assert forall|i: int| 0 <= i < defs.len() && view_of(#[trigger] defs[i]).group == g implies r.contains(
            defs[i],
        ) by {
            if i < prev.len() {
                assert(prev[i] == defs[i]);
                let k = choose|k: int| 0 <= k < rp.len() && rp[k] == prev[i];
                assert(r[k] == rp[k]);
            } else {
                assert(r[r.len() - 1] == defs[i]);
            }
        }
    }
}

/// A tag query returns exactly the definitions that carry the tag.
pub proof fn tag_query_is_exact<D: NodeDef>(defs: Seq<D>, tag: Seq<char>)
    ensures
        forall|i: int|
            0 <= i < with_tag(defs, tag).len() ==> view_of(#[trigger] with_tag(defs, tag)[i]).tags.contains(
                tag,
            ),
        forall|i: int|
            0 <= i < defs.len() && view_of(#[trigger] defs[i]).tags.contains(tag) ==> with_tag(
                defs,
                tag,
            ).contains(defs[i]),
    decreases defs.len(),
{
    if defs.len() > 0 {
        let prev = defs.drop_last();
        tag_query_is_exact(prev, tag);
        let r = with_tag(defs, tag);
        let rp = with_tag(prev, tag);
        assert forall|i: int| 0 <= i < defs.len() && view_of(#[trigger] defs[i]).tags.contains(
            tag,
        ) implies r.contains(defs[i]) by {
            if i < prev.len() {
                assert(prev[i] == defs[i]);
                let k = choose|k: int| 0 <= k < rp.len() && rp[k] == prev[i];
                assert(r[k] == rp[k]);
            } else {
                assert(r[r.len() - 1] == defs[i]);
            }
        }
    }
}

} // verus!
