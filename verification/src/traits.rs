//! The node definition trait implemented by every node type.

use vstd::prelude::*;

use crate::error::NodeError;
use crate::kv::{KvPairs, KvView};
use crate::param::{ParamMap, ParamValue};
use crate::schema::{schema_view, NodeSchema, SchemaView};

verus! {

/// A node definition: the static schema of one node type and the factory
/// for its instances. The derive macro implements it for a unit struct per
/// node type; a registry holds definitions of many types.
pub trait NodeDef {
    /// What `create` and `from_kv` build (a live, parameterized node).
    type Instance;

    /// The schema of this node type. A verified definition states it; the
    /// default states nothing, so that nothing is known of a definition that
    /// does not.
    closed spec fn spec_schema(&self) -> NodeSchema {
        vstd::pervasive::arbitrary()
    }

    /// The static schema of this node type; the same schema on every call.
    fn schema(&self) -> (s: &'static NodeSchema)
        ensures
            *s == self.spec_schema(),
    ;

    /// Whether `r` is what `create` returns for a parameter map with contents
    /// `params`. A verified definition states it; the default states nothing.
    closed spec fn creates(
        &self,
        params: Map<String, ParamValue>,
        r: Result<Self::Instance, NodeError>,
    ) -> bool {
        vstd::pervasive::arbitrary()
    }

    /// Whether `from_kv` may take the pairs from state `before` to `after`
    /// returning `r`. A verified definition states it; the default states
    /// nothing.
    closed spec fn reads_kv(
        &self,
        before: KvView,
        after: KvView,
        r: Result<Option<Self::Instance>, NodeError>,
    ) -> bool {
        vstd::pervasive::arbitrary()
    }

    /// Create an instance from explicit parameters; parameters that the node
    /// does not know are ignored.
    fn create(&self, params: &ParamMap) -> (r: Result<Self::Instance, NodeError>)
        ensures
            self.creates(params@, r),
    ;

    /// Create an instance with every parameter at its default: what `create`
    /// returns for an empty parameter map.
    fn create_default(&self) -> (r: Result<Self::Instance, NodeError>)
        ensures
            self.creates(Map::empty(), r),
    {
        self.create(&ParamMap::new())
    }

    /// Claim this node's keys from a querystring. `Ok(None)` when none of
    /// its keys is present.
    fn from_kv(&self, kv: &mut KvPairs) -> (r: Result<Option<Self::Instance>, NodeError>)
        ensures
            self.reads_kv(old(kv)@, final(kv)@, r),
    ;
}

impl<'a, T: NodeDef + ?Sized> NodeDef for &'a T {
    type Instance = T::Instance;

    open spec fn spec_schema(&self) -> NodeSchema {
        (**self).spec_schema()
    }

    open spec fn creates(
        &self,
        params: Map<String, ParamValue>,
        r: Result<Self::Instance, NodeError>,
    ) -> bool {
        (**self).creates(params, r)
    }

    open spec fn reads_kv(
        &self,
        before: KvView,
        after: KvView,
        r: Result<Option<Self::Instance>, NodeError>,
    ) -> bool {
        (**self).reads_kv(before, after, r)
    }

    fn schema(&self) -> (s: &'static NodeSchema) {
        (**self).schema()
    }

    fn create(&self, params: &ParamMap) -> Result<Self::Instance, NodeError> {
        (**self).create(params)
    }

    fn create_default(&self) -> Result<Self::Instance, NodeError> {
        (**self).create_default()
    }

    fn from_kv(&self, kv: &mut KvPairs) -> Result<Option<Self::Instance>, NodeError> {
        (**self).from_kv(kv)
    }
}

/// What the schema of definition `d` says of it: ID, group, role, tags and
/// JSON key.
pub open spec fn view_of<D: NodeDef>(d: D) -> SchemaView {
    schema_view(d.spec_schema())
}

} // verus!
