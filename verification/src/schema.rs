//! Static schema types for node definitions.
//!
//! All types here use `&'static` references: schemas are built once with
//! zero heap allocation. Float-valued metadata (ranges, defaults, colors) is
//! held as the IEEE-754 binary32 bit pattern of the value, in [`FloatBits`].

use vstd::prelude::*;

use crate::error::NodeError;
use crate::format::FormatHint;
use crate::ordering::{CoalesceInfo, NodeRole};
use crate::kv::{all_digits, decimal_value, parsed_i32, parsed_u32, strip_plus};
use crate::text::{
    append_joined, chars_of, decimal, digit_char, decimal_text, join, push_char, signed_decimal, signed_decimal_text,
    str_eq,
};

verus! {

/// A 32-bit float held by its IEEE-754 binary32 bit pattern.
#[derive(Clone, Copy, Debug, PartialEq, Eq, Structural)]
pub struct FloatBits(pub u32);

/// Complete static schema for one node type.
pub struct NodeSchema {
    /// Permanent fully-qualified identifier: `"crate.operation"`.
    pub id: &'static str,
    /// Human-readable label for UI (e.g., `"Exposure"`).
    pub label: &'static str,
    /// One-line description for tooltips.
    pub description: &'static str,
    /// UI grouping category.
    pub group: NodeGroup,
    /// What role this node plays in the pipeline.
    pub role: NodeRole,
    /// Parameter descriptors in display order.
    pub params: &'static [ParamDesc],
    /// Discovery/filter tags (e.g., `["basic", "tone"]`).
    pub tags: &'static [&'static str],
    /// Coalescing/fusion info. `None` means not fusable.
    pub coalesce: Option<CoalesceInfo>,
    /// Pixel format preferences.
    pub format: FormatHint,
    /// Schema version (monotonically increasing per node ID).
    pub version: u32,
    /// Oldest version this schema can deserialize from.
    pub compat_version: u32,
    /// JSON key for whole-node serialization. Empty means use the `id`.
    pub json_key: &'static str,
    /// Whether to reject unknown fields during JSON deserialization.
    pub deny_unknown_fields: bool,
}

/// What a registry reads of a schema: its ID, group, role, tags and the JSON
/// key it serializes under.
pub struct SchemaView {
    pub id: Seq<char>,
    pub group: NodeGroup,
    pub role: NodeRole,
    pub tags: Seq<Seq<char>>,
    pub json_key: Seq<char>,
}

/// The [`SchemaView`] of a schema.
pub open spec fn schema_view(s: NodeSchema) -> SchemaView {
    SchemaView {
        id: s.id@,
        group: s.group,
        role: s.role,
        tags: s.tags@.map_values(|t: &'static str| t@),
        json_key: json_key_of(s),
    }
}

/// The JSON key a schema serializes under: `json_key` unless it is empty,
/// else the `id`.
pub open spec fn json_key_of(s: NodeSchema) -> Seq<char> {
    if s.json_key@.len() == 0 {
        s.id@
    } else {
        s.json_key@
    }
}

/// Whether `tag` is one of `tags`.
pub open spec fn has_tag(tags: Seq<&'static str>, tag: Seq<char>) -> bool {
    exists|i: int| 0 <= i < tags.len() && (#[trigger] tags[i])@ == tag
}

/// A schema has a tag exactly when its view lists it.
pub proof fn lemma_has_tag_view(s: NodeSchema, tag: Seq<char>)
    ensures
        has_tag(s.tags@, tag) == schema_view(s).tags.contains(tag),
{
    let tv = schema_view(s).tags;
    if has_tag(s.tags@, tag) {
        let i = choose|i: int| 0 <= i < s.tags@.len() && (#[trigger] s.tags@[i])@ == tag;
        assert(tv[i] == tag);
    }
    if tv.contains(tag) {
        let i = choose|i: int| 0 <= i < tv.len() && tv[i] == tag;
        assert(s.tags@[i]@ == tag);
    }
}

impl NodeSchema {
    /// Backwards-compatible accessor for [`role`](Self::role).
    pub fn phase(&self) -> (r: NodeRole)
        ensures
            r == self.role,
    {
        self.role
    }

    /// Effective JSON key for whole-node serialization: `json_key` if
    /// non-empty, otherwise `id`.
    pub fn effective_json_key(&self) -> (r: &'static str)
        ensures
            r@ == json_key_of(*self),
    {
        if self.json_key.is_empty() {
            self.id
        } else {
            self.json_key
        }
    }

    /// Whether `tag` is one of this schema's tags.
    pub fn has_tag(&self, tag: &str) -> (r: bool)
        ensures
            r == has_tag(self.tags@, tag@),
    {
        let mut i: usize = 0;
        while i < self.tags.len()
            invariant
                i <= self.tags@.len(),
                forall|j: int| 0 <= j < i ==> (#[trigger] self.tags@[j])@ != tag@,
            decreases self.tags@.len() - i,
        {
            if str_eq(self.tags[i], tag) {
                return true;
            }
            i = i + 1;
        }
        false
    }

    /// The first JSON field name in `keys` that no parameter of this schema
    /// accepts, as the error that whole-node deserialization reports when
    /// `deny_unknown_fields` is set; `Ok` when every key is accepted.
    pub fn check_json_fields(&self, keys: &[String]) -> (r: Result<(), NodeError>)
        ensures
            match r {
                Ok(()) => forall|i: int|
                    0 <= i < keys@.len() ==> accepts_json_key(self.params@, #[trigger] keys@[i]@),
                Err(e) => exists|i: int|
                    0 <= i < keys@.len() && !accepts_json_key(self.params@, #[trigger] keys@[i]@)
                        && (forall|j: int|
                        0 <= j < i ==> accepts_json_key(self.params@, #[trigger] keys@[j]@))
                        && e == NodeError::UnknownParam { node: self.id, param: keys@[i] },
            },
    {
        let mut i: usize = 0;
        while i < keys.len()
            invariant
                i <= keys@.len(),
                forall|j: int| 0 <= j < i ==> accepts_json_key(self.params@, #[trigger] keys@[j]@),
            decreases keys@.len() - i,
        {
            let mut known = false;
            let mut p: usize = 0;
            while p < self.params.len()
                invariant
                    p <= self.params@.len(),
                    i < keys@.len(),
                    known == exists|t: int|
                        0 <= t < p && json_key_matches(#[trigger] self.params@[t], keys@[i as int]@),
                decreases self.params@.len() - p,
            {
                if self.params[p].matches_json_key(keys[i].as_str()) {
                    known = true;
                }
                p = p + 1;
            }
            proof {
                assert(known == accepts_json_key(self.params@, keys@[i as int]@));
            }
            if !known {
                return Err(NodeError::UnknownParam { node: self.id, param: keys[i].clone() });
            }
            i = i + 1;
        }
        Ok(())
    }
}

/// A single parameter descriptor.
pub struct ParamDesc {
    /// Machine name — matches the Rust struct field name.
    pub name: &'static str,
    /// Human-readable label for UI.
    pub label: &'static str,
    /// Description for tooltips.
    pub description: &'static str,
    /// Type, range, and default.
    pub kind: ParamKind,
    /// Display unit (`"stops"`, `"°"`, `"×"`, `"%"`, `"px"`, `""`).
    pub unit: &'static str,
    /// UI sub-section (`"Main"`, `"Advanced"`, `"Masking"`).
    pub section: &'static str,
    /// How to map a UI slider position to this parameter's value.
    pub slider: SliderMapping,
    /// RIAPI querystring keys that map to this parameter.
    pub kv_keys: &'static [&'static str],
    /// Schema version that introduced this parameter.
    pub since_version: u32,
    /// Conditional visibility expression: `"param_name=value"` or `""`.
    pub visible_when: &'static str,
    /// Whether this parameter can be explicitly absent (`ParamValue::Unset`).
    pub optional: bool,
    /// JSON field name override. Empty string means use [`name`](Self::name).
    pub json_name: &'static str,
    /// Additional JSON field names accepted during deserialization.
    pub json_aliases: &'static [&'static str],
}

/// The JSON field name of a parameter: `json_name` unless it is empty,
/// else `name`.
pub open spec fn json_name_of(p: ParamDesc) -> Seq<char> {
    if p.json_name@.len() == 0 {
        p.name@
    } else {
        p.json_name@
    }
}

/// Whether the JSON field `key` names parameter `p`: its effective JSON
/// name, its machine name, or one of its aliases.
pub open spec fn json_key_matches(p: ParamDesc, key: Seq<char>) -> bool {
    key == json_name_of(p) || key == p.name@ || exists|i: int|
        0 <= i < p.json_aliases@.len() && (#[trigger] p.json_aliases@[i])@ == key
}

/// Whether some parameter of `params` accepts the JSON field `key`.
pub open spec fn accepts_json_key(params: Seq<ParamDesc>, key: Seq<char>) -> bool {
    exists|t: int| 0 <= t < params.len() && json_key_matches(#[trigger] params[t], key)
}

/// The JSON fields under which a parameter's value is looked up, in order:
/// its effective JSON name, then its machine name where that differs, then
/// its aliases.
pub open spec fn json_lookup_order(p: ParamDesc) -> Seq<Seq<char>> {
    let own = if p.name@ != json_name_of(p) {
        seq![json_name_of(p), p.name@]
    } else {
        seq![json_name_of(p)]
    };
    own + p.json_aliases@.map_values(|a: &'static str| a@)
}

/// The JSON field a parameter is written under is the first one it is read
/// from, and it names the parameter.
pub proof fn written_json_name_is_read_first(p: ParamDesc)
    ensures
        json_lookup_order(p)[0] == json_name_of(p),
        json_key_matches(p, json_name_of(p)),
{
}

impl ParamDesc {
    /// The JSON fields under which this parameter's value is looked up when
    /// a node is read from JSON, in the order they are tried.
    pub fn json_lookup_keys(&self) -> (r: Vec<&'static str>)
        ensures
            r@.map_values(|k: &'static str| k@) == json_lookup_order(*self),
    {
        let eff = self.effective_json_name();
        let mut r: Vec<&'static str> = Vec::new();
        r.push(eff);
        if !str_eq(eff, self.name) {
            r.push(self.name);
        }
        let ghost own = r@.map_values(|k: &'static str| k@);
        proof {
            assert(own + self.json_aliases@.take(0).map_values(|a: &'static str| a@) =~= own);
        }
        let mut i: usize = 0;
        while i < self.json_aliases.len()
            invariant
                i <= self.json_aliases@.len(),
                r@.map_values(|k: &'static str| k@) == own + self.json_aliases@.take(
                    i as int,
                ).map_values(|a: &'static str| a@),
            decreases self.json_aliases@.len() - i,
        {
            let ghost before = r@;
            let a = self.json_aliases[i];
            r.push(a);
            proof {
                let done = self.json_aliases@.take(i as int);
                assert(self.json_aliases@.take(i + 1) =~= done.push(a));
                assert(done.push(a).map_values(|x: &'static str| x@) =~= done.map_values(
                    |x: &'static str| x@,
                ).push(a@));
                assert(r@.map_values(|k: &'static str| k@) =~= before.map_values(
                    |k: &'static str| k@,
                ).push(a@));
            }
            i = i + 1;
        }
        proof {
            assert(self.json_aliases@.take(i as int) =~= self.json_aliases@);
            assert(own =~= (if self.name@ != json_name_of(*self) {
                seq![json_name_of(*self), self.name@]
            } else {
                seq![json_name_of(*self)]
            }));
        }
        r
    }

    /// Effective JSON field name: `json_name` if non-empty, else `name`.
    pub fn effective_json_name(&self) -> (r: &'static str)
        ensures
            r@ == json_name_of(*self),
    {
        if self.json_name.is_empty() {
            self.name
        } else {
            self.json_name
        }
    }

    /// Whether a given JSON key matches this parameter (by name or alias).
    pub fn matches_json_key(&self, key: &str) -> (r: bool)
        ensures
            r == json_key_matches(*self, key@),
    {
        let eff = self.effective_json_name();
        if str_eq(key, eff) || str_eq(key, self.name) {
            return true;
        }
        let mut i: usize = 0;
        while i < self.json_aliases.len()
            invariant
                i <= self.json_aliases@.len(),
                key@ != json_name_of(*self),
                key@ != self.name@,
                forall|j: int| 0 <= j < i ==> (#[trigger] self.json_aliases@[j])@ != key@,
            decreases self.json_aliases@.len() - i,
        {
            if str_eq(self.json_aliases[i], key) {
                return true;
            }
            i = i + 1;
        }
        false
    }
}

/// Parameter type, range, and default value.
#[non_exhaustive]
#[derive(Clone, Copy, Debug, PartialEq)]
pub enum ParamKind {
    /// Continuous float parameter.
    Float {
        min: FloatBits,
        max: FloatBits,
        default: FloatBits,
        /// Value at which the parameter has no effect.
        identity: FloatBits,
        /// Suggested UI step increment.
        step: FloatBits,
    },
    /// Signed integer parameter.
    Int { min: i32, max: i32, default: i32 },
    /// Unsigned integer parameter.
    U32 { min: u32, max: u32, default: u32 },
    /// Boolean toggle.
    Bool { default: bool },
    /// Free-form string.
    Str { default: &'static str },
    /// Enumeration of named variants.
    Enum { variants: &'static [EnumVariant], default: &'static str },
    /// Fixed-size float array (e.g., HSL per-hue weights).
    FloatArray {
        len: usize,
        min: FloatBits,
        max: FloatBits,
        default: FloatBits,
        /// Per-element labels (e.g., `["Red", "Orange", ...]`).
        labels: &'static [&'static str],
    },
    /// RGBA color.
    Color { default: [FloatBits; 4] },
    /// Opaque JSON structure described by an inline JSON Schema fragment.
    Json {
        /// JSON Schema 2020-12 fragment as a JSON string.
        json_schema: &'static str,
        /// Default value as a JSON string. Empty string means no default.
        default_json: &'static str,
    },
}

/// An enum variant descriptor.
#[derive(Clone, Debug, PartialEq)]
pub struct EnumVariant {
    /// Machine name (snake_case, used for serialization).
    pub name: &'static str,
    /// Human-readable label.
    pub label: &'static str,
    /// Short description.
    pub description: &'static str,
}

/// How a parameter maps to a UI slider.
#[non_exhaustive]
#[derive(Clone, Copy, Debug, PartialEq, Eq, Structural)]
pub enum SliderMapping {
    /// Direct 1:1 mapping.
    Linear,
    /// `param = slider²` — first half of slider range is more sensitive.
    SquareFromSlider,
    /// Slider 0–1 maps to param 0–2, with center (0.5) = identity (1.0).
    FactorCentered,
    /// Logarithmic mapping for large ranges.
    Logarithmic,
    /// Not suitable for a single slider (arrays, curves, enums).
    NotSlider,
}

/// Node group for UI categorization.
#[non_exhaustive]
#[derive(Clone, Copy, Debug, PartialEq, Eq, Hash, Structural)]
pub enum NodeGroup {
    Decode,
    Encode,
    Tone,
    ToneRange,
    ToneMap,
    Color,
    Detail,
    Effects,
    Geometry,
    Layout,
    Canvas,
    Composite,
    Quantize,
    Analysis,
    Hdr,
    Raw,
    Auto,
    Other,
}

// ───────────────────────── Markdown ─────────────────────────

/// The `Debug` name of a group.
pub open spec fn group_name(g: NodeGroup) -> Seq<char> {
    match g {
        NodeGroup::Decode => "Decode"@,
        NodeGroup::Encode => "Encode"@,
        NodeGroup::Tone => "Tone"@,
        NodeGroup::ToneRange => "ToneRange"@,
        NodeGroup::ToneMap => "ToneMap"@,
        NodeGroup::Color => "Color"@,
        NodeGroup::Detail => "Detail"@,
        NodeGroup::Effects => "Effects"@,
        NodeGroup::Geometry => "Geometry"@,
        NodeGroup::Layout => "Layout"@,
        NodeGroup::Canvas => "Canvas"@,
        NodeGroup::Composite => "Composite"@,
        NodeGroup::Quantize => "Quantize"@,
        NodeGroup::Analysis => "Analysis"@,
        NodeGroup::Hdr => "Hdr"@,
        NodeGroup::Raw => "Raw"@,
        NodeGroup::Auto => "Auto"@,
        NodeGroup::Other => "Other"@,
    }
}

/// The `Debug` name of a role.
pub open spec fn role_name(r: NodeRole) -> Seq<char> {
    match r {
        NodeRole::Decode => "Decode"@,
        NodeRole::Geometry => "Geometry"@,
        NodeRole::Orient => "Orient"@,
        NodeRole::Resize => "Resize"@,
        NodeRole::Filter => "Filter"@,
        NodeRole::Composite => "Composite"@,
        NodeRole::Analysis => "Analysis"@,
        NodeRole::Quantize => "Quantize"@,
        NodeRole::Encode => "Encode"@,
    }
}

/// `s` with each newline replaced by a space.
pub open spec fn one_line(s: Seq<char>) -> Seq<char> {
    s.map_values(|c: char| if c == '\n' { ' ' } else { c })
}

/// The text of a float as the renderer gives it; `debug` selects the
/// `Debug` form (`1.0`) over the `Display` form (`1`).
pub type FloatText = spec_fn(FloatBits, bool) -> Seq<char>;

/// Type, default and range cells of a parameter's table row.
pub open spec fn kind_cells(k: ParamKind, ft: FloatText) -> (Seq<char>, Seq<char>, Seq<char>) {
    match k {
        ParamKind::Float { min, max, default, .. } => (
            "f32"@,
            ft(default, false),
            ft(min, false) + ".."@ + ft(max, false),
        ),
        ParamKind::Int { min, max, default } => (
            "i32"@,
            signed_decimal(default as int),
            signed_decimal(min as int) + ".."@ + signed_decimal(max as int),
        ),
        ParamKind::U32 { min, max, default } => (
            "u32"@,
            decimal(default as nat),
            decimal(min as nat) + ".."@ + decimal(max as nat),
        ),
        ParamKind::Bool { default } => (
            "bool"@,
            if default {
                "true"@
            } else {
                "false"@
            },
            Seq::empty(),
        ),
        ParamKind::Str { default } => ("string"@, "\""@ + default@ + "\""@, Seq::empty()),
        ParamKind::Enum { variants, default } => (
            "enum"@,
            "\""@ + default@ + "\""@,
            join(variants@.map_values(|v: EnumVariant| v.name@), " \\| "@),
        ),
        ParamKind::FloatArray { len, min, max, default, .. } => (
            "f32[]"@,
            "["@ + ft(default, false) + "; "@ + decimal(len as nat) + "]"@,
            ft(min, false) + ".."@ + ft(max, false),
        ),
        ParamKind::Color { default } => (
            "color"@,
            "["@ + ft(default[0], true) + ", "@ + ft(default[1], true) + ", "@ + ft(default[2], true)
                + ", "@ + ft(default[3], true) + "]"@,
            Seq::empty(),
        ),
        ParamKind::Json { .. } => ("json"@, "(complex)"@, Seq::empty()),
    }
}

/// The KV-keys cell of a parameter's table row.
pub open spec fn keys_cell(keys: Seq<&'static str>) -> Seq<char> {
    if keys.len() == 0 {
        "—"@
    } else {
        join(keys.map_values(|k: &'static str| "`"@ + k@ + "`"@), ", "@)
    }
}

/// One table row of a parameter.
pub open spec fn param_row(p: ParamDesc, ft: FloatText) -> Seq<char> {
    let (ty, default, range) = kind_cells(p.kind, ft);
    "| `"@ + p.name@ + "` | "@ + ty + " | "@ + default + " | "@ + range + " | "@ + keys_cell(p.kv_keys@)
        + " | "@ + one_line(p.description@) + " |\n"@
}

/// The concatenated rows of `params`.
pub open spec fn param_rows(params: Seq<ParamDesc>, ft: FloatText) -> Seq<char>
    decreases params.len(),
{
    if params.len() == 0 {
        Seq::empty()
    } else {
        param_rows(params.drop_last(), ft) + param_row(params.last(), ft)
    }
}

/// Markdown documentation of a schema.
pub open spec fn schema_markdown(s: NodeSchema, ft: FloatText) -> Seq<char> {
    let head = "### `"@ + s.id@ + "`\n\n"@;
    let desc = if s.description@.len() == 0 {
        Seq::empty()
    } else {
        s.description@ + "\n\n"@
    };
    let meta = "**Group:** "@ + group_name(s.group) + " | **Role:** "@ + role_name(s.role);
    let tags = if s.tags@.len() == 0 {
        Seq::empty()
    } else {
        " | **Tags:** "@ + join(s.tags@.map_values(|t: &'static str| t@), ", "@)
    };
    let table = if s.params@.len() == 0 {
        Seq::empty()
    } else {
        "| Parameter | Type | Default | Range | KV Keys | Description |\n"@
            + "|-----------|------|---------|-------|---------|-------------|\n"@ + param_rows(s.params@, ft)
            + "\n"@
    };
    head + desc + meta + tags + "\n\n"@ + table
}

/// The text `render` returns for a float.
pub open spec fn rendered<R: Fn(FloatBits, bool) -> String>(render: R, b: FloatBits, debug: bool) -> Seq<char> {
    (choose|s: String| render.ensures((b, debug), s))@
}

/// Whether `render` can be called on every float and returns one text per
/// float and form.
pub open spec fn renders_floats<R: Fn(FloatBits, bool) -> String>(render: R) -> bool {
    &&& forall|b: FloatBits, d: bool| #[trigger] render.requires((b, d))
    &&& forall|b: FloatBits, d: bool, s1: String, s2: String|
        render.ensures((b, d), s1) && render.ensures((b, d), s2) ==> s1@ == s2@
}

/// The `Debug` name of a group.
fn group_text(g: NodeGroup) -> (r: &'static str)
    ensures
        r@ == group_name(g),
{
    match g {
        NodeGroup::Decode => "Decode",
        NodeGroup::Encode => "Encode",
        NodeGroup::Tone => "Tone",
        NodeGroup::ToneRange => "ToneRange",
        NodeGroup::ToneMap => "ToneMap",
        NodeGroup::Color => "Color",
        NodeGroup::Detail => "Detail",
        NodeGroup::Effects => "Effects",
        NodeGroup::Geometry => "Geometry",
        NodeGroup::Layout => "Layout",
        NodeGroup::Canvas => "Canvas",
        NodeGroup::Composite => "Composite",
        NodeGroup::Quantize => "Quantize",
        NodeGroup::Analysis => "Analysis",
        NodeGroup::Hdr => "Hdr",
        NodeGroup::Raw => "Raw",
        NodeGroup::Auto => "Auto",
        NodeGroup::Other => "Other",
    }
}

/// The `Debug` name of a role.
fn role_text(r: NodeRole) -> (t: &'static str)
    ensures
        t@ == role_name(r),
{
    match r {
        NodeRole::Decode => "Decode",
        NodeRole::Geometry => "Geometry",
        NodeRole::Orient => "Orient",
        NodeRole::Resize => "Resize",
        NodeRole::Filter => "Filter",
        NodeRole::Composite => "Composite",
        NodeRole::Analysis => "Analysis",
        NodeRole::Quantize => "Quantize",
        NodeRole::Encode => "Encode",
    }
}

/// Calls the renderer.
fn render_float<R: Fn(FloatBits, bool) -> String>(render: &R, b: FloatBits, debug: bool) -> (r: String)
    requires
        renders_floats(*render),
    ensures
        r@ == rendered(*render, b, debug),
{
    assert(render.requires((b, debug)));
    let s = render(b, debug);
    s
}

/// Appends `s` with newlines replaced by spaces.
fn append_one_line(out: &mut String, s: &str)
    ensures
        final(out)@ == old(out)@ + one_line(s@),
{
    let cs = chars_of(s);
    let ghost start = out@;
    let mut i: usize = 0;
    proof {
        assert(one_line(cs@.take(0)) =~= Seq::<char>::empty());
    }
    while i < cs.len()
        invariant
            i <= cs@.len(),
            cs@ == s@,
            out@ == start + one_line(cs@.take(i as int)),
        decreases cs@.len() - i,
    {
        let c = cs[i];
        if c == '\n' {
            push_char(out, ' ');
        } else {
            push_char(out, c);
        }
        proof {
            assert(one_line(cs@.take(i + 1)) =~= one_line(cs@.take(i as int)).push(
                if c == '\n' { ' ' } else { c },
            ));
        }
        i = i + 1;
    }
    proof {
        assert(cs@.take(cs@.len() as int) == cs@);
    }
}

/// The heading, description and metadata lines of a schema's Markdown.
pub open spec fn markdown_head(s: NodeSchema) -> Seq<char> {
    let head = "### `"@ + s.id@ + "`\n\n"@;
    let desc = if s.description@.len() == 0 {
        Seq::empty()
    } else {
        s.description@ + "\n\n"@
    };
    let meta = "**Group:** "@ + group_name(s.group) + " | **Role:** "@ + role_name(s.role);
    let tags = if s.tags@.len() == 0 {
        Seq::empty()
    } else {
        " | **Tags:** "@ + join(s.tags@.map_values(|t: &'static str| t@), ", "@)
    };
    head + desc + meta + tags + "\n\n"@
}

/// The parameter table of a schema's Markdown (empty without parameters).
pub open spec fn markdown_table(s: NodeSchema, ft: FloatText) -> Seq<char> {
    if s.params@.len() == 0 {
        Seq::empty()
    } else {
        "| Parameter | Type | Default | Range | KV Keys | Description |\n"@
            + "|-----------|------|---------|-------|---------|-------------|\n"@ + param_rows(s.params@, ft)
            + "\n"@
    }
}

proof fn lemma_schema_markdown_parts(s: NodeSchema, ft: FloatText)
    ensures
        schema_markdown(s, ft) == markdown_head(s) + markdown_table(s, ft),
{
    assert(schema_markdown(s, ft) =~= markdown_head(s) + markdown_table(s, ft));
}

impl NodeSchema {
    /// Appends the heading, description and metadata lines.
    #[verifier::rlimit(40)]
    fn append_markdown_head(&self, md: &mut String)
        ensures
            final(md)@ == old(md)@ + markdown_head(*self),
    {
        let ghost start = md@;
        md.append("### `");
        md.append(self.id);
        md.append("`\n\n");
        if !self.description.is_empty() {
            md.append(self.description);
            md.append("\n\n");
        }
        md.append("**Group:** ");
        md.append(group_text(self.group));
        md.append(" | **Role:** ");
        md.append(role_text(self.role));
        if self.tags.len() > 0 {
            md.append(" | **Tags:** ");
            let mut tags: Vec<String> = Vec::new();
            let mut i: usize = 0;
            while i < self.tags.len()
                invariant
                    i <= self.tags@.len(),
                    tags@.len() == i,
                    forall|j: int| 0 <= j < i ==> (#[trigger] tags@[j])@ == self.tags@[j]@,
                decreases self.tags@.len() - i,
            {
                tags.push(self.tags[i].to_owned());
                i = i + 1;
            }
            proof {
                assert(tags@.map_values(|p: String| p@) =~= self.tags@.map_values(|t: &'static str| t@));
            }
            append_joined(md, &tags, ", ");
        }
        md.append("\n\n");
        proof {
            reveal_strlit("");
            assert(md@ =~= start + markdown_head(*self));
        }
    }

    /// Appends the parameter table.
    fn append_markdown_table<R: Fn(FloatBits, bool) -> String>(&self, md: &mut String, render: &R)
        requires
            renders_floats(*render),
        ensures
            final(md)@ == old(md)@ + markdown_table(*self, |b: FloatBits, d: bool| rendered(*render, b, d)),
    {
        let ghost ft = |b: FloatBits, d: bool| rendered(*render, b, d);
        let ghost start = md@;
        if self.params.len() > 0 {
            md.append("| Parameter | Type | Default | Range | KV Keys | Description |\n");
            md.append("|-----------|------|---------|-------|---------|-------------|\n");
            let ghost before_rows = md@;
            let mut i: usize = 0;
            proof {
                assert(self.params@.take(0) =~= Seq::<ParamDesc>::empty());
                assert(before_rows + param_rows(self.params@.take(0), ft) =~= before_rows);
            }
            while i < self.params.len()
                invariant
                    i <= self.params@.len(),
                    renders_floats(*render),
                    ft == (|b: FloatBits, d: bool| rendered(*render, b, d)),
                    md@ == before_rows + param_rows(self.params@.take(i as int), ft),
                decreases self.params@.len() - i,
            {
                append_param_row(md, &self.params[i], render);
                proof {
                    assert(self.params@.take(i + 1).drop_last() =~= self.params@.take(i as int));
                    assert(md@ =~= before_rows + param_rows(self.params@.take(i + 1), ft));
                }
                i = i + 1;
            }
            proof {
                assert(self.params@.take(self.params@.len() as int) =~= self.params@);
            }
            md.append("\n");
            proof {
                assert(md@ =~= start + markdown_table(*self, ft));
            }
        } else {
            proof {
                assert(md@ =~= start + markdown_table(*self, ft));
            }
        }
    }

    /// Render this schema as Markdown documentation. Floats are written by
    /// `render` (the `Display` form, or the `Debug` form when asked).
    pub fn to_markdown<R: Fn(FloatBits, bool) -> String>(&self, render: &R) -> (r: String)
        requires
            renders_floats(*render),
        ensures
            r@ == schema_markdown(*self, |b: FloatBits, d: bool| rendered(*render, b, d)),
    {
        let mut md = String::new();
        self.append_markdown_head(&mut md);
        self.append_markdown_table(&mut md, render);
        proof {
            lemma_schema_markdown_parts(*self, |b: FloatBits, d: bool| rendered(*render, b, d));
            assert(md@ =~= schema_markdown(*self, |b: FloatBits, d: bool| rendered(*render, b, d)));
        }
        md
    }
}

/// Appends the table row of `p`.
fn append_param_row<R: Fn(FloatBits, bool) -> String>(out: &mut String, p: &ParamDesc, render: &R)
    requires
        renders_floats(*render),
    ensures
        final(out)@ == old(out)@ + param_row(*p, |b: FloatBits, d: bool| rendered(*render, b, d)),
{
    let ghost ft = |b: FloatBits, d: bool| rendered(*render, b, d);
    let ghost start = out@;
    out.append("| `");
    out.append(p.name);
    out.append("` | ");
    let ghost after_name = out@;
    append_kind_cells(out, &p.kind, render);
    let ghost after_cells = out@;
    out.append(" | ");
    if p.kv_keys.len() == 0 {
        out.append("—");
    } else {
        let mut keys: Vec<String> = Vec::new();
        let mut i: usize = 0;
        while i < p.kv_keys.len()
            invariant
                i <= p.kv_keys@.len(),
                keys@.len() == i,
                forall|j: int| 0 <= j < i ==> (#[trigger] keys@[j])@ == "`"@ + p.kv_keys@[j]@ + "`"@,
            decreases p.kv_keys@.len() - i,
        {
            let mut k = String::from_str("`");
            k.append(p.kv_keys[i]);
            k.append("`");
            keys.push(k);
            i = i + 1;
        }
        proof {
            assert(keys@.map_values(|q: String| q@) =~= p.kv_keys@.map_values(
                |k: &'static str| "`"@ + k@ + "`"@,
            ));
        }
        append_joined(out, &keys, ", ");
    }
    out.append(" | ");
    append_one_line(out, p.description);
    out.append(" |\n");
    proof {
        let (ty, default, range) = kind_cells(p.kind, ft);
        assert(after_cells == after_name + ty + " | "@ + default + " | "@ + range);
        assert(out@ =~= start + param_row(*p, ft));
    }
}

/// Appends the type, default and range cells of a parameter kind,
/// separated by ` | `.
fn append_kind_cells<R: Fn(FloatBits, bool) -> String>(out: &mut String, k: &ParamKind, render: &R)
    requires
        renders_floats(*render),
    ensures
        ({
            let (ty, default, range) = kind_cells(*k, |b: FloatBits, d: bool| rendered(*render, b, d));
            final(out)@ == old(out)@ + ty + " | "@ + default + " | "@ + range
        }),
{
    let ghost start = out@;
    match k {
        ParamKind::Float { min, max, default, .. } => {
            out.append("f32 | ");
            let d = render_float(render, *default, false);
            out.append(d.as_str());
            out.append(" | ");
            let lo = render_float(render, *min, false);
            out.append(lo.as_str());
            out.append("..");
            let hi = render_float(render, *max, false);
            out.append(hi.as_str());
            proof {
                reveal_strlit("f32 | ");
                reveal_strlit("f32");
                reveal_strlit(" | ");
                assert("f32 | "@ =~= "f32"@ + " | "@);
            }
        },
        ParamKind::Int { min, max, default } => {
            out.append("i32 | ");
            let d = signed_decimal_text(*default as i64);
            out.append(d.as_str());
            out.append(" | ");
            let lo = signed_decimal_text(*min as i64);
            out.append(lo.as_str());
            out.append("..");
            let hi = signed_decimal_text(*max as i64);
            out.append(hi.as_str());
            proof {
                reveal_strlit("i32 | ");
                reveal_strlit("i32");
                reveal_strlit(" | ");
                assert("i32 | "@ =~= "i32"@ + " | "@);
            }
        },
        ParamKind::U32 { min, max, default } => {
            out.append("u32 | ");
            let d = decimal_text(*default as u64);
            out.append(d.as_str());
            out.append(" | ");
            let lo = decimal_text(*min as u64);
            out.append(lo.as_str());
            out.append("..");
            let hi = decimal_text(*max as u64);
            out.append(hi.as_str());
            proof {
                reveal_strlit("u32 | ");
                reveal_strlit("u32");
                reveal_strlit(" | ");
                assert("u32 | "@ =~= "u32"@ + " | "@);
            }
        },
        ParamKind::Bool { default } => {
            out.append("bool | ");
            if *default {
                out.append("true");
            } else {
                out.append("false");
            }
            out.append(" | ");
            proof {
                reveal_strlit("bool | ");
                reveal_strlit("bool");
                reveal_strlit(" | ");
                assert("bool | "@ =~= "bool"@ + " | "@);
            }
        },
        ParamKind::Str { default } => {
            out.append("string | \"");
            out.append(default);
            out.append("\" | ");
            proof {
                reveal_strlit("string | \"");
                reveal_strlit("string");
                reveal_strlit(" | ");
                reveal_strlit("\"");
                reveal_strlit("\" | ");
                assert("string | \""@ =~= "string"@ + " | "@ + "\""@);
                assert("\" | "@ =~= "\""@ + " | "@);
            }
        },
        ParamKind::Enum { variants, default } => {
            out.append("enum | \"");
            out.append(default);
            out.append("\" | ");
            let mut names: Vec<String> = Vec::new();
            let mut i: usize = 0;
            while i < variants.len()
                invariant
                    i <= variants@.len(),
                    names@.len() == i,
                    forall|j: int| 0 <= j < i ==> (#[trigger] names@[j])@ == variants@[j].name@,
                decreases variants@.len() - i,
            {
                names.push(variants[i].name.to_owned());
                i = i + 1;
            }
            proof {
                assert(names@.map_values(|q: String| q@) =~= variants@.map_values(
                    |v: EnumVariant| v.name@,
                ));
            }
            append_joined(out, &names, " \\| ");
            proof {
                reveal_strlit("enum | \"");
                reveal_strlit("enum");
                reveal_strlit(" | ");
                reveal_strlit("\"");
                reveal_strlit("\" | ");
                assert("enum | \""@ =~= "enum"@ + " | "@ + "\""@);
                assert("\" | "@ =~= "\""@ + " | "@);
            }
        },
        ParamKind::FloatArray { len, min, max, default, .. } => {
            out.append("f32[] | [");
            let d = render_float(render, *default, false);
            out.append(d.as_str());
            out.append("; ");
            let n = decimal_text(*len as u64);
            out.append(n.as_str());
            out.append("] | ");
            let lo = render_float(render, *min, false);
            out.append(lo.as_str());
            out.append("..");
            let hi = render_float(render, *max, false);
            out.append(hi.as_str());
            proof {
                reveal_strlit("f32[] | [");
                reveal_strlit("f32[]");
                reveal_strlit(" | ");
                reveal_strlit("[");
                reveal_strlit("] | ");
                reveal_strlit("]");
                assert("f32[] | ["@ =~= "f32[]"@ + " | "@ + "["@);
                assert("] | "@ =~= "]"@ + " | "@);
            }
        },
        ParamKind::Color { default } => {
            out.append("color | [");
            let c0 = render_float(render, default[0], true);
            out.append(c0.as_str());
            out.append(", ");
            let c1 = render_float(render, default[1], true);
            out.append(c1.as_str());
            out.append(", ");
            let c2 = render_float(render, default[2], true);
            out.append(c2.as_str());
            out.append(", ");
            let c3 = render_float(render, default[3], true);
            out.append(c3.as_str());
            out.append("] | ");
            proof {
                reveal_strlit("color | [");
                reveal_strlit("color");
                reveal_strlit(" | ");
                reveal_strlit("[");
                reveal_strlit("] | ");
                reveal_strlit("]");
                assert("color | ["@ =~= "color"@ + " | "@ + "["@);
                assert("] | "@ =~= "]"@ + " | "@);
            }
        },
        ParamKind::Json { .. } => {
            out.append("json | (complex) | ");
            proof {
                reveal_strlit("json | (complex) | ");
                reveal_strlit("json");
                reveal_strlit(" | ");
                reveal_strlit("(complex)");
                assert("json | (complex) | "@ =~= "json"@ + " | "@ + "(complex)"@ + " | "@);
            }
        },
    }
    proof {
        let (ty, default, range) = kind_cells(*k, |b: FloatBits, d: bool| rendered(*render, b, d));
        assert(out@ =~= start + ty + " | "@ + default + " | "@ + range);
    }
}

/// The decimal text of `n` is digits that read back as `n`.
proof fn lemma_decimal_reads_back(n: nat)
    ensures
        decimal(n).len() >= 1,
        all_digits(decimal(n)),
        decimal_value(decimal(n)) == n,
        '0' <= decimal(n)[0] <= '9',
    decreases n,
{
    if n < 10 {
        let d = decimal(n);
        assert(digit_char(n) as u32 == n + 0x30);
        assert(d.drop_last() =~= Seq::<char>::empty());
        assert(decimal_value(d) == decimal_value(d.drop_last()) * 10 + ((d.last() as u32) - 0x30) as nat);
    } else {
        lemma_decimal_reads_back(n / 10);
        let d = decimal(n);
        let p = decimal(n / 10);
        assert(d.drop_last() =~= p);
        assert(digit_char(n % 10) as u32 == n % 10 + 0x30);
        assert(d[0] == p[0]);
        assert forall|i: int| 0 <= i < d.len() implies '0' <= #[trigger] d[i] <= '9' by {
            if i < p.len() {
                assert(d[i] == p[i]);
            }
        }
        assert(d.last() == digit_char(n % 10));
        assert(decimal_value(d) == decimal_value(p) * 10 + ((d.last() as u32) - 0x30) as nat);
        assert(n == (n / 10) * 10 + n % 10);
    }
}

/// The signed decimal text of an `i32` reads back, as `str::parse::<i32>`
/// reads it, as the same number.
pub proof fn lemma_signed_decimal_reads_back(n: i32)
    ensures
        parsed_i32(signed_decimal(n as int)) == Some(n),
{
    if n < 0 {
        let m = (0 - n) as nat;
        lemma_decimal_reads_back(m);
        let s = signed_decimal(n as int);
        assert(s.skip(1) =~= decimal(m));
        assert(s[0] == '-');
    } else {
        lemma_decimal_reads_back(n as nat);
        let s = signed_decimal(n as int);
        assert(strip_plus(s) == s);
    }
}

/// The decimal text of a `u32` reads back, as `str::parse::<u32>` reads it,
/// as the same number.
pub proof fn lemma_decimal_u32_reads_back(n: u32)
    ensures
        parsed_u32(decimal(n as nat)) == Some(n),
{
    lemma_decimal_reads_back(n as nat);
    assert(strip_plus(decimal(n as nat)) == decimal(n as nat));
}

/// The cells of an `Int` parameter's Markdown row: its type is `i32`, its
/// Default cell is text that reads back as the declared default, and its
/// Range cell is the minimum and the maximum, each reading back as itself,
/// around `..`.
pub proof fn int_row_shows_declared_values(min: i32, max: i32, default: i32, ft: FloatText)
    ensures
        ({
            let (ty, d, range) = kind_cells(ParamKind::Int { min, max, default }, ft);
            &&& ty == "i32"@
            &&& parsed_i32(d) == Some(default)
            &&& exists|lo: Seq<char>, hi: Seq<char>|
                range == lo + ".."@ + hi && parsed_i32(lo) == Some(min) && parsed_i32(hi) == Some(max)
        }),
{
    lemma_signed_decimal_reads_back(min);
    lemma_signed_decimal_reads_back(max);
    lemma_signed_decimal_reads_back(default);
    let lo = signed_decimal(min as int);
    let hi = signed_decimal(max as int);
    assert(kind_cells(ParamKind::Int { min, max, default }, ft).2 == lo + ".."@ + hi);
}

/// The cells of a `U32` parameter's Markdown row: its type is `u32`, its
/// Default cell is text that reads back as the declared default, and its
/// Range cell is the minimum and the maximum, each reading back as itself,
/// around `..`.
pub proof fn u32_row_shows_declared_values(min: u32, max: u32, default: u32, ft: FloatText)
    ensures
        ({
            let (ty, d, range) = kind_cells(ParamKind::U32 { min, max, default }, ft);
            &&& ty == "u32"@
            &&& parsed_u32(d) == Some(default)
            &&& exists|lo: Seq<char>, hi: Seq<char>|
                range == lo + ".."@ + hi && parsed_u32(lo) == Some(min) && parsed_u32(hi) == Some(max)
        }),
{
    lemma_decimal_u32_reads_back(min);
    lemma_decimal_u32_reads_back(max);
    lemma_decimal_u32_reads_back(default);
    let lo = decimal(min as nat);
    let hi = decimal(max as nat);
    assert(kind_cells(ParamKind::U32 { min, max, default }, ft).2 == lo + ".."@ + hi);
}

} // verus!
