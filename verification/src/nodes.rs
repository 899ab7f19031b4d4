//! Built-in shared node definitions.
//!
//! These nodes don't belong to any specific codec or processing crate. They
//! represent format-independent concepts used across the pipeline.

use vstd::prelude::*;

use crate::error::NodeError;
use crate::format::{AlphaHandling, FormatHint, PixelFormatPreference};
use crate::kv::{
    take_touches_only_its_key, take_leaves_other_keys, bool_words_read_as_booleans, after_take, bool_word, invalid_value_warning, take_value, with_warning, KvPairs, KvView,
};
use crate::ordering::NodeRole;
use crate::param::{
    bool_of, entry_for, f32_of, given_bool, given_f32, given_i32, given_text, given_u32, i32_of,
    bool_param, f32_param, param_entry, str_of, text_param, u32_of, ParamMap, ParamValue,
};
use crate::schema::{
    schema_view, FloatBits, NodeGroup, NodeSchema, ParamDesc, ParamKind, SchemaView, SliderMapping,
};
use crate::text::{str_eq, lowercase_text};
use crate::traits::NodeDef;

verus! {

/// Decode an image from an I/O source.
///
/// The I/O binding (bytes, file, buffer) is handled by the pipeline runtime,
/// not by this node. The `io_id` identifies which I/O slot to read from.
/// Format detection is automatic (from magic bytes). The decode params
/// control behavior that applies across all formats.
#[derive(Clone, Debug)]
pub struct Decode {
    /// I/O slot identifier (assigned by the job builder).
    pub io_id: i32,
    /// HDR gain map handling mode: "sdr_only" (default), "hdr_reconstruct"
    /// or "preserve".
    pub hdr_mode: String,
    /// Color management intent: "preserve" (default) or "srgb".
    pub color_intent: String,
    /// Minimum output dimension hint for decoder prescaling; 0 = none.
    pub min_size: u32,
}

impl Default for Decode {
    fn default() -> (r: Self)
        ensures
            r.io_id == 0,
            r.hdr_mode@ == "sdr_only"@,
            r.color_intent@ == "preserve"@,
            r.min_size == 0,
    {
        Decode {
            io_id: 0,
            hdr_mode: String::from_str("sdr_only"),
            color_intent: String::from_str("preserve"),
            min_size: 0,
        }
    }
}

/// The value of parameter `name` of `d`, if it has one by that name.
pub open spec fn decode_param(d: Decode, name: Seq<char>) -> Option<ParamValue> {
    if name == "io_id"@ {
        Some(ParamValue::I32(d.io_id))
    } else if name == "hdr_mode"@ {
        Some(ParamValue::Str(d.hdr_mode))
    } else if name == "color_intent"@ {
        Some(ParamValue::Str(d.color_intent))
    } else if name == "min_size"@ {
        Some(ParamValue::U32(d.min_size))
    } else {
        None
    }
}

/// Whether [`Decode::set_param`] takes `value` for `name`.
pub open spec fn decode_accepts(name: Seq<char>, value: ParamValue) -> bool {
    (name == "io_id"@ && i32_of(value) is Some) || ((name == "hdr_mode"@ || name
        == "color_intent"@) && str_of(value) is Some) || (name == "min_size"@ && u32_of(value) is Some)
}

/// How `set_param(name, value)` takes `d0` to `d1`: the named field gets the
/// converted value when it is taken; every other field keeps its value.
pub open spec fn decode_after_set(d0: Decode, d1: Decode, name: Seq<char>, value: ParamValue) -> bool {
    &&& d1.io_id == if name == "io_id"@ && i32_of(value) is Some {
        i32_of(value)->0
    } else {
        d0.io_id
    }
    &&& d1.hdr_mode@ == if name == "hdr_mode"@ && str_of(value) is Some {
        str_of(value)->0
    } else {
        d0.hdr_mode@
    }
    &&& d1.color_intent@ == if name == "color_intent"@ && str_of(value) is Some {
        str_of(value)->0
    } else {
        d0.color_intent@
    }
    &&& d1.min_size == if name == "min_size"@ && u32_of(value) is Some {
        u32_of(value)->0
    } else {
        d0.min_size
    }
}

/// Whether a parameter read as `got` holds what setting it to `value`
/// stores: the value converted to the parameter's type.
pub open spec fn reads_as_set(got: Option<ParamValue>, value: ParamValue) -> bool {
    match got {
        Some(ParamValue::I32(x)) => i32_of(value) == Some(x),
        Some(ParamValue::U32(x)) => u32_of(value) == Some(x),
        Some(ParamValue::Str(t)) => str_of(value) == Some(t@),
        Some(ParamValue::F32(b)) => f32_of(value) == Some(b),
        Some(ParamValue::Bool(b)) => bool_of(value) == Some(b),
        _ => false,
    }
}

/// Whether two reads of a parameter give the same value (texts compared by
/// their characters).
pub open spec fn same_reading(a: Option<ParamValue>, b: Option<ParamValue>) -> bool {
    match (a, b) {
        (Some(ParamValue::Str(x)), Some(ParamValue::Str(y))) => x@ == y@,
        _ => a == b,
    }
}

/// A parameter set on a `Decode` node reads back as the value set, converted
/// to its type; every other parameter reads as before; a value that is not
/// taken changes nothing.
pub proof fn decode_set_then_get(
    d0: Decode,
    d1: Decode,
    name: Seq<char>,
    value: ParamValue,
    other: Seq<char>,
)
    requires
        decode_after_set(d0, d1, name, value),
    ensures
        decode_accepts(name, value) ==> reads_as_set(decode_param(d1, name), value),
        other != name || !decode_accepts(name, value) ==> same_reading(
            decode_param(d1, other),
            decode_param(d0, other),
        ),
{
    reveal_strlit("io_id");
    reveal_strlit("hdr_mode");
    reveal_strlit("color_intent");
    reveal_strlit("min_size");
    assert("io_id"@.len() == 5);
    assert("hdr_mode"@.len() == 8);
    assert("color_intent"@.len() == 12);
    assert("min_size"@.len() == 8);
    assert("hdr_mode"@[0] != "min_size"@[0]);
}

impl Decode {
    /// The current value of a parameter by name, `None` for an unknown name.
    pub fn get_param(&self, name: &str) -> (r: Option<ParamValue>)
        ensures
            r == decode_param(*self, name@),
    {
        proof {
            reveal_strlit("io_id");
            reveal_strlit("hdr_mode");
            reveal_strlit("color_intent");
            reveal_strlit("min_size");
        }
        if str_eq(name, "io_id") {
            Some(ParamValue::I32(self.io_id))
        } else if str_eq(name, "hdr_mode") {
            Some(ParamValue::Str(self.hdr_mode.clone()))
        } else if str_eq(name, "color_intent") {
            Some(ParamValue::Str(self.color_intent.clone()))
        } else if str_eq(name, "min_size") {
            Some(ParamValue::U32(self.min_size))
        } else {
            None
        }
    }

    /// Set a parameter by name from a value of a compatible type. Returns
    /// whether the parameter was set; the node is unchanged otherwise.
    pub fn set_param(&mut self, name: &str, value: ParamValue) -> (r: bool)
        ensures
            r == decode_accepts(name@, value),
            decode_after_set(*old(self), *final(self), name@, value),
    {
        proof {
            reveal_strlit("io_id");
            reveal_strlit("hdr_mode");
            reveal_strlit("color_intent");
            reveal_strlit("min_size");
            assert("io_id"@.len() == 5);
            assert("hdr_mode"@.len() == 8);
            assert("color_intent"@.len() == 12);
            assert("min_size"@.len() == 8);
            assert("hdr_mode"@[0] != "min_size"@[0]);
        }
        if str_eq(name, "io_id") {
            match value.as_i32() {
                Some(v) => {
                    self.io_id = v;
                    true
                },
                None => false,
            }
        } else if str_eq(name, "hdr_mode") {
            match value.as_str() {
                Some(v) => {
                    self.hdr_mode = v.to_owned();
                    true
                },
                None => false,
            }
        } else if str_eq(name, "color_intent") {
            match value.as_str() {
                Some(v) => {
                    self.color_intent = v.to_owned();
                    true
                },
                None => false,
            }
        } else if str_eq(name, "min_size") {
            match value.as_u32() {
                Some(v) => {
                    self.min_size = v;
                    true
                },
                None => false,
            }
        } else {
            false
        }
    }

    /// Whether this node has no effect: `Decode` declares no identity values,
    /// so never.
    pub fn is_identity(&self) -> (r: bool)
        ensures
            !r,
    {
        false
    }
}

/// The schema of [`Decode`].
/// The whole schema that [`decode_schema`] returns.
pub open spec fn decode_schema_spec() -> NodeSchema {
    NodeSchema {
        id: "zenode.decode",
        label: "Decode",
        description: "Decode an image from an I/O source.  The I/O binding (bytes, file, buffer) is handled by the pipeline runtime, not by this node. The `io_id` identifies which I/O slot to read from.  Format detection is automatic (from magic bytes). The decode params control behavior that applies across all formats.",
        group: NodeGroup::Decode,
        role: NodeRole::Decode,
        params: &[
            ParamDesc {
                name: "io_id",
                label: "Io Id",
                description: "I/O slot identifier (assigned by the job builder).",
                kind: ParamKind::Int { min: 0, max: 255, default: 0 },
                unit: "",
                section: "Main",
                slider: SliderMapping::Linear,
                kv_keys: &[],
                since_version: 1,
                visible_when: "",
                optional: false,
                json_name: "",
                json_aliases: &[],
            },
            ParamDesc {
                name: "hdr_mode",
                label: "HDR Mode",
                description: "HDR gain map handling mode.  \"sdr_only\" — ignore any gain map, decode SDR base image (default). \"hdr_reconstruct\" — apply gain map to reconstruct full HDR. \"preserve\" — keep SDR base + gain map as separate pipeline streams.",
                kind: ParamKind::Str { default: "sdr_only" },
                unit: "",
                section: "HDR",
                slider: SliderMapping::Linear,
                kv_keys: &[],
                since_version: 1,
                visible_when: "",
                optional: false,
                json_name: "",
                json_aliases: &[],
            },
            ParamDesc {
                name: "color_intent",
                label: "Color Intent",
                description: "Color management intent.  \"preserve\" — pass ICC/CICP metadata through, don't convert pixels (default). \"srgb\" — convert to sRGB at decode time.",
                kind: ParamKind::Str { default: "preserve" },
                unit: "",
                section: "Color",
                slider: SliderMapping::Linear,
                kv_keys: &[],
                since_version: 1,
                visible_when: "",
                optional: false,
                json_name: "",
                json_aliases: &[],
            },
            ParamDesc {
                name: "min_size",
                label: "Min Size Hint",
                description: "Minimum output dimension hint for decoder prescaling.  JPEG decoders can prescale to 1/2, 1/4, or 1/8 during decode for speed. Set to the smallest dimension you need. 0 = no prescaling (default).",
                kind: ParamKind::U32 { min: 0, max: 65535, default: 0 },
                unit: "px",
                section: "Performance",
                slider: SliderMapping::Linear,
                kv_keys: &[],
                since_version: 1,
                visible_when: "",
                optional: false,
                json_name: "",
                json_aliases: &[],
            },
        ],
        tags: &["io", "decode"],
        coalesce: None,
        format: FormatHint {
            preferred: PixelFormatPreference::Any,
            alpha: AlphaHandling::Process,
            changes_dimensions: false,
            is_neighborhood: false,
        },
        version: 1,
        compat_version: 1,
        json_key: "",
        deny_unknown_fields: false,
    }
}

pub fn decode_schema() -> (r: &'static NodeSchema)
    ensures
        *r == decode_schema_spec(),
        r.id@ == "zenode.decode"@,
        r.group == NodeGroup::Decode,
        r.role == NodeRole::Decode,
        r.params@.len() == 4,
        r.params@[0].name@ == "io_id"@,
        r.params@[1].name@ == "hdr_mode"@,
        r.params@[2].name@ == "color_intent"@,
        r.params@[3].name@ == "min_size"@,
        r.tags@.len() == 2,
        r.tags@[0]@ == "io"@,
        r.tags@[1]@ == "decode"@,
        r.json_key@.len() == 0,
{
    proof {
        reveal_strlit("");
    }
    &NodeSchema {
        id: "zenode.decode",
        label: "Decode",
        description: "Decode an image from an I/O source.  The I/O binding (bytes, file, buffer) is handled by the pipeline runtime, not by this node. The `io_id` identifies which I/O slot to read from.  Format detection is automatic (from magic bytes). The decode params control behavior that applies across all formats.",
        group: NodeGroup::Decode,
        role: NodeRole::Decode,
        params: &[
            ParamDesc {
                name: "io_id",
                label: "Io Id",
                description: "I/O slot identifier (assigned by the job builder).",
                kind: ParamKind::Int { min: 0, max: 255, default: 0 },
                unit: "",
                section: "Main",
                slider: SliderMapping::Linear,
                kv_keys: &[],
                since_version: 1,
                visible_when: "",
                optional: false,
                json_name: "",
                json_aliases: &[],
            },
            ParamDesc {
                name: "hdr_mode",
                label: "HDR Mode",
                description: "HDR gain map handling mode.  \"sdr_only\" — ignore any gain map, decode SDR base image (default). \"hdr_reconstruct\" — apply gain map to reconstruct full HDR. \"preserve\" — keep SDR base + gain map as separate pipeline streams.",
                kind: ParamKind::Str { default: "sdr_only" },
                unit: "",
                section: "HDR",
                slider: SliderMapping::Linear,
                kv_keys: &[],
                since_version: 1,
                visible_when: "",
                optional: false,
                json_name: "",
                json_aliases: &[],
            },
            ParamDesc {
                name: "color_intent",
                label: "Color Intent",
                description: "Color management intent.  \"preserve\" — pass ICC/CICP metadata through, don't convert pixels (default). \"srgb\" — convert to sRGB at decode time.",
                kind: ParamKind::Str { default: "preserve" },
                unit: "",
                section: "Color",
                slider: SliderMapping::Linear,
                kv_keys: &[],
                since_version: 1,
                visible_when: "",
                optional: false,
                json_name: "",
                json_aliases: &[],
            },
            ParamDesc {
                name: "min_size",
                label: "Min Size Hint",
                description: "Minimum output dimension hint for decoder prescaling.  JPEG decoders can prescale to 1/2, 1/4, or 1/8 during decode for speed. Set to the smallest dimension you need. 0 = no prescaling (default).",
                kind: ParamKind::U32 { min: 0, max: 65535, default: 0 },
                unit: "px",
                section: "Performance",
                slider: SliderMapping::Linear,
                kv_keys: &[],
                since_version: 1,
                visible_when: "",
                optional: false,
                json_name: "",
                json_aliases: &[],
            },
        ],
        tags: &["io", "decode"],
        coalesce: None,
        format: FormatHint {
            preferred: PixelFormatPreference::Any,
            alpha: AlphaHandling::Process,
            changes_dimensions: false,
            is_neighborhood: false,
        },
        version: 1,
        compat_version: 1,
        json_key: "",
        deny_unknown_fields: false,
    }
}

/// Whether `d` is the node that `create` builds from a parameter map with
/// contents `params`: each known parameter converted as
/// [`Decode::set_param`] converts it, the others at their defaults.
pub open spec fn decode_built(params: Map<String, ParamValue>, d: Decode) -> bool {
    &&& d.io_id == given_i32(entry_for(params, "io_id"@), 0)
    &&& d.hdr_mode@ == given_text(entry_for(params, "hdr_mode"@), "sdr_only"@)
    &&& d.color_intent@ == given_text(entry_for(params, "color_intent"@), "preserve"@)
    &&& d.min_size == given_u32(entry_for(params, "min_size"@), 0)
}

/// Node definition (factory) for [`Decode`].
pub struct DecodeNodeDef;

/// The node definition of [`Decode`].
pub const DECODE_NODE: DecodeNodeDef = DecodeNodeDef;

impl NodeDef for DecodeNodeDef {
    type Instance = Decode;

    open spec fn spec_schema(&self) -> NodeSchema {
        decode_schema_spec()
    }

    fn schema(&self) -> (s: &'static NodeSchema) {
        decode_schema()
    }

    open spec fn creates(&self, params: Map<String, ParamValue>, r: Result<Decode, NodeError>) -> bool {
        r matches Ok(d) && decode_built(params, d)
    }

    open spec fn reads_kv(
        &self,
        before: KvView,
        after: KvView,
        r: Result<Option<Decode>, NodeError>,
    ) -> bool {
        r matches Ok(None) && after == before
    }

    /// The default node with each parameter of `params` that `Decode` knows
    /// applied (as [`Decode::set_param`] converts it); unknown ones are
    /// ignored.
    fn create(&self, params: &ParamMap) -> (r: Result<Decode, NodeError>) {
        let mut node = Decode::default();
        if let Some(v) = param_entry(params, "io_id") {
            if let Some(x) = v.as_i32() {
                node.io_id = x;
            }
        }
        if let Some(v) = param_entry(params, "hdr_mode") {
            if let Some(x) = v.as_str() {
                node.hdr_mode = x.to_owned();
            }
        }
        if let Some(v) = param_entry(params, "color_intent") {
            if let Some(x) = v.as_str() {
                node.color_intent = x.to_owned();
            }
        }
        if let Some(v) = param_entry(params, "min_size") {
            if let Some(x) = v.as_u32() {
                node.min_size = x;
            }
        }
        Ok(node)
    }

    /// `Decode` reads no querystring keys: never matches, consumes nothing.
    fn from_kv(&self, kv: &mut KvPairs) -> (r: Result<Option<Decode>, NodeError>) {
        Ok(None)
    }
}

// ─── QualityIntent ───

/// Format selection and quality profile for encoding.
///
/// This node controls output format selection and quality. It supports both
/// RIAPI querystring keys and JSON API fields, matching imageflow's
/// established `EncoderPreset::Auto` / `EncoderPreset::Format` ergonomics.
///
/// **RIAPI**: `?qp=high&accept.webp=true&accept.avif=true`
/// **JSON**: `{ "profile": "high", "allow_webp": true, "allow_avif": true }`
///
/// When `format` is empty (default), the pipeline auto-selects the best
/// format from the allowed set. When `format` is set (e.g., "jpeg"), that
/// format is used directly. The `profile` field accepts named presets
/// (lowest, low, medium_low, medium, good, high, highest, lossless) and
/// numeric values 0-100.
#[derive(Clone, Debug)]
pub struct QualityIntent {
    /// Quality profile: named preset or numeric "0" to "100".
    pub profile: String,
    /// Explicit output format; empty = auto-select from allowed formats.
    pub format: String,
    /// Device pixel ratio for quality adjustment (default 1.0).
    pub dpr: FloatBits,
    /// Global lossless preference.
    pub lossless: bool,
    /// Allow JPEG output (default true).
    pub allow_jpeg: bool,
    /// Allow PNG output (default true).
    pub allow_png: bool,
    /// Allow GIF output (default true).
    pub allow_gif: bool,
    /// Allow WebP output (default false).
    pub allow_webp: bool,
    /// Allow AVIF output (default false).
    pub allow_avif: bool,
    /// Allow JPEG XL output (default false).
    pub allow_jxl: bool,
    /// Allow non-sRGB color profiles in the output (default false).
    pub allow_color_profiles: bool,
}

/// The bits of the float 1.0, the default and identity `dpr`.
pub open spec fn dpr_one() -> FloatBits {
    FloatBits(0x3F80_0000)
}

impl Default for QualityIntent {
    fn default() -> (r: Self)
        ensures
            r.profile@ == "high"@,
            r.format@ == ""@,
            r.dpr == dpr_one(),
            !r.lossless,
            r.allow_jpeg && r.allow_png && r.allow_gif,
            !r.allow_webp && !r.allow_avif && !r.allow_jxl && !r.allow_color_profiles,
    {
        proof {
            reveal_strlit("");
        }
        QualityIntent {
            profile: String::from_str("high"),
            format: String::new(),
            dpr: FloatBits(0x3F80_0000),
            lossless: false,
            allow_jpeg: true,
            allow_png: true,
            allow_gif: true,
            allow_webp: false,
            allow_avif: false,
            allow_jxl: false,
            allow_color_profiles: false,
        }
    }
}

/// The value of parameter `name` of `q`, if it has one by that name.
pub open spec fn quality_param(q: QualityIntent, name: Seq<char>) -> Option<ParamValue> {
    if name == "profile"@ {
        Some(ParamValue::Str(q.profile))
    } else if name == "format"@ {
        Some(ParamValue::Str(q.format))
    } else if name == "dpr"@ {
        Some(ParamValue::F32(q.dpr))
    } else if name == "lossless"@ {
        Some(ParamValue::Bool(q.lossless))
    } else if name == "allow_jpeg"@ {
        Some(ParamValue::Bool(q.allow_jpeg))
    } else if name == "allow_png"@ {
        Some(ParamValue::Bool(q.allow_png))
    } else if name == "allow_gif"@ {
        Some(ParamValue::Bool(q.allow_gif))
    } else if name == "allow_webp"@ {
        Some(ParamValue::Bool(q.allow_webp))
    } else if name == "allow_avif"@ {
        Some(ParamValue::Bool(q.allow_avif))
    } else if name == "allow_jxl"@ {
        Some(ParamValue::Bool(q.allow_jxl))
    } else if name == "allow_color_profiles"@ {
        Some(ParamValue::Bool(q.allow_color_profiles))
    } else {
        None
    }
}

/// Whether `name` is one of the boolean parameters of [`QualityIntent`].
pub open spec fn is_quality_flag(name: Seq<char>) -> bool {
    name == "lossless"@ || name == "allow_jpeg"@ || name == "allow_png"@ || name == "allow_gif"@
        || name == "allow_webp"@ || name == "allow_avif"@ || name == "allow_jxl"@ || name
        == "allow_color_profiles"@
}

/// Whether [`QualityIntent::set_param`] takes `value` for `name`.
pub open spec fn quality_accepts(name: Seq<char>, value: ParamValue) -> bool {
    ((name == "profile"@ || name == "format"@) && str_of(value) is Some) || (name == "dpr"@
        && f32_of(value) is Some) || (is_quality_flag(name) && bool_of(value) is Some)
}

/// A boolean field after setting parameter `name` to `value`: the new value
/// where `name` is this field's and the value is a boolean, else `old`.
pub open spec fn flag_after(field: Seq<char>, name: Seq<char>, value: ParamValue, old: bool) -> bool {
    if name == field && bool_of(value) is Some {
        bool_of(value)->0
    } else {
        old
    }
}

/// How `set_param(name, value)` takes `q0` to `q1`: the named field gets the
/// converted value when it is taken; every other field keeps its value.
pub open spec fn quality_after_set(q0: QualityIntent, q1: QualityIntent, name: Seq<char>, value: ParamValue) -> bool {
    &&& q1.profile@ == if name == "profile"@ && str_of(value) is Some {
        str_of(value)->0
    } else {
        q0.profile@
    }
    &&& q1.format@ == if name == "format"@ && str_of(value) is Some {
        str_of(value)->0
    } else {
        q0.format@
    }
    &&& q1.dpr == if name == "dpr"@ && f32_of(value) is Some {
        f32_of(value)->0
    } else {
        q0.dpr
    }
    &&& q1.lossless == flag_after("lossless"@, name, value, q0.lossless)
    &&& q1.allow_jpeg == flag_after("allow_jpeg"@, name, value, q0.allow_jpeg)
    &&& q1.allow_png == flag_after("allow_png"@, name, value, q0.allow_png)
    &&& q1.allow_gif == flag_after("allow_gif"@, name, value, q0.allow_gif)
    &&& q1.allow_webp == flag_after("allow_webp"@, name, value, q0.allow_webp)
    &&& q1.allow_avif == flag_after("allow_avif"@, name, value, q0.allow_avif)
    &&& q1.allow_jxl == flag_after("allow_jxl"@, name, value, q0.allow_jxl)
    &&& q1.allow_color_profiles == flag_after(
        "allow_color_profiles"@,
        name,
        value,
        q0.allow_color_profiles,
    )
}

/// A parameter set on a `QualityIntent` node reads back as the value set,
/// converted to its type; every other parameter reads as before; a value
/// that is not taken changes nothing.
pub proof fn quality_set_then_get(
    q0: QualityIntent,
    q1: QualityIntent,
    name: Seq<char>,
    value: ParamValue,
    other: Seq<char>,
)
    requires
        quality_after_set(q0, q1, name, value),
    ensures
        quality_accepts(name, value) ==> reads_as_set(quality_param(q1, name), value),
        other != name || !quality_accepts(name, value) ==> same_reading(
            quality_param(q1, other),
            quality_param(q0, other),
        ),
{
    lemma_quality_names_distinct();
}

proof fn lemma_quality_names_distinct()
    ensures
        "allow_png"@ != "allow_gif"@,
        "allow_png"@ != "allow_jxl"@,
        "allow_gif"@ != "allow_jxl"@,
        "allow_jpeg"@ != "allow_webp"@,
        "allow_jpeg"@ != "allow_avif"@,
        "allow_webp"@ != "allow_avif"@,
        "profile"@.len() == 7,
        "format"@.len() == 6,
        "dpr"@.len() == 3,
        "lossless"@.len() == 8,
        "allow_jpeg"@.len() == 10,
        "allow_webp"@.len() == 10,
        "allow_avif"@.len() == 10,
        "allow_png"@.len() == 9,
        "allow_gif"@.len() == 9,
        "allow_jxl"@.len() == 9,
        "allow_color_profiles"@.len() == 20,
{
    reveal_strlit("profile");
    reveal_strlit("format");
    reveal_strlit("dpr");
    reveal_strlit("lossless");
    reveal_strlit("allow_jpeg");
    reveal_strlit("allow_png");
    reveal_strlit("allow_gif");
    reveal_strlit("allow_webp");
    reveal_strlit("allow_avif");
    reveal_strlit("allow_jxl");
    reveal_strlit("allow_color_profiles");
    assert("allow_png"@[6] != "allow_gif"@[6]);
    assert("allow_png"@[6] != "allow_jxl"@[6]);
    assert("allow_gif"@[6] != "allow_jxl"@[6]);
    assert("allow_jpeg"@[6] != "allow_webp"@[6]);
    assert("allow_jpeg"@[6] != "allow_avif"@[6]);
    assert("allow_webp"@[6] != "allow_avif"@[6]);
}

impl QualityIntent {
    /// The current value of a parameter by name, `None` for an unknown name.
    pub fn get_param(&self, name: &str) -> (r: Option<ParamValue>)
        ensures
            r == quality_param(*self, name@),
    {
        if str_eq(name, "profile") {
            Some(ParamValue::Str(self.profile.clone()))
        } else if str_eq(name, "format") {
            Some(ParamValue::Str(self.format.clone()))
        } else if str_eq(name, "dpr") {
            Some(ParamValue::F32(self.dpr))
        } else if str_eq(name, "lossless") {
            Some(ParamValue::Bool(self.lossless))
        } else if str_eq(name, "allow_jpeg") {
            Some(ParamValue::Bool(self.allow_jpeg))
        } else if str_eq(name, "allow_png") {
            Some(ParamValue::Bool(self.allow_png))
        } else if str_eq(name, "allow_gif") {
            Some(ParamValue::Bool(self.allow_gif))
        } else if str_eq(name, "allow_webp") {
            Some(ParamValue::Bool(self.allow_webp))
        } else if str_eq(name, "allow_avif") {
            Some(ParamValue::Bool(self.allow_avif))
        } else if str_eq(name, "allow_jxl") {
            Some(ParamValue::Bool(self.allow_jxl))
        } else if str_eq(name, "allow_color_profiles") {
            Some(ParamValue::Bool(self.allow_color_profiles))
        } else {
            None
        }
    }

    /// Set a parameter by name from a value of a compatible type (integers
    /// are rounded to a float for `dpr`). Returns whether the parameter was
    /// set; the node is unchanged otherwise.
    pub fn set_param(&mut self, name: &str, value: ParamValue) -> (r: bool)
        ensures
            r == quality_accepts(name@, value),
            quality_after_set(*old(self), *final(self), name@, value),
    {
        proof {
            lemma_quality_names_distinct();
        }
        if str_eq(name, "profile") || str_eq(name, "format") {
            match value.as_str() {
                Some(v) => {
                    if str_eq(name, "profile") {
                        self.profile = v.to_owned();
                    } else {
                        self.format = v.to_owned();
                    }
                    true
                },
                None => false,
            }
        } else if str_eq(name, "dpr") {
            match value.as_f32() {
                Some(v) => {
                    self.dpr = v;
                    true
                },
                None => false,
            }
        } else {
            let b = match value.as_bool() {
                Some(b) => b,
                None => return false,
            };
            if str_eq(name, "lossless") {
                self.lossless = b;
            } else if str_eq(name, "allow_jpeg") {
                self.allow_jpeg = b;
            } else if str_eq(name, "allow_png") {
                self.allow_png = b;
            } else if str_eq(name, "allow_gif") {
                self.allow_gif = b;
            } else if str_eq(name, "allow_webp") {
                self.allow_webp = b;
            } else if str_eq(name, "allow_avif") {
                self.allow_avif = b;
            } else if str_eq(name, "allow_jxl") {
                self.allow_jxl = b;
            } else if str_eq(name, "allow_color_profiles") {
                self.allow_color_profiles = b;
            } else {
                return false;
            }
            true
        }
    }

    /// Whether this node has no effect: `dpr` is within `1e-6` of its
    /// identity 1.0. The floats that are lie between `1 - 16·2⁻²⁴` and
    /// `1 + 8·2⁻²³`, whose bits form one contiguous range.
    pub fn is_identity(&self) -> (r: bool)
        ensures
            r == (0x3F7F_FFF0 <= self.dpr.0 <= 0x3F80_0008),
    {
        0x3F7F_FFF0 <= self.dpr.0 && self.dpr.0 <= 0x3F80_0008
    }
}

/// The schema of [`QualityIntent`].
/// The whole schema that [`quality_intent_schema`] returns.
pub open spec fn quality_intent_schema_spec() -> NodeSchema {
    NodeSchema {
        id: "zenode.quality_intent",
        label: "Quality Intent",
        description: "Format selection and quality profile for encoding.  This node controls output format selection and quality. It supports both RIAPI querystring keys and JSON API fields, matching imageflow's established `EncoderPreset::Auto` / `EncoderPreset::Format` ergonomics.  **RIAPI**: `?qp=high&accept.webp=true&accept.avif=true` **JSON**: `{ \"profile\": \"high\", \"allow_webp\": true, \"allow_avif\": true }`  When `format` is empty (default), the pipeline auto-selects the best format from the allowed set. When `format` is set (e.g., \"jpeg\"), that format is used directly.  The `profile` field accepts both named presets and numeric values: - Named: lowest, low, medium_low, medium, good, high, highest, lossless - Numeric: 0-100 (mapped to codec-specific quality scales)  Matches imageflow's `EncoderPreset::Auto` for backwards compatibility.",
        group: NodeGroup::Encode,
        role: NodeRole::Encode,
        params: &[
            ParamDesc {
                name: "profile",
                label: "Quality Profile",
                description: "Quality profile: named preset or numeric 0-100.  Named presets: \"lowest\", \"low\", \"medium_low\", \"medium\", \"good\", \"high\", \"highest\", \"lossless\". Numeric: \"0\" to \"100\" (codec-specific mapping). Also accepts aliases: \"med\" = \"medium\", \"medium-low\" = \"medium_low\", \"medium-high\" = \"good\".",
                kind: ParamKind::Str { default: "high" },
                unit: "",
                section: "Main",
                slider: SliderMapping::Linear,
                kv_keys: &["qp"],
                since_version: 1,
                visible_when: "",
                optional: false,
                json_name: "",
                json_aliases: &[],
            },
            ParamDesc {
                name: "format",
                label: "Output Format",
                description: "Explicit output format. Empty = auto-select from allowed formats.  Values: \"jpeg\", \"png\", \"webp\", \"gif\", \"avif\", \"jxl\", \"keep\", or \"\". \"keep\" preserves the source format. When set, the format is used directly (quality profile still applies).",
                kind: ParamKind::Str { default: "" },
                unit: "",
                section: "Main",
                slider: SliderMapping::Linear,
                kv_keys: &["format"],
                since_version: 1,
                visible_when: "",
                optional: false,
                json_name: "",
                json_aliases: &[],
            },
            ParamDesc {
                name: "dpr",
                label: "Device Pixel Ratio",
                description: "Device pixel ratio for quality adjustment.  Higher DPR screens tolerate lower quality (smaller pixels). Default 1.0 = no adjustment. Imageflow default was 3.0.",
                kind: ParamKind::Float {
                    min: FloatBits(0x3F00_0000),
                    max: FloatBits(0x4120_0000),
                    default: FloatBits(0x3F80_0000),
                    identity: FloatBits(0x3F80_0000),
                    step: FloatBits(0x3F00_0000),
                },
                unit: "×",
                section: "Main",
                slider: SliderMapping::Linear,
                kv_keys: &["qp.dpr", "qp.dppx", "dpr", "dppx"],
                since_version: 1,
                visible_when: "",
                optional: false,
                json_name: "",
                json_aliases: &[],
            },
            ParamDesc {
                name: "lossless",
                label: "Lossless",
                description: "Global lossless preference (true/false/keep).  When true, selects lossless encoding if the format supports it.",
                kind: ParamKind::Bool { default: false },
                unit: "",
                section: "Main",
                slider: SliderMapping::Linear,
                kv_keys: &["lossless"],
                since_version: 1,
                visible_when: "",
                optional: false,
                json_name: "",
                json_aliases: &[],
            },
            ParamDesc {
                name: "allow_jpeg",
                label: "Allow Jpeg",
                description: "Allow JPEG output. Default true (web_safe baseline).",
                kind: ParamKind::Bool { default: true },
                unit: "",
                section: "Allowed Formats",
                slider: SliderMapping::Linear,
                kv_keys: &[],
                since_version: 1,
                visible_when: "",
                optional: false,
                json_name: "",
                json_aliases: &[],
            },
            ParamDesc {
                name: "allow_png",
                label: "Allow Png",
                description: "Allow PNG output. Default true (web_safe baseline).",
                kind: ParamKind::Bool { default: true },
                unit: "",
                section: "Allowed Formats",
                slider: SliderMapping::Linear,
                kv_keys: &[],
                since_version: 1,
                visible_when: "",
                optional: false,
                json_name: "",
                json_aliases: &[],
            },
            ParamDesc {
                name: "allow_gif",
                label: "Allow Gif",
                description: "Allow GIF output. Default true (web_safe baseline).",
                kind: ParamKind::Bool { default: true },
                unit: "",
                section: "Allowed Formats",
                slider: SliderMapping::Linear,
                kv_keys: &[],
                since_version: 1,
                visible_when: "",
                optional: false,
                json_name: "",
                json_aliases: &[],
            },
            ParamDesc {
                name: "allow_webp",
                label: "Allow Webp",
                description: "Allow WebP output. Must be explicitly enabled.",
                kind: ParamKind::Bool { default: false },
                unit: "",
                section: "Allowed Formats",
                slider: SliderMapping::Linear,
                kv_keys: &["accept.webp"],
                since_version: 1,
                visible_when: "",
                optional: false,
                json_name: "",
                json_aliases: &[],
            },
            ParamDesc {
                name: "allow_avif",
                label: "Allow Avif",
                description: "Allow AVIF output. Must be explicitly enabled.",
                kind: ParamKind::Bool { default: false },
                unit: "",
                section: "Allowed Formats",
                slider: SliderMapping::Linear,
                kv_keys: &["accept.avif"],
                since_version: 1,
                visible_when: "",
                optional: false,
                json_name: "",
                json_aliases: &[],
            },
            ParamDesc {
                name: "allow_jxl",
                label: "Allow Jxl",
                description: "Allow JPEG XL output. Must be explicitly enabled.",
                kind: ParamKind::Bool { default: false },
                unit: "",
                section: "Allowed Formats",
                slider: SliderMapping::Linear,
                kv_keys: &["accept.jxl"],
                since_version: 1,
                visible_when: "",
                optional: false,
                json_name: "",
                json_aliases: &[],
            },
            ParamDesc {
                name: "allow_color_profiles",
                label: "Allow Color Profiles",
                description: "Allow non-sRGB color profiles in the output.",
                kind: ParamKind::Bool { default: false },
                unit: "",
                section: "Allowed Formats",
                slider: SliderMapping::Linear,
                kv_keys: &["accept.color_profiles"],
                since_version: 1,
                visible_when: "",
                optional: false,
                json_name: "",
                json_aliases: &[],
            },
        ],
        tags: &["quality", "auto", "format", "encode"],
        coalesce: None,
        format: FormatHint {
            preferred: PixelFormatPreference::Any,
            alpha: AlphaHandling::Process,
            changes_dimensions: false,
            is_neighborhood: false,
        },
        version: 1,
        compat_version: 1,
        json_key: "",
        deny_unknown_fields: false,
    }
}

pub fn quality_intent_schema() -> (r: &'static NodeSchema)
    ensures
        *r == quality_intent_schema_spec(),
        r.id@ == "zenode.quality_intent"@,
        r.group == NodeGroup::Encode,
        r.role == NodeRole::Encode,
        r.params@.len() == 11,
        r.params@[0].name@ == "profile"@,
        r.params@[1].name@ == "format"@,
        r.params@[2].name@ == "dpr"@,
        r.params@[3].name@ == "lossless"@,
        r.params@[4].name@ == "allow_jpeg"@,
        r.params@[5].name@ == "allow_png"@,
        r.params@[6].name@ == "allow_gif"@,
        r.params@[7].name@ == "allow_webp"@,
        r.params@[8].name@ == "allow_avif"@,
        r.params@[9].name@ == "allow_jxl"@,
        r.params@[10].name@ == "allow_color_profiles"@,
        r.params@[0].kv_keys@.len() == 1,
        r.params@[0].kv_keys@[0]@ == "qp"@,
        r.params@[2].kv_keys@.len() == 4,
        r.tags@.len() == 4,
        r.tags@[0]@ == "quality"@,
        r.tags@[1]@ == "auto"@,
        r.tags@[2]@ == "format"@,
        r.tags@[3]@ == "encode"@,
        r.json_key@.len() == 0,
{
    proof {
        reveal_strlit("");
    }
    &NodeSchema {
        id: "zenode.quality_intent",
        label: "Quality Intent",
        description: "Format selection and quality profile for encoding.  This node controls output format selection and quality. It supports both RIAPI querystring keys and JSON API fields, matching imageflow's established `EncoderPreset::Auto` / `EncoderPreset::Format` ergonomics.  **RIAPI**: `?qp=high&accept.webp=true&accept.avif=true` **JSON**: `{ \"profile\": \"high\", \"allow_webp\": true, \"allow_avif\": true }`  When `format` is empty (default), the pipeline auto-selects the best format from the allowed set. When `format` is set (e.g., \"jpeg\"), that format is used directly.  The `profile` field accepts both named presets and numeric values: - Named: lowest, low, medium_low, medium, good, high, highest, lossless - Numeric: 0-100 (mapped to codec-specific quality scales)  Matches imageflow's `EncoderPreset::Auto` for backwards compatibility.",
        group: NodeGroup::Encode,
        role: NodeRole::Encode,
        params: &[
            ParamDesc {
                name: "profile",
                label: "Quality Profile",
                description: "Quality profile: named preset or numeric 0-100.  Named presets: \"lowest\", \"low\", \"medium_low\", \"medium\", \"good\", \"high\", \"highest\", \"lossless\". Numeric: \"0\" to \"100\" (codec-specific mapping). Also accepts aliases: \"med\" = \"medium\", \"medium-low\" = \"medium_low\", \"medium-high\" = \"good\".",
                kind: ParamKind::Str { default: "high" },
                unit: "",
                section: "Main",
                slider: SliderMapping::Linear,
                kv_keys: &["qp"],
                since_version: 1,
                visible_when: "",
                optional: false,
                json_name: "",
                json_aliases: &[],
            },
            ParamDesc {
                name: "format",
                label: "Output Format",
                description: "Explicit output format. Empty = auto-select from allowed formats.  Values: \"jpeg\", \"png\", \"webp\", \"gif\", \"avif\", \"jxl\", \"keep\", or \"\". \"keep\" preserves the source format. When set, the format is used directly (quality profile still applies).",
                kind: ParamKind::Str { default: "" },
                unit: "",
                section: "Main",
                slider: SliderMapping::Linear,
                kv_keys: &["format"],
                since_version: 1,
                visible_when: "",
                optional: false,
                json_name: "",
                json_aliases: &[],
            },
            ParamDesc {
                name: "dpr",
                label: "Device Pixel Ratio",
                description: "Device pixel ratio for quality adjustment.  Higher DPR screens tolerate lower quality (smaller pixels). Default 1.0 = no adjustment. Imageflow default was 3.0.",
                kind: ParamKind::Float {
                    min: FloatBits(0x3F00_0000),
                    max: FloatBits(0x4120_0000),
                    default: FloatBits(0x3F80_0000),
                    identity: FloatBits(0x3F80_0000),
                    step: FloatBits(0x3F00_0000),
                },
                unit: "×",
                section: "Main",
                slider: SliderMapping::Linear,
                kv_keys: &["qp.dpr", "qp.dppx", "dpr", "dppx"],
                since_version: 1,
                visible_when: "",
                optional: false,
                json_name: "",
                json_aliases: &[],
            },
            ParamDesc {
                name: "lossless",
                label: "Lossless",
                description: "Global lossless preference (true/false/keep).  When true, selects lossless encoding if the format supports it.",
                kind: ParamKind::Bool { default: false },
                unit: "",
                section: "Main",
                slider: SliderMapping::Linear,
                kv_keys: &["lossless"],
                since_version: 1,
                visible_when: "",
                optional: false,
                json_name: "",
                json_aliases: &[],
            },
            ParamDesc {
                name: "allow_jpeg",
                label: "Allow Jpeg",
                description: "Allow JPEG output. Default true (web_safe baseline).",
                kind: ParamKind::Bool { default: true },
                unit: "",
                section: "Allowed Formats",
                slider: SliderMapping::Linear,
                kv_keys: &[],
                since_version: 1,
                visible_when: "",
                optional: false,
                json_name: "",
                json_aliases: &[],
            },
            ParamDesc {
                name: "allow_png",
                label: "Allow Png",
                description: "Allow PNG output. Default true (web_safe baseline).",
                kind: ParamKind::Bool { default: true },
                unit: "",
                section: "Allowed Formats",
                slider: SliderMapping::Linear,
                kv_keys: &[],
                since_version: 1,
                visible_when: "",
                optional: false,
                json_name: "",
                json_aliases: &[],
            },
            ParamDesc {
                name: "allow_gif",
                label: "Allow Gif",
                description: "Allow GIF output. Default true (web_safe baseline).",
                kind: ParamKind::Bool { default: true },
                unit: "",
                section: "Allowed Formats",
                slider: SliderMapping::Linear,
                kv_keys: &[],
                since_version: 1,
                visible_when: "",
                optional: false,
                json_name: "",
                json_aliases: &[],
            },
            ParamDesc {
                name: "allow_webp",
                label: "Allow Webp",
                description: "Allow WebP output. Must be explicitly enabled.",
                kind: ParamKind::Bool { default: false },
                unit: "",
                section: "Allowed Formats",
                slider: SliderMapping::Linear,
                kv_keys: &["accept.webp"],
                since_version: 1,
                visible_when: "",
                optional: false,
                json_name: "",
                json_aliases: &[],
            },
            ParamDesc {
                name: "allow_avif",
                label: "Allow Avif",
                description: "Allow AVIF output. Must be explicitly enabled.",
                kind: ParamKind::Bool { default: false },
                unit: "",
                section: "Allowed Formats",
                slider: SliderMapping::Linear,
                kv_keys: &["accept.avif"],
                since_version: 1,
                visible_when: "",
                optional: false,
                json_name: "",
                json_aliases: &[],
            },
            ParamDesc {
                name: "allow_jxl",
                label: "Allow Jxl",
                description: "Allow JPEG XL output. Must be explicitly enabled.",
                kind: ParamKind::Bool { default: false },
                unit: "",
                section: "Allowed Formats",
                slider: SliderMapping::Linear,
                kv_keys: &["accept.jxl"],
                since_version: 1,
                visible_when: "",
                optional: false,
                json_name: "",
                json_aliases: &[],
            },
            ParamDesc {
                name: "allow_color_profiles",
                label: "Allow Color Profiles",
                description: "Allow non-sRGB color profiles in the output.",
                kind: ParamKind::Bool { default: false },
                unit: "",
                section: "Allowed Formats",
                slider: SliderMapping::Linear,
                kv_keys: &["accept.color_profiles"],
                since_version: 1,
                visible_when: "",
                optional: false,
                json_name: "",
                json_aliases: &[],
            },
        ],
        tags: &["quality", "auto", "format", "encode"],
        coalesce: None,
        format: FormatHint {
            preferred: PixelFormatPreference::Any,
            alpha: AlphaHandling::Process,
            changes_dimensions: false,
            is_neighborhood: false,
        },
        version: 1,
        compat_version: 1,
        json_key: "",
        deny_unknown_fields: false,
    }
}

// ─── Reading QualityIntent from a querystring ───

/// One `take_bool(key, consumer)` in state `v`: the state after it and what
/// it returns.
pub open spec fn bool_step(v: KvView, key: Seq<char>, consumer: Seq<char>) -> (KvView, Option<bool>) {
    match take_value(v, key) {
        None => (v, None),
        Some(val) => {
            let b = bool_word(lowercase_text(val));
            let taken = after_take(v, key, consumer);
            if b is Some {
                (taken, b)
            } else {
                (with_warning(taken, invalid_value_warning(key, val, " as boolean for key '"@)), b)
            }
        },
    }
}

/// Whether one `take_parsed(key, consumer, parse, " as number ...")` in
/// state `v` may end in state `out` returning `d`: `parse` is handed the
/// value text and what it gives is returned; a value it refuses is consumed
/// and warned about.
pub open spec fn number_step<P: Fn(&str) -> Option<FloatBits>>(
    parse: P,
    v: KvView,
    key: Seq<char>,
    consumer: Seq<char>,
    out: KvView,
    d: Option<FloatBits>,
) -> bool {
    match take_value(v, key) {
        None => d is None && out == v,
        Some(val) => exists|s: &str|
            {
                &&& s@ == val
                &&& #[trigger] parse.ensures((s,), d)
                &&& out == if d is Some {
                    after_take(v, key, consumer)
                } else {
                    with_warning(
                        after_take(v, key, consumer),
                        invalid_value_warning(key, val, " as number for key '"@),
                    )
                }
            },
    }
}

/// Whether reading a number under the first of `keys` that yields one may
/// go from state `v` to `out` with result `d`: each key in turn is taken
/// and parsed until one gives a number (`d` is `None` when none does).
pub open spec fn number_chain<P: Fn(&str) -> Option<FloatBits>>(
    parse: P,
    v: KvView,
    keys: Seq<Seq<char>>,
    consumer: Seq<char>,
    out: KvView,
    d: Option<FloatBits>,
) -> bool
    decreases keys.len(),
{
    if keys.len() == 0 {
        out == v && d is None
    } else {
        exists|mid: KvView, x: Option<FloatBits>|
            {
                &&& #[trigger] number_step(parse, v, keys[0], consumer, mid, x)
                &&& if x is Some {
                    out == mid && d == x
                } else {
                    number_chain(parse, mid, keys.subrange(1, keys.len() as int), consumer, out, d)
                }
            }
    }
}

/// The querystring keys of `dpr`, in the order they are tried.
pub open spec fn dpr_keys() -> Seq<Seq<char>> {
    seq!["qp.dpr"@, "qp.dppx"@, "dpr"@, "dppx"@]
}

/// A text field read from a querystring, or its default.
pub open spec fn text_or(t: Option<Seq<char>>, default: Seq<char>) -> Seq<char> {
    if t is Some {
        t->0
    } else {
        default
    }
}

/// A flag read from a querystring, or its default.
pub open spec fn flag_or(b: Option<bool>, default: bool) -> bool {
    if b is Some {
        b->0
    } else {
        default
    }
}

/// What [`QualityIntentNodeDef::from_kv`] does once the `dpr` keys have
/// taken the pairs from `v2` (the state after `qp` and `format`) to `v3`
/// with result `dpr`: the flags are read from `v3` on, `vf` is the final
/// state, and `r` is the node when any key gave a value.
pub open spec fn quality_outcome(
    v0: KvView,
    v3: KvView,
    dpr: Option<FloatBits>,
    vf: KvView,
    r: Result<Option<QualityIntent>, NodeError>,
) -> bool {
    let c = "zenode.quality_intent"@;
    let profile = take_value(v0, "qp"@);
    let format = take_value(after_take(v0, "qp"@, c), "format"@);
    let (v4, lossless) = bool_step(v3, "lossless"@, c);
    let (v5, webp) = bool_step(v4, "accept.webp"@, c);
    let (v6, avif) = bool_step(v5, "accept.avif"@, c);
    let (v7, jxl) = bool_step(v6, "accept.jxl"@, c);
    let (v8, colors) = bool_step(v7, "accept.color_profiles"@, c);
    let any = profile is Some || format is Some || dpr is Some || lossless is Some || webp is Some
        || avif is Some || jxl is Some || colors is Some;
    &&& vf == v8
    &&& r matches Ok(o)
    &&& match o {
        None => !any,
        Some(q) => {
            &&& any
            &&& q.profile@ == text_or(profile, "high"@)
            &&& q.format@ == text_or(format, ""@)
            &&& q.dpr == if dpr is Some {
                dpr->0
            } else {
                dpr_one()
            }
            &&& q.lossless == flag_or(lossless, false)
            &&& q.allow_jpeg && q.allow_png && q.allow_gif
            &&& q.allow_webp == flag_or(webp, false)
            &&& q.allow_avif == flag_or(avif, false)
            &&& q.allow_jxl == flag_or(jxl, false)
            &&& q.allow_color_profiles == flag_or(colors, false)
        },
    }
}

/// `b`'s flag, or `default` when there is none.
fn flag_or_default(b: Option<bool>, default: bool) -> (r: bool)
    ensures
        r == flag_or(b, default),
{
    match b {
        Some(x) => x,
        None => default,
    }
}

/// Whether `q` is the node that `create` builds from a parameter map with
/// contents `params`: each known parameter converted as
/// [`QualityIntent::set_param`] converts it, the others at their defaults.
pub open spec fn quality_built(params: Map<String, ParamValue>, q: QualityIntent) -> bool {
    &&& q.profile@ == given_text(entry_for(params, "profile"@), "high"@)
    &&& q.format@ == given_text(entry_for(params, "format"@), ""@)
    &&& q.dpr == given_f32(entry_for(params, "dpr"@), dpr_one())
    &&& q.lossless == given_bool(entry_for(params, "lossless"@), false)
    &&& q.allow_jpeg == given_bool(entry_for(params, "allow_jpeg"@), true)
    &&& q.allow_png == given_bool(entry_for(params, "allow_png"@), true)
    &&& q.allow_gif == given_bool(entry_for(params, "allow_gif"@), true)
    &&& q.allow_webp == given_bool(entry_for(params, "allow_webp"@), false)
    &&& q.allow_avif == given_bool(entry_for(params, "allow_avif"@), false)
    &&& q.allow_jxl == given_bool(entry_for(params, "allow_jxl"@), false)
    &&& q.allow_color_profiles == given_bool(entry_for(params, "allow_color_profiles"@), false)
}

/// Node definition (factory) for [`QualityIntent`]. Floats are read by the
/// parser it is made with: `dpr` is the one float parameter.
pub struct QualityIntentNodeDef<P: Fn(&str) -> Option<FloatBits>> {
    parse_number: P,
}

impl<P: Fn(&str) -> Option<FloatBits>> QualityIntentNodeDef<P> {
    #[verifier::type_invariant]
    spec fn parser_is_total(self) -> bool {
        forall|s: &str| #[trigger] self.parse_number.requires((s,))
    }

    /// The float parser of this definition.
    pub closed spec fn parser(self) -> P {
        self.parse_number
    }

    /// A definition that reads floats with `parse_number`, which turns a
    /// number's text into its bits (`None` for text that is no number).
    pub fn new(parse_number: P) -> (r: Self)
        requires
            forall|s: &str| #[trigger] parse_number.requires((s,)),
        ensures
            r.parser() == parse_number,
    {
        QualityIntentNodeDef { parse_number }
    }
}

impl<P: Fn(&str) -> Option<FloatBits>> QualityIntentNodeDef<P> {
    /// Reads `dpr` under the first of its keys that gives a number.
    fn take_dpr(&self, kv: &mut KvPairs) -> (r: Option<FloatBits>)
        ensures
            number_chain(self.parser(), old(kv)@, dpr_keys(), "zenode.quality_intent"@, final(kv)@, r),
    {
        proof {
            use_type_invariant(self);
        }
        let ghost v2 = kv@;
        let ghost parse = self.parse_number;
        let number = " as number for key '";
        let d1 = kv.take_parsed("qp.dpr", "zenode.quality_intent", &self.parse_number, number);
        let ghost v2a = kv@;
        let mut dpr = d1;
        if dpr.is_none() {
            let d2 = kv.take_parsed("qp.dppx", "zenode.quality_intent", &self.parse_number, number);
            let ghost v2b = kv@;
            dpr = d2;
            if dpr.is_none() {
                let d3 = kv.take_parsed("dpr", "zenode.quality_intent", &self.parse_number, number);
                let ghost v2c = kv@;
                dpr = d3;
                if dpr.is_none() {
                    let d4 = kv.take_parsed(
                        "dppx",
                        "zenode.quality_intent",
                        &self.parse_number,
                        number,
                    );
                    dpr = d4;
                    proof {
                        let keys = seq!["dppx"@];
                        assert(number_step(parse, v2c, keys[0], "zenode.quality_intent"@, kv@, d4));
                        assert(keys.subrange(1, 1) =~= Seq::<Seq<char>>::empty());
                        if dpr is None {
                            assert(number_chain(
                                parse,
                                kv@,
                                Seq::<Seq<char>>::empty(),
                                "zenode.quality_intent"@,
                                kv@,
                                dpr,
                            ));
                        }
                        assert(number_chain(parse, v2c, keys, "zenode.quality_intent"@, kv@, dpr));
                    }
                }
                proof {
                    let keys = seq!["dpr"@, "dppx"@];
                    assert(number_step(parse, v2b, keys[0], "zenode.quality_intent"@, v2c, d3));
                    assert(keys.subrange(1, 2) =~= seq!["dppx"@]);
                    assert(number_chain(parse, v2b, keys, "zenode.quality_intent"@, kv@, dpr));
                }
            }
            proof {
                let keys = seq!["qp.dppx"@, "dpr"@, "dppx"@];
                assert(number_step(parse, v2a, keys[0], "zenode.quality_intent"@, v2b, d2));
                assert(keys.subrange(1, 3) =~= seq!["dpr"@, "dppx"@]);
                assert(number_chain(parse, v2a, keys, "zenode.quality_intent"@, kv@, dpr));
            }
        }
        proof {
            let keys = dpr_keys();
            assert(number_step(parse, v2, keys[0], "zenode.quality_intent"@, v2a, d1));
            assert(keys.subrange(1, 4) =~= seq!["qp.dppx"@, "dpr"@, "dppx"@]);
            assert(number_chain(parse, v2, keys, "zenode.quality_intent"@, kv@, dpr));
        }
        dpr
    }
}

impl<P: Fn(&str) -> Option<FloatBits>> NodeDef for QualityIntentNodeDef<P> {
    type Instance = QualityIntent;

    open spec fn spec_schema(&self) -> NodeSchema {
        quality_intent_schema_spec()
    }

    fn schema(&self) -> (s: &'static NodeSchema) {
        quality_intent_schema()
    }

    open spec fn creates(
        &self,
        params: Map<String, ParamValue>,
        r: Result<QualityIntent, NodeError>,
    ) -> bool {
        r matches Ok(q) && quality_built(params, q)
    }

    open spec fn reads_kv(
        &self,
        before: KvView,
        after: KvView,
        r: Result<Option<QualityIntent>, NodeError>,
    ) -> bool {
        exists|v3: KvView, dpr: Option<FloatBits>|
            {
                &&& #[trigger] number_chain(
                    self.parser(),
                    after_take(
                        after_take(before, "qp"@, "zenode.quality_intent"@),
                        "format"@,
                        "zenode.quality_intent"@,
                    ),
                    dpr_keys(),
                    "zenode.quality_intent"@,
                    v3,
                    dpr,
                )
                &&& quality_outcome(before, v3, dpr, after, r)
            }
    }

    /// The default node with each parameter of `params` that `QualityIntent`
    /// knows applied (as [`QualityIntent::set_param`] converts it); unknown
    /// ones are ignored.
    fn create(&self, params: &ParamMap) -> (r: Result<QualityIntent, NodeError>) {
        proof {
            reveal_strlit("");
        }
        Ok(
            QualityIntent {
                profile: text_param(params, "profile", "high"),
                format: text_param(params, "format", ""),
                dpr: f32_param(params, "dpr", FloatBits(0x3F80_0000)),
                lossless: bool_param(params, "lossless", false),
                allow_jpeg: bool_param(params, "allow_jpeg", true),
                allow_png: bool_param(params, "allow_png", true),
                allow_gif: bool_param(params, "allow_gif", true),
                allow_webp: bool_param(params, "allow_webp", false),
                allow_avif: bool_param(params, "allow_avif", false),
                allow_jxl: bool_param(params, "allow_jxl", false),
                allow_color_profiles: bool_param(params, "allow_color_profiles", false),
            },
        )
    }

    /// Claims `qp`, `format`, the `dpr` keys (`qp.dpr`, `qp.dppx`, `dpr`,
    /// `dppx`, the first that gives a number), `lossless` and the
    /// `accept.*` keys, in that order; `Ok(None)` when none gave a value.
    #[verifier::rlimit(40)]
    fn from_kv(&self, kv: &mut KvPairs) -> (r: Result<Option<QualityIntent>, NodeError>)
    {
        proof {
            use_type_invariant(self);
        }
        let ghost v0 = kv@;
        let profile = kv.take_owned("qp", "zenode.quality_intent");
        let format = kv.take_owned("format", "zenode.quality_intent");
        let dpr = self.take_dpr(kv);
        let ghost v3 = kv@;
        let lossless = kv.take_bool("lossless", "zenode.quality_intent");
        let ghost v4 = kv@;
        let webp = kv.take_bool("accept.webp", "zenode.quality_intent");
        let ghost v5 = kv@;
        let avif = kv.take_bool("accept.avif", "zenode.quality_intent");
        let ghost v6 = kv@;
        let jxl = kv.take_bool("accept.jxl", "zenode.quality_intent");
        let ghost v7 = kv@;
        let colors = kv.take_bool("accept.color_profiles", "zenode.quality_intent");
        proof {
            let c = "zenode.quality_intent"@;
            assert((v4, lossless) == bool_step(v3, "lossless"@, c));
            assert((v5, webp) == bool_step(v4, "accept.webp"@, c));
            assert((v6, avif) == bool_step(v5, "accept.avif"@, c));
            assert((v7, jxl) == bool_step(v6, "accept.jxl"@, c));
            assert((kv@, colors) == bool_step(v7, "accept.color_profiles"@, c));
        }
        if profile.is_none() && format.is_none() && dpr.is_none() && lossless.is_none()
            && webp.is_none() && avif.is_none() && jxl.is_none() && colors.is_none() {
            return Ok(None);
        }
        let mut node = QualityIntent::default();
        if let Some(v) = profile {
            node.profile = v;
        }
        if let Some(v) = format {
            node.format = v;
        }
        if let Some(v) = dpr {
            node.dpr = v;
        }
        node.lossless = flag_or_default(lossless, false);
        node.allow_webp = flag_or_default(webp, false);
        node.allow_avif = flag_or_default(avif, false);
        node.allow_jxl = flag_or_default(jxl, false);
        node.allow_color_profiles = flag_or_default(colors, false);
        let r = Ok(Some(node));
        proof {
            assert(quality_outcome(v0, v3, dpr, kv@, r));
        }
        r
    }
}

// ─── What reading a QualityIntent leaves to other nodes ───

/// The querystring keys that [`QualityIntentNodeDef::from_kv`] reads.
pub open spec fn quality_keys() -> Seq<Seq<char>> {
    seq![
        "qp"@,
        "format"@,
        "qp.dpr"@,
        "qp.dppx"@,
        "dpr"@,
        "dppx"@,
        "lossless"@,
        "accept.webp"@,
        "accept.avif"@,
        "accept.jxl"@,
        "accept.color_profiles"@,
    ]
}

/// Whether `out` has the entries of `v`, with the same keys in the same
/// places, and every entry whose key is not among `keys` unchanged.
pub open spec fn keeps_other_entries(v: KvView, out: KvView, keys: Seq<Seq<char>>) -> bool {
    &&& out.entries.len() == v.entries.len()
    &&& forall|i: int|
        0 <= i < v.entries.len() ==> (#[trigger] out.entries[i]).key == v.entries[i].key && (
        !keys.contains(v.entries[i].key) ==> out.entries[i] == v.entries[i])
}

proof fn lemma_take_keeps_others(v: KvView, key: Seq<char>, c: Seq<char>, keys: Seq<Seq<char>>)
    requires
        keys.contains(key),
    ensures
        keeps_other_entries(v, after_take(v, key, c), keys),
{
    take_touches_only_its_key(v, key, c);
}

proof fn lemma_keeps_trans(a: KvView, b: KvView, c: KvView, keys: Seq<Seq<char>>)
    requires
        keeps_other_entries(a, b, keys),
        keeps_other_entries(b, c, keys),
    ensures
        keeps_other_entries(a, c, keys),
{
    assert forall|i: int| 0 <= i < a.entries.len() implies (#[trigger] c.entries[i]).key == a.entries[i].key
        && (!keys.contains(a.entries[i].key) ==> c.entries[i] == a.entries[i]) by {
        assert(b.entries[i].key == a.entries[i].key);
    }
}

proof fn lemma_bool_step_keeps_others(v: KvView, key: Seq<char>, c: Seq<char>, keys: Seq<Seq<char>>)
    requires
        keys.contains(key),
    ensures
        keeps_other_entries(v, bool_step(v, key, c).0, keys),
{
    lemma_take_keeps_others(v, key, c, keys);
}

proof fn lemma_number_chain_keeps_others<P: Fn(&str) -> Option<FloatBits>>(
    parse: P,
    v: KvView,
    ks: Seq<Seq<char>>,
    c: Seq<char>,
    out: KvView,
    d: Option<FloatBits>,
    keys: Seq<Seq<char>>,
)
    requires
        number_chain(parse, v, ks, c, out, d),
        forall|j: int| 0 <= j < ks.len() ==> keys.contains(#[trigger] ks[j]),
    ensures
        keeps_other_entries(v, out, keys),
    decreases ks.len(),
{
    if ks.len() > 0 {
        let (mid, x) = choose|mid: KvView, x: Option<FloatBits>|
            {
                &&& #[trigger] number_step(parse, v, ks[0], c, mid, x)
                &&& if x is Some {
                    out == mid && d == x
                } else {
                    number_chain(parse, mid, ks.subrange(1, ks.len() as int), c, out, d)
                }
            };
        assert(keys.contains(ks[0]));
        lemma_take_keeps_others(v, ks[0], c, keys);
        assert(keeps_other_entries(v, mid, keys));
        if x is None {
            let rest = ks.subrange(1, ks.len() as int);
            assert forall|j: int| 0 <= j < rest.len() implies keys.contains(#[trigger] rest[j]) by {
                assert(rest[j] == ks[j + 1]);
            }
            lemma_number_chain_keeps_others(parse, mid, rest, c, out, d, keys);
            lemma_keeps_trans(v, mid, out, keys);
        }
    } else {
        assert(keeps_other_entries(v, out, keys));
    }
}

/// The state after the flag keys of [`QualityIntent`] are read from `v`.
pub open spec fn flag_steps(v: KvView) -> KvView {
    let c = "zenode.quality_intent"@;
    let v4 = bool_step(v, "lossless"@, c).0;
    let v5 = bool_step(v4, "accept.webp"@, c).0;
    let v6 = bool_step(v5, "accept.avif"@, c).0;
    let v7 = bool_step(v6, "accept.jxl"@, c).0;
    bool_step(v7, "accept.color_profiles"@, c).0
}

proof fn lemma_flags_keep_others(v: KvView)
    ensures
        keeps_other_entries(v, flag_steps(v), quality_keys()),
{
    let c = "zenode.quality_intent"@;
    let keys = quality_keys();
    assert(keys.contains(keys[6]) && keys.contains(keys[7]) && keys.contains(keys[8]));
    assert(keys.contains(keys[9]) && keys.contains(keys[10]));
    let v4 = bool_step(v, "lossless"@, c).0;
    let v5 = bool_step(v4, "accept.webp"@, c).0;
    let v6 = bool_step(v5, "accept.avif"@, c).0;
    let v7 = bool_step(v6, "accept.jxl"@, c).0;
    lemma_bool_step_keeps_others(v, "lossless"@, c, keys);
    lemma_bool_step_keeps_others(v4, "accept.webp"@, c, keys);
    lemma_keeps_trans(v, v4, v5, keys);
    lemma_bool_step_keeps_others(v5, "accept.avif"@, c, keys);
    lemma_keeps_trans(v, v5, v6, keys);
    lemma_bool_step_keeps_others(v6, "accept.jxl"@, c, keys);
    lemma_keeps_trans(v, v6, v7, keys);
    lemma_bool_step_keeps_others(v7, "accept.color_profiles"@, c, keys);
    lemma_keeps_trans(v, v7, flag_steps(v), keys);
}

proof fn lemma_text_keys_keep_others(v: KvView)
    ensures
        keeps_other_entries(
            v,
            after_take(
                after_take(v, "qp"@, "zenode.quality_intent"@),
                "format"@,
                "zenode.quality_intent"@,
            ),
            quality_keys(),
        ),
{
    let c = "zenode.quality_intent"@;
    let keys = quality_keys();
    assert(keys.contains(keys[0]) && keys.contains(keys[1]));
    let v1 = after_take(v, "qp"@, c);
    lemma_take_keeps_others(v, "qp"@, c, keys);
    lemma_take_keeps_others(v1, "format"@, c, keys);
    lemma_keeps_trans(v, v1, after_take(v1, "format"@, c), keys);
}

proof fn lemma_dpr_keys_keep_others<P: Fn(&str) -> Option<FloatBits>>(
    parse: P,
    v0: KvView,
    v3: KvView,
    dpr: Option<FloatBits>,
)
    requires
        number_chain(
            parse,
            after_take(
                after_take(v0, "qp"@, "zenode.quality_intent"@),
                "format"@,
                "zenode.quality_intent"@,
            ),
            dpr_keys(),
            "zenode.quality_intent"@,
            v3,
            dpr,
        ),
    ensures
        keeps_other_entries(v0, v3, quality_keys()),
{
    let c = "zenode.quality_intent"@;
    let keys = quality_keys();
    let v2 = after_take(after_take(v0, "qp"@, c), "format"@, c);
    assert forall|j: int| 0 <= j < dpr_keys().len() implies keys.contains(#[trigger] dpr_keys()[j]) by {
        assert(keys[j + 2] == dpr_keys()[j]);
        assert(keys.contains(keys[j + 2]));
    }
    lemma_text_keys_keep_others(v0);
    lemma_number_chain_keeps_others(parse, v2, dpr_keys(), c, v3, dpr, keys);
    lemma_keeps_trans(v0, v2, v3, keys);
}

/// Reading a [`QualityIntent`] from a querystring claims only its own keys:
/// every pair under another key is left as it was, for the nodes that read
/// after it.
pub proof fn quality_from_kv_claims_only_its_keys<P: Fn(&str) -> Option<FloatBits>>(
    parse: P,
    v0: KvView,
    v3: KvView,
    dpr: Option<FloatBits>,
    vf: KvView,
    r: Result<Option<QualityIntent>, NodeError>,
)
    requires
        number_chain(
            parse,
            after_take(
                after_take(v0, "qp"@, "zenode.quality_intent"@),
                "format"@,
                "zenode.quality_intent"@,
            ),
            dpr_keys(),
            "zenode.quality_intent"@,
            v3,
            dpr,
        ),
        quality_outcome(v0, v3, dpr, vf, r),
    ensures
        keeps_other_entries(v0, vf, quality_keys()),
{
    lemma_dpr_keys_keep_others(parse, v0, v3, dpr);
    assert(vf == flag_steps(v3));
    lemma_flags_keep_others(v3);
    lemma_keeps_trans(v0, v3, vf, quality_keys());
}

// ─── What the flag keys set ───

/// Steps under other keys leave what a take of `key` finds unchanged.
proof fn lemma_bool_step_other(v: KvView, k: Seq<char>, c: Seq<char>, key: Seq<char>)
    requires
        k != key,
    ensures
        take_value(bool_step(v, k, c).0, key) == take_value(v, key),
{
    take_leaves_other_keys(v, k, key, c);
    if let Some(val) = take_value(v, k) {
        let t = after_take(v, k, c);
        assert(with_warning(t, invalid_value_warning(k, val, " as boolean for key '"@)).entries == t.entries);
    }
}

proof fn lemma_number_chain_other<P: Fn(&str) -> Option<FloatBits>>(
    parse: P,
    v: KvView,
    ks: Seq<Seq<char>>,
    c: Seq<char>,
    out: KvView,
    d: Option<FloatBits>,
    key: Seq<char>,
)
    requires
        number_chain(parse, v, ks, c, out, d),
        forall|j: int| 0 <= j < ks.len() ==> #[trigger] ks[j] != key,
    ensures
        take_value(out, key) == take_value(v, key),
    decreases ks.len(),
{
    if ks.len() > 0 {
        let (mid, x) = choose|mid: KvView, x: Option<FloatBits>|
            {
                &&& #[trigger] number_step(parse, v, ks[0], c, mid, x)
                &&& if x is Some {
                    out == mid && d == x
                } else {
                    number_chain(parse, mid, ks.subrange(1, ks.len() as int), c, out, d)
                }
            };
        assert(ks[0] != key);
        take_leaves_other_keys(v, ks[0], key, c);
        if let Some(val) = take_value(v, ks[0]) {
            let t = after_take(v, ks[0], c);
            assert(with_warning(t, invalid_value_warning(ks[0], val, " as number for key '"@)).entries
                == t.entries);
        }
        assert(take_value(mid, key) == take_value(v, key));
        if x is None {
            let rest = ks.subrange(1, ks.len() as int);
            assert forall|j: int| 0 <= j < rest.len() implies #[trigger] rest[j] != key by {
                assert(rest[j] == ks[j + 1]);
            }
            lemma_number_chain_other(parse, mid, rest, c, out, d, key);
        }
    }
}

/// The querystring keys of [`QualityIntent`] are told apart.
proof fn lemma_quality_keys_apart()
    ensures
        forall|i: int, j: int| 0 <= i < j < quality_keys().len() ==> #[trigger] quality_keys()[i] != #[trigger] quality_keys()[j],
{
    reveal_strlit("qp");
    reveal_strlit("format");
    reveal_strlit("qp.dpr");
    reveal_strlit("qp.dppx");
    reveal_strlit("dpr");
    reveal_strlit("dppx");
    reveal_strlit("lossless");
    reveal_strlit("accept.webp");
    reveal_strlit("accept.avif");
    reveal_strlit("accept.jxl");
    reveal_strlit("accept.color_profiles");
    let k = quality_keys();
    assert(k[0].len() == 2 && k[1].len() == 6 && k[2].len() == 6 && k[3].len() == 7);
    assert(k[4].len() == 3 && k[5].len() == 4 && k[6].len() == 8 && k[7].len() == 11);
    assert(k[8].len() == 11 && k[9].len() == 10 && k[10].len() == 21);
    assert(k[1][0] == 'f' && k[2][0] == 'q');
    assert(k[7][7] == 'w' && k[8][7] == 'a');
}

/// What a take of a flag key finds once the text and `dpr` keys are read.
proof fn lemma_flag_key_untouched<P: Fn(&str) -> Option<FloatBits>>(
    parse: P,
    before: KvView,
    v3: KvView,
    dpr: Option<FloatBits>,
    key: Seq<char>,
)
    requires
        number_chain(
            parse,
            after_take(after_take(before, "qp"@, "zenode.quality_intent"@), "format"@, "zenode.quality_intent"@),
            dpr_keys(),
            "zenode.quality_intent"@,
            v3,
            dpr,
        ),
        key == "lossless"@ || key == "accept.webp"@ || key == "accept.avif"@ || key == "accept.jxl"@
            || key == "accept.color_profiles"@,
    ensures
        take_value(v3, key) == take_value(before, key),
{
    let c = "zenode.quality_intent"@;
    lemma_quality_keys_apart();
    let k = quality_keys();
    assert(k[6] == "lossless"@ && k[7] == "accept.webp"@ && k[8] == "accept.avif"@);
    assert(k[9] == "accept.jxl"@ && k[10] == "accept.color_profiles"@);
    assert(k[0] == "qp"@ && k[1] == "format"@);
    assert(k[0] != key && k[1] != key);
    take_leaves_other_keys(before, "qp"@, key, c);
    take_leaves_other_keys(after_take(before, "qp"@, c), "format"@, key, c);
    assert forall|j: int| 0 <= j < dpr_keys().len() implies #[trigger] dpr_keys()[j] != key by {
        assert(dpr_keys()[j] == k[j + 2]);
    }
    lemma_number_chain_other(
        parse,
        after_take(after_take(before, "qp"@, c), "format"@, c),
        dpr_keys(),
        c,
        v3,
        dpr,
        key,
    );
}

/// The flag keys of [`QualityIntent`] are told apart.
proof fn lemma_flag_keys_apart()
    ensures
        "lossless"@ != "accept.webp"@,
        "lossless"@ != "accept.avif"@,
        "lossless"@ != "accept.jxl"@,
        "lossless"@ != "accept.color_profiles"@,
        "accept.webp"@ != "accept.avif"@,
        "accept.webp"@ != "accept.jxl"@,
        "accept.webp"@ != "accept.color_profiles"@,
        "accept.avif"@ != "accept.jxl"@,
        "accept.avif"@ != "accept.color_profiles"@,
        "accept.jxl"@ != "accept.color_profiles"@,
{
    lemma_quality_keys_apart();
    let k = quality_keys();
    assert(k[6] == "lossless"@ && k[7] == "accept.webp"@ && k[8] == "accept.avif"@);
    assert(k[9] == "accept.jxl"@ && k[10] == "accept.color_profiles"@);
    assert(k[6] != k[7] && k[6] != k[8] && k[6] != k[9] && k[6] != k[10]);
    assert(k[7] != k[8] && k[7] != k[9] && k[7] != k[10]);
    assert(k[8] != k[9] && k[8] != k[10] && k[9] != k[10]);
}

/// The flags that [`quality_outcome`] reads from `v3` on.
proof fn lemma_flags_set(
    before: KvView,
    v3: KvView,
    dpr: Option<FloatBits>,
    after: KvView,
    r: Result<Option<QualityIntent>, NodeError>,
    key: Seq<char>,
    val: Seq<char>,
    b: bool,
)
    requires
        quality_outcome(before, v3, dpr, after, r),
        key == "lossless"@ || key == "accept.webp"@ || key == "accept.avif"@ || key == "accept.jxl"@
            || key == "accept.color_profiles"@,
        take_value(v3, key) == Some(val),
        bool_word(lowercase_text(val)) == Some(b),
    ensures
        r matches Ok(Some(q)) && {
            &&& key == "lossless"@ ==> q.lossless == b
            &&& key == "accept.webp"@ ==> q.allow_webp == b
            &&& key == "accept.avif"@ ==> q.allow_avif == b
            &&& key == "accept.jxl"@ ==> q.allow_jxl == b
            &&& key == "accept.color_profiles"@ ==> q.allow_color_profiles == b
        },
{
    let c = "zenode.quality_intent"@;
    lemma_flag_keys_apart();
    let (v4, lossless) = bool_step(v3, "lossless"@, c);
    let (v5, webp) = bool_step(v4, "accept.webp"@, c);
    let (v6, avif) = bool_step(v5, "accept.avif"@, c);
    let (v7, jxl) = bool_step(v6, "accept.jxl"@, c);
    let (v8, colors) = bool_step(v7, "accept.color_profiles"@, c);
    if key == "lossless"@ {
        assert(lossless == Some(b));
    } else {
        lemma_bool_step_other(v3, "lossless"@, c, key);
        if key == "accept.webp"@ {
            assert(webp == Some(b));
        } else {
            lemma_bool_step_other(v4, "accept.webp"@, c, key);
            if key == "accept.avif"@ {
                assert(avif == Some(b));
            } else {
                lemma_bool_step_other(v5, "accept.avif"@, c, key);
                if key == "accept.jxl"@ {
                    assert(jxl == Some(b));
                } else {
                    lemma_bool_step_other(v6, "accept.jxl"@, c, key);
                    assert(colors == Some(b));
                }
            }
        }
    }
}

/// Reading a [`QualityIntent`] from a querystring: where the value of one of
/// its flag keys spells a boolean (lower-cased, `"true"`, `"1"` or `"yes"`
/// for true; `"false"`, `"0"` or `"no"` for false), a node is read and its
/// field for that key holds that boolean: `lossless` sets `lossless`, and
/// `accept.webp`, `accept.avif`, `accept.jxl` and `accept.color_profiles` set
/// `allow_webp`, `allow_avif`, `allow_jxl` and `allow_color_profiles`.
pub proof fn quality_flags_follow_querystring<P: Fn(&str) -> Option<FloatBits>>(
    d: QualityIntentNodeDef<P>,
    before: KvView,
    after: KvView,
    r: Result<Option<QualityIntent>, NodeError>,
    key: Seq<char>,
    val: Seq<char>,
    b: bool,
)
    requires
        d.reads_kv(before, after, r),
        key == "lossless"@ || key == "accept.webp"@ || key == "accept.avif"@ || key == "accept.jxl"@
            || key == "accept.color_profiles"@,
        take_value(before, key) == Some(val),
        b ==> (lowercase_text(val) == "true"@ || lowercase_text(val) == "1"@ || lowercase_text(val) == "yes"@),
        !b ==> (lowercase_text(val) == "false"@ || lowercase_text(val) == "0"@ || lowercase_text(val) == "no"@),
    ensures
        r matches Ok(Some(q)) && {
            &&& key == "lossless"@ ==> q.lossless == b
            &&& key == "accept.webp"@ ==> q.allow_webp == b
            &&& key == "accept.avif"@ ==> q.allow_avif == b
            &&& key == "accept.jxl"@ ==> q.allow_jxl == b
            &&& key == "accept.color_profiles"@ ==> q.allow_color_profiles == b
        },
{
    let c = "zenode.quality_intent"@;
    let (v3, dpr) = choose|v3: KvView, dpr: Option<FloatBits>|
        {
            &&& #[trigger] number_chain(
                d.parser(),
                after_take(after_take(before, "qp"@, c), "format"@, c),
                dpr_keys(),
                c,
                v3,
                dpr,
            )
            &&& quality_outcome(before, v3, dpr, after, r)
        };
    lemma_flag_key_untouched(d.parser(), before, v3, dpr, key);
    bool_words_read_as_booleans(v3, key);
    lemma_flags_set(before, v3, dpr, after, r, key, val, b);
}

/// Reading a [`QualityIntent`] from a querystring: where `qp` has a value, a
/// node is read and its `profile` is that value; where `format` has one, its
/// `format` is that value.
pub proof fn quality_texts_follow_querystring<P: Fn(&str) -> Option<FloatBits>>(
    d: QualityIntentNodeDef<P>,
    before: KvView,
    after: KvView,
    r: Result<Option<QualityIntent>, NodeError>,
)
    requires
        d.reads_kv(before, after, r),
    ensures
        take_value(before, "qp"@) matches Some(v) ==> (r matches Ok(Some(q)) && q.profile@ == v),
        take_value(before, "format"@) matches Some(v) ==> (r matches Ok(Some(q)) && q.format@ == v),
{
    let c = "zenode.quality_intent"@;
    let (v3, dpr) = choose|v3: KvView, dpr: Option<FloatBits>|
        {
            &&& #[trigger] number_chain(
                d.parser(),
                after_take(after_take(before, "qp"@, c), "format"@, c),
                dpr_keys(),
                c,
                v3,
                dpr,
            )
            &&& quality_outcome(before, v3, dpr, after, r)
        };
    assert("qp"@ != "format"@) by {
        reveal_strlit("qp");
        reveal_strlit("format");
        assert("qp"@.len() == 2 && "format"@.len() == 6);
    }
    take_leaves_other_keys(before, "qp"@, "format"@, c);
}

} // verus!
