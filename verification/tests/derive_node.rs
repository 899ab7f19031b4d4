//! Node types written out the way `#[derive(Node)]` expands them, used
//! with the library's schema, querystring and registry types.

use std::any::Any;

use zennode::error::NodeError;
use zennode::format::{AlphaHandling, FormatHint, PixelFormatPreference};
use zennode::kv::{KvPairs, KvWarningKind};
use zennode::ordering::{CoalesceInfo, NodeRole};
use zennode::param::{ParamMap, ParamValue};
use zennode::registry::NodeRegistry;
use zennode::schema::{FloatBits, NodeGroup, NodeSchema, ParamDesc, ParamKind, SliderMapping};
use zennode::traits::NodeDef;

// ─── What the derive generates around every node ───

/// A live, parameterized node.
pub trait NodeInstance {
    fn schema(&self) -> &'static NodeSchema;
    fn to_params(&self) -> ParamMap;
    fn get_param(&self, name: &str) -> Option<ParamValue>;
    fn set_param(&mut self, name: &str, value: ParamValue) -> bool;
    fn as_any(&self) -> &dyn Any;
    fn clone_boxed(&self) -> Box<dyn NodeInstance>;
    fn is_identity(&self) -> bool;
}

type Instance = Box<dyn NodeInstance>;
type Def = &'static dyn NodeDef<Instance = Instance>;

const fn fb(v: f32) -> FloatBits {
    FloatBits(v.to_bits())
}

fn f32_of(v: &ParamValue) -> Option<f32> {
    match v {
        ParamValue::F32(b) => Some(f32::from_bits(b.0)),
        ParamValue::I32(i) => Some(*i as f32),
        ParamValue::U32(u) => Some(*u as f32),
        _ => None,
    }
}

fn parse_f32(s: &str) -> Option<f32> {
    s.parse::<f32>().ok()
}

const NUMBER: &str = " as number for key '";

const fn param(
    name: &'static str,
    label: &'static str,
    description: &'static str,
    kind: ParamKind,
    unit: &'static str,
    section: &'static str,
    slider: SliderMapping,
    kv_keys: &'static [&'static str],
    optional: bool,
) -> ParamDesc {
    ParamDesc {
        name,
        label,
        description,
        kind,
        unit,
        section,
        slider,
        kv_keys,
        since_version: 1,
        visible_when: "",
        optional,
        json_name: "",
        json_aliases: &[],
    }
}

const fn schema(
    id: &'static str,
    label: &'static str,
    description: &'static str,
    group: NodeGroup,
    role: NodeRole,
    params: &'static [ParamDesc],
    tags: &'static [&'static str],
    coalesce: Option<CoalesceInfo>,
    format: FormatHint,
) -> NodeSchema {
    NodeSchema {
        id,
        label,
        description,
        group,
        role,
        params,
        tags,
        coalesce,
        format,
        version: 1,
        compat_version: 1,
        json_key: "",
        deny_unknown_fields: false,
    }
}

const fn format(
    preferred: PixelFormatPreference,
    alpha: AlphaHandling,
    changes_dimensions: bool,
) -> FormatHint {
    FormatHint {
        preferred,
        alpha,
        changes_dimensions,
        is_neighborhood: false,
    }
}

// ─── Exposure ───

/// Exposure adjustment in photographic stops.
#[derive(Clone, Debug, Default)]
pub struct Exposure {
    pub stops: f32,
}

static EXPOSURE_PARAMS: [ParamDesc; 1] = [param(
    "stops",
    "Stops",
    "Exposure compensation in stops",
    ParamKind::Float {
        min: fb(-5.0),
        max: fb(5.0),
        default: fb(0.0),
        identity: fb(0.0),
        step: fb(0.1),
    },
    "EV",
    "Main",
    SliderMapping::Linear,
    &["exposure", "ev"],
    false,
)];

static EXPOSURE_SCHEMA: NodeSchema = schema(
    "test.exposure",
    "Exposure",
    "Exposure adjustment in photographic stops. Each stop doubles or halves brightness.",
    NodeGroup::Tone,
    NodeRole::Filter,
    &EXPOSURE_PARAMS,
    &["basic", "tone"],
    Some(CoalesceInfo {
        group: "fused_adjust",
        fusable: true,
        is_target: false,
    }),
    format(PixelFormatPreference::OklabF32, AlphaHandling::Skip, false),
);

pub struct ExposureNodeDef;
pub static EXPOSURE_NODE: ExposureNodeDef = ExposureNodeDef;

impl NodeDef for ExposureNodeDef {
    type Instance = Instance;

    fn schema(&self) -> &'static NodeSchema {
        &EXPOSURE_SCHEMA
    }

    fn create(&self, params: &ParamMap) -> Result<Instance, NodeError> {
        let mut node = Exposure::default();
        for (name, value) in params {
            node.set_param(name, value.clone());
        }
        Ok(Box::new(node))
    }

    fn from_kv(&self, kv: &mut KvPairs) -> Result<Option<Instance>, NodeError> {
        let mut node = Exposure::default();
        let mut matched = false;
        if let Some(v) = kv.take_parsed("exposure", "test.exposure", &parse_f32, NUMBER) {
            node.stops = v;
            matched = true;
        } else if let Some(v) = kv.take_parsed("ev", "test.exposure", &parse_f32, NUMBER) {
            node.stops = v;
            matched = true;
        }
        Ok(if matched { Some(Box::new(node)) } else { None })
    }
}

impl NodeInstance for Exposure {
    fn schema(&self) -> &'static NodeSchema {
        &EXPOSURE_SCHEMA
    }
    fn to_params(&self) -> ParamMap {
        let mut map = ParamMap::new();
        map.insert("stops".into(), ParamValue::F32(fb(self.stops)));
        map
    }
    fn get_param(&self, name: &str) -> Option<ParamValue> {
        match name {
            "stops" => Some(ParamValue::F32(fb(self.stops))),
            _ => None,
        }
    }
    fn set_param(&mut self, name: &str, value: ParamValue) -> bool {
        match name {
            "stops" => match f32_of(&value) {
                Some(v) => {
                    self.stops = v;
                    true
                }
                None => false,
            },
            _ => false,
        }
    }
    fn as_any(&self) -> &dyn Any {
        self
    }
    fn clone_boxed(&self) -> Box<dyn NodeInstance> {
        Box::new(self.clone())
    }
    fn is_identity(&self) -> bool {
        (self.stops - 0.0).abs() < 1e-6
    }
}

// ─── Resize ───

/// Resize to specified dimensions.
#[derive(Clone, Debug, Default)]
pub struct Resize {
    pub width: u32,
    pub height: u32,
    pub sharp_yuv: bool,
}

static RESIZE_PARAMS: [ParamDesc; 3] = [
    param(
        "width",
        "Width",
        "Target width in pixels",
        ParamKind::U32 { min: 0, max: 65535, default: 0 },
        "px",
        "Main",
        SliderMapping::Linear,
        &["w", "width"],
        false,
    ),
    param(
        "height",
        "Height",
        "Target height in pixels",
        ParamKind::U32 { min: 0, max: 65535, default: 0 },
        "px",
        "Main",
        SliderMapping::Linear,
        &["h", "height"],
        false,
    ),
    param(
        "sharp_yuv",
        "Sharp Yuv",
        "Whether to use sharp downsampling",
        ParamKind::Bool { default: false },
        "",
        "Advanced",
        SliderMapping::Linear,
        &["sharp"],
        false,
    ),
];

static RESIZE_SCHEMA: NodeSchema = schema(
    "test.resize",
    "Resize",
    "Resize to specified dimensions.",
    NodeGroup::Geometry,
    NodeRole::Geometry,
    &RESIZE_PARAMS,
    &[],
    None,
    format(PixelFormatPreference::LinearF32, AlphaHandling::RequirePremul, true),
);

pub struct ResizeNodeDef;
pub static RESIZE_NODE: ResizeNodeDef = ResizeNodeDef;

impl NodeDef for ResizeNodeDef {
    type Instance = Instance;

    fn schema(&self) -> &'static NodeSchema {
        &RESIZE_SCHEMA
    }

    fn create(&self, params: &ParamMap) -> Result<Instance, NodeError> {
        let mut node = Resize::default();
        for (name, value) in params {
            node.set_param(name, value.clone());
        }
        Ok(Box::new(node))
    }

    fn from_kv(&self, kv: &mut KvPairs) -> Result<Option<Instance>, NodeError> {
        let mut node = Resize::default();
        let mut matched = false;
        if let Some(v) = kv.take_u32("w", "test.resize") {
            node.width = v;
            matched = true;
        } else if let Some(v) = kv.take_u32("width", "test.resize") {
            node.width = v;
            matched = true;
        }
        if let Some(v) = kv.take_u32("h", "test.resize") {
            node.height = v;
            matched = true;
        } else if let Some(v) = kv.take_u32("height", "test.resize") {
            node.height = v;
            matched = true;
        }
        if let Some(v) = kv.take_bool("sharp", "test.resize") {
            node.sharp_yuv = v;
            matched = true;
        }
        Ok(if matched { Some(Box::new(node)) } else { None })
    }
}

impl NodeInstance for Resize {
    fn schema(&self) -> &'static NodeSchema {
        &RESIZE_SCHEMA
    }
    fn to_params(&self) -> ParamMap {
        let mut map = ParamMap::new();
        map.insert("width".into(), ParamValue::U32(self.width));
        map.insert("height".into(), ParamValue::U32(self.height));
        map.insert("sharp_yuv".into(), ParamValue::Bool(self.sharp_yuv));
        map
    }
    fn get_param(&self, name: &str) -> Option<ParamValue> {
        match name {
            "width" => Some(ParamValue::U32(self.width)),
            "height" => Some(ParamValue::U32(self.height)),
            "sharp_yuv" => Some(ParamValue::Bool(self.sharp_yuv)),
            _ => None,
        }
    }
    fn set_param(&mut self, name: &str, value: ParamValue) -> bool {
        match name {
            "width" => match value.as_u32() {
                Some(v) => {
                    self.width = v;
                    true
                }
                None => false,
            },
            "height" => match value.as_u32() {
                Some(v) => {
                    self.height = v;
                    true
                }
                None => false,
            },
            "sharp_yuv" => match value.as_bool() {
                Some(v) => {
                    self.sharp_yuv = v;
                    true
                }
                None => false,
            },
            _ => false,
        }
    }
    fn as_any(&self) -> &dyn Any {
        self
    }
    fn clone_boxed(&self) -> Box<dyn NodeInstance> {
        Box::new(self.clone())
    }
    fn is_identity(&self) -> bool {
        false
    }
}

// ─── Float-array nodes ───

const HUE_LABELS: [&str; 8] = [
    "Red", "Orange", "Yellow", "Green", "Cyan", "Blue", "Purple", "Magenta",
];

fn array_is(arr: &[f32; 8], identity: f32) -> bool {
    arr.iter().all(|v| (v - identity).abs() < 1e-6)
}

fn set_array(arr: &mut [f32; 8], value: &ParamValue) -> bool {
    match value.as_f32_array() {
        Some(v) if v.len() == 8 => {
            for (slot, b) in arr.iter_mut().zip(v) {
                *slot = f32::from_bits(b.0);
            }
            true
        }
        _ => false,
    }
}

fn array_value(arr: &[f32; 8]) -> ParamValue {
    ParamValue::F32Array(arr.iter().map(|v| fb(*v)).collect())
}

/// HSL-style per-hue adjustment with [f32; 8] array fields.
#[derive(Clone, Debug)]
pub struct HslAdjust {
    pub hue: [f32; 8],
    pub saturation: [f32; 8],
    pub luminance: [f32; 8],
}

static HSL_PARAMS: [ParamDesc; 3] = [
    param(
        "hue",
        "Hue",
        "Per-hue hue shift",
        ParamKind::FloatArray {
            len: 8,
            min: fb(-180.0),
            max: fb(180.0),
            default: fb(0.0),
            labels: &HUE_LABELS,
        },
        "\u{00b0}",
        "Hue",
        SliderMapping::NotSlider,
        &[],
        false,
    ),
    param(
        "saturation",
        "Saturation",
        "Per-hue saturation multiplier",
        ParamKind::FloatArray {
            len: 8,
            min: fb(0.0),
            max: fb(3.0),
            default: fb(1.0),
            labels: &HUE_LABELS,
        },
        "\u{00d7}",
        "Saturation",
        SliderMapping::NotSlider,
        &[],
        false,
    ),
    param(
        "luminance",
        "Luminance",
        "Per-hue luminance offset",
        ParamKind::FloatArray {
            len: 8,
            min: fb(-0.5),
            max: fb(0.5),
            default: fb(0.0),
            labels: &HUE_LABELS,
        },
        "",
        "Luminance",
        SliderMapping::NotSlider,
        &[],
        false,
    ),
];

static HSL_SCHEMA: NodeSchema = schema(
    "test.hsl_adjust",
    "Hsl Adjust",
    "HSL-style per-hue adjustment with [f32; 8] array fields.",
    NodeGroup::Color,
    NodeRole::Filter,
    &HSL_PARAMS,
    &[],
    None,
    format(PixelFormatPreference::OklabF32, AlphaHandling::Skip, false),
);

pub struct HslAdjustNodeDef;
pub static HSL_ADJUST_NODE: HslAdjustNodeDef = HslAdjustNodeDef;

impl Default for HslAdjust {
    fn default() -> Self {
        HslAdjust {
            hue: [0.0; 8],
            saturation: [1.0; 8],
            luminance: [0.0; 8],
        }
    }
}

impl NodeDef for HslAdjustNodeDef {
    type Instance = Instance;

    fn schema(&self) -> &'static NodeSchema {
        &HSL_SCHEMA
    }

    fn create(&self, params: &ParamMap) -> Result<Instance, NodeError> {
        let mut node = HslAdjust::default();
        for (name, value) in params {
            node.set_param(name, value.clone());
        }
        Ok(Box::new(node))
    }

    fn from_kv(&self, _kv: &mut KvPairs) -> Result<Option<Instance>, NodeError> {
        Ok(None)
    }
}

impl NodeInstance for HslAdjust {
    fn schema(&self) -> &'static NodeSchema {
        &HSL_SCHEMA
    }
    fn to_params(&self) -> ParamMap {
        let mut map = ParamMap::new();
        map.insert("hue".into(), array_value(&self.hue));
        map.insert("saturation".into(), array_value(&self.saturation));
        map.insert("luminance".into(), array_value(&self.luminance));
        map
    }
    fn get_param(&self, name: &str) -> Option<ParamValue> {
        match name {
            "hue" => Some(array_value(&self.hue)),
            "saturation" => Some(array_value(&self.saturation)),
            "luminance" => Some(array_value(&self.luminance)),
            _ => None,
        }
    }
    fn set_param(&mut self, name: &str, value: ParamValue) -> bool {
        match name {
            "hue" => set_array(&mut self.hue, &value),
            "saturation" => set_array(&mut self.saturation, &value),
            "luminance" => set_array(&mut self.luminance, &value),
            _ => false,
        }
    }
    fn as_any(&self) -> &dyn Any {
        self
    }
    fn clone_boxed(&self) -> Box<dyn NodeInstance> {
        Box::new(self.clone())
    }
    fn is_identity(&self) -> bool {
        array_is(&self.hue, 0.0) && array_is(&self.saturation, 1.0) && array_is(&self.luminance, 0.0)
    }
}

/// B&W mixer weights.
#[derive(Clone, Debug)]
pub struct BwMixer {
    pub weights: [f32; 8],
}

static BW_PARAMS: [ParamDesc; 1] = [param(
    "weights",
    "Weights",
    "Per-hue grayscale contribution weights",
    ParamKind::FloatArray {
        len: 8,
        min: fb(0.0),
        max: fb(2.0),
        default: fb(1.0),
        labels: &HUE_LABELS,
    },
    "\u{00d7}",
    "Main",
    SliderMapping::NotSlider,
    &[],
    false,
)];

static BW_SCHEMA: NodeSchema = schema(
    "test.bw_mixer",
    "Bw Mixer",
    "B&W mixer weights.",
    NodeGroup::Color,
    NodeRole::Filter,
    &BW_PARAMS,
    &[],
    None,
    format(PixelFormatPreference::OklabF32, AlphaHandling::Skip, false),
);

pub struct BwMixerNodeDef;
pub static BW_MIXER_NODE: BwMixerNodeDef = BwMixerNodeDef;

impl NodeDef for BwMixerNodeDef {
    type Instance = Instance;
    fn schema(&self) -> &'static NodeSchema {
        &BW_SCHEMA
    }
    fn create(&self, params: &ParamMap) -> Result<Instance, NodeError> {
        let mut node = BwMixer { weights: [1.0; 8] };
        for (name, value) in params {
            node.set_param(name, value.clone());
        }
        Ok(Box::new(node))
    }
    fn from_kv(&self, _kv: &mut KvPairs) -> Result<Option<Instance>, NodeError> {
        Ok(None)
    }
}

impl NodeInstance for BwMixer {
    fn schema(&self) -> &'static NodeSchema {
        &BW_SCHEMA
    }
    fn to_params(&self) -> ParamMap {
        let mut map = ParamMap::new();
        map.insert("weights".into(), array_value(&self.weights));
        map
    }
    fn get_param(&self, name: &str) -> Option<ParamValue> {
        match name {
            "weights" => Some(array_value(&self.weights)),
            _ => None,
        }
    }
    fn set_param(&mut self, name: &str, value: ParamValue) -> bool {
        match name {
            "weights" => set_array(&mut self.weights, &value),
            _ => false,
        }
    }
    fn as_any(&self) -> &dyn Any {
        self
    }
    fn clone_boxed(&self) -> Box<dyn NodeInstance> {
        Box::new(self.clone())
    }
    fn is_identity(&self) -> bool {
        array_is(&self.weights, 1.0)
    }
}

/// Minimal array node for targeted tests.
#[derive(Clone, Debug)]
pub struct ArrayNode {
    pub hue: [f32; 8],
}

static ARRAY_PARAMS: [ParamDesc; 1] = [param(
    "hue",
    "Hue",
    "Test array field",
    ParamKind::FloatArray {
        len: 8,
        min: fb(-180.0),
        max: fb(180.0),
        default: fb(0.0),
        labels: &["R", "O", "Y", "G", "C", "B", "P", "M"],
    },
    "",
    "Main",
    SliderMapping::Linear,
    &[],
    false,
)];

static ARRAY_SCHEMA: NodeSchema = schema(
    "test.array_node",
    "Array Node",
    "Minimal array node for targeted tests.",
    NodeGroup::Color,
    NodeRole::Filter,
    &ARRAY_PARAMS,
    &[],
    None,
    format(PixelFormatPreference::Any, AlphaHandling::Process, false),
);

pub struct ArrayNodeNodeDef;
pub static ARRAY_NODE_NODE: ArrayNodeNodeDef = ArrayNodeNodeDef;

impl NodeDef for ArrayNodeNodeDef {
    type Instance = Instance;
    fn schema(&self) -> &'static NodeSchema {
        &ARRAY_SCHEMA
    }
    fn create(&self, params: &ParamMap) -> Result<Instance, NodeError> {
        let mut node = ArrayNode { hue: [0.0; 8] };
        for (name, value) in params {
            node.set_param(name, value.clone());
        }
        Ok(Box::new(node))
    }
    fn from_kv(&self, _kv: &mut KvPairs) -> Result<Option<Instance>, NodeError> {
        Ok(None)
    }
}

impl NodeInstance for ArrayNode {
    fn schema(&self) -> &'static NodeSchema {
        &ARRAY_SCHEMA
    }
    fn to_params(&self) -> ParamMap {
        let mut map = ParamMap::new();
        map.insert("hue".into(), array_value(&self.hue));
        map
    }
    fn get_param(&self, name: &str) -> Option<ParamValue> {
        match name {
            "hue" => Some(array_value(&self.hue)),
            _ => None,
        }
    }
    fn set_param(&mut self, name: &str, value: ParamValue) -> bool {
        match name {
            "hue" => set_array(&mut self.hue, &value),
            _ => false,
        }
    }
    fn as_any(&self) -> &dyn Any {
        self
    }
    fn clone_boxed(&self) -> Box<dyn NodeInstance> {
        Box::new(self.clone())
    }
    fn is_identity(&self) -> bool {
        array_is(&self.hue, 0.0)
    }
}

// ─── Optional parameters ───

/// Constraint with optional fields.
#[derive(Clone, Debug, Default)]
pub struct ConstrainOpt {
    pub w: Option<u32>,
    pub h: Option<u32>,
    pub filter: Option<String>,
    pub sharpen: Option<f32>,
    pub linear: Option<bool>,
}

static CONSTRAIN_PARAMS: [ParamDesc; 5] = [
    param(
        "w",
        "W",
        "Target width. None = unconstrained.",
        ParamKind::U32 { min: 0, max: 65535, default: 0 },
        "px",
        "Main",
        SliderMapping::Linear,
        &["w"],
        true,
    ),
    param(
        "h",
        "H",
        "Target height. None = unconstrained.",
        ParamKind::U32 { min: 0, max: 65535, default: 0 },
        "px",
        "Main",
        SliderMapping::Linear,
        &["h"],
        true,
    ),
    param(
        "filter",
        "Filter",
        "Resampling filter. None = auto-select.",
        ParamKind::Str { default: "lanczos" },
        "",
        "Hints",
        SliderMapping::Linear,
        &["filter"],
        true,
    ),
    param(
        "sharpen",
        "Sharpen",
        "Sharpening percentage. None = no sharpening.",
        ParamKind::Float {
            min: fb(0.0),
            max: fb(100.0),
            default: fb(0.0),
            identity: fb(0.0),
            step: fb(0.1),
        },
        "%",
        "Hints",
        SliderMapping::Linear,
        &["sharpen"],
        true,
    ),
    param(
        "linear",
        "Linear",
        "Whether to process in linear light. None = auto.",
        ParamKind::Bool { default: true },
        "",
        "Hints",
        SliderMapping::Linear,
        &[],
        true,
    ),
];

static CONSTRAIN_SCHEMA: NodeSchema = schema(
    "test.constrain_opt",
    "Constrain Opt",
    "Constraint with optional fields — models imageflow-style ergonomics.",
    NodeGroup::Layout,
    NodeRole::Geometry,
    &CONSTRAIN_PARAMS,
    &[],
    None,
    format(PixelFormatPreference::Any, AlphaHandling::Process, true),
);

pub struct ConstrainOptNodeDef;
pub static CONSTRAIN_OPT_NODE: ConstrainOptNodeDef = ConstrainOptNodeDef;

impl NodeDef for ConstrainOptNodeDef {
    type Instance = Instance;
    fn schema(&self) -> &'static NodeSchema {
        &CONSTRAIN_SCHEMA
    }
    fn create(&self, params: &ParamMap) -> Result<Instance, NodeError> {
        let mut node = ConstrainOpt::default();
        for (name, value) in params {
            node.set_param(name, value.clone());
        }
        Ok(Box::new(node))
    }
    fn from_kv(&self, kv: &mut KvPairs) -> Result<Option<Instance>, NodeError> {
        let id = "test.constrain_opt";
        let mut node = ConstrainOpt::default();
        let mut matched = false;
        if let Some(v) = kv.take_u32("w", id) {
            node.w = Some(v);
            matched = true;
        }
        if let Some(v) = kv.take_u32("h", id) {
            node.h = Some(v);
            matched = true;
        }
        if let Some(v) = kv.take_owned("filter", id) {
            node.filter = Some(v);
            matched = true;
        }
        if let Some(v) = kv.take_parsed("sharpen", id, &parse_f32, NUMBER) {
            node.sharpen = Some(v);
            matched = true;
        }
        Ok(if matched { Some(Box::new(node)) } else { None })
    }
}

impl NodeInstance for ConstrainOpt {
    fn schema(&self) -> &'static NodeSchema {
        &CONSTRAIN_SCHEMA
    }
    fn to_params(&self) -> ParamMap {
        let mut map = ParamMap::new();
        for name in ["w", "h", "filter", "sharpen", "linear"] {
            map.insert(name.into(), self.get_param(name).unwrap());
        }
        map
    }
    fn get_param(&self, name: &str) -> Option<ParamValue> {
        Some(match name {
            "w" => self.w.map(ParamValue::U32).unwrap_or(ParamValue::Unset),
            "h" => self.h.map(ParamValue::U32).unwrap_or(ParamValue::Unset),
            "filter" => self
                .filter
                .clone()
                .map(ParamValue::Str)
                .unwrap_or(ParamValue::Unset),
            "sharpen" => self
                .sharpen
                .map(|v| ParamValue::F32(fb(v)))
                .unwrap_or(ParamValue::Unset),
            "linear" => self.linear.map(ParamValue::Bool).unwrap_or(ParamValue::Unset),
            _ => return None,
        })
    }
    fn set_param(&mut self, name: &str, value: ParamValue) -> bool {
        let unset = value.is_none();
        match name {
            "w" => {
                if unset {
                    self.w = None;
                    return true;
                }
                value.as_u32().map(|v| self.w = Some(v)).is_some()
            }
            "h" => {
                if unset {
                    self.h = None;
                    return true;
                }
                value.as_u32().map(|v| self.h = Some(v)).is_some()
            }
            "filter" => {
                if unset {
                    self.filter = None;
                    return true;
                }
                value
                    .as_str()
                    .map(|v| self.filter = Some(v.to_string()))
                    .is_some()
            }
            "sharpen" => {
                if unset {
                    self.sharpen = None;
                    return true;
                }
                f32_of(&value).map(|v| self.sharpen = Some(v)).is_some()
            }
            "linear" => {
                if unset {
                    self.linear = None;
                    return true;
                }
                value.as_bool().map(|v| self.linear = Some(v)).is_some()
            }
            _ => false,
        }
    }
    fn as_any(&self) -> &dyn Any {
        self
    }
    fn clone_boxed(&self) -> Box<dyn NodeInstance> {
        Box::new(self.clone())
    }
    fn is_identity(&self) -> bool {
        false
    }
}

// ─── JSON names and keys ───

/// Node with json_key, json_name, json_alias, deny_unknown_fields.
#[derive(Clone, Debug, Default)]
pub struct ImageflowConstrain {
    pub w: Option<u32>,
    pub h: Option<u32>,
    pub mode: String,
    pub sharpen: Option<f32>,
    /// Resample hints, as JSON text.
    pub hints: Option<String>,
}

const IMAGEFLOW_CONSTRAIN_PARAMS: [ParamDesc; 5] = [
    param(
        "w",
        "W",
        "Target width.",
        ParamKind::U32 { min: 0, max: 65535, default: 0 },
        "",
        "Main",
        SliderMapping::Linear,
        &[],
        true,
    ),
    param(
        "h",
        "H",
        "Target height.",
        ParamKind::U32 { min: 0, max: 65535, default: 0 },
        "",
        "Main",
        SliderMapping::Linear,
        &[],
        true,
    ),
    param(
        "mode",
        "Mode",
        "Constraint mode.",
        ParamKind::Str { default: "within" },
        "",
        "Main",
        SliderMapping::Linear,
        &[],
        false,
    ),
    ParamDesc {
        json_name: "sharpen_percent",
        json_aliases: &["sharpen_pct"],
        ..param(
            "sharpen",
            "Sharpen",
            "Sharpening (renamed for imageflow compat).",
            ParamKind::Float {
                min: fb(0.0),
                max: fb(100.0),
                default: fb(0.0),
                identity: fb(0.0),
                step: fb(1.0),
            },
            "",
            "Main",
            SliderMapping::Linear,
            &[],
            true,
        )
    },
    param(
        "hints",
        "Hints",
        "Resample hints (nested object).",
        ParamKind::Json {
            json_schema: r#"{"type":"object","properties":{"down_filter":{"type":"string"},"up_filter":{"type":"string"}}}"#,
            default_json: "",
        },
        "",
        "Main",
        SliderMapping::NotSlider,
        &[],
        true,
    ),
];

static IMAGEFLOW_CONSTRAIN_PARAMS_STATIC: [ParamDesc; 5] = IMAGEFLOW_CONSTRAIN_PARAMS;

static IMAGEFLOW_CONSTRAIN_SCHEMA: NodeSchema = NodeSchema {
    json_key: "constrain",
    deny_unknown_fields: true,
    ..schema(
        "test.imageflow_constrain",
        "Imageflow Constrain",
        "Node with json_key, json_name, json_alias, deny_unknown_fields.",
        NodeGroup::Layout,
        NodeRole::Resize,
        &IMAGEFLOW_CONSTRAIN_PARAMS_STATIC,
        &[],
        None,
        format(PixelFormatPreference::Any, AlphaHandling::Process, true),
    )
};

pub struct ImageflowConstrainNodeDef;
pub static IMAGEFLOW_CONSTRAIN_NODE: ImageflowConstrainNodeDef = ImageflowConstrainNodeDef;

impl NodeDef for ImageflowConstrainNodeDef {
    type Instance = Instance;
    fn schema(&self) -> &'static NodeSchema {
        &IMAGEFLOW_CONSTRAIN_SCHEMA
    }
    fn create(&self, params: &ParamMap) -> Result<Instance, NodeError> {
        let mut node = ImageflowConstrain {
            mode: "within".into(),
            ..Default::default()
        };
        for (name, value) in params {
            node.set_param(name, value.clone());
        }
        Ok(Box::new(node))
    }
    fn from_kv(&self, _kv: &mut KvPairs) -> Result<Option<Instance>, NodeError> {
        Ok(None)
    }
}

impl NodeInstance for ImageflowConstrain {
    fn schema(&self) -> &'static NodeSchema {
        &IMAGEFLOW_CONSTRAIN_SCHEMA
    }
    fn to_params(&self) -> ParamMap {
        let mut map = ParamMap::new();
        for name in ["w", "h", "mode", "sharpen", "hints"] {
            map.insert(name.into(), self.get_param(name).unwrap());
        }
        map
    }
    fn get_param(&self, name: &str) -> Option<ParamValue> {
        Some(match name {
            "w" => self.w.map(ParamValue::U32).unwrap_or(ParamValue::Unset),
            "h" => self.h.map(ParamValue::U32).unwrap_or(ParamValue::Unset),
            "mode" => ParamValue::Str(self.mode.clone()),
            "sharpen" => self
                .sharpen
                .map(|v| ParamValue::F32(fb(v)))
                .unwrap_or(ParamValue::Unset),
            "hints" => self.hints.clone().map(ParamValue::Json).unwrap_or(ParamValue::Unset),
            _ => return None,
        })
    }
    fn set_param(&mut self, name: &str, value: ParamValue) -> bool {
        let unset = value.is_none();
        match name {
            "w" if unset => {
                self.w = None;
                true
            }
            "w" => value.as_u32().map(|v| self.w = Some(v)).is_some(),
            "h" if unset => {
                self.h = None;
                true
            }
            "h" => value.as_u32().map(|v| self.h = Some(v)).is_some(),
            "mode" => value.as_str().map(|v| self.mode = v.to_string()).is_some(),
            "sharpen" if unset => {
                self.sharpen = None;
                true
            }
            "sharpen" => f32_of(&value).map(|v| self.sharpen = Some(v)).is_some(),
            "hints" if unset => {
                self.hints = None;
                true
            }
            "hints" => match value {
                ParamValue::Json(text) => {
                    self.hints = Some(text);
                    true
                }
                _ => false,
            },
            _ => false,
        }
    }
    fn as_any(&self) -> &dyn Any {
        self
    }
    fn clone_boxed(&self) -> Box<dyn NodeInstance> {
        Box::new(self.clone())
    }
    fn is_identity(&self) -> bool {
        false
    }
}

// ─── Tests ───

#[test]
fn derive_node_schema_metadata() {
    let schema = EXPOSURE_NODE.schema();
    assert_eq!(schema.id, "test.exposure");
    assert_eq!(schema.label, "Exposure");
    assert_eq!(schema.group, NodeGroup::Tone);
    assert_eq!(schema.role, NodeRole::Filter);
    assert_eq!(schema.version, 1);
    assert_eq!(schema.tags, &["basic", "tone"]);
    assert!(schema.coalesce.is_some());
    let coal = schema.coalesce.as_ref().unwrap();
    assert_eq!(coal.group, "fused_adjust");
    assert!(coal.fusable);
    assert!(!coal.is_target);
    assert_eq!(schema.format.preferred, PixelFormatPreference::OklabF32);
    assert_eq!(schema.format.alpha, AlphaHandling::Skip);
}

#[test]
fn derive_node_param_metadata() {
    let schema = EXPOSURE_NODE.schema();
    assert_eq!(schema.params.len(), 1);
    let p = &schema.params[0];
    assert_eq!(p.name, "stops");
    assert_eq!(p.label, "Stops");
    assert_eq!(p.unit, "EV");
    assert_eq!(p.section, "Main");
    assert_eq!(p.kv_keys, &["exposure", "ev"]);
    match &p.kind {
        ParamKind::Float {
            min,
            max,
            default,
            identity,
            step,
        } => {
            assert_eq!(f32::from_bits(min.0), -5.0);
            assert_eq!(f32::from_bits(max.0), 5.0);
            assert_eq!(f32::from_bits(default.0), 0.0);
            assert_eq!(f32::from_bits(identity.0), 0.0);
            assert_eq!(f32::from_bits(step.0), 0.1);
        }
        _ => panic!("expected Float"),
    }
}

#[test]
fn derive_node_create_default() {
    let instance = EXPOSURE_NODE.create_default().unwrap();
    assert_eq!(instance.schema().id, "test.exposure");
    assert_eq!(instance.get_param("stops"), Some(ParamValue::F32(fb(0.0))));
    assert!(instance.is_identity());
}

#[test]
fn derive_node_create_with_params() {
    let mut params = ParamMap::new();
    params.insert("stops".into(), ParamValue::F32(fb(1.5)));
    let instance = EXPOSURE_NODE.create(&params).unwrap();
    assert_eq!(instance.get_param("stops"), Some(ParamValue::F32(fb(1.5))));
    assert!(!instance.is_identity());
}

#[test]
fn derive_node_set_and_get_param() {
    let mut exp = Exposure::default();
    assert!(exp.set_param("stops", ParamValue::F32(fb(2.0))));
    assert_eq!(exp.get_param("stops"), Some(ParamValue::F32(fb(2.0))));
    assert!(!exp.set_param("nonexistent", ParamValue::F32(fb(1.0))));
}

#[test]
fn derive_node_to_params_round_trip() {
    let exp = Exposure { stops: 1.5 };
    let params = exp.to_params();
    assert_eq!(params.get("stops"), Some(&ParamValue::F32(fb(1.5))));

    let instance = EXPOSURE_NODE.create(&params).unwrap();
    assert_eq!(instance.get_param("stops"), Some(ParamValue::F32(fb(1.5))));
}

#[test]
fn derive_node_from_kv_basic() {
    let mut kv = KvPairs::from_querystring("exposure=1.5");
    let instance = EXPOSURE_NODE.from_kv(&mut kv).unwrap().unwrap();
    assert_eq!(instance.get_param("stops"), Some(ParamValue::F32(fb(1.5))));
    assert_eq!(kv.unconsumed().len(), 0);
}

#[test]
fn derive_node_from_kv_alias() {
    let mut kv = KvPairs::from_querystring("ev=2.0");
    let instance = EXPOSURE_NODE.from_kv(&mut kv).unwrap().unwrap();
    assert_eq!(instance.get_param("stops"), Some(ParamValue::F32(fb(2.0))));
}

#[test]
fn derive_node_from_kv_no_match() {
    let mut kv = KvPairs::from_querystring("w=800");
    let result = EXPOSURE_NODE.from_kv(&mut kv).unwrap();
    assert!(result.is_none());
}

#[test]
fn derive_node_multi_field_node() {
    let schema = RESIZE_NODE.schema();
    assert_eq!(schema.params.len(), 3);
    assert_eq!(schema.params[0].name, "width");
    assert_eq!(schema.params[1].name, "height");
    assert_eq!(schema.params[2].name, "sharp_yuv");
    assert!(schema.format.changes_dimensions);
}

#[test]
fn derive_node_multi_field_from_kv() {
    let mut kv = KvPairs::from_querystring("w=800&h=600&sharp=true");
    let instance = RESIZE_NODE.from_kv(&mut kv).unwrap().unwrap();
    assert_eq!(instance.get_param("width"), Some(ParamValue::U32(800)));
    assert_eq!(instance.get_param("height"), Some(ParamValue::U32(600)));
    assert_eq!(instance.get_param("sharp_yuv"), Some(ParamValue::Bool(true)));
    assert_eq!(kv.unconsumed().len(), 0);
}

#[test]
fn derive_node_downcast() {
    let instance = EXPOSURE_NODE.create_default().unwrap();
    let exp = instance.as_any().downcast_ref::<Exposure>().unwrap();
    assert_eq!(exp.stops, 0.0);
}

#[test]
fn derive_node_clone_boxed() {
    let instance = EXPOSURE_NODE.create_default().unwrap();
    let cloned = instance.clone_boxed();
    assert_eq!(cloned.get_param("stops"), instance.get_param("stops"));
}

fn registry() -> NodeRegistry<Def> {
    NodeRegistry::new()
}

#[test]
fn derive_node_registry_basic() {
    let mut registry = registry();
    registry.register(&EXPOSURE_NODE);
    registry.register(&RESIZE_NODE);

    assert!(registry.get("test.exposure").is_some());
    assert!(registry.get("test.resize").is_some());
    assert!(registry.get("test.nonexistent").is_none());
    assert_eq!(registry.all().len(), 2);
}

#[test]
fn derive_node_registry_from_querystring() {
    let mut registry = registry();
    registry.register(&EXPOSURE_NODE);
    registry.register(&RESIZE_NODE);

    let result = registry.from_querystring("exposure=1.5&w=800&h=600");
    assert_eq!(result.instances.len(), 2);
    let exp = &result.instances[0];
    assert_eq!(exp.schema().id, "test.exposure");
    assert_eq!(exp.get_param("stops"), Some(ParamValue::F32(fb(1.5))));
    let rsz = &result.instances[1];
    assert_eq!(rsz.schema().id, "test.resize");
    assert_eq!(rsz.get_param("width"), Some(ParamValue::U32(800)));
}

#[test]
fn derive_node_registry_warns_unrecognized_keys() {
    let mut registry = registry();
    registry.register(&EXPOSURE_NODE);

    let result = registry.from_querystring("exposure=1.5&unknown=foo");
    assert_eq!(result.instances.len(), 1);
    assert!(result
        .warnings
        .iter()
        .any(|w| w.kind == KvWarningKind::UnrecognizedKey && w.key == "unknown"));
}

#[test]
fn derive_node_array_schema_metadata() {
    let schema = ARRAY_NODE_NODE.schema();
    assert_eq!(schema.id, "test.array_node");
    assert_eq!(schema.params.len(), 1);
    let p = &schema.params[0];
    assert_eq!(p.name, "hue");
    assert_eq!(p.label, "Hue");
    match &p.kind {
        ParamKind::FloatArray {
            len,
            min,
            max,
            default,
            labels,
        } => {
            assert_eq!(*len, 8);
            assert_eq!(f32::from_bits(min.0), -180.0);
            assert_eq!(f32::from_bits(max.0), 180.0);
            assert_eq!(f32::from_bits(default.0), 0.0);
            assert_eq!(*labels, &["R", "O", "Y", "G", "C", "B", "P", "M"]);
        }
        other => panic!("expected FloatArray, got {:?}", other),
    }
}

#[test]
fn derive_node_array_default_values() {
    let instance = ARRAY_NODE_NODE.create_default().unwrap();
    let val = instance.get_param("hue").unwrap();
    match &val {
        ParamValue::F32Array(arr) => {
            assert_eq!(arr.len(), 8);
            assert!(arr.iter().all(|v| f32::from_bits(v.0) == 0.0));
        }
        other => panic!("expected F32Array, got {:?}", other),
    }
    assert!(instance.is_identity());
}

#[test]
fn derive_node_array_get_param() {
    let node = ArrayNode {
        hue: [1.0, 2.0, 3.0, 4.0, 5.0, 6.0, 7.0, 8.0],
    };
    let val = node.get_param("hue").unwrap();
    assert_eq!(
        val,
        ParamValue::F32Array(
            [1.0, 2.0, 3.0, 4.0, 5.0, 6.0, 7.0, 8.0]
                .iter()
                .map(|v: &f32| fb(*v))
                .collect()
        )
    );
}

#[test]
fn derive_node_array_set_param() {
    let mut node = ArrayNode { hue: [0.0; 8] };
    let new_values: Vec<FloatBits> = [10.0f32, 20.0, 30.0, 40.0, 50.0, 60.0, 70.0, 80.0]
        .iter()
        .map(|v| fb(*v))
        .collect();
    assert!(node.set_param("hue", ParamValue::F32Array(new_values.clone())));
    assert_eq!(node.hue, [10.0, 20.0, 30.0, 40.0, 50.0, 60.0, 70.0, 80.0]);
    assert_eq!(node.get_param("hue"), Some(ParamValue::F32Array(new_values)));
}

#[test]
fn derive_node_array_set_param_wrong_length_rejected() {
    let mut node = ArrayNode { hue: [0.0; 8] };
    assert!(!node.set_param(
        "hue",
        ParamValue::F32Array(vec![fb(1.0), fb(2.0), fb(3.0)])
    ));
    assert_eq!(node.hue, [0.0; 8]);
    assert!(!node.set_param("hue", ParamValue::F32Array(vec![fb(1.0); 10])));
    assert_eq!(node.hue, [0.0; 8]);
    assert!(!node.set_param("hue", ParamValue::F32(fb(42.0))));
    assert_eq!(node.hue, [0.0; 8]);
}

#[test]
fn derive_node_array_is_identity() {
    let node = ArrayNode { hue: [0.0; 8] };
    assert!(node.is_identity());

    let node2 = ArrayNode {
        hue: [0.0, 0.0, 0.0, 0.0, 0.0, 0.0, 0.0, 1.0],
    };
    assert!(!node2.is_identity());
}

#[test]
fn derive_node_array_to_params_round_trip() {
    let original = ArrayNode {
        hue: [1.0, -2.0, 3.0, -4.0, 5.0, -6.0, 7.0, -8.0],
    };
    let params = original.to_params();
    let instance = ARRAY_NODE_NODE.create(&params).unwrap();
    let restored = instance.as_any().downcast_ref::<ArrayNode>().unwrap();
    assert_eq!(original.hue, restored.hue);
}

#[test]
fn derive_node_array_create_with_params() {
    let mut params = ParamMap::new();
    params.insert(
        "hue".into(),
        ParamValue::F32Array(
            [10.0f32, 20.0, 30.0, 40.0, 50.0, 60.0, 70.0, 80.0]
                .iter()
                .map(|v| fb(*v))
                .collect(),
        ),
    );
    let instance = ARRAY_NODE_NODE.create(&params).unwrap();
    let node = instance.as_any().downcast_ref::<ArrayNode>().unwrap();
    assert_eq!(node.hue, [10.0, 20.0, 30.0, 40.0, 50.0, 60.0, 70.0, 80.0]);
    assert!(!instance.is_identity());
}

#[test]
fn derive_node_hsl_adjust_schema() {
    let schema = HSL_ADJUST_NODE.schema();
    assert_eq!(schema.id, "test.hsl_adjust");
    assert_eq!(schema.params.len(), 3);
    assert_eq!(schema.params[0].name, "hue");
    assert_eq!(schema.params[0].section, "Hue");
    assert_eq!(schema.params[1].name, "saturation");
    assert_eq!(schema.params[1].section, "Saturation");
    assert_eq!(schema.params[2].name, "luminance");
    assert_eq!(schema.params[2].section, "Luminance");
    for p in schema.params {
        match &p.kind {
            ParamKind::FloatArray { len, labels, .. } => {
                assert_eq!(*len, 8);
                assert_eq!(labels.len(), 8);
                assert_eq!(labels[0], "Red");
                assert_eq!(labels[7], "Magenta");
            }
            other => panic!("expected FloatArray for {}, got {:?}", p.name, other),
        }
    }
}

#[test]
fn derive_node_hsl_adjust_identity() {
    let node = HslAdjust {
        hue: [0.0; 8],
        saturation: [1.0; 8],
        luminance: [0.0; 8],
    };
    assert!(node.is_identity());

    let mut node2 = node.clone();
    node2.hue[3] = 10.0;
    assert!(!node2.is_identity());
}

#[test]
fn derive_node_bw_mixer_schema() {
    let schema = BW_MIXER_NODE.schema();
    assert_eq!(schema.id, "test.bw_mixer");
    assert_eq!(schema.params.len(), 1);
    match &schema.params[0].kind {
        ParamKind::FloatArray {
            len,
            min,
            max,
            default,
            labels,
        } => {
            assert_eq!(*len, 8);
            assert_eq!(f32::from_bits(min.0), 0.0);
            assert_eq!(f32::from_bits(max.0), 2.0);
            assert_eq!(f32::from_bits(default.0), 1.0);
            assert_eq!(labels[0], "Red");
        }
        other => panic!("expected FloatArray, got {:?}", other),
    }
}

#[test]
fn derive_node_bw_mixer_identity() {
    let node = BwMixer { weights: [1.0; 8] };
    assert!(node.is_identity());

    let node2 = BwMixer {
        weights: [1.0, 1.0, 0.5, 1.0, 1.0, 1.0, 1.0, 1.0],
    };
    assert!(!node2.is_identity());
}

#[test]
fn optional_schema_marks_optional() {
    let schema = CONSTRAIN_OPT_NODE.schema();
    assert_eq!(schema.id, "test.constrain_opt");
    assert_eq!(schema.params.len(), 5);
    for p in schema.params {
        assert!(p.optional, "param {} should be optional", p.name);
    }
}

#[test]
fn optional_defaults_are_none() {
    let node = CONSTRAIN_OPT_NODE.create_default().unwrap();
    assert_eq!(node.get_param("w"), Some(ParamValue::Unset));
    assert_eq!(node.get_param("h"), Some(ParamValue::Unset));
    assert_eq!(node.get_param("filter"), Some(ParamValue::Unset));
    assert_eq!(node.get_param("sharpen"), Some(ParamValue::Unset));
    assert_eq!(node.get_param("linear"), Some(ParamValue::Unset));
}

#[test]
fn optional_set_and_get() {
    let mut params = ParamMap::new();
    params.insert("w".into(), ParamValue::U32(800));
    params.insert("filter".into(), ParamValue::Str("lanczos".into()));
    params.insert("sharpen".into(), ParamValue::F32(fb(15.0)));

    let node = CONSTRAIN_OPT_NODE.create(&params).unwrap();
    assert_eq!(node.get_param("w"), Some(ParamValue::U32(800)));
    assert_eq!(node.get_param("h"), Some(ParamValue::Unset));
    assert_eq!(node.get_param("filter"), Some(ParamValue::Str("lanczos".into())));
    assert_eq!(node.get_param("sharpen"), Some(ParamValue::F32(fb(15.0))));
    assert_eq!(node.get_param("linear"), Some(ParamValue::Unset));
}

#[test]
fn optional_set_then_clear_with_none() {
    let mut node = ConstrainOpt {
        w: Some(800),
        h: Some(600),
        filter: Some("lanczos".into()),
        sharpen: Some(15.0),
        linear: Some(true),
    };
    assert!(node.set_param("w", ParamValue::Unset));
    assert_eq!(node.w, None);
    assert_eq!(node.get_param("w"), Some(ParamValue::Unset));
    assert!(node.set_param("filter", ParamValue::Unset));
    assert_eq!(node.filter, None);
    assert_eq!(node.h, Some(600));
}

#[test]
fn optional_from_kv() {
    let mut kv = KvPairs::from_querystring("w=1024&sharpen=20.0");
    let node = CONSTRAIN_OPT_NODE.from_kv(&mut kv).unwrap().unwrap();
    assert_eq!(node.get_param("w"), Some(ParamValue::U32(1024)));
    assert_eq!(node.get_param("h"), Some(ParamValue::Unset));
    assert_eq!(node.get_param("sharpen"), Some(ParamValue::F32(fb(20.0))));
    assert_eq!(node.get_param("filter"), Some(ParamValue::Unset));
    assert_eq!(kv.unconsumed().len(), 0);
}

#[test]
fn optional_from_kv_no_match() {
    let mut kv = KvPairs::from_querystring("quality=85");
    let result = CONSTRAIN_OPT_NODE.from_kv(&mut kv).unwrap();
    assert!(result.is_none());
}

#[test]
fn non_optional_params_not_marked_optional() {
    let schema = EXPOSURE_NODE.schema();
    for p in schema.params {
        assert!(!p.optional, "param {} should not be optional", p.name);
    }
}

// ─── Registry queries ───

#[test]
fn registry_queries_by_group_tag_and_json_key() {
    let mut registry = registry();
    let defs: [Def; 3] = [&EXPOSURE_NODE, &RESIZE_NODE, &HSL_ADJUST_NODE];
    registry.register_all(&defs);
    registry.register(&BW_MIXER_NODE);

    let color = registry.by_group(NodeGroup::Color);
    let ids: Vec<&str> = color.iter().map(|d| d.schema().id).collect();
    assert_eq!(ids, vec!["test.hsl_adjust", "test.bw_mixer"]);
    assert!(registry.by_group(NodeGroup::Raw).is_empty());

    let tone = registry.by_tag("tone");
    assert_eq!(tone.len(), 1);
    assert_eq!(tone[0].schema().id, "test.exposure");
    assert!(registry.by_tag("nope").is_empty());

    // Without a JSON key, a node serializes under its ID.
    assert_eq!(
        registry.get_by_json_key("test.resize").unwrap().schema().id,
        "test.resize"
    );
    assert!(registry.get_by_json_key("resize").is_none());
}

#[test]
fn registry_create_unknown_node_is_an_error() {
    let mut registry = registry();
    registry.register(&EXPOSURE_NODE);
    match registry.create("test.missing", &ParamMap::new()) {
        Err(NodeError::UnknownNode(id)) => assert_eq!(id, "test.missing"),
        _ => panic!("expected UnknownNode"),
    }
    let made = registry.create("test.exposure", &ParamMap::new()).unwrap();
    assert_eq!(made.schema().id, "test.exposure");
}

#[test]
fn first_registered_id_wins() {
    let mut registry = registry();
    registry.register(&EXPOSURE_NODE);
    registry.register(&EXPOSURE_NODE);
    registry.register(&RESIZE_NODE);
    assert_eq!(registry.all().len(), 3);
    assert_eq!(registry.get("test.resize").unwrap().schema().id, "test.resize");
}

/// A definition whose querystring reading always fails.
struct FailingNodeDef;
static FAILING_NODE: FailingNodeDef = FailingNodeDef;

impl NodeDef for FailingNodeDef {
    type Instance = Instance;
    fn schema(&self) -> &'static NodeSchema {
        &RESIZE_SCHEMA
    }
    fn create(&self, _params: &ParamMap) -> Result<Instance, NodeError> {
        Err(NodeError::Other("no".into()))
    }
    fn from_kv(&self, _kv: &mut KvPairs) -> Result<Option<Instance>, NodeError> {
        Err(NodeError::MissingParam {
            node: "test.resize",
            param: "width",
        })
    }
}

#[test]
fn registry_turns_node_errors_into_warnings() {
    let mut registry = registry();
    registry.register(&FAILING_NODE);
    registry.register(&EXPOSURE_NODE);
    let result = registry.from_querystring("ev=1&x=2");
    assert_eq!(result.instances.len(), 1);
    assert_eq!(result.warnings.len(), 2);
    assert_eq!(result.warnings[0].key, "test.resize");
    assert_eq!(result.warnings[0].kind, KvWarningKind::InvalidValue);
    assert_eq!(
        result.warnings[0].message,
        "error creating test.resize: missing required parameter 'width' on 'test.resize'"
    );
    assert_eq!(result.warnings[1].key, "x");
    assert_eq!(result.warnings[1].message, "unrecognized key: x");
}

#[test]
fn empty_registry_reports_every_key() {
    let registry = registry();
    let result = registry.from_querystring("a=1&B=2&a=3");
    assert!(result.instances.is_empty());
    let keys: Vec<(&str, KvWarningKind)> = result
        .warnings
        .iter()
        .map(|w| (w.key.as_str(), w.kind))
        .collect();
    assert_eq!(
        keys,
        vec![
            ("a", KvWarningKind::DuplicateKey),
            ("b", KvWarningKind::UnrecognizedKey),
            ("a", KvWarningKind::UnrecognizedKey),
        ]
    );
}

fn render(b: FloatBits, debug: bool) -> String {
    let v = f32::from_bits(b.0);
    if debug {
        format!("{v:?}")
    } else {
        format!("{v}")
    }
}

#[test]
fn schema_markdown_table() {
    let md = EXPOSURE_SCHEMA.to_markdown(&render);
    assert_eq!(
        md,
        "### `test.exposure`\n\nExposure adjustment in photographic stops. Each stop doubles or halves brightness.\n\n\
         **Group:** Tone | **Role:** Filter | **Tags:** basic, tone\n\n\
         | Parameter | Type | Default | Range | KV Keys | Description |\n\
         |-----------|------|---------|-------|---------|-------------|\n\
         | `stops` | f32 | 0 | -5..5 | `exposure`, `ev` | Exposure compensation in stops |\n\n"
    );
    let md = RESIZE_SCHEMA.to_markdown(&render);
    assert!(md.contains("| `width` | u32 | 0 | 0..65535 | `w`, `width` | Target width in pixels |\n"));
    assert!(md.contains("| `sharp_yuv` | bool | false |  | `sharp` |"));
    let md = BW_SCHEMA.to_markdown(&render);
    assert!(md.contains("| `weights` | f32[] | [1; 8] | 0..2 | — |"));
}

#[test]
fn registry_markdown_counts_nodes() {
    let mut registry = registry();
    registry.register(&EXPOSURE_NODE);
    registry.register(&RESIZE_NODE);
    let md = registry.to_markdown(&render);
    assert!(md.starts_with("# Node Reference\n\n2 nodes registered.\n\n### `test.exposure`"));
    assert!(md.contains("### `test.resize`"));
}

// ─── The same cases under their short names ───

#[test]
fn schema_metadata() {
    let schema = EXPOSURE_NODE.schema();
    assert_eq!(schema.id, "test.exposure");
    assert_eq!(schema.label, "Exposure");
    assert_eq!(schema.group, NodeGroup::Tone);
    assert_eq!(schema.role, NodeRole::Filter);
    assert_eq!(schema.version, 1);
    assert_eq!(schema.tags, &["basic", "tone"]);
    assert!(schema.coalesce.is_some());
    let coal = schema.coalesce.as_ref().unwrap();
    assert_eq!(coal.group, "fused_adjust");
    assert!(coal.fusable);
    assert!(!coal.is_target);
    assert_eq!(schema.format.preferred, PixelFormatPreference::OklabF32);
    assert_eq!(schema.format.alpha, AlphaHandling::Skip);
}

#[test]
fn from_kv_no_match() {
    let mut kv = KvPairs::from_querystring("w=800");
    let result = EXPOSURE_NODE.from_kv(&mut kv).unwrap();
    assert!(result.is_none());
}

#[test]
fn multi_field_node() {
    let schema = RESIZE_NODE.schema();
    assert_eq!(schema.params.len(), 3);
    assert_eq!(schema.params[0].name, "width");
    assert_eq!(schema.params[1].name, "height");
    assert_eq!(schema.params[2].name, "sharp_yuv");
    assert!(schema.format.changes_dimensions);
}

#[test]
fn downcast() {
    let instance = EXPOSURE_NODE.create_default().unwrap();
    let exp = instance.as_any().downcast_ref::<Exposure>().unwrap();
    assert_eq!(exp.stops, 0.0);
}

#[test]
fn clone_boxed() {
    let instance = EXPOSURE_NODE.create_default().unwrap();
    let cloned = instance.clone_boxed();
    assert_eq!(cloned.get_param("stops"), instance.get_param("stops"));
}

#[test]
fn registry_basic() {
    let mut registry = registry();
    registry.register(&EXPOSURE_NODE);
    registry.register(&RESIZE_NODE);

    assert!(registry.get("test.exposure").is_some());
    assert!(registry.get("test.resize").is_some());
    assert!(registry.get("test.nonexistent").is_none());
    assert_eq!(registry.all().len(), 2);
}

#[test]
fn registry_warns_unrecognized_keys() {
    let mut registry = registry();
    registry.register(&EXPOSURE_NODE);

    let result = registry.from_querystring("exposure=1.5&unknown=foo");
    assert_eq!(result.instances.len(), 1);
    assert!(result
        .warnings
        .iter()
        .any(|w| w.kind == KvWarningKind::UnrecognizedKey && w.key == "unknown"));
}

#[test]
fn array_is_identity() {
    let node = ArrayNode { hue: [0.0; 8] };
    assert!(node.is_identity());

    let node2 = ArrayNode {
        hue: [0.0, 0.0, 0.0, 0.0, 0.0, 0.0, 0.0, 1.0],
    };
    assert!(!node2.is_identity());
}

#[test]
fn hsl_adjust_identity() {
    let node = HslAdjust {
        hue: [0.0; 8],
        saturation: [1.0; 8],
        luminance: [0.0; 8],
    };
    assert!(node.is_identity());

    let mut node2 = node.clone();
    node2.hue[3] = 10.0;
    assert!(!node2.is_identity());
}

#[test]
fn bw_mixer_identity() {
    let node = BwMixer { weights: [1.0; 8] };
    assert!(node.is_identity());

    let node2 = BwMixer {
        weights: [1.0, 1.0, 0.5, 1.0, 1.0, 1.0, 1.0, 1.0],
    };
    assert!(!node2.is_identity());
}

#[test]
fn optional_downcast() {
    let mut params = ParamMap::new();
    params.insert("w".into(), ParamValue::U32(1920));
    params.insert("sharpen".into(), ParamValue::F32(fb(10.0)));

    let node = CONSTRAIN_OPT_NODE.create(&params).unwrap();
    let c = node.as_any().downcast_ref::<ConstrainOpt>().unwrap();
    assert_eq!(c.w, Some(1920));
    assert_eq!(c.h, None);
    assert_eq!(c.filter, None);
    assert_eq!(c.sharpen, Some(10.0));
    assert_eq!(c.linear, None);
}

#[test]
fn optional_to_params_round_trip() {
    let original = ConstrainOpt {
        w: Some(800),
        h: None,
        filter: Some("ginseng".into()),
        sharpen: None,
        linear: Some(false),
    };
    let params = original.to_params();

    // Verify the ParamMap
    assert_eq!(params.get("w"), Some(&ParamValue::U32(800)));
    assert_eq!(params.get("h"), Some(&ParamValue::Unset));
    assert_eq!(params.get("filter"), Some(&ParamValue::Str("ginseng".into())));
    assert_eq!(params.get("sharpen"), Some(&ParamValue::Unset));
    assert_eq!(params.get("linear"), Some(&ParamValue::Bool(false)));

    // Round-trip through create
    let node = CONSTRAIN_OPT_NODE.create(&params).unwrap();
    let restored = node.as_any().downcast_ref::<ConstrainOpt>().unwrap();
    assert_eq!(restored.w, Some(800));
    assert_eq!(restored.h, None);
    assert_eq!(restored.filter.as_deref(), Some("ginseng"));
    assert_eq!(restored.sharpen, None);
    assert_eq!(restored.linear, Some(false));
}

#[test]
fn json_key_in_schema() {
    let schema = IMAGEFLOW_CONSTRAIN_NODE.schema();
    assert_eq!(schema.json_key, "constrain");
    assert_eq!(schema.effective_json_key(), "constrain");
    assert!(schema.deny_unknown_fields);
}

#[test]
fn json_name_in_param_desc() {
    let schema = IMAGEFLOW_CONSTRAIN_NODE.schema();
    let sharpen = schema.params.iter().find(|p| p.name == "sharpen").unwrap();
    assert_eq!(sharpen.json_name, "sharpen_percent");
    assert_eq!(sharpen.effective_json_name(), "sharpen_percent");
    assert!(sharpen.json_aliases.contains(&"sharpen_pct"));
    assert!(sharpen.matches_json_key("sharpen_percent"));
    assert!(sharpen.matches_json_key("sharpen_pct"));
    assert!(sharpen.matches_json_key("sharpen")); // field name also works
    assert!(!sharpen.matches_json_key("sharpness"));
}

#[test]
fn json_key_empty_defaults_to_id() {
    let schema = EXPOSURE_NODE.schema();
    assert_eq!(schema.json_key, "");
    assert_eq!(schema.effective_json_key(), "test.exposure");
}

#[test]
fn deny_unknown_fields_names_the_first_unknown_field() {
    let schema = IMAGEFLOW_CONSTRAIN_NODE.schema();
    let keys = vec!["w".to_string(), "sharpen_pct".to_string(), "unknown_field".to_string()];
    match schema.check_json_fields(&keys) {
        Err(NodeError::UnknownParam { node, param }) => {
            assert_eq!(node, "test.imageflow_constrain");
            assert_eq!(param, "unknown_field");
        }
        other => panic!("expected an unknown parameter, got {other:?}"),
    }
    let ok = vec!["w".to_string(), "sharpen_percent".to_string(), "hints".to_string()];
    assert!(schema.check_json_fields(&ok).is_ok());
}

#[test]
fn registry_finds_nodes_by_json_key() {
    let mut registry = registry();
    registry.register(&EXPOSURE_NODE);
    registry.register(&IMAGEFLOW_CONSTRAIN_NODE);
    assert_eq!(registry.get_by_json_key("constrain").unwrap().schema().id, "test.imageflow_constrain");
    assert_eq!(registry.get_by_json_key("test.exposure").unwrap().schema().id, "test.exposure");
    assert!(registry.get_by_json_key("test.imageflow_constrain").is_none());
}
