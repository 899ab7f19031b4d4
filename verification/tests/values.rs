//! Parameter values, float conversions, versions, errors and the small
//! schema helpers.

use zennode::error::NodeError;
use zennode::float_bits::{bits_as_i32, bits_as_u32, i32_as_bits, u32_as_bits};
use zennode::format::{AlphaHandling, FormatHint, PixelFormatPreference};
use zennode::nodes::{decode_schema, quality_intent_schema};
use zennode::ordering::NodeRole;
use zennode::param::ParamValue;
use zennode::json::{
    json_to_param_map, param_map_to_json, param_to_schema, slider_json, value_from_untyped_reading, JsonReading,
    JsonValue,
};
use zennode::json_schema::{querystring_key_groups, querystring_keys};
use zennode::naming::{doc_comment_text, to_screaming_snake, to_snake_case};
use zennode::schema::{FloatBits, ParamDesc, ParamKind, SliderMapping};
use zennode::version::VersionSet;

fn bits(v: f32) -> FloatBits {
    FloatBits(v.to_bits())
}

#[test]
fn as_f32_rounds_integers_like_the_cast() {
    assert_eq!(ParamValue::F32(bits(1.5)).as_f32(), Some(bits(1.5)));
    assert_eq!(ParamValue::I32(3).as_f32(), Some(bits(3.0)));
    assert_eq!(ParamValue::I32(-1).as_f32(), Some(bits(-1.0)));
    assert_eq!(ParamValue::U32(0).as_f32(), Some(bits(0.0)));
    assert_eq!(ParamValue::Bool(true).as_f32(), None);
    assert_eq!(ParamValue::Str("1".into()).as_f32(), None);
}

#[test]
fn integer_to_float_matches_the_cast() {
    let samples_u: [u32; 14] = [
        0,
        1,
        2,
        7,
        0x7f_ffff,
        0x80_0000,
        0xff_ffff,
        0x100_0000,
        0x100_0001,
        0x100_0003,
        0x7fff_ffff,
        0x8000_0000,
        0xffff_ff7f,
        u32::MAX,
    ];
    for n in samples_u {
        assert_eq!(u32_as_bits(n), (n as f32).to_bits(), "u32 {n}");
    }
    let samples_i: [i32; 9] = [0, 1, -1, 100, -100, 0x100_0001, -0x100_0001, i32::MAX, i32::MIN];
    for n in samples_i {
        assert_eq!(i32_as_bits(n), (n as f32).to_bits(), "i32 {n}");
    }
    // A sweep across the rounding boundaries above 2^24.
    let mut n: u32 = 0x0100_0000 - 40;
    while n < 0x0100_0000 + 400 {
        assert_eq!(u32_as_bits(n), (n as f32).to_bits(), "u32 {n}");
        n += 1;
    }
    let mut m: u64 = 1;
    while m < u32::MAX as u64 {
        let n = m as u32;
        assert_eq!(u32_as_bits(n), (n as f32).to_bits(), "u32 {n}");
        assert_eq!(u32_as_bits(n - 1), ((n - 1) as f32).to_bits(), "u32 {}", n - 1);
        m = m * 3 + 1;
    }
}

#[test]
fn float_to_integer_matches_the_cast() {
    let samples: [f32; 16] = [
        0.0,
        -0.0,
        0.9,
        -0.9,
        1.5,
        -2.5,
        1e9,
        3e9,
        -3e9,
        4294967295.0,
        5e9,
        f32::INFINITY,
        f32::NEG_INFINITY,
        f32::NAN,
        f32::MIN_POSITIVE,
        2147483520.0,
    ];
    for v in samples {
        assert_eq!(bits_as_i32(v.to_bits()), v as i32, "i32 of {v}");
        assert_eq!(bits_as_u32(v.to_bits()), v as u32, "u32 of {v}");
    }
}

#[test]
fn as_integer_conversions() {
    assert_eq!(ParamValue::U32(u32::MAX).as_i32(), None);
    assert_eq!(ParamValue::U32(5).as_i32(), Some(5));
    assert_eq!(ParamValue::I32(-5).as_u32(), None);
    assert_eq!(ParamValue::F32(bits(-7.9)).as_i32(), Some(-7));
    assert_eq!(ParamValue::F32(bits(-7.9)).as_u32(), Some(0));
    assert_eq!(ParamValue::F32(bits(1e12)).as_u32(), Some(u32::MAX));
    assert_eq!(ParamValue::Bool(false).as_bool(), Some(false));
    assert_eq!(ParamValue::Enum("lanczos".into()).as_str(), Some("lanczos"));
    assert_eq!(ParamValue::Json("{}".into()).as_str(), None);
    assert!(ParamValue::Unset.is_none());
    assert!(!ParamValue::I32(0).is_none());
    let arr = vec![bits(1.0), bits(2.0)];
    assert_eq!(ParamValue::F32Array(arr.clone()).as_f32_array(), Some(&arr[..]));
    let c = [bits(0.1), bits(0.2), bits(0.3), bits(1.0)];
    assert_eq!(ParamValue::Color(c).as_color(), Some(c));
    assert_eq!(ParamValue::I32(1).as_color(), None);
}

#[test]
fn version_set_reads_back_what_was_set() {
    let mut versions = VersionSet::new(2);
    assert_eq!(versions.api_version, 2);
    assert_eq!(versions.get("zenode.decode"), None);
    versions.set("zenode.decode", 1);
    versions.set("zenode.quality_intent", 3);
    assert_eq!(versions.get("zenode.decode"), Some(1));
    versions.set("zenode.decode", 4);
    assert_eq!(versions.get("zenode.decode"), Some(4));
    assert_eq!(versions.get("zenode.quality_intent"), Some(3));
    assert_eq!(versions.get("other"), None);
}

#[test]
fn error_messages() {
    assert_eq!(NodeError::UnknownNode("x.y".into()).message(), "unknown node: x.y");
    assert_eq!(
        NodeError::UnknownParam { node: "n", param: "p".into() }.message(),
        "unknown parameter 'p' on node 'n'"
    );
    assert_eq!(
        NodeError::TypeMismatch { node: "n", param: "p", expected: "Float" }.message(),
        "type mismatch for 'p' on 'n': expected Float"
    );
    assert_eq!(
        NodeError::OutOfRange { node: "n", param: "p", message: "too big".into() }.message(),
        "out of range for 'p' on 'n': too big"
    );
    assert_eq!(
        NodeError::MissingParam { node: "n", param: "p" }.message(),
        "missing required parameter 'p' on 'n'"
    );
    assert_eq!(
        NodeError::InvalidEnumVariant { node: "n", param: "p", value: "v".into() }.message(),
        "invalid variant 'v' for 'p' on 'n'"
    );
    assert_eq!(NodeError::Other("plain".into()).message(), "plain");
}

#[test]
fn roles_and_format_hints() {
    assert!(NodeRole::Geometry.is_geometry());
    assert!(NodeRole::Orient.is_geometry());
    assert!(NodeRole::Resize.is_geometry());
    assert!(!NodeRole::Filter.is_geometry());
    assert!(!NodeRole::Decode.is_geometry());
    let hint = FormatHint::default();
    assert_eq!(hint.preferred, PixelFormatPreference::Any);
    assert_eq!(hint.alpha, AlphaHandling::Process);
    assert!(!hint.changes_dimensions);
    assert!(!hint.is_neighborhood);
    assert_eq!(decode_schema().phase(), NodeRole::Decode);
    assert_eq!(quality_intent_schema().phase(), NodeRole::Encode);
}

#[test]
fn json_field_checks() {
    let schema = quality_intent_schema();
    assert!(schema.check_json_fields(&["profile".to_string(), "dpr".to_string()]).is_ok());
    match schema.check_json_fields(&[
        "profile".to_string(),
        "bogus".to_string(),
        "worse".to_string(),
    ]) {
        Err(NodeError::UnknownParam { node, param }) => {
            assert_eq!(node, "zenode.quality_intent");
            assert_eq!(param, "bogus");
        }
        other => panic!("expected an unknown parameter, got {other:?}"),
    }
    assert!(schema.check_json_fields(&[]).is_ok());
    let dpr = schema.params.iter().find(|p| p.name == "dpr").unwrap();
    assert_eq!(dpr.effective_json_name(), "dpr");
    assert!(dpr.matches_json_key("dpr"));
    assert!(!dpr.matches_json_key("qp.dpr"));
    assert!(schema.has_tag("auto"));
    assert!(!schema.has_tag("decode"));
}

#[test]
fn small_integers_survive_the_float_round_trip() {
    for n in (0u32..0x100_0000).step_by(4099).chain([0xff_ffff, 1, 2, 3]) {
        assert_eq!(bits_as_u32(u32_as_bits(n)), n, "{n}");
    }
    // Above 2^24 the round trip can lose the low bits.
    assert_eq!(bits_as_u32(u32_as_bits(0x100_0001)), 0x100_0000);
}

#[test]
fn screaming_snake_is_upper_snake() {
    for name in ["HslAdjust", "MediumLow", "A", "", "ÉcoleMode", "X1Y2", "already_snake"] {
        assert_eq!(to_screaming_snake(name), to_snake_case(name).to_ascii_uppercase(), "{name}");
    }
}

#[test]
fn json_lookup_order() {
    let p = ParamDesc {
        name: "sharpen",
        label: "Sharpen",
        description: "",
        kind: ParamKind::Bool { default: false },
        unit: "",
        section: "Main",
        slider: SliderMapping::Linear,
        kv_keys: &[],
        since_version: 1,
        visible_when: "",
        optional: true,
        json_name: "sharpen_percent",
        json_aliases: &["sharpen_pct", "sharpness"],
    };
    assert_eq!(p.json_lookup_keys(), vec!["sharpen_percent", "sharpen", "sharpen_pct", "sharpness"]);
    let q = ParamDesc { json_name: "", json_aliases: &[], ..p };
    assert_eq!(q.json_lookup_keys(), vec!["sharpen"]);
    let r = ParamDesc { json_name: "sharpen", ..p };
    assert_eq!(r.json_lookup_keys(), vec!["sharpen", "sharpen_pct", "sharpness"]);
}

#[test]
fn querystring_keys_flatten_schemas() {
    let keys = querystring_keys(&[decode_schema(), quality_intent_schema()]);
    let names: Vec<&str> = keys.iter().map(|k| k.key).collect();
    assert_eq!(
        names,
        vec![
            "qp",
            "format",
            "qp.dpr",
            "qp.dppx",
            "dpr",
            "dppx",
            "lossless",
            "accept.webp",
            "accept.avif",
            "accept.jxl",
            "accept.color_profiles"
        ]
    );
    let dppx = &keys[3];
    assert!(dppx.is_alias);
    assert_eq!(dppx.primary_key, "qp.dpr");
    assert_eq!(dppx.param_name, "dpr");
    assert_eq!(dppx.node_id, "zenode.quality_intent");
    assert_eq!(dppx.node_label, "Quality Intent");
    assert!(!keys[2].is_alias);
    assert_eq!(keys[2].primary_key, "qp.dpr");
    assert!(querystring_keys(&[decode_schema()]).is_empty());
}

#[test]
fn doc_comment_lines_become_descriptions() {
    let lines = |ls: &[&str]| ls.iter().map(|l| l.to_string()).collect::<Vec<String>>();
    assert_eq!(doc_comment_text(&lines(&["Decode an image.", "", "  More text.  "])), "Decode an image.  More text.");
    assert_eq!(doc_comment_text(&lines(&["", "x"])), "x");
    assert_eq!(doc_comment_text(&lines(&[])), "");
    let decode_doc = lines(&[
        " Decode an image from an I/O source.",
        "",
        " The I/O binding (bytes, file, buffer) is handled by the pipeline",
        " runtime, not by this node. The `io_id` identifies which I/O slot",
        " to read from.",
        "",
        " Format detection is automatic (from magic bytes). The decode params",
        " control behavior that applies across all formats.",
    ]);
    assert_eq!(doc_comment_text(&decode_doc), decode_schema().description);
}

fn reading() -> JsonReading {
    JsonReading {
        is_null: false,
        boolean: None,
        float: None,
        int: None,
        uint: None,
        text: None,
        array: None,
        is_object: false,
        json_text: String::new(),
    }
}

#[test]
fn json_fields_are_read_per_parameter_kind() {
    let fields = vec![
        ("profile".to_string(), JsonReading { text: Some("good".into()), ..reading() }),
        ("format".to_string(), JsonReading { int: Some(3), uint: Some(3), ..reading() }),
        ("dpr".to_string(), JsonReading { float: Some(bits(2.0)), ..reading() }),
        ("lossless".to_string(), JsonReading { is_null: true, ..reading() }),
        ("allow_webp".to_string(), JsonReading { boolean: Some(true), ..reading() }),
        ("unknown".to_string(), JsonReading { boolean: Some(true), ..reading() }),
    ];
    let got = json_to_param_map(quality_intent_schema(), &fields);
    assert_eq!(
        got,
        vec![
            ("profile", ParamValue::Str("good".into())),
            ("dpr", ParamValue::F32(bits(2.0))),
            ("lossless", ParamValue::Unset),
            ("allow_webp", ParamValue::Bool(true)),
        ]
    );

    let fields = vec![
        ("io_id".to_string(), JsonReading { int: Some(1 << 40), uint: Some(1 << 40), ..reading() }),
        ("min_size".to_string(), JsonReading { int: Some(800), uint: Some(800), ..reading() }),
        ("hdr_mode".to_string(), JsonReading { text: Some("preserve".into()), ..reading() }),
    ];
    let got = json_to_param_map(decode_schema(), &fields);
    assert_eq!(
        got,
        vec![("hdr_mode", ParamValue::Str("preserve".into())), ("min_size", ParamValue::U32(800))]
    );
}

#[test]
fn querystring_keys_group_by_node_with_aliases() {
    let keys = querystring_keys(&[decode_schema(), quality_intent_schema(), quality_intent_schema()]);
    let groups = querystring_key_groups(&keys);
    assert_eq!(groups.len(), 1);
    let g = &groups[0];
    assert_eq!(g.node_id, "zenode.quality_intent");
    assert_eq!(g.node_label, "Quality Intent");
    // The schema appears twice, so every primary key appears twice.
    assert_eq!(g.keys.len(), 16);
    let primaries: Vec<&str> = g.keys.iter().take(8).map(|e| e.key).collect();
    assert_eq!(
        primaries,
        vec!["qp", "format", "qp.dpr", "lossless", "accept.webp", "accept.avif", "accept.jxl", "accept.color_profiles"]
    );
    let dpr = &g.keys[2];
    assert_eq!(dpr.param, "dpr");
    assert_eq!(dpr.label, "Device Pixel Ratio");
    assert_eq!(dpr.aliases, vec!["qp.dppx", "dpr", "dppx", "qp.dppx", "dpr", "dppx"]);
    assert!(g.keys[0].aliases.is_empty());
    assert!(querystring_key_groups(&querystring_keys(&[decode_schema()])).is_empty());
}

fn leaked_param(name: &'static str, kind: ParamKind) -> ParamDesc {
    ParamDesc {
        name,
        label: name,
        description: "",
        kind,
        unit: "",
        section: "Main",
        slider: SliderMapping::NotSlider,
        kv_keys: &[],
        since_version: 1,
        visible_when: "",
        optional: true,
        json_name: "",
        json_aliases: &[],
    }
}

#[test]
fn json_arrays_colors_and_nested_json() {
    let params: &'static [ParamDesc] = Box::leak(Box::new([
        leaked_param(
            "weights",
            ParamKind::FloatArray { len: 2, min: bits(0.0), max: bits(2.0), default: bits(1.0), labels: &[] },
        ),
        leaked_param("tint", ParamKind::Color { default: [bits(0.0); 4] }),
        leaked_param("hints", ParamKind::Json { json_schema: "{}", default_json: "" }),
        leaked_param(
            "short",
            ParamKind::FloatArray { len: 3, min: bits(0.0), max: bits(2.0), default: bits(1.0), labels: &[] },
        ),
    ]));
    let base = decode_schema();
    let schema = zennode::schema::NodeSchema { params, coalesce: None, ..*base };
    let fields = vec![
        ("weights".to_string(), JsonReading { array: Some((2, vec![bits(0.5), bits(1.5)])), ..reading() }),
        ("tint".to_string(), JsonReading { array: Some((4, vec![bits(0.1), bits(0.2), bits(0.3), bits(1.0)])), ..reading() }),
        ("hints".to_string(), JsonReading { json_text: "{\"a\":1}".into(), ..reading() }),
        // One element is not a number, so the array does not fit.
        ("short".to_string(), JsonReading { array: Some((3, vec![bits(0.5), bits(1.5)])), ..reading() }),
    ];
    let got = json_to_param_map(&schema, &fields);
    assert_eq!(
        got,
        vec![
            ("weights", ParamValue::F32Array(vec![bits(0.5), bits(1.5)])),
            ("tint", ParamValue::Color([bits(0.1), bits(0.2), bits(0.3), bits(1.0)])),
            ("hints", ParamValue::Json("{\"a\":1}".into())),
        ]
    );
}

fn field<'a>(v: &'a JsonValue, key: &str) -> Option<&'a JsonValue> {
    match v {
        JsonValue::Object(fs) => fs.iter().find(|(k, _)| k == key).map(|(_, x)| x),
        _ => None,
    }
}

fn text(s: &str) -> JsonValue {
    JsonValue::Str(s.to_string())
}

#[test]
fn param_schema_of_a_u32_parameter() {
    let p = ParamDesc {
        name: "width",
        label: "Width",
        description: "Target width",
        kind: ParamKind::U32 { min: 0, max: 8192, default: 0 },
        unit: "px",
        section: "",
        slider: SliderMapping::Linear,
        kv_keys: &["w", "width"],
        since_version: 2,
        visible_when: "mode=fit",
        optional: true,
        json_name: "",
        json_aliases: &[],
    };
    let s = param_to_schema(&p, None, None);
    assert_eq!(field(&s, "type"), Some(&JsonValue::Array(vec![text("integer"), text("null")])));
    assert_eq!(field(&s, "minimum"), Some(&JsonValue::UInt(0)));
    assert_eq!(field(&s, "maximum"), Some(&JsonValue::UInt(8192)));
    assert_eq!(field(&s, "title"), Some(&text("Width")));
    assert_eq!(field(&s, "description"), Some(&text("Target width")));
    assert_eq!(field(&s, "x-zennode-optional"), Some(&JsonValue::Bool(true)));
    assert_eq!(field(&s, "x-zennode-unit"), Some(&text("px")));
    assert_eq!(field(&s, "x-zennode-section"), None);
    assert_eq!(field(&s, "x-zennode-slider"), Some(&text("linear")));
    assert_eq!(field(&s, "x-zennode-kv-keys"), Some(&JsonValue::Array(vec![text("w"), text("width")])));
    assert_eq!(field(&s, "x-zennode-since-version"), Some(&JsonValue::UInt(2)));
    assert_eq!(field(&s, "x-zennode-visible-when"), Some(&text("mode=fit")));
}

#[test]
fn param_schema_leaves_out_empty_extensions() {
    let p = ParamDesc { optional: false, ..leaked_param("sharp", ParamKind::Int { min: -5, max: 5, default: 0 }) };
    let s = param_to_schema(&p, None, None);
    assert_eq!(field(&s, "type"), Some(&text("integer")));
    assert_eq!(field(&s, "minimum"), Some(&JsonValue::Int(-5)));
    assert_eq!(field(&s, "description"), None);
    assert_eq!(field(&s, "x-zennode-optional"), None);
    assert_eq!(field(&s, "x-zennode-kv-keys"), None);
    assert_eq!(field(&s, "x-zennode-since-version"), None);
    assert_eq!(field(&s, "x-zennode-slider"), Some(&text("not_slider")));
}

#[test]
fn param_schema_of_a_float_array_repeats_the_default() {
    let one = FloatBits(0x3f80_0000);
    let p = ParamDesc {
        optional: false,
        ..leaked_param(
            "weights",
            ParamKind::FloatArray { len: 3, min: FloatBits(0), max: one, default: one, labels: &["a", "b", "c"] },
        )
    };
    let s = param_to_schema(&p, None, None);
    assert_eq!(field(&s, "type"), Some(&text("array")));
    assert_eq!(field(&s, "minItems"), Some(&JsonValue::UInt(3)));
    assert_eq!(
        field(&s, "default"),
        Some(&JsonValue::Array(vec![JsonValue::Number(one), JsonValue::Number(one), JsonValue::Number(one)]))
    );
    assert_eq!(field(&s, "x-zennode-labels"), Some(&JsonValue::Array(vec![text("a"), text("b"), text("c")])));
}

#[test]
fn param_schema_of_json_kind_embeds_the_document() {
    let p = ParamDesc {
        optional: true,
        ..leaked_param("curve", ParamKind::Json { json_schema: "{\"type\":\"object\"}", default_json: "{}" })
    };
    let doc = JsonValue::Object(vec![("type".to_string(), text("object"))]);
    let def = JsonValue::Object(vec![]);
    let s = param_to_schema(&p, Some(doc), Some(def));
    assert_eq!(field(&s, "type"), Some(&JsonValue::Array(vec![text("object"), text("null")])));
    assert_eq!(field(&s, "default"), Some(&JsonValue::Object(vec![])));
    assert_eq!(field(&s, "title"), Some(&text("curve")));
    // A document that did not parse stands as an empty object.
    let t = param_to_schema(&p, None, None);
    assert_eq!(field(&t, "type"), None);
    assert_eq!(field(&t, "default"), None);
    assert_eq!(field(&t, "x-zennode-optional"), Some(&JsonValue::Bool(true)));
    // A null document becomes an object.
    let u = param_to_schema(&p, Some(JsonValue::Null), None);
    assert_eq!(field(&u, "title"), Some(&text("curve")));
}

#[test]
fn slider_names() {
    assert_eq!(slider_json(SliderMapping::SquareFromSlider), "square_from_slider");
    assert_eq!(slider_json(SliderMapping::FactorCentered), "factor_centered");
    assert_eq!(slider_json(SliderMapping::Logarithmic), "logarithmic");
}

#[test]
fn doc_comment_text_trims_unicode_whitespace() {
    let ls: Vec<String> = vec!["\u{3000}Wide\u{2003}".to_string(), "\u{a0}x\u{85}".to_string()];
    assert_eq!(doc_comment_text(&ls), "Wide x");
    // A zero-width space is no whitespace.
    let zw: Vec<String> = vec!["\u{200b}a ".to_string()];
    assert_eq!(doc_comment_text(&zw), "\u{200b}a");
}

#[test]
fn param_map_written_in_schema_order_without_unset() {
    let mut params = zennode::param::ParamMap::new();
    params.insert("dpr".to_string(), ParamValue::F32(bits(2.0)));
    params.insert("profile".to_string(), ParamValue::Str("good".into()));
    params.insert("lossless".to_string(), ParamValue::Unset);
    params.insert("not_a_param".to_string(), ParamValue::Bool(true));
    params.insert("allow_webp".to_string(), ParamValue::Bool(false));
    let written = param_map_to_json(quality_intent_schema(), &params);
    assert_eq!(
        written,
        vec![
            ("profile", ParamValue::Str("good".into())),
            ("dpr", ParamValue::F32(bits(2.0))),
            ("allow_webp", ParamValue::Bool(false)),
        ]
    );
}

#[test]
fn written_params_read_back_on_values() {
    let mut params = zennode::param::ParamMap::new();
    params.insert("profile".to_string(), ParamValue::Str("high".into()));
    params.insert("dpr".to_string(), ParamValue::F32(bits(1.5)));
    params.insert("allow_avif".to_string(), ParamValue::Bool(true));
    let written = param_map_to_json(quality_intent_schema(), &params);
    let fields: Vec<(String, JsonReading)> = written
        .iter()
        .map(|(name, v)| {
            let r = match v {
                ParamValue::Str(t) => JsonReading { text: Some(t.clone()), ..reading() },
                ParamValue::F32(b) => JsonReading { float: Some(*b), ..reading() },
                ParamValue::Bool(b) => JsonReading { boolean: Some(*b), ..reading() },
                _ => panic!("unexpected value"),
            };
            (name.to_string(), r)
        })
        .collect();
    let back = json_to_param_map(quality_intent_schema(), &fields);
    assert_eq!(
        back,
        vec![
            ("profile", ParamValue::Str("high".into())),
            ("dpr", ParamValue::F32(bits(1.5))),
            ("allow_avif", ParamValue::Bool(true)),
        ]
    );
}

#[test]
fn untyped_readings() {
    assert_eq!(value_from_untyped_reading(&JsonReading { is_null: true, ..reading() }), ParamValue::Unset);
    assert_eq!(
        value_from_untyped_reading(&JsonReading { int: Some(-3), float: Some(bits(-3.0)), ..reading() }),
        ParamValue::I32(-3)
    );
    assert_eq!(
        value_from_untyped_reading(&JsonReading { int: Some(3_000_000_000), uint: Some(3_000_000_000), ..reading() }),
        ParamValue::U32(3_000_000_000)
    );
    assert_eq!(
        value_from_untyped_reading(&JsonReading { int: Some(1 << 40), float: Some(bits(1099511627776.0)), ..reading() }),
        ParamValue::F32(bits(1099511627776.0))
    );
    assert_eq!(value_from_untyped_reading(&JsonReading { float: Some(bits(0.5)), ..reading() }), ParamValue::F32(bits(0.5)));
    let four = vec![bits(1.0), bits(0.5), bits(0.25), bits(1.0)];
    assert_eq!(
        value_from_untyped_reading(&JsonReading { array: Some((4, four.clone())), ..reading() }),
        ParamValue::Color([four[0], four[1], four[2], four[3]])
    );
    assert_eq!(
        value_from_untyped_reading(&JsonReading { array: Some((2, vec![bits(1.0)])), ..reading() }),
        ParamValue::F32Array(vec![bits(1.0)])
    );
    assert_eq!(
        value_from_untyped_reading(&JsonReading { is_object: true, json_text: "{\"a\":1}".into(), ..reading() }),
        ParamValue::Json("{\"a\":1}".into())
    );
    assert_eq!(value_from_untyped_reading(&JsonReading { text: Some("x".into()), ..reading() }), ParamValue::Str("x".into()));
}

#[test]
fn version_set_api_version_reads_the_field() {
    let mut vs = VersionSet::new(3);
    vs.set("a.b", 2);
    assert_eq!(vs.api_version(), 3);
    assert_eq!(vs.api_version, 3);
}
