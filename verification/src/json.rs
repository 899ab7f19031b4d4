//! Reading node parameters from a JSON object: which field supplies each
//! parameter, and how its value is read for the parameter's kind.

use vstd::prelude::*;

use crate::param::{entry_for, param_entry, ParamMap, ParamValue};
use crate::schema::{
    json_lookup_order, json_name_of, written_json_name_is_read_first, EnumVariant, FloatBits, NodeSchema, ParamDesc, ParamKind, SliderMapping,
};
use crate::text::str_eq;

verus! {

/// What a JSON value reads as, each reading as the JSON library gives it:
/// whether it is null, its boolean, its number as an `f32` and as an `i64`
/// or `u64` where it is an integer that fits, its string, the length of its
/// array with the `f32` readings of the array's numeric elements, whether it
/// is an object, and its JSON text.
#[derive(Clone, Debug)]
pub struct JsonReading {
    pub is_null: bool,
    pub boolean: Option<bool>,
    pub float: Option<FloatBits>,
    pub int: Option<i64>,
    pub uint: Option<u64>,
    pub text: Option<String>,
    pub array: Option<(usize, Vec<FloatBits>)>,
    pub is_object: bool,
    pub json_text: String,
}

/// The value a JSON reading gives a parameter of kind `kind`, if it fits:
/// floats from any number, integers from integral numbers in range, texts
/// from strings, JSON parameters from the JSON text, arrays of the declared
/// length whose elements are all numbers.
pub open spec fn value_from_json(kind: ParamKind, j: JsonReading) -> Option<ParamValue> {
    match kind {
        ParamKind::Float { .. } => match j.float {
            Some(b) => Some(ParamValue::F32(b)),
            None => None,
        },
        ParamKind::Int { .. } => match j.int {
            Some(i) => if i32::MIN <= i <= i32::MAX {
                Some(ParamValue::I32(i as i32))
            } else {
                None
            },
            None => None,
        },
        ParamKind::U32 { .. } => match j.uint {
            Some(u) => if u <= u32::MAX {
                Some(ParamValue::U32(u as u32))
            } else {
                None
            },
            None => None,
        },
        ParamKind::Bool { .. } => match j.boolean {
            Some(b) => Some(ParamValue::Bool(b)),
            None => None,
        },
        ParamKind::Str { .. } | ParamKind::Enum { .. } => match j.text {
            Some(t) => Some(ParamValue::Str(t)),
            None => None,
        },
        ParamKind::Json { .. } => Some(ParamValue::Json(j.json_text)),
        ParamKind::FloatArray { len, .. } => match j.array {
            Some((n, fs)) => if n == len && fs@.len() == len {
                Some(ParamValue::F32Array(fs))
            } else {
                None
            },
            None => None,
        },
        ParamKind::Color { .. } => match j.array {
            Some((n, fs)) => if n == 4 && fs@.len() == 4 {
                Some(ParamValue::Color([fs@[0], fs@[1], fs@[2], fs@[3]]))
            } else {
                None
            },
            None => None,
        },
    }
}

/// Whether `a` and `b` are the same parameter value, texts and arrays
/// compared by their contents.
pub open spec fn same_value(a: ParamValue, b: ParamValue) -> bool {
    match (a, b) {
        (ParamValue::Str(x), ParamValue::Str(y)) => x@ == y@,
        (ParamValue::Enum(x), ParamValue::Enum(y)) => x@ == y@,
        (ParamValue::Color(x), ParamValue::Color(y)) => x@ == y@,
        (ParamValue::Json(x), ParamValue::Json(y)) => x@ == y@,
        (ParamValue::F32Array(x), ParamValue::F32Array(y)) => x@ == y@,
        _ => a == b,
    }
}

/// Whether `a` and `b` are both absent or the same value.
pub open spec fn same_option(a: Option<ParamValue>, b: Option<ParamValue>) -> bool {
    match (a, b) {
        (Some(x), Some(y)) => same_value(x, y),
        (None, None) => true,
        _ => false,
    }
}

/// The reading of the first field of `fields` named `key`.
pub open spec fn field_named(fields: Seq<(String, JsonReading)>, key: Seq<char>) -> Option<JsonReading>
    decreases fields.len(),
{
    if fields.len() == 0 {
        None
    } else if fields[0].0@ == key {
        Some(fields[0].1)
    } else {
        field_named(fields.drop_first(), key)
    }
}

/// The reading under the first of `keys` that `fields` has.
pub open spec fn first_field(fields: Seq<(String, JsonReading)>, keys: Seq<Seq<char>>) -> Option<JsonReading>
    decreases keys.len(),
{
    if keys.len() == 0 {
        None
    } else {
        match field_named(fields, keys[0]) {
            Some(j) => Some(j),
            None => first_field(fields, keys.drop_first()),
        }
    }
}

/// The value that the JSON object `fields` gives parameter `p`: its reading
/// under the first of the parameter's lookup keys present, where that fits
/// the parameter's kind; null is the absent value.
pub open spec fn param_from_json(p: ParamDesc, fields: Seq<(String, JsonReading)>) -> Option<ParamValue> {
    match first_field(fields, json_lookup_order(p)) {
        None => None,
        Some(j) => if j.is_null {
            Some(ParamValue::Unset)
        } else {
            value_from_json(p.kind, j)
        },
    }
}

/// The parameters of `params` that `fields` gives a value, in order, with
/// those values.
pub open spec fn params_from_json(params: Seq<ParamDesc>, fields: Seq<(String, JsonReading)>) -> Seq<
    (&'static str, ParamValue),
>
    decreases params.len(),
{
    if params.len() == 0 {
        Seq::empty()
    } else {
        let prev = params_from_json(params.drop_last(), fields);
        match param_from_json(params.last(), fields) {
            Some(v) => prev.push((params.last().name, v)),
            None => prev,
        }
    }
}

/// Whether `r` lists the entries of `spec`: the same names, the same values.
pub open spec fn same_entries(r: Seq<(&'static str, ParamValue)>, spec: Seq<(&'static str, ParamValue)>) -> bool {
    &&& r.len() == spec.len()
    &&& forall|i: int| 0 <= i < r.len() ==> #[trigger] r[i].0 == spec[i].0 && same_value(r[i].1, spec[i].1)
}

/// The first field of `fields` named `key`.
fn find_field<'a>(fields: &'a Vec<(String, JsonReading)>, key: &str) -> (r: Option<&'a JsonReading>)
    ensures
        match r {
            Some(j) => field_named(fields@, key@) == Some(*j),
            None => field_named(fields@, key@) is None,
        },
{
    let mut i: usize = 0;
    proof {
        assert(fields@.skip(0) =~= fields@);
    }
    while i < fields.len()
        invariant
            i <= fields@.len(),
            field_named(fields@, key@) == field_named(fields@.skip(i as int), key@),
        decreases fields@.len() - i,
    {
        proof {
            assert(fields@.skip(i as int).drop_first() =~= fields@.skip(i + 1));
        }
        if str_eq(fields[i].0.as_str(), key) {
            return Some(&fields[i].1);
        }
        i = i + 1;
    }
    proof {
        assert(fields@.skip(i as int).len() == 0);
    }
    None
}

/// The reading under the first of `keys` that `fields` has.
fn find_first_field<'a>(fields: &'a Vec<(String, JsonReading)>, keys: &Vec<&'static str>) -> (r: Option<
    &'a JsonReading,
>)
    ensures
        match r {
            Some(j) => first_field(fields@, keys@.map_values(|k: &'static str| k@)) == Some(*j),
            None => first_field(fields@, keys@.map_values(|k: &'static str| k@)) is None,
        },
{
    let ghost all = keys@.map_values(|k: &'static str| k@);
    let mut i: usize = 0;
    proof {
        assert(all.skip(0) =~= all);
    }
    while i < keys.len()
        invariant
            i <= keys@.len(),
            all == keys@.map_values(|k: &'static str| k@),
            first_field(fields@, all) == first_field(fields@, all.skip(i as int)),
        decreases keys@.len() - i,
    {
        proof {
            assert(all.skip(i as int).drop_first() =~= all.skip(i + 1));
            assert(all.skip(i as int)[0] == keys@[i as int]@);
        }
        if let Some(j) = find_field(fields, keys[i]) {
            return Some(j);
        }
        i = i + 1;
    }
    proof {
        assert(all.skip(i as int).len() == 0);
    }
    None
}

/// The value that reading `j` gives a parameter of kind `kind`, if it fits
/// (see [`value_from_json`]).
pub fn value_from_reading(kind: &ParamKind, j: &JsonReading) -> (r: Option<ParamValue>)
    ensures
        same_option(r, value_from_json(*kind, *j)),
{
    match kind {
        ParamKind::Float { .. } => match j.float {
            Some(b) => Some(ParamValue::F32(b)),
            None => None,
        },
        ParamKind::Int { .. } => match j.int {
            Some(i) => if -0x8000_0000 <= i && i <= 0x7fff_ffff {
                Some(ParamValue::I32(i as i32))
            } else {
                None
            },
            None => None,
        },
        ParamKind::U32 { .. } => match j.uint {
            Some(u) => if u <= 0xffff_ffff {
                Some(ParamValue::U32(u as u32))
            } else {
                None
            },
            None => None,
        },
        ParamKind::Bool { .. } => match j.boolean {
            Some(b) => Some(ParamValue::Bool(b)),
            None => None,
        },
        ParamKind::Str { .. } | ParamKind::Enum { .. } => match &j.text {
            Some(t) => Some(ParamValue::Str(t.clone())),
            None => None,
        },
        ParamKind::Json { .. } => Some(ParamValue::Json(j.json_text.clone())),
        ParamKind::FloatArray { len, .. } => match &j.array {
            Some((n, fs)) => if *n == *len && fs.len() == *len {
                Some(ParamValue::F32Array(fs.clone()))
            } else {
                None
            },
            None => None,
        },
        ParamKind::Color { .. } => match &j.array {
            Some((n, fs)) => if *n == 4 && fs.len() == 4 {
                Some(ParamValue::Color([fs[0], fs[1], fs[2], fs[3]]))
            } else {
                None
            },
            None => None,
        },
    }
}

/// The value a JSON reading gives without a schema: null is `Unset`;
/// booleans and strings as they are; an array with four numeric elements a
/// color, any other array the floats of its numeric elements; an object its
/// JSON text; an integer that fits `i32` an `I32`, else one that fits `u32` a
/// `U32`, any other number its `f32` reading.
pub open spec fn untyped_value(j: JsonReading) -> ParamValue {
    if j.is_null {
        ParamValue::Unset
    } else if let Some(b) = j.boolean {
        ParamValue::Bool(b)
    } else if let Some(t) = j.text {
        ParamValue::Str(t)
    } else if let Some((n, fs)) = j.array {
        if fs@.len() == 4 {
            ParamValue::Color([fs@[0], fs@[1], fs@[2], fs@[3]])
        } else {
            ParamValue::F32Array(fs)
        }
    } else if j.is_object {
        ParamValue::Json(j.json_text)
    } else {
        match j.int {
            Some(i) if i32::MIN <= i <= i32::MAX => ParamValue::I32(i as i32),
            Some(i) if 0 <= i <= u32::MAX => ParamValue::U32(i as u32),
            _ => match j.float {
                Some(b) => ParamValue::F32(b),
                None => ParamValue::F32(FloatBits(0)),
            },
        }
    }
}

/// The value of a JSON reading without a schema (see [`untyped_value`]).
pub fn value_from_untyped_reading(j: &JsonReading) -> (r: ParamValue)
    ensures
        same_value(r, untyped_value(*j)),
{
    if j.is_null {
        return ParamValue::Unset;
    }
    if let Some(b) = j.boolean {
        return ParamValue::Bool(b);
    }
    if let Some(t) = &j.text {
        return ParamValue::Str(t.clone());
    }
    if let Some((_n, fs)) = &j.array {
        if fs.len() == 4 {
            return ParamValue::Color([fs[0], fs[1], fs[2], fs[3]]);
        }
        let mut out: Vec<FloatBits> = Vec::new();
        let mut i: usize = 0;
        while i < fs.len()
            invariant
                i <= fs@.len(),
                out@ =~= fs@.take(i as int),
            decreases fs@.len() - i,
        {
            out.push(fs[i]);
            i = i + 1;
        }
        proof {
            assert(fs@.take(i as int) =~= fs@);
        }
        return ParamValue::F32Array(out);
    }
    if j.is_object {
        return ParamValue::Json(j.json_text.clone());
    }
    match j.int {
        Some(i) => {
            if i32::MIN as i64 <= i && i <= i32::MAX as i64 {
                return ParamValue::I32(i as i32);
            }
            if 0 <= i && i <= u32::MAX as i64 {
                return ParamValue::U32(i as u32);
            }
        },
        None => {},
    }
    match j.float {
        Some(b) => ParamValue::F32(b),
        None => ParamValue::F32(FloatBits(0)),
    }
}

/// The parameters of `schema` that the JSON object with fields `fields`
/// gives a value, in parameter order: each read under the first of its
/// lookup keys present (see [`ParamDesc::json_lookup_keys`]), null read as
/// the absent value, a value that does not fit the parameter's kind left
/// out.
pub fn json_to_param_map(schema: &NodeSchema, fields: &Vec<(String, JsonReading)>) -> (r: Vec<
    (&'static str, ParamValue),
>)
    ensures
        same_entries(r@, params_from_json(schema.params@, fields@)),
{
    let mut r: Vec<(&'static str, ParamValue)> = Vec::new();
    let mut i: usize = 0;
    while i < schema.params.len()
        invariant
            i <= schema.params@.len(),
            same_entries(r@, params_from_json(schema.params@.take(i as int), fields@)),
        decreases schema.params@.len() - i,
    {
        let p: &'static ParamDesc = &schema.params[i];
        let keys = p.json_lookup_keys();
        let ghost before = r@;
        let ghost want = param_from_json(*p, fields@);
        proof {
            assert(schema.params@.take(i + 1).drop_last() =~= schema.params@.take(i as int));
            assert(schema.params@.take(i + 1).last() == *p);
        }
        let ghost prev_spec = params_from_json(schema.params@.take(i as int), fields@);
        let ghost spec_next = params_from_json(schema.params@.take(i + 1), fields@);
        proof {
            assert(keys@.map_values(|k: &'static str| k@) == json_lookup_order(*p));
            assert(spec_next == match want {
                Some(v) => prev_spec.push((p.name, v)),
                None => prev_spec,
            });
        }
        let found = find_first_field(fields, &keys);
        let got: Option<ParamValue> = match found {
            None => None,
            Some(j) => {
                if j.is_null {
                    Some(ParamValue::Unset)
                } else {
                    value_from_reading(&p.kind, j)
                }
            },
        };
        proof {
            assert(same_option(got, want));
        }
        match got {
            Some(v) => r.push((p.name, v)),
            None => {},
        }
        proof {
            assert forall|t: int| 0 <= t < r@.len() implies #[trigger] r@[t].0 == spec_next[t].0
                && same_value(r@[t].1, spec_next[t].1) by {
                if t < before.len() {
                    assert(r@[t] == before[t]);
                    assert(spec_next[t] == prev_spec[t]);
                }
            }
            assert(r@.len() == spec_next.len());
            assert(same_entries(r@, spec_next));
        }
        i = i + 1;
    }
    proof {
        assert(schema.params@.take(i as int) =~= schema.params@);
    }
    r
}

// ─── Writing parameters to JSON, and reading them back ───

/// The value that `params` holds for parameter `p`, where it holds one that
/// is set (not `Unset`).
pub open spec fn set_value(p: ParamDesc, params: Map<String, ParamValue>) -> Option<ParamValue> {
    match entry_for(params, p.name@) {
        Some(v) => if v is Unset {
            None
        } else {
            Some(v)
        },
        None => None,
    }
}

/// The JSON fields written for the parameters `ps`: each parameter with a
/// set value, in order, under its JSON name.
pub open spec fn written_params(ps: Seq<ParamDesc>, params: Map<String, ParamValue>) -> Seq<
    (Seq<char>, ParamValue),
>
    decreases ps.len(),
{
    if ps.len() == 0 {
        Seq::empty()
    } else {
        let prev = written_params(ps.drop_last(), params);
        match set_value(ps.last(), params) {
            Some(v) => prev.push((json_name_of(ps.last()), v)),
            None => prev,
        }
    }
}

/// The set values of the parameters `ps`, in order, under their names.
pub open spec fn set_params(ps: Seq<ParamDesc>, params: Map<String, ParamValue>) -> Seq<
    (&'static str, ParamValue),
>
    decreases ps.len(),
{
    if ps.len() == 0 {
        Seq::empty()
    } else {
        let prev = set_params(ps.drop_last(), params);
        match set_value(ps.last(), params) {
            Some(v) => prev.push((ps.last().name, v)),
            None => prev,
        }
    }
}

/// Whether `r` lists the fields `w`: the same JSON names, the same values.
pub open spec fn same_fields(r: Seq<(&'static str, ParamValue)>, w: Seq<(Seq<char>, ParamValue)>) -> bool {
    &&& r.len() == w.len()
    &&& forall|i: int| 0 <= i < r.len() ==> #[trigger] r[i].0@ == w[i].0 && same_value(r[i].1, w[i].1)
}

/// A copy of `v`.
pub fn copy_value(v: &ParamValue) -> (r: ParamValue)
    ensures
        same_value(r, *v),
{
    match v {
        ParamValue::Unset => ParamValue::Unset,
        ParamValue::F32(x) => ParamValue::F32(*x),
        ParamValue::I32(x) => ParamValue::I32(*x),
        ParamValue::U32(x) => ParamValue::U32(*x),
        ParamValue::Bool(x) => ParamValue::Bool(*x),
        ParamValue::Str(s) => ParamValue::Str(s.clone()),
        ParamValue::Enum(s) => ParamValue::Enum(s.clone()),
        ParamValue::F32Array(a) => {
            let mut out: Vec<FloatBits> = Vec::new();
            let mut i: usize = 0;
            while i < a.len()
                invariant
                    i <= a@.len(),
                    out@ =~= a@.take(i as int),
                decreases a@.len() - i,
            {
                out.push(a[i]);
                i = i + 1;
            }
            proof {
                assert(a@.take(i as int) =~= a@);
            }
            ParamValue::F32Array(out)
        },
        ParamValue::Color(c) => ParamValue::Color(*c),
        ParamValue::Json(s) => ParamValue::Json(s.clone()),
    }
}

/// The JSON fields of a node's parameters: each parameter of `schema` that
/// `params` holds a set value for, in parameter order, under its effective
/// JSON name; `Unset` values and parameters the map lacks are left out.
pub fn param_map_to_json(schema: &NodeSchema, params: &ParamMap) -> (r: Vec<(&'static str, ParamValue)>)
    ensures
        same_fields(r@, written_params(schema.params@, params@)),
{
    let mut r: Vec<(&'static str, ParamValue)> = Vec::new();
    let mut i: usize = 0;
    while i < schema.params.len()
        invariant
            i <= schema.params@.len(),
            same_fields(r@, written_params(schema.params@.take(i as int), params@)),
        decreases schema.params@.len() - i,
    {
        let p: &'static ParamDesc = &schema.params[i];
        let ghost before = r@;
        let ghost prev_spec = written_params(schema.params@.take(i as int), params@);
        proof {
            assert(schema.params@.take(i + 1).drop_last() =~= schema.params@.take(i as int));
            assert(schema.params@.take(i + 1).last() == *p);
        }
        let ghost spec_next = written_params(schema.params@.take(i + 1), params@);
        let ghost sv = set_value(*p, params@);
        proof {
            assert(spec_next == match sv {
                Some(v) => prev_spec.push((json_name_of(*p), v)),
                None => prev_spec,
            });
        }
        match param_entry(params, p.name) {
            Some(v) => match v {
                ParamValue::Unset => {
                    assert(sv is None);
                },
                _ => {
                    let name = p.effective_json_name();
                    let c = copy_value(v);
                    r.push((name, c));
                    assert(sv == Some(*v));
                    assert(r@[before.len() as int] == (name, c));
                },
            },
            None => {
                assert(sv is None);
            },
        }
        proof {
            assert forall|t: int| 0 <= t < r@.len() implies #[trigger] r@[t].0@ == spec_next[t].0
                && same_value(r@[t].1, spec_next[t].1) by {
                if t < before.len() {
                    assert(r@[t] == before[t]);
                    assert(spec_next[t] == prev_spec[t]);
                }
            }
        }
        i = i + 1;
    }
    proof {
        assert(schema.params@.take(i as int) =~= schema.params@);
    }
    r
}

/// Whether the reading `j` gives back the written value `v`: it is no null,
/// and the reading that the value's kind is read by holds exactly `v`.
pub open spec fn reads_back(j: JsonReading, v: ParamValue) -> bool {
    &&& !j.is_null
    &&& match v {
        ParamValue::F32(b) => j.float == Some(b),
        ParamValue::I32(i) => j.int == Some(i as i64),
        ParamValue::U32(u) => j.uint == Some(u as u64),
        ParamValue::Bool(b) => j.boolean == Some(b),
        ParamValue::Str(s) | ParamValue::Enum(s) => match j.text {
            Some(t) => t@ == s@,
            None => false,
        },
        ParamValue::Json(t) => j.json_text@ == t@,
        ParamValue::F32Array(a) => match j.array {
            Some((n, fs)) => n == a@.len() && fs@ == a@,
            None => false,
        },
        ParamValue::Color(c) => match j.array {
            Some((n, fs)) => n == 4 && fs@ == c@,
            None => false,
        },
        ParamValue::Unset => false,
    }
}

/// Whether `v` is a value that a parameter of kind `k` is read as.
pub open spec fn value_fits(k: ParamKind, v: ParamValue) -> bool {
    match (k, v) {
        (ParamKind::Float { .. }, ParamValue::F32(_)) => true,
        (ParamKind::Int { .. }, ParamValue::I32(_)) => true,
        (ParamKind::U32 { .. }, ParamValue::U32(_)) => true,
        (ParamKind::Bool { .. }, ParamValue::Bool(_)) => true,
        (ParamKind::Str { .. }, ParamValue::Str(_)) => true,
        (ParamKind::Enum { .. }, ParamValue::Str(_)) => true,
        (ParamKind::Json { .. }, ParamValue::Json(_)) => true,
        (ParamKind::FloatArray { len, .. }, ParamValue::F32Array(a)) => a@.len() == len,
        (ParamKind::Color { .. }, ParamValue::Color(_)) => true,
        _ => false,
    }
}

/// Whether no JSON field that a parameter of `ps` is looked up under is the
/// JSON name of another parameter of `ps`.
pub open spec fn json_names_apart(ps: Seq<ParamDesc>) -> bool {
    forall|a: int, b: int, k: int|
        0 <= a < ps.len() && 0 <= b < ps.len() && a != b && 0 <= k < json_lookup_order(ps[a]).len()
            ==> #[trigger] json_lookup_order(ps[a])[k] != json_name_of(#[trigger] ps[b])
}

/// Whether the JSON object `fields` is the written `w`, field by field, each
/// field's reading giving back the value written.
pub open spec fn reads_written(fields: Seq<(String, JsonReading)>, w: Seq<(Seq<char>, ParamValue)>) -> bool {
    &&& fields.len() == w.len()
    &&& forall|i: int| 0 <= i < fields.len() ==> #[trigger] fields[i].0@ == w[i].0 && reads_back(
        fields[i].1,
        w[i].1,
    )
}

proof fn lemma_field_named(fields: Seq<(String, JsonReading)>, key: Seq<char>)
    ensures
        field_named(fields, key) is None <==> forall|m: int| 0 <= m < fields.len() ==> (#[trigger] fields[m]).0@ != key,
        field_named(fields, key) matches Some(r) ==> exists|m: int|
            0 <= m < fields.len() && (#[trigger] fields[m]).0@ == key && fields[m].1 == r,
    decreases fields.len(),
{
    if fields.len() > 0 {
        lemma_field_named(fields.drop_first(), key);
        assert forall|m: int| 0 < m < fields.len() implies #[trigger] fields[m] == fields.drop_first()[m - 1] by {}
        if let Some(r) = field_named(fields.drop_first(), key) {
            if fields[0].0@ != key {
                let m = choose|m: int|
                    0 <= m < fields.drop_first().len() && (#[trigger] fields.drop_first()[m]).0@ == key
                        && fields.drop_first()[m].1 == r;
                assert(fields[m + 1] == fields.drop_first()[m]);
            }
        }
        if field_named(fields, key) is None {
            assert forall|m: int| 0 <= m < fields.len() implies (#[trigger] fields[m]).0@ != key by {
                if m > 0 {
                    assert(fields[m] == fields.drop_first()[m - 1]);
                }
            }
        }
    }
}

proof fn lemma_first_field_none(fields: Seq<(String, JsonReading)>, keys: Seq<Seq<char>>)
    requires
        forall|k: int, m: int| 0 <= k < keys.len() && 0 <= m < fields.len() ==> (#[trigger] fields[m]).0@ != #[trigger] keys[k],
    ensures
        first_field(fields, keys) is None,
    decreases keys.len(),
{
    if keys.len() > 0 {
        lemma_field_named(fields, keys[0]);
        assert forall|m: int| 0 <= m < fields.len() implies (#[trigger] fields[m]).0@ != keys[0] by {}
        assert forall|k: int, m: int| 0 <= k < keys.drop_first().len() && 0 <= m < fields.len() implies (
        #[trigger] fields[m]).0@ != #[trigger] keys.drop_first()[k] by {
            assert(keys.drop_first()[k] == keys[k + 1]);
        }
        lemma_first_field_none(fields, keys.drop_first());
    }
}

/// Every written field comes from a parameter with a set value, under its
/// JSON name; every parameter with a set value has a written field.
proof fn lemma_written(ps: Seq<ParamDesc>, params: Map<String, ParamValue>)
    ensures
        forall|m: int| 0 <= m < written_params(ps, params).len() ==> exists|j: int|
            0 <= j < ps.len() && set_value(#[trigger] ps[j], params) == Some(
                (#[trigger] written_params(ps, params)[m]).1,
            ) && written_params(ps, params)[m].0 == json_name_of(ps[j]),
        forall|j: int| 0 <= j < ps.len() && (#[trigger] set_value(ps[j], params)) is Some ==> exists|m: int|
            0 <= m < written_params(ps, params).len() && #[trigger] written_params(ps, params)[m] == (
                json_name_of(ps[j]),
                set_value(ps[j], params)->0,
            ),
    decreases ps.len(),
{
    if ps.len() > 0 {
        let pre = ps.drop_last();
        lemma_written(pre, params);
        let w = written_params(ps, params);
        let wp = written_params(pre, params);
        assert forall|m: int| 0 <= m < w.len() implies exists|j: int|
            0 <= j < ps.len() && set_value(#[trigger] ps[j], params) == Some((#[trigger] w[m]).1)
                && w[m].0 == json_name_of(ps[j]) by {
            if m < wp.len() {
                assert(w[m] == wp[m]);
                let j = choose|j: int|
                    0 <= j < pre.len() && set_value(#[trigger] pre[j], params) == Some((#[trigger] wp[m]).1)
                        && wp[m].0 == json_name_of(pre[j]);
                assert(ps[j] == pre[j]);
            } else {
                assert(ps[ps.len() - 1] == ps.last());
            }
        }
        assert forall|j: int| 0 <= j < ps.len() && (#[trigger] set_value(ps[j], params)) is Some implies exists|m: int|
            0 <= m < w.len() && #[trigger] w[m] == (json_name_of(ps[j]), set_value(ps[j], params)->0) by {
            if j < pre.len() {
                assert(ps[j] == pre[j]);
                let m = choose|m: int|
                    0 <= m < wp.len() && #[trigger] wp[m] == (
                        json_name_of(pre[j]),
                        set_value(pre[j], params)->0,
                    );
                assert(w[m] == wp[m]);
            } else {
                assert(w[wp.len() as int] == (json_name_of(ps[j]), set_value(ps[j], params)->0));
            }
        }
    }
}

/// A reading that gives back a value fitting the kind reads as that value.
proof fn lemma_value_reads_back(k: ParamKind, r: JsonReading, v: ParamValue)
    requires
        reads_back(r, v),
        value_fits(k, v),
    ensures
        value_from_json(k, r) matches Some(x) && same_value(x, v),
{
    match v {
        ParamValue::I32(i) => {
            assert((i as i64) as i32 == i);
        },
        ParamValue::U32(u) => {
            assert((u as u64) as u32 == u);
        },
        ParamValue::Color(c) => {
            if let Some((n, fs)) = r.array {
                assert([fs@[0], fs@[1], fs@[2], fs@[3]]@ =~= c@);
            }
        },
        _ => {},
    }
}

/// A parameter without a set value finds no field to read.
proof fn lemma_unset_reads_nothing(
    ps: Seq<ParamDesc>,
    params: Map<String, ParamValue>,
    fields: Seq<(String, JsonReading)>,
    j: int,
)
    requires
        0 <= j < ps.len(),
        json_names_apart(ps),
        set_value(ps[j], params) is None,
        reads_written(fields, written_params(ps, params)),
    ensures
        param_from_json(ps[j], fields) is None,
{
    let w = written_params(ps, params);
    let keys = json_lookup_order(ps[j]);
    lemma_written(ps, params);
    assert forall|k: int, m: int| 0 <= k < keys.len() && 0 <= m < fields.len() implies (
    #[trigger] fields[m]).0@ != #[trigger] keys[k] by {
        assert(fields[m].0@ == w[m].0);
        let b = choose|b: int|
            0 <= b < ps.len() && set_value(#[trigger] ps[b], params) == Some((#[trigger] w[m]).1)
                && w[m].0 == json_name_of(ps[b]);
        assert(b != j);
        assert(json_lookup_order(ps[j])[k] != json_name_of(ps[b]));
    }
    lemma_first_field_none(fields, keys);
}

/// A parameter with a set value reads the field written for it.
proof fn lemma_set_reads_field(
    ps: Seq<ParamDesc>,
    params: Map<String, ParamValue>,
    fields: Seq<(String, JsonReading)>,
    j: int,
)
    requires
        0 <= j < ps.len(),
        json_names_apart(ps),
        set_value(ps[j], params) is Some,
        reads_written(fields, written_params(ps, params)),
    ensures
        first_field(fields, json_lookup_order(ps[j])) matches Some(r) && reads_back(
            r,
            set_value(ps[j], params)->0,
        ),
{
    let w = written_params(ps, params);
    let p = ps[j];
    let v = set_value(p, params)->0;
    let keys = json_lookup_order(p);
    lemma_written(ps, params);
    written_json_name_is_read_first(p);
    let key = keys[0];
    let m0 = choose|m: int|
        0 <= m < w.len() && #[trigger] w[m] == (json_name_of(ps[j]), set_value(ps[j], params)->0);
    assert(fields[m0].0@ == key);
    lemma_field_named(fields, key);
    let r = field_named(fields, key)->0;
    let m = choose|m: int| 0 <= m < fields.len() && (#[trigger] fields[m]).0@ == key && fields[m].1 == r;
    assert(fields[m].0@ == w[m].0);
    let b = choose|b: int|
        0 <= b < ps.len() && set_value(#[trigger] ps[b], params) == Some((#[trigger] w[m]).1)
            && w[m].0 == json_name_of(ps[b]);
    if b != j {
        assert(json_lookup_order(ps[j])[0] != json_name_of(ps[b]));
    }
    assert(w[m].1 == v);
    assert(reads_back(r, v));
}

/// One parameter reads back what was written for it.
proof fn lemma_param_reads_back(
    ps: Seq<ParamDesc>,
    params: Map<String, ParamValue>,
    fields: Seq<(String, JsonReading)>,
    j: int,
)
    requires
        0 <= j < ps.len(),
        json_names_apart(ps),
        set_value(ps[j], params) matches Some(v) ==> value_fits(ps[j].kind, v),
        reads_written(fields, written_params(ps, params)),
    ensures
        same_option(param_from_json(ps[j], fields), set_value(ps[j], params)),
{
    if set_value(ps[j], params) is Some {
        lemma_set_reads_field(ps, params, fields, j);
        let r = first_field(fields, json_lookup_order(ps[j]))->0;
        lemma_value_reads_back(ps[j].kind, r, set_value(ps[j], params)->0);
    } else {
        lemma_unset_reads_nothing(ps, params, fields, j);
    }
}

/// Parameters written to JSON read back as they were: where no parameter
/// is looked up under another's JSON name, every set value fits its
/// parameter's kind, and each written field's reading gives back the value
/// written, reading the object yields exactly the set parameters, in order,
/// with their values.
pub proof fn written_params_read_back(
    ps: Seq<ParamDesc>,
    params: Map<String, ParamValue>,
    fields: Seq<(String, JsonReading)>,
)
    requires
        json_names_apart(ps),
        forall|j: int| 0 <= j < ps.len() ==> (#[trigger] set_value(ps[j], params) matches Some(v) ==> value_fits(ps[j].kind, v)),
        reads_written(fields, written_params(ps, params)),
    ensures
        same_entries(params_from_json(ps, fields), set_params(ps, params)),
{
    lemma_read_back_prefix(ps, params, fields, ps.len() as int);
    assert(ps.take(ps.len() as int) =~= ps);
}

proof fn lemma_read_back_prefix(
    ps: Seq<ParamDesc>,
    params: Map<String, ParamValue>,
    fields: Seq<(String, JsonReading)>,
    n: int,
)
    requires
        0 <= n <= ps.len(),
        json_names_apart(ps),
        forall|j: int| 0 <= j < ps.len() ==> (#[trigger] set_value(ps[j], params) matches Some(v) ==> value_fits(ps[j].kind, v)),
        reads_written(fields, written_params(ps, params)),
    ensures
        same_entries(params_from_json(ps.take(n), fields), set_params(ps.take(n), params)),
    decreases n,
{
    if n > 0 {
        lemma_read_back_prefix(ps, params, fields, n - 1);
        let t = ps.take(n);
        assert(t.drop_last() =~= ps.take(n - 1));
        assert(t.last() == ps[n - 1]);
        lemma_param_reads_back(ps, params, fields, n - 1);
        let a0 = params_from_json(ps.take(n - 1), fields);
        let b0 = set_params(ps.take(n - 1), params);
        let a = params_from_json(t, fields);
        let b = set_params(t, params);
        assert forall|i: int| 0 <= i < a.len() implies #[trigger] a[i].0 == b[i].0 && same_value(a[i].1, b[i].1) by {
            if i < a0.len() {
                assert(a[i] == a0[i]);
                assert(b[i] == b0[i]);
            }
        }
    } else {
        assert(ps.take(0) =~= Seq::<ParamDesc>::empty());
    }
}

// ─── JSON documents ───

/// A JSON value, floats held by their bits.
#[derive(Debug, PartialEq)]
pub enum JsonValue {
    Null,
    Bool(bool),
    Int(i64),
    UInt(u64),
    Number(FloatBits),
    /// A number that is no `f32` parameter value, by its `f64` bits.
    Double(u64),
    Str(String),
    Array(Vec<JsonValue>),
    Object(Vec<(String, JsonValue)>),
}

/// A JSON value as a mathematical value; an object is its fields in order.
pub enum JsonView {
    Null,
    Bool(bool),
    Int(i64),
    UInt(u64),
    Number(FloatBits),
    Double(u64),
    Str(Seq<char>),
    Array(Seq<JsonView>),
    Object(Seq<(Seq<char>, JsonView)>),
}

impl JsonValue {
    /// This value as a [`JsonView`].
    pub open spec fn json_view(self) -> JsonView
        decreases self,
    {
        match self {
            JsonValue::Null => JsonView::Null,
            JsonValue::Bool(b) => JsonView::Bool(b),
            JsonValue::Int(i) => JsonView::Int(i),
            JsonValue::UInt(u) => JsonView::UInt(u),
            JsonValue::Number(n) => JsonView::Number(n),
            JsonValue::Double(d) => JsonView::Double(d),
            JsonValue::Str(s) => JsonView::Str(s@),
            JsonValue::Array(v) => JsonView::Array(
                Seq::new(
                    v@.len(),
                    |i: int|
                        if 0 <= i < v@.len() {
                            v@[i].json_view()
                        } else {
                            JsonView::Null
                        },
                ),
            ),
            JsonValue::Object(fs) => JsonView::Object(
                Seq::new(
                    fs@.len(),
                    |i: int|
                        if 0 <= i < fs@.len() {
                            (fs@[i].0@, fs@[i].1.json_view())
                        } else {
                            (Seq::empty(), JsonView::Null)
                        },
                ),
            ),
        }
    }
}

/// The views of `items`.
pub open spec fn items_view(items: Seq<JsonValue>) -> Seq<JsonView> {
    Seq::new(items.len(), |i: int| items[i].json_view())
}

/// The views of the fields `fs`.
pub open spec fn fields_view(fs: Seq<(String, JsonValue)>) -> Seq<(Seq<char>, JsonView)> {
    Seq::new(fs.len(), |i: int| (fs[i].0@, fs[i].1.json_view()))
}

/// The view of an optional value.
pub open spec fn view_opt(v: Option<JsonValue>) -> Option<JsonView> {
    match v {
        Some(x) => Some(x.json_view()),
        None => None,
    }
}

/// The position of the first field of `o` from `i` on named `k`, or -1.
pub open spec fn key_pos(o: Seq<(Seq<char>, JsonView)>, k: Seq<char>, i: int) -> int
    decreases o.len() - i,
{
    if i < 0 || i >= o.len() {
        -1
    } else if o[i].0 == k {
        i
    } else {
        key_pos(o, k, i + 1)
    }
}

/// `value[k] = x` on a JSON value: an object gets field `k` replaced, or
/// added at the end; null becomes the object holding just that field.
pub open spec fn json_set(v: JsonView, k: Seq<char>, x: JsonView) -> JsonView {
    match v {
        JsonView::Object(o) => {
            let p = key_pos(o, k, 0);
            if p >= 0 {
                JsonView::Object(o.update(p, (k, x)))
            } else {
                JsonView::Object(o.push((k, x)))
            }
        },
        JsonView::Null => JsonView::Object(seq![(k, x)]),
        _ => v,
    }
}

/// `value.get(k)`: the field `k` of an object.
pub open spec fn json_get(v: JsonView, k: Seq<char>) -> Option<JsonView> {
    match v {
        JsonView::Object(o) => {
            let p = key_pos(o, k, 0);
            if p >= 0 {
                Some(o[p].1)
            } else {
                None
            }
        },
        _ => None,
    }
}

proof fn lemma_object_view(fs: Seq<(String, JsonValue)>)
    ensures
        forall|v: Vec<(String, JsonValue)>| #[trigger] JsonValue::Object(v).json_view() == JsonView::Object(
            fields_view(v@),
        ),
        forall|v: Vec<JsonValue>| #[trigger] JsonValue::Array(v).json_view() == JsonView::Array(
            items_view(v@),
        ),
{
    assert forall|v: Vec<(String, JsonValue)>| #[trigger] JsonValue::Object(v).json_view() == JsonView::Object(
        fields_view(v@),
    ) by {
        if let JsonView::Object(o) = JsonValue::Object(v).json_view() {
            assert(o =~= fields_view(v@));
        }
    }
    assert forall|v: Vec<JsonValue>| #[trigger] JsonValue::Array(v).json_view() == JsonView::Array(
        items_view(v@),
    ) by {
        if let JsonView::Array(o) = JsonValue::Array(v).json_view() {
            assert(o =~= items_view(v@));
        }
    }
}

/// The object with fields `fs`.
fn obj(fs: Vec<(String, JsonValue)>) -> (r: JsonValue)
    ensures
        r.json_view() == JsonView::Object(fields_view(fs@)),
{
    proof {
        lemma_object_view(fs@);
    }
    JsonValue::Object(fs)
}

/// The array of `items`.
fn arr(items: Vec<JsonValue>) -> (r: JsonValue)
    ensures
        r.json_view() == JsonView::Array(items_view(items@)),
{
    proof {
        lemma_object_view(Seq::empty());
    }
    JsonValue::Array(items)
}

/// The string `s`.
fn jstr(s: &str) -> (r: JsonValue)
    ensures
        r.json_view() == JsonView::Str(s@),
{
    JsonValue::Str(s.to_owned())
}

/// Appends field `k` with value `v`.
fn push_field(fs: &mut Vec<(String, JsonValue)>, k: &str, v: JsonValue)
    ensures
        fields_view(final(fs)@) == fields_view(old(fs)@).push((k@, v.json_view())),
{
    fs.push((k.to_owned(), v));
    proof {
        assert(fields_view(fs@) =~= fields_view(old(fs)@).push((k@, v.json_view())));
    }
}

/// Appends item `v`.
fn push_item(items: &mut Vec<JsonValue>, v: JsonValue)
    ensures
        items_view(final(items)@) == items_view(old(items)@).push(v.json_view()),
{
    items.push(v);
    proof {
        assert(items_view(items@) =~= items_view(old(items)@).push(v.json_view()));
    }
}

/// A found position holds the key searched for.
proof fn lemma_key_pos(o: Seq<(Seq<char>, JsonView)>, k: Seq<char>, j: int)
    requires
        0 <= j,
    ensures
        key_pos(o, k, j) == -1 || (j <= key_pos(o, k, j) < o.len() && o[key_pos(o, k, j)].0 == k),
    decreases o.len() - j,
{
    if j < o.len() && o[j].0 != k {
        lemma_key_pos(o, k, j + 1);
    }
}

/// Where the field named `k` stands in `fs`, or `fs.len()` where none is.
fn find_key(fs: &Vec<(String, JsonValue)>, k: &str) -> (i: usize)
    ensures
        i <= fs@.len(),
        i < fs@.len() ==> key_pos(fields_view(fs@), k@, 0) == i,
        i == fs@.len() ==> key_pos(fields_view(fs@), k@, 0) == -1,
{
    let ghost o = fields_view(fs@);
    let mut j: usize = 0;
    while j < fs.len()
        invariant
            j <= fs@.len(),
            o == fields_view(fs@),
            key_pos(o, k@, 0) == key_pos(o, k@, j as int),
        decreases fs@.len() - j,
    {
        if str_eq(fs[j].0.as_str(), k) {
            return j;
        }
        j = j + 1;
    }
    j
}

/// Sets field `k` of `v` to `x` (what `v[k] = x` does on an object or null).
fn set_field(v: JsonValue, k: &str, x: JsonValue) -> (r: JsonValue)
    requires
        v.json_view() is Object || v.json_view() is Null,
    ensures
        r.json_view() == json_set(v.json_view(), k@, x.json_view()),
        r.json_view() is Object,
{
    proof {
        lemma_object_view(Seq::empty());
    }
    let ghost xv = x.json_view();
    match v {
        JsonValue::Object(mut fs) => {
            let ghost fs0 = fs@;
            let i = find_key(&fs, k);
            if i < fs.len() {
                let _replaced = fs.remove(i);
                fs.insert(i, (k.to_owned(), x));
                proof {
                    assert(fields_view(fs@) =~= fields_view(fs0).update(i as int, (k@, xv)));
                }
            } else {
                push_field(&mut fs, k, x);
            }
            obj(fs)
        },
        _ => {
            let mut fs: Vec<(String, JsonValue)> = Vec::new();
            push_field(&mut fs, k, x);
            proof {
                assert(fields_view(fs@) =~= seq![(k@, xv)]);
            }
            obj(fs)
        },
    }
}

/// `v` with its `"type"` field `t` replaced by `[t, "null"]`, where it has one.
fn nullable_type(v: JsonValue) -> (r: JsonValue)
    requires
        v.json_view() is Object,
    ensures
        r.json_view() == nullable(v.json_view()),
        r.json_view() is Object,
{
    proof {
        lemma_object_view(Seq::empty());
    }
    match v {
        JsonValue::Object(mut fs) => {
            let ghost fs0 = fs@;
            let i = find_key(&fs, "type");
            if i < fs.len() {
                let (key, t) = fs.remove(i);
                let ghost tv = t.json_view();
                let mut items: Vec<JsonValue> = Vec::new();
                push_item(&mut items, t);
                push_item(&mut items, jstr("null"));
                let both = arr(items);
                fs.insert(i, (key, both));
                proof {
                    lemma_key_pos(fields_view(fs0), "type"@, 0);
                    assert(items_view(items@) =~= seq![tv, JsonView::Str("null"@)]);
                    assert(fs0[i as int].1.json_view() == fields_view(fs0)[i as int].1);
                    assert(fields_view(fs@) =~= fields_view(fs0).update(
                        i as int,
                        ("type"@, JsonView::Array(seq![tv, JsonView::Str("null"@)])),
                    ));
                }
            }
            obj(fs)
        },
        other => other,
    }
}

/// `[t, "null"]` in place of the `"type"` field `t` of `s`, where it has one.
pub open spec fn nullable(s: JsonView) -> JsonView {
    match json_get(s, "type"@) {
        Some(t) => json_set(s, "type"@, JsonView::Array(seq![t, JsonView::Str("null"@)])),
        None => s,
    }
}

/// The strings `ss` as JSON strings.
pub open spec fn str_items(ss: Seq<&'static str>) -> Seq<JsonView> {
    Seq::new(ss.len(), |i: int| JsonView::Str(ss[i]@))
}

/// The names of `vs` as JSON strings.
pub open spec fn variant_names(vs: Seq<EnumVariant>) -> Seq<JsonView> {
    Seq::new(vs.len(), |i: int| JsonView::Str(vs[i].name@))
}

/// One object `{name, label, description}` for each of `vs`.
pub open spec fn variant_labels(vs: Seq<EnumVariant>) -> Seq<JsonView> {
    Seq::new(
        vs.len(),
        |i: int|
            JsonView::Object(
                seq![
                    ("name"@, JsonView::Str(vs[i].name@)),
                    ("label"@, JsonView::Str(vs[i].label@)),
                    ("description"@, JsonView::Str(vs[i].description@)),
                ],
            ),
    )
}

/// The name of a slider mapping in JSON Schema documents.
pub open spec fn slider_text(s: SliderMapping) -> Seq<char> {
    match s {
        SliderMapping::Linear => "linear"@,
        SliderMapping::SquareFromSlider => "square_from_slider"@,
        SliderMapping::FactorCentered => "factor_centered"@,
        SliderMapping::Logarithmic => "logarithmic"@,
        SliderMapping::NotSlider => "not_slider"@,
    }
}

/// The name of a slider mapping in JSON Schema documents.
pub fn slider_json(s: SliderMapping) -> (r: &'static str)
    ensures
        r@ == slider_text(s),
{
    match s {
        SliderMapping::Linear => "linear",
        SliderMapping::SquareFromSlider => "square_from_slider",
        SliderMapping::FactorCentered => "factor_centered",
        SliderMapping::Logarithmic => "logarithmic",
        SliderMapping::NotSlider => "not_slider",
    }
}

/// The JSON Schema of a parameter kind. For a `Json` kind it is the embedded
/// document `doc` (an empty object where the text did not parse), with the
/// parsed default `def`, where there is one, as its `"default"`.
pub open spec fn kind_schema(k: ParamKind, doc: Option<JsonView>, def: Option<JsonView>) -> JsonView {
    match k {
        ParamKind::Float { min, max, default, identity, step } => JsonView::Object(
            seq![
                ("type"@, JsonView::Str("number"@)),
                ("minimum"@, JsonView::Number(min)),
                ("maximum"@, JsonView::Number(max)),
                ("default"@, JsonView::Number(default)),
                ("x-zennode-identity"@, JsonView::Number(identity)),
                ("x-zennode-step"@, JsonView::Number(step)),
            ],
        ),
        ParamKind::Int { min, max, default } => JsonView::Object(
            seq![
                ("type"@, JsonView::Str("integer"@)),
                ("minimum"@, JsonView::Int(min as i64)),
                ("maximum"@, JsonView::Int(max as i64)),
                ("default"@, JsonView::Int(default as i64)),
            ],
        ),
        ParamKind::U32 { min, max, default } => JsonView::Object(
            seq![
                ("type"@, JsonView::Str("integer"@)),
                ("minimum"@, JsonView::UInt(min as u64)),
                ("maximum"@, JsonView::UInt(max as u64)),
                ("default"@, JsonView::UInt(default as u64)),
            ],
        ),
        ParamKind::Bool { default } => JsonView::Object(
            seq![("type"@, JsonView::Str("boolean"@)), ("default"@, JsonView::Bool(default))],
        ),
        ParamKind::Str { default } => JsonView::Object(
            seq![("type"@, JsonView::Str("string"@)), ("default"@, JsonView::Str(default@))],
        ),
        ParamKind::Enum { variants, default } => JsonView::Object(
            seq![
                ("type"@, JsonView::Str("string"@)),
                ("enum"@, JsonView::Array(variant_names(variants@))),
                ("default"@, JsonView::Str(default@)),
                ("x-zennode-enum-labels"@, JsonView::Array(variant_labels(variants@))),
            ],
        ),
        ParamKind::FloatArray { len, min, max, default, labels } => JsonView::Object(
            seq![
                ("type"@, JsonView::Str("array"@)),
                (
                    "items"@,
                    JsonView::Object(
                        seq![
                            ("type"@, JsonView::Str("number"@)),
                            ("minimum"@, JsonView::Number(min)),
                            ("maximum"@, JsonView::Number(max)),
                        ],
                    ),
                ),
                ("minItems"@, JsonView::UInt(len as u64)),
                ("maxItems"@, JsonView::UInt(len as u64)),
                ("default"@, JsonView::Array(Seq::new(len as nat, |i: int| JsonView::Number(default)))),
                ("x-zennode-labels"@, JsonView::Array(str_items(labels@))),
            ],
        ),
        ParamKind::Color { default } => JsonView::Object(
            seq![
                ("type"@, JsonView::Str("array"@)),
                ("items"@, JsonView::Object(seq![("type"@, JsonView::Str("number"@))])),
                ("minItems"@, JsonView::UInt(4)),
                ("maxItems"@, JsonView::UInt(4)),
                (
                    "default"@,
                    JsonView::Array(
                        seq![
                            JsonView::Number(default[0]),
                            JsonView::Number(default[1]),
                            JsonView::Number(default[2]),
                            JsonView::Number(default[3]),
                        ],
                    ),
                ),
                ("x-zennode-color"@, JsonView::Bool(true)),
            ],
        ),
        ParamKind::Json { .. } => {
            let s = match doc {
                Some(d) => d,
                None => JsonView::Object(Seq::empty()),
            };
            match def {
                Some(d) => json_set(s, "default"@, d),
                None => s,
            }
        },
    }
}

/// `s` with field `k` set to the string `v` where `v` is not empty.
pub open spec fn set_nonempty(s: JsonView, k: Seq<char>, v: Seq<char>) -> JsonView {
    if v.len() > 0 {
        json_set(s, k, JsonView::Str(v))
    } else {
        s
    }
}

/// The JSON Schema of parameter `p`: the schema of its kind, then its title,
/// description, nullability, unit, section, slider, querystring keys, version
/// and visibility condition, each set only where the parameter has one.
pub open spec fn param_schema(p: ParamDesc, doc: Option<JsonView>, def: Option<JsonView>) -> JsonView {
    let s1 = json_set(kind_schema(p.kind, doc, def), "title"@, JsonView::Str(p.label@));
    let s2 = set_nonempty(s1, "description"@, p.description@);
    let s3 = if p.optional {
        json_set(nullable(s2), "x-zennode-optional"@, JsonView::Bool(true))
    } else {
        s2
    };
    let s4 = set_nonempty(s3, "x-zennode-unit"@, p.unit@);
    let s5 = set_nonempty(s4, "x-zennode-section"@, p.section@);
    let s6 = json_set(s5, "x-zennode-slider"@, JsonView::Str(slider_text(p.slider)));
    let s7 = if p.kv_keys@.len() > 0 {
        json_set(s6, "x-zennode-kv-keys"@, JsonView::Array(str_items(p.kv_keys@)))
    } else {
        s6
    };
    let s8 = if p.since_version > 1 {
        json_set(s7, "x-zennode-since-version"@, JsonView::UInt(p.since_version as u64))
    } else {
        s7
    };
    set_nonempty(s8, "x-zennode-visible-when"@, p.visible_when@)
}

/// Whether `doc` can stand as the schema of a `Json` parameter: none, an
/// object or null (fields are set on it).
pub open spec fn embeddable(doc: Option<JsonView>) -> bool {
    match doc {
        Some(d) => d is Object || d is Null,
        None => true,
    }
}

/// Sets field `k` to the string `v` where `v` is not empty.
fn set_str_if_any(s: JsonValue, k: &str, v: &str) -> (r: JsonValue)
    requires
        s.json_view() is Object,
    ensures
        r.json_view() == set_nonempty(s.json_view(), k@, v@),
        r.json_view() is Object,
{
    if v.is_empty() {
        s
    } else {
        set_field(s, k, jstr(v))
    }
}

/// The JSON strings of `ss`.
fn str_array(ss: &[&'static str]) -> (r: JsonValue)
    ensures
        r.json_view() == JsonView::Array(str_items(ss@)),
{
    let mut items: Vec<JsonValue> = Vec::new();
    let mut i: usize = 0;
    while i < ss.len()
        invariant
            i <= ss@.len(),
            items_view(items@) =~= str_items(ss@).take(i as int),
        decreases ss@.len() - i,
    {
        push_item(&mut items, jstr(ss[i]));
        i = i + 1;
    }
    proof {
        assert(str_items(ss@).take(i as int) =~= str_items(ss@));
    }
    arr(items)
}

/// The JSON strings of the names of `vs`.
fn variant_name_array(vs: &[EnumVariant]) -> (r: JsonValue)
    ensures
        r.json_view() == JsonView::Array(variant_names(vs@)),
{
    let mut items: Vec<JsonValue> = Vec::new();
    let mut i: usize = 0;
    while i < vs.len()
        invariant
            i <= vs@.len(),
            items_view(items@) =~= variant_names(vs@).take(i as int),
        decreases vs@.len() - i,
    {
        push_item(&mut items, jstr(vs[i].name));
        i = i + 1;
    }
    proof {
        assert(variant_names(vs@).take(i as int) =~= variant_names(vs@));
    }
    arr(items)
}

/// One object `{name, label, description}` for each of `vs`.
fn variant_label_array(vs: &[EnumVariant]) -> (r: JsonValue)
    ensures
        r.json_view() == JsonView::Array(variant_labels(vs@)),
{
    let mut items: Vec<JsonValue> = Vec::new();
    let mut i: usize = 0;
    while i < vs.len()
        invariant
            i <= vs@.len(),
            items_view(items@) =~= variant_labels(vs@).take(i as int),
        decreases vs@.len() - i,
    {
        let v = &vs[i];
        let mut fs: Vec<(String, JsonValue)> = Vec::new();
        push_field(&mut fs, "name", jstr(v.name));
        push_field(&mut fs, "label", jstr(v.label));
        push_field(&mut fs, "description", jstr(v.description));
        proof {
            assert(fields_view(fs@) =~= seq![
                ("name"@, JsonView::Str(v.name@)),
                ("label"@, JsonView::Str(v.label@)),
                ("description"@, JsonView::Str(v.description@)),
            ]);
        }
        push_item(&mut items, obj(fs));
        i = i + 1;
    }
    proof {
        assert(variant_labels(vs@).take(i as int) =~= variant_labels(vs@));
    }
    arr(items)
}

/// `n` copies of the number `x`.
fn repeated_number(x: FloatBits, n: usize) -> (r: JsonValue)
    ensures
        r.json_view() == JsonView::Array(Seq::new(n as nat, |i: int| JsonView::Number(x))),
{
    let mut items: Vec<JsonValue> = Vec::new();
    let mut i: usize = 0;
    while i < n
        invariant
            i <= n,
            items_view(items@) =~= Seq::new(i as nat, |j: int| JsonView::Number(x)),
        decreases n - i,
    {
        push_item(&mut items, JsonValue::Number(x));
        i = i + 1;
    }
    arr(items)
}

/// The JSON Schema of a parameter kind (see [`kind_schema`]).
fn kind_to_schema(k: &ParamKind, doc: Option<JsonValue>, def: Option<JsonValue>) -> (r: JsonValue)
    requires
        k is Json ==> embeddable(view_opt(doc)),
    ensures
        r.json_view() == kind_schema(*k, view_opt(doc), view_opt(def)),
        r.json_view() is Object || r.json_view() is Null,
{
    let mut fs: Vec<(String, JsonValue)> = Vec::new();
    match k {
        ParamKind::Float { min, max, default, identity, step } => {
            push_field(&mut fs, "type", jstr("number"));
            push_field(&mut fs, "minimum", JsonValue::Number(*min));
            push_field(&mut fs, "maximum", JsonValue::Number(*max));
            push_field(&mut fs, "default", JsonValue::Number(*default));
            push_field(&mut fs, "x-zennode-identity", JsonValue::Number(*identity));
            push_field(&mut fs, "x-zennode-step", JsonValue::Number(*step));
            proof {
                assert(fields_view(fs@) =~= seq![
                    ("type"@, JsonView::Str("number"@)),
                    ("minimum"@, JsonView::Number(*min)),
                    ("maximum"@, JsonView::Number(*max)),
                    ("default"@, JsonView::Number(*default)),
                    ("x-zennode-identity"@, JsonView::Number(*identity)),
                    ("x-zennode-step"@, JsonView::Number(*step)),
                ]);
            }
            obj(fs)
        },
        ParamKind::Int { min, max, default } => {
            push_field(&mut fs, "type", jstr("integer"));
            push_field(&mut fs, "minimum", JsonValue::Int(*min as i64));
            push_field(&mut fs, "maximum", JsonValue::Int(*max as i64));
            push_field(&mut fs, "default", JsonValue::Int(*default as i64));
            proof {
                assert(fields_view(fs@) =~= seq![
                    ("type"@, JsonView::Str("integer"@)),
                    ("minimum"@, JsonView::Int(*min as i64)),
                    ("maximum"@, JsonView::Int(*max as i64)),
                    ("default"@, JsonView::Int(*default as i64)),
                ]);
            }
            obj(fs)
        },
        ParamKind::U32 { min, max, default } => {
            push_field(&mut fs, "type", jstr("integer"));
            push_field(&mut fs, "minimum", JsonValue::UInt(*min as u64));
            push_field(&mut fs, "maximum", JsonValue::UInt(*max as u64));
            push_field(&mut fs, "default", JsonValue::UInt(*default as u64));
            proof {
                assert(fields_view(fs@) =~= seq![
                    ("type"@, JsonView::Str("integer"@)),
                    ("minimum"@, JsonView::UInt(*min as u64)),
                    ("maximum"@, JsonView::UInt(*max as u64)),
                    ("default"@, JsonView::UInt(*default as u64)),
                ]);
            }
            obj(fs)
        },
        ParamKind::Bool { default } => {
            push_field(&mut fs, "type", jstr("boolean"));
            push_field(&mut fs, "default", JsonValue::Bool(*default));
            proof {
                assert(fields_view(fs@) =~= seq![
                    ("type"@, JsonView::Str("boolean"@)),
                    ("default"@, JsonView::Bool(*default)),
                ]);
            }
            obj(fs)
        },
        ParamKind::Str { default } => {
            push_field(&mut fs, "type", jstr("string"));
            push_field(&mut fs, "default", jstr(*default));
            proof {
                assert(fields_view(fs@) =~= seq![
                    ("type"@, JsonView::Str("string"@)),
                    ("default"@, JsonView::Str(default@)),
                ]);
            }
            obj(fs)
        },
        ParamKind::Enum { variants, default } => {
            push_field(&mut fs, "type", jstr("string"));
            push_field(&mut fs, "enum", variant_name_array(*variants));
            push_field(&mut fs, "default", jstr(*default));
            push_field(&mut fs, "x-zennode-enum-labels", variant_label_array(*variants));
            proof {
                assert(fields_view(fs@) =~= seq![
                    ("type"@, JsonView::Str("string"@)),
                    ("enum"@, JsonView::Array(variant_names(variants@))),
                    ("default"@, JsonView::Str(default@)),
                    ("x-zennode-enum-labels"@, JsonView::Array(variant_labels(variants@))),
                ]);
            }
            obj(fs)
        },
        ParamKind::FloatArray { len, min, max, default, labels } => {
            let mut items: Vec<(String, JsonValue)> = Vec::new();
            push_field(&mut items, "type", jstr("number"));
            push_field(&mut items, "minimum", JsonValue::Number(*min));
            push_field(&mut items, "maximum", JsonValue::Number(*max));
            proof {
                assert(fields_view(items@) =~= seq![
                    ("type"@, JsonView::Str("number"@)),
                    ("minimum"@, JsonView::Number(*min)),
                    ("maximum"@, JsonView::Number(*max)),
                ]);
            }
            push_field(&mut fs, "type", jstr("array"));
            push_field(&mut fs, "items", obj(items));
            push_field(&mut fs, "minItems", JsonValue::UInt(*len as u64));
            push_field(&mut fs, "maxItems", JsonValue::UInt(*len as u64));
            push_field(&mut fs, "default", repeated_number(*default, *len));
            push_field(&mut fs, "x-zennode-labels", str_array(*labels));
            proof {
                assert(fields_view(fs@) =~= seq![
                    ("type"@, JsonView::Str("array"@)),
                    (
                        "items"@,
                        JsonView::Object(
                            seq![
                                ("type"@, JsonView::Str("number"@)),
                                ("minimum"@, JsonView::Number(*min)),
                                ("maximum"@, JsonView::Number(*max)),
                            ],
                        ),
                    ),
                    ("minItems"@, JsonView::UInt(*len as u64)),
                    ("maxItems"@, JsonView::UInt(*len as u64)),
                    (
                        "default"@,
                        JsonView::Array(Seq::new(*len as nat, |i: int| JsonView::Number(*default))),
                    ),
                    ("x-zennode-labels"@, JsonView::Array(str_items(labels@))),
                ]);
            }
            obj(fs)
        },
        ParamKind::Color { default } => {
            let mut items: Vec<(String, JsonValue)> = Vec::new();
            push_field(&mut items, "type", jstr("number"));
            proof {
                assert(fields_view(items@) =~= seq![("type"@, JsonView::Str("number"@))]);
            }
            let mut dv: Vec<JsonValue> = Vec::new();
            push_item(&mut dv, JsonValue::Number(default[0]));
            push_item(&mut dv, JsonValue::Number(default[1]));
            push_item(&mut dv, JsonValue::Number(default[2]));
            push_item(&mut dv, JsonValue::Number(default[3]));
            proof {
                assert(items_view(dv@) =~= seq![
                    JsonView::Number(default[0]),
                    JsonView::Number(default[1]),
                    JsonView::Number(default[2]),
                    JsonView::Number(default[3]),
                ]);
            }
            push_field(&mut fs, "type", jstr("array"));
            push_field(&mut fs, "items", obj(items));
            push_field(&mut fs, "minItems", JsonValue::UInt(4));
            push_field(&mut fs, "maxItems", JsonValue::UInt(4));
            push_field(&mut fs, "default", arr(dv));
            push_field(&mut fs, "x-zennode-color", JsonValue::Bool(true));
            proof {
                assert(fields_view(fs@) =~= seq![
                    ("type"@, JsonView::Str("array"@)),
                    ("items"@, JsonView::Object(seq![("type"@, JsonView::Str("number"@))])),
                    ("minItems"@, JsonView::UInt(4)),
                    ("maxItems"@, JsonView::UInt(4)),
                    (
                        "default"@,
                        JsonView::Array(
                            seq![
                                JsonView::Number(default[0]),
                                JsonView::Number(default[1]),
                                JsonView::Number(default[2]),
                                JsonView::Number(default[3]),
                            ],
                        ),
                    ),
                    ("x-zennode-color"@, JsonView::Bool(true)),
                ]);
            }
            obj(fs)
        },
        ParamKind::Json { .. } => {
            proof {
                assert(fields_view(fs@) =~= Seq::empty());
            }
            let s = match doc {
                Some(d) => d,
                None => obj(fs),
            };
            match def {
                Some(d) => set_field(s, "default", d),
                None => s,
            }
        },
    }
}

/// The JSON Schema of parameter `p` (see [`param_schema`]). For a `Json`
/// parameter, `doc` is its embedded schema as parsed, `None` where that text
/// is no JSON, and `def` its default as parsed, `None` where the default is
/// empty or no JSON; for other kinds both are ignored.
pub fn param_to_schema(p: &ParamDesc, doc: Option<JsonValue>, def: Option<JsonValue>) -> (r: JsonValue)
    requires
        p.kind is Json ==> embeddable(view_opt(doc)),
    ensures
        r.json_view() == param_schema(*p, view_opt(doc), view_opt(def)),
{
    let s0 = kind_to_schema(&p.kind, doc, def);
    let s1 = set_field(s0, "title", jstr(p.label));
    let s2 = set_str_if_any(s1, "description", p.description);
    let s3 = if p.optional {
        let t = nullable_type(s2);
        set_field(t, "x-zennode-optional", JsonValue::Bool(true))
    } else {
        s2
    };
    let s4 = set_str_if_any(s3, "x-zennode-unit", p.unit);
    let s5 = set_str_if_any(s4, "x-zennode-section", p.section);
    let s6 = set_field(s5, "x-zennode-slider", jstr(slider_json(p.slider)));
    let s7 = if p.kv_keys.len() > 0 {
        set_field(s6, "x-zennode-kv-keys", str_array(p.kv_keys))
    } else {
        s6
    };
    let s8 = if p.since_version > 1 {
        set_field(s7, "x-zennode-since-version", JsonValue::UInt(p.since_version as u64))
    } else {
        s7
    };
    set_str_if_any(s8, "x-zennode-visible-when", p.visible_when)
}

// ─── What a parameter's JSON Schema says of its declared values ───

proof fn lemma_key_pos_update(o: Seq<(Seq<char>, JsonView)>, q: int, y: (Seq<char>, JsonView), k: Seq<char>, i: int)
    requires
        0 <= q < o.len(),
        o[q].0 != k,
        y.0 != k,
        0 <= i,
    ensures
        key_pos(o.update(q, y), k, i) == key_pos(o, k, i),
    decreases o.len() - i,
{
    if i < o.len() {
        lemma_key_pos_update(o, q, y, k, i + 1);
    }
}

proof fn lemma_key_pos_push(o: Seq<(Seq<char>, JsonView)>, y: (Seq<char>, JsonView), k: Seq<char>, i: int)
    requires
        y.0 != k,
        0 <= i,
    ensures
        key_pos(o.push(y), k, i) == key_pos(o, k, i),
    decreases o.len() + 1 - i,
{
    if i <= o.len() {
        lemma_key_pos_push(o, y, k, i + 1);
    }
}

/// Setting one field of an object (or of null) leaves what any other field
/// reads unchanged, and gives an object.
proof fn lemma_get_after_set(v: JsonView, k: Seq<char>, x: JsonView, other: Seq<char>)
    requires
        k != other,
        v is Object || v is Null,
    ensures
        json_get(json_set(v, k, x), other) == json_get(v, other),
        json_set(v, k, x) is Object,
{
    match v {
        JsonView::Object(o) => {
            let p = key_pos(o, k, 0);
            lemma_key_pos(o, k, 0);
            lemma_key_pos(o, other, 0);
            if p >= 0 {
                lemma_key_pos_update(o, p, (k, x), other, 0);
                let q = key_pos(o, other, 0);
                if q >= 0 {
                    assert(o.update(p, (k, x))[q] == o[q]);
                }
            } else {
                lemma_key_pos_push(o, (k, x), other, 0);
                let q = key_pos(o, other, 0);
                if q >= 0 {
                    assert(o.push((k, x))[q] == o[q]);
                }
            }
        },
        _ => {
            let o = seq![(k, x)];
            assert(key_pos(o, other, 1) == -1);
            assert(key_pos(o, other, 0) == -1);
        },
    }
}

proof fn lemma_set_nonempty_keeps(s: JsonView, k: Seq<char>, t: Seq<char>, other: Seq<char>)
    requires
        k != other,
        s is Object,
    ensures
        json_get(set_nonempty(s, k, t), other) == json_get(s, other),
        set_nonempty(s, k, t) is Object,
{
    if t.len() > 0 {
        lemma_get_after_set(s, k, JsonView::Str(t), other);
    }
}

/// A field of seven characters (such as `"minimum"`, `"maximum"` or
/// `"default"`) reads the same in a parameter's JSON Schema as in the schema
/// of its kind: none of the fields set afterwards has that length.
proof fn lemma_schema_keeps_kind_field(p: ParamDesc, doc: Option<JsonView>, def: Option<JsonView>, k: Seq<char>)
    requires
        k.len() == 7,
        kind_schema(p.kind, doc, def) is Object,
    ensures
        json_get(param_schema(p, doc, def), k) == json_get(kind_schema(p.kind, doc, def), k),
{
    reveal_strlit("title");
    reveal_strlit("description");
    reveal_strlit("type");
    reveal_strlit("x-zennode-optional");
    reveal_strlit("x-zennode-unit");
    reveal_strlit("x-zennode-section");
    reveal_strlit("x-zennode-slider");
    reveal_strlit("x-zennode-kv-keys");
    reveal_strlit("x-zennode-since-version");
    reveal_strlit("x-zennode-visible-when");
    assert("title"@.len() == 5 && "description"@.len() == 11 && "type"@.len() == 4);
    assert("x-zennode-optional"@.len() == 18 && "x-zennode-unit"@.len() == 14);
    assert("x-zennode-section"@.len() == 17 && "x-zennode-slider"@.len() == 16);
    assert("x-zennode-kv-keys"@.len() == 17 && "x-zennode-since-version"@.len() == 23);
    assert("x-zennode-visible-when"@.len() == 22);
    let s0 = kind_schema(p.kind, doc, def);
    let s1 = json_set(s0, "title"@, JsonView::Str(p.label@));
    lemma_get_after_set(s0, "title"@, JsonView::Str(p.label@), k);
    let s2 = set_nonempty(s1, "description"@, p.description@);
    lemma_set_nonempty_keeps(s1, "description"@, p.description@, k);
    let s3 = if p.optional {
        json_set(nullable(s2), "x-zennode-optional"@, JsonView::Bool(true))
    } else {
        s2
    };
    if p.optional {
        if let Some(t) = json_get(s2, "type"@) {
            lemma_get_after_set(s2, "type"@, JsonView::Array(seq![t, JsonView::Str("null"@)]), k);
        }
        lemma_get_after_set(nullable(s2), "x-zennode-optional"@, JsonView::Bool(true), k);
    }
    let s4 = set_nonempty(s3, "x-zennode-unit"@, p.unit@);
    lemma_set_nonempty_keeps(s3, "x-zennode-unit"@, p.unit@, k);
    let s5 = set_nonempty(s4, "x-zennode-section"@, p.section@);
    lemma_set_nonempty_keeps(s4, "x-zennode-section"@, p.section@, k);
    let s6 = json_set(s5, "x-zennode-slider"@, JsonView::Str(slider_text(p.slider)));
    lemma_get_after_set(s5, "x-zennode-slider"@, JsonView::Str(slider_text(p.slider)), k);
    let s7 = if p.kv_keys@.len() > 0 {
        json_set(s6, "x-zennode-kv-keys"@, JsonView::Array(str_items(p.kv_keys@)))
    } else {
        s6
    };
    if p.kv_keys@.len() > 0 {
        lemma_get_after_set(s6, "x-zennode-kv-keys"@, JsonView::Array(str_items(p.kv_keys@)), k);
    }
    let s8 = if p.since_version > 1 {
        json_set(s7, "x-zennode-since-version"@, JsonView::UInt(p.since_version as u64))
    } else {
        s7
    };
    if p.since_version > 1 {
        lemma_get_after_set(s7, "x-zennode-since-version"@, JsonView::UInt(p.since_version as u64), k);
    }
    lemma_set_nonempty_keeps(s8, "x-zennode-visible-when"@, p.visible_when@, k);
}

/// The JSON Schema of an `Int` parameter has `"minimum"`, `"maximum"` and
/// `"default"` equal to its declared minimum, maximum and default.
pub proof fn int_schema_shows_declared_values(
    p: ParamDesc,
    doc: Option<JsonView>,
    def: Option<JsonView>,
    min: i32,
    max: i32,
    default: i32,
)
    requires
        p.kind == (ParamKind::Int { min, max, default }),
    ensures
        json_get(param_schema(p, doc, def), "minimum"@) == Some(JsonView::Int(min as i64)),
        json_get(param_schema(p, doc, def), "maximum"@) == Some(JsonView::Int(max as i64)),
        json_get(param_schema(p, doc, def), "default"@) == Some(JsonView::Int(default as i64)),
{
    lemma_range_keys_apart();
    lemma_schema_keeps_kind_field(p, doc, def, "minimum"@);
    lemma_schema_keeps_kind_field(p, doc, def, "maximum"@);
    lemma_schema_keeps_kind_field(p, doc, def, "default"@);
    reveal_with_fuel(key_pos, 5);
}

/// The JSON Schema of a `U32` parameter has `"minimum"`, `"maximum"` and
/// `"default"` equal to its declared minimum, maximum and default.
pub proof fn u32_schema_shows_declared_values(
    p: ParamDesc,
    doc: Option<JsonView>,
    def: Option<JsonView>,
    min: u32,
    max: u32,
    default: u32,
)
    requires
        p.kind == (ParamKind::U32 { min, max, default }),
    ensures
        json_get(param_schema(p, doc, def), "minimum"@) == Some(JsonView::UInt(min as u64)),
        json_get(param_schema(p, doc, def), "maximum"@) == Some(JsonView::UInt(max as u64)),
        json_get(param_schema(p, doc, def), "default"@) == Some(JsonView::UInt(default as u64)),
{
    lemma_range_keys_apart();
    lemma_schema_keeps_kind_field(p, doc, def, "minimum"@);
    lemma_schema_keeps_kind_field(p, doc, def, "maximum"@);
    lemma_schema_keeps_kind_field(p, doc, def, "default"@);
    reveal_with_fuel(key_pos, 5);
}

/// The JSON Schema of a `Float` parameter has `"minimum"`, `"maximum"` and
/// `"default"` equal to its declared minimum, maximum and default.
pub proof fn float_schema_shows_declared_values(
    p: ParamDesc,
    doc: Option<JsonView>,
    def: Option<JsonView>,
    min: FloatBits,
    max: FloatBits,
    default: FloatBits,
    identity: FloatBits,
    step: FloatBits,
)
    requires
        p.kind == (ParamKind::Float { min, max, default, identity, step }),
    ensures
        json_get(param_schema(p, doc, def), "minimum"@) == Some(JsonView::Number(min)),
        json_get(param_schema(p, doc, def), "maximum"@) == Some(JsonView::Number(max)),
        json_get(param_schema(p, doc, def), "default"@) == Some(JsonView::Number(default)),
{
    lemma_range_keys_apart();
    lemma_schema_keeps_kind_field(p, doc, def, "minimum"@);
    lemma_schema_keeps_kind_field(p, doc, def, "maximum"@);
    lemma_schema_keeps_kind_field(p, doc, def, "default"@);
    reveal_with_fuel(key_pos, 5);
}

/// The field names of a numeric kind's schema are pairwise different.
proof fn lemma_range_keys_apart()
    ensures
        "minimum"@.len() == 7 && "maximum"@.len() == 7 && "default"@.len() == 7,
        "type"@ != "minimum"@ && "type"@ != "maximum"@ && "type"@ != "default"@,
        "minimum"@ != "maximum"@ && "minimum"@ != "default"@ && "maximum"@ != "default"@,
{
    reveal_strlit("minimum");
    reveal_strlit("maximum");
    reveal_strlit("default");
    reveal_strlit("type");
    assert("type"@.len() == 4);
    assert("minimum"@[1] == 'i' && "maximum"@[1] == 'a' && "default"@[1] == 'e');
}

/// The JSON Schema of a `Bool` parameter has `"default"` equal to its
/// declared default.
pub proof fn bool_schema_shows_declared_default(p: ParamDesc, doc: Option<JsonView>, def: Option<JsonView>, default: bool)
    requires
        p.kind == (ParamKind::Bool { default }),
    ensures
        json_get(param_schema(p, doc, def), "default"@) == Some(JsonView::Bool(default)),
{
    lemma_range_keys_apart();
    lemma_schema_keeps_kind_field(p, doc, def, "default"@);
    reveal_with_fuel(key_pos, 3);
}

/// The JSON Schema of a `Str` or `Enum` parameter has `"default"` equal to
/// its declared default text.
pub proof fn text_schema_shows_declared_default(p: ParamDesc, doc: Option<JsonView>, def: Option<JsonView>)
    requires
        p.kind is Str || p.kind is Enum,
    ensures
        json_get(param_schema(p, doc, def), "default"@) == Some(
            JsonView::Str(
                match p.kind {
                    ParamKind::Str { default } => default@,
                    ParamKind::Enum { default, .. } => default@,
                    _ => Seq::empty(),
                },
            ),
        ),
{
    lemma_range_keys_apart();
    reveal_strlit("enum");
    assert("enum"@.len() == 4);
    lemma_schema_keeps_kind_field(p, doc, def, "default"@);
    reveal_with_fuel(key_pos, 4);
}

} // verus!
