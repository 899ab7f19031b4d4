//! RIAPI key-value parsing with consumption tracking.
//!
//! When processing a querystring like `w=800&quality=85&exposure=1.5`,
//! multiple node definitions can each consume their relevant keys.
//! After all nodes have parsed, unconsumed keys generate warnings.

use vstd::prelude::*;

use vstd::utf8::encode_utf8;

use crate::text::{
    chars_of, concat2_owned, concat3, concat5, str_eq, string_from_chars, to_lowercase,
    lowercase_text,
};

verus! {

// ───────────────────────── Types ─────────────────────────

/// RIAPI key-value pairs with consumption tracking.
pub struct KvPairs {
    entries: Vec<KvEntry>,
    warnings: Vec<KvWarning>,
}

struct KvEntry {
    key: String,
    value: String,
    consumed_by: Option<&'static str>,
}

/// A warning generated during KV parsing.
#[derive(Debug)]
pub struct KvWarning {
    /// The key that caused the warning.
    pub key: String,
    /// Warning category.
    pub kind: KvWarningKind,
    /// Human-readable message.
    pub message: String,
}

/// Categories of KV parsing warnings.
#[non_exhaustive]
#[derive(Clone, Copy, Debug, PartialEq, Eq, Structural)]
pub enum KvWarningKind {
    /// Key not recognized by any registered node.
    UnrecognizedKey,
    /// Key recognized but value could not be parsed.
    InvalidValue,
    /// Key is deprecated; use an alternative.
    DeprecatedKey,
    /// Same key appeared more than once (last value wins).
    DuplicateKey,
}

// ───────────────────────── Model ─────────────────────────

/// One querystring entry as a mathematical value.
pub struct EntryView {
    pub key: Seq<char>,
    pub value: Seq<char>,
    /// Name of the consumer that took this entry, if any.
    pub consumed_by: Option<Seq<char>>,
}

/// A warning as a mathematical value.
pub struct WarningView {
    pub key: Seq<char>,
    pub kind: KvWarningKind,
    pub message: Seq<char>,
}

/// The state of a [`KvPairs`]: its entries in order and its warnings in order.
pub struct KvView {
    pub entries: Seq<EntryView>,
    pub warnings: Seq<WarningView>,
}

/// Whether `e` is an entry for `key` that nobody has consumed yet.
pub open spec fn is_available(e: EntryView, key: Seq<char>) -> bool {
    e.key == key && e.consumed_by is None
}

/// Whether some entry of `es` is available for `key`.
pub open spec fn has_available(es: Seq<EntryView>, key: Seq<char>) -> bool {
    exists|i: int| 0 <= i < es.len() && is_available(#[trigger] es[i], key)
}

/// The position of the first entry of `es` available for `key`.
pub open spec fn first_available(es: Seq<EntryView>, key: Seq<char>) -> int
    recommends
        has_available(es, key),
{
    choose|i: int|
        0 <= i < es.len() && is_available(#[trigger] es[i], key) && forall|j: int|
            0 <= j < i ==> !is_available(#[trigger] es[j], key)
}

/// What `take(key)` hands back in state `v`.
pub open spec fn take_value(v: KvView, key: Seq<char>) -> Option<Seq<char>> {
    if has_available(v.entries, key) {
        Some(v.entries[first_available(v.entries, key)].value)
    } else {
        None
    }
}

/// The state after `take(key, consumer)` in state `v`: the first available
/// entry for `key` is marked as consumed by `consumer`; nothing else changes.
pub open spec fn after_take(v: KvView, key: Seq<char>, consumer: Seq<char>) -> KvView {
    if has_available(v.entries, key) {
        let i = first_available(v.entries, key);
        KvView {
            entries: v.entries.update(
                i,
                EntryView { key: v.entries[i].key, value: v.entries[i].value, consumed_by: Some(consumer) },
            ),
            warnings: v.warnings,
        }
    } else {
        v
    }
}

/// The unconsumed entries of `es` as `(key, value)` pairs, in order.
pub open spec fn unconsumed_pairs(es: Seq<EntryView>) -> Seq<(Seq<char>, Seq<char>)>
    decreases es.len(),
{
    if es.len() == 0 {
        Seq::empty()
    } else {
        let rest = unconsumed_pairs(es.drop_last());
        if es.last().consumed_by is None {
            rest.push((es.last().key, es.last().value))
        } else {
            rest
        }
    }
}

/// Whether no two entries of `es` share a key.
pub open spec fn distinct_keys(es: Seq<EntryView>) -> bool {
    forall|i: int, j: int|
        0 <= i < es.len() && 0 <= j < es.len() && i != j ==> #[trigger] es[i].key != #[trigger] es[j].key
}

/// Whether some entry of `es` has key `key`, consumed or not.
pub open spec fn has_key(es: Seq<EntryView>, key: Seq<char>) -> bool {
    exists|i: int| 0 <= i < es.len() && (#[trigger] es[i]).key == key
}

/// The position of the first entry of `es` with key `key`.
pub open spec fn first_with_key(es: Seq<EntryView>, key: Seq<char>) -> int
    recommends
        has_key(es, key),
{
    choose|i: int|
        0 <= i < es.len() && (#[trigger] es[i]).key == key && forall|j: int|
            0 <= j < i ==> (#[trigger] es[j]).key != key
}

/// `v` with the warning `w` appended.
pub open spec fn with_warning(v: KvView, w: WarningView) -> KvView {
    KvView { entries: v.entries, warnings: v.warnings.push(w) }
}

/// The warning for a value `value` of `key` that does not parse; `what`
/// names the expected type, as in `" as integer for key '"`.
pub open spec fn invalid_value_warning(key: Seq<char>, value: Seq<char>, what: Seq<char>) -> WarningView {
    WarningView {
        key,
        kind: KvWarningKind::InvalidValue,
        message: "cannot parse '"@ + value + "'"@ + what + key + "'"@,
    }
}

/// The boolean that a lower-cased value spells, if any.
pub open spec fn bool_word(s: Seq<char>) -> Option<bool> {
    if s == "true"@ || s == "1"@ || s == "yes"@ {
        Some(true)
    } else if s == "false"@ || s == "0"@ || s == "no"@ {
        Some(false)
    } else {
        None
    }
}

// ───────────────────────── Percent decoding ─────────────────────────

/// The value of an ASCII hex digit, if `b` is one.
pub open spec fn hex_value(b: u8) -> Option<u8> {
    if 0x30 <= b <= 0x39 {
        Some((b - 0x30) as u8)
    } else if 0x61 <= b <= 0x66 {
        Some((b - 0x61 + 10) as u8)
    } else if 0x41 <= b <= 0x46 {
        Some((b - 0x41 + 10) as u8)
    } else {
        None
    }
}

/// The character whose code is the byte `b` (Latin-1 reading of a byte).
pub open spec fn byte_char(b: u8) -> char {
    b as char
}

/// Minimal percent-decoding of querystring bytes. `+` becomes a space;
/// `%` followed by two hex digits becomes the character with that code; a `%`
/// whose next two bytes are not both hex digits becomes `%` and those (up to
/// two) bytes are dropped; every other byte becomes the character of the
/// same code.
pub open spec fn percent_decoded(s: Seq<u8>) -> Seq<char>
    decreases s.len(),
{
    if s.len() == 0 {
        Seq::empty()
    } else if s[0] == 0x2b {
        seq![' '] + percent_decoded(s.skip(1))
    } else if s[0] == 0x25 {
        if s.len() >= 3 && hex_value(s[1]) is Some && hex_value(s[2]) is Some {
            seq![byte_char((hex_value(s[1])->0 * 16 + hex_value(s[2])->0) as u8)] + percent_decoded(
                s.skip(3),
            )
        } else {
            seq!['%'] + percent_decoded(s.skip(if s.len() >= 3 { 3 } else { s.len() as int }))
        }
    } else {
        seq![byte_char(s[0])] + percent_decoded(s.skip(1))
    }
}

/// The value of the hex digit `b`, if it is one.
pub fn from_hex(b: u8) -> (r: Option<u8>)
    ensures
        r == hex_value(b),
        '0' as u8 <= b <= '9' as u8 ==> r == Some((b - '0' as u8) as u8),
        'a' as u8 <= b <= 'f' as u8 ==> r == Some((b - 'a' as u8 + 10) as u8),
        'A' as u8 <= b <= 'F' as u8 ==> r == Some((b - 'A' as u8 + 10) as u8),
        !('0' as u8 <= b <= '9' as u8 || 'a' as u8 <= b <= 'f' as u8 || 'A' as u8 <= b <= 'F' as u8)
            ==> r is None,
{
    if b >= 0x30 && b <= 0x39 {
        Some(b - 0x30)
    } else if b >= 0x61 && b <= 0x66 {
        Some(b - 0x61 + 10)
    } else if b >= 0x41 && b <= 0x46 {
        Some(b - 0x41 + 10)
    } else {
        None
    }
}

/// Percent-decodes the UTF-8 bytes of `s` (see [`percent_decoded`]).
pub fn percent_decode(s: &str) -> (r: String)
    ensures
        r@ == percent_decoded(encode_utf8(s@)),
{
    let bytes = s.as_bytes();
    let n = bytes.len();
    let mut out: Vec<char> = Vec::new();
    let mut i: usize = 0;
    proof {
        assert(bytes@.skip(0) == bytes@);
    }
    while i < n
        invariant
            n == bytes@.len(),
            i <= n,
            percent_decoded(bytes@) == out@ + percent_decoded(bytes@.skip(i as int)),
        decreases n - i,
    {
        let ghost rest = bytes@.skip(i as int);
        let b = bytes[i];
        if b == 0x2b {
            out.push(' ');
            i = i + 1;
            proof {
                assert(rest.skip(1) == bytes@.skip(i as int));
            }
        } else if b == 0x25 {
            let hi = if n - i > 1 { from_hex(bytes[i + 1]) } else { None };
            let lo = if n - i > 2 { from_hex(bytes[i + 2]) } else { None };
            let step: usize = if n - i >= 3 { 3 } else { n - i };
            match (hi, lo) {
                (Some(h), Some(l)) => {
                    let code: u8 = h * 16 + l;
                    out.push(code as char);
                },
                _ => {
                    out.push('%');
                },
            }
            i = i + step;
            proof {
                assert(rest.skip(step as int) == bytes@.skip(i as int));
            }
        } else {
            out.push(b as char);
            i = i + 1;
            proof {
                assert(rest.skip(1) == bytes@.skip(i as int));
            }
        }
    }
    proof {
        assert(bytes@.skip(n as int) == Seq::<u8>::empty());
        assert(out@ + Seq::<char>::empty() == out@);
    }
    string_from_chars(out.as_slice())
}

// ───────────────────────── Querystring parsing ─────────────────────────

/// Scanner state while reading a querystring left to right: the pairs read so
/// far, and the key and value of the part being read.
pub struct ScanState {
    pub done: KvView,
    pub key: Seq<char>,
    pub value: Seq<char>,
    /// Whether the `=` that ends the key of the current part has been seen.
    pub in_value: bool,
}

/// The message of a duplicate-key warning.
pub open spec fn duplicate_message(key: Seq<char>) -> Seq<char> {
    "duplicate key '"@ + key + "', using last value"@
}

/// Adds one `&`-separated part to `v`. An empty part is skipped. Otherwise the
/// key is lower-cased and the value percent-decoded; if an entry with that key
/// exists it is removed and a duplicate-key warning recorded, so that the last
/// value wins; then the new entry is appended.
pub open spec fn add_part(v: KvView, key: Seq<char>, value: Seq<char>, in_value: bool) -> KvView {
    if !in_value && key.len() == 0 {
        v
    } else {
        let k = lowercase_text(key);
        let val = percent_decoded(encode_utf8(value));
        let v1 = if has_key(v.entries, k) {
            KvView {
                entries: v.entries.remove(first_with_key(v.entries, k)),
                warnings: v.warnings.push(
                    WarningView { key: k, kind: KvWarningKind::DuplicateKey, message: duplicate_message(k) },
                ),
            }
        } else {
            v
        };
        KvView {
            entries: v1.entries.push(EntryView { key: k, value: val, consumed_by: None }),
            warnings: v1.warnings,
        }
    }
}

/// The scanner state after reading the characters `qs`: `&` closes a part,
/// the first `=` of a part separates its key from its value.
pub open spec fn scan(qs: Seq<char>) -> ScanState
    decreases qs.len(),
{
    if qs.len() == 0 {
        ScanState {
            done: KvView { entries: Seq::empty(), warnings: Seq::empty() },
            key: Seq::empty(),
            value: Seq::empty(),
            in_value: false,
        }
    } else {
        let st = scan(qs.drop_last());
        let c = qs.last();
        if c == '&' {
            ScanState {
                done: add_part(st.done, st.key, st.value, st.in_value),
                key: Seq::empty(),
                value: Seq::empty(),
                in_value: false,
            }
        } else if st.in_value {
            ScanState { value: st.value.push(c), ..st }
        } else if c == '=' {
            ScanState { in_value: true, ..st }
        } else {
            ScanState { key: st.key.push(c), ..st }
        }
    }
}

/// The pairs and warnings that parsing the querystring `qs` yields.
pub open spec fn parse_querystring(qs: Seq<char>) -> KvView {
    let st = scan(qs);
    add_part(st.done, st.key, st.value, st.in_value)
}

// ───────────────────────── Integer parsing ─────────────────────────

/// Whether `c` is an ASCII decimal digit.
pub open spec fn is_digit(c: char) -> bool {
    '0' <= c <= '9'
}

/// Whether every character of `s` is an ASCII decimal digit.
pub open spec fn all_digits(s: Seq<char>) -> bool {
    forall|i: int| 0 <= i < s.len() ==> is_digit(#[trigger] s[i])
}

/// The number that the decimal digits `s` spell.
pub open spec fn decimal_value(s: Seq<char>) -> nat
    decreases s.len(),
{
    if s.len() == 0 {
        0
    } else {
        decimal_value(s.drop_last()) * 10 + ((s.last() as u32) - 0x30) as nat
    }
}

/// `s` without one leading `+`, as `u32::from_str` reads it.
pub open spec fn strip_plus(s: Seq<char>) -> Seq<char> {
    if s.len() >= 1 && s[0] == '+' {
        s.skip(1)
    } else {
        s
    }
}

/// What `s.parse::<u32>()` succeeds with: an optional `+`, then one or more
/// ASCII digits whose value fits in a `u32`.
pub open spec fn parsed_u32(s: Seq<char>) -> Option<u32> {
    let d = strip_plus(s);
    if d.len() == 0 || !all_digits(d) || decimal_value(d) > u32::MAX {
        None
    } else {
        Some(decimal_value(d) as u32)
    }
}

/// What `s.parse::<i32>()` succeeds with: an optional `+` or `-`, then one or
/// more ASCII digits whose signed value fits in an `i32`.
pub open spec fn parsed_i32(s: Seq<char>) -> Option<i32> {
    if s.len() >= 1 && s[0] == '-' {
        let d = s.skip(1);
        if d.len() == 0 || !all_digits(d) || decimal_value(d) > 0x8000_0000 {
            None
        } else {
            Some((0 - decimal_value(d)) as i32)
        }
    } else {
        let d = strip_plus(s);
        if d.len() == 0 || !all_digits(d) || decimal_value(d) > i32::MAX {
            None
        } else {
            Some(decimal_value(d) as i32)
        }
    }
}

/// Appending digits never makes a decimal value smaller.
proof fn lemma_decimal_value_monotone(s: Seq<char>, i: int, j: int)
    requires
        all_digits(s),
        0 <= i <= j <= s.len(),
    ensures
        decimal_value(s.take(i)) <= decimal_value(s.take(j)),
    decreases j - i,
{
    if i < j {
        lemma_decimal_value_monotone(s, i, j - 1);
        assert(s.take(j).drop_last() == s.take(j - 1));
        assert(is_digit(s[j - 1]));
    }
}

/// Reads the digits of `s` from position `start` on. `Some` exactly when they
/// are one or more ASCII digits whose value is at most `limit`.
fn scan_decimal(s: &Vec<char>, start: usize, limit: u64) -> (r: Option<u64>)
    requires
        start <= s@.len(),
        limit >= 9,
    ensures
        ({
            let d = s@.skip(start as int);
            r == if d.len() == 0 || !all_digits(d) || decimal_value(d) > limit {
                None
            } else {
                Some(decimal_value(d) as u64)
            }
        }),
{
    let ghost d = s@.skip(start as int);
    if start == s.len() {
        return None;
    }
    let mut acc: u64 = 0;
    let mut i: usize = start;
    proof {
        assert(d.take(0) == Seq::<char>::empty());
    }
    while i < s.len()
        invariant
            start <= i <= s@.len(),
            limit >= 9,
            d == s@.skip(start as int),
            all_digits(d.take(i - start)),
            acc == decimal_value(d.take(i - start)),
            acc <= limit,
        decreases s@.len() - i,
    {
        let c = s[i];
        if !('0' <= c && c <= '9') {
            proof {
                assert(d[i - start] == c);
            }
            return None;
        }
        let digit: u64 = (c as u32 - 0x30) as u64;
        proof {
            assert(d.take(i - start + 1).drop_last() == d.take(i - start));
            assert(d.take(i - start + 1).last() == c);
        }
        if acc > (limit - digit) / 10 {
            proof {
                assert(decimal_value(d.take(i - start + 1)) > limit) by (nonlinear_arith)
                    requires
                        acc > (limit - digit) / 10,
                        decimal_value(d.take(i - start + 1)) == acc * 10 + digit,
                        digit <= 9,
                ;
                if all_digits(d) {
                    lemma_decimal_value_monotone(d, i - start + 1, d.len() as int);
                    assert(d.take(d.len() as int) == d);
                }
            }
            return None;
        }
        proof {
            assert(acc * 10 + digit <= limit) by (nonlinear_arith)
                requires
                    acc <= (limit - digit) / 10,
                    digit <= limit,
            ;
        }
        acc = acc * 10 + digit;
        i = i + 1;
        proof {
            assert(all_digits(d.take(i - start)));
        }
    }
    proof {
        assert(d.take(i - start) == d);
    }
    Some(acc)
}

/// `s.parse::<u32>()` (std's `FromStr`), as an `Option`.
pub fn parse_u32(s: &str) -> (r: Option<u32>)
    ensures
        r == parsed_u32(s@),
{
    let cs = chars_of(s);
    let start: usize = if cs.len() >= 1 && cs[0] == '+' { 1 } else { 0 };
    proof {
        assert(cs@.skip(0) == cs@);
    }
    match scan_decimal(&cs, start, 0xffff_ffff) {
        Some(v) => Some(v as u32),
        None => None,
    }
}

/// `s.parse::<i32>()` (std's `FromStr`), as an `Option`.
pub fn parse_i32(s: &str) -> (r: Option<i32>)
    ensures
        r == parsed_i32(s@),
{
    let cs = chars_of(s);
    proof {
        assert(cs@.skip(0) == cs@);
    }
    if cs.len() >= 1 && cs[0] == '-' {
        match scan_decimal(&cs, 1, 0x8000_0000) {
            Some(v) => {
                let neg: i64 = 0 - (v as i64);
                Some(neg as i32)
            },
            None => None,
        }
    } else {
        let start: usize = if cs.len() >= 1 && cs[0] == '+' { 1 } else { 0 };
        match scan_decimal(&cs, start, 0x7fff_ffff) {
            Some(v) => Some(v as i32),
            None => None,
        }
    }
}

// ───────────────────────── Views ─────────────────────────

impl View for KvEntry {
    type V = EntryView;

    closed spec fn view(&self) -> EntryView {
        EntryView {
            key: self.key@,
            value: self.value@,
            consumed_by: match self.consumed_by {
                Some(c) => Some(c@),
                None => None,
            },
        }
    }
}

impl View for KvWarning {
    type V = WarningView;

    open spec fn view(&self) -> WarningView {
        WarningView { key: self.key@, kind: self.kind, message: self.message@ }
    }
}

impl View for KvPairs {
    type V = KvView;

    closed spec fn view(&self) -> KvView {
        KvView {
            entries: self.entries@.map_values(|e: KvEntry| e@),
            warnings: self.warnings@.map_values(|w: KvWarning| w@),
        }
    }
}

impl Clone for KvWarning {
    fn clone(&self) -> (r: Self)
        ensures
            r@ == self@,
    {
        KvWarning { key: self.key.clone(), kind: self.kind, message: self.message.clone() }
    }
}

/// The first available entry is the one `first_available` names.
proof fn lemma_first_available(es: Seq<EntryView>, key: Seq<char>, i: int)
    requires
        0 <= i < es.len(),
        is_available(es[i], key),
        forall|j: int| 0 <= j < i ==> !is_available(#[trigger] es[j], key),
    ensures
        has_available(es, key),
        first_available(es, key) == i,
{
}

/// The first entry with a key is the one `first_with_key` names.
proof fn lemma_first_with_key(es: Seq<EntryView>, key: Seq<char>, i: int)
    requires
        0 <= i < es.len(),
        es[i].key == key,
        forall|j: int| 0 <= j < i ==> (#[trigger] es[j]).key != key,
    ensures
        has_key(es, key),
        first_with_key(es, key) == i,
{
}

impl KvPairs {
    /// Appends the part with key characters `key` and value characters
    /// `value` (see [`add_part`]).
    fn push_part(&mut self, key: &Vec<char>, value: &Vec<char>, in_value: bool)
        ensures
            final(self)@ == add_part(old(self)@, key@, value@, in_value),
    {
        if !in_value && key.len() == 0 {
            return;
        }
        let key_raw = string_from_chars(key.as_slice());
        let k = to_lowercase(key_raw.as_str());
        let value_raw = string_from_chars(value.as_slice());
        let v = percent_decode(value_raw.as_str());
        let ghost pre = self@;
        let mut j: usize = 0;
        let mut found = false;
        while !found && j < self.entries.len()
            invariant
                self@ == pre,
                pre.entries == self.entries@.map_values(|e: KvEntry| e@),
                j <= self.entries@.len(),
                found ==> j < self.entries@.len() && pre.entries[j as int].key == k@,
                forall|t: int| 0 <= t < j ==> (#[trigger] pre.entries[t]).key != k@,
            decreases self.entries@.len() - j + (if found { 0int } else { 1int }),
        {
            if str_eq(self.entries[j].key.as_str(), k.as_str()) {
                found = true;
            } else {
                j = j + 1;
            }
        }
        proof {
            assert(pre.entries.len() == self.entries@.len());
        }
        if found {
            proof {
                lemma_first_with_key(pre.entries, k@, j as int);
            }
            let message = concat3("duplicate key '", k.as_str(), "', using last value");
            let dup = KvWarning { key: k.clone(), kind: KvWarningKind::DuplicateKey, message };
            let ghost before = self.warnings@;
            self.warnings.push(dup);
            let ghost before_entries = self.entries@;
            self.entries.remove(j);
            proof {
                assert(self.warnings@.map_values(|w: KvWarning| w@) =~= before.map_values(
                    |w: KvWarning| w@,
                ).push(dup@));
                assert(self.entries@.map_values(|e: KvEntry| e@) =~= before_entries.map_values(
                    |e: KvEntry| e@,
                ).remove(j as int));
            }
        } else {
            proof {
                assert(!has_key(pre.entries, k@));
            }
        }
        let ghost mid = self.entries@;
        self.entries.push(KvEntry { key: k, value: v, consumed_by: None });
        proof {
            assert(self.entries@.map_values(|e: KvEntry| e@) =~= mid.map_values(|e: KvEntry| e@).push(
                self.entries@.last()@,
            ));
        }
    }

    /// Create from a list of key-value pairs, kept as given, none consumed
    /// and with no warnings.
    pub fn from_pairs(pairs: Vec<(String, String)>) -> (r: Self)
        ensures
            r@.warnings.len() == 0,
            r@.entries.len() == pairs@.len(),
            forall|i: int|
                0 <= i < pairs@.len() ==> #[trigger] r@.entries[i] == (EntryView {
                    key: pairs@[i].0@,
                    value: pairs@[i].1@,
                    consumed_by: None,
                }),
    {
        let mut entries: Vec<KvEntry> = Vec::new();
        let mut pairs = pairs;
        let ghost all = pairs@;
        // Take the pairs from the back, then restore their order.
        let mut reversed: Vec<KvEntry> = Vec::new();
        while pairs.len() > 0
            invariant
                pairs@ == all.take(pairs@.len() as int),
                pairs@.len() + reversed@.len() == all.len(),
                forall|t: int|
                    0 <= t < reversed@.len() ==> #[trigger] reversed@[t]@ == (EntryView {
                        key: all[all.len() - 1 - t].0@,
                        value: all[all.len() - 1 - t].1@,
                        consumed_by: None,
                    }),
            decreases pairs@.len(),
        {
            let ghost before = pairs@;
            let (key, value) = pairs.pop().unwrap();
            proof {
                assert(pairs@ == all.take(pairs@.len() as int));
            }
            reversed.push(KvEntry { key, value, consumed_by: None });
        }
        while reversed.len() > 0
            invariant
                entries@.len() + reversed@.len() == all.len(),
                forall|t: int|
                    0 <= t < reversed@.len() ==> #[trigger] reversed@[t]@ == (EntryView {
                        key: all[all.len() - 1 - t].0@,
                        value: all[all.len() - 1 - t].1@,
                        consumed_by: None,
                    }),
                forall|t: int|
                    0 <= t < entries@.len() ==> #[trigger] entries@[t]@ == (EntryView {
                        key: all[t].0@,
                        value: all[t].1@,
                        consumed_by: None,
                    }),
            decreases reversed@.len(),
        {
            let e = reversed.pop().unwrap();
            entries.push(e);
        }
        KvPairs { entries, warnings: Vec::new() }
    }

    /// Index of the first entry available for `key`, if any.
    fn find_available(&self, key: &str) -> (r: Option<usize>)
        ensures
            match r {
                Some(i) => has_available(self@.entries, key@) && i == first_available(
                    self@.entries,
                    key@,
                ) && i < self.entries@.len(),
                None => !has_available(self@.entries, key@),
            },
    {
        let mut j: usize = 0;
        while j < self.entries.len()
            invariant
                j <= self.entries@.len(),
                self@.entries == self.entries@.map_values(|e: KvEntry| e@),
                forall|t: int| 0 <= t < j ==> !is_available(#[trigger] self@.entries[t], key@),
            decreases self.entries@.len() - j,
        {
            let e = &self.entries[j];
            if e.consumed_by.is_none() && str_eq(e.key.as_str(), key) {
                proof {
                    lemma_first_available(self@.entries, key@, j as int);
                }
                return Some(j);
            }
            j = j + 1;
        }
        None
    }

    /// Marks entry `i` as consumed by `consumer`.
    fn consume(&mut self, i: usize, consumer: &'static str)
        requires
            i < old(self).entries@.len(),
        ensures
            final(self).entries@.len() == old(self).entries@.len(),
            final(self).entries@[i as int].value == old(self).entries@[i as int].value,
            final(self)@ == (KvView {
                entries: old(self)@.entries.update(
                    i as int,
                    EntryView {
                        key: old(self)@.entries[i as int].key,
                        value: old(self)@.entries[i as int].value,
                        consumed_by: Some(consumer@),
                    },
                ),
                warnings: old(self)@.warnings,
            }),
    {
        let ghost pre = self.entries@;
        self.entries[i].consumed_by = Some(consumer);
        proof {
            assert(self.entries@.map_values(|e: KvEntry| e@) =~= pre.map_values(|e: KvEntry| e@).update(
                i as int,
                self.entries@[i as int]@,
            ));
        }
    }

    /// Get the string value for a key, marking it as consumed.
    ///
    /// Returns `None` if the key is absent or already consumed.
    pub fn take(&mut self, key: &str, consumer: &'static str) -> (r: Option<&str>)
        ensures
            match r {
                Some(v) => take_value(old(self)@, key@) == Some(v@),
                None => take_value(old(self)@, key@) is None,
            },
            final(self)@ == after_take(old(self)@, key@, consumer@),
    {
        match self.find_available(key) {
            Some(i) => {
                self.consume(i, consumer);
                Some(self.entries[i].value.as_str())
            },
            None => None,
        }
    }

    /// Take the value as an owned `String`, marking consumed.
    pub fn take_owned(&mut self, key: &str, consumer: &'static str) -> (r: Option<String>)
        ensures
            match r {
                Some(v) => take_value(old(self)@, key@) == Some(v@),
                None => take_value(old(self)@, key@) is None,
            },
            final(self)@ == after_take(old(self)@, key@, consumer@),
    {
        match self.find_available(key) {
            Some(i) => {
                self.consume(i, consumer);
                Some(self.entries[i].value.clone())
            },
            None => None,
        }
    }

    /// Get and parse as `i32`, marking consumed if present. A value that does
    /// not parse yields `None` and an invalid-value warning.
    pub fn take_i32(&mut self, key: &str, consumer: &'static str) -> (r: Option<i32>)
        ensures
            match take_value(old(self)@, key@) {
                None => r is None && final(self)@ == old(self)@,
                Some(val) => {
                    &&& r == parsed_i32(val)
                    &&& final(self)@ == if r is Some {
                        after_take(old(self)@, key@, consumer@)
                    } else {
                        with_warning(
                            after_take(old(self)@, key@, consumer@),
                            invalid_value_warning(key@, val, " as integer for key '"@),
                        )
                    }
                },
            },
    {
        proof {
            bool_words_read_as_booleans(old(self)@, key@);
        }
        let val_str = match self.take_owned(key, consumer) {
            Some(v) => v,
            None => return None,
        };
        match parse_i32(val_str.as_str()) {
            Some(v) => Some(v),
            None => {
                self.warn_invalid(key, val_str.as_str(), " as integer for key '");
                None
            },
        }
    }

    /// Get and parse as `u32`, marking consumed if present. A value that does
    /// not parse yields `None` and an invalid-value warning.
    pub fn take_u32(&mut self, key: &str, consumer: &'static str) -> (r: Option<u32>)
        ensures
            match take_value(old(self)@, key@) {
                None => r is None && final(self)@ == old(self)@,
                Some(val) => {
                    &&& r == parsed_u32(val)
                    &&& final(self)@ == if r is Some {
                        after_take(old(self)@, key@, consumer@)
                    } else {
                        with_warning(
                            after_take(old(self)@, key@, consumer@),
                            invalid_value_warning(key@, val, " as unsigned integer for key '"@),
                        )
                    }
                },
            },
    {
        proof {
            bool_words_read_as_booleans(old(self)@, key@);
        }
        let val_str = match self.take_owned(key, consumer) {
            Some(v) => v,
            None => return None,
        };
        match parse_u32(val_str.as_str()) {
            Some(v) => Some(v),
            None => {
                self.warn_invalid(key, val_str.as_str(), " as unsigned integer for key '");
                None
            },
        }
    }

    /// Get and parse as `bool`, marking consumed if present.
    ///
    /// Accepts `"true"`, `"1"`, `"yes"` as true; `"false"`, `"0"`, `"no"` as
    /// false, after lower-casing. Anything else yields `None` and an
    /// invalid-value warning.
    pub fn take_bool(&mut self, key: &str, consumer: &'static str) -> (r: Option<bool>)
        ensures
            take_value(old(self)@, key@) matches Some(val) ==> {
                let w = lowercase_text(val);
                &&& (w == "true"@ || w == "1"@ || w == "yes"@) ==> r == Some(true)
                &&& (w == "false"@ || w == "0"@ || w == "no"@) ==> r == Some(false)
                &&& r is Some ==> final(self)@ == after_take(old(self)@, key@, consumer@)
            },
            match take_value(old(self)@, key@) {
                None => r is None && final(self)@ == old(self)@,
                Some(val) => {
                    &&& r == bool_word(lowercase_text(val))
                    &&& final(self)@ == if r is Some {
                        after_take(old(self)@, key@, consumer@)
                    } else {
                        with_warning(
                            after_take(old(self)@, key@, consumer@),
                            invalid_value_warning(key@, val, " as boolean for key '"@),
                        )
                    }
                },
            },
    {
        proof {
            bool_words_read_as_booleans(old(self)@, key@);
        }
        let val_str = match self.take_owned(key, consumer) {
            Some(v) => v,
            None => return None,
        };
        let lower = to_lowercase(val_str.as_str());
        let w = lower.as_str();
        if str_eq(w, "true") || str_eq(w, "1") || str_eq(w, "yes") {
            Some(true)
        } else if str_eq(w, "false") || str_eq(w, "0") || str_eq(w, "no") {
            Some(false)
        } else {
            self.warn_invalid(key, val_str.as_str(), " as boolean for key '");
            None
        }
    }

    /// Get and parse with `parse`, marking consumed if present. A value that
    /// `parse` rejects yields `None` and an invalid-value warning whose text
    /// names the expected type by `what` (as in `" as number for key '"`).
    pub fn take_parsed<T, F: Fn(&str) -> Option<T>>(
        &mut self,
        key: &str,
        consumer: &'static str,
        parse: &F,
        what: &str,
    ) -> (r: Option<T>)
        requires
            forall|s: &str| #[trigger] parse.requires((s,)),
        ensures
            match take_value(old(self)@, key@) {
                None => r is None && final(self)@ == old(self)@,
                Some(val) => exists|s: &str|
                    {
                        &&& s@ == val
                        &&& #[trigger] parse.ensures((s,), r)
                        &&& final(self)@ == if r is Some {
                            after_take(old(self)@, key@, consumer@)
                        } else {
                            with_warning(
                                after_take(old(self)@, key@, consumer@),
                                invalid_value_warning(key@, val, what@),
                            )
                        }
                    },
            },
    {
        proof {
            bool_words_read_as_booleans(old(self)@, key@);
        }
        let val_str = match self.take_owned(key, consumer) {
            Some(v) => v,
            None => return None,
        };
        let s = val_str.as_str();
        let parsed = parse(s);
        match parsed {
            Some(v) => Some(v),
            None => {
                self.warn_invalid(key, s, what);
                None
            },
        }
    }

    /// Records the warning that `value`, read for `key`, could not be parsed.
    fn warn_invalid(&mut self, key: &str, value: &str, what: &str)
        ensures
            final(self)@ == with_warning(old(self)@, invalid_value_warning(key@, value@, what@)),
    {
        let message = concat5("cannot parse '", value, "'", what, key);
        let message = concat2_owned(message, "'");
        self.warn(key, KvWarningKind::InvalidValue, message.as_str());
    }

    /// Peek at a value without consuming it.
    pub fn peek(&self, key: &str) -> (r: Option<&str>)
        ensures
            match r {
                Some(v) => take_value(self@, key@) == Some(v@),
                None => take_value(self@, key@) is None,
            },
    {
        match self.find_available(key) {
            Some(i) => Some(self.entries[i].value.as_str()),
            None => None,
        }
    }

    /// All unconsumed key-value pairs, in order.
    pub fn unconsumed(&self) -> (r: Vec<(&str, &str)>)
        ensures
            r@.map_values(|p: (&str, &str)| (p.0@, p.1@)) == unconsumed_pairs(self@.entries),
    {
        let mut out: Vec<(&str, &str)> = Vec::new();
        let mut j: usize = 0;
        proof {
            assert(self@.entries.take(0) =~= Seq::<EntryView>::empty());
            assert(out@.map_values(|p: (&str, &str)| (p.0@, p.1@)) =~= Seq::<
                (Seq<char>, Seq<char>),
            >::empty());
        }
        while j < self.entries.len()
            invariant
                j <= self.entries@.len(),
                self@.entries == self.entries@.map_values(|e: KvEntry| e@),
                out@.map_values(|p: (&str, &str)| (p.0@, p.1@)) == unconsumed_pairs(
                    self@.entries.take(j as int),
                ),
            decreases self.entries@.len() - j,
        {
            let ghost prev = out@;
            let e = &self.entries[j];
            proof {
                assert(self@.entries.take(j + 1).drop_last() == self@.entries.take(j as int));
                assert(self@.entries.take(j + 1).last() == e@);
            }
            if e.consumed_by.is_none() {
                out.push((e.key.as_str(), e.value.as_str()));
                proof {
                    assert(out@.map_values(|p: (&str, &str)| (p.0@, p.1@)) =~= prev.map_values(
                        |p: (&str, &str)| (p.0@, p.1@),
                    ).push((e.key@, e.value@)));
                }
            }
            j = j + 1;
        }
        proof {
            assert(self@.entries.take(self@.entries.len() as int) == self@.entries);
        }
        out
    }

    /// All warnings accumulated during parsing.
    pub fn warnings(&self) -> (r: &[KvWarning])
        ensures
            r@.map_values(|w: KvWarning| w@) == self@.warnings,
    {
        self.warnings.as_slice()
    }

    /// Add a warning manually.
    pub fn warn(&mut self, key: &str, kind: KvWarningKind, message: &str)
        ensures
            final(self)@ == with_warning(
                old(self)@,
                WarningView { key: key@, kind, message: message@ },
            ),
    {
        let w = KvWarning { key: key.to_owned(), kind, message: message.to_owned() };
        let ghost before = self.warnings@;
        self.warnings.push(w);
        proof {
            assert(self.warnings@.map_values(|w: KvWarning| w@) =~= before.map_values(
                |w: KvWarning| w@,
            ).push(w@));
        }
    }

    /// Parse from a URL querystring (e.g., `"w=800&quality=85&exposure=1.5"`).
    pub fn from_querystring(qs: &str) -> (r: Self)
        ensures
            r@ == parse_querystring(qs@),
    {
        let cs = chars_of(qs);
        let mut kv = KvPairs { entries: Vec::new(), warnings: Vec::new() };
        let mut key: Vec<char> = Vec::new();
        let mut value: Vec<char> = Vec::new();
        let mut in_value = false;
        let mut i: usize = 0;
        proof {
            assert(kv@.entries =~= Seq::<EntryView>::empty());
            assert(kv@.warnings =~= Seq::<WarningView>::empty());
            assert(cs@.take(0) == Seq::<char>::empty());
        }
        while i < cs.len()
            invariant
                i <= cs@.len(),
                scan(cs@.take(i as int)) == (ScanState {
                    done: kv@,
                    key: key@,
                    value: value@,
                    in_value,
                }),
            decreases cs@.len() - i,
        {
            let c = cs[i];
            proof {
                assert(cs@.take(i + 1).drop_last() == cs@.take(i as int));
                assert(cs@.take(i + 1).last() == c);
            }
            if c == '&' {
                kv.push_part(&key, &value, in_value);
                key = Vec::new();
                value = Vec::new();
                in_value = false;
                proof {
                    assert(key@ =~= Seq::<char>::empty());
                    assert(value@ =~= Seq::<char>::empty());
                }
            } else if in_value {
                value.push(c);
            } else if c == '=' {
                in_value = true;
            } else {
                key.push(c);
            }
            i = i + 1;
        }
        proof {
            assert(cs@.take(cs@.len() as int) == cs@);
        }
        kv.push_part(&key, &value, in_value);
        kv
    }
}

// ───────────────────────── Laws ─────────────────────────

/// When `key` occurs in `es`, `first_with_key` names its first occurrence.
proof fn lemma_first_with_key_exists(es: Seq<EntryView>, key: Seq<char>, i: int)
    requires
        0 <= i < es.len(),
        es[i].key == key,
    ensures
        0 <= first_with_key(es, key) <= i,
        es[first_with_key(es, key)].key == key,
        forall|j: int| 0 <= j < first_with_key(es, key) ==> (#[trigger] es[j]).key != key,
    decreases i,
{
    if exists|j: int| 0 <= j < i && (#[trigger] es[j]).key == key {
        let j = choose|j: int| 0 <= j < i && (#[trigger] es[j]).key == key;
        lemma_first_with_key_exists(es, key, j);
    } else {
        lemma_first_with_key(es, key, i);
    }
}

/// When `key` is available in `es`, `first_available` names its first
/// available entry.
proof fn lemma_first_available_exists(es: Seq<EntryView>, key: Seq<char>, i: int)
    requires
        0 <= i < es.len(),
        is_available(es[i], key),
    ensures
        0 <= first_available(es, key) <= i,
        is_available(es[first_available(es, key)], key),
        forall|j: int| 0 <= j < first_available(es, key) ==> !is_available(#[trigger] es[j], key),
    decreases i,
{
    if exists|j: int| 0 <= j < i && is_available(#[trigger] es[j], key) {
        let j = choose|j: int| 0 <= j < i && is_available(#[trigger] es[j], key);
        lemma_first_available_exists(es, key, j);
    } else {
        lemma_first_available(es, key, i);
    }
}

/// Whether no entry of `es` has been consumed.
pub open spec fn none_consumed(es: Seq<EntryView>) -> bool {
    forall|i: int| 0 <= i < es.len() ==> (#[trigger] es[i]).consumed_by is None
}

/// Adding a part to pairs with distinct keys keeps the keys distinct, and the
/// last value for a key wins: the part's (lower-cased) key then has exactly
/// one entry, the last one, holding the part's decoded value; a
/// duplicate-key warning is recorded exactly when the key was already there.
pub proof fn last_value_wins(v: KvView, key: Seq<char>, value: Seq<char>, in_value: bool)
    requires
        distinct_keys(v.entries),
        in_value || key.len() > 0,
    ensures
        ({
            let k = lowercase_text(key);
            let w = add_part(v, key, value, in_value);
            &&& distinct_keys(w.entries)
            &&& w.entries.len() > 0
            &&& w.entries.last() == (EntryView {
                key: k,
                value: percent_decoded(encode_utf8(value)),
                consumed_by: None,
            })
            &&& forall|i: int| 0 <= i < w.entries.len() - 1 ==> (#[trigger] w.entries[i]).key != k
            &&& w.warnings == if has_key(v.entries, k) {
                v.warnings.push(
                    WarningView { key: k, kind: KvWarningKind::DuplicateKey, message: duplicate_message(k) },
                )
            } else {
                v.warnings
            }
        }),
{
    let k = lowercase_text(key);
    let w = add_part(v, key, value, in_value);
    if has_key(v.entries, k) {
        let j0 = choose|j: int| 0 <= j < v.entries.len() && (#[trigger] v.entries[j]).key == k;
        lemma_first_with_key_exists(v.entries, k, j0);
        let j = first_with_key(v.entries, k);
        let rest = v.entries.remove(j);
        assert forall|a: int| 0 <= a < rest.len() implies (#[trigger] rest[a]).key != k by {
            if a < j {
                assert(rest[a] == v.entries[a]);
            } else {
                assert(rest[a] == v.entries[a + 1]);
                assert(a + 1 != j);
            }
        }
        assert forall|a: int, b: int|
            0 <= a < w.entries.len() && 0 <= b < w.entries.len() && a != b implies #[trigger] w.entries[a].key
            != #[trigger] w.entries[b].key by {
            if a < rest.len() && b < rest.len() {
                let a0 = if a < j { a } else { a + 1 };
                let b0 = if b < j { b } else { b + 1 };
                assert(rest[a] == v.entries[a0]);
                assert(rest[b] == v.entries[b0]);
            }
        }
    } else {
        assert forall|a: int, b: int|
            0 <= a < w.entries.len() && 0 <= b < w.entries.len() && a != b implies #[trigger] w.entries[a].key
            != #[trigger] w.entries[b].key by {
            if a == v.entries.len() {
                assert(v.entries[b].key != k);
            }
            if b == v.entries.len() {
                assert(v.entries[a].key != k);
            }
        }
    }
}

/// The pairs that a querystring parses into have pairwise distinct keys
/// (duplicates collapse to the last value) and none is consumed yet.
pub proof fn parsed_keys_are_distinct(qs: Seq<char>)
    ensures
        distinct_keys(parse_querystring(qs).entries),
        none_consumed(parse_querystring(qs).entries),
{
    lemma_scan_distinct(qs);
    let st = scan(qs);
    lemma_add_part_keeps(st.done, st.key, st.value, st.in_value);
}

/// `add_part` keeps the keys distinct and adds no consumed entry.
proof fn lemma_add_part_keeps(v: KvView, key: Seq<char>, value: Seq<char>, in_value: bool)
    requires
        distinct_keys(v.entries),
        none_consumed(v.entries),
    ensures
        distinct_keys(add_part(v, key, value, in_value).entries),
        none_consumed(add_part(v, key, value, in_value).entries),
{
    if in_value || key.len() > 0 {
        last_value_wins(v, key, value, in_value);
        let k = lowercase_text(key);
        let w = add_part(v, key, value, in_value);
        if has_key(v.entries, k) {
            let j = first_with_key(v.entries, k);
            let j0 = choose|j: int| 0 <= j < v.entries.len() && (#[trigger] v.entries[j]).key == k;
            lemma_first_with_key_exists(v.entries, k, j0);
            let rest = v.entries.remove(j);
            assert forall|a: int| 0 <= a < w.entries.len() implies (#[trigger] w.entries[a]).consumed_by is None by {
                if a < rest.len() {
                    if a < j {
                        assert(rest[a] == v.entries[a]);
                    } else {
                        assert(rest[a] == v.entries[a + 1]);
                    }
                }
            }
        }
    }
}

/// Every scanner state holds distinct, unconsumed pairs.
proof fn lemma_scan_distinct(qs: Seq<char>)
    ensures
        distinct_keys(scan(qs).done.entries),
        none_consumed(scan(qs).done.entries),
    decreases qs.len(),
{
    if qs.len() > 0 {
        lemma_scan_distinct(qs.drop_last());
        let st = scan(qs.drop_last());
        lemma_add_part_keeps(st.done, st.key, st.value, st.in_value);
    }
}

/// Taking a key from pairs with distinct keys consumes it: a second take of
/// the same key finds nothing, and the keys stay distinct.
pub proof fn take_consumes(v: KvView, key: Seq<char>, consumer: Seq<char>)
    requires
        distinct_keys(v.entries),
    ensures
        take_value(after_take(v, key, consumer), key) is None,
        distinct_keys(after_take(v, key, consumer).entries),
{
    let w = after_take(v, key, consumer);
    if has_available(v.entries, key) {
        let i0 = choose|i: int| 0 <= i < v.entries.len() && is_available(#[trigger] v.entries[i], key);
        lemma_first_available_exists(v.entries, key, i0);
        let i = first_available(v.entries, key);
        assert forall|j: int| 0 <= j < w.entries.len() implies !is_available(#[trigger] w.entries[j], key) by {
            if j != i {
                assert(w.entries[j] == v.entries[j]);
                assert(v.entries[j].key != v.entries[i].key);
            }
        }
        assert forall|a: int, b: int|
            0 <= a < w.entries.len() && 0 <= b < w.entries.len() && a != b implies #[trigger] w.entries[a].key
            != #[trigger] w.entries[b].key by {
            assert(w.entries[a].key == v.entries[a].key);
            assert(w.entries[b].key == v.entries[b].key);
        }
    }
}

/// Taking one key leaves what a take of any other key finds unchanged.
pub proof fn take_leaves_other_keys(v: KvView, key: Seq<char>, other: Seq<char>, consumer: Seq<char>)
    requires
        key != other,
    ensures
        take_value(after_take(v, key, consumer), other) == take_value(v, other),
{
    let w = after_take(v, key, consumer);
    if has_available(v.entries, key) {
        let i0 = choose|i: int| 0 <= i < v.entries.len() && is_available(#[trigger] v.entries[i], key);
        lemma_first_available_exists(v.entries, key, i0);
        let i = first_available(v.entries, key);
        assert forall|j: int| 0 <= j < w.entries.len() implies is_available(#[trigger] w.entries[j], other)
            == is_available(v.entries[j], other) by {
            if j == i {
                assert(w.entries[j].key == key);
            }
        }
        if has_available(v.entries, other) {
            let o0 = choose|o: int| 0 <= o < v.entries.len() && is_available(#[trigger] v.entries[o], other);
            lemma_first_available_exists(v.entries, other, o0);
            let o = first_available(v.entries, other);
            assert(is_available(w.entries[o], other));
            assert(forall|j: int| 0 <= j < o ==> !is_available(#[trigger] w.entries[j], other));
            lemma_first_available(w.entries, other, o);
            assert(o != i);
        } else {
            assert(!has_available(w.entries, other)) by {
                if has_available(w.entries, other) {
                    let o = choose|o: int| 0 <= o < w.entries.len() && is_available(#[trigger] w.entries[o], other);
                    assert(is_available(v.entries[o], other));
                }
            }
        }
    }
}

/// A take marks at most one entry, one under the taken key: every entry
/// keeps its key and its place, entries under other keys are unchanged, and
/// no warning is added.
pub proof fn take_touches_only_its_key(v: KvView, key: Seq<char>, consumer: Seq<char>)
    ensures
        after_take(v, key, consumer).entries.len() == v.entries.len(),
        after_take(v, key, consumer).warnings == v.warnings,
        forall|i: int|
            0 <= i < v.entries.len() ==> (#[trigger] after_take(v, key, consumer).entries[i]).key
                == v.entries[i].key && (v.entries[i].key != key ==> after_take(
                v,
                key,
                consumer,
            ).entries[i] == v.entries[i]),
{
    if has_available(v.entries, key) {
        let i0 = choose|i: int| 0 <= i < v.entries.len() && is_available(#[trigger] v.entries[i], key);
        lemma_first_available_exists(v.entries, key, i0);
    }
}

/// Text without `%` or `+` decodes byte for byte.
pub proof fn plain_text_decodes_to_itself(s: Seq<u8>)
    requires
        forall|i: int| 0 <= i < s.len() ==> #[trigger] s[i] != 0x25 && s[i] != 0x2b,
    ensures
        percent_decoded(s) == s.map_values(|b: u8| byte_char(b)),
    decreases s.len(),
{
    if s.len() > 0 {
        let t = s.skip(1);
        assert forall|i: int| 0 <= i < t.len() implies #[trigger] t[i] != 0x25 && t[i] != 0x2b by {
            assert(t[i] == s[i + 1]);
        }
        plain_text_decodes_to_itself(t);
        assert(percent_decoded(s) =~= s.map_values(|b: u8| byte_char(b)));
    }
}

/// Taking an available key removes exactly its pair from the unconsumed
/// ones; taking a missing key removes nothing.
pub proof fn take_shrinks_unconsumed(v: KvView, key: Seq<char>, consumer: Seq<char>)
    ensures
        unconsumed_pairs(after_take(v, key, consumer).entries).len() == if has_available(v.entries, key) {
            unconsumed_pairs(v.entries).len() - 1
        } else {
            unconsumed_pairs(v.entries).len() as int
        },
{
    if has_available(v.entries, key) {
        let i0 = choose|i: int| 0 <= i < v.entries.len() && is_available(#[trigger] v.entries[i], key);
        lemma_first_available_exists(v.entries, key, i0);
        let i = first_available(v.entries, key);
        lemma_unconsumed_update(v.entries, i, consumer);
    }
}

/// Marking an unconsumed entry consumed drops one unconsumed pair.
proof fn lemma_unconsumed_update(es: Seq<EntryView>, i: int, consumer: Seq<char>)
    requires
        0 <= i < es.len(),
        es[i].consumed_by is None,
    ensures
        unconsumed_pairs(
            es.update(i, EntryView { key: es[i].key, value: es[i].value, consumed_by: Some(consumer) }),
        ).len() == unconsumed_pairs(es).len() - 1,
    decreases es.len(),
{
    let e2 = EntryView { key: es[i].key, value: es[i].value, consumed_by: Some(consumer) };
    let u = es.update(i, e2);
    if i == es.len() - 1 {
        assert(u.drop_last() =~= es.drop_last());
    } else {
        lemma_unconsumed_update(es.drop_last(), i, consumer);
        assert(u.drop_last() =~= es.drop_last().update(i, e2));
    }
}

/// How `take_bool` reads a value: lower-cased, the words `"true"`, `"1"` and
/// `"yes"` read as true, `"false"`, `"0"` and `"no"` as false, and any other
/// text as no boolean.
pub proof fn bool_words_read_as_booleans(v: KvView, key: Seq<char>)
    ensures
        take_value(v, key) matches Some(val) ==> {
            let w = lowercase_text(val);
            &&& (w == "true"@ || w == "1"@ || w == "yes"@) ==> bool_word(w) == Some(true)
            &&& (w == "false"@ || w == "0"@ || w == "no"@) ==> bool_word(w) == Some(false)
            &&& !(w == "true"@ || w == "1"@ || w == "yes"@ || w == "false"@ || w == "0"@ || w == "no"@)
                ==> bool_word(w) is None
        },
{
    reveal_strlit("true");
    reveal_strlit("1");
    reveal_strlit("yes");
    reveal_strlit("false");
    reveal_strlit("0");
    reveal_strlit("no");
    assert("false"@ != "true"@ && "false"@ != "1"@ && "false"@ != "yes"@) by {
        assert("false"@.len() == 5);
    }
    assert("0"@.len() == 1);
    assert("0"@[0] == '0');
    assert("1"@[0] == '1');
    assert("0"@ != "true"@);
    assert("0"@ != "yes"@);
    assert("0"@ != "1"@);
    assert("no"@.len() == 2 && "true"@.len() == 4);
    assert("no"@ != "true"@);
    assert("no"@ != "1"@);
    assert("no"@[0] == 'n');
    assert("yes"@[0] == 'y');
    assert("no"@ != "yes"@);
}

/// A `%` followed by two hex digits decodes to the one character whose code
/// is `16 * hi + lo`, the digits `'0'`..`'9'` worth 0..9 and `'a'`..`'f'` and
/// `'A'`..`'F'` alike worth 10..15; decoding goes on after them.
pub proof fn percent_escape_decodes(hi: u8, lo: u8, hv: int, lv: int, rest: Seq<u8>)
    requires
        ('0' as u8 <= hi <= '9' as u8 && hv == hi - '0' as u8) || ('a' as u8 <= hi <= 'f' as u8 && hv == hi
            - 'a' as u8 + 10) || ('A' as u8 <= hi <= 'F' as u8 && hv == hi - 'A' as u8 + 10),
        ('0' as u8 <= lo <= '9' as u8 && lv == lo - '0' as u8) || ('a' as u8 <= lo <= 'f' as u8 && lv == lo
            - 'a' as u8 + 10) || ('A' as u8 <= lo <= 'F' as u8 && lv == lo - 'A' as u8 + 10),
    ensures
        0 <= 16 * hv + lv < 256,
        percent_decoded(seq![0x25u8, hi, lo] + rest) == seq![((16 * hv + lv) as u8) as char]
            + percent_decoded(rest),
{
    let s = seq![0x25u8, hi, lo] + rest;
    assert(s[0] == 0x25u8 && s[1] == hi && s[2] == lo);
    assert(s.skip(3) =~= rest);
    assert(hex_value(hi) == Some(hv as u8));
    assert(hex_value(lo) == Some(lv as u8));
}

/// A `+` decodes to a space, and decoding goes on after it.
pub proof fn plus_decodes_to_space(rest: Seq<u8>)
    ensures
        percent_decoded(seq![0x2bu8] + rest) == seq![' '] + percent_decoded(rest),
{
    let s = seq![0x2bu8] + rest;
    assert(s[0] == 0x2bu8);
    assert(s.skip(1) =~= rest);
}

} // verus!
