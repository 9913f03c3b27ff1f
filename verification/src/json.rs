//! The crate's own JSON document model.
//!
//! Parsed JSON runs through the repair logic as a value of [`JsonValue`]:
//! numbers keep their decimal text, strings and keys their UTF-8 bytes, so
//! the whole value is plain data that contracts can speak about. The
//! mathematical counterpart is [`JsonSpec`], reached through `@`.
use vstd::prelude::*;
use vstd::string::StringSliceAdditionalSpecFns;

verus! {

broadcast use vstd::std_specs::vec::group_vec_axioms, vstd::seq::axiom_seq_index_decreases;

/// A JSON document held as plain data.
#[derive(Debug, PartialEq, Eq)]
pub enum JsonValue {
    /// `null`
    Null,
    /// `true` or `false`
    Bool(bool),
    /// A number, kept as its decimal text.
    Num(Vec<u8>),
    /// A string, kept as its UTF-8 bytes (unescaped).
    Str(Vec<u8>),
    /// An array of values.
    Arr(Vec<JsonValue>),
    /// An object: key/value pairs in order, keys as UTF-8 bytes.
    Obj(Vec<(Vec<u8>, JsonValue)>),
}

/// The mathematical shape of a [`JsonValue`].
#[verifier::ext_equal]
pub enum JsonSpec {
    /// `null`
    Null,
    /// `true` or `false`
    Bool(bool),
    /// A number's decimal text.
    Num(Seq<u8>),
    /// A string's bytes.
    Str(Seq<u8>),
    /// An array.
    Arr(Seq<JsonSpec>),
    /// An object: key/value pairs in order.
    Obj(Seq<(Seq<u8>, JsonSpec)>),
}

/// The mathematical value of a [`JsonValue`].
pub open spec fn model(v: JsonValue) -> JsonSpec
    decreases v,
{
    match v {
        JsonValue::Null => JsonSpec::Null,
        JsonValue::Bool(b) => JsonSpec::Bool(b),
        JsonValue::Num(t) => JsonSpec::Num(t@),
        JsonValue::Str(s) => JsonSpec::Str(s@),
        JsonValue::Arr(items) => JsonSpec::Arr(
            Seq::new(
                items@.len(),
                |i: int|
                    if 0 <= i < items@.len() {
                        model(items@[i])
                    } else {
                        JsonSpec::Null
                    },
            ),
        ),
        JsonValue::Obj(entries) => JsonSpec::Obj(
            Seq::new(
                entries@.len(),
                |i: int|
                    if 0 <= i < entries@.len() {
                        (entries@[i].0@, model(entries@[i].1))
                    } else {
                        (Seq::empty(), JsonSpec::Null)
                    },
            ),
        ),
    }
}

impl View for JsonValue {
    type V = JsonSpec;

    open spec fn view(&self) -> JsonSpec {
        model(*self)
    }
}

/// The views of a sequence of values.
pub open spec fn elem_views(s: Seq<JsonValue>) -> Seq<JsonSpec> {
    Seq::new(s.len(), |i: int| s[i]@)
}

/// The views of a sequence of object entries.
pub open spec fn entry_views(s: Seq<(Vec<u8>, JsonValue)>) -> Seq<(Seq<u8>, JsonSpec)> {
    Seq::new(s.len(), |i: int| (s[i].0@, s[i].1@))
}

/// The view of an array value is the views of its items.
pub broadcast proof fn lemma_arr_view(items: Vec<JsonValue>)
    ensures
        (#[trigger] JsonValue::Arr(items)@) == JsonSpec::Arr(elem_views(items@)),
{
    assert(JsonValue::Arr(items)@ matches JsonSpec::Arr(s) && s =~= elem_views(items@));
}

/// The view of an object value is the views of its entries.
pub broadcast proof fn lemma_obj_view(entries: Vec<(Vec<u8>, JsonValue)>)
    ensures
        (#[trigger] JsonValue::Obj(entries)@) == JsonSpec::Obj(entry_views(entries@)),
{
    assert(JsonValue::Obj(entries)@ matches JsonSpec::Obj(s) && s =~~= entry_views(entries@));
}

/// The value bound to the last occurrence of `k` among the first `j`
/// entries of `es`, if any.
pub open spec fn lookup_before(es: Seq<(Seq<u8>, JsonSpec)>, k: Seq<u8>, j: int) -> Option<
    JsonSpec,
>
    decreases j,
{
    if j <= 0 || j > es.len() {
        None
    } else if es[j - 1].0 == k {
        Some(es[j - 1].1)
    } else {
        lookup_before(es, k, j - 1)
    }
}

/// The value bound to the last occurrence of `k` among `es`, if any.
/// Later entries override earlier ones, as they do in a map built by
/// inserting the entries in order.
pub open spec fn lookup_last(es: Seq<(Seq<u8>, JsonSpec)>, k: Seq<u8>) -> Option<JsonSpec> {
    lookup_before(es, k, es.len() as int)
}

/// The value under the last occurrence of `key` among an object's entries.
pub fn lookup_key<'a>(entries: &'a Vec<(Vec<u8>, JsonValue)>, key: &[u8]) -> (r: Option<
    &'a JsonValue,
>)
    ensures
        match r {
            Some(v) => lookup_last(entry_views(entries@), key@) == Some(v@),
            None => lookup_last(entry_views(entries@), key@) is None,
        },
{
    let ghost ev = entry_views(entries@);
    let mut j: usize = entries.len();
    while j > 0
        invariant
            0 <= j <= entries@.len(),
            ev == entry_views(entries@),
            lookup_before(ev, key@, entries@.len() as int) == lookup_before(ev, key@, j as int),
        decreases j,
    {
        if crate::text::bytes_eq(entries[j - 1].0.as_slice(), key) {
            return Some(&entries[j - 1].1);
        }
        j = j - 1;
    }
    None
}

/// The view of an optional value.
pub open spec fn view_opt_val(o: Option<JsonValue>) -> Option<JsonSpec> {
    match o {
        Some(v) => Some(v@),
        None => None,
    }
}

/// A fresh copy of a byte vector.
pub fn clone_bytes(v: &Vec<u8>) -> (r: Vec<u8>)
    ensures
        r@ == v@,
{
    crate::text::copy_range(v.as_slice(), 0, v.len())
}

/// A fresh copy of a value, equal to the original in view.
#[verifier::loop_isolation(false)]
pub fn clone_value(v: &JsonValue) -> (r: JsonValue)
    ensures
        r@ == v@,
    decreases *v,
{
    match v {
        JsonValue::Null => JsonValue::Null,
        JsonValue::Bool(b) => JsonValue::Bool(*b),
        JsonValue::Num(t) => JsonValue::Num(clone_bytes(t)),
        JsonValue::Str(s) => JsonValue::Str(clone_bytes(s)),
        JsonValue::Arr(items) => {
            let mut out: Vec<JsonValue> = Vec::new();
            let mut i: usize = 0;
            while i < items.len()
                invariant
                    i <= items@.len(),
                    out@.len() == i,
                    forall|k: int| 0 <= k < i ==> out@[k]@ == items@[k]@,
                decreases items@.len() - i,
            {
                let c = clone_value(&items[i]);
                out.push(c);
                i = i + 1;
            }
            let r = JsonValue::Arr(out);
            proof {
                assert(r@ matches JsonSpec::Arr(a) && v@ matches JsonSpec::Arr(b) && a =~= b);
            }
            r
        },
        JsonValue::Obj(entries) => {
            let mut out: Vec<(Vec<u8>, JsonValue)> = Vec::new();
            let mut i: usize = 0;
            while i < entries.len()
                invariant
                    i <= entries@.len(),
                    out@.len() == i,
                    forall|k: int|
                        0 <= k < i ==> out@[k].0@ == entries@[k].0@ && out@[k].1@
                            == entries@[k].1@,
                decreases entries@.len() - i,
            {
                let key = clone_bytes(&entries[i].0);
                let val = clone_value(&entries[i].1);
                out.push((key, val));
                i = i + 1;
            }
            let r = JsonValue::Obj(out);
            proof {
                assert(r@ matches JsonSpec::Obj(a) && v@ matches JsonSpec::Obj(b) && a =~~= b);
            }
            r
        },
    }
}

/// One byte of string content, escaped as this crate's serializer writes it:
/// quote, backslash and the named control characters by a two-byte escape,
/// other control bytes as `\u00XX` with lower-case hex digits.
pub open spec fn esc_byte(b: u8) -> Seq<u8> {
    if b == 34 {
        seq![92u8, 34u8]
    } else if b == 92 {
        seq![92u8, 92u8]
    } else if b == 8 {
        seq![92u8, 98u8]
    } else if b == 12 {
        seq![92u8, 102u8]
    } else if b == 10 {
        seq![92u8, 110u8]
    } else if b == 13 {
        seq![92u8, 114u8]
    } else if b == 9 {
        seq![92u8, 116u8]
    } else if b < 32 {
        seq![92u8, 117u8, 48u8, 48u8, hex_digit(b / 16), hex_digit(b % 16)]
    } else {
        seq![b]
    }
}

/// Lower-case hexadecimal digit for a value below 16.
pub open spec fn hex_digit(n: u8) -> u8 {
    if n < 10 {
        (48 + n) as u8
    } else {
        (87 + n) as u8
    }
}

/// The escaped form of `s` from position `i` on.
pub open spec fn escape_from(s: Seq<u8>, i: int) -> Seq<u8>
    decreases s.len() - i,
{
    if i < 0 || i >= s.len() {
        Seq::empty()
    } else {
        esc_byte(s[i]) + escape_from(s, i + 1)
    }
}

/// A JSON string literal holding `s`: quotes around the escaped bytes.
pub open spec fn quoted(s: Seq<u8>) -> Seq<u8> {
    seq![34u8] + escape_from(s, 0) + seq![34u8]
}

/// The serialized bytes of a JSON document.
pub open spec fn json_bytes(j: JsonSpec) -> Seq<u8>
    decreases j, 0int, 0int,
{
    match j {
        JsonSpec::Null => "null".spec_bytes(),
        JsonSpec::Bool(b) => if b {
            "true".spec_bytes()
        } else {
            "false".spec_bytes()
        },
        JsonSpec::Num(t) => t,
        JsonSpec::Str(s) => quoted(s),
        JsonSpec::Arr(items) => seq![91u8] + arr_bytes_from(items, 0) + seq![93u8],
        JsonSpec::Obj(entries) => seq![123u8] + obj_bytes_from(entries, 0) + seq![125u8],
    }
}

/// The serialized items of an array from position `i` on, comma-separated.
pub open spec fn arr_bytes_from(items: Seq<JsonSpec>, i: int) -> Seq<u8>
    decreases items, 1int, items.len() - i,
{
    if i < 0 || i >= items.len() {
        Seq::empty()
    } else {
        json_bytes(items[i]) + (if i + 1 < items.len() {
            seq![44u8]
        } else {
            Seq::empty()
        }) + arr_bytes_from(items, i + 1)
    }
}

/// The serialized entries of an object from position `i` on, comma-separated.
pub open spec fn obj_bytes_from(entries: Seq<(Seq<u8>, JsonSpec)>, i: int) -> Seq<u8>
    decreases entries, 1int, entries.len() - i,
{
    if i < 0 || i >= entries.len() {
        Seq::empty()
    } else {
        quoted(entries[i].0) + seq![58u8] + json_bytes(entries[i].1) + (if i + 1 < entries.len() {
            seq![44u8]
        } else {
            Seq::empty()
        }) + obj_bytes_from(entries, i + 1)
    }
}

fn hex_digit_byte(n: u8) -> (r: u8)
    requires
        n < 16,
    ensures
        r == hex_digit(n),
{
    if n < 10 {
        48 + n
    } else {
        87 + n
    }
}

/// Appends the escaped form of `s` to `out`.
fn write_escaped(s: &[u8], out: &mut Vec<u8>)
    ensures
        final(out)@ == old(out)@ + escape_from(s@, 0),
{
    let mut i: usize = 0;
    while i < s.len()
        invariant
            i <= s@.len(),
            out@ + escape_from(s@, i as int) == old(out)@ + escape_from(s@, 0),
        decreases s@.len() - i,
    {
        let b = s[i];
        if b == 34 {
            out.push(92);
            out.push(34);
        } else if b == 92 {
            out.push(92);
            out.push(92);
        } else if b == 8 {
            out.push(92);
            out.push(98);
        } else if b == 12 {
            out.push(92);
            out.push(102);
        } else if b == 10 {
            out.push(92);
            out.push(110);
        } else if b == 13 {
            out.push(92);
            out.push(114);
        } else if b == 9 {
            out.push(92);
            out.push(116);
        } else if b < 32 {
            out.push(92);
            out.push(117);
            out.push(48);
            out.push(48);
            out.push(hex_digit_byte(b / 16));
            out.push(hex_digit_byte(b % 16));
        } else {
            out.push(b);
        }
        i = i + 1;
        proof {
            assert(out@ + escape_from(s@, i as int) =~= old(out)@ + escape_from(s@, 0));
        }
    }
    proof {
        assert(out@ =~= old(out)@ + escape_from(s@, 0));
    }
}

/// Appends a JSON string literal holding `s` to `out`.
pub fn write_quoted(s: &[u8], out: &mut Vec<u8>)
    ensures
        final(out)@ == old(out)@ + quoted(s@),
{
    out.push(34);
    write_escaped(s, out);
    out.push(34);
    proof {
        assert(out@ =~= old(out)@ + quoted(s@));
    }
}

/// Appends the serialized bytes of `v` to `out`.
#[verifier::loop_isolation(false)]
pub fn write_json_value(v: &JsonValue, out: &mut Vec<u8>)
    ensures
        final(out)@ == old(out)@ + json_bytes(v@),
    decreases *v,
{
    match v {
        JsonValue::Null => {
            out.extend_from_slice("null".as_bytes());
        },
        JsonValue::Bool(b) => {
            if *b {
                out.extend_from_slice("true".as_bytes());
            } else {
                out.extend_from_slice("false".as_bytes());
            }
        },
        JsonValue::Num(t) => {
            out.extend_from_slice(t.as_slice());
        },
        JsonValue::Str(s) => {
            write_quoted(s.as_slice(), out);
        },
        JsonValue::Arr(items) => {
            let ghost ispec = (v@)->Arr_0;
            out.push(91);
            let ghost base = out@;
            let mut i: usize = 0;
            while i < items.len()
                invariant
                    i <= items@.len(),
                    out@ + arr_bytes_from(ispec, i as int) == base + arr_bytes_from(ispec, 0),
                decreases items@.len() - i,
            {
                write_json_value(&items[i], out);
                if i + 1 < items.len() {
                    out.push(44);
                }
                i = i + 1;
                proof {
                    assert(out@ + arr_bytes_from(ispec, i as int) =~= base + arr_bytes_from(
                        ispec,
                        0,
                    ));
                }
            }
            out.push(93);
            proof {
                assert(out@ =~= old(out)@ + json_bytes(v@));
            }
        },
        JsonValue::Obj(entries) => {
            let ghost espec = (v@)->Obj_0;
            out.push(123);
            let ghost base = out@;
            let mut i: usize = 0;
            while i < entries.len()
                invariant
                    i <= entries@.len(),
                    out@ + obj_bytes_from(espec, i as int) == base + obj_bytes_from(espec, 0),
                decreases entries@.len() - i,
            {
                proof {
                    assert(espec[i as int] == (entries@[i as int].0@, entries@[i as int].1@));
                }
                write_quoted(entries[i].0.as_slice(), out);
                out.push(58);
                write_json_value(&entries[i].1, out);
                if i + 1 < entries.len() {
                    out.push(44);
                }
                i = i + 1;
                proof {
                    assert(out@ + obj_bytes_from(espec, i as int) =~= base + obj_bytes_from(
                        espec,
                        0,
                    ));
                }
            }
            out.push(125);
            proof {
                assert(out@ =~= old(out)@ + json_bytes(v@));
            }
        },
    }
}

/// The serialized bytes of `v`.
pub fn json_to_bytes(v: &JsonValue) -> (r: Vec<u8>)
    ensures
        r@ == json_bytes(v@),
{
    let mut out: Vec<u8> = Vec::new();
    write_json_value(v, &mut out);
    out
}

} // verus!
