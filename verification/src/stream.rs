//! The streaming assembler.
//!
//! The transport delivers the answer as arrival-ordered byte chunks whose
//! boundaries owe nothing to line or token boundaries. The assembler holds
//! the bytes after the last line feed back for the next chunk and decodes
//! only complete lines, so the text it accumulates is a function of the
//! concatenated bytes alone, however they were cut into chunks. An
//! event-data line carries a JSON payload with zero or more choices; a
//! payload that does not decode contributes nothing and surfaces no error.
use vstd::prelude::*;
use vstd::string::StringSliceAdditionalSpecFns;
use crate::json::JsonSpec;
use crate::json::JsonValue;
use crate::json::clone_bytes;
use crate::json::elem_views;
use crate::json::lemma_arr_view;
use crate::json::lemma_obj_view;
use crate::json::lookup_key;
use crate::json::lookup_last;
use crate::parse::parse_json;
use crate::parse::parsed_json;
use crate::text::LF;
use crate::text::bytes_eq;
use crate::text::copy_range;
use crate::text::find_byte_at;
use crate::text::find_byte_from;
use crate::text::has_prefix;
use crate::text::lemma_find_byte_found;
use crate::text::starts_with;
use crate::text::trim;
use crate::text::trim_bytes;
use crate::text::view_opt;

verus! {

broadcast use vstd::std_specs::vec::group_vec_axioms;

/// The marker an event-data line begins with.
pub open spec fn data_prefix() -> Seq<u8> {
    "data: ".spec_bytes()
}

/// The stream-terminator sentinel payload.
pub open spec fn done_token() -> Seq<u8> {
    "[DONE]".spec_bytes()
}

/// The mathematical shape of one stream choice.
#[verifier::ext_equal]
pub struct ChoiceSpec {
    /// The incremental fragment, where the choice carries one.
    pub delta: Option<Seq<u8>>,
    /// The full message fragment, where the choice carries one.
    pub message: Option<Seq<u8>>,
}

/// One choice of a decoded event: an optional incremental `delta` fragment
/// and an optional full `message` fragment, each reduced to its content.
#[derive(Debug, PartialEq, Eq)]
pub struct Choice {
    /// Content of the `delta` fragment, where present.
    pub delta: Option<Vec<u8>>,
    /// Content of the `message` fragment, where present.
    pub message: Option<Vec<u8>>,
}

impl View for Choice {
    type V = ChoiceSpec;

    open spec fn view(&self) -> ChoiceSpec {
        ChoiceSpec { delta: view_opt(self.delta), message: view_opt(self.message) }
    }
}

/// A decoded event-data payload: zero or more choices.
pub struct DeltaEvent {
    /// The event's choices, in payload order.
    pub choices: Vec<Choice>,
}

/// The views of a sequence of choices.
pub open spec fn choice_views(cs: Seq<Choice>) -> Seq<ChoiceSpec> {
    Seq::new(cs.len(), |i: int| cs[i]@)
}

/// Whether an optional entry is absent, null or a string — the only shapes
/// tolerated for a nullable string field of an event.
pub open spec fn opt_string_shaped(o: Option<JsonSpec>) -> bool {
    match o {
        None => true,
        Some(JsonSpec::Null) => true,
        Some(JsonSpec::Str(_)) => true,
        Some(_) => false,
    }
}

/// The fragment denoted by a `delta` or `message` entry. `Some(None)` for
/// null — no fragment; `Some(Some(content))` for an object whose optional
/// `content` is a string (absent means empty) and whose optional `role` is
/// a string; `None` for any other shape, failing the whole event.
pub open spec fn frag_of(j: JsonSpec) -> Option<Option<Seq<u8>>> {
    match j {
        JsonSpec::Null => Some(None),
        JsonSpec::Obj(es) => {
            let c = lookup_last(es, "content".spec_bytes());
            let r = lookup_last(es, "role".spec_bytes());
            if opt_string_shaped(r) && (c is None || c matches Some(JsonSpec::Str(_))) {
                Some(
                    Some(
                        match c {
                            Some(JsonSpec::Str(s)) => s,
                            _ => Seq::empty(),
                        },
                    ),
                )
            } else {
                None
            }
        },
        _ => None,
    }
}

/// One decoded choice: optional `delta` and `message` fragments and an
/// optional string `finish_reason`; any other shape fails the event.
pub open spec fn choice_of(j: JsonSpec) -> Option<ChoiceSpec> {
    match j {
        JsonSpec::Obj(es) => {
            let d = match lookup_last(es, "delta".spec_bytes()) {
                None => Some(None),
                Some(x) => frag_of(x),
            };
            let m = match lookup_last(es, "message".spec_bytes()) {
                None => Some(None),
                Some(x) => frag_of(x),
            };
            if d is Some && m is Some && opt_string_shaped(
                lookup_last(es, "finish_reason".spec_bytes()),
            ) {
                Some(ChoiceSpec { delta: d.unwrap(), message: m.unwrap() })
            } else {
                None
            }
        },
        _ => None,
    }
}

/// The choices from position `i` on, each decoded; `None` as soon as one
/// fails.
pub open spec fn choices_of(cs: Seq<JsonSpec>, i: int) -> Option<Seq<ChoiceSpec>>
    decreases cs.len() - i,
{
    if i < 0 || i >= cs.len() {
        Some(Seq::empty())
    } else {
        match choice_of(cs[i]) {
            None => None,
            Some(c) => match choices_of(cs, i + 1) {
                None => None,
                Some(rest) => Some(seq![c] + rest),
            },
        }
    }
}

/// The choices of a decoded stream event; `None` where the value is no
/// event: not an object, no `choices` array, a choice of the wrong shape,
/// or an `id` or `object` entry that is not an optional string.
pub open spec fn event_choices(j: JsonSpec) -> Option<Seq<ChoiceSpec>> {
    match j {
        JsonSpec::Obj(es) => {
            if opt_string_shaped(lookup_last(es, "id".spec_bytes())) && opt_string_shaped(
                lookup_last(es, "object".spec_bytes()),
            ) {
                match lookup_last(es, "choices".spec_bytes()) {
                    Some(JsonSpec::Arr(cs)) => choices_of(cs, 0),
                    _ => None,
                }
            } else {
                None
            }
        },
        _ => None,
    }
}

/// What one choice contributes to the text: its `delta` fragment where it
/// has one, else its `message` fragment, else nothing.
pub open spec fn choice_content(c: ChoiceSpec) -> Seq<u8> {
    match c.delta {
        Some(d) => d,
        None => match c.message {
            Some(m) => m,
            None => Seq::empty(),
        },
    }
}

/// The concatenated contributions of the choices from position `i` on.
pub open spec fn choices_content_from(cs: Seq<ChoiceSpec>, i: int) -> Seq<u8>
    decreases cs.len() - i,
{
    if i < 0 || i >= cs.len() {
        Seq::empty()
    } else {
        choice_content(cs[i]) + choices_content_from(cs, i + 1)
    }
}

/// What an event-data payload contributes to the text: nothing unless it
/// parses as JSON and decodes as an event, else its choices' contributions.
pub open spec fn payload_content(p: Seq<u8>) -> Seq<u8> {
    match parsed_json(p) {
        None => Seq::empty(),
        Some(j) => match event_choices(j) {
            None => Seq::empty(),
            Some(cs) => choices_content_from(cs, 0),
        },
    }
}

/// What one logical line contributes to the text: nothing unless, trimmed,
/// it bears the event-data prefix and its trimmed payload is neither empty
/// nor the terminator sentinel; then its payload's contribution.
pub open spec fn line_content(l: Seq<u8>) -> Seq<u8> {
    let t = trim(l);
    if t.len() == 0 {
        Seq::empty()
    } else if has_prefix(t, data_prefix()) {
        let p = trim(t.subrange(data_prefix().len() as int, t.len() as int));
        if p == done_token() || p.len() == 0 {
            Seq::empty()
        } else {
            payload_content(p)
        }
    } else {
        Seq::empty()
    }
}

/// The contributions of all complete (line-feed-terminated) lines of `s`
/// from position `i` on, in order.
pub open spec fn complete_content(s: Seq<u8>, i: int) -> Seq<u8>
    decreases s.len() - i,
    via complete_content_decreases
{
    if i < 0 || i >= s.len() {
        Seq::empty()
    } else {
        match find_byte_from(s, LF, i) {
            Some(j) => line_content(s.subrange(i, j)) + complete_content(s, j + 1),
            None => Seq::empty(),
        }
    }
}

#[via_fn]
proof fn complete_content_decreases(s: Seq<u8>, i: int) {
    if 0 <= i < s.len() {
        lemma_find_byte_found(s, LF, i);
    }
}

/// The unterminated tail of `s` after its last line feed at or after `i`.
pub open spec fn remainder(s: Seq<u8>, i: int) -> Seq<u8>
    decreases s.len() - i,
    via remainder_decreases
{
    if i < 0 || i > s.len() {
        Seq::empty()
    } else {
        match find_byte_from(s, LF, i) {
            Some(j) => remainder(s, j + 1),
            None => s.subrange(i, s.len() as int),
        }
    }
}

#[via_fn]
proof fn remainder_decreases(s: Seq<u8>, i: int) {
    if 0 <= i <= s.len() {
        lemma_find_byte_found(s, LF, i);
    }
}

/// The text assembled from the whole byte stream `s`: the contributions of
/// its complete lines, then of its final unterminated line.
pub open spec fn assembled(s: Seq<u8>) -> Seq<u8> {
    complete_content(s, 0) + line_content(remainder(s, 0))
}

/// A byte found in `s` is found at the same place in `s + t`.
proof fn lemma_find_byte_prefix(s: Seq<u8>, t: Seq<u8>, b: u8, i: int)
    requires
        find_byte_from(s, b, i) is Some,
    ensures
        find_byte_from(s + t, b, i) == find_byte_from(s, b, i),
    decreases s.len() - i,
{
    if 0 <= i < s.len() {
        assert((s + t)[i] == s[i]);
        if s[i] != b {
            lemma_find_byte_prefix(s, t, b, i + 1);
        }
    }
}

/// Searching a suffix finds the same byte, shifted.
proof fn lemma_find_byte_skip(s: Seq<u8>, n: int, b: u8, i: int)
    requires
        0 <= n <= s.len(),
        0 <= i,
    ensures
        match find_byte_from(s, b, n + i) {
            Some(j) => find_byte_from(s.skip(n), b, i) == Some(j - n),
            None => find_byte_from(s.skip(n), b, i) is None,
        },
    decreases s.len() - n - i,
{
    if n + i < s.len() {
        assert(s.skip(n)[i] == s[n + i]);
        if s[n + i] != b {
            lemma_find_byte_skip(s, n, b, i + 1);
        }
    }
}

/// Assembly from position `i` equals assembly of the suffix from its start.
proof fn lemma_assembly_shift(s: Seq<u8>, i: int)
    requires
        0 <= i <= s.len(),
    ensures
        complete_content(s, i) == complete_content(s.skip(i), 0),
        remainder(s, i) == remainder(s.skip(i), 0),
    decreases s.len() - i,
{
    lemma_find_byte_skip(s, i, LF, 0);
    match find_byte_from(s, LF, i) {
        Some(j) => {
            lemma_find_byte_found(s, LF, i);
            assert(s.skip(i).subrange(0, j - i) =~= s.subrange(i, j));
            lemma_assembly_shift(s, j + 1);
            lemma_assembly_shift(s.skip(i), j - i + 1);
            assert(s.skip(i).skip(j - i + 1) =~= s.skip(j + 1));
        },
        None => {
            assert(s.skip(i).subrange(0, s.len() - i) =~= s.subrange(i, s.len() as int));
        },
    }
}

/// Feeding more bytes extends the assembly exactly as if the whole stream
/// had arrived at once: the complete lines of `s + t` are those of `s`
/// followed by those completed within the held-back tail of `s` joined to
/// `t`, and the new tail depends only on that joint suffix. Chunk
/// boundaries therefore cannot change the assembled text.
pub proof fn lemma_assemble_append(s: Seq<u8>, t: Seq<u8>)
    ensures
        complete_content(s + t, 0) == complete_content(s, 0) + complete_content(
            remainder(s, 0) + t,
            0,
        ),
        remainder(s + t, 0) == remainder(remainder(s, 0) + t, 0),
    decreases s.len(),
{
    match find_byte_from(s, LF, 0) {
        None => {
            if s.len() == 0 {
                assert(s + t =~= t);
                assert(remainder(s, 0) =~= s);
                assert(remainder(s, 0) + t =~= t);
            } else {
                assert(remainder(s, 0) == s.subrange(0, s.len() as int));
                assert(s.subrange(0, s.len() as int) =~= s);
                assert(remainder(s, 0) + t =~= s + t);
            }
        },
        Some(j) => {
            lemma_find_byte_found(s, LF, 0);
            lemma_find_byte_prefix(s, t, LF, 0);
            assert((s + t).subrange(0, j) =~= s.subrange(0, j));
            lemma_assembly_shift(s + t, j + 1);
            assert((s + t).skip(j + 1) =~= s.skip(j + 1) + t);
            lemma_assemble_append(s.skip(j + 1), t);
            lemma_assembly_shift(s, j + 1);
            assert(complete_content(s + t, 0) =~= complete_content(s, 0) + complete_content(
                remainder(s, 0) + t,
                0,
            ));
        },
    }
}

/// Two chunkings of the same bytes assemble to the same text: the assembly
/// is a function of the concatenated stream alone, so delivering one
/// logical payload as one chunk or split at any byte offset — mid-line,
/// mid-prefix, mid-token or mid-character — changes nothing.
pub proof fn lemma_chunk_boundaries_immaterial(chunks1: Seq<Seq<u8>>, chunks2: Seq<Seq<u8>>)
    requires
        chunks1.flatten() == chunks2.flatten(),
    ensures
        assembled(chunks1.flatten()) == assembled(chunks2.flatten()),
{
}

/// A blank line, and an event-data line whose payload is the terminator
/// sentinel, contribute nothing to the assembled text.
pub proof fn lemma_terminator_line_silent(l: Seq<u8>)
    requires
        trim(l).len() == 0 || (has_prefix(trim(l), data_prefix()) && trim(
            trim(l).subrange(data_prefix().len() as int, trim(l).len() as int),
        ) == done_token()),
    ensures
        line_content(l) == Seq::<u8>::empty(),
{
}

/// A stream whose every line contributes nothing assembles to the empty
/// text; with [`lemma_terminator_line_silent`], a stream of only blank and
/// terminator lines yields no content at all.
pub proof fn lemma_silent_stream(s: Seq<u8>)
    requires
        forall|a: int, b: int|
            0 <= a <= b <= s.len() ==> line_content(#[trigger] s.subrange(a, b))
                == Seq::<u8>::empty(),
    ensures
        assembled(s) == Seq::<u8>::empty(),
{
    lemma_silent_complete(s, 0);
    lemma_remainder_is_suffix(s, 0);
}

/// The remainder from `i` is a subrange of `s`.
proof fn lemma_remainder_is_suffix(s: Seq<u8>, i: int)
    requires
        0 <= i <= s.len(),
    ensures
        exists|a: int| 0 <= a <= s.len() && remainder(s, i) == #[trigger] s.subrange(
            a,
            s.len() as int,
        ),
    decreases s.len() - i,
{
    match find_byte_from(s, LF, i) {
        Some(j) => {
            lemma_find_byte_found(s, LF, i);
            lemma_remainder_is_suffix(s, j + 1);
        },
        None => {
            assert(remainder(s, i) == s.subrange(i, s.len() as int));
        },
    }
}

/// All complete lines of a silent stream contribute nothing.
proof fn lemma_silent_complete(s: Seq<u8>, i: int)
    requires
        0 <= i <= s.len(),
        forall|a: int, b: int|
            0 <= a <= b <= s.len() ==> line_content(#[trigger] s.subrange(a, b))
                == Seq::<u8>::empty(),
    ensures
        complete_content(s, i) == Seq::<u8>::empty(),
    decreases s.len() - i,
{
    if 0 <= i < s.len() {
        match find_byte_from(s, LF, i) {
            Some(j) => {
                lemma_find_byte_found(s, LF, i);
                lemma_silent_complete(s, j + 1);
                assert(complete_content(s, i) =~= Seq::<u8>::empty());
            },
            None => {},
        }
    }
}

/// Decodes a `delta` or `message` entry, as [`frag_of`] describes.
fn decode_fragment(v: &JsonValue) -> (r: Option<Option<Vec<u8>>>)
    ensures
        match r {
            Some(f) => frag_of(v@) == Some(view_opt(f)),
            None => frag_of(v@) is None,
        },
{
    match v {
        JsonValue::Null => Some(None),
        JsonValue::Obj(entries) => {
            proof {
                lemma_obj_view(*entries);
            }
            match lookup_key(entries, "role".as_bytes()) {
                None => {},
                Some(JsonValue::Null) => {},
                Some(JsonValue::Str(_)) => {},
                Some(_) => {
                    return None;
                },
            }
            match lookup_key(entries, "content".as_bytes()) {
                None => Some(Some(Vec::new())),
                Some(JsonValue::Str(s)) => Some(Some(clone_bytes(s))),
                Some(_) => None,
            }
        },
        _ => None,
    }
}

/// Decodes one choice, as [`choice_of`] describes.
fn decode_choice(v: &JsonValue) -> (r: Option<Choice>)
    ensures
        match r {
            Some(c) => choice_of(v@) == Some(c@),
            None => choice_of(v@) is None,
        },
{
    match v {
        JsonValue::Obj(entries) => {
            proof {
                lemma_obj_view(*entries);
            }
            let delta: Option<Vec<u8>> = match lookup_key(entries, "delta".as_bytes()) {
                None => None,
                Some(x) => {
                    match decode_fragment(x) {
                        None => {
                            return None;
                        },
                        Some(f) => f,
                    }
                },
            };
            let message: Option<Vec<u8>> = match lookup_key(entries, "message".as_bytes()) {
                None => None,
                Some(x) => {
                    match decode_fragment(x) {
                        None => {
                            return None;
                        },
                        Some(f) => f,
                    }
                },
            };
            match lookup_key(entries, "finish_reason".as_bytes()) {
                None => {},
                Some(JsonValue::Null) => {},
                Some(JsonValue::Str(_)) => {},
                Some(_) => {
                    return None;
                },
            }
            Some(Choice { delta, message })
        },
        _ => None,
    }
}

/// Decodes an event-data payload value, as [`event_choices`] describes.
pub fn decode_stream_event(v: &JsonValue) -> (r: Option<DeltaEvent>)
    ensures
        match r {
            Some(ev) => event_choices(v@) == Some(choice_views(ev.choices@)),
            None => event_choices(v@) is None,
        },
{
    match v {
        JsonValue::Obj(entries) => {
            proof {
                lemma_obj_view(*entries);
            }
            match lookup_key(entries, "id".as_bytes()) {
                None => {},
                Some(JsonValue::Null) => {},
                Some(JsonValue::Str(_)) => {},
                Some(_) => {
                    return None;
                },
            }
            match lookup_key(entries, "object".as_bytes()) {
                None => {},
                Some(JsonValue::Null) => {},
                Some(JsonValue::Str(_)) => {},
                Some(_) => {
                    return None;
                },
            }
            match lookup_key(entries, "choices".as_bytes()) {
                Some(arr) => {
                    match arr {
                        JsonValue::Arr(items) => {
                            proof {
                                lemma_arr_view(*items);
                            }
                            match decode_choices(items) {
                                Some(out) => Some(DeltaEvent { choices: out }),
                                None => None,
                            }
                        },
                        _ => None,
                    }
                },
                None => None,
            }
        },
        _ => None,
    }
}

/// Decodes an array of choice values, as [`choices_of`] describes; `None`
/// as soon as one choice has the wrong shape.
pub(crate) fn decode_choices(items: &Vec<JsonValue>) -> (r: Option<Vec<Choice>>)
    ensures
        match r {
            Some(out) => choices_of(elem_views(items@), 0) == Some(choice_views(out@)),
            None => choices_of(elem_views(items@), 0) is None,
        },
{
    let ghost cs = elem_views(items@);
    let mut out: Vec<Choice> = Vec::new();
    let mut i: usize = 0;
    while i < items.len()
        invariant
            0 <= i <= items@.len(),
            cs == elem_views(items@),
            choices_of(cs, 0) is Some <==> choices_of(cs, i as int) is Some,
            choices_of(cs, i as int) matches Some(rest) ==> choices_of(cs, 0) == Some(
                choice_views(out@) + rest,
            ),
        decreases items@.len() - i,
    {
        match decode_choice(&items[i]) {
            None => {
                return None;
            },
            Some(c) => {
                out.push(c);
            },
        }
        i = i + 1;
        proof {
            match choices_of(cs, i as int) {
                Some(rest) => {
                    assert(choice_views(out@) + rest =~~= choice_views(out@.drop_last()) + (seq![
                        out@.last()@,
                    ] + rest));
                },
                None => {},
            }
        }
    }
    proof {
        match choices_of(cs, i as int) {
            Some(rest) => {
                assert(choice_views(out@) + rest =~~= choice_views(out@));
            },
            None => {},
        }
    }
    Some(out)
}

/// The text contributed by a decoded event: its choices' contributions,
/// in order.
pub fn event_content(ev: &DeltaEvent) -> (r: Vec<u8>)
    ensures
        r@ == choices_content_from(choice_views(ev.choices@), 0),
{
    let ghost cv = choice_views(ev.choices@);
    let mut out: Vec<u8> = Vec::new();
    let mut i: usize = 0;
    while i < ev.choices.len()
        invariant
            0 <= i <= ev.choices@.len(),
            cv == choice_views(ev.choices@),
            out@ + choices_content_from(cv, i as int) == choices_content_from(cv, 0),
        decreases ev.choices@.len() - i,
    {
        match &ev.choices[i].delta {
            Some(d) => {
                out.extend_from_slice(d.as_slice());
            },
            None => {
                match &ev.choices[i].message {
                    Some(m) => {
                        out.extend_from_slice(m.as_slice());
                    },
                    None => {},
                }
            },
        }
        i = i + 1;
        proof {
            assert(out@ + choices_content_from(cv, i as int) =~= choices_content_from(cv, 0));
        }
    }
    proof {
        assert(out@ =~= choices_content_from(cv, 0));
    }
    out
}

/// The text contributed by one logical line, as [`line_content`] describes.
pub fn line_content_bytes(l: &[u8]) -> (r: Vec<u8>)
    ensures
        r@ == line_content(l@),
{
    let t = trim_bytes(l);
    if t.len() == 0 {
        return Vec::new();
    }
    let pref = "data: ".as_bytes();
    if !starts_with(t.as_slice(), pref) {
        return Vec::new();
    }
    let rest = copy_range(t.as_slice(), pref.len(), t.len());
    let payload = trim_bytes(rest.as_slice());
    if bytes_eq(payload.as_slice(), "[DONE]".as_bytes()) {
        return Vec::new();
    }
    if payload.len() == 0 {
        return Vec::new();
    }
    match parse_json(payload.as_slice()) {
        None => Vec::new(),
        Some(v) => {
            match decode_stream_event(&v) {
                None => Vec::new(),
                Some(ev) => event_content(&ev),
            }
        },
    }
}

/// The streaming assembler: reconstructs one logical text from
/// arrival-ordered chunks, holding any unterminated tail back until its
/// line completes. The accumulated text and the tail are at all times a
/// function of the bytes consumed so far.
pub struct StreamAssembler {
    /// Text accumulated from the complete lines consumed so far.
    pub content: Vec<u8>,
    /// Bytes after the last line feed, held back for the next chunk.
    pub buffer: Vec<u8>,
    /// All bytes consumed so far.
    pub consumed: Ghost<Seq<u8>>,
}

impl StreamAssembler {
    /// The assembler's invariant: content and buffer are exactly what the
    /// consumed bytes dictate.
    pub open spec fn wf(self) -> bool {
        &&& self.content@ == complete_content(self.consumed@, 0)
        &&& self.buffer@ == remainder(self.consumed@, 0)
    }

    /// A fresh assembler that has consumed nothing.
    pub fn new() -> (r: StreamAssembler)
        ensures
            r.wf(),
            r.consumed@ == Seq::<u8>::empty(),
    {
        let r = StreamAssembler {
            content: Vec::new(),
            buffer: Vec::new(),
            consumed: Ghost(Seq::empty()),
        };
        proof {
            assert(r.buffer@ =~= remainder(r.consumed@, 0));
        }
        r
    }

    /// Consumes one chunk: appends its bytes, decodes the lines that are
    /// now complete, and holds the new unterminated tail back.
    pub fn feed(&mut self, chunk: &[u8])
        requires
            old(self).wf(),
        ensures
            final(self).wf(),
            final(self).consumed@ == old(self).consumed@ + chunk@,
    {
        let ghost oldc = self.consumed@;
        let mut nb = copy_range(self.buffer.as_slice(), 0, self.buffer.len());
        nb.extend_from_slice(chunk);
        let ghost nbs = nb@;
        proof {
            assert(nbs =~= remainder(oldc, 0) + chunk@);
        }
        let nb_len = nb.len();
        proof {
            assert(nbs.len() == nb_len);
        }
        let mut p: usize = 0;
        loop
            invariant
                0 <= p <= nbs.len(),
                nb@ == nbs,
                nbs.len() <= usize::MAX,
                self.content@ + complete_content(nbs, p as int) == complete_content(oldc, 0)
                    + complete_content(nbs, 0),
                remainder(nbs, 0) == remainder(nbs, p as int),
                self.buffer == old(self).buffer,
                self.consumed == old(self).consumed,
            ensures
                self.content@ == complete_content(oldc, 0) + complete_content(nbs, 0),
                remainder(nbs, 0) == nbs.subrange(p as int, nbs.len() as int),
                p <= nbs.len(),
                nb@ == nbs,
                self.buffer == old(self).buffer,
                self.consumed == old(self).consumed,
            decreases nbs.len() - p,
        {
            match find_byte_at(nb.as_slice(), LF, p) {
                Some(j) => {
                    let line = copy_range(nb.as_slice(), p, j);
                    let lc = line_content_bytes(line.as_slice());
                    self.content.extend_from_slice(lc.as_slice());
                    p = j + 1;
                    proof {
                        assert(self.content@ + complete_content(nbs, p as int)
                            =~= complete_content(oldc, 0) + complete_content(nbs, 0));
                    }
                },
                None => {
                    proof {
                        assert(complete_content(nbs, p as int) == Seq::<u8>::empty());
                        assert(self.content@ =~= complete_content(oldc, 0) + complete_content(
                            nbs,
                            0,
                        ));
                    }
                    break ;
                },
            }
        }
        self.buffer = copy_range(nb.as_slice(), p, nb.len());
        proof {
            lemma_assemble_append(oldc, chunk@);
        }
        self.consumed = Ghost(oldc + chunk@);
    }

    /// Ends the stream: the held-back tail is decoded as a final line and
    /// the whole assembled text is returned.
    pub fn finish(self) -> (r: Vec<u8>)
        requires
            self.wf(),
        ensures
            r@ == assembled(self.consumed@),
    {
        let mut content = self.content;
        let lc = line_content_bytes(self.buffer.as_slice());
        content.extend_from_slice(lc.as_slice());
        content
    }
}

/// Whether a completed stream's content obliges the caller to retry once
/// over the non-streaming path: exactly when no content was accumulated.
/// Streaming success with zero content is not trusted as an empty answer.
pub fn needs_single_shot_retry(content: &[u8]) -> (r: bool)
    ensures
        r <==> content@.len() == 0,
{
    content.len() == 0
}

} // verus!
