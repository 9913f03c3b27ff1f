//! The advisory document and its structural repair.
//!
//! A parsed answer is read as a document of two shapes: `Structured`, with
//! the named sections in place, or `Raw`, an arbitrary JSON value. The
//! restructurer relocates sections that the upstream service nested under
//! `diagnostic` back to top level — idempotently, and with the nested value
//! winning over a top-level one — and the fallback synthesizer produces a
//! minimal structured document when nothing better can be recovered.
use vstd::prelude::*;
use vstd::string::StringSliceAdditionalSpecFns;
use crate::json::JsonSpec;
use crate::json::JsonValue;
use crate::json::clone_bytes;
use crate::json::clone_value;
use crate::json::entry_views;
use crate::json::json_bytes;
use crate::json::json_to_bytes;
use crate::json::lemma_obj_view;
use crate::json::lookup_before;
use crate::json::lookup_key;
use crate::json::lookup_last;
use crate::json::view_opt_val;
use crate::text::bytes_eq;
use crate::text::copy_range;

verus! {

broadcast use vstd::std_specs::vec::group_vec_axioms;

/// How many bytes of the raw text the fallback document embeds at most.
pub const FALLBACK_PREVIEW_BYTES: usize = 500;

/// The key under which the diagnostic section stands.
pub open spec fn key_diagnostic() -> Seq<u8> {
    "diagnostic".spec_bytes()
}

/// The key under which recommended actions stand.
pub open spec fn key_actions() -> Seq<u8> {
    "actions_recommandees".spec_bytes()
}

/// The key under which identified risks stand.
pub open spec fn key_risques() -> Seq<u8> {
    "risques".spec_bytes()
}

/// The key under which suggested queries stand.
pub open spec fn key_sql() -> Seq<u8> {
    "sql_suggere".spec_bytes()
}

/// The key under which the confidence level stands.
pub open spec fn key_confiance() -> Seq<u8> {
    "niveau_confiance".spec_bytes()
}

/// The key under which complementary notes stand.
pub open spec fn key_notes() -> Seq<u8> {
    "notes_complementaires".spec_bytes()
}

/// The key a bare diagnostic value is folded under when a raw object's
/// `diagnostic` is not itself an object.
pub open spec fn key_etat() -> Seq<u8> {
    "etat_actuel".spec_bytes()
}

/// The keys that are hoisted out of a nested diagnostic.
pub open spec fn is_hoisted_key(k: Seq<u8>) -> bool {
    k == key_actions() || k == key_risques() || k == key_sql()
}

/// The five canonical top-level keys besides `diagnostic`.
pub open spec fn is_canonical_key(k: Seq<u8>) -> bool {
    is_hoisted_key(k) || k == key_confiance() || k == key_notes()
}

/// The advisory document: the canonical structured shape, or an arbitrary
/// JSON value where no structured reading could be established.
#[derive(Debug, PartialEq, Eq)]
pub enum DbAdvisorResponse {
    /// The canonical shape, sections in their places.
    Structured {
        /// The diagnostic section.
        diagnostic: JsonValue,
        /// Recommended actions; array-shaped on the canonical path.
        actions_recommandees: JsonValue,
        /// Identified risks; array-shaped on the canonical path.
        risques: JsonValue,
        /// Suggested queries, where any.
        sql_suggere: Option<JsonValue>,
        /// Confidence level, as the number's decimal text.
        niveau_confiance: Vec<u8>,
        /// Complementary notes, where any.
        notes_complementaires: Option<JsonValue>,
    },
    /// An arbitrary JSON value, passed through.
    Raw(JsonValue),
}

/// The mathematical shape of a document.
#[verifier::ext_equal]
pub enum DocSpec {
    /// The canonical structured shape.
    Structured {
        /// The diagnostic section.
        diagnostic: JsonSpec,
        /// Recommended actions.
        actions: JsonSpec,
        /// Identified risks.
        risks: JsonSpec,
        /// Suggested queries, where any.
        sql: Option<JsonSpec>,
        /// Confidence level, as decimal text.
        confidence: Seq<u8>,
        /// Complementary notes, where any.
        notes: Option<JsonSpec>,
    },
    /// An arbitrary value.
    Raw(JsonSpec),
}

impl View for DbAdvisorResponse {
    type V = DocSpec;

    open spec fn view(&self) -> DocSpec {
        match self {
            DbAdvisorResponse::Structured {
                diagnostic,
                actions_recommandees,
                risques,
                sql_suggere,
                niveau_confiance,
                notes_complementaires,
            } => DocSpec::Structured {
                diagnostic: diagnostic@,
                actions: actions_recommandees@,
                risks: risques@,
                sql: view_opt_val(*sql_suggere),
                confidence: niveau_confiance@,
                notes: view_opt_val(*notes_complementaires),
            },
            DbAdvisorResponse::Raw(v) => DocSpec::Raw(v@),
        }
    }
}

/// The value hoisted out of a nested diagnostic for key `k`: its last
/// occurrence, unless that is null — a null nested value counts as absent.
pub open spec fn extracted(es: Seq<(Seq<u8>, JsonSpec)>, k: Seq<u8>) -> Option<JsonSpec> {
    match lookup_last(es, k) {
        Some(v) => if v == JsonSpec::Null {
            None
        } else {
            Some(v)
        },
        None => None,
    }
}

/// An optional value with null counting as absent.
pub open spec fn opt_nonnull(o: Option<JsonSpec>) -> Option<JsonSpec> {
    match o {
        Some(v) => if v == JsonSpec::Null {
            None
        } else {
            Some(v)
        },
        None => None,
    }
}

/// The entries of a nested diagnostic that stay in place: those from
/// position `i` on whose key is not hoisted.
pub open spec fn kept_entries_from(es: Seq<(Seq<u8>, JsonSpec)>, i: int) -> Seq<
    (Seq<u8>, JsonSpec),
>
    decreases es.len() - i,
{
    if i < 0 || i >= es.len() {
        Seq::empty()
    } else {
        (if !is_hoisted_key(es[i].0) {
            seq![es[i]]
        } else {
            Seq::empty()
        }) + kept_entries_from(es, i + 1)
    }
}

/// A section's final value: the hoisted one where there is one, else the
/// top-level one unless null, else the empty array.
pub open spec fn or_empty_array(hoisted: Option<JsonSpec>, top: JsonSpec) -> JsonSpec {
    match hoisted {
        Some(v) => v,
        None => if top == JsonSpec::Null {
            JsonSpec::Arr(Seq::empty())
        } else {
            top
        },
    }
}

/// The restructured form of a structured document. When the diagnostic is
/// an object, its entries under hoisted keys move to top level — the nested
/// value winning over the top-level one — and the rest stay; a diagnostic
/// emptied by hoisting is kept as it was. Missing or null actions and risks
/// default to the empty array; missing or null suggested queries stay
/// absent; confidence and notes pass through.
pub open spec fn restructure_structured(
    diagnostic: JsonSpec,
    actions: JsonSpec,
    risks: JsonSpec,
    sql: Option<JsonSpec>,
    confidence: Seq<u8>,
    notes: Option<JsonSpec>,
) -> DocSpec {
    match diagnostic {
        JsonSpec::Obj(es) => {
            let kept = kept_entries_from(es, 0);
            DocSpec::Structured {
                diagnostic: if kept.len() == 0 {
                    diagnostic
                } else {
                    JsonSpec::Obj(kept)
                },
                actions: or_empty_array(extracted(es, key_actions()), actions),
                risks: or_empty_array(extracted(es, key_risques()), risks),
                sql: match extracted(es, key_sql()) {
                    Some(v) => Some(v),
                    None => opt_nonnull(sql),
                },
                confidence,
                notes,
            }
        },
        _ => DocSpec::Structured {
            diagnostic,
            actions: or_empty_array(None, actions),
            risks: or_empty_array(None, risks),
            sql: opt_nonnull(sql),
            confidence,
            notes,
        },
    }
}

/// First position bearing key `k` among `es` at or after `i`, if any.
pub open spec fn first_key_from(es: Seq<(Seq<u8>, JsonSpec)>, k: Seq<u8>, i: int) -> Option<int>
    decreases es.len() - i,
{
    if i < 0 || i >= es.len() {
        None
    } else if es[i].0 == k {
        Some(i)
    } else {
        first_key_from(es, k, i + 1)
    }
}

/// Entries with `(k, v)` inserted: the first entry bearing `k` is replaced,
/// else the pair is appended.
pub open spec fn upsert(es: Seq<(Seq<u8>, JsonSpec)>, k: Seq<u8>, v: JsonSpec) -> Seq<
    (Seq<u8>, JsonSpec),
> {
    match first_key_from(es, k, 0) {
        Some(i) => es.update(i, (k, v)),
        None => es.push((k, v)),
    }
}

/// The regrouping state over a raw object: the top-level entries built so
/// far, the synthesized diagnostic's entries, and whether anything was
/// folded into the diagnostic.
#[verifier::ext_equal]
pub struct RegroupState {
    /// Top-level entries built so far.
    pub top: Seq<(Seq<u8>, JsonSpec)>,
    /// Entries of the synthesized diagnostic.
    pub diag: Seq<(Seq<u8>, JsonSpec)>,
    /// Whether the synthesized diagnostic holds anything.
    pub has_diag: bool,
}

/// Regrouping of a nested diagnostic object's entries from position `j`
/// on: entries under hoisted keys go to top level, the rest into the
/// synthesized diagnostic.
pub open spec fn regroup_diag_from(des: Seq<(Seq<u8>, JsonSpec)>, j: int, st: RegroupState)
    -> RegroupState
    decreases des.len() - j,
{
    if j < 0 || j >= des.len() {
        st
    } else {
        let k = des[j].0;
        let v = des[j].1;
        let st2 = if is_hoisted_key(k) {
            RegroupState { top: upsert(st.top, k, v), diag: st.diag, has_diag: st.has_diag }
        } else {
            RegroupState { top: st.top, diag: upsert(st.diag, k, v), has_diag: true }
        };
        regroup_diag_from(des, j + 1, st2)
    }
}

/// Regrouping of a raw object's entries from position `i` on: a
/// `diagnostic` object is walked as [`regroup_diag_from`] says, a bare
/// `diagnostic` value is folded under `etat_actuel`, canonical keys pass
/// to top level, and anything else is folded into the diagnostic rather
/// than discarded.
pub open spec fn regroup_from(es: Seq<(Seq<u8>, JsonSpec)>, i: int, st: RegroupState)
    -> RegroupState
    decreases es.len() - i,
{
    if i < 0 || i >= es.len() {
        st
    } else {
        let k = es[i].0;
        let v = es[i].1;
        let st2 = if k == key_diagnostic() {
            match v {
                JsonSpec::Obj(des) => regroup_diag_from(des, 0, st),
                _ => RegroupState {
                    top: st.top,
                    diag: upsert(st.diag, key_etat(), v),
                    has_diag: true,
                },
            }
        } else if is_canonical_key(k) {
            RegroupState { top: upsert(st.top, k, v), diag: st.diag, has_diag: st.has_diag }
        } else {
            RegroupState { top: st.top, diag: upsert(st.diag, k, v), has_diag: true }
        };
        regroup_from(es, i + 1, st2)
    }
}

/// The strict typed reading of an object's entries as a structured
/// document: `diagnostic`, `actions_recommandees` and `risques` must be
/// present, `niveau_confiance` must be a number; `sql_suggere` and
/// `notes_complementaires` are optional, null counting as absent; unknown
/// keys are ignored.
pub open spec fn doc_of_obj(es: Seq<(Seq<u8>, JsonSpec)>) -> Option<DocSpec> {
    let d = lookup_last(es, key_diagnostic());
    let a = lookup_last(es, key_actions());
    let r = lookup_last(es, key_risques());
    let c = lookup_last(es, key_confiance());
    if d is Some && a is Some && r is Some && c matches Some(JsonSpec::Num(_)) {
        Some(
            DocSpec::Structured {
                diagnostic: d.unwrap(),
                actions: a.unwrap(),
                risks: r.unwrap(),
                sql: opt_nonnull(lookup_last(es, key_sql())),
                confidence: match c {
                    Some(JsonSpec::Num(t)) => t,
                    _ => Seq::empty(),
                },
                notes: opt_nonnull(lookup_last(es, key_notes())),
            },
        )
    } else {
        None
    }
}

/// The document denoted by a parsed JSON value: the strict structured
/// reading where it succeeds, else the value passed through raw.
pub open spec fn doc_of_json(j: JsonSpec) -> DocSpec {
    match j {
        JsonSpec::Obj(es) => match doc_of_obj(es) {
            Some(d) => d,
            None => DocSpec::Raw(j),
        },
        _ => DocSpec::Raw(j),
    }
}

/// The tolerant typed reading used after regrouping a raw object:
/// `diagnostic` must be present and `niveau_confiance` a number, while an
/// absent `actions_recommandees` or `risques` defaults to the empty array
/// — hoisting has already moved those sections where they belong, and a
/// repaired document is not discarded for lacking one of them. Null
/// optionals count as absent; unknown keys are ignored.
pub open spec fn doc_of_obj_defaulted(es: Seq<(Seq<u8>, JsonSpec)>) -> Option<DocSpec> {
    let d = lookup_last(es, key_diagnostic());
    let c = lookup_last(es, key_confiance());
    if d is Some && c matches Some(JsonSpec::Num(_)) {
        Some(
            DocSpec::Structured {
                diagnostic: d.unwrap(),
                actions: match lookup_last(es, key_actions()) {
                    Some(v) => v,
                    None => JsonSpec::Arr(Seq::empty()),
                },
                risks: match lookup_last(es, key_risques()) {
                    Some(v) => v,
                    None => JsonSpec::Arr(Seq::empty()),
                },
                sql: opt_nonnull(lookup_last(es, key_sql())),
                confidence: match c {
                    Some(JsonSpec::Num(t)) => t,
                    _ => Seq::empty(),
                },
                notes: opt_nonnull(lookup_last(es, key_notes())),
            },
        )
    } else {
        None
    }
}

/// The top-level entries a raw object is regrouped into: its entries
/// walked as [`regroup_from`] says, with the synthesized diagnostic added
/// under its key where anything was folded into it.
pub open spec fn regrouped_top(es: Seq<(Seq<u8>, JsonSpec)>) -> Seq<(Seq<u8>, JsonSpec)> {
    let st = regroup_from(
        es,
        0,
        RegroupState { top: Seq::empty(), diag: Seq::empty(), has_diag: false },
    );
    if st.has_diag {
        upsert(st.top, key_diagnostic(), JsonSpec::Obj(st.diag))
    } else {
        st.top
    }
}

/// The restructured form of any document. A structured one is repaired as
/// [`restructure_structured`] says. A raw object is regrouped, read
/// strictly, and repaired; where the strict reading fails, the raw value
/// is returned unchanged. A raw non-object is returned unchanged.
pub open spec fn restructure_spec(d: DocSpec) -> DocSpec {
    match d {
        DocSpec::Structured { diagnostic, actions, risks, sql, confidence, notes } =>
            restructure_structured(
            diagnostic,
            actions,
            risks,
            sql,
            confidence,
            notes,
        ),
        DocSpec::Raw(v) => match v {
            JsonSpec::Obj(es) => {
                match doc_of_obj_defaulted(regrouped_top(es)) {
                    Some(
                        DocSpec::Structured { diagnostic, actions, risks, sql, confidence, notes },
                    ) => restructure_structured(diagnostic, actions, risks, sql, confidence, notes),
                    _ => DocSpec::Raw(v),
                }
            },
            _ => DocSpec::Raw(v),
        },
    }
}

/// An optional value with null counting as absent.
fn nonnull_opt(o: Option<JsonValue>) -> (r: Option<JsonValue>)
    ensures
        view_opt_val(r) == opt_nonnull(view_opt_val(o)),
{
    match o {
        Some(JsonValue::Null) => None,
        other => other,
    }
}

/// Partitions a nested diagnostic's entries: the kept entries in order,
/// and the last value under each hoisted key, null included.
fn partition_diagnostic(entries: &Vec<(Vec<u8>, JsonValue)>) -> (r: (
    Vec<(Vec<u8>, JsonValue)>,
    Option<JsonValue>,
    Option<JsonValue>,
    Option<JsonValue>,
))
    ensures
        entry_views(r.0@) == kept_entries_from(entry_views(entries@), 0),
        view_opt_val(r.1) == lookup_last(entry_views(entries@), key_actions()),
        view_opt_val(r.2) == lookup_last(entry_views(entries@), key_risques()),
        view_opt_val(r.3) == lookup_last(entry_views(entries@), key_sql()),
{
    let ghost ev = entry_views(entries@);
    let mut kept: Vec<(Vec<u8>, JsonValue)> = Vec::new();
    let mut ex_act: Option<JsonValue> = None;
    let mut ex_risk: Option<JsonValue> = None;
    let mut ex_sql: Option<JsonValue> = None;
    let mut i: usize = 0;
    while i < entries.len()
        invariant
            0 <= i <= entries@.len(),
            ev == entry_views(entries@),
            entry_views(kept@) + kept_entries_from(ev, i as int) == kept_entries_from(ev, 0),
            view_opt_val(ex_act) == lookup_before(ev, key_actions(), i as int),
            view_opt_val(ex_risk) == lookup_before(ev, key_risques(), i as int),
            view_opt_val(ex_sql) == lookup_before(ev, key_sql(), i as int),
        decreases entries@.len() - i,
    {
        let key = entries[i].0.as_slice();
        let is_act = bytes_eq(key, "actions_recommandees".as_bytes());
        let is_risk = bytes_eq(key, "risques".as_bytes());
        let is_sql = bytes_eq(key, "sql_suggere".as_bytes());
        if is_act {
            ex_act = Some(clone_value(&entries[i].1));
        }
        if is_risk {
            ex_risk = Some(clone_value(&entries[i].1));
        }
        if is_sql {
            ex_sql = Some(clone_value(&entries[i].1));
        }
        if !is_act && !is_risk && !is_sql {
            kept.push((clone_bytes(&entries[i].0), clone_value(&entries[i].1)));
        }
        i = i + 1;
        proof {
            assert(entry_views(kept@) + kept_entries_from(ev, i as int) =~~= kept_entries_from(
                ev,
                0,
            ));
        }
    }
    proof {
        assert(entry_views(kept@) =~~= kept_entries_from(ev, 0));
    }
    (kept, ex_act, ex_risk, ex_sql)
}

/// Repairs a structured document, as [`restructure_structured`] says.
fn repair_structured(
    diagnostic: JsonValue,
    actions: JsonValue,
    risques: JsonValue,
    sql: Option<JsonValue>,
    confidence: Vec<u8>,
    notes: Option<JsonValue>,
) -> (r: DbAdvisorResponse)
    ensures
        r@ == restructure_structured(
            diagnostic@,
            actions@,
            risques@,
            view_opt_val(sql),
            confidence@,
            view_opt_val(notes),
        ),
{
    match &diagnostic {
        JsonValue::Obj(entries) => {
            proof {
                lemma_obj_view(*entries);
            }
            let (kept, ex_a, ex_r, ex_s) = partition_diagnostic(entries);
            let ex_a = nonnull_opt(ex_a);
            let ex_r = nonnull_opt(ex_r);
            let ex_s = nonnull_opt(ex_s);
            let diag2 = if kept.len() == 0 {
                diagnostic
            } else {
                let d = JsonValue::Obj(kept);
                proof {
                    assert(d@ matches JsonSpec::Obj(ks) && ks =~~= kept_entries_from(
                        (diagnostic@)->Obj_0,
                        0,
                    ));
                }
                d
            };
            let final_act = match ex_a {
                Some(v) => v,
                None => {
                    match actions {
                        JsonValue::Null => empty_array(),
                        other => other,
                    }
                },
            };
            let final_risk = match ex_r {
                Some(v) => v,
                None => {
                    match risques {
                        JsonValue::Null => empty_array(),
                        other => other,
                    }
                },
            };
            let final_sql = match ex_s {
                Some(v) => Some(v),
                None => nonnull_opt(sql),
            };
            DbAdvisorResponse::Structured {
                diagnostic: diag2,
                actions_recommandees: final_act,
                risques: final_risk,
                sql_suggere: final_sql,
                niveau_confiance: confidence,
                notes_complementaires: notes,
            }
        },
        _ => {
            let final_act = match actions {
                JsonValue::Null => empty_array(),
                other => other,
            };
            let final_risk = match risques {
                JsonValue::Null => empty_array(),
                other => other,
            };
            DbAdvisorResponse::Structured {
                diagnostic,
                actions_recommandees: final_act,
                risques: final_risk,
                sql_suggere: nonnull_opt(sql),
                niveau_confiance: confidence,
                notes_complementaires: notes,
            }
        },
    }
}

/// A fresh empty JSON array.
fn empty_array() -> (r: JsonValue)
    ensures
        r@ == JsonSpec::Arr(Seq::empty()),
{
    let r = JsonValue::Arr(Vec::new());
    proof {
        assert(r@ matches JsonSpec::Arr(a) && a =~= Seq::<JsonSpec>::empty());
    }
    r
}

/// Whether `k` is one of the hoisted keys, as [`is_hoisted_key`] says.
fn is_hoisted(k: &[u8]) -> (r: bool)
    ensures
        r == is_hoisted_key(k@),
{
    bytes_eq(k, "actions_recommandees".as_bytes()) || bytes_eq(k, "risques".as_bytes())
        || bytes_eq(k, "sql_suggere".as_bytes())
}

/// Whether `k` is one of the canonical top-level keys, as
/// [`is_canonical_key`] says.
fn is_canonical(k: &[u8]) -> (r: bool)
    ensures
        r == is_canonical_key(k@),
{
    is_hoisted(k) || bytes_eq(k, "niveau_confiance".as_bytes()) || bytes_eq(
        k,
        "notes_complementaires".as_bytes(),
    )
}

/// Inserts `(key, val)`, as [`upsert`] says: the first entry bearing the
/// key is replaced, else the pair is appended.
fn upsert_entry(entries: &mut Vec<(Vec<u8>, JsonValue)>, key: Vec<u8>, val: JsonValue)
    ensures
        entry_views(final(entries)@) == upsert(entry_views(old(entries)@), key@, val@),
{
    let ghost ev = entry_views(old(entries)@);
    let mut i: usize = 0;
    while i < entries.len()
        invariant
            0 <= i <= entries@.len(),
            entries@ == old(entries)@,
            ev == entry_views(old(entries)@),
            first_key_from(ev, key@, 0) == first_key_from(ev, key@, i as int),
        decreases entries@.len() - i,
    {
        if bytes_eq(entries[i].0.as_slice(), key.as_slice()) {
            entries.set(i, (key, val));
            proof {
                assert(entry_views(entries@) =~~= upsert(ev, key@, val@));
            }
            return ;
        }
        i = i + 1;
    }
    entries.push((key, val));
    proof {
        assert(entry_views(entries@) =~~= upsert(ev, key@, val@));
    }
}

/// Folds a nested diagnostic object's entries into the regrouping state,
/// as [`regroup_diag_from`] says.
fn regroup_diag(
    des: &Vec<(Vec<u8>, JsonValue)>,
    top: &mut Vec<(Vec<u8>, JsonValue)>,
    diag: &mut Vec<(Vec<u8>, JsonValue)>,
    has_diag: &mut bool,
)
    ensures
        (RegroupState {
            top: entry_views(final(top)@),
            diag: entry_views(final(diag)@),
            has_diag: *final(has_diag),
        }) == regroup_diag_from(
            entry_views(des@),
            0,
            RegroupState {
                top: entry_views(old(top)@),
                diag: entry_views(old(diag)@),
                has_diag: *old(has_diag),
            },
        ),
{
    let ghost dv = entry_views(des@);
    let ghost init = RegroupState {
        top: entry_views(top@),
        diag: entry_views(diag@),
        has_diag: *has_diag,
    };
    let mut j: usize = 0;
    while j < des.len()
        invariant
            0 <= j <= des@.len(),
            dv == entry_views(des@),
            regroup_diag_from(
                dv,
                j as int,
                RegroupState {
                    top: entry_views(top@),
                    diag: entry_views(diag@),
                    has_diag: *has_diag,
                },
            ) == regroup_diag_from(dv, 0, init),
        decreases des@.len() - j,
    {
        let k = clone_bytes(&des[j].0);
        let v = clone_value(&des[j].1);
        if is_hoisted(k.as_slice()) {
            upsert_entry(top, k, v);
        } else {
            upsert_entry(diag, k, v);
            *has_diag = true;
        }
        j = j + 1;
    }
}

/// Reads an object's entries strictly as a structured document, as
/// [`doc_of_obj`] says.
fn decode_structured(entries: &Vec<(Vec<u8>, JsonValue)>) -> (r: Option<DbAdvisorResponse>)
    ensures
        match r {
            Some(doc) => doc_of_obj(entry_views(entries@)) == Some(doc@) && doc is Structured,
            None => doc_of_obj(entry_views(entries@)) is None,
        },
{
    let d = match lookup_key(entries, "diagnostic".as_bytes()) {
        Some(x) => clone_value(x),
        None => {
            return None;
        },
    };
    let a = match lookup_key(entries, "actions_recommandees".as_bytes()) {
        Some(x) => clone_value(x),
        None => {
            return None;
        },
    };
    let rk = match lookup_key(entries, "risques".as_bytes()) {
        Some(x) => clone_value(x),
        None => {
            return None;
        },
    };
    let c: Vec<u8> = match lookup_key(entries, "niveau_confiance".as_bytes()) {
        Some(JsonValue::Num(t)) => clone_bytes(t),
        _ => {
            return None;
        },
    };
    let sql = match lookup_key(entries, "sql_suggere".as_bytes()) {
        Some(x) => nonnull_opt(Some(clone_value(x))),
        None => None,
    };
    let notes = match lookup_key(entries, "notes_complementaires".as_bytes()) {
        Some(x) => nonnull_opt(Some(clone_value(x))),
        None => None,
    };
    Some(
        DbAdvisorResponse::Structured {
            diagnostic: d,
            actions_recommandees: a,
            risques: rk,
            sql_suggere: sql,
            niveau_confiance: c,
            notes_complementaires: notes,
        },
    )
}

/// Reads an object's entries tolerantly after regrouping, as
/// [`doc_of_obj_defaulted`] says.
fn decode_structured_defaulted(entries: &Vec<(Vec<u8>, JsonValue)>) -> (r: Option<
    DbAdvisorResponse,
>)
    ensures
        match r {
            Some(doc) => doc_of_obj_defaulted(entry_views(entries@)) == Some(doc@) && doc
                is Structured,
            None => doc_of_obj_defaulted(entry_views(entries@)) is None,
        },
{
    let d = match lookup_key(entries, "diagnostic".as_bytes()) {
        Some(x) => clone_value(x),
        None => {
            return None;
        },
    };
    let c: Vec<u8> = match lookup_key(entries, "niveau_confiance".as_bytes()) {
        Some(JsonValue::Num(t)) => clone_bytes(t),
        _ => {
            return None;
        },
    };
    let a = match lookup_key(entries, "actions_recommandees".as_bytes()) {
        Some(x) => clone_value(x),
        None => empty_array(),
    };
    let rk = match lookup_key(entries, "risques".as_bytes()) {
        Some(x) => clone_value(x),
        None => empty_array(),
    };
    let sql = match lookup_key(entries, "sql_suggere".as_bytes()) {
        Some(x) => nonnull_opt(Some(clone_value(x))),
        None => None,
    };
    let notes = match lookup_key(entries, "notes_complementaires".as_bytes()) {
        Some(x) => nonnull_opt(Some(clone_value(x))),
        None => None,
    };
    Some(
        DbAdvisorResponse::Structured {
            diagnostic: d,
            actions_recommandees: a,
            risques: rk,
            sql_suggere: sql,
            niveau_confiance: c,
            notes_complementaires: notes,
        },
    )
}

/// Reads a parsed JSON value as a document: the strict structured reading
/// where it succeeds, else the value passed through raw.
pub fn document_of(v: JsonValue) -> (r: DbAdvisorResponse)
    ensures
        r@ == doc_of_json(v@),
{
    match &v {
        JsonValue::Obj(entries) => {
            proof {
                lemma_obj_view(*entries);
            }
            match decode_structured(entries) {
                Some(doc) => doc,
                None => DbAdvisorResponse::Raw(v),
            }
        },
        _ => DbAdvisorResponse::Raw(v),
    }
}

impl crate::advisor::DbAdvisor {
    /// Repairs a document so that no section stays nested under the
    /// diagnostic, as [`restructure_spec`] says: hoisted sections move to
    /// top level with the nested value winning, a raw object is regrouped
    /// and re-read, and a raw value that still has no structured reading
    /// is returned unchanged.
    pub fn clean_and_restructure_response(response: DbAdvisorResponse) -> (r: DbAdvisorResponse)
        ensures
            r@ == restructure_spec(response@),
    {
        match response {
            DbAdvisorResponse::Structured {
                diagnostic,
                actions_recommandees,
                risques,
                sql_suggere,
                niveau_confiance,
                notes_complementaires,
            } => repair_structured(
                diagnostic,
                actions_recommandees,
                risques,
                sql_suggere,
                niveau_confiance,
                notes_complementaires,
            ),
            DbAdvisorResponse::Raw(v) => {
                match &v {
                    JsonValue::Obj(entries) => {
                        proof {
                            lemma_obj_view(*entries);
                        }
                        let top = regroup_raw(entries);
                        match decode_structured_defaulted(&top) {
                            Some(doc) => {
                                match doc {
                                    DbAdvisorResponse::Structured {
                                        diagnostic,
                                        actions_recommandees,
                                        risques,
                                        sql_suggere,
                                        niveau_confiance,
                                        notes_complementaires,
                                    } => repair_structured(
                                        diagnostic,
                                        actions_recommandees,
                                        risques,
                                        sql_suggere,
                                        niveau_confiance,
                                        notes_complementaires,
                                    ),
                                    DbAdvisorResponse::Raw(_) => {
                                        proof {
                                            assert(false);
                                        }
                                        DbAdvisorResponse::Raw(v)
                                    },
                                }
                            },
                            None => DbAdvisorResponse::Raw(v),
                        }
                    },
                    _ => DbAdvisorResponse::Raw(v),
                }
            },
        }
    }
}

/// Regroups a raw object's entries, as [`regrouped_top`] says: canonical
/// keys to top level, a nested diagnostic walked entry by entry, anything
/// else folded into a synthesized diagnostic rather than discarded.
fn regroup_raw(entries: &Vec<(Vec<u8>, JsonValue)>) -> (r: Vec<(Vec<u8>, JsonValue)>)
    ensures
        entry_views(r@) == regrouped_top(entry_views(entries@)),
{
    let ghost ev = entry_views(entries@);
    let mut top: Vec<(Vec<u8>, JsonValue)> = Vec::new();
    let mut diag: Vec<(Vec<u8>, JsonValue)> = Vec::new();
    let mut has_diag = false;
    let ghost init = RegroupState {
        top: entry_views(top@),
        diag: entry_views(diag@),
        has_diag: false,
    };
    proof {
        assert(init =~~= RegroupState {
            top: Seq::<(Seq<u8>, JsonSpec)>::empty(),
            diag: Seq::<(Seq<u8>, JsonSpec)>::empty(),
            has_diag: false,
        });
    }
    let mut i: usize = 0;
    while i < entries.len()
        invariant
            0 <= i <= entries@.len(),
            ev == entry_views(entries@),
            regroup_from(
                ev,
                i as int,
                RegroupState { top: entry_views(top@), diag: entry_views(diag@), has_diag },
            ) == regroup_from(ev, 0, init),
        decreases entries@.len() - i,
    {
        let ghost cur0 = RegroupState {
            top: entry_views(top@),
            diag: entry_views(diag@),
            has_diag,
        };
        proof {
            assert(ev[i as int] == (entries@[i as int].0@, entries@[i as int].1@));
        }
        let key = entries[i].0.as_slice();
        if bytes_eq(key, "diagnostic".as_bytes()) {
            match &entries[i].1 {
                JsonValue::Obj(des) => {
                    proof {
                        lemma_obj_view(*des);
                    }
                    regroup_diag(des, &mut top, &mut diag, &mut has_diag);
                },
                _ => {
                    let ks = "etat_actuel".as_bytes();
                    let kv = copy_range(ks, 0, ks.len());
                    proof {
                        assert(kv@ =~= key_etat());
                    }
                    upsert_entry(&mut diag, kv, clone_value(&entries[i].1));
                    has_diag = true;
                },
            }
        } else if is_canonical(key) {
            upsert_entry(&mut top, clone_bytes(&entries[i].0), clone_value(&entries[i].1));
        } else {
            upsert_entry(&mut diag, clone_bytes(&entries[i].0), clone_value(&entries[i].1));
            has_diag = true;
        }
        proof {
            assert(regroup_from(
                ev,
                i + 1,
                RegroupState { top: entry_views(top@), diag: entry_views(diag@), has_diag },
            ) == regroup_from(ev, i as int, cur0));
        }
        i = i + 1;
    }
    proof {
        assert((RegroupState { top: entry_views(top@), diag: entry_views(diag@), has_diag })
            == regroup_from(ev, 0, init));
    }
    if has_diag {
        proof {
            lemma_obj_view(diag);
        }
        let dval = JsonValue::Obj(diag);
        let ks = "diagnostic".as_bytes();
        let kv = copy_range(ks, 0, ks.len());
        proof {
            assert(kv@ =~= key_diagnostic());
        }
        upsert_entry(&mut top, kv, dval);
    }
    top
}

/// The note opening the fallback document's diagnostic.
pub open spec fn fallback_note() -> Seq<u8> {
    "Erreur de parsing JSON. Texte reçu: ".spec_bytes()
}

/// The nearest UTF-8 character boundary in `t` at or before `p`: a cut at
/// `p` is on a boundary exactly when the byte at `p` is no continuation
/// byte, so the cut moves left past continuation bytes.
pub open spec fn char_boundary_at(t: Seq<u8>, p: int) -> int
    decreases p,
{
    if 0 < p < t.len() && 128 <= t[p] < 192 {
        char_boundary_at(t, p - 1)
    } else {
        p
    }
}

/// The bounded prefix of the raw text that the fallback document embeds:
/// at most `FALLBACK_PREVIEW_BYTES` bytes, cut on a character boundary.
pub open spec fn bounded_preview(t: Seq<u8>) -> Seq<u8> {
    if t.len() <= FALLBACK_PREVIEW_BYTES {
        t
    } else {
        t.subrange(0, char_boundary_at(t, FALLBACK_PREVIEW_BYTES as int))
    }
}

/// The document the fallback synthesizer produces for raw text `t`: a
/// readable diagnostic embedding a bounded prefix of `t`, both sections
/// empty, no suggested queries, no notes, and confidence exactly zero —
/// distinct from any model-reported confidence.
pub open spec fn fallback_doc(t: Seq<u8>) -> DocSpec {
    DocSpec::Structured {
        diagnostic: JsonSpec::Str(fallback_note() + bounded_preview(t)),
        actions: JsonSpec::Arr(Seq::empty()),
        risks: JsonSpec::Arr(Seq::empty()),
        sql: None,
        confidence: "0.0".spec_bytes(),
        notes: None,
    }
}

/// Synthesizes the fallback document for text from which nothing could be
/// recovered, as [`fallback_doc`] says. It never fails.
pub fn fallback_response(text: &[u8]) -> (r: DbAdvisorResponse)
    ensures
        r@ == fallback_doc(text@),
{
    let mut d: Vec<u8> = Vec::new();
    d.extend_from_slice("Erreur de parsing JSON. Texte reçu: ".as_bytes());
    if text.len() <= FALLBACK_PREVIEW_BYTES {
        d.extend_from_slice(text);
        proof {
            assert(d@ =~= fallback_note() + bounded_preview(text@));
        }
    } else {
        let mut hi: usize = FALLBACK_PREVIEW_BYTES;
        while hi > 0 && 128 <= text[hi] && text[hi] < 192
            invariant
                0 <= hi <= FALLBACK_PREVIEW_BYTES < text@.len(),
                char_boundary_at(text@, FALLBACK_PREVIEW_BYTES as int) == char_boundary_at(
                    text@,
                    hi as int,
                ),
            decreases hi,
        {
            hi = hi - 1;
        }
        let p = copy_range(text, 0, hi);
        d.extend_from_slice(p.as_slice());
        proof {
            assert(d@ =~= fallback_note() + bounded_preview(text@));
        }
    }
    DbAdvisorResponse::Structured {
        diagnostic: JsonValue::Str(d),
        actions_recommandees: empty_array(),
        risques: empty_array(),
        sql_suggere: None,
        niveau_confiance: crate::text::to_vec_bytes("0.0".as_bytes()),
        notes_complementaires: None,
    }
}

/// The flat JSON object exposing a document to callers: the structured
/// fields merged at top level, the optional ones only where present; a raw
/// document passes through verbatim. A pure projection, with no further
/// repair.
pub open spec fn flattened(d: DocSpec) -> JsonSpec {
    match d {
        DocSpec::Structured { diagnostic, actions, risks, sql, confidence, notes } => JsonSpec::Obj(
            seq![
                (key_diagnostic(), diagnostic),
                (key_actions(), actions),
                (key_risques(), risks),
                (key_confiance(), JsonSpec::Num(confidence)),
            ] + (match sql {
                Some(v) => seq![(key_sql(), v)],
                None => Seq::empty(),
            }) + (match notes {
                Some(v) => seq![(key_notes(), v)],
                None => Seq::empty(),
            }),
        ),
        DocSpec::Raw(v) => v,
    }
}

/// Projects a document onto the flat JSON value handed to callers, as
/// [`flattened`] says.
pub fn flatten_response(d: DbAdvisorResponse) -> (r: JsonValue)
    ensures
        r@ == flattened(d@),
{
    match d {
        DbAdvisorResponse::Structured {
            diagnostic,
            actions_recommandees,
            risques,
            sql_suggere,
            niveau_confiance,
            notes_complementaires,
        } => {
            let mut entries: Vec<(Vec<u8>, JsonValue)> = Vec::new();
            entries.push((crate::text::to_vec_bytes("diagnostic".as_bytes()), diagnostic));
            entries.push(
                (crate::text::to_vec_bytes("actions_recommandees".as_bytes()), actions_recommandees),
            );
            entries.push((crate::text::to_vec_bytes("risques".as_bytes()), risques));
            entries.push(
                (
                    crate::text::to_vec_bytes("niveau_confiance".as_bytes()),
                    JsonValue::Num(niveau_confiance),
                ),
            );
            match sql_suggere {
                Some(v) => {
                    entries.push((crate::text::to_vec_bytes("sql_suggere".as_bytes()), v));
                },
                None => {},
            }
            match notes_complementaires {
                Some(v) => {
                    entries.push((crate::text::to_vec_bytes("notes_complementaires".as_bytes()), v));
                },
                None => {},
            }
            proof {
                lemma_obj_view(entries);
            }
            let r = JsonValue::Obj(entries);
            proof {
                assert(r@ matches JsonSpec::Obj(rs) && rs =~~= (flattened(d@))->Obj_0);
            }
            r
        },
        DbAdvisorResponse::Raw(v) => v,
    }
}

/// Serializes a document's flat projection, as callers receive it.
pub fn response_to_json(d: DbAdvisorResponse) -> (r: Vec<u8>)
    ensures
        r@ == json_bytes(flattened(d@)),
{
    let v = flatten_response(d);
    json_to_bytes(&v)
}

/// The confidence reported for a document: its own level for a structured
/// one, one half for a raw one.
pub open spec fn confidence_text(d: DocSpec) -> Seq<u8> {
    match d {
        DocSpec::Structured { confidence, .. } => confidence,
        DocSpec::Raw(_) => "0.5".spec_bytes(),
    }
}

/// The confidence a document reports, as [`confidence_text`] says.
pub fn confidence_of(d: &DbAdvisorResponse) -> (r: Vec<u8>)
    ensures
        r@ == confidence_text(d@),
{
    match d {
        DbAdvisorResponse::Structured { niveau_confiance, .. } => clone_bytes(niveau_confiance),
        DbAdvisorResponse::Raw(_) => crate::text::to_vec_bytes("0.5".as_bytes()),
    }
}

/// Whether a document carries suggested queries.
pub fn has_suggested_sql(d: &DbAdvisorResponse) -> (r: bool)
    ensures
        r == (d@ matches DocSpec::Structured { sql, .. } && sql is Some),
{
    match d {
        DbAdvisorResponse::Structured { sql_suggere: Some(_), .. } => true,
        _ => false,
    }
}

/// Every entry the restructurer keeps inside the diagnostic bears a key
/// that is not hoisted.
proof fn lemma_kept_not_hoisted(es: Seq<(Seq<u8>, JsonSpec)>, i: int)
    ensures
        forall|j: int|
            0 <= j < kept_entries_from(es, i).len() ==> !is_hoisted_key(
                #[trigger] kept_entries_from(es, i)[j].0,
            ),
    decreases es.len() - i,
{
    if 0 <= i < es.len() {
        lemma_kept_not_hoisted(es, i + 1);
        let pre = if !is_hoisted_key(es[i].0) {
            seq![es[i]]
        } else {
            Seq::<(Seq<u8>, JsonSpec)>::empty()
        };
        assert forall|j: int| 0 <= j < kept_entries_from(es, i).len() implies !is_hoisted_key(
            kept_entries_from(es, i)[j].0,
        ) by {
            if j < pre.len() {
                assert(kept_entries_from(es, i)[j] == pre[j]);
            } else {
                assert(kept_entries_from(es, i)[j] == kept_entries_from(es, i + 1)[j - pre.len()]);
            }
        };
    }
}

/// Entries that are all non-hoisted are kept whole.
proof fn lemma_kept_of_clean(ls: Seq<(Seq<u8>, JsonSpec)>, i: int)
    requires
        0 <= i <= ls.len(),
        forall|j: int| 0 <= j < ls.len() ==> !is_hoisted_key(#[trigger] ls[j].0),
    ensures
        kept_entries_from(ls, i) == ls.subrange(i, ls.len() as int),
    decreases ls.len() - i,
{
    if i < ls.len() {
        lemma_kept_of_clean(ls, i + 1);
        assert(kept_entries_from(ls, i) =~~= ls.subrange(i, ls.len() as int));
    } else {
        assert(kept_entries_from(ls, i) =~~= ls.subrange(i, ls.len() as int));
    }
}

/// Where no entry bears `k`, the lookup finds nothing.
proof fn lemma_lookup_absent(ls: Seq<(Seq<u8>, JsonSpec)>, k: Seq<u8>, j: int)
    requires
        j <= ls.len(),
        forall|m: int| 0 <= m < ls.len() ==> (#[trigger] ls[m].0) != k,
    ensures
        lookup_before(ls, k, j) is None,
    decreases j,
{
    if 0 < j <= ls.len() {
        lemma_lookup_absent(ls, k, j - 1);
    }
}

/// The restructurer's output is a fixed point: applying it to its own
/// output returns that output unchanged, bit for bit. Hoisting is keyed on
/// the canonical names alone, and a second pass finds no further nested
/// occurrence.
pub proof fn lemma_restructure_structured_stable(
    diagnostic: JsonSpec,
    actions: JsonSpec,
    risks: JsonSpec,
    sql: Option<JsonSpec>,
    confidence: Seq<u8>,
    notes: Option<JsonSpec>,
)
    ensures
        restructure_spec(restructure_structured(diagnostic, actions, risks, sql, confidence, notes))
            == restructure_structured(diagnostic, actions, risks, sql, confidence, notes),
{
    let d1 = restructure_structured(diagnostic, actions, risks, sql, confidence, notes);
    match diagnostic {
        JsonSpec::Obj(es) => {
            let kept = kept_entries_from(es, 0);
            lemma_kept_not_hoisted(es, 0);
            if kept.len() == 0 {
                assert(restructure_spec(d1) =~~= d1);
            } else {
                lemma_kept_of_clean(kept, 0);
                assert(kept.subrange(0, kept.len() as int) =~= kept);
                assert(forall|m: int|
                    0 <= m < kept.len() ==> (#[trigger] kept[m].0) != key_actions());
                assert(forall|m: int|
                    0 <= m < kept.len() ==> (#[trigger] kept[m].0) != key_risques());
                assert(forall|m: int| 0 <= m < kept.len() ==> (#[trigger] kept[m].0) != key_sql());
                lemma_lookup_absent(kept, key_actions(), kept.len() as int);
                lemma_lookup_absent(kept, key_risques(), kept.len() as int);
                lemma_lookup_absent(kept, key_sql(), kept.len() as int);
                assert(restructure_spec(d1) =~~= d1);
            }
        },
        _ => {
            assert(restructure_spec(d1) =~~= d1);
        },
    }
}

/// Restructuring is idempotent: for any document `d`,
/// `restructure(restructure(d))` equals `restructure(d)` exactly.
pub proof fn lemma_restructure_idempotent(d: DocSpec)
    ensures
        restructure_spec(restructure_spec(d)) == restructure_spec(d),
{
    match d {
        DocSpec::Structured { diagnostic, actions, risks, sql, confidence, notes } => {
            lemma_restructure_structured_stable(diagnostic, actions, risks, sql, confidence, notes);
        },
        DocSpec::Raw(v) => {
            match v {
                JsonSpec::Obj(es) => {
                    match doc_of_obj_defaulted(regrouped_top(es)) {
                        Some(
                            DocSpec::Structured {
                                diagnostic,
                                actions,
                                risks,
                                sql,
                                confidence,
                                notes,
                            },
                        ) => {
                            lemma_restructure_structured_stable(
                                diagnostic,
                                actions,
                                risks,
                                sql,
                                confidence,
                                notes,
                            );
                        },
                        _ => {},
                    }
                },
                _ => {},
            }
        },
    }
}

/// Hoisting precedence: where the diagnostic object nests a non-null
/// section under a hoisted key, the restructured document carries that
/// nested value in the corresponding top-level field, whatever stood there
/// before — nested placement is the error being corrected, so the nested
/// content wins.
pub proof fn lemma_hoist_precedence(
    diagnostic: JsonSpec,
    actions: JsonSpec,
    risks: JsonSpec,
    sql: Option<JsonSpec>,
    confidence: Seq<u8>,
    notes: Option<JsonSpec>,
)
    requires
        diagnostic is Obj,
    ensures
        restructure_structured(diagnostic, actions, risks, sql, confidence, notes) matches
            DocSpec::Structured { actions: a2, risks: r2, sql: s2, .. } && {
            &&& (extracted(diagnostic->Obj_0, key_risques()) matches Some(v) ==> r2 == v)
            &&& (extracted(diagnostic->Obj_0, key_actions()) matches Some(v) ==> a2 == v)
            &&& (extracted(diagnostic->Obj_0, key_sql()) matches Some(v) ==> s2 == Some(v))
        },
{
}

/// The structured invariant: once repaired, the diagnostic contains none
/// of the hoisted keys — except in the one documented case where hoisting
/// emptied it and the original value is kept in its place.
pub proof fn lemma_no_nested_sections(
    diagnostic: JsonSpec,
    actions: JsonSpec,
    risks: JsonSpec,
    sql: Option<JsonSpec>,
    confidence: Seq<u8>,
    notes: Option<JsonSpec>,
)
    requires
        diagnostic matches JsonSpec::Obj(es) && kept_entries_from(es, 0).len() > 0,
    ensures
        restructure_structured(diagnostic, actions, risks, sql, confidence, notes) matches
            DocSpec::Structured { diagnostic: d2, .. } && d2 matches JsonSpec::Obj(es2) && forall|
            j: int,
        | 0 <= j < es2.len() ==> !is_hoisted_key(#[trigger] es2[j].0),
{
    match diagnostic {
        JsonSpec::Obj(es) => {
            lemma_kept_not_hoisted(es, 0);
        },
        _ => {},
    }
}

} // verus!
