//! The response-recovery pipeline.
//!
//! Raw answer text flows sanitizer → extractor → parse → restructurer, and
//! every failure along the way degrades to the synthesized fallback
//! document: for every input the pipeline returns a document — `Structured`
//! or `Raw` — and surfaces no error for purely textual malformation.
use vstd::prelude::*;
use crate::advisor::DbAdvisor;
use crate::document::DbAdvisorResponse;
use crate::document::DocSpec;
use crate::document::doc_of_json;
use crate::document::document_of;
use crate::document::fallback_doc;
use crate::document::fallback_response;
use crate::document::restructure_spec;
use crate::extract::extract_spec;
use crate::parse::parse_json;
use crate::parse::parsed_json;

verus! {

/// The document recovered from text whose direct parse failed: the
/// extracted span is parsed and the resulting document restructured; where
/// no span can be extracted, or the span still is not JSON, the fallback
/// document is synthesized.
pub open spec fn parse_text_spec(t: Seq<u8>) -> DocSpec {
    match extract_spec(t) {
        Some(span) => match parsed_json(span) {
            Some(j) => restructure_spec(doc_of_json(j)),
            None => fallback_doc(t),
        },
        None => fallback_doc(t),
    }
}

/// The document the whole pipeline recovers from raw answer text: the text
/// parsed directly where it is valid JSON, otherwise recovered through
/// sanitizing and span extraction; the result is restructured, and the
/// fallback document stands in where nothing parses. Total: every text
/// yields a `Structured` or `Raw` document.
pub open spec fn recover_spec(t: Seq<u8>) -> DocSpec {
    match parsed_json(t) {
        Some(j) => restructure_spec(doc_of_json(j)),
        None => parse_text_spec(t),
    }
}

impl DbAdvisor {
    /// Recovers a document from text that is not directly valid JSON:
    /// extracts a JSON span from the sanitized text, parses it, and
    /// restructures the result; where nothing can be recovered, returns
    /// the synthesized fallback document. It never fails.
    pub fn parse_text_response(text: &[u8]) -> (r: DbAdvisorResponse)
        ensures
            r@ == parse_text_spec(text@),
    {
        match Self::extract_json_from_text(text) {
            Some(span) => {
                match parse_json(span.as_slice()) {
                    Some(v) => Self::clean_and_restructure_response(document_of(v)),
                    None => fallback_response(text),
                }
            },
            None => fallback_response(text),
        }
    }

    /// Recovers a document from raw answer text, as [`recover_spec`] says:
    /// direct parse first, then extraction from the sanitized text, then
    /// the synthesized fallback; the result is always restructured. It
    /// never fails: every input yields a document.
    pub fn recover_response(text: &[u8]) -> (r: DbAdvisorResponse)
        ensures
            r@ == recover_spec(text@),
    {
        match parse_json(text) {
            Some(v) => Self::clean_and_restructure_response(document_of(v)),
            None => Self::parse_text_response(text),
        }
    }
}

/// Every recovered document is already a fixed point of the restructurer:
/// whatever the pipeline returns, restructuring it again changes nothing.
/// The recovered document also respects the invariant the restructurer
/// establishes, since each path through the pipeline ends in the
/// restructurer or in the fallback document.
pub proof fn lemma_recovered_is_restructured(t: Seq<u8>)
    ensures
        restructure_spec(recover_spec(t)) == recover_spec(t),
{
    match parsed_json(t) {
        Some(j) => {
            crate::document::lemma_restructure_idempotent(doc_of_json(j));
        },
        None => {
            match extract_spec(t) {
                Some(span) => {
                    match parsed_json(span) {
                        Some(j) => {
                            crate::document::lemma_restructure_idempotent(doc_of_json(j));
                        },
                        None => {
                            lemma_fallback_stable(t);
                        },
                    }
                },
                None => {
                    lemma_fallback_stable(t);
                },
            }
        },
    }
}

/// The fallback document is a fixed point of the restructurer: its
/// diagnostic is a string, its sections are already in place.
pub proof fn lemma_fallback_stable(t: Seq<u8>)
    ensures
        restructure_spec(fallback_doc(t)) == fallback_doc(t),
{
    assert(restructure_spec(fallback_doc(t)) =~~= fallback_doc(t));
}

} // verus!
