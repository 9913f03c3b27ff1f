use db_advisor::advisor::DbAdvisor;
use db_advisor::document::DbAdvisorResponse;
use db_advisor::document::confidence_of;
use db_advisor::document::fallback_response;
use db_advisor::document::has_suggested_sql;
use db_advisor::document::response_to_json;
use db_advisor::json::JsonValue;

#[test]
fn prose_fences_and_misplaced_sections_recover_end_to_end() {
    let text = "Diagnostic\n```json\n{\"diagnostic\":{\"etat\":\"ok\",\"risques\":[{\"risque\":\"r1\"}]},\"niveau_confiance\":0.7}\n```";
    match DbAdvisor::recover_response(text.as_bytes()) {
        DbAdvisorResponse::Structured {
            diagnostic,
            actions_recommandees,
            risques,
            sql_suggere,
            niveau_confiance,
            notes_complementaires,
        } => {
            assert_eq!(
                diagnostic,
                JsonValue::Obj(vec![(b"etat".to_vec(), JsonValue::Str(b"ok".to_vec()))])
            );
            assert_eq!(
                risques,
                JsonValue::Arr(vec![JsonValue::Obj(vec![(
                    b"risque".to_vec(),
                    JsonValue::Str(b"r1".to_vec()),
                )])])
            );
            assert_eq!(actions_recommandees, JsonValue::Arr(vec![]));
            assert_eq!(niveau_confiance, b"0.7".to_vec());
            assert_eq!(sql_suggere, None);
            assert_eq!(notes_complementaires, None);
        },
        DbAdvisorResponse::Raw(v) => panic!("expected a structured document, got raw {:?}", v),
    }
}

#[test]
fn plain_prose_degrades_to_the_fallback_document() {
    match DbAdvisor::recover_response(b"no json here") {
        DbAdvisorResponse::Structured {
            diagnostic,
            actions_recommandees,
            risques,
            sql_suggere,
            niveau_confiance,
            notes_complementaires,
        } => {
            assert_eq!(
                diagnostic,
                JsonValue::Str("Erreur de parsing JSON. Texte reçu: no json here".as_bytes().to_vec())
            );
            assert_eq!(actions_recommandees, JsonValue::Arr(vec![]));
            assert_eq!(risques, JsonValue::Arr(vec![]));
            assert_eq!(sql_suggere, None);
            assert_eq!(niveau_confiance, b"0.0".to_vec());
            assert_eq!(notes_complementaires, None);
        },
        DbAdvisorResponse::Raw(_) => panic!("the fallback document is structured"),
    }
}

#[test]
fn truncated_json_with_no_closing_brace_degrades_to_the_fallback() {
    match DbAdvisor::recover_response(b"{\"a\":1,\"b\":[1,2") {
        DbAdvisorResponse::Structured { niveau_confiance, .. } => {
            assert_eq!(niveau_confiance, b"0.0".to_vec());
        },
        DbAdvisorResponse::Raw(_) => panic!("the fallback document is structured"),
    }
}

#[test]
fn valid_non_object_json_passes_through_raw() {
    match DbAdvisor::recover_response(b"[1, 2]") {
        DbAdvisorResponse::Raw(v) => {
            assert_eq!(
                v,
                JsonValue::Arr(vec![
                    JsonValue::Num(b"1".to_vec()),
                    JsonValue::Num(b"2".to_vec()),
                ])
            );
        },
        DbAdvisorResponse::Structured { .. } => panic!("expected a raw document"),
    }
}

#[test]
fn fallback_preview_is_bounded_and_cuts_no_character() {
    let mut long = vec![b'x'; 499];
    long.extend_from_slice("é and much more text beyond the bound".as_bytes());
    match fallback_response(&long) {
        DbAdvisorResponse::Structured { diagnostic, .. } => match diagnostic {
            JsonValue::Str(s) => {
                let note = "Erreur de parsing JSON. Texte reçu: ".as_bytes();
                assert!(s.starts_with(note));
                // 500 bytes would split é; the preview stops before it
                assert_eq!(s.len(), note.len() + 499);
            },
            other => panic!("expected a string diagnostic, got {:?}", other),
        },
        DbAdvisorResponse::Raw(_) => panic!("the fallback document is structured"),
    }
}

#[test]
fn structured_document_flattens_to_one_json_object() {
    let text = "Diagnostic\n```json\n{\"diagnostic\":{\"etat\":\"ok\",\"risques\":[{\"risque\":\"r1\"}]},\"niveau_confiance\":0.7}\n```";
    let doc = DbAdvisor::recover_response(text.as_bytes());
    let json = response_to_json(doc);
    assert_eq!(
        json,
        b"{\"diagnostic\":{\"etat\":\"ok\"},\"actions_recommandees\":[],\"risques\":[{\"risque\":\"r1\"}],\"niveau_confiance\":0.7}".to_vec()
    );
}

#[test]
fn serializer_escapes_quotes_backslashes_and_controls() {
    let doc = DbAdvisorResponse::Raw(JsonValue::Str(b"a\"b\\c\nd\x01".to_vec()));
    assert_eq!(response_to_json(doc), b"\"a\\\"b\\\\c\\nd\\u0001\"".to_vec());
}

#[test]
fn confidence_defaults_to_one_half_for_raw_documents() {
    let raw = DbAdvisorResponse::Raw(JsonValue::Null);
    assert_eq!(confidence_of(&raw), b"0.5".to_vec());
    let doc = fallback_response(b"x");
    assert_eq!(confidence_of(&doc), b"0.0".to_vec());
    assert!(!has_suggested_sql(&doc));
}
