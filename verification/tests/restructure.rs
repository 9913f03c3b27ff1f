use db_advisor::advisor::DbAdvisor;
use db_advisor::document::DbAdvisorResponse;
use db_advisor::json::JsonValue;

#[test]
fn nested_sections_are_hoisted_to_top_level() {
    let doc = DbAdvisorResponse::Structured {
        diagnostic: JsonValue::Obj(vec![
            (b"etat".to_vec(), JsonValue::Str(b"ok".to_vec())),
            (b"risques".to_vec(), JsonValue::Arr(vec![JsonValue::Str(b"X".to_vec())])),
        ]),
        actions_recommandees: JsonValue::Null,
        risques: JsonValue::Null,
        sql_suggere: None,
        niveau_confiance: b"0.9".to_vec(),
        notes_complementaires: None,
    };
    match DbAdvisor::clean_and_restructure_response(doc) {
        DbAdvisorResponse::Structured { diagnostic, actions_recommandees, risques, .. } => {
            assert_eq!(
                diagnostic,
                JsonValue::Obj(vec![(b"etat".to_vec(), JsonValue::Str(b"ok".to_vec()))])
            );
            assert_eq!(risques, JsonValue::Arr(vec![JsonValue::Str(b"X".to_vec())]));
            assert_eq!(actions_recommandees, JsonValue::Arr(vec![]));
        },
        DbAdvisorResponse::Raw(_) => panic!("expected a structured document"),
    }
}

#[test]
fn nested_value_wins_over_top_level_value() {
    let doc = DbAdvisorResponse::Structured {
        diagnostic: JsonValue::Obj(vec![(
            b"risques".to_vec(),
            JsonValue::Arr(vec![JsonValue::Str(b"X".to_vec())]),
        )]),
        actions_recommandees: JsonValue::Null,
        risques: JsonValue::Arr(vec![JsonValue::Str(b"Y".to_vec())]),
        sql_suggere: None,
        niveau_confiance: b"0.5".to_vec(),
        notes_complementaires: None,
    };
    match DbAdvisor::clean_and_restructure_response(doc) {
        DbAdvisorResponse::Structured { diagnostic, risques, .. } => {
            assert_eq!(risques, JsonValue::Arr(vec![JsonValue::Str(b"X".to_vec())]));
            // hoisting emptied the diagnostic, so the original value is kept
            assert_eq!(
                diagnostic,
                JsonValue::Obj(vec![(
                    b"risques".to_vec(),
                    JsonValue::Arr(vec![JsonValue::Str(b"X".to_vec())]),
                )])
            );
        },
        DbAdvisorResponse::Raw(_) => panic!("expected a structured document"),
    }
}

#[test]
fn restructuring_twice_equals_restructuring_once() {
    let make = || DbAdvisorResponse::Structured {
        diagnostic: JsonValue::Obj(vec![
            (b"etat".to_vec(), JsonValue::Str(b"ok".to_vec())),
            (b"actions_recommandees".to_vec(), JsonValue::Arr(vec![JsonValue::Num(b"1".to_vec())])),
            (b"sql_suggere".to_vec(), JsonValue::Null),
        ]),
        actions_recommandees: JsonValue::Null,
        risques: JsonValue::Null,
        sql_suggere: Some(JsonValue::Null),
        niveau_confiance: b"0.3".to_vec(),
        notes_complementaires: Some(JsonValue::Null),
    };
    let once = DbAdvisor::clean_and_restructure_response(make());
    let twice =
        DbAdvisor::clean_and_restructure_response(DbAdvisor::clean_and_restructure_response(make()));
    assert_eq!(twice, once);
}

#[test]
fn raw_object_is_regrouped_and_read_as_structured() {
    let raw = DbAdvisorResponse::Raw(JsonValue::Obj(vec![
        (
            b"diagnostic".to_vec(),
            JsonValue::Obj(vec![
                (b"etat".to_vec(), JsonValue::Str(b"ok".to_vec())),
                (b"risques".to_vec(), JsonValue::Arr(vec![JsonValue::Str(b"r".to_vec())])),
            ]),
        ),
        (b"niveau_confiance".to_vec(), JsonValue::Num(b"0.7".to_vec())),
        (b"extra".to_vec(), JsonValue::Str(b"kept".to_vec())),
    ]));
    match DbAdvisor::clean_and_restructure_response(raw) {
        DbAdvisorResponse::Structured {
            diagnostic,
            actions_recommandees,
            risques,
            niveau_confiance,
            ..
        } => {
            assert_eq!(
                diagnostic,
                JsonValue::Obj(vec![
                    (b"etat".to_vec(), JsonValue::Str(b"ok".to_vec())),
                    (b"extra".to_vec(), JsonValue::Str(b"kept".to_vec())),
                ])
            );
            assert_eq!(risques, JsonValue::Arr(vec![JsonValue::Str(b"r".to_vec())]));
            assert_eq!(actions_recommandees, JsonValue::Arr(vec![]));
            assert_eq!(niveau_confiance, b"0.7".to_vec());
        },
        DbAdvisorResponse::Raw(_) => panic!("expected a structured document"),
    }
}

#[test]
fn raw_object_without_confidence_stays_raw() {
    let make = || JsonValue::Obj(vec![(b"foo".to_vec(), JsonValue::Num(b"1".to_vec()))]);
    let raw = DbAdvisorResponse::Raw(make());
    match DbAdvisor::clean_and_restructure_response(raw) {
        DbAdvisorResponse::Raw(v) => assert_eq!(v, make()),
        DbAdvisorResponse::Structured { .. } => panic!("expected a raw document"),
    }
}

#[test]
fn raw_non_object_passes_through_unchanged() {
    let raw = DbAdvisorResponse::Raw(JsonValue::Str(b"hello".to_vec()));
    match DbAdvisor::clean_and_restructure_response(raw) {
        DbAdvisorResponse::Raw(v) => assert_eq!(v, JsonValue::Str(b"hello".to_vec())),
        DbAdvisorResponse::Structured { .. } => panic!("expected a raw document"),
    }
}

#[test]
fn null_nested_section_counts_as_absent() {
    let make = || DbAdvisorResponse::Structured {
        diagnostic: JsonValue::Obj(vec![
            (b"etat".to_vec(), JsonValue::Str(b"x".to_vec())),
            (b"risques".to_vec(), JsonValue::Null),
        ]),
        actions_recommandees: JsonValue::Null,
        risques: JsonValue::Null,
        sql_suggere: None,
        niveau_confiance: b"0.1".to_vec(),
        notes_complementaires: None,
    };
    match DbAdvisor::clean_and_restructure_response(make()) {
        DbAdvisorResponse::Structured { risques, .. } => {
            assert_eq!(risques, JsonValue::Arr(vec![]));
        },
        DbAdvisorResponse::Raw(_) => panic!("expected a structured document"),
    }
    let once = DbAdvisor::clean_and_restructure_response(make());
    let twice =
        DbAdvisor::clean_and_restructure_response(DbAdvisor::clean_and_restructure_response(make()));
    assert_eq!(twice, once);
}

#[test]
fn duplicate_nested_keys_take_the_last_occurrence() {
    let doc = DbAdvisorResponse::Structured {
        diagnostic: JsonValue::Obj(vec![
            (b"risques".to_vec(), JsonValue::Arr(vec![JsonValue::Num(b"1".to_vec())])),
            (b"risques".to_vec(), JsonValue::Arr(vec![JsonValue::Num(b"2".to_vec())])),
        ]),
        actions_recommandees: JsonValue::Null,
        risques: JsonValue::Null,
        sql_suggere: None,
        niveau_confiance: b"0.2".to_vec(),
        notes_complementaires: None,
    };
    match DbAdvisor::clean_and_restructure_response(doc) {
        DbAdvisorResponse::Structured { risques, .. } => {
            assert_eq!(risques, JsonValue::Arr(vec![JsonValue::Num(b"2".to_vec())]));
        },
        DbAdvisorResponse::Raw(_) => panic!("expected a structured document"),
    }
}
