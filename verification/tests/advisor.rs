use db_advisor::advisor::ColumnInfo;
use db_advisor::advisor::DbAdvisor;
use db_advisor::advisor::IndexInfo;
use db_advisor::advisor::QueryResult;
use db_advisor::advisor::QueryRow;
use db_advisor::advisor::TableMetadata;
use db_advisor::advisor::TableRelation;
use db_advisor::errors::AdvisorError;

#[test]
fn schema_rows_become_columns() {
    let result = QueryResult {
        rows: vec![
            QueryRow {
                cells: vec![
                    (b"COLUMN_NAME".to_vec(), b"id".to_vec()),
                    (b"DATA_TYPE".to_vec(), b"int".to_vec()),
                    (b"IS_NULLABLE".to_vec(), b"NO".to_vec()),
                ],
            },
            QueryRow {
                cells: vec![
                    (b"COLUMN_NAME".to_vec(), b"name".to_vec()),
                    (b"IS_NULLABLE".to_vec(), b"YES".to_vec()),
                ],
            },
        ],
    };
    let cols = DbAdvisor::get_table_schema(&result).expect("columns");
    assert_eq!(
        cols,
        vec![
            ColumnInfo {
                name: b"id".to_vec(),
                data_type: b"int".to_vec(),
                nullable: Some(false),
                is_primary_key: false,
                is_foreign_key: false,
            },
            ColumnInfo {
                name: b"name".to_vec(),
                data_type: b"UNKNOWN".to_vec(),
                nullable: Some(true),
                is_primary_key: false,
                is_foreign_key: false,
            },
        ]
    );
}

#[test]
fn schema_row_without_a_name_is_an_error() {
    let result = QueryResult {
        rows: vec![QueryRow { cells: vec![(b"DATA_TYPE".to_vec(), b"int".to_vec())] }],
    };
    match DbAdvisor::get_table_schema(&result) {
        Err(AdvisorError::MissingColumn { name }) => assert_eq!(name, b"COLUMN_NAME".to_vec()),
        _ => panic!("expected the missing-column error"),
    }
}

#[test]
fn index_rows_group_by_name_in_first_appearance_order() {
    let result = QueryResult {
        rows: vec![
            QueryRow {
                cells: vec![
                    (b"INDEX_NAME".to_vec(), b"idx_a".to_vec()),
                    (b"COLUMN_NAME".to_vec(), b"c1".to_vec()),
                    (b"NON_UNIQUE".to_vec(), b"0".to_vec()),
                ],
            },
            QueryRow {
                cells: vec![
                    (b"INDEX_NAME".to_vec(), b"idx_b".to_vec()),
                    (b"COLUMN_NAME".to_vec(), b"c3".to_vec()),
                    (b"NON_UNIQUE".to_vec(), b"1".to_vec()),
                ],
            },
            QueryRow {
                cells: vec![
                    (b"INDEX_NAME".to_vec(), b"idx_a".to_vec()),
                    (b"COLUMN_NAME".to_vec(), b"c2".to_vec()),
                    (b"NON_UNIQUE".to_vec(), b"0".to_vec()),
                ],
            },
        ],
    };
    let idx = DbAdvisor::get_table_indexes(&result).expect("indexes");
    assert_eq!(
        idx,
        vec![
            IndexInfo {
                name: b"idx_a".to_vec(),
                columns: vec![b"c1".to_vec(), b"c2".to_vec()],
                unique: true,
            },
            IndexInfo { name: b"idx_b".to_vec(), columns: vec![b"c3".to_vec()], unique: false },
        ]
    );
}

#[test]
fn index_row_without_its_name_is_an_error() {
    let result = QueryResult {
        rows: vec![QueryRow { cells: vec![(b"COLUMN_NAME".to_vec(), b"c1".to_vec())] }],
    };
    match DbAdvisor::get_table_indexes(&result) {
        Err(AdvisorError::MissingColumn { name }) => assert_eq!(name, b"INDEX_NAME".to_vec()),
        _ => panic!("expected the missing-column error"),
    }
}

#[test]
fn context_swallows_per_table_failures_and_counts_the_rest() {
    let good_rows = QueryResult {
        rows: vec![QueryRow {
            cells: vec![
                (b"INDEX_NAME".to_vec(), b"i1".to_vec()),
                (b"COLUMN_NAME".to_vec(), b"c".to_vec()),
            ],
        }],
    };
    let bad_rows = QueryResult { rows: vec![QueryRow { cells: vec![] }] };
    let ctx = DbAdvisor::collect_context(
        b"dsn1".to_vec(),
        Some(b"SELECT 1".to_vec()),
        vec![b"t1".to_vec(), b"t2".to_vec(), b"t3".to_vec()],
        vec![],
        vec![
            TableMetadata { table: b"t1".to_vec(), schema_rows: None, index_rows: Some(good_rows) },
            TableMetadata { table: b"t2".to_vec(), schema_rows: Some(bad_rows), index_rows: None },
        ],
    );
    assert_eq!(ctx.dsn, b"dsn1".to_vec());
    assert_eq!(ctx.schemas.len(), 0);
    assert_eq!(ctx.indexes.len(), 1);
    assert_eq!(ctx.indexes[0].0, b"t1".to_vec());
    let stats = ctx.stats.expect("stats are always produced");
    assert_eq!(stats.table_count, 3);
    assert_eq!(stats.index_count, 1);
    assert_eq!(stats.estimated_size, None);
}

#[test]
fn at_most_twenty_tables_are_analyzed() {
    let tables: Vec<Vec<u8>> = (0..25).map(|i| format!("t{}", i).into_bytes()).collect();
    let chosen = DbAdvisor::tables_to_analyze(&tables);
    assert_eq!(chosen.len(), 20);
    assert_eq!(chosen[0], b"t0".to_vec());
    assert_eq!(chosen[19], b"t19".to_vec());
}

#[test]
fn metadata_queries_name_the_table() {
    assert_eq!(
        DbAdvisor::schema_query(b"users"),
        b"SELECT COLUMN_NAME, DATA_TYPE, IS_NULLABLE, CASE WHEN COLUMN_KEY = 'PRI' THEN 1 ELSE 0 END as IS_PRIMARY_KEY FROM INFORMATION_SCHEMA.COLUMNS WHERE TABLE_NAME = 'users' ORDER BY ORDINAL_POSITION".to_vec()
    );
    assert_eq!(
        DbAdvisor::index_query(b"users"),
        b"SELECT INDEX_NAME, COLUMN_NAME, NON_UNIQUE FROM INFORMATION_SCHEMA.STATISTICS WHERE TABLE_NAME = 'users' ORDER BY INDEX_NAME, SEQ_IN_INDEX".to_vec()
    );
}

#[test]
fn advisor_requires_some_api_key() {
    assert!(DbAdvisor::new(None, None).is_err());
    assert!(DbAdvisor::new(Some(b"k".to_vec()), None).is_ok());
    assert!(DbAdvisor::with_api_key(Some(b"p".to_vec()), None, None).is_ok());
}

#[test]
fn prompt_renders_every_section() {
    let advisor = DbAdvisor::with_api_key(Some(b"k".to_vec()), None, None).unwrap();
    let ctx = DbAdvisor::collect_context(
        b"mydb".to_vec(),
        Some(b"SELECT * FROM a".to_vec()),
        vec![b"a".to_vec(), b"b".to_vec()],
        vec![TableRelation {
            from_table: b"a".to_vec(),
            from_column: b"bid".to_vec(),
            to_table: b"b".to_vec(),
            to_column: b"id".to_vec(),
        }],
        vec![TableMetadata {
            table: b"a".to_vec(),
            schema_rows: Some(QueryResult {
                rows: vec![QueryRow {
                    cells: vec![
                        (b"COLUMN_NAME".to_vec(), b"id".to_vec()),
                        (b"DATA_TYPE".to_vec(), b"int".to_vec()),
                    ],
                }],
            }),
            index_rows: Some(QueryResult {
                rows: vec![QueryRow {
                    cells: vec![
                        (b"INDEX_NAME".to_vec(), b"pk".to_vec()),
                        (b"COLUMN_NAME".to_vec(), b"id".to_vec()),
                        (b"NON_UNIQUE".to_vec(), b"0".to_vec()),
                    ],
                }],
            }),
        }],
    );
    let prompt = String::from_utf8(advisor.build_prompt(&ctx)).expect("prompt is UTF-8");
    assert!(prompt.starts_with("Tu es un expert en gestion de bases de données."));
    assert!(prompt.contains("DSN: mydb\n"));
    assert!(prompt.contains("Nombre de tables: 2\n"));
    assert!(prompt.contains("\nTables disponibles:\n- a\n- b\n"));
    assert!(prompt.contains("\nStatistiques: 2 tables, 1 index\n"));
    assert!(prompt.contains("- Table a: 1 colonnes\n  * id (int)\n"));
    assert!(prompt.contains("- Table a: Index pk sur id\n"));
    assert!(prompt.contains("- a (bid) -> b (id)\n"));
    assert!(prompt.contains("\nRequête SQL à analyser:\nSELECT * FROM a\n"));
    assert!(prompt.contains("=== INSTRUCTIONS STRICTES POUR LA RÉPONSE JSON ==="));
    assert!(prompt.contains("\"niveau_confiance\": 0.85,"));
    assert!(prompt.ends_with("{\"diagnostic\": {...}, \"actions_recommandees\": [...], ...}\n"));
}

#[test]
fn empty_database_prompt_carries_the_warning() {
    let advisor = DbAdvisor::with_api_key(Some(b"k".to_vec()), None, None).unwrap();
    let ctx = DbAdvisor::collect_context(b"empty".to_vec(), None, vec![], vec![], vec![]);
    let prompt = String::from_utf8(advisor.build_prompt(&ctx)).expect("prompt is UTF-8");
    assert!(prompt.contains("Aucune table détectée dans cette base de données."));
}
