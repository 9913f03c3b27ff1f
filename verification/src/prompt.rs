//! The prompt builder.
//!
//! The collected database context is rendered into one prompt text:
//! heading, data-source line, table list, statistics, schemas, indexes,
//! relations, the query under analysis, and the fixed instructions that
//! pin the answer's JSON shape.
use vstd::prelude::*;
use vstd::string::StringSliceAdditionalSpecFns;
use crate::advisor::ColumnInfo;
use crate::advisor::DbAdvisor;
use crate::advisor::DbContext;
use crate::advisor::DbStats;
use crate::advisor::IndexInfo;
use crate::advisor::TableRelation;
use crate::text::dec_of;
use crate::text::u64_to_dec;

verus! {

broadcast use vstd::std_specs::vec::group_vec_axioms;

/// The prompt's opening sentence.
pub open spec fn prompt_intro() -> Seq<u8> {
    "Tu es un expert en gestion de bases de données. Analyse le contexte suivant et fournis des conseils structurés en JSON.\n\n".spec_bytes()
}

/// One line per table name from position `i` on.
pub open spec fn table_lines_from(ts: Seq<Vec<u8>>, i: int) -> Seq<u8>
    decreases ts.len() - i,
{
    if i < 0 || i >= ts.len() {
        Seq::empty()
    } else {
        "- ".spec_bytes() + ts[i]@ + "\n".spec_bytes() + table_lines_from(ts, i + 1)
    }
}

/// The table list, or a warning where the database has none.
pub open spec fn tables_section(ts: Seq<Vec<u8>>) -> Seq<u8> {
    if ts.len() > 0 {
        "\nTables disponibles:\n".spec_bytes() + table_lines_from(ts, 0)
    } else {
        "\n⚠️ Aucune table détectée dans cette base de données.\n".spec_bytes()
    }
}

/// The statistics line, where statistics are available.
pub open spec fn stats_section(stats: Option<DbStats>) -> Seq<u8> {
    match stats {
        Some(st) => "\nStatistiques: ".spec_bytes() + dec_of(st.table_count as nat)
            + " tables, ".spec_bytes() + dec_of(st.index_count as nat) + " index\n".spec_bytes(),
        None => Seq::empty(),
    }
}

/// One line per column from position `j` on.
pub open spec fn column_lines_from(cols: Seq<ColumnInfo>, j: int) -> Seq<u8>
    decreases cols.len() - j,
{
    if j < 0 || j >= cols.len() {
        Seq::empty()
    } else {
        "  * ".spec_bytes() + cols[j].name@ + " (".spec_bytes() + cols[j].data_type@
            + ")\n".spec_bytes() + column_lines_from(cols, j + 1)
    }
}

/// One block per analyzed table's schema from position `i` on.
pub open spec fn schema_lines_from(ss: Seq<(Vec<u8>, Vec<ColumnInfo>)>, i: int) -> Seq<u8>
    decreases ss.len() - i,
{
    if i < 0 || i >= ss.len() {
        Seq::empty()
    } else {
        "- Table ".spec_bytes() + ss[i].0@ + ": ".spec_bytes() + dec_of(ss[i].1@.len())
            + " colonnes\n".spec_bytes() + column_lines_from(ss[i].1@, 0) + schema_lines_from(
            ss,
            i + 1,
        )
    }
}

/// The schemas section, where any schema was collected.
pub open spec fn schemas_section(ss: Seq<(Vec<u8>, Vec<ColumnInfo>)>) -> Seq<u8> {
    if ss.len() > 0 {
        "\nSchémas des tables:\n".spec_bytes() + schema_lines_from(ss, 0)
    } else {
        Seq::empty()
    }
}

/// An index's columns from position `j` on, comma-separated.
pub open spec fn columns_join_from(cs: Seq<Vec<u8>>, j: int) -> Seq<u8>
    decreases cs.len() - j,
{
    if j < 0 || j >= cs.len() {
        Seq::empty()
    } else {
        cs[j]@ + (if j + 1 < cs.len() {
            ", ".spec_bytes()
        } else {
            Seq::empty()
        }) + columns_join_from(cs, j + 1)
    }
}

/// One line per index of a table from position `j` on.
pub open spec fn index_lines_from(t: Seq<u8>, idxs: Seq<IndexInfo>, j: int) -> Seq<u8>
    decreases idxs.len() - j,
{
    if j < 0 || j >= idxs.len() {
        Seq::empty()
    } else {
        "- Table ".spec_bytes() + t + ": Index ".spec_bytes() + idxs[j].name@
            + " sur ".spec_bytes() + columns_join_from(idxs[j].columns@, 0) + "\n".spec_bytes()
            + index_lines_from(t, idxs, j + 1)
    }
}

/// The index lines of all analyzed tables from position `i` on.
pub open spec fn index_group_lines_from(gs: Seq<(Vec<u8>, Vec<IndexInfo>)>, i: int) -> Seq<u8>
    decreases gs.len() - i,
{
    if i < 0 || i >= gs.len() {
        Seq::empty()
    } else {
        index_lines_from(gs[i].0@, gs[i].1@, 0) + index_group_lines_from(gs, i + 1)
    }
}

/// The indexes section, where any index was collected.
pub open spec fn indexes_section(gs: Seq<(Vec<u8>, Vec<IndexInfo>)>) -> Seq<u8> {
    if gs.len() > 0 {
        "\nIndex existants:\n".spec_bytes() + index_group_lines_from(gs, 0)
    } else {
        Seq::empty()
    }
}

/// One line per relation from position `i` on.
pub open spec fn relation_lines_from(rs: Seq<TableRelation>, i: int) -> Seq<u8>
    decreases rs.len() - i,
{
    if i < 0 || i >= rs.len() {
        Seq::empty()
    } else {
        "- ".spec_bytes() + rs[i].from_table@ + " (".spec_bytes() + rs[i].from_column@
            + ") -> ".spec_bytes() + rs[i].to_table@ + " (".spec_bytes() + rs[i].to_column@
            + ")\n".spec_bytes() + relation_lines_from(rs, i + 1)
    }
}

/// The relations section, where any relation is known.
pub open spec fn relations_section(rs: Seq<TableRelation>) -> Seq<u8> {
    if rs.len() > 0 {
        "\nRelations:\n".spec_bytes() + relation_lines_from(rs, 0)
    } else {
        Seq::empty()
    }
}

/// The query section, where a query was handed in.
pub open spec fn sql_section(q: Option<Vec<u8>>) -> Seq<u8> {
    match q {
        Some(s) => "\nRequête SQL à analyser:\n".spec_bytes() + s@ + "\n".spec_bytes(),
        None => Seq::empty(),
    }
}

/// The strict-format instructions preceding the answer-shape template.
pub open spec fn instructions_head() -> Seq<u8> {
    "\n\n=== INSTRUCTIONS STRICTES POUR LA RÉPONSE JSON ===\n⚠️ CRITIQUE: Réponds UNIQUEMENT avec du JSON valide, SANS AUCUN TEXTE avant ou après.\n⚠️ NE PAS utiliser de blocs markdown (```json ou ```).\n⚠️ NE PAS ajouter de texte comme 'Diagnostic', 'Actions recommandées', 'Risques' avant le JSON.\n⚠️ NE PAS ajouter de texte explicatif après le JSON.\n⚠️ La réponse doit COMMENCER DIRECTEMENT par '{' et SE TERMINER par '}'.\nChaque section doit être placée à son endroit exact dans la structure JSON.\nNE PAS dupliquer le contenu entre les sections.\nNE PAS mettre tout le JSON dans la section 'diagnostic'.\nLes blocs de code SQL dans 'details' ou 'requete' doivent être échappés correctement (\\n pour les retours à la ligne).\n\nStructure JSON EXACTE requise:\n".spec_bytes()
}

/// The answer-shape template the service is asked to follow.
pub open spec fn instructions_template() -> Seq<u8> {
    "{\n  \"diagnostic\": {\n    \"etat_actuel\": \"Description textuelle de l'état actuel de la base de données (string uniquement, pas d'objets imbriqués)\",\n    \"hypotheses\": [\"Hypothèse 1\", \"Hypothèse 2\"],\n    \"verifications_prealables\": [\"Vérification 1\", \"Vérification 2\"]\n  },\n  \"actions_recommandees\": [\n    {\n      \"action\": \"Nom de l'action (string)\",\n      \"details\": \"Description détaillée de l'action. Les exemples SQL doivent être échappés avec \\\\n pour les retours à la ligne.\",\n      \"priorite\": \"haute|moyenne|basse\"\n    }\n  ],\n  \"risques\": [\n    {\n      \"risque\": \"Nom du risque (string)\",\n      \"cause\": \"Description de la cause (string)\",\n      \"impact\": \"Description de l'impact (string)\",\n      \"mitigation\": \"Description de la mitigation. Les exemples SQL doivent être échappés avec \\\\n.\"\n    }\n  ],\n  \"sql_suggere\": [\n    {\n      \"description\": \"Description de la requête SQL (string)\",\n      \"requete\": \"SELECT ... FROM ... WHERE ...\"\n    }\n  ],\n  \"niveau_confiance\": 0.85,\n  \"notes_complementaires\": {\n    \"outils_recommandes\": [\"Outil 1\", \"Outil 2\"],\n    \"bonnes_pratiques\": [\"Pratique 1\", \"Pratique 2\"]\n  }\n}".spec_bytes()
}

/// The numbered rules closing the instructions.
pub open spec fn instructions_rules() -> Seq<u8> {
    "\n\nRÈGLES IMPORTANTES:\n1. 'diagnostic' doit contenir UNIQUEMENT les 3 champs: etat_actuel, hypotheses, verifications_prealables\n2. 'actions_recommandees' est un TABLEAU d'objets, chaque objet a: action, details, priorite\n3. 'risques' est un TABLEAU d'objets, chaque objet a: risque, cause, impact, mitigation\n4. 'sql_suggere' est un TABLEAU d'objets, chaque objet a: description, requete\n5. Ne JAMAIS mettre le contenu de 'actions_recommandees', 'risques' ou 'sql_suggere' dans 'diagnostic'\n6. Les chaînes SQL dans 'details' ou 'requete' doivent utiliser \\\\n pour les retours à la ligne, pas de blocs markdown\n7. Le JSON doit être valide et parsable sans erreur\n8. ⚠️ FORMAT DE RÉPONSE: Commence directement par '{' et termine par '}', sans texte avant/après\n9. ⚠️ EXEMPLE DE MAUVAISE RÉPONSE (À ÉVITER):\n   Diagnostic\n   {\"diagnostic\": ...}\n   Actions recommandées\n   ...\n10. ⚠️ EXEMPLE DE BONNE RÉPONSE (À SUIVRE):\n    {\"diagnostic\": {...}, \"actions_recommandees\": [...], ...}\n".spec_bytes()
}

/// The whole prompt rendered from a context.
pub open spec fn prompt_spec(ctx: DbContext) -> Seq<u8> {
    prompt_intro() + "DSN: ".spec_bytes() + ctx.dsn@ + "\n".spec_bytes()
        + "Nombre de tables: ".spec_bytes() + dec_of(ctx.tables@.len()) + "\n".spec_bytes()
        + tables_section(ctx.tables@) + stats_section(ctx.stats) + schemas_section(ctx.schemas@)
        + indexes_section(ctx.indexes@) + relations_section(ctx.relations@) + sql_section(
        ctx.sql_query,
    ) + instructions_head() + instructions_template() + instructions_rules()
}

/// Appends the table list or the no-table warning.
fn push_tables(out: &mut Vec<u8>, tables: &Vec<Vec<u8>>)
    ensures
        final(out)@ == old(out)@ + tables_section(tables@),
{
    if tables.len() > 0 {
        out.extend_from_slice("\nTables disponibles:\n".as_bytes());
        let ghost base = out@;
        let mut i: usize = 0;
        while i < tables.len()
            invariant
                0 <= i <= tables@.len(),
                out@ + table_lines_from(tables@, i as int) == base + table_lines_from(tables@, 0),
            decreases tables@.len() - i,
        {
            out.extend_from_slice("- ".as_bytes());
            out.extend_from_slice(tables[i].as_slice());
            out.extend_from_slice("\n".as_bytes());
            i = i + 1;
            proof {
                assert(out@ + table_lines_from(tables@, i as int) =~= base + table_lines_from(
                    tables@,
                    0,
                ));
            }
        }
        proof {
            assert(out@ =~= old(out)@ + tables_section(tables@));
        }
    } else {
        out.extend_from_slice("\n⚠️ Aucune table détectée dans cette base de données.\n".as_bytes());
    }
}

/// Appends the statistics line, where statistics are available.
fn push_stats(out: &mut Vec<u8>, stats: &Option<DbStats>)
    ensures
        final(out)@ == old(out)@ + stats_section(*stats),
{
    match stats {
        Some(st) => {
            out.extend_from_slice("\nStatistiques: ".as_bytes());
            let tc = u64_to_dec(st.table_count as u64);
            out.extend_from_slice(tc.as_slice());
            out.extend_from_slice(" tables, ".as_bytes());
            let ic = u64_to_dec(st.index_count as u64);
            out.extend_from_slice(ic.as_slice());
            out.extend_from_slice(" index\n".as_bytes());
            proof {
                assert(out@ =~= old(out)@ + stats_section(*stats));
            }
        },
        None => {},
    }
}

/// Appends one table's column lines.
fn push_columns(out: &mut Vec<u8>, cols: &Vec<ColumnInfo>)
    ensures
        final(out)@ == old(out)@ + column_lines_from(cols@, 0),
{
    let ghost base = out@;
    let mut j: usize = 0;
    while j < cols.len()
        invariant
            0 <= j <= cols@.len(),
            out@ + column_lines_from(cols@, j as int) == base + column_lines_from(cols@, 0),
        decreases cols@.len() - j,
    {
        out.extend_from_slice("  * ".as_bytes());
        out.extend_from_slice(cols[j].name.as_slice());
        out.extend_from_slice(" (".as_bytes());
        out.extend_from_slice(cols[j].data_type.as_slice());
        out.extend_from_slice(")\n".as_bytes());
        j = j + 1;
        proof {
            assert(out@ + column_lines_from(cols@, j as int) =~= base + column_lines_from(
                cols@,
                0,
            ));
        }
    }
    proof {
        assert(out@ =~= base + column_lines_from(cols@, 0));
    }
}

/// Appends the schemas section, where any schema was collected.
fn push_schemas(out: &mut Vec<u8>, ss: &Vec<(Vec<u8>, Vec<ColumnInfo>)>)
    ensures
        final(out)@ == old(out)@ + schemas_section(ss@),
{
    if ss.len() > 0 {
        out.extend_from_slice("\nSchémas des tables:\n".as_bytes());
        let ghost base = out@;
        let mut i: usize = 0;
        while i < ss.len()
            invariant
                0 <= i <= ss@.len(),
                out@ + schema_lines_from(ss@, i as int) == base + schema_lines_from(ss@, 0),
            decreases ss@.len() - i,
        {
            out.extend_from_slice("- Table ".as_bytes());
            out.extend_from_slice(ss[i].0.as_slice());
            out.extend_from_slice(": ".as_bytes());
            let n = u64_to_dec(ss[i].1.len() as u64);
            out.extend_from_slice(n.as_slice());
            out.extend_from_slice(" colonnes\n".as_bytes());
            push_columns(out, &ss[i].1);
            i = i + 1;
            proof {
                assert(out@ + schema_lines_from(ss@, i as int) =~= base + schema_lines_from(
                    ss@,
                    0,
                ));
            }
        }
        proof {
            assert(out@ =~= old(out)@ + schemas_section(ss@));
        }
    }
}

/// Appends one table's index lines.
fn push_index_lines(out: &mut Vec<u8>, t: &Vec<u8>, idxs: &Vec<IndexInfo>)
    ensures
        final(out)@ == old(out)@ + index_lines_from(t@, idxs@, 0),
{
    let ghost base = out@;
    let mut j: usize = 0;
    while j < idxs.len()
        invariant
            0 <= j <= idxs@.len(),
            out@ + index_lines_from(t@, idxs@, j as int) == base + index_lines_from(t@, idxs@, 0),
        decreases idxs@.len() - j,
    {
        out.extend_from_slice("- Table ".as_bytes());
        out.extend_from_slice(t.as_slice());
        out.extend_from_slice(": Index ".as_bytes());
        out.extend_from_slice(idxs[j].name.as_slice());
        out.extend_from_slice(" sur ".as_bytes());
        let cs = &idxs[j].columns;
        let ghost mid = out@;
        let mut k: usize = 0;
        while k < cs.len()
            invariant
                0 <= k <= cs@.len(),
                out@ + columns_join_from(cs@, k as int) == mid + columns_join_from(cs@, 0),
            decreases cs@.len() - k,
        {
            out.extend_from_slice(cs[k].as_slice());
            if k + 1 < cs.len() {
                out.extend_from_slice(", ".as_bytes());
            }
            k = k + 1;
            proof {
                assert(out@ + columns_join_from(cs@, k as int) =~= mid + columns_join_from(
                    cs@,
                    0,
                ));
            }
        }
        out.extend_from_slice("\n".as_bytes());
        j = j + 1;
        proof {
            assert(out@ + index_lines_from(t@, idxs@, j as int) =~= base + index_lines_from(
                t@,
                idxs@,
                0,
            ));
        }
    }
    proof {
        assert(out@ =~= base + index_lines_from(t@, idxs@, 0));
    }
}

/// Appends the indexes section, where any index was collected.
fn push_indexes(out: &mut Vec<u8>, gs: &Vec<(Vec<u8>, Vec<IndexInfo>)>)
    ensures
        final(out)@ == old(out)@ + indexes_section(gs@),
{
    if gs.len() > 0 {
        out.extend_from_slice("\nIndex existants:\n".as_bytes());
        let ghost base = out@;
        let mut i: usize = 0;
        while i < gs.len()
            invariant
                0 <= i <= gs@.len(),
                out@ + index_group_lines_from(gs@, i as int) == base + index_group_lines_from(
                    gs@,
                    0,
                ),
            decreases gs@.len() - i,
        {
            push_index_lines(out, &gs[i].0, &gs[i].1);
            i = i + 1;
            proof {
                assert(out@ + index_group_lines_from(gs@, i as int) =~= base
                    + index_group_lines_from(gs@, 0));
            }
        }
        proof {
            assert(out@ =~= old(out)@ + indexes_section(gs@));
        }
    }
}

/// Appends the relations section, where any relation is known.
fn push_relations(out: &mut Vec<u8>, rs: &Vec<TableRelation>)
    ensures
        final(out)@ == old(out)@ + relations_section(rs@),
{
    if rs.len() > 0 {
        out.extend_from_slice("\nRelations:\n".as_bytes());
        let ghost base = out@;
        let mut i: usize = 0;
        while i < rs.len()
            invariant
                0 <= i <= rs@.len(),
                out@ + relation_lines_from(rs@, i as int) == base + relation_lines_from(rs@, 0),
            decreases rs@.len() - i,
        {
            out.extend_from_slice("- ".as_bytes());
            out.extend_from_slice(rs[i].from_table.as_slice());
            out.extend_from_slice(" (".as_bytes());
            out.extend_from_slice(rs[i].from_column.as_slice());
            out.extend_from_slice(") -> ".as_bytes());
            out.extend_from_slice(rs[i].to_table.as_slice());
            out.extend_from_slice(" (".as_bytes());
            out.extend_from_slice(rs[i].to_column.as_slice());
            out.extend_from_slice(")\n".as_bytes());
            i = i + 1;
            proof {
                assert(out@ + relation_lines_from(rs@, i as int) =~= base + relation_lines_from(
                    rs@,
                    0,
                ));
            }
        }
        proof {
            assert(out@ =~= old(out)@ + relations_section(rs@));
        }
    }
}

impl DbAdvisor {
    /// Renders the collected context into the prompt sent upstream, as
    /// [`prompt_spec`] says.
    pub fn build_prompt(&self, context: &DbContext) -> (r: Vec<u8>)
        ensures
            r@ == prompt_spec(*context),
    {
        let mut out: Vec<u8> = Vec::new();
        out.extend_from_slice(
            "Tu es un expert en gestion de bases de données. Analyse le contexte suivant et fournis des conseils structurés en JSON.\n\n".as_bytes(),
        );
        out.extend_from_slice("DSN: ".as_bytes());
        out.extend_from_slice(context.dsn.as_slice());
        out.extend_from_slice("\n".as_bytes());
        out.extend_from_slice("Nombre de tables: ".as_bytes());
        let n = u64_to_dec(context.tables.len() as u64);
        out.extend_from_slice(n.as_slice());
        out.extend_from_slice("\n".as_bytes());
        push_tables(&mut out, &context.tables);
        push_stats(&mut out, &context.stats);
        push_schemas(&mut out, &context.schemas);
        push_indexes(&mut out, &context.indexes);
        push_relations(&mut out, &context.relations);
        match &context.sql_query {
            Some(q) => {
                out.extend_from_slice("\nRequête SQL à analyser:\n".as_bytes());
                out.extend_from_slice(q.as_slice());
                out.extend_from_slice("\n".as_bytes());
            },
            None => {},
        }
        out.extend_from_slice(
            "\n\n=== INSTRUCTIONS STRICTES POUR LA RÉPONSE JSON ===\n⚠️ CRITIQUE: Réponds UNIQUEMENT avec du JSON valide, SANS AUCUN TEXTE avant ou après.\n⚠️ NE PAS utiliser de blocs markdown (```json ou ```).\n⚠️ NE PAS ajouter de texte comme 'Diagnostic', 'Actions recommandées', 'Risques' avant le JSON.\n⚠️ NE PAS ajouter de texte explicatif après le JSON.\n⚠️ La réponse doit COMMENCER DIRECTEMENT par '{' et SE TERMINER par '}'.\nChaque section doit être placée à son endroit exact dans la structure JSON.\nNE PAS dupliquer le contenu entre les sections.\nNE PAS mettre tout le JSON dans la section 'diagnostic'.\nLes blocs de code SQL dans 'details' ou 'requete' doivent être échappés correctement (\\n pour les retours à la ligne).\n\nStructure JSON EXACTE requise:\n".as_bytes(),
        );
        out.extend_from_slice(
            "{\n  \"diagnostic\": {\n    \"etat_actuel\": \"Description textuelle de l'état actuel de la base de données (string uniquement, pas d'objets imbriqués)\",\n    \"hypotheses\": [\"Hypothèse 1\", \"Hypothèse 2\"],\n    \"verifications_prealables\": [\"Vérification 1\", \"Vérification 2\"]\n  },\n  \"actions_recommandees\": [\n    {\n      \"action\": \"Nom de l'action (string)\",\n      \"details\": \"Description détaillée de l'action. Les exemples SQL doivent être échappés avec \\\\n pour les retours à la ligne.\",\n      \"priorite\": \"haute|moyenne|basse\"\n    }\n  ],\n  \"risques\": [\n    {\n      \"risque\": \"Nom du risque (string)\",\n      \"cause\": \"Description de la cause (string)\",\n      \"impact\": \"Description de l'impact (string)\",\n      \"mitigation\": \"Description de la mitigation. Les exemples SQL doivent être échappés avec \\\\n.\"\n    }\n  ],\n  \"sql_suggere\": [\n    {\n      \"description\": \"Description de la requête SQL (string)\",\n      \"requete\": \"SELECT ... FROM ... WHERE ...\"\n    }\n  ],\n  \"niveau_confiance\": 0.85,\n  \"notes_complementaires\": {\n    \"outils_recommandes\": [\"Outil 1\", \"Outil 2\"],\n    \"bonnes_pratiques\": [\"Pratique 1\", \"Pratique 2\"]\n  }\n}".as_bytes(),
        );
        out.extend_from_slice(
            "\n\nRÈGLES IMPORTANTES:\n1. 'diagnostic' doit contenir UNIQUEMENT les 3 champs: etat_actuel, hypotheses, verifications_prealables\n2. 'actions_recommandees' est un TABLEAU d'objets, chaque objet a: action, details, priorite\n3. 'risques' est un TABLEAU d'objets, chaque objet a: risque, cause, impact, mitigation\n4. 'sql_suggere' est un TABLEAU d'objets, chaque objet a: description, requete\n5. Ne JAMAIS mettre le contenu de 'actions_recommandees', 'risques' ou 'sql_suggere' dans 'diagnostic'\n6. Les chaînes SQL dans 'details' ou 'requete' doivent utiliser \\\\n pour les retours à la ligne, pas de blocs markdown\n7. Le JSON doit être valide et parsable sans erreur\n8. ⚠️ FORMAT DE RÉPONSE: Commence directement par '{' et termine par '}', sans texte avant/après\n9. ⚠️ EXEMPLE DE MAUVAISE RÉPONSE (À ÉVITER):\n   Diagnostic\n   {\"diagnostic\": ...}\n   Actions recommandées\n   ...\n10. ⚠️ EXEMPLE DE BONNE RÉPONSE (À SUIVRE):\n    {\"diagnostic\": {...}, \"actions_recommandees\": [...], ...}\n".as_bytes(),
        );
        proof {
            assert(out@ =~= prompt_spec(*context));
        }
        out
    }
}

} // verus!
