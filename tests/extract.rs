use parse_gb_xml::{
    join_lineage, parse_genomes, parse_peptides, parse_xml, render_blocks, sanitize,
    to_ascii_upper, ExtractError,
};

fn qualifier(name: &str, value: &str) -> String {
    format!(
        "<GBQualifier><GBQualifier_name>{}</GBQualifier_name><GBQualifier_value>{}</GBQualifier_value></GBQualifier>",
        name, value
    )
}

fn feature(key: &str, quals: &[String]) -> String {
    format!(
        "<GBFeature><GBFeature_key>{}</GBFeature_key><GBFeature_quals>{}</GBFeature_quals></GBFeature>",
        key,
        quals.concat()
    )
}

fn genome(acc: &str, organism: &str, taxonomy: &str, sequence: &str, features: &[String]) -> String {
    format!(
        "<GBSeq><GBSeq_accession-version>{}</GBSeq_accession-version><GBSeq_organism>{}</GBSeq_organism><GBSeq_taxonomy>{}</GBSeq_taxonomy><GBSeq_sequence>{}</GBSeq_sequence><GBSeq_feature-table>{}</GBSeq_feature-table></GBSeq>",
        acc,
        organism,
        taxonomy,
        sequence,
        features.concat()
    )
}

fn document(genomes: &[String]) -> String {
    format!("<?xml version=\"1.0\"?>\n<GBSet>{}</GBSet>", genomes.concat())
}

fn cds(product: &str, protein_id: &str, translation: &str) -> String {
    feature(
        "CDS",
        &[
            qualifier("product", product),
            qualifier("protein_id", protein_id),
            qualifier("translation", translation),
        ],
    )
}

#[test]
fn taxonomy_joining() {
    let joined = join_lineage("Bacteria; Proteobacteria; Gammaproteobacteria");
    assert_eq!(sanitize(&joined), "Bacteria__Proteobacteria__Gammaproteobacteria");
}

#[test]
fn taxonomy_without_space_is_not_split() {
    assert_eq!(join_lineage("A;B; C"), "A;B__C");
    assert_eq!(join_lineage(""), "");
}

#[test]
fn organism_sanitization() {
    assert_eq!(sanitize("Escherichia coli K-12"), "Escherichia_coli_K_12");
}

#[test]
fn sanitization_collapses_runs_and_keeps_unicode_words() {
    assert_eq!(sanitize("a -- b"), "a_b");
    assert_eq!(sanitize("  x  "), "_x_");
    assert_eq!(sanitize("Café au lait"), "Café_au_lait");
    assert_eq!(sanitize(""), "");
}

#[test]
fn sanitization_is_idempotent() {
    for s in ["Escherichia coli K-12", "a;; b", "__x__", " !? ", "Café--au lait."] {
        let once = sanitize(s);
        assert_eq!(sanitize(&once), once);
    }
}

#[test]
fn uppercasing_is_ascii_only() {
    assert_eq!(to_ascii_upper("atgc"), "ATGC");
    assert_eq!(to_ascii_upper("mkAZ09-"), "MKAZ09-");
    assert_eq!(to_ascii_upper("éß"), "éß");
}

#[test]
fn end_to_end_minimal_document() {
    let doc = document(&[genome("X1.1", "Foo bar", "A; B", "atgc", &[cds("Prot1", "P1.1", "mk")])]);
    let (genomes, peptides) = parse_xml(doc).unwrap();
    assert_eq!(render_blocks(&genomes), ">X1.1 ~~ Foo_bar ~~ A__B\nATGC\n");
    assert_eq!(render_blocks(&peptides), ">P1.1 ~~ X1.1 ~~ Prot1\nMK\n");
}

#[test]
fn one_genome_block_per_record_in_order() {
    let doc = document(&[
        genome("A1.1", "Org one", "T; U", "aa", &[]),
        genome("B2.1", "Org two", "V", "cc", &[]),
        genome("C3.1", "Org three", "W; X; Y", "gg", &[]),
    ]);
    let (genomes, peptides) = parse_xml(doc).unwrap();
    assert_eq!(
        genomes,
        vec![
            ">A1.1 ~~ Org_one ~~ T__U\nAA".to_string(),
            ">B2.1 ~~ Org_two ~~ V\nCC".to_string(),
            ">C3.1 ~~ Org_three ~~ W__X__Y\nGG".to_string(),
        ]
    );
    assert!(peptides.is_empty());
    for block in &genomes {
        assert!(block.starts_with('>'));
        assert_eq!(block.matches('\n').count(), 1);
    }
}

#[test]
fn genome_without_cds_gives_no_peptides() {
    let doc = document(&[
        genome("A1.1", "Org", "T", "at", &[feature("gene", &[qualifier("gene", "g1")])]),
        genome("B1.1", "Org", "T", "gc", &[cds("Prot", "P9.1", "mv")]),
    ]);
    let (genomes, peptides) = parse_xml(doc).unwrap();
    assert_eq!(genomes.len(), 2);
    assert_eq!(peptides, vec![">P9.1 ~~ B1.1 ~~ Prot\nMV".to_string()]);
}

#[test]
fn cds_region_key_is_excluded() {
    let doc = document(&[genome(
        "X1.1",
        "Foo",
        "A",
        "at",
        &[
            feature(
                "CDS_region",
                &[
                    qualifier("product", "Skipped"),
                    qualifier("protein_id", "S1.1"),
                    qualifier("translation", "mm"),
                ],
            ),
            cds("Kept protein", "K1.1", "ml"),
        ],
    )]);
    let (_, peptides) = parse_xml(doc).unwrap();
    assert_eq!(peptides, vec![">K1.1 ~~ X1.1 ~~ Kept_protein\nML".to_string()]);
}

#[test]
fn peptides_follow_genome_then_feature_order() {
    let doc = document(&[
        genome("G1.1", "O", "T", "a", &[cds("p one", "A.1", "m"), cds("p two", "B.1", "k")]),
        genome("G2.1", "O", "T", "c", &[cds("p-three", "C.1", "w")]),
    ]);
    let (_, peptides) = parse_xml(doc).unwrap();
    assert_eq!(
        peptides,
        vec![
            ">A.1 ~~ G1.1 ~~ p_one\nM".to_string(),
            ">B.1 ~~ G1.1 ~~ p_two\nK".to_string(),
            ">C.1 ~~ G2.1 ~~ p_three\nW".to_string(),
        ]
    );
}

#[test]
fn first_qualifier_of_a_name_wins() {
    let doc = document(&[genome(
        "X1.1",
        "Foo",
        "A",
        "at",
        &[feature(
            "CDS",
            &[
                qualifier("product", "First"),
                qualifier("product", "Second"),
                qualifier("protein_id", "P1.1"),
                qualifier("translation", "mk"),
            ],
        )],
    )]);
    let (_, peptides) = parse_xml(doc).unwrap();
    assert_eq!(peptides, vec![">P1.1 ~~ X1.1 ~~ First\nMK".to_string()]);
}

#[test]
fn missing_protein_id_fails_the_run() {
    let doc = document(&[genome(
        "X1.1",
        "Foo",
        "A",
        "at",
        &[
            cds("Good", "G1.1", "mk"),
            feature("CDS", &[qualifier("product", "Bad"), qualifier("translation", "mk")]),
        ],
    )]);
    assert_eq!(
        parse_xml(doc),
        Err(ExtractError::MissingQualifier("protein_id".to_string()))
    );
}

#[test]
fn malformed_document_is_rejected() {
    assert_eq!(parse_xml("<GBSet><GBSeq></GBSet>".to_string()), Err(ExtractError::MalformedDocument));
}

#[test]
fn missing_record_set_is_rejected() {
    assert_eq!(
        parse_xml("<Other/>".to_string()),
        Err(ExtractError::MissingElement("GBSet".to_string()))
    );
}

#[test]
fn missing_field_is_rejected() {
    let doc = "<GBSet><GBSeq><GBSeq_accession-version>X1.1</GBSeq_accession-version></GBSeq></GBSet>";
    assert_eq!(
        parse_xml(doc.to_string()),
        Err(ExtractError::MissingElement("GBSeq_organism".to_string()))
    );
}

#[test]
fn empty_field_is_missing_text() {
    let doc = document(&[genome("X1.1", "", "A", "at", &[])]);
    assert_eq!(
        parse_xml(doc),
        Err(ExtractError::MissingText("GBSeq_organism".to_string()))
    );
}

#[test]
fn missing_feature_table_fails_peptides_only() {
    let doc = "<GBSet><GBSeq><GBSeq_accession-version>X1.1</GBSeq_accession-version><GBSeq_organism>O</GBSeq_organism><GBSeq_taxonomy>T</GBSeq_taxonomy><GBSeq_sequence>a</GBSeq_sequence></GBSeq></GBSet>";
    assert_eq!(
        parse_xml(doc.to_string()),
        Err(ExtractError::MissingElement("GBSeq_feature-table".to_string()))
    );
}

#[test]
fn genome_and_peptide_extraction_on_parsed_nodes() {
    let doc = document(&[genome("X1.1", "Foo bar", "A; B", "atgc", &[cds("Prot1", "P1.1", "mk")])]);
    let (genomes, peptides) = parse_xml(doc).unwrap();
    assert_eq!(genomes.len(), 1);
    assert_eq!(peptides.len(), 1);
    let empty = Vec::new();
    assert_eq!(parse_genomes(&empty), Err(ExtractError::MissingElement("GBSet".to_string())));
    assert_eq!(parse_peptides(&empty), Err(ExtractError::MissingElement("GBSet".to_string())));
}

#[test]
fn rendering_joins_blocks_with_trailing_newline() {
    assert_eq!(render_blocks(&vec![]), "\n");
    assert_eq!(render_blocks(&vec!["a".to_string()]), "a\n");
    assert_eq!(render_blocks(&vec![">a\nX".to_string(), ">b\nY".to_string()]), ">a\nX\n>b\nY\n");
}
