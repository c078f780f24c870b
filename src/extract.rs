//! Extraction of the genome and peptide FASTA blocks from a parsed document.

use vstd::prelude::*;
use crate::text::{
    ascii_upper_seq, join_lineage, joined_lineage, sanitize, sanitized, to_ascii_upper,
};
use crate::xml::{
    parse_nodes, parsed_nodes, all_tagged, collect_tagged, find_subtree_end, find_tagged, first_tagged, node_has_tag,
    has_tag, subtree_end, view_nodes, NodeView, XmlNode,
};

verus! {

/// Why a document could not be converted. Each lookup error names the tag or
/// qualifier that was looked for.
#[derive(Debug, Clone, PartialEq, Eq)]
pub enum ExtractError {
    /// The text is not a well-formed XML document.
    MalformedDocument,
    /// No element with this tag where one was expected.
    MissingElement(String),
    /// The element with this tag holds no text.
    MissingText(String),
    /// The feature holds no qualifier of this name.
    MissingQualifier(String),
}

/// The mathematical value of an [`ExtractError`].
pub enum ErrorView {
    MalformedDocument,
    MissingElement(Seq<char>),
    MissingText(Seq<char>),
    MissingQualifier(Seq<char>),
}

impl View for ExtractError {
    type V = ErrorView;

    open spec fn view(&self) -> ErrorView {
        match self {
            ExtractError::MalformedDocument => ErrorView::MalformedDocument,
            ExtractError::MissingElement(t) => ErrorView::MissingElement(t@),
            ExtractError::MissingText(t) => ErrorView::MissingText(t@),
            ExtractError::MissingQualifier(t) => ErrorView::MissingQualifier(t@),
        }
    }
}

/// The view of a list of strings.
pub open spec fn views_of(v: Seq<String>) -> Seq<Seq<char>> {
    v.map_values(|s: String| s@)
}

/// The view of a result that holds a list of strings.
pub open spec fn result_view(r: Result<Vec<String>, ExtractError>) -> Result<Seq<Seq<char>>, ErrorView> {
    match r {
        Ok(v) => Ok(views_of(v@)),
        Err(e) => Err(e@),
    }
}

/// A FASTA block: `>` and the three header fields separated by `" ~~ "`, a
/// line break, and the body.
pub open spec fn fasta_block(a: Seq<char>, b: Seq<char>, c: Seq<char>, body: Seq<char>) -> Seq<char> {
    seq!['>'] + a + seq![' ', '~', '~', ' '] + b + seq![' ', '~', '~', ' '] + c + seq!['\n'] + body
}

/// The text of the first descendant of node `i` (or `i` itself) with the tag.
pub open spec fn tag_text(v: Seq<NodeView>, i: int, tag: Seq<char>) -> Result<Seq<char>, ErrorView> {
    match first_tagged(v, i, subtree_end(v, i), tag) {
        None => Err(ErrorView::MissingElement(tag)),
        Some(k) => match v[k].text {
            None => Err(ErrorView::MissingText(tag)),
            Some(t) => Ok(t),
        },
    }
}

/// The positions of the genome records: every `GBSeq` inside the first
/// `GBSet` of the document.
pub open spec fn genome_records(v: Seq<NodeView>) -> Result<Seq<int>, ErrorView> {
    match first_tagged(v, 0, v.len() as int, "GBSet"@) {
        None => Err(ErrorView::MissingElement("GBSet"@)),
        Some(s) => Ok(all_tagged(v, s, subtree_end(v, s), "GBSeq"@)),
    }
}

/// The genome block of the record at `g`.
pub open spec fn genome_block(v: Seq<NodeView>, g: int) -> Result<Seq<char>, ErrorView> {
    match tag_text(v, g, "GBSeq_accession-version"@) {
        Err(e) => Err(e),
        Ok(acc) => match tag_text(v, g, "GBSeq_organism"@) {
            Err(e) => Err(e),
            Ok(organism) => match tag_text(v, g, "GBSeq_taxonomy"@) {
                Err(e) => Err(e),
                Ok(taxonomy) => match tag_text(v, g, "GBSeq_sequence"@) {
                    Err(e) => Err(e),
                    Ok(sequence) => Ok(
                        fasta_block(
                            acc,
                            sanitized(organism),
                            sanitized(joined_lineage(taxonomy)),
                            ascii_upper_seq(sequence),
                        ),
                    ),
                },
            },
        },
    }
}

/// The genome blocks of the records at `gs`, in order; the first error met.
pub open spec fn genome_blocks(v: Seq<NodeView>, gs: Seq<int>) -> Result<Seq<Seq<char>>, ErrorView>
    decreases gs.len(),
{
    if gs.len() == 0 {
        Ok(Seq::empty())
    } else {
        match genome_block(v, gs[0]) {
            Err(e) => Err(e),
            Ok(b) => match genome_blocks(v, gs.drop_first()) {
                Err(e) => Err(e),
                Ok(bs) => Ok(seq![b] + bs),
            },
        }
    }
}

/// All genome blocks of the document.
pub open spec fn genomes_of(v: Seq<NodeView>) -> Result<Seq<Seq<char>>, ErrorView> {
    match genome_records(v) {
        Err(e) => Err(e),
        Ok(gs) => genome_blocks(v, gs),
    }
}

/// `xs` put before the list of `r`, or the error of `r`.
pub open spec fn prepend(xs: Seq<Seq<char>>, r: Result<Seq<Seq<char>>, ErrorView>) -> Result<Seq<Seq<char>>, ErrorView> {
    match r {
        Err(e) => Err(e),
        Ok(bs) => Ok(xs + bs),
    }
}

/// The value of the first qualifier among `quals` whose name is `name`.
pub open spec fn qualifier_value(v: Seq<NodeView>, quals: Seq<int>, name: Seq<char>) -> Result<Seq<char>, ErrorView>
    decreases quals.len(),
{
    if quals.len() == 0 {
        Err(ErrorView::MissingQualifier(name))
    } else {
        match tag_text(v, quals[0], "GBQualifier_name"@) {
            Err(e) => Err(e),
            Ok(n) => if n == name {
                tag_text(v, quals[0], "GBQualifier_value"@)
            } else {
                qualifier_value(v, quals.drop_first(), name)
            },
        }
    }
}

/// Whether node `k` is a feature whose key is exactly `CDS`.
pub open spec fn is_cds(v: Seq<NodeView>, k: int) -> Result<bool, ErrorView> {
    if !has_tag(v[k], "GBFeature"@) {
        Ok(false)
    } else {
        match tag_text(v, k, "GBFeature_key"@) {
            Err(e) => Err(e),
            Ok(key) => Ok(key == "CDS"@),
        }
    }
}

/// The peptide block of the CDS feature at `f` of the genome `genome_acc`.
pub open spec fn cds_peptide(v: Seq<NodeView>, f: int, genome_acc: Seq<char>) -> Result<Seq<char>, ErrorView> {
    match first_tagged(v, f, subtree_end(v, f), "GBFeature_quals"@) {
        None => Err(ErrorView::MissingElement("GBFeature_quals"@)),
        Some(q) => {
            let quals = all_tagged(v, q, subtree_end(v, q), "GBQualifier"@);
            match qualifier_value(v, quals, "product"@) {
                Err(e) => Err(e),
                Ok(product) => match qualifier_value(v, quals, "protein_id"@) {
                    Err(e) => Err(e),
                    Ok(protein_id) => match qualifier_value(v, quals, "translation"@) {
                        Err(e) => Err(e),
                        Ok(translation) => Ok(
                            fasta_block(
                                protein_id,
                                genome_acc,
                                sanitized(product),
                                ascii_upper_seq(translation),
                            ),
                        ),
                    },
                },
            }
        },
    }
}

/// The peptide blocks of the CDS features at positions `lo .. hi`, in order.
pub open spec fn feature_peptides(v: Seq<NodeView>, lo: int, hi: int, genome_acc: Seq<char>) -> Result<Seq<Seq<char>>, ErrorView>
    decreases hi - lo,
{
    if lo >= hi {
        Ok(Seq::empty())
    } else {
        match is_cds(v, lo) {
            Err(e) => Err(e),
            Ok(false) => feature_peptides(v, lo + 1, hi, genome_acc),
            Ok(true) => match cds_peptide(v, lo, genome_acc) {
                Err(e) => Err(e),
                Ok(p) => prepend(seq![p], feature_peptides(v, lo + 1, hi, genome_acc)),
            },
        }
    }
}

/// The peptide blocks of the genome record at `g`: one per CDS feature of its
/// feature table.
pub open spec fn genome_peptides(v: Seq<NodeView>, g: int) -> Result<Seq<Seq<char>>, ErrorView> {
    match tag_text(v, g, "GBSeq_accession-version"@) {
        Err(e) => Err(e),
        Ok(acc) => match first_tagged(v, g, subtree_end(v, g), "GBSeq_feature-table"@) {
            None => Err(ErrorView::MissingElement("GBSeq_feature-table"@)),
            Some(ft) => feature_peptides(v, ft, subtree_end(v, ft), acc),
        },
    }
}

/// The peptide blocks of the records at `gs`, genome after genome.
pub open spec fn peptide_lists(v: Seq<NodeView>, gs: Seq<int>) -> Result<Seq<Seq<char>>, ErrorView>
    decreases gs.len(),
{
    if gs.len() == 0 {
        Ok(Seq::empty())
    } else {
        match genome_peptides(v, gs[0]) {
            Err(e) => Err(e),
            Ok(ps) => prepend(ps, peptide_lists(v, gs.drop_first())),
        }
    }
}

/// All peptide blocks of the document.
pub open spec fn peptides_of(v: Seq<NodeView>) -> Result<Seq<Seq<char>>, ErrorView> {
    match genome_records(v) {
        Err(e) => Err(e),
        Ok(gs) => peptide_lists(v, gs),
    }
}

/// The text of the first descendant of node `i` with the tag.
pub fn get_descendant_tag_text(nodes: &Vec<XmlNode>, i: usize, tag: &String) -> (r: Result<String, ExtractError>)
    requires
        i < nodes.len(),
    ensures
        (match r {
            Ok(t) => Ok(t@),
            Err(e) => Err(e@),
        }) == tag_text(view_nodes(nodes@), i as int, tag@),
{
    let end = find_subtree_end(nodes, i);
    match find_tagged(nodes, i, end, tag) {
        None => Err(ExtractError::MissingElement(tag.clone())),
        Some(k) => match &nodes[k].text {
            None => Err(ExtractError::MissingText(tag.clone())),
            Some(t) => Ok(t.clone()),
        },
    }
}

/// The FASTA block of three header fields and a body.
fn make_block(a: &str, b: &str, c: &str, body: &str) -> (r: String)
    ensures
        r@ == fasta_block(a@, b@, c@, body@),
{
    let start = ">";
    let sep = " ~~ ";
    let nl = "\n";
    proof {
        reveal_strlit(">");
        reveal_strlit(" ~~ ");
        reveal_strlit("\n");
    }
    let mut r = String::new();
    r.append(start);
    r.append(a);
    r.append(sep);
    r.append(b);
    r.append(sep);
    r.append(c);
    r.append(nl);
    r.append(body);
    assert(r@ =~= fasta_block(a@, b@, c@, body@));
    r
}

/// The genome block of the record at `g`.
fn format_genome(nodes: &Vec<XmlNode>, g: usize) -> (r: Result<String, ExtractError>)
    requires
        g < nodes.len(),
    ensures
        (match r {
            Ok(t) => Ok(t@),
            Err(e) => Err(e@),
        }) == genome_block(view_nodes(nodes@), g as int),
{
    let acc = get_descendant_tag_text(nodes, g, &String::from_str("GBSeq_accession-version"))?;
    let organism = get_descendant_tag_text(nodes, g, &String::from_str("GBSeq_organism"))?;
    let taxonomy = get_descendant_tag_text(nodes, g, &String::from_str("GBSeq_taxonomy"))?;
    let sequence = get_descendant_tag_text(nodes, g, &String::from_str("GBSeq_sequence"))?;
    let lineage = join_lineage(taxonomy.as_str());
    Ok(make_block(
        acc.as_str(),
        sanitize(organism.as_str()).as_str(),
        sanitize(lineage.as_str()).as_str(),
        to_ascii_upper(sequence.as_str()).as_str(),
    ))
}

/// The positions of the genome records: every `GBSeq` inside the first `GBSet`.
fn find_genome_records(nodes: &Vec<XmlNode>) -> (r: Result<Vec<usize>, ExtractError>)
    ensures
        (match r {
            Ok(gs) => Ok(gs@.map_values(|x: usize| x as int)),
            Err(e) => Err(e@),
        }) == genome_records(view_nodes(nodes@)),
        r matches Ok(gs) ==> forall|j: int| 0 <= j < gs@.len() ==> #[trigger] gs@[j] < nodes.len(),
{
    let set_tag = String::from_str("GBSet");
    match find_tagged(nodes, 0, nodes.len(), &set_tag) {
        None => Err(ExtractError::MissingElement(set_tag)),
        Some(s) => {
            let end = find_subtree_end(nodes, s);
            Ok(collect_tagged(nodes, s, end, &String::from_str("GBSeq")))
        },
    }
}

/// The genome blocks of the document, one per genome record, in document
/// order.
pub fn parse_genomes(nodes: &Vec<XmlNode>) -> (r: Result<Vec<String>, ExtractError>)
    ensures
        result_view(r) == genomes_of(view_nodes(nodes@)),
{
    let ghost v = view_nodes(nodes@);
    let gs = find_genome_records(nodes)?;
    let ghost gi = gs@.map_values(|x: usize| x as int);
    let mut out: Vec<String> = Vec::new();
    let mut j: usize = 0;
    assert(gi.skip(0) =~= gi);
    assert(views_of(out@) + Seq::<Seq<char>>::empty() =~= Seq::<Seq<char>>::empty());
    while j < gs.len()
        invariant
            v == view_nodes(nodes@),
            gi == gs@.map_values(|x: usize| x as int),
            genome_records(v) == Ok::<Seq<int>, ErrorView>(gi),
            forall|k: int| 0 <= k < gs@.len() ==> #[trigger] gs@[k] < nodes.len(),
            j <= gs.len(),
            genome_blocks(v, gi) == prepend(views_of(out@), genome_blocks(v, gi.skip(j as int))),
        decreases gs.len() - j,
    {
        let ghost rest = gi.skip(j as int);
        assert(rest.drop_first() =~= gi.skip(j + 1));
        assert(rest[0] == gs@[j as int] as int);
        let block = match format_genome(nodes, gs[j]) {
            Ok(b) => b,
            Err(e) => {
                assert(genome_blocks(v, rest) == Err::<Seq<Seq<char>>, ErrorView>(e@));
                return Err(e);
            },
        };
        let ghost before = out@;
        out.push(block);
        assert(views_of(out@) =~= views_of(before) + seq![block@]);
        proof {
            match genome_blocks(v, gi.skip(j + 1)) {
                Ok(bs) => {
                    assert(views_of(before) + (seq![block@] + bs) =~= views_of(out@) + bs);
                },
                Err(e) => {},
            }
        }
        j = j + 1;
    }
    assert(views_of(out@) + Seq::<Seq<char>>::empty() =~= views_of(out@));
    Ok(out)
}

/// The value of the first qualifier among `quals` whose name is `name`.
pub fn get_qualifier_value(nodes: &Vec<XmlNode>, quals: &Vec<usize>, name: &String) -> (r: Result<String, ExtractError>)
    requires
        forall|j: int| 0 <= j < quals@.len() ==> #[trigger] quals@[j] < nodes.len(),
    ensures
        (match r {
            Ok(t) => Ok(t@),
            Err(e) => Err(e@),
        }) == qualifier_value(view_nodes(nodes@), quals@.map_values(|x: usize| x as int), name@),
{
    let ghost v = view_nodes(nodes@);
    let ghost qi = quals@.map_values(|x: usize| x as int);
    let name_tag = String::from_str("GBQualifier_name");
    let value_tag = String::from_str("GBQualifier_value");
    let mut j: usize = 0;
    assert(qi.skip(0) =~= qi);
    while j < quals.len()
        invariant
            v == view_nodes(nodes@),
            qi == quals@.map_values(|x: usize| x as int),
            forall|k: int| 0 <= k < quals@.len() ==> #[trigger] quals@[k] < nodes.len(),
            j <= quals.len(),
            name_tag@ == "GBQualifier_name"@,
            value_tag@ == "GBQualifier_value"@,
            qualifier_value(v, qi, name@) == qualifier_value(v, qi.skip(j as int), name@),
        decreases quals.len() - j,
    {
        let ghost rest = qi.skip(j as int);
        assert(rest.drop_first() =~= qi.skip(j + 1));
        assert(rest[0] == quals@[j as int] as int);
        let n = get_descendant_tag_text(nodes, quals[j], &name_tag)?;
        if n == *name {
            return get_descendant_tag_text(nodes, quals[j], &value_tag);
        }
        j = j + 1;
    }
    Err(ExtractError::MissingQualifier(name.clone()))
}

/// Whether node `k` is a feature whose key is exactly `CDS`.
pub fn is_cds_feature(nodes: &Vec<XmlNode>, k: usize) -> (r: Result<bool, ExtractError>)
    requires
        k < nodes.len(),
    ensures
        (match r {
            Ok(b) => Ok(b),
            Err(e) => Err(e@),
        }) == is_cds(view_nodes(nodes@), k as int),
{
    if !node_has_tag(&nodes[k], &String::from_str("GBFeature")) {
        return Ok(false);
    }
    let key = get_descendant_tag_text(nodes, k, &String::from_str("GBFeature_key"))?;
    Ok(key == String::from_str("CDS"))
}

/// The peptide block of the CDS feature at `f` of the genome `genome_acc`.
fn format_peptide(nodes: &Vec<XmlNode>, f: usize, genome_acc: &String) -> (r: Result<String, ExtractError>)
    requires
        f < nodes.len(),
    ensures
        (match r {
            Ok(t) => Ok(t@),
            Err(e) => Err(e@),
        }) == cds_peptide(view_nodes(nodes@), f as int, genome_acc@),
{
    let quals_tag = String::from_str("GBFeature_quals");
    let end = find_subtree_end(nodes, f);
    let q = match find_tagged(nodes, f, end, &quals_tag) {
        None => return Err(ExtractError::MissingElement(quals_tag)),
        Some(q) => q,
    };
    let q_end = find_subtree_end(nodes, q);
    let quals = collect_tagged(nodes, q, q_end, &String::from_str("GBQualifier"));
    let product = get_qualifier_value(nodes, &quals, &String::from_str("product"))?;
    let protein_id = get_qualifier_value(nodes, &quals, &String::from_str("protein_id"))?;
    let translation = get_qualifier_value(nodes, &quals, &String::from_str("translation"))?;
    Ok(make_block(
        protein_id.as_str(),
        genome_acc.as_str(),
        sanitize(product.as_str()).as_str(),
        to_ascii_upper(translation.as_str()).as_str(),
    ))
}

/// The peptide blocks of the genome record at `g`, one per CDS feature of its
/// feature table, in document order.
fn genome_peptide_blocks(nodes: &Vec<XmlNode>, g: usize) -> (r: Result<Vec<String>, ExtractError>)
    requires
        g < nodes.len(),
    ensures
        result_view(r) == genome_peptides(view_nodes(nodes@), g as int),
{
    let ghost v = view_nodes(nodes@);
    let genome_acc = get_descendant_tag_text(nodes, g, &String::from_str("GBSeq_accession-version"))?;
    let table_tag = String::from_str("GBSeq_feature-table");
    let end = find_subtree_end(nodes, g);
    let ft = match find_tagged(nodes, g, end, &table_tag) {
        None => return Err(ExtractError::MissingElement(table_tag)),
        Some(ft) => ft,
    };
    let ft_end = find_subtree_end(nodes, ft);
    let mut out: Vec<String> = Vec::new();
    let mut k: usize = ft;
    assert(views_of(out@) + Seq::<Seq<char>>::empty() =~= Seq::<Seq<char>>::empty());
    while k < ft_end
        invariant
            v == view_nodes(nodes@),
            ft <= k <= ft_end <= nodes.len(),
            genome_peptides(v, g as int) == prepend(
                views_of(out@),
                feature_peptides(v, k as int, ft_end as int, genome_acc@),
            ),
        decreases ft_end - k,
    {
        let cds = match is_cds_feature(nodes, k) {
            Ok(b) => b,
            Err(e) => return Err(e),
        };
        if cds {
            let p = match format_peptide(nodes, k, &genome_acc) {
                Ok(p) => p,
                Err(e) => return Err(e),
            };
            let ghost before = out@;
            out.push(p);
            assert(views_of(out@) =~= views_of(before) + seq![p@]);
            proof {
                match feature_peptides(v, k + 1, ft_end as int, genome_acc@) {
                    Ok(bs) => {
                        assert(views_of(before) + (seq![p@] + bs) =~= views_of(out@) + bs);
                    },
                    Err(e) => {},
                }
            }
        }
        k = k + 1;
    }
    assert(views_of(out@) + Seq::<Seq<char>>::empty() =~= views_of(out@));
    Ok(out)
}

/// The peptide blocks of the document: those of the first genome record, then
/// those of the second, and so on.
pub fn parse_peptides(nodes: &Vec<XmlNode>) -> (r: Result<Vec<String>, ExtractError>)
    ensures
        result_view(r) == peptides_of(view_nodes(nodes@)),
{
    let ghost v = view_nodes(nodes@);
    let gs = find_genome_records(nodes)?;
    let ghost gi = gs@.map_values(|x: usize| x as int);
    let mut out: Vec<String> = Vec::new();
    let mut j: usize = 0;
    assert(gi.skip(0) =~= gi);
    assert(views_of(out@) + Seq::<Seq<char>>::empty() =~= Seq::<Seq<char>>::empty());
    while j < gs.len()
        invariant
            v == view_nodes(nodes@),
            gi == gs@.map_values(|x: usize| x as int),
            genome_records(v) == Ok::<Seq<int>, ErrorView>(gi),
            forall|k: int| 0 <= k < gs@.len() ==> #[trigger] gs@[k] < nodes.len(),
            j <= gs.len(),
            peptide_lists(v, gi) == prepend(views_of(out@), peptide_lists(v, gi.skip(j as int))),
        decreases gs.len() - j,
    {
        let ghost rest = gi.skip(j as int);
        assert(rest.drop_first() =~= gi.skip(j + 1));
        assert(rest[0] == gs@[j as int] as int);
        let mut ps = match genome_peptide_blocks(nodes, gs[j]) {
            Ok(ps) => ps,
            Err(e) => {
                assert(peptide_lists(v, rest) == Err::<Seq<Seq<char>>, ErrorView>(e@));
                return Err(e);
            },
        };
        let ghost before = out@;
        let ghost added = ps@;
        out.append(&mut ps);
        assert(views_of(out@) =~= views_of(before) + views_of(added));
        proof {
            match peptide_lists(v, gi.skip(j + 1)) {
                Ok(bs) => {
                    assert(views_of(before) + (views_of(added) + bs) =~= views_of(out@) + bs);
                },
                Err(e) => {},
            }
        }
        j = j + 1;
    }
    assert(views_of(out@) + Seq::<Seq<char>>::empty() =~= views_of(out@));
    Ok(out)
}

/// The two outputs of a document text: its genome blocks and its peptide
/// blocks, or the first error met (genomes are extracted before peptides).
pub open spec fn conversion_of(text: Seq<char>) -> Result<(Seq<Seq<char>>, Seq<Seq<char>>), ErrorView> {
    match parsed_nodes(text) {
        None => Err(ErrorView::MalformedDocument),
        Some(v) => match genomes_of(v) {
            Err(e) => Err(e),
            Ok(genomes) => match peptides_of(v) {
                Err(e) => Err(e),
                Ok(peptides) => Ok((genomes, peptides)),
            },
        },
    }
}

/// Parses a GenBank XML text and extracts its genome blocks and its peptide
/// blocks.
pub fn parse_xml(xml: String) -> (r: Result<(Vec<String>, Vec<String>), ExtractError>)
    ensures
        (match r {
            Ok((g, p)) => Ok((views_of(g@), views_of(p@))),
            Err(e) => Err(e@),
        }) == conversion_of(xml@),
{
    let nodes = match parse_nodes(xml.as_str()) {
        Ok(nodes) => nodes,
        Err(_) => return Err(ExtractError::MalformedDocument),
    };
    let genomes = parse_genomes(&nodes)?;
    let peptides = parse_peptides(&nodes)?;
    Ok((genomes, peptides))
}

} // verus!
