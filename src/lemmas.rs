//! Facts about the extraction, proved from its definitions.

use vstd::prelude::*;
use crate::extract::{
    cds_peptide, fasta_block, feature_peptides, genome_block, genome_blocks, genome_peptides,
    genome_records, genomes_of, is_cds, peptide_lists, peptides_of, qualifier_value, tag_text,
    ErrorView,
};
use crate::text::{
    ascii_upper_seq, joined_lineage, sanitized, word_class,
};
use crate::xml::{all_tagged, first_tagged, has_tag, subtree_end, NodeView};

verus! {

/// No character of `s` is a line break.
pub open spec fn line_break_free(s: Seq<char>) -> bool {
    forall|k: int| 0 <= k < s.len() ==> s[k] != '\n'
}

proof fn lemma_all_tagged(v: Seq<NodeView>, lo: int, hi: int, tag: Seq<char>)
    ensures
        forall|j: int|
            0 <= j < all_tagged(v, lo, hi, tag).len() ==> lo <= #[trigger] all_tagged(v, lo, hi, tag)[j] < hi
                && has_tag(v[all_tagged(v, lo, hi, tag)[j]], tag),
        forall|i: int, j: int|
            0 <= i < j < all_tagged(v, lo, hi, tag).len() ==> #[trigger] all_tagged(v, lo, hi, tag)[i]
                < #[trigger] all_tagged(v, lo, hi, tag)[j],
        forall|k: int| lo <= k < hi && has_tag(v[k], tag) ==> #[trigger] all_tagged(v, lo, hi, tag).contains(k),
    decreases hi - lo,
{
    if lo < hi {
        lemma_all_tagged(v, lo + 1, hi, tag);
        let rest = all_tagged(v, lo + 1, hi, tag);
        if has_tag(v[lo], tag) {
            let all = seq![lo] + rest;
            assert(all_tagged(v, lo, hi, tag) == all);
            assert forall|k: int| lo <= k < hi && has_tag(v[k], tag) implies #[trigger] all.contains(k) by {
                if k == lo {
                    assert(all[0] == k);
                } else {
                    assert(rest.contains(k));
                    let w = choose|w: int| 0 <= w < rest.len() && rest[w] == k;
                    assert(all[w + 1] == k);
                }
            }
            assert forall|i: int, j: int| 0 <= i < j < all.len() implies #[trigger] all[i] < #[trigger] all[j] by {
                if i > 0 {
                    assert(all[i] == rest[i - 1]);
                }
                assert(all[j] == rest[j - 1]);
            }
            assert forall|j: int| 0 <= j < all.len() implies lo <= #[trigger] all[j] < hi && has_tag(v[all[j]], tag) by {
                if j > 0 {
                    assert(all[j] == rest[j - 1]);
                }
            }
        }
    }
}

proof fn lemma_genome_blocks(v: Seq<NodeView>, gs: Seq<int>)
    ensures
        genome_blocks(v, gs) is Ok <==> forall|j: int| 0 <= j < gs.len() ==> #[trigger] genome_block(v, gs[j]) is Ok,
        genome_blocks(v, gs) is Ok ==> genome_blocks(v, gs)->Ok_0.len() == gs.len(),
        genome_blocks(v, gs) is Ok ==> forall|j: int| 0 <= j < gs.len()
            ==> #[trigger] genome_block(v, gs[j]) == Ok::<Seq<char>, ErrorView>(genome_blocks(v, gs)->Ok_0[j]),
    decreases gs.len(),
{
    if gs.len() > 0 {
        let rest = gs.drop_first();
        lemma_genome_blocks(v, rest);
        assert forall|j: int| 0 < j < gs.len() implies gs[j] == #[trigger] rest[j - 1] by {}
        if genome_blocks(v, gs) is Ok {
            let bs = genome_blocks(v, gs)->Ok_0;
            assert forall|j: int| 0 <= j < gs.len() implies #[trigger] genome_block(v, gs[j])
                == Ok::<Seq<char>, ErrorView>(bs[j]) by {
                if j > 0 {
                    assert(gs[j] == rest[j - 1]);
                }
            }
        }
        if !(genome_block(v, gs[0]) is Ok) {
            assert(!(genome_blocks(v, gs) is Ok));
        } else if !(genome_blocks(v, rest) is Ok) {
            let w = choose|w: int| 0 <= w < rest.len() && !(#[trigger] genome_block(v, rest[w]) is Ok);
            assert(gs[w + 1] == rest[w]);
        }
    }
}

/// For a record set with N genome records, in document order, the genome
/// output has exactly N blocks: the `j`-th is the block of the `j`-th record.
/// The output is an error exactly when the block of some record is.
pub proof fn lemma_one_block_per_genome(v: Seq<NodeView>, gs: Seq<int>)
    requires
        genome_records(v) == Ok::<Seq<int>, ErrorView>(gs),
    ensures
        forall|j: int| 0 <= j < gs.len() ==> has_tag(v[#[trigger] gs[j]], "GBSeq"@),
        forall|i: int, j: int| 0 <= i < j < gs.len() ==> #[trigger] gs[i] < #[trigger] gs[j],
        forall|k: int|
            first_tagged(v, 0, v.len() as int, "GBSet"@)->0 <= k
                < subtree_end(v, first_tagged(v, 0, v.len() as int, "GBSet"@)->0)
                && has_tag(v[k], "GBSeq"@) ==> #[trigger] gs.contains(k),
        genomes_of(v) is Ok <==> forall|j: int| 0 <= j < gs.len() ==> #[trigger] genome_block(v, gs[j]) is Ok,
        genomes_of(v) is Ok ==> genomes_of(v)->Ok_0.len() == gs.len(),
        genomes_of(v) is Ok ==> forall|j: int| 0 <= j < gs.len()
            ==> #[trigger] genome_block(v, gs[j]) == Ok::<Seq<char>, ErrorView>(genomes_of(v)->Ok_0[j]),
{
    let s = first_tagged(v, 0, v.len() as int, "GBSet"@)->0;
    lemma_all_tagged(v, s, subtree_end(v, s), "GBSeq"@);
    lemma_genome_blocks(v, gs);
}

proof fn lemma_sanitized_line_break_free(s: Seq<char>)
    ensures
        line_break_free(sanitized(s)),
    decreases s.len(),
{
    if s.len() > 0 {
        lemma_sanitized_line_break_free(s.drop_last());
        let head = sanitized(s.drop_last());
        assert(!word_class()('\n'));
        assert(line_break_free(head + seq!['_']));
        assert(line_break_free(head.push(s.last())) || !word_class()(s.last()));
    }
}

proof fn lemma_upper_line_break_free(s: Seq<char>)
    requires
        line_break_free(s),
    ensures
        line_break_free(ascii_upper_seq(s)),
{
    assert forall|k: int| 0 <= k < ascii_upper_seq(s).len() implies ascii_upper_seq(s)[k] != '\n' by {
        assert(s[k] != '\n');
    }
}

proof fn lemma_fasta_block_shape(a: Seq<char>, b: Seq<char>, c: Seq<char>, body: Seq<char>)
    requires
        line_break_free(a),
        line_break_free(b),
        line_break_free(c),
        line_break_free(body),
    ensures
        fasta_block(a, b, c, body)[0] == '>',
        fasta_block(a, b, c, body)[(a.len() + b.len() + c.len() + 9) as int] == '\n',
        forall|k: int|
            0 <= k < fasta_block(a, b, c, body).len() && k != a.len() + b.len() + c.len() + 9
                ==> #[trigger] fasta_block(a, b, c, body)[k] != '\n',
        fasta_block(a, b, c, body).skip((a.len() + b.len() + c.len() + 10) as int) == body,
{
    let h = (a.len() + b.len() + c.len() + 9) as int;
    let blk = fasta_block(a, b, c, body);
    let head = seq!['>'] + a + seq![' ', '~', '~', ' '] + b + seq![' ', '~', '~', ' '] + c;
    assert(blk == head + seq!['\n'] + body);
    assert(head.len() == h);
    assert forall|k: int| 0 <= k < head.len() implies head[k] != '\n' by {
        let upto_a = seq!['>'] + a;
        let upto_first_sep = upto_a + seq![' ', '~', '~', ' '];
        let upto_b = upto_first_sep + b;
        let upto_second_sep = upto_b + seq![' ', '~', '~', ' '];
        assert(head == upto_second_sep + c);
        if k >= upto_second_sep.len() {
            assert(head[k] == c[k - upto_second_sep.len()]);
        } else if k >= upto_b.len() {
            assert(head[k] == upto_second_sep[k]);
        } else if k >= upto_first_sep.len() {
            assert(head[k] == upto_b[k]);
            assert(upto_b[k] == b[k - upto_first_sep.len()]);
        } else if k >= upto_a.len() {
            assert(head[k] == upto_first_sep[k]);
        } else if k >= 1 {
            assert(head[k] == upto_a[k]);
            assert(upto_a[k] == a[k - 1]);
        }
    }
    assert forall|k: int| 0 <= k < blk.len() && k != h implies #[trigger] blk[k] != '\n' by {
        if k > h {
            assert(blk[k] == body[k - h - 1]);
        } else {
            assert(blk[k] == head[k]);
        }
    }
    assert(blk.skip(h + 1) =~= body);
}

/// A genome block begins with `>` and holds exactly one line break, which
/// parts the header from the upper-cased sequence, whenever the accession and
/// the sequence hold none: the sanitized organism and lineage never do.
pub proof fn lemma_genome_block_shape(acc: Seq<char>, organism: Seq<char>, taxonomy: Seq<char>, sequence: Seq<char>)
    requires
        line_break_free(acc),
        line_break_free(sequence),
    ensures
        ({
            let blk = fasta_block(
                acc,
                sanitized(organism),
                sanitized(joined_lineage(taxonomy)),
                ascii_upper_seq(sequence),
            );
            let h = blk.len() - sequence.len() - 1;
            &&& blk[0] == '>'
            &&& blk[h] == '\n'
            &&& forall|k: int| 0 <= k < blk.len() && k != h ==> #[trigger] blk[k] != '\n'
            &&& blk.skip(h + 1) == ascii_upper_seq(sequence)
        }),
{
    lemma_sanitized_line_break_free(organism);
    lemma_sanitized_line_break_free(joined_lineage(taxonomy));
    lemma_upper_line_break_free(sequence);
    lemma_fasta_block_shape(
        acc,
        sanitized(organism),
        sanitized(joined_lineage(taxonomy)),
        ascii_upper_seq(sequence),
    );
}

/// A peptide block begins with `>` and holds exactly one line break, which
/// parts the header from the upper-cased translation, whenever the protein
/// accession, the genome accession and the translation hold none: the
/// sanitized product never does.
pub proof fn lemma_peptide_block_shape(protein_id: Seq<char>, genome_acc: Seq<char>, product: Seq<char>, translation: Seq<char>)
    requires
        line_break_free(protein_id),
        line_break_free(genome_acc),
        line_break_free(translation),
    ensures
        ({
            let blk = fasta_block(
                protein_id,
                genome_acc,
                sanitized(product),
                ascii_upper_seq(translation),
            );
            let h = blk.len() - translation.len() - 1;
            &&& blk[0] == '>'
            &&& blk[h] == '\n'
            &&& forall|k: int| 0 <= k < blk.len() && k != h ==> #[trigger] blk[k] != '\n'
            &&& blk.skip(h + 1) == ascii_upper_seq(translation)
        }),
{
    lemma_sanitized_line_break_free(product);
    lemma_upper_line_break_free(translation);
    lemma_fasta_block_shape(protein_id, genome_acc, sanitized(product), ascii_upper_seq(translation));
}

proof fn lemma_no_cds_in_range(v: Seq<NodeView>, lo: int, hi: int, acc: Seq<char>)
    requires
        forall|k: int| lo <= k < hi ==> #[trigger] is_cds(v, k) == Ok::<bool, ErrorView>(false),
    ensures
        feature_peptides(v, lo, hi, acc) == Ok::<Seq<Seq<char>>, ErrorView>(Seq::empty()),
    decreases hi - lo,
{
    if lo < hi {
        assert(is_cds(v, lo) == Ok::<bool, ErrorView>(false));
        lemma_no_cds_in_range(v, lo + 1, hi, acc);
    }
}

/// A genome record whose feature table holds no CDS feature contributes no
/// peptide block (its genome block is counted by
/// `lemma_one_block_per_genome`).
pub proof fn lemma_no_cds_no_peptides(v: Seq<NodeView>, g: int, ft: int)
    requires
        tag_text(v, g, "GBSeq_accession-version"@) is Ok,
        first_tagged(v, g, subtree_end(v, g), "GBSeq_feature-table"@) == Some(ft),
        forall|k: int| ft <= k < subtree_end(v, ft) ==> #[trigger] is_cds(v, k) == Ok::<bool, ErrorView>(false),
    ensures
        genome_peptides(v, g) == Ok::<Seq<Seq<char>>, ErrorView>(Seq::empty()),
{
    let acc = tag_text(v, g, "GBSeq_accession-version"@)->Ok_0;
    lemma_no_cds_in_range(v, ft, subtree_end(v, ft), acc);
}

/// A feature whose key is anything but exactly `CDS` (`CDS_region`, say) is
/// not a CDS feature, and gives no peptide block: the features after it give
/// the same blocks as without it.
pub proof fn lemma_non_cds_key_skipped(v: Seq<NodeView>, lo: int, hi: int, acc: Seq<char>, key: Seq<char>)
    requires
        lo < hi,
        has_tag(v[lo], "GBFeature"@),
        tag_text(v, lo, "GBFeature_key"@) == Ok::<Seq<char>, ErrorView>(key),
        key != "CDS"@,
    ensures
        is_cds(v, lo) == Ok::<bool, ErrorView>(false),
        feature_peptides(v, lo, hi, acc) == feature_peptides(v, lo + 1, hi, acc),
{
}

proof fn lemma_qualifier_absent(v: Seq<NodeView>, quals: Seq<int>, name: Seq<char>)
    requires
        forall|j: int| 0 <= j < quals.len() ==> (#[trigger] tag_text(v, quals[j], "GBQualifier_name"@) is Ok
            && tag_text(v, quals[j], "GBQualifier_name"@)->Ok_0 != name),
    ensures
        qualifier_value(v, quals, name) == Err::<Seq<char>, ErrorView>(ErrorView::MissingQualifier(name)),
    decreases quals.len(),
{
    if quals.len() > 0 {
        let rest = quals.drop_first();
        assert(tag_text(v, quals[0], "GBQualifier_name"@) is Ok);
        assert forall|j: int| 0 <= j < rest.len() implies (#[trigger] tag_text(v, rest[j], "GBQualifier_name"@) is Ok
            && tag_text(v, rest[j], "GBQualifier_name"@)->Ok_0 != name) by {
            assert(rest[j] == quals[j + 1]);
        }
        lemma_qualifier_absent(v, rest, name);
    }
}

proof fn lemma_feature_error(v: Seq<NodeView>, lo: int, hi: int, f: int, acc: Seq<char>)
    requires
        lo <= f < hi,
        is_cds(v, f) == Ok::<bool, ErrorView>(true),
        cds_peptide(v, f, acc) is Err,
    ensures
        feature_peptides(v, lo, hi, acc) is Err,
    decreases f - lo,
{
    if lo < f {
        lemma_feature_error(v, lo + 1, hi, f, acc);
    }
}

proof fn lemma_genome_error(v: Seq<NodeView>, gs: Seq<int>, j: int)
    requires
        0 <= j < gs.len(),
        genome_peptides(v, gs[j]) is Err,
    ensures
        peptide_lists(v, gs) is Err,
    decreases j,
{
    if j > 0 {
        assert(gs.drop_first()[j - 1] == gs[j]);
        lemma_genome_error(v, gs.drop_first(), j - 1);
    }
}

/// A CDS feature that lacks one of the qualifiers `product`, `protein_id` and
/// `translation` makes the whole peptide extraction fail: the feature is not
/// skipped. Here the qualifiers of the feature all have readable names, none
/// of them `name`.
pub proof fn lemma_missing_qualifier_fails_run(
    v: Seq<NodeView>,
    gs: Seq<int>,
    j: int,
    ft: int,
    f: int,
    q: int,
    name: Seq<char>,
)
    requires
        genome_records(v) == Ok::<Seq<int>, ErrorView>(gs),
        0 <= j < gs.len(),
        tag_text(v, gs[j], "GBSeq_accession-version"@) is Ok,
        first_tagged(v, gs[j], subtree_end(v, gs[j]), "GBSeq_feature-table"@) == Some(ft),
        ft <= f < subtree_end(v, ft),
        is_cds(v, f) == Ok::<bool, ErrorView>(true),
        first_tagged(v, f, subtree_end(v, f), "GBFeature_quals"@) == Some(q),
        name == "product"@ || name == "protein_id"@ || name == "translation"@,
        forall|i: int| 0 <= i < all_tagged(v, q, subtree_end(v, q), "GBQualifier"@).len() ==> (
            #[trigger] tag_text(v, all_tagged(v, q, subtree_end(v, q), "GBQualifier"@)[i], "GBQualifier_name"@) is Ok
            && tag_text(v, all_tagged(v, q, subtree_end(v, q), "GBQualifier"@)[i], "GBQualifier_name"@)->Ok_0 != name),
    ensures
        peptides_of(v) is Err,
{
    let acc = tag_text(v, gs[j], "GBSeq_accession-version"@)->Ok_0;
    let quals = all_tagged(v, q, subtree_end(v, q), "GBQualifier"@);
    lemma_qualifier_absent(v, quals, name);
    assert(cds_peptide(v, f, acc) is Err);
    lemma_feature_error(v, ft, subtree_end(v, ft), f, acc);
    lemma_genome_error(v, gs, j);
}

} // verus!
