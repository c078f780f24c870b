//! Character-level rules applied to the fields of a record.

use vstd::prelude::*;

verus! {

/// Lower-case ASCII letters become upper case; every other character is kept.
pub open spec fn ascii_upper(c: char) -> char {
    if 'a' <= c && c <= 'z' {
        ((c as u32) - 32) as char
    } else {
        c
    }
}

pub open spec fn ascii_upper_seq(s: Seq<char>) -> Seq<char> {
    s.map_values(|c: char| ascii_upper(c))
}

/// The lineage rule: every occurrence of `"; "`, taken from the left without
/// overlap, becomes `"__"`. This is splitting on `"; "` and joining the pieces
/// with `"__"`.
pub open spec fn joined_lineage(s: Seq<char>) -> Seq<char>
    decreases s.len(),
{
    if s.len() == 0 {
        Seq::empty()
    } else if s.len() >= 2 && s[0] == ';' && s[1] == ' ' {
        seq!['_', '_'] + joined_lineage(s.skip(2))
    } else {
        seq![s[0]] + joined_lineage(s.skip(1))
    }
}

/// A name for the non-ASCII part of the word-character class `\w` of the regex
/// crate (Unicode alphabetic, marks, decimal digits, connector punctuation,
/// join controls).
pub uninterp spec fn unicode_word_char(c: char) -> bool;

/// The ASCII part of the class `\w`: `[0-9A-Za-z_]`.
pub open spec fn ascii_word_char(c: char) -> bool {
    ('0' <= c && c <= '9') || ('a' <= c && c <= 'z') || ('A' <= c && c <= 'Z') || c == '_'
}

/// The word-character class `\w`.
pub open spec fn word_class() -> spec_fn(char) -> bool {
    |c: char| ascii_word_char(c) || ((c as u32) >= 128 && unicode_word_char(c))
}

/// Every maximal run of one or more characters of `s` outside the class `word`
/// replaced by `rep`.
pub open spec fn replace_runs(s: Seq<char>, rep: Seq<char>, word: spec_fn(char) -> bool) -> Seq<char>
    decreases s.len(),
{
    if s.len() == 0 {
        Seq::empty()
    } else {
        let head = replace_runs(s.drop_last(), rep, word);
        let c = s.last();
        if word(c) {
            head.push(c)
        } else if s.len() >= 2 && !word(s[s.len() - 2]) {
            head
        } else {
            head + rep
        }
    }
}

/// The sanitization rule of header fields: each maximal run of non-word
/// characters becomes one underscore.
pub open spec fn sanitized(s: Seq<char>) -> Seq<char> {
    replace_runs(s, seq!['_'], word_class())
}

/// Blocks separated by single line breaks.
pub open spec fn joined_lines(blocks: Seq<Seq<char>>) -> Seq<char>
    decreases blocks.len(),
{
    if blocks.len() == 0 {
        Seq::empty()
    } else if blocks.len() == 1 {
        blocks[0]
    } else {
        joined_lines(blocks.drop_last()) + seq!['\n'] + blocks.last()
    }
}

/// The text of an output file: the blocks separated by line breaks, and a
/// final line break.
pub open spec fn rendered(blocks: Seq<Seq<char>>) -> Seq<char> {
    joined_lines(blocks).push('\n')
}

proof fn lemma_replace_runs_in_class(s: Seq<char>, rep: Seq<char>, word: spec_fn(char) -> bool)
    requires
        forall|k: int| 0 <= k < rep.len() ==> word(#[trigger] rep[k]),
    ensures
        forall|k: int|
            0 <= k < replace_runs(s, rep, word).len() ==> word(#[trigger] replace_runs(s, rep, word)[k]),
    decreases s.len(),
{
    if s.len() > 0 {
        lemma_replace_runs_in_class(s.drop_last(), rep, word);
        let head = replace_runs(s.drop_last(), rep, word);
        assert forall|k: int| 0 <= k < (head + rep).len() implies word(#[trigger] (head + rep)[k]) by {
            if k >= head.len() {
                assert((head + rep)[k] == rep[k - head.len()]);
            }
        }
    }
}

proof fn lemma_replace_runs_keeps_words(s: Seq<char>, rep: Seq<char>, word: spec_fn(char) -> bool)
    requires
        forall|k: int| 0 <= k < s.len() ==> word(#[trigger] s[k]),
    ensures
        replace_runs(s, rep, word) == s,
    decreases s.len(),
{
    if s.len() > 0 {
        lemma_replace_runs_keeps_words(s.drop_last(), rep, word);
        assert(s.drop_last().push(s.last()) =~= s);
    }
}

/// Sanitizing is idempotent: a sanitized string holds word characters only,
/// the underscore among them, so a second pass leaves it as it is.
pub proof fn lemma_sanitize_idempotent(s: Seq<char>)
    ensures
        sanitized(sanitized(s)) == sanitized(s),
{
    let rep = seq!['_'];
    assert(ascii_word_char('_'));
    assert(word_class()('_'));
    assert forall|k: int| 0 <= k < rep.len() implies word_class()(#[trigger] rep[k]) by {
        assert(rep[k] == '_');
    }
    lemma_replace_runs_in_class(s, rep, word_class());
    lemma_replace_runs_keeps_words(sanitized(s), rep, word_class());
}

/// Upper-casing touches ASCII only: at every position a lower-case ASCII letter
/// becomes the matching upper-case letter, and any other character, every
/// non-ASCII one included, is passed through unchanged.
pub proof fn lemma_upper_is_ascii_only(s: Seq<char>, i: int)
    requires
        0 <= i < s.len(),
    ensures
        ascii_upper_seq(s).len() == s.len(),
        'a' <= s[i] <= 'z' ==> ascii_upper_seq(s)[i] as u32 == s[i] as u32 - 32,
        'a' <= s[i] <= 'z' ==> 'A' <= ascii_upper_seq(s)[i] <= 'Z',
        !('a' <= s[i] <= 'z') ==> ascii_upper_seq(s)[i] == s[i],
        (s[i] as u32) >= 128 ==> ascii_upper_seq(s)[i] == s[i],
{
}

/// Relies on `str::chars`: the characters of `s`, in order.
#[verifier::external_body]
fn chars_of(s: &str) -> (r: Vec<char>)
    ensures
        r@ == s@,
{
    s.chars().collect()
}

/// Relies on `String`'s `FromIterator<&char>`: the characters of `v`, in order.
#[verifier::external_body]
fn string_of(v: &Vec<char>) -> (r: String)
    ensures
        r@ == v@,
{
    v.iter().collect()
}

/// Relies on `regex::Regex::new` and `regex::Regex::replace_all`: the pattern
/// `\W+` is valid, so `new` succeeds; its repetition is greedy, so the matches
/// are exactly the maximal runs of characters outside `\w`; each match is
/// replaced by `rep`, which holds no `$` and so is taken literally.
#[verifier::external_body]
fn regex_replace_all(pattern: &str, s: &str, rep: &str) -> (r: String)
    requires
        pattern@ == "\\W+"@,
        !rep@.contains('$'),
    ensures
        r@ == replace_runs(
            s@,
            rep@,
            |c: char| ascii_word_char(c) || ((c as u32) >= 128 && unicode_word_char(c)),
        ),
{
    regex::Regex::new(pattern).unwrap().replace_all(s, rep).into_owned()
}

fn upper_char(c: char) -> (r: char)
    ensures
        r == ascii_upper(c),
{
    if 'a' <= c && c <= 'z' {
        ((c as u8) - 32) as char
    } else {
        c
    }
}

/// Replaces every maximal run of non-word characters of `s` by one `_`.
pub fn sanitize(s: &str) -> (r: String)
    ensures
        r@ == sanitized(s@),
{
    let rep = "_";
    proof {
        reveal_strlit("_");
        assert(rep@ =~= seq!['_']);
        assert(word_class() =~= (|c: char|
            ascii_word_char(c) || ((c as u32) >= 128 && unicode_word_char(c))));
    }
    regex_replace_all("\\W+", s, rep)
}

/// Upper-cases the ASCII letters of `s` and keeps every other character.
pub fn to_ascii_upper(s: &str) -> (r: String)
    ensures
        r@ == ascii_upper_seq(s@),
{
    let v = chars_of(s);
    let mut out: Vec<char> = Vec::new();
    let mut i: usize = 0;
    while i < v.len()
        invariant
            v@ == s@,
            i <= v.len(),
            out@ =~= ascii_upper_seq(v@.take(i as int)),
        decreases v.len() - i,
    {
        out.push(upper_char(v[i]));
        i = i + 1;
        assert(v@.take(i as int).drop_last() =~= v@.take(i - 1));
    }
    assert(v@.take(v.len() as int) =~= v@);
    string_of(&out)
}

/// Joins the ranks of a lineage: `"A; B"` becomes `"A__B"`.
pub fn join_lineage(s: &str) -> (r: String)
    ensures
        r@ == joined_lineage(s@),
{
    let v = chars_of(s);
    let mut out: Vec<char> = Vec::new();
    let mut i: usize = 0;
    assert(v@.skip(0) =~= v@);
    assert(out@ + joined_lineage(v@) =~= joined_lineage(v@));
    while i < v.len()
        invariant
            v@ == s@,
            i <= v.len(),
            joined_lineage(v@) == out@ + joined_lineage(v@.skip(i as int)),
        decreases v.len() - i,
    {
        let ghost rest = v@.skip(i as int);
        if i + 1 < v.len() && v[i] == ';' && v[i + 1] == ' ' {
            out.push('_');
            out.push('_');
            assert(rest.skip(2) =~= v@.skip(i + 2));
            i = i + 2;
        } else {
            out.push(v[i]);
            assert(rest.skip(1) =~= v@.skip(i + 1));
            i = i + 1;
        }
    }
    assert(out@ + Seq::<char>::empty() =~= out@);
    string_of(&out)
}

/// The text of an output file: the blocks separated by single line breaks,
/// with a line break at the end.
pub fn render_blocks(blocks: &Vec<String>) -> (r: String)
    ensures
        r@ == rendered(blocks@.map_values(|b: String| b@)),
{
    let ghost views = blocks@.map_values(|b: String| b@);
    let nl = "\n";
    proof {
        reveal_strlit("\n");
    }
    let mut out = String::new();
    let mut i: usize = 0;
    while i < blocks.len()
        invariant
            i <= blocks.len(),
            views == blocks@.map_values(|b: String| b@),
            nl@ == seq!['\n'],
            out@ == joined_lines(views.take(i as int)),
        decreases blocks.len() - i,
    {
        if i > 0 {
            out.append(nl);
        }
        out.append(blocks[i].as_str());
        i = i + 1;
        assert(views.take(i as int).drop_last() =~= views.take(i - 1));
    }
    assert(views.take(blocks.len() as int) =~= views);
    out.append(nl);
    out
}

} // verus!
