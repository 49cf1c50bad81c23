use vstd::prelude::*;
use crate::blocks::Blocks;
use crate::inlines::render_line;
use crate::parse::{
    blank, continues, document, eq_run, heading_level, initial, is_word, leaf_close, parent_close, run,
    step, ParserView,
};
use crate::text::{join, words};

verus! {

/// The classification of a line as plain text: not blank, not a delimiter line,
/// and not starting with a heading, list or attribute marker.
pub open spec fn is_plain_text(line: Seq<char>) -> bool {
    let w = words(line);
    &&& w.len() > 0
    &&& !(w.len() == 1 && (is_word(w[0], "'''"@) || is_word(w[0], ">>>"@) || is_word(w[0], "****"@)
        || is_word(w[0], "----"@)))
    &&& !(w[0].len() > 0 && (w[0][0] == '=' || w[0][0] == '*' || w[0][0] == '.' || w[0][0] == '['))
}

/// A blank line closes exactly the open leaf block and container, and leaves the
/// parser in its initial state but for the output and the warnings.
pub proof fn lemma_blank_line_resets(m: ParserView, line: Seq<char>)
    requires
        words(line).len() == 0,
    ensures
        step(m, line) == (ParserView {
            markup: m.markup + leaf_close(m) + parent_close(m),
            warnings: m.warnings,
            ..initial()
        }),
{
}

/// At the end of the input no tag is left open.
pub proof fn lemma_end_closes_all(ls: Seq<Seq<char>>)
    ensures
        blank(run(initial(), ls)).block is None,
        !blank(run(initial(), ls)).in_tag,
        blank(run(initial(), ls)).parent is None,
        document(ls) == run(initial(), ls).markup + leaf_close(run(initial(), ls)) + parent_close(
            run(initial(), ls),
        ),
{
}

/// A plain text line that continues an open block keeps the container and the
/// leaf block, however often it comes in a row.
pub proof fn lemma_continuation_keeps_blocks(m: ParserView, line: Seq<char>)
    requires
        continues(m),
        is_plain_text(line),
    ensures
        step(m, line).parent == m.parent,
        step(m, line).block == m.block,
        step(m, line).class == m.class,
        step(step(m, line), line).parent == m.parent,
        step(step(m, line), line).block == m.block,
        step(m, line).markup == m.markup + render_line(line),
{
}

proof fn lemma_eq_run_all(t: Seq<char>, k: int)
    requires
        0 <= k <= t.len(),
        forall|i: int| 0 <= i < t.len() ==> t[i] == '=',
    ensures
        eq_run(t, k) == t.len() - k,
    decreases t.len() - k,
{
    if k < t.len() {
        lemma_eq_run_all(t, k + 1);
    }
}

/// A line whose first word is `n` equals signs, fed to a fresh parser and then
/// closed, is the heading of level `n` holding the rest of the line's words, with
/// no container around it.
pub proof fn lemma_heading_at_top_level(line: Seq<char>, n: usize)
    requires
        1 <= n <= 6,
        words(line).len() >= 1,
        words(line)[0] == Seq::new(n as nat, |i: int| '='),
    ensures
        document(seq![line]) == "<"@ + Blocks::Heading(n).tag_name() + ">"@ + render_line(
            join(words(line).drop_first()),
        ) + "</"@ + Blocks::Heading(n).tag_name() + ">"@,
{
    let w0 = words(line)[0];
    lemma_eq_run_all(w0, 0);
    assert(heading_level(w0) == n);
    reveal_strlit("'''");
    reveal_strlit(">>>");
    reveal_strlit("****");
    reveal_strlit("----");
    assert(!is_word(w0, "'''"@)) by {
        if is_word(w0, "'''"@) {
            assert(w0.subrange(0, 3)[0] == "'''"@[0]);
        }
    }
    assert(!is_word(w0, ">>>"@)) by {
        if is_word(w0, ">>>"@) {
            assert(w0.subrange(0, 3)[0] == ">>>"@[0]);
        }
    }
    assert(!is_word(w0, "****"@)) by {
        if is_word(w0, "****"@) {
            assert(w0.subrange(0, 4)[0] == "****"@[0]);
        }
    }
    assert(!is_word(w0, "----"@)) by {
        if is_word(w0, "----"@) {
            assert(w0.subrange(0, 4)[0] == "----"@[0]);
        }
    }
    let ls = seq![line];
    assert(ls.drop_last() =~= Seq::<Seq<char>>::empty());
    assert(run(initial(), ls.drop_last()) == initial());
    assert(ls.last() == line);
    assert(run(initial(), ls) == step(initial(), line));
    let s1 = step(initial(), line);
    assert(s1.block == Some(Blocks::Heading(n)));
    assert(s1.parent is None);
    assert(!s1.in_tag);
    assert(document(ls) =~= "<"@ + Blocks::Heading(n).tag_name() + ">"@ + render_line(
        join(words(line).drop_first()),
    ) + "</"@ + Blocks::Heading(n).tag_name() + ">"@);
}

} // verus!
