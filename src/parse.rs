use vstd::prelude::*;
use crate::blocks::{Blocks, Breaks, ParentBlock};
use crate::inlines::{get_class_from_role, matches_at, matches_exec, render_line, render_str, role_value};
use crate::text::{chars_of, join, join_from, split_words, words};

verus! {

/// What a parser holds between lines, as mathematical values.
pub struct ParserView {
    pub parent: Option<ParentBlock>,
    pub block: Option<Blocks>,
    pub class: Option<Seq<char>>,
    /// Whether the opening tag of `parent` has been written.
    pub in_tag: bool,
    pub markup: Seq<char>,
    pub warnings: Seq<Seq<char>>,
}

/// A streaming converter from lines of markup to HTML.
#[derive(Debug)]
pub struct Parser {
    current_parent_block: Option<ParentBlock>,
    current_block: Option<Blocks>,
    current_class: Option<String>,
    in_tag: bool,
    /// The HTML output so far.
    parsed_markup: String,
    /// Lines that were not understood and were skipped.
    warnings: Vec<String>,
}

/// The state before the first line.
pub open spec fn initial() -> ParserView {
    ParserView {
        parent: None,
        block: None,
        class: None,
        in_tag: false,
        markup: seq![],
        warnings: seq![],
    }
}

/// A paragraph directly inside a paragraph container shares its tag.
pub open spec fn leaf_tagged(parent: Option<ParentBlock>, b: Blocks) -> bool {
    !(parent == Some(ParentBlock::Paragraph) && b == Blocks::Paragraph)
}

pub open spec fn class_attr(c: Option<Seq<char>>) -> Seq<char> {
    match c {
        Some(v) => " class=\""@ + v + "\""@,
        None => seq![],
    }
}

/// The closing tag of the open leaf block, if it has one.
pub open spec fn leaf_close(m: ParserView) -> Seq<char> {
    match m.block {
        Some(b) => if leaf_tagged(m.parent, b) {
            "</"@ + b.tag_name() + ">"@
        } else {
            seq![]
        },
        None => seq![],
    }
}

/// The closing tag of the open container, if its tag was written.
pub open spec fn parent_close(m: ParserView) -> Seq<char> {
    match m.parent {
        Some(p) => if m.in_tag {
            "</"@ + p.tag_name() + ">"@
        } else {
            seq![]
        },
        None => seq![],
    }
}

/// Closes the leaf block and the container; the container stays selected.
pub open spec fn close_open(m: ParserView) -> ParserView {
    ParserView { block: None, in_tag: false, markup: m.markup + leaf_close(m) + parent_close(m), ..m }
}

/// A blank line: everything open is closed and the state is the initial one
/// but for the output.
pub open spec fn blank(m: ParserView) -> ParserView {
    ParserView { parent: None, class: None, ..close_open(m) }
}

/// A delimiter or attribute line that selects the container of what follows.
pub open spec fn enter_parent(m: ParserView, p: ParentBlock) -> ParserView {
    ParserView { parent: Some(p), ..close_open(m) }
}

/// Containers that hold their own paragraphs and headings.
pub open spec fn container_parent(p: Option<ParentBlock>) -> Option<ParentBlock> {
    match p {
        Some(x) => if x.is_list() || x == ParentBlock::Paragraph {
            None
        } else {
            p
        },
        None => None,
    }
}

/// The container of a new paragraph.
pub open spec fn para_parent(p: Option<ParentBlock>) -> Option<ParentBlock> {
    match container_parent(p) {
        Some(x) => Some(x),
        None => Some(ParentBlock::Paragraph),
    }
}

/// Starts leaf `b` in container `p2`: closes what does not carry over, writes the
/// new opening tags, and puts the pending class on the first of them.
pub open spec fn start_leaf(m: ParserView, p2: Option<ParentBlock>, b: Blocks) -> ParserView {
    let keep = m.in_tag && m.parent == p2;
    let closed = if keep {
        m.markup + leaf_close(m)
    } else {
        m.markup + leaf_close(m) + parent_close(m)
    };
    let open_p = !keep && p2 is Some;
    let ptag = if open_p {
        "<"@ + p2->0.tag_name() + class_attr(m.class) + ">"@
    } else {
        seq![]
    };
    let cls2 = if open_p {
        None
    } else {
        m.class
    };
    let lt = leaf_tagged(p2, b);
    let ltag = if lt {
        "<"@ + b.tag_name() + class_attr(cls2) + ">"@
    } else {
        seq![]
    };
    ParserView {
        parent: p2,
        block: Some(b),
        class: if lt {
            None
        } else {
            cls2
        },
        in_tag: keep || open_p,
        markup: closed + ptag + ltag,
        warnings: m.warnings,
    }
}

/// Appends the rendered content of a line.
pub open spec fn with_content(m: ParserView, content: Seq<char>) -> ParserView {
    ParserView { markup: m.markup + render_line(content), ..m }
}

/// A line that continues the open leaf block: its rendering is appended as it is.
pub open spec fn continue_line(m: ParserView, line: Seq<char>) -> ParserView {
    with_content(m, line)
}

/// Whether a plain text line continues the open leaf block.
pub open spec fn continues(m: ParserView) -> bool {
    match m.block {
        Some(b) => b == Blocks::Paragraph || b == Blocks::ListItem || b == Blocks::DefinitionTerm
            || b == Blocks::DefinitionDesc,
        None => false,
    }
}

/// Whether a list marker starts a new item of list `p` rather than continuing
/// a paragraph.
pub open spec fn starts_item(m: ParserView, p: ParentBlock) -> bool {
    m.block is None || m.parent == Some(p) || m.block != Some(Blocks::Paragraph)
}

pub open spec fn start_break(m: ParserView, k: Breaks) -> ParserView {
    start_leaf(
        ParserView { class: Some(k.class_name()), ..m },
        container_parent(m.parent),
        Blocks::Break,
    )
}

/// The number of `=` at the start of `t[k..]`.
pub open spec fn eq_run(t: Seq<char>, k: int) -> nat
    decreases t.len() - k,
{
    if 0 <= k < t.len() && t[k] == '=' {
        1 + eq_run(t, k + 1)
    } else {
        0
    }
}

/// The heading level of a marker word: its run of `=`, at most 6.
pub open spec fn heading_level(t: Seq<char>) -> usize {
    if eq_run(t, 0) > 6 {
        6
    } else {
        eq_run(t, 0) as usize
    }
}

pub open spec fn is_word(t: Seq<char>, pat: Seq<char>) -> bool {
    t.len() == pat.len() && matches_at(t, 0, t.len() as int, pat)
}

pub open spec fn has_prefix(t: Seq<char>, pat: Seq<char>) -> bool {
    matches_at(t, 0, t.len() as int, pat)
}

/// A list item of list `p`, or a continuation of the open paragraph.
pub open spec fn list_line(m: ParserView, line: Seq<char>, p: ParentBlock) -> ParserView {
    if starts_item(m, p) {
        with_content(start_leaf(m, Some(p), Blocks::ListItem), join(words(line).drop_first()))
    } else {
        continue_line(m, line)
    }
}

/// A line that starts with `[`.
pub open spec fn bracket_line(m: ParserView, line: Seq<char>) -> ParserView {
    let t = words(line)[0];
    if has_prefix(t, "[quot"@) {
        enter_parent(m, ParentBlock::Quote)
    } else if has_prefix(t, "[vers"@) {
        enter_parent(m, ParentBlock::Verse)
    } else if has_prefix(t, "[role"@) {
        ParserView { class: role_value(line), ..m }
    } else {
        ParserView { warnings: m.warnings.push(line), ..m }
    }
}

/// The effect of one line on the parser.
pub open spec fn step(m: ParserView, line: Seq<char>) -> ParserView {
    let w = words(line);
    if w.len() == 0 {
        blank(m)
    } else if w.len() == 1 && is_word(w[0], "'''"@) {
        start_break(m, Breaks::Section)
    } else if w.len() == 1 && is_word(w[0], ">>>"@) {
        start_break(m, Breaks::Page)
    } else if w.len() == 1 && is_word(w[0], "****"@) {
        enter_parent(m, ParentBlock::Aside)
    } else if w.len() == 1 && is_word(w[0], "----"@) {
        enter_parent(m, ParentBlock::Pre)
    } else if w[0].len() > 0 && w[0][0] == '=' {
        with_content(
            start_leaf(m, container_parent(m.parent), Blocks::Heading(heading_level(w[0]))),
            join(w.drop_first()),
        )
    } else if w[0].len() > 0 && w[0][0] == '*' {
        list_line(m, line, ParentBlock::UnorderedList)
    } else if w[0].len() > 0 && w[0][0] == '.' {
        list_line(m, line, ParentBlock::OrderedList)
    } else if w[0].len() > 0 && w[0][0] == '[' {
        bracket_line(m, line)
    } else if continues(m) {
        continue_line(m, line)
    } else {
        with_content(start_leaf(m, para_parent(m.parent), Blocks::Paragraph), line)
    }
}

/// The state after the lines `ls`, in order, from `m`.
pub open spec fn run(m: ParserView, ls: Seq<Seq<char>>) -> ParserView
    decreases ls.len(),
{
    if ls.len() == 0 {
        m
    } else {
        step(run(m, ls.drop_last()), ls.last())
    }
}

/// The HTML of a whole document: its lines, then everything closed at the end.
pub open spec fn document(ls: Seq<Seq<char>>) -> Seq<char> {
    blank(run(initial(), ls)).markup
}

pub open spec fn view_class(c: Option<String>) -> Option<Seq<char>> {
    match c {
        Some(s) => Some(s@),
        None => None,
    }
}

fn container_parent_exec(p: Option<ParentBlock>) -> (r: Option<ParentBlock>)
    ensures
        r == container_parent(p),
{
    match p {
        Some(ParentBlock::OrderedList) | Some(ParentBlock::UnorderedList) | Some(
            ParentBlock::DefinitionList,
        ) | Some(ParentBlock::Paragraph) => None,
        _ => p,
    }
}

fn para_parent_exec(p: Option<ParentBlock>) -> (r: Option<ParentBlock>)
    ensures
        r == para_parent(p),
{
    match container_parent_exec(p) {
        Some(x) => Some(x),
        None => Some(ParentBlock::Paragraph),
    }
}

fn is_word_exec(t: &Vec<char>, pat: &str) -> (r: bool)
    ensures
        r == is_word(t@, pat@),
{
    let p = chars_of(pat);
    t.len() == p.len() && matches_exec(t, 0, t.len(), &p)
}

fn has_prefix_exec(t: &Vec<char>, pat: &str) -> (r: bool)
    ensures
        r == has_prefix(t@, pat@),
{
    let p = chars_of(pat);
    matches_exec(t, 0, t.len(), &p)
}

fn heading_level_exec(t: &Vec<char>) -> (r: usize)
    ensures
        r == heading_level(t@),
{
    let mut k: usize = 0;
    while k < t.len() && k < 6 && t[k] == '='
        invariant
            k <= 6,
            k <= t@.len(),
            eq_run(t@, 0) == k + eq_run(t@, k as int),
        decreases t@.len() - k,
    {
        k = k + 1;
    }
    k
}

proof fn lemma_deep_view_chars(v: &Vec<char>)
    ensures
        v.deep_view() == v@,
{
    assert(v.deep_view() =~= v@);
}

impl View for Parser {
    type V = ParserView;

    closed spec fn view(&self) -> ParserView {
        ParserView {
            parent: self.current_parent_block,
            block: self.current_block,
            class: view_class(self.current_class),
            in_tag: self.in_tag,
            markup: self.parsed_markup@,
            warnings: self.warnings.deep_view(),
        }
    }
}

fn same_parent(a: Option<ParentBlock>, b: Option<ParentBlock>) -> (r: bool)
    ensures
        r == (a == b),
{
    match (a, b) {
        (Some(x), Some(y)) => x == y,
        (None, None) => true,
        _ => false,
    }
}

impl Default for Parser {
    fn default() -> (r: Parser)
        ensures
            r.wf(),
            r@ == initial(),
    {
        Parser::new()
    }
}

impl Parser {
    /// The block is well formed, a written container tag has a container, and an
    /// open leaf block inside a container has the container's tag written.
    pub closed spec fn wf(&self) -> bool {
        &&& (self.current_block matches Some(b) ==> b.wf())
        &&& (self.in_tag ==> self.current_parent_block is Some)
        &&& (self.current_block is Some && self.current_parent_block is Some ==> self.in_tag)
    }

    pub fn new() -> (r: Parser)
        ensures
            r.wf(),
            r@ == initial(),
    {
        let r = Parser {
            current_parent_block: None,
            current_block: None,
            current_class: None,
            in_tag: false,
            parsed_markup: String::new(),
            warnings: Vec::new(),
        };
        assert(r.warnings.deep_view() =~= Seq::<Seq<char>>::empty());
        r
    }

    /// Writes ` class="..."` for the pending class, if any, and consumes it.
    fn write_class(&mut self)
        ensures
            final(self)@ == (ParserView {
                markup: old(self)@.markup + class_attr(old(self)@.class),
                class: None,
                ..old(self)@
            }),
            final(self).current_parent_block == old(self).current_parent_block,
            final(self).current_block == old(self).current_block,
            final(self).in_tag == old(self).in_tag,
    {
        match &self.current_class {
            Some(c) => {
                self.parsed_markup.append(" class=\"");
                self.parsed_markup.append(c.as_str());
                self.parsed_markup.append("\"");
                assert(self.parsed_markup@ =~= old(self)@.markup + class_attr(old(self)@.class));
            },
            None => {
                assert(self.parsed_markup@ =~= old(self)@.markup + class_attr(old(self)@.class));
            },
        }
        self.current_class = None;
    }

    /// Writes the closing tag of the open leaf block and forgets it.
    fn close_leaf(&mut self)
        requires
            old(self).wf(),
        ensures
            final(self).wf(),
            final(self)@ == (ParserView {
                block: None,
                markup: old(self)@.markup + leaf_close(old(self)@),
                ..old(self)@
            }),
    {
        match self.current_block {
            Some(b) => {
                if !(same_parent(self.current_parent_block, Some(ParentBlock::Paragraph))
                    && b == Blocks::Paragraph) {
                    self.parsed_markup.append("</");
                    self.parsed_markup.append(b.tag().as_str());
                    self.parsed_markup.append(">");
                }
                assert(self.parsed_markup@ =~= old(self)@.markup + leaf_close(old(self)@));
            },
            None => {
                assert(self.parsed_markup@ =~= old(self)@.markup + leaf_close(old(self)@));
            },
        }
        self.current_block = None;
    }

    /// Writes the closing tags of everything open; the container stays selected.
    fn close_open_tags(&mut self)
        requires
            old(self).wf(),
        ensures
            final(self).wf(),
            final(self)@ == close_open(old(self)@),
    {
        self.close_leaf();
        let ghost mid = self@;
        match self.current_parent_block {
            Some(p) => {
                if self.in_tag {
                    self.parsed_markup.append("</");
                    self.parsed_markup.append(p.tag().as_str());
                    self.parsed_markup.append(">");
                }
            },
            None => {},
        }
        assert(self.parsed_markup@ =~= mid.markup + parent_close(old(self)@));
        self.in_tag = false;
        assert(self@.markup =~= close_open(old(self)@).markup);
    }

    /// Closes everything and returns to the initial state but for the output.
    fn close_tags(&mut self)
        requires
            old(self).wf(),
        ensures
            final(self).wf(),
            final(self)@ == blank(old(self)@),
    {
        self.close_open_tags();
        self.current_parent_block = None;
        self.current_class = None;
    }

    fn enter_parent(&mut self, p: ParentBlock)
        requires
            old(self).wf(),
        ensures
            final(self).wf(),
            final(self)@ == enter_parent(old(self)@, p),
    {
        self.close_open_tags();
        self.current_parent_block = Some(p);
    }

    /// Starts leaf block `b` in container `p2` and writes its opening tags.
    fn open_block_tags(&mut self, p2: Option<ParentBlock>, b: Blocks)
        requires
            old(self).wf(),
            b.wf(),
        ensures
            final(self).wf(),
            final(self)@ == start_leaf(old(self)@, p2, b),
    {
        let keep = self.in_tag && same_parent(self.current_parent_block, p2);
        if keep {
            self.close_leaf();
        } else {
            self.close_open_tags();
        }
        let open_p = !keep && p2.is_some();
        let ghost closed = self@.markup;
        self.current_parent_block = p2;
        if open_p {
            let p = p2.unwrap();
            self.parsed_markup.append("<");
            self.parsed_markup.append(p.tag().as_str());
            self.write_class();
            self.parsed_markup.append(">");
            self.in_tag = true;
        }
        let ghost after_p = self@.markup;
        let ghost cls2 = self@.class;
        if !(same_parent(p2, Some(ParentBlock::Paragraph)) && b == Blocks::Paragraph) {
            self.parsed_markup.append("<");
            self.parsed_markup.append(b.tag().as_str());
            self.write_class();
            self.parsed_markup.append(">");
        }
        assert(p2 is Some ==> self.in_tag);
        self.current_block = Some(b);
        let ghost m = old(self)@;
        let ghost ptag = if open_p {
            "<"@ + p2->0.tag_name() + class_attr(m.class) + ">"@
        } else {
            Seq::<char>::empty()
        };
        assert(after_p =~= closed + ptag);
        assert(self@.markup =~= start_leaf(m, p2, b).markup);
        assert(self@ == start_leaf(m, p2, b));
    }
    /// Appends the rendered content of a line.
    fn add_line(&mut self, content: &str)
        requires
            old(self).wf(),
        ensures
            final(self).wf(),
            final(self)@ == with_content(old(self)@, content@),
    {
        let r = render_str(content);
        self.parsed_markup.append(r.as_str());
    }

    /// Appends a line that continues the open leaf block.
    fn continue_line(&mut self, line: &str)
        requires
            old(self).wf(),
        ensures
            final(self).wf(),
            final(self)@ == continue_line(old(self)@, line@),
    {
        self.add_line(line);
    }

    fn start_break(&mut self, k: Breaks)
        requires
            old(self).wf(),
        ensures
            final(self).wf(),
            final(self)@ == start_break(old(self)@, k),
    {
        self.current_class = Some(k.class());
        let p2 = container_parent_exec(self.current_parent_block);
        self.open_block_tags(p2, Blocks::Break);
    }

    /// A list marker line for list `p`.
    fn list_line(&mut self, line: &str, ws: &Vec<Vec<char>>, p: ParentBlock)
        requires
            old(self).wf(),
            ws.deep_view() == words(line@),
            ws@.len() >= 1,
        ensures
            final(self).wf(),
            final(self)@ == list_line(old(self)@, line@, p),
    {
        let starts = match self.current_block {
            None => true,
            Some(Blocks::Paragraph) => same_parent(self.current_parent_block, Some(p)),
            Some(_) => true,
        };
        if starts {
            self.open_block_tags(Some(p), Blocks::ListItem);
            let content = join_from(ws, 1);
            assert(ws.deep_view().skip(1) =~= words(line@).drop_first());
            self.add_line(content.as_str());
        } else {
            self.continue_line(line);
        }
    }

    /// A line that starts with `[`.
    fn bracket_line(&mut self, line: &str, first: &Vec<char>)
        requires
            old(self).wf(),
            words(line@).len() >= 1,
            first@ == words(line@)[0],
        ensures
            final(self).wf(),
            final(self)@ == bracket_line(old(self)@, line@),
    {
        if has_prefix_exec(first, "[quot") {
            self.enter_parent(ParentBlock::Quote);
        } else if has_prefix_exec(first, "[vers") {
            self.enter_parent(ParentBlock::Verse);
        } else if has_prefix_exec(first, "[role") {
            self.current_class = get_class_from_role(line);
            assert(self@ =~= bracket_line(old(self)@, line@));
        } else {
            let ghost old_w = self.warnings@;
            let w = String::from_str(line);
            self.warnings.push(w);
            assert(self.warnings.deep_view() =~= old(self)@.warnings.push(line@)) by {
                assert forall|j: int| 0 <= j < old_w.len() implies self.warnings@[j] == old_w[j] by {}
            }
        }
    }

    /// Feeds one line of input, without its line break.
    pub fn parse_line(&mut self, line: &str)
        requires
            old(self).wf(),
        ensures
            final(self).wf(),
            final(self)@ == step(old(self)@, line@),
    {
        let cs = chars_of(line);
        let ws = split_words(&cs);
        if ws.len() == 0 {
            self.close_tags();
            return;
        }
        let first = &ws[0];
        proof {
            lemma_deep_view_chars(first);
        }
        assert(first@ == words(line@)[0]);
        if ws.len() == 1 {
            if is_word_exec(first, "'''") {
                self.start_break(Breaks::Section);
                return;
            } else if is_word_exec(first, ">>>") {
                self.start_break(Breaks::Page);
                return;
            } else if is_word_exec(first, "****") {
                self.enter_parent(ParentBlock::Aside);
                return;
            } else if is_word_exec(first, "----") {
                self.enter_parent(ParentBlock::Pre);
                return;
            }
        }
        if first.len() > 0 && first[0] == '=' {
            let level = heading_level_exec(first);
            assert(1 <= level) by {
                reveal_with_fuel(eq_run, 2);
            }
            let p2 = container_parent_exec(self.current_parent_block);
            self.open_block_tags(p2, Blocks::Heading(level));
            let content = join_from(&ws, 1);
            assert(ws.deep_view().skip(1) =~= words(line@).drop_first());
            self.add_line(content.as_str());
        } else if first.len() > 0 && first[0] == '*' {
            self.list_line(line, &ws, ParentBlock::UnorderedList);
        } else if first.len() > 0 && first[0] == '.' {
            self.list_line(line, &ws, ParentBlock::OrderedList);
        } else if first.len() > 0 && first[0] == '[' {
            self.bracket_line(line, first);
        } else {
            let continues = match self.current_block {
                Some(Blocks::Paragraph) | Some(Blocks::ListItem) | Some(Blocks::DefinitionTerm)
                | Some(Blocks::DefinitionDesc) => true,
                _ => false,
            };
            if continues {
                self.continue_line(line);
            } else {
                let p2 = para_parent_exec(self.current_parent_block);
                self.open_block_tags(p2, Blocks::Paragraph);
                self.add_line(line);
            }
        }
    }

    /// Ends the input: closes every open tag.
    pub fn finish(&mut self)
        requires
            old(self).wf(),
        ensures
            final(self).wf(),
            final(self)@ == blank(old(self)@),
    {
        self.close_tags();
    }

    /// Renders the inline spans of one line; the parser's state is untouched.
    pub fn parse_inline(&mut self, line: String) -> (r: String)
        ensures
            r@ == render_line(line@),
            final(self)@ == old(self)@,
            final(self).wf() == old(self).wf(),
    {
        render_str(line.as_str())
    }

    /// The HTML written so far.
    pub fn markup(&self) -> (r: &String)
        ensures
            r@ == self@.markup,
    {
        &self.parsed_markup
    }

    /// The lines that were skipped as not understood.
    pub fn warnings(&self) -> (r: &Vec<String>)
        ensures
            r.deep_view() == self@.warnings,
    {
        &self.warnings
    }

    pub fn current_block(&self) -> (r: Option<Blocks>)
        ensures
            r == self@.block,
    {
        self.current_block
    }

    pub fn current_parent_block(&self) -> (r: Option<ParentBlock>)
        ensures
            r == self@.parent,
    {
        self.current_parent_block
    }

    /// The class waiting for the next block.
    pub fn current_class(&self) -> (r: Option<&String>)
        ensures
            match r {
                Some(c) => self@.class == Some(c@),
                None => self@.class is None,
            },
    {
        match &self.current_class {
            Some(c) => Some(c),
            None => None,
        }
    }
}

/// Converts a whole document, given as its lines, to HTML.
pub fn to_html(lines: &Vec<String>) -> (r: String)
    ensures
        r@ == document(lines.deep_view()),
{
    let mut p = Parser::new();
    let mut i: usize = 0;
    while i < lines.len()
        invariant
            i <= lines@.len(),
            p.wf(),
            p@ == run(initial(), lines.deep_view().take(i as int)),
        decreases lines@.len() - i,
    {
        p.parse_line(lines[i].as_str());
        assert(lines.deep_view().take(i as int + 1).drop_last() =~= lines.deep_view().take(i as int));
        i = i + 1;
    }
    assert(lines.deep_view().take(i as int) =~= lines.deep_view());
    p.finish();
    p.parsed_markup
}

} // verus!
