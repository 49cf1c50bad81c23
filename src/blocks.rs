use vstd::prelude::*;

verus! {

/// The enclosing structural container of a block.
#[derive(Debug, PartialEq, Eq, Clone, Copy, Structural)]
pub enum ParentBlock {
    Section,
    OpenBlock,
    Aside,
    Paragraph,
    OrderedList,
    UnorderedList,
    DefinitionList,
    Quote,
    Verse,
    Pre,
}

impl ParentBlock {
    /// The HTML tag name of the container.
    pub open spec fn tag_name(self) -> Seq<char> {
        match self {
            ParentBlock::Section => "section"@,
            ParentBlock::OpenBlock => "div"@,
            ParentBlock::Aside => "aside"@,
            ParentBlock::Paragraph => "p"@,
            ParentBlock::OrderedList => "ol"@,
            ParentBlock::UnorderedList => "ul"@,
            ParentBlock::DefinitionList => "dl"@,
            ParentBlock::Quote => "blockquote"@,
            ParentBlock::Verse => "pre"@,
            ParentBlock::Pre => "pre"@,
        }
    }

    /// Lists keep running over continuation lines; other containers hold paragraphs.
    pub open spec fn is_list(self) -> bool {
        self == ParentBlock::OrderedList || self == ParentBlock::UnorderedList
            || self == ParentBlock::DefinitionList
    }

    pub fn tag(&self) -> (r: String)
        ensures
            r@ == self.tag_name(),
    {
        match self {
            ParentBlock::Section => String::from_str("section"),
            ParentBlock::OpenBlock => String::from_str("div"),
            ParentBlock::Aside => String::from_str("aside"),
            ParentBlock::Paragraph => String::from_str("p"),
            ParentBlock::OrderedList => String::from_str("ol"),
            ParentBlock::UnorderedList => String::from_str("ul"),
            ParentBlock::DefinitionList => String::from_str("dl"),
            ParentBlock::Quote => String::from_str("blockquote"),
            ParentBlock::Verse => String::from_str("pre"),
            ParentBlock::Pre => String::from_str("pre"),
        }
    }
}

/// The leaf block wrapping a line's content.
#[derive(Debug, PartialEq, Eq, Clone, Copy, Structural)]
pub enum Blocks {
    Heading(usize),
    Paragraph,
    ListItem,
    DefinitionTerm,
    DefinitionDesc,
    Break,
}

impl Blocks {
    /// A heading has a level from 1 to 6.
    pub open spec fn wf(self) -> bool {
        match self {
            Blocks::Heading(n) => 1 <= n <= 6,
            _ => true,
        }
    }

    /// The HTML tag name of the leaf block.
    pub open spec fn tag_name(self) -> Seq<char> {
        match self {
            Blocks::Heading(n) => if n == 1 {
                "h1"@
            } else if n == 2 {
                "h2"@
            } else if n == 3 {
                "h3"@
            } else if n == 4 {
                "h4"@
            } else if n == 5 {
                "h5"@
            } else {
                "h6"@
            },
            Blocks::Paragraph => "p"@,
            Blocks::ListItem => "li"@,
            Blocks::DefinitionTerm => "dt"@,
            Blocks::DefinitionDesc => "dd"@,
            Blocks::Break => "div"@,
        }
    }

    pub fn tag(&self) -> (r: String)
        requires
            self.wf(),
        ensures
            r@ == self.tag_name(),
    {
        match self {
            Blocks::Heading(n) => {
                if *n == 1 {
                    String::from_str("h1")
                } else if *n == 2 {
                    String::from_str("h2")
                } else if *n == 3 {
                    String::from_str("h3")
                } else if *n == 4 {
                    String::from_str("h4")
                } else if *n == 5 {
                    String::from_str("h5")
                } else {
                    String::from_str("h6")
                }
            },
            Blocks::Paragraph => String::from_str("p"),
            Blocks::ListItem => String::from_str("li"),
            Blocks::DefinitionTerm => String::from_str("dt"),
            Blocks::DefinitionDesc => String::from_str("dd"),
            Blocks::Break => String::from_str("div"),
        }
    }
}

/// The two kinds of break; each is rendered with a fixed class.
#[derive(Debug, PartialEq, Eq, Clone, Copy, Structural)]
pub enum Breaks {
    Section,
    Page,
}

impl Breaks {
    pub open spec fn class_name(self) -> Seq<char> {
        match self {
            Breaks::Section => "section_break"@,
            Breaks::Page => "page_break"@,
        }
    }

    pub fn class(&self) -> (r: String)
        ensures
            r@ == self.class_name(),
    {
        match self {
            Breaks::Section => String::from_str("section_break"),
            Breaks::Page => String::from_str("page_break"),
        }
    }
}

} // verus!
