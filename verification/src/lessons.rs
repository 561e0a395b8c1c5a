//! Lessons: what a lesson file says, read off the markup events of its text.
//!
//! A lesson is a document of nested elements. Whoever reads the file reports
//! it as a sequence of events: an element opens, an element closes, a piece
//! of text stands between tags. The text belongs to the element that was
//! opened last before it, closed or not.

use vstd::prelude::*;

verus! {

/// One event of reading a lesson file.
#[derive(PartialEq, Eq, Debug)]
pub enum Markup {
    /// An element with this name opens.
    Start(String),
    /// An element closes.
    End,
    /// Text that is not only white space.
    Characters(String),
}

/// The mathematical value of a [`Markup`].
pub enum MarkupView {
    Start(Seq<char>),
    End,
    Characters(Seq<char>),
}

impl View for Markup {
    type V = MarkupView;

    open spec fn view(&self) -> MarkupView {
        match self {
            Markup::Start(name) => MarkupView::Start(name@),
            Markup::End => MarkupView::End,
            Markup::Characters(text) => MarkupView::Characters(text@),
        }
    }
}

/// The values of a sequence of events, one for one.
pub open spec fn markup_views(events: Seq<Markup>) -> Seq<MarkupView> {
    Seq::new(events.len(), |i: int| events[i]@)
}

/// What the head of a lesson says of it.
#[derive(PartialEq, Eq, Debug)]
pub struct Head {
    pub title: String,
}

impl Default for Head {
    /// The head of a lesson that has not been given a title.
    fn default() -> (head: Self)
        ensures
            head.title@ == "Untitled Lesson"@,
    {
        Self { title: "Untitled Lesson".to_owned() }
    }
}

/// A piece of the body of a lesson.
#[derive(PartialEq, Eq, Debug)]
pub enum Block {
    /// A horizontal rule.
    Separator,
    /// A heading.
    Heading(String),
    /// A paragraph.
    Paragraph(String),
    /// Text in italics.
    Italic(String),
}

/// The mathematical value of a [`Block`].
pub enum BlockView {
    Separator,
    Heading(Seq<char>),
    Paragraph(Seq<char>),
    Italic(Seq<char>),
}

impl View for Block {
    type V = BlockView;

    open spec fn view(&self) -> BlockView {
        match self {
            Block::Separator => BlockView::Separator,
            Block::Heading(text) => BlockView::Heading(text@),
            Block::Paragraph(text) => BlockView::Paragraph(text@),
            Block::Italic(text) => BlockView::Italic(text@),
        }
    }
}

/// The values of a sequence of blocks, one for one.
pub open spec fn block_views(blocks: Seq<Block>) -> Seq<BlockView> {
    Seq::new(blocks.len(), |i: int| blocks[i]@)
}

/// The names of the elements that open among the first `n` events, in
/// order.
pub open spec fn opened(events: Seq<MarkupView>, n: int) -> Seq<Seq<char>>
    decreases n,
{
    if n <= 0 {
        Seq::empty()
    } else if events[n - 1] is Start {
        opened(events, n - 1).push(events[n - 1]->Start_0)
    } else {
        opened(events, n - 1)
    }
}

/// The event at position `i` is the text of a title: of the elements that
/// open before it, the last is `title` and the one before that is `head`.
pub open spec fn is_title(events: Seq<MarkupView>, i: int) -> bool {
    let names = opened(events, i);
    &&& events[i] is Characters
    &&& names.len() >= 2
    &&& names[names.len() - 1] == "title"@
    &&& names[names.len() - 2] == "head"@
}

/// The title that the first `n` events give: the text of their last title,
/// and the empty text where they have none.
pub open spec fn title_of(events: Seq<MarkupView>, n: int) -> Seq<char>
    decreases n,
{
    if n <= 0 {
        Seq::empty()
    } else if is_title(events, n - 1) {
        events[n - 1]->Characters_0
    } else {
        title_of(events, n - 1)
    }
}

/// The block that the event at position `i` makes, if it makes one: an
/// element named `separator` makes a rule where it opens, and a text makes
/// a heading, a paragraph or italics where the element that was opened last
/// before it is named `h1`, `p` or `i`.
pub open spec fn block_at(events: Seq<MarkupView>, i: int) -> Option<BlockView> {
    match events[i] {
        MarkupView::Start(name) => if name == "separator"@ {
            Some(BlockView::Separator)
        } else {
            None
        },
        MarkupView::End => None,
        MarkupView::Characters(text) => {
            let names = opened(events, i);
            if names.len() == 0 {
                None
            } else if names.last() == "h1"@ {
                Some(BlockView::Heading(text))
            } else if names.last() == "p"@ {
                Some(BlockView::Paragraph(text))
            } else if names.last() == "i"@ {
                Some(BlockView::Italic(text))
            } else {
                None
            }
        },
    }
}

/// The blocks that the first `n` events make, in order.
pub open spec fn blocks_of(events: Seq<MarkupView>, n: int) -> Seq<BlockView>
    decreases n,
{
    if n <= 0 {
        Seq::empty()
    } else {
        match block_at(events, n - 1) {
            Some(block) => blocks_of(events, n - 1).push(block),
            None => blocks_of(events, n - 1),
        }
    }
}

/// Whether `text` is `word`.
fn is_word(text: &String, word: &str) -> (r: bool)
    ensures
        r == (text@ == word@),
{
    let other = word.to_owned();
    *text == other
}

/// A reader of one lesson: the events of its file, from first to last.
#[derive(Debug)]
pub struct Parser {
    events: Vec<Markup>,
}

impl View for Parser {
    type V = Seq<MarkupView>;

    closed spec fn view(&self) -> Seq<MarkupView> {
        markup_views(self.events@)
    }
}

impl Parser {
    /// A reader of the lesson that `events` were read from.
    pub fn new(events: Vec<Markup>) -> (parser: Self)
        ensures
            parser@ == markup_views(events@),
    {
        Self { events }
    }

    /// Reads the head of the lesson: its title.
    pub fn parse_head(self) -> (head: Head)
        ensures
            head.title@ == title_of(self@, self@.len() as int),
    {
        let events = self.events;
        let ghost views = markup_views(events@);
        let mut head = Head { title: String::new() };
        let mut last: Option<&String> = None;
        let mut before: Option<&String> = None;
        let mut i: usize = 0;
        while i < events.len()
            invariant
                i <= events.len(),
                views == markup_views(events@),
                head.title@ == title_of(views, i as int),
                match last {
                    Some(name) => opened(views, i as int).len() >= 1 && name@ == opened(
                        views,
                        i as int,
                    ).last(),
                    None => opened(views, i as int).len() == 0,
                },
                match before {
                    Some(name) => opened(views, i as int).len() >= 2 && name@ == opened(
                        views,
                        i as int,
                    )[opened(views, i as int).len() - 2],
                    None => opened(views, i as int).len() < 2,
                },
            decreases events.len() - i,
        {
            match &events[i] {
                Markup::Start(name) => {
                    before = last;
                    last = Some(name);
                },
                Markup::End => {},
                Markup::Characters(text) => {
                    let found = match (last, before) {
                        (Some(inner), Some(outer)) => is_word(inner, "title") && is_word(
                            outer,
                            "head",
                        ),
                        _ => false,
                    };
                    if found {
                        head.title = text.clone();
                    }
                },
            }
            i += 1;
        }
        head
    }

    /// Reads the body of the lesson: its blocks, in order.
    pub fn parse(self) -> (blocks: Vec<Block>)
        ensures
            block_views(blocks@) == blocks_of(self@, self@.len() as int),
    {
        let events = self.events;
        let ghost views = markup_views(events@);
        let mut blocks: Vec<Block> = Vec::new();
        let mut last: Option<&String> = None;
        let mut i: usize = 0;
        while i < events.len()
            invariant
                i <= events.len(),
                views == markup_views(events@),
                block_views(blocks@) == blocks_of(views, i as int),
                match last {
                    Some(name) => opened(views, i as int).len() >= 1 && name@ == opened(
                        views,
                        i as int,
                    ).last(),
                    None => opened(views, i as int).len() == 0,
                },
            decreases events.len() - i,
        {
            let block = match &events[i] {
                Markup::Start(name) => {
                    let rule = is_word(name, "separator");
                    last = Some(name);
                    if rule {
                        Some(Block::Separator)
                    } else {
                        None
                    }
                },
                Markup::End => None,
                Markup::Characters(text) => match last {
                    None => None,
                    Some(name) => {
                        if is_word(name, "h1") {
                            Some(Block::Heading(text.clone()))
                        } else if is_word(name, "p") {
                            Some(Block::Paragraph(text.clone()))
                        } else if is_word(name, "i") {
                            Some(Block::Italic(text.clone()))
                        } else {
                            None
                        }
                    },
                },
            };
            if let Some(block) = block {
                blocks.push(block);
            }
            i += 1;
        }
        blocks
    }
}

} // verus!
