use algor::lessons::{Block, Head, Markup, Parser};

fn parse_head(events: &Vec<Markup>) -> Head {
    Parser::new(copy(events)).parse_head()
}

fn parse(events: &Vec<Markup>) -> Vec<Block> {
    Parser::new(copy(events)).parse()
}

fn copy(events: &Vec<Markup>) -> Vec<Markup> {
    events
        .iter()
        .map(|event| match event {
            Markup::Start(name) => Markup::Start(name.clone()),
            Markup::End => Markup::End,
            Markup::Characters(text) => Markup::Characters(text.clone()),
        })
        .collect()
}
use algor::runtime::RunSpeed;

fn start(name: &str) -> Markup {
    Markup::Start(name.into())
}

fn text(content: &str) -> Markup {
    Markup::Characters(content.into())
}

#[test]
fn title_in_head() {
    let events = vec![
        start("lesson"),
        start("head"),
        start("title"),
        text("Adding two numbers"),
        Markup::End,
        Markup::End,
        start("body"),
        start("p"),
        text("Some text"),
        Markup::End,
        Markup::End,
        Markup::End,
    ];
    assert_eq!(parse_head(&events), Head { title: "Adding two numbers".into() });
}

#[test]
fn no_title_is_empty() {
    assert_eq!(parse_head(&vec![]), Head { title: String::new() });
    assert_eq!(parse_head(&vec![text("stray")]), Head { title: String::new() });
    assert_eq!(
        parse_head(&vec![start("title"), text("alone")]),
        Head { title: String::new() }
    );
    assert_eq!(
        parse_head(&vec![start("body"), start("title"), text("elsewhere")]),
        Head { title: String::new() }
    );
}

#[test]
fn last_title_counts() {
    let events = vec![
        start("head"),
        start("title"),
        text("first"),
        text("second"),
        Markup::End,
        Markup::End,
    ];
    assert_eq!(parse_head(&events).title, "second");
}

#[test]
fn default_head() {
    assert_eq!(Head::default().title, "Untitled Lesson");
}

#[test]
fn body_blocks() {
    let events = vec![
        start("lesson"),
        start("h1"),
        text("Loops"),
        Markup::End,
        start("separator"),
        Markup::End,
        start("p"),
        text("A loop repeats."),
        Markup::End,
        start("i"),
        text("Try it."),
        Markup::End,
        start("code"),
        text("BRA loop"),
        Markup::End,
        Markup::End,
    ];
    assert_eq!(
        parse(&events),
        vec![
            Block::Heading("Loops".into()),
            Block::Separator,
            Block::Paragraph("A loop repeats.".into()),
            Block::Italic("Try it.".into()),
        ]
    );
}

#[test]
fn text_belongs_to_the_element_opened_last() {
    let events = vec![start("p"), text("a"), start("i"), text("b"), Markup::End, text("c"), Markup::End];
    assert_eq!(
        parse(&events),
        vec![
            Block::Paragraph("a".into()),
            Block::Italic("b".into()),
            Block::Italic("c".into()),
        ]
    );
}

#[test]
fn text_before_any_element_makes_nothing() {
    assert_eq!(parse(&vec![text("stray"), Markup::End]), vec![]);
    assert_eq!(parse(&vec![]), vec![]);
}

#[test]
fn run_speed_intervals() {
    assert_eq!(RunSpeed::Slow.interval_millis(), 1000);
    assert_eq!(RunSpeed::Medium.interval_millis(), 250);
    assert_eq!(RunSpeed::Fast.interval_millis(), 100);
    assert_eq!(RunSpeed::Instant.interval_millis(), 0);
    assert_eq!(RunSpeed::default(), RunSpeed::Medium);
}

fn lesson() -> Vec<Markup> {
    vec![
        start("lesson"),
        start("head"),
        start("title"),
        text("Test lesson"),
        Markup::End,
        Markup::End,
        start("h1"),
        text("Heading"),
        Markup::End,
        start("separator"),
        Markup::End,
        start("p"),
        text("Paragraph"),
        Markup::End,
        start("i"),
        text("Italics"),
        Markup::End,
        Markup::End,
    ]
}

#[test]
fn lesson_parser_parse() {
    let _ = Parser::new(lesson()).parse();
    assert_eq!(Parser::new(lesson()).parse_head().title, "Test lesson");
}

#[test]
fn lessons_parse() {
    let blocks = Parser::new(lesson()).parse();
    assert_eq!(
        blocks,
        vec![
            Block::Heading("Heading".into()),
            Block::Separator,
            Block::Paragraph("Paragraph".into()),
            Block::Italic("Italics".into()),
        ]
    );
}
