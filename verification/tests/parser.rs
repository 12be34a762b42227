use todo_tui::parser::{Line, LineBlock, Parser};

fn rest_of(s: &str, pos: usize) -> String {
    s.chars().skip(pos).collect()
}

fn plain(text: &str) -> LineBlock {
    LineBlock { text: text.to_string(), style: None }
}

fn styled(text: &str, style: &str) -> LineBlock {
    LineBlock { text: text.to_string(), style: Some(style.to_string()) }
}

#[test]
fn read_block() {
    let input = "block to parse]";
    let (text, pos) = Parser::read_block(input, 0, ']');
    assert_eq!(&text, "block to parse");
    assert_eq!(&rest_of(input, pos), "");

    let input = "Some style block)";
    let (text, pos) = Parser::read_block(input, 0, ')');
    assert_eq!(&text, "Some style block");
    assert_eq!(&rest_of(input, pos), "");

    let input = "block to parse] some other text";
    let (text, pos) = Parser::read_block(input, 0, ']');
    assert_eq!(&text, "block to parse");
    assert_eq!(&rest_of(input, pos), " some other text");

    let input = "block to parse \\] with some \\\\ escapes]";
    let (text, pos) = Parser::read_block(input, 0, ']');
    assert_eq!(&text, "block to parse ] with some \\ escapes");
    assert_eq!(&rest_of(input, pos), "");
}

#[test]
fn parse() {
    assert_eq!(Parser::parse("")[0], Line(vec![]));

    assert_eq!(Parser::parse("some text")[0], Line(vec![plain("some text")]));

    assert_eq!(
        Parser::parse("some text \\[ with escapes \\]")[0],
        Line(vec![plain("some text [ with escapes ]")])
    );

    assert_eq!(
        Parser::parse("[some text](red)")[0],
        Line(vec![styled("some text", "red")])
    );

    assert_eq!(
        Parser::parse("[some text] and another text")[0],
        Line(vec![plain("some text"), plain(" and another text")])
    );

    assert_eq!(
        Parser::parse("[some text]\\[ and escaped text \\]")[0],
        Line(vec![plain("some text"), plain("[ and escaped text ]")])
    );

    assert_eq!(Parser::parse("[some text]")[0], Line(vec![plain("some text")]));

    assert_eq!(
        Parser::parse("[some text](red) text between [another text](blue bold)")[0],
        Line(vec![
            styled("some text", "red"),
            plain(" text between "),
            styled("another text", "blue bold"),
        ])
    );

    let parsed = Parser::parse("some text\nnew line");
    assert_eq!(parsed.len(), 2);
    assert_eq!(parsed[0], Line(vec![plain("some text")]));
    assert_eq!(parsed[1], Line(vec![plain("new line")]));
}

#[test]
fn parse_default_line() {
    assert_eq!(Parser::parse("")[0], Line::default());
    assert_eq!(Parser::parse("").len(), 1);
}

#[test]
fn parser_keeps_lines() {
    let parser = Parser::new("[a](red)\nb");
    assert_eq!(parser.lines.len(), 2);
    assert_eq!(parser.lines[0], Line(vec![styled("a", "red")]));
    assert_eq!(parser.lines[1], Line(vec![plain("b")]));
}
