//! The markup-template parser for custom status lines.
//!
//! A template is a sequence of lines; inside a line, `[text](style)` marks
//! a styled block, `\` escapes the next character, and a bare `[text]`
//! block with no following `(style)` stays unstyled.  The parser keeps the
//! style string as it stands; interpreting it is the renderer's business.
//!
//! `Parser::parse` accepts every template: where the input ends inside an
//! unclosed block or style it stops and keeps what it has read (a block
//! without its closing bracket becomes plain text, a style without its
//! closing parenthesis is kept as read), and a lone escape at the very end
//! is dropped.  `Parser::read_block` instead requires every escape in its
//! input to have a character to escape; on a lone trailing escape there is
//! nothing it could read.

use vstd::prelude::*;
use vstd::string::StrSliceExecFns;

verus! {

/// One styled span of a line.
#[derive(Debug, PartialEq)]
pub struct LineBlock {
    pub text: String,
    pub style: Option<String>,
}

impl View for LineBlock {
    type V = (Seq<char>, Option<Seq<char>>);

    open spec fn view(&self) -> (Seq<char>, Option<Seq<char>>) {
        (self.text@, self.style.deep_view())
    }
}

impl DeepView for LineBlock {
    type V = (Seq<char>, Option<Seq<char>>);

    open spec fn deep_view(&self) -> (Seq<char>, Option<Seq<char>>) {
        self.view()
    }
}

/// One line of the template: its blocks in order.
#[derive(Debug, PartialEq)]
pub struct Line(pub Vec<LineBlock>);

impl View for Line {
    type V = Seq<(Seq<char>, Option<Seq<char>>)>;

    open spec fn view(&self) -> Seq<(Seq<char>, Option<Seq<char>>)> {
        self.0.deep_view()
    }
}

impl DeepView for Line {
    type V = Seq<(Seq<char>, Option<Seq<char>>)>;

    open spec fn deep_view(&self) -> Seq<(Seq<char>, Option<Seq<char>>)> {
        self.view()
    }
}

impl Default for Line {
    /// An empty line.
    fn default() -> (r: Line)
        ensures
            r@ == Seq::<(Seq<char>, Option<Seq<char>>)>::empty(),
    {
        let r = Line(Vec::new());
        proof {
            assert(r@ =~= Seq::<(Seq<char>, Option<Seq<char>>)>::empty());
        }
        r
    }
}

/// Every escape before the closing delimiter (or the end of input) has a
/// character to escape; the input the original block reader fails on is
/// the one where this does not hold.
pub open spec fn escapes_closed(s: Seq<char>, i: int, delimiter: char) -> bool
    decreases s.len() - i,
{
    if i < 0 || i >= s.len() {
        true
    } else if s[i] == '\\' {
        i + 1 < s.len() && escapes_closed(s, i + 2, delimiter)
    } else if s[i] == delimiter {
        true
    } else {
        escapes_closed(s, i + 1, delimiter)
    }
}

/// What `read_block` reads from `s` starting at `i` up to an unescaped
/// `delimiter`: the text with escapes resolved, and the index just past
/// the delimiter.
pub open spec fn read_block_spec(s: Seq<char>, i: int, delimiter: char) -> (Seq<char>, int)
    decreases s.len() - i,
{
    if i < 0 || i >= s.len() {
        (Seq::empty(), s.len() as int)
    } else if s[i] == '\\' {
        if i + 1 >= s.len() {
            (Seq::empty(), s.len() as int)
        } else {
            let rec = read_block_spec(s, i + 2, delimiter);
            (seq![s[i + 1]].add(rec.0), rec.1)
        }
    } else if s[i] == delimiter {
        (Seq::empty(), i + 1)
    } else {
        let rec = read_block_spec(s, i + 1, delimiter);
        (seq![s[i]].add(rec.0), rec.1)
    }
}

/// Relies on `String::push`: appends the character to the end of the
/// string.
#[verifier::external_body]
fn push_char(s: &mut String, c: char)
    ensures
        final(s)@ == old(s)@.push(c),
{
    s.push(c);
}

/// The parser's cursor inside a line.
#[derive(PartialEq, Eq, Structural, Debug, Copy, Clone)]
pub enum ParseMode {
    /// Reading plain text.
    Text,
    /// Reading plain text, just after an escape.
    TextEsc,
    /// Inside `[...]`.
    Block,
    /// Inside `[...]`, just after an escape.
    BlockEsc,
    /// Just past a closing `]`, deciding whether a style follows.
    AfterBlock,
    /// Inside `(...)` after a block.
    Style,
    /// Inside `(...)`, just after an escape.
    StyleEsc,
}

/// A span of plain text is appended only when it is non-empty.
pub open spec fn close_line(
    line: Seq<(Seq<char>, Option<Seq<char>>)>,
    act: Seq<char>,
) -> Seq<(Seq<char>, Option<Seq<char>>)> {
    if act.len() == 0 {
        line
    } else {
        line.push((act, None))
    }
}

/// Runs the parser over the remaining input one character at a time.
/// `act`, `block` and `style` are the partial text, block and style being
/// read, `line` the blocks of the current line, `done` the finished lines.
pub open spec fn parse_rec(
    rest: Seq<char>,
    mode: ParseMode,
    act: Seq<char>,
    block: Seq<char>,
    style: Seq<char>,
    line: Seq<(Seq<char>, Option<Seq<char>>)>,
    done: Seq<Seq<(Seq<char>, Option<Seq<char>>)>>,
) -> Seq<Seq<(Seq<char>, Option<Seq<char>>)>>
    decreases rest.len(),
{
    if rest.len() == 0 {
        match mode {
            ParseMode::Text => done.push(close_line(line, act)),
            ParseMode::TextEsc => done.push(close_line(line, act)),
            ParseMode::Block => done.push(close_line(line, block)),
            ParseMode::BlockEsc => done.push(close_line(line, block)),
            ParseMode::AfterBlock => done.push(close_line(line, block)),
            ParseMode::Style => done.push(line.push((block, Some(style)))),
            ParseMode::StyleEsc => done.push(line.push((block, Some(style)))),
        }
    } else {
        let c = rest[0];
        let rest1 = rest.skip(1);
        match mode {
            ParseMode::Text => {
                if c == '[' {
                    parse_rec(
                        rest1,
                        ParseMode::Block,
                        Seq::empty(),
                        Seq::empty(),
                        style,
                        close_line(line, act),
                        done,
                    )
                } else if c == '\\' {
                    parse_rec(rest1, ParseMode::TextEsc, act, block, style, line, done)
                } else if c == '\n' {
                    parse_rec(
                        rest1,
                        ParseMode::Text,
                        Seq::empty(),
                        block,
                        style,
                        Seq::empty(),
                        done.push(close_line(line, act)),
                    )
                } else {
                    parse_rec(rest1, ParseMode::Text, act.push(c), block, style, line, done)
                }
            },
            ParseMode::TextEsc => {
                parse_rec(rest1, ParseMode::Text, act.push(c), block, style, line, done)
            },
            ParseMode::Block => {
                if c == '\\' {
                    parse_rec(rest1, ParseMode::BlockEsc, act, block, style, line, done)
                } else if c == ']' {
                    parse_rec(rest1, ParseMode::AfterBlock, act, block, style, line, done)
                } else {
                    parse_rec(rest1, ParseMode::Block, act, block.push(c), style, line, done)
                }
            },
            ParseMode::BlockEsc => {
                parse_rec(rest1, ParseMode::Block, act, block.push(c), style, line, done)
            },
            ParseMode::AfterBlock => {
                if c == '(' {
                    parse_rec(rest1, ParseMode::Style, act, block, Seq::empty(), line, done)
                } else if c == '\\' {
                    parse_rec(
                        rest1,
                        ParseMode::TextEsc,
                        Seq::empty(),
                        Seq::empty(),
                        style,
                        line.push((block, None)),
                        done,
                    )
                } else {
                    parse_rec(
                        rest1,
                        ParseMode::Text,
                        Seq::empty().push(c),
                        Seq::empty(),
                        style,
                        line.push((block, None)),
                        done,
                    )
                }
            },
            ParseMode::Style => {
                if c == '\\' {
                    parse_rec(rest1, ParseMode::StyleEsc, act, block, style, line, done)
                } else if c == ')' {
                    parse_rec(
                        rest1,
                        ParseMode::Text,
                        Seq::empty(),
                        Seq::empty(),
                        Seq::empty(),
                        line.push((block, Some(style))),
                        done,
                    )
                } else {
                    parse_rec(rest1, ParseMode::Style, act, block, style.push(c), line, done)
                }
            },
            ParseMode::StyleEsc => {
                parse_rec(rest1, ParseMode::Style, act, block, style.push(c), line, done)
            },
        }
    }
}

/// The lines the parser produces for the whole template.
pub open spec fn parse_spec(s: Seq<char>) -> Seq<Seq<(Seq<char>, Option<Seq<char>>)>> {
    parse_rec(
        s,
        ParseMode::Text,
        Seq::empty(),
        Seq::empty(),
        Seq::empty(),
        Seq::empty(),
        Seq::empty(),
    )
}

/// Appends `act` to the line as a plain span, unless it is empty.
fn flush_span(line: &mut Vec<LineBlock>, act: String)
    ensures
        final(line).deep_view() == close_line(old(line).deep_view(), act@),
{
    if !act.as_str().is_empty() {
        let ghost before = line.deep_view();
        line.push(LineBlock { text: act, style: None });
        proof {
            assert(line.deep_view() =~= before.push((act@, None)));
        }
    }
}

/// Appends a styled block to the line.
fn push_styled(line: &mut Vec<LineBlock>, text: String, style: Option<String>)
    ensures
        final(line).deep_view() == old(line).deep_view().push((text@, style.deep_view())),
{
    let ghost before = line.deep_view();
    let ghost sv = style.deep_view();
    line.push(LineBlock { text, style });
    proof {
        assert(line.deep_view() =~= before.push((text@, sv)));
    }
}

/// The template parser: the parsed lines of one template.
pub struct Parser {
    pub lines: Vec<Line>,
}

impl Parser {
    /// Parses a template and keeps its lines.
    pub fn new(template: &str) -> (r: Parser)
        ensures
            r.lines.deep_view() == parse_spec(template@),
    {
        Parser { lines: Self::parse(template) }
    }

    /// Reads up to the next unescaped `delimiter` from position `start`,
    /// resolving escapes, and also answers the position just past the
    /// delimiter, from which reading continues.  The input may not end on
    /// a lone escape: there nothing is left to read.
    pub fn read_block(template: &str, start: usize, delimiter: char) -> (r: (String, usize))
        requires
            start <= template@.len(),
            escapes_closed(template@, start as int, delimiter),
        ensures
            r.0@ == read_block_spec(template@, start as int, delimiter).0,
            r.1 == read_block_spec(template@, start as int, delimiter).1,
            start <= r.1 <= template@.len(),
    {
        let n = template.unicode_len();
        let mut i: usize = start;
        let mut read = String::new();
        while i < n
            invariant
                start <= i <= n,
                n == template@.len(),
                read_block_spec(template@, start as int, delimiter).0 == read@ + read_block_spec(
                    template@,
                    i as int,
                    delimiter,
                ).0,
                read_block_spec(template@, start as int, delimiter).1 == read_block_spec(
                    template@,
                    i as int,
                    delimiter,
                ).1,
                escapes_closed(template@, i as int, delimiter),
            decreases n - i,
        {
            let c = template.get_char(i);
            if c == '\\' {
                proof {
                    assert(i + 1 < n);
                }
                let c2 = template.get_char(i + 1);
                let ghost prev = read@;
                push_char(&mut read, c2);
                proof {
                    lemma_prepend_assoc(
                        prev,
                        c2,
                        read_block_spec(template@, i + 2, delimiter).0,
                    );
                }
                i += 2;
            } else if c == delimiter {
                proof {
                    assert(read@ + read_block_spec(template@, i as int, delimiter).0 =~= read@);
                }
                return (read, i + 1);
            } else {
                let ghost prev = read@;
                push_char(&mut read, c);
                proof {
                    lemma_prepend_assoc(prev, c, read_block_spec(template@, i + 1, delimiter).0);
                }
                i += 1;
            }
        }
        proof {
            assert(read@ + read_block_spec(template@, i as int, delimiter).0 =~= read@);
        }
        (read, n)
    }

    /// Parses a whole template into lines of styled blocks.
    pub fn parse(template: &str) -> (r: Vec<Line>)
        ensures
            r.deep_view() == parse_spec(template@),
    {
        let n = template.unicode_len();
        let mut i: usize = 0;
        let mut mode = ParseMode::Text;
        let mut act = String::new();
        let mut block = String::new();
        let mut style = String::new();
        let mut line: Vec<LineBlock> = Vec::new();
        let mut done: Vec<Line> = Vec::new();
        proof {
            assert(line.deep_view() =~= Seq::<(Seq<char>, Option<Seq<char>>)>::empty());
            assert(done.deep_view() =~= Seq::<Seq<(Seq<char>, Option<Seq<char>>)>>::empty());
            assert(template@.skip(0) =~= template@);
        }
        while i < n
            invariant
                i <= n,
                n == template@.len(),
                parse_spec(template@) == parse_rec(
                    template@.skip(i as int),
                    mode,
                    act@,
                    block@,
                    style@,
                    line.deep_view(),
                    done.deep_view(),
                ),
            decreases n - i,
        {
            let ghost rem = template@.skip(i as int);
            let ghost g_mode = mode;
            let ghost g_act = act@;
            let ghost g_block = block@;
            let ghost g_style = style@;
            let ghost g_line = line.deep_view();
            let ghost g_done = done.deep_view();
            proof {
                assert(rem[0] == template@[i as int]);
                assert(rem.skip(1) =~= template@.skip(i + 1));
            }
            let c = template.get_char(i);
            match mode {
                ParseMode::Text => {
                    if c == '[' {
                        flush_span(&mut line, act);
                        act = String::new();
                        block = String::new();
                        mode = ParseMode::Block;
                        proof {
                            assert(parse_rec(rem, g_mode, g_act, g_block, g_style, g_line, g_done)
                                == parse_rec(template@.skip(i + 1), mode, act@, block@, style@,
                                    line.deep_view(), done.deep_view()));
                        }
                    } else if c == '\\' {
                        mode = ParseMode::TextEsc;
                        proof {
                            assert(parse_rec(rem, g_mode, g_act, g_block, g_style, g_line, g_done)
                                == parse_rec(template@.skip(i + 1), mode, act@, block@, style@,
                                    line.deep_view(), done.deep_view()));
                        }
                    } else if c == '\n' {
                        flush_span(&mut line, act);
                        act = String::new();
                        let finished = Line(line);
                        line = Vec::new();
                        let ghost g_finished = finished@;
                        done.push(finished);
                        proof {
                            assert(line.deep_view() =~= Seq::<
                                (Seq<char>, Option<Seq<char>>),
                            >::empty());
                            assert(done.deep_view() =~= g_done.push(g_finished));
                        }
                        proof {
                            assert(parse_rec(rem, g_mode, g_act, g_block, g_style, g_line, g_done)
                                == parse_rec(template@.skip(i + 1), mode, act@, block@, style@,
                                    line.deep_view(), done.deep_view()));
                        }
                    } else {
                        push_char(&mut act, c);
                        proof {
                            assert(parse_rec(rem, g_mode, g_act, g_block, g_style, g_line, g_done)
                                == parse_rec(template@.skip(i + 1), mode, act@, block@, style@,
                                    line.deep_view(), done.deep_view()));
                        }
                    }
                },
                ParseMode::TextEsc => {
                    push_char(&mut act, c);
                    mode = ParseMode::Text;
                    proof {
                            assert(parse_rec(rem, g_mode, g_act, g_block, g_style, g_line, g_done)
                                == parse_rec(template@.skip(i + 1), mode, act@, block@, style@,
                                    line.deep_view(), done.deep_view()));
                        }
                },
                ParseMode::Block => {
                    if c == '\\' {
                        mode = ParseMode::BlockEsc;
                        proof {
                            assert(parse_rec(rem, g_mode, g_act, g_block, g_style, g_line, g_done)
                                == parse_rec(template@.skip(i + 1), mode, act@, block@, style@,
                                    line.deep_view(), done.deep_view()));
                        }
                    } else if c == ']' {
                        mode = ParseMode::AfterBlock;
                        proof {
                            assert(parse_rec(rem, g_mode, g_act, g_block, g_style, g_line, g_done)
                                == parse_rec(template@.skip(i + 1), mode, act@, block@, style@,
                                    line.deep_view(), done.deep_view()));
                        }
                    } else {
                        push_char(&mut block, c);
                        proof {
                            assert(parse_rec(rem, g_mode, g_act, g_block, g_style, g_line, g_done)
                                == parse_rec(template@.skip(i + 1), mode, act@, block@, style@,
                                    line.deep_view(), done.deep_view()));
                        }
                    }
                },
                ParseMode::BlockEsc => {
                    push_char(&mut block, c);
                    mode = ParseMode::Block;
                    proof {
                            assert(parse_rec(rem, g_mode, g_act, g_block, g_style, g_line, g_done)
                                == parse_rec(template@.skip(i + 1), mode, act@, block@, style@,
                                    line.deep_view(), done.deep_view()));
                        }
                },
                ParseMode::AfterBlock => {
                    if c == '(' {
                        style = String::new();
                        mode = ParseMode::Style;
                        proof {
                            assert(parse_rec(rem, g_mode, g_act, g_block, g_style, g_line, g_done)
                                == parse_rec(template@.skip(i + 1), mode, act@, block@, style@,
                                    line.deep_view(), done.deep_view()));
                        }
                    } else if c == '\\' {
                        push_styled(&mut line, block, None);
                        block = String::new();
                        act = String::new();
                        mode = ParseMode::TextEsc;
                        proof {
                            assert(parse_rec(rem, g_mode, g_act, g_block, g_style, g_line, g_done)
                                == parse_rec(template@.skip(i + 1), mode, act@, block@, style@,
                                    line.deep_view(), done.deep_view()));
                        }
                    } else {
                        push_styled(&mut line, block, None);
                        block = String::new();
                        act = String::new();
                        push_char(&mut act, c);
                        mode = ParseMode::Text;
                        proof {
                            assert(parse_rec(rem, g_mode, g_act, g_block, g_style, g_line, g_done)
                                == parse_rec(template@.skip(i + 1), mode, act@, block@, style@,
                                    line.deep_view(), done.deep_view()));
                        }
                    }
                },
                ParseMode::Style => {
                    if c == '\\' {
                        mode = ParseMode::StyleEsc;
                        proof {
                            assert(parse_rec(rem, g_mode, g_act, g_block, g_style, g_line, g_done)
                                == parse_rec(template@.skip(i + 1), mode, act@, block@, style@,
                                    line.deep_view(), done.deep_view()));
                        }
                    } else if c == ')' {
                        push_styled(&mut line, block, Some(style));
                        block = String::new();
                        style = String::new();
                        act = String::new();
                        mode = ParseMode::Text;
                        proof {
                            assert(parse_rec(rem, g_mode, g_act, g_block, g_style, g_line, g_done)
                                == parse_rec(template@.skip(i + 1), mode, act@, block@, style@,
                                    line.deep_view(), done.deep_view()));
                        }
                    } else {
                        push_char(&mut style, c);
                        proof {
                            assert(parse_rec(rem, g_mode, g_act, g_block, g_style, g_line, g_done)
                                == parse_rec(template@.skip(i + 1), mode, act@, block@, style@,
                                    line.deep_view(), done.deep_view()));
                        }
                    }
                },
                ParseMode::StyleEsc => {
                    push_char(&mut style, c);
                    mode = ParseMode::Style;
                    proof {
                            assert(parse_rec(rem, g_mode, g_act, g_block, g_style, g_line, g_done)
                                == parse_rec(template@.skip(i + 1), mode, act@, block@, style@,
                                    line.deep_view(), done.deep_view()));
                        }
                },
            }
            i += 1;
        }
        let ghost g_mode = mode;
        let ghost g_act = act@;
        let ghost g_block = block@;
        let ghost g_style = style@;
        let ghost g_line = line.deep_view();
        let ghost g_done = done.deep_view();
        proof {
            assert(template@.skip(i as int) =~= Seq::<char>::empty());
        }
        match mode {
            ParseMode::Text | ParseMode::TextEsc => {
                flush_span(&mut line, act);
            },
            ParseMode::Block | ParseMode::BlockEsc | ParseMode::AfterBlock => {
                flush_span(&mut line, block);
            },
            ParseMode::Style | ParseMode::StyleEsc => {
                push_styled(&mut line, block, Some(style));
            },
        }
        let finished = Line(line);
        let ghost g_finished = finished@;
        done.push(finished);
        proof {
            assert(done.deep_view() =~= g_done.push(g_finished));
            assert(parse_rec(Seq::empty(), g_mode, g_act, g_block, g_style, g_line, g_done)
                == done.deep_view());
        }
        done
    }
}

/// Pushing a character and then appending is prepending it to the
/// appended part.
proof fn lemma_prepend_assoc(a: Seq<char>, c: char, b: Seq<char>)
    ensures
        a.push(c) + b == a + (seq![c].add(b)),
{
    assert(a.push(c) + b =~= a + (seq![c].add(b)));
}


} // verus!
