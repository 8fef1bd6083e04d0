//! Rendering of markdown (as a stream of parser events) into styled lines.
use vstd::prelude::*;
use crate::text::{chars_of, decimal, lines_from, push_decimal_wide, push_seq, string_of};
use pulldown_cmark::{Event, Options, Parser, Tag, TagEnd};

verus! {

/// A colour of the terminal palette.
#[derive(Debug, Clone, Copy, PartialEq, Eq, Structural)]
pub enum MdColor {
    /// Blue.
    Blue,
    /// Cyan.
    Cyan,
    /// White.
    White,
    /// Dark grey.
    DarkGray,
    /// Green.
    Green,
    /// Yellow.
    Yellow,
    /// A true colour.
    Rgb(u8, u8, u8),
}

/// The style of a span of text.
#[derive(Debug, Clone, Copy, PartialEq, Eq, Structural)]
pub struct MdStyle {
    /// Foreground colour, if set.
    pub fg: Option<MdColor>,
    /// Background colour, if set.
    pub bg: Option<MdColor>,
    /// Bold.
    pub bold: bool,
    /// Italic.
    pub italic: bool,
    /// Underlined.
    pub underlined: bool,
}

/// A styled run of text.
#[derive(Debug, Clone)]
pub struct MdSpan {
    /// The text.
    pub text: String,
    /// Its style.
    pub style: MdStyle,
}

/// A line of styled spans.
#[derive(Debug)]
pub struct MdLine {
    /// The spans, in order.
    pub spans: Vec<MdSpan>,
}

/// A markdown parser event, as the renderer reads it.
#[derive(Debug)]
pub enum MdEvent {
    /// Start of a heading of the given level (1 to 6).
    StartHeading(u8),
    /// Start of a paragraph.
    StartParagraph,
    /// Start of strong text.
    StartStrong,
    /// Start of emphasised text.
    StartEmphasis,
    /// Start of a code block.
    StartCodeBlock,
    /// Start of a link.
    StartLink,
    /// Start of a list, with the first number of an ordered list.
    StartList(Option<u64>),
    /// Start of a list item.
    StartItem,
    /// Start of a block quote.
    StartBlockQuote,
    /// End of a heading.
    EndHeading,
    /// End of a paragraph.
    EndParagraph,
    /// End of strong text.
    EndStrong,
    /// End of emphasised text.
    EndEmphasis,
    /// End of a code block.
    EndCodeBlock,
    /// End of a link.
    EndLink,
    /// End of a list.
    EndList,
    /// End of a list item.
    EndItem,
    /// End of a block quote.
    EndBlockQuote,
    /// Text.
    Text(String),
    /// Inline code.
    Code(String),
    /// A soft line break.
    SoftBreak,
    /// A hard line break.
    HardBreak,
    /// A horizontal rule.
    Rule,
    /// Any other event (the start or end of another element, HTML, ...).
    Other,
}

/// The contents of a span.
pub struct SpanView {
    /// The text.
    pub text: Seq<char>,
    /// Its style.
    pub style: MdStyle,
}

impl View for MdSpan {
    type V = SpanView;

    open spec fn view(&self) -> SpanView {
        SpanView { text: self.text@, style: self.style }
    }
}

/// The contents of spans.
pub open spec fn spans_view(spans: Seq<MdSpan>) -> Seq<SpanView> {
    spans.map_values(|s: MdSpan| s@)
}

/// The contents of lines.
pub open spec fn lines_view(lines: Seq<MdLine>) -> Seq<Seq<SpanView>> {
    lines.map_values(|l: MdLine| spans_view(l.spans@))
}

/// The state of the renderer between two events.
pub struct RenderState {
    /// The finished lines.
    pub lines: Seq<Seq<SpanView>>,
    /// The spans of the line being built.
    pub spans: Seq<SpanView>,
    /// The stack of inline styles.
    pub styles: Seq<MdStyle>,
    /// Inside a code block.
    pub in_code: bool,
    /// How deep lists are nested.
    pub depth: nat,
    /// The number of the next item of an ordered list.
    pub ordered: Option<int>,
}

/// The default style.
pub open spec fn plain() -> MdStyle {
    MdStyle { fg: None, bg: None, bold: false, italic: false, underlined: false }
}

/// Dark grey text.
pub open spec fn dark() -> MdStyle {
    MdStyle { fg: Some(MdColor::DarkGray), ..plain() }
}

/// The style of a heading of level `level`.
pub open spec fn heading_style(level: u8) -> MdStyle {
    if level == 1 {
        MdStyle { fg: Some(MdColor::Blue), bold: true, ..plain() }
    } else if level == 2 {
        MdStyle { fg: Some(MdColor::Cyan), bold: true, ..plain() }
    } else {
        MdStyle { fg: Some(MdColor::White), bold: true, ..plain() }
    }
}

/// The style of inline code.
pub open spec fn code_style() -> MdStyle {
    MdStyle { fg: Some(MdColor::Yellow), bg: Some(MdColor::Rgb(40, 40, 40)), ..plain() }
}

/// The top border of a code block.
pub open spec fn code_top() -> Seq<char> {
    "  ┌───────────────────────"@
}

/// The bottom border of a code block.
pub open spec fn code_bottom() -> Seq<char> {
    "  └───────────────────────"@
}

/// A horizontal rule: `  ─` twenty times.
pub open spec fn rule_text() -> Seq<char> {
    "  ─  ─  ─  ─  ─  ─  ─  ─  ─  ─  ─  ─  ─  ─  ─  ─  ─  ─  ─  ─"@
}

/// `s` repeated `n` times.
pub open spec fn repeated(s: Seq<char>, n: nat) -> Seq<char>
    decreases n,
{
    if n == 0 { Seq::empty() } else { repeated(s, (n - 1) as nat) + s }
}

/// The style in effect: the top of the stack, or the default.
pub open spec fn current(st: RenderState) -> MdStyle {
    if st.styles.len() > 0 { st.styles.last() } else { plain() }
}

/// The stack of styles with its top removed (if any).
pub open spec fn popped_styles(st: RenderState) -> Seq<MdStyle> {
    if st.styles.len() > 0 { st.styles.drop_last() } else { st.styles }
}

/// The line being built, finished when it has spans.
pub open spec fn flushed(st: RenderState) -> RenderState {
    if st.spans.len() > 0 {
        RenderState { lines: st.lines.push(st.spans), spans: Seq::empty(), ..st }
    } else {
        st
    }
}

/// One span with text `text` and style `style`.
pub open spec fn span(text: Seq<char>, style: MdStyle) -> SpanView {
    SpanView { text, style }
}

/// The lines of code-block text, each in its own green line behind a border.
pub open spec fn code_lines(ls: Seq<Seq<char>>) -> Seq<Seq<SpanView>> {
    ls.map_values(|l: Seq<char>| seq![span("  │ "@ + l, MdStyle { fg: Some(MdColor::Green), ..plain() })])
}

/// What one event does to the renderer's state.
pub open spec fn step(st: RenderState, e: MdEvent) -> RenderState {
    match e {
        MdEvent::StartHeading(level) => {
            let f = flushed(st);
            RenderState { styles: f.styles.push(heading_style(level)), ..f }
        },
        MdEvent::StartParagraph => st,
        MdEvent::StartStrong => RenderState { styles: st.styles.push(MdStyle { bold: true, ..current(st) }), ..st },
        MdEvent::StartEmphasis => RenderState { styles: st.styles.push(MdStyle { italic: true, ..current(st) }), ..st },
        MdEvent::StartCodeBlock => {
            let f = flushed(st);
            RenderState { lines: f.lines.push(seq![span(code_top(), dark())]), in_code: true, ..f }
        },
        MdEvent::StartLink => RenderState {
            styles: st.styles.push(MdStyle { fg: Some(MdColor::Blue), underlined: true, ..current(st) }),
            ..st
        },
        MdEvent::StartList(start) => {
            let f = flushed(st);
            RenderState {
                depth: f.depth + 1,
                ordered: match start { Some(n) => Some(n as int), None => None },
                ..f
            }
        },
        MdEvent::StartItem => {
            let f = flushed(st);
            let indent = repeated("  "@, f.depth);
            match f.ordered {
                Some(n) => RenderState {
                    spans: f.spans.push(span(indent + decimal(n as nat) + ". "@, dark())),
                    ordered: Some(n + 1),
                    ..f
                },
                None => RenderState { spans: f.spans.push(span(indent + "• "@, dark())), ..f },
            }
        },
        MdEvent::StartBlockQuote => RenderState {
            styles: st.styles.push(MdStyle { fg: Some(MdColor::DarkGray), italic: true, ..current(st) }),
            ..st
        },
        MdEvent::EndHeading => {
            let f = flushed(st);
            RenderState { lines: f.lines.push(Seq::empty()), styles: popped_styles(f), ..f }
        },
        MdEvent::EndParagraph => {
            let f = flushed(st);
            RenderState { lines: f.lines.push(Seq::empty()), ..f }
        },
        MdEvent::EndStrong => RenderState { styles: popped_styles(st), ..st },
        MdEvent::EndEmphasis => RenderState { styles: popped_styles(st), ..st },
        MdEvent::EndLink => RenderState { styles: popped_styles(st), ..st },
        MdEvent::EndBlockQuote => RenderState { styles: popped_styles(st), ..st },
        MdEvent::EndCodeBlock => RenderState {
            in_code: false,
            lines: st.lines.push(seq![span(code_bottom(), dark())]).push(Seq::empty()),
            ..st
        },
        MdEvent::EndList => {
            let d: nat = if st.depth > 0 { (st.depth - 1) as nat } else { 0 };
            RenderState {
                depth: d,
                ordered: if d == 0 { None } else { st.ordered },
                lines: st.lines.push(Seq::empty()),
                ..st
            }
        },
        MdEvent::EndItem => flushed(st),
        MdEvent::Text(t) => if st.in_code {
            RenderState { lines: st.lines + code_lines(lines_from(t@, 0, 0)), ..st }
        } else {
            RenderState { spans: st.spans.push(span(t@, current(st))), ..st }
        },
        MdEvent::Code(c) => RenderState { spans: st.spans.push(span(" "@ + c@ + " "@, code_style())), ..st },
        MdEvent::SoftBreak => RenderState { spans: st.spans.push(span(" "@, plain())), ..st },
        MdEvent::HardBreak => flushed(st),
        MdEvent::Rule => {
            let f = flushed(st);
            RenderState { lines: f.lines.push(seq![span(rule_text(), dark())]).push(Seq::empty()), ..f }
        },
        MdEvent::Other => st,
    }
}

/// The renderer's state before any event.
pub open spec fn initial() -> RenderState {
    RenderState { lines: Seq::empty(), spans: Seq::empty(), styles: seq![plain()], in_code: false, depth: 0, ordered: None }
}

/// The renderer's state after `events`.
pub open spec fn run(events: Seq<MdEvent>) -> RenderState
    decreases events.len(),
{
    if events.len() == 0 { initial() } else { step(run(events.drop_last()), events.last()) }
}

/// The lines `events` render to.
pub open spec fn rendered(events: Seq<MdEvent>) -> Seq<Seq<SpanView>> {
    flushed(run(events)).lines
}

/// The renderer's working state.
struct Renderer {
    lines: Vec<MdLine>,
    spans: Vec<MdSpan>,
    styles: Vec<MdStyle>,
    in_code: bool,
    depth: usize,
    ordered: Option<u128>,
}

impl Renderer {
    spec fn state(&self) -> RenderState {
        RenderState {
            lines: lines_view(self.lines@),
            spans: spans_view(self.spans@),
            styles: self.styles@,
            in_code: self.in_code,
            depth: self.depth as nat,
            ordered: match self.ordered { Some(n) => Some(n as int), None => None },
        }
    }

    fn current_style(&self) -> (r: MdStyle)
        ensures
            r == current(self.state()),
    {
        if self.styles.len() > 0 { self.styles[self.styles.len() - 1] } else { plain_style() }
    }

    fn pop_style(&mut self)
        ensures
            final(self).state() == (RenderState { styles: popped_styles(old(self).state()), ..old(self).state() }),
    {
        if self.styles.len() > 0 {
            self.styles.pop();
        }
    }

    fn push_span(&mut self, text: String, style: MdStyle)
        ensures
            final(self).state() == (RenderState { spans: old(self).state().spans.push(span(text@, style)), ..old(self).state() }),
    {
        let ghost before = self.spans@;
        self.spans.push(MdSpan { text, style });
        proof { assert(spans_view(self.spans@) =~= spans_view(before).push(span(text@, style))); }
    }

    fn push_line(&mut self, spans: Vec<MdSpan>)
        ensures
            final(self).state() == (RenderState { lines: old(self).state().lines.push(spans_view(spans@)), ..old(self).state() }),
    {
        let ghost before = self.lines@;
        let line = MdLine { spans };
        self.lines.push(line);
        proof { assert(lines_view(self.lines@) =~= lines_view(before).push(spans_view(spans@))); }
    }

    fn push_single(&mut self, text: &str, style: MdStyle)
        ensures
            final(self).state() == (RenderState { lines: old(self).state().lines.push(seq![span(text@, style)]), ..old(self).state() }),
    {
        let mut v: Vec<MdSpan> = Vec::new();
        v.push(MdSpan { text: string_of(&chars_of(text)), style });
        proof { assert(spans_view(v@) =~= seq![span(text@, style)]); }
        self.push_line(v);
    }

    fn push_blank(&mut self)
        ensures
            final(self).state() == (RenderState { lines: old(self).state().lines.push(Seq::empty()), ..old(self).state() }),
    {
        let v: Vec<MdSpan> = Vec::new();
        proof { assert(spans_view(v@) =~= Seq::<SpanView>::empty()); }
        self.push_line(v);
    }

    fn flush_line(&mut self)
        ensures
            final(self).state() == flushed(old(self).state()),
    {
        if self.spans.len() > 0 {
            let mut spans: Vec<MdSpan> = Vec::new();
            std::mem::swap(&mut spans, &mut self.spans);
            self.push_line(spans);
            proof { assert(spans_view(self.spans@) =~= Seq::<SpanView>::empty()); }
        }
    }
}

/// The default style.
fn plain_style() -> (r: MdStyle)
    ensures
        r == plain(),
{
    MdStyle { fg: None, bg: None, bold: false, italic: false, underlined: false }
}

/// Dark grey text.
fn dark_style() -> (r: MdStyle)
    ensures
        r == dark(),
{
    MdStyle { fg: Some(MdColor::DarkGray), ..plain_style() }
}

/// The style of a heading of level `level`.
fn heading_style_of(level: u8) -> (r: MdStyle)
    ensures
        r == heading_style(level),
{
    let color = if level == 1 { MdColor::Blue } else if level == 2 { MdColor::Cyan } else { MdColor::White };
    MdStyle { fg: Some(color), bold: true, ..plain_style() }
}

/// Appends the lines of code-block text to the renderer.
fn push_code_lines(r: &mut Renderer, t: &String)
    ensures
        final(r).state() == (RenderState { lines: old(r).state().lines + code_lines(lines_from(t@, 0, 0)), ..old(r).state() }),
{
    let cs = chars_of(t.as_str());
    let ghost s = t@;
    let ghost base = r.state().lines;
    let green = MdStyle { fg: Some(MdColor::Green), ..plain_style() };
    let mut i: usize = 0;
    let mut start: usize = 0;
    while i < cs.len()
        invariant
            cs@ == s,
            start <= i <= cs.len(),
            r.state().lines + code_lines(lines_from(s, i as int, start as int)) == base + code_lines(lines_from(s, 0, 0)),
            r.state() == (RenderState { lines: r.state().lines, ..old(r).state() }),
            green == (MdStyle { fg: Some(MdColor::Green), ..plain() }),
        decreases cs.len() - i,
    {
        if cs[i] == '\n' {
            let mut end = i;
            if end > start && cs[end - 1] == '\r' {
                end = end - 1;
            }
            let mut text = chars_of("  │ ");
            let mut k = start;
            while k < end
                invariant
                    start <= k <= end <= cs.len(),
                    text@ == "  │ "@ + cs@.subrange(start as int, k as int),
                decreases end - k,
            {
                text.push(cs[k]);
                k += 1;
                proof { assert(text@ =~= "  │ "@ + cs@.subrange(start as int, k as int)); }
            }
            let ghost before = r.state().lines;
            let ghost piece = s.subrange(start as int, i as int);
            let ghost line = if piece.len() > 0 && piece.last() == '\r' { piece.drop_last() } else { piece };
            proof {
                assert(cs@.subrange(start as int, end as int) =~= line);
            }
            r.push_single(string_of(&text).as_str(), green);
            proof {
                let rest = lines_from(s, i + 1, i + 1);
                assert(lines_from(s, i as int, start as int) == seq![line] + rest);
                assert(code_lines(seq![line] + rest) =~= seq![seq![span("  │ "@ + line, green)]] + code_lines(rest));
                assert(before.push(seq![span("  │ "@ + line, green)]) + code_lines(rest)
                    =~= before + code_lines(seq![line] + rest));
            }
            start = i + 1;
        }
        i += 1;
    }
    if start < cs.len() {
        let mut text = chars_of("  │ ");
        let mut k = start;
        while k < cs.len()
            invariant
                start <= k <= cs.len(),
                text@ == "  │ "@ + cs@.subrange(start as int, k as int),
            decreases cs.len() - k,
        {
            text.push(cs[k]);
            k += 1;
            proof { assert(text@ =~= "  │ "@ + cs@.subrange(start as int, k as int)); }
        }
        let ghost before = r.state().lines;
        let ghost line = s.subrange(start as int, s.len() as int);
        r.push_single(string_of(&text).as_str(), green);
        proof {
            assert(lines_from(s, i as int, start as int) == seq![line]);
            assert(code_lines(seq![line]) =~= seq![seq![span("  │ "@ + line, green)]]);
            assert(before.push(seq![span("  │ "@ + line, green)]) =~= before + code_lines(seq![line]));
        }
    } else {
        proof {
            assert(lines_from(s, i as int, start as int) =~= Seq::<Seq<char>>::empty());
            assert(code_lines(Seq::<Seq<char>>::empty()) =~= Seq::<Seq<SpanView>>::empty());
            assert(r.state().lines + Seq::<Seq<SpanView>>::empty() =~= r.state().lines);
        }
    }
}

/// Applies one event to the renderer.
fn step_event(r: &mut Renderer, e: &MdEvent)
    requires
        old(r).depth < usize::MAX,
        old(r).ordered matches Some(n) ==> n < u128::MAX,
    ensures
        final(r).state() == step(old(r).state(), *e),
{
    match e {
        MdEvent::StartHeading(level) => {
            r.flush_line();
            r.styles.push(heading_style_of(*level));
        },
        MdEvent::StartParagraph => {},
        MdEvent::StartStrong => {
            let base = r.current_style();
            r.styles.push(MdStyle { bold: true, ..base });
        },
        MdEvent::StartEmphasis => {
            let base = r.current_style();
            r.styles.push(MdStyle { italic: true, ..base });
        },
        MdEvent::StartCodeBlock => {
            r.flush_line();
            r.push_single("  ┌───────────────────────", dark_style());
            r.in_code = true;
        },
        MdEvent::StartLink => {
            let base = r.current_style();
            r.styles.push(MdStyle { fg: Some(MdColor::Blue), underlined: true, ..base });
        },
        MdEvent::StartList(start) => {
            r.flush_line();
            r.depth = r.depth + 1;
            r.ordered = match start {
                Some(n) => Some(*n as u128),
                None => None,
            };
        },
        MdEvent::StartItem => {
            r.flush_line();
            let mut marker: Vec<char> = Vec::new();
            let mut k: usize = 0;
            while k < r.depth
                invariant
                    k <= r.depth,
                    marker@ == repeated("  "@, k as nat),
                decreases r.depth - k,
            {
                push_seq(&mut marker, &chars_of("  "));
                k += 1;
            }
            match r.ordered {
                Some(n) => {
                    push_decimal_wide(&mut marker, n);
                    push_seq(&mut marker, &chars_of(". "));
                    r.ordered = Some(n + 1);
                },
                None => {
                    push_seq(&mut marker, &chars_of("• "));
                },
            }
            r.push_span(string_of(&marker), dark_style());
        },
        MdEvent::StartBlockQuote => {
            let base = r.current_style();
            r.styles.push(MdStyle { fg: Some(MdColor::DarkGray), italic: true, ..base });
        },
        MdEvent::EndHeading => {
            r.flush_line();
            r.push_blank();
            r.pop_style();
        },
        MdEvent::EndParagraph => {
            r.flush_line();
            r.push_blank();
        },
        MdEvent::EndStrong | MdEvent::EndEmphasis | MdEvent::EndLink | MdEvent::EndBlockQuote => {
            r.pop_style();
        },
        MdEvent::EndCodeBlock => {
            r.in_code = false;
            r.push_single("  └───────────────────────", dark_style());
            r.push_blank();
        },
        MdEvent::EndList => {
            r.depth = if r.depth > 0 { r.depth - 1 } else { 0 };
            if r.depth == 0 {
                r.ordered = None;
            }
            r.push_blank();
        },
        MdEvent::EndItem => {
            r.flush_line();
        },
        MdEvent::Text(t) => {
            if r.in_code {
                push_code_lines(r, t);
            } else {
                let style = r.current_style();
                r.push_span(t.clone(), style);
            }
        },
        MdEvent::Code(c) => {
            let mut text = chars_of(" ");
            push_seq(&mut text, &chars_of(c.as_str()));
            push_seq(&mut text, &chars_of(" "));
            let style = MdStyle { fg: Some(MdColor::Yellow), bg: Some(MdColor::Rgb(40, 40, 40)), ..plain_style() };
            r.push_span(string_of(&text), style);
        },
        MdEvent::SoftBreak => {
            r.push_span(string_of(&chars_of(" ")), plain_style());
        },
        MdEvent::HardBreak => {
            r.flush_line();
        },
        MdEvent::Rule => {
            r.flush_line();
            r.push_single("  ─  ─  ─  ─  ─  ─  ─  ─  ─  ─  ─  ─  ─  ─  ─  ─  ─  ─  ─  ─", dark_style());
            r.push_blank();
        },
        MdEvent::Other => {},
    }
}

/// Renders markdown, given as the parser's events, into styled lines.
pub fn render_events(events: &Vec<MdEvent>) -> (r: Vec<MdLine>)
    ensures
        lines_view(r@) == rendered(events@),
{
    let mut st = Renderer {
        lines: Vec::new(),
        spans: Vec::new(),
        styles: Vec::new(),
        in_code: false,
        depth: 0,
        ordered: None,
    };
    st.styles.push(plain_style());
    proof {
        assert(lines_view(st.lines@) =~= Seq::<Seq<SpanView>>::empty());
        assert(spans_view(st.spans@) =~= Seq::<SpanView>::empty());
        assert(st.styles@ =~= seq![plain()]);
        assert(events@.subrange(0, 0) =~= Seq::<MdEvent>::empty());
    }
    let mut i: usize = 0;
    while i < events.len()
        invariant
            i <= events.len(),
            st.state() == run(events@.subrange(0, i as int)),
            st.depth <= i,
            st.ordered matches Some(n) ==> n <= u64::MAX + i,
        decreases events.len() - i,
    {
        proof { assert(events@.subrange(0, i + 1).drop_last() =~= events@.subrange(0, i as int)); }
        step_event(&mut st, &events[i]);
        i += 1;
    }
    st.flush_line();
    proof { assert(events@.subrange(0, events@.len() as int) =~= events@); }
    st.lines
}

/// An event of the markdown parser.
#[verifier::external_type_specification]
#[verifier::external_body]
pub struct ExParserEvent<'a>(Event<'a>);

/// The events that the markdown parser of `pulldown_cmark` gives for a text (with
/// strikethrough and tables enabled), each taken as an `MdEvent`.
pub uninterp spec fn markdown_events(md: Seq<char>) -> Seq<MdEvent>;

/// The tag that a `pulldown_cmark` event opens, as an `MdEvent`; `None` for an event that
/// opens no tag.
pub uninterp spec fn opened_tag(e: Event) -> Option<MdEvent>;

/// The tag that a `pulldown_cmark` event closes, as an `MdEvent`; `None` for an event that
/// closes no tag.
pub uninterp spec fn closed_tag(e: Event) -> Option<MdEvent>;

/// A `pulldown_cmark` event that neither opens nor closes a tag, as an `MdEvent`.
pub uninterp spec fn leaf_of(e: Event) -> MdEvent;

/// `pulldown_cmark`'s event when it opens a tag, as an `MdEvent`; `None` for any other event.
/// The contract claims only that the result is a function of the event, `opened_tag`.
#[verifier::external_body]
fn start_event(e: &Event) -> (r: Option<MdEvent>)
    ensures
        r == opened_tag(*e),
{
    match e {
        Event::Start(Tag::Heading { level, .. }) => Some(MdEvent::StartHeading(*level as u8)),
        Event::Start(Tag::Paragraph) => Some(MdEvent::StartParagraph),
        Event::Start(Tag::Strong) => Some(MdEvent::StartStrong),
        Event::Start(Tag::Emphasis) => Some(MdEvent::StartEmphasis),
        Event::Start(Tag::CodeBlock(_)) => Some(MdEvent::StartCodeBlock),
        Event::Start(Tag::Link { .. }) => Some(MdEvent::StartLink),
        Event::Start(Tag::List(start)) => Some(MdEvent::StartList(*start)),
        Event::Start(Tag::Item) => Some(MdEvent::StartItem),
        Event::Start(Tag::BlockQuote(_)) => Some(MdEvent::StartBlockQuote),
        Event::Start(_) => Some(MdEvent::Other),
        _ => None,
    }
}

/// `pulldown_cmark`'s event when it closes a tag, as an `MdEvent`; `None` for any other event.
/// The contract claims only that the result is a function of the event, `closed_tag`.
#[verifier::external_body]
fn end_event(e: &Event) -> (r: Option<MdEvent>)
    ensures
        r == closed_tag(*e),
{
    match e {
        Event::End(TagEnd::Heading(_)) => Some(MdEvent::EndHeading),
        Event::End(TagEnd::Paragraph) => Some(MdEvent::EndParagraph),
        Event::End(TagEnd::Strong) => Some(MdEvent::EndStrong),
        Event::End(TagEnd::Emphasis) => Some(MdEvent::EndEmphasis),
        Event::End(TagEnd::CodeBlock) => Some(MdEvent::EndCodeBlock),
        Event::End(TagEnd::Link) => Some(MdEvent::EndLink),
        Event::End(TagEnd::List(_)) => Some(MdEvent::EndList),
        Event::End(TagEnd::Item) => Some(MdEvent::EndItem),
        Event::End(TagEnd::BlockQuote(_)) => Some(MdEvent::EndBlockQuote),
        Event::End(_) => Some(MdEvent::Other),
        _ => None,
    }
}

/// Any other event of `pulldown_cmark` (text, code, breaks, rules), as an `MdEvent`.
/// The contract claims only that the result is a function of the event, `leaf_of`.
#[verifier::external_body]
fn leaf_event(e: &Event) -> (r: MdEvent)
    ensures
        r == leaf_of(*e),
{
    match e {
        Event::Text(t) => MdEvent::Text(t.to_string()),
        Event::Code(c) => MdEvent::Code(c.to_string()),
        Event::SoftBreak => MdEvent::SoftBreak,
        Event::HardBreak => MdEvent::HardBreak,
        Event::Rule => MdEvent::Rule,
        _ => MdEvent::Other,
    }
}

/// One event of the parser, as an `MdEvent`: the tag it opens, else the tag it closes,
/// else the event itself.
pub open spec fn event_as_md(e: Event) -> MdEvent {
    match opened_tag(e) {
        Some(m) => m,
        None => match closed_tag(e) {
            Some(m) => m,
            None => leaf_of(e),
        },
    }
}

/// One event of the parser, as an `MdEvent`.
fn convert_event(e: &Event) -> (r: MdEvent)
    ensures
        r == event_as_md(*e),
{
    match start_event(e) {
        Some(m) => m,
        None => match end_event(e) {
            Some(m) => m,
            None => leaf_event(e),
        },
    }
}

/// Parses `md` with `pulldown_cmark::Parser::new_ext` (strikethrough and tables enabled)
/// and takes each event as an `MdEvent`. The contract claims only that the result is a
/// function of the text, `markdown_events`.
#[verifier::external_body]
fn parse_markdown(md: &str) -> (r: Vec<MdEvent>)
    ensures
        r@ == markdown_events(md@),
{
    let options = Options::ENABLE_STRIKETHROUGH | Options::ENABLE_TABLES;
    Parser::new_ext(md, options).map(|e| convert_event(&e)).collect()
}

/// Renders a markdown text into styled lines.
pub fn render_markdown(md: &str) -> (r: Vec<MdLine>)
    ensures
        lines_view(r@) == rendered(markdown_events(md@)),
{
    let events = parse_markdown(md);
    render_events(&events)
}

} // verus!

verus! {

/// The text of a line: its spans' texts, in order.
pub open spec fn line_text(spans: Seq<SpanView>) -> Seq<char>
    decreases spans.len(),
{
    if spans.len() == 0 { Seq::empty() } else { line_text(spans.drop_last()) + spans.last().text }
}

proof fn lemma_run_push(events: Seq<MdEvent>, e: MdEvent)
    ensures
        run(events.push(e)) == step(run(events), e),
{
    assert(events.push(e).drop_last() =~= events);
}

proof fn lemma_line_text_push(spans: Seq<SpanView>, s: SpanView)
    ensures
        line_text(spans.push(s)) == line_text(spans) + s.text,
{
    assert(spans.push(s).drop_last() =~= spans);
}

/// A soft line break continues the line being built with one space: the
/// finished lines stay as they are, and the text of the current line gains
/// exactly `" "`, whatever came before.
pub proof fn law_soft_break_is_one_space(events: Seq<MdEvent>)
    ensures
        run(events.push(MdEvent::SoftBreak)).lines == run(events).lines,
        line_text(run(events.push(MdEvent::SoftBreak)).spans) == line_text(run(events).spans) + " "@,
{
    lemma_run_push(events, MdEvent::SoftBreak);
    let st = run(events);
    let nx = run(events.push(MdEvent::SoftBreak));
    assert(nx.spans.len() == st.spans.len() + 1);
    assert(nx.spans.drop_last() =~= st.spans);
    assert(nx.spans.last().text == " "@);
}

/// Outside a code block, text continues the line being built: the finished
/// lines stay as they are, and the text of the current line gains exactly `t`.
pub proof fn law_text_is_kept(events: Seq<MdEvent>, t: String)
    requires
        !run(events).in_code,
    ensures
        run(events.push(MdEvent::Text(t))).lines == run(events).lines,
        line_text(run(events.push(MdEvent::Text(t))).spans) == line_text(run(events).spans) + t@,
{
    lemma_run_push(events, MdEvent::Text(t));
    let st = run(events);
    let nx = run(events.push(MdEvent::Text(t)));
    assert(nx.spans.drop_last() =~= st.spans);
    assert(nx.spans.last().text == t@);
}

/// A paragraph of two source lines renders as one line holding both, joined by
/// one space, followed by a blank line: the words are neither dropped nor run
/// together.
pub proof fn law_paragraph_joins_source_lines(a: String, b: String)
    ensures
        rendered(seq![MdEvent::StartParagraph, MdEvent::Text(a), MdEvent::SoftBreak, MdEvent::Text(b),
            MdEvent::EndParagraph]).len() == 2,
        line_text(rendered(seq![MdEvent::StartParagraph, MdEvent::Text(a), MdEvent::SoftBreak, MdEvent::Text(b),
            MdEvent::EndParagraph])[0]) == a@ + " "@ + b@,
        rendered(seq![MdEvent::StartParagraph, MdEvent::Text(a), MdEvent::SoftBreak, MdEvent::Text(b),
            MdEvent::EndParagraph])[1].len() == 0,
{
    let e0 = Seq::<MdEvent>::empty();
    let e1 = e0.push(MdEvent::StartParagraph);
    let e2 = e1.push(MdEvent::Text(a));
    let e3 = e2.push(MdEvent::SoftBreak);
    let e4 = e3.push(MdEvent::Text(b));
    let e5 = e4.push(MdEvent::EndParagraph);
    assert(e5 =~= seq![MdEvent::StartParagraph, MdEvent::Text(a), MdEvent::SoftBreak, MdEvent::Text(b),
        MdEvent::EndParagraph]);
    assert(run(e0) == initial());
    lemma_run_push(e0, MdEvent::StartParagraph);
    assert(run(e1) == initial());
    law_text_is_kept(e1, a);
    lemma_run_push(e1, MdEvent::Text(a));
    law_soft_break_is_one_space(e2);
    lemma_run_push(e2, MdEvent::SoftBreak);
    assert(!run(e3).in_code);
    law_text_is_kept(e3, b);
    lemma_run_push(e3, MdEvent::Text(b));
    lemma_run_push(e4, MdEvent::EndParagraph);
    assert(line_text(Seq::<SpanView>::empty()) == Seq::<char>::empty());
    assert(run(e4).lines.len() == 0);
    assert(run(e4).spans.len() == 3) by {
        lemma_run_push(e1, MdEvent::Text(a));
    }
    assert(line_text(run(e4).spans) =~= a@ + " "@ + b@);
    let f = flushed(run(e4));
    assert(f.lines == seq![run(e4).spans]);
    assert(run(e5).lines == seq![run(e4).spans, Seq::<SpanView>::empty()]);
    assert(run(e5).spans.len() == 0);
    assert(flushed(run(e5)) == run(e5));
}

} // verus!
