//! What the full-screen front-end shows: its rows, and the text and the colours
//! in each of them.

use vstd::prelude::*;
use vstd::std_specs::vecdeque::*;
use vstd::string::*;

use crate::llm::{Message, MessageView};
use crate::text;
use crate::tui;
use crate::tui::{AppState, StateView, Status};

verus! {

/// A colour of the palette.
#[derive(Debug, Clone, Copy, PartialEq, Eq, Structural)]
pub enum Color {
    Background,
    Cyan,
    Magenta,
    Green,
    Yellow,
    Dim,
    White,
    /// The text of an answer.
    Pale,
    /// The terminal's own red.
    Red,
}

impl Color {
    /// The red, green and blue of a colour; none for the terminal's own.
    pub open spec fn components(self) -> Option<(u8, u8, u8)> {
        match self {
            Color::Background => Some((8, 8, 14)),
            Color::Cyan => Some((0, 240, 255)),
            Color::Magenta => Some((220, 0, 255)),
            Color::Green => Some((0, 255, 120)),
            Color::Yellow => Some((255, 210, 0)),
            Color::Dim => Some((70, 70, 90)),
            Color::White => Some((220, 220, 230)),
            Color::Pale => Some((160, 160, 190)),
            Color::Red => None,
        }
    }

    /// The red, green and blue of this colour; none for the terminal's own.
    pub fn rgb(&self) -> (rgb: Option<(u8, u8, u8)>)
        ensures
            rgb == self.components(),
    {
        match self {
            Color::Background => Some((8, 8, 14)),
            Color::Cyan => Some((0, 240, 255)),
            Color::Magenta => Some((220, 0, 255)),
            Color::Green => Some((0, 255, 120)),
            Color::Yellow => Some((255, 210, 0)),
            Color::Dim => Some((70, 70, 90)),
            Color::White => Some((220, 220, 230)),
            Color::Pale => Some((160, 160, 190)),
            Color::Red => None,
        }
    }
}

impl Status {
    /// The colour of a status.
    pub open spec fn hue(self) -> Color {
        match self {
            Status::Idle => Color::Green,
            Status::Listening => Color::Yellow,
            Status::Thinking => Color::Magenta,
            Status::Speaking => Color::Cyan,
        }
    }

    /// The colour of this status.
    pub fn color(&self) -> (color: Color)
        ensures
            color == self.hue(),
    {
        match self {
            Status::Idle => Color::Green,
            Status::Listening => Color::Yellow,
            Status::Thinking => Color::Magenta,
            Status::Speaking => Color::Cyan,
        }
    }
}

/// A run of text in one style.
#[derive(Debug)]
pub struct Span {
    pub text: String,
    /// The colour of the text; the surrounding one where none is given.
    pub color: Option<Color>,
    pub bold: bool,
}

/// The model of a `Span`.
#[verifier::ext_equal]
pub struct SpanView {
    pub text: Seq<char>,
    pub color: Option<Color>,
    pub bold: bool,
}

impl View for Span {
    type V = SpanView;

    open spec fn view(&self) -> SpanView {
        SpanView { text: self.text@, color: self.color, bold: self.bold }
    }
}

/// The models of a list of spans.
pub open spec fn spans_view(spans: Seq<Span>) -> Seq<SpanView> {
    spans.map_values(|s: Span| s@)
}

/// A text in a colour.
pub open spec fn plain(text: Seq<char>, color: Color) -> SpanView {
    SpanView { text, color: Some(color), bold: false }
}

/// A bold text in a colour.
pub open spec fn strong(text: Seq<char>, color: Color) -> SpanView {
    SpanView { text, color: Some(color), bold: true }
}

fn plain_span(text: &str, color: Color) -> (span: Span)
    ensures
        span@ == plain(text@, color),
{
    Span { text: text.to_owned(), color: Some(color), bold: false }
}

fn strong_span(text: &str, color: Color) -> (span: Span)
    ensures
        span@ == strong(text@, color),
{
    Span { text: text.to_owned(), color: Some(color), bold: true }
}

/// The border of a row: what stands on it, and its colour.
#[derive(Debug)]
pub struct Frame {
    pub label: Vec<Span>,
    pub color: Color,
}

/// The model of a `Frame`.
#[verifier::ext_equal]
pub struct FrameView {
    pub label: Seq<SpanView>,
    pub color: Color,
}

impl View for Frame {
    type V = FrameView;

    open spec fn view(&self) -> FrameView {
        FrameView { label: spans_view(self.label@), color: self.color }
    }
}

/// A dim border with this text on it.
pub open spec fn dim_frame(label: Seq<char>) -> FrameView {
    FrameView { label: seq![plain(label, Color::Dim)], color: Color::Dim }
}

fn dim_border(label: &str) -> (frame: Frame)
    ensures
        frame@ == dim_frame(label@),
{
    let label = vec![plain_span(label, Color::Dim)];
    let frame = Frame { label, color: Color::Dim };
    assert(frame@.label =~= dim_frame(label@[0].text@).label);
    frame
}

/// The first row: its border, which shows the status, and the title.
#[derive(Debug)]
pub struct Header {
    pub frame: Frame,
    pub title: Vec<Span>,
}

/// What the first row shows of the status.
pub open spec fn status_spans(status: Status) -> Seq<SpanView> {
    seq![
        strong(" ◉ "@, status.hue()),
        strong(status.name(), status.hue()),
        SpanView { text: " "@, color: None, bold: false },
    ]
}

/// What the first row shows as the title.
pub open spec fn title_spans() -> Seq<SpanView> {
    seq![strong("  ◈ BRAINIAC"@, Color::Cyan), plain(" v0.1"@, Color::Dim)]
}

/// What the first row shows.
pub fn render_header(state: &AppState) -> (header: Header)
    ensures
        header.frame@ == (FrameView { label: status_spans(state.status), color: Color::Cyan }),
        spans_view(header.title@) == title_spans(),
{
    let color = state.status.color();
    let status = vec![
        strong_span(" ◉ ", color),
        strong_span(state.status.label(), color),
        Span { text: " ".to_owned(), color: None, bold: false },
    ];
    let title = vec![strong_span("  ◈ BRAINIAC", Color::Cyan), plain_span(" v0.1", Color::Dim)];
    assert(spans_view(status@) =~= status_spans(state.status));
    assert(spans_view(title@) =~= title_spans());
    Header { frame: Frame { label: status, color: Color::Cyan }, title }
}

/// A message as it is shown: who speaks, and what they say.
#[derive(Debug)]
pub struct Entry {
    pub speaker: Span,
    pub words: Span,
}

/// The number of lines of an entry.
pub const ENTRY_LINES: u16 = 3;

/// The model of an `Entry`.
#[verifier::ext_equal]
pub struct EntryView {
    pub speaker: SpanView,
    pub words: SpanView,
}

impl View for Entry {
    type V = EntryView;

    open spec fn view(&self) -> EntryView {
        EntryView { speaker: self.speaker@, words: self.words@ }
    }
}

/// How a message is shown.
pub open spec fn entry_of(message: MessageView) -> EntryView {
    match message {
        MessageView::User(t) => EntryView {
            speaker: strong("▸ You"@, Color::Yellow),
            words: plain("  "@ + t, Color::White),
        },
        MessageView::Assistant(t) => EntryView {
            speaker: strong("◈ Brainiac"@, Color::Cyan),
            words: plain("  "@ + t, Color::Pale),
        },
    }
}

/// How many messages fit between the borders of a row of this height; one is
/// always counted.
pub open spec fn room(height: int) -> int {
    if height < 2 + ENTRY_LINES {
        1
    } else {
        (height - 2) / ENTRY_LINES as int
    }
}

/// The first message shown where nothing is scrolled back: the latest messages
/// are shown.
pub open spec fn latest(total: int, height: int) -> int {
    if total > room(height) {
        total - room(height)
    } else {
        0
    }
}

/// The first message shown: as many messages before the latest as the
/// conversation is scrolled back, and at the least the first.
pub open spec fn first_shown(total: int, height: int, scroll: int) -> int {
    if scroll < latest(total, height) {
        latest(total, height) - scroll
    } else {
        0
    }
}

/// The entries shown in a row of this height.
pub open spec fn entries_shown(state: StateView, height: int) -> Seq<EntryView> {
    state.conversation.skip(
        first_shown(state.conversation.len() as int, height, state.scroll as int),
    ).map_values(|m: MessageView| entry_of(m))
}

/// The lines of an entry: who speaks, what they say, and an empty line.
pub open spec fn lines_of(entry: EntryView) -> Seq<SpanView> {
    seq![
        entry.speaker,
        entry.words,
        SpanView { text: Seq::empty(), color: None, bold: false },
    ]
}

fn copy_span(span: &Span) -> (copy: Span)
    ensures
        copy@ == span@,
{
    Span { text: span.text.clone(), color: span.color, bold: span.bold }
}

/// The lines of an entry, the last of which is empty.
pub fn entry_lines(entry: &Entry) -> (lines: Vec<Span>)
    ensures
        spans_view(lines@) == lines_of(entry@),
        lines@.len() == ENTRY_LINES,
        lines@[0]@ == entry.speaker@,
        lines@[1]@ == entry.words@,
        lines@[2].text@.len() == 0,
{
    let blank = Span { text: String::new(), color: None, bold: false };
    let lines = vec![copy_span(&entry.speaker), copy_span(&entry.words), blank];
    assert(spans_view(lines@) =~= lines_of(entry@));
    assert(spans_view(lines@)[0] == lines@[0]@ && spans_view(lines@)[1] == lines@[1]@);
    lines
}

/// The models of a list of entries.
pub open spec fn entries_view(entries: Seq<Entry>) -> Seq<EntryView> {
    entries.map_values(|e: Entry| e@)
}

fn show_message(message: &Message) -> (entry: Entry)
    ensures
        entry@ == entry_of(message@),
{
    match message {
        Message::User(t) => {
            let words = "  ".to_owned().concat(t.as_str());
            Entry {
                speaker: strong_span("▸ You", Color::Yellow),
                words: plain_span(words.as_str(), Color::White),
            }
        },
        Message::Assistant(t) => {
            let words = "  ".to_owned().concat(t.as_str());
            Entry {
                speaker: strong_span("◈ Brainiac", Color::Cyan),
                words: plain_span(words.as_str(), Color::Pale),
            }
        },
    }
}

/// The messages shown in a row of this height, from the first one shown on.
pub fn render_conversation(state: &AppState, height: u16) -> (entries: Vec<Entry>)
    ensures
        entries_view(entries@) == entries_shown(state@, height as int),
{
    let fitting: u16 = height.saturating_sub(2) / ENTRY_LINES;
    let room: usize = if fitting < 1 {
        1
    } else {
        fitting as usize
    };
    let total: usize = state.conversation.len();
    let latest: usize = if total > room {
        total - room
    } else {
        0
    };
    let scroll: usize = state.scroll_offset as usize;
    let first: usize = if scroll < latest {
        latest - scroll
    } else {
        0
    };
    let ghost shown = state@.conversation.skip(first as int);
    assert(first == first_shown(total as int, height as int, scroll as int));
    let mut entries: Vec<Entry> = Vec::new();
    let mut i: usize = first;
    while i < total
        invariant
            first <= i <= total,
            total == state.conversation@.len(),
            shown == state@.conversation.skip(first as int),
            entries_view(entries@) =~= shown.take(i - first).map_values(
                |m: MessageView| entry_of(m),
            ),
        decreases total - i,
    {
        let entry = show_message(&state.conversation[i]);
        proof {
            let f = |m: MessageView| entry_of(m);
            assert(entries_view(entries@.push(entry)) =~= entries_view(entries@).push(entry@));
            assert(shown.take(i - first + 1).map_values(f) =~= shown.take(i - first).map_values(
                f,
            ).push(f(shown[i - first])));
        }
        entries.push(entry);
        i = i + 1;
    }
    assert(shown.take(i - first) =~= shown);
    entries
}

/// The row of what is going on: its title, its text, and the colour of both.
#[derive(Debug)]
pub struct Active {
    pub content: String,
    pub color: Color,
    pub title: &'static str,
}

/// The model of an `Active`.
#[verifier::ext_equal]
pub struct ActiveView {
    pub content: Seq<char>,
    pub color: Color,
    pub title: Seq<char>,
}

impl View for Active {
    type V = ActiveView;

    open spec fn view(&self) -> ActiveView {
        ActiveView { content: self.content@, color: self.color, title: self.title@ }
    }
}

/// What is going on: an error, or what the turn under way brings. Nothing is
/// shown once the user has asked to quit, or while nothing is under way.
pub open spec fn active_row(state: StateView) -> Option<ActiveView> {
    match state.error {
        Some(e) => if e == tui::QUIT@ {
            None
        } else {
            Some(ActiveView { content: e, color: Color::Red, title: " error "@ })
        },
        None => match state.status {
            Status::Listening => Some(
                ActiveView {
                    content: state.transcript,
                    color: Color::Yellow,
                    title: " transcript "@,
                },
            ),
            Status::Thinking => Some(
                ActiveView {
                    content: state.response,
                    color: Color::Magenta,
                    title: " generating "@,
                },
            ),
            Status::Speaking => Some(
                ActiveView { content: state.response, color: Color::Cyan, title: " speaking "@ },
            ),
            Status::Idle => None,
        },
    }
}

/// What the row of what is going on shows.
pub fn render_active(state: &AppState) -> (active: Option<Active>)
    ensures
        match active {
            Some(a) => active_row(state@) == Some(a@),
            None => active_row(state@) is None,
        },
{
    match &state.error {
        Some(e) => if text::same(e.as_str(), tui::QUIT) {
            None
        } else {
            Some(Active { content: e.clone(), color: Color::Red, title: " error " })
        },
        None => match state.status {
            Status::Listening => Some(
                Active {
                    content: state.current_transcript.clone(),
                    color: Color::Yellow,
                    title: " transcript ",
                },
            ),
            Status::Thinking => Some(
                Active {
                    content: state.current_response.clone(),
                    color: Color::Magenta,
                    title: " generating ",
                },
            ),
            Status::Speaking => Some(
                Active {
                    content: state.current_response.clone(),
                    color: Color::Cyan,
                    title: " speaking ",
                },
            ),
            Status::Idle => None,
        },
    }
}

/// The bits of positive infinity. Those of the numbers that are not negative are
/// at most these, and order them; those of the rest are greater.
pub const INFINITY_BITS: u32 = 0x7f80_0000;

/// The bits of 0.75.
pub const LOUD_BITS: u32 = 0x3f40_0000;

/// The bits of 0.50.
pub const MEDIUM_BITS: u32 = 0x3f00_0000;

/// The bits of 0.25.
pub const SOFT_BITS: u32 = 0x3e80_0000;

/// The bits of 0.08.
pub const FAINT_BITS: u32 = 0x3da3_d70a;

/// The character for a level, given by its bits: the louder, the denser. A level
/// that is negative or not a number is as silence.
pub open spec fn glyph(level: u32) -> char {
    if level > INFINITY_BITS {
        ' '
    } else if level > LOUD_BITS {
        '█'
    } else if level > MEDIUM_BITS {
        '▓'
    } else if level > SOFT_BITS {
        '▒'
    } else if level > FAINT_BITS {
        '░'
    } else {
        ' '
    }
}

/// The character for a level.
pub fn level_glyph(level: u32) -> (c: char)
    ensures
        c == glyph(level),
{
    if level > INFINITY_BITS {
        ' '
    } else if level > LOUD_BITS {
        '█'
    } else if level > MEDIUM_BITS {
        '▓'
    } else if level > SOFT_BITS {
        '▒'
    } else if level > FAINT_BITS {
        '░'
    } else {
        ' '
    }
}

/// The waveform in a row of this width: the levels that fit between the borders,
/// oldest first.
pub open spec fn bar(levels: Seq<u32>, width: int) -> Seq<char> {
    let inner = if width > 2 {
        width - 2
    } else {
        0
    };
    levels.take(
        if levels.len() < inner {
            levels.len() as int
        } else {
            inner
        },
    ).map_values(|l: u32| glyph(l))
}

/// The colour of the waveform.
pub open spec fn wave_color(status: Status) -> Color {
    if status == Status::Listening {
        Color::Yellow
    } else {
        Color::Dim
    }
}

/// What the row of the waveform shows, in a row of this width.
pub fn render_waveform(state: &AppState, width: u16) -> (span: Span)
    ensures
        span@ == plain(
            bar(state@.waveform, width as int),
            wave_color(state.status),
        ),
{
    let inner: usize = width.saturating_sub(2) as usize;
    let shown: usize = if state.waveform.len() < inner {
        state.waveform.len()
    } else {
        inner
    };
    let color = if state.status == Status::Listening {
        Color::Yellow
    } else {
        Color::Dim
    };
    let mut bar_text = String::new();
    let mut i: usize = 0;
    while i < shown
        invariant
            i <= shown <= state.waveform@.len(),
            bar_text@ =~= state.waveform@.take(i as int).map_values(|l: u32| glyph(l)),
        decreases shown - i,
    {
        bar_text.push(level_glyph(state.waveform[i]));
        i = i + 1;
    }
    Span { text: bar_text, color: Some(color), bold: false }
}

/// What the last row shows: the keys.
pub open spec fn footer_spans() -> Seq<SpanView> {
    seq![
        strong("  [SPACE/ENTER] "@, Color::Cyan),
        plain("push-to-talk"@, Color::Dim),
        strong("   [C] "@, Color::Cyan),
        plain("clear"@, Color::Dim),
        strong("   [↑↓] "@, Color::Cyan),
        plain("scroll"@, Color::Dim),
        strong("   [Q/ESC] "@, Color::Cyan),
        plain("quit  "@, Color::Dim),
    ]
}

/// What the last row shows.
pub fn render_footer() -> (spans: Vec<Span>)
    ensures
        spans_view(spans@) == footer_spans(),
{
    let spans = vec![
        strong_span("  [SPACE/ENTER] ", Color::Cyan),
        plain_span("push-to-talk", Color::Dim),
        strong_span("   [C] ", Color::Cyan),
        plain_span("clear", Color::Dim),
        strong_span("   [↑↓] ", Color::Cyan),
        plain_span("scroll", Color::Dim),
        strong_span("   [Q/ESC] ", Color::Cyan),
        plain_span("quit  ", Color::Dim),
    ];
    assert(spans_view(spans@) =~= footer_spans());
    spans
}

/// A rectangle of the screen.
#[derive(Debug, Clone, Copy, PartialEq, Eq, Structural)]
pub struct Area {
    pub x: u16,
    pub y: u16,
    pub width: u16,
    pub height: u16,
}

/// How high a row is to be.
#[derive(Debug, Clone, Copy, PartialEq, Eq, Structural)]
pub enum RowHeight {
    /// This many lines.
    Length(u16),
    /// At least this many lines.
    Min(u16),
}

/// The heights of the rows of the screen: header, conversation, what is going
/// on, waveform, keys.
pub open spec fn row_heights() -> Seq<RowHeight> {
    seq![
        RowHeight::Length(3),
        RowHeight::Min(5),
        RowHeight::Length(3),
        RowHeight::Length(3),
        RowHeight::Length(3),
    ]
}

/// The lines that a row has at the least.
pub open spec fn least(height: RowHeight) -> int {
    match height {
        RowHeight::Length(n) => n as int,
        RowHeight::Min(n) => n as int,
    }
}

/// The lines that rows have at the least.
pub open spec fn least_total(heights: Seq<RowHeight>) -> int
    decreases heights.len(),
{
    if heights.len() == 0 {
        0
    } else {
        least_total(heights.drop_last()) + least(heights.last())
    }
}

/// Whether row `m` is the only one that may be higher than asked.
pub open spec fn only_grows(heights: Seq<RowHeight>, m: int) -> bool {
    &&& 0 <= m < heights.len()
    &&& forall|i: int| 0 <= i < heights.len() ==> (#[trigger] heights[i] is Min <==> i == m)
}

/// The lines of an area that are on the screen.
pub open spec fn lines_in(area: Area) -> int {
    if area.y + area.height <= u16::MAX {
        area.height as int
    } else {
        u16::MAX - area.y
    }
}

/// The height of row `m`, the only one that may be higher than asked: it takes the
/// lines to spare. Where there are too few lines for all, it comes first.
pub open spec fn grown(area: Area, heights: Seq<RowHeight>, m: int) -> int {
    let spare = lines_in(area) - least_total(heights);
    if spare >= 0 {
        least(heights[m]) + spare
    } else if least(heights[m]) < lines_in(area) {
        least(heights[m])
    } else {
        lines_in(area)
    }
}

/// Whether rows fill the lines of an area from the top to the bottom, one below the
/// other, with no gap and no overlap. Row `m` is as high as it may grow, and no
/// other is higher than asked.
pub open spec fn stacked(rows: Seq<Area>, area: Area, heights: Seq<RowHeight>, m: int) -> bool {
    &&& rows.len() == heights.len()
    &&& rows[0].y == area.y
    &&& forall|i: int|
        #![trigger rows[i]]
        0 <= i < rows.len() - 1 ==> rows[i].y + rows[i].height == rows[i + 1].y
    &&& rows.last().y + rows.last().height == area.y + lines_in(area)
    &&& rows[m].height == grown(area, heights, m)
    &&& forall|i: int|
        0 <= i < rows.len() && i != m ==> (#[trigger] rows[i]).height <= least(heights[i])
}

/// Whether a row lies within an area, as far as that is on the screen.
pub open spec fn lies_within(row: Area, area: Area) -> bool {
    &&& row.x == area.x
    &&& row.width == area.width
    &&& area.y <= row.y
    &&& row.y + row.height <= area.y + lines_in(area)
}

/// Calls `Layout::split` of `ratatui`, with its vertical direction and one
/// constraint for each row. It gives one area for each row, as far left and as
/// wide as the whole, and within its lines. Where one of the rows may grow, they
/// fill those lines one below the other: that row has at least the lines that are
/// asked for it, as far as there are so many, and takes the lines to spare; no
/// other has more than is asked. Which of the others have fewer, where there are
/// too few for all, may depend on the order in which the solver walks its hash
/// tables, and is not said. The solver takes the least height of a row that may
/// grow as a signed number of 16 bits, and rounds fractions of a line, so a greater
/// height and a hundred rows or more are left out.
#[verifier::external_body]
fn split_rows(area: Area, heights: &Vec<RowHeight>) -> (rows: Vec<Area>)
    ensures
        rows@.len() == heights@.len(),
        forall|i: int| 0 <= i < rows@.len() ==> lies_within(#[trigger] rows@[i], area),
        forall|m: int|
            #[trigger] only_grows(heights@, m) && heights@.len() < 100 && least(heights@[m])
                <= i16::MAX ==> stacked(rows@, area, heights@, m),
{
    let constraints = heights.iter().map(
        |h| match h {
            RowHeight::Length(n) => ratatui::layout::Constraint::Length(*n),
            RowHeight::Min(n) => ratatui::layout::Constraint::Min(*n),
        },
    );
    let Area { x, y, width, height } = area;
    let direction = ratatui::layout::Direction::Vertical;
    let layout = ratatui::layout::Layout::default().direction(direction).constraints(constraints);
    let rects = layout.split(ratatui::layout::Rect { x, y, width, height });
    rects.iter().map(|r| Area { x: r.x, y: r.y, width: r.width, height: r.height }).collect()
}

/// The whole screen: the areas of its rows, and what each of them shows.
#[derive(Debug)]
pub struct Screen {
    pub rows: Vec<Area>,
    pub header: Header,
    pub conversation_frame: Frame,
    pub conversation: Vec<Entry>,
    pub active: Option<Active>,
    pub waveform_frame: Frame,
    pub waveform: Span,
    pub footer_frame: Frame,
    pub footer: Vec<Span>,
}

/// What a screen with these rows shows of a state.
pub open spec fn shows(screen: Screen, rows: Seq<Area>, state: StateView) -> bool {
    &&& screen.rows@ == rows
    &&& screen.header.frame@ == (FrameView {
        label: status_spans(state.status),
        color: Color::Cyan,
    })
    &&& spans_view(screen.header.title@) == title_spans()
    &&& screen.conversation_frame@ == dim_frame(" conversation "@)
    &&& screen.waveform_frame@ == dim_frame(" mic "@)
    &&& screen.footer_frame@ == (FrameView { label: Seq::empty(), color: Color::Dim })
    &&& entries_view(screen.conversation@) == entries_shown(state, rows[1].height as int)
    &&& match screen.active {
        Some(a) => active_row(state) == Some(a@),
        None => active_row(state) is None,
    }
    &&& screen.waveform@ == plain(
        bar(state.waveform, rows[3].width as int),
        wave_color(state.status),
    )
    &&& spans_view(screen.footer@) == footer_spans()
}

/// What a screen with these rows shows.
pub fn compose(rows: Vec<Area>, state: &AppState) -> (screen: Screen)
    requires
        rows@.len() == row_heights().len(),
    ensures
        shows(screen, rows@, state@),
{
    let header = render_header(state);
    let conversation = render_conversation(state, rows[1].height);
    let active = render_active(state);
    let waveform = render_waveform(state, rows[3].width);
    let footer = render_footer();
    let footer_frame = Frame { label: Vec::new(), color: Color::Dim };
    assert(footer_frame@.label =~= Seq::<SpanView>::empty());
    Screen {
        rows,
        header,
        conversation_frame: dim_border(" conversation "),
        conversation,
        active,
        waveform_frame: dim_border(" mic "),
        waveform,
        footer_frame,
        footer,
    }
}

/// The rows of a screen of at least 17 lines: the conversation takes what the
/// others leave.
pub open spec fn screen_rows(area: Area) -> Seq<Area> {
    let Area { x, y, width, .. } = area;
    let talk = (lines_in(area) - 12) as u16;
    seq![
        Area { x, y, width, height: 3 },
        Area { x, y: (y + 3) as u16, width, height: talk },
        Area { x, y: (y + 3 + talk) as u16, width, height: 3 },
        Area { x, y: (y + 6 + talk) as u16, width, height: 3 },
        Area { x, y: (y + 9 + talk) as u16, width, height: 3 },
    ]
}

proof fn lemma_screen_total()
    ensures
        least_total(row_heights()) == 17,
{
    let hs = row_heights();
    assert(least_total(hs.take(0)) == 0);
    assert(hs.take(1).drop_last() =~= hs.take(0));
    assert(least_total(hs.take(1)) == 3);
    assert(hs.take(2).drop_last() =~= hs.take(1));
    assert(least_total(hs.take(2)) == 8);
    assert(hs.take(3).drop_last() =~= hs.take(2));
    assert(least_total(hs.take(3)) == 11);
    assert(hs.take(4).drop_last() =~= hs.take(3));
    assert(least_total(hs.take(4)) == 14);
    assert(hs.drop_last() =~= hs.take(4));
}

/// What the screen shows: the area is split into rows, one for each height, each
/// as wide as the whole. They fill its lines one below the other, and where these
/// are too few, the conversation has the first of them.
pub fn render(area: Area, state: &AppState) -> (screen: Screen)
    ensures
        shows(screen, screen.rows@, state@),
        screen.rows@.len() == row_heights().len(),
        forall|i: int|
            0 <= i < screen.rows@.len() ==> lies_within(#[trigger] screen.rows@[i], area),
        forall|i: int, j: int|
            0 <= i < j < screen.rows@.len() ==> (#[trigger] screen.rows@[i]).y
                + screen.rows@[i].height <= (#[trigger] screen.rows@[j]).y,
        stacked(screen.rows@, area, row_heights(), 1),
        lines_in(area) >= 17 ==> screen.rows@ == screen_rows(area),
        lines_in(area) < 17 ==> screen.rows@[1].height == if lines_in(area) < 5 {
            lines_in(area)
        } else {
            5
        },
        screen.waveform.text@ == bar(state@.waveform, area.width as int),
{
    let heights = vec![
        RowHeight::Length(3),
        RowHeight::Min(5),
        RowHeight::Length(3),
        RowHeight::Length(3),
        RowHeight::Length(3),
    ];
    assert(heights@ =~= row_heights());
    let rows = split_rows(area, &heights);
    proof {
        let hs = row_heights();
        assert(only_grows(hs, 1));
        lemma_screen_total();
        let (a, b, c, d, e) = (rows@[0], rows@[1], rows@[2], rows@[3], rows@[4]);
        assert(a.y + a.height == b.y && b.y + b.height == c.y);
        assert(c.y + c.height == d.y && d.y + d.height == e.y);
        assert(a.height <= 3 && c.height <= 3 && d.height <= 3 && e.height <= 3);
        if lines_in(area) >= 17 {
            assert(rows@ =~= screen_rows(area));
        }
    }
    compose(rows, state)
}

/// A message is shown as it is, behind two blanks, below the name of who said it.
pub proof fn law_messages_are_shown_verbatim(said: Seq<char>)
    ensures
        ({
            let entry = entry_of(MessageView::User(said));
            &&& entry.words.text.len() == said.len() + 2
            &&& entry.words.text.take(2) == seq![' ', ' ']
            &&& entry.words.text.skip(2) == said
            &&& entry.words.color == Some(Color::White) && !entry.words.bold
            &&& entry.speaker.text == "▸ You"@
            &&& entry.speaker.color == Some(Color::Yellow) && entry.speaker.bold
        }),
        ({
            let entry = entry_of(MessageView::Assistant(said));
            &&& entry.words.text.len() == said.len() + 2
            &&& entry.words.text.take(2) == seq![' ', ' ']
            &&& entry.words.text.skip(2) == said
            &&& entry.words.color == Some(Color::Pale) && !entry.words.bold
            &&& entry.speaker.text == "◈ Brainiac"@
            &&& entry.speaker.color == Some(Color::Cyan) && entry.speaker.bold
        }),
{
    reveal_strlit("  ");
    assert("  "@ =~= seq![' ', ' ']);
    assert(("  "@ + said).take(2) =~= "  "@);
    assert(("  "@ + said).skip(2) =~= said);
}

/// What is shown of a conversation is its end, in its order: as many messages as
/// have room with three lines each between the borders, one at the least, and as
/// many more as it is scrolled back.
pub proof fn law_end_of_the_conversation_is_shown(state: StateView, height: int, k: int)
    requires
        0 <= height,
    ensures
        ({
            let shown = entries_shown(state, height);
            let total = state.conversation.len() as int;
            let fitting = if height >= 5 {
                (height - 2) / 3
            } else {
                1
            };
            &&& total <= fitting + state.scroll ==> shown.len() == total
            &&& total > fitting + state.scroll ==> shown.len() == fitting + state.scroll
            &&& 0 <= k < shown.len() ==> shown[k] == entry_of(
                state.conversation[total - shown.len() + k],
            )
        }),
{
}

/// The row of what is going on shows an error where there is one, and otherwise what
/// the turn brings: the transcript while listening, the answer after that. It is
/// shown as it is.
pub proof fn law_what_is_going_on_is_shown_verbatim(state: StateView, error: Seq<char>)
    ensures
        state.error == Some(error) && error != tui::QUIT@ ==> active_row(state) == Some(
            ActiveView { content: error, color: Color::Red, title: " error "@ },
        ),
        state.error == Some(tui::QUIT@) ==> active_row(state) is None,
        state.error is None && state.status == Status::Idle ==> active_row(state) is None,
        state.error is None && state.status == Status::Listening ==> active_row(state) == Some(
            ActiveView {
                content: state.transcript,
                color: Color::Yellow,
                title: " transcript "@,
            },
        ),
        state.error is None && state.status == Status::Thinking ==> active_row(state) == Some(
            ActiveView {
                content: state.response,
                color: Color::Magenta,
                title: " generating "@,
            },
        ),
        state.error is None && state.status == Status::Speaking ==> active_row(state) == Some(
            ActiveView { content: state.response, color: Color::Cyan, title: " speaking "@ },
        ),
{
}

/// The waveform has one character for each level, the oldest first, as far as they
/// fit between the borders. It is yellow while listening.
pub proof fn law_waveform_shows_each_level(levels: Seq<u32>, width: int, i: int, status: Status)
    requires
        0 <= width,
    ensures
        width >= 2 && levels.len() > width - 2 ==> bar(levels, width).len() == width - 2,
        width >= 2 && levels.len() <= width - 2 ==> bar(levels, width).len() == levels.len(),
        width < 2 ==> bar(levels, width).len() == 0,
        0 <= i < bar(levels, width).len() ==> bar(levels, width)[i] == glyph(levels[i]),
        wave_color(status) == Color::Yellow <==> status == Status::Listening,
        wave_color(status) == Color::Dim <==> status != Status::Listening,
{
}

/// The characters of the levels change above 0.75, 0.50, 0.25 and 0.08, given by
/// their bits, up to infinity; all else is silence.
pub proof fn law_levels_have_four_thresholds(level: u32)
    ensures
        glyph(level) == '█' <==> 0x3f40_0000 < level <= 0x7f80_0000,
        glyph(level) == '▓' <==> 0x3f00_0000 < level <= 0x3f40_0000,
        glyph(level) == '▒' <==> 0x3e80_0000 < level <= 0x3f00_0000,
        glyph(level) == '░' <==> 0x3da3_d70a < level <= 0x3e80_0000,
        glyph(level) == ' ' <==> level <= 0x3da3_d70a || level > 0x7f80_0000,
{
}

/// A screen shows the state in its rows: the second row is that of the conversation,
/// the fourth that of the waveform.
pub proof fn law_screen_shows_the_state(screen: Screen, rows: Seq<Area>, state: StateView, k: int)
    requires
        shows(screen, rows, state),
    ensures
        screen.rows@ == rows,
        screen.conversation@.len() == entries_shown(state, rows[1].height as int).len(),
        0 <= k < screen.conversation@.len() ==> screen.conversation@[k]@ == entries_shown(
            state,
            rows[1].height as int,
        )[k],
        screen.waveform.text@ == bar(state.waveform, rows[3].width as int),
        screen.waveform.color == Some(wave_color(state.status)),
        !screen.waveform.bold,
        screen.header.frame.color == Color::Cyan,
        screen.header.frame.label@.len() == 3,
        screen.header.frame.label@[1].text@ == state.status.name(),
        screen.header.frame.label@[1].color == Some(state.status.hue()),
        match screen.active {
            Some(a) => active_row(state) == Some(
                ActiveView { content: a.content@, color: a.color, title: a.title@ },
            ),
            None => active_row(state) is None,
        },
{
    let entries = entries_view(screen.conversation@);
    assert(entries.len() == screen.conversation@.len());
    assert(0 <= k < entries.len() ==> entries[k] == screen.conversation@[k]@);
    let label = spans_view(screen.header.frame.label@);
    assert(label == status_spans(state.status));
    assert(label.len() == 3);
    assert(label[1] == screen.header.frame.label@[1]@);
    assert(screen.waveform@.text == screen.waveform.text@);
}

/// The models of what is shown hold its texts, character for character, and stand in
/// their order.
pub proof fn law_shown_models_are_verbatim(
    span: Span,
    entry: Entry,
    active: Active,
    spans: Seq<Span>,
    entries: Seq<Entry>,
    i: int,
)
    ensures
        span@ == (SpanView { text: span.text@, color: span.color, bold: span.bold }),
        entry@.speaker == entry.speaker@ && entry@.words == entry.words@,
        active@ == (ActiveView {
            content: active.content@,
            color: active.color,
            title: active.title@,
        }),
        spans_view(spans).len() == spans.len(),
        0 <= i < spans.len() ==> spans_view(spans)[i] == spans[i]@,
        entries_view(entries).len() == entries.len(),
        0 <= i < entries.len() ==> entries_view(entries)[i] == entries[i]@,
{
}

} // verus!
