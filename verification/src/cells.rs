//! The rendered-message model the UI consumes: plain message states, their
//! roles and kinds, and the wait-status cell. Only the data and the mappings
//! live here; drawing them is the caller's business.
use vstd::prelude::*;
use crate::accent::{tone_spec, weave_agent_tone_for_id, AccentOverrides};
use crate::strutil::{
    chars_of, is_space, is_space_char, lemma_split_on_len, lemma_split_on_push, split_on,
    string_of, trim_spec, trim_str,
};
use vstd::string::{StrSliceExecFns, StringExecFns};

verus! {

/// A colour tone for one piece of text; `Accent` picks one of eight accents.
#[derive(Clone, Copy, Debug, PartialEq, Eq, Structural)]
pub enum TextTone {
    Default,
    Dim,
    Primary,
    Success,
    Warning,
    Error,
    Info,
    Accent(u8),
}

/// Text emphasis flags.
#[derive(Clone, Copy, Debug, PartialEq, Eq, Structural)]
pub struct TextEmphasis {
    pub bold: bool,
    pub italic: bool,
    pub underline: bool,
}

impl Default for TextEmphasis {
    fn default() -> (r: Self)
        ensures
            !r.bold && !r.italic && !r.underline,
    {
        TextEmphasis { bold: false, italic: false, underline: false }
    }
}

/// One run of text with a tone and emphasis.
#[derive(Clone, Debug, PartialEq, Eq)]
pub struct InlineSpan {
    pub text: String,
    pub tone: TextTone,
    pub emphasis: TextEmphasis,
}

pub ghost struct SpanV {
    pub text: Seq<char>,
    pub tone: TextTone,
    pub emphasis: TextEmphasis,
}

impl View for InlineSpan {
    type V = SpanV;

    open spec fn view(&self) -> SpanV {
        SpanV { text: self.text@, tone: self.tone, emphasis: self.emphasis }
    }
}

/// How one message line is laid out.
#[derive(Clone, Copy, Debug, PartialEq, Eq, Structural)]
pub enum MessageLineKind {
    Paragraph,
    Blank,
}

/// One line of a message, as a sequence of spans.
#[derive(Clone, Debug, PartialEq, Eq)]
pub struct MessageLine {
    pub kind: MessageLineKind,
    pub spans: Vec<InlineSpan>,
}

pub ghost struct MessageLineV {
    pub kind: MessageLineKind,
    pub spans: Seq<SpanV>,
}

impl View for MessageLine {
    type V = MessageLineV;

    open spec fn view(&self) -> MessageLineV {
        MessageLineV { kind: self.kind, spans: self.spans@.map_values(|s: InlineSpan| s@) }
    }
}

/// The views of a sequence of message lines.
pub open spec fn line_views(s: Seq<MessageLine>) -> Seq<MessageLineV> {
    s.map_values(|l: MessageLine| l@)
}

/// A header above a message body.
#[derive(Clone, Debug, PartialEq, Eq)]
pub struct MessageHeader {
    pub label: String,
    pub badge: Option<String>,
}

/// Who a plain message is from, for styling.
#[derive(Clone, Copy, Debug, PartialEq, Eq, Structural)]
pub enum PlainMessageRole {
    User,
    Assistant,
    Tool,
    Error,
    BackgroundEvent,
    System,
}

/// What kind of plain message this is.
#[derive(Clone, Copy, Debug, PartialEq, Eq, Structural)]
pub enum PlainMessageKind {
    User,
    Assistant,
    Tool,
    Error,
    Background,
    Notice,
    Plain,
}

/// Identity of a history record; fresh states carry the zero id until they
/// are inserted.
#[derive(Clone, Copy, Debug, PartialEq, Eq, Structural)]
pub struct HistoryId(pub u64);

impl HistoryId {
    /// The id of a state not yet inserted into history.
    pub fn zero() -> (r: Self)
        ensures
            r.0 == 0,
    {
        HistoryId(0)
    }
}

/// A plain rendered message: role, kind, optional header and body lines.
#[derive(Clone, Debug, PartialEq, Eq)]
pub struct PlainMessageState {
    pub id: HistoryId,
    pub role: PlainMessageRole,
    pub kind: PlainMessageKind,
    pub header: Option<MessageHeader>,
    pub lines: Vec<MessageLine>,
}

/// The status of a tool call shown in history.
#[derive(Clone, Copy, Debug, PartialEq, Eq, Structural)]
pub enum ToolCellStatus {
    Running,
    Success,
    Failed,
}

/// The coarse type of a history cell.
#[derive(Clone, Copy, Debug, PartialEq, Eq, Structural)]
pub enum HistoryCellType {
    User,
    Assistant,
    Tool { status: ToolCellStatus },
    Error,
    BackgroundEvent,
    Notice,
    Plain,
}

/// A plain history cell's state: the message and the cell type it renders as.
#[derive(Clone, Debug, PartialEq, Eq)]
pub struct PlainCellState {
    pub message: PlainMessageState,
    pub kind: HistoryCellType,
}

impl PlainCellState {
    /// The message's role.
    pub fn role(&self) -> (r: PlainMessageRole)
        ensures
            r == self.message.role,
    {
        self.message.role
    }

    /// The message's header, if it has one.
    pub fn header(&self) -> (r: Option<&MessageHeader>)
        ensures
            match r {
                Some(h) => self.message.header == Some(*h),
                None => self.message.header is None,
            },
    {
        self.message.header.as_ref()
    }

    /// The message's body lines.
    pub fn body(&self) -> (r: &Vec<MessageLine>)
        ensures
            r == self.message.lines,
    {
        &self.message.lines
    }
}

/// Builds a plain message of one paragraph line per given text, with no
/// header and default styling.
pub fn plain_message_state_from_paragraphs(
    kind: PlainMessageKind,
    role: PlainMessageRole,
    lines: Vec<String>,
) -> (r: PlainMessageState)
    ensures
        r.id.0 == 0,
        r.role == role,
        r.kind == kind,
        r.header is None,
        line_views(r.lines@).len() == lines@.len(),
        forall|i: int|
            0 <= i < lines@.len() ==> line_views(r.lines@)[i] == (MessageLineV {
                kind: MessageLineKind::Paragraph,
                spans: seq![
                    SpanV {
                        text: lines@[i]@,
                        tone: TextTone::Default,
                        emphasis: TextEmphasis { bold: false, italic: false, underline: false },
                    },
                ],
            }),
{
    let mut message_lines: Vec<MessageLine> = Vec::new();
    let mut i: usize = 0;
    let ghost all = lines@;
    while i < lines.len()
        invariant
            0 <= i <= all.len(),
            lines@ == all,
            message_lines@.len() == i,
            forall|j: int|
                0 <= j < i ==> line_views(message_lines@)[j] == (MessageLineV {
                    kind: MessageLineKind::Paragraph,
                    spans: seq![
                        SpanV {
                            text: all[j]@,
                            tone: TextTone::Default,
                            emphasis: TextEmphasis {
                                bold: false,
                                italic: false,
                                underline: false,
                            },
                        },
                    ],
                }),
        decreases all.len() - i,
    {
        let text = lines[i].clone();
        let mut spans: Vec<InlineSpan> = Vec::new();
        spans.push(
            InlineSpan {
                text,
                tone: TextTone::Default,
                emphasis: TextEmphasis { bold: false, italic: false, underline: false },
            },
        );
        proof {
            assert(spans@.map_values(|s: InlineSpan| s@) =~= seq![
                SpanV {
                    text: all[i as int]@,
                    tone: TextTone::Default,
                    emphasis: TextEmphasis { bold: false, italic: false, underline: false },
                },
            ]);
        }
        let ghost prevls = message_lines@;
        message_lines.push(MessageLine { kind: MessageLineKind::Paragraph, spans });
        proof {
            let ls = message_lines@;
            assert forall|j: int|
                0 <= j < i + 1 implies line_views(ls)[j] == (MessageLineV {
                kind: MessageLineKind::Paragraph,
                spans: seq![
                    SpanV {
                        text: all[j]@,
                        tone: TextTone::Default,
                        emphasis: TextEmphasis { bold: false, italic: false, underline: false },
                    },
                ],
            }) by {
                assert(line_views(ls)[j] == ls[j]@);
                if j < i {
                    assert(ls[j] == prevls[j]);
                    assert(line_views(prevls)[j] == prevls[j]@);
                }
            }
        }
        i += 1;
    }
    PlainMessageState {
        id: HistoryId::zero(),
        role,
        kind,
        header: None,
        lines: message_lines,
    }
}

/// The role a plain message of this kind is styled with.
pub fn plain_role_for_kind(kind: PlainMessageKind) -> (r: PlainMessageRole)
    ensures
        r == match kind {
            PlainMessageKind::User => PlainMessageRole::User,
            PlainMessageKind::Assistant => PlainMessageRole::Assistant,
            PlainMessageKind::Tool => PlainMessageRole::Tool,
            PlainMessageKind::Error => PlainMessageRole::Error,
            PlainMessageKind::Background => PlainMessageRole::BackgroundEvent,
            PlainMessageKind::Notice => PlainMessageRole::System,
            PlainMessageKind::Plain => PlainMessageRole::System,
        },
{
    match kind {
        PlainMessageKind::User => PlainMessageRole::User,
        PlainMessageKind::Assistant => PlainMessageRole::Assistant,
        PlainMessageKind::Tool => PlainMessageRole::Tool,
        PlainMessageKind::Error => PlainMessageRole::Error,
        PlainMessageKind::Background => PlainMessageRole::BackgroundEvent,
        PlainMessageKind::Notice => PlainMessageRole::System,
        PlainMessageKind::Plain => PlainMessageRole::System,
    }
}

/// The role a cell of this type is styled with.
pub fn plain_role_from_kind(kind: HistoryCellType) -> (r: PlainMessageRole)
    ensures
        r == match kind {
            HistoryCellType::User => PlainMessageRole::User,
            HistoryCellType::Assistant => PlainMessageRole::Assistant,
            HistoryCellType::Tool { .. } => PlainMessageRole::Tool,
            HistoryCellType::Error => PlainMessageRole::Error,
            HistoryCellType::BackgroundEvent => PlainMessageRole::BackgroundEvent,
            HistoryCellType::Notice => PlainMessageRole::System,
            HistoryCellType::Plain => PlainMessageRole::System,
        },
{
    match kind {
        HistoryCellType::User => PlainMessageRole::User,
        HistoryCellType::Assistant => PlainMessageRole::Assistant,
        HistoryCellType::Tool { .. } => PlainMessageRole::Tool,
        HistoryCellType::Error => PlainMessageRole::Error,
        HistoryCellType::BackgroundEvent => PlainMessageRole::BackgroundEvent,
        HistoryCellType::Notice => PlainMessageRole::System,
        HistoryCellType::Plain => PlainMessageRole::System,
    }
}

/// The plain message kind a cell of this type carries.
pub fn plain_message_kind_from_cell_kind(kind: HistoryCellType) -> (r: PlainMessageKind)
    ensures
        r == match kind {
            HistoryCellType::User => PlainMessageKind::User,
            HistoryCellType::Assistant => PlainMessageKind::Assistant,
            HistoryCellType::Tool { .. } => PlainMessageKind::Tool,
            HistoryCellType::Error => PlainMessageKind::Error,
            HistoryCellType::BackgroundEvent => PlainMessageKind::Background,
            HistoryCellType::Notice => PlainMessageKind::Notice,
            HistoryCellType::Plain => PlainMessageKind::Plain,
        },
{
    match kind {
        HistoryCellType::User => PlainMessageKind::User,
        HistoryCellType::Assistant => PlainMessageKind::Assistant,
        HistoryCellType::Tool { .. } => PlainMessageKind::Tool,
        HistoryCellType::Error => PlainMessageKind::Error,
        HistoryCellType::BackgroundEvent => PlainMessageKind::Background,
        HistoryCellType::Notice => PlainMessageKind::Notice,
        HistoryCellType::Plain => PlainMessageKind::Plain,
    }
}

/// The cell type a plain message of this kind renders as; tool messages come
/// back as successful tool cells.
pub fn history_cell_kind_from_plain(kind: PlainMessageKind) -> (r: HistoryCellType)
    ensures
        r == match kind {
            PlainMessageKind::User => HistoryCellType::User,
            PlainMessageKind::Assistant => HistoryCellType::Assistant,
            PlainMessageKind::Tool => HistoryCellType::Tool { status: ToolCellStatus::Success },
            PlainMessageKind::Error => HistoryCellType::Error,
            PlainMessageKind::Background => HistoryCellType::BackgroundEvent,
            PlainMessageKind::Notice => HistoryCellType::Notice,
            PlainMessageKind::Plain => HistoryCellType::Plain,
        },
{
    match kind {
        PlainMessageKind::User => HistoryCellType::User,
        PlainMessageKind::Assistant => HistoryCellType::Assistant,
        PlainMessageKind::Tool => HistoryCellType::Tool { status: ToolCellStatus::Success },
        PlainMessageKind::Error => HistoryCellType::Error,
        PlainMessageKind::Background => HistoryCellType::BackgroundEvent,
        PlainMessageKind::Notice => HistoryCellType::Notice,
        PlainMessageKind::Plain => HistoryCellType::Plain,
    }
}

/// Whether the first line of a cell of this type doubles as its header.
pub fn should_hide_header(kind: HistoryCellType) -> (r: bool)
    ensures
        r == !(kind is Plain),
{
    match kind {
        HistoryCellType::Plain => false,
        _ => true,
    }
}

/// `s` without carriage returns.
pub open spec fn strip_cr(s: Seq<char>) -> Seq<char>
    decreases s.len(),
{
    if s.len() == 0 {
        Seq::empty()
    } else {
        let r = strip_cr(s.drop_last());
        if s.last() == '\r' {
            r
        } else {
            r.push(s.last())
        }
    }
}

/// A line with nothing but white space on it.
pub open spec fn blank_line(l: Seq<char>) -> bool {
    forall|i: int| 0 <= i < l.len() ==> is_space_char(l[i])
}

/// How one line of plain text renders: one default span, blank lines marked.
pub open spec fn line_of(l: Seq<char>) -> MessageLineV {
    MessageLineV {
        kind: if blank_line(l) {
            MessageLineKind::Blank
        } else {
            MessageLineKind::Paragraph
        },
        spans: seq![
            SpanV {
                text: l,
                tone: TextTone::Default,
                emphasis: TextEmphasis { bold: false, italic: false, underline: false },
            },
        ],
    }
}

/// How a message body renders: carriage returns dropped, split on line
/// breaks, the empty piece after a trailing break dropped; an empty body has
/// no lines at all.
pub open spec fn message_lines_spec(text: Seq<char>) -> Seq<MessageLineV> {
    let s = strip_cr(text);
    let p = split_on(s, '\n');
    let kept = if p.last().len() == 0 {
        p.drop_last()
    } else {
        p
    };
    kept.map_values(|l: Seq<char>| line_of(l))
}

/// Renders one line of plain text.
fn line_from(cur: &Vec<char>) -> (r: MessageLine)
    ensures
        r@ == line_of(cur@),
{
    let mut blank = true;
    let mut i: usize = 0;
    while i < cur.len()
        invariant
            i <= cur@.len(),
            blank == forall|j: int| 0 <= j < i ==> is_space_char(cur@[j]),
        decreases cur@.len() - i,
    {
        if !is_space(cur[i]) {
            blank = false;
            proof {
                assert(!blank_line(cur@));
            }
        } else {
            proof {
                if blank && (forall|j: int| 0 <= j < i ==> is_space_char(cur@[j])) {
                    assert(forall|j: int| 0 <= j < i + 1 ==> is_space_char(cur@[j]));
                }
            }
        }
        i += 1;
    }
    let mut spans: Vec<InlineSpan> = Vec::new();
    spans.push(
        InlineSpan {
            text: string_of(cur),
            tone: TextTone::Default,
            emphasis: TextEmphasis { bold: false, italic: false, underline: false },
        },
    );
    let kind = if blank {
        MessageLineKind::Blank
    } else {
        MessageLineKind::Paragraph
    };
    let r = MessageLine { kind, spans };
    proof {
        assert(r@.spans =~= line_of(cur@).spans);
    }
    r
}

/// Splits a message body into rendered lines. The text is taken as already
/// sanitized plain text: carriage returns are dropped and line breaks split,
/// but no terminal escape stripping or tab expansion happens here — a tab
/// reaches the line as itself (it counts as white space for blankness).
pub fn message_lines_from_text(text: &str) -> (r: Vec<MessageLine>)
    ensures
        line_views(r@) == message_lines_spec(text@),
{
    let cs = chars_of(text);
    let mut out: Vec<MessageLine> = Vec::new();
    let mut cur: Vec<char> = Vec::new();
    let mut i: usize = 0;
    proof {
        assert(text@.take(0) =~= Seq::<char>::empty());
        assert(strip_cr(text@.take(0)) == Seq::<char>::empty());
        assert(split_on(Seq::<char>::empty(), '\n') == seq![Seq::<char>::empty()]);
        assert(line_views(out@) =~= split_on(strip_cr(text@.take(0)), '\n').drop_last()
            .map_values(|l: Seq<char>| line_of(l)));
    }
    while i < cs.len()
        invariant
            i <= cs@.len(),
            cs@ == text@,
            line_views(out@) == split_on(strip_cr(text@.take(i as int)), '\n').drop_last()
                .map_values(|l: Seq<char>| line_of(l)),
            cur@ == split_on(strip_cr(text@.take(i as int)), '\n').last(),
            split_on(strip_cr(text@.take(i as int)), '\n').len() >= 1,
        decreases cs@.len() - i,
    {
        let c = cs[i];
        let ghost s = strip_cr(text@.take(i as int));
        let ghost p = split_on(s, '\n');
        proof {
            assert(text@.take(i + 1 as int) =~= text@.take(i as int).push(text@[i as int]));
            assert(text@.take(i + 1 as int).drop_last() =~= text@.take(i as int));
            lemma_split_on_len(s, '\n');
        }
        if c == '\r' {
            proof {
                assert(strip_cr(text@.take(i + 1 as int)) == s);
            }
        } else {
            proof {
                assert(strip_cr(text@.take(i + 1 as int)) == s.push(c));
                lemma_split_on_push(s, '\n', c);
                lemma_split_on_len(s.push(c), '\n');
            }
            if c == '\n' {
                let line = line_from(&cur);
                let ghost prev = line_views(out@);
                out.push(line);
                cur = Vec::new();
                proof {
                    let pp = split_on(s.push(c), '\n');
                    assert(pp == p.push(Seq::<char>::empty()));
                    assert(pp.drop_last() =~~= p);
                    assert(line_views(out@) =~= prev.push(line_of(p.last())));
                    assert(p.drop_last().map_values(|l: Seq<char>| line_of(l)).push(
                        line_of(p.last()),
                    ) =~~= p.map_values(|l: Seq<char>| line_of(l)));
                    assert(cur@ =~= pp.last());
                }
            } else {
                cur.push(c);
                proof {
                    let pp = split_on(s.push(c), '\n');
                    assert(pp == p.update(p.len() - 1, p.last().push(c)));
                    assert(pp.drop_last() =~~= p.drop_last());
                    assert(pp.last() == p.last().push(c));
                }
            }
        }
        i += 1;
    }
    proof {
        assert(text@.take(cs@.len() as int) =~= text@);
        lemma_split_on_len(strip_cr(text@), '\n');
    }
    if cur.len() > 0 {
        let line = line_from(&cur);
        let ghost prev = line_views(out@);
        let ghost p = split_on(strip_cr(text@), '\n');
        out.push(line);
        proof {
            assert(line_views(out@) =~= prev.push(line_of(p.last())));
            assert(p.drop_last().map_values(|l: Seq<char>| line_of(l)).push(line_of(p.last()))
                =~~= p.map_values(|l: Seq<char>| line_of(l)));
        }
    }
    out
}

/// One styled run of text, optionally bold.
pub fn span(text: String, tone: TextTone, bold: bool) -> (r: InlineSpan)
    ensures
        r@ == (SpanV {
            text: text@,
            tone,
            emphasis: TextEmphasis { bold, italic: false, underline: false },
        }),
{
    InlineSpan { text, tone, emphasis: TextEmphasis { bold, italic: false, underline: false } }
}

/// The first line's text, when the body has one and it is not blank; such a
/// line is pulled up into the header.
pub open spec fn first_line_text(ml: Seq<MessageLineV>) -> Option<Seq<char>> {
    if ml.len() > 0 && ml[0].spans.len() > 0 && trim_spec(ml[0].spans[0].text).len() > 0 {
        Some(ml[0].spans[0].text)
    } else {
        None
    }
}

/// The header spans of an inbound weave message: the sender in its accent,
/// a dim separator, then the first body line if one was pulled up.
pub open spec fn inbound_header_spans(
    ov: Seq<(String, u8)>,
    sender_id: Seq<char>,
    sender_label: Seq<char>,
    first: Option<Seq<char>>,
) -> Seq<SpanV> {
    let base = seq![
        SpanV {
            text: sender_label,
            tone: tone_spec(ov, sender_id),
            emphasis: TextEmphasis { bold: true, italic: false, underline: false },
        },
        SpanV {
            text: ": "@,
            tone: TextTone::Dim,
            emphasis: TextEmphasis { bold: false, italic: false, underline: false },
        },
    ];
    match first {
        Some(t) => base.push(
            SpanV {
                text: t,
                tone: TextTone::Default,
                emphasis: TextEmphasis { bold: false, italic: false, underline: false },
            },
        ),
        None => base,
    }
}

/// The lines of an inbound weave message: a header line, then the remaining
/// body lines.
pub open spec fn inbound_lines_spec(
    ov: Seq<(String, u8)>,
    sender_id: Seq<char>,
    sender_label: Seq<char>,
    message: Seq<char>,
) -> Seq<MessageLineV> {
    let ml = message_lines_spec(message);
    let first = first_line_text(ml);
    let rest = if first is Some {
        ml.drop_first()
    } else {
        ml
    };
    let header = MessageLineV {
        kind: MessageLineKind::Paragraph,
        spans: inbound_header_spans(ov, sender_id, sender_label, first),
    };
    seq![header] + rest
}

/// Pulls the first body line up, when it is there and not blank.
fn take_first_line(message_lines: &mut Vec<MessageLine>) -> (first: Option<String>)
    ensures
        ({
            let ml = line_views(old(message_lines)@);
            match first_line_text(ml) {
                Some(t) => first matches Some(f) && f@ == t && line_views(final(message_lines)@)
                    == ml.drop_first(),
                None => first is None && line_views(final(message_lines)@) == ml,
            }
        }),
{
    let ghost ml = line_views(message_lines@);
    if message_lines.len() == 0 {
        return None;
    }
    if message_lines[0].spans.len() == 0 {
        return None;
    }
    let t = message_lines[0].spans[0].text.clone();
    proof {
        assert(ml[0] == message_lines@[0]@);
        assert(ml[0].spans[0] == message_lines@[0]@.spans[0]);
        assert(t@ == ml[0].spans[0].text);
    }
    let trimmed = trim_str(t.as_str());
    if trimmed.as_str().unicode_len() == 0 {
        return None;
    }
    let ghost prev = message_lines@;
    message_lines.remove(0);
    proof {
        assert(line_views(message_lines@) =~= ml.drop_first());
    }
    Some(t)
}

/// Renders an inbound weave message: the sender's label in its accent tone,
/// then the message, its first non-blank line pulled up beside the label.
pub fn new_weave_inbound(
    overrides: &AccentOverrides,
    sender_id: String,
    sender_label: String,
    _receiver_id: String,
    _receiver_label: String,
    message: String,
) -> (r: PlainMessageState)
    ensures
        r.id.0 == 0,
        r.role == PlainMessageRole::System,
        r.kind == PlainMessageKind::Notice,
        r.header matches Some(h) && h.label@ == "weave"@ && h.badge is None,
        line_views(r.lines@) == inbound_lines_spec(overrides@, sender_id@, sender_label@, message@),
{
    let mut message_lines = message_lines_from_text(message.as_str());
    let ghost ml = line_views(message_lines@);
    let first = take_first_line(&mut message_lines);
    let mut header_spans: Vec<InlineSpan> = Vec::new();
    let tone = weave_agent_tone_for_id(overrides, sender_id.as_str());
    header_spans.push(span(sender_label, tone, true));
    header_spans.push(span(String::from_str(": "), TextTone::Dim, false));
    match first {
        Some(f) => {
            header_spans.push(span(f, TextTone::Default, false));
            proof {
                assert(header_spans@.map_values(|s: InlineSpan| s@) =~= inbound_header_spans(
                    overrides@,
                    sender_id@,
                    sender_label@,
                    first_line_text(ml),
                ));
            }
        },
        None => {
            proof {
                assert(header_spans@.map_values(|s: InlineSpan| s@) =~= inbound_header_spans(
                    overrides@,
                    sender_id@,
                    sender_label@,
                    first_line_text(ml),
                ));
            }
        },
    }
    let header_line = MessageLine { kind: MessageLineKind::Paragraph, spans: header_spans };
    let mut lines: Vec<MessageLine> = Vec::new();
    lines.push(header_line);
    let ghost with_header = line_views(lines@);
    let ghost rest = line_views(message_lines@);
    lines.append(&mut message_lines);
    proof {
        assert(line_views(lines@) =~= with_header + rest);
        assert(line_views(lines@) =~= inbound_lines_spec(
            overrides@,
            sender_id@,
            sender_label@,
            message@,
        ));
    }
    PlainMessageState {
        id: HistoryId::zero(),
        role: PlainMessageRole::System,
        kind: PlainMessageKind::Notice,
        header: Some(MessageHeader { label: String::from_str("weave"), badge: None }),
        lines,
    }
}

/// The spans naming the recipients of an outbound message, dim commas
/// between them, each label in its agent's accent.
pub open spec fn outbound_recipient_spans(
    ov: Seq<(String, u8)>,
    rs: Seq<(String, String)>,
) -> Seq<SpanV>
    decreases rs.len(),
{
    if rs.len() == 0 {
        Seq::empty()
    } else {
        let prev = outbound_recipient_spans(ov, rs.drop_last());
        let with_sep = if rs.len() > 1 {
            prev.push(
                SpanV {
                    text: ", "@,
                    tone: TextTone::Dim,
                    emphasis: TextEmphasis { bold: false, italic: false, underline: false },
                },
            )
        } else {
            prev
        };
        with_sep.push(
            SpanV {
                text: rs.last().1@,
                tone: tone_spec(ov, rs.last().0@),
                emphasis: TextEmphasis { bold: true, italic: false, underline: false },
            },
        )
    }
}

/// The header spans of an outbound weave message: the sender, an arrow, the
/// recipients (or a dim note that there are none), a separator, then the
/// first body line if one was pulled up.
pub open spec fn outbound_header_spans(
    ov: Seq<(String, u8)>,
    sender_id: Seq<char>,
    sender_label: Seq<char>,
    rs: Seq<(String, String)>,
    first: Option<Seq<char>>,
) -> Seq<SpanV> {
    let plain = TextEmphasis { bold: false, italic: false, underline: false };
    let base = seq![
        SpanV {
            text: sender_label,
            tone: tone_spec(ov, sender_id),
            emphasis: TextEmphasis { bold: true, italic: false, underline: false },
        },
        SpanV { text: " \u{2192} "@, tone: TextTone::Dim, emphasis: plain },
    ];
    let with_rec = if rs.len() == 0 {
        base.push(SpanV { text: "(no recipients)"@, tone: TextTone::Dim, emphasis: plain })
    } else {
        base + outbound_recipient_spans(ov, rs)
    };
    let with_colon = with_rec.push(SpanV { text: ": "@, tone: TextTone::Dim, emphasis: plain });
    match first {
        Some(t) => with_colon.push(SpanV { text: t, tone: TextTone::Default, emphasis: plain }),
        None => with_colon,
    }
}

/// The lines of an outbound weave message: a header line, then the remaining
/// body lines.
pub open spec fn outbound_lines_spec(
    ov: Seq<(String, u8)>,
    sender_id: Seq<char>,
    sender_label: Seq<char>,
    rs: Seq<(String, String)>,
    message: Seq<char>,
) -> Seq<MessageLineV> {
    let ml = message_lines_spec(message);
    let first = first_line_text(ml);
    let rest = if first is Some {
        ml.drop_first()
    } else {
        ml
    };
    let header = MessageLineV {
        kind: MessageLineKind::Paragraph,
        spans: outbound_header_spans(ov, sender_id, sender_label, rs, first),
    };
    seq![header] + rest
}

/// Renders an outbound weave message: the sender, the recipients each in
/// their accent, then the message, its first non-blank line pulled up.
pub fn new_weave_outbound(
    overrides: &AccentOverrides,
    sender_id: String,
    sender_label: String,
    recipients: Vec<(String, String)>,
    message: String,
) -> (r: PlainMessageState)
    ensures
        r.id.0 == 0,
        r.role == PlainMessageRole::System,
        r.kind == PlainMessageKind::Notice,
        r.header matches Some(h) && h.label@ == "weave"@ && h.badge is None,
        line_views(r.lines@) == outbound_lines_spec(
            overrides@,
            sender_id@,
            sender_label@,
            recipients@,
            message@,
        ),
{
    let mut message_lines = message_lines_from_text(message.as_str());
    let ghost ml = line_views(message_lines@);
    let first = take_first_line(&mut message_lines);
    let mut header_spans: Vec<InlineSpan> = Vec::new();
    let tone = weave_agent_tone_for_id(overrides, sender_id.as_str());
    header_spans.push(span(sender_label, tone, true));
    header_spans.push(span(String::from_str(" \u{2192} "), TextTone::Dim, false));
    let ghost base = header_spans@.map_values(|s: InlineSpan| s@);
    if recipients.len() == 0 {
        header_spans.push(span(String::from_str("(no recipients)"), TextTone::Dim, false));
    } else {
        let mut rec_spans: Vec<InlineSpan> = Vec::new();
        let mut i: usize = 0;
        let ghost rs = recipients@;
        proof {
            assert(rec_spans@.map_values(|s: InlineSpan| s@) =~= outbound_recipient_spans(
                overrides@,
                rs.take(0),
            ));
        }
        while i < recipients.len()
            invariant
                i <= rs.len(),
                recipients@ == rs,
                rec_spans@.map_values(|s: InlineSpan| s@) == outbound_recipient_spans(
                    overrides@,
                    rs.take(i as int),
                ),
            decreases rs.len() - i,
        {
            proof {
                assert(rs.take(i + 1).drop_last() =~= rs.take(i as int));
                assert(rs.take(i + 1).last() == rs[i as int]);
            }
            let ghost before = rec_spans@.map_values(|s: InlineSpan| s@);
            if i > 0 {
                rec_spans.push(span(String::from_str(", "), TextTone::Dim, false));
            }
            let ghost with_sep = rec_spans@.map_values(|s: InlineSpan| s@);
            proof {
                if i > 0 {
                    assert(with_sep =~= before.push(
                        SpanV {
                            text: ", "@,
                            tone: TextTone::Dim,
                            emphasis: TextEmphasis {
                                bold: false,
                                italic: false,
                                underline: false,
                            },
                        },
                    ));
                }
            }
            let rtone = weave_agent_tone_for_id(overrides, recipients[i].0.as_str());
            let label = recipients[i].1.clone();
            rec_spans.push(span(label, rtone, true));
            proof {
                assert(rec_spans@.map_values(|s: InlineSpan| s@) =~= with_sep.push(
                    SpanV {
                        text: rs[i as int].1@,
                        tone: tone_spec(overrides@, rs[i as int].0@),
                        emphasis: TextEmphasis { bold: true, italic: false, underline: false },
                    },
                ));
            }
            i += 1;
        }
        proof {
            assert(rs.take(rs.len() as int) =~= rs);
        }
        let ghost rec_views = rec_spans@.map_values(|s: InlineSpan| s@);
        header_spans.append(&mut rec_spans);
        proof {
            assert(header_spans@.map_values(|s: InlineSpan| s@) =~= base + rec_views);
        }
    }
    header_spans.push(span(String::from_str(": "), TextTone::Dim, false));
    match first {
        Some(f) => {
            header_spans.push(span(f, TextTone::Default, false));
        },
        None => {},
    }
    proof {
        assert(header_spans@.map_values(|s: InlineSpan| s@) =~= outbound_header_spans(
            overrides@,
            sender_id@,
            sender_label@,
            recipients@,
            first_line_text(ml),
        ));
    }
    let header_line = MessageLine { kind: MessageLineKind::Paragraph, spans: header_spans };
    let mut lines: Vec<MessageLine> = Vec::new();
    lines.push(header_line);
    let ghost with_header = line_views(lines@);
    let ghost rest = line_views(message_lines@);
    lines.append(&mut message_lines);
    proof {
        assert(line_views(lines@) =~= with_header + rest);
        assert(line_views(lines@) =~= outbound_lines_spec(
            overrides@,
            sender_id@,
            sender_label@,
            recipients@,
            message@,
        ));
    }
    PlainMessageState {
        id: HistoryId::zero(),
        role: PlainMessageRole::System,
        kind: PlainMessageKind::Notice,
        header: Some(MessageHeader { label: String::from_str("weave"), badge: None }),
        lines,
    }
}

/// The header of a wait-status cell.
#[derive(Clone, Debug, PartialEq, Eq)]
pub struct WaitStatusHeader {
    pub title: String,
    pub title_tone: TextTone,
    pub summary: Option<String>,
    pub summary_tone: TextTone,
}

/// One detail row of a wait-status cell.
#[derive(Clone, Debug, PartialEq, Eq)]
pub struct WaitStatusDetail {
    pub label: String,
    pub value: Option<String>,
    pub tone: TextTone,
}

/// The state of a wait-status cell.
#[derive(Clone, Debug, PartialEq, Eq)]
pub struct WaitStatusState {
    pub id: HistoryId,
    pub header: WaitStatusHeader,
    pub details: Vec<WaitStatusDetail>,
}

/// A history cell reporting a wait and its outcome.
#[derive(Clone, Debug, PartialEq, Eq)]
pub struct WaitStatusCell {
    state: WaitStatusState,
}

impl View for WaitStatusCell {
    type V = WaitStatusState;

    closed spec fn view(&self) -> WaitStatusState {
        self.state
    }
}

impl WaitStatusCell {
    /// Wraps a fresh state, resetting its history id.
    pub fn new(state: WaitStatusState) -> (r: Self)
        ensures
            r@.id.0 == 0,
            r@.header == state.header,
            r@.details == state.details,
    {
        let mut state = state;
        state.id = HistoryId::zero();
        WaitStatusCell { state }
    }

    /// Re-theming changes nothing about the state itself.
    pub fn retint(&mut self)
        ensures
            *final(self) == *old(self),
    {
    }

    /// Wraps a state as it stands, history id included.
    pub fn from_state(state: WaitStatusState) -> (r: Self)
        ensures
            r@ == state,
    {
        WaitStatusCell { state }
    }

    /// The cell's state.
    pub fn state(&self) -> (r: &WaitStatusState)
        ensures
            r == self@,
    {
        &self.state
    }

    /// The cell's state, for editing in place.
    pub fn state_mut(&mut self) -> (r: &mut WaitStatusState)
        ensures
            *r == old(self)@,
            final(self)@ == *final(r),
    {
        &mut self.state
    }
}

} // verus!
