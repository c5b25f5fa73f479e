//! Styled text: spans, lines and multi-line blocks.
use vstd::prelude::*;
use vstd::string::StrSliceExecFns;
use vstd::string::StringExecFns;

use crate::solver::sum_int;
use crate::style::{spec_patch, Style};
use crate::width::{char_width, char_width_of};

verus! {

/// How a line of text is placed inside the horizontal space it is given.
#[derive(Debug, Clone, Copy, PartialEq, Eq, Hash, Structural)]
pub enum Alignment {
    /// Flush with the left edge.
    Left,
    /// Centered, any odd slack going to the right.
    Center,
    /// Flush with the right edge.
    Right,
}

/// The number of columns one character takes when rendered: wide glyphs
/// take two, zero-width characters none, everything else one.
pub open spec fn spec_eff_width(c: char) -> int {
    if char_width_of(c) >= 2 {
        2
    } else {
        char_width_of(c) as int
    }
}

/// The number of columns a run of characters takes.
pub open spec fn spec_str_width(s: Seq<char>) -> int
    decreases s.len(),
{
    if s.len() == 0 {
        0
    } else {
        spec_eff_width(s[0]) + spec_str_width(s.drop_first())
    }
}

/// The rendered width never exceeds two columns per character, and is
/// never negative.
pub proof fn lemma_str_width_bounds(s: Seq<char>)
    ensures
        0 <= spec_str_width(s) <= 2 * s.len(),
    decreases s.len(),
{
    if s.len() > 0 {
        lemma_str_width_bounds(s.drop_first());
    }
}

/// Splitting a run one character later adds that character's width.
pub proof fn lemma_str_width_take_succ(s: Seq<char>, k: int)
    requires
        0 <= k < s.len(),
    ensures
        spec_str_width(s.take(k + 1)) == spec_str_width(s.take(k)) + spec_eff_width(s[k]),
    decreases k,
{
    if k == 0 {
        assert(s.take(1).drop_first() =~= s.take(0));
    } else {
        lemma_str_width_take_succ(s.drop_first(), k - 1);
        assert(s.take(k + 1).drop_first() =~= s.drop_first().take(k));
        assert(s.take(k).drop_first() =~= s.drop_first().take(k - 1));
    }
}

/// The rendered width of one character, capped at two columns.
pub fn eff_width(c: char) -> (r: usize)
    ensures
        r as int == spec_eff_width(c),
        r <= 2,
{
    let w = char_width(c);
    if w >= 2 {
        2
    } else {
        w
    }
}

/// The number of columns the string takes when rendered.
pub fn str_width(s: &str) -> (r: usize)
    requires
        s@.len() <= 0x3FFF_FFFF,
    ensures
        r as int == spec_str_width(s@),
{
    let n = s.unicode_len();
    let mut acc: usize = 0;
    let mut i: usize = 0;
    proof {
        assert(s@.take(0) =~= Seq::<char>::empty());
    }
    while i < n
        invariant
            s@.len() == n,
            n <= 0x3FFF_FFFF,
            i <= n,
            acc as int == spec_str_width(s@.take(i as int)),
            acc <= 2 * i,
        decreases n - i,
    {
        let c = s.get_char(i);
        proof {
            lemma_str_width_take_succ(s@, i as int);
        }
        acc = acc + eff_width(c);
        i = i + 1;
    }
    proof {
        assert(s@.take(n as int) =~= s@);
    }
    acc
}

/// A run of characters in one style.
#[derive(Debug, Clone, Hash)]
pub struct Span {
    /// The characters shown.
    pub content: String,
    /// The style they are shown in.
    pub style: Style,
}

impl Span {
    /// An unstyled span.
    pub fn raw(content: &str) -> (r: Span)
        ensures
            r.content@ == content@,
            r.style == Style::spec_new(),
    {
        Span { content: content.to_owned(), style: Style::new() }
    }

    /// A styled span.
    pub fn styled(content: &str, style: Style) -> (r: Span)
        ensures
            r.content@ == content@,
            r.style == style,
    {
        Span { content: content.to_owned(), style }
    }

    /// The number of columns the span takes.
    pub fn width(&self) -> (r: usize)
        requires
            self.content@.len() <= 0x3FFF_FFFF,
        ensures
            r as int == spec_str_width(self.content@),
    {
        str_width(self.content.as_str())
    }
}

impl PartialEq for Span {
    fn eq(&self, other: &Span) -> (r: bool) {
        self.content.eq(&other.content) && self.style == other.style
    }
}

impl vstd::std_specs::cmp::PartialEqSpecImpl for Span {
    open spec fn obeys_eq_spec() -> bool {
        true
    }

    open spec fn eq_spec(&self, other: &Span) -> bool {
        self.content@ == other.content@ && self.style == other.style
    }
}

/// The characters of a sequence of spans, run together.
pub open spec fn spec_spans_text(spans: Seq<Span>) -> Seq<char>
    decreases spans.len(),
{
    if spans.len() == 0 {
        Seq::empty()
    } else {
        spans[0].content@ + spec_spans_text(spans.drop_first())
    }
}

/// The widths of a sequence of spans.
pub open spec fn spec_spans_widths(spans: Seq<Span>) -> Seq<int> {
    spans.map_values(|sp: Span| spec_str_width(sp.content@))
}

/// One row of text: a list of styled spans and an optional alignment of
/// its own.
#[derive(Debug, Clone, Hash)]
pub struct Line {
    /// The styled runs making up the line, left to right.
    pub spans: Vec<Span>,
    /// Where the line sits in the space it is given; `None` leaves the
    /// decision to the surrounding text.
    pub alignment: Option<Alignment>,
}

impl Line {
    /// An unstyled line showing the given characters.
    pub fn raw(content: &str) -> (r: Line)
        ensures
            r.spans@.len() == 1,
            r.spans@[0].content@ == content@,
            r.spans@[0].style == Style::spec_new(),
            r.alignment is None,
    {
        Line { spans: vec![Span::raw(content)], alignment: None }
    }

    /// A line of one styled span.
    pub fn styled(content: &str, style: Style) -> (r: Line)
        ensures
            r.spans@.len() == 1,
            r.spans@[0].content@ == content@,
            r.spans@[0].style == style,
            r.alignment is None,
    {
        Line { spans: vec![Span::styled(content, style)], alignment: None }
    }

    /// Set this line's own alignment.
    pub fn alignment(self, alignment: Alignment) -> (r: Line)
        ensures
            r.spans == self.spans,
            r.alignment == Some(alignment),
    {
        Line { alignment: Some(alignment), ..self }
    }

    /// The number of columns the line takes: the sum of its spans'
    /// widths.
    pub fn width(&self) -> (r: usize)
        requires
            self.spans@.len() <= 0x3FFF,
            forall|i: int|
                0 <= i < self.spans@.len() ==> (#[trigger] self.spans@[i]).content@.len() <= 0xFFFF,
        ensures
            r as int == sum_int(spec_spans_widths(self.spans@)),
            r <= 0x7FFE_0000,
    {
        let mut acc: usize = 0;
        let mut i: usize = 0;
        proof {
            assert(spec_spans_widths(self.spans@).take(0) =~= Seq::<int>::empty());
        }
        while i < self.spans.len()
            invariant
                self.spans@.len() <= 0x3FFF,
                forall|j: int|
                    0 <= j < self.spans@.len() ==> (#[trigger] self.spans@[j]).content@.len()
                        <= 0xFFFF,
                i <= self.spans@.len(),
                acc as int == sum_int(spec_spans_widths(self.spans@).take(i as int)),
                acc <= 0x2_0000 * i,
            decreases self.spans@.len() - i,
        {
            proof {
                crate::solver::lemma_sum_take_succ(spec_spans_widths(self.spans@), i as int);
                lemma_str_width_bounds(self.spans@[i as int].content@);
            }
            acc = acc + self.spans[i].width();
            i = i + 1;
        }
        proof {
            assert(spec_spans_widths(self.spans@).take(self.spans@.len() as int) =~= spec_spans_widths(
                self.spans@,
            ));
        }
        acc
    }

    /// The characters of the line, run together without styling.
    pub fn to_string(&self) -> (r: String)
        ensures
            r@ == spec_spans_text(self.spans@),
    {
        let mut out = String::new();
        let mut i: usize = 0;
        while i < self.spans.len()
            invariant
                i <= self.spans@.len(),
                out@ == spec_spans_text(self.spans@.take(i as int)),
            decreases self.spans@.len() - i,
        {
            out.append(self.spans[i].content.as_str());
            proof {
                lemma_spans_text_take_succ(self.spans@, i as int);
            }
            i = i + 1;
        }
        proof {
            assert(self.spans@.take(self.spans@.len() as int) =~= self.spans@);
        }
        out
    }
}

/// Extending a prefix of spans by one appends its characters.
proof fn lemma_spans_text_take_succ(spans: Seq<Span>, k: int)
    requires
        0 <= k < spans.len(),
    ensures
        spec_spans_text(spans.take(k + 1)) == spec_spans_text(spans.take(k)) + spans[k].content@,
    decreases k,
{
    if k == 0 {
        assert(spans.take(0) =~= Seq::<Span>::empty());
        assert(spec_spans_text(Seq::<Span>::empty()) =~= Seq::<char>::empty());
        assert(spans.take(1).drop_first() =~= spans.take(0));
        assert(spans.take(1)[0] == spans[0]);
        assert(spec_spans_text(spans.take(1)) =~= spans[0].content@);
        assert(spec_spans_text(spans.take(0)) + spans[0].content@ =~= spans[0].content@);
    } else {
        lemma_spans_text_take_succ(spans.drop_first(), k - 1);
        assert(spans.take(k + 1).drop_first() =~= spans.drop_first().take(k));
        assert(spans.take(k).drop_first() =~= spans.drop_first().take(k - 1));
        assert(spec_spans_text(spans.take(k + 1)) =~= spec_spans_text(spans.take(k))
            + spans[k].content@);
    }
}

impl PartialEq for Line {
    fn eq(&self, other: &Line) -> (r: bool) {
        if self.spans.len() != other.spans.len() || !(self.alignment == other.alignment) {
            return false;
        }
        let mut i: usize = 0;
        while i < self.spans.len()
            invariant
                self.spans@.len() == other.spans@.len(),
                i <= self.spans@.len(),
                forall|j: int|
                    0 <= j < i ==> (#[trigger] self.spans@[j]).content@ == other.spans@[j].content@
                        && self.spans@[j].style == other.spans@[j].style,
            decreases self.spans@.len() - i,
        {
            if !(self.spans[i].eq(&other.spans[i])) {
                return false;
            }
            i = i + 1;
        }
        true
    }
}

/// Line equality at the spec level: same alignment and span-wise equal
/// content and styles.
pub open spec fn spec_line_eq(a: Line, b: Line) -> bool {
    &&& a.spans@.len() == b.spans@.len()
    &&& a.alignment == b.alignment
    &&& forall|j: int|
        0 <= j < a.spans@.len() ==> (#[trigger] a.spans@[j]).content@ == b.spans@[j].content@
            && a.spans@[j].style == b.spans@[j].style
}

impl vstd::std_specs::cmp::PartialEqSpecImpl for Line {
    open spec fn obeys_eq_spec() -> bool {
        true
    }

    open spec fn eq_spec(&self, other: &Line) -> bool {
        spec_line_eq(*self, *other)
    }
}

impl Line {
    /// A line of the one given span.
    pub fn from_span(span: Span) -> (r: Line)
        ensures
            r.spans@.len() == 1,
            r.spans@[0] == span,
            r.alignment is None,
    {
        Line { spans: vec![span], alignment: None }
    }

    /// A line of the given spans.
    pub fn from_spans(spans: Vec<Span>) -> (r: Line)
        ensures
            r.spans == spans,
            r.alignment is None,
    {
        Line { spans, alignment: None }
    }
}

/// The index of the first line break in `s`, or its length when it has
/// none.
pub open spec fn spec_first_nl(s: Seq<char>) -> int
    decreases s.len(),
{
    if s.len() == 0 {
        0
    } else if s[0] == '\n' {
        0
    } else {
        1 + spec_first_nl(s.drop_first())
    }
}

/// A run of characters with a trailing carriage return removed.
pub open spec fn spec_strip_cr(s: Seq<char>) -> Seq<char> {
    if s.len() > 0 && s[s.len() - 1] == '\r' {
        s.drop_last()
    } else {
        s
    }
}

/// The rows of a block of characters, split at line breaks; a break at
/// the very end opens no further row.
pub open spec fn spec_split_lines(s: Seq<char>) -> Seq<Seq<char>>
    decreases s.len(),
    via spec_split_lines_decreases
{
    if s.len() == 0 {
        Seq::empty()
    } else {
        let k = spec_first_nl(s);
        let head = spec_strip_cr(s.take(k));
        if k == s.len() {
            seq![head]
        } else {
            seq![head] + spec_split_lines(s.skip(k + 1))
        }
    }
}

#[via_fn]
proof fn spec_split_lines_decreases(s: Seq<char>) {
    lemma_first_nl_bounds(s);
}

/// The first line break comes no later than the end.
pub proof fn lemma_first_nl_bounds(s: Seq<char>)
    ensures
        0 <= spec_first_nl(s) <= s.len(),
        spec_first_nl(s) < s.len() ==> s[spec_first_nl(s)] == '\n',
        forall|j: int| 0 <= j < spec_first_nl(s) ==> s[j] != '\n',
    decreases s.len(),
{
    if s.len() > 0 && s[0] != '\n' {
        lemma_first_nl_bounds(s.drop_first());
        assert forall|j: int| 0 <= j < spec_first_nl(s) implies s[j] != '\n' by {
            if j >= 1 {
                assert(s.drop_first()[j - 1] != '\n');
            }
        }
    }
}

/// The first line break is the unique break-free prefix length.
proof fn lemma_first_nl_unique(s: Seq<char>, k: int)
    requires
        0 <= k <= s.len(),
        forall|j: int| 0 <= j < k ==> s[j] != '\n',
        k < s.len() ==> s[k] == '\n',
    ensures
        spec_first_nl(s) == k,
    decreases k,
{
    if s.len() == 0 {
    } else if k == 0 {
    } else {
        lemma_first_nl_unique(s.drop_first(), k - 1);
    }
}

/// Whether `lines` shows exactly the rows `texts`, each as one unstyled
/// span with no alignment of its own.
pub open spec fn spec_plain_lines(lines: Seq<Line>, texts: Seq<Seq<char>>) -> bool {
    &&& lines.len() == texts.len()
    &&& forall|i: int|
        0 <= i < lines.len() ==> {
            &&& (#[trigger] lines[i]).spans@.len() == 1
            &&& lines[i].spans@[0].content@ == texts[i]
            &&& lines[i].spans@[0].style == Style::spec_new()
            &&& lines[i].alignment is None
        }
}

/// The rows that a raw block of characters yields: its lines, or one
/// empty line when it is empty.
pub open spec fn spec_raw_lines(s: Seq<char>) -> Seq<Seq<char>> {
    if s.len() == 0 {
        seq![Seq::<char>::empty()]
    } else {
        spec_split_lines(s)
    }
}

/// A block of styled text: lines, a base style and an alignment.
#[derive(Debug, Clone, Hash)]
pub struct Text {
    /// The rows of the block, top to bottom.
    pub lines: Vec<Line>,
    /// The base style of the whole block.
    pub style: Style,
    /// Where the rows sit in the space they are given; a line's own
    /// alignment overrides it.
    pub alignment: Option<Alignment>,
}

impl PartialEq for Text {
    fn eq(&self, other: &Text) -> (r: bool) {
        if !(self.style == other.style) || !(self.alignment == other.alignment) || self.lines.len()
            != other.lines.len() {
            return false;
        }
        let mut i: usize = 0;
        while i < self.lines.len()
            invariant
                self.lines@.len() == other.lines@.len(),
                i <= self.lines@.len(),
                forall|j: int|
                    0 <= j < i ==> spec_line_eq(#[trigger] self.lines@[j], other.lines@[j]),
            decreases self.lines@.len() - i,
        {
            if !(self.lines[i].eq(&other.lines[i])) {
                return false;
            }
            i = i + 1;
        }
        true
    }
}

/// Text equality at the spec level: same style and alignment,
/// line-wise equal rows.
pub open spec fn spec_text_eq(a: Text, b: Text) -> bool {
    &&& a.style == b.style
    &&& a.alignment == b.alignment
    &&& a.lines@.len() == b.lines@.len()
    &&& forall|j: int| 0 <= j < a.lines@.len() ==> spec_line_eq(#[trigger] a.lines@[j], b.lines@[j])
}

impl vstd::std_specs::cmp::PartialEqSpecImpl for Text {
    open spec fn obeys_eq_spec() -> bool {
        true
    }

    open spec fn eq_spec(&self, other: &Text) -> bool {
        spec_text_eq(*self, *other)
    }
}

impl Default for Text {
    /// The empty block: no lines, the neutral style, no alignment.
    fn default() -> (r: Text)
        ensures
            r.lines@.len() == 0,
            r.style == Style::spec_new(),
            r.alignment is None,
    {
        Text { lines: Vec::new(), style: Style::new(), alignment: None }
    }
}

impl Text {
    /// A block of unstyled text, split at line breaks. The empty string
    /// yields one empty line.
    pub fn raw(content: &str) -> (r: Text)
        requires
            content@.len() <= 0x3FFF_FFFF,
        ensures
            spec_plain_lines(r.lines@, spec_raw_lines(content@)),
            r.style == Style::spec_new(),
            r.alignment is None,
    {
        let n = content.unicode_len();
        let mut lines: Vec<Line> = Vec::new();
        if n == 0 {
            lines.push(Line::raw(""));
            proof {
                reveal_strlit("");
                assert(""@ =~= Seq::<char>::empty());
            }
            return Text { lines, style: Style::new(), alignment: None };
        }
        let ghost full = content@;
        let ghost mut texts: Seq<Seq<char>> = Seq::empty();
        let mut pos: usize = 0;
        proof {
            assert(full.skip(0) =~= full);
            assert(texts + spec_split_lines(full) =~= spec_split_lines(full));
        }
        while pos < n
            invariant
                content@ == full,
                full.len() == n,
                n <= 0x3FFF_FFFF,
                pos <= n + 1,
                spec_plain_lines(lines@, texts),
                pos <= n ==> spec_split_lines(full) == texts + spec_split_lines(
                    full.skip(pos as int),
                ),
                pos == n + 1 ==> spec_split_lines(full) == texts,
            decreases n + 1 - pos,
        {
            let ghost suffix = full.skip(pos as int);
            // find the next line break
            let mut j: usize = pos;
            while j < n && content.get_char(j) != '\n'
                invariant
                    content@ == full,
                    full.len() == n,
                    pos <= j <= n,
                    forall|m: int| pos <= m < j ==> full[m] != '\n',
                decreases n - j,
            {
                j = j + 1;
            }
            proof {
                assert(forall|m: int| 0 <= m < j - pos ==> suffix[m] != '\n');
                lemma_first_nl_unique(suffix, j - pos);
            }
            // strip one trailing carriage return
            let e: usize = if j > pos && content.get_char(j - 1) == '\r' {
                j - 1
            } else {
                j
            };
            let piece = content.substring_char(pos, e);
            proof {
                assert(piece@ =~= spec_strip_cr(suffix.take(j - pos)));
            }
            lines.push(Line::raw(piece));
            proof {
                texts = texts.push(piece@);
                if j == n {
                    assert(spec_split_lines(suffix) =~= seq![spec_strip_cr(suffix.take(j - pos))]);
                    assert(spec_split_lines(full) =~= texts);
                } else {
                    assert(spec_split_lines(suffix) =~= seq![
                        spec_strip_cr(suffix.take(j - pos)),
                    ] + spec_split_lines(suffix.skip(j - pos + 1)));
                    assert(suffix.skip(j - pos + 1) =~= full.skip(j + 1));
                    assert(spec_split_lines(full) =~= texts + spec_split_lines(full.skip(j + 1)));
                }
            }
            pos = j + 1;
        }
        Text { lines, style: Style::new(), alignment: None }
    }

    /// A block of text in the given style, split at line breaks.
    pub fn styled(content: &str, style: Style) -> (r: Text)
        requires
            content@.len() <= 0x3FFF_FFFF,
        ensures
            spec_plain_lines(r.lines@, spec_raw_lines(content@)),
            r.style == spec_patch(Style::spec_new(), style),
            r.alignment is None,
    {
        Text::raw(content).patch_style(style)
    }

    /// The number of columns the widest line takes.
    pub fn width(&self) -> (r: usize)
        requires
            spec_text_sized(*self),
        ensures
            r as int == spec_text_width(self.lines@),
    {
        let mut best: usize = 0;
        let mut i: usize = 0;
        while i < self.lines.len()
            invariant
                spec_text_sized(*self),
                i <= self.lines@.len(),
                best as int == spec_text_width(self.lines@.take(i as int)),
                best <= 0x7FFE_0000,
            decreases self.lines@.len() - i,
        {
            let w = self.lines[i].width();
            if w > best {
                best = w;
            }
            proof {
                lemma_text_width_take_succ(self.lines@, i as int);
            }
            i = i + 1;
        }
        proof {
            assert(self.lines@.take(self.lines@.len() as int) =~= self.lines@);
        }
        best
    }

    /// The number of rows.
    pub fn height(&self) -> (r: usize)
        ensures
            r == self.lines@.len(),
    {
        self.lines.len()
    }

    /// Replace the base style.
    pub fn style(self, style: Style) -> (r: Text)
        ensures
            r.lines == self.lines,
            r.style == style,
            r.alignment == self.alignment,
    {
        Text { style, ..self }
    }

    /// Patch the base style: what the patch sets wins, the rest stays.
    pub fn patch_style(self, style: Style) -> (r: Text)
        ensures
            r.lines == self.lines,
            r.style == spec_patch(self.style, style),
            r.alignment == self.alignment,
    {
        let style = self.style.patch(style);
        Text { style, ..self }
    }

    /// Reset the base style.
    pub fn reset_style(self) -> (r: Text)
        ensures
            r.lines == self.lines,
            r.style == spec_patch(self.style, Style::spec_reset()),
            r.alignment == self.alignment,
    {
        self.patch_style(Style::reset())
    }

    /// Set the alignment of the whole block.
    pub fn alignment(self, alignment: Alignment) -> (r: Text)
        ensures
            r.lines == self.lines,
            r.style == self.style,
            r.alignment == Some(alignment),
    {
        Text { alignment: Some(alignment), ..self }
    }

    /// Append further lines to the block.
    pub fn extend(&mut self, lines: Vec<Line>)
        ensures
            final(self).lines@ == old(self).lines@ + lines@,
            final(self).style == old(self).style,
            final(self).alignment == old(self).alignment,
    {
        let mut more = lines;
        self.lines.append(&mut more);
    }

    /// Append unstyled lines to the block.
    pub fn extend_str(&mut self, lines: Vec<&str>)
        ensures
            final(self).lines@.len() == old(self).lines@.len() + lines@.len(),
            forall|i: int|
                0 <= i < old(self).lines@.len() ==> #[trigger] final(self).lines@[i] == old(
                    self,
                ).lines@[i],
            forall|i: int|
                0 <= i < lines@.len() ==> {
                    let l = #[trigger] final(self).lines@[old(self).lines@.len() + i];
                    &&& l.spans@.len() == 1
                    &&& l.spans@[0].content@ == lines@[i]@
                    &&& l.spans@[0].style == Style::spec_new()
                    &&& l.alignment is None
                },
            final(self).style == old(self).style,
            final(self).alignment == old(self).alignment,
    {
        let mut i: usize = 0;
        while i < lines.len()
            invariant
                i <= lines@.len(),
                self.lines@.len() == old(self).lines@.len() + i,
                self.style == old(self).style,
                self.alignment == old(self).alignment,
                forall|j: int|
                    0 <= j < old(self).lines@.len() ==> #[trigger] self.lines@[j] == old(
                        self,
                    ).lines@[j],
                forall|j: int|
                    0 <= j < i ==> {
                        let l = #[trigger] self.lines@[old(self).lines@.len() + j];
                        &&& l.spans@.len() == 1
                        &&& l.spans@[0].content@ == lines@[j]@
                        &&& l.spans@[0].style == Style::spec_new()
                        &&& l.alignment is None
                    },
            decreases lines@.len() - i,
        {
            self.lines.push(Line::raw(lines[i]));
            i = i + 1;
        }
    }

    /// A block of the one given line.
    pub fn from_line(line: Line) -> (r: Text)
        ensures
            r.lines@.len() == 1,
            r.lines@[0] == line,
            r.style == Style::spec_new(),
            r.alignment is None,
    {
        Text { lines: vec![line], style: Style::new(), alignment: None }
    }

    /// A block of the given lines.
    pub fn from_lines(lines: Vec<Line>) -> (r: Text)
        ensures
            r.lines == lines,
            r.style == Style::spec_new(),
            r.alignment is None,
    {
        Text { lines, style: Style::new(), alignment: None }
    }

    /// Green foreground on the block's style.
    pub fn green(self) -> (r: Text)
        ensures
            r.lines == self.lines,
            r.alignment == self.alignment,
            r.style == (Style { fg: Some(crate::style::Color::Green), ..self.style }),
    {
        let style = self.style.green();
        Text { style, ..self }
    }

    /// Green background on the block's style.
    pub fn on_green(self) -> (r: Text)
        ensures
            r.lines == self.lines,
            r.alignment == self.alignment,
            r.style == (Style { bg: Some(crate::style::Color::Green), ..self.style }),
    {
        let style = self.style.on_green();
        Text { style, ..self }
    }

    /// The italic flag on the block's style.
    pub fn italic(self) -> (r: Text)
        ensures
            r.lines == self.lines,
            r.alignment == self.alignment,
            r.style.fg == self.style.fg,
            r.style.bg == self.style.bg,
            r.style.add_modifier.bits == self.style.add_modifier.bits | 0x0004u16,
            r.style.sub_modifier.bits == self.style.sub_modifier.bits & !0x0004u16,
    {
        let style = self.style.italic();
        Text { style, ..self }
    }

    /// The characters of the block, rows joined with line breaks.
    pub fn to_string(&self) -> (r: String)
        ensures
            r@ == spec_joined_text(self.lines@),
    {
        proof {
            reveal_strlit("\n");
        }
        let mut out = String::new();
        let mut i: usize = 0;
        while i < self.lines.len()
            invariant
                i <= self.lines@.len(),
                out@ == spec_joined_prefix(self.lines@, i as int),
            decreases self.lines@.len() - i,
        {
            proof {
                reveal_strlit("\n");
            }
            if i > 0 {
                out.append("\n");
            }
            let piece = self.lines[i].to_string();
            out.append(piece.as_str());
            proof {
                assert(out@ =~= spec_joined_prefix(self.lines@, i as int + 1));
            }
            i = i + 1;
        }
        proof {
            assert(spec_joined_prefix(self.lines@, self.lines@.len() as int) =~= spec_joined_text(
                self.lines@,
            ));
        }
        out
    }
}

/// The widest line width among the first lines of a block.
pub open spec fn spec_text_width(lines: Seq<Line>) -> int
    decreases lines.len(),
{
    if lines.len() == 0 {
        0
    } else {
        let rest = spec_text_width(lines.drop_last());
        let last = sum_int(spec_spans_widths(lines.last().spans@));
        if last > rest {
            last
        } else {
            rest
        }
    }
}

/// Extending the prefix by one line takes the maximum with its width.
proof fn lemma_text_width_take_succ(lines: Seq<Line>, k: int)
    requires
        0 <= k < lines.len(),
    ensures
        spec_text_width(lines.take(k + 1)) == if sum_int(spec_spans_widths(lines[k].spans@))
            > spec_text_width(lines.take(k)) {
            sum_int(spec_spans_widths(lines[k].spans@))
        } else {
            spec_text_width(lines.take(k))
        },
{
    assert(lines.take(k + 1).drop_last() =~= lines.take(k));
    assert(lines.take(k + 1).last() == lines[k]);
}

/// The characters of the first `k` lines, joined with line breaks.
pub open spec fn spec_joined_prefix(lines: Seq<Line>, k: int) -> Seq<char>
    decreases k,
{
    if k <= 0 {
        Seq::empty()
    } else if k == 1 {
        spec_spans_text(lines[0].spans@)
    } else {
        spec_joined_prefix(lines, k - 1).push('\n') + spec_spans_text(lines[k - 1].spans@)
    }
}

/// The characters of a whole block, rows joined with line breaks.
pub open spec fn spec_joined_text(lines: Seq<Line>) -> Seq<char> {
    spec_joined_prefix(lines, lines.len() as int)
}

/// Rendering a sequence of spans left to right from `x`, each span in
/// its own style, against a width budget.
pub open spec fn spec_render_spans(
    cells: Seq<crate::cell::Cell>,
    buf_area: crate::rect::Rect,
    x: int,
    y: int,
    spans: Seq<Span>,
    budget: int,
) -> Seq<crate::cell::Cell>
    decreases spans.len(),
{
    if spans.len() == 0 {
        cells
    } else {
        let w = spec_str_width(spans[0].content@);
        spec_render_spans(
            crate::buffer::spec_set_string(
                cells,
                buf_area,
                x,
                y,
                spans[0].content@,
                budget,
                spans[0].style,
            ),
            buf_area,
            x + w,
            y,
            spans.drop_first(),
            budget - w,
        )
    }
}

/// A write that starts beyond the grid, or with no budget left, changes
/// nothing.
proof fn lemma_set_string_void(
    cells: Seq<crate::cell::Cell>,
    buf_area: crate::rect::Rect,
    x: int,
    y: int,
    s: Seq<char>,
    budget: int,
    style: Style,
)
    requires
        x > 0xFFFF || budget <= 0,
    ensures
        crate::buffer::spec_set_string(cells, buf_area, x, y, s, budget, style) == cells,
    decreases s.len(),
{
    if s.len() > 0 {
        lemma_set_string_void(cells, buf_area, x, y, s.drop_first(), budget, style);
    }
}

/// Rendering spans beyond the grid, or with no budget left, changes
/// nothing.
proof fn lemma_render_spans_void(
    cells: Seq<crate::cell::Cell>,
    buf_area: crate::rect::Rect,
    x: int,
    y: int,
    spans: Seq<Span>,
    budget: int,
)
    requires
        x > 0xFFFF || budget <= 0,
    ensures
        spec_render_spans(cells, buf_area, x, y, spans, budget) == cells,
    decreases spans.len(),
{
    if spans.len() > 0 {
        lemma_set_string_void(cells, buf_area, x, y, spans[0].content@, budget, spans[0].style);
        lemma_str_width_bounds(spans[0].content@);
        lemma_render_spans_void(
            cells,
            buf_area,
            x + spec_str_width(spans[0].content@),
            y,
            spans.drop_first(),
            budget - spec_str_width(spans[0].content@),
        );
    }
}

/// The column offset of a line within the width it is given, by its own
/// alignment.
pub open spec fn spec_line_offset(line: Line, width: int) -> int {
    let lw = sum_int(spec_spans_widths(line.spans@));
    match line.alignment {
        Some(Alignment::Center) => if width >= lw {
            (width - lw) / 2
        } else {
            0
        },
        Some(Alignment::Right) => if width >= lw {
            width - lw
        } else {
            0
        },
        _ => 0,
    }
}

/// Rendering one line into the row `la`, aligned by the line's own
/// alignment.
pub open spec fn spec_render_line(
    cells: Seq<crate::cell::Cell>,
    buf_area: crate::rect::Rect,
    line: Line,
    la: crate::rect::Rect,
) -> Seq<crate::cell::Cell> {
    let off = spec_line_offset(line, la.width as int);
    spec_render_spans(cells, buf_area, la.x + off, la.y as int, line.spans@, la.width - off)
}

/// The bounds under which a block of text can be measured.
pub open spec fn spec_text_sized(t: Text) -> bool {
    &&& t.lines@.len() <= 0xFFFF
    &&& forall|i: int| 0 <= i < t.lines@.len() ==> spec_line_sized(#[trigger] t.lines@[i])
}

/// The bounds under which a line can be measured.
pub open spec fn spec_line_sized(line: Line) -> bool {
    &&& line.spans@.len() <= 0x3FFF
    &&& forall|i: int| 0 <= i < line.spans@.len() ==> (#[trigger] line.spans@[i]).content@.len() <= 0xFFFF
}

impl Line {
    /// Render the line into the single-row rectangle `area` of `buf`,
    /// aligned by the line's own alignment; what exceeds the width is
    /// truncated.
    pub fn render(&self, area: crate::rect::Rect, buf: &mut crate::buffer::Buffer)
        requires
            old(buf).well_formed(),
            spec_line_sized(*self),
        ensures
            final(buf).area == old(buf).area,
            final(buf).well_formed(),
            final(buf).content@ == spec_render_line(old(buf).content@, old(buf).area, *self, area),
            crate::diff::spec_grid_wf(old(buf).content@, old(buf).area)
                ==> crate::diff::spec_grid_wf(final(buf).content@, old(buf).area),
    {
        proof {
            if crate::diff::spec_grid_wf(buf.content@, buf.area) {
                crate::diff::lemma_render_spans_preserves_grid_wf(
                    buf.content@,
                    buf.area,
                    area.x + spec_line_offset(*self, area.width as int),
                    area.y as int,
                    self.spans@,
                    area.width - spec_line_offset(*self, area.width as int),
                );
            }
        }
        let ghost target = spec_render_line(old(buf).content@, old(buf).area, *self, area);
        let lw = self.width();
        let off: u16 = match self.alignment {
            Some(Alignment::Center) => {
                if (area.width as usize) >= lw {
                    ((area.width as usize - lw) / 2) as u16
                } else {
                    0
                }
            },
            Some(Alignment::Right) => {
                if (area.width as usize) >= lw {
                    (area.width as usize - lw) as u16
                } else {
                    0
                }
            },
            _ => 0,
        };
        let mut cx: u64 = area.x as u64 + off as u64;
        let mut budget: i64 = area.width as i64 - off as i64;
        let ghost gx: int = area.x + spec_line_offset(*self, area.width as int);
        let ghost gb: int = area.width - spec_line_offset(*self, area.width as int);
        proof {
            assert(cx as int == gx);
            assert(budget as int == gb);
            assert(self.spans@.skip(0) =~= self.spans@);
        }
        let mut k: usize = 0;
        while k < self.spans.len()
            invariant
                buf.area == old(buf).area,
                buf.well_formed(),
                spec_line_sized(*self),
                k <= self.spans@.len(),
                cx as int == gx + sum_int(spec_spans_widths(self.spans@).take(k as int)),
                budget as int == gb - sum_int(spec_spans_widths(self.spans@).take(k as int)),
                gx <= 0x1_FFFF,
                gb <= 0xFFFF,
                target == spec_render_line(old(buf).content@, old(buf).area, *self, area),
                crate::diff::spec_grid_wf(old(buf).content@, old(buf).area)
                    ==> crate::diff::spec_grid_wf(target, old(buf).area),
                spec_render_spans(
                    buf.content@,
                    buf.area,
                    cx as int,
                    area.y as int,
                    self.spans@.skip(k as int),
                    budget as int,
                ) == target,
            decreases self.spans@.len() - k,
        {
            proof {
                assert(self.spans@.skip(k as int)[0] == self.spans@[k as int]);
                assert(self.spans@.skip(k as int).drop_first() =~= self.spans@.skip(k as int + 1));
                crate::solver::lemma_sum_take_succ(spec_spans_widths(self.spans@), k as int);
                lemma_str_width_bounds(self.spans@[k as int].content@);
            }
            if cx > 0xFFFF || budget <= 0 {
                proof {
                    lemma_render_spans_void(
                        buf.content@,
                        buf.area,
                        cx as int,
                        area.y as int,
                        self.spans@.skip(k as int),
                        budget as int,
                    );
                }
                return ;
            }
            let sp = &self.spans[k];
            let w = sp.width();
            buf.set_stringn(cx as u16, area.y, sp.content.as_str(), budget as usize, sp.style);
            cx = cx + w as u64;
            budget = budget - w as i64;
            k = k + 1;
        }
        proof {
            assert(self.spans@.skip(self.spans@.len() as int) =~= Seq::<Span>::empty());
        }
    }
}

/// Rendering the rows of a block, topmost first, each aligned by its
/// own alignment or, failing that, the block's.
pub open spec fn spec_render_text_from(
    cells: Seq<crate::cell::Cell>,
    buf_area: crate::rect::Rect,
    text_align: Option<Alignment>,
    area: crate::rect::Rect,
    lines: Seq<Line>,
    i: int,
) -> Seq<crate::cell::Cell>
    decreases lines.len() - i,
{
    if i < 0 || i >= lines.len() || i >= area.height {
        cells
    } else {
        let line = lines[i];
        let lw = sum_int(spec_spans_widths(line.spans@));
        let tx_off: int = if line.alignment is None {
            match text_align {
                Some(Alignment::Center) => if area.width >= lw {
                    (area.width - lw) / 2
                } else {
                    0
                },
                Some(Alignment::Right) => if area.width >= lw {
                    area.width - lw
                } else {
                    0
                },
                _ => 0,
            }
        } else {
            0
        };
        let la = crate::rect::Rect {
            x: (area.x + tx_off) as u16,
            y: (area.y + i) as u16,
            width: (area.width - tx_off) as u16,
            height: 1,
        };
        spec_render_text_from(
            spec_render_line(cells, buf_area, line, la),
            buf_area,
            text_align,
            area,
            lines,
            i + 1,
        )
    }
}

impl Text {
    /// Render the block into `area` of `buf`: the block's style is laid
    /// over the whole area, then each row is rendered, truncated to the
    /// area's width and height.
    pub fn render(&self, area: crate::rect::Rect, buf: &mut crate::buffer::Buffer)
        requires
            old(buf).well_formed(),
            area.x + area.width <= 0xFFFF,
            area.y + area.height <= 0xFFFF,
            forall|i: int| 0 <= i < self.lines@.len() ==> spec_line_sized(#[trigger] self.lines@[i]),
        ensures
            final(buf).area == old(buf).area,
            final(buf).well_formed(),
            final(buf).content@ == spec_render_text_from(
                crate::buffer::spec_set_style(old(buf).content@, old(buf).area, area, self.style),
                old(buf).area,
                self.alignment,
                area,
                self.lines@,
                0,
            ),
            crate::diff::spec_grid_wf(old(buf).content@, old(buf).area)
                ==> crate::diff::spec_grid_wf(final(buf).content@, old(buf).area),
    {
        proof {
            if crate::diff::spec_grid_wf(buf.content@, buf.area) {
                crate::diff::lemma_set_style_preserves_grid_wf(
                    buf.content@,
                    buf.area,
                    area,
                    self.style,
                );
                crate::diff::lemma_render_text_preserves_grid_wf(
                    crate::buffer::spec_set_style(buf.content@, buf.area, area, self.style),
                    buf.area,
                    self.alignment,
                    area,
                    self.lines@,
                    0,
                );
            }
        }
        buf.set_style(area, self.style);
        let ghost target = spec_render_text_from(
            buf.content@,
            buf.area,
            self.alignment,
            area,
            self.lines@,
            0,
        );
        let mut i: usize = 0;
        while i < self.lines.len()
            invariant
                buf.area == old(buf).area,
                buf.well_formed(),
                area.x + area.width <= 0xFFFF,
                area.y + area.height <= 0xFFFF,
                forall|j: int|
                    0 <= j < self.lines@.len() ==> spec_line_sized(#[trigger] self.lines@[j]),
                i <= self.lines@.len(),
                target == spec_render_text_from(
                    crate::buffer::spec_set_style(
                        old(buf).content@,
                        old(buf).area,
                        area,
                        self.style,
                    ),
                    old(buf).area,
                    self.alignment,
                    area,
                    self.lines@,
                    0,
                ),
                spec_render_text_from(
                    buf.content@,
                    buf.area,
                    self.alignment,
                    area,
                    self.lines@,
                    i as int,
                ) == target,
                crate::diff::spec_grid_wf(old(buf).content@, old(buf).area)
                    ==> crate::diff::spec_grid_wf(target, old(buf).area),
            decreases self.lines@.len() - i,
        {
            if i >= area.height as usize {
                return ;
            }
            let line = &self.lines[i];
            let lw = line.width();
            let tx_off: u16 = match line.alignment {
                Some(_) => 0,
                None => {
                    match self.alignment {
                        Some(Alignment::Center) => {
                            if (area.width as usize) >= lw {
                                ((area.width as usize - lw) / 2) as u16
                            } else {
                                0
                            }
                        },
                        Some(Alignment::Right) => {
                            if (area.width as usize) >= lw {
                                (area.width as usize - lw) as u16
                            } else {
                                0
                            }
                        },
                        _ => 0,
                    }
                },
            };
            let la = crate::rect::Rect {
                x: area.x + tx_off,
                y: area.y + (i as u16),
                width: area.width - tx_off,
                height: 1,
            };
            line.render(la, buf);
            i = i + 1;
        }
    }
}

} // verus!
