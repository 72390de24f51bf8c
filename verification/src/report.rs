//! Reports for people: lines of styled text.

use crate::text::{copy_str, views};
use vstd::prelude::*;

verus! {

/// The role that a piece of text plays; the colours are the terminal's business.
#[derive(Clone, Copy, Debug, PartialEq, Eq, Structural)]
pub enum Style {
    Plain,
    Bold,
    Brand,
    Text,
    TextBold,
    Subtext,
    SubtextBold,
    Overlay,
    Blue,
    BlueBold,
    Green,
    GreenBold,
    Red,
    RedBold,
    Yellow,
    YellowBold,
    BrandText,
    Cyan,
    Dim,
    Teal,
    TealBold,
    BadgeRed,
    BadgeYellow,
    BadgeGreen,
    BadgeBrand,
    BadgeTeal,
    BadgeBlue,
    BadgeMuted,
}

/// A piece of text in one style.
#[derive(Debug)]
pub struct Span {
    pub style: Style,
    pub text: String,
}

pub type SpanView = (Style, Seq<char>);

pub type LineView = Seq<SpanView>;

/// Lines of text.
pub struct Report {
    pub lines: Vec<Vec<Span>>,
}

pub open spec fn line_view(spans: Seq<Span>) -> LineView {
    spans.map_values(|s: Span| (s.style, s.text@))
}

impl View for Report {
    type V = Seq<LineView>;

    open spec fn view(&self) -> Seq<LineView> {
        self.lines@.map_values(|l: Vec<Span>| line_view(l@))
    }
}

pub fn span(style: Style, text: &str) -> (r: Span)
    ensures
        r.style == style,
        r.text@ == text@,
{
    Span { style, text: copy_str(text) }
}

/// Nothing but an empty line.
pub open spec fn blank_line() -> LineView {
    Seq::empty()
}

/// One line for each text, indented.
pub open spec fn text_lines(indent: Seq<char>, style: Style, texts: Seq<Seq<char>>) -> Seq<
    LineView,
> {
    texts.map_values(|t: Seq<char>| seq![(Style::Plain, indent), (style, t)])
}

/// One line for each text, with a mark before it.
pub open spec fn marked_lines(
    indent: Seq<char>,
    mark: Seq<char>,
    style: Style,
    texts: Seq<Seq<char>>,
) -> Seq<LineView> {
    texts.map_values(
        |t: Seq<char>|
            seq![(Style::Plain, indent), (style, mark), (Style::Plain, " "@), (style, t)],
    )
}

/// The texts of a line without their styles.
pub open spec fn line_text(l: LineView) -> Seq<char>
    decreases l.len(),
{
    if l.len() == 0 {
        Seq::empty()
    } else {
        line_text(l.drop_last()) + l.last().1
    }
}

impl Report {
    pub fn new() -> (r: Self)
        ensures
            r@ == Seq::<LineView>::empty(),
    {
        let r = Report { lines: Vec::new() };
        assert(r@ =~= Seq::<LineView>::empty());
        r
    }

    /// The lines without their styles.
    pub fn plain_lines(&self) -> (r: Vec<String>)
        ensures
            views(r@) == self@.map_values(|l: LineView| line_text(l)),
    {
        let mut r: Vec<String> = Vec::new();
        let mut i: usize = 0;
        while i < self.lines.len()
            invariant
                i <= self.lines@.len(),
                r@.len() == i,
                forall|k: int| 0 <= k < i ==> (#[trigger] r@[k])@ == line_text(self@[k]),
            decreases self.lines@.len() - i,
        {
            let line = &self.lines[i];
            let ghost all = line_view(line@);
            let mut s = String::new();
            let mut j: usize = 0;
            assert(s@ =~= line_text(all.take(0)));
            while j < line.len()
                invariant
                    j <= line@.len(),
                    all == line_view(line@),
                    s@ == line_text(all.take(j as int)),
                decreases line@.len() - j,
            {
                proof {
                    assert(all.take(j + 1).drop_last() =~= all.take(j as int));
                    assert(all.take(j + 1).last() == all[j as int]);
                }
                s.append(line[j].text.as_str());
                j += 1;
            }
            assert(all.take(j as int) =~= all);
            assert(self@[i as int] == all);
            r.push(s);
            i += 1;
        }
        assert(views(r@) =~= self@.map_values(|l: LineView| line_text(l)));
        r
    }

    pub fn is_empty(&self) -> (r: bool)
        ensures
            r == (self@.len() == 0),
    {
        self.lines.len() == 0
    }

    pub fn push_line(&mut self, line: Vec<Span>)
        ensures
            final(self)@ == old(self)@.push(line_view(line@)),
    {
        let ghost before = self.lines@;
        self.lines.push(line);
        assert(self@ =~= old(self)@.push(line_view(line@)));
    }

    pub fn blank(&mut self)
        ensures
            final(self)@ == old(self)@.push(blank_line()),
    {
        let line: Vec<Span> = Vec::new();
        assert(line_view(line@) =~= blank_line());
        self.push_line(line);
    }

    /// Appends the lines of another report.
    pub fn extend(&mut self, more: Report)
        ensures
            final(self)@ == old(self)@ + more@,
    {
        let mut tail = more.lines;
        self.lines.append(&mut tail);
        assert(self@ =~= old(self)@ + more@);
    }

    pub fn texts(&mut self, indent: &str, style: Style, texts: &Vec<String>)
        ensures
            final(self)@ == old(self)@ + text_lines(indent@, style, views(texts@)),
    {
        let ghost all = text_lines(indent@, style, views(texts@));
        let ghost start = self@;
        let mut i: usize = 0;
        assert(start + all.take(0) =~= start);
        while i < texts.len()
            invariant
                i <= texts@.len(),
                all == text_lines(indent@, style, views(texts@)),
                self@ == start + all.take(i as int),
            decreases texts@.len() - i,
        {
            self.line2(Style::Plain, indent, style, texts[i].as_str());
            i += 1;
            assert(all.take(i as int) =~= all.take(i - 1).push(all[i - 1]));
            assert(self@ =~= start + all.take(i as int));
        }
        assert(all.take(i as int) =~= all);
    }

    pub fn marked(&mut self, indent: &str, mark: &str, style: Style, texts: &Vec<String>)
        ensures
            final(self)@ == old(self)@ + marked_lines(indent@, mark@, style, views(texts@)),
    {
        let ghost all = marked_lines(indent@, mark@, style, views(texts@));
        let ghost start = self@;
        let mut i: usize = 0;
        assert(start + all.take(0) =~= start);
        while i < texts.len()
            invariant
                i <= texts@.len(),
                all == marked_lines(indent@, mark@, style, views(texts@)),
                self@ == start + all.take(i as int),
            decreases texts@.len() - i,
        {
            self.line4(Style::Plain, indent, style, mark, Style::Plain, " ", style, texts[i].as_str());
            i += 1;
            assert(all.take(i as int) =~= all.take(i - 1).push(all[i - 1]));
            assert(self@ =~= start + all.take(i as int));
        }
        assert(all.take(i as int) =~= all);
    }

    pub fn line1(&mut self, s1: Style, t1: &str)
        ensures
            final(self)@ == old(self)@.push(seq![(s1, t1@)]),
    {
        let mut line: Vec<Span> = Vec::new();
        line.push(span(s1, t1));
        assert(line_view(line@) =~= seq![(s1, t1@)]);
        self.push_line(line);
    }

    pub fn line2(&mut self, s1: Style, t1: &str, s2: Style, t2: &str)
        ensures
            final(self)@ == old(self)@.push(seq![(s1, t1@), (s2, t2@)]),
    {
        let mut line: Vec<Span> = Vec::new();
        line.push(span(s1, t1));
        line.push(span(s2, t2));
        assert(line_view(line@) =~= seq![(s1, t1@), (s2, t2@)]);
        self.push_line(line);
    }

    pub fn line3(&mut self, s1: Style, t1: &str, s2: Style, t2: &str, s3: Style, t3: &str)
        ensures
            final(self)@ == old(self)@.push(seq![(s1, t1@), (s2, t2@), (s3, t3@)]),
    {
        let mut line: Vec<Span> = Vec::new();
        line.push(span(s1, t1));
        line.push(span(s2, t2));
        line.push(span(s3, t3));
        assert(line_view(line@) =~= seq![(s1, t1@), (s2, t2@), (s3, t3@)]);
        self.push_line(line);
    }

    pub fn line4(&mut self, s1: Style, t1: &str, s2: Style, t2: &str, s3: Style, t3: &str, s4: Style, t4: &str)
        ensures
            final(self)@ == old(self)@.push(seq![(s1, t1@), (s2, t2@), (s3, t3@), (s4, t4@)]),
    {
        let mut line: Vec<Span> = Vec::new();
        line.push(span(s1, t1));
        line.push(span(s2, t2));
        line.push(span(s3, t3));
        line.push(span(s4, t4));
        assert(line_view(line@) =~= seq![(s1, t1@), (s2, t2@), (s3, t3@), (s4, t4@)]);
        self.push_line(line);
    }

    pub fn line5(&mut self, s1: Style, t1: &str, s2: Style, t2: &str, s3: Style, t3: &str, s4: Style, t4: &str, s5: Style, t5: &str)
        ensures
            final(self)@ == old(self)@.push(seq![(s1, t1@), (s2, t2@), (s3, t3@), (s4, t4@), (s5, t5@)]),
    {
        let mut line: Vec<Span> = Vec::new();
        line.push(span(s1, t1));
        line.push(span(s2, t2));
        line.push(span(s3, t3));
        line.push(span(s4, t4));
        line.push(span(s5, t5));
        assert(line_view(line@) =~= seq![(s1, t1@), (s2, t2@), (s3, t3@), (s4, t4@), (s5, t5@)]);
        self.push_line(line);
    }

    pub fn line6(&mut self, s1: Style, t1: &str, s2: Style, t2: &str, s3: Style, t3: &str, s4: Style, t4: &str, s5: Style, t5: &str, s6: Style, t6: &str)
        ensures
            final(self)@ == old(self)@.push(seq![(s1, t1@), (s2, t2@), (s3, t3@), (s4, t4@), (s5, t5@), (s6, t6@)]),
    {
        let mut line: Vec<Span> = Vec::new();
        line.push(span(s1, t1));
        line.push(span(s2, t2));
        line.push(span(s3, t3));
        line.push(span(s4, t4));
        line.push(span(s5, t5));
        line.push(span(s6, t6));
        assert(line_view(line@) =~= seq![(s1, t1@), (s2, t2@), (s3, t3@), (s4, t4@), (s5, t5@), (s6, t6@)]);
        self.push_line(line);
    }

    pub fn line7(&mut self, s1: Style, t1: &str, s2: Style, t2: &str, s3: Style, t3: &str, s4: Style, t4: &str, s5: Style, t5: &str, s6: Style, t6: &str, s7: Style, t7: &str)
        ensures
            final(self)@ == old(self)@.push(seq![(s1, t1@), (s2, t2@), (s3, t3@), (s4, t4@), (s5, t5@), (s6, t6@), (s7, t7@)]),
    {
        let mut line: Vec<Span> = Vec::new();
        line.push(span(s1, t1));
        line.push(span(s2, t2));
        line.push(span(s3, t3));
        line.push(span(s4, t4));
        line.push(span(s5, t5));
        line.push(span(s6, t6));
        line.push(span(s7, t7));
        assert(line_view(line@) =~= seq![(s1, t1@), (s2, t2@), (s3, t3@), (s4, t4@), (s5, t5@), (s6, t6@), (s7, t7@)]);
        self.push_line(line);
    }

    pub fn line8(&mut self, s1: Style, t1: &str, s2: Style, t2: &str, s3: Style, t3: &str, s4: Style, t4: &str, s5: Style, t5: &str, s6: Style, t6: &str, s7: Style, t7: &str, s8: Style, t8: &str)
        ensures
            final(self)@ == old(self)@.push(seq![(s1, t1@), (s2, t2@), (s3, t3@), (s4, t4@), (s5, t5@), (s6, t6@), (s7, t7@), (s8, t8@)]),
    {
        let mut line: Vec<Span> = Vec::new();
        line.push(span(s1, t1));
        line.push(span(s2, t2));
        line.push(span(s3, t3));
        line.push(span(s4, t4));
        line.push(span(s5, t5));
        line.push(span(s6, t6));
        line.push(span(s7, t7));
        line.push(span(s8, t8));
        assert(line_view(line@) =~= seq![(s1, t1@), (s2, t2@), (s3, t3@), (s4, t4@), (s5, t5@), (s6, t6@), (s7, t7@), (s8, t8@)]);
        self.push_line(line);
    }
}

} // verus!
