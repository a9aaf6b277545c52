//! The difference between a file as it was and as it would be, line by line,
//! laid out for the user to read.

use vstd::prelude::*;
use vstd::string::StringExecFns;
use similar::{ChangeTag, TextDiff};
use crate::dialog::{pad_right, padded_right};
use crate::text::{decimal_digits, natural_text};

verus! {

/// What became of a line.
#[derive(Clone, Copy, Debug, PartialEq, Eq, Structural)]
pub enum LineTag {
    Delete,
    Insert,
    Equal,
}

/// A line of a difference.
#[derive(Debug)]
pub struct DiffLine {
    pub tag: LineTag,
    /// The place of the line in the old text, counted from 0.
    pub old_index: Option<usize>,
    /// The place of the line in the new text, counted from 0.
    pub new_index: Option<usize>,
    /// The line in pieces, each with a mark that says whether the piece is
    /// what changed within the line.
    pub pieces: Vec<(bool, String)>,
    /// The line does not end in a line feed.
    pub missing_newline: bool,
}

/// How a piece of a difference is set off.
#[derive(Clone, Copy, Debug, PartialEq, Eq, Structural)]
pub enum DiffStyle {
    Plain,
    /// A line number.
    Dim,
    /// The sign of a line of the kind.
    Sign(LineTag),
    /// Text of a line of the kind.
    Text(LineTag),
    /// Text of a line of the kind that changed within the line.
    Emphasized(LineTag),
}

/// A piece of a difference laid out.
#[derive(Debug)]
pub struct DiffSpan {
    pub text: String,
    pub style: DiffStyle,
}

/// What a piece says, and how.
pub type DiffSpanView = (Seq<char>, DiffStyle);

/// What a [`DiffLine`] stands for in contracts.
pub struct DiffLineView {
    pub tag: LineTag,
    pub old_index: Option<usize>,
    pub new_index: Option<usize>,
    pub pieces: Seq<(bool, Seq<char>)>,
    pub missing_newline: bool,
}

impl View for DiffLine {
    type V = DiffLineView;

    open spec fn view(&self) -> DiffLineView {
        DiffLineView {
            tag: self.tag,
            old_index: self.old_index,
            new_index: self.new_index,
            pieces: Seq::new(
                self.pieces@.len(),
                |i: int| (self.pieces@[i].0, self.pieces@[i].1@),
            ),
            missing_newline: self.missing_newline,
        }
    }
}

/// What each of `lines` stands for.
pub open spec fn lines_of(lines: Seq<DiffLine>) -> Seq<DiffLineView> {
    Seq::new(lines.len(), |i: int| lines[i]@)
}

/// What each line of each group stands for.
pub open spec fn groups_of(groups: Seq<Vec<DiffLine>>) -> Seq<Seq<DiffLineView>> {
    Seq::new(groups.len(), |i: int| lines_of(groups[i]@))
}

/// What each of `spans` says, and how.
pub open spec fn spans_of(spans: Seq<DiffSpan>) -> Seq<DiffSpanView> {
    Seq::new(spans.len(), |i: int| (spans[i].text@, spans[i].style))
}

/// The sign before a line.
pub open spec fn sign_of(tag: LineTag) -> Seq<char> {
    match tag {
        LineTag::Delete => "-"@,
        LineTag::Insert => "+"@,
        LineTag::Equal => "|"@,
    }
}

/// The column of a line number: the number, counted from 1, with spaces
/// behind it up to four characters; four spaces for a line that has none.
pub open spec fn number_column(index: Option<usize>) -> Seq<char> {
    match index {
        Some(i) => padded_right(decimal_digits((i + 1) as nat), 4),
        None => "    "@,
    }
}

/// The pieces of a line, each in the style of its kind.
pub open spec fn rendered_pieces(tag: LineTag, pieces: Seq<(bool, Seq<char>)>) -> Seq<
    DiffSpanView,
> {
    Seq::new(
        pieces.len(),
        |i: int|
            (
                pieces[i].1,
                if pieces[i].0 {
                    DiffStyle::Emphasized(tag)
                } else {
                    DiffStyle::Text(tag)
                },
            ),
    )
}

/// What ends a line that has no line feed of its own.
pub open spec fn line_end(missing_newline: bool) -> Seq<DiffSpanView> {
    if missing_newline {
        seq![("\n"@, DiffStyle::Plain)]
    } else {
        Seq::empty()
    }
}

/// A line laid out: its number in the old text and in the new, its sign, and
/// its text.
pub open spec fn rendered_line(line: DiffLineView) -> Seq<DiffSpanView> {
    seq![
        (number_column(line.old_index), DiffStyle::Dim),
        (number_column(line.new_index), DiffStyle::Dim),
        (" "@, DiffStyle::Plain),
        (sign_of(line.tag), DiffStyle::Sign(line.tag)),
        (" "@, DiffStyle::Plain),
    ] + rendered_pieces(line.tag, line.pieces) + line_end(line.missing_newline)
}

/// Lines laid out, one after the other.
pub open spec fn rendered_lines(lines: Seq<DiffLineView>) -> Seq<DiffSpanView>
    decreases lines.len(),
{
    if lines.len() == 0 {
        Seq::empty()
    } else {
        rendered_lines(lines.drop_last()) + rendered_line(lines.last())
    }
}

/// What stands between two groups of lines: 80 dashes.
pub open spec fn rule() -> Seq<char> {
    Seq::new(80, |i: int| '-')
}

/// Groups of lines laid out, with a rule between each two.
pub open spec fn rendered_groups(groups: Seq<Seq<DiffLineView>>) -> Seq<DiffSpanView>
    decreases groups.len(),
{
    if groups.len() == 0 {
        Seq::empty()
    } else if groups.len() == 1 {
        rendered_lines(groups[0])
    } else {
        rendered_groups(groups.drop_last()) + seq![(rule(), DiffStyle::Plain)] + rendered_lines(
            groups.last(),
        )
    }
}

fn span(text: String, style: DiffStyle) -> (r: DiffSpan)
    ensures
        r.text@ == text@,
        r.style == style,
{
    DiffSpan { text, style }
}

/// The column of a line number.
fn number_text(index: Option<usize>) -> (r: String)
    ensures
        r@ == number_column(index),
{
    match index {
        Some(i) => {
            let number = natural_text(i as u128 + 1);
            pad_right(number.as_str(), 4)
        },
        None => String::from_str("    "),
    }
}

/// The sign before a line.
fn sign_text(tag: LineTag) -> (r: &'static str)
    ensures
        r@ == sign_of(tag),
{
    match tag {
        LineTag::Delete => "-",
        LineTag::Insert => "+",
        LineTag::Equal => "|",
    }
}

/// 80 dashes.
fn rule_text() -> (r: String)
    ensures
        r@ == rule(),
{
    let mut out = String::new();
    let mut i: usize = 0;
    assert(out@ =~= Seq::new(0, |k: int| '-'));
    while i < 80
        invariant
            i <= 80,
            out@ == Seq::new(i as nat, |k: int| '-'),
        decreases 80 - i,
    {
        proof {
            reveal_strlit("-");
            assert(Seq::new(i as nat, |k: int| '-') + "-"@ =~= Seq::new(
                (i + 1) as nat,
                |k: int| '-',
            ));
        }
        out.append("-");
        i += 1;
    }
    out
}

/// Lays out a line behind what `out` holds.
fn render_line(out: &mut Vec<DiffSpan>, line: &DiffLine)
    ensures
        spans_of(final(out)@) == spans_of(old(out)@) + rendered_line(line@),
{
    let ghost start = spans_of(out@);
    let tag = line.tag;
    out.push(span(number_text(line.old_index), DiffStyle::Dim));
    out.push(span(number_text(line.new_index), DiffStyle::Dim));
    out.push(span(String::from_str(" "), DiffStyle::Plain));
    out.push(span(String::from_str(sign_text(tag)), DiffStyle::Sign(tag)));
    out.push(span(String::from_str(" "), DiffStyle::Plain));
    let ghost head = seq![
        (number_column(line.old_index), DiffStyle::Dim),
        (number_column(line.new_index), DiffStyle::Dim),
        (" "@, DiffStyle::Plain),
        (sign_of(tag), DiffStyle::Sign(tag)),
        (" "@, DiffStyle::Plain),
    ];
    assert(spans_of(out@) =~= start + head);
    let ghost pieces = line@.pieces;
    let mut i: usize = 0;
    assert(rendered_pieces(tag, pieces.take(0)) =~= Seq::empty());
    assert(start + head + rendered_pieces(tag, pieces.take(0)) =~= start + head);
    while i < line.pieces.len()
        invariant
            i <= line.pieces.len(),
            tag == line.tag,
            pieces == line@.pieces,
            pieces.len() == line.pieces@.len(),
            spans_of(out@) == start + head + rendered_pieces(tag, pieces.take(i as int)),
        decreases line.pieces.len() - i,
    {
        let style = if line.pieces[i].0 {
            DiffStyle::Emphasized(tag)
        } else {
            DiffStyle::Text(tag)
        };
        let ghost before = spans_of(out@);
        out.push(span(line.pieces[i].1.clone(), style));
        proof {
            assert(pieces[i as int] == (line.pieces@[i as int].0, line.pieces@[i as int].1@));
            assert(rendered_pieces(tag, pieces.take(i + 1)) =~= rendered_pieces(
                tag,
                pieces.take(i as int),
            ).push((pieces[i as int].1, style)));
            assert(spans_of(out@) =~= before.push((pieces[i as int].1, style)));
            assert(spans_of(out@) =~= start + head + rendered_pieces(tag, pieces.take(i + 1)));
        }
        i += 1;
    }
    assert(pieces.take(pieces.len() as int) =~= pieces);
    let ghost body = spans_of(out@);
    if line.missing_newline {
        out.push(span(String::from_str("\n"), DiffStyle::Plain));
    }
    assert(spans_of(out@) =~= body + line_end(line.missing_newline));
    assert(spans_of(out@) =~= start + rendered_line(line@));
}

/// Lays out lines behind what `out` holds.
fn render_lines(out: &mut Vec<DiffSpan>, lines: &Vec<DiffLine>)
    ensures
        spans_of(final(out)@) == spans_of(old(out)@) + rendered_lines(lines_of(lines@)),
{
    let ghost start = spans_of(out@);
    let ghost all = lines_of(lines@);
    let mut i: usize = 0;
    assert(start + rendered_lines(all.take(0)) =~= start);
    while i < lines.len()
        invariant
            i <= lines.len(),
            all == lines_of(lines@),
            spans_of(out@) == start + rendered_lines(all.take(i as int)),
        decreases lines.len() - i,
    {
        proof {
            assert(all.take(i + 1).drop_last() =~= all.take(i as int));
            assert(all.take(i + 1).last() == lines@[i as int]@);
            assert(start + rendered_lines(all.take(i + 1)) =~= start + rendered_lines(
                all.take(i as int),
            ) + rendered_line(lines@[i as int]@));
        }
        render_line(out, &lines[i]);
        i += 1;
    }
    assert(all.take(lines@.len() as int) =~= all);
}

/// Lays out the groups of lines of a difference: each line with its numbers
/// and its sign, and a rule between each two groups.
pub fn render_groups(groups: &Vec<Vec<DiffLine>>) -> (r: Vec<DiffSpan>)
    ensures
        spans_of(r@) == rendered_groups(groups_of(groups@)),
{
    let mut out: Vec<DiffSpan> = Vec::new();
    let ghost all = groups_of(groups@);
    assert(spans_of(out@) =~= rendered_groups(all.take(0)));
    let mut i: usize = 0;
    while i < groups.len()
        invariant
            i <= groups.len(),
            all == groups_of(groups@),
            spans_of(out@) == rendered_groups(all.take(i as int)),
        decreases groups.len() - i,
    {
        let ghost before = spans_of(out@);
        proof {
            assert(all.take(i + 1).drop_last() =~= all.take(i as int));
            assert(all.take(i + 1).last() == lines_of(groups@[i as int]@));
            assert(all.take(i + 1)[0] == all[0]);
        }
        if i > 0 {
            out.push(span(rule_text(), DiffStyle::Plain));
            assert(spans_of(out@) =~= before + seq![(rule(), DiffStyle::Plain)]);
        } else {
            assert(before =~= Seq::empty());
        }
        let ghost ruled = spans_of(out@);
        render_lines(&mut out, &groups[i]);
        proof {
            if i == 0 {
                assert(ruled + rendered_lines(lines_of(groups@[0]@)) =~= rendered_lines(
                    lines_of(groups@[0]@),
                ));
            }
        }
        i += 1;
    }
    assert(all.take(groups@.len() as int) =~= all);
    out
}

/// `TextDiff::from_lines`, `TextDiff::grouped_ops` with three lines of context
/// and `TextDiff::iter_inline_changes`: the changed lines of two texts with
/// the lines around them, group by group. How a line is cut into pieces
/// depends on how far the search for what changed within it gets in half a
/// second, so nothing is claimed of the result.
#[verifier::external_body]
fn inline_changes(before: &str, after: &str) -> (r: Vec<Vec<DiffLine>>) {
    let diff = TextDiff::from_lines(before, after);
    let groups = diff.grouped_ops(3);
    let changes = groups.iter().map(|group| group.iter().flat_map(|op| diff.iter_inline_changes(op)));
    changes.map(|group| group.map(|change| DiffLine {
        tag: match change.tag() {
            ChangeTag::Delete => LineTag::Delete,
            ChangeTag::Insert => LineTag::Insert,
            ChangeTag::Equal => LineTag::Equal,
        },
        old_index: change.old_index(),
        new_index: change.new_index(),
        pieces: change.iter_strings_lossy().map(|(e, s)| (e, s.into_owned())).collect(),
        missing_newline: change.missing_newline(),
    }).collect()).collect()
}

/// The difference between two texts, laid out: the lines that changed, with
/// three lines around them, as [`render_groups`] lays them out.
pub fn render_diff(before: &str, after: &str) -> (r: Vec<DiffSpan>)
    ensures
        exists|groups: Seq<Seq<DiffLineView>>| spans_of(r@) == #[trigger] rendered_groups(groups),
{
    let groups = inline_changes(before, after);
    render_groups(&groups)
}

} // verus!
