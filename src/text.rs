use vstd::prelude::*;
use crate::color::Color;
use crate::document::{Command, Document, Segment, Style};

verus! {

/// The text of one decimal digit.
pub open spec fn digit_text(d: nat) -> Seq<char> {
    if d == 0 { "0"@ }
    else if d == 1 { "1"@ }
    else if d == 2 { "2"@ }
    else if d == 3 { "3"@ }
    else if d == 4 { "4"@ }
    else if d == 5 { "5"@ }
    else if d == 6 { "6"@ }
    else if d == 7 { "7"@ }
    else if d == 8 { "8"@ }
    else { "9"@ }
}

/// The decimal text of `n`, without leading zeros.
pub open spec fn decimal(n: nat) -> Seq<char>
    decreases n,
{
    if n < 10 {
        digit_text(n)
    } else {
        decimal(n / 10) + digit_text(n % 10)
    }
}

/// A channel value `c / 255` rounded to thousandths, as a count of thousandths.
pub open spec fn channel_thousandths(c: u8) -> nat {
    ((2000 * c + 255) / 510) as nat
}

/// A channel value `c / 255` written with exactly three decimals.
pub open spec fn channel_text(c: u8) -> Seq<char> {
    let t = channel_thousandths(c);
    decimal(t / 1000) + "."@ + digit_text(t / 100 % 10) + digit_text(t / 10 % 10)
        + digit_text(t % 10)
}

/// The palette line of one color.
pub open spec fn color_line(c: Color) -> Seq<char> {
    "    ("@ + channel_text(c.red) + " "@ + channel_text(c.green) + " "@ + channel_text(c.blue)
        + " "@ + channel_text(c.alpha) + ")\n"@
}

pub open spec fn colors_text(cs: Seq<Color>) -> Seq<char>
    decreases cs.len(),
{
    if cs.len() == 0 {
        Seq::empty()
    } else {
        colors_text(cs.drop_last()) + color_line(cs.last())
    }
}

/// The line of a style.
pub open spec fn style_text(s: Style) -> Seq<char> {
    match s {
        Style::Flat { color } => "      (flat "@ + decimal(color as nat) + ")\n"@,
        Style::LinearGradient { x1, y1, x2, y2, color1, color2 } => "      (linear ("@ + x1@ + " "@
            + y1@ + ") ("@ + x2@ + " "@ + y2@ + ") "@ + decimal(color1 as nat) + " "@ + decimal(
            color2 as nat,
        ) + ")\n"@,
        Style::RadialGradient { x1, y1, x2, y2, color1, color2 } => "      (radial ("@ + x1@ + " "@
            + y1@ + ") ("@ + x2@ + " "@ + y2@ + ") "@ + decimal(color1 as nat) + " "@ + decimal(
            color2 as nat,
        ) + ")\n"@,
    }
}

/// Whether `segs` starts a subpath anywhere.
pub open spec fn has_move(segs: Seq<Segment>) -> bool {
    exists|i: int| 0 <= i < segs.len() && segs[i] is MoveTo
}

/// The lines of one segment; `open` tells whether a segment block is open before it.
pub open spec fn segment_text(s: Segment, open: bool) -> Seq<char> {
    match s {
        Segment::MoveTo { x, y } => (if open { "        )\n"@ } else { Seq::empty() })
            + "        ("@ + x@ + " "@ + y@ + ")\n"@ + "        (\n"@,
        Segment::LineTo { x, y } => "          (line - "@ + x@ + " "@ + y@ + ")\n"@,
        Segment::CurveTo { x1, y1, x2, y2, x, y } => "          (bezier - ("@ + x1@ + " "@ + y1@
            + ") ("@ + x2@ + " "@ + y2@ + ") ("@ + x@ + " "@ + y@ + "))\n"@,
        Segment::ClosePath => "          (close -)\n"@,
    }
}

pub open spec fn segments_text(segs: Seq<Segment>) -> Seq<char>
    decreases segs.len(),
{
    if segs.len() == 0 {
        Seq::empty()
    } else {
        segments_text(segs.drop_last()) + segment_text(segs.last(), has_move(segs.drop_last()))
    }
}

/// The block of a path: each `MoveTo` closes the open segment block and opens a
/// new one, and a block still open at the end is closed.
pub open spec fn path_text(segs: Seq<Segment>) -> Seq<char> {
    "      (\n"@ + segments_text(segs) + (if has_move(segs) { "        )\n"@ } else { Seq::empty() })
        + "      )\n"@
}

/// The text of a line width.
pub open spec fn width_line(w: Seq<char>) -> Seq<char> {
    "      "@ + w + "\n"@
}

/// The block of one command; an outlined fill lists its fill style before its stroke style.
pub open spec fn command_text(c: Command) -> Seq<char> {
    "    (\n"@ + match c {
        Command::DrawLinePath { stroke, line_width, path } => "      draw_line_path\n"@ + style_text(
            stroke,
        ) + width_line(line_width@) + path_text(path@),
        Command::FillPath { fill, path } => "      fill_path\n"@ + style_text(fill) + path_text(
            path@,
        ),
        Command::OutlineFillPath { stroke, fill, line_width, path } => "      outline_fill_path\n"@
            + style_text(fill) + style_text(stroke) + width_line(line_width@) + path_text(path@),
    } + "    )\n"@
}

pub open spec fn commands_text(cs: Seq<Command>) -> Seq<char>
    decreases cs.len(),
{
    if cs.len() == 0 {
        Seq::empty()
    } else {
        commands_text(cs.drop_last()) + command_text(cs.last())
    }
}

/// The whole text of a document.
pub open spec fn document_text(d: Document) -> Seq<char> {
    "(tvg 1\n"@ + "  ("@ + decimal(d.width as nat) + " "@ + decimal(d.height as nat)
        + " 1/1 u8888 default)\n"@ + "  (\n"@ + colors_text(d.colors@) + "  )\n"@ + "  (\n"@
        + commands_text(d.commands@) + "  )\n"@ + ")\n"@
}

fn digit_str(d: u64) -> (r: &'static str)
    requires
        d < 10,
    ensures
        r@ == digit_text(d as nat),
{
    if d == 0 { "0" }
    else if d == 1 { "1" }
    else if d == 2 { "2" }
    else if d == 3 { "3" }
    else if d == 4 { "4" }
    else if d == 5 { "5" }
    else if d == 6 { "6" }
    else if d == 7 { "7" }
    else if d == 8 { "8" }
    else { "9" }
}

/// Appends the decimal text of `n`.
pub fn write_decimal(buf: &mut String, n: u64)
    ensures
        final(buf)@ == old(buf)@ + decimal(n as nat),
    decreases n,
{
    if n >= 10 {
        write_decimal(buf, n / 10);
    }
    buf.append(digit_str(n % 10));
    assert(buf@ =~= old(buf)@ + decimal(n as nat));
}

fn write_channel(buf: &mut String, c: u8)
    ensures
        final(buf)@ == old(buf)@ + channel_text(c),
{
    let t: u64 = (2000 * (c as u64) + 255) / 510;
    assert(t == channel_thousandths(c));
    assert(t <= 1000) by (nonlinear_arith)
        requires
            t == (2000 * c + 255) / 510,
            c <= 255,
    ;
    write_decimal(buf, t / 1000);
    buf.append(".");
    buf.append(digit_str(t / 100 % 10));
    buf.append(digit_str(t / 10 % 10));
    buf.append(digit_str(t % 10));
    assert(buf@ =~= old(buf)@ + channel_text(c));
}

fn write_color_line(buf: &mut String, c: Color)
    ensures
        final(buf)@ == old(buf)@ + color_line(c),
{
    buf.append("    (");
    write_channel(buf, c.red);
    buf.append(" ");
    write_channel(buf, c.green);
    buf.append(" ");
    write_channel(buf, c.blue);
    buf.append(" ");
    write_channel(buf, c.alpha);
    buf.append(")\n");
    assert(buf@ =~= old(buf)@ + color_line(c));
}

fn write_style(buf: &mut String, style: &Style)
    ensures
        final(buf)@ == old(buf)@ + style_text(*style),
{
    match style {
        Style::Flat { color } => {
            buf.append("      (flat ");
            write_decimal(buf, *color as u64);
            buf.append(")\n");
        },
        Style::LinearGradient { x1, y1, x2, y2, color1, color2 } => {
            buf.append("      (linear (");
            write_point(buf, x1, y1);
            buf.append(") (");
            write_point(buf, x2, y2);
            buf.append(") ");
            write_decimal(buf, *color1 as u64);
            buf.append(" ");
            write_decimal(buf, *color2 as u64);
            buf.append(")\n");
        },
        Style::RadialGradient { x1, y1, x2, y2, color1, color2 } => {
            buf.append("      (radial (");
            write_point(buf, x1, y1);
            buf.append(") (");
            write_point(buf, x2, y2);
            buf.append(") ");
            write_decimal(buf, *color1 as u64);
            buf.append(" ");
            write_decimal(buf, *color2 as u64);
            buf.append(")\n");
        },
    }
    assert(buf@ =~= old(buf)@ + style_text(*style));
}

/// Appends `x y`.
fn write_point(buf: &mut String, x: &String, y: &String)
    ensures
        final(buf)@ == old(buf)@ + x@ + " "@ + y@,
{
    buf.append(x.as_str());
    buf.append(" ");
    buf.append(y.as_str());
}

fn write_segment(buf: &mut String, seg: &Segment, open: bool)
    ensures
        final(buf)@ == old(buf)@ + segment_text(*seg, open),
{
    match seg {
        Segment::MoveTo { x, y } => {
            if open {
                buf.append("        )\n");
            }
            buf.append("        (");
            write_point(buf, x, y);
            buf.append(")\n");
            buf.append("        (\n");
        },
        Segment::LineTo { x, y } => {
            buf.append("          (line - ");
            write_point(buf, x, y);
            buf.append(")\n");
        },
        Segment::CurveTo { x1, y1, x2, y2, x, y } => {
            buf.append("          (bezier - (");
            write_point(buf, x1, y1);
            buf.append(") (");
            write_point(buf, x2, y2);
            buf.append(") (");
            write_point(buf, x, y);
            buf.append("))\n");
        },
        Segment::ClosePath => {
            buf.append("          (close -)\n");
        },
    }
    assert(buf@ =~= old(buf)@ + segment_text(*seg, open));
}

proof fn lemma_has_move_step(segs: Seq<Segment>, i: int)
    requires
        0 <= i < segs.len(),
    ensures
        has_move(segs.take(i + 1)) == (has_move(segs.take(i)) || segs[i] is MoveTo),
        segs.take(i + 1).drop_last() == segs.take(i),
        segs.take(i + 1).last() == segs[i],
{
    assert(segs.take(i + 1).drop_last() =~= segs.take(i));
    if has_move(segs.take(i)) {
        let k = choose|k: int| 0 <= k < i && (#[trigger] segs.take(i)[k]) is MoveTo;
        assert(segs.take(i + 1)[k] is MoveTo);
    }
    if has_move(segs.take(i + 1)) && !(segs[i] is MoveTo) {
        let k = choose|k: int| 0 <= k < i + 1 && (#[trigger] segs.take(i + 1)[k]) is MoveTo;
        assert(segs.take(i)[k] is MoveTo);
    }
}

fn write_path(buf: &mut String, path: &Vec<Segment>)
    ensures
        final(buf)@ == old(buf)@ + path_text(path@),
{
    buf.append("      (\n");
    let ghost start = buf@;
    let mut is_open = false;
    let mut i: usize = 0;
    while i < path.len()
        invariant
            0 <= i <= path.len(),
            buf@ == start + segments_text(path@.take(i as int)),
            is_open == has_move(path@.take(i as int)),
        decreases path.len() - i,
    {
        proof {
            lemma_has_move_step(path@, i as int);
        }
        write_segment(buf, &path[i], is_open);
        if let Segment::MoveTo { .. } = &path[i] {
            is_open = true;
        }
        i = i + 1;
        assert(buf@ =~= start + segments_text(path@.take(i as int)));
    }
    assert(path@.take(i as int) =~= path@);
    if is_open {
        buf.append("        )\n");
    }
    buf.append("      )\n");
    assert(buf@ =~= old(buf)@ + path_text(path@));
}

fn write_command(buf: &mut String, command: &Command)
    ensures
        final(buf)@ == old(buf)@ + command_text(*command),
{
    buf.append("    (\n");
    match command {
        Command::DrawLinePath { stroke, line_width, path } => {
            buf.append("      draw_line_path\n");
            write_style(buf, stroke);
            buf.append("      ");
            buf.append(line_width.as_str());
            buf.append("\n");
            write_path(buf, path);
        },
        Command::FillPath { fill, path } => {
            buf.append("      fill_path\n");
            write_style(buf, fill);
            write_path(buf, path);
        },
        Command::OutlineFillPath { stroke, fill, line_width, path } => {
            buf.append("      outline_fill_path\n");
            write_style(buf, fill);
            write_style(buf, stroke);
            buf.append("      ");
            buf.append(line_width.as_str());
            buf.append("\n");
            write_path(buf, path);
        },
    }
    buf.append("    )\n");
    assert(buf@ =~= old(buf)@ + command_text(*command));
}

impl Document {
    /// Renders the document in the textual TinyVG format.
    pub fn to_tvgt(&self) -> (r: String)
        ensures
            r@ == document_text(*self),
    {
        let mut buf = String::new();
        buf.append("(tvg 1\n");
        buf.append("  (");
        write_decimal(&mut buf, self.width as u64);
        buf.append(" ");
        write_decimal(&mut buf, self.height as u64);
        buf.append(" 1/1 u8888 default)\n");
        buf.append("  (\n");
        let ghost before_colors = buf@;
        let mut i: usize = 0;
        while i < self.colors.len()
            invariant
                0 <= i <= self.colors.len(),
                buf@ == before_colors + colors_text(self.colors@.take(i as int)),
            decreases self.colors.len() - i,
        {
            write_color_line(&mut buf, self.colors[i]);
            proof {
                assert(self.colors@.take(i + 1).drop_last() =~= self.colors@.take(i as int));
            }
            i = i + 1;
            assert(buf@ =~= before_colors + colors_text(self.colors@.take(i as int)));
        }
        assert(self.colors@.take(i as int) =~= self.colors@);
        buf.append("  )\n");
        buf.append("  (\n");
        let ghost before_commands = buf@;
        let mut k: usize = 0;
        while k < self.commands.len()
            invariant
                0 <= k <= self.commands.len(),
                buf@ == before_commands + commands_text(self.commands@.take(k as int)),
            decreases self.commands.len() - k,
        {
            write_command(&mut buf, &self.commands[k]);
            proof {
                assert(self.commands@.take(k + 1).drop_last() =~= self.commands@.take(k as int));
            }
            k = k + 1;
            assert(buf@ =~= before_commands + commands_text(self.commands@.take(k as int)));
        }
        assert(self.commands@.take(k as int) =~= self.commands@);
        buf.append("  )\n");
        buf.append(")\n");
        assert(buf@ =~= document_text(*self));
        buf
    }
}

} // verus!
