use vstd::prelude::*;
use crate::color::{Color, first_index, palette_push, lemma_first_index_at};

verus! {

/// How palette entries are encoded.
#[derive(Clone, Copy, PartialEq, Eq, Structural, Debug)]
pub enum ColorEncoding {
    Rgba8888,
    Rgb565,
    RgbaF32,
    Custom,
}

/// How many bits each coordinate unit takes.
#[derive(Clone, Copy, PartialEq, Eq, Structural, Debug)]
pub enum CoordinateRange {
    /// Each unit takes up 16 bits.
    Default,
    /// Each unit takes up 8 bits.
    Reduced,
    /// Each unit takes up 32 bits.
    Enhanced,
}

/// One element of a path, in final coordinate space. Each coordinate is held as
/// the decimal text it is written with.
#[derive(Clone, PartialEq, Eq, Debug)]
pub enum Segment {
    MoveTo { x: String, y: String },
    LineTo { x: String, y: String },
    CurveTo { x1: String, y1: String, x2: String, y2: String, x: String, y: String },
    ClosePath,
}

/// How a shape is painted. Gradient end points are in final coordinate space,
/// held as decimal text; colors are palette indices.
#[derive(Clone, PartialEq, Eq, Debug)]
pub enum Style {
    Flat { color: u32 },
    LinearGradient { x1: String, y1: String, x2: String, y2: String, color1: u32, color2: u32 },
    RadialGradient { x1: String, y1: String, x2: String, y2: String, color1: u32, color2: u32 },
}

/// One drawing command over a path. The line width is held as decimal text.
#[derive(Clone, PartialEq, Eq, Debug)]
pub enum Command {
    DrawLinePath { stroke: Style, line_width: String, path: Vec<Segment> },
    FillPath { fill: Style, path: Vec<Segment> },
    OutlineFillPath { stroke: Style, fill: Style, line_width: String, path: Vec<Segment> },
}

/// The result of a conversion: canvas metadata, palette and commands.
#[derive(Debug)]
pub struct Document {
    pub width: u32,
    pub height: u32,
    pub scale: u32,
    pub color_encoding: ColorEncoding,
    pub coordinate_range: CoordinateRange,
    pub colors: Vec<Color>,
    pub commands: Vec<Command>,
}

impl Document {
    /// The palette holds each color at most once.
    pub open spec fn wf(&self) -> bool {
        self.colors@.no_duplicates()
    }

    /// An empty document for a canvas of the given size.
    pub fn new(width: u32, height: u32) -> (r: Document)
        ensures
            r.width == width,
            r.height == height,
            r.scale == 1,
            r.color_encoding == ColorEncoding::Rgba8888,
            r.coordinate_range == CoordinateRange::Default,
            r.colors@ == Seq::<Color>::empty(),
            r.commands@ == Seq::<Command>::empty(),
            r.wf(),
    {
        Document {
            width,
            height,
            scale: 1,
            color_encoding: ColorEncoding::Rgba8888,
            coordinate_range: CoordinateRange::Default,
            colors: Vec::new(),
            commands: Vec::new(),
        }
    }

    /// Registers `color` in the palette and returns its index: the index of an
    /// equal entry when there is one, else the index of the newly appended entry.
    pub fn push_color(&mut self, color: Color) -> (r: u32)
        requires
            old(self).colors.len() < u32::MAX,
        ensures
            r == first_index(old(self).colors@, color),
            final(self).colors@ == palette_push(old(self).colors@, color),
            (r as int) < final(self).colors.len(),
            final(self).colors@[r as int] == color,
            final(self).commands == old(self).commands,
            final(self).width == old(self).width,
            final(self).height == old(self).height,
            final(self).scale == old(self).scale,
            final(self).color_encoding == old(self).color_encoding,
            final(self).coordinate_range == old(self).coordinate_range,
            old(self).wf() ==> final(self).wf(),
    {
        let n = self.colors.len();
        let mut i: usize = 0;
        while i < n
            invariant
                n == self.colors.len(),
                self.colors.len() < u32::MAX,
                0 <= i <= n,
                forall|j: int| 0 <= j < i ==> self.colors@[j] != color,
            decreases n - i,
        {
            if self.colors[i] == color {
                proof {
                    lemma_first_index_at(self.colors@, color, i as int);
                }
                return i as u32;
            }
            i = i + 1;
        }
        proof {
            lemma_first_index_at(self.colors@, color, n as int);
        }
        self.colors.push(color);
        proof {
            assert forall|a: int, b: int|
                0 <= a < self.colors.len() && 0 <= b < self.colors.len() && a != b
                && old(self).wf() implies self.colors@[a] != self.colors@[b] by {}
        }
        n as u32
    }
}

} // verus!
