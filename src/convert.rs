use vstd::prelude::*;
use crate::color::Color;
use crate::document::{Command, Document, Segment, Style};
use crate::paint::{PaintSource, paint_palette, paint_style, convert_paint, stops_palette};

verus! {

/// The stroke of a path: its paint and its line width as decimal text.
#[derive(Clone, PartialEq, Eq, Debug)]
pub struct StrokeSource {
    pub paint: PaintSource,
    pub width: String,
}

/// A path of the scene with its geometry already in final coordinate space.
#[derive(Debug)]
pub struct PathInput {
    pub path: Vec<Segment>,
    /// Whether the transformed geometry has a bounding box at all.
    pub has_bbox: bool,
    /// Whether that bounding box has a non-zero width and height.
    pub bbox_has_area: bool,
    pub fill: Option<PaintSource>,
    pub stroke: Option<StrokeSource>,
}

impl PathInput {
    pub open spec fn wf(&self) -> bool {
        &&& (self.fill matches Some(f) ==> f.wf())
        &&& (self.stroke matches Some(s) ==> s.paint.wf())
    }
}

/// The command for a path whose fill resolved to `fill` and whose stroke resolved to
/// `stroke`, paired with its line width.
pub open spec fn classified(fill: Option<Style>, stroke: Option<(Style, String)>, path: Vec<Segment>) -> Option<
    Command,
> {
    match (fill, stroke) {
        (Some(fill), Some((stroke, line_width))) => Some(
            Command::OutlineFillPath { stroke, fill, line_width, path },
        ),
        (Some(fill), None) => Some(Command::FillPath { fill, path }),
        (None, Some((stroke, line_width))) => Some(
            Command::DrawLinePath { stroke, line_width, path },
        ),
        (None, None) => None,
    }
}

/// Picks the command for a path: an outlined fill when both paints resolved, the
/// matching single-paint command when one did, and none when neither did.
pub fn classify(fill: Option<Style>, stroke: Option<(Style, String)>, path: Vec<Segment>) -> (r:
    Option<Command>)
    ensures
        r == classified(fill, stroke, path),
        (fill is Some && stroke is Some) <==> (r matches Some(c) && c is OutlineFillPath),
        (fill is Some && stroke is None) <==> (r matches Some(c) && c is FillPath),
        (fill is None && stroke is Some) <==> (r matches Some(c) && c is DrawLinePath),
        (fill is None && stroke is None) <==> r is None,
{
    match (fill, stroke) {
        (Some(fill), Some((stroke, line_width))) => Some(
            Command::OutlineFillPath { stroke, fill, line_width, path },
        ),
        (Some(fill), None) => Some(Command::FillPath { fill, path }),
        (None, Some((stroke, line_width))) => Some(
            Command::DrawLinePath { stroke, line_width, path },
        ),
        (None, None) => None,
    }
}

/// The fill style of a path resolved against `colors`.
pub open spec fn fill_style(colors: Seq<Color>, p: PathInput) -> Option<Style> {
    match p.fill {
        Some(f) => paint_style(colors, f, p.bbox_has_area),
        None => None,
    }
}

/// The palette after resolving a path's fill.
pub open spec fn fill_palette(colors: Seq<Color>, p: PathInput) -> Seq<Color> {
    match p.fill {
        Some(f) => paint_palette(colors, f, p.bbox_has_area),
        None => colors,
    }
}

/// The stroke style of a path, resolved after its fill, with its line width.
pub open spec fn stroke_style(colors: Seq<Color>, p: PathInput) -> Option<(Style, String)> {
    match p.stroke {
        Some(s) => match paint_style(fill_palette(colors, p), s.paint, p.bbox_has_area) {
            Some(st) => Some((st, s.width)),
            None => None,
        },
        None => None,
    }
}

/// The palette after resolving a path's fill and then its stroke.
pub open spec fn path_palette(colors: Seq<Color>, p: PathInput) -> Seq<Color> {
    if !p.has_bbox {
        colors
    } else {
        match p.stroke {
            Some(s) => paint_palette(fill_palette(colors, p), s.paint, p.bbox_has_area),
            None => fill_palette(colors, p),
        }
    }
}

/// The command a path yields against `colors`, if any.
pub open spec fn path_command(colors: Seq<Color>, p: PathInput) -> Option<Command> {
    if !p.has_bbox {
        None
    } else {
        classified(fill_style(colors, p), stroke_style(colors, p), p.path)
    }
}

/// The palette and the commands after converting `ps` in order, from an empty document.
pub open spec fn converted(ps: Seq<PathInput>) -> (Seq<Color>, Seq<Command>)
    decreases ps.len(),
{
    if ps.len() == 0 {
        (Seq::empty(), Seq::empty())
    } else {
        let (colors, commands) = converted(ps.drop_last());
        let p = ps.last();
        (
            path_palette(colors, p),
            match path_command(colors, p) {
                Some(c) => commands.push(c),
                None => commands,
            },
        )
    }
}

/// A path with a bounding box yields an outlined fill when both its paints resolve,
/// the matching single-paint command when one does, and nothing when neither does.
pub proof fn lemma_classification(colors: Seq<Color>, p: PathInput)
    requires
        p.has_bbox,
    ensures
        (fill_style(colors, p) is Some && stroke_style(colors, p) is Some) <==> (path_command(
            colors,
            p,
        ) matches Some(c) && c is OutlineFillPath),
        (fill_style(colors, p) is Some && stroke_style(colors, p) is None) <==> (path_command(
            colors,
            p,
        ) matches Some(c) && c is FillPath),
        (fill_style(colors, p) is None && stroke_style(colors, p) is Some) <==> (path_command(
            colors,
            p,
        ) matches Some(c) && c is DrawLinePath),
        (fill_style(colors, p) is None && stroke_style(colors, p) is None) <==> path_command(
            colors,
            p,
        ) is None,
{
}

proof fn lemma_paint_palette_len(colors: Seq<Color>, p: PaintSource, a: bool)
    requires
        p.wf(),
    ensures
        paint_palette(colors, p, a).len() <= colors.len() + 2,
{
    if p is Gradient {
        let stops = p->stops@;
        assert(stops_palette(colors, stops).len() <= colors.len() + 2);
    }
}

/// Resolving one path adds at most four colors to the palette.
proof fn lemma_path_palette_len(colors: Seq<Color>, p: PathInput)
    requires
        p.wf(),
    ensures
        path_palette(colors, p).len() <= colors.len() + 4,
{
    if let Some(f) = p.fill {
        lemma_paint_palette_len(colors, f, p.bbox_has_area);
    }
    if let Some(s) = p.stroke {
        lemma_paint_palette_len(fill_palette(colors, p), s.paint, p.bbox_has_area);
    }
}

impl Document {
    /// Converts one path: resolves its fill, then its stroke, against its bounding
    /// box, and appends the command they give, if any. A path without a bounding box
    /// is skipped.
    pub fn add_path(&mut self, p: PathInput)
        requires
            p.wf(),
            old(self).colors.len() + 4 < u32::MAX,
        ensures
            final(self).colors@ == path_palette(old(self).colors@, p),
            final(self).commands@ == match path_command(old(self).colors@, p) {
                Some(c) => old(self).commands@.push(c),
                None => old(self).commands@,
            },
            final(self).width == old(self).width,
            final(self).height == old(self).height,
            final(self).scale == old(self).scale,
            final(self).color_encoding == old(self).color_encoding,
            final(self).coordinate_range == old(self).coordinate_range,
            old(self).wf() ==> final(self).wf(),
    {
        if !p.has_bbox {
            return;
        }
        let ghost colors0 = self.colors@;
        let ghost gp = p;
        let PathInput { path, has_bbox: _, bbox_has_area, fill, stroke } = p;
        let fill_style = match &fill {
            Some(f) => convert_paint(f, bbox_has_area, self),
            None => None,
        };
        proof {
            if let Some(f) = gp.fill {
                lemma_paint_palette_len(colors0, f, bbox_has_area);
            }
        }
        assert(self.colors@ == fill_palette(colors0, gp));
        let stroke_style = match stroke {
            Some(s) => match convert_paint(&s.paint, bbox_has_area, self) {
                Some(st) => Some((st, s.width)),
                None => None,
            },
            None => None,
        };
        if let Some(c) = classify(fill_style, stroke_style, path) {
            self.commands.push(c);
        }
    }
}

/// Converts the paths of a scene, in order, into a document for a canvas of the
/// given size. The commands keep the order of the paths that yield one.
pub fn build_document(width: u32, height: u32, paths: Vec<PathInput>) -> (r: Document)
    requires
        paths.len() * 4 + 4 < u32::MAX,
        forall|i: int| 0 <= i < paths.len() ==> (#[trigger] paths@[i]).wf(),
    ensures
        r.width == width,
        r.height == height,
        r.scale == 1,
        r.color_encoding == crate::document::ColorEncoding::Rgba8888,
        r.coordinate_range == crate::document::CoordinateRange::Default,
        (r.colors@, r.commands@) == converted(paths@),
        r.wf(),
{
    let mut doc = Document::new(width, height);
    let ghost all = paths@;
    let n = paths.len();
    let mut paths = paths;
    let mut k: usize = 0;
    while k < n
        invariant
            n == all.len(),
            n * 4 + 4 < u32::MAX,
            0 <= k <= n,
            paths@ == all.subrange(k as int, n as int),
            forall|i: int| 0 <= i < n ==> (#[trigger] all[i]).wf(),
            (doc.colors@, doc.commands@) == converted(all.take(k as int)),
            doc.colors.len() <= 4 * k,
            doc.width == width,
            doc.height == height,
            doc.scale == 1,
            doc.color_encoding == crate::document::ColorEncoding::Rgba8888,
            doc.coordinate_range == crate::document::CoordinateRange::Default,
            doc.wf(),
        decreases n - k,
    {
        let p = paths.remove(0);
        assert(p == all[k as int]);
        assert(all.take(k + 1).drop_last() =~= all.take(k as int));
        assert(all.take(k + 1).last() == all[k as int]);
        proof {
            lemma_path_palette_len(doc.colors@, p);
        }
        doc.add_path(p);
        k = k + 1;
        assert(paths@ =~= all.subrange(k as int, n as int));
    }
    assert(all.take(n as int) =~= all);
    doc
}

} // verus!
