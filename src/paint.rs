use vstd::prelude::*;
use crate::color::{
    Color, first_index, palette_push, premultiply, multiply_a8, lemma_first_index_bounds,
};
use crate::document::{Document, Style};

verus! {

/// One color stop of a gradient; its offset plays no part in the conversion.
#[derive(Clone, Copy, PartialEq, Eq, Structural, Debug)]
pub struct Stop {
    pub color: Color,
    /// The stop's opacity on a 0-255 scale.
    pub opacity: u8,
}

#[derive(Clone, Copy, PartialEq, Eq, Structural, Debug)]
pub enum GradientKind {
    Linear,
    Radial,
}

/// The coordinate system a gradient is declared in.
#[derive(Clone, Copy, PartialEq, Eq, Structural, Debug)]
pub enum Units {
    /// Relative to the unit square of the painted shape's bounding box.
    ObjectBoundingBox,
    /// Absolute user space.
    UserSpaceOnUse,
}

/// The frame that maps gradient coordinates into final space.
#[derive(Clone, Copy, PartialEq, Eq, Structural, Debug)]
pub enum GradientFrame {
    /// The shape's bounding box, then the gradient's own transform.
    BoundingBox,
    /// The gradient's own transform alone.
    UserSpace,
}

/// A paint as the scene declares it, resolved against the definitions.
#[derive(Clone, PartialEq, Eq, Debug)]
pub enum PaintSource {
    /// A flat color.
    Color(Color),
    /// A linear or radial gradient. For a linear one the points are its two ends; for a
    /// radial one its center and the point one radius below the center. Both are mapped
    /// through the gradient's frame into final space and held as decimal text.
    Gradient {
        kind: GradientKind,
        units: Units,
        x1: String,
        y1: String,
        x2: String,
        y2: String,
        stops: Vec<Stop>,
    },
    /// A reference to a definition that is missing or is no gradient.
    Unresolved,
}

impl PaintSource {
    /// A gradient has at least one stop.
    pub open spec fn wf(&self) -> bool {
        self is Gradient ==> self->stops@.len() >= 1
    }
}

/// The frame in which a gradient is placed on a shape, or none when the gradient is
/// relative to a bounding box that has no area.
pub open spec fn frame_of(units: Units, bbox_has_area: bool) -> Option<GradientFrame> {
    match units {
        Units::ObjectBoundingBox => if bbox_has_area {
            Some(GradientFrame::BoundingBox)
        } else {
            None
        },
        Units::UserSpaceOnUse => Some(GradientFrame::UserSpace),
    }
}

/// Picks the frame that places a gradient on a shape; a gradient relative to a
/// bounding box without area cannot be placed.
pub fn gradient_frame(units: Units, bbox_has_area: bool) -> (r: Option<GradientFrame>)
    ensures
        r == frame_of(units, bbox_has_area),
{
    match units {
        Units::ObjectBoundingBox => if bbox_has_area {
            Some(GradientFrame::BoundingBox)
        } else {
            None
        },
        Units::UserSpaceOnUse => Some(GradientFrame::UserSpace),
    }
}

/// The color of a stop with its alpha premultiplied by the stop's opacity.
pub open spec fn stop_color(s: Stop) -> Color {
    Color { alpha: premultiply(s.color.alpha, s.opacity), ..s.color }
}

/// The palette after registering the first and then the last stop's color.
pub open spec fn stops_palette(colors: Seq<Color>, stops: Seq<Stop>) -> Seq<Color> {
    palette_push(palette_push(colors, stop_color(stops[0])), stop_color(stops.last()))
}

/// Registers the colors of the first and the last stop, in that order, and returns
/// their palette indices. Stops in between and every offset are ignored.
pub fn convert_gradient_colors(stops: &Vec<Stop>, doc: &mut Document) -> (r: (u32, u32))
    requires
        stops@.len() >= 1,
        old(doc).colors.len() + 2 < u32::MAX,
    ensures
        r.0 == first_index(old(doc).colors@, stop_color(stops@[0])),
        r.1 == first_index(
            palette_push(old(doc).colors@, stop_color(stops@[0])),
            stop_color(stops@.last()),
        ),
        final(doc).colors@ == stops_palette(old(doc).colors@, stops@),
        final(doc).commands == old(doc).commands,
        final(doc).width == old(doc).width,
        final(doc).height == old(doc).height,
        final(doc).scale == old(doc).scale,
        final(doc).color_encoding == old(doc).color_encoding,
        final(doc).coordinate_range == old(doc).coordinate_range,
        old(doc).wf() ==> final(doc).wf(),
{
    let mut stop1 = stops[0];
    let mut stop2 = stops[stops.len() - 1];
    stop1.color.alpha = multiply_a8(stop1.color.alpha, stop1.opacity);
    stop2.color.alpha = multiply_a8(stop2.color.alpha, stop2.opacity);
    let c1 = doc.push_color(stop1.color);
    let c2 = doc.push_color(stop2.color);
    (c1, c2)
}

/// The style a paint resolves to against `colors`, if any.
pub open spec fn paint_style(colors: Seq<Color>, p: PaintSource, bbox_has_area: bool) -> Option<
    Style,
> {
    match p {
        PaintSource::Color(c) => Some(Style::Flat { color: first_index(colors, c) as u32 }),
        PaintSource::Gradient { kind, units, x1, y1, x2, y2, stops } => {
            if frame_of(units, bbox_has_area) is None {
                None
            } else {
                let color1 = first_index(colors, stop_color(stops@[0])) as u32;
                let color2 = first_index(
                    palette_push(colors, stop_color(stops@[0])),
                    stop_color(stops@.last()),
                ) as u32;
                match kind {
                    GradientKind::Linear => Some(
                        Style::LinearGradient { x1, y1, x2, y2, color1, color2 },
                    ),
                    GradientKind::Radial => Some(
                        Style::RadialGradient { x1, y1, x2, y2, color1, color2 },
                    ),
                }
            }
        },
        PaintSource::Unresolved => None,
    }
}

/// The palette after resolving a paint against `colors`.
pub open spec fn paint_palette(colors: Seq<Color>, p: PaintSource, bbox_has_area: bool) -> Seq<
    Color,
> {
    match p {
        PaintSource::Color(c) => palette_push(colors, c),
        PaintSource::Gradient { units, stops, .. } => {
            if frame_of(units, bbox_has_area) is None {
                colors
            } else {
                stops_palette(colors, stops@)
            }
        },
        PaintSource::Unresolved => colors,
    }
}

/// Resolves a paint into a style on a shape whose bounding box has area or not,
/// registering the colors it uses.
pub fn convert_paint(paint: &PaintSource, bbox_has_area: bool, doc: &mut Document) -> (r:
    Option<Style>)
    requires
        paint.wf(),
        old(doc).colors.len() + 2 < u32::MAX,
    ensures
        r == paint_style(old(doc).colors@, *paint, bbox_has_area),
        final(doc).colors@ == paint_palette(old(doc).colors@, *paint, bbox_has_area),
        final(doc).commands == old(doc).commands,
        final(doc).width == old(doc).width,
        final(doc).height == old(doc).height,
        final(doc).scale == old(doc).scale,
        final(doc).color_encoding == old(doc).color_encoding,
        final(doc).coordinate_range == old(doc).coordinate_range,
        old(doc).wf() ==> final(doc).wf(),
{
    match paint {
        PaintSource::Color(c) => Some(Style::Flat { color: doc.push_color(*c) }),
        PaintSource::Gradient { kind, units, x1, y1, x2, y2, stops } => {
            if gradient_frame(*units, bbox_has_area).is_none() {
                return None;
            }
            let (color1, color2) = convert_gradient_colors(stops, doc);
            match kind {
                GradientKind::Linear => Some(
                    Style::LinearGradient {
                        x1: x1.clone(),
                        y1: y1.clone(),
                        x2: x2.clone(),
                        y2: y2.clone(),
                        color1,
                        color2,
                    },
                ),
                GradientKind::Radial => Some(
                    Style::RadialGradient {
                        x1: x1.clone(),
                        y1: y1.clone(),
                        x2: x2.clone(),
                        y2: y2.clone(),
                        color1,
                        color2,
                    },
                ),
            }
        },
        PaintSource::Unresolved => None,
    }
}

/// A gradient gives the palette no color but its first and last stop's, and its style
/// refers to exactly those two.
pub proof fn lemma_two_stop_reduction(colors: Seq<Color>, stops: Seq<Stop>)
    requires
        stops.len() >= 1,
    ensures
        forall|c: Color| #[trigger]
            stops_palette(colors, stops).contains(c) ==> colors.contains(c) || c == stop_color(
                stops[0],
            ) || c == stop_color(stops.last()),
        stops_palette(colors, stops)[first_index(colors, stop_color(stops[0])) as int]
            == stop_color(stops[0]),
        stops_palette(colors, stops)[first_index(
            palette_push(colors, stop_color(stops[0])),
            stop_color(stops.last()),
        ) as int] == stop_color(stops.last()),
{
    let f = stop_color(stops[0]);
    let l = stop_color(stops.last());
    let first_added = palette_push(colors, f);
    lemma_first_index_bounds(colors, f);
    lemma_first_index_bounds(first_added, l);
    assert forall|c: Color| #[trigger]
        stops_palette(colors, stops).contains(c) implies colors.contains(c) || c == f || c == l by {
        let p = stops_palette(colors, stops);
        let k = choose|k: int| 0 <= k < p.len() && p[k] == c;
        if k < colors.len() {
            assert(colors[k] == c);
        }
    }
}

/// A gradient relative to a bounding box without area yields no style and leaves
/// the palette as it was.
pub proof fn lemma_zero_area_gradient(colors: Seq<Color>, p: PaintSource)
    requires
        p is Gradient,
        p->units == Units::ObjectBoundingBox,
    ensures
        paint_style(colors, p, false) is None,
        paint_palette(colors, p, false) == colors,
{
}

} // verus!
