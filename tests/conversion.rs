use svg2tvgt::color::{multiply_a8, Color};
use svg2tvgt::convert::{build_document, classify, PathInput, StrokeSource};
use svg2tvgt::document::{Command, Document, Segment, Style};
use svg2tvgt::paint::{
    convert_gradient_colors, convert_paint, gradient_frame, GradientFrame, GradientKind,
    PaintSource, Stop, Units,
};
use svg2tvgt::scene::{scene_paths, SceneNode};

fn s(t: &str) -> String {
    t.to_string()
}

fn rgba(red: u8, green: u8, blue: u8, alpha: u8) -> Color {
    Color { red, green, blue, alpha }
}

fn square() -> Vec<Segment> {
    vec![
        Segment::MoveTo { x: s("0"), y: s("0") },
        Segment::LineTo { x: s("100"), y: s("0") },
        Segment::LineTo { x: s("100"), y: s("100") },
        Segment::LineTo { x: s("0"), y: s("100") },
        Segment::ClosePath,
    ]
}

fn flat_path(fill: Option<PaintSource>, stroke: Option<PaintSource>) -> PathInput {
    PathInput {
        path: square(),
        has_bbox: true,
        bbox_has_area: true,
        fill,
        stroke: stroke.map(|paint| StrokeSource { paint, width: s("2") }),
    }
}

fn gradient(kind: GradientKind, units: Units, stops: Vec<Stop>) -> PaintSource {
    PaintSource::Gradient {
        kind,
        units,
        x1: s("0"),
        y1: s("0"),
        x2: s("100"),
        y2: s("0"),
        stops,
    }
}

#[test]
fn premultiply_fixed_points() {
    assert_eq!(multiply_a8(255, 128), 128);
    for x in 0..=255u8 {
        assert_eq!(multiply_a8(0, x), 0);
        assert_eq!(multiply_a8(x, 255), x);
    }
    assert_eq!(multiply_a8(200, 100), 78);
    assert_eq!(multiply_a8(255, 0), 0);
}

#[test]
fn push_color_dedups() {
    let mut doc = Document::new(1, 1);
    let red = rgba(255, 0, 0, 255);
    let green = rgba(0, 255, 0, 255);
    let blue = rgba(0, 0, 255, 128);
    assert_eq!(doc.push_color(red), 0);
    assert_eq!(doc.push_color(green), 1);
    assert_eq!(doc.push_color(red), 0);
    assert_eq!(doc.push_color(blue), 2);
    assert_eq!(doc.push_color(green), 1);
    assert_eq!(doc.colors, vec![red, green, blue]);
}

#[test]
fn distinct_colors_get_consecutive_indices() {
    let mut doc = Document::new(1, 1);
    for i in 0..20u8 {
        assert_eq!(doc.push_color(rgba(i, i, i, 255)), i as u32);
    }
    assert_eq!(doc.colors.len(), 20);
}

#[test]
fn flat_rectangle_round_trip() {
    let red = rgba(255, 0, 0, 255);
    let doc = build_document(100, 100, vec![flat_path(Some(PaintSource::Color(red)), None)]);
    assert_eq!(doc.width, 100);
    assert_eq!(doc.height, 100);
    assert_eq!(doc.scale, 1);
    assert_eq!(doc.colors, vec![red]);
    assert_eq!(doc.commands.len(), 1);
    match &doc.commands[0] {
        Command::FillPath { fill, path } => {
            assert_eq!(*fill, Style::Flat { color: 0 });
            assert_eq!(*path, square());
        }
        other => panic!("unexpected command {:?}", other),
    }
    let text = doc.to_tvgt();
    assert!(text.contains("fill_path"));
    assert!(text.contains("(flat 0)"));
    assert!(text.contains("(1.000 0.000 0.000 1.000)"));
    let expected = "(tvg 1
  (100 100 1/1 u8888 default)
  (
    (1.000 0.000 0.000 1.000)
  )
  (
    (
      fill_path
      (flat 0)
      (
        (0 0)
        (
          (line - 100 0)
          (line - 100 100)
          (line - 0 100)
          (close -)
        )
      )
    )
  )
)
";
    assert_eq!(text, expected);
}

#[test]
fn empty_document_text() {
    let doc = Document::new(0, 4096);
    assert_eq!(doc.to_tvgt(), "(tvg 1\n  (0 4096 1/1 u8888 default)\n  (\n  )\n  (\n  )\n)\n");
}

#[test]
fn channel_values_have_three_decimals() {
    let mut doc = Document::new(7, 9);
    doc.push_color(rgba(128, 1, 254, 0));
    let text = doc.to_tvgt();
    assert!(text.contains("    (0.502 0.004 0.996 0.000)\n"));
}

#[test]
fn outline_fill_with_gradient_and_subpaths() {
    let mut doc = Document::new(10, 20);
    doc.commands.push(Command::OutlineFillPath {
        stroke: Style::Flat { color: 1 },
        fill: Style::RadialGradient {
            x1: s("1.5"),
            y1: s("2"),
            x2: s("1.5"),
            y2: s("7"),
            color1: 0,
            color2: 1,
        },
        line_width: s("0.5"),
        path: vec![
            Segment::MoveTo { x: s("1"), y: s("1") },
            Segment::CurveTo { x1: s("2"), y1: s("2"), x2: s("3"), y2: s("3"), x: s("4"), y: s("4") },
            Segment::MoveTo { x: s("5"), y: s("5") },
            Segment::LineTo { x: s("6"), y: s("6") },
        ],
    });
    doc.commands.push(Command::DrawLinePath {
        stroke: Style::LinearGradient {
            x1: s("0"),
            y1: s("0"),
            x2: s("10"),
            y2: s("0"),
            color1: 12,
            color2: 3,
        },
        line_width: s("3"),
        path: vec![],
    });
    let expected = "(tvg 1
  (10 20 1/1 u8888 default)
  (
  )
  (
    (
      outline_fill_path
      (radial (1.5 2) (1.5 7) 0 1)
      (flat 1)
      0.5
      (
        (1 1)
        (
          (bezier - (2 2) (3 3) (4 4))
        )
        (5 5)
        (
          (line - 6 6)
        )
      )
    )
    (
      draw_line_path
      (linear (0 0) (10 0) 12 3)
      3
      (
      )
    )
  )
)
";
    assert_eq!(doc.to_tvgt(), expected);
}

#[test]
fn four_stop_gradient_keeps_first_and_last() {
    let stops = vec![
        Stop { color: rgba(255, 0, 0, 255), opacity: 255 },
        Stop { color: rgba(0, 255, 0, 255), opacity: 255 },
        Stop { color: rgba(0, 0, 255, 255), opacity: 255 },
        Stop { color: rgba(10, 20, 30, 255), opacity: 128 },
    ];
    let mut doc = Document::new(1, 1);
    let (c1, c2) = convert_gradient_colors(&stops, &mut doc);
    assert_eq!((c1, c2), (0, 1));
    assert_eq!(doc.colors, vec![rgba(255, 0, 0, 255), rgba(10, 20, 30, 128)]);

    let mut doc = Document::new(1, 1);
    let style = convert_paint(&gradient(GradientKind::Linear, Units::UserSpaceOnUse, stops), true, &mut doc);
    assert_eq!(
        style,
        Some(Style::LinearGradient {
            x1: s("0"),
            y1: s("0"),
            x2: s("100"),
            y2: s("0"),
            color1: 0,
            color2: 1
        })
    );
    assert_eq!(doc.colors.len(), 2);
}

#[test]
fn single_stop_gradient_reuses_its_color() {
    let stops = vec![Stop { color: rgba(9, 8, 7, 200), opacity: 255 }];
    let mut doc = Document::new(1, 1);
    assert_eq!(convert_gradient_colors(&stops, &mut doc), (0, 0));
    assert_eq!(doc.colors, vec![rgba(9, 8, 7, 200)]);
}

#[test]
fn zero_area_gradient_gives_no_style() {
    assert_eq!(gradient_frame(Units::ObjectBoundingBox, false), None);
    assert_eq!(gradient_frame(Units::ObjectBoundingBox, true), Some(GradientFrame::BoundingBox));
    assert_eq!(gradient_frame(Units::UserSpaceOnUse, false), Some(GradientFrame::UserSpace));

    let stops = vec![Stop { color: rgba(1, 2, 3, 255), opacity: 255 }];
    let mut path = flat_path(Some(gradient(GradientKind::Radial, Units::ObjectBoundingBox, stops.clone())), None);
    path.bbox_has_area = false;
    let doc = build_document(5, 5, vec![path]);
    assert!(doc.commands.is_empty());
    assert!(doc.colors.is_empty());

    let mut path = flat_path(
        Some(gradient(GradientKind::Radial, Units::ObjectBoundingBox, stops)),
        Some(PaintSource::Color(rgba(4, 5, 6, 255))),
    );
    path.bbox_has_area = false;
    let doc = build_document(5, 5, vec![path]);
    assert_eq!(doc.colors, vec![rgba(4, 5, 6, 255)]);
    assert!(matches!(doc.commands[0], Command::DrawLinePath { .. }));
}

#[test]
fn classification_of_paints() {
    let red = PaintSource::Color(rgba(255, 0, 0, 255));
    let blue = PaintSource::Color(rgba(0, 0, 255, 255));
    let doc = build_document(
        1,
        1,
        vec![
            flat_path(Some(red.clone()), Some(blue.clone())),
            flat_path(Some(red.clone()), Some(PaintSource::Unresolved)),
            flat_path(Some(PaintSource::Unresolved), Some(blue.clone())),
            flat_path(Some(PaintSource::Unresolved), Some(PaintSource::Unresolved)),
            flat_path(None, None),
        ],
    );
    assert_eq!(doc.commands.len(), 3);
    match &doc.commands[0] {
        Command::OutlineFillPath { stroke, fill, line_width, .. } => {
            assert_eq!(*fill, Style::Flat { color: 0 });
            assert_eq!(*stroke, Style::Flat { color: 1 });
            assert_eq!(line_width, "2");
        }
        other => panic!("unexpected command {:?}", other),
    }
    assert!(matches!(doc.commands[1], Command::FillPath { .. }));
    assert!(matches!(doc.commands[2], Command::DrawLinePath { .. }));
    assert_eq!(classify(None, None, square()), None);
    assert!(matches!(
        classify(Some(Style::Flat { color: 3 }), None, vec![]),
        Some(Command::FillPath { .. })
    ));
}

#[test]
fn path_without_bbox_is_skipped() {
    let mut path = flat_path(Some(PaintSource::Color(rgba(1, 1, 1, 1))), None);
    path.has_bbox = false;
    let doc = build_document(3, 3, vec![path]);
    assert!(doc.commands.is_empty());
    assert!(doc.colors.is_empty());
}

#[test]
fn walk_is_depth_first_with_group_chains() {
    let tree = vec![
        SceneNode::Path { id: 1 },
        SceneNode::Group {
            id: 2,
            children: vec![
                SceneNode::Path { id: 3 },
                SceneNode::Group { id: 4, children: vec![SceneNode::Path { id: 5 }] },
                SceneNode::Other,
                SceneNode::Path { id: 6 },
            ],
        },
        SceneNode::Other,
        SceneNode::Path { id: 7 },
    ];
    let visits = scene_paths(&tree);
    let got: Vec<(usize, Vec<usize>)> = visits.into_iter().map(|v| (v.path, v.groups)).collect();
    assert_eq!(
        got,
        vec![(1, vec![]), (3, vec![2]), (5, vec![2, 4]), (6, vec![2]), (7, vec![])]
    );
}
