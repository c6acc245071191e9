use carapace::scene::{plan_list, ListPlan};
use carapace::scene::{
    classify_hit, expand_origins, summary, topmost, Color, FillDir, FrameCenter, GradientKind,
    HAlign, HitKind, HitProbe, HotspotRole, NodeDigest, Origin, PaintDigest, TextContent, VAlign,
};

fn rgba(r: u8, g: u8, b: u8, a: u8) -> Color {
    Color { r, g, b, a }
}

#[test]
fn summary_is_stable_and_domain_neutral() {
    let nodes = vec![
        NodeDigest::Fill { paint: PaintDigest::Solid(rgba(10, 20, 30, 255)) },
        NodeDigest::Hotspot { on_press: 2 },
        NodeDigest::ValueFill {
            value_key: "level".to_string(),
            direction: FillDir::Right,
            color: rgba(1, 2, 3, 255),
        },
    ];
    let expected = "canvas 300x120\n\
                    fill rgba=10,20,30,255\n\
                    hotspot handler=2\n\
                    value_fill key=level dir=right rgba=1,2,3,255";
    assert_eq!(summary((300, 120), &nodes), expected);
}

#[test]
fn summary_includes_image_nodes() {
    let nodes = vec![NodeDigest::Image { width: 342, height: 394, x: 0, y: 0, w: 342, h: 394 }];
    assert_eq!(
        summary((342, 394), &nodes),
        "canvas 342x394\nimage 342x394 at 0,0 dest 342x394"
    );
}

#[test]
fn summary_describes_gradient_fills() {
    let nodes = vec![NodeDigest::Fill {
        paint: PaintDigest::Gradient { kind: GradientKind::Linear, stops: 2 },
    }];
    assert_eq!(summary((10, 10), &nodes), "canvas 10x10\nfill gradient=linear stops=2");
}

#[test]
fn summary_describes_text_nodes() {
    let nodes = vec![
        NodeDigest::Text {
            content: TextContent::Static("HI".to_string()),
            font_name: Some("vt323.ttf".to_string()),
            size: 18,
            halign: HAlign::Center,
            valign: VAlign::Top,
            paint: PaintDigest::Solid(rgba(1, 2, 3, 255)),
        },
        NodeDigest::Text {
            content: TextContent::Bound("track_title".to_string()),
            font_name: None,
            size: 12,
            halign: HAlign::Right,
            valign: VAlign::Middle,
            paint: PaintDigest::Gradient { kind: GradientKind::Linear, stops: 2 },
        },
    ];
    assert_eq!(
        summary((200, 50), &nodes),
        "canvas 200x50\n\
         text \"HI\" font=vt323.ttf size=18 halign=center valign=top rgba=1,2,3,255\n\
         text value=track_title font=system size=12 halign=right valign=middle gradient=linear stops=2"
    );
}

#[test]
fn views_accessor_and_summary() {
    let nodes = vec![NodeDigest::View { id: "display".to_string() }];
    assert_eq!(summary((300, 200), &nodes), "canvas 300x200\nview id=display");
}

#[test]
fn summary_describes_list_nodes() {
    let nodes = vec![NodeDigest::List { collection: "entries".to_string(), count: 3 }];
    assert_eq!(summary((200, 100), &nodes), "canvas 200x100\nlist collection=entries rows=3");
}

#[test]
fn summary_describes_scrub_nodes() {
    let nodes = vec![NodeDigest::Scrub {
        value_key: "position".to_string(),
        on_seek: "seek".to_string(),
    }];
    assert_eq!(summary((300, 100), &nodes), "canvas 300x100\nscrub value=position on_seek=seek");
}

#[test]
fn summary_describes_frames_and_negative_coordinates() {
    let nodes = vec![
        NodeDigest::Frame {
            width: 64,
            height: 48,
            left: 12,
            right: 12,
            top: 28,
            bottom: 12,
            center: FrameCenter::Hollow,
        },
        NodeDigest::Image { width: 2, height: 2, x: -5, y: -1, w: 0, h: 10 },
        NodeDigest::ValueFill {
            value_key: "cpu".to_string(),
            direction: FillDir::Up,
            color: rgba(0, 255, 9, 128),
        },
        NodeDigest::Fill {
            paint: PaintDigest::Gradient { kind: GradientKind::Sweep, stops: 12 },
        },
    ];
    assert_eq!(
        summary((0, 4294967295), &nodes),
        "canvas 0x4294967295\n\
         frame 64x48 slice 12,12,28,12 center=hollow\n\
         image 2x2 at -5,-1 dest 0x10\n\
         value_fill key=cpu dir=up rgba=0,255,9,128\n\
         fill gradient=sweep stops=12"
    );
}

#[test]
fn summary_prints_extreme_sizes() {
    let nodes = vec![NodeDigest::Text {
        content: TextContent::Static(String::new()),
        font_name: None,
        size: i64::MIN,
        halign: HAlign::Left,
        valign: VAlign::Bottom,
        paint: PaintDigest::Gradient { kind: GradientKind::Radial, stops: 0 },
    }];
    assert_eq!(
        summary((1, 1), &nodes),
        "canvas 1x1\ntext \"\" font=system size=-9223372036854775808 halign=left valign=bottom gradient=radial stops=0"
    );
}

#[test]
fn empty_scene_summary_is_just_the_canvas() {
    assert_eq!(summary((7, 9), &vec![]), "canvas 7x9");
}

#[test]
fn topmost_overlapping_hotspot_wins() {
    // Two hotspots over the same square: both contain the point, the later one wins.
    assert_eq!(topmost(&vec![true, true]), Some(1));
    assert_eq!(topmost(&vec![true, false]), Some(0));
    assert_eq!(topmost(&vec![false, false]), None);
    assert_eq!(topmost(&vec![]), None);
}

#[test]
fn hit_any_prefers_topmost_list_over_background_hotspot() {
    // A background hotspot and a list drawn over it: inside the list the list wins, below it the
    // hotspot is the only taker.
    assert_eq!(topmost(&vec![true, true]), Some(1));
    assert_eq!(topmost(&vec![true, false]), Some(0));
}

#[test]
fn hit_kind_classifies_drag_control_and_passthrough() {
    // Drag hotspot over the left half, opaque fill over the right half.
    assert_eq!(
        classify_hit(&vec![HitProbe::Hotspot(HotspotRole::Drag), HitProbe::Miss], true),
        HitKind::Drag
    );
    assert_eq!(classify_hit(&vec![HitProbe::Miss, HitProbe::Miss], true), HitKind::Control);
    assert_eq!(classify_hit(&vec![HitProbe::Miss, HitProbe::Miss], false), HitKind::Passthrough);
}

#[test]
fn hit_kind_classifies_passthrough_role_hotspot() {
    assert_eq!(
        classify_hit(&vec![HitProbe::Hotspot(HotspotRole::Passthrough)], true),
        HitKind::Passthrough
    );
}

#[test]
fn hit_kind_classifies_list_row_as_control() {
    assert_eq!(classify_hit(&vec![HitProbe::Widget], false), HitKind::Control);
}

#[test]
fn hit_kind_classifies_scrub_as_control() {
    assert_eq!(classify_hit(&vec![HitProbe::Widget], true), HitKind::Control);
}

#[test]
fn topmost_probe_decides_over_lower_ones() {
    let probes = vec![
        HitProbe::Hotspot(HotspotRole::Drag),
        HitProbe::Widget,
        HitProbe::Hotspot(HotspotRole::Control),
        HitProbe::Miss,
    ];
    assert_eq!(classify_hit(&probes, false), HitKind::Control);
}

#[test]
fn list_expansion_marks_generated_rows_as_call_none() {
    let list = Origin { line: Some(1), call: Some(0) };
    let out = expand_origins(&vec![list], &vec![2]);
    assert_eq!(out.len(), 3);
    assert_eq!(out[0], list);
    assert!(out[1..].iter().all(|o| o.call.is_none()));
    assert!(out[1..].iter().all(|o| o.line == Some(1)));
}

#[test]
fn expansion_keeps_design_origins_in_order() {
    let a = Origin { line: Some(1), call: Some(0) };
    let b = Origin { line: Some(2), call: Some(1) };
    let c = Origin { line: None, call: Some(2) };
    let out = expand_origins(&vec![a, b, c], &vec![0, 1, 0]);
    assert_eq!(out, vec![a, b, Origin { line: Some(2), call: None }, c]);
}

#[test]
fn summary_prints_shader_nodes_by_placement_and_uniform_count() {
    let nodes = vec![NodeDigest::Shader { x: 10, y: -4, w: 120, h: 80, uniforms: 2 }];
    assert_eq!(summary((200, 100), &nodes), "canvas 200x100\nshader at 10,-4 dest 120x80 uniforms=2");
}

#[test]
fn list_plan_shows_rows_that_fit_and_highlights_only_shown_rows() {
    assert_eq!(plan_list(5, 3, 2, Some(1)), ListPlan { count: 3, highlight: Some(1), generated: 7 });
    assert_eq!(plan_list(2, 4, 1, Some(3)), ListPlan { count: 2, highlight: None, generated: 2 });
    assert_eq!(plan_list(2, 4, 3, None), ListPlan { count: 2, highlight: None, generated: 6 });
    assert_eq!(plan_list(0, 4, 3, Some(0)), ListPlan { count: 0, highlight: None, generated: 0 });
}

#[test]
fn summary_splits_into_canvas_line_and_one_line_per_node() {
    let nodes = vec![
        NodeDigest::Hotspot { on_press: 3 },
        NodeDigest::View { id: "paper".to_string() },
        NodeDigest::Fill { paint: PaintDigest::Solid(rgba(1, 2, 3, 4)) },
        NodeDigest::Scrub { value_key: "pos".to_string(), on_seek: "seek".to_string() },
    ];
    let s = summary((10, 20), &nodes);
    let lines: Vec<&str> = s.split('\n').collect();
    assert_eq!(lines.len(), nodes.len() + 1);
    assert_eq!(
        lines,
        vec!["canvas 10x20", "hotspot handler=3", "view id=paper", "fill rgba=1,2,3,4", "scrub value=pos on_seek=seek"]
    );
    for (i, n) in nodes.iter().enumerate() {
        let alone = summary((10, 20), &vec![n.clone()]);
        assert_eq!(alone.split('\n').nth(1), Some(lines[i + 1]));
    }
}
