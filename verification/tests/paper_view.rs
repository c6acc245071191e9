use carapace::paper_view::{
    blocks_from_globals, entry_point_name, fill_block, next_free_group, plan_bind_groups,
    shift_groups, try_shift_groups, uniform_blocks, write_lanes, UniformBlock,
};
use carapace::shader::{FrontEndError, ShaderGlobal};

#[test]
fn shift_groups_bumps_every_group_and_keeps_bindings() {
    let src = "@group(0) @binding(0) var<uniform> a: A;\n@group(2) @binding(1) var<uniform> b: B;";
    assert_eq!(
        shift_groups(src, 1),
        "@group(1) @binding(0) var<uniform> a: A;\n@group(3) @binding(1) var<uniform> b: B;"
    );
}

#[test]
fn shift_groups_with_zero_offset_is_identity() {
    let src = "@group( 7 ) @binding(0) var<uniform> a: A;";
    assert_eq!(shift_groups(src, 0), src);
}

#[test]
fn shift_groups_trims_and_normalizes_the_number() {
    assert_eq!(shift_groups("@group( 007 )", 3), "@group(10)");
    assert_eq!(shift_groups("@group(+4)", 1), "@group(5)");
}

#[test]
fn shift_groups_reads_unparsable_numbers_as_zero() {
    assert_eq!(shift_groups("@group(x) y", 2), "@group(2) y");
    // No closing parenthesis: the number is empty (zero) and nothing is consumed.
    assert_eq!(shift_groups("@group(5", 1), "@group(15");
}

#[test]
fn shift_groups_without_groups_is_unchanged() {
    assert_eq!(shift_groups("fn main() {}", 9), "fn main() {}");
}

#[test]
fn try_shift_groups_refuses_overflow() {
    assert_eq!(try_shift_groups("@group(4294967295)", 1), None);
    assert_eq!(
        try_shift_groups("@group(4294967294)", 1),
        Some("@group(4294967295)".to_string())
    );
}

#[test]
fn entry_point_name_reads_the_identifier() {
    let wgsl = "@vertex fn main_1(@location(0) p: vec4<f32>) -> @builtin(position) vec4<f32> {}";
    assert_eq!(entry_point_name(wgsl, "@vertex"), Some("main_1".to_string()));
    assert_eq!(entry_point_name(wgsl, "@fragment"), None);
}

#[test]
fn entry_point_name_skips_to_the_first_fn_after_the_attribute() {
    let wgsl = "fn helper() {}\n@fragment\nfn fs_main() {}";
    assert_eq!(entry_point_name(wgsl, "@fragment"), Some("fs_main".to_string()));
    assert_eq!(entry_point_name("@vertex fn (", "@vertex"), None);
    assert_eq!(entry_point_name("@vertex", "@vertex"), None);
}

#[test]
fn next_free_group_is_one_past_the_highest() {
    assert_eq!(next_free_group(&vec![]), 0);
    assert_eq!(next_free_group(&vec![0]), 1);
    assert_eq!(next_free_group(&vec![2, 0, 1]), 3);
}

#[test]
fn write_lanes_places_lanes_and_skips_overflow() {
    let mut data = vec![0u8; 10];
    write_lanes(&mut data, 2, &vec![[1, 2, 3, 4], [5, 6, 7, 8]]);
    // Lane 0 at bytes 2..6; lane 1 would need bytes 6..10: fits exactly.
    assert_eq!(data, vec![0, 0, 1, 2, 3, 4, 5, 6, 7, 8]);
    let mut short = vec![9u8; 7];
    write_lanes(&mut short, 0, &vec![[1, 1, 1, 1], [2, 2, 2, 2]]);
    assert_eq!(short, vec![1, 1, 1, 1, 9, 9, 9]);
}

#[test]
fn relocated_fragment_groups_sit_above_every_vertex_group() {
    let vertex_groups = vec![0u32, 1];
    let offset = next_free_group(&vertex_groups);
    let frag = "@group(0) @binding(0) var<uniform> a: A;\n@group( 1 ) @binding(2) var<uniform> b: B;";
    let moved = try_shift_groups(frag, offset).unwrap();
    assert_eq!(
        moved,
        "@group(2) @binding(0) var<uniform> a: A;\n@group(3) @binding(2) var<uniform> b: B;"
    );
    for g in [2u32, 3] {
        assert!(vertex_groups.iter().all(|v| *v < g));
    }
}

#[test]
fn bind_group_plan_orders_groups_and_keeps_block_order() {
    let plan = plan_bind_groups(&vec![1, 0, 1, 3]);
    assert_eq!(plan, vec![(0, vec![1]), (1, vec![0, 2]), (3, vec![3])]);
    assert_eq!(plan_bind_groups(&vec![]), vec![]);
}

#[test]
fn uniform_blocks_reads_bound_uniforms_with_layout_offsets() {
    let src = "struct U { u_time: f32, u_resolution: vec2<f32>, u_colors: array<vec4<f32>, 2> };\n\
               @group(0) @binding(0) var<uniform> u: U;\n\
               @group(1) @binding(2) var<uniform> u_scale: f32;\n\
               var<private> p: f32;\n";
    let blocks = uniform_blocks(src).unwrap();
    assert_eq!(blocks.len(), 2);
    assert_eq!((blocks[0].group, blocks[0].binding, blocks[0].size), (0, 0, 48));
    assert_eq!(
        blocks[0].members,
        vec![("u_time".to_string(), 0), ("u_resolution".to_string(), 8), ("u_colors".to_string(), 16)]
    );
    assert_eq!((blocks[1].group, blocks[1].binding, blocks[1].size), (1, 2, 4));
    assert_eq!(blocks[1].members, vec![("u_scale".to_string(), 0)]);
}

#[test]
fn uniform_blocks_reports_a_parse_failure() {
    let err = uniform_blocks("this is not wgsl {{{").unwrap_err();
    assert!(err.starts_with("wgsl parse: ParseError"), "{err}");
    assert!(err.len() > "wgsl parse: ".len());
}

#[test]
fn blocks_from_globals_keeps_bound_uniforms_in_order() {
    let globals = vec![
        ShaderGlobal(Some("a".into()), true, Some((0, 1)), 16, Some(vec![(Some("x".into()), 0), (None, 4)])),
        ShaderGlobal(Some("unbound".into()), true, None, 4, None),
        ShaderGlobal(Some("storage".into()), false, Some((0, 2)), 4, None),
        ShaderGlobal(None, true, Some((3, 0)), 4, None),
    ];
    let blocks = blocks_from_globals(Ok(globals)).unwrap();
    assert_eq!(blocks.len(), 2);
    assert_eq!((blocks[0].group, blocks[0].binding, blocks[0].size), (0, 1, 16));
    assert_eq!(blocks[0].members, vec![("x".to_string(), 0), (String::new(), 4)]);
    assert_eq!((blocks[1].group, blocks[1].binding, blocks[1].size), (3, 0, 4));
    assert_eq!(blocks[1].members, vec![(String::new(), 0)]);
}

#[test]
fn blocks_from_globals_prefixes_front_end_errors() {
    let e = blocks_from_globals(Err(FrontEndError::Parse("bad token".into(), "ParseError { bad token }".into()))).unwrap_err();
    assert_eq!(e, "wgsl parse: ParseError { bad token }");
    let e = blocks_from_globals(Err(FrontEndError::Layout("too large".into()))).unwrap_err();
    assert_eq!(e, "layout: too large");
}

#[test]
fn fill_block_writes_member_lanes_and_finds_time() {
    let block = UniformBlock {
        group: 0,
        binding: 0,
        size: 12,
        members: vec![
            ("u_time".to_string(), 0),
            ("u_resolution".to_string(), 4),
            ("u_unknown".to_string(), 8),
        ],
    };
    let lanes = vec![
        ("u_resolution".to_string(), vec![[5, 6, 7, 8], [9, 10, 11, 12], [13, 14, 15, 16]]),
        ("u_time".to_string(), vec![[1, 2, 3, 4]]),
        ("u_time".to_string(), vec![[99, 99, 99, 99]]),
    ];
    let (data, time) = fill_block(&block, &lanes);
    assert_eq!(data, vec![1, 2, 3, 4, 5, 6, 7, 8, 9, 10, 11, 12]);
    assert_eq!(time, Some(0));
}

#[test]
fn fill_block_without_time_member_or_lanes_is_zeroed() {
    let block = UniformBlock { group: 1, binding: 0, size: 8, members: vec![("u_scale".to_string(), 4)] };
    let (data, time) = fill_block(&block, &vec![]);
    assert_eq!(data, vec![0; 8]);
    assert_eq!(time, None);
}

#[test]
fn write_lanes_past_the_end_changes_nothing() {
    let mut data = vec![7u8; 4];
    write_lanes(&mut data, 9, &vec![[1, 1, 1, 1]]);
    assert_eq!(data, vec![7u8; 4]);
}
