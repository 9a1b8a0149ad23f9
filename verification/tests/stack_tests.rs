use sprite_stack::stack::{
    build_stack, facing_rotation_deg, parse_tile_ref, render_passes, texture_name, StackConfig,
    StackDirection, TILE_ROTATION_DEG, WALL_SIZE, WALL_SLICES,
};

#[test]
fn legend_value_without_suffix_faces_south() {
    let r = parse_tile_ref("wall");
    assert_eq!(r.base, "wall");
    assert_eq!(r.facing, StackDirection::South);
}

#[test]
fn legend_value_with_north_suffix() {
    let r = parse_tile_ref("wall.N");
    assert_eq!(r.base, "wall");
    assert_eq!(r.facing, StackDirection::North);
}

#[test]
fn legend_value_with_east_and_west_suffixes() {
    assert_eq!(parse_tile_ref("crate.E").facing, StackDirection::East);
    assert_eq!(parse_tile_ref("crate.W").facing, StackDirection::West);
    assert_eq!(parse_tile_ref("crate.E").base, "crate");
}

#[test]
fn unknown_suffix_falls_back_to_south() {
    let r = parse_tile_ref("wall.Q");
    assert_eq!(r.base, "wall");
    assert_eq!(r.facing, StackDirection::South);
}

#[test]
fn long_or_empty_suffix_falls_back_to_south() {
    assert_eq!(parse_tile_ref("wall.NE").facing, StackDirection::South);
    assert_eq!(parse_tile_ref("wall.").facing, StackDirection::South);
    assert_eq!(parse_tile_ref("").facing, StackDirection::South);
    assert_eq!(parse_tile_ref("").base, "");
}

#[test]
fn texture_is_base_name_plus_suffix() {
    assert_eq!(texture_name("wall"), "wall.png");
    assert_eq!(texture_name(""), ".png");
}

#[test]
fn facing_rotations() {
    assert_eq!(facing_rotation_deg(StackDirection::South), 0);
    assert_eq!(facing_rotation_deg(StackDirection::East), 90);
    assert_eq!(facing_rotation_deg(StackDirection::West), -90);
    assert_eq!(facing_rotation_deg(StackDirection::North), 180);
}

#[test]
fn stack_has_n_slices_without_smoothing() {
    let cfg = StackConfig { slice_count: 5, smoothing: false };
    let d = build_stack("wall", StackDirection::South, &cfg);
    assert_eq!(d.slices.len(), 5);
    for (i, s) in d.slices.iter().enumerate() {
        assert_eq!(s.atlas_index as usize, i);
        assert_eq!(s.draw_order as usize, i);
        assert_eq!(s.offset_half_layers as usize, 2 * i);
        assert_eq!(s.rotation_deg, TILE_ROTATION_DEG);
    }
}

#[test]
fn stack_has_2n_slices_with_smoothing() {
    let cfg = StackConfig { slice_count: 4, smoothing: true };
    let d = build_stack("wall", StackDirection::South, &cfg);
    assert_eq!(d.slices.len(), 8);
    for layer in 0..4usize {
        let full = &d.slices[2 * layer];
        let half = &d.slices[2 * layer + 1];
        assert_eq!(full.atlas_index as usize, layer);
        assert_eq!(half.atlas_index as usize, layer);
        assert_eq!(full.offset_half_layers, 2 * layer as i64);
        assert_eq!(half.offset_half_layers, 2 * layer as i64 - 1);
        assert_eq!(full.draw_order as usize, layer);
        assert_eq!(half.draw_order as usize, layer);
    }
}

#[test]
fn draw_order_keys_stay_in_range_and_never_decrease() {
    let cfg = StackConfig::standard();
    let d = build_stack("wall", StackDirection::East, &cfg);
    let mut prev = 0u32;
    for s in d.slices.iter() {
        assert!(s.draw_order < cfg.slice_count);
        assert!(s.draw_order >= prev);
        prev = s.draw_order;
    }
}

#[test]
fn south_keeps_base_tilt_and_north_adds_half_turn() {
    let cfg = StackConfig::standard();
    let south = build_stack("wall", StackDirection::South, &cfg);
    let north = build_stack("wall", StackDirection::North, &cfg);
    for s in south.slices.iter() {
        assert_eq!(s.rotation_deg, TILE_ROTATION_DEG);
    }
    for s in north.slices.iter() {
        assert_eq!(s.rotation_deg, TILE_ROTATION_DEG + 180);
    }
}

#[test]
fn one_shared_texture_and_atlas_per_stack() {
    let cfg = StackConfig::standard();
    let d = build_stack("floor", StackDirection::West, &cfg);
    assert_eq!(d.texture, "floor.png");
    assert_eq!(d.cell_size, WALL_SIZE);
    assert_eq!(d.atlas_rows, cfg.slice_count);
    assert_eq!(d.slices.len(), 2 * WALL_SLICES as usize);
}

#[test]
fn render_passes_composite_back_to_front() {
    let passes = render_passes(WALL_SLICES);
    assert_eq!(passes.len(), WALL_SLICES as usize);
    for (i, p) in passes.iter().enumerate() {
        assert_eq!(p.layer as usize, i);
        assert_eq!(p.order as usize, i);
    }
}
