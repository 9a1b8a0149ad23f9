use sprite_stack::grid::GridConfig;
use sprite_stack::level::{instantiate, legend_get, LevelDescription};
use sprite_stack::stack::{StackConfig, TILE_ROTATION_DEG, WALL_SLICES};

fn level(legend: Vec<(char, &str)>, rows: Vec<&str>) -> LevelDescription {
    LevelDescription {
        name: "test".to_string(),
        legend: legend.into_iter().map(|(c, v)| (c, v.to_string())).collect(),
        map: rows.into_iter().map(|r| r.to_string()).collect(),
    }
}

#[test]
fn legend_lookup_finds_first_match() {
    let l = level(vec![('W', "wall"), ('W', "other"), ('F', "floor")], vec![]);
    assert_eq!(legend_get(&l.legend, 'W'), Some("wall".to_string()));
    assert_eq!(legend_get(&l.legend, 'F'), Some("floor".to_string()));
    assert_eq!(legend_get(&l.legend, '.'), None);
}

#[test]
fn unknown_symbols_produce_no_nodes() {
    let l = level(vec![('W', "wall")], vec!["..", ".."]);
    let nodes = instantiate(&l, &GridConfig::standard(), &StackConfig::standard());
    assert!(nodes.is_empty());
}

#[test]
fn sparse_map_skips_only_the_unknown_cells() {
    let l = level(vec![('W', "wall")], vec!["W.W", ".W."]);
    let nodes = instantiate(&l, &GridConfig::standard(), &StackConfig::standard());
    let cells: Vec<(usize, usize)> = nodes.iter().map(|n| (n.row, n.col)).collect();
    assert_eq!(cells, vec![(0, 0), (0, 2), (1, 1)]);
}

#[test]
fn emission_order_is_row_major() {
    let l = level(vec![('W', "wall"), ('F', "floor")], vec!["WF", "FW"]);
    let nodes = instantiate(&l, &GridConfig::standard(), &StackConfig::standard());
    let cells: Vec<(usize, usize)> = nodes.iter().map(|n| (n.row, n.col)).collect();
    assert_eq!(cells, vec![(0, 0), (0, 1), (1, 0), (1, 1)]);
    assert_eq!(nodes[0].kind, "wall");
    assert_eq!(nodes[1].kind, "floor");
    assert_eq!(nodes[2].kind, "floor");
    assert_eq!(nodes[3].kind, "wall");
}

#[test]
fn node_position_uses_row_count_and_row_width() {
    let l = level(vec![('W', "wall")], vec![".W", "W"]);
    let nodes = instantiate(&l, &GridConfig::standard(), &StackConfig::standard());
    assert_eq!(nodes.len(), 2);
    // Cell (0, 1) of a 2-row map whose row 0 is 2 symbols wide:
    // x = 2 - (0 - 1) * 32 = 34, y = 2 - (0 + 1) * 32 = -30.
    assert_eq!((nodes[0].row, nodes[0].col), (0, 1));
    assert_eq!((nodes[0].x, nodes[0].y), (34, -30));
    // Cell (1, 0): row 1 is 1 symbol wide, so x = 1 - 32 = -31, y = 2 - 32 = -30.
    assert_eq!((nodes[1].row, nodes[1].col), (1, 0));
    assert_eq!((nodes[1].x, nodes[1].y), (-31, -30));
}

#[test]
fn ragged_rows_use_their_own_width() {
    let l = level(vec![('W', "wall")], vec!["W", "WWW"]);
    let nodes = instantiate(&l, &GridConfig::standard(), &StackConfig::standard());
    assert_eq!(nodes.len(), 4);
    // Row 0 is 1 wide: x anchored at 1; row 1 is 3 wide: x anchored at 3.
    assert_eq!((nodes[0].x, nodes[0].y), (1, 2));
    assert_eq!((nodes[1].x, nodes[1].y), (3 - 32, 2 - 32));
}

#[test]
fn end_to_end_single_wall_scenario() {
    // Level {name: "Start", tiles: {'W': "wall.N"}, map: ["W."]}.
    let l = level(vec![('W', "wall.N")], vec!["W."]);
    let nodes = instantiate(&l, &GridConfig::standard(), &StackConfig::standard());
    assert_eq!(nodes.len(), 1, "the unmapped '.' in column 1 must spawn nothing");
    let node = &nodes[0];
    assert_eq!((node.row, node.col), (0, 0));
    assert_eq!(node.kind, "wall.N");
    // Grid (0,0) of a 1-row map whose row is 2 symbols wide.
    assert_eq!((node.x, node.y), (2, 1));
    assert_eq!(node.stack.texture, "wall.png");
    assert_eq!(node.stack.atlas_rows, WALL_SLICES);
    assert_eq!(node.stack.slices.len(), 2 * WALL_SLICES as usize);
    for s in node.stack.slices.iter() {
        assert_eq!(s.rotation_deg, TILE_ROTATION_DEG + 180);
    }
}
