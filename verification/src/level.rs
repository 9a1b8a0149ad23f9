//! The level-description data model and its instantiation.
//!
//! A level is a legend (symbol to tile-kind reference) and a ragged 2D map of
//! symbols.  Instantiation walks the map row-major and emits one tile node
//! per cell whose symbol the legend knows; unknown symbols are empty space by
//! design, not an error, which is what makes sparse maps work.  The level
//! itself is produced by an external loader from its textual encoding and is
//! immutable from then on.

use crate::grid::{
    lemma_screen_fits, spec_to_screen_x, spec_to_screen_y, to_screen, GridConfig, MAX_EXTENT,
    MAX_STEP,
};
use crate::stack::{build_stack, parse_tile_ref, spec_base_name, spec_facing, stack_ok, StackConfig, StackDescriptor};
use vstd::prelude::*;
use vstd::string::StrSliceExecFns;

verus! {

/// A loaded level: display name, symbol legend, and the map rows.  Rows may
/// have different lengths; each row's own length is its local width.
/// The legend is an association list looked up by first match.
#[derive(Clone, Debug)]
pub struct LevelDescription {
    pub name: String,
    pub legend: Vec<(char, String)>,
    pub map: Vec<String>,
}

/// The startup manifest: which level to load first, and the levels available
/// in the session (advisory; only `first_level` is consumed here).
#[derive(Clone, Debug)]
pub struct KickStart {
    pub first_level: String,
    pub levels: Vec<String>,
}

/// First-match lookup of a symbol in the legend.
pub open spec fn legend_find(legend: Seq<(char, String)>, sym: char) -> Option<Seq<char>>
    decreases legend.len(),
{
    if legend.len() == 0 {
        Option::None
    } else if legend[0].0 == sym {
        Option::Some(legend[0].1@)
    } else {
        legend_find(legend.subrange(1, legend.len() as int), sym)
    }
}

/// A miss over a prefix moves the lookup past it.
proof fn lemma_legend_find_prefix_miss(legend: Seq<(char, String)>, sym: char, i: int)
    requires
        0 <= i <= legend.len(),
        forall|j: int| 0 <= j < i ==> (#[trigger] legend[j]).0 != sym,
    ensures
        legend_find(legend, sym) == legend_find(legend.subrange(i, legend.len() as int), sym),
    decreases i,
{
    if i > 0 {
        let t = legend.subrange(1, legend.len() as int);
        assert(forall|j: int| 0 <= j < i - 1 ==> (#[trigger] t[j]) == legend[j + 1]);
        lemma_legend_find_prefix_miss(t, sym, i - 1);
        assert(t.subrange(i - 1, t.len() as int) =~= legend.subrange(i, legend.len() as int));
    } else {
        assert(legend.subrange(0, legend.len() as int) =~= legend);
    }
}

/// Looks a symbol up in the legend; `None` means the symbol draws nothing.
pub fn legend_get(legend: &Vec<(char, String)>, sym: char) -> (r: Option<String>)
    ensures
        match r {
            Option::Some(v) => legend_find(legend@, sym) == Option::Some(v@),
            Option::None => legend_find(legend@, sym) is None,
        },
{
    let n = legend.len();
    let mut i: usize = 0;
    while i < n
        invariant
            i <= n,
            n == legend@.len(),
            forall|j: int| 0 <= j < i ==> (#[trigger] legend@[j]).0 != sym,
        decreases n - i,
    {
        if legend[i].0 == sym {
            proof {
                lemma_legend_find_prefix_miss(legend@, sym, i as int);
                assert(legend@.subrange(i as int, legend@.len() as int)[0] == legend@[i as int]);
            }
            return Option::Some(legend[i].1.clone());
        }
        i += 1;
    }
    proof {
        lemma_legend_find_prefix_miss(legend@, sym, n as int);
    }
    Option::None
}

/// The cells of one row (at row index `r`) that carry a tile, in column
/// order: exactly those whose symbol the legend knows.
pub open spec fn row_cells(legend: Seq<(char, String)>, row: Seq<char>, r: int) -> Seq<(int, int)>
    decreases row.len(),
{
    if row.len() == 0 {
        Seq::empty()
    } else {
        row_cells(legend, row.drop_last(), r) + if legend_find(legend, row.last()) is Some {
            seq![(r, row.len() - 1)]
        } else {
            Seq::empty()
        }
    }
}

/// All tile-bearing cells of a map, row-major.
pub open spec fn map_cells(legend: Seq<(char, String)>, map: Seq<String>) -> Seq<(int, int)>
    decreases map.len(),
{
    if map.len() == 0 {
        Seq::empty()
    } else {
        map_cells(legend, map.drop_last()) + row_cells(legend, map.last()@, map.len() - 1)
    }
}

/// Every cell a row contributes carries its own row index and a known symbol.
proof fn lemma_row_cells_membership(legend: Seq<(char, String)>, row: Seq<char>, r: int, cell: (
    int,
    int,
))
    ensures
        row_cells(legend, row, r).contains(cell) <==> (cell.0 == r && 0 <= cell.1 < row.len()
            && legend_find(legend, row[cell.1]) is Some),
    decreases row.len(),
{
    if row.len() == 0 {
    } else {
        let front = row.drop_last();
        lemma_row_cells_membership(legend, front, r, cell);
        let tail: Seq<(int, int)> = if legend_find(legend, row.last()) is Some {
            seq![(r, row.len() - 1)]
        } else {
            Seq::empty()
        };
        let whole = row_cells(legend, front, r) + tail;
        assert(forall|j: int| 0 <= j < front.len() ==> front[j] == row[j]);
        if whole.contains(cell) {
            let i = choose|i: int| 0 <= i < whole.len() && whole[i] == cell;
            if i < row_cells(legend, front, r).len() {
                assert(row_cells(legend, front, r)[i] == cell);
                assert(row_cells(legend, front, r).contains(cell));
            } else {
                assert(cell == (r, row.len() - 1));
            }
        }
        if cell.0 == r && 0 <= cell.1 < row.len() && legend_find(legend, row[cell.1]) is Some {
            if cell.1 < row.len() - 1 {
                assert(row_cells(legend, front, r).contains(cell));
                let i = choose|i: int|
                    0 <= i < row_cells(legend, front, r).len() && row_cells(legend, front, r)[i]
                        == cell;
                assert(whole[i] == cell);
            } else {
                assert(whole[whole.len() - 1] == cell);
            }
        }
    }
}

/// A cell is in the instantiation list exactly when it is in bounds and its
/// symbol is in the legend: a symbol absent from the legend produces no tile
/// node for its cell, and nothing outside the map ever appears.
pub proof fn lemma_map_cells_membership(legend: Seq<(char, String)>, map: Seq<String>, cell: (
    int,
    int,
))
    ensures
        map_cells(legend, map).contains(cell) <==> (0 <= cell.0 < map.len() && 0 <= cell.1
            < map[cell.0]@.len() && legend_find(legend, map[cell.0]@[cell.1]) is Some),
    decreases map.len(),
{
    if map.len() == 0 {
    } else {
        let front = map.drop_last();
        lemma_map_cells_membership(legend, front, cell);
        lemma_row_cells_membership(legend, map.last()@, map.len() - 1, cell);
        let a = map_cells(legend, front);
        let b = row_cells(legend, map.last()@, map.len() - 1);
        let whole = a + b;
        assert(forall|j: int| 0 <= j < front.len() ==> front[j] == map[j]);
        if whole.contains(cell) {
            let i = choose|i: int| 0 <= i < whole.len() && whole[i] == cell;
            if i < a.len() {
                assert(a[i] == cell);
                assert(a.contains(cell));
            } else {
                assert(b[i - a.len()] == cell);
                assert(b.contains(cell));
            }
        }
        if 0 <= cell.0 < map.len() && 0 <= cell.1 < map[cell.0]@.len() && legend_find(
            legend,
            map[cell.0]@[cell.1],
        ) is Some {
            if cell.0 < map.len() - 1 {
                assert(a.contains(cell));
                let i = choose|i: int| 0 <= i < a.len() && a[i] == cell;
                assert(whole[i] == cell);
            } else {
                assert(b.contains(cell));
                let i = choose|i: int| 0 <= i < b.len() && b[i] == cell;
                assert(whole[a.len() + i] == cell);
            }
        }
    }
}

/// Every cell a row contributes sits at that row, in bounds, and the
/// contributions come in strictly increasing column order.
proof fn lemma_row_cells_ordered(legend: Seq<(char, String)>, row: Seq<char>, r: int)
    ensures
        forall|i: int|
            0 <= i < row_cells(legend, row, r).len() ==> (#[trigger] row_cells(legend, row, r)[i]).0
                == r && 0 <= row_cells(legend, row, r)[i].1 < row.len(),
        forall|i: int, j: int|
            0 <= i < j < row_cells(legend, row, r).len() ==> (#[trigger] row_cells(
                legend,
                row,
                r,
            )[i]).1 < (#[trigger] row_cells(legend, row, r)[j]).1,
    decreases row.len(),
{
    if row.len() == 0 {
    } else {
        let front = row.drop_last();
        lemma_row_cells_ordered(legend, front, r);
        let a = row_cells(legend, front, r);
        let whole = row_cells(legend, row, r);
        assert(forall|i: int| 0 <= i < a.len() ==> whole[i] == a[i]);
        if legend_find(legend, row.last()) is Some {
            assert(whole[whole.len() - 1] == (r, row.len() - 1));
        }
    }
}

/// The instantiation cell list is strictly row-major ordered, so no cell
/// appears twice: every tile-bearing cell becomes exactly one node.
pub proof fn lemma_map_cells_ordered(legend: Seq<(char, String)>, map: Seq<String>)
    ensures
        forall|i: int|
            0 <= i < map_cells(legend, map).len() ==> 0 <= (#[trigger] map_cells(legend, map)[i]).0
                < map.len(),
        forall|i: int, j: int|
            0 <= i < j < map_cells(legend, map).len() ==> (#[trigger] map_cells(legend, map)[i]).0
                < (#[trigger] map_cells(legend, map)[j]).0 || (map_cells(legend, map)[i].0
                == map_cells(legend, map)[j].0 && map_cells(legend, map)[i].1 < map_cells(
                legend,
                map,
            )[j].1),
        forall|i: int, j: int|
            0 <= i < j < map_cells(legend, map).len() ==> (#[trigger] map_cells(legend, map)[i])
                != (#[trigger] map_cells(legend, map)[j]),
    decreases map.len(),
{
    if map.len() == 0 {
    } else {
        let front = map.drop_last();
        lemma_map_cells_ordered(legend, front);
        lemma_row_cells_ordered(legend, map.last()@, map.len() - 1);
        let a = map_cells(legend, front);
        let b = row_cells(legend, map.last()@, map.len() - 1);
        let whole = map_cells(legend, map);
        assert(forall|i: int| 0 <= i < a.len() ==> whole[i] == a[i]);
        assert(forall|i: int| 0 <= i < b.len() ==> whole[a.len() + i] == b[i]);
        assert(forall|i: int| a.len() <= i < whole.len() ==> whole[i] == b[i - a.len()]);
    }
}

/// One instantiated tile: a logical node at its screen position, owning its
/// sprite-stack child.
#[derive(Clone, Debug)]
pub struct TileNode {
    pub row: usize,
    pub col: usize,
    /// The raw legend value the cell's symbol resolved to.
    pub kind: String,
    pub x: i64,
    pub y: i64,
    pub stack: StackDescriptor,
}

/// What instantiation must emit for the tile-bearing cell `cell`: the cell's
/// own indices, the legend value as `kind`, the screen position under the
/// map's row count and this row's own width, and a well-built stack for the
/// parsed base name and facing.
pub open spec fn node_ok(
    node: TileNode,
    level: LevelDescription,
    gcfg: GridConfig,
    scfg: StackConfig,
    cell: (int, int),
) -> bool {
    let r = cell.0;
    let c = cell.1;
    &&& node.row == r
    &&& node.col == c
    &&& 0 <= r < level.map@.len()
    &&& 0 <= c < level.map@[r]@.len()
    &&& legend_find(level.legend@, level.map@[r]@[c]) == Option::Some(node.kind@)
    &&& node.x == spec_to_screen_x(gcfg, r, c, level.map@[r]@.len() as int)
    &&& node.y == spec_to_screen_y(gcfg, r, c, level.map@.len() as int)
    &&& stack_ok(node.stack, spec_base_name(node.kind@), spec_facing(node.kind@), scfg)
}

/// Walks the map row-major and materializes one tile node per cell whose
/// symbol the legend knows; every other cell is silently empty.  The result
/// order is deterministic: rows outer, columns inner, exactly the order of
/// [`map_cells`].
#[verifier::loop_isolation(false)]
pub fn instantiate(level: &LevelDescription, gcfg: &GridConfig, scfg: &StackConfig) -> (nodes: Vec<
    TileNode,
>)
    requires
        gcfg.wf(),
        gcfg.step_x <= MAX_STEP,
        gcfg.step_y <= MAX_STEP,
        gcfg.scale <= MAX_STEP,
        level.map@.len() <= MAX_EXTENT,
        forall|r: int| 0 <= r < level.map@.len() ==> (#[trigger] level.map@[r])@.len() <= MAX_EXTENT,
        2 * scfg.slice_count <= usize::MAX,
    ensures
        nodes@.len() == map_cells(level.legend@, level.map@).len(),
        forall|k: int|
            0 <= k < nodes@.len() ==> node_ok(
                #[trigger] nodes@[k],
                *level,
                *gcfg,
                *scfg,
                map_cells(level.legend@, level.map@)[k],
            ),
{
    let ghost legend = level.legend@;
    let ghost map = level.map@;
    let map_len: usize = level.map.len();
    let mut nodes: Vec<TileNode> = Vec::new();
    let mut r: usize = 0;
    while r < map_len
        invariant
            r <= map_len,
            nodes@.len() == map_cells(legend, map.take(r as int)).len(),
            forall|k: int|
                0 <= k < nodes@.len() ==> node_ok(
                    #[trigger] nodes@[k],
                    *level,
                    *gcfg,
                    *scfg,
                    map_cells(legend, map.take(r as int))[k],
                ),
        decreases map_len - r,
    {
        let row: &String = &level.map[r];
        let row_len: usize = row.as_str().unicode_len();
        let ghost rowseq = row@;
        proof {
            assert(rowseq.take(0) =~= Seq::<char>::empty());
            assert(map_cells(legend, map.take(r as int)) + row_cells(legend, rowseq.take(0), r as int)
                =~= map_cells(legend, map.take(r as int)));
        }
        let mut c: usize = 0;
        while c < row_len
            invariant
                c <= row_len,
                r < map_len,
                row_len == rowseq.len(),
                rowseq == map[r as int]@,
                nodes@.len() == map_cells(legend, map.take(r as int)).len() + row_cells(
                    legend,
                    rowseq.take(c as int),
                    r as int,
                ).len(),
                forall|k: int|
                    0 <= k < nodes@.len() ==> node_ok(
                        #[trigger] nodes@[k],
                        *level,
                        *gcfg,
                        *scfg,
                        (map_cells(legend, map.take(r as int)) + row_cells(
                            legend,
                            rowseq.take(c as int),
                            r as int,
                        ))[k],
                    ),
            decreases row_len - c,
        {
            let sym: char = row.as_str().get_char(c);
            let got = legend_get(&level.legend, sym);
            proof {
                assert(rowseq.take(c as int + 1).drop_last() =~= rowseq.take(c as int));
                assert(rowseq.take(c as int + 1).last() == rowseq[c as int]);
            }
            let ghost oldcells = map_cells(legend, map.take(r as int)) + row_cells(
                legend,
                rowseq.take(c as int),
                r as int,
            );
            let ghost newcells = map_cells(legend, map.take(r as int)) + row_cells(
                legend,
                rowseq.take(c as int + 1),
                r as int,
            );
            match got {
                Option::Some(kind) => {
                    let tr = parse_tile_ref(kind.as_str());
                    let stack = build_stack(tr.base.as_str(), tr.facing, scfg);
                    proof {
                        lemma_screen_fits(
                            *gcfg,
                            r as int,
                            c as int,
                            map_len as int,
                            row_len as int,
                        );
                    }
                    let p = to_screen(gcfg, r as i64, c as i64, map_len as i64, row_len as i64);
                    let node = TileNode { row: r, col: c, kind, x: p.0, y: p.1, stack };
                    nodes.push(node);
                    proof {
                        assert(row_cells(legend, rowseq.take(c as int + 1), r as int) == row_cells(
                            legend,
                            rowseq.take(c as int),
                            r as int,
                        ) + seq![(r as int, c as int)]);
                        assert(newcells =~= oldcells.push((r as int, c as int)));
                        assert(forall|k: int| 0 <= k < oldcells.len() ==> newcells[k] == oldcells[k]);
                        assert(newcells[newcells.len() - 1] == (r as int, c as int));
                    }
                },
                Option::None => {
                    proof {
                        assert(row_cells(legend, rowseq.take(c as int + 1), r as int) == row_cells(
                            legend,
                            rowseq.take(c as int),
                            r as int,
                        ) + Seq::<(int, int)>::empty());
                        assert(newcells =~= oldcells);
                    }
                },
            }
            c += 1;
        }
        proof {
            assert(rowseq.take(row_len as int) =~= rowseq);
            assert(map.take(r as int + 1).drop_last() =~= map.take(r as int));
            assert(map.take(r as int + 1).last() == map[r as int]);
            assert(map_cells(legend, map.take(r as int + 1)) == map_cells(legend, map.take(r as int))
                + row_cells(legend, rowseq, r as int));
        }
        r += 1;
    }
    proof {
        assert(map.take(map_len as int) =~= map);
    }
    nodes
}

/// Injectivity over the actual map cells: on a map whose rows all share one
/// width, two tile nodes of distinct cells never land on the same screen
/// position.  (On ragged maps the per-row horizontal anchor can make cells
/// of differently sized rows coincide, which is why the uniform width is
/// asked for.)
pub proof fn lemma_distinct_tiles_distinct_positions(
    level: LevelDescription,
    gcfg: GridConfig,
    scfg: StackConfig,
    n1: TileNode,
    n2: TileNode,
    c1: (int, int),
    c2: (int, int),
)
    requires
        gcfg.wf(),
        node_ok(n1, level, gcfg, scfg, c1),
        node_ok(n2, level, gcfg, scfg, c2),
        c1 != c2,
        forall|r: int|
            0 <= r < level.map@.len() ==> (#[trigger] level.map@[r])@.len() == level.map@[0]@.len(),
    ensures
        n1.x != n2.x || n1.y != n2.y,
{
    let width = level.map@[0]@.len() as int;
    assert(level.map@[c1.0]@.len() == width);
    assert(level.map@[c2.0]@.len() == width);
    if n1.x == n2.x && n1.y == n2.y {
        crate::grid::lemma_to_screen_injective(
            gcfg,
            c1.0,
            c1.1,
            c2.0,
            c2.1,
            level.map@.len() as int,
            width,
        );
    }
}

} // verus!
