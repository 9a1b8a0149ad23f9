//! Sprite-stack construction.
//!
//! A tile kind is referenced from a level legend as `"<base>"` or
//! `"<base>.<letter>"`, where the letter picks a facing (`N`, `E`, `W`; any
//! other suffix falls back to south).  The builder turns a base name and a
//! facing into an ordered pile of slice descriptors: slice `i` shows atlas
//! cell `i`, sits `i` layers up, draws in pass `i`, and is rotated by a fixed
//! base tilt plus the facing's quarter or half turn.  With smoothing on, each
//! slice is doubled half a layer lower to hide seams between layers.

use vstd::arithmetic::div_mod::lemma_fundamental_div_mod;
use vstd::prelude::*;
use vstd::string::StrSliceExecFns;
use vstd::string::StringExecFns;

verus! {

/// Base tilt of every slice, in degrees (an eighth of a turn clockwise).
pub const TILE_ROTATION_DEG: i32 = -45;

/// Number of slices in a standard stack, and of cells in its atlas.
pub const WALL_SLICES: u32 = 12;

/// Edge length of one square atlas cell, in texels.
pub const WALL_SIZE: u32 = 12;

/// The four cardinal orientations a tile kind can be rendered in.
#[derive(Clone, Copy, PartialEq, Eq, Structural, Debug)]
pub enum StackDirection {
    West,
    North,
    East,
    South,
}

/// Rotation added to the base tilt for each facing, in degrees.
pub open spec fn spec_facing_rotation_deg(d: StackDirection) -> int {
    match d {
        StackDirection::South => 0,
        StackDirection::East => 90,
        StackDirection::West => -90,
        StackDirection::North => 180,
    }
}

/// Returns the facing's rotation contribution in degrees.
pub fn facing_rotation_deg(d: StackDirection) -> (r: i32)
    ensures
        r as int == spec_facing_rotation_deg(d),
{
    match d {
        StackDirection::South => 0,
        StackDirection::East => 90,
        StackDirection::West => -90,
        StackDirection::North => 180,
    }
}

/// Length of the prefix of `s` before its first `'.'`; `s.len()` when `s`
/// holds no dot.
pub open spec fn dot_split_index(s: Seq<char>) -> int
    decreases s.len(),
{
    if s.len() == 0 {
        0
    } else if s[0] == '.' {
        0
    } else {
        1 + dot_split_index(s.subrange(1, s.len() as int))
    }
}

/// The split index is in range, everything before it is dot-free, and it
/// lands on a dot unless the string has none.
pub proof fn lemma_dot_split_index_bounds(s: Seq<char>)
    ensures
        0 <= dot_split_index(s) <= s.len(),
        forall|j: int| 0 <= j < dot_split_index(s) ==> s[j] != '.',
        dot_split_index(s) < s.len() ==> s[dot_split_index(s)] == '.',
    decreases s.len(),
{
    if s.len() == 0 || s[0] == '.' {
    } else {
        let t = s.subrange(1, s.len() as int);
        lemma_dot_split_index_bounds(t);
        assert forall|j: int| 0 <= j < dot_split_index(s) implies s[j] != '.' by {
            if j >= 1 {
                assert(s[j] == t[j - 1]);
            }
        }
    }
}

/// Any dot-free prefix ending at a dot (or at the end) pins the split index.
proof fn lemma_dot_split_index_unique(s: Seq<char>, i: int)
    requires
        0 <= i <= s.len(),
        forall|j: int| 0 <= j < i ==> s[j] != '.',
        i < s.len() ==> s[i] == '.',
    ensures
        i == dot_split_index(s),
    decreases s.len(),
{
    if s.len() == 0 || s[0] == '.' {
    } else {
        let t = s.subrange(1, s.len() as int);
        assert(forall|j: int| 0 <= j < i - 1 ==> t[j] == s[j + 1]);
        lemma_dot_split_index_unique(t, i - 1);
    }
}

/// The tile kind's base name: everything before the first dot.
pub open spec fn spec_base_name(s: Seq<char>) -> Seq<char> {
    s.subrange(0, dot_split_index(s))
}

/// The facing encoded after the first dot.  Only the exact one-letter
/// suffixes `N`, `E` and `W` change the facing; an absent, empty, longer or
/// unknown suffix silently falls back to south.
pub open spec fn spec_facing(s: Seq<char>) -> StackDirection {
    let i = dot_split_index(s);
    if i + 2 == s.len() && s[i + 1] == 'N' {
        StackDirection::North
    } else if i + 2 == s.len() && s[i + 1] == 'E' {
        StackDirection::East
    } else if i + 2 == s.len() && s[i + 1] == 'W' {
        StackDirection::West
    } else {
        StackDirection::South
    }
}

/// Index of the first `'.'` in `s`, or its length when there is none.
fn find_dot(s: &str) -> (i: usize)
    ensures
        i as int == dot_split_index(s@),
{
    let n = s.unicode_len();
    let mut i: usize = 0;
    while i < n
        invariant
            i <= n,
            n as int == s@.len(),
            forall|j: int| 0 <= j < i ==> s@[j] != '.',
        decreases n - i,
    {
        if s.get_char(i) == '.' {
            proof {
                lemma_dot_split_index_unique(s@, i as int);
            }
            return i;
        }
        i += 1;
    }
    proof {
        lemma_dot_split_index_unique(s@, n as int);
    }
    n
}

/// A parsed legend value: the texture base name and the facing to render in.
#[derive(Clone, Debug)]
pub struct TileKindRef {
    pub base: String,
    pub facing: StackDirection,
}

/// Splits a legend value into base name and facing.  `"wall"` keeps the
/// default south facing, `"wall.N"` faces north, and an unknown suffix such
/// as `"wall.Q"` falls back to south rather than failing.
pub fn parse_tile_ref(value: &str) -> (r: TileKindRef)
    ensures
        r.base@ == spec_base_name(value@),
        r.facing == spec_facing(value@),
{
    let n = value.unicode_len();
    let i = find_dot(value);
    proof {
        lemma_dot_split_index_bounds(value@);
    }
    let base = value.substring_char(0, i).to_owned();
    let facing = if n - i == 2 {
        let c = value.get_char(i + 1);
        if c == 'N' {
            StackDirection::North
        } else if c == 'E' {
            StackDirection::East
        } else if c == 'W' {
            StackDirection::West
        } else {
            StackDirection::South
        }
    } else {
        StackDirection::South
    };
    TileKindRef { base, facing }
}

/// Appends the texture file suffix to a base name.
pub fn texture_name(base: &str) -> (r: String)
    ensures
        r@ == base@ + ".png"@,
{
    let mut s = base.to_owned();
    s.append(".png");
    s
}

/// One visual slice of a stack.
#[derive(Clone, Copy, PartialEq, Eq, Structural, Debug)]
pub struct StackSlice {
    /// Which cell of the shared atlas this slice shows.
    pub atlas_index: u32,
    /// Vertical offset above the stack origin, in half-layer units: a full
    /// slice of layer `i` sits at `2 * i`, its smoothing copy at `2 * i - 1`.
    pub offset_half_layers: i64,
    /// Final rotation of the slice, in degrees.
    pub rotation_deg: i32,
    /// Compositing key: higher keys draw in front, independent of depth.
    pub draw_order: u32,
}

/// Build-time options of the stack builder.
#[derive(Clone, Copy, PartialEq, Eq, Structural, Debug)]
pub struct StackConfig {
    /// How many layers a stack has.
    pub slice_count: u32,
    /// Whether each layer is doubled half a layer lower to hide seams.
    pub smoothing: bool,
}

impl StackConfig {
    /// The shipped configuration: twelve layers, smoothing on.
    pub fn standard() -> (c: StackConfig)
        ensures
            c.slice_count == WALL_SLICES,
            c.smoothing,
    {
        StackConfig { slice_count: WALL_SLICES, smoothing: true }
    }
}

/// An ordered pile of slices plus the shared texture they cut their cells
/// from.  The texture is referenced once for the whole stack: every slice of
/// one stack shares it and the atlas layout, differing only by atlas index.
#[derive(Clone, Debug)]
pub struct StackDescriptor {
    /// Asset name of the shared texture, `"<base>.png"`.
    pub texture: String,
    /// Edge length of one square atlas cell, in texels.
    pub cell_size: u32,
    /// The atlas is a vertical filmstrip of this many cells, one per layer.
    pub atlas_rows: u32,
    /// The slices, in emission order.
    pub slices: Vec<StackSlice>,
}

/// What one emitted slice of layer `layer` must look like; `half` marks the
/// smoothing copy that sits half a layer lower.
pub open spec fn slice_ok(s: StackSlice, layer: int, half: bool, rot: int) -> bool {
    &&& s.atlas_index == layer
    &&& s.offset_half_layers == if half {
        2 * layer - 1
    } else {
        2 * layer
    }
    &&& s.rotation_deg == rot
    &&& s.draw_order == layer
}

/// The slice sequence a stack of `n` layers must carry: one slice per layer,
/// or a full/smoothing pair per layer, in ascending layer order.
pub open spec fn stack_slices_ok(slices: Seq<StackSlice>, n: int, smoothing: bool, rot: int) -> bool {
    if smoothing {
        &&& slices.len() == 2 * n
        &&& forall|j: int|
            0 <= j < n ==> slice_ok(#[trigger] slices[2 * j], j, false, rot) && slice_ok(
                slices[2 * j + 1],
                j,
                true,
                rot,
            )
    } else {
        &&& slices.len() == n
        &&& forall|j: int| 0 <= j < n ==> slice_ok(#[trigger] slices[j], j, false, rot)
    }
}

/// Full shape of a stack built for `base` and `facing` under `cfg`.
pub open spec fn stack_ok(
    d: StackDescriptor,
    base: Seq<char>,
    facing: StackDirection,
    cfg: StackConfig,
) -> bool {
    &&& d.texture@ == base + ".png"@
    &&& d.cell_size == WALL_SIZE
    &&& d.atlas_rows == cfg.slice_count
    &&& stack_slices_ok(
        d.slices@,
        cfg.slice_count as int,
        cfg.smoothing,
        TILE_ROTATION_DEG + spec_facing_rotation_deg(facing),
    )
}

/// Builds the sprite stack for one tile kind: `cfg.slice_count` slices (or
/// twice that with smoothing on), all sharing one texture and atlas layout,
/// each slice of layer `i` showing atlas cell `i` at height `i` with draw
/// order `i`, rotated by the base tilt plus the facing rotation.
pub fn build_stack(base: &str, facing: StackDirection, cfg: &StackConfig) -> (d: StackDescriptor)
    requires
        2 * cfg.slice_count <= usize::MAX,
    ensures
        stack_ok(d, base@, facing, *cfg),
{
    let rot: i32 = TILE_ROTATION_DEG + facing_rotation_deg(facing);
    let texture = texture_name(base);
    let n = cfg.slice_count;
    let mut slices: Vec<StackSlice> = Vec::new();
    let mut i: u32 = 0;
    while i < n
        invariant
            i <= n,
            2 * n <= usize::MAX,
            rot as int == TILE_ROTATION_DEG + spec_facing_rotation_deg(facing),
            cfg.smoothing ==> slices@.len() == 2 * i,
            !cfg.smoothing ==> slices@.len() == i,
            forall|j: int|
                0 <= j < i && cfg.smoothing ==> slice_ok(
                    #[trigger] slices@[2 * j],
                    j,
                    false,
                    rot as int,
                ) && slice_ok(slices@[2 * j + 1], j, true, rot as int),
            forall|j: int|
                0 <= j < i && !cfg.smoothing ==> slice_ok(#[trigger] slices@[j], j, false, rot as int),
        decreases n - i,
    {
        let offset: i64 = 2 * (i as i64);
        let ghost before = slices@;
        let full = StackSlice {
            atlas_index: i,
            offset_half_layers: offset,
            rotation_deg: rot,
            draw_order: i,
        };
        slices.push(full);
        if cfg.smoothing {
            let half = StackSlice {
                atlas_index: i,
                offset_half_layers: offset - 1,
                rotation_deg: rot,
                draw_order: i,
            };
            slices.push(half);
            proof {
                assert(slices@ == before.push(full).push(half));
                assert(slices@[2 * (i as int)] == full);
                assert(slices@[2 * (i as int) + 1] == half);
                assert(forall|j: int| 0 <= j < 2 * i ==> slices@[j] == before[j]);
                assert forall|j: int| 0 <= j < i + 1 implies slice_ok(
                    #[trigger] slices@[2 * j],
                    j,
                    false,
                    rot as int,
                ) && slice_ok(slices@[2 * j + 1], j, true, rot as int) by {
                    if j < i {
                        assert(slice_ok(before[2 * j], j, false, rot as int));
                        assert(slice_ok(before[2 * j + 1], j, true, rot as int));
                        assert(slices@[2 * j] == before[2 * j]);
                        assert(slices@[2 * j + 1] == before[2 * j + 1]);
                    }
                }
            }
        } else {
            proof {
                assert(slices@ == before.push(full));
                assert(slices@[i as int] == full);
                assert(forall|j: int| 0 <= j < i ==> slices@[j] == before[j]);
            }
        }
        i += 1;
    }
    StackDescriptor { texture, cell_size: WALL_SIZE, atlas_rows: n, slices }
}

/// The compositing invariant of a well-built stack: every draw-order key is
/// the slice's own layer and lies in `0..slice_count`; keys never decrease
/// along emission order and strictly increase between distinct layers, so
/// layer 0 always draws behind layer `n - 1` whatever the world depth.
/// South-facing stacks keep the base tilt unmodified, and a north-facing
/// stack is rotated exactly half a turn beyond a south-facing one.
pub proof fn lemma_stack_properties(
    d: StackDescriptor,
    base: Seq<char>,
    facing: StackDirection,
    cfg: StackConfig,
)
    requires
        stack_ok(d, base, facing, cfg),
    ensures
        forall|k: int|
            0 <= k < d.slices@.len() ==> 0 <= #[trigger] d.slices@[k].draw_order < cfg.slice_count,
        forall|k: int|
            0 <= k < d.slices@.len() ==> #[trigger] d.slices@[k].draw_order
                == d.slices@[k].atlas_index,
        forall|k1: int, k2: int|
            0 <= k1 <= k2 < d.slices@.len() ==> #[trigger] d.slices@[k1].draw_order
                <= #[trigger] d.slices@[k2].draw_order,
        forall|k1: int, k2: int|
            0 <= k1 < k2 < d.slices@.len() && d.slices@[k1].atlas_index
                != d.slices@[k2].atlas_index ==> #[trigger] d.slices@[k1].draw_order
                < #[trigger] d.slices@[k2].draw_order,
        facing is South ==> forall|k: int|
            0 <= k < d.slices@.len() ==> #[trigger] d.slices@[k].rotation_deg == TILE_ROTATION_DEG,
        facing is North ==> forall|k: int|
            0 <= k < d.slices@.len() ==> #[trigger] d.slices@[k].rotation_deg as int
                == TILE_ROTATION_DEG + 180,
{
    let s = d.slices@;
    let n = cfg.slice_count as int;
    if cfg.smoothing {
        assert forall|k: int| 0 <= k < s.len() implies slice_ok(
            s[k],
            k / 2,
            k % 2 == 1,
            TILE_ROTATION_DEG + spec_facing_rotation_deg(facing),
        ) && 0 <= k / 2 < n by {
            lemma_fundamental_div_mod(k, 2);
            let j = k / 2;
            assert(0 <= k % 2 < 2);
            assert(k == 2 * j + k % 2);
            assert(0 <= j < n);
            if k % 2 == 0 {
                assert(slice_ok(s[2 * j], j, false, TILE_ROTATION_DEG + spec_facing_rotation_deg(facing)));
            } else {
                assert(slice_ok(s[2 * j], j, false, TILE_ROTATION_DEG + spec_facing_rotation_deg(facing)));
                assert(slice_ok(
                    s[2 * j + 1],
                    j,
                    true,
                    TILE_ROTATION_DEG + spec_facing_rotation_deg(facing),
                ));
            }
        }
        assert forall|k1: int, k2: int| 0 <= k1 <= k2 < s.len() implies s[k1].draw_order
            <= s[k2].draw_order by {
            lemma_fundamental_div_mod(k1, 2);
            lemma_fundamental_div_mod(k2, 2);
        }
        assert forall|k1: int, k2: int|
            0 <= k1 < k2 < s.len() && s[k1].atlas_index != s[k2].atlas_index implies s[k1].draw_order
            < s[k2].draw_order by {
            lemma_fundamental_div_mod(k1, 2);
            lemma_fundamental_div_mod(k2, 2);
        }
    }
}

/// One compositing pass of the layered renderer.
#[derive(Clone, Copy, PartialEq, Eq, Structural, Debug)]
pub struct RenderPass {
    /// The draw-order layer this pass renders.
    pub layer: u32,
    /// Compositing position; passes composite back-to-front in ascending
    /// order, so the pass of layer 0 lands behind every other.
    pub order: u32,
}

/// Plans the fixed list of render passes, one per slice layer, composited
/// back-to-front in ascending layer order.
pub fn render_passes(layer_count: u32) -> (passes: Vec<RenderPass>)
    ensures
        passes@.len() == layer_count,
        forall|i: int|
            0 <= i < layer_count ==> (#[trigger] passes@[i]).layer == i && passes@[i].order == i,
{
    let mut passes: Vec<RenderPass> = Vec::new();
    let mut i: u32 = 0;
    while i < layer_count
        invariant
            i <= layer_count,
            passes@.len() == i,
            forall|j: int| 0 <= j < i ==> (#[trigger] passes@[j]).layer == j && passes@[j].order == j,
        decreases layer_count - i,
    {
        passes.push(RenderPass { layer: i, order: i });
        i += 1;
    }
    passes
}

} // verus!
