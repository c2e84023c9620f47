//! The renderer's per-frame plan: which passes are opened and which draw
//! calls are issued, in order, for a scene's primitive batches.
use crate::geometry::Size;
use vstd::prelude::*;

verus! {

/// One vector path of a path batch, as far as planning needs it.
#[derive(Clone, Copy, Debug, PartialEq, Eq, Structural)]
pub struct PathInfo {
    /// Paint order of the path within the scene.
    pub order: u32,
    /// Number of triangulated vertices of the path.
    pub vertex_count: usize,
}

/// A type-homogeneous batch of scene primitives, in paint order; instanced
/// kinds carry their number of primitives.
#[derive(Clone, Debug)]
pub enum BatchSummary {
    Quads(usize),
    Shadows(usize),
    Underlines(usize),
    Paths(Vec<PathInfo>),
    /// The atlas texture index of each sprite, in order.
    MonochromeSprites(Vec<u32>),
    /// The atlas texture index of each sprite, in order.
    PolychromeSprites(Vec<u32>),
    Surfaces(usize),
}

/// A pipeline that draws one quad (six vertices) per instance.
#[derive(Clone, Copy, Debug, PartialEq, Eq, Structural)]
pub enum Pipeline {
    Quads,
    Shadows,
    Underlines,
    MonochromeSprites,
    PolychromeSprites,
}

/// How the rasterized paths of a batch are copied back onto the target.
#[derive(Clone, Copy, Debug, PartialEq, Eq, Structural)]
pub enum CompositeSprites {
    /// One sprite per path, covering that path's clipped bounds.
    PerPath(usize),
    /// A single sprite covering the union of all the paths' clipped bounds.
    Union,
}

/// One step of a frame's command recording.
#[derive(Clone, Copy, Debug, PartialEq, Eq, Structural)]
pub enum RenderCommand {
    /// Open the main pass on the target; `clear` clears it first, otherwise
    /// what is already drawn is kept.
    BeginScenePass { clear: bool },
    /// One instanced draw of six vertices per instance, for the primitives
    /// `first .. first + instance_count` of batch `batch`.
    DrawInstances { pipeline: Pipeline, batch: usize, first: usize, instance_count: usize },
    /// Rasterize all path vertices of batch `batch` into the offscreen
    /// texture, cleared to transparent.
    RasterizePaths { batch: usize, vertex_count: usize },
    /// Composite the offscreen texture onto the target for batch `batch`.
    CompositePaths { batch: usize, sprites: CompositeSprites },
}

pub open spec fn total_vertices(paths: Seq<PathInfo>) -> nat
    decreases paths.len(),
{
    if paths.len() == 0 {
        0
    } else {
        total_vertices(paths.drop_last()) + paths.last().vertex_count as nat
    }
}

/// All paths share the paint order of the first one.
pub open spec fn same_order(paths: Seq<PathInfo>) -> bool {
    forall|i: int| 0 <= i < paths.len() ==> #[trigger] paths[i].order == paths[0].order
}

pub open spec fn composite_sprites_spec(paths: Seq<PathInfo>) -> CompositeSprites {
    if same_order(paths) {
        CompositeSprites::PerPath(paths.len() as usize)
    } else {
        CompositeSprites::Union
    }
}

pub open spec fn draw_spec(pipeline: Pipeline, k: usize, count: usize) -> Seq<RenderCommand> {
    if count == 0 {
        seq![]
    } else {
        seq![RenderCommand::DrawInstances { pipeline, batch: k, first: 0, instance_count: count }]
    }
}

pub open spec fn paths_spec(k: usize, paths: Seq<PathInfo>) -> Seq<RenderCommand> {
    if paths.len() == 0 || total_vertices(paths) == 0 {
        seq![]
    } else {
        seq![
            RenderCommand::RasterizePaths { batch: k, vertex_count: total_vertices(paths) as usize },
            RenderCommand::CompositePaths { batch: k, sprites: composite_sprites_spec(paths) },
        ]
    }
}

/// Where the run of sprites with equal textures that holds sprite `i`
/// starts.
pub open spec fn run_start(textures: Seq<u32>, i: int) -> int
    decreases i,
{
    if i <= 0 || textures[i - 1] != textures[i] {
        i
    } else {
        run_start(textures, i - 1)
    }
}

/// Whether sprite `i` is the last of its run of equal textures.
pub open spec fn ends_run(textures: Seq<u32>, i: int) -> bool {
    i + 1 == textures.len() || textures[i + 1] != textures[i]
}

/// The draws of the first `m` sprites of a sprite batch: one per completed
/// run of consecutive sprites sharing an atlas texture.
pub open spec fn sprite_draws(pipeline: Pipeline, k: usize, textures: Seq<u32>, m: nat) -> Seq<RenderCommand>
    decreases m,
{
    if m == 0 {
        seq![]
    } else {
        let i = m - 1;
        sprite_draws(pipeline, k, textures, i as nat) + if ends_run(textures, i) {
            seq![
                RenderCommand::DrawInstances {
                    pipeline,
                    batch: k,
                    first: run_start(textures, i) as usize,
                    instance_count: (i + 1 - run_start(textures, i)) as usize,
                },
            ]
        } else {
            seq![]
        }
    }
}

proof fn lemma_run_start_bounds(textures: Seq<u32>, i: int)
    requires
        0 <= i < textures.len(),
    ensures
        0 <= run_start(textures, i) <= i,
    decreases i,
{
    if i > 0 && textures[i - 1] == textures[i] {
        lemma_run_start_bounds(textures, i - 1);
    }
}

fn sprite_commands(out: &mut Vec<RenderCommand>, pipeline: Pipeline, k: usize, textures: &Vec<u32>)
    ensures
        final(out)@ == old(out)@ + sprite_draws(pipeline, k, textures@, textures@.len()),
{
    let ghost start = old(out)@;
    let n = textures.len();
    let mut begin: usize = 0;
    let mut i: usize = 0;
    proof {
        assert(out@ =~= start + sprite_draws(pipeline, k, textures@, 0));
    }
    while i < n
        invariant
            n == textures@.len(),
            i <= n,
            i < n ==> begin == run_start(textures@, i as int),
            out@ == start + sprite_draws(pipeline, k, textures@, i as nat),
        decreases n - i,
    {
        proof {
            lemma_run_start_bounds(textures@, i as int);
        }
        let last = i + 1 == n || textures[i + 1] != textures[i];
        if last {
            out.push(
                RenderCommand::DrawInstances { pipeline, batch: k, first: begin, instance_count: i + 1 - begin },
            );
        }
        proof {
            assert(out@ =~= start + sprite_draws(pipeline, k, textures@, (i + 1) as nat));
        }
        if last {
            begin = i + 1;
        }
        i += 1;
    }
}

/// The commands batch number `k` produces on its own.
pub open spec fn batch_commands(k: usize, batch: BatchSummary) -> Seq<RenderCommand> {
    match batch {
        BatchSummary::Quads(n) => draw_spec(Pipeline::Quads, k, n),
        BatchSummary::Shadows(n) => draw_spec(Pipeline::Shadows, k, n),
        BatchSummary::Underlines(n) => draw_spec(Pipeline::Underlines, k, n),
        BatchSummary::Paths(paths) => paths_spec(k, paths@),
        BatchSummary::MonochromeSprites(t) => sprite_draws(Pipeline::MonochromeSprites, k, t@, t@.len()),
        BatchSummary::PolychromeSprites(t) => sprite_draws(Pipeline::PolychromeSprites, k, t@, t@.len()),
        BatchSummary::Surfaces(_) => seq![],
    }
}

/// The commands of batch `k`, followed by the reopening of the main pass when
/// that batch is a path batch and more batches follow it.
pub open spec fn step_commands(batches: Seq<BatchSummary>, k: int) -> Seq<RenderCommand> {
    batch_commands(k as usize, batches[k]) + if batches[k] is Paths && k + 1 < batches.len() {
        seq![RenderCommand::BeginScenePass { clear: false }]
    } else {
        seq![]
    }
}

/// The commands recorded for the first `k` batches of a non-empty frame.
pub open spec fn planned(batches: Seq<BatchSummary>, k: nat) -> Seq<RenderCommand>
    decreases k,
{
    if k == 0 {
        seq![RenderCommand::BeginScenePass { clear: true }]
    } else {
        planned(batches, (k - 1) as nat) + step_commands(batches, k - 1)
    }
}

/// The full command list of a frame.
pub open spec fn plan_spec(batches: Seq<BatchSummary>) -> Seq<RenderCommand> {
    if batches.len() == 0 {
        seq![]
    } else {
        planned(batches, batches.len())
    }
}

/// Every path batch's vertex total fits in a `usize`.
pub open spec fn vertex_totals_fit(batches: Seq<BatchSummary>) -> bool {
    forall|i: int|
        0 <= i < batches.len() ==> match #[trigger] batches[i] {
            BatchSummary::Paths(paths) => total_vertices(paths@) <= usize::MAX,
            _ => true,
        }
}

/// Chooses how a path batch is composited: per path when all paths share one
/// paint order, else as one sprite spanning them all.
pub fn composite_sprites(paths: &Vec<PathInfo>) -> (r: CompositeSprites)
    requires
        paths@.len() > 0,
    ensures
        r == composite_sprites_spec(paths@),
{
    let first = paths[0].order;
    let mut i: usize = 1;
    while i < paths.len()
        invariant
            1 <= i <= paths@.len(),
            first == paths@[0].order,
            forall|j: int| 0 <= j < i ==> #[trigger] paths@[j].order == first,
        decreases paths.len() - i,
    {
        if paths[i].order != first {
            return CompositeSprites::Union;
        }
        i += 1;
    }
    CompositeSprites::PerPath(paths.len())
}

/// The number of vertices of all the paths of a batch.
pub fn path_vertex_total(paths: &Vec<PathInfo>) -> (r: usize)
    requires
        total_vertices(paths@) <= usize::MAX,
    ensures
        r == total_vertices(paths@),
{
    let mut total: usize = 0;
    let mut i: usize = 0;
    while i < paths.len()
        invariant
            0 <= i <= paths@.len(),
            total == total_vertices(paths@.subrange(0, i as int)),
            total_vertices(paths@) <= usize::MAX,
        decreases paths.len() - i,
    {
        proof {
            let prefix = paths@.subrange(0, i + 1);
            assert(prefix.drop_last() =~= paths@.subrange(0, i as int));
            lemma_total_vertices_prefix(paths@, i + 1);
        }
        total = total + paths[i].vertex_count;
        i += 1;
    }
    proof {
        assert(paths@.subrange(0, paths@.len() as int) =~= paths@);
    }
    total
}

proof fn lemma_total_vertices_prefix(paths: Seq<PathInfo>, k: int)
    requires
        0 <= k <= paths.len(),
    ensures
        total_vertices(paths.subrange(0, k)) <= total_vertices(paths),
    decreases paths.len() - k,
{
    if k < paths.len() {
        lemma_total_vertices_prefix(paths, k + 1);
        assert(paths.subrange(0, k + 1).drop_last() =~= paths.subrange(0, k));
    } else {
        assert(paths.subrange(0, k) =~= paths);
    }
}

fn draw_commands(out: &mut Vec<RenderCommand>, pipeline: Pipeline, k: usize, count: usize)
    ensures
        final(out)@ == old(out)@ + draw_spec(pipeline, k, count),
{
    if count > 0 {
        out.push(RenderCommand::DrawInstances { pipeline, batch: k, first: 0, instance_count: count });
    }
    proof {
        assert(final(out)@ =~= old(out)@ + draw_spec(pipeline, k, count));
    }
}

/// Plans a frame: the main pass is opened clearing the target; quads,
/// shadows and underlines are drawn into it as one instanced draw per
/// non-empty batch, sprites as one per run of sprites sharing a texture; a
/// path batch ends the main pass, rasterizes its vertices offscreen,
/// composites them back, and the main pass is reopened, keeping
/// its contents, when more batches follow.
pub fn plan_frame(batches: &Vec<BatchSummary>) -> (r: Vec<RenderCommand>)
    requires
        vertex_totals_fit(batches@),
    ensures
        r@ == plan_spec(batches@),
{
    let mut out: Vec<RenderCommand> = Vec::new();
    if batches.len() == 0 {
        return out;
    }
    out.push(RenderCommand::BeginScenePass { clear: true });
    proof {
        assert(out@ =~= planned(batches@, 0));
    }
    let mut i: usize = 0;
    while i < batches.len()
        invariant
            0 <= i <= batches@.len(),
            batches@.len() > 0,
            vertex_totals_fit(batches@),
            out@ == planned(batches@, i as nat),
        decreases batches.len() - i,
    {
        let ghost before = out@;
        match &batches[i] {
            BatchSummary::Quads(n) => draw_commands(&mut out, Pipeline::Quads, i, *n),
            BatchSummary::Shadows(n) => draw_commands(&mut out, Pipeline::Shadows, i, *n),
            BatchSummary::Underlines(n) => draw_commands(&mut out, Pipeline::Underlines, i, *n),
            BatchSummary::MonochromeSprites(t) => sprite_commands(
                &mut out,
                Pipeline::MonochromeSprites,
                i,
                t,
            ),
            BatchSummary::PolychromeSprites(t) => sprite_commands(
                &mut out,
                Pipeline::PolychromeSprites,
                i,
                t,
            ),
            BatchSummary::Surfaces(_) => {},
            BatchSummary::Paths(paths) => {
                assert(match batches@[i as int] {
                    BatchSummary::Paths(p) => total_vertices(p@) <= usize::MAX,
                    _ => true,
                });
                if paths.len() > 0 {
                    let total = path_vertex_total(paths);
                    if total > 0 {
                        out.push(RenderCommand::RasterizePaths { batch: i, vertex_count: total });
                        let sprites = composite_sprites(paths);
                        out.push(RenderCommand::CompositePaths { batch: i, sprites });
                    }
                }
                if i + 1 < batches.len() {
                    out.push(RenderCommand::BeginScenePass { clear: false });
                }
            },
        }
        proof {
            assert(out@ =~= before + step_commands(batches@, i as int));
        }
        i += 1;
    }
    out
}

/// Tracks the size of the offscreen texture that paths are rasterized into.
#[derive(Clone, Copy, Debug, PartialEq, Eq, Structural)]
pub struct PathIntermediateTracker {
    /// Size of the current texture, if one has been allocated.
    pub size: Option<Size>,
}

impl PathIntermediateTracker {
    pub fn new() -> (r: PathIntermediateTracker)
        ensures
            r.size is None,
    {
        PathIntermediateTracker { size: None }
    }

    /// Records that the texture must match `viewport_size`; returns whether a
    /// new texture has to be allocated, which is when none exists yet or the
    /// existing one has another size.
    pub fn ensure(&mut self, viewport_size: Size) -> (r: bool)
        ensures
            r == (old(self).size != Some(viewport_size)),
            final(self).size == Some(viewport_size),
    {
        let needs_recreate = match self.size {
            Some(s) => s != viewport_size,
            None => true,
        };
        self.size = Some(viewport_size);
        needs_recreate
    }
}

} // verus!
