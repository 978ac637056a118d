use vstd::prelude::*;

use plane_split::BspSplitter;

use crate::render_pass::{
    build_render_pass, lemma_dynamic_only_pass_has_no_cache_targets,
    lemma_texture_sub_pass_gives_target, texture_target_views, StaticRenderTaskSurface,
    SubPassSurface, origin_and_size_fit, pass_buildable, rect_from_origin_and_size,
    rect_size, render_pass_built, size_fits, DeviceIntPoint, DeviceIntRect, DeviceIntSize, Pass,
    RenderPass, RenderTask, SliceId, TileCacheInfo,
};

verus! {

/// The id of a render task: its index in the render task graph.
#[derive(Clone, Copy, Debug, PartialEq, Eq, Structural)]
pub struct RenderTaskId(pub u32);

/// The index of a surface in the frame's list of surfaces.
#[derive(Clone, Copy, Debug, PartialEq, Eq, Structural)]
pub struct SurfaceIndex(pub usize);

/// The index of a picture primitive in the primitive store.
#[derive(Clone, Copy, Debug, PartialEq, Eq, Structural)]
pub struct PictureIndex(pub usize);

/// The debug id of a primitive.
#[derive(Clone, Copy, Debug, PartialEq, Eq, Structural)]
pub struct PrimitiveDebugId(pub usize);

/// The primitive whose processing is traced while frames are built,
/// chosen by its id or by its local rectangle (of type `R`).
#[derive(Clone, Copy, Debug)]
pub enum ChasePrimitive<R> {
    Nothing,
    Id(PrimitiveDebugId),
    LocalRect(R),
}

impl<R> Default for ChasePrimitive<R> {
    fn default() -> (res: Self)
        ensures
            res is Nothing,
    {
        ChasePrimitive::Nothing
    }
}

/// The index of a node of the spatial tree.
#[derive(Clone, Copy, Debug, Default, PartialEq, Eq, Structural)]
pub struct SpatialNodeIndex(pub u32);

/// What a polygon handed to a plane splitter is anchored to: the spatial
/// node and the primitive instance it comes from.
#[derive(Clone, Copy, Debug, Default, PartialEq, Eq, Structural)]
pub struct PlaneSplitAnchor {
    pub spatial_node_index: SpatialNodeIndex,
    pub instance_index: usize,
}

#[verifier::external_type_specification]
#[verifier::external_body]
#[verifier::reject_recursive_types(A)]
pub struct ExBspSplitter<A: Copy>(BspSplitter<A>);

/// The splitter that orders the polygons of a 3d rendering context.
pub type PlaneSplitter = BspSplitter<PlaneSplitAnchor>;

/// The anchors of the polygons that a plane splitter holds, in the order
/// the splitter keeps them.
pub uninterp spec fn splitter_polygons(splitter: BspSplitter<PlaneSplitAnchor>) -> Seq<PlaneSplitAnchor>;

/// Calls `BspSplitter::reset`, which puts the splitter back in its initial
/// state: its source clears the list of polygons and the tree built from
/// them. Claimed: the splitter holds no polygon afterwards.
#[verifier::external_body]
fn reset_splitter(splitter: &mut PlaneSplitter)
    ensures
        splitter_polygons(*final(splitter)) == Seq::<PlaneSplitAnchor>::empty(),
{
    splitter.reset();
}

/// Reset all plane splitters. These are retained from frame to frame to
/// reduce per-frame allocations.
pub fn reset_plane_splitters(plane_splitters: &mut Vec<PlaneSplitter>)
    ensures
        final(plane_splitters)@.len() == old(plane_splitters)@.len(),
        forall|i: int|
            0 <= i < final(plane_splitters)@.len() ==> splitter_polygons(
                #[trigger] final(plane_splitters)@[i],
            ) == Seq::<PlaneSplitAnchor>::empty(),
{
    let mut i: usize = 0;
    while i < plane_splitters.len()
        invariant
            i <= plane_splitters@.len(),
            plane_splitters@.len() == old(plane_splitters)@.len(),
            forall|j: int|
                0 <= j < i ==> splitter_polygons(#[trigger] plane_splitters@[j])
                    == Seq::<PlaneSplitAnchor>::empty(),
        decreases plane_splitters.len() - i,
    {
        reset_splitter(&mut plane_splitters[i]);
        i = i + 1;
    }
}

/// The render tasks that draw a surface.
pub enum SurfaceRenderTasks {
    /// One task per tile of a picture cache.
    Tiled(Vec<RenderTaskId>),
    /// A single task.
    Simple(RenderTaskId),
    /// A chain whose output task differs from the task that draws the
    /// picture content.
    Chained { root_task_id: RenderTaskId, port_task_id: RenderTaskId },
}

/// The render tasks that children of a surface become dependencies of.
pub open spec fn parent_tasks(tasks: SurfaceRenderTasks) -> Seq<RenderTaskId> {
    match tasks {
        SurfaceRenderTasks::Tiled(ids) => ids@,
        SurfaceRenderTasks::Simple(id) => seq![id],
        SurfaceRenderTasks::Chained { port_task_id, .. } => seq![port_task_id],
    }
}

/// What frame building knows of a surface: the tasks that draw it and the
/// rectangle (of type `R`) that it is clipped to.
pub struct SurfaceInfo<R> {
    pub render_tasks: Option<SurfaceRenderTasks>,
    pub clipping_rect: R,
}

/// The dependencies between render tasks recorded while a frame is built,
/// as (parent, child) pairs in the order they were added.
pub struct RenderTaskGraphBuilder {
    dependencies: Vec<(RenderTaskId, RenderTaskId)>,
}

impl View for RenderTaskGraphBuilder {
    type V = Seq<(RenderTaskId, RenderTaskId)>;

    closed spec fn view(&self) -> Seq<(RenderTaskId, RenderTaskId)> {
        self.dependencies@
    }
}

impl RenderTaskGraphBuilder {
    pub fn new() -> (res: Self)
        ensures
            res@ == Seq::<(RenderTaskId, RenderTaskId)>::empty(),
    {
        RenderTaskGraphBuilder { dependencies: Vec::new() }
    }

    /// Records that `parent` cannot run before `child` has.
    pub fn add_dependency(&mut self, parent: RenderTaskId, child: RenderTaskId)
        ensures
            final(self)@ == old(self)@.push((parent, child)),
    {
        self.dependencies.push((parent, child));
    }

    /// The dependencies recorded so far, in order.
    pub fn dependencies(&self) -> (res: &Vec<(RenderTaskId, RenderTaskId)>)
        ensures
            res@ == self@,
    {
        &self.dependencies
    }
}

/// The dependencies that adding `child` below `tasks` records.
pub open spec fn child_dependencies(tasks: SurfaceRenderTasks, child: RenderTaskId) -> Seq<
    (RenderTaskId, RenderTaskId),
> {
    parent_tasks(tasks).map_values(|p: RenderTaskId| (p, child))
}

/// Add a child render task as a dependency to a surface: it becomes a
/// dependency of every tile of a tiled surface, of the single task of a
/// simple one, and of the port (content) task of a chain.
pub fn add_child_render_task<R>(
    surface_index: SurfaceIndex,
    child_task_id: RenderTaskId,
    surfaces: &[SurfaceInfo<R>],
    rg_builder: &mut RenderTaskGraphBuilder,
)
    requires
        surface_index.0 < surfaces@.len(),
        surfaces@[surface_index.0 as int].render_tasks is Some,
    ensures
        final(rg_builder)@ == old(rg_builder)@ + child_dependencies(
            surfaces@[surface_index.0 as int].render_tasks->0,
            child_task_id,
        ),
{
    let surface_tasks = surfaces[surface_index.0].render_tasks.as_ref().unwrap();
    let ghost start = rg_builder@;
    match surface_tasks {
        SurfaceRenderTasks::Tiled(tasks) => {
            // For a tiled render task, add as a dependency to every tile.
            let mut i: usize = 0;
            while i < tasks.len()
                invariant
                    i <= tasks@.len(),
                    rg_builder@ == start + tasks@.take(i as int).map_values(
                        |p: RenderTaskId| (p, child_task_id),
                    ),
                decreases tasks.len() - i,
            {
                rg_builder.add_dependency(tasks[i], child_task_id);
                assert(tasks@.take(i + 1).map_values(|p: RenderTaskId| (p, child_task_id))
                    =~= tasks@.take(i as int).map_values(|p: RenderTaskId| (p, child_task_id)).push(
                    (tasks@[i as int], child_task_id),
                ));
                i = i + 1;
            }
            assert(tasks@.take(tasks@.len() as int) =~= tasks@);
        },
        SurfaceRenderTasks::Simple(parent_id) => {
            rg_builder.add_dependency(*parent_id, child_task_id);
            assert(seq![*parent_id].map_values(|p: RenderTaskId| (p, child_task_id)) =~= seq![
                (*parent_id, child_task_id),
            ]);
        },
        SurfaceRenderTasks::Chained { port_task_id, .. } => {
            // For chained render tasks, add as a dependency of the lowest part of
            // the chain (the picture content)
            rg_builder.add_dependency(*port_task_id, child_task_id);
            assert(seq![*port_task_id].map_values(|p: RenderTaskId| (p, child_task_id)) =~= seq![
                (*port_task_id, child_task_id),
            ]);
        },
    }
}

/// The surfaces after `surface_index` is given `tasks` and `clipping_rect`.
pub open spec fn with_surface_tasks<R>(
    surfaces: Seq<SurfaceInfo<R>>,
    surface_index: SurfaceIndex,
    tasks: SurfaceRenderTasks,
    clipping_rect: R,
) -> Seq<SurfaceInfo<R>> {
    surfaces.update(
        surface_index.0 as int,
        SurfaceInfo { render_tasks: Some(tasks), clipping_rect },
    )
}

/// Whether a child can be added below `parent_surface_index` once
/// `surface_index` has its tasks: the parent is the surface itself, or
/// already has tasks.
pub open spec fn parent_ready<R>(
    surfaces: Seq<SurfaceInfo<R>>,
    surface_index: SurfaceIndex,
    parent_surface_index: SurfaceIndex,
) -> bool {
    &&& parent_surface_index.0 < surfaces.len()
    &&& (parent_surface_index == surface_index
        || surfaces[parent_surface_index.0 as int].render_tasks is Some)
}

/// The mutable state of frame building that surfaces, render task
/// dependencies and dirty regions (of type `D`) live in.
pub struct FrameBuildingState<R, D> {
    pub surfaces: Vec<SurfaceInfo<R>>,
    pub rg_builder: RenderTaskGraphBuilder,
    pub dirty_region_stack: Vec<D>,
    pub num_visible_primitives: u32,
}

impl<R, D> FrameBuildingState<R, D> {
    /// Retrieve the current dirty region during primitive traversal.
    pub fn current_dirty_region(&self) -> (res: &D)
        requires
            self.dirty_region_stack@.len() > 0,
        ensures
            *res == self.dirty_region_stack@.last(),
    {
        self.dirty_region_stack.last().unwrap()
    }

    /// Push a new dirty region for child primitives to cull / clip against.
    pub fn push_dirty_region(&mut self, region: D)
        ensures
            final(self).dirty_region_stack@ == old(self).dirty_region_stack@.push(region),
            final(self).surfaces@ == old(self).surfaces@,
            final(self).rg_builder@ == old(self).rg_builder@,
            final(self).num_visible_primitives == old(self).num_visible_primitives,
    {
        self.dirty_region_stack.push(region);
    }

    /// Pop the top dirty region from the stack.
    pub fn pop_dirty_region(&mut self)
        requires
            old(self).dirty_region_stack@.len() > 0,
        ensures
            final(self).dirty_region_stack@ == old(self).dirty_region_stack@.drop_last(),
            final(self).surfaces@ == old(self).surfaces@,
            final(self).rg_builder@ == old(self).rg_builder@,
            final(self).num_visible_primitives == old(self).num_visible_primitives,
    {
        self.dirty_region_stack.pop().unwrap();
    }

    /// Initialize render tasks for a surface that is tiled (currently applies
    /// only to picture cache surfaces).
    pub fn init_surface_tiled(
        &mut self,
        surface_index: SurfaceIndex,
        tasks: Vec<RenderTaskId>,
        clipping_rect: R,
    )
        requires
            surface_index.0 < old(self).surfaces@.len(),
            old(self).surfaces@[surface_index.0 as int].render_tasks is None,
        ensures
            final(self).surfaces@ == with_surface_tasks(
                old(self).surfaces@,
                surface_index,
                SurfaceRenderTasks::Tiled(tasks),
                clipping_rect,
            ),
            final(self).rg_builder@ == old(self).rg_builder@,
            final(self).dirty_region_stack@ == old(self).dirty_region_stack@,
            final(self).num_visible_primitives == old(self).num_visible_primitives,
    {
        self.surfaces.set(
            surface_index.0,
            SurfaceInfo { render_tasks: Some(SurfaceRenderTasks::Tiled(tasks)), clipping_rect },
        );
    }

    /// Initialize render tasks for a simple surface, that contains only a
    /// single render task.
    pub fn init_surface(
        &mut self,
        surface_index: SurfaceIndex,
        task_id: RenderTaskId,
        parent_surface_index: SurfaceIndex,
        clipping_rect: R,
    )
        requires
            surface_index.0 < old(self).surfaces@.len(),
            old(self).surfaces@[surface_index.0 as int].render_tasks is None,
            parent_ready(old(self).surfaces@, surface_index, parent_surface_index),
        ensures
            final(self).surfaces@ == with_surface_tasks(
                old(self).surfaces@,
                surface_index,
                SurfaceRenderTasks::Simple(task_id),
                clipping_rect,
            ),
            final(self).rg_builder@ == old(self).rg_builder@ + child_dependencies(
                final(self).surfaces@[parent_surface_index.0 as int].render_tasks->0,
                task_id,
            ),
            final(self).dirty_region_stack@ == old(self).dirty_region_stack@,
            final(self).num_visible_primitives == old(self).num_visible_primitives,
    {
        self.surfaces.set(
            surface_index.0,
            SurfaceInfo { render_tasks: Some(SurfaceRenderTasks::Simple(task_id)), clipping_rect },
        );
        self.add_child_render_task(parent_surface_index, task_id);
    }

    /// Initialize render tasks for a surface that is made up of a chain of
    /// render tasks, where the final output render task is different than the
    /// input render task (for example, a blur pass on a picture).
    pub fn init_surface_chain(
        &mut self,
        surface_index: SurfaceIndex,
        root_task_id: RenderTaskId,
        port_task_id: RenderTaskId,
        parent_surface_index: SurfaceIndex,
        clipping_rect: R,
    )
        requires
            surface_index.0 < old(self).surfaces@.len(),
            old(self).surfaces@[surface_index.0 as int].render_tasks is None,
            parent_ready(old(self).surfaces@, surface_index, parent_surface_index),
        ensures
            final(self).surfaces@ == with_surface_tasks(
                old(self).surfaces@,
                surface_index,
                SurfaceRenderTasks::Chained { root_task_id, port_task_id },
                clipping_rect,
            ),
            final(self).rg_builder@ == old(self).rg_builder@ + child_dependencies(
                final(self).surfaces@[parent_surface_index.0 as int].render_tasks->0,
                root_task_id,
            ),
            final(self).dirty_region_stack@ == old(self).dirty_region_stack@,
            final(self).num_visible_primitives == old(self).num_visible_primitives,
    {
        self.surfaces.set(
            surface_index.0,
            SurfaceInfo {
                render_tasks: Some(SurfaceRenderTasks::Chained { root_task_id, port_task_id }),
                clipping_rect,
            },
        );
        self.add_child_render_task(parent_surface_index, root_task_id);
    }

    /// Add a render task as a dependency of a given surface.
    pub fn add_child_render_task(&mut self, surface_index: SurfaceIndex, child_task_id: RenderTaskId)
        requires
            surface_index.0 < old(self).surfaces@.len(),
            old(self).surfaces@[surface_index.0 as int].render_tasks is Some,
        ensures
            final(self).rg_builder@ == old(self).rg_builder@ + child_dependencies(
                old(self).surfaces@[surface_index.0 as int].render_tasks->0,
                child_task_id,
            ),
            final(self).surfaces@ == old(self).surfaces@,
            final(self).dirty_region_stack@ == old(self).dirty_region_stack@,
            final(self).num_visible_primitives == old(self).num_visible_primitives,
    {
        add_child_render_task(
            surface_index,
            child_task_id,
            self.surfaces.as_slice(),
            &mut self.rg_builder,
        );
    }
}

/// The id of a clip chain.
#[derive(Clone, Copy, Debug, PartialEq, Eq, Structural)]
pub struct ClipChainId(pub u32);

/// The clip chains entered while primitives are visited, innermost last.
pub struct ClipChainStack {
    pub clip_chains: Vec<ClipChainId>,
}

impl ClipChainStack {
    pub fn new() -> (res: Self)
        ensures
            res.clip_chains@.len() == 0,
    {
        ClipChainStack { clip_chains: Vec::new() }
    }

    /// Forgets every clip chain entered.
    pub fn clear(&mut self)
        ensures
            final(self).clip_chains@.len() == 0,
    {
        self.clip_chains.clear();
    }
}

/// Scratch stacks retained from frame to frame to avoid allocations.
pub struct FrameScratchBuffer<D> {
    pub dirty_region_stack: Vec<D>,
    pub surface_stack: Vec<(PictureIndex, SurfaceIndex)>,
    pub clip_chain_stack: ClipChainStack,
}

impl<D> Default for FrameScratchBuffer<D> {
    fn default() -> (res: Self)
        ensures
            res.dirty_region_stack@.len() == 0,
            res.surface_stack@.len() == 0,
            res.clip_chain_stack.clip_chains@.len() == 0,
    {
        FrameScratchBuffer {
            dirty_region_stack: Vec::new(),
            surface_stack: Vec::new(),
            clip_chain_stack: ClipChainStack::new(),
        }
    }
}

impl<D> FrameScratchBuffer<D> {
    /// Empties the stacks at the start of a frame.
    pub fn begin_frame(&mut self)
        ensures
            final(self).dirty_region_stack@.len() == 0,
            final(self).surface_stack@.len() == 0,
            final(self).clip_chain_stack.clip_chains@.len() == 0,
    {
        self.dirty_region_stack.clear();
        self.surface_stack.clear();
        self.clip_chain_stack.clear();
    }
}

/// Where in the GPU cache a block of data was last written.
#[derive(Clone, Copy, Debug, PartialEq, Eq, Structural)]
pub struct CacheLocation {
    pub block_index: usize,
    pub epoch: u32,
}

/// A handle to data in the GPU cache; it has no location until the data is
/// first written.
#[derive(Clone, Copy, Debug, PartialEq, Eq, Structural)]
pub struct GpuCacheHandle {
    pub location: Option<CacheLocation>,
}

impl GpuCacheHandle {
    pub fn new() -> (res: Self)
        ensures
            res.location is None,
    {
        GpuCacheHandle { location: None }
    }
}

/// A set of common / global resources that are retained between
/// new display lists, such that any GPU cache handles can be
/// persisted even when a new display list arrives.
pub struct FrameGlobalResources {
    /// The image shader block for the most common / default
    /// set of image parameters (color white, stretch == rect.size).
    pub default_image_handle: GpuCacheHandle,
    /// A GPU cache config for drawing transparent rectangle primitives.
    pub default_transparent_rect_handle: GpuCacheHandle,
}

impl FrameGlobalResources {
    /// Resources whose data is not yet in the GPU cache.
    pub fn empty() -> (res: Self)
        ensures
            res.default_image_handle.location is None,
            res.default_transparent_rect_handle.location is None,
    {
        FrameGlobalResources {
            default_image_handle: GpuCacheHandle::new(),
            default_transparent_rect_handle: GpuCacheHandle::new(),
        }
    }
}

/// Remembers how large a vector grew in one frame, to reserve that much in
/// the next.
pub struct Preallocator {
    pub size: usize,
}

impl Preallocator {
    pub fn new(initial_size: usize) -> (res: Self)
        ensures
            res.size == initial_size,
    {
        Preallocator { size: initial_size }
    }
}

/// Immutable context of a picture when processing children; its subpixel
/// mode is of type `S`.
#[derive(Clone, Copy, Debug)]
pub struct PictureContext<S> {
    pub pic_index: PictureIndex,
    pub apply_local_clip_rect: bool,
    pub surface_spatial_node_index: SpatialNodeIndex,
    pub raster_spatial_node_index: SpatialNodeIndex,
    /// The surface that this picture will render on.
    pub surface_index: SurfaceIndex,
    pub dirty_region_count: usize,
    pub subpixel_mode: S,
}

/// The settings frames are built with: what the GPU supports, the
/// compositor (of kind `K`) and limits; the primitive to trace is chosen by
/// a local rectangle of type `R`.
#[derive(Clone, Copy, Debug)]
pub struct FrameBuilderConfig<K, R> {
    pub dual_source_blending_is_supported: bool,
    pub dual_source_blending_is_enabled: bool,
    pub chase_primitive: ChasePrimitive<R>,
    /// True if we're running tests (i.e. via wrench).
    pub testing: bool,
    pub gpu_supports_fast_clears: bool,
    pub gpu_supports_advanced_blend: bool,
    pub advanced_blend_is_coherent: bool,
    pub gpu_supports_render_target_partial_update: bool,
    /// Whether external images must first be copied to a regular texture
    /// before rendering.
    pub external_images_require_copy: bool,
    pub batch_lookback_count: usize,
    pub compositor_kind: K,
    pub tile_size_override: Option<DeviceIntSize>,
    pub max_depth_ids: i32,
    pub max_target_size: i32,
    pub force_invalidation: bool,
    pub is_software: bool,
    pub low_quality_pinch_zoom: bool,
}

/// How a frame's picture cache tiles are composited: the compositor (of
/// kind `K`) and settings it is made with, and the slices whose tiles are
/// handed to it, in order.
pub struct CompositeState<K> {
    pub compositor_kind: K,
    pub max_depth_ids: i32,
    pub dirty_rects_are_valid: bool,
    pub low_quality_pinch_zoom: bool,
    pub tile_cache_slices: Vec<SliceId>,
}

impl<K> CompositeState<K> {
    pub fn new(
        compositor_kind: K,
        max_depth_ids: i32,
        dirty_rects_are_valid: bool,
        low_quality_pinch_zoom: bool,
    ) -> (res: Self)
        ensures
            res.compositor_kind == compositor_kind,
            res.max_depth_ids == max_depth_ids,
            res.dirty_rects_are_valid == dirty_rects_are_valid,
            res.low_quality_pinch_zoom == low_quality_pinch_zoom,
            res.tile_cache_slices@.len() == 0,
    {
        CompositeState {
            compositor_kind,
            max_depth_ids,
            dirty_rects_are_valid,
            low_quality_pinch_zoom,
            tile_cache_slices: Vec::new(),
        }
    }

    /// Hands the tiles of the picture cache slice `slice_id` to the compositor.
    pub fn push_surface(&mut self, slice_id: SliceId)
        ensures
            final(self).tile_cache_slices@ == old(self).tile_cache_slices@.push(slice_id),
            final(self).compositor_kind == old(self).compositor_kind,
            final(self).max_depth_ids == old(self).max_depth_ids,
            final(self).dirty_rects_are_valid == old(self).dirty_rects_are_valid,
            final(self).low_quality_pinch_zoom == old(self).low_quality_pinch_zoom,
    {
        self.tile_cache_slices.push(slice_id);
    }
}

/// Every top-level picture is a tile cache.
pub open spec fn tile_cache_pictures_ready<C>(
    tile_cache_pictures: Seq<PictureIndex>,
    pictures: Seq<Option<TileCacheInfo<C>>>,
) -> bool {
    forall|i: int|
        0 <= i < tile_cache_pictures.len() ==> {
            let pic = #[trigger] tile_cache_pictures[i];
            pic.0 < pictures.len() && pictures[pic.0 as int] is Some
        }
}

/// The slices of the tile caches of `tile_cache_pictures`, in order.
pub open spec fn composited_slices<C>(
    tile_cache_pictures: Seq<PictureIndex>,
    pictures: Seq<Option<TileCacheInfo<C>>>,
) -> Seq<SliceId> {
    tile_cache_pictures.map_values(|pic: PictureIndex| (pictures[pic.0 as int]->0).slice_id)
}

/// A rendering-oriented representation of the frame built by the render backend
/// and presented to the renderer.
pub struct Frame<C, I, K> {
    /// The rectangle to show the frame in, on screen.
    pub device_rect: DeviceIntRect,
    pub passes: Vec<RenderPass<C>>,
    /// True if this frame contains any render tasks
    /// that write to the texture cache.
    pub has_texture_cache_tasks: bool,
    /// True if this frame has been drawn by the
    /// renderer.
    pub has_been_rendered: bool,
    /// Debugging information to overlay for this frame.
    pub debug_items: Vec<I>,
    /// Contains picture cache tiles, and associated information.
    /// Used by the renderer to composite tiles into the framebuffer,
    /// or hand them off to an OS compositor.
    pub composite_state: CompositeState<K>,
}

impl<C, I, K> Frame<C, I, K> {
    /// This frame must be flushed if it writes to the
    /// texture cache, and hasn't been drawn yet.
    pub fn must_be_drawn(&self) -> (res: bool)
        ensures
            res == (self.has_texture_cache_tasks && !self.has_been_rendered),
    {
        self.has_texture_cache_tasks && !self.has_been_rendered
    }

    /// Returns true if this frame doesn't alter what is on screen currently:
    /// it has no off-screen passes.
    pub fn is_nop(&self) -> (res: bool)
        ensures
            res == (self.passes@.len() == 0),
    {
        self.passes.len() == 0
    }
}

/// A pass writes to a cache texture: to the texture cache or to picture
/// cache tiles.
pub open spec fn writes_cache<C>(pass: RenderPass<C>) -> bool {
    pass.texture_cache@.len() > 0 || pass.picture_cache@.len() > 0
}

/// Every pass of the render task graph can be built.
pub open spec fn passes_buildable<C>(
    passes: Seq<Pass>,
    tasks: Seq<RenderTask>,
    pictures: Seq<Option<TileCacheInfo<C>>>,
) -> bool {
    forall|i: int| 0 <= i < passes.len() ==> pass_buildable(#[trigger] passes[i].sub_passes@, tasks, pictures)
}

/// The device rectangle of a frame fits: the output size, and the
/// rectangle of that size at the device origin, fit in `i32`.
pub open spec fn device_rect_fits(device_origin: DeviceIntPoint, output_rect: DeviceIntRect) -> bool {
    &&& size_fits(output_rect)
    &&& origin_and_size_fit(device_origin, rect_size(output_rect))
}

/// `frame` is what `build` makes of `passes`: shown at the device origin
/// with the size of the output; one built pass per pass, in reverse order,
/// each made for the output size and the configured fast-clear support;
/// flagged as writing to the texture cache where any built pass writes to
/// a cache texture; not yet rendered; holding the debug items gathered for
/// it; and composited by a compositor made from the configuration, to
/// which the tiles of each top-level picture are handed in order.
pub open spec fn frame_built<C, I, K, R>(
    frame: Frame<C, I, K>,
    config: FrameBuilderConfig<K, R>,
    passes: Seq<Pass>,
    device_origin: DeviceIntPoint,
    output_rect: DeviceIntRect,
    dirty_rects_are_valid: bool,
    tile_cache_pictures: Seq<PictureIndex>,
    tasks: Seq<RenderTask>,
    pictures: Seq<Option<TileCacheInfo<C>>>,
    transparent: C,
    debug_items: Seq<I>,
) -> bool {
    &&& frame.device_rect == rect_from_origin_and_size(device_origin, rect_size(output_rect))
    &&& frame.passes@.len() == passes.len()
    &&& forall|i: int|
        0 <= i < passes.len() ==> render_pass_built(
            #[trigger] frame.passes@[i],
            passes[passes.len() - 1 - i].sub_passes@,
            rect_size(output_rect),
            tasks,
            pictures,
            config.gpu_supports_fast_clears,
            transparent,
        )
    &&& frame.has_texture_cache_tasks == exists|i: int|
        0 <= i < frame.passes@.len() && writes_cache(#[trigger] frame.passes@[i])
    &&& !frame.has_been_rendered
    &&& frame.debug_items@ == debug_items
    &&& frame.composite_state.compositor_kind == config.compositor_kind
    &&& frame.composite_state.max_depth_ids == config.max_depth_ids
    &&& frame.composite_state.dirty_rects_are_valid == dirty_rects_are_valid
    &&& frame.composite_state.low_quality_pinch_zoom == config.low_quality_pinch_zoom
    &&& frame.composite_state.tile_cache_slices@ == composited_slices(tile_cache_pictures, pictures)
}

/// Produces the frames that are sent to the renderer.
pub struct FrameBuilder {
    pub globals: FrameGlobalResources,
    /// Room kept for the primitive headers of the next frame.
    pub prim_headers_prealloc: Preallocator,
}

impl FrameBuilder {
    /// A builder with no global data in the GPU cache yet and nothing
    /// recorded of earlier frames.
    pub fn new() -> (res: Self)
        ensures
            res.globals.default_image_handle.location is None,
            res.globals.default_transparent_rect_handle.location is None,
            res.prim_headers_prealloc.size == 0,
    {
        FrameBuilder { globals: FrameGlobalResources::empty(), prim_headers_prealloc: Preallocator::new(0) }
    }

    /// Hands the tiles of every top-level picture, each a tile cache, to the
    /// compositor, in order.
    fn build_composite_pass<C, K>(
        &self,
        tile_cache_pictures: &Vec<PictureIndex>,
        pictures: &[Option<TileCacheInfo<C>>],
        composite_state: &mut CompositeState<K>,
    )
        requires
            tile_cache_pictures_ready(tile_cache_pictures@, pictures@),
        ensures
            final(composite_state).tile_cache_slices@ == old(composite_state).tile_cache_slices@
                + composited_slices(tile_cache_pictures@, pictures@),
            final(composite_state).compositor_kind == old(composite_state).compositor_kind,
            final(composite_state).max_depth_ids == old(composite_state).max_depth_ids,
            final(composite_state).dirty_rects_are_valid == old(composite_state).dirty_rects_are_valid,
            final(composite_state).low_quality_pinch_zoom == old(
                composite_state,
            ).low_quality_pinch_zoom,
    {
        let ghost start = composite_state.tile_cache_slices@;
        let mut i: usize = 0;
        while i < tile_cache_pictures.len()
            invariant
                i <= tile_cache_pictures@.len(),
                tile_cache_pictures_ready(tile_cache_pictures@, pictures@),
                composite_state.tile_cache_slices@ == start + composited_slices(
                    tile_cache_pictures@.take(i as int),
                    pictures@,
                ),
                composite_state.compositor_kind == old(composite_state).compositor_kind,
                composite_state.max_depth_ids == old(composite_state).max_depth_ids,
                composite_state.dirty_rects_are_valid == old(composite_state).dirty_rects_are_valid,
                composite_state.low_quality_pinch_zoom == old(composite_state).low_quality_pinch_zoom,
            decreases tile_cache_pictures.len() - i,
        {
            let pic_index = tile_cache_pictures[i];
            assert(pic_index.0 < pictures@.len() && pictures@[pic_index.0 as int] is Some);
            let tile_cache = pictures[pic_index.0].as_ref().unwrap();
            composite_state.push_surface(tile_cache.slice_id);
            assert(composited_slices(tile_cache_pictures@.take(i + 1), pictures@) =~= composited_slices(
                tile_cache_pictures@.take(i as int),
                pictures@,
            ).push(tile_cache.slice_id));
            i = i + 1;
        }
        assert(tile_cache_pictures@.take(tile_cache_pictures@.len() as int) =~= tile_cache_pictures@);
    }

    /// Builds a frame: empties the scratch stacks, resets the plane
    /// splitters, builds the passes of the render task graph, last pass
    /// first, for a screen of the output size, places the frame at the
    /// device origin with the output size, and moves the debug items
    /// gathered for the frame into it.
    pub fn build<C: Copy, D, I, K: Copy, R>(
        &mut self,
        config: &FrameBuilderConfig<K, R>,
        scratch: &mut FrameScratchBuffer<D>,
        plane_splitters: &mut Vec<PlaneSplitter>,
        device_origin: DeviceIntPoint,
        output_rect: DeviceIntRect,
        dirty_rects_are_valid: bool,
        passes: &Vec<Pass>,
        tile_cache_pictures: &Vec<PictureIndex>,
        render_tasks: &[RenderTask],
        pictures: &[Option<TileCacheInfo<C>>],
        transparent: C,
        debug_items: &mut Vec<I>,
    ) -> (frame: Frame<C, I, K>)
        requires
            passes_buildable(passes@, render_tasks@, pictures@),
            tile_cache_pictures_ready(tile_cache_pictures@, pictures@),
            device_rect_fits(device_origin, output_rect),
        ensures
            frame_built(
                frame,
                *config,
                passes@,
                device_origin,
                output_rect,
                dirty_rects_are_valid,
                tile_cache_pictures@,
                render_tasks@,
                pictures@,
                transparent,
                old(debug_items)@,
            ),
            final(debug_items)@.len() == 0,
            final(scratch).dirty_region_stack@.len() == 0,
            final(scratch).surface_stack@.len() == 0,
            final(scratch).clip_chain_stack.clip_chains@.len() == 0,
            final(plane_splitters)@.len() == old(plane_splitters)@.len(),
            forall|i: int|
                0 <= i < final(plane_splitters)@.len() ==> splitter_polygons(
                    #[trigger] final(plane_splitters)@[i],
                ) == Seq::<PlaneSplitAnchor>::empty(),
    {
        scratch.begin_frame();
        reset_plane_splitters(plane_splitters);
        let output_size = output_rect.size();
        let gpu_supports_fast_clears = config.gpu_supports_fast_clears;
        let mut composite_state = CompositeState::new(
            config.compositor_kind,
            config.max_depth_ids,
            dirty_rects_are_valid,
            config.low_quality_pinch_zoom,
        );
        let mut built: Vec<RenderPass<C>> = Vec::new();
        let mut has_texture_cache_tasks = false;
        let mut i: usize = passes.len();
        while i > 0
            invariant
                i <= passes@.len(),
                output_size == rect_size(output_rect),
                passes_buildable(passes@, render_tasks@, pictures@),
                built@.len() == passes@.len() - i,
                forall|j: int|
                    0 <= j < built@.len() ==> render_pass_built(
                        #[trigger] built@[j],
                        passes@[passes@.len() - 1 - j].sub_passes@,
                        output_size,
                        render_tasks@,
                        pictures@,
                        gpu_supports_fast_clears,
                        transparent,
                    ),
                has_texture_cache_tasks == exists|j: int|
                    0 <= j < built@.len() && writes_cache(#[trigger] built@[j]),
            decreases i,
        {
            i = i - 1;
            assert(pass_buildable(passes@[i as int].sub_passes@, render_tasks@, pictures@));
            let pass = build_render_pass(
                &passes[i],
                output_size,
                render_tasks,
                pictures,
                gpu_supports_fast_clears,
                transparent,
            );
            let writes = pass.texture_cache.len() > 0 || pass.picture_cache.len() > 0;
            let ghost before = built@;
            built.push(pass);
            proof {
                assert(built@[built@.len() - 1] == pass);
                if writes {
                    assert(writes_cache(built@[built@.len() - 1]));
                }
                if has_texture_cache_tasks {
                    let j = choose|j: int| 0 <= j < before.len() && writes_cache(#[trigger] before[j]);
                    assert(built@[j] == before[j]);
                }
                assert forall|j: int| 0 <= j < built@.len() && writes_cache(#[trigger] built@[j]) implies
                    j == built@.len() - 1 || writes_cache(before[j]) by {
                    if j < built@.len() - 1 {
                        assert(built@[j] == before[j]);
                    }
                }
            }
            has_texture_cache_tasks = has_texture_cache_tasks || writes;
        }
        self.build_composite_pass(tile_cache_pictures, pictures, &mut composite_state);
        let mut frame_debug_items: Vec<I> = Vec::new();
        std::mem::swap(&mut frame_debug_items, debug_items);
        let frame = Frame {
            device_rect: DeviceIntRect::from_origin_and_size(device_origin, output_size),
            passes: built,
            has_texture_cache_tasks,
            has_been_rendered: false,
            debug_items: frame_debug_items,
            composite_state,
        };
        assert(frame.passes@ == built@);
        assert(frame.passes@.len() == passes@.len());
        assert(frame.has_texture_cache_tasks == exists|j: int|
            0 <= j < frame.passes@.len() && writes_cache(#[trigger] frame.passes@[j]));
        frame
    }
}

/// Popping the dirty region stack right after a push restores it, and
/// while the pushed region is on top it is the current one.
pub proof fn lemma_pop_undoes_push<D>(stack: Seq<D>, region: D)
    ensures
        stack.push(region).last() == region,
        stack.push(region).drop_last() == stack,
{
    assert(stack.push(region).drop_last() =~= stack);
}

/// A child of a simple surface depends on its task, a child of a chained
/// surface on the port task of the chain, and a child of a tiled surface on
/// every tile, in tile order.
pub proof fn lemma_child_dependency_targets(
    task_id: RenderTaskId,
    root_task_id: RenderTaskId,
    port_task_id: RenderTaskId,
    tiles: Vec<RenderTaskId>,
    child: RenderTaskId,
)
    ensures
        child_dependencies(SurfaceRenderTasks::Simple(task_id), child) == seq![(task_id, child)],
        child_dependencies(SurfaceRenderTasks::Chained { root_task_id, port_task_id }, child)
            == seq![(port_task_id, child)],
        child_dependencies(SurfaceRenderTasks::Tiled(tiles), child).len() == tiles@.len(),
        forall|i: int|
            0 <= i < tiles@.len() ==> #[trigger] child_dependencies(
                SurfaceRenderTasks::Tiled(tiles),
                child,
            )[i] == (tiles@[i], child),
{
    assert(child_dependencies(SurfaceRenderTasks::Simple(task_id), child) =~= seq![
        (task_id, child),
    ]);
    assert(child_dependencies(SurfaceRenderTasks::Chained { root_task_id, port_task_id }, child)
        =~= seq![(port_task_id, child)]);
}

/// A surface initialised with a single task passes the children added
/// below it on to that task.
pub proof fn lemma_init_surface_then_child<R>(
    surfaces: Seq<SurfaceInfo<R>>,
    surface_index: SurfaceIndex,
    task_id: RenderTaskId,
    clipping_rect: R,
    child: RenderTaskId,
)
    requires
        surface_index.0 < surfaces.len(),
    ensures
        child_dependencies(
            with_surface_tasks(
                surfaces,
                surface_index,
                SurfaceRenderTasks::Simple(task_id),
                clipping_rect,
            )[surface_index.0 as int].render_tasks->0,
            child,
        ) == seq![(task_id, child)],
{
    assert(child_dependencies(SurfaceRenderTasks::Simple(task_id), child) =~= seq![
        (task_id, child),
    ]);
}

/// A built frame must be drawn exactly when one of its passes writes to a
/// cache texture; a frame without passes never needs to be drawn.
pub proof fn lemma_built_frame_must_be_drawn<C, I, K, R>(
    frame: Frame<C, I, K>,
    config: FrameBuilderConfig<K, R>,
    passes: Seq<Pass>,
    device_origin: DeviceIntPoint,
    output_rect: DeviceIntRect,
    dirty_rects_are_valid: bool,
    tile_cache_pictures: Seq<PictureIndex>,
    tasks: Seq<RenderTask>,
    pictures: Seq<Option<TileCacheInfo<C>>>,
    transparent: C,
    debug_items: Seq<I>,
)
    requires
        frame_built(
            frame,
            config,
            passes,
            device_origin,
            output_rect,
            dirty_rects_are_valid,
            tile_cache_pictures,
            tasks,
            pictures,
            transparent,
            debug_items,
        ),
    ensures
        (frame.has_texture_cache_tasks && !frame.has_been_rendered) <==> exists|i: int|
            0 <= i < frame.passes@.len() && writes_cache(#[trigger] frame.passes@[i]),
        passes.len() == 0 ==> !(frame.has_texture_cache_tasks && !frame.has_been_rendered),
{
}

/// Giving a surface its tasks sets exactly that surface: its render tasks
/// are the tasks given and its clipping rectangle is the one given, while
/// every other surface, and the number of surfaces, stay as they were.
pub proof fn lemma_surface_tasks_set<R>(
    surfaces: Seq<SurfaceInfo<R>>,
    surface_index: SurfaceIndex,
    tasks: SurfaceRenderTasks,
    clipping_rect: R,
)
    requires
        surface_index.0 < surfaces.len(),
    ensures
        with_surface_tasks(surfaces, surface_index, tasks, clipping_rect).len() == surfaces.len(),
        with_surface_tasks(surfaces, surface_index, tasks, clipping_rect)[surface_index.0 as int].render_tasks
            == Some(tasks),
        with_surface_tasks(surfaces, surface_index, tasks, clipping_rect)[surface_index.0 as int].clipping_rect
            == clipping_rect,
        forall|i: int|
            0 <= i < surfaces.len() && i != surface_index.0 ==> #[trigger] with_surface_tasks(
                surfaces,
                surface_index,
                tasks,
                clipping_rect,
            )[i] == surfaces[i],
{
}

/// Only texture cache and picture cache targets make a pass write to a
/// cache texture: a pass without either does not, whatever color and alpha
/// targets it has, and a pass with either does.
pub proof fn lemma_writes_cache_only_for_cache_targets<C>(pass: RenderPass<C>)
    ensures
        pass.texture_cache@.len() == 0 && pass.picture_cache@.len() == 0 ==> !writes_cache(pass),
        pass.texture_cache@.len() > 0 ==> writes_cache(pass),
        pass.picture_cache@.len() > 0 ==> writes_cache(pass),
{
}

/// A built frame whose passes are made only of dynamic sub passes (color
/// and alpha targets) has no texture cache tasks and need not be drawn; a
/// built frame with a texture cache sub pass in some pass has texture cache
/// tasks.
pub proof fn lemma_built_frame_cache_tasks<C, I, K, R>(
    frame: Frame<C, I, K>,
    config: FrameBuilderConfig<K, R>,
    passes: Seq<Pass>,
    device_origin: DeviceIntPoint,
    output_rect: DeviceIntRect,
    dirty_rects_are_valid: bool,
    tile_cache_pictures: Seq<PictureIndex>,
    tasks: Seq<RenderTask>,
    pictures: Seq<Option<TileCacheInfo<C>>>,
    transparent: C,
    debug_items: Seq<I>,
)
    requires
        frame_built(
            frame,
            config,
            passes,
            device_origin,
            output_rect,
            dirty_rects_are_valid,
            tile_cache_pictures,
            tasks,
            pictures,
            transparent,
            debug_items,
        ),
    ensures
        (forall|p: int, i: int|
            0 <= p < passes.len() && 0 <= i < passes[p].sub_passes@.len() ==> (
            #[trigger] passes[p].sub_passes@[i]).surface is Dynamic) ==> !frame.has_texture_cache_tasks,
        (exists|p: int, i: int|
            0 <= p < passes.len() && 0 <= i < passes[p].sub_passes@.len() && (
            #[trigger] passes[p].sub_passes@[i]).surface matches SubPassSurface::Persistent {
                surface: StaticRenderTaskSurface::TextureCache { .. },
            }) ==> frame.has_texture_cache_tasks,
{
    let n = passes.len();
    if forall|p: int, i: int|
        0 <= p < passes.len() && 0 <= i < passes[p].sub_passes@.len() ==> (
        #[trigger] passes[p].sub_passes@[i]).surface is Dynamic {
        assert forall|j: int| 0 <= j < frame.passes@.len() implies !writes_cache(
            #[trigger] frame.passes@[j],
        ) by {
            let subs = passes[n - 1 - j].sub_passes@;
            assert forall|i: int| 0 <= i < subs.len() implies (#[trigger] subs[i].surface) is Dynamic by {
                assert(subs[i] == passes[n - 1 - j].sub_passes@[i]);
            }
            assert(render_pass_built(
                frame.passes@[j],
                subs,
                rect_size(output_rect),
                tasks,
                pictures,
                config.gpu_supports_fast_clears,
                transparent,
            ));
            lemma_dynamic_only_pass_has_no_cache_targets(subs, tasks, pictures, transparent);
            assert(texture_target_views(frame.passes@[j].texture_cache@).len()
                == frame.passes@[j].texture_cache@.len());
        }
    }
    if exists|p: int, i: int|
        0 <= p < passes.len() && 0 <= i < passes[p].sub_passes@.len() && (
        #[trigger] passes[p].sub_passes@[i]).surface matches SubPassSurface::Persistent {
            surface: StaticRenderTaskSurface::TextureCache { .. },
        } {
        let (p, i) = choose|p: int, i: int|
            0 <= p < passes.len() && 0 <= i < passes[p].sub_passes@.len() && (
            #[trigger] passes[p].sub_passes@[i]).surface matches SubPassSurface::Persistent {
                surface: StaticRenderTaskSurface::TextureCache { .. },
            };
        let j = n - 1 - p;
        assert(passes[n - 1 - j] == passes[p]);
        assert(render_pass_built(
            frame.passes@[j],
            passes[p].sub_passes@,
            rect_size(output_rect),
            tasks,
            pictures,
            config.gpu_supports_fast_clears,
            transparent,
        ));
        lemma_texture_sub_pass_gives_target(passes[p].sub_passes@, i);
        assert(texture_target_views(frame.passes@[j].texture_cache@).len()
            == frame.passes@[j].texture_cache@.len());
        assert(writes_cache(frame.passes@[j]));
    }
}

} // verus!
