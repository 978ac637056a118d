use euclid::default::{Point2D, Rect, Size2D, Vector3D};
use plane_split::{BspSplitter, Polygon};
use webrender::frame_builder::{reset_plane_splitters, PlaneSplitAnchor, PlaneSplitter, SpatialNodeIndex};
use webrender::frame_builder::{
    add_child_render_task, ChasePrimitive, ClipChainId, FrameBuilderConfig, FrameBuilder, FrameBuildingState, FrameScratchBuffer,
    PictureIndex, RenderTaskGraphBuilder, RenderTaskId, SurfaceIndex, SurfaceInfo,
    SurfaceRenderTasks,
};
use webrender::render_pass::{
    build_render_pass, tile_clear_color, AlphaBatchContainer, BatchFilter, CacheTextureId,
    DeviceIntPoint, DeviceIntRect, DeviceIntSize, Pass, PictureTask, RenderTargetKind, RenderTask,
    RenderTaskKind, RenderTaskLocation, ResolvedSurfaceTexture, StaticRenderTaskSurface, SubPass,
    SliceId, SubPassSurface, SubSliceIndex, TileCacheInfo,
};

fn t(i: u32) -> RenderTaskId {
    RenderTaskId(i)
}

fn deps(rg: &RenderTaskGraphBuilder) -> Vec<(u32, u32)> {
    rg.dependencies().iter().map(|(p, c)| (p.0, c.0)).collect()
}

fn state(surfaces: Vec<SurfaceInfo<u8>>) -> FrameBuildingState<u8, &'static str> {
    FrameBuildingState {
        surfaces,
        rg_builder: RenderTaskGraphBuilder::new(),
        dirty_region_stack: Vec::new(),
        num_visible_primitives: 0,
    }
}

fn empty_surface() -> SurfaceInfo<u8> {
    SurfaceInfo { render_tasks: None, clipping_rect: 0 }
}

#[test]
fn child_of_tiled_surface_depends_on_every_tile() {
    let surfaces = vec![SurfaceInfo {
        render_tasks: Some(SurfaceRenderTasks::Tiled(vec![t(1), t(2), t(3)])),
        clipping_rect: 0u8,
    }];
    let mut rg = RenderTaskGraphBuilder::new();
    add_child_render_task(SurfaceIndex(0), t(9), &surfaces, &mut rg);
    assert_eq!(deps(&rg), vec![(1, 9), (2, 9), (3, 9)]);
}

#[test]
fn child_of_simple_surface_depends_on_its_task() {
    let surfaces = vec![SurfaceInfo { render_tasks: Some(SurfaceRenderTasks::Simple(t(4))), clipping_rect: 0u8 }];
    let mut rg = RenderTaskGraphBuilder::new();
    rg.add_dependency(t(0), t(1));
    add_child_render_task(SurfaceIndex(0), t(7), &surfaces, &mut rg);
    assert_eq!(deps(&rg), vec![(0, 1), (4, 7)]);
}

#[test]
fn child_of_chained_surface_depends_on_port_task() {
    let surfaces = vec![SurfaceInfo {
        render_tasks: Some(SurfaceRenderTasks::Chained { root_task_id: t(5), port_task_id: t(6) }),
        clipping_rect: 0u8,
    }];
    let mut rg = RenderTaskGraphBuilder::new();
    add_child_render_task(SurfaceIndex(0), t(8), &surfaces, &mut rg);
    assert_eq!(deps(&rg), vec![(6, 8)]);
}

#[test]
fn init_surface_links_to_parent() {
    let mut st = state(vec![empty_surface(), empty_surface(), empty_surface()]);
    st.init_surface_tiled(SurfaceIndex(0), vec![t(10), t(11)], 3);
    assert!(matches!(st.surfaces[0].render_tasks, Some(SurfaceRenderTasks::Tiled(ref v)) if v.len() == 2));
    assert_eq!(st.surfaces[0].clipping_rect, 3);
    assert!(deps(&st.rg_builder).is_empty());

    st.init_surface(SurfaceIndex(1), t(20), SurfaceIndex(0), 4);
    assert!(matches!(st.surfaces[1].render_tasks, Some(SurfaceRenderTasks::Simple(RenderTaskId(20)))));
    assert_eq!(deps(&st.rg_builder), vec![(10, 20), (11, 20)]);

    st.init_surface_chain(SurfaceIndex(2), t(30), t(31), SurfaceIndex(1), 5);
    assert_eq!(deps(&st.rg_builder), vec![(10, 20), (11, 20), (20, 30)]);

    // Children of the chain go below its port task.
    st.add_child_render_task(SurfaceIndex(2), t(40));
    assert_eq!(deps(&st.rg_builder), vec![(10, 20), (11, 20), (20, 30), (31, 40)]);
}

#[test]
fn init_surface_with_itself_as_parent() {
    let mut st = state(vec![empty_surface()]);
    st.init_surface(SurfaceIndex(0), t(3), SurfaceIndex(0), 1);
    assert_eq!(deps(&st.rg_builder), vec![(3, 3)]);
}

#[test]
fn dirty_region_stack_push_pop() {
    let mut st = state(vec![]);
    st.push_dirty_region("screen");
    assert_eq!(*st.current_dirty_region(), "screen");
    st.push_dirty_region("tile");
    assert_eq!(*st.current_dirty_region(), "tile");
    st.pop_dirty_region();
    assert_eq!(*st.current_dirty_region(), "screen");
    st.pop_dirty_region();
    assert!(st.dirty_region_stack.is_empty());
}

#[test]
fn scratch_buffer_begin_frame_clears() {
    let mut scratch: FrameScratchBuffer<u8> = FrameScratchBuffer::default();
    assert!(scratch.dirty_region_stack.is_empty());
    scratch.dirty_region_stack.push(1);
    scratch.surface_stack.push((PictureIndex(0), SurfaceIndex(1)));
    scratch.clip_chain_stack.clip_chains.push(ClipChainId(4));
    scratch.begin_frame();
    assert!(scratch.dirty_region_stack.is_empty());
    assert!(scratch.surface_stack.is_empty());
    assert!(scratch.clip_chain_stack.clip_chains.is_empty());
}

#[test]
fn chase_primitive_default_is_nothing() {
    let c: ChasePrimitive<u8> = ChasePrimitive::default();
    assert!(matches!(c, ChasePrimitive::Nothing));
}

fn rect(x: i32) -> DeviceIntRect {
    DeviceIntRect { min_x: x, min_y: x, max_x: x + 10, max_y: x + 10 }
}

// The tile of task `task` is drawn into texture cache texture `task`.
fn tile_surface(task: u32) -> ResolvedSurfaceTexture {
    ResolvedSurfaceTexture::TextureCache { texture: CacheTextureId(task) }
}

fn picture_task(task: u32, pic: usize, sub_slice: Option<u8>) -> RenderTask {
    RenderTask {
        location: RenderTaskLocation::Static {
            surface: StaticRenderTaskSurface::PictureCache { surface: tile_surface(task) },
        },
        kind: RenderTaskKind::Picture(PictureTask {
            pic_index: PictureIndex(pic),
            batch_filter: sub_slice.map(|s| BatchFilter { sub_slice_index: SubSliceIndex(s) }),
            scissor_rect: Some(rect(pic as i32)),
            valid_rect: Some(rect(100 + pic as i32)),
        }),
    }
}

fn picture_sub_pass(task: u32) -> SubPass {
    SubPass {
        surface: SubPassSurface::Persistent {
            surface: StaticRenderTaskSurface::PictureCache { surface: tile_surface(task) },
        },
        task_ids: vec![t(task)],
    }
}

fn texture_sub_pass(kind: RenderTargetKind, texture: u32, tasks: Vec<u32>) -> SubPass {
    SubPass {
        surface: SubPassSurface::Persistent {
            surface: StaticRenderTaskSurface::TextureCache { target_kind: kind, texture: CacheTextureId(texture) },
        },
        task_ids: tasks.into_iter().map(t).collect(),
    }
}

fn dynamic_sub_pass(kind: RenderTargetKind, texture: u32, tasks: Vec<u32>) -> SubPass {
    SubPass {
        surface: SubPassSurface::Dynamic { target_kind: kind, texture_id: CacheTextureId(texture), used_rect: rect(0) },
        task_ids: tasks.into_iter().map(t).collect(),
    }
}

fn config(gpu_supports_fast_clears: bool) -> FrameBuilderConfig<u8, u8> {
    FrameBuilderConfig {
        dual_source_blending_is_supported: false,
        dual_source_blending_is_enabled: false,
        chase_primitive: ChasePrimitive::Nothing,
        testing: true,
        gpu_supports_fast_clears,
        gpu_supports_advanced_blend: false,
        advanced_blend_is_coherent: false,
        gpu_supports_render_target_partial_update: false,
        external_images_require_copy: false,
        batch_lookback_count: 10,
        compositor_kind: 9,
        tile_size_override: None,
        max_depth_ids: 1000,
        max_target_size: 4096,
        force_invalidation: false,
        is_software: false,
        low_quality_pinch_zoom: true,
    }
}

fn origin() -> DeviceIntPoint {
    DeviceIntPoint { x: 5, y: 7 }
}

fn output() -> DeviceIntRect {
    DeviceIntRect { min_x: 0, min_y: 0, max_x: 800, max_y: 600 }
}

fn screen() -> DeviceIntSize {
    DeviceIntSize { width: 800, height: 600 }
}

fn sample_tasks() -> Vec<RenderTask> {
    vec![
        RenderTask { kind: RenderTaskKind::Other, location: RenderTaskLocation::Other },
        picture_task(1, 0, Some(0)),
        picture_task(2, 1, Some(0)),
        picture_task(3, 0, Some(1)),
        picture_task(4, 0, None),
    ]
}

// Picture 0 has a background and a color backdrop, picture 1 a background only.
fn sample_pictures() -> Vec<Option<TileCacheInfo<&'static str>>> {
    vec![
        Some(TileCacheInfo { slice_id: SliceId(0), background_color: Some("bg0"), backdrop_color: Some("backdrop0") }),
        Some(TileCacheInfo { slice_id: SliceId(1), background_color: Some("bg1"), backdrop_color: None }),
    ]
}

#[test]
fn build_render_pass_sorts_sub_passes() {
    let pass = Pass {
        sub_passes: vec![
            dynamic_sub_pass(RenderTargetKind::Color, 1, vec![0]),
            picture_sub_pass(1),
            texture_sub_pass(RenderTargetKind::Alpha, 7, vec![10, 11]),
            dynamic_sub_pass(RenderTargetKind::Alpha, 2, vec![12, 13]),
            picture_sub_pass(2),
            texture_sub_pass(RenderTargetKind::Color, 7, vec![14]),
            picture_sub_pass(3),
            texture_sub_pass(RenderTargetKind::Color, 8, vec![15]),
            picture_sub_pass(4),
        ],
    };
    let built = build_render_pass(&pass, screen(), &sample_tasks(), &sample_pictures(), true, "transparent");

    assert_eq!(built.color.len(), 1);
    assert_eq!(built.color[0].texture_id, CacheTextureId(1));
    assert_eq!(built.color[0].task_ids, vec![t(0)]);
    assert_eq!(built.alpha.len(), 1);
    assert_eq!(built.alpha[0].texture_id, CacheTextureId(2));
    assert_eq!(built.alpha[0].task_ids, vec![t(12), t(13)]);

    // One target per texture; the kind is the first one given for it.
    assert_eq!(built.texture_cache.len(), 2);
    assert_eq!(built.texture_cache[0].texture, CacheTextureId(7));
    assert_eq!(built.texture_cache[0].target_kind, RenderTargetKind::Alpha);
    assert_eq!(built.texture_cache[0].task_ids, vec![t(10), t(11), t(14)]);
    assert_eq!(built.texture_cache[1].texture, CacheTextureId(8));
    assert_eq!(built.texture_cache[1].task_ids, vec![t(15)]);

    // Picture cache tiles grouped by picture: picture 0 (tasks 1, 3, 4), then picture 1 (task 2).
    let targets: Vec<(ResolvedSurfaceTexture, Option<&str>)> =
        built.picture_cache.iter().map(|p| (p.surface, p.clear_color)).collect();
    assert_eq!(
        targets,
        vec![
            (tile_surface(1), Some("backdrop0")),
            (tile_surface(3), Some("transparent")),
            (tile_surface(4), Some("transparent")),
            (tile_surface(2), Some("bg1")),
        ]
    );
    assert_eq!(built.picture_cache[0].alpha_batch_container, AlphaBatchContainer { task_scissor_rect: Some(rect(0)) });
    // Targets are made for the screen and with the fast-clear flag.
    assert_eq!(built.color[0].screen_size, screen());
    assert!(built.color[0].gpu_supports_fast_clears);
    assert_eq!(built.alpha[0].screen_size, screen());
    assert_eq!(built.picture_cache[0].dirty_rect, rect(0));
    assert_eq!(built.picture_cache[0].valid_rect, rect(100));
    assert_eq!(built.picture_cache[3].dirty_rect, rect(1));
}

#[test]
fn build_render_pass_of_empty_pass() {
    let pass = Pass { sub_passes: vec![] };
    let built = build_render_pass(&pass, screen(), &sample_tasks(), &sample_pictures(), true, "transparent");
    assert!(built.color.is_empty() && built.alpha.is_empty());
    assert!(built.texture_cache.is_empty() && built.picture_cache.is_empty());
}

#[test]
fn clear_color_precedence() {
    let primary = Some(BatchFilter { sub_slice_index: SubSliceIndex(0) });
    let secondary = Some(BatchFilter { sub_slice_index: SubSliceIndex(2) });
    let both = TileCacheInfo { slice_id: SliceId(0), background_color: Some(1u8), backdrop_color: Some(2u8) };
    let background_only = TileCacheInfo { slice_id: SliceId(0), background_color: Some(1u8), backdrop_color: None };
    let none = TileCacheInfo { slice_id: SliceId(0), background_color: None, backdrop_color: None };
    assert_eq!(tile_clear_color(primary, &both, 0), 2);
    assert_eq!(tile_clear_color(primary, &background_only, 0), 1);
    assert_eq!(tile_clear_color(primary, &none, 0), 0);
    assert_eq!(tile_clear_color(secondary, &both, 0), 0);
    assert_eq!(tile_clear_color(None, &both, 0), 0);
    assert!(SubSliceIndex(0).is_primary());
    assert!(!SubSliceIndex(3).is_primary());
}

#[test]
fn build_reverses_passes_and_flags_cache_writes() {
    let passes = vec![
        Pass { sub_passes: vec![picture_sub_pass(1)] },
        Pass { sub_passes: vec![dynamic_sub_pass(RenderTargetKind::Color, 3, vec![0])] },
    ];
    let mut builder = FrameBuilder::new();
    let frame = builder.build(&config(false), &mut FrameScratchBuffer::<u8>::default(), &mut Vec::new(), origin(), output(), true, &passes, &Vec::new(), &sample_tasks(), &sample_pictures(), "transparent", &mut Vec::<u8>::new());
    assert_eq!(frame.passes.len(), 2);
    // The last pass of the graph is built first.
    assert_eq!(frame.passes[0].color.len(), 1);
    assert_eq!(frame.passes[1].picture_cache.len(), 1);
    assert!(frame.has_texture_cache_tasks);
    assert!(!frame.has_been_rendered);
    assert!(frame.must_be_drawn());
    assert!(!frame.is_nop());
}

#[test]
fn frame_without_cache_writes_need_not_be_drawn() {
    let passes = vec![Pass { sub_passes: vec![dynamic_sub_pass(RenderTargetKind::Alpha, 3, vec![0])] }];
    let mut builder = FrameBuilder::new();
    let frame = builder.build(&config(false), &mut FrameScratchBuffer::<u8>::default(), &mut Vec::new(), origin(), output(), true, &passes, &Vec::new(), &sample_tasks(), &sample_pictures(), "transparent", &mut Vec::<u8>::new());
    assert!(!frame.has_texture_cache_tasks);
    assert!(!frame.must_be_drawn());

    let empty = builder.build(&config(false), &mut FrameScratchBuffer::<u8>::default(), &mut Vec::new(), origin(), output(), true, &Vec::new(), &Vec::new(), &sample_tasks(), &sample_pictures(), "transparent", &mut Vec::<u8>::new());
    assert!(empty.is_nop());
    assert!(!empty.must_be_drawn());
}

#[test]
fn rendered_frame_need_not_be_drawn_again() {
    let passes = vec![Pass { sub_passes: vec![texture_sub_pass(RenderTargetKind::Color, 1, vec![0])] }];
    let mut builder = FrameBuilder::new();
    let mut frame = builder.build(&config(false), &mut FrameScratchBuffer::<u8>::default(), &mut Vec::new(), origin(), output(), true, &passes, &Vec::new(), &sample_tasks(), &sample_pictures(), "transparent", &mut Vec::<u8>::new());
    assert!(frame.must_be_drawn());
    frame.has_been_rendered = true;
    assert!(!frame.must_be_drawn());
}

#[test]
fn reset_plane_splitters_empties_every_splitter() {

    let anchor = PlaneSplitAnchor { spatial_node_index: SpatialNodeIndex(1), instance_index: 7 };
    let mut splitters: Vec<PlaneSplitter> = vec![BspSplitter::new(), BspSplitter::new()];
    let rect = Rect::new(Point2D::new(0.0, 0.0), Size2D::new(10.0, 10.0));
    splitters[0].add(Polygon::from_rect(rect, anchor));
    splitters[1].add(Polygon::from_rect(rect, anchor));
    splitters[1].add(Polygon::from_rect(rect, anchor));
    assert_eq!(splitters[0].sort(Vector3D::new(0.0, 0.0, 1.0)).len(), 1);
    assert_eq!(splitters[1].sort(Vector3D::new(0.0, 0.0, 1.0)).len(), 2);

    reset_plane_splitters(&mut splitters);
    assert_eq!(splitters.len(), 2);
    for splitter in splitters.iter_mut() {
        assert!(splitter.sort(Vector3D::new(0.0, 0.0, 1.0)).is_empty());
    }
}

#[test]
fn build_begins_frame_and_resets_splitters() {
    let anchor = PlaneSplitAnchor { spatial_node_index: SpatialNodeIndex(0), instance_index: 0 };
    let mut splitters: Vec<PlaneSplitter> = vec![BspSplitter::new()];
    let rect = Rect::new(Point2D::new(0.0, 0.0), Size2D::new(4.0, 4.0));
    splitters[0].add(Polygon::from_rect(rect, anchor));
    let mut scratch: FrameScratchBuffer<u8> = FrameScratchBuffer::default();
    scratch.dirty_region_stack.push(3);
    scratch.surface_stack.push((PictureIndex(1), SurfaceIndex(2)));
    let mut builder = FrameBuilder::new();
    let frame = builder.build(&config(false), &mut scratch, &mut splitters, origin(), output(), true, &Vec::new(), &Vec::new(), &sample_tasks(), &sample_pictures(), "transparent", &mut Vec::<u8>::new());
    assert!(frame.is_nop());
    assert!(scratch.dirty_region_stack.is_empty());
    assert!(scratch.surface_stack.is_empty());
    assert!(splitters[0].sort(Vector3D::new(0.0, 0.0, 1.0)).is_empty());
}

#[test]
fn build_places_frame_and_moves_debug_items() {
    let passes = vec![Pass { sub_passes: vec![dynamic_sub_pass(RenderTargetKind::Color, 3, vec![0])] }];
    let mut builder = FrameBuilder::new();
    assert!(builder.globals.default_image_handle.location.is_none());
    assert!(builder.globals.default_transparent_rect_handle.location.is_none());
    assert_eq!(builder.prim_headers_prealloc.size, 0);
    let mut debug_items = vec!["a", "b"];
    let output_rect = DeviceIntRect { min_x: 10, min_y: 20, max_x: 110, max_y: 70 };
    let frame = builder.build(
        &config(true),
        &mut FrameScratchBuffer::<u8>::default(),
        &mut Vec::new(),
        DeviceIntPoint { x: 3, y: 4 },
        output_rect,
        false,
        &passes,
        &vec![PictureIndex(1), PictureIndex(0)],
        &sample_tasks(),
        &sample_pictures(),
        "transparent",
        &mut debug_items,
    );
    assert_eq!(frame.device_rect, DeviceIntRect { min_x: 3, min_y: 4, max_x: 103, max_y: 54 });
    assert_eq!(frame.passes[0].color[0].screen_size, DeviceIntSize { width: 100, height: 50 });
    assert!(frame.passes[0].color[0].gpu_supports_fast_clears);
    assert_eq!(frame.debug_items, vec!["a", "b"]);
    assert!(debug_items.is_empty());
    // The compositor is made from the configuration, and gets the tiles of
    // each top-level picture in order.
    assert_eq!(frame.composite_state.compositor_kind, 9);
    assert_eq!(frame.composite_state.max_depth_ids, 1000);
    assert!(!frame.composite_state.dirty_rects_are_valid);
    assert!(frame.composite_state.low_quality_pinch_zoom);
    assert_eq!(frame.composite_state.tile_cache_slices, vec![SliceId(1), SliceId(0)]);
}

#[test]
fn rect_size_and_origin() {
    let r = DeviceIntRect { min_x: -5, min_y: 2, max_x: 15, max_y: 12 };
    assert_eq!(r.size(), DeviceIntSize { width: 20, height: 10 });
    assert_eq!(
        DeviceIntRect::from_origin_and_size(DeviceIntPoint { x: 1, y: 2 }, DeviceIntSize { width: 3, height: 4 }),
        DeviceIntRect { min_x: 1, min_y: 2, max_x: 4, max_y: 6 }
    );
}
