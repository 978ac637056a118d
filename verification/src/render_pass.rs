use vstd::prelude::*;

use crate::frame_builder::{PictureIndex, RenderTaskId};

verus! {

/// The id of a texture that render targets are allocated in.
#[derive(Clone, Copy, Debug, PartialEq, Eq, Structural)]
pub struct CacheTextureId(pub u32);

/// A rectangle in device pixels.
#[derive(Clone, Copy, Debug, PartialEq, Eq, Structural)]
pub struct DeviceIntRect {
    pub min_x: i32,
    pub min_y: i32,
    pub max_x: i32,
    pub max_y: i32,
}

/// The size of `rect` fits in a `DeviceIntSize`.
pub open spec fn size_fits(rect: DeviceIntRect) -> bool {
    &&& i32::MIN <= rect.max_x - rect.min_x <= i32::MAX
    &&& i32::MIN <= rect.max_y - rect.min_y <= i32::MAX
}

/// The size of `rect`.
pub open spec fn rect_size(rect: DeviceIntRect) -> DeviceIntSize {
    DeviceIntSize {
        width: (rect.max_x - rect.min_x) as i32,
        height: (rect.max_y - rect.min_y) as i32,
    }
}

/// The rectangle at `origin` of `size` fits in a `DeviceIntRect`.
pub open spec fn origin_and_size_fit(origin: DeviceIntPoint, size: DeviceIntSize) -> bool {
    &&& i32::MIN <= origin.x + size.width <= i32::MAX
    &&& i32::MIN <= origin.y + size.height <= i32::MAX
}

/// The rectangle at `origin` of `size`.
pub open spec fn rect_from_origin_and_size(origin: DeviceIntPoint, size: DeviceIntSize) -> DeviceIntRect {
    DeviceIntRect {
        min_x: origin.x,
        min_y: origin.y,
        max_x: (origin.x + size.width) as i32,
        max_y: (origin.y + size.height) as i32,
    }
}

impl DeviceIntRect {
    /// The width and height of the rectangle.
    pub fn size(&self) -> (res: DeviceIntSize)
        requires
            size_fits(*self),
        ensures
            res == rect_size(*self),
            res.width == self.max_x - self.min_x,
            res.height == self.max_y - self.min_y,
    {
        DeviceIntSize { width: self.max_x - self.min_x, height: self.max_y - self.min_y }
    }

    /// The rectangle whose top left corner is `origin` and whose size is `size`.
    pub fn from_origin_and_size(origin: DeviceIntPoint, size: DeviceIntSize) -> (res: DeviceIntRect)
        requires
            origin_and_size_fit(origin, size),
        ensures
            res == rect_from_origin_and_size(origin, size),
            res.min_x == origin.x,
            res.min_y == origin.y,
            res.max_x == origin.x + size.width,
            res.max_y == origin.y + size.height,
    {
        DeviceIntRect {
            min_x: origin.x,
            min_y: origin.y,
            max_x: origin.x + size.width,
            max_y: origin.y + size.height,
        }
    }
}

/// Whether a render target holds color or alpha.
#[derive(Clone, Copy, Debug, PartialEq, Eq, Structural)]
pub enum RenderTargetKind {
    Color,
    Alpha,
}

/// The size of a rectangle in device pixels.
#[derive(Clone, Copy, Debug, PartialEq, Eq, Structural)]
pub struct DeviceIntSize {
    pub width: i32,
    pub height: i32,
}

/// A point in device pixels.
#[derive(Clone, Copy, Debug, PartialEq, Eq, Structural)]
pub struct DeviceIntPoint {
    pub x: i32,
    pub y: i32,
}

/// The id of a native compositor surface.
#[derive(Clone, Copy, Debug, PartialEq, Eq, Structural)]
pub struct NativeSurfaceId(pub u64);

/// The id of a tile of a native compositor surface.
#[derive(Clone, Copy, Debug, PartialEq, Eq, Structural)]
pub struct NativeTileId {
    pub surface_id: NativeSurfaceId,
    pub x: i32,
    pub y: i32,
}

/// The texture a picture cache tile is drawn into.
#[derive(Clone, Copy, Debug, PartialEq, Eq, Structural)]
pub enum ResolvedSurfaceTexture {
    TextureCache { texture: CacheTextureId },
    Native { id: NativeTileId, size: DeviceIntSize },
}

/// A surface that outlives the frame.
#[derive(Clone, Copy, Debug, PartialEq, Eq, Structural)]
pub enum StaticRenderTaskSurface {
    /// A tile of a picture cache.
    PictureCache { surface: ResolvedSurfaceTexture },
    /// A region of a texture in the texture cache.
    TextureCache { target_kind: RenderTargetKind, texture: CacheTextureId },
    /// A surface that is only read from.
    ReadOnly,
}

/// Where the tasks of a sub pass draw.
#[derive(Clone, Copy, Debug, PartialEq, Eq, Structural)]
pub enum SubPassSurface {
    /// A target allocated for this frame.
    Dynamic { target_kind: RenderTargetKind, texture_id: CacheTextureId, used_rect: DeviceIntRect },
    /// A surface that outlives the frame.
    Persistent { surface: StaticRenderTaskSurface },
}

/// A group of tasks of a pass that draw to the same surface.
pub struct SubPass {
    pub surface: SubPassSurface,
    pub task_ids: Vec<RenderTaskId>,
}

/// One pass of the render task graph.
pub struct Pass {
    pub sub_passes: Vec<SubPass>,
}

/// The index of a sub slice of a picture cache.
#[derive(Clone, Copy, Debug, PartialEq, Eq, Structural)]
pub struct SubSliceIndex(pub u8);

impl SubSliceIndex {
    /// The first sub slice is the primary one.
    pub fn is_primary(&self) -> (res: bool)
        ensures
            res == (self.0 == 0),
    {
        self.0 == 0
    }
}

/// Which primitives of a picture a task draws.
#[derive(Clone, Copy, Debug, PartialEq, Eq, Structural)]
pub struct BatchFilter {
    pub sub_slice_index: SubSliceIndex,
}

/// What a picture task knows of the tile it draws.
#[derive(Clone, Copy, Debug, PartialEq, Eq, Structural)]
pub struct PictureTask {
    pub pic_index: PictureIndex,
    pub batch_filter: Option<BatchFilter>,
    pub scissor_rect: Option<DeviceIntRect>,
    pub valid_rect: Option<DeviceIntRect>,
}

/// The kind of a render task.
#[derive(Clone, Copy, Debug, PartialEq, Eq, Structural)]
pub enum RenderTaskKind {
    Picture(PictureTask),
    Other,
}

/// Where a render task draws.
#[derive(Clone, Copy, Debug, PartialEq, Eq, Structural)]
pub enum RenderTaskLocation {
    /// A surface that outlives the frame.
    Static { surface: StaticRenderTaskSurface },
    /// Anywhere else.
    Other,
}

/// A task of the render task graph.
#[derive(Clone, Copy, Debug, PartialEq, Eq, Structural)]
pub struct RenderTask {
    pub kind: RenderTaskKind,
    pub location: RenderTaskLocation,
}

/// The id of a picture cache slice.
#[derive(Clone, Copy, Debug, PartialEq, Eq, Structural)]
pub struct SliceId(pub usize);

/// What frame building reads of the tile cache of a picture: its slice,
/// and the colors that decide what its tiles are cleared to.
#[derive(Clone, Copy, Debug)]
pub struct TileCacheInfo<C> {
    pub slice_id: SliceId,
    pub background_color: Option<C>,
    /// The color of the backdrop primitive, where the backdrop is a color.
    pub backdrop_color: Option<C>,
}

/// A target allocated for this frame, made for a screen of `screen_size`
/// and allowed fast clears where the GPU supports them, with the tasks
/// drawn into it.
pub struct RenderTarget {
    pub texture_id: CacheTextureId,
    pub screen_size: DeviceIntSize,
    pub gpu_supports_fast_clears: bool,
    pub used_rect: DeviceIntRect,
    pub task_ids: Vec<RenderTaskId>,
}

impl View for RenderTarget {
    type V = (CacheTextureId, DeviceIntSize, bool, DeviceIntRect, Seq<RenderTaskId>);

    open spec fn view(&self) -> (CacheTextureId, DeviceIntSize, bool, DeviceIntRect, Seq<RenderTaskId>) {
        (
            self.texture_id,
            self.screen_size,
            self.gpu_supports_fast_clears,
            self.used_rect,
            self.task_ids@,
        )
    }
}

/// A texture cache texture, with the tasks drawn into it.
pub struct TextureCacheRenderTarget {
    pub texture: CacheTextureId,
    pub target_kind: RenderTargetKind,
    pub task_ids: Vec<RenderTaskId>,
}

impl View for TextureCacheRenderTarget {
    type V = (CacheTextureId, RenderTargetKind, Seq<RenderTaskId>);

    open spec fn view(&self) -> (CacheTextureId, RenderTargetKind, Seq<RenderTaskId>) {
        (self.texture, self.target_kind, self.task_ids@)
    }
}

/// The batches of a picture cache tile, clipped to the tile's scissor
/// rectangle.
#[derive(Clone, Copy, Debug, PartialEq, Eq, Structural)]
pub struct AlphaBatchContainer {
    pub task_scissor_rect: Option<DeviceIntRect>,
}

/// A picture cache tile to draw: the texture it is drawn into, the color it
/// is cleared to, its batches, and its dirty and valid rectangles.
#[derive(Clone, Copy, Debug)]
pub struct PictureCacheTarget<C> {
    pub surface: ResolvedSurfaceTexture,
    pub clear_color: Option<C>,
    pub alpha_batch_container: AlphaBatchContainer,
    pub dirty_rect: DeviceIntRect,
    pub valid_rect: DeviceIntRect,
}

/// A pass made ready for rendering.
pub struct RenderPass<C> {
    pub color: Vec<RenderTarget>,
    pub alpha: Vec<RenderTarget>,
    pub texture_cache: Vec<TextureCacheRenderTarget>,
    pub picture_cache: Vec<PictureCacheTarget<C>>,
}

/// The views of a sequence of targets.
pub open spec fn target_views(v: Seq<RenderTarget>) -> Seq<
    (CacheTextureId, DeviceIntSize, bool, DeviceIntRect, Seq<RenderTaskId>),
> {
    v.map_values(|t: RenderTarget| t@)
}

pub open spec fn texture_target_views(v: Seq<TextureCacheRenderTarget>) -> Seq<
    (CacheTextureId, RenderTargetKind, Seq<RenderTaskId>),
> {
    v.map_values(|t: TextureCacheRenderTarget| t@)
}

/// The targets of kind `kind` that the dynamic sub passes of `subs` draw
/// to, one per sub pass, in order, each made for `screen_size` and the
/// fast-clear flag.
pub open spec fn dynamic_targets(
    subs: Seq<SubPass>,
    kind: RenderTargetKind,
    screen_size: DeviceIntSize,
    gpu_supports_fast_clears: bool,
) -> Seq<(CacheTextureId, DeviceIntSize, bool, DeviceIntRect, Seq<RenderTaskId>)>
    decreases subs.len(),
{
    if subs.len() == 0 {
        Seq::empty()
    } else {
        let rest = dynamic_targets(subs.drop_last(), kind, screen_size, gpu_supports_fast_clears);
        match subs.last().surface {
            SubPassSurface::Dynamic { target_kind, texture_id, used_rect } => if target_kind
                == kind {
                rest.push(
                    (
                        texture_id,
                        screen_size,
                        gpu_supports_fast_clears,
                        used_rect,
                        subs.last().task_ids@,
                    ),
                )
            } else {
                rest
            },
            _ => rest,
        }
    }
}

/// The position of the entry for `texture`, or -1 where there is none.
pub open spec fn texture_index(
    entries: Seq<(CacheTextureId, RenderTargetKind, Seq<RenderTaskId>)>,
    texture: CacheTextureId,
) -> int
    decreases entries.len(),
{
    if entries.len() == 0 {
        -1
    } else if entries.last().0 == texture {
        entries.len() - 1
    } else {
        texture_index(entries.drop_last(), texture)
    }
}

/// The texture cache targets of `subs`: one per texture, in the order the
/// textures first occur, of the kind given where the texture first occurs,
/// with the tasks of all sub passes that draw to it, in order.
pub open spec fn texture_cache_targets(subs: Seq<SubPass>) -> Seq<
    (CacheTextureId, RenderTargetKind, Seq<RenderTaskId>),
>
    decreases subs.len(),
{
    if subs.len() == 0 {
        Seq::empty()
    } else {
        let rest = texture_cache_targets(subs.drop_last());
        match subs.last().surface {
            SubPassSurface::Persistent {
                surface: StaticRenderTaskSurface::TextureCache { target_kind, texture },
            } => {
                let i = texture_index(rest, texture);
                if i < 0 {
                    rest.push((texture, target_kind, subs.last().task_ids@))
                } else {
                    rest.update(i, (texture, rest[i].1, rest[i].2 + subs.last().task_ids@))
                }
            },
            _ => rest,
        }
    }
}

/// What the task `t` knows of the tile it draws.
pub open spec fn picture_task(tasks: Seq<RenderTask>, t: RenderTaskId) -> PictureTask {
    tasks[t.0 as int].kind->Picture_0
}

/// The position of the group of `pic`, or -1 where there is none.
pub open spec fn group_index(groups: Seq<(PictureIndex, Seq<RenderTaskId>)>, pic: PictureIndex) -> int
    decreases groups.len(),
{
    if groups.len() == 0 {
        -1
    } else if groups.last().0 == pic {
        groups.len() - 1
    } else {
        group_index(groups.drop_last(), pic)
    }
}

/// The picture cache tasks of `subs` grouped by their picture: one group
/// per picture, in the order the pictures first occur, with its tasks in order.
pub open spec fn picture_groups(subs: Seq<SubPass>, tasks: Seq<RenderTask>) -> Seq<
    (PictureIndex, Seq<RenderTaskId>),
>
    decreases subs.len(),
{
    if subs.len() == 0 {
        Seq::empty()
    } else {
        let rest = picture_groups(subs.drop_last(), tasks);
        match subs.last().surface {
            SubPassSurface::Persistent { surface: StaticRenderTaskSurface::PictureCache { .. } } => {
                let t = subs.last().task_ids@[0];
                let pic = picture_task(tasks, t).pic_index;
                let i = group_index(rest, pic);
                if i < 0 {
                    rest.push((pic, seq![t]))
                } else {
                    rest.update(i, (pic, rest[i].1.push(t)))
                }
            },
            _ => rest,
        }
    }
}

/// The color a picture cache tile is cleared to: on the primary sub slice,
/// the backdrop color if the backdrop is a color, else the background color
/// of the tile cache, else transparent; on any other, transparent.
pub open spec fn clear_color<C>(
    filter: Option<BatchFilter>,
    colors: TileCacheInfo<C>,
    transparent: C,
) -> C {
    if filter is Some && filter->0.sub_slice_index.0 == 0 {
        match colors.backdrop_color {
            Some(c) => c,
            None => match colors.background_color {
                Some(c) => c,
                None => transparent,
            },
        }
    } else {
        transparent
    }
}

/// The location is a picture cache tile.
pub open spec fn is_picture_cache_location(location: RenderTaskLocation) -> bool {
    location matches RenderTaskLocation::Static {
        surface: StaticRenderTaskSurface::PictureCache { .. },
    }
}

/// The texture of a picture cache tile location.
pub open spec fn picture_cache_surface(location: RenderTaskLocation) -> ResolvedSurfaceTexture {
    match location {
        RenderTaskLocation::Static { surface: StaticRenderTaskSurface::PictureCache { surface } } => surface,
        _ => arbitrary(),
    }
}

/// The target for picture cache task `t` of picture `pic`.
pub open spec fn picture_target<C>(
    tasks: Seq<RenderTask>,
    pictures: Seq<Option<TileCacheInfo<C>>>,
    pic: PictureIndex,
    t: RenderTaskId,
    transparent: C,
) -> PictureCacheTarget<C> {
    let info = picture_task(tasks, t);
    PictureCacheTarget {
        surface: picture_cache_surface(tasks[t.0 as int].location),
        clear_color: Some(clear_color(info.batch_filter, pictures[pic.0 as int]->0, transparent)),
        alpha_batch_container: AlphaBatchContainer { task_scissor_rect: info.scissor_rect },
        dirty_rect: info.scissor_rect->0,
        valid_rect: info.valid_rect->0,
    }
}

/// The targets of one group of picture cache tasks, in task order.
pub open spec fn group_targets<C>(
    tasks: Seq<RenderTask>,
    pictures: Seq<Option<TileCacheInfo<C>>>,
    group: (PictureIndex, Seq<RenderTaskId>),
    transparent: C,
) -> Seq<PictureCacheTarget<C>> {
    group.1.map_values(|t: RenderTaskId| picture_target(tasks, pictures, group.0, t, transparent))
}

/// The targets of all groups, group after group.
pub open spec fn picture_targets<C>(
    tasks: Seq<RenderTask>,
    pictures: Seq<Option<TileCacheInfo<C>>>,
    groups: Seq<(PictureIndex, Seq<RenderTaskId>)>,
    transparent: C,
) -> Seq<PictureCacheTarget<C>>
    decreases groups.len(),
{
    if groups.len() == 0 {
        Seq::empty()
    } else {
        picture_targets(tasks, pictures, groups.drop_last(), transparent) + group_targets(
            tasks,
            pictures,
            groups.last(),
            transparent,
        )
    }
}

/// Task `t` is a picture task that draws a picture cache tile, whose
/// picture is a tile cache and whose scissor and valid rectangles are set.
pub open spec fn picture_task_ready<C>(
    tasks: Seq<RenderTask>,
    pictures: Seq<Option<TileCacheInfo<C>>>,
    t: RenderTaskId,
) -> bool {
    &&& t.0 < tasks.len()
    &&& tasks[t.0 as int].kind is Picture
    &&& is_picture_cache_location(tasks[t.0 as int].location)
    &&& picture_task(tasks, t).pic_index.0 < pictures.len()
    &&& pictures[picture_task(tasks, t).pic_index.0 as int] is Some
    &&& picture_task(tasks, t).scissor_rect is Some
    &&& picture_task(tasks, t).valid_rect is Some
}

/// A sub pass can be built: it does not draw to a read-only surface, and a
/// picture cache sub pass has exactly one task, which is ready.
pub open spec fn sub_pass_buildable<C>(
    s: SubPass,
    tasks: Seq<RenderTask>,
    pictures: Seq<Option<TileCacheInfo<C>>>,
) -> bool {
    match s.surface {
        SubPassSurface::Dynamic { .. } => true,
        SubPassSurface::Persistent { surface } => match surface {
            StaticRenderTaskSurface::PictureCache { .. } => s.task_ids@.len() == 1
                && picture_task_ready(tasks, pictures, s.task_ids@[0]),
            StaticRenderTaskSurface::TextureCache { .. } => true,
            StaticRenderTaskSurface::ReadOnly => false,
        },
    }
}

pub open spec fn pass_buildable<C>(
    subs: Seq<SubPass>,
    tasks: Seq<RenderTask>,
    pictures: Seq<Option<TileCacheInfo<C>>>,
) -> bool {
    forall|i: int| 0 <= i < subs.len() ==> sub_pass_buildable(#[trigger] subs[i], tasks, pictures)
}

/// What `build_render_pass` makes of a pass.
pub open spec fn render_pass_built<C>(
    pass: RenderPass<C>,
    subs: Seq<SubPass>,
    screen_size: DeviceIntSize,
    tasks: Seq<RenderTask>,
    pictures: Seq<Option<TileCacheInfo<C>>>,
    gpu_supports_fast_clears: bool,
    transparent: C,
) -> bool {
    &&& target_views(pass.color@) == dynamic_targets(
        subs,
        RenderTargetKind::Color,
        screen_size,
        gpu_supports_fast_clears,
    )
    &&& target_views(pass.alpha@) == dynamic_targets(
        subs,
        RenderTargetKind::Alpha,
        screen_size,
        gpu_supports_fast_clears,
    )
    &&& texture_target_views(pass.texture_cache@) == texture_cache_targets(subs)
    &&& pass.picture_cache@ == picture_targets(
        tasks,
        pictures,
        picture_groups(subs, tasks),
        transparent,
    )
}

fn copy_task_ids(ids: &Vec<RenderTaskId>) -> (res: Vec<RenderTaskId>)
    ensures
        res@ == ids@,
{
    let mut res: Vec<RenderTaskId> = Vec::new();
    let mut i: usize = 0;
    while i < ids.len()
        invariant
            i <= ids@.len(),
            res@ == ids@.take(i as int),
        decreases ids.len() - i,
    {
        res.push(ids[i]);
        assert(ids@.take(i + 1) =~= ids@.take(i as int).push(ids@[i as int]));
        i = i + 1;
    }
    assert(ids@.take(ids@.len() as int) =~= ids@);
    res
}

/// The color a picture cache tile is cleared to.
pub fn tile_clear_color<C: Copy>(
    batch_filter: Option<BatchFilter>,
    colors: &TileCacheInfo<C>,
    transparent: C,
) -> (res: C)
    ensures
        res == clear_color(batch_filter, *colors, transparent),
{
    let mut clear_color = transparent;
    if let Some(batch_filter) = batch_filter {
        if batch_filter.sub_slice_index.is_primary() {
            if let Some(background_color) = colors.background_color {
                clear_color = background_color;
            }
            // If this picture cache has a valid color backdrop, we will use
            // that as the clear color, skipping the draw of the backdrop
            // primitive (and anything prior to it) during batching.
            if let Some(color) = colors.backdrop_color {
                clear_color = color;
            }
        }
    }
    clear_color
}

pub open spec fn group_views(v: Seq<(PictureIndex, Vec<RenderTaskId>)>) -> Seq<
    (PictureIndex, Seq<RenderTaskId>),
> {
    v.map_values(|g: (PictureIndex, Vec<RenderTaskId>)| (g.0, g.1@))
}

proof fn lemma_texture_index(
    entries: Seq<(CacheTextureId, RenderTargetKind, Seq<RenderTaskId>)>,
    texture: CacheTextureId,
)
    ensures
        -1 <= texture_index(entries, texture) < entries.len(),
        texture_index(entries, texture) >= 0 ==> entries[texture_index(entries, texture)].0
            == texture,
        texture_index(entries, texture) == -1 ==> forall|i: int|
            0 <= i < entries.len() ==> (#[trigger] entries[i]).0 != texture,
    decreases entries.len(),
{
    if entries.len() > 0 {
        lemma_texture_index(entries.drop_last(), texture);
        if entries.last().0 != texture {
            assert forall|i: int| 0 <= i < entries.drop_last().len() implies #[trigger] entries[i]
                == entries.drop_last()[i] by {}
        }
    }
}

proof fn lemma_group_index(groups: Seq<(PictureIndex, Seq<RenderTaskId>)>, pic: PictureIndex)
    ensures
        -1 <= group_index(groups, pic) < groups.len(),
        group_index(groups, pic) >= 0 ==> groups[group_index(groups, pic)].0 == pic,
        group_index(groups, pic) == -1 ==> forall|i: int|
            0 <= i < groups.len() ==> (#[trigger] groups[i]).0 != pic,
    decreases groups.len(),
{
    if groups.len() > 0 {
        lemma_group_index(groups.drop_last(), pic);
        if groups.last().0 != pic {
            assert forall|i: int| 0 <= i < groups.drop_last().len() implies #[trigger] groups[i]
                == groups.drop_last()[i] by {}
        }
    }
}

fn find_texture(entries: &Vec<TextureCacheRenderTarget>, texture: CacheTextureId) -> (res: Option<
    usize,
>)
    ensures
        match res {
            Some(j) => j < entries@.len() && j as int == texture_index(
                texture_target_views(entries@),
                texture,
            ),
            None => texture_index(texture_target_views(entries@), texture) == -1,
        },
{
    let ghost views = texture_target_views(entries@);
    let mut j: usize = entries.len();
    assert(views.take(j as int) =~= views);
    while j > 0
        invariant
            j <= entries@.len(),
            views == texture_target_views(entries@),
            texture_index(views, texture) == texture_index(views.take(j as int), texture),
        decreases j,
    {
        assert(views.take(j as int).last() == views[j - 1]);
        if entries[j - 1].texture == texture {
            return Some(j - 1);
        }
        assert(views.take(j as int).drop_last() =~= views.take(j - 1));
        j = j - 1;
    }
    None
}

fn find_group(groups: &Vec<(PictureIndex, Vec<RenderTaskId>)>, pic: PictureIndex) -> (res: Option<
    usize,
>)
    ensures
        match res {
            Some(j) => j < groups@.len() && j as int == group_index(group_views(groups@), pic),
            None => group_index(group_views(groups@), pic) == -1,
        },
{
    let ghost views = group_views(groups@);
    let mut j: usize = groups.len();
    assert(views.take(j as int) =~= views);
    while j > 0
        invariant
            j <= groups@.len(),
            views == group_views(groups@),
            group_index(views, pic) == group_index(views.take(j as int), pic),
        decreases j,
    {
        assert(views.take(j as int).last() == views[j - 1]);
        if groups[j - 1].0 == pic {
            return Some(j - 1);
        }
        assert(views.take(j as int).drop_last() =~= views.take(j - 1));
        j = j - 1;
    }
    None
}

/// The task's picture information, where it is a picture task.
pub fn picture_info(task: &RenderTask) -> (res: Option<PictureTask>)
    ensures
        res is Some <==> task.kind is Picture,
        res is Some ==> res->0 == task.kind->Picture_0,
{
    match task.kind {
        RenderTaskKind::Picture(info) => Some(info),
        RenderTaskKind::Other => None,
    }
}

/// The texture of the picture cache tile that the task draws, where it
/// draws one.
pub fn picture_cache_surface_of(task: &RenderTask) -> (res: Option<ResolvedSurfaceTexture>)
    ensures
        res is Some <==> is_picture_cache_location(task.location),
        res is Some ==> res->0 == picture_cache_surface(task.location),
{
    match task.location {
        RenderTaskLocation::Static { surface: StaticRenderTaskSurface::PictureCache { surface } } => Some(
            surface,
        ),
        _ => None,
    }
}

fn append_task_ids(dst: &mut Vec<RenderTaskId>, src: &Vec<RenderTaskId>)
    ensures
        final(dst)@ == old(dst)@ + src@,
{
    let mut i: usize = 0;
    while i < src.len()
        invariant
            i <= src@.len(),
            dst@ == old(dst)@ + src@.take(i as int),
        decreases src.len() - i,
    {
        dst.push(src[i]);
        assert(src@.take(i + 1) =~= src@.take(i as int).push(src@[i as int]));
        assert(old(dst)@ + src@.take(i + 1) =~= (old(dst)@ + src@.take(i as int)).push(src@[i as int]));
        i = i + 1;
    }
    assert(src@.take(src@.len() as int) =~= src@);
}

/// Every task in a group of picture cache tasks is ready and belongs to the
/// group's picture.
proof fn lemma_groups_ready<C>(
    subs: Seq<SubPass>,
    tasks: Seq<RenderTask>,
    pictures: Seq<Option<TileCacheInfo<C>>>,
)
    requires
        pass_buildable(subs, tasks, pictures),
    ensures
        forall|g: int, k: int|
            0 <= g < picture_groups(subs, tasks).len() && 0 <= k < picture_groups(
                subs,
                tasks,
            )[g].1.len() ==> {
                let t = #[trigger] picture_groups(subs, tasks)[g].1[k];
                &&& picture_task_ready(tasks, pictures, t)
                &&& picture_task(tasks, t).pic_index == picture_groups(subs, tasks)[g].0
            },
    decreases subs.len(),
{
    if subs.len() > 0 {
        let prefix = subs.drop_last();
        assert forall|i: int| 0 <= i < prefix.len() implies sub_pass_buildable(
            #[trigger] prefix[i],
            tasks,
            pictures,
        ) by {
            assert(prefix[i] == subs[i]);
        }
        lemma_groups_ready(prefix, tasks, pictures);
        assert(sub_pass_buildable(subs[subs.len() - 1], tasks, pictures));
        let rest = picture_groups(prefix, tasks);
        match subs.last().surface {
            SubPassSurface::Persistent { surface: StaticRenderTaskSurface::PictureCache { .. } } => {
                let t = subs.last().task_ids@[0];
                lemma_group_index(rest, picture_task(tasks, t).pic_index);
            },
            _ => {},
        }
    }
}

/// Processes this pass to prepare it for rendering: allocates a target per
/// dynamic sub pass, gathers the tasks of each texture cache texture, and
/// makes a target per picture cache tile, grouped by picture, with the color
/// the tile is cleared to.
pub fn build_render_pass<C: Copy>(
    src_pass: &Pass,
    screen_size: DeviceIntSize,
    render_tasks: &[RenderTask],
    pictures: &[Option<TileCacheInfo<C>>],
    gpu_supports_fast_clears: bool,
    transparent: C,
) -> (pass: RenderPass<C>)
    requires
        pass_buildable(src_pass.sub_passes@, render_tasks@, pictures@),
    ensures
        render_pass_built(
            pass,
            src_pass.sub_passes@,
            screen_size,
            render_tasks@,
            pictures@,
            gpu_supports_fast_clears,
            transparent,
        ),
{
    let subs = &src_pass.sub_passes;
    let mut color: Vec<RenderTarget> = Vec::new();
    let mut alpha: Vec<RenderTarget> = Vec::new();
    let mut texture_cache: Vec<TextureCacheRenderTarget> = Vec::new();
    // Collect a list of picture cache tasks, keyed by picture index.
    let mut groups: Vec<(PictureIndex, Vec<RenderTaskId>)> = Vec::new();
    let mut i: usize = 0;
    while i < subs.len()
        invariant
            i <= subs@.len(),
            pass_buildable(subs@, render_tasks@, pictures@),
            target_views(color@) == dynamic_targets(
                subs@.take(i as int),
                RenderTargetKind::Color,
                screen_size,
                gpu_supports_fast_clears,
            ),
            target_views(alpha@) == dynamic_targets(
                subs@.take(i as int),
                RenderTargetKind::Alpha,
                screen_size,
                gpu_supports_fast_clears,
            ),
            texture_target_views(texture_cache@) == texture_cache_targets(subs@.take(i as int)),
            group_views(groups@) == picture_groups(subs@.take(i as int), render_tasks@),
        decreases subs.len() - i,
    {
        let sub_pass = &subs[i];
        assert(subs@.take(i + 1).drop_last() =~= subs@.take(i as int));
        assert(subs@.take(i + 1).last() == subs@[i as int]);
        assert(sub_pass_buildable(subs@[i as int], render_tasks@, pictures@));
        match sub_pass.surface {
            SubPassSurface::Dynamic { target_kind, texture_id, used_rect } => {
                let target = RenderTarget {
                    texture_id,
                    screen_size,
                    gpu_supports_fast_clears,
                    used_rect,
                    task_ids: copy_task_ids(&sub_pass.task_ids),
                };
                match target_kind {
                    RenderTargetKind::Color => {
                        let ghost before = color@;
                        color.push(target);
                        assert(target_views(color@) =~= target_views(before).push(target@));
                    },
                    RenderTargetKind::Alpha => {
                        let ghost before = alpha@;
                        alpha.push(target);
                        assert(target_views(alpha@) =~= target_views(before).push(target@));
                    },
                }
            },
            SubPassSurface::Persistent { surface: StaticRenderTaskSurface::PictureCache { .. } } => {
                let task_id = sub_pass.task_ids[0];
                let info = picture_info(&render_tasks[task_id.0 as usize]).unwrap();
                let pic_index = info.pic_index;
                let ghost before = group_views(groups@);
                proof {
                    lemma_group_index(before, pic_index);
                }
                match find_group(&groups, pic_index) {
                    Some(j) => {
                        let mut group: (PictureIndex, Vec<RenderTaskId>) = (pic_index, Vec::new());
                        groups.set_and_swap(j, &mut group);
                        group.1.push(task_id);
                        groups.set(j, group);
                        assert(group_views(groups@) =~= before.update(
                            j as int,
                            (pic_index, before[j as int].1.push(task_id)),
                        ));
                    },
                    None => {
                        let mut tasks: Vec<RenderTaskId> = Vec::new();
                        tasks.push(task_id);
                        groups.push((pic_index, tasks));
                        assert(group_views(groups@) =~= before.push((pic_index, seq![task_id])));
                    },
                }
            },
            SubPassSurface::Persistent {
                surface: StaticRenderTaskSurface::TextureCache { target_kind, texture },
            } => {
                let ghost before = texture_target_views(texture_cache@);
                proof {
                    lemma_texture_index(before, texture);
                }
                match find_texture(&texture_cache, texture) {
                    Some(j) => {
                        let mut entry = TextureCacheRenderTarget {
                            texture,
                            target_kind,
                            task_ids: Vec::new(),
                        };
                        texture_cache.set_and_swap(j, &mut entry);
                        append_task_ids(&mut entry.task_ids, &sub_pass.task_ids);
                        texture_cache.set(j, entry);
                        assert(texture_target_views(texture_cache@) =~= before.update(
                            j as int,
                            (texture, before[j as int].1, before[j as int].2 + sub_pass.task_ids@),
                        ));
                    },
                    None => {
                        let entry = TextureCacheRenderTarget {
                            texture,
                            target_kind,
                            task_ids: copy_task_ids(&sub_pass.task_ids),
                        };
                        texture_cache.push(entry);
                        assert(texture_target_views(texture_cache@) =~= before.push(entry@));
                    },
                }
            },
            SubPassSurface::Persistent { surface: StaticRenderTaskSurface::ReadOnly } => {},
        }
        i = i + 1;
    }
    assert(subs@.take(subs@.len() as int) =~= subs@);

    // For each picture in this pass that has picture cache tiles, make a
    // target per task.
    let ghost gviews = group_views(groups@);
    proof {
        lemma_groups_ready(subs@, render_tasks@, pictures@);
    }
    let mut picture_cache: Vec<PictureCacheTarget<C>> = Vec::new();
    let mut g: usize = 0;
    while g < groups.len()
        invariant
            g <= groups@.len(),
            gviews == group_views(groups@),
            gviews == picture_groups(subs@, render_tasks@),
            forall|g2: int, k: int|
                0 <= g2 < gviews.len() && 0 <= k < gviews[g2].1.len() ==> {
                    let t = #[trigger] gviews[g2].1[k];
                    &&& picture_task_ready(render_tasks@, pictures@, t)
                    &&& picture_task(render_tasks@, t).pic_index == gviews[g2].0
                },
            picture_cache@ == picture_targets(
                render_tasks@,
                pictures@,
                gviews.take(g as int),
                transparent,
            ),
        decreases groups.len() - g,
    {
        let pic_index = groups[g].0;
        let task_ids = &groups[g].1;
        let ghost done = picture_cache@;
        let ghost targets = group_targets(render_tasks@, pictures@, gviews[g as int], transparent);
        assert(gviews[g as int] == (pic_index, task_ids@));
        let mut k: usize = 0;
        while k < task_ids.len()
            invariant
                k <= task_ids@.len(),
                gviews[g as int] == (pic_index, task_ids@),
                targets == group_targets(render_tasks@, pictures@, gviews[g as int], transparent),
                forall|k2: int|
                    0 <= k2 < task_ids@.len() ==> {
                        let t = #[trigger] task_ids@[k2];
                        &&& picture_task_ready(render_tasks@, pictures@, t)
                        &&& picture_task(render_tasks@, t).pic_index == pic_index
                    },
                picture_cache@ == done + targets.take(k as int),
            decreases task_ids.len() - k,
        {
            let task_id = task_ids[k];
            assert(picture_task_ready(render_tasks@, pictures@, task_ids@[k as int]));
            let info = picture_info(&render_tasks[task_id.0 as usize]).unwrap();
            let colors = pictures[pic_index.0].unwrap();
            let surface = picture_cache_surface_of(&render_tasks[task_id.0 as usize]).unwrap();
            let scissor_rect = info.scissor_rect.unwrap();
            let target = PictureCacheTarget {
                surface,
                clear_color: Some(tile_clear_color(info.batch_filter, &colors, transparent)),
                alpha_batch_container: AlphaBatchContainer { task_scissor_rect: Some(scissor_rect) },
                dirty_rect: scissor_rect,
                valid_rect: info.valid_rect.unwrap(),
            };
            picture_cache.push(target);
            assert(targets.take(k + 1) =~= targets.take(k as int).push(target));
            k = k + 1;
        }
        assert(targets.take(task_ids@.len() as int) =~= targets);
        assert(gviews.take(g + 1).drop_last() =~= gviews.take(g as int));
        g = g + 1;
    }
    assert(gviews.take(groups@.len() as int) =~= gviews);
    RenderPass { color, alpha, texture_cache, picture_cache }
}

/// The number of tasks in texture cache entries.
pub open spec fn entry_task_count(entries: Seq<(CacheTextureId, RenderTargetKind, Seq<RenderTaskId>)>) -> int
    decreases entries.len(),
{
    if entries.len() == 0 {
        0
    } else {
        entry_task_count(entries.drop_last()) + entries.last().2.len()
    }
}

/// The number of tasks of the texture cache sub passes of `subs`.
pub open spec fn texture_sub_pass_task_count(subs: Seq<SubPass>) -> int
    decreases subs.len(),
{
    if subs.len() == 0 {
        0
    } else {
        texture_sub_pass_task_count(subs.drop_last()) + match subs.last().surface {
            SubPassSurface::Persistent {
                surface: StaticRenderTaskSurface::TextureCache { .. },
            } => subs.last().task_ids@.len() as int,
            _ => 0int,
        }
    }
}

/// The number of picture cache sub passes of `subs`.
pub open spec fn picture_sub_pass_count(subs: Seq<SubPass>) -> int
    decreases subs.len(),
{
    if subs.len() == 0 {
        0
    } else {
        picture_sub_pass_count(subs.drop_last()) + match subs.last().surface {
            SubPassSurface::Persistent { surface: StaticRenderTaskSurface::PictureCache { .. } } => 1int,
            _ => 0int,
        }
    }
}

/// The number of tasks in picture groups.
pub open spec fn group_task_count(groups: Seq<(PictureIndex, Seq<RenderTaskId>)>) -> int
    decreases groups.len(),
{
    if groups.len() == 0 {
        0
    } else {
        group_task_count(groups.drop_last()) + groups.last().1.len()
    }
}

proof fn lemma_entry_task_count_update(
    entries: Seq<(CacheTextureId, RenderTargetKind, Seq<RenderTaskId>)>,
    i: int,
    e: (CacheTextureId, RenderTargetKind, Seq<RenderTaskId>),
)
    requires
        0 <= i < entries.len(),
    ensures
        entry_task_count(entries.update(i, e)) == entry_task_count(entries) - entries[i].2.len()
            + e.2.len(),
    decreases entries.len(),
{
    if i < entries.len() - 1 {
        lemma_entry_task_count_update(entries.drop_last(), i, e);
        assert(entries.update(i, e).drop_last() =~= entries.drop_last().update(i, e));
    } else {
        assert(entries.update(i, e).drop_last() =~= entries.drop_last());
    }
}

proof fn lemma_group_task_count_update(
    groups: Seq<(PictureIndex, Seq<RenderTaskId>)>,
    i: int,
    e: (PictureIndex, Seq<RenderTaskId>),
)
    requires
        0 <= i < groups.len(),
    ensures
        group_task_count(groups.update(i, e)) == group_task_count(groups) - groups[i].1.len()
            + e.1.len(),
    decreases groups.len(),
{
    if i < groups.len() - 1 {
        lemma_group_task_count_update(groups.drop_last(), i, e);
        assert(groups.update(i, e).drop_last() =~= groups.drop_last().update(i, e));
    } else {
        assert(groups.update(i, e).drop_last() =~= groups.drop_last());
    }
}

/// No texture gets two texture cache targets in a pass.
pub proof fn lemma_texture_targets_distinct(subs: Seq<SubPass>)
    ensures
        forall|i: int, j: int|
            0 <= i < j < texture_cache_targets(subs).len() ==> (#[trigger] texture_cache_targets(
                subs,
            )[i]).0 != (#[trigger] texture_cache_targets(subs)[j]).0,
    decreases subs.len(),
{
    if subs.len() > 0 {
        lemma_texture_targets_distinct(subs.drop_last());
        let rest = texture_cache_targets(subs.drop_last());
        match subs.last().surface {
            SubPassSurface::Persistent {
                surface: StaticRenderTaskSurface::TextureCache { target_kind, texture },
            } => {
                lemma_texture_index(rest, texture);
            },
            _ => {},
        }
    }
}

/// Every task of a texture cache sub pass lands in exactly one texture
/// cache target: no task is lost and none is repeated.
pub proof fn lemma_texture_tasks_kept(subs: Seq<SubPass>)
    ensures
        entry_task_count(texture_cache_targets(subs)) == texture_sub_pass_task_count(subs),
    decreases subs.len(),
{
    if subs.len() > 0 {
        lemma_texture_tasks_kept(subs.drop_last());
        let rest = texture_cache_targets(subs.drop_last());
        match subs.last().surface {
            SubPassSurface::Persistent {
                surface: StaticRenderTaskSurface::TextureCache { target_kind, texture },
            } => {
                lemma_texture_index(rest, texture);
                let i = texture_index(rest, texture);
                if i >= 0 {
                    lemma_entry_task_count_update(
                        rest,
                        i,
                        (texture, rest[i].1, rest[i].2 + subs.last().task_ids@),
                    );
                } else {
                    assert(rest.push((texture, target_kind, subs.last().task_ids@)).drop_last()
                        =~= rest);
                }
            },
            _ => {},
        }
    }
}

/// No picture gets two groups of picture cache tasks in a pass, so each
/// picture is walked once.
pub proof fn lemma_picture_groups_distinct(subs: Seq<SubPass>, tasks: Seq<RenderTask>)
    ensures
        forall|i: int, j: int|
            0 <= i < j < picture_groups(subs, tasks).len() ==> (#[trigger] picture_groups(
                subs,
                tasks,
            )[i]).0 != (#[trigger] picture_groups(subs, tasks)[j]).0,
    decreases subs.len(),
{
    if subs.len() > 0 {
        lemma_picture_groups_distinct(subs.drop_last(), tasks);
        let rest = picture_groups(subs.drop_last(), tasks);
        match subs.last().surface {
            SubPassSurface::Persistent { surface: StaticRenderTaskSurface::PictureCache { .. } } => {
                lemma_group_index(rest, picture_task(tasks, subs.last().task_ids@[0]).pic_index);
            },
            _ => {},
        }
    }
}

/// A pass gets exactly one picture cache target per picture cache sub pass.
pub proof fn lemma_one_picture_target_per_tile<C>(
    subs: Seq<SubPass>,
    tasks: Seq<RenderTask>,
    pictures: Seq<Option<TileCacheInfo<C>>>,
    transparent: C,
)
    ensures
        picture_targets(tasks, pictures, picture_groups(subs, tasks), transparent).len()
            == picture_sub_pass_count(subs),
{
    lemma_picture_targets_len(tasks, pictures, picture_groups(subs, tasks), transparent);
    lemma_group_task_count(subs, tasks);
}

proof fn lemma_picture_targets_len<C>(
    tasks: Seq<RenderTask>,
    pictures: Seq<Option<TileCacheInfo<C>>>,
    groups: Seq<(PictureIndex, Seq<RenderTaskId>)>,
    transparent: C,
)
    ensures
        picture_targets(tasks, pictures, groups, transparent).len() == group_task_count(groups),
    decreases groups.len(),
{
    if groups.len() > 0 {
        lemma_picture_targets_len(tasks, pictures, groups.drop_last(), transparent);
    }
}

proof fn lemma_group_task_count(subs: Seq<SubPass>, tasks: Seq<RenderTask>)
    ensures
        group_task_count(picture_groups(subs, tasks)) == picture_sub_pass_count(subs),
    decreases subs.len(),
{
    if subs.len() > 0 {
        lemma_group_task_count(subs.drop_last(), tasks);
        let rest = picture_groups(subs.drop_last(), tasks);
        match subs.last().surface {
            SubPassSurface::Persistent { surface: StaticRenderTaskSurface::PictureCache { .. } } => {
                let t = subs.last().task_ids@[0];
                let pic = picture_task(tasks, t).pic_index;
                lemma_group_index(rest, pic);
                let i = group_index(rest, pic);
                if i >= 0 {
                    lemma_group_task_count_update(rest, i, (pic, rest[i].1.push(t)));
                } else {
                    assert(rest.push((pic, seq![t])).drop_last() =~= rest);
                }
            },
            _ => {},
        }
    }
}

/// The tasks of the texture cache sub passes of `subs` that draw to
/// `texture`, in order.
pub open spec fn texture_tasks_of(subs: Seq<SubPass>, texture: CacheTextureId) -> Seq<RenderTaskId>
    decreases subs.len(),
{
    if subs.len() == 0 {
        Seq::empty()
    } else {
        texture_tasks_of(subs.drop_last(), texture) + match subs.last().surface {
            SubPassSurface::Persistent {
                surface: StaticRenderTaskSurface::TextureCache { texture: t, .. },
            } => if t == texture {
                subs.last().task_ids@
            } else {
                Seq::empty()
            },
            _ => Seq::empty(),
        }
    }
}

/// Whether a texture cache sub pass of `subs` draws to `texture`.
pub open spec fn draws_to_texture(subs: Seq<SubPass>, texture: CacheTextureId) -> bool
    decreases subs.len(),
{
    if subs.len() == 0 {
        false
    } else {
        draws_to_texture(subs.drop_last(), texture) || match subs.last().surface {
            SubPassSurface::Persistent {
                surface: StaticRenderTaskSurface::TextureCache { texture: t, .. },
            } => t == texture,
            _ => false,
        }
    }
}

proof fn lemma_texture_index_update(
    entries: Seq<(CacheTextureId, RenderTargetKind, Seq<RenderTaskId>)>,
    i: int,
    e: (CacheTextureId, RenderTargetKind, Seq<RenderTaskId>),
    texture: CacheTextureId,
)
    requires
        0 <= i < entries.len(),
        e.0 == entries[i].0,
    ensures
        texture_index(entries.update(i, e), texture) == texture_index(entries, texture),
    decreases entries.len(),
{
    if i < entries.len() - 1 {
        assert(entries.update(i, e).drop_last() =~= entries.drop_last().update(i, e));
        lemma_texture_index_update(entries.drop_last(), i, e, texture);
    } else {
        assert(entries.update(i, e).drop_last() =~= entries.drop_last());
    }
}

/// The texture cache targets of a pass gather, for each texture drawn to,
/// all the tasks drawn to it, in order; a texture has a target exactly when
/// some sub pass draws to it.
pub proof fn lemma_texture_targets_gather_tasks(subs: Seq<SubPass>, texture: CacheTextureId)
    ensures
        texture_index(texture_cache_targets(subs), texture) >= 0 <==> draws_to_texture(
            subs,
            texture,
        ),
        texture_index(texture_cache_targets(subs), texture) >= 0 ==> texture_cache_targets(
            subs,
        )[texture_index(texture_cache_targets(subs), texture)].2 == texture_tasks_of(
            subs,
            texture,
        ),
        !draws_to_texture(subs, texture) ==> texture_tasks_of(subs, texture) == Seq::<
            RenderTaskId,
        >::empty(),
    decreases subs.len(),
{
    if subs.len() > 0 {
        let prefix = subs.drop_last();
        lemma_texture_targets_gather_tasks(prefix, texture);
        let rest = texture_cache_targets(prefix);
        lemma_texture_index(rest, texture);
        match subs.last().surface {
            SubPassSurface::Persistent {
                surface: StaticRenderTaskSurface::TextureCache { target_kind, texture: t },
            } => {
                lemma_texture_index(rest, t);
                let i = texture_index(rest, t);
                if i >= 0 {
                    let e = (t, rest[i].1, rest[i].2 + subs.last().task_ids@);
                    lemma_texture_index_update(rest, i, e, texture);
                } else {
                    let pushed = rest.push((t, target_kind, subs.last().task_ids@));
                    assert(pushed.drop_last() =~= rest);
                    if t == texture {
                        assert(texture_tasks_of(prefix, texture) =~= Seq::<RenderTaskId>::empty());
                        assert(texture_tasks_of(subs, texture) =~= subs.last().task_ids@);
                    }
                }
                if t != texture {
                    assert(texture_tasks_of(subs, texture) =~= texture_tasks_of(prefix, texture));
                }
            },
            _ => {
                assert(texture_tasks_of(subs, texture) =~= texture_tasks_of(prefix, texture));
            },
        }
    }
}

/// The picture cache tasks of `subs` that draw tiles of `pic`, in order.
pub open spec fn picture_tasks_of(subs: Seq<SubPass>, tasks: Seq<RenderTask>, pic: PictureIndex) -> Seq<
    RenderTaskId,
>
    decreases subs.len(),
{
    if subs.len() == 0 {
        Seq::empty()
    } else {
        picture_tasks_of(subs.drop_last(), tasks, pic) + match subs.last().surface {
            SubPassSurface::Persistent { surface: StaticRenderTaskSurface::PictureCache { .. } } => {
                let t = subs.last().task_ids@[0];
                if picture_task(tasks, t).pic_index == pic {
                    seq![t]
                } else {
                    Seq::empty()
                }
            },
            _ => Seq::empty(),
        }
    }
}

proof fn lemma_group_index_update(
    groups: Seq<(PictureIndex, Seq<RenderTaskId>)>,
    i: int,
    e: (PictureIndex, Seq<RenderTaskId>),
    pic: PictureIndex,
)
    requires
        0 <= i < groups.len(),
        e.0 == groups[i].0,
    ensures
        group_index(groups.update(i, e), pic) == group_index(groups, pic),
    decreases groups.len(),
{
    if i < groups.len() - 1 {
        assert(groups.update(i, e).drop_last() =~= groups.drop_last().update(i, e));
        lemma_group_index_update(groups.drop_last(), i, e, pic);
    } else {
        assert(groups.update(i, e).drop_last() =~= groups.drop_last());
    }
}

/// The group of a picture holds all the picture cache tasks of the pass
/// that draw tiles of that picture, in order; a picture has a group
/// exactly when it has such a task.
pub proof fn lemma_picture_groups_gather_tasks(
    subs: Seq<SubPass>,
    tasks: Seq<RenderTask>,
    pic: PictureIndex,
)
    ensures
        group_index(picture_groups(subs, tasks), pic) >= 0 <==> picture_tasks_of(
            subs,
            tasks,
            pic,
        ).len() > 0,
        group_index(picture_groups(subs, tasks), pic) >= 0 ==> picture_groups(subs, tasks)[group_index(
            picture_groups(subs, tasks),
            pic,
        )].1 == picture_tasks_of(subs, tasks, pic),
    decreases subs.len(),
{
    if subs.len() > 0 {
        let prefix = subs.drop_last();
        lemma_picture_groups_gather_tasks(prefix, tasks, pic);
        let rest = picture_groups(prefix, tasks);
        lemma_group_index(rest, pic);
        match subs.last().surface {
            SubPassSurface::Persistent { surface: StaticRenderTaskSurface::PictureCache { .. } } => {
                let t = subs.last().task_ids@[0];
                let p = picture_task(tasks, t).pic_index;
                lemma_group_index(rest, p);
                let i = group_index(rest, p);
                if i >= 0 {
                    lemma_group_index_update(rest, i, (p, rest[i].1.push(t)), pic);
                    if p == pic {
                        assert(picture_tasks_of(subs, tasks, pic) =~= picture_tasks_of(
                            prefix,
                            tasks,
                            pic,
                        ).push(t));
                    }
                } else {
                    let pushed = rest.push((p, seq![t]));
                    assert(pushed.drop_last() =~= rest);
                    if p == pic {
                        assert(picture_tasks_of(prefix, tasks, pic) =~= Seq::<RenderTaskId>::empty());
                        assert(picture_tasks_of(subs, tasks, pic) =~= seq![t]);
                    }
                }
                if p != pic {
                    assert(picture_tasks_of(subs, tasks, pic) =~= picture_tasks_of(prefix, tasks, pic));
                }
            },
            _ => {
                assert(picture_tasks_of(subs, tasks, pic) =~= picture_tasks_of(prefix, tasks, pic));
            },
        }
    }
}

/// On the primary sub slice, a tile cache with a color backdrop clears its
/// tiles to that color, whatever its background color; without a backdrop
/// color it clears to its background color where it has one, and to
/// transparent otherwise. On any other sub slice, and without a batch
/// filter, tiles are cleared to transparent.
pub proof fn lemma_clear_color_choice<C>(
    sub_slice: u8,
    background_color: Option<C>,
    backdrop_color: Option<C>,
    slice_id: SliceId,
    transparent: C,
)
    ensures
        ({
            let colors = TileCacheInfo { slice_id, background_color, backdrop_color };
            let filter = Some(BatchFilter { sub_slice_index: SubSliceIndex(sub_slice) });
            &&& sub_slice == 0 && backdrop_color is Some ==> clear_color(filter, colors, transparent)
                == backdrop_color->0
            &&& sub_slice == 0 && backdrop_color is None && background_color is Some ==> clear_color(
                filter,
                colors,
                transparent,
            ) == background_color->0
            &&& sub_slice == 0 && backdrop_color is None && background_color is None ==> clear_color(
                filter,
                colors,
                transparent,
            ) == transparent
            &&& sub_slice != 0 ==> clear_color(filter, colors, transparent) == transparent
            &&& clear_color(None, colors, transparent) == transparent
        }),
{
}

/// Every color or alpha target comes from a dynamic sub pass of that kind:
/// it has that sub pass's texture, used rectangle and tasks, and is made
/// for the screen size and fast-clear flag given.
pub proof fn lemma_dynamic_target_from_sub_pass(
    subs: Seq<SubPass>,
    kind: RenderTargetKind,
    screen_size: DeviceIntSize,
    gpu_supports_fast_clears: bool,
)
    ensures
        forall|k: int|
            0 <= k < dynamic_targets(subs, kind, screen_size, gpu_supports_fast_clears).len()
                ==> exists|i: int|
                0 <= i < subs.len() && {
                    let t = #[trigger] dynamic_targets(
                        subs,
                        kind,
                        screen_size,
                        gpu_supports_fast_clears,
                    )[k];
                    &&& (#[trigger] subs[i]).surface == SubPassSurface::Dynamic {
                        target_kind: kind,
                        texture_id: t.0,
                        used_rect: t.3,
                    }
                    &&& t.1 == screen_size
                    &&& t.2 == gpu_supports_fast_clears
                    &&& t.4 == subs[i].task_ids@
                },
    decreases subs.len(),
{
    if subs.len() > 0 {
        let prefix = subs.drop_last();
        lemma_dynamic_target_from_sub_pass(prefix, kind, screen_size, gpu_supports_fast_clears);
        let rest = dynamic_targets(prefix, kind, screen_size, gpu_supports_fast_clears);
        let all = dynamic_targets(subs, kind, screen_size, gpu_supports_fast_clears);
        assert forall|k: int| 0 <= k < all.len() implies exists|i: int|
            0 <= i < subs.len() && {
                let t = #[trigger] all[k];
                &&& (#[trigger] subs[i]).surface == SubPassSurface::Dynamic {
                    target_kind: kind,
                    texture_id: t.0,
                    used_rect: t.3,
                }
                &&& t.1 == screen_size
                &&& t.2 == gpu_supports_fast_clears
                &&& t.4 == subs[i].task_ids@
            } by {
            if k < rest.len() {
                assert(all[k] == rest[k]);
                let i = choose|i: int|
                    0 <= i < prefix.len() && {
                        let t = #[trigger] rest[k];
                        &&& (#[trigger] prefix[i]).surface == SubPassSurface::Dynamic {
                            target_kind: kind,
                            texture_id: t.0,
                            used_rect: t.3,
                        }
                        &&& t.1 == screen_size
                        &&& t.2 == gpu_supports_fast_clears
                        &&& t.4 == prefix[i].task_ids@
                    };
                assert(prefix[i] == subs[i]);
            } else {
                let i = subs.len() - 1;
                assert(subs[i] == subs.last());
            }
        }
    }
}

/// Every dynamic sub pass of a kind gets a target of that kind with its
/// texture, used rectangle and tasks, made for the screen size and
/// fast-clear flag given; and there are exactly as many targets of the kind
/// as such sub passes.
pub proof fn lemma_dynamic_sub_pass_gets_target(
    subs: Seq<SubPass>,
    kind: RenderTargetKind,
    screen_size: DeviceIntSize,
    gpu_supports_fast_clears: bool,
)
    ensures
        forall|i: int|
            0 <= i < subs.len() && (#[trigger] subs[i].surface) is Dynamic
                && subs[i].surface->target_kind == kind ==> exists|k: int|
                0 <= k < dynamic_targets(subs, kind, screen_size, gpu_supports_fast_clears).len()
                    && dynamic_targets(subs, kind, screen_size, gpu_supports_fast_clears)[k] == (
                    subs[i].surface->texture_id,
                    screen_size,
                    gpu_supports_fast_clears,
                    subs[i].surface->used_rect,
                    subs[i].task_ids@,
                ),
    decreases subs.len(),
{
    if subs.len() > 0 {
        let prefix = subs.drop_last();
        lemma_dynamic_sub_pass_gets_target(prefix, kind, screen_size, gpu_supports_fast_clears);
        let rest = dynamic_targets(prefix, kind, screen_size, gpu_supports_fast_clears);
        let all = dynamic_targets(subs, kind, screen_size, gpu_supports_fast_clears);
        assert forall|i: int|
            0 <= i < subs.len() && (#[trigger] subs[i].surface) is Dynamic
                && subs[i].surface->target_kind == kind implies exists|k: int|
            0 <= k < all.len() && all[k] == (
                subs[i].surface->texture_id,
                screen_size,
                gpu_supports_fast_clears,
                subs[i].surface->used_rect,
                subs[i].task_ids@,
            ) by {
            if i < subs.len() - 1 {
                assert(subs[i] == prefix[i]);
                let k = choose|k: int|
                    0 <= k < rest.len() && rest[k] == (
                        prefix[i].surface->texture_id,
                        screen_size,
                        gpu_supports_fast_clears,
                        prefix[i].surface->used_rect,
                        prefix[i].task_ids@,
                    );
                assert(all[k] == rest[k]);
            } else {
                assert(subs[i] == subs.last());
                assert(all[all.len() - 1] == all.last());
            }
        }
    }
}

/// A pass made only of dynamic sub passes has no texture cache target and
/// no picture cache target.
pub proof fn lemma_dynamic_only_pass_has_no_cache_targets<C>(
    subs: Seq<SubPass>,
    tasks: Seq<RenderTask>,
    pictures: Seq<Option<TileCacheInfo<C>>>,
    transparent: C,
)
    requires
        forall|i: int| 0 <= i < subs.len() ==> (#[trigger] subs[i].surface) is Dynamic,
    ensures
        texture_cache_targets(subs).len() == 0,
        picture_targets(tasks, pictures, picture_groups(subs, tasks), transparent).len() == 0,
    decreases subs.len(),
{
    if subs.len() > 0 {
        let prefix = subs.drop_last();
        assert forall|i: int| 0 <= i < prefix.len() implies (#[trigger] prefix[i].surface) is Dynamic by {
            assert(prefix[i] == subs[i]);
        }
        lemma_dynamic_only_pass_has_no_cache_targets(prefix, tasks, pictures, transparent);
        assert(subs.last() == subs[subs.len() - 1]);
    }
}

/// A pass with a texture cache sub pass has a texture cache target.
pub proof fn lemma_texture_sub_pass_gives_target(subs: Seq<SubPass>, i: int)
    requires
        0 <= i < subs.len(),
        subs[i].surface matches SubPassSurface::Persistent {
            surface: StaticRenderTaskSurface::TextureCache { .. },
        },
    ensures
        texture_cache_targets(subs).len() > 0,
    decreases subs.len(),
{
    let prefix = subs.drop_last();
    let rest = texture_cache_targets(prefix);
    if i < subs.len() - 1 {
        assert(prefix[i] == subs[i]);
        lemma_texture_sub_pass_gives_target(prefix, i);
    }
    match subs.last().surface {
        SubPassSurface::Persistent {
            surface: StaticRenderTaskSurface::TextureCache { target_kind, texture },
        } => {
            lemma_texture_index(rest, texture);
        },
        _ => {},
    }
}

/// Every picture cache target is made for one task of one group: its
/// surface is the texture of the task's tile, it is cleared as the group's
/// tile cache says for the task's batch filter, its batches are clipped to
/// the task's scissor rectangle, its dirty rectangle is that scissor
/// rectangle and its valid rectangle the task's valid rectangle.
pub proof fn lemma_picture_target_from_task<C>(
    tasks: Seq<RenderTask>,
    pictures: Seq<Option<TileCacheInfo<C>>>,
    groups: Seq<(PictureIndex, Seq<RenderTaskId>)>,
    transparent: C,
)
    requires
        forall|g: int, j: int|
            0 <= g < groups.len() && 0 <= j < groups[g].1.len() ==> picture_task_ready(
                tasks,
                pictures,
                #[trigger] groups[g].1[j],
            ),
    ensures
        forall|k: int|
            0 <= k < picture_targets(tasks, pictures, groups, transparent).len() ==> exists|
                g: int,
                j: int,
            |
                0 <= g < groups.len() && 0 <= j < groups[g].1.len() && {
                    let target = #[trigger] picture_targets(tasks, pictures, groups, transparent)[k];
                    let t = #[trigger] groups[g].1[j];
                    let info = picture_task(tasks, t);
                    &&& target.surface == picture_cache_surface(tasks[t.0 as int].location)
                    &&& target.clear_color == Some(
                        clear_color(info.batch_filter, pictures[groups[g].0.0 as int]->0, transparent),
                    )
                    &&& target.alpha_batch_container.task_scissor_rect == info.scissor_rect
                    &&& Some(target.dirty_rect) == info.scissor_rect
                    &&& Some(target.valid_rect) == info.valid_rect
                },
    decreases groups.len(),
{
    if groups.len() > 0 {
        let prefix = groups.drop_last();
        assert forall|g: int, j: int|
            0 <= g < prefix.len() && 0 <= j < prefix[g].1.len() implies picture_task_ready(
            tasks,
            pictures,
            #[trigger] prefix[g].1[j],
        ) by {
            assert(prefix[g] == groups[g]);
        }
        lemma_picture_target_from_task(tasks, pictures, prefix, transparent);
        let rest = picture_targets(tasks, pictures, prefix, transparent);
        let all = picture_targets(tasks, pictures, groups, transparent);
        let last = group_targets(tasks, pictures, groups.last(), transparent);
        assert forall|k: int| 0 <= k < all.len() implies exists|g: int, j: int|
            0 <= g < groups.len() && 0 <= j < groups[g].1.len() && {
                let target = #[trigger] all[k];
                let t = #[trigger] groups[g].1[j];
                let info = picture_task(tasks, t);
                &&& target.surface == picture_cache_surface(tasks[t.0 as int].location)
                &&& target.clear_color == Some(
                    clear_color(info.batch_filter, pictures[groups[g].0.0 as int]->0, transparent),
                )
                &&& target.alpha_batch_container.task_scissor_rect == info.scissor_rect
                &&& Some(target.dirty_rect) == info.scissor_rect
                &&& Some(target.valid_rect) == info.valid_rect
            } by {
            if k < rest.len() {
                assert(all[k] == rest[k]);
                let (g, j) = choose|g: int, j: int|
                    0 <= g < prefix.len() && 0 <= j < prefix[g].1.len() && {
                        let target = #[trigger] rest[k];
                        let t = #[trigger] prefix[g].1[j];
                        let info = picture_task(tasks, t);
                        &&& target.surface == picture_cache_surface(tasks[t.0 as int].location)
                        &&& target.clear_color == Some(
                            clear_color(
                                info.batch_filter,
                                pictures[prefix[g].0.0 as int]->0,
                                transparent,
                            ),
                        )
                        &&& target.alpha_batch_container.task_scissor_rect == info.scissor_rect
                        &&& Some(target.dirty_rect) == info.scissor_rect
                        &&& Some(target.valid_rect) == info.valid_rect
                    };
                assert(prefix[g] == groups[g]);
                assert(groups[g].1[j] == prefix[g].1[j]);
            } else {
                let g = groups.len() - 1;
                let j = k - rest.len();
                assert(groups[g] == groups.last());
                assert(all[k] == last[j]);
                assert(last[j] == picture_target(tasks, pictures, groups[g].0, groups[g].1[j], transparent));
                assert(picture_task_ready(tasks, pictures, groups[g].1[j]));
            }
        }
    }
}

} // verus!
