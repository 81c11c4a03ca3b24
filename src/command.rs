use vstd::prelude::*;

verus! {

/// The name of a render target: the scene that declared it and its index
/// in that scene.
#[derive(Clone, Copy, Debug, PartialEq, Eq, Structural)]
pub struct TargetId {
    pub scene: u32,
    pub index: u32,
}

/// How a path's winding numbers decide which points it covers.
#[derive(Clone, Copy, Debug, PartialEq, Eq, Structural)]
pub enum FillRule {
    /// Covered where the winding number is not zero.
    Winding,
    /// Covered where the winding number is odd.
    EvenOdd,
}

/// One render command as the frame protocol sees it: what it defines and
/// what it refers to. Texture pages and render targets are named by index.
#[derive(Clone, Copy, Debug, PartialEq, Eq, Structural)]
pub enum Command {
    /// Starts a frame that will draw `path_count` paths.
    Start { path_count: u64 },
    /// Allocates texture page `page`, defining its index.
    AllocatePage { page: u32 },
    /// Uploads texels into texture page `page`.
    UploadTexels { page: u32 },
    /// Declares render target `target`, stored in texture page `page`.
    DeclareTarget { target: TargetId, page: u32 },
    /// Uploads per-texture metadata.
    UploadMetadata,
    /// Queues `count` fills.
    AddFills { count: u64 },
    /// Draws the queued fills.
    FlushFills,
    /// Makes render target `target` the destination of later draws.
    PushTarget { target: TargetId },
    /// Returns to the render target below the top of the stack.
    PopTarget,
    /// Marks the start of tile compositing.
    BeginTileDrawing,
    /// Draws a batch of tiles, sampling texture page `texture` if there is
    /// one, with the mask's fill rule if it has a mask.
    DrawTiles { texture: Option<u32>, fill_rule: Option<FillRule> },
    /// Presents the frame.
    Finish,
}

} // verus!
