use vstd::prelude::*;
use crate::command::{Command, FillRule, TargetId};

verus! {

/// A breach of the frame protocol. Each one is fatal to the frame: the
/// command that caused it must not reach the device.
#[derive(Clone, Copy, Debug, PartialEq, Eq, Structural)]
pub enum ProtocolError {
    /// `begin_scene` while a scene is already open.
    SceneAlreadyOpen,
    /// `end_scene` or a command while no scene is open.
    NoOpenScene,
    /// A command referred to a texture page that this frame never allocated.
    UndefinedPage(u32),
    /// A command referred to a render target that this frame never declared.
    UndefinedTarget(TargetId),
    /// `PopTarget` with no render target pushed.
    EmptyTargetStack,
}

/// The abstract state of a frame: whether a scene is open, the resource
/// indices defined in it so far, and the stack of pushed render targets.
pub struct FrameView {
    pub open: bool,
    pub pages: Seq<u32>,
    pub targets: Seq<TargetId>,
    pub stack: Seq<TargetId>,
}

/// The state of a renderer that has no scene open and maps no resource.
pub open spec fn idle_view() -> FrameView {
    FrameView { open: false, pages: Seq::empty(), targets: Seq::empty(), stack: Seq::empty() }
}

/// `s` with `x` added, unless it already holds `x`.
pub open spec fn add_index<T>(s: Seq<T>, x: T) -> Seq<T> {
    if s.contains(x) { s } else { s.push(x) }
}

/// What `begin_scene` does to a frame.
pub open spec fn begin_outcome(v: FrameView) -> Result<FrameView, ProtocolError> {
    if v.open {
        Err(ProtocolError::SceneAlreadyOpen)
    } else {
        Ok(FrameView { open: true, pages: Seq::empty(), targets: Seq::empty(), stack: Seq::empty() })
    }
}

/// What `end_scene` does to a frame.
pub open spec fn end_outcome(v: FrameView) -> Result<FrameView, ProtocolError> {
    if !v.open {
        Err(ProtocolError::NoOpenScene)
    } else {
        Ok(FrameView { open: false, ..v })
    }
}

/// What rendering command `c` does to a frame: the first reference to an
/// undefined index is an error, otherwise the definitions are recorded.
pub open spec fn command_outcome(v: FrameView, c: Command) -> Result<FrameView, ProtocolError> {
    if !v.open {
        Err(ProtocolError::NoOpenScene)
    } else {
        match c {
            Command::AllocatePage { page } => Ok(FrameView { pages: add_index(v.pages, page), ..v }),
            Command::UploadTexels { page } => {
                if v.pages.contains(page) { Ok(v) } else { Err(ProtocolError::UndefinedPage(page)) }
            },
            Command::DeclareTarget { target, page } => {
                if v.pages.contains(page) {
                    Ok(FrameView { targets: add_index(v.targets, target), ..v })
                } else {
                    Err(ProtocolError::UndefinedPage(page))
                }
            },
            Command::PushTarget { target } => {
                if v.targets.contains(target) {
                    Ok(FrameView { stack: v.stack.push(target), ..v })
                } else {
                    Err(ProtocolError::UndefinedTarget(target))
                }
            },
            Command::PopTarget => {
                if v.stack.len() > 0 {
                    Ok(FrameView { stack: v.stack.drop_last(), ..v })
                } else {
                    Err(ProtocolError::EmptyTargetStack)
                }
            },
            Command::DrawTiles { texture, .. } => match texture {
                Some(p) => if v.pages.contains(p) { Ok(v) } else { Err(ProtocolError::UndefinedPage(p)) },
                None => Ok(v),
            },
            _ => Ok(v),
        }
    }
}

/// What rendering the commands `cs` in order does to a frame: the outcome
/// of the first command that fails, or the frame after all of them.
pub open spec fn commands_outcome(v: FrameView, cs: Seq<Command>) -> Result<FrameView, ProtocolError>
    decreases cs.len(),
{
    if cs.len() == 0 {
        Ok(v)
    } else {
        match commands_outcome(v, cs.drop_last()) {
            Ok(w) => command_outcome(w, cs.last()),
            Err(e) => Err(e),
        }
    }
}

/// One whole frame: `begin_scene`, the commands `cs` in order, `end_scene`.
pub open spec fn frame_outcome(v: FrameView, cs: Seq<Command>) -> Result<FrameView, ProtocolError> {
    match begin_outcome(v) {
        Ok(w) => match commands_outcome(w, cs) {
            Ok(x) => end_outcome(x),
            Err(e) => Err(e),
        },
        Err(e) => Err(e),
    }
}

/// The frame lifecycle of a renderer: `Idle --begin_scene--> SceneOpen
/// --render_command*--> SceneOpen --end_scene--> Idle`, with the resource
/// indices that the commands of the open scene have defined.
pub struct Frame {
    open: bool,
    pages: Vec<u32>,
    targets: Vec<TargetId>,
    stack: Vec<TargetId>,
}

impl View for Frame {
    type V = FrameView;

    closed spec fn view(&self) -> FrameView {
        FrameView { open: self.open, pages: self.pages@, targets: self.targets@, stack: self.stack@ }
    }
}

fn contains_index(s: &Vec<u32>, x: u32) -> (r: bool)
    ensures
        r == s@.contains(x),
{
    let mut i: usize = 0;
    while i < s.len()
        invariant
            i <= s.len(),
            forall|j: int| 0 <= j < i ==> s@[j] != x,
        decreases s.len() - i,
    {
        if s[i] == x {
            return true;
        }
        i = i + 1;
    }
    false
}

fn contains_target(s: &Vec<TargetId>, x: TargetId) -> (r: bool)
    ensures
        r == s@.contains(x),
{
    let mut i: usize = 0;
    while i < s.len()
        invariant
            i <= s.len(),
            forall|j: int| 0 <= j < i ==> s@[j] != x,
        decreases s.len() - i,
    {
        if s[i] == x {
            return true;
        }
        i = i + 1;
    }
    false
}

impl Frame {
    /// A renderer's frame state before its first scene.
    pub fn new() -> (r: Frame)
        ensures
            r@ == idle_view(),
    {
        Frame { open: false, pages: Vec::new(), targets: Vec::new(), stack: Vec::new() }
    }

    /// Whether a scene is open.
    pub fn is_open(&self) -> (r: bool)
        ensures
            r == self@.open,
    {
        self.open
    }

    /// Opens a scene and forgets every resource index of earlier frames.
    pub fn begin_scene(&mut self) -> (r: Result<(), ProtocolError>)
        ensures
            match begin_outcome(old(self)@) {
                Ok(v) => r is Ok && final(self)@ == v,
                Err(e) => r == Err::<(), ProtocolError>(e) && final(self)@ == old(self)@,
            },
    {
        if self.open {
            return Err(ProtocolError::SceneAlreadyOpen);
        }
        self.open = true;
        self.pages.clear();
        self.targets.clear();
        self.stack.clear();
        Ok(())
    }

    /// Closes the open scene.
    pub fn end_scene(&mut self) -> (r: Result<(), ProtocolError>)
        ensures
            match end_outcome(old(self)@) {
                Ok(v) => r is Ok && final(self)@ == v,
                Err(e) => r == Err::<(), ProtocolError>(e) && final(self)@ == old(self)@,
            },
    {
        if !self.open {
            return Err(ProtocolError::NoOpenScene);
        }
        self.open = false;
        Ok(())
    }

    /// Gives up the open scene, if any, after the device has failed: the
    /// renderer is idle again and maps no resource.
    pub fn abandon_scene(&mut self)
        ensures
            final(self)@ == idle_view(),
    {
        self.open = false;
        self.pages.clear();
        self.targets.clear();
        self.stack.clear();
    }

    /// Checks command `c` against the open scene and records what it
    /// defines. `Ok` means that the command may go on to the device; on an
    /// error the frame is left as it was.
    pub fn render_command(&mut self, c: &Command) -> (r: Result<(), ProtocolError>)
        ensures
            match command_outcome(old(self)@, *c) {
                Ok(v) => r is Ok && final(self)@ == v,
                Err(e) => r == Err::<(), ProtocolError>(e) && final(self)@ == old(self)@,
            },
    {
        if !self.open {
            return Err(ProtocolError::NoOpenScene);
        }
        match *c {
            Command::AllocatePage { page } => {
                if !contains_index(&self.pages, page) {
                    self.pages.push(page);
                }
            },
            Command::UploadTexels { page } => {
                if !contains_index(&self.pages, page) {
                    return Err(ProtocolError::UndefinedPage(page));
                }
            },
            Command::DeclareTarget { target, page } => {
                if !contains_index(&self.pages, page) {
                    return Err(ProtocolError::UndefinedPage(page));
                }
                if !contains_target(&self.targets, target) {
                    self.targets.push(target);
                }
            },
            Command::PushTarget { target } => {
                if !contains_target(&self.targets, target) {
                    return Err(ProtocolError::UndefinedTarget(target));
                }
                self.stack.push(target);
            },
            Command::PopTarget => {
                if self.stack.len() == 0 {
                    return Err(ProtocolError::EmptyTargetStack);
                }
                self.stack.pop();
            },
            Command::DrawTiles { texture, .. } => {
                if let Some(p) = texture {
                    if !contains_index(&self.pages, p) {
                        return Err(ProtocolError::UndefinedPage(p));
                    }
                }
            },
            _ => {},
        }
        Ok(())
    }
}


/// A completed frame leaves the renderer idle, and nothing of it reaches
/// the next frame: every frame that follows has the outcome it would have
/// on a renderer that never drew.
pub proof fn lemma_frames_do_not_leak(v: FrameView, first: Seq<Command>, second: Seq<Command>)
    requires
        frame_outcome(v, first) is Ok,
    ensures
        !frame_outcome(v, first)->Ok_0.open,
        frame_outcome(frame_outcome(v, first)->Ok_0, second) == frame_outcome(idle_view(), second),
{
}

/// A draw that samples a texture page which the open scene never
/// allocated is refused, whatever else the frame holds.
pub proof fn lemma_undefined_draw_rejected(v: FrameView, page: u32, fill_rule: Option<FillRule>)
    requires
        v.open,
        !v.pages.contains(page),
    ensures
        command_outcome(v, Command::DrawTiles { texture: Some(page), fill_rule }) == Err::<
            FrameView,
            ProtocolError,
        >(ProtocolError::UndefinedPage(page)),
{
}

/// `end_scene` without an open scene is refused; on a renderer that has
/// not begun a scene yet, in particular.
pub proof fn lemma_end_without_begin_rejected(v: FrameView)
    requires
        !v.open,
    ensures
        end_outcome(v) == Err::<FrameView, ProtocolError>(ProtocolError::NoOpenScene),
        end_outcome(idle_view()) == Err::<FrameView, ProtocolError>(ProtocolError::NoOpenScene),
{
}

} // verus!
