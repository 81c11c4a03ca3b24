use pathfinder_wasm_demo::{Command, FillRule, Frame, ProtocolError, TargetId};

fn open_frame() -> Frame {
    let mut f = Frame::new();
    assert_eq!(f.begin_scene(), Ok(()));
    f
}

#[test]
fn new_frame_is_idle() {
    let f = Frame::new();
    assert!(!f.is_open());
}

#[test]
fn begin_then_end_returns_to_idle() {
    let mut f = open_frame();
    assert!(f.is_open());
    assert_eq!(f.end_scene(), Ok(()));
    assert!(!f.is_open());
}

#[test]
fn begin_while_open_is_rejected() {
    let mut f = open_frame();
    assert_eq!(f.begin_scene(), Err(ProtocolError::SceneAlreadyOpen));
    assert!(f.is_open());
}

#[test]
fn end_without_begin_is_rejected() {
    let mut f = Frame::new();
    assert_eq!(f.end_scene(), Err(ProtocolError::NoOpenScene));
    assert!(!f.is_open());
}

#[test]
fn end_twice_is_rejected() {
    let mut f = open_frame();
    assert_eq!(f.end_scene(), Ok(()));
    assert_eq!(f.end_scene(), Err(ProtocolError::NoOpenScene));
}

#[test]
fn command_without_open_scene_is_rejected() {
    let mut f = Frame::new();
    assert_eq!(f.render_command(&Command::Start { path_count: 1 }), Err(ProtocolError::NoOpenScene));
}

#[test]
fn draw_with_undefined_page_is_rejected() {
    let mut f = open_frame();
    assert_eq!(
        f.render_command(&Command::DrawTiles { texture: Some(3), fill_rule: Some(FillRule::Winding) }),
        Err(ProtocolError::UndefinedPage(3))
    );
    // The refused draw left the frame as it was: page 3 is still undefined.
    assert_eq!(
        f.render_command(&Command::UploadTexels { page: 3 }),
        Err(ProtocolError::UndefinedPage(3))
    );
}

#[test]
fn draw_after_allocation_is_accepted() {
    let mut f = open_frame();
    assert_eq!(f.render_command(&Command::AllocatePage { page: 3 }), Ok(()));
    assert_eq!(f.render_command(&Command::DrawTiles { texture: Some(3), fill_rule: Some(FillRule::Winding) }), Ok(()));
    assert_eq!(f.render_command(&Command::DrawTiles { texture: Some(4), fill_rule: Some(FillRule::Winding) }), Err(ProtocolError::UndefinedPage(4)));
}

#[test]
fn draw_without_texture_needs_no_page() {
    let mut f = open_frame();
    assert_eq!(f.render_command(&Command::DrawTiles { texture: None, fill_rule: Some(FillRule::Winding) }), Ok(()));
}

#[test]
fn upload_to_undefined_page_is_rejected() {
    let mut f = open_frame();
    assert_eq!(f.render_command(&Command::UploadTexels { page: 0 }), Err(ProtocolError::UndefinedPage(0)));
}

#[test]
fn declare_target_needs_its_page() {
    let mut f = open_frame();
    assert_eq!(
        f.render_command(&Command::DeclareTarget { target: TargetId { scene: 0, index: 1 }, page: 2 }),
        Err(ProtocolError::UndefinedPage(2))
    );
    assert_eq!(f.render_command(&Command::PushTarget { target: TargetId { scene: 0, index: 1 } }), Err(ProtocolError::UndefinedTarget(TargetId { scene: 0, index: 1 })));
    assert_eq!(f.render_command(&Command::AllocatePage { page: 2 }), Ok(()));
    assert_eq!(f.render_command(&Command::DeclareTarget { target: TargetId { scene: 0, index: 1 }, page: 2 }), Ok(()));
    assert_eq!(f.render_command(&Command::PushTarget { target: TargetId { scene: 0, index: 1 } }), Ok(()));
}

#[test]
fn targets_of_other_scenes_are_distinct() {
    let mut f = open_frame();
    assert_eq!(f.render_command(&Command::AllocatePage { page: 0 }), Ok(()));
    assert_eq!(f.render_command(&Command::DeclareTarget { target: TargetId { scene: 1, index: 4 }, page: 0 }), Ok(()));
    assert_eq!(f.render_command(&Command::PushTarget { target: TargetId { scene: 1, index: 4 } }), Ok(()));
    assert_eq!(
        f.render_command(&Command::PushTarget { target: TargetId { scene: 2, index: 4 } }),
        Err(ProtocolError::UndefinedTarget(TargetId { scene: 2, index: 4 }))
    );
}

#[test]
fn pop_needs_a_pushed_target() {
    let mut f = open_frame();
    assert_eq!(f.render_command(&Command::PopTarget), Err(ProtocolError::EmptyTargetStack));
    assert_eq!(f.render_command(&Command::AllocatePage { page: 0 }), Ok(()));
    assert_eq!(f.render_command(&Command::DeclareTarget { target: TargetId { scene: 0, index: 5 }, page: 0 }), Ok(()));
    assert_eq!(f.render_command(&Command::PushTarget { target: TargetId { scene: 0, index: 5 } }), Ok(()));
    assert_eq!(f.render_command(&Command::PushTarget { target: TargetId { scene: 0, index: 5 } }), Ok(()));
    assert_eq!(f.render_command(&Command::PopTarget), Ok(()));
    assert_eq!(f.render_command(&Command::PopTarget), Ok(()));
    assert_eq!(f.render_command(&Command::PopTarget), Err(ProtocolError::EmptyTargetStack));
}

#[test]
fn second_frame_does_not_see_first_frame_resources() {
    let mut f = open_frame();
    assert_eq!(f.render_command(&Command::AllocatePage { page: 0 }), Ok(()));
    assert_eq!(f.render_command(&Command::DeclareTarget { target: TargetId { scene: 0, index: 7 }, page: 0 }), Ok(()));
    assert_eq!(f.render_command(&Command::DrawTiles { texture: Some(0), fill_rule: Some(FillRule::Winding) }), Ok(()));
    assert_eq!(f.end_scene(), Ok(()));
    assert!(!f.is_open());

    assert_eq!(f.begin_scene(), Ok(()));
    assert_eq!(f.render_command(&Command::DrawTiles { texture: Some(0), fill_rule: Some(FillRule::Winding) }), Err(ProtocolError::UndefinedPage(0)));
    assert_eq!(f.render_command(&Command::PushTarget { target: TargetId { scene: 0, index: 7 } }), Err(ProtocolError::UndefinedTarget(TargetId { scene: 0, index: 7 })));
    assert_eq!(f.end_scene(), Ok(()));
    assert!(!f.is_open());
}

#[test]
fn single_rectangle_frame() {
    let stream = vec![
        Command::Start { path_count: 1 },
        Command::AllocatePage { page: 0 },
        Command::UploadTexels { page: 0 },
        Command::AddFills { count: 4 },
        Command::FlushFills,
        Command::BeginTileDrawing,
        Command::DrawTiles { texture: Some(0), fill_rule: Some(FillRule::Winding) },
        Command::Finish,
    ];
    let uploads = stream.iter().filter(|c| matches!(c, Command::UploadTexels { .. })).count();
    let draws = stream.iter().filter(|c| matches!(c, Command::DrawTiles { .. })).count();
    assert_eq!(uploads, 1);
    assert_eq!(draws, 1);
    assert!(stream.contains(&Command::DrawTiles { texture: Some(0), fill_rule: Some(FillRule::Winding) }));
    let mut f = open_frame();
    for c in &stream {
        assert_eq!(f.render_command(c), Ok(()));
    }
    assert_eq!(f.end_scene(), Ok(()));
}

#[test]
fn abandoned_scene_returns_to_idle() {
    let mut f = open_frame();
    assert_eq!(f.render_command(&Command::AllocatePage { page: 1 }), Ok(()));
    f.abandon_scene();
    assert!(!f.is_open());
    assert_eq!(f.end_scene(), Err(ProtocolError::NoOpenScene));
    assert_eq!(f.begin_scene(), Ok(()));
    assert_eq!(f.render_command(&Command::UploadTexels { page: 1 }), Err(ProtocolError::UndefinedPage(1)));
}

#[test]
fn abandon_on_idle_frame_keeps_it_idle() {
    let mut f = Frame::new();
    f.abandon_scene();
    assert!(!f.is_open());
    assert_eq!(f.begin_scene(), Ok(()));
}
