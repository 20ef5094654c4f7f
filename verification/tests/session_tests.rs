use nvimcord::context::Context;
use nvimcord::get_diff;
use nvimcord::router::ClockMessage;
use nvimcord::router::EventRouter;
use nvimcord::router::NvimMessage;
use nvimcord::router::RouterAction;
use nvimcord::router::RouterEvent;
use nvimcord::session::SessionState;
use nvimcord::session::construct_data;
use nvimcord::session::update_file_contents;

#[test]
fn snapshot_of_fresh_session_is_idle() {
    let state = SessionState::new();
    let snap = construct_data(&state);
    assert_eq!(0, snap.additions);
    assert_eq!(0, snap.deletions);
    assert_eq!(0, snap.num_files);
    assert!(snap.filename.is_none());
    assert!(snap.remote_url.is_none());
}

#[test]
fn baseline_is_fixed_by_first_change() {
    let c1 = "the\nquick\nbrown\nfox";
    let c2 = "teh\nquick\nbrown\nfox\njumps";
    let mut state = SessionState::new();
    state.record_change("story.txt".to_string(), c1.to_string());
    state.record_change("story.txt".to_string(), c2.to_string());
    let snap = construct_data(&state);
    let (del, add) = get_diff(c1, c2);
    assert_eq!(del, snap.deletions);
    assert_eq!(add, snap.additions);
    assert_eq!(1, snap.num_files);
    assert_eq!(Some("story.txt".to_string()), snap.filename);
}

#[test]
fn empty_filename_changes_nothing() {
    let mut state = SessionState::new();
    state.record_open(String::new());
    state.record_change(String::new(), "text".to_string());
    assert_eq!(0, state.changed_files.len());
    assert!(state.current_file.is_none());
    update_file_contents(&mut state, String::new(), "text".to_string());
    assert_eq!(0, state.changed_files.len());
    assert!(state.current_file.is_none());
}

#[test]
fn open_seeds_an_empty_record() {
    let mut state = SessionState::new();
    state.record_open("a.txt".to_string());
    assert_eq!(1, state.changed_files.len());
    assert_eq!(Some("a.txt".to_string()), state.current_file);
    let snap = construct_data(&state);
    assert_eq!(0, snap.additions);
    assert_eq!(0, snap.deletions);
}

#[test]
fn update_file_contents_tracks_the_file() {
    let mut state = SessionState::new();
    update_file_contents(&mut state, "a.txt".to_string(), "x\ny".to_string());
    update_file_contents(&mut state, "a.txt".to_string(), "x\ny\nz".to_string());
    let snap = construct_data(&state);
    assert_eq!(0, snap.deletions);
    assert_eq!(1, snap.additions);
}

#[test]
fn burst_of_changes_yields_one_snapshot_on_tick() {
    let mut router = EventRouter::new(SessionState::new());
    let events = vec![
        RouterEvent::Editor(NvimMessage::FileChanged {
            filename: "a.txt".to_string(),
            contents: "x\ny".to_string(),
        }),
        RouterEvent::Editor(NvimMessage::FileChanged {
            filename: "a.txt".to_string(),
            contents: "x\ny\nz".to_string(),
        }),
        RouterEvent::Editor(NvimMessage::FileChanged {
            filename: "b.txt".to_string(),
            contents: "q".to_string(),
        }),
    ];
    for event in events {
        let action = router.step(event);
        assert!(matches!(action, RouterAction::Ignored));
    }
    let action = router.step(RouterEvent::Clock(ClockMessage::Update));
    match action {
        RouterAction::Emit(snap) => {
            // a.txt: baseline "x\ny", current "x\ny\nz"; b.txt: baseline "q",
            // current still empty
            assert_eq!(1, snap.additions);
            assert_eq!(1, snap.deletions);
            assert_eq!(2, snap.num_files);
        },
        _ => panic!("a tick must emit a snapshot"),
    }
}

#[test]
fn sink_error_reconnects_and_loses_nothing() {
    let mut router = EventRouter::new(SessionState::new());
    router.step(RouterEvent::Editor(NvimMessage::FileChanged {
        filename: "a.txt".to_string(),
        contents: "one\ntwo".to_string(),
    }));
    let action = router.step(RouterEvent::SinkError("transport failed".to_string()));
    assert!(matches!(action, RouterAction::Reconnect));
    assert_eq!(1, router.state.changed_files.len());
    router.step(RouterEvent::Editor(NvimMessage::FileChanged {
        filename: "a.txt".to_string(),
        contents: "one\ntwo\nthree".to_string(),
    }));
    let action = router.step(RouterEvent::Clock(ClockMessage::Update));
    match action {
        RouterAction::Emit(snap) => {
            assert_eq!(1, snap.additions);
            assert_eq!(0, snap.deletions);
            assert_eq!(1, snap.num_files);
        },
        _ => panic!("delivery must be re-attempted after a failure"),
    }
}

#[test]
fn shutdown_drains_the_router() {
    let mut router = EventRouter::new(SessionState::new());
    let action = router.step(RouterEvent::Editor(NvimMessage::Shutdown));
    assert!(matches!(action, RouterAction::Exit));
    let action = router.step(RouterEvent::Clock(ClockMessage::Update));
    assert!(matches!(action, RouterAction::Ignored));
}

#[test]
fn malformed_notification_is_dropped() {
    let mut router = EventRouter::new(SessionState::new());
    let action = router.step(RouterEvent::Editor(NvimMessage::NvimError(
        "bad payload".to_string(),
    )));
    assert!(matches!(action, RouterAction::Ignored));
    assert_eq!(0, router.state.changed_files.len());
}

#[test]
fn context_rejects_empty_filename() {
    let mut ctx = Context::new(None);
    assert_eq!(Err("no filename"), ctx.update_file_contents("", "text"));
    assert_eq!(0, ctx.state.changed_files.len());
}

#[test]
fn context_reports_edits_eagerly() {
    let mut ctx = Context::new(Some("https://example.com/repo".to_string()));
    assert_eq!(Ok(()), ctx.update_file_contents("a.txt", "x\ny"));
    assert_eq!(Ok(()), ctx.update_file_contents("a.txt", "x\ny\nz"));
    let snap = ctx.send_discord();
    assert_eq!(1, snap.additions);
    assert_eq!(0, snap.deletions);
    assert_eq!(1, snap.num_files);
    assert_eq!(Some("https://example.com/repo".to_string()), snap.remote_url);
}
