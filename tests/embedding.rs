use embedded_browser::address::validate_url;
use embedded_browser::bounds::{compute_bounds, EmbeddingBounds, CHROME_HEIGHT};
use embedded_browser::engine::{
    browser_go_back, browser_go_forward, browser_refresh, create_embedded_browser,
    embedded_settings, initialize_cef, navigate_browser, prepare_embedded_view, record_view_status, shutdown_cef,
    BrowserEngine, BrowserError, BrowserSettings, EngineCommand, EngineState, ViewRequest,
};
use embedded_browser::registry::{BrowserViewHandle, BrowserViewRegistry, ViewStatus};
use embedded_browser::window::{resolve_window, PlatformWindowHandle};

fn running() -> BrowserEngine {
    let mut ctx = BrowserEngine::new();
    assert_eq!(initialize_cef(&mut ctx, true), Ok(()));
    ctx
}

fn h(id: u64) -> BrowserViewHandle {
    BrowserViewHandle { id }
}

#[test]
fn registry_insert_replaces_and_hands_back_prior() {
    let mut reg = BrowserViewRegistry::new();
    assert_eq!(reg.insert("a", h(1)), None);
    assert_eq!(reg.insert("a", h(2)), Some(h(1)));
    assert_eq!(reg.get("a"), Some(h(2)));
    let released = reg.clear();
    assert_eq!(released, vec![h(2)]);
    assert_eq!(reg.get("a"), None);
}

#[test]
fn registry_remove_and_clear() {
    let mut reg = BrowserViewRegistry::new();
    reg.insert("a", h(1));
    reg.insert("b", h(2));
    reg.insert("c", h(3));
    assert_eq!(reg.remove("b"), Some(h(2)));
    assert_eq!(reg.remove("b"), None);
    assert_eq!(reg.get("a"), Some(h(1)));
    assert_eq!(reg.get("c"), Some(h(3)));
    let mut released = reg.clear();
    released.sort_by_key(|v| v.id);
    assert_eq!(released, vec![h(1), h(3)]);
    assert!(reg.clear().is_empty());
}

#[test]
fn registry_status_follows_handle() {
    let mut reg = BrowserViewRegistry::new();
    reg.insert("a", h(1));
    reg.insert("b", h(2));
    let st = ViewStatus { main_frame: false, can_go_back: true, can_go_forward: false };
    reg.set_status(h(2), st);
    assert_eq!(reg.lookup("b").unwrap().status, st);
    assert_eq!(reg.lookup("a").unwrap().status, ViewStatus::fresh());
}

#[test]
fn create_twice_releases_first_view_once() {
    let mut ctx = running();
    assert_eq!(create_embedded_browser(&mut ctx, "b1", "https://example.com", true, resolve_window(7), 1200, 800), Ok(()));
    ctx.take_commands();
    assert_eq!(create_embedded_browser(&mut ctx, "b1", "https://example.org", true, resolve_window(7), 1200, 800), Ok(()));
    assert_eq!(ctx.get("b1"), Some(h(1)));
    let cmds = ctx.take_commands();
    let releases: Vec<&EngineCommand> =
        cmds.iter().filter(|c| matches!(c, EngineCommand::Release { .. })).collect();
    assert_eq!(releases, vec![&EngineCommand::Release { view: h(0) }]);
}

#[test]
fn unresolvable_window_rolls_back() {
    let mut ctx = running();
    assert_eq!(
        create_embedded_browser(&mut ctx, "w", "https://example.com", true, resolve_window(0), 1200, 800),
        Err(BrowserError::WindowResolutionError)
    );
    assert_eq!(ctx.get("w"), None);
    assert_eq!(ctx.take_commands(), vec![EngineCommand::Release { view: h(0) }]);
}

#[test]
fn unresolvable_window_drops_prior_entry() {
    let mut ctx = running();
    create_embedded_browser(&mut ctx, "w", "https://example.com", true, resolve_window(3), 100, 100).unwrap();
    ctx.take_commands();
    assert_eq!(
        create_embedded_browser(&mut ctx, "w", "https://example.com", true, resolve_window(0), 100, 100),
        Err(BrowserError::WindowResolutionError)
    );
    assert_eq!(ctx.get("w"), None);
    assert_eq!(
        ctx.take_commands(),
        vec![EngineCommand::Release { view: h(0) }, EngineCommand::Release { view: h(1) }]
    );
}

#[test]
fn navigate_ghost_is_not_found() {
    let mut ctx = running();
    create_embedded_browser(&mut ctx, "b1", "https://example.com", true, resolve_window(1), 800, 600).unwrap();
    ctx.take_commands();
    assert_eq!(
        navigate_browser(&mut ctx, "ghost", "https://example.com"),
        Err(BrowserError::BrowserNotFound)
    );
    assert_eq!(ctx.get("b1"), Some(h(0)));
    assert_eq!(ctx.get("ghost"), None);
    assert!(ctx.take_commands().is_empty());
}

#[test]
fn go_back_without_history_is_a_no_op() {
    let mut ctx = running();
    create_embedded_browser(&mut ctx, "b1", "https://example.com", true, resolve_window(1), 800, 600).unwrap();
    ctx.take_commands();
    assert_eq!(browser_go_back(&mut ctx, "b1"), Ok(()));
    assert_eq!(browser_go_forward(&mut ctx, "b1"), Ok(()));
    assert!(ctx.take_commands().is_empty());
    assert_eq!(browser_go_back(&mut ctx, "nope"), Err(BrowserError::BrowserNotFound));
    assert_eq!(browser_go_forward(&mut ctx, "nope"), Err(BrowserError::BrowserNotFound));
}

#[test]
fn history_steps_follow_engine_reports() {
    let mut ctx = running();
    create_embedded_browser(&mut ctx, "b1", "https://example.com", true, resolve_window(1), 800, 600).unwrap();
    ctx.take_commands();
    record_view_status(
        &mut ctx,
        h(0),
        ViewStatus { main_frame: true, can_go_back: true, can_go_forward: false },
    );
    assert_eq!(browser_go_back(&mut ctx, "b1"), Ok(()));
    assert_eq!(browser_go_forward(&mut ctx, "b1"), Ok(()));
    assert_eq!(ctx.take_commands(), vec![EngineCommand::GoBack { view: h(0) }]);
    record_view_status(
        &mut ctx,
        h(0),
        ViewStatus { main_frame: true, can_go_back: false, can_go_forward: true },
    );
    assert_eq!(browser_go_forward(&mut ctx, "b1"), Ok(()));
    assert_eq!(ctx.take_commands(), vec![EngineCommand::GoForward { view: h(0) }]);
}

#[test]
fn missing_main_frame_is_reported() {
    let mut ctx = running();
    create_embedded_browser(&mut ctx, "b1", "https://example.com", true, resolve_window(1), 800, 600).unwrap();
    ctx.take_commands();
    record_view_status(
        &mut ctx,
        h(0),
        ViewStatus { main_frame: false, can_go_back: false, can_go_forward: false },
    );
    assert_eq!(
        navigate_browser(&mut ctx, "b1", "https://example.org"),
        Err(BrowserError::NoMainFrame)
    );
    assert!(ctx.take_commands().is_empty());
}

#[test]
fn invalid_url_is_rejected_without_engine_work() {
    let mut ctx = running();
    assert_eq!(
        create_embedded_browser(&mut ctx, "b1", "not a url", true, resolve_window(1), 800, 600),
        Err(BrowserError::InvalidUrl)
    );
    assert_eq!(create_embedded_browser(&mut ctx, "b1", "", true, resolve_window(1), 800, 600), Err(BrowserError::InvalidUrl));
    assert_eq!(ctx.get("b1"), None);
    assert!(ctx.take_commands().is_empty());
    assert_eq!(ctx.next_view_id(), 0);
    create_embedded_browser(&mut ctx, "b1", "https://example.com", true, resolve_window(1), 800, 600).unwrap();
    ctx.take_commands();
    assert_eq!(navigate_browser(&mut ctx, "b1", "::"), Err(BrowserError::InvalidUrl));
    assert!(ctx.take_commands().is_empty());
}

#[test]
fn engine_not_running_errors() {
    let mut ctx = BrowserEngine::new();
    assert_eq!(
        create_embedded_browser(&mut ctx, "b1", "https://example.com", true, resolve_window(1), 800, 600),
        Err(BrowserError::EngineNotRunning)
    );
    assert_eq!(navigate_browser(&mut ctx, "b1", "https://example.com"), Err(BrowserError::EngineNotRunning));
    assert_eq!(browser_go_back(&mut ctx, "b1"), Err(BrowserError::EngineNotRunning));
    assert_eq!(browser_go_forward(&mut ctx, "b1"), Err(BrowserError::EngineNotRunning));
    assert_eq!(browser_refresh(&mut ctx, "b1"), Err(BrowserError::EngineNotRunning));
    assert!(ctx.take_commands().is_empty());
}

#[test]
fn engine_init_failure_keeps_uninitialized() {
    let mut ctx = BrowserEngine::new();
    assert_eq!(initialize_cef(&mut ctx, false), Err(BrowserError::EngineInitError));
    assert_eq!(ctx.state(), EngineState::Uninitialized);
    assert_eq!(initialize_cef(&mut ctx, true), Ok(()));
    assert_eq!(ctx.state(), EngineState::Running);
    assert_eq!(initialize_cef(&mut ctx, false), Ok(()));
    assert_eq!(ctx.state(), EngineState::Running);
}

#[test]
fn shutdown_twice_is_stopped_both_times() {
    let mut ctx = running();
    create_embedded_browser(&mut ctx, "b1", "https://example.com", true, resolve_window(1), 800, 600).unwrap();
    ctx.take_commands();
    shutdown_cef(&mut ctx);
    assert_eq!(ctx.state(), EngineState::Stopped);
    assert_eq!(
        ctx.take_commands(),
        vec![EngineCommand::Release { view: h(0) }, EngineCommand::ShutdownEngine]
    );
    shutdown_cef(&mut ctx);
    assert_eq!(ctx.state(), EngineState::Stopped);
    assert!(ctx.take_commands().is_empty());
    assert_eq!(
        navigate_browser(&mut ctx, "b1", "https://example.com"),
        Err(BrowserError::EngineNotRunning)
    );
}

#[test]
fn end_to_end_session() {
    let mut ctx = BrowserEngine::new();
    assert_eq!(initialize_cef(&mut ctx, true), Ok(()));
    assert!(resolve_window(0xABCDEF).is_some());
    assert_eq!(
        prepare_embedded_view(&ctx, "https://example.com"),
        Ok(ViewRequest {
            url: "https://example.com/".to_string(),
            settings: BrowserSettings { web_security: false, universal_access_from_file_urls: true },
        })
    );
    assert_eq!(
        create_embedded_browser(&mut ctx, "b1", "https://example.com", true, resolve_window(0xABCDEF), 1200, 800),
        Ok(())
    );
    assert_eq!(ctx.get("b1"), Some(h(0)));
    assert_eq!(
        ctx.take_commands(),
        vec![
            EngineCommand::AttachView { view: h(0), window: PlatformWindowHandle { raw: 0xABCDEF } },
            EngineCommand::SetBounds {
                view: h(0),
                bounds: EmbeddingBounds { x: 0, y: 60, width: 1200, height: 740 },
            },
        ]
    );
    assert_eq!(navigate_browser(&mut ctx, "b1", "https://example.org"), Ok(()));
    assert_eq!(browser_refresh(&mut ctx, "b1"), Ok(()));
    assert_eq!(
        ctx.take_commands(),
        vec![
            EngineCommand::LoadUrl { view: h(0), url: "https://example.org/".to_string() },
            EngineCommand::Reload { view: h(0) },
        ]
    );
    shutdown_cef(&mut ctx);
    assert_eq!(ctx.get("b1"), None);
    assert_eq!(
        ctx.take_commands(),
        vec![EngineCommand::Release { view: h(0) }, EngineCommand::ShutdownEngine]
    );
}

#[test]
fn bounds_below_chrome() {
    assert_eq!(CHROME_HEIGHT, 60);
    for (w, hgt) in [(1200u32, 800u32), (0, 61), (640, 480), (u32::MAX, u32::MAX)] {
        let b = compute_bounds(w, hgt);
        assert_eq!(b.y, CHROME_HEIGHT);
        assert_eq!(b.height, hgt - CHROME_HEIGHT);
        assert_eq!(b.width, w);
        assert_eq!(b.x, 0);
    }
    assert_eq!(compute_bounds(300, 40).height, 0);
    assert_eq!(compute_bounds(300, 60).height, 0);
}

#[test]
fn window_resolution_rejects_null() {
    assert_eq!(resolve_window(0), None);
    assert_eq!(resolve_window(-5), Some(PlatformWindowHandle { raw: -5 }));
}

#[test]
fn url_validation_normalizes() {
    assert_eq!(validate_url("https://Example.COM"), Some("https://example.com/".to_string()));
    assert_eq!(validate_url("relative/path"), None);
    assert_eq!(validate_url(""), None);
    assert_eq!(
        embedded_settings(),
        BrowserSettings { web_security: false, universal_access_from_file_urls: true }
    );
}

#[test]
fn shutdown_releases_every_view_once() {
    let mut ctx = running();
    create_embedded_browser(&mut ctx, "a", "https://example.com", true, resolve_window(1), 800, 600).unwrap();
    create_embedded_browser(&mut ctx, "b", "https://example.net", true, resolve_window(1), 800, 600).unwrap();
    create_embedded_browser(&mut ctx, "a", "https://example.org", true, resolve_window(1), 800, 600).unwrap();
    ctx.take_commands();
    shutdown_cef(&mut ctx);
    let mut cmds = ctx.take_commands();
    assert_eq!(cmds.pop(), Some(EngineCommand::ShutdownEngine));
    let mut released: Vec<u64> = cmds
        .iter()
        .map(|c| match c {
            EngineCommand::Release { view } => view.id,
            other => panic!("unexpected command {:?}", other),
        })
        .collect();
    released.sort();
    assert_eq!(released, vec![1, 2]);
}

#[test]
fn unbuilt_view_is_an_error_without_registration() {
    let mut ctx = running();
    assert_eq!(
        create_embedded_browser(&mut ctx, "b1", "https://example.com", false, resolve_window(9), 800, 600),
        Err(BrowserError::ViewCreationError)
    );
    assert_eq!(ctx.get("b1"), None);
    assert_eq!(ctx.next_view_id(), 0);
    assert!(ctx.take_commands().is_empty());
}

#[test]
fn native_resolution_failure_rolls_back() {
    let mut ctx = running();
    assert_eq!(
        create_embedded_browser(&mut ctx, "b1", "https://example.com", true, None, 800, 600),
        Err(BrowserError::WindowResolutionError)
    );
    assert_eq!(ctx.get("b1"), None);
    assert_eq!(ctx.take_commands(), vec![EngineCommand::Release { view: h(0) }]);
    assert_eq!(navigate_browser(&mut ctx, "b1", "https://example.com"), Err(BrowserError::BrowserNotFound));
}

#[test]
fn prepare_view_errors() {
    let ctx = BrowserEngine::new();
    assert_eq!(prepare_embedded_view(&ctx, "https://example.com"), Err(BrowserError::EngineNotRunning));
    let ctx = running();
    assert_eq!(prepare_embedded_view(&ctx, "nope"), Err(BrowserError::InvalidUrl));
}

#[test]
fn restart_after_shutdown_has_no_views() {
    let mut ctx = running();
    create_embedded_browser(&mut ctx, "b1", "https://example.com", true, resolve_window(1), 800, 600).unwrap();
    shutdown_cef(&mut ctx);
    assert_eq!(initialize_cef(&mut ctx, true), Ok(()));
    assert_eq!(ctx.state(), EngineState::Running);
    assert_eq!(ctx.get("b1"), None);
}
