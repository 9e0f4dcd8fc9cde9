use vstd::prelude::*;

use crate::address::{parsed_url, validate_url};
use crate::bounds::{compute_bounds, embedding_bounds, EmbeddingBounds};
use crate::registry::{
    displaced, distinct_handles, fresh_view, holds_handle, with_status, BrowserView, BrowserViewHandle,
    BrowserViewRegistry, ViewStatus,
};
use crate::window::PlatformWindowHandle;

verus! {

/// Where the browser engine runtime stands in the life of the process.
#[derive(Clone, Copy, Debug, PartialEq, Eq, Structural)]
pub enum EngineState {
    Uninitialized,
    Running,
    ShuttingDown,
    Stopped,
}

/// Why an operation of the embedding subsystem did not go through.
#[derive(Clone, Copy, Debug, PartialEq, Eq, Structural)]
pub enum BrowserError {
    /// The engine runtime reported that it could not start.
    EngineInitError,
    /// The engine is not running: not started yet, or shut down.
    EngineNotRunning,
    /// The URL is not a well-formed absolute URL.
    InvalidUrl,
    /// The host's native window handle could not be turned into a window.
    WindowResolutionError,
    /// No browser view is registered under the identifier.
    BrowserNotFound,
    /// The browser exists but its main frame cannot be had right now.
    NoMainFrame,
    /// The engine could not build the browser view.
    ViewCreationError,
}

/// The settings a browser view is built with.
#[derive(Clone, Copy, Debug, PartialEq, Eq, Structural)]
pub struct BrowserSettings {
    pub web_security: bool,
    pub universal_access_from_file_urls: bool,
}

pub open spec fn spec_embedded_settings() -> BrowserSettings {
    BrowserSettings { web_security: false, universal_access_from_file_urls: true }
}

/// The defaults, with cross-origin requests and access from `file:` URLs
/// allowed, as embedded content mixes local and remote resources.
#[verifier::when_used_as_spec(spec_embedded_settings)]
pub fn embedded_settings() -> (r: BrowserSettings)
    ensures
        r == spec_embedded_settings(),
{
    BrowserSettings { web_security: false, universal_access_from_file_urls: true }
}

/// A command for the browser engine, issued in order by whoever drives it.
#[derive(Clone, Debug, PartialEq, Eq)]
pub enum EngineCommand {
    AttachView { view: BrowserViewHandle, window: PlatformWindowHandle },
    SetBounds { view: BrowserViewHandle, bounds: EmbeddingBounds },
    LoadUrl { view: BrowserViewHandle, url: String },
    GoBack { view: BrowserViewHandle },
    GoForward { view: BrowserViewHandle },
    Reload { view: BrowserViewHandle },
    Release { view: BrowserViewHandle },
    ShutdownEngine,
}

/// An engine command as a mathematical value.
pub enum Command {
    AttachView { view: BrowserViewHandle, window: PlatformWindowHandle },
    SetBounds { view: BrowserViewHandle, bounds: EmbeddingBounds },
    LoadUrl { view: BrowserViewHandle, url: Seq<char> },
    GoBack { view: BrowserViewHandle },
    GoForward { view: BrowserViewHandle },
    Reload { view: BrowserViewHandle },
    Release { view: BrowserViewHandle },
    ShutdownEngine,
}

impl View for EngineCommand {
    type V = Command;

    open spec fn view(&self) -> Command {
        match self {
            EngineCommand::AttachView { view, window } => Command::AttachView {
                view: *view,
                window: *window,
            },
            EngineCommand::SetBounds { view, bounds } => Command::SetBounds {
                view: *view,
                bounds: *bounds,
            },
            EngineCommand::LoadUrl { view, url } => Command::LoadUrl { view: *view, url: url@ },
            EngineCommand::GoBack { view } => Command::GoBack { view: *view },
            EngineCommand::GoForward { view } => Command::GoForward { view: *view },
            EngineCommand::Reload { view } => Command::Reload { view: *view },
            EngineCommand::Release { view } => Command::Release { view: *view },
            EngineCommand::ShutdownEngine => Command::ShutdownEngine,
        }
    }
}

/// The engine context as a mathematical value: the engine's state, the live
/// views by identifier, the number the next view will get, and the commands
/// issued and not yet taken by the driver.
pub struct EngineModel {
    pub state: EngineState,
    pub views: Map<Seq<char>, BrowserView>,
    pub next_view: u64,
    pub commands: Seq<Command>,
}

/// The process's browser engine context: lifecycle state, the registry of live
/// views, and the queue of engine commands waiting for the driver.
pub struct BrowserEngine {
    state: EngineState,
    registry: BrowserViewRegistry,
    next_view: u64,
    commands: Vec<EngineCommand>,
}

pub open spec fn commands_of(cs: Seq<EngineCommand>) -> Seq<Command> {
    cs.map_values(|c: EngineCommand| c@)
}

impl View for BrowserEngine {
    type V = EngineModel;

    closed spec fn view(&self) -> EngineModel {
        EngineModel {
            state: self.state,
            views: self.registry@,
            next_view: self.next_view,
            commands: commands_of(self.commands@),
        }
    }
}

impl BrowserEngine {
    /// The registry is well formed, no two identifiers share a view, every
    /// registered view got its number before the next one (a newly built view
    /// is never one already registered), and no view lives while the engine
    /// is not started or stopped.
    pub closed spec fn wf(&self) -> bool {
        &&& self.registry.wf()
        &&& (self.state == EngineState::Uninitialized || self.state == EngineState::Stopped)
            ==> self.registry@ == Map::<Seq<char>, BrowserView>::empty()
        &&& distinct_handles(self.registry@)
        &&& forall|k: Seq<char>| #[trigger]
            self.registry@.contains_key(k) ==> self.registry@[k].handle.id < self.next_view
    }

    /// A context in which the engine has not been started and no view lives.
    pub fn new() -> (r: BrowserEngine)
        ensures
            r.wf(),
            r@ == (EngineModel {
                state: EngineState::Uninitialized,
                views: Map::empty(),
                next_view: 0,
                commands: Seq::empty(),
            }),
    {
        let r = BrowserEngine {
            state: EngineState::Uninitialized,
            registry: BrowserViewRegistry::new(),
            next_view: 0,
            commands: Vec::new(),
        };
        assert(commands_of(r.commands@) =~= Seq::empty());
        r
    }

    pub fn state(&self) -> (r: EngineState)
        ensures
            r == self@.state,
    {
        self.state
    }

    /// The number the next view will be given.
    pub fn next_view_id(&self) -> (r: u64)
        ensures
            r == self@.next_view,
    {
        self.next_view
    }

    /// The handle registered under `id`, if any.
    pub fn get(&self, id: &str) -> (r: Option<BrowserViewHandle>)
        requires
            self.wf(),
        ensures
            r == displaced(self@.views, id@),
    {
        self.registry.get(id)
    }

    fn issue(&mut self, c: EngineCommand)
        ensures
            final(self).state == old(self).state,
            final(self).registry == old(self).registry,
            final(self).next_view == old(self).next_view,
            final(self)@.commands == old(self)@.commands.push(c@),
    {
        self.commands.push(c);
        assert(commands_of(self.commands@) =~= commands_of(old(self).commands@).push(c@));
    }

    /// Hands the issued commands, oldest first, to the driver.
    pub fn take_commands(&mut self) -> (r: Vec<EngineCommand>)
        requires
            old(self).wf(),
        ensures
            final(self).wf(),
            commands_of(r@) == old(self)@.commands,
            final(self)@ == (EngineModel { commands: Seq::empty(), ..old(self)@ }),
    {
        let mut r: Vec<EngineCommand> = Vec::new();
        std::mem::swap(&mut r, &mut self.commands);
        assert(commands_of(self.commands@) =~= Seq::empty());
        r
    }
}

/// Brings the context up once the engine runtime has been started, which
/// `engine_started` reports. On a fresh or stopped context the engine runs
/// afterwards if it started, and the call fails with `EngineInitError` and
/// changes nothing if it did not. On a running context it changes nothing;
/// while a shutdown is under way it fails with `EngineNotRunning`.
pub fn initialize_cef(ctx: &mut BrowserEngine, engine_started: bool) -> (r: Result<(), BrowserError>)
    requires
        old(ctx).wf(),
    ensures
        final(ctx).wf(),
        old(ctx)@.state == EngineState::ShuttingDown ==> {
            &&& r == Err::<(), BrowserError>(BrowserError::EngineNotRunning)
            &&& final(ctx)@ == old(ctx)@
        },
        old(ctx)@.state == EngineState::Running ==> {
            &&& r == Ok::<(), BrowserError>(())
            &&& final(ctx)@ == old(ctx)@
        },
        old(ctx)@.state != EngineState::Running && old(ctx)@.state != EngineState::ShuttingDown
            && engine_started ==> {
            &&& r == Ok::<(), BrowserError>(())
            &&& final(ctx)@ == (EngineModel { state: EngineState::Running, ..old(ctx)@ })
            &&& final(ctx)@.views == Map::<Seq<char>, BrowserView>::empty()
        },
        old(ctx)@.state != EngineState::Running && old(ctx)@.state != EngineState::ShuttingDown
            && !engine_started ==> {
            &&& r == Err::<(), BrowserError>(BrowserError::EngineInitError)
            &&& final(ctx)@ == old(ctx)@
        },
{
    if ctx.state == EngineState::Running {
        return Ok(());
    }
    if ctx.state == EngineState::ShuttingDown {
        return Err(BrowserError::EngineNotRunning);
    }
    if !engine_started {
        return Err(BrowserError::EngineInitError);
    }
    ctx.state = EngineState::Running;
    Ok(())
}

/// `after` is the context once `before` has been shut down: if it was stopped
/// already nothing changed; otherwise every live view was released once,
/// the engine runtime was told to stop if it ran, no view is left and the
/// engine is stopped.
pub open spec fn shut_down(before: EngineModel, after: EngineModel) -> bool {
    if before.state == EngineState::Stopped {
        after == before
    } else {
        &&& after.state == EngineState::Stopped
        &&& after.views == Map::<Seq<char>, BrowserView>::empty()
        &&& after.next_view == before.next_view
        &&& exists|hs: Seq<BrowserViewHandle>|
            {
                &&& #[trigger] releases_all(before.views, hs)
                &&& after.commands == before.commands + release_commands(hs) + if before.state
                    == EngineState::Running {
                    seq![Command::ShutdownEngine]
                } else {
                    Seq::empty()
                }
            }
    }
}

/// `hs` holds the handle of every view, once, and nothing else.
pub open spec fn releases_all(views: Map<Seq<char>, BrowserView>, hs: Seq<BrowserViewHandle>) -> bool {
    &&& hs.no_duplicates()
    &&& forall|k: Seq<char>| #[trigger] views.contains_key(k) ==> hs.contains(views[k].handle)
    &&& forall|i: int| 0 <= i < hs.len() ==> holds_handle(views, #[trigger] hs[i])
}

pub open spec fn release_commands(hs: Seq<BrowserViewHandle>) -> Seq<Command> {
    hs.map_values(|h: BrowserViewHandle| Command::Release { view: h })
}

/// Releases every registered view, then stops the engine runtime. Shutting
/// down a stopped context does nothing.
pub fn shutdown_cef(ctx: &mut BrowserEngine)
    requires
        old(ctx).wf(),
    ensures
        final(ctx).wf(),
        final(ctx)@.state == EngineState::Stopped,
        shut_down(old(ctx)@, final(ctx)@),
{
    if ctx.state == EngineState::Stopped {
        return;
    }
    let ghost pre = ctx@;
    let was_running = ctx.state == EngineState::Running;
    ctx.state = EngineState::ShuttingDown;
    let hs = ctx.registry.clear();
    assert(releases_all(pre.views, hs@));
    let mut i: usize = 0;
    while i < hs.len()
        invariant
            ctx.wf(),
            i <= hs.len(),
            ctx@.views == Map::<Seq<char>, BrowserView>::empty(),
            ctx@.next_view == pre.next_view,
            ctx@.commands == pre.commands + release_commands(hs@.subrange(0, i as int)),
        decreases hs.len() - i,
    {
        ctx.issue(EngineCommand::Release { view: hs[i] });
        assert(hs@.subrange(0, i + 1) =~= hs@.subrange(0, i as int).push(hs@[i as int]));
        assert(ctx@.commands =~= pre.commands + release_commands(hs@.subrange(0, i + 1)));
        i = i + 1;
    }
    assert(hs@.subrange(0, hs@.len() as int) =~= hs@);
    if was_running {
        ctx.issue(EngineCommand::ShutdownEngine);
    }
    ctx.state = EngineState::Stopped;
    let ghost tail = if was_running {
        seq![Command::ShutdownEngine]
    } else {
        Seq::<Command>::empty()
    };
    assert(ctx@.commands =~= pre.commands + release_commands(hs@) + tail);
}

/// Shutting down twice is shutting down once: the second call leaves the
/// context as the first one left it, stopped.
pub proof fn lemma_shutdown_idempotent(m0: EngineModel, m1: EngineModel, m2: EngineModel)
    requires
        shut_down(m0, m1),
        m1.state == EngineState::Stopped,
        shut_down(m1, m2),
    ensures
        m2 == m1,
        m2.state == EngineState::Stopped,
{
}

/// A rolled-back embedding leaves no orphan: nothing answers a lookup of the
/// identifier afterwards, every other identifier keeps its view, and the new
/// view is released exactly once.
pub proof fn lemma_rollback_leaves_no_orphan(before: EngineModel, id: Seq<char>, after: EngineModel)
    requires
        forall|k: Seq<char>| #[trigger]
            before.views.contains_key(k) ==> before.views[k].handle.id < before.next_view,
        rolled_back(before, id, after),
    ensures
        !after.views.contains_key(id),
        forall|k: Seq<char>| k != id ==> #[trigger] after.views.contains_key(k)
            == before.views.contains_key(k),
        forall|k: Seq<char>| #[trigger]
            after.views.contains_key(k) ==> after.views[k] == before.views[k],
        release_count(after.commands, BrowserViewHandle { id: before.next_view })
            == release_count(before.commands, BrowserViewHandle { id: before.next_view }) + 1,
{
    let v = BrowserViewHandle { id: before.next_view };
    let rel = released(displaced(before.views, id));
    lemma_release_count_append(before.commands, rel, v);
    lemma_release_count_append(before.commands + rel, seq![Command::Release { view: v }], v);
    assert(seq![Command::Release { view: v }].drop_last() =~= Seq::<Command>::empty());
    if before.views.contains_key(id) {
        let h = before.views[id].handle;
        assert(rel == seq![Command::Release { view: h }]);
        assert(rel.drop_last() =~= Seq::<Command>::empty());
        assert(h != v);
        assert(rel.last() != (Command::Release { view: v }));
        assert(release_count(rel.drop_last(), v) == 0);
        assert(release_count(rel, v) == 0);
    } else {
        assert(release_count(rel, v) == 0);
    }
}

/// The release of a handle that was taken out of the registry, if one was.
pub open spec fn released(d: Option<BrowserViewHandle>) -> Seq<Command> {
    match d {
        Some(h) => seq![Command::Release { view: h }],
        None => Seq::empty(),
    }
}

/// What building a browser view for an embedding takes: the normalized URL
/// to load and the settings to build with.
#[derive(Clone, Debug, PartialEq, Eq)]
pub struct ViewRequest {
    pub url: String,
    pub settings: BrowserSettings,
}

/// Says what the engine is to build before a browser view can be embedded:
/// the view for `url`, with the embedded settings. Fails, with the error that
/// `create_embedded_browser` would give, when the engine is not running or the
/// URL is not well formed.
pub fn prepare_embedded_view(ctx: &BrowserEngine, url: &str) -> (r: Result<ViewRequest, BrowserError>)
    ensures
        ctx@.state != EngineState::Running ==> r == Err::<ViewRequest, BrowserError>(
            BrowserError::EngineNotRunning,
        ),
        ctx@.state == EngineState::Running && parsed_url(url@) is None ==> r == Err::<
            ViewRequest,
            BrowserError,
        >(BrowserError::InvalidUrl),
        ctx@.state == EngineState::Running && parsed_url(url@) is Some ==> (r matches Ok(q)
            && q.url@ == parsed_url(url@)->0 && q.settings == spec_embedded_settings()),
{
    if ctx.state != EngineState::Running {
        return Err(BrowserError::EngineNotRunning);
    }
    match validate_url(url) {
        Some(u) => Ok(ViewRequest { url: u, settings: embedded_settings() }),
        None => Err(BrowserError::InvalidUrl),
    }
}

/// `after` is `before` once the view numbered `before.next_view` was
/// registered under `id` and attached to `window`, with the bounds for a
/// content area of `width` by `height`: the view it replaced there, if any, is
/// released, once, and every other identifier keeps its view.
pub open spec fn embedded(
    before: EngineModel,
    id: Seq<char>,
    window: PlatformWindowHandle,
    width: u32,
    height: u32,
    after: EngineModel,
) -> bool {
    let view = BrowserViewHandle { id: before.next_view };
    &&& after.state == before.state
    &&& after.next_view == before.next_view + 1
    &&& after.views == before.views.insert(id, fresh_view(view))
    &&& after.commands == before.commands + released(displaced(before.views, id)) + seq![
        Command::AttachView { view, window },
        Command::SetBounds { view, bounds: embedding_bounds(width, height) },
    ]
}

/// `after` is `before` once the view numbered `before.next_view` was
/// registered under `id` and the registration rolled back, the parent window
/// not being resolvable: nothing is left under `id`, and the view that was
/// there, if any, and the new view are released.
pub open spec fn rolled_back(before: EngineModel, id: Seq<char>, after: EngineModel) -> bool {
    let view = BrowserViewHandle { id: before.next_view };
    &&& after.state == before.state
    &&& after.next_view == before.next_view + 1
    &&& after.views == before.views.remove(id)
    &&& after.commands == before.commands + released(displaced(before.views, id)) + seq![
        Command::Release { view },
    ]
}

/// How many times `cs` releases `view`.
pub open spec fn release_count(cs: Seq<Command>, view: BrowserViewHandle) -> nat
    decreases cs.len(),
{
    if cs.len() == 0 {
        0
    } else {
        release_count(cs.drop_last(), view) + if cs.last() == (Command::Release { view }) {
            1nat
        } else {
            0nat
        }
    }
}

proof fn lemma_release_count_append(a: Seq<Command>, b: Seq<Command>, view: BrowserViewHandle)
    ensures
        release_count(a + b, view) == release_count(a, view) + release_count(b, view),
    decreases b.len(),
{
    if b.len() > 0 {
        assert((a + b).drop_last() =~= a + b.drop_last());
        lemma_release_count_append(a, b.drop_last(), view);
    } else {
        assert(a + b =~= a);
    }
}

/// Embedding a second browser under an identifier replaces the first: the
/// identifier then names the new view, which differs from the old one, every
/// other identifier keeps its view, and the old view is released exactly once
/// and is registered nowhere any more, so no later release reaches it.
pub proof fn lemma_embed_replaces(
    before: EngineModel,
    id: Seq<char>,
    window: PlatformWindowHandle,
    width: u32,
    height: u32,
    after: EngineModel,
)
    requires
        before.views.contains_key(id),
        distinct_handles(before.views),
        forall|k: Seq<char>| #[trigger]
            before.views.contains_key(k) ==> before.views[k].handle.id < before.next_view,
        embedded(before, id, window, width, height, after),
    ensures
        after.views[id].handle == (BrowserViewHandle { id: before.next_view }),
        after.views[id].handle != before.views[id].handle,
        after.views.dom() == before.views.dom(),
        forall|k: Seq<char>| #[trigger]
            before.views.contains_key(k) && k != id ==> after.views[k] == before.views[k],
        release_count(after.commands, before.views[id].handle) == release_count(
            before.commands,
            before.views[id].handle,
        ) + 1,
        release_count(after.commands, BrowserViewHandle { id: before.next_view })
            == release_count(before.commands, BrowserViewHandle { id: before.next_view }),
        !holds_handle(after.views, before.views[id].handle),
{
    let h1 = before.views[id].handle;
    let v = BrowserViewHandle { id: before.next_view };
    let tail = seq![
        Command::AttachView { view: v, window },
        Command::SetBounds { view: v, bounds: embedding_bounds(width, height) },
    ];
    assert(after.views.dom() =~= before.views.dom());
    assert(released(displaced(before.views, id)) == seq![Command::Release { view: h1 }]);
    lemma_release_count_append(before.commands, seq![Command::Release { view: h1 }], h1);
    lemma_release_count_append(before.commands + seq![Command::Release { view: h1 }], tail, h1);
    lemma_release_count_append(before.commands, seq![Command::Release { view: h1 }], v);
    lemma_release_count_append(before.commands + seq![Command::Release { view: h1 }], tail, v);
    assert(seq![Command::Release { view: h1 }].drop_last() =~= Seq::<Command>::empty());
    let t1 = tail.drop_last();
    assert(t1.drop_last() =~= Seq::<Command>::empty());
    assert(release_count(t1.drop_last(), h1) == 0 && release_count(t1.drop_last(), v) == 0);
    assert(release_count(t1, h1) == 0 && release_count(t1, v) == 0);
    assert(release_count(tail, h1) == 0 && release_count(tail, v) == 0);
    if holds_handle(after.views, h1) {
        let k = choose|k: Seq<char>| after.views.contains_key(k) && after.views[k].handle == h1;
        assert(k != id);
        assert(before.views[k].handle == h1);
    }
}

/// Registers a browser view that the engine has built under `browser_id`
/// (releasing the view registered there before) and attaches it to the host
/// window `parent_window`, laid out below the chrome of a content area of
/// `content_width` by `content_height`. The new view gets the number
/// `next_view_id` had before the call.
///
/// `view_built` is whether the engine built the view that
/// `prepare_embedded_view` asked for, and `parent_window` is what resolving the
/// host's native handle gave. The view is registered before it is attached.
/// When the parent window did not resolve, the registration is rolled back and
/// the new view released: nothing stays registered under `browser_id`.
pub fn create_embedded_browser(
    ctx: &mut BrowserEngine,
    browser_id: &str,
    url: &str,
    view_built: bool,
    parent_window: Option<PlatformWindowHandle>,
    content_width: u32,
    content_height: u32,
) -> (r: Result<(), BrowserError>)
    requires
        old(ctx).wf(),
        old(ctx)@.next_view < u64::MAX,
    ensures
        final(ctx).wf(),
        old(ctx)@.state != EngineState::Running ==> r == Err::<(), BrowserError>(
            BrowserError::EngineNotRunning,
        ) && final(ctx)@ == old(ctx)@,
        old(ctx)@.state == EngineState::Running && parsed_url(url@) is None ==> r == Err::<
            (),
            BrowserError,
        >(BrowserError::InvalidUrl) && final(ctx)@ == old(ctx)@,
        old(ctx)@.state == EngineState::Running && parsed_url(url@) is Some && !view_built ==> r
            == Err::<(), BrowserError>(BrowserError::ViewCreationError) && final(ctx)@ == old(
            ctx,
        )@,
        old(ctx)@.state == EngineState::Running && parsed_url(url@) is Some && view_built ==> {
            &&& !holds_handle(old(ctx)@.views, BrowserViewHandle { id: old(ctx)@.next_view })
            &&& parent_window is None ==> {
                &&& r == Err::<(), BrowserError>(BrowserError::WindowResolutionError)
                &&& rolled_back(old(ctx)@, browser_id@, final(ctx)@)
            }
            &&& parent_window matches Some(w) ==> {
                &&& r == Ok::<(), BrowserError>(())
                &&& embedded(old(ctx)@, browser_id@, w, content_width, content_height, final(ctx)@)
            }
        },
{
    if ctx.state != EngineState::Running {
        return Err(BrowserError::EngineNotRunning);
    }
    if validate_url(url).is_none() {
        return Err(BrowserError::InvalidUrl);
    }
    if !view_built {
        return Err(BrowserError::ViewCreationError);
    }
    let ghost pre = ctx@;
    let view = BrowserViewHandle { id: ctx.next_view };
    ctx.next_view = ctx.next_view + 1;
    let prior = ctx.registry.insert(browser_id, view);
    if let Some(p) = prior {
        ctx.issue(EngineCommand::Release { view: p });
    }
    let ghost issued = pre.commands + released(displaced(pre.views, browser_id@));
    assert(ctx@.commands =~= issued);
    match parent_window {
        None => {
            let _ = ctx.registry.remove(browser_id);
            ctx.issue(EngineCommand::Release { view });
            assert(ctx@.views =~= pre.views.remove(browser_id@));
            assert(ctx@.commands =~= issued + seq![Command::Release { view }]);
            Err(BrowserError::WindowResolutionError)
        },
        Some(window) => {
            ctx.issue(EngineCommand::AttachView { view, window });
            let bounds = compute_bounds(content_width, content_height);
            ctx.issue(EngineCommand::SetBounds { view, bounds });
            assert(ctx@.commands =~= issued + seq![
                Command::AttachView { view, window },
                Command::SetBounds { view, bounds: embedding_bounds(content_width, content_height) },
            ]);
            Ok(())
        },
    }
}

/// Loads `url` in the main frame of the browser registered under
/// `browser_id`. The load is issued, not awaited. The registry is never
/// changed; on failure nothing is.
pub fn navigate_browser(ctx: &mut BrowserEngine, browser_id: &str, url: &str) -> (r: Result<(), BrowserError>)
    requires
        old(ctx).wf(),
    ensures
        final(ctx).wf(),
        final(ctx)@.state == old(ctx)@.state,
        final(ctx)@.views == old(ctx)@.views,
        final(ctx)@.next_view == old(ctx)@.next_view,
        r is Err ==> final(ctx)@ == old(ctx)@,
        old(ctx)@.state != EngineState::Running ==> r == Err::<(), BrowserError>(
            BrowserError::EngineNotRunning,
        ),
        old(ctx)@.state == EngineState::Running && parsed_url(url@) is None ==> r == Err::<
            (),
            BrowserError,
        >(BrowserError::InvalidUrl),
        old(ctx)@.state == EngineState::Running && parsed_url(url@) is Some
            && !old(ctx)@.views.contains_key(browser_id@) ==> r == Err::<(), BrowserError>(
            BrowserError::BrowserNotFound,
        ),
        old(ctx)@.state == EngineState::Running && parsed_url(url@) is Some
            && old(ctx)@.views.contains_key(browser_id@)
            && !old(ctx)@.views[browser_id@].status.main_frame ==> r == Err::<(), BrowserError>(
            BrowserError::NoMainFrame,
        ),
        old(ctx)@.state == EngineState::Running && parsed_url(url@) is Some
            && old(ctx)@.views.contains_key(browser_id@)
            && old(ctx)@.views[browser_id@].status.main_frame ==> {
            &&& r == Ok::<(), BrowserError>(())
            &&& final(ctx)@.commands == old(ctx)@.commands.push(
                Command::LoadUrl {
                    view: old(ctx)@.views[browser_id@].handle,
                    url: parsed_url(url@)->0,
                },
            )
        },
{
    if ctx.state != EngineState::Running {
        return Err(BrowserError::EngineNotRunning);
    }
    let u = match validate_url(url) {
        Some(u) => u,
        None => {
            return Err(BrowserError::InvalidUrl);
        },
    };
    let view = match ctx.registry.lookup(browser_id) {
        Some(v) => v,
        None => {
            return Err(BrowserError::BrowserNotFound);
        },
    };
    if !view.status.main_frame {
        return Err(BrowserError::NoMainFrame);
    }
    ctx.issue(EngineCommand::LoadUrl { view: view.handle, url: u });
    Ok(())
}

/// The command that moves a browser's history one step, back or forward.
pub open spec fn history_command(view: BrowserViewHandle, back: bool) -> Command {
    if back {
        Command::GoBack { view }
    } else {
        Command::GoForward { view }
    }
}

/// Whether a browser can move one step back, or forward, in its history.
pub open spec fn can_move(status: ViewStatus, back: bool) -> bool {
    if back {
        status.can_go_back
    } else {
        status.can_go_forward
    }
}

/// Moves the history of the browser under `browser_id` one step back (or
/// forward). Where the history has no such step this succeeds and does
/// nothing. Only a missing browser or a stopped engine is an error.
fn step_history(ctx: &mut BrowserEngine, browser_id: &str, back: bool) -> (r: Result<(), BrowserError>)
    requires
        old(ctx).wf(),
    ensures
        final(ctx).wf(),
        history_stepped(old(ctx)@, browser_id@, back, r, final(ctx)@),
{
    if ctx.state != EngineState::Running {
        return Err(BrowserError::EngineNotRunning);
    }
    let view = match ctx.registry.lookup(browser_id) {
        Some(v) => v,
        None => {
            return Err(BrowserError::BrowserNotFound);
        },
    };
    if back && view.status.can_go_back {
        ctx.issue(EngineCommand::GoBack { view: view.handle });
    } else if !back && view.status.can_go_forward {
        ctx.issue(EngineCommand::GoForward { view: view.handle });
    }
    Ok(())
}

/// `after`, with result `r`, is what a history step of the browser under `id`
/// leaves: an error, and no change, when the engine is not running or no such
/// browser lives; otherwise success, with the step issued where the history
/// allows it and nothing changed where it does not.
pub open spec fn history_stepped(
    before: EngineModel,
    id: Seq<char>,
    back: bool,
    r: Result<(), BrowserError>,
    after: EngineModel,
) -> bool {
    if before.state != EngineState::Running {
        r == Err::<(), BrowserError>(BrowserError::EngineNotRunning) && after == before
    } else if !before.views.contains_key(id) {
        r == Err::<(), BrowserError>(BrowserError::BrowserNotFound) && after == before
    } else if can_move(before.views[id].status, back) {
        &&& r == Ok::<(), BrowserError>(())
        &&& after == (EngineModel {
            commands: before.commands.push(history_command(before.views[id].handle, back)),
            ..before
        })
    } else {
        r == Ok::<(), BrowserError>(()) && after == before
    }
}

/// Takes the browser under `browser_id` one step back in its history, if it
/// has one.
pub fn browser_go_back(ctx: &mut BrowserEngine, browser_id: &str) -> (r: Result<(), BrowserError>)
    requires
        old(ctx).wf(),
    ensures
        final(ctx).wf(),
        history_stepped(old(ctx)@, browser_id@, true, r, final(ctx)@),
{
    step_history(ctx, browser_id, true)
}

/// Takes the browser under `browser_id` one step forward in its history, if it
/// has one.
pub fn browser_go_forward(ctx: &mut BrowserEngine, browser_id: &str) -> (r: Result<(), BrowserError>)
    requires
        old(ctx).wf(),
    ensures
        final(ctx).wf(),
        history_stepped(old(ctx)@, browser_id@, false, r, final(ctx)@),
{
    step_history(ctx, browser_id, false)
}

/// Reloads the browser under `browser_id`.
pub fn browser_refresh(ctx: &mut BrowserEngine, browser_id: &str) -> (r: Result<(), BrowserError>)
    requires
        old(ctx).wf(),
    ensures
        final(ctx).wf(),
        old(ctx)@.state != EngineState::Running ==> {
            &&& r == Err::<(), BrowserError>(BrowserError::EngineNotRunning)
            &&& final(ctx)@ == old(ctx)@
        },
        old(ctx)@.state == EngineState::Running && !old(ctx)@.views.contains_key(browser_id@) ==> {
            &&& r == Err::<(), BrowserError>(BrowserError::BrowserNotFound)
            &&& final(ctx)@ == old(ctx)@
        },
        old(ctx)@.state == EngineState::Running && old(ctx)@.views.contains_key(browser_id@) ==> {
            &&& r == Ok::<(), BrowserError>(())
            &&& final(ctx)@ == (EngineModel {
                commands: old(ctx)@.commands.push(
                    Command::Reload { view: old(ctx)@.views[browser_id@].handle },
                ),
                ..old(ctx)@
            })
        },
{
    if ctx.state != EngineState::Running {
        return Err(BrowserError::EngineNotRunning);
    }
    match ctx.registry.get(browser_id) {
        Some(handle) => {
            ctx.issue(EngineCommand::Reload { view: handle });
            Ok(())
        },
        None => Err(BrowserError::BrowserNotFound),
    }
}

/// Records what the engine reported about the view with `handle`: whether its
/// main frame can be had, and where its history can move.
pub fn record_view_status(ctx: &mut BrowserEngine, handle: BrowserViewHandle, status: ViewStatus)
    requires
        old(ctx).wf(),
    ensures
        final(ctx).wf(),
        final(ctx)@ == (EngineModel {
            views: with_status(old(ctx)@.views, handle, status),
            ..old(ctx)@
        }),
{
    ctx.registry.set_status(handle, status);
    assert(old(ctx).registry@ == Map::<Seq<char>, BrowserView>::empty() ==> ctx.registry@
        =~= Map::<Seq<char>, BrowserView>::empty());
}

} // verus!
