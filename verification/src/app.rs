//! The loop of the application: which surface owns the frame, where the chat stands
//! on the screen, and what is written to the scrollback.

use crate::agent::AgentType;
use crate::app_event;
use crate::app_event::BusMessage;
use crate::app_input;
use crate::app_state;
use crate::app_state::{Effect, EffectView, Overlay, Screen, Tui, TuiView};
use crate::bottom_pane::paste_burst;
use crate::bottom_pane::paste_burst::PasteBurst;
use crate::clock;
use crate::editor;
use crate::geometry;
use crate::geometry::{Rect, Size};
use crate::key_events;
use crate::key_events::Event;
use crate::replay;
use crate::replay::SessionHistory;
use crate::transcript;
use crate::transcript::{Cell, CellView, SysKind};
use vstd::prelude::*;

verus! {

/// The fewest rows of the chat before anything was said.
pub const INITIAL_CHAT_VIEWPORT_MIN_HEIGHT: u16 = 19;

/// The surface that owns every cell of the frame.
#[derive(Debug, Clone, Copy, PartialEq, Eq, Structural)]
pub enum FullFrameSurface {
    Chat,
    Pager,
    ApiConfiguration,
    ConfigurationFlow,
    EnvironmentConfiguration,
}

/// The surface that owns the frame: an open screen, else the pager, else the chat.
pub open spec fn selected_surface(
    overlay: Option<FullFrameSurface>,
    pager_is_open: bool,
) -> FullFrameSurface {
    match overlay {
        Some(s) => s,
        None => if pager_is_open {
            FullFrameSurface::Pager
        } else {
            FullFrameSurface::Chat
        },
    }
}

/// The surface that owns the frame.
pub fn select_full_frame_surface(overlay: Option<FullFrameSurface>, pager_is_open: bool) -> (r:
    FullFrameSurface)
    ensures
        r == selected_surface(overlay, pager_is_open),
{
    match overlay {
        Some(s) => s,
        None => {
            if pager_is_open {
                FullFrameSurface::Pager
            } else {
                FullFrameSurface::Chat
            }
        },
    }
}

/// The surface of a screen.
pub open spec fn surface_of(overlay: Option<Overlay>) -> Option<FullFrameSurface> {
    match overlay {
        Some(Overlay::Api) => Some(FullFrameSurface::ApiConfiguration),
        Some(Overlay::Configuration) => Some(FullFrameSurface::ConfigurationFlow),
        Some(Overlay::Environment) => Some(FullFrameSurface::EnvironmentConfiguration),
        None => None,
    }
}

/// The surface that owns the frame in a state of the screen.
pub open spec fn surface(s: Screen) -> FullFrameSurface {
    selected_surface(surface_of(s.overlay), s.pager)
}

/// The surface that owns the frame in a state of the screen.
fn current_surface(s: Screen) -> (r: FullFrameSurface)
    ensures
        r == surface(s),
{
    let overlay = match s.overlay {
        Some(Overlay::Api) => Some(FullFrameSurface::ApiConfiguration),
        Some(Overlay::Configuration) => Some(FullFrameSurface::ConfigurationFlow),
        Some(Overlay::Environment) => Some(FullFrameSurface::EnvironmentConfiguration),
        None => None,
    };
    select_full_frame_surface(overlay, s.pager)
}

// ---------------------------------------------------------------------------
// The viewport
// ---------------------------------------------------------------------------

/// How many rows the chat takes: those it wants, at first no fewer than a minimum,
/// no more than there are, and at least one.
pub open spec fn viewport_height(screen_height: u16, desired: u16, initial: bool) -> u16 {
    let height = if initial {
        geometry::greatest(desired, INITIAL_CHAT_VIEWPORT_MIN_HEIGHT)
    } else {
        desired
    };
    geometry::greatest(geometry::least(height, screen_height), 1)
}

/// How many rows the chat takes.
pub fn chat_viewport_height(screen_height: u16, desired_height: u16, is_initial_surface: bool) -> (r:
    u16)
    ensures
        r == viewport_height(screen_height, desired_height, is_initial_surface),
{
    let height: u16 = if is_initial_surface {
        geometry::max_cells(desired_height, INITIAL_CHAT_VIEWPORT_MIN_HEIGHT)
    } else {
        desired_height
    };
    geometry::max_cells(geometry::min_cells(height, screen_height), 1)
}

/// The first row of the viewport: the top row for a screen and after a clearing, the
/// end of the screen at first, the same last row after a change of size, and the
/// same first row else.
pub open spec fn viewport_y(
    screen: Size,
    previous: Rect,
    height: u16,
    full_screen: bool,
    anchor_top: bool,
) -> u16 {
    let lowest = geometry::minus(screen.height, height);
    if full_screen || anchor_top {
        0
    } else if previous.width == 0 || previous.height == 0 {
        lowest
    } else if previous.width != screen.width || previous.height != height {
        geometry::least(
            geometry::minus(geometry::plus(previous.y, previous.height), height),
            lowest,
        )
    } else {
        geometry::least(previous.y, lowest)
    }
}

/// The first row of the viewport.
pub fn chat_viewport_y(
    screen: Size,
    previous: Rect,
    height: u16,
    full_screen: bool,
    anchor_top: bool,
) -> (r: u16)
    ensures
        r == viewport_y(screen, previous, height, full_screen, anchor_top),
{
    if full_screen {
        return 0;
    }
    if anchor_top {
        return 0;
    }
    let lowest: u16 = geometry::sub_cells(screen.height, height);
    if previous.is_empty() {
        return lowest;
    }
    if previous.width != screen.width || previous.height != height {
        geometry::min_cells(geometry::sub_cells(previous.bottom(), height), lowest)
    } else {
        geometry::min_cells(previous.y, lowest)
    }
}

/// Whether a cell is a notice that says nothing of an error.
pub open spec fn is_notice(c: CellView) -> bool {
    match c {
        CellView::System { kind, .. } => kind == SysKind::Info,
        _ => false,
    }
}

/// Whether nothing but notices was said.
pub open spec fn only_notices(cells: Seq<CellView>) -> bool {
    forall|i: int| 0 <= i < cells.len() ==> is_notice(#[trigger] cells[i])
}

/// Whether nothing but notices was said.
fn all_notices(cells: &Vec<Cell>) -> (r: bool)
    ensures
        r == only_notices(transcript::cell_views(cells@)),
{
    let ghost all = transcript::cell_views(cells@);
    let mut i: usize = 0;
    while i < cells.len()
        invariant
            i <= cells@.len(),
            all == transcript::cell_views(cells@),
            forall|k: int| 0 <= k < i ==> is_notice(#[trigger] all[k]),
        decreases cells@.len() - i,
    {
        let notice = match &cells[i] {
            Cell::System { kind, .. } => *kind == SysKind::Info,
            _ => false,
        };
        assert(notice == is_notice(all[i as int]));
        if !notice {
            return false;
        }
        i += 1;
    }
    true
}

/// Where the viewport stands.
pub open spec fn viewport(v: TuiView, screen: Size, previous: Rect, desired: u16, anchor_top: bool) -> Rect {
    let full = surface(v.screen) != FullFrameSurface::Chat;
    let height = if full {
        screen.height
    } else {
        viewport_height(screen.height, desired, only_notices(v.desk.history))
    };
    let y = viewport_y(screen, previous, height, full, anchor_top);
    Rect {
        x: 0,
        y,
        width: screen.width,
        height: geometry::least(height, (u16::MAX - y) as u16),
    }
}

/// How many rows the chat wants: those of the transcript that is not settled yet,
/// those of the pane below it and one between them.
pub open spec fn wanted_height(active: u16, pane: u16) -> u16 {
    geometry::greatest(geometry::plus(active, geometry::plus(1, pane)), 1)
}

/// How many rows the chat wants.
pub fn codex_chat_viewport_height(active: u16, pane: u16) -> (r: u16)
    ensures
        r == wanted_height(active, pane),
{
    geometry::max_cells(geometry::add_cells(active, geometry::add_cells(1, pane)), 1)
}

/// The part of the transcript that the viewport shows.
#[derive(Debug, Clone, Copy, PartialEq, Eq, Structural)]
pub struct TranscriptWindow {
    /// The first cell.
    pub start: usize,
    /// Whether the header of the session goes first.
    pub header: bool,
    /// Whether the text is shown as it came.
    pub raw: bool,
}

/// How many rows are scrolled out of sight so that the last ones show.
pub fn transcript_scroll(rows: usize, height: u16) -> (r: u16)
    ensures
        r == geometry::as_cells(
            if rows > height {
                rows - height
            } else {
                0
            },
        ),
{
    if rows > height as usize {
        geometry::to_cells(rows - height as usize)
    } else {
        0
    }
}

// ---------------------------------------------------------------------------
// Frames
// ---------------------------------------------------------------------------

/// What a change of the surface asks of the terminal.
#[derive(Debug, Clone, Copy, PartialEq, Eq, Structural)]
pub enum SurfaceChange {
    Stay,
    /// Enter the alternate screen and clear it.
    Enter,
    /// Leave the alternate screen and draw everything again.
    Leave,
}

/// What a change of the surface asks of the terminal.
pub open spec fn change_of(last: FullFrameSurface, now: FullFrameSurface) -> SurfaceChange {
    if now == last {
        SurfaceChange::Stay
    } else if now != FullFrameSurface::Chat {
        SurfaceChange::Enter
    } else {
        SurfaceChange::Leave
    }
}

/// What is to be done before a frame is drawn.
#[derive(Debug, Clone, Copy, PartialEq, Eq, Structural)]
pub struct FramePlan {
    /// The screen that is to be set up.
    pub opened: Option<Overlay>,
    pub surface: FullFrameSurface,
    pub change: SurfaceChange,
    /// Whether the terminal is to be cleared with its scrollback.
    pub clear: bool,
    /// Where the viewport stands.
    pub area: Rect,
    /// Whether the viewport moved, so that all of it is to be drawn again.
    pub moved: bool,
}

/// The screen that is wanted: the environment, else the models, else the
/// configuration.
pub open spec fn wanted_overlay(s: Screen) -> Option<Overlay> {
    if s.want_environment {
        Some(Overlay::Environment)
    } else if s.want_models {
        Some(Overlay::Configuration)
    } else if s.want_config {
        Some(Overlay::Api)
    } else {
        None
    }
}

/// The state of the screen with what is wanted opened. A wish for the configuration
/// stays while the models are opened.
pub open spec fn with_wanted(s: Screen) -> Screen {
    match wanted_overlay(s) {
        None => s,
        Some(o) => Screen {
            pager: false,
            overlay: Some(o),
            want_models: false,
            want_config: s.want_models && s.want_config,
            want_environment: false,
            ..s
        },
    }
}

/// The plan of a frame.
pub open spec fn planned(
    v: TuiView,
    screen: Size,
    previous: Rect,
    last: FullFrameSurface,
    desired: u16,
) -> FramePlan {
    let s = with_wanted(v.screen);
    let start = if s.needs_clear {
        Rect { y: 0, ..previous }
    } else {
        previous
    };
    let area = viewport(
        app_state::with_screen(v, s),
        screen,
        start,
        desired,
        s.needs_clear,
    );
    FramePlan {
        opened: wanted_overlay(v.screen),
        surface: surface(s),
        change: change_of(last, surface(s)),
        clear: s.needs_clear,
        area,
        moved: area != start,
    }
}

/// Opens what is wanted.
fn open_wanted(s: Screen) -> (r: (Screen, Option<Overlay>))
    ensures
        r.0 == with_wanted(s),
        r.1 == wanted_overlay(s),
{
    let wanted = if s.want_environment {
        Overlay::Environment
    } else if s.want_models {
        Overlay::Configuration
    } else if s.want_config {
        Overlay::Api
    } else {
        return (s, None);
    };
    let next = Screen {
        pager: false,
        overlay: Some(wanted),
        want_models: false,
        want_config: s.want_models && s.want_config,
        want_environment: false,
        ..s
    };
    (next, Some(wanted))
}

/// What a change of the surface asks of the terminal.
fn surface_change(last: FullFrameSurface, now: FullFrameSurface) -> (r: SurfaceChange)
    ensures
        r == change_of(last, now),
{
    if now == last {
        SurfaceChange::Stay
    } else if now != FullFrameSurface::Chat {
        SurfaceChange::Enter
    } else {
        SurfaceChange::Leave
    }
}

/// What is written to the scrollback.
#[derive(Debug, Clone, Copy, PartialEq, Eq, Structural)]
pub struct Batch {
    /// The first cell.
    pub start: usize,
    /// Behind the last cell.
    pub end: usize,
    /// Whether the header of the session goes first.
    pub header: bool,
    /// Whether a blank row goes first.
    pub separator: bool,
}

/// What is to be written: the settled cells that were not written yet. A blank row
/// goes between two batches unless one is there already.
pub open spec fn next_batch(v: TuiView, first_leading: bool) -> Option<Batch> {
    let end = transcript::committed(v.desk.history, v.desk.history.len() as int);
    if end <= v.screen.inserted {
        None
    } else {
        Some(
            Batch {
                start: v.screen.inserted,
                end: end as usize,
                header: v.screen.inserted == 0,
                separator: v.screen.inserted > 0 && !v.screen.tail_blank && !first_leading,
            },
        )
    }
}

/// The screen after a batch was written, where `last_trailing` tells whether the
/// last cell of the focused agent in it ends in a blank row.
pub open spec fn batch_written(s: Screen, end: usize, last_trailing: Option<bool>) -> Screen {
    Screen {
        inserted: end,
        tail_blank: match last_trailing {
            Some(b) => b,
            None => s.tail_blank,
        },
        ..s
    }
}

impl Tui {
    /// The surface that owns the frame.
    pub fn full_frame_surface(&self) -> (r: FullFrameSurface)
        ensures
            r == surface(self@.screen),
    {
        current_surface(self.screen)
    }

    /// How many cells are settled.
    pub fn committed_history_len(&self) -> (r: usize)
        ensures
            r as int == transcript::committed(
                self@.desk.history,
                self@.desk.history.len() as int,
            ),
    {
        assert(self@.desk.history.len() == self.desk.history@.len());
        transcript::committed_len(&self.desk.history)
    }

    /// The part of the transcript from a cell on.
    pub fn transcript_window(&self, start: usize) -> (r: TranscriptWindow)
        ensures
            r.start == (if start < self@.desk.history.len() {
                start as int
            } else {
                self@.desk.history.len() as int
            }),
            r.header == (r.start == 0),
            r.raw == self@.screen.raw_output,
    {
        let total: usize = self.desk.history.len();
        assert(self@.desk.history.len() == total);
        let first: usize = if start < total {
            start
        } else {
            total
        };
        TranscriptWindow { start: first, header: first == 0, raw: self.screen.raw_output }
    }

    /// Where the viewport stands.
    pub fn prepare_chat_viewport(
        &self,
        screen: Size,
        previous: Rect,
        desired: u16,
        anchor_top: bool,
    ) -> (r: Rect)
        ensures
            r == viewport(self@, screen, previous, desired, anchor_top),
    {
        let full_screen = self.full_frame_surface() != FullFrameSurface::Chat;
        let height: u16 = if full_screen {
            screen.height
        } else {
            chat_viewport_height(screen.height, desired, all_notices(&self.desk.history))
        };
        let y: u16 = chat_viewport_y(screen, previous, height, full_screen, anchor_top);
        Rect::new(0, y, screen.width, height)
    }

    /// Opens what is wanted and plans the frame. `previous` is where the viewport
    /// stands, `last` the surface of the frame before, and `desired` the rows that
    /// the chat wants.
    pub fn begin_frame(
        &mut self,
        screen: Size,
        previous: Rect,
        last: FullFrameSurface,
        desired: u16,
    ) -> (r: FramePlan)
        requires
            old(self)@.wf(),
        ensures
            r == planned(old(self)@, screen, previous, last, desired),
            final(self)@ == app_state::with_screen(
                old(self)@,
                Screen { needs_clear: false, ..with_wanted(old(self)@.screen) },
            ),
            final(self)@.wf(),
    {
        let (next, opened) = open_wanted(self.screen);
        self.screen = next;
        let surface = self.full_frame_surface();
        let change = surface_change(last, surface);
        let clear = self.screen.needs_clear;
        let start = if clear {
            Rect { y: 0, ..previous }
        } else {
            previous
        };
        let area = self.prepare_chat_viewport(screen, start, desired, clear);
        self.screen = Screen { needs_clear: false, ..self.screen };
        FramePlan { opened, surface, change, clear, area, moved: area != start }
    }

    /// Takes the settled cells that are to be written to the scrollback. `first_leading`
    /// tells whether the first cell of the focused agent among them begins with a blank
    /// row, and `last_trailing` whether the last one ends in one.
    pub fn flush_history_to_scrollback(
        &mut self,
        first_leading: bool,
        last_trailing: Option<bool>,
    ) -> (r: Option<Batch>)
        requires
            old(self)@.wf(),
        ensures
            r == next_batch(old(self)@, first_leading),
            final(self)@ == (match r {
                None => old(self)@,
                Some(b) => app_state::with_screen(
                    old(self)@,
                    batch_written(old(self)@.screen, b.end, last_trailing),
                ),
            }),
            final(self)@.wf(),
    {
        let end: usize = self.committed_history_len();
        let start: usize = self.screen.inserted;
        if end <= start {
            return None;
        }
        let separator = start > 0 && !self.screen.tail_blank && !first_leading;
        let tail_blank = match last_trailing {
            Some(b) => b,
            None => self.screen.tail_blank,
        };
        self.screen = Screen { inserted: end, tail_blank, ..self.screen };
        Some(Batch { start, end, header: start == 0, separator })
    }
}

// ---------------------------------------------------------------------------
// Events
// ---------------------------------------------------------------------------

/// The first tip of a session.
pub open spec fn first_tip() -> Seq<char> {
    "Tip: use /agent to switch report roles, or @ to add a data or reference file."@
}

/// The second tip of a session.
pub open spec fn second_tip() -> Seq<char> {
    "Five specialised agents are ready. Tab switches focus; every agent keeps its own history."@
}

/// The state of a session that goes on with earlier ones.
pub open spec fn resumed(v: TuiView, sessions: Seq<SessionHistory>) -> TuiView {
    replay::sessions_replayed(
        app_state::said(
            app_state::said(v, first_tip(), SysKind::Info),
            second_tip(),
            SysKind::Info,
        ),
        sessions,
        sessions.len() as int,
    )
}

/// The state after an event of the terminal, and whether the application goes on.
/// While characters are withheld, a frame is asked for in time to let them go.
pub open spec fn after_terminal_event(v: TuiView, ev: Event, now: u64) -> (TuiView, bool) {
    let (w, goes_on) = key_events::after_event(v, ev, now);
    if goes_on && paste_burst::busy(w.editor.burst) {
        (app_state::asking(w, EffectView::ScheduleFrameIn { ms: 9 }), true)
    } else {
        (w, goes_on)
    }
}

/// The state after a frame was due: characters that waited long enough are let go,
/// and the popups follow the draft.
pub open spec fn after_tick(v: TuiView, now: u64) -> TuiView {
    app_input::recomputed(app_state::with_editor(v, editor::paused(v.editor, now)))
}

impl Tui {
    /// Greets the user and puts the transcript of earlier sessions together.
    pub fn begin_session(&mut self, sessions: Vec<SessionHistory>)
        requires
            old(self)@.wf(),
        ensures
            final(self)@ == resumed(old(self)@, sessions@),
            final(self)@.wf(),
    {
        self.system(
            "Tip: use /agent to switch report roles, or @ to add a data or reference file.",
            SysKind::Info,
        );
        self.system(
            "Five specialised agents are ready. Tab switches focus; every agent keeps its own history.",
            SysKind::Info,
        );
        self.restore_history(sessions);
    }

    /// Takes an event of the terminal. Tells whether the application goes on.
    pub fn take_event(&mut self, ev: Event, now: u64) -> (r: bool)
        requires
            old(self)@.wf(),
        ensures
            (final(self)@, r) == after_terminal_event(old(self)@, ev, now),
            final(self)@.wf(),
    {
        if !self.handle_event(ev, now) {
            return false;
        }
        if self.editor.paste_burst.is_active() {
            let delay: u64 = PasteBurst::recommended_flush_delay() / clock::NANOS_PER_MILLI;
            self.ask(Effect::ScheduleFrameIn { ms: delay });
        }
        true
    }

    /// Takes a message from the bus. A frame is asked for at once.
    pub fn take_message(&mut self, about: Option<AgentType>, msg: BusMessage, now: u64)
        requires
            old(self)@.wf(),
        ensures
            final(self)@ == app_state::asking(
                if app_event::is_dropped(old(self)@, about, msg) {
                    old(self)@
                } else {
                    app_event::after_message(old(self)@, msg, now)
                },
                EffectView::ScheduleFrameIn { ms: 0 },
            ),
            final(self)@.wf(),
    {
        self.apply_bus(about, msg, now);
        self.ask(Effect::ScheduleFrameIn { ms: 0 });
    }

    /// Does what is due when a frame is drawn.
    pub fn tick(&mut self, now: u64)
        requires
            old(self)@.wf(),
        ensures
            final(self)@ == after_tick(old(self)@, now),
            final(self)@.wf(),
    {
        self.editor.flush_paste_burst_if_due(now);
        self.recompute_popups();
    }
}

// ---------------------------------------------------------------------------
// Laws
// ---------------------------------------------------------------------------

/// On a screen that has a row, the viewport has a row and lies on the screen.
pub proof fn law_viewport_lies_on_screen(
    v: TuiView,
    screen: Size,
    previous: Rect,
    desired: u16,
    anchor_top: bool,
)
    requires
        screen.height > 0,
    ensures
        viewport(v, screen, previous, desired, anchor_top).height > 0,
        viewport(v, screen, previous, desired, anchor_top).y + viewport(
            v,
            screen,
            previous,
            desired,
            anchor_top,
        ).height <= screen.height,
        viewport(v, screen, previous, desired, anchor_top).width == screen.width,
{
}

/// While neither the size nor what the chat wants changes, the viewport stays where
/// it is.
pub proof fn law_viewport_stays(v: TuiView, screen: Size, previous: Rect, desired: u16)
    requires
        screen.height > 0,
        screen.width > 0,
        surface(v.screen) == FullFrameSurface::Chat,
        previous.x == 0,
        previous.width == screen.width,
        previous.height == viewport_height(
            screen.height,
            desired,
            only_notices(v.desk.history),
        ),
        previous.y + previous.height <= screen.height,
    ensures
        viewport(v, screen, previous, desired, false) == previous,
{
}

/// The transcript is written to the scrollback in order, without a gap and without
/// writing a cell twice: each batch begins where the one before ended, only settled
/// cells are written, and with nothing new nothing is written.
pub proof fn law_scrollback_is_written_once(
    v: TuiView,
    first: bool,
    trailing: Option<bool>,
    again: bool,
)
    requires
        next_batch(v, first) is Some,
        v.desk.history.len() <= usize::MAX,
    ensures
        next_batch(v, first)->0.start == v.screen.inserted,
        next_batch(v, first)->0.end <= v.desk.history.len(),
        next_batch(
            app_state::with_screen(
                v,
                batch_written(v.screen, next_batch(v, first)->0.end, trailing),
            ),
            again,
        ) is None,
{
    transcript::law_committed_cells_are_settled(v.desk.history, v.desk.history.len() as int);
}

/// An open screen is never shown together with the pager.
pub proof fn law_screens_close_the_pager(s: Screen)
    requires
        wanted_overlay(s) is Some,
    ensures
        !with_wanted(s).pager,
        surface(with_wanted(s)) != FullFrameSurface::Pager,
        surface(with_wanted(s)) != FullFrameSurface::Chat,
{
}

/// What is wanted is opened: the environment before the models, and those before the
/// configuration. With nothing wanted, the screen stays as it is.
pub proof fn law_wanted_screens_are_opened(s: Screen)
    ensures
        s.want_environment ==> with_wanted(s).overlay == Some(Overlay::Environment),
        !s.want_environment && s.want_models ==> with_wanted(s).overlay == Some(
            Overlay::Configuration,
        ),
        !s.want_environment && !s.want_models && s.want_config ==> with_wanted(s).overlay == Some(
            Overlay::Api,
        ),
        !s.want_environment && !s.want_models && !s.want_config ==> with_wanted(s) == s,
        !with_wanted(s).want_environment,
        !with_wanted(s).want_models,
        with_wanted(s).exit_requested == s.exit_requested,
        with_wanted(s).scroll == s.scroll,
{
}

/// A screen takes all rows, from the first on. The chat stands at the end of the terminal at
/// first, and takes the rows that it wants as far as there are so many.
pub proof fn law_screens_take_all_rows(
    v: TuiView,
    screen: Size,
    previous: Rect,
    desired: u16,
    anchor_top: bool,
)
    requires
        screen.height > 0,
    ensures
        ({
            let area = viewport(v, screen, previous, desired, anchor_top);
            &&& v.screen.overlay is Some || v.screen.pager ==> area.y == 0 && area.height
                == screen.height
            &&& v.screen.overlay is None && !v.screen.pager ==> {
                &&& anchor_top ==> area.y == 0
                &&& !anchor_top && previous.height == 0 ==> area.y + area.height == screen.height
                &&& !only_notices(v.desk.history) && 1 <= desired <= screen.height ==> area.height
                    == desired
            }
        }),
{
}

/// The terminal is told when a screen takes it over and when the chat has it again.
pub proof fn law_surfaces_change_hands(last: FullFrameSurface, now: FullFrameSurface)
    ensures
        change_of(last, now) is Stay <==> last == now,
        last != now && now == FullFrameSurface::Chat ==> change_of(last, now) is Leave,
        last != now && now != FullFrameSurface::Chat ==> change_of(last, now) is Enter,
{
}

} // verus!
