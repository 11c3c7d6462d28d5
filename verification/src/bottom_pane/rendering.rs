//! The pane below the transcript: which view it shows and how it is laid out.

use crate::agent;
use crate::agent::{AgentStatus, AgentType, AGENT_COUNT};
use crate::app_state::{Tui, TuiView};
use crate::bottom_pane::approval_overlay;
use crate::bottom_pane::completion_popup;
use crate::desk::DeskView;
use crate::geometry;
use crate::geometry::Rect;
use crate::text;
use vstd::prelude::*;

verus! {

/// The most columns of the agent picker.
pub const PICKER_WIDTH: u16 = 64;

/// The view that the pane shows.
#[derive(Debug, Clone, Copy, PartialEq, Eq, Structural)]
pub enum PaneView {
    AgentPicker,
    Approval,
    UserInput,
    Composer,
}

/// A part of the pane, from top to bottom.
#[derive(Debug, Clone, Copy, PartialEq, Eq, Structural)]
pub enum PanePart {
    Status,
    Blank,
    Preview,
    /// The composer with its footer.
    Composer,
    /// The composer with a popup in place of its footer.
    ComposerWithPopup,
}

/// The view that the pane shows: the picker, else what waits for approval, else a
/// question, else the composer.
pub open spec fn pane_view(v: TuiView) -> PaneView {
    if v.screen.agent_picker is Some {
        PaneView::AgentPicker
    } else if v.prompts.approvals.len() > 0 {
        PaneView::Approval
    } else if v.prompts.inputs.len() > 0 {
        PaneView::UserInput
    } else {
        PaneView::Composer
    }
}

/// The parts of the pane while it shows the composer. A blank row stands between
/// the status and what follows it.
pub open spec fn pane_parts(has_preview: bool, has_status: bool, has_popup: bool) -> Seq<PanePart> {
    let composer = if has_popup {
        PanePart::ComposerWithPopup
    } else {
        PanePart::Composer
    };
    if has_status && has_preview {
        seq![PanePart::Status, PanePart::Blank, PanePart::Preview, composer]
    } else if has_status {
        seq![PanePart::Status, PanePart::Preview, PanePart::Blank, composer]
    } else {
        seq![PanePart::Status, PanePart::Preview, composer]
    }
}

/// The status of the focused agent.
pub open spec fn focused_status(v: TuiView) -> AgentStatus {
    v.desk.statuses[agent::index_of(v.focused)]
}

/// The rows that the agent picker wants.
pub open spec fn roster_height() -> u16 {
    (AGENT_COUNT + 4) as u16
}

/// Where the agent picker stands.
pub open spec fn picker_area(area: Rect) -> Rect {
    geometry::placed(
        area,
        geometry::least(PICKER_WIDTH, area.width),
        geometry::least(roster_height(), area.height),
        2,
    )
}

/// A row of the agent picker.
#[derive(Debug)]
pub struct PickerRow {
    pub number: String,
    pub agent: AgentType,
    /// Whether the agent is at work or about to be.
    pub active: bool,
    pub status: String,
}

/// A row of the agent picker.
#[verifier::ext_equal]
pub struct PickerRowView {
    pub number: Seq<char>,
    pub agent: AgentType,
    pub active: bool,
    pub status: Seq<char>,
}

impl View for PickerRow {
    type V = PickerRowView;

    open spec fn view(&self) -> PickerRowView {
        PickerRowView {
            number: self.number@,
            agent: self.agent,
            active: self.active,
            status: self.status@,
        }
    }
}

/// The agent picker.
#[derive(Debug)]
pub struct AgentPicker {
    pub area: Rect,
    pub selected: usize,
    pub rows: Vec<PickerRow>,
}

/// What is written in the border of the agent picker.
pub fn picker_title() -> (r: &'static str)
    ensures
        r@ == " Agents · independent histories "@,
{
    " Agents · independent histories "
}

/// The row of an agent.
pub open spec fn picker_row(v: DeskView, i: int) -> PickerRowView {
    PickerRowView {
        number: text::decimal_of((i + 1) as nat) + ". "@,
        agent: agent::agent_at(i),
        active: agent::is_active(v.statuses[i]),
        status: "  ["@ + agent::status_name(v.statuses[i]) + "]"@,
    }
}

/// What rows hold.
pub open spec fn picker_rows(v: Seq<PickerRow>) -> Seq<PickerRowView> {
    v.map_values(|r: PickerRow| r@)
}

/// All rows of the agent picker.
pub open spec fn roster(v: DeskView) -> Seq<PickerRowView> {
    Seq::new(AGENT_COUNT as nat, |i: int| picker_row(v, i))
}

/// The composer above a popup.
pub open spec fn above_popup(area: Rect, popup: u16) -> Rect {
    Rect {
        height: geometry::minus(area.height, geometry::least(popup, area.height)),
        ..area
    }
}

/// The popup below the composer.
pub open spec fn below_composer(area: Rect, popup: u16) -> Rect {
    Rect {
        y: (area.y + above_popup(area, popup).height) as u16,
        height: geometry::least(popup, area.height),
        ..area
    }
}

/// The areas of the composer and of the popup below it.
pub fn composer_and_popup(area: Rect, popup: u16) -> (r: (Rect, Rect))
    requires
        area.wf(),
    ensures
        r.0 == above_popup(area, popup),
        r.1 == below_composer(area, popup),
        r.0.wf(),
        r.1.wf(),
{
    let popup_height: u16 = geometry::min_cells(popup, area.height);
    let input_height: u16 = geometry::sub_cells(area.height, popup_height);
    (
        Rect::new(area.x, area.y, area.width, input_height),
        Rect::new(
            area.x,
            geometry::add_cells(area.y, input_height),
            area.width,
            popup_height,
        ),
    )
}

/// The rows of a composer with a popup below it.
pub fn composer_and_popup_height(input: u16, popup: u16) -> (r: u16)
    ensures
        r == geometry::plus(input, popup),
{
    geometry::add_cells(input, popup)
}

/// The row of an agent.
fn row_of(index: usize, status: AgentStatus) -> (r: PickerRow)
    requires
        index < AGENT_COUNT,
    ensures
        r@ == (PickerRowView {
            number: text::decimal_of((index + 1) as nat) + ". "@,
            agent: agent::agent_at(index as int),
            active: agent::is_active(status),
            status: "  ["@ + agent::status_name(status) + "]"@,
        }),
{
    let mut number = text::decimal((index + 1) as u64);
    number.push_str(". ");
    let mut label = approval_overlay::prefixed("  [", status.label());
    label.push_str("]");
    PickerRow { number, agent: AgentType::at(index), active: status.active(), status: label }
}

impl Tui {
    /// The view that the pane shows.
    pub fn pane_view(&self) -> (r: PaneView)
        ensures
            r == pane_view(self@),
    {
        if self.screen.agent_picker.is_some() {
            PaneView::AgentPicker
        } else if self.prompts.approvals.len() > 0 {
            PaneView::Approval
        } else if self.prompts.inputs.len() > 0 {
            PaneView::UserInput
        } else {
            PaneView::Composer
        }
    }

    /// The parts of the pane while it shows the composer, where `has_preview` tells
    /// whether the preview of waiting messages takes any row.
    pub fn pane_parts(&self, has_preview: bool) -> (r: Vec<PanePart>)
        requires
            self@.wf(),
        ensures
            r@ == pane_parts(
                has_preview,
                focused_status(self@) != AgentStatus::Idle,
                completion_popup::completion_of(self@.editor.composer.popups) is Some,
            ),
    {
        let has_status = self.desk.statuses[self.focused.index()] != AgentStatus::Idle;
        let has_popup = self.editor.composer.slash_popup().is_some()
            || self.editor.composer.mention_popup().is_some();
        let mut parts: Vec<PanePart> = Vec::new();
        parts.push(PanePart::Status);
        if has_preview && has_status {
            parts.push(PanePart::Blank);
        }
        parts.push(PanePart::Preview);
        if !has_preview && has_status {
            parts.push(PanePart::Blank);
        }
        if has_popup {
            parts.push(PanePart::ComposerWithPopup);
        } else {
            parts.push(PanePart::Composer);
        }
        assert(parts@ =~= pane_parts(has_preview, has_status, has_popup));
        parts
    }

    /// The agent picker, unless it is closed or there is no room.
    pub fn agent_picker(&self, area: Rect) -> (r: Option<AgentPicker>)
        requires
            self@.wf(),
            area.wf(),
        ensures
            match self@.screen.agent_picker {
                Some(i) if area.width > 0 && area.height > 0 => {
                    &&& r is Some
                    &&& r->0.area == picker_area(area)
                    &&& r->0.selected == i
                    &&& picker_rows(r->0.rows@) == roster(self@.desk)
                },
                _ => r is None,
            },
    {
        let selected: usize = match self.screen.agent_picker {
            Some(i) => i,
            None => {
                return None;
            },
        };
        if area.is_empty() {
            return None;
        }
        let mut rows: Vec<PickerRow> = Vec::new();
        let mut i: usize = 0;
        assert(picker_rows(rows@) =~= roster(self@.desk).take(0));
        while i < AGENT_COUNT
            invariant
                i <= AGENT_COUNT,
                self@.wf(),
                picker_rows(rows@) == roster(self@.desk).take(i as int),
            decreases AGENT_COUNT - i,
        {
            let ghost before = rows@;
            let row = row_of(i, self.desk.statuses[i]);
            rows.push(row);
            assert(picker_rows(rows@) =~= picker_rows(before).push(row@));
            assert(roster(self@.desk).take(i + 1) =~= roster(self@.desk).take(i as int).push(
                picker_row(self@.desk, i as int),
            ));
            i += 1;
        }
        assert(roster(self@.desk).take(AGENT_COUNT as int) =~= roster(self@.desk));
        let width: u16 = geometry::min_cells(PICKER_WIDTH, area.width);
        let height: u16 = geometry::min_cells(AGENT_COUNT as u16 + 4, area.height);
        Some(AgentPicker { area: geometry::place(area, width, height, 2), selected, rows })
    }

    /// The model of the focused agent: the main agent has one of its own.
    pub fn focused_model<'a>(&self, main_model: &'a str, sub_model: &'a str) -> (r: &'a str)
        ensures
            r@ == (if self@.focused == AgentType::Main {
                main_model@
            } else {
                sub_model@
            }),
    {
        if self.focused == AgentType::Main {
            main_model
        } else {
            sub_model
        }
    }
}

/// The composer and the popup below it share the area: together they take all of
/// its rows, and they do not overlap.
pub proof fn law_popup_takes_footer_rows(area: Rect, popup: u16)
    requires
        area.wf(),
    ensures
        above_popup(area, popup).height + below_composer(area, popup).height == area.height,
        above_popup(area, popup).y == area.y,
        below_composer(area, popup).y == area.y + above_popup(area, popup).height,
        above_popup(area, popup).width == area.width,
        below_composer(area, popup).width == area.width,
{
}

/// What waits for the user is shown before the composer, an approval before a
/// question.
pub proof fn law_prompts_come_first(v: TuiView)
    requires
        v.screen.agent_picker is None,
    ensures
        v.prompts.approvals.len() > 0 ==> pane_view(v) == PaneView::Approval,
        v.prompts.approvals.len() == 0 && v.prompts.inputs.len() > 0 ==> pane_view(v)
            == PaneView::UserInput,
{
}

} // verus!
