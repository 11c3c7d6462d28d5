//! The completion popup of the composer: at most one is open.

use crate::text;
use vstd::prelude::*;

verus! {

/// A command that can be completed.
#[derive(Debug)]
pub struct SlashEntry {
    pub name: String,
    pub description: String,
}

/// A command and what it does.
#[verifier::ext_equal]
pub struct EntryView {
    pub name: Seq<char>,
    pub description: Seq<char>,
}

impl View for SlashEntry {
    type V = EntryView;

    open spec fn view(&self) -> EntryView {
        EntryView { name: self.name@, description: self.description@ }
    }
}

/// What entries hold.
pub open spec fn entry_views(v: Seq<SlashEntry>) -> Seq<EntryView> {
    v.map_values(|e: SlashEntry| e@)
}

/// Commands that complete what was typed, and the one that is marked.
#[derive(Debug)]
pub struct SlashCompletion {
    pub matches: Vec<SlashEntry>,
    pub selected: usize,
}

/// Commands that complete what was typed, and the one that is marked.
#[verifier::ext_equal]
pub struct SlashView {
    pub matches: Seq<EntryView>,
    pub selected: int,
}

impl View for SlashCompletion {
    type V = SlashView;

    open spec fn view(&self) -> SlashView {
        SlashView { matches: entry_views(self.matches@), selected: self.selected as int }
    }
}

/// Files that complete a mention, the one that is marked, and the part of the
/// draft that they would replace.
#[derive(Debug)]
pub struct Mention {
    pub start: usize,
    pub cursor: usize,
    pub matches: Vec<String>,
    pub selected: usize,
}

/// Files that complete a mention.
#[verifier::ext_equal]
pub struct MentionView {
    pub start: int,
    pub cursor: int,
    pub matches: Seq<Seq<char>>,
    pub selected: int,
}

impl View for Mention {
    type V = MentionView;

    open spec fn view(&self) -> MentionView {
        MentionView {
            start: self.start as int,
            cursor: self.cursor as int,
            matches: text::views(self.matches@),
            selected: self.selected as int,
        }
    }
}

/// The open popup.
#[derive(Debug)]
pub enum ActivePopup {
    Slash(SlashCompletion),
    Mention(Mention),
}

/// The open popup.
pub enum ActiveView {
    Slash(SlashView),
    Mention(MentionView),
}

impl View for ActivePopup {
    type V = ActiveView;

    open spec fn view(&self) -> ActiveView {
        match self {
            ActivePopup::Slash(p) => ActiveView::Slash(p@),
            ActivePopup::Mention(p) => ActiveView::Mention(p@),
        }
    }
}

/// The open popup, and the texts for which a popup was closed by hand.
#[derive(Debug)]
pub struct PopupState {
    pub active: Option<ActivePopup>,
    pub dismissed_slash: Option<String>,
    pub dismissed_mention: Option<String>,
}

/// The open popup, and the texts for which a popup was closed by hand.
#[verifier::ext_equal]
pub struct PopupView {
    pub active: Option<ActiveView>,
    pub dismissed_slash: Option<Seq<char>>,
    pub dismissed_mention: Option<Seq<char>>,
}

impl View for PopupState {
    type V = PopupView;

    open spec fn view(&self) -> PopupView {
        PopupView {
            active: match self.active {
                Some(p) => Some(p@),
                None => None,
            },
            dismissed_slash: text::opt_view(self.dismissed_slash),
            dismissed_mention: text::opt_view(self.dismissed_mention),
        }
    }
}

/// No popup.
pub open spec fn closed() -> PopupView {
    PopupView { active: None, dismissed_slash: None, dismissed_mention: None }
}

/// What offered commands hold.
pub open spec fn opt_slash(o: Option<SlashCompletion>) -> Option<SlashView> {
    match o {
        Some(p) => Some(p@),
        None => None,
    }
}

/// What offered files hold.
pub open spec fn opt_mention(o: Option<Mention>) -> Option<MentionView> {
    match o {
        Some(p) => Some(p@),
        None => None,
    }
}

/// The marked place one step further or back, round and round.
pub open spec fn stepped(selected: int, count: int, forward: bool) -> int {
    if forward {
        (selected + 1) % count
    } else {
        (selected - 1) % count
    }
}

/// The marked place one step further or back.
pub fn step(selected: usize, count: usize, forward: bool) -> (r: usize)
    requires
        selected < count,
    ensures
        r as int == stepped(selected as int, count as int, forward),
        r < count,
{
    if forward {
        if selected + 1 == count {
            assert((selected + 1) % (count as int) == 0) by (nonlinear_arith)
                requires
                    selected + 1 == count as int,
                    0 < count as int,
            ;
            0
        } else {
            assert((selected + 1) % (count as int) == selected + 1) by (nonlinear_arith)
                requires
                    0 <= selected + 1 < count as int,
            ;
            selected + 1
        }
    } else if selected == 0 {
        assert((0 - 1) % (count as int) == count - 1) by (nonlinear_arith)
            requires
                0 < count as int,
        ;
        count - 1
    } else {
        assert((selected - 1) % (count as int) == selected - 1) by (nonlinear_arith)
            requires
                0 <= selected - 1 < count as int,
        ;
        selected - 1
    }
}

impl PopupView {
    /// The commands that are offered.
    pub open spec fn slash(self) -> Option<SlashView> {
        match self.active {
            Some(ActiveView::Slash(p)) => Some(p),
            _ => None,
        }
    }

    /// The files that are offered.
    pub open spec fn mention(self) -> Option<MentionView> {
        match self.active {
            Some(ActiveView::Mention(p)) => Some(p),
            _ => None,
        }
    }

    /// The state without offered commands.
    pub open spec fn without_slash(self) -> PopupView {
        if self.slash() is Some {
            PopupView { active: None, ..self }
        } else {
            self
        }
    }

    /// The state without offered files.
    pub open spec fn without_mention(self) -> PopupView {
        if self.mention() is Some {
            PopupView { active: None, ..self }
        } else {
            self
        }
    }

    /// The state with commands offered, or none.
    pub open spec fn with_slash(self, popup: Option<SlashView>) -> PopupView {
        match popup {
            Some(p) => PopupView { active: Some(ActiveView::Slash(p)), ..self },
            None => self.without_slash(),
        }
    }

    /// The state with files offered, or none.
    pub open spec fn with_mention(self, popup: Option<MentionView>) -> PopupView {
        match popup {
            Some(p) => PopupView { active: Some(ActiveView::Mention(p)), ..self },
            None => self.without_mention(),
        }
    }

    /// Whether what is marked is one of those that are offered.
    pub open spec fn wf(self) -> bool {
        &&& self.slash() matches Some(p) ==> 0 <= p.selected && (p.matches.len() > 0 ==> p.selected
            < p.matches.len())
        &&& self.mention() matches Some(p) ==> 0 <= p.selected && (p.matches.len() > 0
            ==> p.selected < p.matches.len())
    }
}

/// The popups with the next or the previous command marked.
pub open spec fn slash_moved(v: PopupView, forward: bool) -> PopupView {
    match v.slash() {
        Some(p) => if p.matches.len() == 0 {
            v
        } else {
            v.with_slash(
                Some(
                    SlashView {
                        selected: stepped(p.selected, p.matches.len() as int, forward),
                        ..p
                    },
                ),
            )
        },
        None => v,
    }
}

/// The popups with the next or the previous file marked.
pub open spec fn mention_moved(v: PopupView, forward: bool) -> PopupView {
    match v.mention() {
        Some(p) => if p.matches.len() == 0 {
            v
        } else {
            v.with_mention(
                Some(
                    MentionView {
                        selected: stepped(p.selected, p.matches.len() as int, forward),
                        ..p
                    },
                ),
            )
        },
        None => v,
    }
}

impl Default for PopupState {
    /// No popup.
    fn default() -> (r: Self)
        ensures
            r@ == closed(),
    {
        PopupState { active: None, dismissed_slash: None, dismissed_mention: None }
    }
}

impl PopupState {
    /// The commands that are offered.
    pub fn slash(&self) -> (r: Option<&SlashCompletion>)
        ensures
            match r {
                Some(p) => self@.slash() == Some(p@),
                None => self@.slash() is None,
            },
    {
        match &self.active {
            Some(ActivePopup::Slash(popup)) => Some(popup),
            _ => None,
        }
    }

    /// Closes the popup of commands and hands it over.
    pub fn take_slash(&mut self) -> (r: Option<SlashCompletion>)
        ensures
            opt_slash(r) == old(self)@.slash(),
            final(self)@ == old(self)@.without_slash(),
    {
        match self.active.take() {
            Some(ActivePopup::Slash(popup)) => Some(popup),
            Some(ActivePopup::Mention(popup)) => {
                self.active = Some(ActivePopup::Mention(popup));
                None
            },
            None => None,
        }
    }

    /// Offers commands, or stops offering them.
    pub fn set_slash(&mut self, popup: Option<SlashCompletion>)
        ensures
            final(self)@ == old(self)@.with_slash(opt_slash(popup)),
    {
        match popup {
            Some(p) => {
                self.active = Some(ActivePopup::Slash(p));
            },
            None => {
                if self.slash().is_some() {
                    self.active = None;
                }
            },
        }
    }

    /// Marks the next or the previous command.
    pub fn move_slash(&mut self, forward: bool)
        requires
            old(self)@.wf(),
        ensures
            final(self)@ == slash_moved(old(self)@, forward),
            final(self)@.wf(),
    {
        if let Some(popup) = self.take_slash() {
            let n: usize = popup.matches.len();
            assert(entry_views(popup.matches@).len() == n);
            let selected: usize = if n == 0 {
                popup.selected
            } else {
                step(popup.selected, n, forward)
            };
            self.active = Some(
                ActivePopup::Slash(SlashCompletion { matches: popup.matches, selected }),
            );
        }
    }

    /// The files that are offered.
    pub fn mention(&self) -> (r: Option<&Mention>)
        ensures
            match r {
                Some(p) => self@.mention() == Some(p@),
                None => self@.mention() is None,
            },
    {
        match &self.active {
            Some(ActivePopup::Mention(popup)) => Some(popup),
            _ => None,
        }
    }

    /// Closes the popup of files and hands it over.
    pub fn take_mention(&mut self) -> (r: Option<Mention>)
        ensures
            opt_mention(r) == old(self)@.mention(),
            final(self)@ == old(self)@.without_mention(),
    {
        match self.active.take() {
            Some(ActivePopup::Mention(popup)) => Some(popup),
            Some(ActivePopup::Slash(popup)) => {
                self.active = Some(ActivePopup::Slash(popup));
                None
            },
            None => None,
        }
    }

    /// Offers files, or stops offering them.
    pub fn set_mention(&mut self, popup: Option<Mention>)
        ensures
            final(self)@ == old(self)@.with_mention(opt_mention(popup)),
    {
        match popup {
            Some(p) => {
                self.active = Some(ActivePopup::Mention(p));
            },
            None => {
                if self.mention().is_some() {
                    self.active = None;
                }
            },
        }
    }

    /// Marks the next or the previous file.
    pub fn move_mention(&mut self, forward: bool)
        requires
            old(self)@.wf(),
        ensures
            final(self)@ == mention_moved(old(self)@, forward),
            final(self)@.wf(),
    {
        if let Some(popup) = self.take_mention() {
            let n: usize = popup.matches.len();
            assert(text::views(popup.matches@).len() == n);
            let selected: usize = if n == 0 {
                popup.selected
            } else {
                step(popup.selected, n, forward)
            };
            self.active = Some(
                ActivePopup::Mention(
                    Mention {
                        start: popup.start,
                        cursor: popup.cursor,
                        matches: popup.matches,
                        selected,
                    },
                ),
            );
        }
    }

    /// The text for which the popup of commands was closed.
    pub fn dismissed_slash(&self) -> (r: Option<String>)
        ensures
            text::opt_view(r) == self@.dismissed_slash,
    {
        text::copy_opt(&self.dismissed_slash)
    }

    /// Notes the text for which the popup of commands was closed.
    pub fn set_dismissed_slash(&mut self, value: Option<String>)
        ensures
            final(self)@ == (PopupView { dismissed_slash: text::opt_view(value), ..old(self)@ }),
    {
        self.dismissed_slash = value;
    }

    /// The text for which the popup of files was closed.
    pub fn dismissed_mention(&self) -> (r: Option<String>)
        ensures
            text::opt_view(r) == self@.dismissed_mention,
    {
        text::copy_opt(&self.dismissed_mention)
    }

    /// Notes the text for which the popup of files was closed.
    pub fn set_dismissed_mention(&mut self, value: Option<String>)
        ensures
            final(self)@ == (PopupView { dismissed_mention: text::opt_view(value), ..old(self)@ }),
    {
        self.dismissed_mention = value;
    }

    /// Closes the popup and forgets what was closed by hand.
    pub fn clear(&mut self)
        ensures
            final(self)@ == closed(),
    {
        self.active = None;
        self.dismissed_slash = None;
        self.dismissed_mention = None;
    }
}

/// Commands and files are never offered at the same time.
pub proof fn law_one_popup_at_most(v: PopupView)
    ensures
        !(v.slash() is Some && v.mention() is Some),
{
}

/// Going through what is offered comes back to where it began: a step forward and
/// a step back undo each other.
pub proof fn law_steps_undo_each_other(selected: int, count: int, forward: bool)
    requires
        0 <= selected < count,
    ensures
        0 <= stepped(selected, count, forward) < count,
        stepped(stepped(selected, count, forward), count, !forward) == selected,
{
    assert((selected + 1) % count == if selected + 1 == count {
        0
    } else {
        selected + 1
    }) by (nonlinear_arith)
        requires
            0 <= selected < count,
    ;
    assert((selected - 1) % count == if selected == 0 {
        count - 1
    } else {
        selected - 1
    }) by (nonlinear_arith)
        requires
            0 <= selected < count,
    ;
    assert((0 - 1) % count == count - 1) by (nonlinear_arith)
        requires
            0 < count,
    ;
    assert(((count - 1) + 1) % count == 0) by (nonlinear_arith)
        requires
            0 < count,
    ;
    assert(selected % count == selected) by (nonlinear_arith)
        requires
            0 <= selected < count,
    ;
}

} // verus!
