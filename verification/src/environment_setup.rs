//! The screen on which the Python environment and the language of the report are
//! chosen.

use crate::bottom_pane::approval_overlay::prefixed;
use crate::config_update::Outcome;
use crate::geometry;
use crate::geometry::Rect;
use crate::keys::{KeyCode, KeyEvent, KeyKind, Modifiers};
use crate::style;
use crate::style::{Line, Span, SpanView, Tone};
use crate::text;
use vstd::prelude::*;

verus! {

/// The most columns of the content.
pub const CONTENT_WIDTH: u16 = 84;

/// The page of the screen.
#[derive(Debug, Clone, Copy, PartialEq, Eq, Structural)]
pub enum Step {
    Select,
    Custom,
    Review,
    Language,
    FinalReview,
}

/// The language of the report.
#[derive(Debug, Clone, Copy, PartialEq, Eq, Structural)]
pub enum ReportLanguage {
    Latex,
    Typst,
}

/// A Python environment as it is stored.
#[derive(Debug)]
pub struct PythonConfig {
    pub source: String,
    pub executable: String,
    pub package_manager: String,
    pub label: String,
}

/// A Python environment as it is stored.
#[verifier::ext_equal]
pub struct PythonView {
    pub source: Seq<char>,
    pub executable: Seq<char>,
    pub package_manager: Seq<char>,
    pub label: Seq<char>,
}

impl View for PythonConfig {
    type V = PythonView;

    open spec fn view(&self) -> PythonView {
        PythonView {
            source: self.source@,
            executable: self.executable@,
            package_manager: self.package_manager@,
            label: self.label@,
        }
    }
}

/// The environment that there may be.
pub open spec fn opt_python(o: Option<PythonConfig>) -> Option<PythonView> {
    match o {
        Some(p) => Some(p@),
        None => None,
    }
}

/// A Python environment that was found.
#[derive(Debug)]
pub struct PythonCandidate {
    pub version: String,
    /// What is stored when it is chosen.
    pub config: PythonConfig,
}

/// A Python environment that was found.
#[verifier::ext_equal]
pub struct CandidateView {
    pub version: Seq<char>,
    pub config: PythonView,
}

impl View for PythonCandidate {
    type V = CandidateView;

    open spec fn view(&self) -> CandidateView {
        CandidateView { version: self.version@, config: self.config@ }
    }
}

/// What candidates hold.
pub open spec fn candidate_views(v: Seq<PythonCandidate>) -> Seq<CandidateView> {
    v.map_values(|c: PythonCandidate| c@)
}

/// What is to be done after a key.
#[derive(Debug)]
pub enum EnvStep {
    Stay,
    Done(Outcome),
    /// See whether there is a Python at the path.
    CheckCustom(String),
    /// Prepare the chosen environment and store it.
    SavePython,
    /// Store the language and lay out the files of the report.
    SaveProject(ReportLanguage),
}

/// What is to be done after a key.
pub enum EnvStepView {
    Stay,
    Done(Outcome),
    CheckCustom(Seq<char>),
    SavePython,
    SaveProject(ReportLanguage),
}

impl View for EnvStep {
    type V = EnvStepView;

    open spec fn view(&self) -> EnvStepView {
        match self {
            EnvStep::Stay => EnvStepView::Stay,
            EnvStep::Done(o) => EnvStepView::Done(*o),
            EnvStep::CheckCustom(p) => EnvStepView::CheckCustom(p@),
            EnvStep::SavePython => EnvStepView::SavePython,
            EnvStep::SaveProject(l) => EnvStepView::SaveProject(*l),
        }
    }
}

/// The screen.
#[derive(Debug)]
pub struct EnvironmentScreen {
    pub candidates: Vec<PythonCandidate>,
    /// The environment that the application manages itself.
    pub managed: PythonConfig,
    pub selected: usize,
    pub language_selected: ReportLanguage,
    pub pending: Option<PythonConfig>,
    pub step: Step,
    pub custom_path: Vec<char>,
    pub error: Option<String>,
}

/// The screen.
#[verifier::ext_equal]
pub struct EnvView {
    pub candidates: Seq<CandidateView>,
    pub managed: PythonView,
    pub selected: int,
    pub language: ReportLanguage,
    pub pending: Option<PythonView>,
    pub step: Step,
    pub custom_path: Seq<char>,
    pub error: Option<Seq<char>>,
}

impl View for EnvironmentScreen {
    type V = EnvView;

    open spec fn view(&self) -> EnvView {
        EnvView {
            candidates: candidate_views(self.candidates@),
            managed: self.managed@,
            selected: self.selected as int,
            language: self.language_selected,
            pending: opt_python(self.pending),
            step: self.step,
            custom_path: self.custom_path@,
            error: text::opt_view(self.error),
        }
    }
}

impl EnvView {
    /// Whether the marked row is one of the list, and what is reviewed is chosen.
    pub open spec fn wf(self) -> bool {
        &&& 0 <= self.selected < option_count(self)
        &&& option_count(self) <= usize::MAX
        &&& self.step == Step::Review ==> self.pending is Some
    }
}

/// How many rows can be chosen: the environments that were found, one that is typed
/// and one that is managed.
pub open spec fn option_count(v: EnvView) -> int {
    v.candidates.len() as int + 2
}

/// The environment that the application manages itself.
pub open spec fn managed_python(path: Seq<char>, manager: Seq<char>) -> PythonView {
    PythonView {
        source: "managed"@,
        executable: path,
        package_manager: manager,
        label: "AutoReport managed venv"@,
    }
}

/// The screen as it opens.
pub open spec fn opened(
    candidates: Seq<CandidateView>,
    managed: PythonView,
    language: ReportLanguage,
) -> EnvView {
    EnvView {
        candidates,
        managed,
        selected: 0,
        language,
        pending: None,
        step: Step::Select,
        custom_path: Seq::empty(),
        error: None,
    }
}

/// The language that is marked at first: the one of the project, else the one that
/// its files suggest.
pub fn initial_language(stored: Option<ReportLanguage>, looks_like_typst: bool) -> (r: ReportLanguage)
    ensures
        r == (match stored {
            Some(l) => l,
            None => if looks_like_typst {
                ReportLanguage::Typst
            } else {
                ReportLanguage::Latex
            },
        }),
{
    match stored {
        Some(l) => l,
        None => {
            if looks_like_typst {
                ReportLanguage::Typst
            } else {
                ReportLanguage::Latex
            }
        },
    }
}

/// Whether an environment is one of conda.
pub open spec fn is_conda(c: CandidateView) -> bool {
    c.config.source == "conda"@
}

/// The place of the conda environment that has `n` of them before it, from `i` on.
pub open spec fn nth_conda(v: Seq<CandidateView>, n: int, i: int) -> Option<int>
    decreases v.len() - i,
{
    if i < 0 || i >= v.len() {
        None
    } else if is_conda(v[i]) {
        if n <= 0 {
            Some(i)
        } else {
            nth_conda(v, n - 1, i + 1)
        }
    } else {
        nth_conda(v, n, i + 1)
    }
}

/// The screen with the marked row chosen.
pub open spec fn chosen(v: EnvView) -> EnvView {
    if v.selected < v.candidates.len() {
        EnvView {
            pending: Some(v.candidates[v.selected].config),
            step: Step::Review,
            ..v
        }
    } else if v.selected == v.candidates.len() {
        EnvView { custom_path: Seq::empty(), step: Step::Custom, ..v }
    } else {
        EnvView { pending: Some(v.managed), step: Step::Review, ..v }
    }
}

/// What a key does on the first page.
pub open spec fn select_key(v: EnvView, code: KeyCode) -> (EnvView, EnvStepView) {
    let up = EnvView {
        selected: if v.selected > 0 {
            v.selected - 1
        } else {
            0
        },
        ..v
    };
    let down = EnvView {
        selected: if v.selected + 1 < option_count(v) {
            v.selected + 1
        } else {
            option_count(v) - 1
        },
        ..v
    };
    match code {
        KeyCode::Up => (up, EnvStepView::Stay),
        KeyCode::Down => (down, EnvStepView::Stay),
        KeyCode::Char(c) => if c == 'k' {
            (up, EnvStepView::Stay)
        } else if c == 'j' {
            (down, EnvStepView::Stay)
        } else if '1' <= c && c <= '9' {
            match nth_conda(v.candidates, c as int - '1' as int, 0) {
                Some(i) => (EnvView { selected: i, ..v }, EnvStepView::Stay),
                None => (v, EnvStepView::Stay),
            }
        } else {
            (v, EnvStepView::Stay)
        },
        KeyCode::Enter => (chosen(v), EnvStepView::Stay),
        KeyCode::Esc => (v, EnvStepView::Done(Outcome::Cancelled)),
        _ => (v, EnvStepView::Stay),
    }
}

/// What a key does while a path is typed.
pub open spec fn custom_key(v: EnvView, code: KeyCode) -> (EnvView, EnvStepView) {
    match code {
        KeyCode::Esc => (EnvView { step: Step::Select, ..v }, EnvStepView::Stay),
        KeyCode::Backspace => (
            EnvView {
                custom_path: if v.custom_path.len() > 0 {
                    v.custom_path.drop_last()
                } else {
                    v.custom_path
                },
                ..v
            },
            EnvStepView::Stay,
        ),
        KeyCode::Char(c) => (
            EnvView { custom_path: v.custom_path.push(c), ..v },
            EnvStepView::Stay,
        ),
        KeyCode::Enter => (v, EnvStepView::CheckCustom(text::trimmed(v.custom_path))),
        _ => (v, EnvStepView::Stay),
    }
}

/// What a key does on the other pages.
pub open spec fn page_key(v: EnvView, code: KeyCode) -> (EnvView, EnvStepView) {
    match v.step {
        Step::Review => match code {
            KeyCode::Esc => (
                EnvView { step: Step::Select, error: None, ..v },
                EnvStepView::Stay,
            ),
            KeyCode::Enter => (v, EnvStepView::SavePython),
            _ => (v, EnvStepView::Stay),
        },
        Step::Language => match code {
            KeyCode::Up => (EnvView { language: ReportLanguage::Latex, ..v }, EnvStepView::Stay),
            KeyCode::Char('k') => (
                EnvView { language: ReportLanguage::Latex, ..v },
                EnvStepView::Stay,
            ),
            KeyCode::Down => (
                EnvView { language: ReportLanguage::Typst, ..v },
                EnvStepView::Stay,
            ),
            KeyCode::Char('j') => (
                EnvView { language: ReportLanguage::Typst, ..v },
                EnvStepView::Stay,
            ),
            KeyCode::Esc => (v, EnvStepView::Done(Outcome::Cancelled)),
            KeyCode::Enter => (EnvView { step: Step::FinalReview, ..v }, EnvStepView::Stay),
            _ => (v, EnvStepView::Stay),
        },
        _ => match code {
            KeyCode::Esc => (
                EnvView { step: Step::Language, error: None, ..v },
                EnvStepView::Stay,
            ),
            KeyCode::Enter => (v, EnvStepView::SaveProject(v.language)),
            _ => (v, EnvStepView::Stay),
        },
    }
}

/// What a key does.
pub open spec fn after_key(v: EnvView, key: KeyEvent) -> (EnvView, EnvStepView) {
    if key.modifiers.control && key.code == KeyCode::Char('c') {
        (v, EnvStepView::Done(Outcome::Cancelled))
    } else {
        match v.step {
            Step::Select => select_key(v, key.code),
            Step::Custom => custom_key(v, key.code),
            _ => page_key(v, key.code),
        }
    }
}

/// The screen after the typed path was looked at.
pub open spec fn after_check(v: EnvView, r: Result<PythonView, Seq<char>>) -> EnvView {
    match r {
        Ok(config) => EnvView {
            pending: Some(config),
            error: None,
            step: Step::Review,
            ..v
        },
        Err(e) => EnvView { error: Some(e), ..v },
    }
}

/// The screen after the environment was stored.
pub open spec fn after_python(v: EnvView, r: Result<(), Seq<char>>) -> EnvView {
    match r {
        Ok(_) => EnvView { step: Step::Language, error: None, ..v },
        Err(e) => EnvView { error: Some(e), ..v },
    }
}

/// The screen after the project was stored, and how it is left.
pub open spec fn after_project(v: EnvView, r: Result<(), Seq<char>>) -> (EnvView, Option<Outcome>) {
    match r {
        Ok(_) => (v, Some(Outcome::Saved)),
        Err(e) => (EnvView { error: Some(e), ..v }, None),
    }
}

/// What a result says.
pub open spec fn unit_view(r: Result<(), String>) -> Result<(), Seq<char>> {
    match r {
        Ok(_) => Ok(()),
        Err(e) => Err(e@),
    }
}

/// What a result says.
pub open spec fn python_view(r: Result<PythonConfig, String>) -> Result<PythonView, Seq<char>> {
    match r {
        Ok(p) => Ok(p@),
        Err(e) => Err(e@),
    }
}

/// What comes of the files that could not be laid out.
pub fn laid_out(failed: &Vec<String>) -> (r: Result<(), String>)
    ensures
        unit_view(r) == (if failed@.len() == 0 {
            Ok::<(), Seq<char>>(())
        } else {
            Err(text::joined(text::views(failed@), "; "@))
        }),
{
    if failed.len() == 0 {
        Ok(())
    } else {
        Err(text::join(failed, "; "))
    }
}

impl PythonConfig {
    /// The same environment again.
    pub fn copy(&self) -> (r: Self)
        ensures
            r@ == self@,
    {
        PythonConfig {
            source: self.source.as_str().to_string(),
            executable: self.executable.as_str().to_string(),
            package_manager: self.package_manager.as_str().to_string(),
            label: self.label.as_str().to_string(),
        }
    }

    /// The environment that the application manages itself.
    pub fn managed(path: &str, manager: &str) -> (r: Self)
        ensures
            r@ == managed_python(path@, manager@),
    {
        PythonConfig {
            source: "managed".to_string(),
            executable: path.to_string(),
            package_manager: manager.to_string(),
            label: "AutoReport managed venv".to_string(),
        }
    }
}

impl EnvironmentScreen {
    /// The screen as it opens.
    pub fn new(
        candidates: Vec<PythonCandidate>,
        managed: PythonConfig,
        language: ReportLanguage,
    ) -> (r: Self)
        requires
            candidates@.len() + 2 <= usize::MAX,
        ensures
            r@ == opened(candidate_views(candidates@), managed@, language),
            r@.wf(),
    {
        EnvironmentScreen {
            candidates,
            managed,
            selected: 0,
            language_selected: language,
            pending: None,
            step: Step::Select,
            custom_path: Vec::new(),
            error: None,
        }
    }

    /// The screen where only the language is to be chosen.
    pub fn language_only(
        candidates: Vec<PythonCandidate>,
        managed: PythonConfig,
        language: ReportLanguage,
    ) -> (r: Self)
        requires
            candidates@.len() + 2 <= usize::MAX,
        ensures
            r@ == (EnvView {
                step: Step::Language,
                ..opened(candidate_views(candidates@), managed@, language)
            }),
            r@.wf(),
    {
        let mut screen = Self::new(candidates, managed, language);
        screen.step = Step::Language;
        screen
    }

    /// Chooses the marked row.
    fn choose_marked(&mut self)
        requires
            old(self)@.wf(),
        ensures
            final(self)@ == chosen(old(self)@),
            final(self)@.wf(),
    {
        if self.selected < self.candidates.len() {
            assert(self@.candidates[self.selected as int] == self.candidates@[self.selected as int]@);
            self.pending = Some(self.candidates[self.selected].config.copy());
            self.step = Step::Review;
        } else if self.selected == self.candidates.len() {
            self.custom_path = Vec::new();
            self.step = Step::Custom;
        } else {
            self.pending = Some(self.managed.copy());
            self.step = Step::Review;
        }
    }

    /// The place of the conda environment that has `n` of them before it.
    fn find_conda(&self, n: u32) -> (r: Option<usize>)
        ensures
            match r {
                Some(i) => i < self.candidates@.len() && nth_conda(
                    self@.candidates,
                    n as int,
                    0,
                ) == Some(i as int),
                None => nth_conda(self@.candidates, n as int, 0) is None,
            },
    {
        let ghost all = self@.candidates;
        let mut left: u32 = n;
        let mut i: usize = 0;
        while i < self.candidates.len()
            invariant
                i <= self.candidates@.len(),
                all == self@.candidates,
                nth_conda(all, n as int, 0) == nth_conda(all, left as int, i as int),
            decreases self.candidates@.len() - i,
        {
            assert(all[i as int] == self.candidates@[i as int]@);
            if text::same(self.candidates[i].config.source.as_str(), "conda") {
                if left == 0 {
                    return Some(i);
                }
                left = left - 1;
            }
            i += 1;
        }
        None
    }

    /// Takes a key on the first page.
    fn handle_select_key(&mut self, code: KeyCode) -> (r: EnvStep)
        requires
            old(self)@.wf(),
            old(self)@.step == Step::Select,
        ensures
            (final(self)@, r@) == select_key(old(self)@, code),
            final(self)@.wf(),
    {
        assert(self@.candidates.len() == self.candidates@.len());
        match code {
            KeyCode::Up | KeyCode::Char('k') => {
                if self.selected > 0 {
                    self.selected = self.selected - 1;
                }
            },
            KeyCode::Down | KeyCode::Char('j') => {
                let total: usize = self.candidates.len() + 2;
                if self.selected < total - 1 {
                    self.selected = self.selected + 1;
                }
            },
            KeyCode::Char(c) => {
                if '1' <= c && c <= '9' {
                    if let Some(i) = self.find_conda(c as u32 - '1' as u32) {
                        self.selected = i;
                    }
                }
            },
            KeyCode::Enter => self.choose_marked(),
            KeyCode::Esc => {
                return EnvStep::Done(Outcome::Cancelled);
            },
            _ => {},
        }
        EnvStep::Stay
    }

    /// Takes a key while a path is typed.
    fn handle_custom_key(&mut self, code: KeyCode) -> (r: EnvStep)
        requires
            old(self)@.wf(),
            old(self)@.step == Step::Custom,
        ensures
            (final(self)@, r@) == custom_key(old(self)@, code),
            final(self)@.wf(),
    {
        match code {
            KeyCode::Esc => {
                self.step = Step::Select;
            },
            KeyCode::Backspace => {
                let _ = self.custom_path.pop();
            },
            KeyCode::Char(c) => self.custom_path.push(c),
            KeyCode::Enter => {
                let path = text::string_of(&self.custom_path);
                return EnvStep::CheckCustom(text::trim(&path));
            },
            _ => {},
        }
        EnvStep::Stay
    }

    /// Takes a key on the other pages.
    fn handle_page_key(&mut self, code: KeyCode) -> (r: EnvStep)
        requires
            old(self)@.wf(),
            old(self)@.step != Step::Select,
            old(self)@.step != Step::Custom,
        ensures
            (final(self)@, r@) == page_key(old(self)@, code),
            final(self)@.wf(),
    {
        match self.step {
            Step::Review => match code {
                KeyCode::Esc => {
                    self.step = Step::Select;
                    self.error = None;
                },
                KeyCode::Enter => {
                    return EnvStep::SavePython;
                },
                _ => {},
            },
            Step::Language => match code {
                KeyCode::Up | KeyCode::Char('k') => {
                    self.language_selected = ReportLanguage::Latex;
                },
                KeyCode::Down | KeyCode::Char('j') => {
                    self.language_selected = ReportLanguage::Typst;
                },
                KeyCode::Esc => {
                    return EnvStep::Done(Outcome::Cancelled);
                },
                KeyCode::Enter => {
                    self.step = Step::FinalReview;
                },
                _ => {},
            },
            _ => match code {
                KeyCode::Esc => {
                    self.step = Step::Language;
                    self.error = None;
                },
                KeyCode::Enter => {
                    return EnvStep::SaveProject(self.language_selected);
                },
                _ => {},
            },
        }
        EnvStep::Stay
    }

    /// Takes a key.
    pub fn handle_key(&mut self, key: KeyEvent) -> (r: EnvStep)
        requires
            old(self)@.wf(),
        ensures
            (final(self)@, r@) == after_key(old(self)@, key),
            final(self)@.wf(),
    {
        if key.modifiers.control && key.code == KeyCode::Char('c') {
            return EnvStep::Done(Outcome::Cancelled);
        }
        match self.step {
            Step::Select => self.handle_select_key(key.code),
            Step::Custom => self.handle_custom_key(key.code),
            _ => self.handle_page_key(key.code),
        }
    }

    /// Takes what came of looking at the typed path.
    pub fn take_check(&mut self, result: Result<PythonConfig, String>)
        requires
            old(self)@.wf(),
        ensures
            final(self)@ == after_check(old(self)@, python_view(result)),
            final(self)@.wf(),
    {
        match result {
            Ok(config) => {
                self.pending = Some(config);
                self.error = None;
                self.step = Step::Review;
            },
            Err(e) => {
                self.error = Some(e);
            },
        }
    }

    /// Takes what came of storing the environment.
    pub fn take_python_saved(&mut self, result: Result<(), String>)
        requires
            old(self)@.wf(),
        ensures
            final(self)@ == after_python(old(self)@, unit_view(result)),
            final(self)@.wf(),
    {
        match result {
            Ok(_) => {
                self.step = Step::Language;
                self.error = None;
            },
            Err(e) => {
                self.error = Some(e);
            },
        }
    }

    /// Takes what came of storing the project.
    pub fn take_project_saved(&mut self, result: Result<(), String>) -> (r: Option<Outcome>)
        requires
            old(self)@.wf(),
        ensures
            (final(self)@, r) == after_project(old(self)@, unit_view(result)),
            final(self)@.wf(),
    {
        match result {
            Ok(_) => Some(Outcome::Saved),
            Err(e) => {
                self.error = Some(e);
                None
            },
        }
    }
}

// ---------------------------------------------------------------------------
// Rows
// ---------------------------------------------------------------------------

/// A row of the screen.
#[derive(Debug)]
pub enum EnvRow {
    Text(Line),
    /// A row that can be marked.
    Choice { label: String, selected: bool },
    /// A row that can be marked, with a number before it and indented.
    Numbered { index: usize, label: String, selected: bool },
}

/// A row of the screen.
pub enum EnvRowView {
    Text(Seq<SpanView>),
    Choice { label: Seq<char>, selected: bool },
    Numbered { index: int, label: Seq<char>, selected: bool },
}

impl View for EnvRow {
    type V = EnvRowView;

    open spec fn view(&self) -> EnvRowView {
        match self {
            EnvRow::Text(l) => EnvRowView::Text(l@),
            EnvRow::Choice { label, selected } => EnvRowView::Choice {
                label: label@,
                selected: *selected,
            },
            EnvRow::Numbered { index, label, selected } => EnvRowView::Numbered {
                index: *index as int,
                label: label@,
                selected: *selected,
            },
        }
    }
}

/// What rows hold.
pub open spec fn env_row_views(v: Seq<EnvRow>) -> Seq<EnvRowView> {
    v.map_values(|r: EnvRow| r@)
}

/// Which tools are at hand.
#[derive(Debug, Clone, Copy, PartialEq, Eq, Structural)]
pub struct ToolStatus {
    pub latex: bool,
    pub typst: bool,
    pub mineru: bool,
}

/// What is said of a tool.
pub open spec fn tool_span(name: Seq<char>, ready: bool) -> SpanView {
    if ready {
        style::span(name + " ✓"@, Tone::Green)
    } else {
        style::span(name + " ·"@, Tone::Muted)
    }
}

/// The row of the tools.
pub open spec fn status_row(t: ToolStatus) -> Seq<SpanView> {
    seq![
        style::span("Local tools  "@, Tone::Bold),
        tool_span("LaTeX"@, t.latex),
        style::span("  "@, Tone::Plain),
        tool_span("Typst"@, t.typst),
        style::span("  "@, Tone::Plain),
        tool_span("MinerU"@, t.mineru),
    ]
}

/// The place of the separator in a label, from `i` on.
pub open spec fn cut_place(s: Seq<char>, i: int) -> Option<int>
    decreases s.len() - i,
{
    if i < 0 || i >= s.len() {
        None
    } else if text::stands_at(s, " · "@, i) {
        Some(i)
    } else {
        cut_place(s, i + 1)
    }
}

/// What stands before the first separator, and what stands behind it.
pub open spec fn label_parts(s: Seq<char>) -> Option<(Seq<char>, Seq<char>)> {
    match cut_place(s, 0) {
        Some(i) => Some((s.take(i), s.skip(i + 3))),
        None => None,
    }
}

/// The text of a conda environment.
pub open spec fn conda_text(c: CandidateView) -> Seq<char> {
    (match label_parts(c.config.label) {
        Some(p) => p.1,
        None => c.config.label,
    }) + " · "@ + c.version
}

/// The rows of the conda environments from `i` on, of which `k` stand before.
pub open spec fn conda_rows(v: EnvView, i: int, k: int) -> Seq<EnvRowView>
    decreases v.candidates.len() - i,
{
    if i < 0 || i >= v.candidates.len() {
        Seq::empty()
    } else if is_conda(v.candidates[i]) {
        seq![
            EnvRowView::Numbered {
                index: k,
                label: conda_text(v.candidates[i]),
                selected: v.selected == i,
            },
        ] + conda_rows(v, i + 1, k + 1)
    } else {
        conda_rows(v, i + 1, k)
    }
}

/// The two rows of another environment.
pub open spec fn other_rows_of(c: CandidateView, selected: bool) -> Seq<EnvRowView> {
    let (title, detail) = match label_parts(c.config.label) {
        Some(p) => p,
        None => (c.config.label, Seq::empty()),
    };
    seq![
        EnvRowView::Choice { label: title, selected },
        EnvRowView::Text(
            seq![
                style::span(
                    "    "@ + (if detail.len() == 0 {
                        c.version
                    } else {
                        detail + " · "@ + c.version
                    }),
                    Tone::Muted,
                ),
            ],
        ),
    ]
}

/// The rows of the other environments from `i` on.
pub open spec fn other_rows(v: EnvView, i: int) -> Seq<EnvRowView>
    decreases v.candidates.len() - i,
{
    if i < 0 || i >= v.candidates.len() {
        Seq::empty()
    } else if is_conda(v.candidates[i]) {
        other_rows(v, i + 1)
    } else {
        other_rows_of(v.candidates[i], v.selected == i) + other_rows(v, i + 1)
    }
}

/// A row of plain text.
pub open spec fn text_row(s: Seq<char>, tone: Tone) -> EnvRowView {
    EnvRowView::Text(seq![style::span(s, tone)])
}

/// A row without text.
pub open spec fn blank_row() -> EnvRowView {
    EnvRowView::Text(Seq::empty())
}

/// The rows of the first page.
pub open spec fn select_rows(v: EnvView, t: ToolStatus) -> Seq<EnvRowView> {
    let conda = conda_rows(v, 0, 0);
    seq![
        text_row("Python environment"@, Tone::Dim),
        text_row(
            "Select the Python environment used by AutoReportCLI for this machine and all workspaces."@,
            Tone::Plain,
        ),
        text_row(
            "Detected environments are reused; the managed option creates ~/.autoreport/venv."@,
            Tone::Plain,
        ),
        blank_row(),
    ] + (if conda.len() > 0 {
        seq![text_row("Conda"@, Tone::Dim)] + conda
    } else {
        Seq::empty()
    }) + other_rows(v, 0) + seq![
        EnvRowView::Choice {
            label: "Custom Python executable"@,
            selected: v.selected == v.candidates.len(),
        },
        EnvRowView::Choice {
            label: "AutoReport managed venv (global)"@,
            selected: v.selected == v.candidates.len() + 1,
        },
        blank_row(),
        EnvRowView::Text(status_row(t)),
        text_row("↑/↓ select · Enter choose · Esc cancel"@, Tone::Dim),
    ]
}

/// The rows of the page on which a path is typed.
pub open spec fn custom_rows(v: EnvView) -> Seq<EnvRowView> {
    seq![
        text_row(
            "Enter an executable path (for example /opt/venv/bin/python):"@,
            Tone::Plain,
        ),
        blank_row(),
        EnvRowView::Text(
            seq![style::span("› "@, Tone::Plain), style::span(v.custom_path, Tone::Yellow)],
        ),
    ]
}

/// The row of an error.
pub open spec fn error_row(e: Option<Seq<char>>) -> EnvRowView {
    match e {
        Some(t) => text_row(t, Tone::Plain),
        None => blank_row(),
    }
}

/// The rows of the page on which the environment is reviewed.
pub open spec fn review_rows(v: EnvView, t: ToolStatus) -> Seq<EnvRowView> {
    match v.pending {
        None => Seq::empty(),
        Some(p) => seq![
            text_row("Selected Python environment"@, Tone::Bold),
            text_row("  "@ + p.label, Tone::Plain),
            text_row("  executable: "@ + p.executable, Tone::Plain),
            text_row("  package manager: "@ + p.package_manager, Tone::Plain),
            blank_row(),
            EnvRowView::Text(status_row(t)),
            blank_row(),
            text_row("Press Enter to save · Esc to go back"@, Tone::Plain),
            error_row(v.error),
        ],
    }
}

/// The rows of the page on which the language is chosen.
pub open spec fn language_rows(v: EnvView, t: ToolStatus) -> Seq<EnvRowView> {
    seq![
        text_row("Report language (this project)"@, Tone::Dim),
        EnvRowView::Choice {
            label: "LaTeX · Report/main.tex"@,
            selected: v.language == ReportLanguage::Latex,
        },
        EnvRowView::Choice {
            label: "Typst · Report/main.typ"@,
            selected: v.language == ReportLanguage::Typst,
        },
        blank_row(),
        EnvRowView::Text(status_row(t)),
        text_row("↑/↓ select · Enter continue · Esc cancel"@, Tone::Dim),
    ] + (match v.error {
        Some(e) => seq![text_row(e, Tone::Plain)],
        None => Seq::empty(),
    })
}

/// The files that will be laid out.
#[derive(Debug)]
pub struct ResourcePlan {
    pub created: Vec<String>,
    pub preserved: Vec<String>,
    /// The environment that is stored.
    pub stored_python: Option<String>,
}

/// The names of files, or a word where there are none.
pub open spec fn names_or_none(v: Seq<Seq<char>>) -> Seq<char> {
    if v.len() == 0 {
        "none"@
    } else {
        text::joined(v, ", "@)
    }
}

/// The environment that the review shows: the one that was chosen, else the one that
/// is stored.
pub open spec fn reviewed_python(v: EnvView, stored: Option<Seq<char>>) -> Seq<char> {
    match v.pending {
        Some(p) => p.executable,
        None => match stored {
            Some(s) => s,
            None => "unchanged"@,
        },
    }
}

/// What the language is called, its file, its theme and its compiler.
pub open spec fn language_words(l: ReportLanguage) -> (Seq<char>, Seq<char>, Seq<char>, Seq<char>) {
    match l {
        ReportLanguage::Latex => (
            "LaTeX"@,
            "Report/main.tex"@,
            "Report/mpltx.cls"@,
            "XeLaTeX/latexmk"@,
        ),
        ReportLanguage::Typst => ("Typst"@, "Report/main.typ"@, "Report/mplts.typ"@, "typst"@),
    }
}

/// The rows of the last page.
pub open spec fn final_rows(v: EnvView, plan: ResourcePlan) -> Seq<EnvRowView> {
    let w = language_words(v.language);
    seq![
        text_row("Final Review"@, Tone::Bold),
        text_row(
            "  Python environment (global): "@ + reviewed_python(
                v,
                text::opt_view(plan.stored_python),
            ),
            Tone::Plain,
        ),
        text_row("  Report language (this project): "@ + w.0, Tone::Plain),
        text_row("  Entry: "@ + w.1, Tone::Plain),
        text_row("  Theme: "@ + w.2, Tone::Plain),
        text_row("  Compiler: "@ + w.3, Tone::Plain),
        text_row("  Create: "@ + names_or_none(text::views(plan.created@)), Tone::Plain),
        text_row("  Preserve: "@ + names_or_none(text::views(plan.preserved@)), Tone::Plain),
        blank_row(),
        text_row("Enter save · Esc go back"@, Tone::Plain),
        error_row(v.error),
    ]
}

/// All rows of the screen.
pub open spec fn screen_rows(v: EnvView, t: ToolStatus, plan: ResourcePlan) -> Seq<EnvRowView> {
    match v.step {
        Step::Select => select_rows(v, t),
        Step::Custom => custom_rows(v),
        Step::Review => review_rows(v, t),
        Step::Language => language_rows(v, t),
        Step::FinalReview => final_rows(v, plan),
    }
}

/// Puts a row behind others.
fn add_row(rows: &mut Vec<EnvRow>, row: EnvRow)
    ensures
        env_row_views(final(rows)@) == env_row_views(old(rows)@).push(row@),
{
    let ghost before = env_row_views(rows@);
    rows.push(row);
    assert(env_row_views(rows@) =~= before.push(row@));
}

/// Puts a row of plain text behind others.
fn add_text(rows: &mut Vec<EnvRow>, s: &str, tone: Tone)
    ensures
        env_row_views(final(rows)@) == env_row_views(old(rows)@).push(text_row(s@, tone)),
{
    add_row(rows, EnvRow::Text(Line::one(s, tone)));
}

/// Puts a row without text behind others.
fn add_blank(rows: &mut Vec<EnvRow>)
    ensures
        env_row_views(final(rows)@) == env_row_views(old(rows)@).push(blank_row()),
{
    add_row(rows, EnvRow::Text(Line::empty()));
}

/// Puts a row that can be marked behind others.
fn add_choice(rows: &mut Vec<EnvRow>, label: &str, selected: bool)
    ensures
        env_row_views(final(rows)@) == env_row_views(old(rows)@).push(
            EnvRowView::Choice { label: label@, selected },
        ),
{
    add_row(rows, EnvRow::Choice { label: label.to_string(), selected });
}

/// What is said of a tool.
fn tool(name: &str, ready: bool) -> (r: Span)
    ensures
        r@ == tool_span(name@, ready),
{
    let mut t = name.to_string();
    if ready {
        t.push_str(" ✓");
        Span::of(t, Tone::Green)
    } else {
        t.push_str(" ·");
        Span::of(t, Tone::Muted)
    }
}

/// The row of the tools.
fn status_line(t: ToolStatus) -> (r: Line)
    ensures
        r@ == status_row(t),
{
    let mut line = Line::empty();
    line.push("Local tools  ", Tone::Bold);
    line.add(tool("LaTeX", t.latex));
    line.push("  ", Tone::Plain);
    line.add(tool("Typst", t.typst));
    line.push("  ", Tone::Plain);
    line.add(tool("MinerU", t.mineru));
    assert(line@ =~= status_row(t));
    line
}

/// What stands before the first separator of a label, and what stands behind it.
fn split_label(s: &str) -> (r: Option<(String, String)>)
    ensures
        match r {
            Some(p) => label_parts(s@) == Some((p.0@, p.1@)),
            None => label_parts(s@) is None,
        },
{
    let chars = text::chars_of(s);
    let sep = text::chars_of(" · ");
    proof {
        reveal_strlit(" · ");
    }
    let total: usize = chars.len();
    let mut i: usize = 0;
    while i < total
        invariant
            i <= total,
            total == chars@.len(),
            chars@ == s@,
            sep@ == " · "@,
            sep@.len() == 3,
            cut_place(s@, 0) == cut_place(s@, i as int),
        decreases total - i,
    {
        if text::matches_at(&chars, &sep, i) {
            let before = text::string_of_range(&chars, 0, i);
            let behind = text::string_of_range(&chars, i + 3, total);
            assert(before@ =~= s@.take(i as int));
            assert(behind@ =~= s@.skip(i + 3));
            return Some((before, behind));
        }
        i += 1;
    }
    None
}

/// The text of a conda environment.
fn conda_label(c: &PythonCandidate) -> (r: String)
    ensures
        r@ == conda_text(c@),
{
    let mut out = match split_label(c.config.label.as_str()) {
        Some(p) => p.1,
        None => c.config.label.as_str().to_string(),
    };
    out.push_str(" · ");
    out.push_str(c.version.as_str());
    out
}

/// Adds the two rows of another environment.
fn add_other(rows: &mut Vec<EnvRow>, c: &PythonCandidate, selected: bool)
    ensures
        env_row_views(final(rows)@) == env_row_views(old(rows)@) + other_rows_of(c@, selected),
{
    let ghost before = env_row_views(rows@);
    let (title, detail) = match split_label(c.config.label.as_str()) {
        Some(p) => p,
        None => (c.config.label.as_str().to_string(), String::new()),
    };
    add_choice(rows, &title, selected);
    let text = if detail.as_str().is_empty() {
        prefixed("    ", c.version.as_str())
    } else {
        let mut d = detail;
        d.push_str(" · ");
        d.push_str(c.version.as_str());
        prefixed("    ", &d)
    };
    add_text(rows, &text, Tone::Muted);
    assert(env_row_views(rows@) =~= before + other_rows_of(c@, selected));
}

/// The names of files, or a word where there are none.
fn names_text(v: &Vec<String>) -> (r: String)
    ensures
        r@ == names_or_none(text::views(v@)),
{
    if v.len() == 0 {
        "none".to_string()
    } else {
        text::join(v, ", ")
    }
}

/// Adds the row of an error.
fn add_error(rows: &mut Vec<EnvRow>, e: &Option<String>)
    ensures
        env_row_views(final(rows)@) == env_row_views(old(rows)@).push(
            error_row(text::opt_view(*e)),
        ),
{
    match e {
        Some(t) => add_text(rows, t.as_str(), Tone::Plain),
        None => add_blank(rows),
    }
}

impl EnvironmentScreen {
    /// The rows of the conda environments.
    fn conda_list(&self) -> (r: Vec<EnvRow>)
        ensures
            env_row_views(r@) == conda_rows(self@, 0, 0),
    {
        let ghost v = self@;
        let ghost goal = conda_rows(v, 0, 0);
        let mut rows: Vec<EnvRow> = Vec::new();
        let mut k: usize = 0;
        let mut i: usize = 0;
        assert(env_row_views(rows@) =~= Seq::<EnvRowView>::empty());
        assert(goal =~= env_row_views(rows@) + conda_rows(v, 0, 0));
        while i < self.candidates.len()
            invariant
                k <= i <= self.candidates@.len(),
                v == self@,
                goal == env_row_views(rows@) + conda_rows(v, i as int, k as int),
            decreases self.candidates@.len() - i,
        {
            let c = &self.candidates[i];
            assert(v.candidates[i as int] == c@);
            if text::same(c.config.source.as_str(), "conda") {
                let ghost before = env_row_views(rows@);
                let row = EnvRow::Numbered {
                    index: k,
                    label: conda_label(c),
                    selected: self.selected == i,
                };
                let ghost rv = row@;
                add_row(&mut rows, row);
                assert(goal =~= before.push(rv) + conda_rows(v, i + 1, k + 1));
                k += 1;
            }
            i += 1;
        }
        assert(goal =~= env_row_views(rows@));
        rows
    }

    /// Adds the rows of the other environments.
    fn add_others(&self, rows: &mut Vec<EnvRow>)
        ensures
            env_row_views(final(rows)@) == env_row_views(old(rows)@) + other_rows(self@, 0),
    {
        let ghost v = self@;
        let ghost goal = env_row_views(rows@) + other_rows(v, 0);
        let mut i: usize = 0;
        while i < self.candidates.len()
            invariant
                i <= self.candidates@.len(),
                v == self@,
                goal == env_row_views(rows@) + other_rows(v, i as int),
            decreases self.candidates@.len() - i,
        {
            let c = &self.candidates[i];
            assert(v.candidates[i as int] == c@);
            if !text::same(c.config.source.as_str(), "conda") {
                let ghost before = env_row_views(rows@);
                add_other(rows, c, self.selected == i);
                assert(goal =~= before + other_rows_of(c@, self.selected == i) + other_rows(
                    v,
                    i + 1,
                ));
            }
            i += 1;
        }
        assert(goal =~= env_row_views(rows@));
    }

    /// The rows of the first page.
    fn select_list(&self, t: ToolStatus) -> (r: Vec<EnvRow>)
        requires
            self@.wf(),
        ensures
            env_row_views(r@) == select_rows(self@, t),
    {
        let ghost v = self@;
        let mut rows: Vec<EnvRow> = Vec::new();
        add_text(&mut rows, "Python environment", Tone::Dim);
        add_text(
            &mut rows,
            "Select the Python environment used by AutoReportCLI for this machine and all workspaces.",
            Tone::Plain,
        );
        add_text(
            &mut rows,
            "Detected environments are reused; the managed option creates ~/.autoreport/venv.",
            Tone::Plain,
        );
        add_blank(&mut rows);
        let ghost head = env_row_views(rows@);
        assert(head =~= seq![
            text_row("Python environment"@, Tone::Dim),
            text_row(
                "Select the Python environment used by AutoReportCLI for this machine and all workspaces."@,
                Tone::Plain,
            ),
            text_row(
                "Detected environments are reused; the managed option creates ~/.autoreport/venv."@,
                Tone::Plain,
            ),
            blank_row(),
        ]);
        let mut conda = self.conda_list();
        let ghost cv = env_row_views(conda@);
        assert(cv.len() == conda@.len());
        let ghost middle = if cv.len() > 0 {
            seq![text_row("Conda"@, Tone::Dim)] + cv
        } else {
            Seq::empty()
        };
        if conda.len() > 0 {
            add_text(&mut rows, "Conda", Tone::Dim);
            let ghost before = rows@;
            let ghost added = conda@;
            rows.append(&mut conda);
            assert(env_row_views(rows@) =~= env_row_views(before) + env_row_views(added));
        }
        assert(env_row_views(rows@) =~= head + middle);
        self.add_others(&mut rows);
        let ghost upper = env_row_views(rows@);
        let total: usize = self.candidates.len();
        assert(v.candidates.len() == total);
        add_choice(&mut rows, "Custom Python executable", self.selected == total);
        add_choice(
            &mut rows,
            "AutoReport managed venv (global)",
            self.selected == total + 1,
        );
        add_blank(&mut rows);
        add_row(&mut rows, EnvRow::Text(status_line(t)));
        add_text(&mut rows, "↑/↓ select · Enter choose · Esc cancel", Tone::Dim);
        assert(env_row_views(rows@) =~= upper + seq![
            EnvRowView::Choice {
                label: "Custom Python executable"@,
                selected: v.selected == v.candidates.len(),
            },
            EnvRowView::Choice {
                label: "AutoReport managed venv (global)"@,
                selected: v.selected == v.candidates.len() + 1,
            },
            blank_row(),
            EnvRowView::Text(status_row(t)),
            text_row("↑/↓ select · Enter choose · Esc cancel"@, Tone::Dim),
        ]);
        rows
    }

    /// The rows of the page on which a path is typed.
    fn custom_list(&self) -> (r: Vec<EnvRow>)
        ensures
            env_row_views(r@) == custom_rows(self@),
    {
        let mut rows: Vec<EnvRow> = Vec::new();
        add_text(
            &mut rows,
            "Enter an executable path (for example /opt/venv/bin/python):",
            Tone::Plain,
        );
        add_blank(&mut rows);
        let mut line = Line::empty();
        line.push("› ", Tone::Plain);
        line.add(Span::of(text::string_of(&self.custom_path), Tone::Yellow));
        assert(line@ =~= seq![
            style::span("› "@, Tone::Plain),
            style::span(self.custom_path@, Tone::Yellow),
        ]);
        add_row(&mut rows, EnvRow::Text(line));
        assert(env_row_views(rows@) =~= custom_rows(self@));
        rows
    }

    /// The rows of the page on which the environment is reviewed.
    fn review_list(&self, t: ToolStatus) -> (r: Vec<EnvRow>)
        ensures
            env_row_views(r@) == review_rows(self@, t),
    {
        let mut rows: Vec<EnvRow> = Vec::new();
        if let Some(p) = &self.pending {
            add_text(&mut rows, "Selected Python environment", Tone::Bold);
            add_text(&mut rows, &prefixed("  ", p.label.as_str()), Tone::Plain);
            add_text(
                &mut rows,
                &prefixed("  executable: ", p.executable.as_str()),
                Tone::Plain,
            );
            add_text(
                &mut rows,
                &prefixed("  package manager: ", p.package_manager.as_str()),
                Tone::Plain,
            );
            add_blank(&mut rows);
            add_row(&mut rows, EnvRow::Text(status_line(t)));
            add_blank(&mut rows);
            add_text(&mut rows, "Press Enter to save · Esc to go back", Tone::Plain);
            add_error(&mut rows, &self.error);
            assert(env_row_views(rows@) =~= review_rows(self@, t));
        } else {
            assert(env_row_views(rows@) =~= review_rows(self@, t));
        }
        rows
    }

    /// The rows of the page on which the language is chosen.
    fn language_list(&self, t: ToolStatus) -> (r: Vec<EnvRow>)
        ensures
            env_row_views(r@) == language_rows(self@, t),
    {
        let mut rows: Vec<EnvRow> = Vec::new();
        add_text(&mut rows, "Report language (this project)", Tone::Dim);
        add_choice(
            &mut rows,
            "LaTeX · Report/main.tex",
            self.language_selected == ReportLanguage::Latex,
        );
        add_choice(
            &mut rows,
            "Typst · Report/main.typ",
            self.language_selected == ReportLanguage::Typst,
        );
        add_blank(&mut rows);
        add_row(&mut rows, EnvRow::Text(status_line(t)));
        add_text(&mut rows, "↑/↓ select · Enter continue · Esc cancel", Tone::Dim);
        if let Some(e) = &self.error {
            add_text(&mut rows, e.as_str(), Tone::Plain);
            assert(env_row_views(rows@) =~= language_rows(self@, t));
        } else {
            assert(env_row_views(rows@) =~= language_rows(self@, t));
        }
        rows
    }

    /// The environment that the review shows.
    fn python_text(&self, plan: &ResourcePlan) -> (r: String)
        ensures
            r@ == reviewed_python(self@, text::opt_view(plan.stored_python)),
    {
        match &self.pending {
            Some(p) => p.executable.as_str().to_string(),
            None => match &plan.stored_python {
                Some(s) => s.as_str().to_string(),
                None => "unchanged".to_string(),
            },
        }
    }

    /// The rows of the last page.
    fn final_list(&self, plan: &ResourcePlan) -> (r: Vec<EnvRow>)
        ensures
            env_row_views(r@) == final_rows(self@, *plan),
    {
        let (name, entry, theme, compiler) = match self.language_selected {
            ReportLanguage::Latex => (
                "LaTeX",
                "Report/main.tex",
                "Report/mpltx.cls",
                "XeLaTeX/latexmk",
            ),
            ReportLanguage::Typst => (
                "Typst",
                "Report/main.typ",
                "Report/mplts.typ",
                "typst",
            ),
        };
        let mut rows: Vec<EnvRow> = Vec::new();
        add_text(&mut rows, "Final Review", Tone::Bold);
        add_text(
            &mut rows,
            &prefixed("  Python environment (global): ", &self.python_text(plan)),
            Tone::Plain,
        );
        add_text(
            &mut rows,
            &prefixed("  Report language (this project): ", name),
            Tone::Plain,
        );
        add_text(&mut rows, &prefixed("  Entry: ", entry), Tone::Plain);
        add_text(&mut rows, &prefixed("  Theme: ", theme), Tone::Plain);
        add_text(&mut rows, &prefixed("  Compiler: ", compiler), Tone::Plain);
        add_text(
            &mut rows,
            &prefixed("  Create: ", &names_text(&plan.created)),
            Tone::Plain,
        );
        add_text(
            &mut rows,
            &prefixed("  Preserve: ", &names_text(&plan.preserved)),
            Tone::Plain,
        );
        add_blank(&mut rows);
        add_text(&mut rows, "Enter save · Esc go back", Tone::Plain);
        add_error(&mut rows, &self.error);
        assert(env_row_views(rows@) =~= final_rows(self@, *plan));
        rows
    }

    /// All rows of the screen.
    pub fn draw(&self, t: ToolStatus, plan: &ResourcePlan) -> (r: Vec<EnvRow>)
        requires
            self@.wf(),
        ensures
            env_row_views(r@) == screen_rows(self@, t, *plan),
    {
        match self.step {
            Step::Select => self.select_list(t),
            Step::Custom => self.custom_list(),
            Step::Review => self.review_list(t),
            Step::Language => self.language_list(t),
            Step::FinalReview => self.final_list(plan),
        }
    }
}

/// Where the content stands: in the middle, no larger than the area.
pub fn centered_content_area(area: Rect, width: u16, height: u16) -> (r: Rect)
    requires
        area.wf(),
    ensures
        r == geometry::placed(
            area,
            geometry::least(width, area.width),
            geometry::least(height, area.height),
            2,
        ),
{
    let width: u16 = geometry::min_cells(width, area.width);
    let height: u16 = geometry::min_cells(height, area.height);
    geometry::place(area, width, height, 2)
}

// ---------------------------------------------------------------------------
// Laws
// ---------------------------------------------------------------------------

/// Nothing is stored before it was reviewed: a key asks for the environment to be
/// stored only on its review, and for the project only on the last page.
pub proof fn law_nothing_is_stored_unreviewed(v: EnvView, key: KeyEvent)
    ensures
        after_key(v, key).1 == EnvStepView::SavePython ==> v.step == Step::Review,
        after_key(v, key).1 matches EnvStepView::SaveProject(l) ==> v.step == Step::FinalReview
            && l == v.language,
{
}

/// The number of a conda environment marks it: the digit that stands for the row `k`
/// of the list marks an environment of conda.
pub proof fn law_digits_mark_conda_environments(v: Seq<CandidateView>, n: int, i: int)
    requires
        0 <= i,
        nth_conda(v, n, i) is Some,
    ensures
        i <= nth_conda(v, n, i)->0 < v.len(),
        is_conda(v[nth_conda(v, n, i)->0]),
    decreases v.len() - i,
{
    if i < v.len() {
        if is_conda(v[i]) {
            if n > 0 {
                law_digits_mark_conda_environments(v, n - 1, i + 1);
            }
        } else {
            law_digits_mark_conda_environments(v, n, i + 1);
        }
    }
}

/// What failed is not lost: a failed storing keeps the page and shows the error.
pub proof fn law_failures_keep_the_page(v: EnvView, e: Seq<char>)
    ensures
        after_python(v, Err(e)) == (EnvView { error: Some(e), ..v }),
        after_project(v, Err(e)) == (EnvView { error: Some(e), ..v }, None::<Outcome>),
        after_check(v, Err(e)) == (EnvView { error: Some(e), ..v }),
{
}

/// A key alone.
pub open spec fn pressed(code: KeyCode) -> KeyEvent {
    KeyEvent {
        code,
        modifiers: Modifiers { control: false, alt: false, shift: false, other: false },
        kind: KeyKind::Press,
    }
}

/// Enter takes what is marked: an environment that was found, to be reviewed; a path to be typed;
/// or the managed environment, to be reviewed.
pub proof fn law_enter_takes_what_is_marked(v: EnvView)
    requires
        v.wf(),
        v.step == Step::Select,
    ensures
        ({
            let (after, step) = after_key(v, pressed(KeyCode::Enter));
            let n = v.candidates.len();
            &&& step == EnvStepView::Stay
            &&& v.selected < n ==> after.step == Step::Review && after.pending == Some(
                v.candidates[v.selected].config,
            )
            &&& v.selected == n ==> after.step == Step::Custom && after.custom_path.len() == 0
            &&& v.selected == n + 1 ==> after.step == Step::Review && after.pending == Some(
                v.managed,
            )
            &&& after.language == v.language
            &&& after.candidates == v.candidates
        }),
{
}

/// The mark moves one row at a time and stays on the rows.
pub proof fn law_arrows_move_the_mark(v: EnvView)
    requires
        v.wf(),
        v.step == Step::Select,
    ensures
        after_key(v, pressed(KeyCode::Up)).0.selected == (if v.selected > 0 {
            v.selected - 1
        } else {
            0
        }),
        after_key(v, pressed(KeyCode::Down)).0.selected == (if v.selected < v.candidates.len() + 1 {
            v.selected + 1
        } else {
            v.selected
        }),
        after_key(v, pressed(KeyCode::Up)).0.candidates == v.candidates,
        after_key(v, pressed(KeyCode::Esc)).1 == EnvStepView::Done(Outcome::Cancelled),
{
}

/// A typed path is looked at as it was typed, without the white space round it, and what is
/// found there is reviewed.
pub proof fn law_typed_paths_are_looked_at(v: EnvView, c: char, found: PythonView)
    requires
        v.step == Step::Custom,
    ensures
        ({
            let typed = after_key(v, pressed(KeyCode::Char(c))).0;
            &&& typed.custom_path == v.custom_path.push(c)
            &&& typed.step == Step::Custom
            &&& after_key(typed, pressed(KeyCode::Backspace)).0.custom_path == v.custom_path
            &&& after_key(v, pressed(KeyCode::Enter)).1 == EnvStepView::CheckCustom(
                text::trimmed(v.custom_path),
            )
            &&& after_key(v, pressed(KeyCode::Esc)).0.step == Step::Select
            &&& after_check(v, Ok(found)).pending == Some(found)
            &&& after_check(v, Ok(found)).step == Step::Review
        }),
{
    assert(v.custom_path.push(c).drop_last() =~= v.custom_path);
}

/// The pages follow each other: a reviewed environment is stored, then the language is chosen,
/// then all is reviewed, and the project is stored with that language. Escape goes back, or
/// leaves, and control-C leaves from everywhere.
pub proof fn law_pages_follow_each_other(v: EnvView, key: KeyEvent)
    ensures
        v.step == Step::Review ==> {
            &&& after_key(v, pressed(KeyCode::Enter)).1 == EnvStepView::SavePython
            &&& after_python(v, Ok(())).step == Step::Language
            &&& after_key(v, pressed(KeyCode::Esc)).0.step == Step::Select
        },
        v.step == Step::Language ==> {
            &&& after_key(v, pressed(KeyCode::Up)).0.language == ReportLanguage::Latex
            &&& after_key(v, pressed(KeyCode::Down)).0.language == ReportLanguage::Typst
            &&& after_key(v, pressed(KeyCode::Enter)).0.step == Step::FinalReview
            &&& after_key(v, pressed(KeyCode::Enter)).0.language == v.language
            &&& after_key(v, pressed(KeyCode::Esc)).1 == EnvStepView::Done(Outcome::Cancelled)
        },
        v.step == Step::FinalReview ==> {
            &&& after_key(v, pressed(KeyCode::Enter)).1 == EnvStepView::SaveProject(v.language)
            &&& after_key(v, pressed(KeyCode::Esc)).0.step == Step::Language
        },
        after_project(v, Ok(())).1 == Some(Outcome::Saved),
        key.modifiers.control && key.code == KeyCode::Char('c') ==> after_key(v, key) == (
            v,
            EnvStepView::Done(Outcome::Cancelled),
        ),
{
}

} // verus!
