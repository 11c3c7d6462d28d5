//! Telling pasted text from typing.
//!
//! Some terminals deliver a paste as a quick sequence of ordinary keys. This
//! state machine decides whether a character is typed, held back or collected,
//! and whether enter starts a new line instead of sending the message. Times
//! are nanoseconds.

use crate::clock;
use crate::codex_shell::Platform;
use crate::text;
use vstd::prelude::*;

verus! {

/// From how many quick characters on a paste is assumed.
pub const PASTE_BURST_MIN_CHARS: u16 = 3;

/// How long enter starts a new line after a paste.
pub const PASTE_ENTER_SUPPRESS_WINDOW: u64 = 120_000_000;

/// How close two characters of a paste follow each other.
pub const PASTE_BURST_CHAR_INTERVAL: u64 = 8_000_000;

/// How long a paste may pause.
pub const PASTE_BURST_ACTIVE_IDLE_TIMEOUT: u64 = 8_000_000;

/// How long a paste may pause on Windows.
pub const WINDOWS_ACTIVE_IDLE_TIMEOUT: u64 = 60_000_000;

/// From how many characters on a run is taken for a paste even without white
/// space.
pub const RETRO_MIN_CHARS: usize = 16;

/// A character that is held back, and since when.
#[derive(Debug, Clone, Copy)]
pub struct HeldChar {
    pub ch: char,
    pub at: u64,
}

/// The state of the detector.
#[derive(Debug)]
pub struct PasteBurst {
    pub platform: Platform,
    pub last_plain_char_time: Option<u64>,
    pub consecutive_plain_char_burst: u16,
    pub burst_window_until: Option<u64>,
    pub buffer: Vec<char>,
    pub active: bool,
    pub pending_first_char: Option<HeldChar>,
}

/// The state of the detector.
#[verifier::ext_equal]
pub struct BurstView {
    pub platform: Platform,
    pub last: Option<u64>,
    pub run: u16,
    pub window: Option<u64>,
    pub buffer: Seq<char>,
    pub active: bool,
    pub pending: Option<HeldChar>,
}

impl View for PasteBurst {
    type V = BurstView;

    open spec fn view(&self) -> BurstView {
        BurstView {
            platform: self.platform,
            last: self.last_plain_char_time,
            run: self.consecutive_plain_char_burst,
            window: self.burst_window_until,
            buffer: self.buffer@,
            active: self.active,
            pending: self.pending_first_char,
        }
    }
}

/// What is to be done with a character.
#[derive(Debug, Clone, Copy, PartialEq, Eq, Structural)]
pub enum CharDecision {
    /// Start to collect, together with this many characters already typed.
    BeginBuffer(u16),
    /// Collect it.
    BufferAppend,
    /// Hold it back.
    RetainFirstChar,
    /// Collect it behind the one that was held back.
    BeginBufferFromPending,
}

/// A run of characters that was typed before it was taken for a paste: where it
/// starts, in characters, and what it is.
#[derive(Debug)]
pub struct RetroGrab {
    pub start: usize,
    pub grabbed: Vec<char>,
}

/// What was let go.
#[derive(Debug)]
pub enum FlushResult {
    Paste(Vec<char>),
    Typed(char),
    Nothing,
}

/// What was let go.
pub enum FlushView {
    Paste(Seq<char>),
    Typed(char),
    Nothing,
}

impl View for FlushResult {
    type V = FlushView;

    open spec fn view(&self) -> FlushView {
        match self {
            FlushResult::Paste(v) => FlushView::Paste(v@),
            FlushResult::Typed(c) => FlushView::Typed(*c),
            FlushResult::Nothing => FlushView::Nothing,
        }
    }
}

// ---------------------------------------------------------------------------
// The machine
// ---------------------------------------------------------------------------

/// The state without anything noted.
pub open spec fn idle(platform: Platform) -> BurstView {
    BurstView {
        platform,
        last: None,
        run: 0,
        window: None,
        buffer: Seq::empty(),
        active: false,
        pending: None,
    }
}

/// Whether characters are being collected.
pub open spec fn collecting(s: BurstView) -> bool {
    s.active || s.buffer.len() > 0
}

/// Whether anything is collected or held back.
pub open spec fn busy(s: BurstView) -> bool {
    collecting(s) || s.pending is Some
}

/// The state with the time in which enter starts a new line begun again.
pub open spec fn extended(s: BurstView, now: u64) -> BurstView {
    BurstView { window: Some(clock::later(now, PASTE_ENTER_SUPPRESS_WINDOW)), ..s }
}

/// The length of the run of quick characters after one more.
pub open spec fn longer_run(s: BurstView, now: u64) -> u16 {
    match s.last {
        Some(previous) => if clock::elapsed(now, previous) <= PASTE_BURST_CHAR_INTERVAL {
            if s.run == u16::MAX {
                u16::MAX
            } else {
                (s.run + 1) as u16
            }
        } else {
            1
        },
        None => 1,
    }
}

/// The state with one more character noted.
pub open spec fn noted(s: BurstView, now: u64) -> BurstView {
    BurstView { run: longer_run(s, now), last: Some(now), ..s }
}

/// What happens to a plain character that may be held back.
pub open spec fn after_char(s: BurstView, ch: char, now: u64) -> (BurstView, CharDecision) {
    let t = noted(s, now);
    if t.active {
        (extended(t, now), CharDecision::BufferAppend)
    } else if t.pending is Some && clock::elapsed(now, t.pending->0.at)
        <= PASTE_BURST_CHAR_INTERVAL {
        (
            extended(
                BurstView {
                    active: true,
                    pending: None,
                    buffer: t.buffer.push(t.pending->0.ch),
                    ..t
                },
                now,
            ),
            CharDecision::BeginBufferFromPending,
        )
    } else if t.run >= PASTE_BURST_MIN_CHARS {
        (t, CharDecision::BeginBuffer((t.run - 1) as u16))
    } else {
        (
            BurstView { pending: Some(HeldChar { ch, at: now }), ..t },
            CharDecision::RetainFirstChar,
        )
    }
}

/// What happens to a plain character that is not held back.
pub open spec fn after_char_no_hold(s: BurstView, now: u64) -> (BurstView, Option<CharDecision>) {
    let t = noted(s, now);
    if t.active {
        (extended(t, now), Some(CharDecision::BufferAppend))
    } else if t.run >= PASTE_BURST_MIN_CHARS {
        (t, Some(CharDecision::BeginBuffer((t.run - 1) as u16)))
    } else {
        (t, None)
    }
}

/// How long a paste may pause on a platform.
pub open spec fn active_timeout(platform: Platform) -> u64 {
    if platform == Platform::Windows {
        WINDOWS_ACTIVE_IDLE_TIMEOUT
    } else {
        PASTE_BURST_ACTIVE_IDLE_TIMEOUT
    }
}

/// What is let go when nothing came for a while.
pub open spec fn after_flush(s: BurstView, now: u64) -> (BurstView, FlushView) {
    let timeout = if collecting(s) {
        active_timeout(s.platform)
    } else {
        PASTE_BURST_CHAR_INTERVAL
    };
    if s.last is None || clock::elapsed(now, s.last->0) <= timeout {
        (s, FlushView::Nothing)
    } else if collecting(s) {
        (
            BurstView { active: false, buffer: Seq::empty(), ..s },
            FlushView::Paste(s.buffer),
        )
    } else {
        match s.pending {
            Some(held) => (BurstView { pending: None, ..s }, FlushView::Typed(held.ch)),
            None => (s, FlushView::Nothing),
        }
    }
}

/// What is let go before a key that is no plain character.
pub open spec fn after_modified(s: BurstView) -> (BurstView, Option<Seq<char>>) {
    if !busy(s) {
        (s, None)
    } else {
        (
            BurstView { active: false, buffer: Seq::empty(), pending: None, ..s },
            Some(
                match s.pending {
                    Some(held) => s.buffer.push(held.ch),
                    None => s.buffer,
                },
            ),
        )
    }
}

/// Whether enter starts a new line.
pub open spec fn enter_is_newline(s: BurstView, now: u64) -> bool {
    busy(s) || (s.window is Some && now <= s.window->0)
}

/// Where the last `count` characters of a text begin.
pub open spec fn retro_start(before: Seq<char>, count: int) -> int {
    if count <= 0 {
        before.len() as int
    } else if count >= before.len() {
        0
    } else {
        before.len() - count
    }
}

/// Whether typed characters are taken for a paste: they hold white space, or
/// there are many.
pub open spec fn looks_pasted(run: Seq<char>) -> bool {
    run.len() >= RETRO_MIN_CHARS || exists|i: int| 0 <= i < run.len() && text::is_white(run[i])
}

impl Default for PasteBurst {
    /// A detector that has seen nothing, off Windows.
    fn default() -> (r: Self)
        ensures
            r@ == idle(Platform::Unix),
    {
        PasteBurst::new(Platform::Unix)
    }
}

impl PasteBurst {
    /// A detector that has seen nothing.
    pub fn new(platform: Platform) -> (r: Self)
        ensures
            r@ == idle(platform),
    {
        let r = PasteBurst {
            platform,
            last_plain_char_time: None,
            consecutive_plain_char_burst: 0,
            burst_window_until: None,
            buffer: Vec::new(),
            active: false,
            pending_first_char: None,
        };
        assert(r@ =~= idle(platform));
        r
    }

    /// After how long to look whether something is to be let go.
    pub fn recommended_flush_delay() -> (r: u64)
        ensures
            r == PASTE_BURST_CHAR_INTERVAL + clock::NANOS_PER_MILLI,
    {
        PASTE_BURST_CHAR_INTERVAL + clock::NANOS_PER_MILLI
    }

    /// Takes a plain character that may be held back.
    pub fn on_plain_char(&mut self, ch: char, now: u64) -> (r: CharDecision)
        ensures
            (final(self)@, r) == after_char(old(self)@, ch, now),
    {
        self.note_plain_char(now);
        if self.active {
            self.extend_window(now);
            return CharDecision::BufferAppend;
        }
        if let Some(held) = self.pending_first_char {
            if clock::since(now, held.at) <= PASTE_BURST_CHAR_INTERVAL {
                self.active = true;
                self.pending_first_char = None;
                self.buffer.push(held.ch);
                self.extend_window(now);
                return CharDecision::BeginBufferFromPending;
            }
        }
        if self.consecutive_plain_char_burst >= PASTE_BURST_MIN_CHARS {
            return CharDecision::BeginBuffer(self.consecutive_plain_char_burst - 1);
        }
        self.pending_first_char = Some(HeldChar { ch, at: now });
        CharDecision::RetainFirstChar
    }

    /// Takes a plain character that is not held back.
    pub fn on_plain_char_no_hold(&mut self, now: u64) -> (r: Option<CharDecision>)
        ensures
            (final(self)@, r) == after_char_no_hold(old(self)@, now),
    {
        self.note_plain_char(now);
        if self.active {
            self.extend_window(now);
            return Some(CharDecision::BufferAppend);
        }
        if self.consecutive_plain_char_burst >= PASTE_BURST_MIN_CHARS {
            Some(CharDecision::BeginBuffer(self.consecutive_plain_char_burst - 1))
        } else {
            None
        }
    }

    /// Notes one more plain character.
    fn note_plain_char(&mut self, now: u64)
        ensures
            final(self)@ == noted(old(self)@, now),
    {
        let quick = match self.last_plain_char_time {
            Some(previous) => clock::since(now, previous) <= PASTE_BURST_CHAR_INTERVAL,
            None => false,
        };
        if quick {
            if self.consecutive_plain_char_burst < u16::MAX {
                self.consecutive_plain_char_burst = self.consecutive_plain_char_burst + 1;
            }
        } else {
            self.consecutive_plain_char_burst = 1;
        }
        self.last_plain_char_time = Some(now);
    }

    /// Lets go what was collected or held back, if nothing came for a while.
    pub fn flush_if_due(&mut self, now: u64) -> (r: FlushResult)
        ensures
            (final(self)@, r@) == after_flush(old(self)@, now),
    {
        let collecting = self.active || self.buffer.len() > 0;
        let timeout: u64 = if collecting && self.platform == Platform::Windows {
            WINDOWS_ACTIVE_IDLE_TIMEOUT
        } else if collecting {
            PASTE_BURST_ACTIVE_IDLE_TIMEOUT
        } else {
            PASTE_BURST_CHAR_INTERVAL
        };
        let timed_out = match self.last_plain_char_time {
            Some(time) => clock::since(now, time) > timeout,
            None => false,
        };
        if !timed_out {
            return FlushResult::Nothing;
        }
        if collecting {
            self.active = false;
            let out = self.take_buffer();
            return FlushResult::Paste(out);
        }
        match self.pending_first_char {
            Some(held) => {
                self.pending_first_char = None;
                FlushResult::Typed(held.ch)
            },
            None => FlushResult::Nothing,
        }
    }

    /// Hands over what was collected.
    fn take_buffer(&mut self) -> (r: Vec<char>)
        ensures
            r@ == old(self)@.buffer,
            final(self)@ == (BurstView { buffer: Seq::empty(), ..old(self)@ }),
    {
        let mut out: Vec<char> = Vec::new();
        out.append(&mut self.buffer);
        assert(out@ =~= old(self)@.buffer);
        out
    }

    /// Collects a new line while anything is collected or held back.
    pub fn append_newline_if_active(&mut self, now: u64) -> (r: bool)
        ensures
            r == busy(old(self)@),
            final(self)@ == (if busy(old(self)@) {
                extended(BurstView { buffer: old(self)@.buffer.push('\n'), ..old(self)@ }, now)
            } else {
                old(self)@
            }),
    {
        if !self.is_active() {
            return false;
        }
        self.buffer.push('\n');
        self.extend_window(now);
        true
    }

    /// Whether enter starts a new line instead of sending the message.
    pub fn newline_should_insert_instead_of_submit(&self, now: u64) -> (r: bool)
        ensures
            r == enter_is_newline(self@, now),
    {
        let in_window = match self.burst_window_until {
            Some(until) => now <= until,
            None => false,
        };
        self.is_active() || in_window
    }

    /// As above, and also right behind a plain character.
    pub fn direct_insert_newline_should_insert(&self, now: u64) -> (r: bool)
        ensures
            r == (enter_is_newline(self@, now) || (self@.last is Some && clock::elapsed(
                now,
                self@.last->0,
            ) <= PASTE_BURST_CHAR_INTERVAL)),
    {
        let quick = match self.last_plain_char_time {
            Some(time) => clock::since(now, time) <= PASTE_BURST_CHAR_INTERVAL,
            None => false,
        };
        self.newline_should_insert_instead_of_submit(now) || quick
    }

    /// Begins the time again in which enter starts a new line.
    pub fn extend_window(&mut self, now: u64)
        ensures
            final(self)@ == extended(old(self)@, now),
    {
        self.burst_window_until = Some(clock::after(now, PASTE_ENTER_SUPPRESS_WINDOW));
    }

    /// Starts to collect with characters that were already typed.
    pub fn begin_with_retro_grabbed(&mut self, grabbed: &Vec<char>, now: u64)
        ensures
            final(self)@ == extended(
                BurstView { buffer: old(self)@.buffer + grabbed@, active: true, ..old(self)@ },
                now,
            ),
    {
        let ghost before = self.buffer@;
        let mut more = crate::bottom_pane::draft::copy_chars(grabbed);
        self.buffer.append(&mut more);
        assert(self.buffer@ =~= before + grabbed@);
        self.active = true;
        self.extend_window(now);
    }

    /// Collects a character.
    pub fn append_char_to_buffer(&mut self, ch: char, now: u64)
        ensures
            final(self)@ == extended(
                BurstView { buffer: old(self)@.buffer.push(ch), ..old(self)@ },
                now,
            ),
    {
        self.buffer.push(ch);
        self.extend_window(now);
    }

    /// Collects a character if characters are being collected.
    pub fn try_append_char_if_active(&mut self, ch: char, now: u64) -> (r: bool)
        ensures
            r == collecting(old(self)@),
            final(self)@ == (if collecting(old(self)@) {
                extended(BurstView { buffer: old(self)@.buffer.push(ch), ..old(self)@ }, now)
            } else {
                old(self)@
            }),
    {
        if self.active || self.buffer.len() > 0 {
            self.append_char_to_buffer(ch, now);
            true
        } else {
            false
        }
    }

    /// Starts to collect with the last characters before the cursor, if they look
    /// pasted.
    pub fn decide_begin_buffer(&mut self, now: u64, before: &Vec<char>, retro_chars: usize) -> (r:
        Option<RetroGrab>)
        ensures
            ({
                let start = retro_start(before@, retro_chars as int);
                let run = before@.skip(start);
                match r {
                    Some(grab) => {
                        &&& looks_pasted(run)
                        &&& grab.start as int == start
                        &&& grab.grabbed@ == run
                        &&& final(self)@ == extended(
                            BurstView {
                                buffer: old(self)@.buffer + run,
                                active: true,
                                ..old(self)@
                            },
                            now,
                        )
                    },
                    None => !looks_pasted(run) && final(self)@ == old(self)@,
                }
            }),
            r matches Some(grab) ==> grab.start <= before@.len(),
    {
        let start: usize = retro_start_index(before, retro_chars);
        let ghost run = before@.skip(start as int);
        let mut grabbed: Vec<char> = Vec::new();
        let mut white = false;
        let mut i: usize = start;
        while i < before.len()
            invariant
                start <= i <= before@.len(),
                run == before@.skip(start as int),
                grabbed@ == run.take(i - start),
                white == exists|k: int| 0 <= k < i - start && text::is_white(run[k]),
            decreases before@.len() - i,
        {
            let c = before[i];
            assert(run[i - start] == c);
            let was = white;
            if text::is_whitespace(c) {
                white = true;
            }
            grabbed.push(c);
            assert(run.take(i + 1 - start) =~= run.take(i - start).push(c));
            proof {
                if was {
                    let k = choose|k: int| 0 <= k < i - start && text::is_white(run[k]);
                    assert(0 <= k < i + 1 - start && text::is_white(run[k]));
                }
            }
            i += 1;
        }
        assert(run.take(run.len() as int) =~= run);
        if white || grabbed.len() >= RETRO_MIN_CHARS {
            self.begin_with_retro_grabbed(&grabbed, now);
            Some(RetroGrab { start, grabbed })
        } else {
            None
        }
    }

    /// Lets go everything before a key that is no plain character.
    pub fn flush_before_modified_input(&mut self) -> (r: Option<Vec<char>>)
        ensures
            (final(self)@, match r {
                Some(v) => Some(v@),
                None => None::<Seq<char>>,
            }) == after_modified(old(self)@),
    {
        if !self.is_active() {
            return None;
        }
        self.active = false;
        let mut out = self.take_buffer();
        if let Some(held) = self.pending_first_char {
            out.push(held.ch);
        }
        self.pending_first_char = None;
        Some(out)
    }

    /// Forgets the run and what was held back, but not what was collected.
    pub fn clear_window_after_non_char(&mut self)
        ensures
            final(self)@ == (BurstView { buffer: old(self)@.buffer, ..idle(old(self)@.platform) }),
    {
        self.consecutive_plain_char_burst = 0;
        self.last_plain_char_time = None;
        self.burst_window_until = None;
        self.active = false;
        self.pending_first_char = None;
    }

    /// Whether anything is collected or held back.
    pub fn is_active(&self) -> (r: bool)
        ensures
            r == busy(self@),
    {
        self.active || self.buffer.len() > 0 || self.pending_first_char.is_some()
    }

    /// Forgets everything.
    pub fn clear_after_explicit_paste(&mut self)
        ensures
            final(self)@ == idle(old(self)@.platform),
    {
        self.last_plain_char_time = None;
        self.consecutive_plain_char_burst = 0;
        self.burst_window_until = None;
        self.active = false;
        self.buffer = Vec::new();
        self.pending_first_char = None;
        assert(self@ =~= idle(old(self)@.platform));
    }
}

/// Where the last `retro_chars` characters begin.
pub fn retro_start_index(before: &Vec<char>, retro_chars: usize) -> (r: usize)
    ensures
        r as int == retro_start(before@, retro_chars as int),
        r <= before@.len(),
{
    if retro_chars == 0 {
        before.len()
    } else if retro_chars >= before.len() {
        0
    } else {
        before.len() - retro_chars
    }
}

// ---------------------------------------------------------------------------
// Laws
// ---------------------------------------------------------------------------

/// All that is collected or held back: the characters that have not come out yet.
pub open spec fn withheld(s: BurstView) -> Seq<char> {
    match s.pending {
        Some(held) => s.buffer.push(held.ch),
        None => s.buffer,
    }
}

/// Nothing that was withheld is lost when a key that is no plain character comes:
/// all of it comes out, and nothing stays behind.
pub proof fn law_modified_input_loses_nothing(s: BurstView)
    ensures
        busy(s) ==> after_modified(s).1 == Some(withheld(s)) && !busy(after_modified(s).0),
        !busy(s) ==> withheld(s).len() == 0,
{
}

/// A character that is held back or collected from a held one is withheld, and
/// the ones withheld before stay.
pub proof fn law_held_chars_are_kept(s: BurstView, ch: char, now: u64)
    requires
        s.pending is None || s.buffer.len() == 0,
    ensures
        after_char(s, ch, now).1 == CharDecision::BeginBufferFromPending ==> withheld(
            after_char(s, ch, now).0,
        ) == withheld(s),
        after_char(s, ch, now).1 == CharDecision::RetainFirstChar && s.pending is None ==> withheld(
            after_char(s, ch, now).0,
        ) == withheld(s).push(ch),
{
}

/// What is let go after a pause is all that was collected, or the held character;
/// while keys keep coming, nothing is let go.
pub proof fn law_flush_waits_for_pause(s: BurstView, now: u64)
    ensures
        s.last is Some && now <= s.last->0 ==> after_flush(s, now).1 is Nothing,
        after_flush(s, now).1 matches FlushView::Paste(p) ==> p == s.buffer,
        after_flush(s, now).1 matches FlushView::Typed(c) ==> s.pending is Some && s.pending->0.ch
            == c,
{
}

/// A character that comes alone is held back, and one that comes soon after a held one begins a
/// paste of both; while a paste is collected, characters go into it. Enter is part of what is
/// pasted meanwhile.
pub proof fn law_quick_characters_are_a_paste(s: BurstView, ch: char, now: u64)
    requires
        !collecting(s),
    ensures
        ({
            let (after, decision) = after_char(s, ch, now);
            let soon = s.pending is Some && clock::elapsed(now, s.pending->0.at) <= 8_000_000;
            &&& soon ==> {
                &&& decision == CharDecision::BeginBufferFromPending
                &&& after.active
                &&& after.buffer == seq![s.pending->0.ch]
                &&& after.pending is None
                &&& enter_is_newline(after, now)
                &&& after_char(after, ch, now).1 == CharDecision::BufferAppend
            }
            &&& !soon && s.last is None ==> {
                &&& decision == CharDecision::RetainFirstChar
                &&& after.pending == Some(HeldChar { ch, at: now })
            }
        }),
{
    if s.pending is Some {
        assert(s.buffer.push(s.pending->0.ch) =~= seq![s.pending->0.ch]);
    }
}

/// The last characters of a text are those that a paste takes back, as many as there are.
pub proof fn law_paste_takes_back_the_last_characters(before: Seq<char>, count: int)
    requires
        0 <= count,
    ensures
        0 <= retro_start(before, count) <= before.len(),
        count <= before.len() ==> before.len() - retro_start(before, count) == count,
        count >= before.len() ==> retro_start(before, count) == 0,
{
}

} // verus!
