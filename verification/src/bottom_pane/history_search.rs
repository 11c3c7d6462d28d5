//! Incremental search through earlier inputs.
//!
//! A search is a session: opening it keeps the draft as it was, each character
//! extends the query and searches again from the latest input, and the draft
//! shows the match. Leaving the session restores the draft or accepts the match.

use crate::bottom_pane::draft;
use crate::bottom_pane::draft::{Draft, DraftView};
use crate::keys::{KeyCode, KeyEvent, KeyKind};
use crate::text;
use vstd::prelude::*;

verus! {

/// How a search stands.
#[derive(Clone, Copy, Debug, Eq, PartialEq, Structural)]
pub enum HistorySearchStatus {
    Idle,
    Searching,
    Match,
    NoMatch,
}

/// In which direction to look for the next match.
#[derive(Clone, Copy, Debug, Eq, PartialEq, Structural)]
pub enum Direction {
    Older,
    Newer,
}

/// What a key did to a session.
#[derive(Clone, Copy, Debug, Eq, PartialEq, Structural)]
pub enum SearchKeyOutcome {
    /// The session goes on.
    Continue,
    /// The match was accepted; the draft holds it.
    Accept,
    /// The session was left; the draft is as it was before.
    Cancel,
    /// The key has no meaning here.
    Ignored,
}

/// A search session.
#[derive(Debug)]
pub struct HistorySearchSession {
    pub original: Draft,
    pub query: Vec<char>,
    pub status: HistorySearchStatus,
    pub match_index: Option<usize>,
}

/// A search session.
#[verifier::ext_equal]
pub struct SessionView {
    pub original: DraftView,
    pub query: Seq<char>,
    pub status: HistorySearchStatus,
    pub match_index: Option<int>,
}

impl View for HistorySearchSession {
    type V = SessionView;

    open spec fn view(&self) -> SessionView {
        SessionView {
            original: self.original@,
            query: self.query@,
            status: self.status,
            match_index: match self.match_index {
                Some(i) => Some(i as int),
                None => None,
            },
        }
    }
}

/// A session and the draft that it shows its match in.
#[verifier::ext_equal]
pub struct SearchView {
    pub session: SessionView,
    pub draft: DraftView,
}

/// The session that is opened on a draft.
pub open spec fn opened(d: DraftView) -> SessionView {
    SessionView {
        original: d,
        query: Seq::empty(),
        status: HistorySearchStatus::Idle,
        match_index: None,
    }
}

// ---------------------------------------------------------------------------
// Matches
// ---------------------------------------------------------------------------

/// Whether an input holds the query, whatever the case.
pub open spec fn is_match(entry: Seq<char>, query: Seq<char>) -> bool {
    text::occurs(text::lowercase_of(entry), text::lowercase_of(query))
}

/// The latest match among the first `n` inputs.
pub open spec fn match_before(history: Seq<Seq<char>>, query: Seq<char>, n: int) -> Option<int>
    decreases n,
{
    if n <= 0 {
        None
    } else if n - 1 < history.len() && is_match(history[n - 1], query) {
        Some(n - 1)
    } else {
        match_before(history, query, n - 1)
    }
}

/// The first match from `i` on.
pub open spec fn match_from(history: Seq<Seq<char>>, query: Seq<char>, i: int) -> Option<int>
    decreases history.len() - i,
{
    if i < 0 || i >= history.len() {
        None
    } else if is_match(history[i], query) {
        Some(i)
    } else {
        match_from(history, query, i + 1)
    }
}

/// The next match in a direction, starting just before or just after `from`: the
/// input at `from` itself does not count. An empty query has none.
pub open spec fn next_match(
    history: Seq<Seq<char>>,
    query: Seq<char>,
    from: int,
    direction: Direction,
) -> Option<int> {
    if query.len() == 0 {
        None
    } else {
        match direction {
            Direction::Older => match_before(history, query, from),
            Direction::Newer => match_from(history, query, from + 1),
        }
    }
}

/// A draft that holds an input, the cursor at its end.
pub open spec fn recalled(entry: Seq<char>) -> DraftView {
    DraftView { text: entry, cursor: entry.len() as int }
}

/// The state after the query changed: the latest match is shown; without one the
/// original draft is.
pub open spec fn searched(history: Seq<Seq<char>>, v: SearchView) -> SearchView {
    if v.session.query.len() == 0 {
        SearchView {
            session: SessionView {
                status: HistorySearchStatus::Idle,
                match_index: None,
                ..v.session
            },
            ..v
        }
    } else {
        match next_match(history, v.session.query, history.len() as int, Direction::Older) {
            Some(i) => SearchView {
                session: SessionView {
                    status: HistorySearchStatus::Match,
                    match_index: Some(i),
                    ..v.session
                },
                draft: recalled(history[i]),
            },
            None => SearchView {
                session: SessionView {
                    status: HistorySearchStatus::NoMatch,
                    match_index: None,
                    ..v.session
                },
                draft: v.session.original,
            },
        }
    }
}

/// The place beyond which the next match is looked for: that of the match that is
/// shown, and else the end that the search begins from.
pub open spec fn search_start(history: Seq<Seq<char>>, at: Option<int>, direction: Direction) -> int {
    match direction {
        Direction::Older => match at {
            Some(i) => i,
            None => history.len() as int,
        },
        Direction::Newer => match at {
            Some(i) => i,
            None => -1,
        },
    }
}

/// The state after a move to the next match. Where there is none further on, the
/// match that is shown stays.
pub open spec fn advanced(history: Seq<Seq<char>>, v: SearchView, direction: Direction) -> SearchView {
    if v.session.query.len() == 0 {
        SearchView {
            session: SessionView {
                status: HistorySearchStatus::Idle,
                match_index: None,
                ..v.session
            },
            ..v
        }
    } else {
        let from = search_start(history, v.session.match_index, direction);
        match next_match(history, v.session.query, from, direction) {
            Some(i) => SearchView {
                session: SessionView {
                    status: HistorySearchStatus::Match,
                    match_index: Some(i),
                    ..v.session
                },
                draft: recalled(history[i]),
            },
            None => if v.session.match_index is Some {
                SearchView {
                    session: SessionView { status: HistorySearchStatus::Match, ..v.session },
                    ..v
                }
            } else {
                v
            },
        }
    }
}

/// The state with another query, searched again.
pub open spec fn requeried(history: Seq<Seq<char>>, v: SearchView, query: Seq<char>) -> SearchView {
    searched(history, SearchView { session: SessionView { query, ..v.session }, ..v })
}

/// A query without its last character.
pub open spec fn shortened(query: Seq<char>) -> Seq<char> {
    if query.len() == 0 {
        query
    } else {
        query.drop_last()
    }
}

/// The state with the draft as it was before the session.
pub open spec fn restored(v: SearchView) -> SearchView {
    SearchView { draft: v.session.original, ..v }
}

/// What a key does to a session.
pub open spec fn after_key(history: Seq<Seq<char>>, v: SearchView, key: KeyEvent) -> (
    SearchView,
    SearchKeyOutcome,
) {
    let ctrl = key.modifiers.control;
    let older = (advanced(history, v, Direction::Older), SearchKeyOutcome::Continue);
    let newer = (advanced(history, v, Direction::Newer), SearchKeyOutcome::Continue);
    let shorter = (
        requeried(history, v, shortened(v.session.query)),
        SearchKeyOutcome::Continue,
    );
    let left = (restored(v), SearchKeyOutcome::Cancel);
    if key.kind == KeyKind::Release {
        (v, SearchKeyOutcome::Ignored)
    } else {
        match key.code {
            KeyCode::Up => older,
            KeyCode::Down => newer,
            KeyCode::Esc => left,
            KeyCode::Backspace => shorter,
            KeyCode::Enter => if v.session.status == HistorySearchStatus::Match {
                (v, SearchKeyOutcome::Accept)
            } else {
                (v, SearchKeyOutcome::Continue)
            },
            KeyCode::Char(c) => if ctrl && c == 'r' {
                older
            } else if ctrl && c == 's' {
                newer
            } else if ctrl && c == 'c' {
                left
            } else if ctrl && c == 'u' {
                (requeried(history, v, Seq::empty()), SearchKeyOutcome::Continue)
            } else if ctrl && c == 'h' {
                shorter
            } else if ctrl || key.modifiers.alt {
                (v, SearchKeyOutcome::Ignored)
            } else {
                (requeried(history, v, v.session.query.push(c)), SearchKeyOutcome::Continue)
            },
            _ => (v, SearchKeyOutcome::Ignored),
        }
    }
}

// ---------------------------------------------------------------------------
// Sessions
// ---------------------------------------------------------------------------

impl HistorySearchSession {
    /// A session on the given draft.
    pub fn new(original: Draft) -> (r: Self)
        ensures
            r@ == opened(original@),
    {
        let r = HistorySearchSession {
            original,
            query: Vec::new(),
            status: HistorySearchStatus::Idle,
            match_index: None,
        };
        assert(r@ =~= opened(original@));
        r
    }

    /// How the search stands.
    pub fn status(&self) -> (r: HistorySearchStatus)
        ensures
            r == self@.status,
    {
        self.status
    }

    /// The query.
    pub fn query(&self) -> (r: String)
        ensures
            r@ == self@.query,
    {
        text::string_of(&self.query)
    }

    /// The text of the draft that the session was opened on.
    pub fn original_draft(&self) -> (r: String)
        ensures
            r@ == self@.original.text,
    {
        self.original.to_text()
    }

    /// Shows an input as the match.
    fn show(&mut self, history: &Vec<String>, i: usize, draft: &mut Draft)
        requires
            i < history@.len(),
        ensures
            final(self)@ == (SessionView {
                status: HistorySearchStatus::Match,
                match_index: Some(i as int),
                ..old(self)@
            }),
            final(draft)@ == recalled(text::views(history@)[i as int]),
    {
        self.match_index = Some(i);
        self.status = HistorySearchStatus::Match;
        *draft = Draft::at_end(&history[i]);
    }

    /// Searches again from the latest input.
    fn search_from_latest(&mut self, history: &Vec<String>, draft: &mut Draft)
        ensures
            (SearchView { session: final(self)@, draft: final(draft)@ }) == searched(
                text::views(history@),
                SearchView { session: old(self)@, draft: old(draft)@ },
            ),
    {
        if self.query.len() == 0 {
            self.status = HistorySearchStatus::Idle;
            self.match_index = None;
            return ;
        }
        match find_match(history, &self.query, history.len(), Direction::Older) {
            Some(i) => self.show(history, i, draft),
            None => {
                self.match_index = None;
                self.status = HistorySearchStatus::NoMatch;
                *draft = self.original.copy();
            },
        }
    }

    /// Moves to the next match in a direction.
    fn advance(&mut self, history: &Vec<String>, draft: &mut Draft, direction: Direction)
        requires
            old(self)@.match_index matches Some(i) ==> 0 <= i < history@.len(),
        ensures
            (SearchView { session: final(self)@, draft: final(draft)@ }) == advanced(
                text::views(history@),
                SearchView { session: old(self)@, draft: old(draft)@ },
                direction,
            ),
    {
        if self.query.len() == 0 {
            self.status = HistorySearchStatus::Idle;
            self.match_index = None;
            return ;
        }
        let found = match self.match_index {
            Some(i) => find_match(history, &self.query, i, direction),
            None => match direction {
                Direction::Older => find_match(history, &self.query, history.len(), direction),
                Direction::Newer => first_match(history, &self.query, 0),
            },
        };
        match found {
            Some(i) => self.show(history, i, draft),
            None => {
                if self.match_index.is_some() {
                    self.status = HistorySearchStatus::Match;
                }
            },
        }
    }
}

/// Whether an input holds the query, given in lower case.
fn entry_matches(entry: &str, needle: &str, query: &Vec<char>) -> (r: bool)
    requires
        needle@ == text::lowercase_of(query@),
    ensures
        r == is_match(entry@, query@),
{
    text::contains(&entry.to_lowercase(), needle)
}

/// The first match from `from` on.
fn first_match(history: &Vec<String>, query: &Vec<char>, from: usize) -> (r: Option<usize>)
    ensures
        (match r {
            Some(i) => Some(i as int),
            None => None::<int>,
        }) == match_from(text::views(history@), query@, from as int),
        r matches Some(i) ==> i < history@.len(),
{
    let ghost hs = text::views(history@);
    let q = text::string_of(query);
    let needle = q.as_str().to_lowercase();
    let mut i: usize = from;
    while i < history.len()
        invariant
            from <= i,
            i <= history@.len() || i == from,
            hs == text::views(history@),
            needle@ == text::lowercase_of(query@),
            match_from(hs, query@, i as int) == match_from(hs, query@, from as int),
        decreases history@.len() - i,
    {
        assert(hs[i as int] == history@[i as int]@);
        if entry_matches(&history[i], &needle, query) {
            return Some(i);
        }
        i += 1;
    }
    None
}

/// The latest match among the first `count` inputs.
fn last_match(history: &Vec<String>, query: &Vec<char>, count: usize) -> (r: Option<usize>)
    ensures
        (match r {
            Some(i) => Some(i as int),
            None => None::<int>,
        }) == match_before(text::views(history@), query@, count as int),
        r matches Some(i) ==> i < history@.len(),
{
    let ghost hs = text::views(history@);
    let q = text::string_of(query);
    let needle = q.as_str().to_lowercase();
    let mut n: usize = count;
    while n > 0
        invariant
            n <= count,
            hs == text::views(history@),
            needle@ == text::lowercase_of(query@),
            match_before(hs, query@, n as int) == match_before(hs, query@, count as int),
        decreases n,
    {
        if n - 1 < history.len() {
            assert(hs[n - 1] == history@[n - 1]@);
            if entry_matches(&history[n - 1], &needle, query) {
                return Some(n - 1);
            }
        }
        n -= 1;
    }
    None
}

/// The next match in a direction, starting just before or just after `from`,
/// exclusive of `from`.
pub fn find_match(
    history: &Vec<String>,
    query: &Vec<char>,
    from: usize,
    direction: Direction,
) -> (r: Option<usize>)
    ensures
        (match r {
            Some(i) => Some(i as int),
            None => None::<int>,
        }) == next_match(text::views(history@), query@, from as int, direction),
        r matches Some(i) ==> i < history@.len(),
{
    if query.len() == 0 {
        return None;
    }
    match direction {
        Direction::Older => last_match(history, query, from),
        Direction::Newer => {
            if from < history.len() {
                first_match(history, query, from + 1)
            } else {
                None
            }
        },
    }
}

/// Hands a key to a session.
pub fn handle_search_key(
    history: &Vec<String>,
    session: &mut HistorySearchSession,
    draft: &mut Draft,
    key: KeyEvent,
) -> (r: SearchKeyOutcome)
    requires
        old(session)@.match_index matches Some(i) ==> 0 <= i < history@.len(),
    ensures
        (SearchView { session: final(session)@, draft: final(draft)@ }, r) == after_key(
            text::views(history@),
            SearchView { session: old(session)@, draft: old(draft)@ },
            key,
        ),
        final(session)@.match_index matches Some(i) ==> 0 <= i < history@.len(),
        final(session)@.original == old(session)@.original,
{
    proof {
        matches_inside(text::views(history@), session@.query, Direction::Older);
        matches_inside(text::views(history@), session@.query, Direction::Newer);
        matches_inside(text::views(history@), Seq::empty(), Direction::Older);
        matches_inside(text::views(history@), shortened(session@.query), Direction::Older);
        if let KeyCode::Char(c) = key.code {
            matches_inside(text::views(history@), session@.query.push(c), Direction::Older);
        }
    }
    if key.kind == KeyKind::Release {
        return SearchKeyOutcome::Ignored;
    }
    match key.code {
        KeyCode::Up => {
            session.advance(history, draft, Direction::Older);
            SearchKeyOutcome::Continue
        },
        KeyCode::Down => {
            session.advance(history, draft, Direction::Newer);
            SearchKeyOutcome::Continue
        },
        KeyCode::Esc => {
            *draft = session.original.copy();
            SearchKeyOutcome::Cancel
        },
        KeyCode::Enter => {
            if session.status == HistorySearchStatus::Match {
                SearchKeyOutcome::Accept
            } else {
                SearchKeyOutcome::Continue
            }
        },
        KeyCode::Backspace => {
            pop_query(history, session, draft);
            SearchKeyOutcome::Continue
        },
        KeyCode::Char(c) => {
            if key.modifiers.control && c == 'r' {
                session.advance(history, draft, Direction::Older);
                SearchKeyOutcome::Continue
            } else if key.modifiers.control && c == 's' {
                session.advance(history, draft, Direction::Newer);
                SearchKeyOutcome::Continue
            } else if key.modifiers.control && c == 'c' {
                *draft = session.original.copy();
                SearchKeyOutcome::Cancel
            } else if key.modifiers.control && c == 'u' {
                session.query = Vec::new();
                session.search_from_latest(history, draft);
                SearchKeyOutcome::Continue
            } else if key.modifiers.control && c == 'h' {
                pop_query(history, session, draft);
                SearchKeyOutcome::Continue
            } else if key.modifiers.control || key.modifiers.alt {
                SearchKeyOutcome::Ignored
            } else {
                session.query.push(c);
                session.search_from_latest(history, draft);
                SearchKeyOutcome::Continue
            }
        },
        _ => SearchKeyOutcome::Ignored,
    }
}

/// Takes the last character from the query and searches again.
fn pop_query(history: &Vec<String>, session: &mut HistorySearchSession, draft: &mut Draft)
    ensures
        (SearchView { session: final(session)@, draft: final(draft)@ }) == requeried(
            text::views(history@),
            SearchView { session: old(session)@, draft: old(draft)@ },
            shortened(old(session)@.query),
        ),
{
    let ghost q = session.query@;
    let _ = session.query.pop();
    assert(session.query@ =~= shortened(q));
    session.search_from_latest(history, draft);
}

// ---------------------------------------------------------------------------
// Laws
// ---------------------------------------------------------------------------

/// The latest match among the first inputs is one of them, and none behind it matches.
proof fn match_before_inside(history: Seq<Seq<char>>, query: Seq<char>, n: int)
    ensures
        match match_before(history, query, n) {
            Some(i) => 0 <= i < history.len() && i < n && is_match(history[i], query) && forall|k: int|
                i < k < n && k < history.len() ==> !is_match(#[trigger] history[k], query),
            None => forall|k: int|
                0 <= k < n && k < history.len() ==> !is_match(#[trigger] history[k], query),
        },
    decreases n,
{
    if n > 0 {
        match_before_inside(history, query, n - 1);
    }
}

/// The first match from a place on is an input, and none before it matches.
proof fn match_from_inside(history: Seq<Seq<char>>, query: Seq<char>, i: int)
    requires
        0 <= i,
    ensures
        match match_from(history, query, i) {
            Some(m) => i <= m < history.len() && is_match(history[m], query) && forall|k: int|
                i <= k < m ==> !is_match(#[trigger] history[k], query),
            None => forall|k: int|
                i <= k < history.len() ==> !is_match(#[trigger] history[k], query),
        },
    decreases history.len() - i,
{
    if i < history.len() {
        match_from_inside(history, query, i + 1);
    }
}

/// A match in either direction is the next one: it is an input beyond the place that the
/// search starts from, it holds the query, and no input between them does. Where none
/// is found, no input in that direction holds the query.
pub proof fn law_match_holds_query(
    history: Seq<Seq<char>>,
    query: Seq<char>,
    from: int,
    direction: Direction,
)
    requires
        -1 <= from,
    ensures
        next_match(history, query, from, direction) matches Some(i) ==> 0 <= i < history.len()
            && is_match(history[i], query),
        query.len() > 0 && direction == Direction::Older ==> match next_match(
            history,
            query,
            from,
            direction,
        ) {
            Some(i) => i < from && forall|k: int|
                i < k < from && k < history.len() ==> !is_match(#[trigger] history[k], query),
            None => forall|k: int|
                0 <= k < from && k < history.len() ==> !is_match(#[trigger] history[k], query),
        },
        query.len() > 0 && direction == Direction::Newer ==> match next_match(
            history,
            query,
            from,
            direction,
        ) {
            Some(i) => from < i && forall|k: int|
                from < k < i ==> !is_match(#[trigger] history[k], query),
            None => forall|k: int|
                from < k < history.len() ==> !is_match(#[trigger] history[k], query),
        },
{
    match_before_inside(history, query, from);
    match_from_inside(history, query, from + 1);
}

/// All matches for a query are inputs.
proof fn matches_inside(history: Seq<Seq<char>>, query: Seq<char>, direction: Direction)
    ensures
        forall|from: int|
            -1 <= from && (#[trigger] next_match(history, query, from, direction)) is Some
                ==> 0 <= next_match(
                history,
                query,
                from,
                direction,
            )->0 < history.len(),
{
    assert forall|from: int|
        -1 <= from && (#[trigger] next_match(history, query, from, direction)) is Some implies 0
        <= next_match(
        history,
        query,
        from,
        direction,
    )->0 < history.len() by {
        law_match_holds_query(history, query, from, direction);
    }
}

/// Leaving a session by escape or control-C restores the draft that it was opened
/// on, whatever was typed in it.
pub proof fn law_cancel_restores(history: Seq<Seq<char>>, v: SearchView, key: KeyEvent)
    ensures
        after_key(history, v, key).1 == SearchKeyOutcome::Cancel ==> after_key(
            history,
            v,
            key,
        ).0.draft == v.session.original,
        after_key(history, v, key).0.session.original == v.session.original,
{
}

/// The cursor stays inside the draft, whatever is searched for.
pub proof fn law_draft_stays_inside(history: Seq<Seq<char>>, v: SearchView, key: KeyEvent)
    requires
        v.draft.wf(),
        v.session.original.wf(),
    ensures
        after_key(history, v, key).0.draft.wf(),
        after_key(history, v, key).0.session.original.wf(),
{
}

/// A key that is released, or typed with alt, does not change the query.
pub proof fn law_query_takes_plain_keys_only(history: Seq<Seq<char>>, v: SearchView, key: KeyEvent)
    ensures
        key.kind == KeyKind::Release ==> after_key(history, v, key).0 == v,
        key.modifiers.alt && !key.modifiers.control && key.code is Char ==> after_key(
            history,
            v,
            key,
        ).0 == v,
{
}

/// Whether an input is the latest that holds a query.
pub open spec fn is_latest_match(history: Seq<Seq<char>>, query: Seq<char>, i: int) -> bool {
    &&& 0 <= i < history.len()
    &&& is_match(history[i], query)
    &&& forall|k: int| i < k < history.len() ==> !is_match(#[trigger] history[k], query)
}

/// A search shows the latest input that holds what was typed, with the cursor at its end, and
/// enter takes it. Where no input does, the draft is as before, and enter takes nothing.
pub proof fn law_search_shows_the_latest_match(
    history: Seq<Seq<char>>,
    v: SearchView,
    c: char,
    key: KeyEvent,
    i: int,
)
    requires
        key.kind != KeyKind::Release,
        key.code == KeyCode::Char(c),
        !key.modifiers.control,
        !key.modifiers.alt,
    ensures
        ({
            let (after, outcome) = after_key(history, v, key);
            let query = v.session.query.push(c);
            let enter = KeyEvent { code: KeyCode::Enter, ..key };
            &&& outcome == SearchKeyOutcome::Continue
            &&& after.session.query == query
            &&& is_latest_match(history, query, i) ==> {
                &&& after.draft == (DraftView {
                    text: history[i],
                    cursor: history[i].len() as int,
                })
                &&& after.session.match_index == Some(i)
                &&& after_key(history, after, enter) == (after, SearchKeyOutcome::Accept)
            }
            &&& (forall|k: int| 0 <= k < history.len() ==> !is_match(#[trigger] history[k], query))
                ==> {
                &&& after.draft == v.session.original
                &&& after.session.match_index is None
                &&& after_key(history, after, enter) == (after, SearchKeyOutcome::Continue)
            }
        }),
{
    let query = v.session.query.push(c);
    let n = history.len() as int;
    law_match_holds_query(history, query, n, Direction::Older);
    if is_latest_match(history, query, i) {
        assert(history[i] == history[i]);
        match next_match(history, query, n, Direction::Older) {
            Some(j) => {
                if i < j {
                    assert(!is_match(history[j], query));
                }
                if j < i {
                    assert(!is_match(history[i], query));
                }
            },
            None => {
                assert(!is_match(history[i], query));
            },
        }
    }
    match next_match(history, query, n, Direction::Older) {
        Some(j) => {
            assert(is_match(history[j], query));
        },
        None => {},
    }
}

/// Up and control-R go on to the next older input that holds the query, down and control-S back
/// to the next newer one; where there is none, what is shown stays. Backspace takes the last
/// character of the query away, and control-U all of them.
pub proof fn law_search_keys_step_through_matches(
    history: Seq<Seq<char>>,
    v: SearchView,
    key: KeyEvent,
    at: int,
    i: int,
)
    requires
        key.kind != KeyKind::Release,
        v.session.query.len() > 0,
        v.session.match_index == Some(at),
        0 <= at < history.len(),
    ensures
        ({
            let q = v.session.query;
            let after = after_key(history, v, key).0;
            let older = key.code == KeyCode::Up || (key.code == KeyCode::Char('r')
                && key.modifiers.control);
            let newer = key.code == KeyCode::Down || (key.code == KeyCode::Char('s')
                && key.modifiers.control);
            &&& older && 0 <= i < at && is_match(history[i], q) && (forall|k: int|
                i < k < at ==> !is_match(#[trigger] history[k], q)) ==> after.draft.text
                == history[i] && after.session.match_index == Some(i)
            &&& newer && at < i < history.len() && is_match(history[i], q) && (forall|k: int|
                at < k < i ==> !is_match(#[trigger] history[k], q)) ==> after.draft.text
                == history[i] && after.session.match_index == Some(i)
            &&& older && (forall|k: int| 0 <= k < at ==> !is_match(#[trigger] history[k], q))
                ==> after.draft == v.draft && after.session.match_index == Some(at)
            &&& newer && (forall|k: int|
                at < k < history.len() ==> !is_match(#[trigger] history[k], q)) ==> after.draft
                == v.draft && after.session.match_index == Some(at)
            &&& key.code == KeyCode::Backspace ==> after.session.query == q.drop_last()
            &&& key.code == KeyCode::Char('u') && key.modifiers.control ==> after.session.query.len()
                == 0
        }),
{
    let q = v.session.query;
    law_match_holds_query(history, q, at, Direction::Older);
    law_match_holds_query(history, q, at, Direction::Newer);
    match next_match(history, q, at, Direction::Older) {
        Some(j) => {
            assert(is_match(history[j], q));
            if 0 <= i < at && is_match(history[i], q) && j < i {
                assert(!is_match(history[i], q));
            }
        },
        None => {
            if 0 <= i < at {
                assert(!is_match(history[i], q));
            }
        },
    }
    match next_match(history, q, at, Direction::Newer) {
        Some(j) => {
            assert(is_match(history[j], q));
            if at < i < history.len() && i < j {
                assert(!is_match(history[i], q));
            }
        },
        None => {
            if at < i < history.len() {
                assert(!is_match(history[i], q));
            }
        },
    }
}

} // verus!
