//! The decisions of the memebox input method engine: what a key press, a
//! click, a change of focus or a reset does to the engine's state, what the
//! lookup table of the input method framework has to do, and what is shown.
//!
//! The lookup table itself (its cursor above all) lives with the framework;
//! the engine keeps the list of candidates it put there, in order, and is
//! told the table's cursor position with each key press.
use vstd::prelude::*;

use emoji_searcher::{EmojiDb, EmojiSearcher};
use std::collections::HashMap;
use std::rc::Rc;
use vstd::string::StringExecFns;

use crate::casing::{is_case_randomization, randomize_string_case};
use crate::cube::{cube_picture, drawable, try_draw};
use crate::text::uppercase_of;

verus! {

// ---------------------------------------------------------------------------
// Key symbols and modifier masks of the input method framework
// ---------------------------------------------------------------------------

/// Modifier bit of the Shift key.
pub const SHIFT_MASK: u32 = 1;

/// Modifier bit of the Control key.
pub const CONTROL_MASK: u32 = 4;

/// Modifier bit set on the event of a key being released.
pub const RELEASE_MASK: u32 = 0x4000_0000;

/// Key symbol of BackSpace.
pub const KEY_BACKSPACE: u32 = 0xff08;

/// Key symbol of Tab.
pub const KEY_TAB: u32 = 0xff09;

/// Key symbol of Return.
pub const KEY_RETURN: u32 = 0xff0d;

/// Key symbol of Escape.
pub const KEY_ESCAPE: u32 = 0xff1b;

/// Key symbol of the Up arrow.
pub const KEY_UP: u32 = 0xff52;

/// Key symbol of the Down arrow.
pub const KEY_DOWN: u32 = 0xff54;

/// How many emoji found by a search are offered.
pub const MAX_EMOJI_CANDIDATES: usize = 8;

/// Whether a key event with these modifiers and this character leaves the
/// text being typed alone: Control is held, or the key types no character.
pub open spec fn spec_keyval_is_ignored(keychar: char, state: u32) -> bool {
    state & CONTROL_MASK != 0 || keychar == '\0'
}

/// Returns true if the key/state combination has no effect on the text being
/// processed.  `keychar` is the character that the key types (`'\0'` for
/// none).
pub fn keyval_is_ignored(keychar: char, state: u32) -> (r: bool)
    ensures
        r == spec_keyval_is_ignored(keychar, state),
{
    if state & CONTROL_MASK != 0 {
        return true;
    }
    keychar == '\0'
}

// ---------------------------------------------------------------------------
// State
// ---------------------------------------------------------------------------

/// One emoji that a search found, with the tag or short code that matched.
#[derive(Debug)]
pub struct EmojiHit {
    pub emoji: String,
    pub matched_tag: String,
}

impl View for EmojiHit {
    type V = (Seq<char>, Seq<char>);

    open spec fn view(&self) -> (Seq<char>, Seq<char>) {
        (self.emoji@, self.matched_tag@)
    }
}

/// State related to text that is currently being processed.
#[derive(Debug)]
pub struct ProcessingState {
    preedit_string: String,
    /// The candidates put into the lookup table since it was last cleared.
    candidates: Vec<String>,
    /// For some candidates the text written out differs from the one
    /// displayed: it is kept here under the candidate's index.
    actual_text: HashMap<u32, String>,
}

/// Current state of the engine.
#[derive(Debug)]
pub enum EngineState {
    /// Text is being processed.
    Processing(ProcessingState),
    /// The text held is to be committed.
    Selected(String),
    /// Default state: keys go through untouched.
    Ignored,
}

/// What the engine's state means.
pub enum StateView {
    Processing { preedit: Seq<char>, candidates: Seq<Seq<char>>, actual_text: Map<u32, Seq<char>> },
    Selected(Seq<char>),
    Ignored,
}

impl View for ProcessingState {
    type V = StateView;

    closed spec fn view(&self) -> StateView {
        StateView::Processing {
            preedit: self.preedit_string@,
            candidates: self.candidates@.map_values(|t: String| t@),
            actual_text: self.actual_text@.map_values(|t: String| t@),
        }
    }
}

impl View for EngineState {
    type V = StateView;

    open spec fn view(&self) -> StateView {
        match self {
            EngineState::Processing(state) => state@,
            EngineState::Selected(text) => StateView::Selected(text@),
            EngineState::Ignored => StateView::Ignored,
        }
    }
}

/// What the lookup table of the framework has to do after an event.
#[derive(PartialEq, Eq, Structural, Debug, Clone, Copy)]
pub enum TableAction {
    /// Nothing.
    Keep,
    /// Make a new, empty table (page size 10, cursor shown, cursor wrapping).
    Create,
    /// Move the cursor up.
    CursorUp,
    /// Move the cursor down.
    CursorDown,
    /// Clear the table and append the engine's candidates, in order.
    Refill,
}

/// Events that cannot be handled: the engine stops on them.
#[derive(PartialEq, Eq, Structural, Debug, Clone, Copy)]
pub enum EngineError {
    /// The table has no candidate at the cursor to select.
    NoCandidate,
    /// The text typed cannot be drawn as a cube.
    CannotDraw,
}

// ---------------------------------------------------------------------------
// What a key press does
// ---------------------------------------------------------------------------

/// The label of the last candidate, whose text is the cube picture.
pub open spec fn cube_label() -> Seq<char> {
    seq!['🔲']
}

/// The label under which an emoji found by a search is shown.
pub open spec fn hit_label(hit: (Seq<char>, Seq<char>)) -> Seq<char> {
    hit.0 + seq![':', ' '] + hit.1
}

/// The emoji found by a search that are offered: the first eight.
pub open spec fn offered_hits(hits: Seq<(Seq<char>, Seq<char>)>) -> Seq<(Seq<char>, Seq<char>)> {
    if hits.len() > MAX_EMOJI_CANDIDATES {
        hits.take(MAX_EMOJI_CANDIDATES as int)
    } else {
        hits
    }
}

/// The candidates offered for the text `preedit`: the emoji found by a
/// search for it (each written out as the emoji alone), the text with its case
/// randomized, and the cube (written out as the text `cube`).
pub open spec fn offered(
    preedit: Seq<char>,
    hits: Seq<(Seq<char>, Seq<char>)>,
    randomized: Seq<char>,
    cube: Seq<char>,
) -> StateView {
    let shown = offered_hits(hits);
    StateView::Processing {
        preedit,
        candidates: shown.map_values(|h: (Seq<char>, Seq<char>)| hit_label(h)).push(
            randomized,
        ).push(cube_label()),
        actual_text: Map::new(|i: u32| i < shown.len(), |i: u32| shown[i as int].0).insert(
            (shown.len() + 1) as u32,
            cube,
        ),
    }
}

/// The candidates offered for the text `preedit`, its cube being its picture.
pub open spec fn refilled(
    preedit: Seq<char>,
    hits: Seq<(Seq<char>, Seq<char>)>,
    randomized: Seq<char>,
) -> StateView {
    offered(preedit, hits, randomized, cube_picture(preedit.len() as int, uppercase_of(preedit)))
}

/// The text that selecting the candidate at `idx` writes out, if there is one.
pub open spec fn selection(
    candidates: Seq<Seq<char>>,
    actual_text: Map<u32, Seq<char>>,
    idx: u32,
) -> Option<Seq<char>> {
    if actual_text.contains_key(idx) {
        Some(actual_text[idx])
    } else if idx < candidates.len() {
        Some(candidates[idx as int])
    } else {
        None
    }
}

/// The text typed after the key `keyval` typing `keychar`: BackSpace takes
/// the last character off, any other key adds its character.
pub open spec fn edited_preedit(preedit: Seq<char>, keyval: u32, keychar: char) -> Seq<char> {
    if keyval == KEY_BACKSPACE {
        if preedit.len() > 0 {
            preedit.drop_last()
        } else {
            preedit
        }
    } else {
        preedit.push(keychar)
    }
}

/// The outcome of a key event as far as it does not hang on a search or on
/// chance.
pub enum KeyStep {
    /// The state becomes this one and the table does this.
    Done(StateView, TableAction),
    /// The event cannot be handled; nothing changes.
    Fails(EngineError),
    /// The text typed becomes this one, and the candidates are offered anew.
    Edit(Seq<char>),
}

/// Whether a key event of these modifiers and this character turns the
/// engine on: Control and Shift held, and `E` typed.
pub open spec fn is_activation(key_state: u32, keychar: char) -> bool {
    key_state & SHIFT_MASK != 0 && key_state & CONTROL_MASK != 0 && keychar == 'E'
}

/// What a key event does.  A state that was selected (and has been committed)
/// is forgotten first; a released key does nothing more.  An ignored engine
/// only wakes up on Control+Shift+E.  While processing, Return and Tab select
/// the candidate at the cursor, Escape gives up, the arrows move the cursor,
/// keys with Control held or typing nothing are let pass, and the others edit
/// the text typed.
pub open spec fn key_step(
    state: StateView,
    keyval: u32,
    key_state: u32,
    keychar: char,
    cursor_pos: u32,
) -> KeyStep {
    let state = if state is Selected {
        StateView::Ignored
    } else {
        state
    };
    if key_state & RELEASE_MASK != 0 {
        KeyStep::Done(state, TableAction::Keep)
    } else {
        match state {
            StateView::Processing { preedit, candidates, actual_text } => {
                if keyval == KEY_RETURN || keyval == KEY_TAB {
                    match selection(candidates, actual_text, cursor_pos) {
                        Some(text) => KeyStep::Done(StateView::Selected(text), TableAction::Keep),
                        None => KeyStep::Fails(EngineError::NoCandidate),
                    }
                } else if keyval == KEY_ESCAPE {
                    KeyStep::Done(StateView::Ignored, TableAction::Keep)
                } else if keyval == KEY_UP {
                    KeyStep::Done(state, TableAction::CursorUp)
                } else if keyval == KEY_DOWN {
                    KeyStep::Done(state, TableAction::CursorDown)
                } else if spec_keyval_is_ignored(keychar, key_state) {
                    KeyStep::Done(state, TableAction::Keep)
                } else {
                    KeyStep::Edit(edited_preedit(preedit, keyval, keychar))
                }
            },
            _ => {
                if is_activation(key_state, keychar) {
                    KeyStep::Done(
                        StateView::Processing {
                            preedit: Seq::empty(),
                            candidates: Seq::empty(),
                            actual_text: Map::empty(),
                        },
                        TableAction::Create,
                    )
                } else {
                    KeyStep::Done(StateView::Ignored, TableAction::Keep)
                }
            },
        }
    }
}

// ---------------------------------------------------------------------------
// The invariant
// ---------------------------------------------------------------------------

/// What every state the engine reaches satisfies: while processing, either
/// nothing has been typed and nothing is offered yet, or the candidates end
/// with the text in randomized case and the cube, the cube's text is the
/// picture of the text typed, and every written-out text belongs to a
/// candidate.
pub open spec fn well_formed(state: StateView) -> bool {
    match state {
        StateView::Processing { preedit, candidates, actual_text } => {
            ||| {
                &&& preedit.len() == 0
                &&& candidates.len() == 0
                &&& actual_text.dom().is_empty()
            }
            ||| {
                let last = candidates.len() - 1;
                &&& 2 <= candidates.len() <= MAX_EMOJI_CANDIDATES + 2
                &&& candidates[last] == cube_label()
                &&& is_case_randomization(preedit, candidates[last - 1])
                &&& !actual_text.contains_key((last - 1) as u32)
                &&& actual_text.contains_key(last as u32)
                &&& actual_text[last as u32] == cube_picture(
                    preedit.len() as int,
                    uppercase_of(preedit),
                )
                &&& forall|i: u32| #[trigger] actual_text.contains_key(i) ==> i < candidates.len()
            }
        },
        _ => true,
    }
}

/// Whether `needle` occurs in `haystack`.
pub open spec fn contains_text(haystack: Seq<char>, needle: Seq<char>) -> bool {
    exists|i: int|
        0 <= i && i + needle.len() <= haystack.len() && #[trigger] haystack.subrange(
            i,
            i + needle.len(),
        ) == needle
}

/// Whether every emoji in `hits` was found for `search`: its matching tag
/// contains `search`.
pub open spec fn found_for(search: Seq<char>, hits: Seq<(Seq<char>, Seq<char>)>) -> bool {
    forall|i: int| 0 <= i < hits.len() ==> contains_text(#[trigger] hits[i].1, search)
}

#[verifier::external_type_specification]
#[verifier::external_body]
pub struct ExEmojiDb(EmojiDb);

#[verifier::external_type_specification]
#[verifier::external_body]
pub struct ExEmojiSearcher(EmojiSearcher);

/// Calls `EmojiSearcher::new`: a searcher over the database `db`.  Nothing
/// is claimed of it.
#[verifier::external_body]
fn new_emoji_searcher(db: Rc<EmojiDb>) -> EmojiSearcher {
    EmojiSearcher::new(db)
}

/// What `EmojiSearcher::search` finds for the text `search`, each hit as its
/// emoji and the tag that matched, in order.  The searcher holds an emoji
/// database that nothing changes after it is made, and the search reads only
/// that database and the text (in vector order, with map look-ups but no
/// walk over a map), so it is a function of the two.
pub uninterp spec fn emoji_search(searcher: EmojiSearcher, search: Seq<char>) -> Seq<
    (Seq<char>, Seq<char>),
>;

/// Calls `EmojiSearcher::search` and collects the results, each as its emoji
/// and the tag that matched.  What it finds is named `emoji_search` of the
/// searcher and the text.  The search returns, in the database's order, the
/// emoji having a short code or a tag that contains `search`, with the first
/// such short code, or else tag: that the matching tag contains `search` is
/// also claimed.  Which emoji, and how many, depends on the database, which
/// is not modelled.
#[verifier::external_body]
fn search_emojis(searcher: &EmojiSearcher, search: String) -> (hits: Vec<EmojiHit>)
    ensures
        hits_view(hits@) == emoji_search(*searcher, search@),
        found_for(search@, hits_view(hits@)),
{
    searcher.search(search).map(
        |result| EmojiHit { emoji: result.emoji.clone(), matched_tag: result.matched_tag.clone() },
    ).collect()
}

/// The views of the emoji found by a search.
pub open spec fn hits_view(hits: Seq<EmojiHit>) -> Seq<(Seq<char>, Seq<char>)> {
    hits.map_values(|h: EmojiHit| h@)
}

/// Calls `String::pop`, which removes the last character of `s` and returns
/// it, or returns `None` if `s` is empty.
#[verifier::external_body]
fn pop_char(s: &mut String) -> (r: Option<char>)
    ensures
        old(s)@.len() > 0 ==> r == Some(old(s)@.last()) && final(s)@ == old(s)@.drop_last(),
        old(s)@.len() == 0 ==> r is None && final(s)@ == old(s)@,
{
    s.pop()
}

impl ProcessingState {
    /// Nothing typed, nothing offered.
    fn new() -> (state: Self)
        ensures
            state@ == (StateView::Processing {
                preedit: Seq::empty(),
                candidates: Seq::empty(),
                actual_text: Map::empty(),
            }),
    {
        let state = ProcessingState {
            preedit_string: String::new(),
            candidates: Vec::new(),
            actual_text: HashMap::new(),
        };
        assert(state.candidates@.map_values(|t: String| t@) =~= Seq::empty());
        assert(state.actual_text@.map_values(|t: String| t@) =~= Map::empty());
        state
    }

    /// The text typed.
    pub fn preedit_string(&self) -> (r: &str)
        ensures
            self@ matches StateView::Processing { preedit, .. } && r@ == preedit,
    {
        self.preedit_string.as_str()
    }

    /// The labels of the candidates, in the order they are in the table.
    pub fn candidates(&self) -> (r: &Vec<String>)
        ensures
            self@ matches StateView::Processing { candidates, .. } && r@.map_values(
                |t: String| t@,
            ) == candidates,
    {
        &self.candidates
    }

    /// The text written out when the candidate at `idx` is selected, where
    /// there is one.
    pub fn select(&self, idx: u32) -> (r: Option<String>)
        ensures
            self@ matches StateView::Processing { candidates, actual_text, .. } && match r {
                Some(t) => selection(candidates, actual_text, idx) == Some(t@),
                None => selection(candidates, actual_text, idx) is None,
            },
    {
        broadcast use vstd::std_specs::hash::group_hash_axioms;

        match self.actual_text.get(&idx) {
            Some(text) => Some(text.clone()),
            None => {
                if (idx as usize) < self.candidates.len() {
                    Some(self.candidates[idx as usize].clone())
                } else {
                    None
                }
            },
        }
    }

    /// Offers anew the candidates for the text typed: the emoji of the first
    /// eight `hits`, each shown with its matching tag and written out alone,
    /// then `randomized`, then the cube, written out as `cube`.
    pub fn fill_lookup_table(&mut self, hits: &Vec<EmojiHit>, randomized: String, cube: String)
        ensures
            old(self)@ matches StateView::Processing { preedit, .. } && final(self)@ == offered(
                preedit,
                hits_view(hits@),
                randomized@,
                cube@,
            ),
    {
        broadcast use vstd::std_specs::hash::group_hash_axioms;

        let ghost preedit = self.preedit_string@;
        let ghost shown = offered_hits(hits_view(hits@));
        self.candidates = Vec::new();
        self.actual_text.clear();
        let count = if hits.len() > MAX_EMOJI_CANDIDATES {
            MAX_EMOJI_CANDIDATES
        } else {
            hits.len()
        };
        assert(shown.len() == count);
        for i in 0..count
            invariant
                count == shown.len(),
                count <= MAX_EMOJI_CANDIDATES,
                shown == offered_hits(hits_view(hits@)),
                count <= hits@.len(),
                self.preedit_string@ == preedit,
                self.candidates@.map_values(|t: String| t@) == shown.subrange(0, i as int).map_values(
                    |h: (Seq<char>, Seq<char>)| hit_label(h),
                ),
                self.actual_text@.map_values(|t: String| t@) == Map::new(
                    |j: u32| j < i,
                    |j: u32| shown[j as int].0,
                ),
        {
            let hit = &hits[i];
            assert(shown[i as int] == hit@);
            let mut label = hit.emoji.clone();
            proof {
                reveal_strlit(": ");
            }
            label.append(": ");
            label.append(hit.matched_tag.as_str());
            assert(label@ == hit_label(hit@));
            let ghost before_c = self.candidates@;
            let ghost before_a = self.actual_text@;
            self.candidates.push(label);
            assert(self.candidates@ == before_c.push(label));
            // The table was cleared: the candidate just appended is number `i`.
            let emoji = hit.emoji.clone();
            self.actual_text.insert(i as u32, emoji);
            assert(self.actual_text@ == before_a.insert(i as u32, emoji));
            proof {
                let old_labels = shown.subrange(0, i as int).map_values(
                    |h: (Seq<char>, Seq<char>)| hit_label(h),
                );
                let new_labels = shown.subrange(0, i + 1).map_values(
                    |h: (Seq<char>, Seq<char>)| hit_label(h),
                );
                assert(before_c.map_values(|t: String| t@).len() == old_labels.len());
                assert(self.candidates@.len() == i + 1);
                assert forall|j: int| 0 <= j < i + 1 implies #[trigger] self.candidates@[j]@
                    == new_labels[j] by {
                    if j < i {
                        assert(before_c.map_values(|t: String| t@)[j] == old_labels[j]);
                    }
                }
                assert(self.candidates@.map_values(|t: String| t@) =~= new_labels);
                let old_texts = Map::new(|j: u32| j < i, |j: u32| shown[j as int].0);
                let new_texts = Map::new(|j: u32| j < i + 1, |j: u32| shown[j as int].0);
                assert forall|j: u32| #[trigger] new_texts.contains_key(j) implies self.actual_text@.contains_key(j)
                    && self.actual_text@[j]@ == new_texts[j] by {
                    if j < i {
                        assert(before_a.map_values(|t: String| t@).contains_key(j));
                        assert(before_a.map_values(|t: String| t@)[j] == old_texts[j]);
                    }
                }
                assert forall|j: u32| #[trigger] self.actual_text@.contains_key(j) implies new_texts.contains_key(j) by {
                    if j != i {
                        assert(before_a.map_values(|t: String| t@).contains_key(j));
                    }
                }
                assert(self.actual_text@.map_values(|t: String| t@) =~= new_texts);
            }
        }
        let ghost labels = self.candidates@;
        let ghost texts = self.actual_text@;
        let ghost randomized_view = randomized@;
        let ghost cube_view = cube@;
        self.candidates.push(randomized);
        proof {
            reveal_strlit("🔲");
        }
        let cube_candidate = "🔲".to_owned();
        assert(cube_candidate@ == cube_label());
        self.candidates.push(cube_candidate);
        self.actual_text.insert((count + 1) as u32, cube);
        assert(shown.subrange(0, count as int) =~= shown);
        proof {
            let all = shown.map_values(|h: (Seq<char>, Seq<char>)| hit_label(h)).push(
                randomized_view,
            ).push(cube_label());
            assert forall|j: int| 0 <= j < count + 2 implies #[trigger] self.candidates@[j]@
                == all[j] by {
                if j < count {
                    assert(labels.map_values(|t: String| t@)[j] == all[j]);
                }
            }
            assert(self.candidates@.map_values(|t: String| t@) =~= all);
        }
        assert(self.actual_text@.map_values(|t: String| t@) =~= Map::new(
            |j: u32| j < shown.len(),
            |j: u32| shown[j as int].0,
        ).insert((shown.len() + 1) as u32, cube@));
    }
}

/// The memebox engine: types emoji, text in randomized case and text drawn
/// as a cube.
pub struct MemeboxEngine {
    engine_state: EngineState,
    emoji_searcher: EmojiSearcher,
}

impl View for MemeboxEngine {
    type V = StateView;

    closed spec fn view(&self) -> StateView {
        self.engine_state@
    }
}

impl MemeboxEngine {
    /// The searcher that finds the emoji offered.
    pub closed spec fn searcher(&self) -> EmojiSearcher {
        self.emoji_searcher
    }
}

/// Whether the state `new` and the result `result` are what a key event
/// gives from the state `old`.  Where the text typed is edited, the emoji
/// offered are the first eight that `searcher` finds for the new text (the
/// matching tag of each contains that text).
pub open spec fn key_event_outcome(
    old: StateView,
    new: StateView,
    result: Result<TableAction, EngineError>,
    keyval: u32,
    key_state: u32,
    keychar: char,
    cursor_pos: u32,
    searcher: EmojiSearcher,
) -> bool {
    match key_step(old, keyval, key_state, keychar, cursor_pos) {
        KeyStep::Done(state, action) => result == Ok::<TableAction, EngineError>(action) && new
            == state,
        KeyStep::Fails(error) => result == Err::<TableAction, EngineError>(error) && new == old,
        KeyStep::Edit(preedit) => if drawable(preedit) {
            &&& result == Ok::<TableAction, EngineError>(TableAction::Refill)
            &&& found_for(preedit, emoji_search(searcher, preedit))
            &&& exists|randomized: Seq<char>|
                {
                    &&& is_case_randomization(preedit, randomized)
                    &&& new == refilled(preedit, emoji_search(searcher, preedit), randomized)
                }
        } else {
            result == Err::<TableAction, EngineError>(EngineError::CannotDraw) && new == old
        },
    }
}

/// What the framework is to show.
pub enum RenderPlan {
    /// Show `preedit` as the text being typed, and the lookup table if
    /// `table_visible`.
    Show { preedit: String, table_visible: bool },
    /// Hide the text being typed and the table, and commit this text.
    Commit(String),
    /// Hide the text being typed and the table.
    Hide,
}

/// The answer to a key event: whether the engine took the key, and what the
/// lookup table has to do.
#[derive(PartialEq, Eq, Structural, Debug, Clone, Copy)]
pub struct KeyResponse {
    pub handled: bool,
    pub table: TableAction,
}

impl MemeboxEngine {
    /// A new engine, ignoring keys, searching emoji in `emoji_db`.
    pub fn new(emoji_db: EmojiDb) -> (engine: MemeboxEngine)
        ensures
            engine@ == StateView::Ignored,
    {
        MemeboxEngine {
            engine_state: EngineState::Ignored,
            emoji_searcher: new_emoji_searcher(Rc::new(emoji_db)),
        }
    }

    /// The current state.
    pub fn engine_state(&self) -> (r: &EngineState)
        ensures
            r@ == self@,
    {
        &self.engine_state
    }

    /// Updates the state for a key event: the key `keyval` with the modifiers
    /// `key_state`, typing `keychar` (`'\0'` for none), while the cursor of
    /// the lookup table is at `cursor_pos`.
    pub fn update_engine_state(
        &mut self,
        keyval: u32,
        key_state: u32,
        keychar: char,
        cursor_pos: u32,
    ) -> (r: Result<TableAction, EngineError>)
        ensures
            key_event_outcome(
                old(self)@,
                final(self)@,
                r,
                keyval,
                key_state,
                keychar,
                cursor_pos,
                old(self).searcher(),
            ),
            final(self).searcher() == old(self).searcher(),
            well_formed(old(self)@) ==> well_formed(final(self)@),
            old(self)@ is Selected ==> !(final(self)@ is Selected),
    {
        let mut state = EngineState::Ignored;
        std::mem::swap(&mut state, &mut self.engine_state);
        if let EngineState::Selected(_) = state {
            state = EngineState::Ignored;
        }
        if key_state & RELEASE_MASK != 0 {
            self.engine_state = state;
            return Ok(TableAction::Keep);
        }
        match state {
            EngineState::Processing(mut processing) => {
                if keyval == KEY_RETURN || keyval == KEY_TAB {
                    match processing.select(cursor_pos) {
                        Some(text) => {
                            self.engine_state = EngineState::Selected(text);
                            Ok(TableAction::Keep)
                        },
                        None => {
                            self.engine_state = EngineState::Processing(processing);
                            Err(EngineError::NoCandidate)
                        },
                    }
                } else if keyval == KEY_ESCAPE {
                    self.engine_state = EngineState::Ignored;
                    Ok(TableAction::Keep)
                } else if keyval == KEY_UP {
                    self.engine_state = EngineState::Processing(processing);
                    Ok(TableAction::CursorUp)
                } else if keyval == KEY_DOWN {
                    self.engine_state = EngineState::Processing(processing);
                    Ok(TableAction::CursorDown)
                } else if keyval_is_ignored(keychar, key_state) {
                    self.engine_state = EngineState::Processing(processing);
                    Ok(TableAction::Keep)
                } else {
                    let mut text = processing.preedit_string.clone();
                    if keyval == KEY_BACKSPACE {
                        pop_char(&mut text);
                    } else {
                        crate::text::push_char(&mut text, keychar);
                    }
                    match try_draw(text.as_str()) {
                        None => {
                            self.engine_state = EngineState::Processing(processing);
                            Err(EngineError::CannotDraw)
                        },
                        Some(cube) => {
                            let query = text.clone();
                            let hits = search_emojis(&self.emoji_searcher, query);
                            let randomized = randomize_string_case(text.as_str());
                            let ghost randomized_view = randomized@;
                            processing.preedit_string = text;
                            processing.fill_lookup_table(&hits, randomized, cube);
                            self.engine_state = EngineState::Processing(processing);
                            proof {
                                assert(self@ == refilled(
                                    text@,
                                    hits_view(hits@),
                                    randomized_view,
                                ));
                                lemma_refilled_well_formed(
                                    text@,
                                    hits_view(hits@),
                                    randomized_view,
                                );
                            }
                            Ok(TableAction::Refill)
                        },
                    }
                }
            },
            _ => {
                if key_state & SHIFT_MASK != 0 && key_state & CONTROL_MASK != 0 && keychar == 'E' {
                    self.engine_state = EngineState::Processing(ProcessingState::new());
                    Ok(TableAction::Create)
                } else {
                    self.engine_state = EngineState::Ignored;
                    Ok(TableAction::Keep)
                }
            },
        }
    }

    /// Processes a key event (see `update_engine_state`): the key is taken
    /// if the engine is processing text afterwards, or has text to commit.
    pub fn process_key_event(
        &mut self,
        keyval: u32,
        _keycode: u32,
        state: u32,
        keychar: char,
        cursor_pos: u32,
    ) -> (r: Result<KeyResponse, EngineError>)
        ensures
            key_event_outcome(
                old(self)@,
                final(self)@,
                match r {
                    Ok(response) => Ok::<TableAction, EngineError>(response.table),
                    Err(error) => Err::<TableAction, EngineError>(error),
                },
                keyval,
                state,
                keychar,
                cursor_pos,
                old(self).searcher(),
            ),
            final(self).searcher() == old(self).searcher(),
            r matches Ok(response) ==> response.handled == (final(self)@ is Processing
                || final(self)@ is Selected),
            well_formed(old(self)@) ==> well_formed(final(self)@),
    {
        let table = self.update_engine_state(keyval, state, keychar, cursor_pos)?;
        let handled = match self.engine_state {
            EngineState::Processing(_) | EngineState::Selected(_) => true,
            _ => false,
        };
        Ok(KeyResponse { handled, table })
    }

    /// What the framework is to show for the current state: while
    /// processing, the text typed and the lookup table (if it has
    /// candidates); once a text is selected, that text, committed; else
    /// nothing.
    pub fn render(&self) -> (plan: RenderPlan)
        ensures
            match self@ {
                StateView::Processing { preedit, candidates, .. } => plan matches RenderPlan::Show {
                    preedit: shown,
                    table_visible,
                } && shown@ == preedit && table_visible == (candidates.len() > 0),
                StateView::Selected(text) => plan matches RenderPlan::Commit(t) && t@ == text,
                StateView::Ignored => plan is Hide,
            },
    {
        match &self.engine_state {
            EngineState::Processing(state) => RenderPlan::Show {
                preedit: state.preedit_string.clone(),
                table_visible: state.candidates.len() > 0,
            },
            EngineState::Selected(text) => RenderPlan::Commit(text.clone()),
            EngineState::Ignored => RenderPlan::Hide,
        }
    }

    /// A cursor-up event: the table's cursor moves up while text is being
    /// processed.
    pub fn cursor_up(&self) -> (r: TableAction)
        ensures
            r == if self@ is Processing {
                TableAction::CursorUp
            } else {
                TableAction::Keep
            },
    {
        if let EngineState::Processing(_) = self.engine_state {
            TableAction::CursorUp
        } else {
            TableAction::Keep
        }
    }

    /// A cursor-down event: the table's cursor moves down while text is
    /// being processed.
    pub fn cursor_down(&self) -> (r: TableAction)
        ensures
            r == if self@ is Processing {
                TableAction::CursorDown
            } else {
                TableAction::Keep
            },
    {
        if let EngineState::Processing(_) = self.engine_state {
            TableAction::CursorDown
        } else {
            TableAction::Keep
        }
    }

    /// Focus in: the state is reset.
    pub fn focus_in(&mut self)
        ensures
            final(self)@ == StateView::Ignored,
            final(self).searcher() == old(self).searcher(),
    {
        self.engine_state = EngineState::Ignored;
    }

    /// Focus out: the state is reset.
    pub fn focus_out(&mut self)
        ensures
            final(self)@ == StateView::Ignored,
            final(self).searcher() == old(self).searcher(),
    {
        self.engine_state = EngineState::Ignored;
    }

    /// Resets the state.
    pub fn reset(&mut self)
        ensures
            final(self)@ == StateView::Ignored,
            final(self).searcher() == old(self).searcher(),
    {
        self.engine_state = EngineState::Ignored;
    }

    /// A click on the candidate at `index`: while processing, that candidate
    /// is selected (there must be one), and what is written out is its text:
    /// the emoji alone, the randomized text, or the cube picture.  Otherwise
    /// nothing happens.
    pub fn candidate_clicked(&mut self, index: u32, _button: u32, _state: u32) -> (r: Result<
        (),
        EngineError,
    >)
        ensures
            match old(self)@ {
                StateView::Processing { candidates, actual_text, .. } => if index
                    < candidates.len() {
                    &&& r is Ok
                    &&& final(self)@ == StateView::Selected(
                        if actual_text.contains_key(index) {
                            actual_text[index]
                        } else {
                            candidates[index as int]
                        },
                    )
                } else {
                    r == Err::<(), EngineError>(EngineError::NoCandidate) && final(self)@ == old(
                        self,
                    )@
                },
                _ => r is Ok && final(self)@ == old(self)@,
            },
            final(self).searcher() == old(self).searcher(),
            well_formed(old(self)@) ==> well_formed(final(self)@),
    {
        let text = match &self.engine_state {
            EngineState::Processing(state) => {
                if (index as usize) < state.candidates.len() {
                    state.select(index)
                } else {
                    return Err(EngineError::NoCandidate);
                }
            },
            _ => None,
        };
        if let Some(text) = text {
            self.engine_state = EngineState::Selected(text);
        }
        Ok(())
    }
}

/// Offering candidates anew gives a well-formed state.
proof fn lemma_refilled_well_formed(
    preedit: Seq<char>,
    hits: Seq<(Seq<char>, Seq<char>)>,
    randomized: Seq<char>,
)
    requires
        is_case_randomization(preedit, randomized),
    ensures
        well_formed(refilled(preedit, hits, randomized)),
{
}

// ---------------------------------------------------------------------------
// Laws
// ---------------------------------------------------------------------------

/// Selecting the last candidate of a well-formed state writes out the cube
/// picture of the text typed, in upper case.
pub proof fn lemma_cube_candidate_writes_picture(state: StateView)
    requires
        well_formed(state),
        state matches StateView::Processing { candidates, .. } && candidates.len() > 0,
    ensures
        state matches StateView::Processing { preedit, candidates, actual_text } && selection(
            candidates,
            actual_text,
            (candidates.len() - 1) as u32,
        ) == Some(cube_picture(preedit.len() as int, uppercase_of(preedit))),
{
}

/// Selecting the next-to-last candidate of a well-formed state writes out
/// the text typed with the case of some of its characters swapped.
pub proof fn lemma_randomized_candidate_writes_randomization(state: StateView)
    requires
        well_formed(state),
        state matches StateView::Processing { candidates, .. } && candidates.len() > 0,
    ensures
        state matches StateView::Processing { preedit, candidates, actual_text } && selection(
            candidates,
            actual_text,
            (candidates.len() - 2) as u32,
        ) matches Some(text) && is_case_randomization(preedit, text),
{
}

/// In a well-formed state, selecting any candidate of the table succeeds,
/// and the texts written out all belong to candidates of the table.
pub proof fn lemma_selection_within_table(state: StateView, idx: u32)
    requires
        well_formed(state),
        state is Processing,
    ensures
        state matches StateView::Processing { candidates, actual_text, .. } && (selection(
            candidates,
            actual_text,
            idx,
        ) is Some <==> idx < candidates.len()),
{
}

/// While text is being processed, Escape gives up: the engine goes back to
/// ignoring keys, whatever was typed.
pub proof fn lemma_escape_cancels(state: StateView, key_state: u32, keychar: char, cursor_pos: u32)
    requires
        state is Processing,
        key_state & RELEASE_MASK == 0,
    ensures
        key_step(state, KEY_ESCAPE, key_state, keychar, cursor_pos) == KeyStep::Done(
            StateView::Ignored,
            TableAction::Keep,
        ),
{
}

/// A released key changes nothing, but that a committed selection is
/// forgotten.
pub proof fn lemma_release_changes_nothing(
    state: StateView,
    keyval: u32,
    key_state: u32,
    keychar: char,
    cursor_pos: u32,
)
    requires
        key_state & RELEASE_MASK != 0,
    ensures
        key_step(state, keyval, key_state, keychar, cursor_pos) == KeyStep::Done(
            if state is Selected {
                StateView::Ignored
            } else {
                state
            },
            TableAction::Keep,
        ),
{
}

/// An ignoring engine only wakes up on Control+Shift+E (whatever other
/// modifiers are held: Caps Lock, Num Lock, ...), with nothing typed and an
/// empty table; every other key leaves it ignoring.
pub proof fn lemma_only_activation_wakes(
    keyval: u32,
    key_state: u32,
    keychar: char,
    cursor_pos: u32,
)
    ensures
        key_step(StateView::Ignored, keyval, key_state, keychar, cursor_pos) == if key_state
            & 0x4000_0000u32 == 0 && key_state & 1u32 != 0 && key_state & 4u32 != 0 && keychar
            == 'E' {
            KeyStep::Done(
                StateView::Processing {
                    preedit: Seq::empty(),
                    candidates: Seq::empty(),
                    actual_text: Map::empty(),
                },
                TableAction::Create,
            )
        } else {
            KeyStep::Done(StateView::Ignored, TableAction::Keep)
        },
{
}

/// A key other than BackSpace that edits the text typed adds its character
/// to it, and BackSpace then takes it off again.
pub proof fn lemma_backspace_undoes_typing(
    preedit: Seq<char>,
    keyval: u32,
    keychar: char,
    backspace_char: char,
)
    requires
        keyval != KEY_BACKSPACE,
    ensures
        edited_preedit(preedit, keyval, keychar) == preedit.push(keychar),
        edited_preedit(edited_preedit(preedit, keyval, keychar), KEY_BACKSPACE, backspace_char)
            == preedit,
{
    assert(preedit.push(keychar).drop_last() =~= preedit);
}

/// Which keys are let pass while text is processed: exactly those typed with
/// the Control bit set, and those that type no character.  Any other
/// modifier bit (Shift, Caps Lock, Num Lock, ...) does not matter.
pub proof fn lemma_ignored_keys(keychar: char, state: u32)
    ensures
        spec_keyval_is_ignored(keychar, state) <==> (state & 4u32 != 0 || keychar == '\0'),
        state & 4u32 == 0 && keychar != '\0' ==> !spec_keyval_is_ignored(keychar, state),
{
}

/// While text is processed, a pressed key that is not Return, Tab, Escape,
/// an arrow or BackSpace, typed without the Control bit and typing a
/// character, adds that character to the text typed, whatever other
/// modifier bits are set.
pub proof fn lemma_typing_adds_character(
    preedit: Seq<char>,
    candidates: Seq<Seq<char>>,
    actual_text: Map<u32, Seq<char>>,
    keyval: u32,
    key_state: u32,
    keychar: char,
    cursor_pos: u32,
)
    requires
        keyval != 0xff0du32 && keyval != 0xff09u32 && keyval != 0xff1bu32,
        keyval != 0xff52u32 && keyval != 0xff54u32 && keyval != 0xff08u32,
        key_state & 0x4000_0000u32 == 0,
        key_state & 4u32 == 0,
        keychar != '\0',
    ensures
        key_step(
            StateView::Processing { preedit, candidates, actual_text },
            keyval,
            key_state,
            keychar,
            cursor_pos,
        ) == KeyStep::Edit(preedit.push(keychar)),
{
}

/// After the candidates are offered anew for hits `hits`: the first of them
/// (up to eight) come first, each labelled by its emoji, `": "` and its tag,
/// and selecting one writes out its emoji alone; then comes the randomized
/// text, written out as it is, and last the cube, written out as `cube`.
pub proof fn lemma_offered_candidates(
    preedit: Seq<char>,
    hits: Seq<(Seq<char>, Seq<char>)>,
    randomized: Seq<char>,
    cube: Seq<char>,
)
    ensures
        ({
            let k = if hits.len() > 8 {
                8
            } else {
                hits.len() as int
            };
            offered(preedit, hits, randomized, cube) matches StateView::Processing {
                preedit: p,
                candidates,
                actual_text,
            } && {
                &&& p == preedit
                &&& candidates.len() == k + 2
                &&& forall|i: int|
                    0 <= i < k ==> {
                        &&& #[trigger] candidates[i] == hits[i].0 + seq![':', ' '] + hits[i].1
                        &&& selection(candidates, actual_text, i as u32) == Some(hits[i].0)
                    }
                &&& selection(candidates, actual_text, k as u32) == Some(randomized)
                &&& candidates[k + 1] == seq!['🔲']
                &&& selection(candidates, actual_text, (k + 1) as u32) == Some(cube)
            }
        }),
{
    let k = if hits.len() > 8 {
        8
    } else {
        hits.len() as int
    };
    let shown = offered_hits(hits);
    assert(shown.len() == k);
    assert forall|i: int| 0 <= i < k implies shown[i] == hits[i] by {}
}

} // verus!
