//! The selector: a query that the user edits key by key over a fixed list
//! of candidates, until one key ends the session with an action.

use crate::i18n::{message, Language, MessageKey, Messages};
use crate::matcher::{candidate_scores, score_candidates, spells, MATCH_LIMIT};
use crate::ranking::{
    best_index, best_of, is_ranking, lemma_best_in_range, lemma_ranking_head, lists, rank, ranks,
};
use crate::text::{
    chars_of, eq_ignore_ascii_case, is_least, joined_with, least, lemma_least_absent,
    lemma_least_exists, lemma_least_found, same_ignoring_case, string_of, texts,
};
use vstd::prelude::*;

verus! {

/// Whether an annotation opens at position `i` of `label`: a space and then
/// an opening parenthesis.
pub open spec fn opens_annotation(label: Seq<char>, i: int) -> bool {
    label[i] == ' ' && label[i + 1] == '('
}

/// The positions of `label` at which an annotation opens.
pub open spec fn annotation_openings(label: Seq<char>) -> spec_fn(int) -> bool {
    |i: int| opens_annotation(label, i)
}

/// Where the annotation of `label` begins, if it has one.
pub open spec fn annotation_start(label: Seq<char>) -> Option<int> {
    least(annotation_openings(label), label.len() - 1)
}

/// `label` without its annotation: the text before the first ` (`, or the
/// whole label where there is none.
pub open spec fn stripped(label: Seq<char>) -> Seq<char> {
    match annotation_start(label) {
        Some(i) => label.take(i),
        None => label,
    }
}

/// Removes the annotation from a label.
pub fn strip_annotation(label: &str) -> (name: String)
    ensures
        name@ == stripped(label@),
{
    let chars = chars_of(label);
    if chars.len() >= 2 {
        let mut i: usize = 0;
        while i < chars.len() - 1
            invariant
                chars@ == label@,
                chars.len() >= 2,
                i <= chars.len() - 1,
                forall|j: int| 0 <= j < i ==> !opens_annotation(label@, j),
            decreases chars.len() - i,
        {
            if chars[i] == ' ' && chars[i + 1] == '(' {
                proof {
                    let opens = annotation_openings(label@);
                    assert(opens(i as int));
                    assert(is_least(opens, label@.len() - 1, i as int));
                    lemma_least_found(opens, label@.len() - 1, i as int);
                }
                return string_of(&chars, 0, i);
            }
            i += 1;
        }
    }
    proof {
        lemma_least_absent(annotation_openings(label@), label@.len() - 1);
    }
    label.to_owned()
}

/// Whether `label` is an exact match for `query`: without its annotation it
/// equals the query up to the case of ASCII letters.
pub open spec fn is_exact(label: Seq<char>, query: Seq<char>) -> bool {
    same_ignoring_case(stripped(label), query)
}

/// The candidates that are exact matches for `query`, by their places.
pub open spec fn exact_matches(labels: Seq<Seq<char>>, query: Seq<char>) -> spec_fn(int) -> bool {
    |i: int| is_exact(labels[i], query)
}

/// The first candidate that is an exact match for `query`, if there is one.
pub open spec fn exact_match(labels: Seq<Seq<char>>, query: Seq<char>) -> Option<int> {
    least(exact_matches(labels, query), labels.len() as int)
}

/// Finds the first candidate that is an exact match for `query`.
pub fn find_exact(candidates: &Vec<String>, query: &str) -> (found: Option<usize>)
    ensures
        match found {
            Some(i) => exact_match(texts(candidates@), query@) == Some(i as int),
            None => exact_match(texts(candidates@), query@) is None,
        },
{
    let wanted = chars_of(query);
    let ghost labels = texts(candidates@);
    let ghost exact = exact_matches(labels, query@);
    let mut i: usize = 0;
    while i < candidates.len()
        invariant
            i <= candidates.len(),
            wanted@ == query@,
            labels == texts(candidates@),
            exact == exact_matches(labels, query@),
            forall|j: int| 0 <= j < i ==> !is_exact(labels[j], query@),
        decreases candidates.len() - i,
    {
        let name = strip_annotation(candidates[i].as_str());
        let given = chars_of(name.as_str());
        if eq_ignore_ascii_case(&given, &wanted) {
            proof {
                assert(exact(i as int));
                assert(is_least(exact, labels.len() as int, i as int));
                lemma_least_found(exact, labels.len() as int, i as int);
            }
            return Some(i);
        }
        i += 1;
    }
    proof {
        lemma_least_absent(exact, labels.len() as int);
    }
    None
}

/// A key of the keyboard, as far as the selector tells keys apart.
#[derive(Debug, Clone, Copy, PartialEq, Eq, Structural)]
pub enum Key {
    Char(char),
    Backspace,
    Tab,
    Enter,
    Esc,
    Other,
}

/// One event of the keyboard.
#[derive(Debug, Clone, Copy, PartialEq, Eq, Structural)]
pub struct KeyPress {
    /// The key.
    pub key: Key,
    /// Whether Control was held.
    pub ctrl: bool,
    /// Whether the key went down; releases and repeats are not presses.
    pub pressed: bool,
}

/// What the user asks for with a key.
#[derive(Debug, Clone, Copy, PartialEq, Eq, Structural)]
pub enum Intent {
    /// End the session without an action.
    Cancel,
    /// Create what the query names.
    Create,
    /// Delete the candidate that the query names.
    Delete,
    /// Add a character to the query.
    Insert(char),
    /// Remove the query's last character.
    Erase,
    /// Replace the query by the top candidate.
    Complete,
    /// Pick the top candidate.
    Submit,
    /// Nothing.
    Ignore,
}

/// The meaning of each key event. Only presses count. Control with `c`
/// cancels, with `b` creates, with `x` deletes; any other character is
/// typed, with or without Control.
pub open spec fn intent_of(key: KeyPress) -> Intent {
    if !key.pressed {
        Intent::Ignore
    } else {
        match key.key {
            Key::Char(c) => if key.ctrl && c == 'c' {
                Intent::Cancel
            } else if key.ctrl && c == 'b' {
                Intent::Create
            } else if key.ctrl && c == 'x' {
                Intent::Delete
            } else {
                Intent::Insert(c)
            },
            Key::Esc => Intent::Cancel,
            Key::Backspace => Intent::Erase,
            Key::Tab => Intent::Complete,
            Key::Enter => Intent::Submit,
            Key::Other => Intent::Ignore,
        }
    }
}

/// Reads a key event.
pub fn intent(key: KeyPress) -> (meaning: Intent)
    ensures
        meaning == intent_of(key),
{
    if !key.pressed {
        return Intent::Ignore;
    }
    match key.key {
        Key::Char(c) => {
            if key.ctrl && c == 'c' {
                Intent::Cancel
            } else if key.ctrl && c == 'b' {
                Intent::Create
            } else if key.ctrl && c == 'x' {
                Intent::Delete
            } else {
                Intent::Insert(c)
            }
        },
        Key::Esc => Intent::Cancel,
        Key::Backspace => Intent::Erase,
        Key::Tab => Intent::Complete,
        Key::Enter => Intent::Submit,
        Key::Other => Intent::Ignore,
    }
}

/// How a session ends.
#[derive(Debug, PartialEq, Eq)]
pub enum SelectorAction {
    /// A candidate was picked; its label, without annotation.
    Select(String),
    /// A new value is to be created; the query as it was typed.
    CreateNew(String),
    /// A candidate is to be deleted; its label, without annotation.
    Delete(String),
    /// Nothing is to be done.
    Cancel,
}

/// A `SelectorAction` with its texts as sequences.
pub enum ActionView {
    Select(Seq<char>),
    CreateNew(Seq<char>),
    Delete(Seq<char>),
    Cancel,
}

impl View for SelectorAction {
    type V = ActionView;

    open spec fn view(&self) -> ActionView {
        match *self {
            SelectorAction::Select(name) => ActionView::Select(name@),
            SelectorAction::CreateNew(name) => ActionView::CreateNew(name@),
            SelectorAction::Delete(name) => ActionView::Delete(name@),
            SelectorAction::Cancel => ActionView::Cancel,
        }
    }
}

/// A session that has not ended: the candidates, what the user may do with
/// them, and the query so far.
#[derive(Debug, PartialEq, Eq)]
pub struct Selector {
    /// The labels to pick from, in the order in which they were supplied.
    pub candidates: Vec<String>,
    /// Whether the user may create a value that is no candidate.
    pub allow_create: bool,
    /// Whether the user may delete a candidate.
    pub allow_delete: bool,
    /// What the user has typed.
    pub query: String,
}

/// A `Selector` with its texts as sequences.
pub struct SelectorView {
    pub labels: Seq<Seq<char>>,
    pub allow_create: bool,
    pub allow_delete: bool,
    pub query: Seq<char>,
}

impl View for Selector {
    type V = SelectorView;

    open spec fn view(&self) -> SelectorView {
        SelectorView {
            labels: texts(self.candidates@),
            allow_create: self.allow_create,
            allow_delete: self.allow_delete,
            query: self.query@,
        }
    }
}

/// What a key leads to.
#[derive(Debug, PartialEq, Eq)]
pub enum Step {
    /// The session goes on in this state.
    Continue(Selector),
    /// The session has ended with this action.
    Finished(SelectorAction),
}

/// A `Step` with its texts as sequences.
pub enum StepView {
    Continue(SelectorView),
    Finished(ActionView),
}

impl View for Step {
    type V = StepView;

    open spec fn view(&self) -> StepView {
        match *self {
            Step::Continue(state) => StepView::Continue(state@),
            Step::Finished(action) => StepView::Finished(action@),
        }
    }
}

/// `shown` is the filtered list for candidates with these `scores`. With an
/// empty query (`unfiltered`) it is every candidate in the order supplied.
/// Otherwise it is the candidates that match, highest score first, those
/// with equal scores in the order supplied.
pub open spec fn is_shown(scores: Seq<Option<i64>>, unfiltered: bool, shown: Seq<usize>) -> bool {
    if unfiltered {
        &&& shown.len() == scores.len()
        &&& forall|i: int| 0 <= i < shown.len() ==> shown[i] == i
    } else {
        is_ranking(ranks(scores), shown)
    }
}

/// The candidate at the head of the filtered list, if the list is not
/// empty.
pub open spec fn top_of(scores: Seq<Option<i64>>, unfiltered: bool) -> Option<int> {
    if unfiltered {
        if scores.len() > 0 {
            Some(0int)
        } else {
            None
        }
    } else {
        best_of(ranks(scores))
    }
}

/// The filtered list begins with `top_of`, and is empty exactly where
/// `top_of` finds nothing.
pub proof fn lemma_shown_head(scores: Seq<Option<i64>>, unfiltered: bool, shown: Seq<usize>)
    requires
        is_shown(scores, unfiltered, shown),
    ensures
        shown.len() > 0 ==> top_of(scores, unfiltered) == Some(shown[0] as int),
        shown.len() == 0 ==> top_of(scores, unfiltered) is None,
{
    if !unfiltered {
        lemma_ranking_head(ranks(scores), shown);
    }
}

/// The filtered list for candidates with the given scores.
pub fn filter_scored(scores: &Vec<Option<i64>>, unfiltered: bool) -> (shown: Vec<usize>)
    ensures
        is_shown(scores@, unfiltered, shown@),
{
    if unfiltered {
        let mut shown: Vec<usize> = Vec::new();
        let mut i: usize = 0;
        while i < scores.len()
            invariant
                i <= scores.len(),
                shown@.len() == i,
                forall|j: int| 0 <= j < i ==> shown@[j] == j,
            decreases scores.len() - i,
        {
            shown.push(i);
            i += 1;
        }
        shown
    } else {
        rank(scores)
    }
}

/// The filtered list of `candidates` for `query`. With an empty query the
/// candidates come as they were supplied. A candidate whose whole label the
/// query spells is in the list, whatever else is.
pub fn filter_candidates(candidates: &Vec<String>, query: &str) -> (shown: Vec<usize>)
    ensures
        is_shown(candidate_scores(texts(candidates@), query@), query@.len() == 0, shown@),
        query@.len() == 0 ==> shown@.len() == candidates@.len() && forall|i: int|
            0 <= i < shown@.len() ==> shown@[i] == i,
        forall|i: int|
            0 <= i < candidates@.len() && query@.len() <= MATCH_LIMIT && spells(
                (#[trigger] candidates@[i])@,
                query@,
            ) ==> lists(shown@, i),
{
    let scores = score_candidates(candidates, query);
    let shown = filter_scored(&scores, query.is_empty());
    proof {
        assert forall|i: int|
            0 <= i < candidates@.len() && query@.len() <= MATCH_LIMIT && spells(
                (#[trigger] candidates@[i])@,
                query@,
            ) implies lists(shown@, i) by {
            if query@.len() == 0 {
                assert(shown@[i] as int == i);
            } else {
                assert(scores@[i] is Some);
                assert(ranks(scores@)[i] is Some);
            }
        }
    }
    shown
}

/// The head of the filtered list for candidates with the given scores.
pub fn top_index(scores: &Vec<Option<i64>>, unfiltered: bool) -> (top: Option<usize>)
    ensures
        match top {
            Some(i) => top_of(scores@, unfiltered) == Some(i as int) && i < scores.len(),
            None => top_of(scores@, unfiltered) is None,
        },
{
    if unfiltered {
        if scores.len() > 0 {
            Some(0)
        } else {
            None
        }
    } else {
        let top = best_index(scores);
        proof {
            if top is Some {
                lemma_best_in_range(ranks(scores@));
            }
        }
        top
    }
}

/// The state and key `key` lead to this step, for candidates whose scores
/// for the query are `scores`.
///
/// - Cancelling ends the session with `Cancel`.
/// - Creating ends it with `CreateNew` of the query, where creating is
///   allowed and the query is not empty.
/// - Deleting ends it with `Delete` of the first exact match, where deleting
///   is allowed, the query is not empty and there is an exact match.
/// - A typed character is added to the query; erasing removes its last
///   character.
/// - Completing replaces the query by the top candidate's label, and
///   submitting ends the session with `Select` of that label, both without
///   the annotation and only where the filtered list is not empty.
/// - In every other case nothing changes.
pub open spec fn step_scored(state: SelectorView, key: KeyPress, scores: Seq<Option<i64>>) -> StepView {
    let top = top_of(scores, state.query.len() == 0);
    match intent_of(key) {
        Intent::Cancel => StepView::Finished(ActionView::Cancel),
        Intent::Create => if state.allow_create && state.query.len() > 0 {
            StepView::Finished(ActionView::CreateNew(state.query))
        } else {
            StepView::Continue(state)
        },
        Intent::Delete => match exact_match(state.labels, state.query) {
            Some(i) => if state.allow_delete && state.query.len() > 0 {
                StepView::Finished(ActionView::Delete(stripped(state.labels[i])))
            } else {
                StepView::Continue(state)
            },
            None => StepView::Continue(state),
        },
        Intent::Insert(c) => StepView::Continue(
            SelectorView { query: state.query.push(c), ..state },
        ),
        Intent::Erase => if state.query.len() > 0 {
            StepView::Continue(SelectorView { query: state.query.drop_last(), ..state })
        } else {
            StepView::Continue(state)
        },
        Intent::Complete => match top {
            Some(i) => StepView::Continue(
                SelectorView { query: stripped(state.labels[i]), ..state },
            ),
            None => StepView::Continue(state),
        },
        Intent::Submit => match top {
            Some(i) => StepView::Finished(ActionView::Select(stripped(state.labels[i]))),
            None => StepView::Continue(state),
        },
        Intent::Ignore => StepView::Continue(state),
    }
}

/// The step that `key` leads to, the candidates scored by the matcher.
pub open spec fn step(state: SelectorView, key: KeyPress) -> StepView {
    step_scored(state, key, candidate_scores(state.labels, state.query))
}

impl Selector {
    /// A session over `candidates` that starts with an empty query.
    pub fn new(candidates: Vec<String>, allow_create: bool, allow_delete: bool) -> (state: Selector)
        ensures
            state@ == (SelectorView {
                labels: texts(candidates@),
                allow_create,
                allow_delete,
                query: Seq::<char>::empty(),
            }),
    {
        Selector { candidates, allow_create, allow_delete, query: String::new() }
    }

    /// The filtered list for the query as it stands.
    pub fn filtered(&self) -> (shown: Vec<usize>)
        ensures
            is_shown(candidate_scores(self@.labels, self@.query), self@.query.len() == 0, shown@),
            forall|i: int|
                0 <= i < self@.labels.len() && self@.query.len() <= MATCH_LIMIT && spells(
                    #[trigger] self@.labels[i],
                    self@.query,
                ) ==> lists(shown@, i),
    {
        filter_candidates(&self.candidates, self.query.as_str())
    }

    /// Whether a candidate is an exact match for the query as it stands.
    pub fn has_exact_match(&self) -> (found: bool)
        ensures
            found == exact_match(self@.labels, self@.query).is_some(),
    {
        find_exact(&self.candidates, self.query.as_str()).is_some()
    }

    /// Takes one key, the candidates' scores for the present query given.
    pub fn handle_key_scored(self, key: KeyPress, scores: &Vec<Option<i64>>) -> (next: Step)
        requires
            scores.len() == self.candidates.len(),
        ensures
            next@ == step_scored(self@, key, scores@),
    {
        let mut state = self;
        let empty = state.query.as_str().is_empty();
        match intent(key) {
            Intent::Cancel => Step::Finished(SelectorAction::Cancel),
            Intent::Create => {
                if state.allow_create && !empty {
                    Step::Finished(SelectorAction::CreateNew(state.query))
                } else {
                    Step::Continue(state)
                }
            },
            Intent::Delete => {
                match find_exact(&state.candidates, state.query.as_str()) {
                    Some(i) => {
                        if state.allow_delete && !empty {
                            let name = strip_annotation(state.candidates[i].as_str());
                            Step::Finished(SelectorAction::Delete(name))
                        } else {
                            Step::Continue(state)
                        }
                    },
                    None => Step::Continue(state),
                }
            },
            Intent::Insert(c) => {
                state.query.push(c);
                Step::Continue(state)
            },
            Intent::Erase => {
                if !empty {
                    state.query.pop();
                }
                Step::Continue(state)
            },
            Intent::Complete => {
                match top_index(scores, empty) {
                    Some(i) => {
                        state.query = strip_annotation(state.candidates[i].as_str());
                        Step::Continue(state)
                    },
                    None => Step::Continue(state),
                }
            },
            Intent::Submit => {
                match top_index(scores, empty) {
                    Some(i) => {
                        let name = strip_annotation(state.candidates[i].as_str());
                        Step::Finished(SelectorAction::Select(name))
                    },
                    None => Step::Continue(state),
                }
            },
            Intent::Ignore => Step::Continue(state),
        }
    }

    /// Takes one key.
    pub fn handle_key(self, key: KeyPress) -> (next: Step)
        ensures
            next@ == step(self@, key),
    {
        let scores = score_candidates(&self.candidates, self.query.as_str());
        self.handle_key_scored(key, &scores)
    }
}

/// Deleting needs leave and an exact match: a session ends with `Delete`
/// only where deleting is allowed and some candidate is an exact match for
/// the query, and then with the label of such a candidate. Where the delete
/// key is pressed without leave, without a query or without an exact match,
/// the session goes on as it was.
pub proof fn lemma_delete_needs_exact_match(
    state: SelectorView,
    key: KeyPress,
    scores: Seq<Option<i64>>,
)
    ensures
        step_scored(state, key, scores) matches StepView::Finished(ActionView::Delete(name))
            ==> state.allow_delete && state.query.len() > 0 && exists|i: int|
            0 <= i < state.labels.len() && #[trigger] is_exact(state.labels[i], state.query) && name
                == stripped(state.labels[i]),
        intent_of(key) == Intent::Delete && !(state.allow_delete && state.query.len() > 0
            && exists|i: int|
            0 <= i < state.labels.len() && #[trigger] is_exact(state.labels[i], state.query))
            ==> step_scored(state, key, scores) == StepView::Continue(state),
{
    let exact = exact_matches(state.labels, state.query);
    let n = state.labels.len() as int;
    if step_scored(state, key, scores) matches StepView::Finished(ActionView::Delete(name)) {
        let i = exact_match(state.labels, state.query)->0;
        assert(is_least(exact, n, i));
        assert(is_exact(state.labels[i], state.query));
    }
    if intent_of(key) == Intent::Delete && !(exists|i: int|
        0 <= i < state.labels.len() && #[trigger] is_exact(state.labels[i], state.query)) {
        assert forall|j: int| 0 <= j < n implies !#[trigger] exact(j) by {
            assert(!is_exact(state.labels[j], state.query));
        }
        lemma_least_absent(exact, n);
    }
}

/// Creating needs leave and a query: a session ends with `CreateNew` only
/// where creating is allowed and the query is not empty, and then with the
/// query as it stands.
pub proof fn lemma_create_needs_leave_and_query(
    state: SelectorView,
    key: KeyPress,
    scores: Seq<Option<i64>>,
)
    ensures
        step_scored(state, key, scores) matches StepView::Finished(ActionView::CreateNew(name))
            ==> state.allow_create && state.query.len() > 0 && name == state.query && intent_of(key)
            == Intent::Create,
        intent_of(key) == Intent::Create && !(state.allow_create && state.query.len() > 0)
            ==> step_scored(state, key, scores) == StepView::Continue(state),
{
}

/// With an empty filtered list, completing and submitting change nothing.
pub proof fn lemma_empty_list_ignores_pick(
    state: SelectorView,
    key: KeyPress,
    scores: Seq<Option<i64>>,
    shown: Seq<usize>,
)
    requires
        is_shown(scores, state.query.len() == 0, shown),
        shown.len() == 0,
        intent_of(key) == Intent::Complete || intent_of(key) == Intent::Submit,
    ensures
        step_scored(state, key, scores) == StepView::Continue(state),
{
    lemma_shown_head(scores, state.query.len() == 0, shown);
}

/// A query that spells a candidate's whole label, in any case of its ASCII
/// letters, finds that candidate: the candidate is an exact match, provided
/// that its label carries no annotation, and it stands in the filtered
/// list, provided that it has a score. `filter_candidates` says for which
/// queries the matcher owes that score.
pub proof fn lemma_full_label_is_found(
    labels: Seq<Seq<char>>,
    at: int,
    query: Seq<char>,
    scores: Seq<Option<i64>>,
    shown: Seq<usize>,
)
    requires
        0 <= at < labels.len(),
        same_ignoring_case(labels[at], query),
        annotation_start(labels[at]) is None,
        scores.len() == labels.len(),
        query.len() > 0 ==> scores[at] is Some,
        is_shown(scores, query.len() == 0, shown),
    ensures
        is_exact(labels[at], query),
        exact_match(labels, query) is Some,
        lists(shown, at),
{
    let exact = exact_matches(labels, query);
    assert(exact(at));
    lemma_least_exists(exact, labels.len() as int, at);
    if query.len() == 0 {
        assert(shown[at] as int == at);
    } else {
        assert(ranks(scores)[at] is Some);
    }
}

/// The most candidates that the list shows at once.
pub const VISIBLE_ROWS: usize = 10;

/// A row of the list on the screen.
#[derive(Debug, Clone, Copy, PartialEq, Eq, Structural)]
pub enum Row {
    /// The candidate with this place among the candidates.
    Candidate(usize),
    /// The offer to create what the query names.
    CreateHint,
}

/// The rows for the filtered list `shown`: its first `VISIBLE_ROWS`
/// entries, or the offer to create alone where a query is typed and nothing
/// matches it.
pub open spec fn rows_of(shown: Seq<usize>, unfiltered: bool) -> Seq<Row> {
    if shown.len() == 0 && !unfiltered {
        seq![Row::CreateHint]
    } else if shown.len() <= VISIBLE_ROWS {
        Seq::new(shown.len(), |i: int| Row::Candidate(shown[i]))
    } else {
        Seq::new(VISIBLE_ROWS as nat, |i: int| Row::Candidate(shown[i]))
    }
}

/// What the list on the screen holds: the rows, and the number of
/// candidates in the filtered list, of which the rows may show only the
/// first.
#[derive(Debug, PartialEq, Eq)]
pub struct ListView {
    pub rows: Vec<Row>,
    pub total: usize,
}

/// The list to draw for the filtered list `shown`.
pub fn list_view(shown: &Vec<usize>, unfiltered: bool) -> (view: ListView)
    ensures
        view.rows@ == rows_of(shown@, unfiltered),
        view.total == shown@.len(),
{
    ListView { rows: display_rows(shown, unfiltered), total: shown.len() }
}

/// The rows to draw for the filtered list `shown`.
pub fn display_rows(shown: &Vec<usize>, unfiltered: bool) -> (rows: Vec<Row>)
    ensures
        rows@ == rows_of(shown@, unfiltered),
{
    let mut rows: Vec<Row> = Vec::new();
    if shown.len() == 0 && !unfiltered {
        rows.push(Row::CreateHint);
        assert(rows@ =~= seq![Row::CreateHint]);
        return rows;
    }
    let count = if shown.len() <= VISIBLE_ROWS {
        shown.len()
    } else {
        VISIBLE_ROWS
    };
    let mut i: usize = 0;
    while i < count
        invariant
            i <= count <= shown.len(),
            rows@.len() == i,
            forall|j: int| 0 <= j < i ==> rows@[j] == Row::Candidate(shown@[j]),
        decreases count - i,
    {
        rows.push(Row::Candidate(shown[i]));
        i += 1;
    }
    assert(rows@ =~= rows_of(shown@, unfiltered));
    rows
}

/// One entry of the help line.
#[derive(Debug, Clone, Copy, PartialEq, Eq, Structural)]
pub enum HelpItem {
    /// Typing filters the list.
    Search,
    /// The completion key.
    Complete,
    /// The selection key.
    Select,
    /// The creation key.
    Create,
    /// The creation key, as the only way on.
    CreateBranch,
    /// The deletion key.
    Delete,
    /// The deletion key, with the note that it needs an exact match.
    DeleteIfExact,
    /// The key that edits the query.
    Edit,
    /// The keys that cancel.
    Cancel,
}

/// The entries of the help line. Creation is offered only where it is
/// allowed, deletion only where both are allowed and, once a query is
/// typed, only while a candidate is an exact match for it. Where a query
/// matches nothing, creation is the only way on.
pub open spec fn help_items(
    allow_create: bool,
    allow_delete: bool,
    unfiltered: bool,
    nothing_shown: bool,
    exact: bool,
) -> Seq<HelpItem> {
    if !allow_create {
        seq![HelpItem::Search, HelpItem::Complete, HelpItem::Select, HelpItem::Cancel]
    } else if unfiltered {
        if allow_delete {
            seq![
                HelpItem::Search,
                HelpItem::Complete,
                HelpItem::Select,
                HelpItem::Create,
                HelpItem::DeleteIfExact,
                HelpItem::Cancel,
            ]
        } else {
            seq![
                HelpItem::Search,
                HelpItem::Complete,
                HelpItem::Select,
                HelpItem::Create,
                HelpItem::Cancel,
            ]
        }
    } else if nothing_shown {
        seq![HelpItem::CreateBranch, HelpItem::Edit, HelpItem::Cancel]
    } else if allow_delete && exact {
        seq![
            HelpItem::Complete,
            HelpItem::Select,
            HelpItem::Create,
            HelpItem::Delete,
            HelpItem::Edit,
            HelpItem::Cancel,
        ]
    } else {
        seq![HelpItem::Complete, HelpItem::Select, HelpItem::Create, HelpItem::Edit, HelpItem::Cancel]
    }
}

/// Chooses the entries of the help line.
pub fn help_for(
    allow_create: bool,
    allow_delete: bool,
    unfiltered: bool,
    nothing_shown: bool,
    exact: bool,
) -> (items: Vec<HelpItem>)
    ensures
        items@ == help_items(allow_create, allow_delete, unfiltered, nothing_shown, exact),
{
    let mut items: Vec<HelpItem> = Vec::new();
    if !allow_create {
        items.push(HelpItem::Search);
        items.push(HelpItem::Complete);
        items.push(HelpItem::Select);
    } else if unfiltered {
        items.push(HelpItem::Search);
        items.push(HelpItem::Complete);
        items.push(HelpItem::Select);
        items.push(HelpItem::Create);
        if allow_delete {
            items.push(HelpItem::DeleteIfExact);
        }
    } else if nothing_shown {
        items.push(HelpItem::CreateBranch);
        items.push(HelpItem::Edit);
    } else {
        items.push(HelpItem::Complete);
        items.push(HelpItem::Select);
        items.push(HelpItem::Create);
        if allow_delete && exact {
            items.push(HelpItem::Delete);
        }
        items.push(HelpItem::Edit);
    }
    items.push(HelpItem::Cancel);
    assert(items@ =~= help_items(allow_create, allow_delete, unfiltered, nothing_shown, exact));
    items
}

/// Deletion is never offered for a typed query without an exact match.
pub proof fn lemma_delete_offered_only_when_exact(
    allow_create: bool,
    allow_delete: bool,
    nothing_shown: bool,
    exact: bool,
)
    ensures
        help_items(allow_create, allow_delete, false, nothing_shown, exact).contains(HelpItem::Delete)
            ==> allow_delete && exact,
        !help_items(allow_create, allow_delete, false, nothing_shown, exact).contains(
            HelpItem::DeleteIfExact,
        ),
{
    let items = help_items(allow_create, allow_delete, false, nothing_shown, exact);
    if items.contains(HelpItem::Delete) {
        let i = choose|i: int| 0 <= i < items.len() && items[i] == HelpItem::Delete;
        assert(items[i] == HelpItem::Delete);
    }
    if items.contains(HelpItem::DeleteIfExact) {
        let i = choose|i: int| 0 <= i < items.len() && items[i] == HelpItem::DeleteIfExact;
        assert(items[i] == HelpItem::DeleteIfExact);
    }
}

/// The wording of one entry of the help line.
pub open spec fn help_item_text(lang: Language, item: HelpItem) -> Seq<char> {
    match item {
        HelpItem::Search => message(lang, MessageKey::HelpSearch),
        HelpItem::Complete => message(lang, MessageKey::HelpTab),
        HelpItem::Select => message(lang, MessageKey::HelpEnterSelect),
        HelpItem::Create => message(lang, MessageKey::HelpCtrlBCreate),
        HelpItem::CreateBranch => message(lang, MessageKey::HelpCreateNewBranch),
        HelpItem::Delete => message(lang, MessageKey::HelpCtrlXDelete),
        HelpItem::DeleteIfExact => message(lang, MessageKey::HelpCtrlXDelete) + seq![' '] + message(
            lang,
            MessageKey::HelpExactMatch,
        ),
        HelpItem::Edit => message(lang, MessageKey::HelpBackspace),
        HelpItem::Cancel => message(lang, MessageKey::HelpCancel),
    }
}

/// The wordings of the entries `items`.
pub open spec fn help_texts(lang: Language, items: Seq<HelpItem>) -> Seq<Seq<char>> {
    Seq::new(items.len(), |i: int| help_item_text(lang, items[i]))
}

/// The help line: the wordings of its entries with ` | ` between them.
pub open spec fn help_line_text(lang: Language, items: Seq<HelpItem>) -> Seq<char> {
    joined_with(help_texts(lang, items), " | "@)
}

/// Words one entry of the help line.
pub fn help_text(messages: &Messages, item: HelpItem) -> (text: String)
    ensures
        text@ == help_item_text(messages@, item),
{
    match item {
        HelpItem::Search => messages.help_search().to_owned(),
        HelpItem::Complete => messages.help_tab().to_owned(),
        HelpItem::Select => messages.help_enter_select().to_owned(),
        HelpItem::Create => messages.help_ctrl_b_create().to_owned(),
        HelpItem::CreateBranch => messages.help_create_new_branch().to_owned(),
        HelpItem::Delete => messages.help_ctrl_x_delete().to_owned(),
        HelpItem::DeleteIfExact => {
            let mut text = messages.help_ctrl_x_delete().to_owned();
            text.push(' ');
            text.append(messages.help_exact_match());
            text
        },
        HelpItem::Edit => messages.help_backspace().to_owned(),
        HelpItem::Cancel => messages.help_cancel().to_owned(),
    }
}

/// Words the help line.
pub fn help_line(messages: &Messages, items: &Vec<HelpItem>) -> (line: String)
    ensures
        line@ == help_line_text(messages@, items@),
{
    let ghost texts = help_texts(messages@, items@);
    let mut line = String::new();
    let mut i: usize = 0;
    while i < items.len()
        invariant
            i <= items.len(),
            texts == help_texts(messages@, items@),
            line@ == joined_with(texts.take(i as int), " | "@),
        decreases items.len() - i,
    {
        if i > 0 {
            line.append(" | ");
        }
        let text = help_text(messages, items[i]);
        line.append(text.as_str());
        proof {
            let upto = texts.take(i + 1);
            assert(upto.drop_last() == texts.take(i as int));
            assert(upto.last() == text@);
        }
        i += 1;
    }
    assert(texts.take(items.len() as int) == texts);
    line
}

} // verus!
