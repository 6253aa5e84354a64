//! The selection engine: the project list, a live fuzzy-ranked view of it for
//! the current query, and a cursor, driven one input event at a time.

use vstd::prelude::*;
use vstd::string::*;
use crate::fuzzy::{fuzzy_matches, lemma_fuzzy_match_narrows, skim_fuzzy_match, skim_score};
use crate::project::ProjectInfo;
use crate::text::{pop_char, push_char};

verus! {

/// The text a query is matched against: the name and the directory, joined
/// by a space.
pub open spec fn search_text(p: ProjectInfo) -> Seq<char> {
    p.name@ + seq![' '] + p.directory@
}

pub open spec fn is_match(ps: Seq<ProjectInfo>, q: Seq<char>, i: int) -> bool {
    fuzzy_matches(search_text(ps[i]), q)
}

pub open spec fn score_of(ps: Seq<ProjectInfo>, q: Seq<char>, i: int) -> i64 {
    skim_score(search_text(ps[i]), q).unwrap()
}

/// Project `i` is listed before project `j`: a higher score first, and the
/// earlier project first among equal scores.
pub open spec fn ranks_before(ps: Seq<ProjectInfo>, q: Seq<char>, i: int, j: int) -> bool {
    score_of(ps, q, i) > score_of(ps, q, j) || (score_of(ps, q, i) == score_of(ps, q, j) && i < j)
}

/// `f` lists exactly the projects that match `q`, each once, best first.
pub open spec fn is_ranking(ps: Seq<ProjectInfo>, q: Seq<char>, f: Seq<usize>) -> bool {
    &&& forall|k: int| 0 <= k < f.len() ==> (#[trigger] f[k]) < ps.len() && is_match(ps, q, f[k] as int)
    &&& forall|i: int| 0 <= i < ps.len() && is_match(ps, q, i) ==> f.contains(i as usize)
    &&& forall|a: int, b: int|
        0 <= a < b < f.len() ==> ranks_before(ps, q, #[trigger] f[a] as int, #[trigger] f[b] as int)
}

pub open spec fn identity(n: nat) -> Seq<usize> {
    Seq::new(n, |i: int| i as usize)
}

/// The filtered view for a query: every project in list order for an empty
/// query, else the ranking.
pub open spec fn filtered_for(ps: Seq<ProjectInfo>, q: Seq<char>, f: Seq<usize>) -> bool {
    if q.len() == 0 {
        f == identity(ps.len())
    } else {
        is_ranking(ps, q, f)
    }
}

/// What the engine holds, as mathematical values.
pub ghost struct SelectionState {
    pub projects: Seq<ProjectInfo>,
    pub selected: usize,
    pub search_active: bool,
    pub query: Seq<char>,
    pub filtered: Seq<usize>,
}

/// The engine's invariant: the view fits the query, and the cursor points
/// into the view whenever the view is non-empty.
pub open spec fn state_wf(s: SelectionState) -> bool {
    &&& filtered_for(s.projects, s.query, s.filtered)
    &&& s.projects.len() > 0 ==> s.selected < s.projects.len()
    &&& s.filtered.len() > 0 ==> s.filtered.contains(s.selected)
}

/// `after` is `before` with the view recomputed for `after.query`, and the
/// cursor moved to the first entry of the new view if it has one.
pub open spec fn reranked(before: SelectionState, after: SelectionState) -> bool {
    &&& after.projects == before.projects
    &&& after.search_active == before.search_active
    &&& filtered_for(after.projects, after.query, after.filtered)
    &&& after.selected == if after.filtered.len() > 0 {
        after.filtered[0]
    } else {
        before.selected
    }
}

/// The cursor moved one place forward in the view, wrapping at its end.
pub open spec fn moved_next(b: SelectionState, a: SelectionState) -> bool {
    &&& a == (SelectionState { selected: a.selected, ..b })
    &&& b.filtered.len() == 0 ==> a.selected == b.selected
    &&& b.filtered.len() > 0 ==> exists|k: int|
        0 <= k < b.filtered.len() && #[trigger] b.filtered[k] == b.selected && a.selected
            == b.filtered[(k + 1) % (b.filtered.len() as int)]
}

/// The cursor moved one place back in the view, wrapping at its start.
pub open spec fn moved_previous(b: SelectionState, a: SelectionState) -> bool {
    &&& a == (SelectionState { selected: a.selected, ..b })
    &&& b.filtered.len() == 0 ==> a.selected == b.selected
    &&& b.filtered.len() > 0 ==> exists|k: int|
        0 <= k < b.filtered.len() && #[trigger] b.filtered[k] == b.selected && a.selected
            == b.filtered[if k > 0 {
            k - 1
        } else {
            b.filtered.len() - 1
        }]
}

/// `c` was appended to the query, and the view re-ranked.
pub open spec fn typed(b: SelectionState, c: char, a: SelectionState) -> bool {
    a.query == b.query.push(c) && reranked(b, a)
}

/// The query lost its last character, if it had one, and the view was
/// re-ranked.
pub open spec fn backspaced(b: SelectionState, a: SelectionState) -> bool {
    &&& a.query == if b.query.len() > 0 {
        b.query.drop_last()
    } else {
        b.query
    }
    &&& reranked(b, a)
}

/// Searching stopped: the query is empty, every project is listed in order,
/// and the cursor is on the first one.
pub open spec fn search_exited(b: SelectionState, a: SelectionState) -> bool {
    a == (SelectionState {
        selected: if b.projects.len() > 0 {
            0
        } else {
            b.selected
        },
        search_active: false,
        query: Seq::empty(),
        filtered: identity(b.projects.len()),
        ..b
    })
}

/// What an event does to the state and which action follows, by mode: while
/// searching keys edit the query; otherwise they move, start a search, open or
/// quit.
pub open spec fn key_step(b: SelectionState, key: Key, a: SelectionState, r: Action) -> bool {
    if b.search_active {
        match key {
            Key::Esc => r == Action::Continue && search_exited(b, a),
            Key::Backspace => r == Action::Continue && backspaced(b, a),
            Key::Char { c, control: _ } => r == Action::Continue && typed(b, c, a),
            Key::Enter => r == Action::Open && a == b,
            _ => r == Action::Continue && a == b,
        }
    } else {
        match key {
            Key::Char { c: 'q', control: _ } | Key::Esc => r == Action::Quit && a == b,
            Key::Char { c: 'c', control: true } => r == Action::Quit && a == b,
            Key::Down | Key::Char { c: 'j', control: _ } => r == Action::Continue && moved_next(b, a),
            Key::Up | Key::Char { c: 'k', control: _ } => r == Action::Continue && moved_previous(
                b,
                a,
            ),
            Key::Char { c: '/', control: _ } => r == Action::Continue && a == (SelectionState {
                search_active: true,
                ..b
            }),
            Key::Enter => r == Action::Open && a == b,
            _ => r == Action::Continue && a == b,
        }
    }
}

/// An input event, as the engine sees it.
#[derive(Debug, Clone, Copy, PartialEq, Eq)]
pub enum Key {
    /// A character key; `control` is whether Ctrl was held.
    Char { c: char, control: bool },
    Esc,
    Backspace,
    Enter,
    Tab,
    Up,
    Down,
    Other,
}

/// What the event loop does after an event.
#[derive(Debug, Clone, Copy, PartialEq, Eq)]
pub enum Action {
    /// Redraw and wait for the next event.
    Continue,
    /// Leave without opening anything.
    Quit,
    /// Open the selected project, if there is one, and leave.
    Open,
}

pub struct App {
    projects: Vec<ProjectInfo>,
    selected: usize,
    search_active: bool,
    search_query: String,
    filtered_indices: Vec<usize>,
}

impl View for App {
    type V = SelectionState;

    closed spec fn view(&self) -> SelectionState {
        SelectionState {
            projects: self.projects@,
            selected: self.selected,
            search_active: self.search_active,
            query: self.search_query@,
            filtered: self.filtered_indices@,
        }
    }
}

proof fn lemma_identity_no_duplicates(n: nat)
    requires
        n <= usize::MAX,
    ensures
        identity(n).no_duplicates(),
{
    assert forall|a: int, b: int| 0 <= a < n && 0 <= b < n && a != b implies identity(n)[a]
        != identity(n)[b] by {
        assert(identity(n)[a] == a as usize);
        assert(identity(n)[b] == b as usize);
    }
}

proof fn lemma_ranking_no_duplicates(ps: Seq<ProjectInfo>, q: Seq<char>, f: Seq<usize>)
    requires
        is_ranking(ps, q, f),
    ensures
        f.no_duplicates(),
{
    assert forall|a: int, b: int| 0 <= a < f.len() && 0 <= b < f.len() && a != b implies f[a]
        != f[b] by {
        if a < b {
            assert(ranks_before(ps, q, f[a] as int, f[b] as int));
        } else {
            assert(ranks_before(ps, q, f[b] as int, f[a] as int));
        }
    }
}

fn identity_indices(n: usize) -> (r: Vec<usize>)
    ensures
        r@ == identity(n as nat),
{
    let mut r: Vec<usize> = Vec::new();
    let mut i: usize = 0;
    while i < n
        invariant
            i <= n,
            r@ =~= identity(i as nat),
        decreases n - i,
    {
        r.push(i);
        i = i + 1;
    }
    r
}

/// The projects that match `query`, best score first, ties in list order.
fn ranked_indices(projects: &Vec<ProjectInfo>, query: &String) -> (f: Vec<usize>)
    ensures
        is_ranking(projects@, query@, f@),
{
    let ghost ps = projects@;
    let ghost q = query@;
    let n = projects.len();
    let mut result: Vec<usize> = Vec::new();
    let mut scores: Vec<i64> = Vec::new();
    let mut i: usize = 0;
    proof {
        reveal_strlit(" ");
    }
    while i < n
        invariant
            n == ps.len(),
            ps == projects@,
            q == query@,
            i <= n,
            " "@ == seq![' '],
            result.len() == scores.len(),
            forall|k: int|
                0 <= k < result.len() ==> (#[trigger] result@[k]) < i && is_match(ps, q, result@[k] as int)
                    && skim_score(search_text(ps[result@[k] as int]), q) == Some(scores@[k]),
            forall|j: int| 0 <= j < i && is_match(ps, q, j) ==> result@.contains(j as usize),
            forall|a: int, b: int|
                0 <= a < b < result.len() ==> ranks_before(ps, q, #[trigger] result@[a] as int, #[trigger] result@[b] as int),
        decreases n - i,
    {
        let p = &projects[i];
        let mut text = p.name.clone();
        text.append(" ");
        text.append(p.directory.as_str());
        assert(text@ == search_text(ps[i as int]));
        match skim_fuzzy_match(text.as_str(), query.as_str()) {
            Some(s) => {
                let mut pos: usize = 0;
                while pos < scores.len() && scores[pos] >= s
                    invariant
                        pos <= scores.len(),
                        forall|k: int| 0 <= k < pos ==> scores@[k] >= s,
                    decreases scores.len() - pos,
                {
                    pos = pos + 1;
                }
                let ghost old_result = result@;
                let ghost old_scores = scores@;
                proof {
                    assert forall|k: int| pos <= k < old_result.len() implies old_scores[k] < s by {
                        if k > pos {
                            assert(ranks_before(ps, q, old_result[pos as int] as int, old_result[k] as int));
                        }
                    }
                }
                result.insert(pos, i);
                scores.insert(pos, s);
                proof {
                    assert forall|k: int| 0 <= k < result.len() implies (#[trigger] result@[k]) < i + 1
                        && is_match(ps, q, result@[k] as int) && skim_score(search_text(ps[result@[k] as int]), q)
                        == Some(scores@[k]) by {
                        if k > pos {
                            assert(result@[k] == old_result[k - 1]);
                            assert(scores@[k] == old_scores[k - 1]);
                        } else if k < pos {
                            assert(result@[k] == old_result[k]);
                        }
                    }
                    assert forall|j: int| 0 <= j < i + 1 && is_match(ps, q, j) implies result@.contains(j as usize) by {
                        if j < i {
                            let k = choose|k: int| 0 <= k < old_result.len() && old_result[k] == j as usize;
                            if k < pos {
                                assert(result@[k] == j as usize);
                            } else {
                                assert(result@[k + 1] == j as usize);
                            }
                        } else {
                            assert(result@[pos as int] == j as usize);
                        }
                    }
                    assert forall|a: int, b: int| 0 <= a < b < result.len() implies ranks_before(
                        ps, q, #[trigger] result@[a] as int, #[trigger] result@[b] as int) by {
                        let oa = if a < pos { a } else { a - 1 };
                        let ob = if b < pos { b } else { b - 1 };
                        if a == pos {
                            assert(result@[b] == old_result[ob]);
                            assert(old_scores[ob] < s);
                        } else if b == pos {
                            assert(result@[a] == old_result[oa]);
                            assert(old_scores[oa] >= s);
                        } else {
                            assert(result@[a] == old_result[oa]);
                            assert(result@[b] == old_result[ob]);
                            assert(oa < ob);
                        }
                    }
                }
            },
            None => {},
        }
        i = i + 1;
    }
    result
}

/// For a non-empty query every listed project matches it, and typing one
/// more character never lengthens the view: filtering only narrows.
pub proof fn lemma_filter_narrows(
    ps: Seq<ProjectInfo>,
    q: Seq<char>,
    c: char,
    before: Seq<usize>,
    after: Seq<usize>,
)
    requires
        filtered_for(ps, q, before),
        filtered_for(ps, q.push(c), after),
    ensures
        q.len() > 0 ==> forall|k: int| 0 <= k < before.len() ==> is_match(ps, q, #[trigger] before[k] as int),
        after.len() <= before.len(),
{
    let longer = q.push(c);
    lemma_ranking_no_duplicates(ps, longer, after);
    assert forall|x: usize| after.to_set().contains(x) implies before.to_set().contains(x) by {
        assert(longer.len() > 0);
        assert(after.contains(x));
        let k = choose|k: int| 0 <= k < after.len() && after[k] == x;
        assert(after[k] < ps.len() && is_match(ps, longer, after[k] as int));
        lemma_fuzzy_match_narrows(search_text(ps[x as int]), q, c);
        if q.len() == 0 {
            assert(before[x as int] == x);
        } else {
            assert(is_match(ps, q, x as int));
        }
        assert(before.contains(x));
    }
    after.unique_seq_to_set();
    before.lemma_cardinality_of_set();
    vstd::seq_lib::seq_to_set_is_finite(before);
    vstd::set_lib::lemma_len_subset(after.to_set(), before.to_set());
}

/// Two matching projects with equal scores are listed in the order in which
/// they stand in the project list.
pub proof fn lemma_ties_keep_list_order(
    ps: Seq<ProjectInfo>,
    q: Seq<char>,
    f: Seq<usize>,
    a: int,
    b: int,
)
    requires
        q.len() > 0,
        filtered_for(ps, q, f),
        0 <= a < f.len(),
        0 <= b < f.len(),
        score_of(ps, q, f[a] as int) == score_of(ps, q, f[b] as int),
        f[a] < f[b],
    ensures
        a < b,
{
    if b < a {
        assert(ranks_before(ps, q, f[b] as int, f[a] as int));
    }
}

impl App {
    pub open spec fn wf(&self) -> bool {
        state_wf(self@)
    }

    /// A fresh engine over `projects`: empty query, every project listed in
    /// order, the cursor on the first one, not searching.
    pub fn new(projects: Vec<ProjectInfo>) -> (r: App)
        ensures
            r.wf(),
            r@.projects == projects@,
            r@.selected == 0,
            !r@.search_active,
            r@.query.len() == 0,
            r@.filtered == identity(projects@.len()),
    {
        let indices = identity_indices(projects.len());
        proof {
            lemma_identity_no_duplicates(projects@.len());
            if projects@.len() > 0 {
                assert(indices@[0] == 0);
            }
        }
        App {
            projects,
            selected: 0,
            search_active: false,
            search_query: String::new(),
            filtered_indices: indices,
        }
    }

    /// Recomputes the view for the current query and moves the cursor to the
    /// first entry of the new view, if it has one.
    fn filter_projects(&mut self)
        requires
            old(self)@.projects.len() > 0 ==> old(self)@.selected < old(self)@.projects.len(),
        ensures
            final(self).wf(),
            reranked(old(self)@, final(self)@),
            final(self)@.query == old(self)@.query,
    {
        if self.search_query.unicode_len() == 0 {
            self.filtered_indices = identity_indices(self.projects.len());
            if self.projects.len() > 0 {
                self.selected = 0;
                proof {
                    assert(self.filtered_indices@[0] == 0);
                }
            }
            return;
        }
        let ranked = ranked_indices(&self.projects, &self.search_query);
        if ranked.len() > 0 {
            self.selected = ranked[0];
            proof {
                assert(ranked@[0] == self.selected);
            }
        }
        self.filtered_indices = ranked;
    }

    /// Moves the cursor to the next project in the view, wrapping from the
    /// last to the first; does nothing on an empty view.
    pub fn next(&mut self)
        requires
            old(self).wf(),
        ensures
            final(self).wf(),
            moved_next(old(self)@, final(self)@),
    {
        let n = self.filtered_indices.len();
        if n > 0 {
            let pos = self.position_of_selected();
            let next_pos = (pos + 1) % n;
            self.selected = self.filtered_indices[next_pos];
        }
    }

    /// Moves the cursor to the previous project in the view, wrapping from the
    /// first to the last; does nothing on an empty view.
    pub fn previous(&mut self)
        requires
            old(self).wf(),
        ensures
            final(self).wf(),
            moved_previous(old(self)@, final(self)@),
    {
        let n = self.filtered_indices.len();
        if n > 0 {
            let pos = self.position_of_selected();
            let prev_pos = if pos > 0 {
                pos - 1
            } else {
                n - 1
            };
            self.selected = self.filtered_indices[prev_pos];
        }
    }

    /// Where the cursor stands in the view.
    fn position_of_selected(&self) -> (pos: usize)
        requires
            self.wf(),
            self@.filtered.len() > 0,
        ensures
            pos < self@.filtered.len(),
            self@.filtered[pos as int] == self@.selected,
    {
        let n = self.filtered_indices.len();
        let mut i: usize = 0;
        while i < n
            invariant
                n == self@.filtered.len(),
                i <= n,
                self@.filtered.contains(self@.selected),
                forall|k: int| 0 <= k < i ==> self@.filtered[k] != self@.selected,
            decreases n - i,
        {
            if self.filtered_indices[i] == self.selected {
                return i;
            }
            i = i + 1;
        }
        proof {
            let k = choose|k: int| 0 <= k < n && self@.filtered[k] == self@.selected;
            assert(self@.filtered[k] != self@.selected);
        }
        0
    }

    /// Appends `c` to the query and re-ranks.
    pub fn update_search(&mut self, c: char)
        requires
            old(self).wf(),
        ensures
            final(self).wf(),
            typed(old(self)@, c, final(self)@),
    {
        push_char(&mut self.search_query, c);
        self.filter_projects();
    }

    /// Removes the last character of the query, if any, and re-ranks.
    pub fn backspace_search(&mut self)
        requires
            old(self).wf(),
        ensures
            final(self).wf(),
            backspaced(old(self)@, final(self)@),
    {
        let _ = pop_char(&mut self.search_query);
        self.filter_projects();
    }

    /// Starts interpreting keys as search input; the query is kept.
    pub fn enter_search(&mut self)
        requires
            old(self).wf(),
        ensures
            final(self).wf(),
            final(self)@ == (SelectionState { search_active: true, ..old(self)@ }),
    {
        self.search_active = true;
    }

    /// Stops searching: clears the query, which restores every project in
    /// list order.
    pub fn exit_search(&mut self)
        requires
            old(self).wf(),
        ensures
            final(self).wf(),
            search_exited(old(self)@, final(self)@),
    {
        self.search_active = false;
        self.search_query = String::new();
        self.filter_projects();
        proof {
            assert(self@.query =~= Seq::<char>::empty());
        }
    }

    /// The project under the cursor; none while the view is empty.
    pub fn selected_project(&self) -> (r: Option<&ProjectInfo>)
        requires
            self.wf(),
        ensures
            self@.filtered.len() == 0 ==> r.is_none(),
            self@.filtered.len() > 0 ==> r == Some(&self@.projects[self@.selected as int]),
    {
        if self.filtered_indices.len() == 0 {
            None
        } else {
            proof {
                let k = choose|k: int| 0 <= k < self@.filtered.len() && self@.filtered[k] == self@.selected;
                if self@.query.len() == 0 {
                    assert(self@.filtered[k] == k as usize);
                }
            }
            Some(&self.projects[self.selected])
        }
    }

    /// Applies one input event and says what the event loop does next.
    pub fn handle_key(&mut self, key: Key) -> (r: Action)
        requires
            old(self).wf(),
        ensures
            final(self).wf(),
            key_step(old(self)@, key, final(self)@, r),
    {
        if self.search_active {
            match key {
                Key::Esc => {
                    self.exit_search();
                    Action::Continue
                },
                Key::Backspace => {
                    self.backspace_search();
                    Action::Continue
                },
                Key::Char { c, control: _ } => {
                    self.update_search(c);
                    Action::Continue
                },
                Key::Enter => Action::Open,
                _ => Action::Continue,
            }
        } else {
            match key {
                Key::Char { c: 'q', control: _ } | Key::Esc => Action::Quit,
                Key::Char { c: 'c', control: true } => Action::Quit,
                Key::Down | Key::Char { c: 'j', control: _ } => {
                    self.next();
                    Action::Continue
                },
                Key::Up | Key::Char { c: 'k', control: _ } => {
                    self.previous();
                    Action::Continue
                },
                Key::Char { c: '/', control: _ } => {
                    self.enter_search();
                    Action::Continue
                },
                Key::Enter => Action::Open,
                _ => Action::Continue,
            }
        }
    }

    pub fn projects(&self) -> (r: &Vec<ProjectInfo>)
        ensures
            r@ == self@.projects,
    {
        &self.projects
    }

    pub fn selected(&self) -> (r: usize)
        ensures
            r == self@.selected,
    {
        self.selected
    }

    pub fn search_active(&self) -> (r: bool)
        ensures
            r == self@.search_active,
    {
        self.search_active
    }

    pub fn search_query(&self) -> (r: &str)
        ensures
            r@ == self@.query,
    {
        self.search_query.as_str()
    }

    pub fn filtered_indices(&self) -> (r: &Vec<usize>)
        ensures
            r@ == self@.filtered,
    {
        &self.filtered_indices
    }
}

} // verus!
