//! The state that the application keeps between render passes: the player snapshot, the
//! selection cursor and the search.

use crate::player::{playing_pos, Status, Track};
use vstd::prelude::*;

verus! {

/// What the user can ask for.
#[derive(Clone, Copy, Debug, PartialEq, Eq)]
pub enum Command {
    Quit,
    ToggleRepeat,
    ToggleRandom,
    ToggleSingle,
    ToggleOneshot,
    ToggleConsume,
    TogglePause,
    Stop,
    SeekBackwards,
    SeekForwards,
    Previous,
    Next,
    Play,
    Reselect,
    Down,
    Up,
    JumpDown,
    JumpUp,
    GotoTop,
    GotoBottom,
    InputSearch(char),
    BackspaceSearch,
    QuitSearch,
    Searching(bool),
}

/// The cursor of the queue table: the selected row and the first row in view.
#[derive(Clone, Copy, Debug, PartialEq, Eq)]
pub struct ListState {
    pub offset: usize,
    pub selected: Option<usize>,
}

impl ListState {
    /// The selected row, if any.
    pub fn selected(&self) -> (r: Option<usize>)
        ensures
            r == self.selected,
    {
        self.selected
    }

    /// Selects a row, or none; selecting none also scrolls back to the top.
    pub fn select(&mut self, index: Option<usize>)
        ensures
            final(self).selected == index,
            final(self).offset == if index is None {
                0
            } else {
                old(self).offset
            },
    {
        self.selected = index;
        if index.is_none() {
            self.offset = 0;
        }
    }
}

impl Default for ListState {
    fn default() -> (r: ListState)
        ensures
            r == (ListState { offset: 0, selected: None }),
    {
        ListState { offset: 0, selected: None }
    }
}

/// The application state.
#[derive(Clone, Debug, PartialEq, Eq)]
pub struct State {
    pub status: Status,
    pub queue: Vec<Track>,
    pub selected: usize,
    pub liststate: ListState,
    pub searching: bool,
    pub query: String,
    pub filtered: Vec<usize>,
}

/// Does `needle` occur in `hay` as a run of consecutive characters?
pub open spec fn is_infix(needle: Seq<char>, hay: Seq<char>) -> bool {
    exists|k: int|
        0 <= k && k + needle.len() <= hay.len() && #[trigger] hay.subrange(k, k + needle.len())
            == needle
}

/// The lowercase form of a text, as `str::to_lowercase` of the standard library gives it.
pub uninterp spec fn lowercase(s: Seq<char>) -> Seq<char>;

/// Among the first `n` strings, the positions of those in which `needle` occurs, in
/// increasing order.
pub open spec fn matching(strings: Seq<String>, needle: Seq<char>, n: nat) -> Seq<usize>
    decreases n,
{
    if n == 0 || n > strings.len() {
        seq![]
    } else if is_infix(needle, strings[n - 1]@) {
        matching(strings, needle, (n - 1) as nat).push((n - 1) as usize)
    } else {
        matching(strings, needle, (n - 1) as nat)
    }
}

/// Calls `str::contains` with a string as the pattern: whether the pattern occurs in the
/// text as a run of consecutive characters.
#[verifier::external_body]
fn contains(hay: &str, needle: &str) -> (r: bool)
    ensures
        r == is_infix(needle@, hay@),
{
    hay.contains(needle)
}

/// Calls `str::to_lowercase`.
#[verifier::external_body]
fn to_lowercase(s: &str) -> (r: String)
    ensures
        r@ == lowercase(s@),
{
    s.to_lowercase()
}

/// The positions of the strings in which `needle` occurs, in increasing order.
pub fn search(queue_strings: &[String], needle: &str) -> (found: Vec<usize>)
    ensures
        found@ == matching(queue_strings@, needle@, queue_strings@.len()),
{
    let mut found: Vec<usize> = Vec::new();
    let mut i: usize = 0;
    while i < queue_strings.len()
        invariant
            i <= queue_strings@.len(),
            found@ == matching(queue_strings@, needle@, i as nat),
        decreases queue_strings.len() - i,
    {
        if contains(queue_strings[i].as_str(), needle) {
            found.push(i);
        }
        i += 1;
    }
    found
}

impl State {
    /// The position that `reselect` moves the cursor to: the one that plays, or the top.
    pub open spec fn home(&self) -> usize {
        match playing_pos(&self.status) {
            Some(pos) => pos,
            None => 0,
        }
    }

    /// Moves the selection cursor to `x`.
    pub fn select(&mut self, x: usize)
        ensures
            final(self).selected == x,
            final(self).liststate.selected == Some(x),
            final(self).liststate.offset == old(self).liststate.offset,
            final(self).status == old(self).status,
            final(self).queue == old(self).queue,
            final(self).searching == old(self).searching,
            final(self).query == old(self).query,
            final(self).filtered == old(self).filtered,
    {
        self.selected = x;
        self.liststate.select(Some(x));
    }

    /// Moves the selection cursor to the position that plays, or to the top when nothing
    /// plays.
    pub fn reselect(&mut self)
        ensures
            final(self).selected == old(self).home(),
            final(self).liststate.selected == Some(old(self).home()),
            final(self).liststate.offset == old(self).liststate.offset,
            final(self).status == old(self).status,
            final(self).queue == old(self).queue,
            final(self).searching == old(self).searching,
            final(self).query == old(self).query,
            final(self).filtered == old(self).filtered,
    {
        let pos = match self.status.song {
            Some(song) => song.pos,
            None => 0,
        };
        self.select(pos);
    }

    /// The number of rows on show: the whole queue while the query is empty, otherwise the
    /// filtered positions.
    pub fn len(&self) -> (n: usize)
        ensures
            n == if self.query@.len() == 0 {
                self.queue@.len()
            } else {
                self.filtered@.len()
            },
    {
        if self.query.as_str().is_empty() {
            self.queue.len()
        } else {
            self.filtered.len()
        }
    }

    /// Recomputes the filtered positions: those of the strings in which the lowercase
    /// query occurs, in queue order. The cursor goes to the top and the view scrolls back.
    pub fn update_search(&mut self, queue_strings: &[String])
        ensures
            final(self).filtered@ == matching(
                queue_strings@,
                lowercase(old(self).query@),
                queue_strings@.len(),
            ),
            forall|k: int|
                0 <= k < final(self).filtered@.len() ==> #[trigger] final(self).filtered@[k]
                    < queue_strings@.len(),
            final(self).selected == 0,
            final(self).liststate == (ListState { offset: 0, selected: Some(0) }),
            final(self).status == old(self).status,
            final(self).queue == old(self).queue,
            final(self).searching == old(self).searching,
            final(self).query == old(self).query,
    {
        let query = to_lowercase(self.query.as_str());
        let count = queue_strings.len();
        self.filtered = search(queue_strings, query.as_str());
        proof {
            lemma_matching_sorted(queue_strings@, query@, count as nat);
        }
        self.liststate.select(None);
        self.select(0);
    }

    /// Leaves the search: the query is cleared, and the cursor goes to the position that
    /// plays, or to the top when nothing plays.
    pub fn quit_search(&mut self)
        ensures
            !final(self).searching,
            final(self).query@.len() == 0,
            final(self).selected == old(self).home(),
            final(self).liststate.selected == Some(old(self).home()),
            final(self).liststate.offset == old(self).liststate.offset,
            final(self).status == old(self).status,
            final(self).queue == old(self).queue,
            final(self).filtered == old(self).filtered,
    {
        self.searching = false;
        if !self.query.as_str().is_empty() {
            self.query = String::new();
        }
        self.reselect();
    }
}

/// The positions found are below `n` and increase strictly.
pub proof fn lemma_matching_sorted(strings: Seq<String>, needle: Seq<char>, n: nat)
    requires
        n <= strings.len(),
        n <= usize::MAX,
    ensures
        forall|k: int|
            0 <= k < matching(strings, needle, n).len() ==> #[trigger] matching(
                strings,
                needle,
                n,
            )[k] < n,
        forall|j: int, k: int|
            0 <= j < k < matching(strings, needle, n).len() ==> matching(strings, needle, n)[j]
                < matching(strings, needle, n)[k],
    decreases n,
{
    if n > 0 {
        lemma_matching_sorted(strings, needle, (n - 1) as nat);
        let before = matching(strings, needle, (n - 1) as nat);
        let found = matching(strings, needle, n);
        assert forall|k: int| 0 <= k < found.len() implies #[trigger] found[k] < n by {
            if k < before.len() {
                assert(found[k] == before[k]);
            }
        }
        assert forall|j: int, k: int| 0 <= j < k < found.len() implies found[j] < found[k] by {
            assert(found[j] == before[j]);
            if k < before.len() {
                assert(found[k] == before[k]);
            }
        }
    }
}

/// A position below `n` is found if and only if `needle` occurs in its string.
pub proof fn lemma_matching_complete(strings: Seq<String>, needle: Seq<char>, n: nat, i: usize)
    requires
        n <= strings.len(),
        n <= usize::MAX,
    ensures
        matching(strings, needle, n).contains(i) <==> i < n && is_infix(needle, strings[i as int]@),
    decreases n,
{
    if n > 0 {
        let before = matching(strings, needle, (n - 1) as nat);
        lemma_matching_complete(strings, needle, (n - 1) as nat, i);
        if is_infix(needle, strings[n - 1]@) {
            let last = (n - 1) as usize;
            let found = before.push(last);
            assert(found[found.len() - 1] == last);
            if before.contains(i) {
                let k = choose|k: int| 0 <= k < before.len() && before[k] == i;
                assert(found[k] == i);
            }
            if found.contains(i) {
                let k = choose|k: int| 0 <= k < found.len() && found[k] == i;
                if k < before.len() {
                    assert(before[k] == i);
                }
            }
        }
    }
}

/// The empty text occurs in every text.
pub proof fn lemma_empty_is_infix(hay: Seq<char>)
    ensures
        is_infix(Seq::<char>::empty(), hay),
{
    let needle = Seq::<char>::empty();
    assert(hay.subrange(0, 0 + needle.len() as int) =~= needle);
}

} // verus!
