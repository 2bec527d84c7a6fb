//! The rows of the queue table.

use crate::config::Texts;
use crate::player::{current_track, playing_pos, spec_current_track, Status, Track};
use crate::style::Style;
use crate::text::{flatten, views, Fragment};
use vstd::prelude::*;

verus! {

/// What a render pass sees besides the layout: the player, the queue, the search and the
/// selection cursor.
pub struct Scene {
    pub status: Status,
    pub queue: Seq<Track>,
    pub searching: bool,
    pub query: Seq<char>,
    pub filtered: Seq<usize>,
    pub selected: Option<usize>,
}

impl Scene {
    /// The scene that the arguments of a render pass describe.
    pub open spec fn of(
        queue: Seq<Track>,
        searching: bool,
        query: Seq<char>,
        filtered: Seq<usize>,
        status: &Status,
        selected: Option<usize>,
    ) -> Scene {
        Scene { status: *status, queue, searching, query, filtered, selected }
    }

    /// While the query is not empty, every filtered index is a position of the queue.
    pub open spec fn wf(self) -> bool {
        self.query.len() > 0 ==> forall|k: int|
            0 <= k < self.filtered.len() ==> #[trigger] self.filtered[k] < self.queue.len()
    }

    /// The queue positions to draw, in order: the whole queue while the query is empty,
    /// otherwise the filtered positions as they are stored.
    pub open spec fn row_indices(self) -> Seq<usize> {
        if self.query.len() == 0 {
            Seq::new(self.queue.len(), |i: int| i as usize)
        } else {
            self.filtered
        }
    }

    /// The fragments of a text box.
    pub open spec fn text(self, texts: &Texts) -> Seq<(Seq<char>, Style)> {
        box_fragments(texts, self.queue, self.searching, self.query, &self.status)
    }

    /// The fragments of the row for queue position `i`.
    pub open spec fn row(self, texts: &Texts, i: usize) -> Seq<(Seq<char>, Style)> {
        row_fragments(
            texts,
            self.queue,
            self.searching,
            self.query,
            &self.status,
            self.selected,
            i,
        )
    }

    /// The rows of one column, one for each queue position to draw.
    pub open spec fn rows(self, texts: &Texts) -> Seq<Seq<(Seq<char>, Style)>> {
        Seq::new(self.row_indices().len(), |k: int| self.row(texts, self.row_indices()[k]))
    }
}

/// The fragments of a template in a text box: no row is bound, and the current track is
/// the one at the playing position.
pub open spec fn box_fragments(
    texts: &Texts,
    queue: Seq<Track>,
    searching: bool,
    query: Seq<char>,
    status: &Status,
) -> Seq<(Seq<char>, Style)> {
    texts.fragments(
        status,
        spec_current_track(status, queue),
        None,
        false,
        false,
        searching,
        query,
        Style::plain(),
    )
}

/// The fragments of a template in the row for queue position `i`: that track is bound,
/// the row is current when `i` plays and selected when the cursor is at `i`.
pub open spec fn row_fragments(
    texts: &Texts,
    queue: Seq<Track>,
    searching: bool,
    query: Seq<char>,
    status: &Status,
    selected: Option<usize>,
    i: usize,
) -> Seq<(Seq<char>, Style)> {
    texts.fragments(
        status,
        spec_current_track(status, queue),
        Some(&queue[i as int]),
        playing_pos(status) == Some(i),
        selected == Some(i),
        searching,
        query,
        Style::plain(),
    )
}

/// The characters and styles of each row, in order.
pub open spec fn row_views(rows: Seq<Vec<Fragment>>) -> Seq<Seq<(Seq<char>, Style)>> {
    Seq::new(rows.len(), |k: int| views(rows[k]@))
}

fn is_at(pos: Option<usize>, i: usize) -> (r: bool)
    ensures
        r == (pos == Some(i)),
{
    match pos {
        Some(p) => p == i,
        None => false,
    }
}

fn position(status: &Status) -> (r: Option<usize>)
    ensures
        r == playing_pos(status),
{
    match status.song {
        Some(song) => Some(song.pos),
        None => None,
    }
}

/// Evaluates the template of a column for the row of queue position `i`.
pub fn queue_row(
    txts: &Texts,
    queue: &[Track],
    searching: bool,
    query: &str,
    status: &Status,
    selected: Option<usize>,
    i: usize,
) -> (row: Vec<Fragment>)
    requires
        i < queue@.len(),
    ensures
        views(row@) == row_fragments(txts, queue@, searching, query@, status, selected, i),
{
    let mut spans: Vec<Fragment> = Vec::new();
    flatten(
        &mut spans,
        txts,
        status,
        current_track(status, queue),
        Some(&queue[i]),
        is_at(position(status), i),
        is_at(selected, i),
        searching,
        query,
        Style::default(),
    );
    assert(spans@.skip(0) =~= spans@);
    spans
}

/// Evaluates the template of a column once for each queue position to draw.
pub fn queue_rows(
    txts: &Texts,
    queue: &[Track],
    searching: bool,
    query: &str,
    filtered: &[usize],
    status: &Status,
    selected: Option<usize>,
) -> (items: Vec<Vec<Fragment>>)
    requires
        Scene::of(queue@, searching, query@, filtered@, status, selected).wf(),
    ensures
        row_views(items@) == Scene::of(queue@, searching, query@, filtered@, status, selected).rows(
            txts,
        ),
{
    let ghost scene = Scene::of(queue@, searching, query@, filtered@, status, selected);
    let mut items: Vec<Vec<Fragment>> = Vec::new();
    if query.is_empty() {
        let mut i: usize = 0;
        while i < queue.len()
            invariant
                i <= queue.len(),
                query@.len() == 0,
                scene == Scene::of(queue@, searching, query@, filtered@, status, selected),
                items@.len() == i,
                forall|k: int| 0 <= k < i ==> views(#[trigger] items@[k]@) == scene.row(txts, k as usize),
            decreases queue.len() - i,
        {
            items.push(queue_row(txts, queue, searching, query, status, selected, i));
            i += 1;
        }
    } else {
        let mut k: usize = 0;
        while k < filtered.len()
            invariant
                k <= filtered.len(),
                query@.len() != 0,
                scene == Scene::of(queue@, searching, query@, filtered@, status, selected),
                scene.wf(),
                items@.len() == k,
                forall|j: int| 0 <= j < k ==> views(#[trigger] items@[j]@) == scene.row(txts, filtered@[j]),
            decreases filtered.len() - k,
        {
            assert(scene.filtered[k as int] < scene.queue.len());
            items.push(queue_row(txts, queue, searching, query, status, selected, filtered[k]));
            k += 1;
        }
    }
    assert(row_views(items@) =~= scene.rows(txts));
    items
}

} // verus!
