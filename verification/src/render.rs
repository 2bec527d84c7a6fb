//! The render plan: which styled text goes into which region.

use crate::config::{Column, Constrained, Texts, Widget};
use crate::layout::{
    lemma_splits_enclosed, ratio_sum, ratios_fit, solve, splits, Direction, Policy, Rect,
};
use crate::player::{current_track, Status, Track};
use crate::queue::{box_fragments, queue_rows, row_views, Scene};
use crate::state::ListState;
use crate::style::{patch_style, Style};
use crate::text::{flatten, views, Fragment};
use vstd::prelude::*;

verus! {

/// How a line of text sits in its region.
#[derive(Clone, Copy, Debug, PartialEq, Eq)]
pub enum Alignment {
    Left,
    Center,
    Right,
}

/// What is drawn in one region.
#[derive(Clone, Debug, PartialEq, Eq)]
pub enum Content {
    /// One line of text.
    Paragraph { spans: Vec<Fragment>, alignment: Alignment },
    /// One column of the queue table: a row of text for each queue position drawn, the
    /// style of the column, and the style that marks the selected row. The primary column
    /// owns the cursor of the table; the others mirror it.
    List { items: Vec<Vec<Fragment>>, style: Style, highlight_style: Style, primary: bool },
}

/// A region and what is drawn in it.
#[derive(Clone, Debug, PartialEq, Eq)]
pub struct Block {
    pub area: Rect,
    pub content: Content,
}

/// The characters and styles of a [`Content`].
pub enum ContentView {
    Paragraph { spans: Seq<(Seq<char>, Style)>, alignment: Alignment },
    List {
        items: Seq<Seq<(Seq<char>, Style)>>,
        style: Style,
        highlight_style: Style,
        primary: bool,
    },
}

impl View for Content {
    type V = ContentView;

    open spec fn view(&self) -> ContentView {
        match self {
            Content::Paragraph { spans, alignment } => ContentView::Paragraph {
                spans: views(spans@),
                alignment: *alignment,
            },
            Content::List { items, style, highlight_style, primary } => ContentView::List {
                items: row_views(items@),
                style: *style,
                highlight_style: *highlight_style,
                primary: *primary,
            },
        }
    }
}

impl View for Block {
    type V = (Rect, ContentView);

    open spec fn view(&self) -> (Rect, ContentView) {
        (self.area, self.content@)
    }
}

/// The region and the content of each block, in order.
pub open spec fn block_views(blocks: Seq<Block>) -> Seq<(Rect, ContentView)> {
    Seq::new(blocks.len(), |i: int| blocks[i]@)
}

/// The regions of the blocks, in order.
pub open spec fn areas(blocks: Seq<(Rect, ContentView)>) -> Seq<Rect> {
    Seq::new(blocks.len(), |i: int| blocks[i].0)
}

/// The sizing policies of the children, in order.
pub open spec fn policies_of<T>(xs: Seq<Constrained<T>>) -> Seq<Policy> {
    Seq::new(xs.len(), |i: int| xs[i].spec_policy())
}

/// The sizing policies of the columns, in order.
pub open spec fn column_policies(columns: Seq<Column>) -> Seq<Policy> {
    Seq::new(columns.len(), |i: int| columns[i].item.spec_policy())
}

/// What column `k` of the queue table shows.
pub open spec fn column_content(scene: Scene, column: &Column, k: int) -> ContentView {
    ContentView::List {
        items: scene.rows(column.item.spec_inner()),
        style: Style::plain().patched(column.style@),
        highlight_style: Style::plain().patched(column.selected_style@),
        primary: k == 0,
    }
}

/// The one block of a text box: all of `size`, with the given fragments.
pub open spec fn text_block(
    size: Rect,
    spans: Seq<(Seq<char>, Style)>,
    alignment: Alignment,
) -> Seq<(Rect, ContentView)> {
    seq![(size, ContentView::Paragraph { spans, alignment })]
}

/// The one block of a text box in a scene.
pub open spec fn paragraph(size: Rect, scene: Scene, texts: &Texts, alignment: Alignment) -> Seq<
    (Rect, ContentView),
> {
    text_block(size, scene.text(texts), alignment)
}

impl Widget {
    /// At every node the ratio weights of the children sum to at most `u32::MAX`.
    pub open spec fn wf(&self) -> bool
        decreases self, 0nat,
    {
        match self {
            Widget::Rows(xs) => ratio_sum(policies_of(xs@)) <= u32::MAX && children_wf(
                xs@,
                xs@.len(),
            ),
            Widget::Columns(xs) => ratio_sum(policies_of(xs@)) <= u32::MAX && children_wf(
                xs@,
                xs@.len(),
            ),
            Widget::Queue(columns) => ratio_sum(column_policies(columns@)) <= u32::MAX,
            _ => true,
        }
    }

    /// `blocks` is a plan for the widget in `size`.
    ///
    /// A text box is one block that takes all of `size`. The children of rows and columns
    /// are drawn one after the other, child `i` in region `i` of regions that split `size`
    /// along the axis by the children's policies. The columns of the queue table take
    /// regions that split `size` from left to right by the columns' policies; with an empty
    /// queue none is drawn.
    pub open spec fn renders(&self, size: Rect, scene: Scene, blocks: Seq<(Rect, ContentView)>) -> bool
        decreases self, 0nat,
    {
        match self {
            Widget::Rows(xs) => exists|chunks: Seq<Rect>|
                {
                    &&& #[trigger] splits(size, Direction::Vertical, policies_of(xs@), chunks)
                    &&& children_render(xs@, xs@.len(), chunks, scene, blocks)
                },
            Widget::Columns(xs) => exists|chunks: Seq<Rect>|
                {
                    &&& #[trigger] splits(size, Direction::Horizontal, policies_of(xs@), chunks)
                    &&& children_render(xs@, xs@.len(), chunks, scene, blocks)
                },
            Widget::Textbox(texts) => blocks == paragraph(size, scene, texts, Alignment::Left),
            Widget::TextboxC(texts) => blocks == paragraph(size, scene, texts, Alignment::Center),
            Widget::TextboxR(texts) => blocks == paragraph(size, scene, texts, Alignment::Right),
            Widget::Queue(columns) => if scene.queue.len() == 0 {
                blocks.len() == 0
            } else {
                &&& blocks.len() == columns@.len()
                &&& splits(size, Direction::Horizontal, column_policies(columns@), areas(blocks))
                &&& forall|k: int|
                    0 <= k < columns@.len() ==> (#[trigger] blocks[k]).1 == column_content(
                        scene,
                        &columns@[k],
                        k,
                    )
            },
        }
    }
}

/// The first `n` children are well-formed.
pub open spec fn children_wf(xs: Seq<Constrained<Widget>>, n: nat) -> bool
    decreases xs, n,
{
    if n == 0 || n > xs.len() {
        true
    } else {
        children_wf(xs, (n - 1) as nat) && match xs[n - 1] {
            Constrained::Fixed(_, w) => w.wf(),
            Constrained::Max(_, w) => w.wf(),
            Constrained::Min(_, w) => w.wf(),
            Constrained::Ratio(_, w) => w.wf(),
        }
    }
}

/// `blocks` is, one after the other, a plan for each of the first `n` children, child `i`
/// in `chunks[i]`.
pub open spec fn children_render(
    xs: Seq<Constrained<Widget>>,
    n: nat,
    chunks: Seq<Rect>,
    scene: Scene,
    blocks: Seq<(Rect, ContentView)>,
) -> bool
    decreases xs, n,
{
    if n == 0 || n > xs.len() {
        blocks.len() == 0
    } else {
        exists|cut: int|
            {
                &&& 0 <= cut <= blocks.len()
                &&& children_render(xs, (n - 1) as nat, chunks, scene, #[trigger] blocks.take(cut))
                &&& match xs[n - 1] {
                    Constrained::Fixed(_, w) => w.renders(chunks[n - 1], scene, blocks.skip(cut)),
                    Constrained::Max(_, w) => w.renders(chunks[n - 1], scene, blocks.skip(cut)),
                    Constrained::Min(_, w) => w.renders(chunks[n - 1], scene, blocks.skip(cut)),
                    Constrained::Ratio(_, w) => w.renders(chunks[n - 1], scene, blocks.skip(cut)),
                }
            }
    }
}

/// `after` is `before` with a plan for `widget` in `size` appended.
pub open spec fn rendered(
    before: Seq<Block>,
    after: Seq<Block>,
    widget: &Widget,
    size: Rect,
    scene: Scene,
) -> bool {
    &&& before.len() <= after.len()
    &&& after.take(before.len() as int) == before
    &&& widget.renders(size, scene, block_views(after.skip(before.len() as int)))
}

/// Each of the first `n` children is well-formed.
pub proof fn lemma_children_wf(xs: Seq<Constrained<Widget>>, n: nat, i: int)
    requires
        children_wf(xs, n),
        0 <= i < n <= xs.len(),
    ensures
        xs[i].spec_inner().wf(),
    decreases n,
{
    if i < n - 1 {
        lemma_children_wf(xs, (n - 1) as nat, i);
    }
}

/// A plan for the first `n` children followed by a plan for child `n` is a plan for the
/// first `n + 1` children.
pub proof fn lemma_children_render_next(
    xs: Seq<Constrained<Widget>>,
    n: nat,
    chunks: Seq<Rect>,
    scene: Scene,
    head: Seq<(Rect, ContentView)>,
    tail: Seq<(Rect, ContentView)>,
)
    requires
        n < xs.len(),
        chunks.len() == xs.len(),
        children_render(xs, n, chunks, scene, head),
        xs[n as int].spec_inner().renders(chunks[n as int], scene, tail),
    ensures
        children_render(xs, n + 1, chunks, scene, head + tail),
{
    let all = head + tail;
    let cut = head.len() as int;
    assert(all.take(cut) =~= head);
    assert(all.skip(cut) =~= tail);
}

fn sizing(xs: &Vec<Constrained<Widget>>) -> (r: Vec<Policy>)
    ensures
        r@ == policies_of(xs@),
{
    let mut r: Vec<Policy> = Vec::new();
    let mut i: usize = 0;
    while i < xs.len()
        invariant
            i <= xs.len(),
            r@ == policies_of(xs@).take(i as int),
        decreases xs.len() - i,
    {
        r.push(xs[i].policy());
        assert(r@ =~= policies_of(xs@).take(i + 1));
        i += 1;
    }
    assert(r@ =~= policies_of(xs@));
    r
}

fn column_sizing(columns: &Vec<Column>) -> (r: Vec<Policy>)
    ensures
        r@ == column_policies(columns@),
{
    let mut r: Vec<Policy> = Vec::new();
    let mut i: usize = 0;
    while i < columns.len()
        invariant
            i <= columns.len(),
            r@ == column_policies(columns@).take(i as int),
        decreases columns.len() - i,
    {
        r.push(columns[i].item.policy());
        assert(r@ =~= column_policies(columns@).take(i + 1));
        i += 1;
    }
    assert(r@ =~= column_policies(columns@));
    r
}

/// Appends the one block of a text box: the template evaluated with no row bound, in all
/// of `size`.
pub fn render_text(
    plan: &mut Vec<Block>,
    size: Rect,
    texts: &Texts,
    alignment: Alignment,
    queue: &[Track],
    searching: bool,
    query: &str,
    status: &Status,
)
    ensures
        final(plan)@.len() == old(plan)@.len() + 1,
        final(plan)@.take(old(plan)@.len() as int) == old(plan)@,
        block_views(final(plan)@.skip(old(plan)@.len() as int)) == text_block(
            size,
            box_fragments(texts, queue@, searching, query@, status),
            alignment,
        ),
{
    let mut spans: Vec<Fragment> = Vec::new();
    flatten(
        &mut spans,
        texts,
        status,
        current_track(status, queue),
        None,
        false,
        false,
        searching,
        query,
        Style::default(),
    );
    assert(spans@.skip(0) =~= spans@);
    plan.push(Block { area: size, content: Content::Paragraph { spans, alignment } });
    assert(plan@.take(old(plan)@.len() as int) =~= old(plan)@);
    assert(block_views(plan@.skip(old(plan)@.len() as int)) =~= text_block(
        size,
        box_fragments(texts, queue@, searching, query@, status),
        alignment,
    ));
}

/// Appends one block for each column of the queue table, from left to right; with an
/// empty queue it appends nothing.
pub fn render_queue(
    plan: &mut Vec<Block>,
    size: Rect,
    columns: &Vec<Column>,
    queue: &[Track],
    searching: bool,
    query: &str,
    filtered: &[usize],
    status: &Status,
    liststate: &ListState,
)
    requires
        size.wf(),
        ratio_sum(column_policies(columns@)) <= u32::MAX,
        Scene::of(queue@, searching, query@, filtered@, status, liststate.selected).wf(),
    ensures
        old(plan)@.len() <= final(plan)@.len(),
        final(plan)@.take(old(plan)@.len() as int) == old(plan)@,
        queue@.len() == 0 ==> final(plan)@.len() == old(plan)@.len(),
        queue@.len() > 0 ==> {
            let blocks = block_views(final(plan)@.skip(old(plan)@.len() as int));
            &&& blocks.len() == columns@.len()
            &&& splits(size, Direction::Horizontal, column_policies(columns@), areas(blocks))
            &&& forall|k: int|
                0 <= k < columns@.len() ==> (#[trigger] blocks[k]).1 == column_content(
                    Scene::of(queue@, searching, query@, filtered@, status, liststate.selected),
                    &columns@[k],
                    k,
                )
        },
{
    let ghost scene = Scene::of(queue@, searching, query@, filtered@, status, liststate.selected);
    let ghost before = plan@;
    if queue.len() == 0 {
        assert(plan@.take(before.len() as int) =~= before);
        return ;
    }
    let policies = column_sizing(columns);
    let chunks = solve(size, &policies, Direction::Horizontal);
    let mut k: usize = 0;
    while k < columns.len()
        invariant
            k <= columns.len(),
            chunks@.len() == columns@.len(),
            scene == Scene::of(queue@, searching, query@, filtered@, status, liststate.selected),
            scene.wf(),
            plan@.len() == before.len() + k,
            plan@.take(before.len() as int) == before,
            forall|j: int|
                0 <= j < k ==> (#[trigger] plan@[before.len() + j])@ == (
                    chunks@[j],
                    column_content(scene, &columns@[j], j),
                ),
        decreases columns.len() - k,
    {
        let column = &columns[k];
        let items = queue_rows(
            column.item.inner(),
            queue,
            searching,
            query,
            filtered,
            status,
            liststate.selected(),
        );
        let style = patch_style(Style::default(), &column.style);
        let highlight_style = patch_style(Style::default(), &column.selected_style);
        let ghost mid = plan@;
        plan.push(
            Block {
                area: chunks[k],
                content: Content::List { items, style, highlight_style, primary: k == 0 },
            },
        );
        assert(plan@.take(before.len() as int) =~= mid.take(before.len() as int));
        assert forall|j: int| 0 <= j < k + 1 implies (#[trigger] plan@[before.len() + j])@ == (
            chunks@[j],
            column_content(scene, &columns@[j], j),
        ) by {
            if j < k {
                assert(plan@[before.len() + j] == mid[before.len() + j]);
            }
        }
        k += 1;
    }
    proof {
        let blocks = block_views(plan@.skip(before.len() as int));
        assert(areas(blocks) =~= chunks@) by {
            assert forall|j: int| 0 <= j < chunks@.len() implies areas(blocks)[j] == chunks@[j] by {
                assert(plan@[before.len() + j]@.0 == chunks@[j]);
            }
        }
        assert forall|j: int| 0 <= j < columns@.len() implies (#[trigger] blocks[j]).1
            == column_content(scene, &columns@[j], j) by {
            assert(plan@[before.len() + j]@.1 == column_content(scene, &columns@[j], j));
        }
    }
}

/// Appends a plan for each child, one after the other, child `i` in region `i` of the
/// regions that split `size` along `axis`.
pub fn render_children(
    plan: &mut Vec<Block>,
    size: Rect,
    xs: &Vec<Constrained<Widget>>,
    axis: Direction,
    queue: &[Track],
    searching: bool,
    query: &str,
    filtered: &[usize],
    status: &Status,
    liststate: &ListState,
)
    requires
        size.wf(),
        ratio_sum(policies_of(xs@)) <= u32::MAX,
        children_wf(xs@, xs@.len()),
        Scene::of(queue@, searching, query@, filtered@, status, liststate.selected).wf(),
    ensures
        old(plan)@.len() <= final(plan)@.len(),
        final(plan)@.take(old(plan)@.len() as int) == old(plan)@,
        exists|chunks: Seq<Rect>|
            {
                &&& #[trigger] splits(size, axis, policies_of(xs@), chunks)
                &&& children_render(
                    xs@,
                    xs@.len(),
                    chunks,
                    Scene::of(queue@, searching, query@, filtered@, status, liststate.selected),
                    block_views(final(plan)@.skip(old(plan)@.len() as int)),
                )
            },
    decreases xs,
{
    let ghost scene = Scene::of(queue@, searching, query@, filtered@, status, liststate.selected);
    let ghost before = plan@;
    let policies = sizing(xs);
    let chunks = solve(size, &policies, axis);
    assert(plan@.take(before.len() as int) =~= before);
    assert(block_views(plan@.skip(before.len() as int)).len() == 0);
    let mut i: usize = 0;
    while i < xs.len()
        invariant
            i <= xs.len(),
            size.wf(),
            chunks@.len() == xs@.len(),
            splits(size, axis, policies_of(xs@), chunks@),
            children_wf(xs@, xs@.len()),
            scene == Scene::of(queue@, searching, query@, filtered@, status, liststate.selected),
            scene.wf(),
            before.len() <= plan@.len(),
            plan@.take(before.len() as int) == before,
            children_render(
                xs@,
                i as nat,
                chunks@,
                scene,
                block_views(plan@.skip(before.len() as int)),
            ),
        decreases xs.len() - i,
    {
        let ghost mid = plan@;
        let child = xs[i].inner();
        proof {
            lemma_children_wf(xs@, xs@.len(), i as int);
            lemma_splits_enclosed(size, axis, policies_of(xs@), chunks@, i as int);
            vstd::std_specs::vec::axiom_vec_index_decreases(*xs, i as int);
        }
        render(plan, chunks[i], child, queue, searching, query, filtered, status, liststate);
        proof {
            let head = block_views(mid.skip(before.len() as int));
            let tail = block_views(plan@.skip(mid.len() as int));
            lemma_children_render_next(xs@, i as nat, chunks@, scene, head, tail);
            assert(plan@.take(before.len() as int) =~= plan@.take(mid.len() as int).take(
                before.len() as int,
            ));
            assert(block_views(plan@.skip(before.len() as int)) =~= head + tail) by {
                let all = block_views(plan@.skip(before.len() as int));
                assert(all.len() == (head + tail).len());
                assert forall|j: int| 0 <= j < all.len() implies all[j] == (head + tail)[j] by {
                    if j < head.len() {
                        assert(plan@[before.len() + j] == plan@.take(mid.len() as int)[before.len()
                            + j]);
                    }
                }
            }
        }
        i += 1;
    }
}

/// Appends to `plan` a plan for `widget` in `size`; what `plan` held stays in front.
///
/// The row that `liststate` selects is the selection cursor, as a queue position.
pub fn render(
    plan: &mut Vec<Block>,
    size: Rect,
    widget: &Widget,
    queue: &[Track],
    searching: bool,
    query: &str,
    filtered: &[usize],
    status: &Status,
    liststate: &ListState,
)
    requires
        size.wf(),
        widget.wf(),
        Scene::of(queue@, searching, query@, filtered@, status, liststate.selected).wf(),
    ensures
        rendered(
            old(plan)@,
            final(plan)@,
            widget,
            size,
            Scene::of(queue@, searching, query@, filtered@, status, liststate.selected),
        ),
    decreases widget,
{
    match widget {
        Widget::Rows(xs) => {
            render_children(
                plan,
                size,
                xs,
                Direction::Vertical,
                queue,
                searching,
                query,
                filtered,
                status,
                liststate,
            );
        },
        Widget::Columns(xs) => {
            render_children(
                plan,
                size,
                xs,
                Direction::Horizontal,
                queue,
                searching,
                query,
                filtered,
                status,
                liststate,
            );
        },
        Widget::Textbox(xs) => {
            render_text(plan, size, xs, Alignment::Left, queue, searching, query, status);
        },
        Widget::TextboxC(xs) => {
            render_text(plan, size, xs, Alignment::Center, queue, searching, query, status);
        },
        Widget::TextboxR(xs) => {
            render_text(plan, size, xs, Alignment::Right, queue, searching, query, status);
        },
        Widget::Queue(xs) => {
            render_queue(plan, size, xs, queue, searching, query, filtered, status, liststate);
        },
    }
}

fn children_are_wf(xs: &Vec<Constrained<Widget>>) -> (b: bool)
    ensures
        b == children_wf(xs@, xs@.len()),
    decreases xs,
{
    let mut i: usize = 0;
    while i < xs.len()
        invariant
            i <= xs.len(),
            children_wf(xs@, i as nat),
        decreases xs.len() - i,
    {
        proof {
            vstd::std_specs::vec::axiom_vec_index_decreases(*xs, i as int);
        }
        if !xs[i].inner().is_wf() {
            proof {
                if children_wf(xs@, xs@.len()) {
                    lemma_children_wf(xs@, xs@.len(), i as int);
                }
            }
            return false;
        }
        i += 1;
    }
    true
}

impl Widget {
    /// Do the ratio weights of the children sum to at most `u32::MAX` at every node?
    pub fn is_wf(&self) -> (b: bool)
        ensures
            b == self.wf(),
        decreases self,
    {
        match self {
            Widget::Rows(xs) => ratios_fit(&sizing(xs)) && children_are_wf(xs),
            Widget::Columns(xs) => ratios_fit(&sizing(xs)) && children_are_wf(xs),
            Widget::Queue(columns) => ratios_fit(&column_sizing(columns)),
            _ => true,
        }
    }
}

/// Is every filtered index a position of a queue of `queue_len` tracks?
pub fn filtered_in_queue(filtered: &[usize], queue_len: usize) -> (b: bool)
    ensures
        b == (forall|k: int| 0 <= k < filtered@.len() ==> #[trigger] filtered@[k] < queue_len),
{
    let mut k: usize = 0;
    while k < filtered.len()
        invariant
            k <= filtered.len(),
            forall|j: int| 0 <= j < k ==> #[trigger] filtered@[j] < queue_len,
        decreases filtered.len() - k,
    {
        if filtered[k] >= queue_len {
            return false;
        }
        k += 1;
    }
    true
}

/// Every block of a plan for a widget lies within the area that the widget was given.
pub proof fn lemma_renders_enclosed(
    widget: &Widget,
    size: Rect,
    scene: Scene,
    blocks: Seq<(Rect, ContentView)>,
    k: int,
)
    requires
        widget.renders(size, scene, blocks),
        0 <= k < blocks.len(),
    ensures
        size.encloses(blocks[k].0),
    decreases widget, 0nat,
{
    match widget {
        Widget::Rows(xs) => {
            let chunks = choose|chunks: Seq<Rect>|
                {
                    &&& #[trigger] splits(size, Direction::Vertical, policies_of(xs@), chunks)
                    &&& children_render(xs@, xs@.len(), chunks, scene, blocks)
                };
            lemma_children_enclosed(xs@, xs@.len(), chunks, Direction::Vertical, size, scene, blocks, k);
        },
        Widget::Columns(xs) => {
            let chunks = choose|chunks: Seq<Rect>|
                {
                    &&& #[trigger] splits(size, Direction::Horizontal, policies_of(xs@), chunks)
                    &&& children_render(xs@, xs@.len(), chunks, scene, blocks)
                };
            lemma_children_enclosed(
                xs@,
                xs@.len(),
                chunks,
                Direction::Horizontal,
                size,
                scene,
                blocks,
                k,
            );
        },
        Widget::Queue(columns) => {
            lemma_splits_enclosed(
                size,
                Direction::Horizontal,
                column_policies(columns@),
                areas(blocks),
                k,
            );
        },
        _ => {},
    }
}

/// Every block of a plan for the first `n` children lies within the area that was split
/// among the children.
pub proof fn lemma_children_enclosed(
    xs: Seq<Constrained<Widget>>,
    n: nat,
    chunks: Seq<Rect>,
    axis: Direction,
    size: Rect,
    scene: Scene,
    blocks: Seq<(Rect, ContentView)>,
    k: int,
)
    requires
        n <= xs.len(),
        splits(size, axis, policies_of(xs), chunks),
        children_render(xs, n, chunks, scene, blocks),
        0 <= k < blocks.len(),
    ensures
        size.encloses(blocks[k].0),
    decreases xs, n,
{
    let cut = choose|cut: int|
        {
            &&& 0 <= cut <= blocks.len()
            &&& children_render(xs, (n - 1) as nat, chunks, scene, #[trigger] blocks.take(cut))
            &&& match xs[n - 1] {
                Constrained::Fixed(_, w) => w.renders(chunks[n - 1], scene, blocks.skip(cut)),
                Constrained::Max(_, w) => w.renders(chunks[n - 1], scene, blocks.skip(cut)),
                Constrained::Min(_, w) => w.renders(chunks[n - 1], scene, blocks.skip(cut)),
                Constrained::Ratio(_, w) => w.renders(chunks[n - 1], scene, blocks.skip(cut)),
            }
        };
    if k < cut {
        lemma_children_enclosed(xs, (n - 1) as nat, chunks, axis, size, scene, blocks.take(cut), k);
    } else {
        lemma_splits_enclosed(size, axis, policies_of(xs), chunks, n - 1);
        match xs[n - 1] {
            Constrained::Fixed(_, w) => {
                lemma_renders_enclosed(&w, chunks[n - 1], scene, blocks.skip(cut), k - cut);
            },
            Constrained::Max(_, w) => {
                lemma_renders_enclosed(&w, chunks[n - 1], scene, blocks.skip(cut), k - cut);
            },
            Constrained::Min(_, w) => {
                lemma_renders_enclosed(&w, chunks[n - 1], scene, blocks.skip(cut), k - cut);
            },
            Constrained::Ratio(_, w) => {
                lemma_renders_enclosed(&w, chunks[n - 1], scene, blocks.skip(cut), k - cut);
            },
        }
    }
}

/// Appends to `plan` a plan for `widget` in `size` where the arguments allow one, and says
/// whether they did: the area has to end within the coordinate space, the ratio weights
/// have to fit at every node of the layout, and while the query is not empty every
/// filtered index has to be a position of the queue. Otherwise `plan` stays as it is.
pub fn try_render(
    plan: &mut Vec<Block>,
    size: Rect,
    widget: &Widget,
    queue: &[Track],
    searching: bool,
    query: &str,
    filtered: &[usize],
    status: &Status,
    liststate: &ListState,
) -> (done: bool)
    ensures
        done == (size.wf() && widget.wf() && Scene::of(
            queue@,
            searching,
            query@,
            filtered@,
            status,
            liststate.selected,
        ).wf()),
        done ==> rendered(
            old(plan)@,
            final(plan)@,
            widget,
            size,
            Scene::of(queue@, searching, query@, filtered@, status, liststate.selected),
        ),
        !done ==> final(plan)@ == old(plan)@,
{
    if !size.is_wf() || !widget.is_wf() {
        return false;
    }
    if !query.is_empty() && !filtered_in_queue(filtered, queue.len()) {
        proof {
            let scene = Scene::of(queue@, searching, query@, filtered@, status, liststate.selected);
            if scene.wf() {
                assert forall|k: int| 0 <= k < filtered@.len() implies #[trigger] filtered@[k]
                    < queue.len() by {
                    assert(scene.filtered[k] < scene.queue.len());
                }
            }
        }
        return false;
    }
    render(plan, size, widget, queue, searching, query, filtered, status, liststate);
    true
}

/// The contents of the blocks, in order.
pub open spec fn contents(blocks: Seq<(Rect, ContentView)>) -> Seq<ContentView> {
    Seq::new(blocks.len(), |i: int| blocks[i].1)
}

impl Widget {
    /// What the widget draws in a scene, block by block, whatever the regions are.
    pub open spec fn drawn(&self, scene: Scene) -> Seq<ContentView>
        decreases self, 0nat,
    {
        match self {
            Widget::Rows(xs) => children_drawn(xs@, xs@.len(), scene),
            Widget::Columns(xs) => children_drawn(xs@, xs@.len(), scene),
            Widget::Textbox(texts) => seq![
                ContentView::Paragraph { spans: scene.text(texts), alignment: Alignment::Left },
            ],
            Widget::TextboxC(texts) => seq![
                ContentView::Paragraph { spans: scene.text(texts), alignment: Alignment::Center },
            ],
            Widget::TextboxR(texts) => seq![
                ContentView::Paragraph { spans: scene.text(texts), alignment: Alignment::Right },
            ],
            Widget::Queue(columns) => if scene.queue.len() == 0 {
                seq![]
            } else {
                Seq::new(columns@.len(), |k: int| column_content(scene, &columns@[k], k))
            },
        }
    }
}

/// What the first `n` children draw in a scene, one after the other.
pub open spec fn children_drawn(xs: Seq<Constrained<Widget>>, n: nat, scene: Scene) -> Seq<
    ContentView,
>
    decreases xs, n,
{
    if n == 0 || n > xs.len() {
        seq![]
    } else {
        children_drawn(xs, (n - 1) as nat, scene) + match xs[n - 1] {
            Constrained::Fixed(_, w) => w.drawn(scene),
            Constrained::Max(_, w) => w.drawn(scene),
            Constrained::Min(_, w) => w.drawn(scene),
            Constrained::Ratio(_, w) => w.drawn(scene),
        }
    }
}

/// What a plan draws is settled by the widget and the scene alone: the area and the way
/// it is split decide only where each block goes.
pub proof fn lemma_renders_drawn(
    widget: &Widget,
    size: Rect,
    scene: Scene,
    blocks: Seq<(Rect, ContentView)>,
)
    requires
        widget.renders(size, scene, blocks),
    ensures
        contents(blocks) == widget.drawn(scene),
    decreases widget, 0nat,
{
    match widget {
        Widget::Rows(xs) => {
            let chunks = choose|chunks: Seq<Rect>|
                {
                    &&& #[trigger] splits(size, Direction::Vertical, policies_of(xs@), chunks)
                    &&& children_render(xs@, xs@.len(), chunks, scene, blocks)
                };
            lemma_children_drawn(xs@, xs@.len(), chunks, scene, blocks);
        },
        Widget::Columns(xs) => {
            let chunks = choose|chunks: Seq<Rect>|
                {
                    &&& #[trigger] splits(size, Direction::Horizontal, policies_of(xs@), chunks)
                    &&& children_render(xs@, xs@.len(), chunks, scene, blocks)
                };
            lemma_children_drawn(xs@, xs@.len(), chunks, scene, blocks);
        },
        Widget::Queue(columns) => {
            assert(contents(blocks) =~= widget.drawn(scene));
        },
        _ => {
            assert(contents(blocks) =~= widget.drawn(scene));
        },
    }
}

/// What a plan for the first `n` children draws is settled by the children and the scene.
pub proof fn lemma_children_drawn(
    xs: Seq<Constrained<Widget>>,
    n: nat,
    chunks: Seq<Rect>,
    scene: Scene,
    blocks: Seq<(Rect, ContentView)>,
)
    requires
        n <= xs.len(),
        children_render(xs, n, chunks, scene, blocks),
    ensures
        contents(blocks) == children_drawn(xs, n, scene),
    decreases xs, n,
{
    if n == 0 {
        assert(contents(blocks) =~= children_drawn(xs, n, scene));
    } else {
        let cut = choose|cut: int|
            {
                &&& 0 <= cut <= blocks.len()
                &&& children_render(xs, (n - 1) as nat, chunks, scene, #[trigger] blocks.take(cut))
                &&& match xs[n - 1] {
                    Constrained::Fixed(_, w) => w.renders(chunks[n - 1], scene, blocks.skip(cut)),
                    Constrained::Max(_, w) => w.renders(chunks[n - 1], scene, blocks.skip(cut)),
                    Constrained::Min(_, w) => w.renders(chunks[n - 1], scene, blocks.skip(cut)),
                    Constrained::Ratio(_, w) => w.renders(chunks[n - 1], scene, blocks.skip(cut)),
                }
            };
        lemma_children_drawn(xs, (n - 1) as nat, chunks, scene, blocks.take(cut));
        match xs[n - 1] {
            Constrained::Fixed(_, w) => {
                lemma_renders_drawn(&w, chunks[n - 1], scene, blocks.skip(cut));
            },
            Constrained::Max(_, w) => {
                lemma_renders_drawn(&w, chunks[n - 1], scene, blocks.skip(cut));
            },
            Constrained::Min(_, w) => {
                lemma_renders_drawn(&w, chunks[n - 1], scene, blocks.skip(cut));
            },
            Constrained::Ratio(_, w) => {
                lemma_renders_drawn(&w, chunks[n - 1], scene, blocks.skip(cut));
            },
        }
        assert(contents(blocks) =~= contents(blocks.take(cut)) + contents(blocks.skip(cut)));
    }
}

} // verus!
