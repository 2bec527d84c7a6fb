//! Evaluation of text templates into styled fragments.

use crate::cond::eval_cond;
use crate::config::{Condition, Texts};
use crate::player::{spec_current_track, Status, Track};
use crate::style::{patch_style, AddStyle, Style};
use vstd::prelude::*;

verus! {

/// A piece of text and the style it is drawn in.
#[derive(Clone, Debug, PartialEq, Eq)]
pub struct Fragment {
    pub text: String,
    pub style: Style,
}

impl View for Fragment {
    type V = (Seq<char>, Style);

    open spec fn view(&self) -> (Seq<char>, Style) {
        (self.text@, self.style)
    }
}

/// The characters and style of each fragment, in order.
pub open spec fn views(fragments: Seq<Fragment>) -> Seq<(Seq<char>, Style)> {
    Seq::new(fragments.len(), |i: int| fragments[i]@)
}

/// The character of a decimal digit.
pub open spec fn digit(d: nat) -> char {
    if d == 0 {
        '0'
    } else if d == 1 {
        '1'
    } else if d == 2 {
        '2'
    } else if d == 3 {
        '3'
    } else if d == 4 {
        '4'
    } else if d == 5 {
        '5'
    } else if d == 6 {
        '6'
    } else if d == 7 {
        '7'
    } else if d == 8 {
        '8'
    } else {
        '9'
    }
}

/// The decimal numeral of `n`, without leading zeros.
pub open spec fn decimal(n: nat) -> Seq<char>
    decreases n,
{
    if n < 10 {
        seq![digit(n)]
    } else {
        decimal(n / 10).push(digit(n % 10))
    }
}

/// A number of seconds as minutes, a colon and two digits of seconds.
pub open spec fn time_text(secs: nat) -> Seq<char> {
    decimal(secs / 60) + seq![':', digit((secs % 60) / 10), digit(secs % 10)]
}

fn digit_str(d: u16) -> (r: &'static str)
    requires
        d < 10,
    ensures
        r@ == seq![digit(d as nat)],
{
    proof {
        reveal_strlit("0");
        reveal_strlit("1");
        reveal_strlit("2");
        reveal_strlit("3");
        reveal_strlit("4");
        reveal_strlit("5");
        reveal_strlit("6");
        reveal_strlit("7");
        reveal_strlit("8");
        reveal_strlit("9");
    }
    let r = if d == 0 {
        "0"
    } else if d == 1 {
        "1"
    } else if d == 2 {
        "2"
    } else if d == 3 {
        "3"
    } else if d == 4 {
        "4"
    } else if d == 5 {
        "5"
    } else if d == 6 {
        "6"
    } else if d == 7 {
        "7"
    } else if d == 8 {
        "8"
    } else {
        "9"
    };
    assert(r@ =~= seq![digit(d as nat)]);
    r
}

fn push_decimal(out: &mut String, n: u16)
    ensures
        final(out)@ == old(out)@ + decimal(n as nat),
    decreases n,
{
    if n >= 10 {
        push_decimal(out, n / 10);
    }
    out.append(digit_str(n % 10));
    assert(out@ =~= old(out)@ + decimal(n as nat));
}

/// Formats a number of seconds as `minutes:seconds`, the seconds padded to two digits.
pub fn format_time(secs: u16) -> (r: String)
    ensures
        r@ == time_text(secs as nat),
{
    let mut out = String::new();
    push_decimal(&mut out, secs / 60);
    proof {
        reveal_strlit(":");
    }
    out.append(":");
    let s: u16 = secs % 60;
    out.append(digit_str(s / 10));
    out.append(digit_str(s % 10));
    assert(s % 10 == secs % 10);
    assert(out@ =~= time_text(secs as nat));
    out
}

/// The text of an optional field of an optional track, in `style`: one fragment when both
/// are there, none otherwise.
pub open spec fn field_fragments(field: Option<Seq<char>>, style: Style) -> Seq<
    (Seq<char>, Style),
> {
    match field {
        Some(text) => seq![(text, style)],
        None => seq![],
    }
}

/// The file name of a track, if there is a track.
pub open spec fn file_of(track: Option<&Track>) -> Option<Seq<char>> {
    match track {
        Some(t) => Some(t.file@),
        None => None,
    }
}

/// The title of a track, if there is a track and it has one.
pub open spec fn title_of(track: Option<&Track>) -> Option<Seq<char>> {
    match track {
        Some(t) => match t.title {
            Some(x) => Some(x@),
            None => None,
        },
        None => None,
    }
}

/// The artist of a track, if there is a track and it has one.
pub open spec fn artist_of(track: Option<&Track>) -> Option<Seq<char>> {
    match track {
        Some(t) => match t.artist {
            Some(x) => Some(x@),
            None => None,
        },
        None => None,
    }
}

/// The album of a track, if there is a track and it has one.
pub open spec fn album_of(track: Option<&Track>) -> Option<Seq<char>> {
    match track {
        Some(t) => match t.album {
            Some(x) => Some(x@),
            None => None,
        },
        None => None,
    }
}

/// The formatted duration of a track, if there is a track.
pub open spec fn duration_of(track: Option<&Track>) -> Option<Seq<char>> {
    match track {
        Some(t) => Some(time_text(t.time as nat)),
        None => None,
    }
}

/// The formatted elapsed time of the song that plays, if one plays.
pub open spec fn elapsed_of(status: &Status) -> Option<Seq<char>> {
    match status.song {
        Some(song) => Some(time_text(song.elapsed as nat)),
        None => None,
    }
}

impl Texts {
    /// The fragments that the template yields, in order, under the inherited `style`.
    ///
    /// "Current" fields read `current_track`, "queue" fields read `queue_track`; a field
    /// that is missing yields nothing.
    pub open spec fn fragments(
        self,
        status: &Status,
        current_track: Option<&Track>,
        queue_track: Option<&Track>,
        queue_current: bool,
        selected: bool,
        searching: bool,
        query: Seq<char>,
        style: Style,
    ) -> Seq<(Seq<char>, Style)>
        decreases self, 0nat,
    {
        match self {
            Texts::Empty => seq![],
            Texts::Text(x) => seq![(x@, style)],
            Texts::CurrentElapsed => field_fragments(elapsed_of(status), style),
            Texts::CurrentDuration => field_fragments(duration_of(current_track), style),
            Texts::CurrentFile => field_fragments(file_of(current_track), style),
            Texts::CurrentTitle => field_fragments(title_of(current_track), style),
            Texts::CurrentArtist => field_fragments(artist_of(current_track), style),
            Texts::CurrentAlbum => field_fragments(album_of(current_track), style),
            Texts::QueueDuration => field_fragments(duration_of(queue_track), style),
            Texts::QueueFile => field_fragments(file_of(queue_track), style),
            Texts::QueueTitle => field_fragments(title_of(queue_track), style),
            Texts::QueueArtist => field_fragments(artist_of(queue_track), style),
            Texts::QueueAlbum => field_fragments(album_of(queue_track), style),
            Texts::Query => seq![(query, style)],
            Texts::Styled(patches, x) => x.fragments(
                status,
                current_track,
                queue_track,
                queue_current,
                selected,
                searching,
                query,
                style.patched(patches@),
            ),
            Texts::Parts(xs) => parts_fragments(
                xs@,
                xs@.len(),
                status,
                current_track,
                queue_track,
                queue_current,
                selected,
                searching,
                query,
                style,
            ),
            Texts::If(cond, yes, no) => if cond.holds(
                status,
                current_track,
                queue_current,
                selected,
                searching,
                query,
            ) {
                yes.fragments(
                    status,
                    current_track,
                    queue_track,
                    queue_current,
                    selected,
                    searching,
                    query,
                    style,
                )
            } else {
                match no {
                    Some(x) => x.fragments(
                        status,
                        current_track,
                        queue_track,
                        queue_current,
                        selected,
                        searching,
                        query,
                        style,
                    ),
                    None => seq![],
                }
            },
        }
    }
}

/// The fragments of the first `n` templates of `xs`, one after the other, all under the
/// same inherited `style`.
pub open spec fn parts_fragments(
    xs: Seq<Texts>,
    n: nat,
    status: &Status,
    current_track: Option<&Track>,
    queue_track: Option<&Track>,
    queue_current: bool,
    selected: bool,
    searching: bool,
    query: Seq<char>,
    style: Style,
) -> Seq<(Seq<char>, Style)>
    decreases xs, n,
{
    if n == 0 || n > xs.len() {
        seq![]
    } else {
        parts_fragments(
            xs,
            (n - 1) as nat,
            status,
            current_track,
            queue_track,
            queue_current,
            selected,
            searching,
            query,
            style,
        ) + xs[n - 1].fragments(
            status,
            current_track,
            queue_track,
            queue_current,
            selected,
            searching,
            query,
            style,
        )
    }
}

/// `after` is `before` with fragments appended whose characters and styles are `added`.
pub open spec fn appended(
    before: Seq<Fragment>,
    after: Seq<Fragment>,
    added: Seq<(Seq<char>, Style)>,
) -> bool {
    &&& after.len() == before.len() + added.len()
    &&& after.take(before.len() as int) == before
    &&& views(after.skip(before.len() as int)) == added
}

/// Appending nothing changes nothing.
pub proof fn lemma_appended_none(before: Seq<Fragment>)
    ensures
        appended(before, before, seq![]),
{
    assert(before.take(before.len() as int) =~= before);
    assert(views(before.skip(before.len() as int)) =~= seq![]);
}

/// Appending in two steps appends the concatenation.
pub proof fn lemma_appended_twice(
    a: Seq<Fragment>,
    b: Seq<Fragment>,
    c: Seq<Fragment>,
    x: Seq<(Seq<char>, Style)>,
    y: Seq<(Seq<char>, Style)>,
)
    requires
        appended(a, b, x),
        appended(b, c, y),
    ensures
        appended(a, c, x + y),
{
    assert(c.take(a.len() as int) =~= c.take(b.len() as int).take(a.len() as int));
    let left = views(c.skip(a.len() as int));
    assert(left.len() == (x + y).len());
    assert forall|i: int| 0 <= i < left.len() implies left[i] == (x + y)[i] by {
        if i < x.len() {
            assert(c[a.len() + i] == c.take(b.len() as int)[a.len() + i]);
            assert(views(b.skip(a.len() as int))[i] == x[i]);
        } else {
            assert(views(c.skip(b.len() as int))[i - x.len()] == y[i - x.len()]);
        }
    }
    assert(left =~= x + y);
}

fn push_field(spans: &mut Vec<Fragment>, text: Option<String>, style: Style)
    ensures
        appended(
            old(spans)@,
            final(spans)@,
            field_fragments(
                match text {
                    Some(t) => Some(t@),
                    None => None,
                },
                style,
            ),
        ),
{
    match text {
        Some(t) => {
            let ghost chars = t@;
            spans.push(Fragment { text: t, style });
            proof {
                assert(spans@.take(old(spans)@.len() as int) =~= old(spans)@);
                assert(views(spans@.skip(old(spans)@.len() as int)) =~= seq![(chars, style)]);
            }
        },
        None => {
            proof {
                lemma_appended_none(spans@);
            }
        },
    }
}

fn clone_text(text: &Option<String>) -> (r: Option<String>)
    ensures
        r == *text,
{
    match text {
        Some(t) => Some(t.clone()),
        None => None,
    }
}

fn track_file(track: Option<&Track>) -> (r: Option<String>)
    ensures
        r is Some == track is Some,
        r is Some ==> Some(r->0@) == file_of(track),
        r is None ==> file_of(track) is None,
{
    match track {
        Some(t) => Some(t.file.clone()),
        None => None,
    }
}

fn track_duration(track: Option<&Track>) -> (r: Option<String>)
    ensures
        r is Some ==> Some(r->0@) == duration_of(track),
        r is None ==> duration_of(track) is None,
{
    match track {
        Some(t) => Some(format_time(t.time)),
        None => None,
    }
}

/// Appends to `spans` the fragments that the template yields under the inherited `style`;
/// what `spans` held stays in front, untouched.
pub fn flatten(
    spans: &mut Vec<Fragment>,
    xs: &Texts,
    status: &Status,
    current_track: Option<&Track>,
    queue_track: Option<&Track>,
    queue_current: bool,
    selected: bool,
    searching: bool,
    query: &str,
    style: Style,
)
    ensures
        appended(
            old(spans)@,
            final(spans)@,
            xs.fragments(
                status,
                current_track,
                queue_track,
                queue_current,
                selected,
                searching,
                query@,
                style,
            ),
        ),
    decreases xs,
{
    match xs {
        Texts::Empty => {
            proof {
                lemma_appended_none(spans@);
            }
        },
        Texts::Text(x) => push_field(spans, Some(x.clone()), style),
        Texts::CurrentElapsed => {
            let text = match status.song {
                Some(song) => Some(format_time(song.elapsed)),
                None => None,
            };
            push_field(spans, text, style)
        },
        Texts::CurrentDuration => push_field(spans, track_duration(current_track), style),
        Texts::CurrentFile => push_field(spans, track_file(current_track), style),
        Texts::CurrentTitle => {
            let text = match current_track {
                Some(t) => clone_text(&t.title),
                None => None,
            };
            push_field(spans, text, style)
        },
        Texts::CurrentArtist => {
            let text = match current_track {
                Some(t) => clone_text(&t.artist),
                None => None,
            };
            push_field(spans, text, style)
        },
        Texts::CurrentAlbum => {
            let text = match current_track {
                Some(t) => clone_text(&t.album),
                None => None,
            };
            push_field(spans, text, style)
        },
        Texts::QueueDuration => push_field(spans, track_duration(queue_track), style),
        Texts::QueueFile => push_field(spans, track_file(queue_track), style),
        Texts::QueueTitle => {
            let text = match queue_track {
                Some(t) => clone_text(&t.title),
                None => None,
            };
            push_field(spans, text, style)
        },
        Texts::QueueArtist => {
            let text = match queue_track {
                Some(t) => clone_text(&t.artist),
                None => None,
            };
            push_field(spans, text, style)
        },
        Texts::QueueAlbum => {
            let text = match queue_track {
                Some(t) => clone_text(&t.album),
                None => None,
            };
            push_field(spans, text, style)
        },
        Texts::Query => push_field(spans, Some(String::from_str(query)), style),
        Texts::Styled(styles, x) => {
            flatten(
                spans,
                x,
                status,
                current_track,
                queue_track,
                queue_current,
                selected,
                searching,
                query,
                patch_style(style, styles),
            );
        },
        Texts::Parts(xss) => {
            proof {
                lemma_appended_none(spans@);
            }
            let mut i: usize = 0;
            while i < xss.len()
                invariant
                    i <= xss.len(),
                    xs is Parts,
                    xs->Parts_0 == *xss,
                    appended(
                        old(spans)@,
                        spans@,
                        parts_fragments(
                            xss@,
                            i as nat,
                            status,
                            current_track,
                            queue_track,
                            queue_current,
                            selected,
                            searching,
                            query@,
                            style,
                        ),
                    ),
                decreases xss.len() - i,
            {
                let ghost mid = spans@;
                proof {
                    vstd::std_specs::vec::axiom_vec_index_decreases(*xss, i as int);
                }
                flatten(
                    spans,
                    &xss[i],
                    status,
                    current_track,
                    queue_track,
                    queue_current,
                    selected,
                    searching,
                    query,
                    style,
                );
                proof {
                    lemma_appended_twice(
                        old(spans)@,
                        mid,
                        spans@,
                        parts_fragments(
                            xss@,
                            i as nat,
                            status,
                            current_track,
                            queue_track,
                            queue_current,
                            selected,
                            searching,
                            query@,
                            style,
                        ),
                        xss@[i as int].fragments(
                            status,
                            current_track,
                            queue_track,
                            queue_current,
                            selected,
                            searching,
                            query@,
                            style,
                        ),
                    );
                }
                i += 1;
            }
        },
        Texts::If(cond, yes, no) => {
            if eval_cond(cond, status, current_track, queue_current, selected, searching, query) {
                flatten(
                    spans,
                    yes,
                    status,
                    current_track,
                    queue_track,
                    queue_current,
                    selected,
                    searching,
                    query,
                    style,
                );
            } else {
                match no {
                    Some(x) => {
                        flatten(
                            spans,
                            x,
                            status,
                            current_track,
                            queue_track,
                            queue_current,
                            selected,
                            searching,
                            query,
                            style,
                        );
                    },
                    None => {
                        proof {
                            lemma_appended_none(spans@);
                        }
                    },
                }
            }
        },
    }
}

/// While no song plays, every field of the current track yields no fragment at all.
pub proof fn lemma_nothing_plays(
    status: &Status,
    queue: Seq<Track>,
    queue_track: Option<&Track>,
    queue_current: bool,
    selected: bool,
    searching: bool,
    query: Seq<char>,
    style: Style,
    field: Texts,
)
    requires
        status.song is None,
        field is CurrentElapsed || field is CurrentDuration || field is CurrentFile
            || field is CurrentTitle || field is CurrentArtist || field is CurrentAlbum,
    ensures
        spec_current_track(status, queue) is None,
        field.fragments(
            status,
            spec_current_track(status, queue),
            queue_track,
            queue_current,
            selected,
            searching,
            query,
            style,
        ) == Seq::<(Seq<char>, Style)>::empty(),
{
}

/// Outside a row no queue field yields a fragment.
pub proof fn lemma_no_row(
    status: &Status,
    current_track: Option<&Track>,
    queue_current: bool,
    selected: bool,
    searching: bool,
    query: Seq<char>,
    style: Style,
    field: Texts,
)
    requires
        field is QueueDuration || field is QueueFile || field is QueueTitle || field is QueueArtist
            || field is QueueAlbum,
    ensures
        field.fragments(
            status,
            current_track,
            None,
            queue_current,
            selected,
            searching,
            query,
            style,
        ) == Seq::<(Seq<char>, Style)>::empty(),
{
}

/// A conditional with both branches yields the fragments of the first branch where the
/// condition holds and those of the second where it does not.
pub proof fn lemma_conditional(
    cond: Condition,
    yes: Texts,
    no: Texts,
    status: &Status,
    current_track: Option<&Track>,
    queue_track: Option<&Track>,
    queue_current: bool,
    selected: bool,
    searching: bool,
    query: Seq<char>,
    style: Style,
)
    ensures
        Texts::If(cond, Box::new(yes), Some(Box::new(no))).fragments(
            status,
            current_track,
            queue_track,
            queue_current,
            selected,
            searching,
            query,
            style,
        ) == if cond.holds(status, current_track, queue_current, selected, searching, query) {
            yes.fragments(
                status,
                current_track,
                queue_track,
                queue_current,
                selected,
                searching,
                query,
                style,
            )
        } else {
            no.fragments(
                status,
                current_track,
                queue_track,
                queue_current,
                selected,
                searching,
                query,
                style,
            )
        },
{
}

/// A styled template leaves the inherited style of its siblings alone: in a list of parts,
/// what follows a styled part is drawn as if that part were not styled.
pub proof fn lemma_style_stays_inside(
    patches: Vec<AddStyle>,
    inner: Texts,
    next: Texts,
    status: &Status,
    current_track: Option<&Track>,
    queue_track: Option<&Track>,
    queue_current: bool,
    selected: bool,
    searching: bool,
    query: Seq<char>,
    style: Style,
)
    ensures
        parts_fragments(
            seq![Texts::Styled(patches, Box::new(inner)), next],
            2,
            status,
            current_track,
            queue_track,
            queue_current,
            selected,
            searching,
            query,
            style,
        ) == inner.fragments(
            status,
            current_track,
            queue_track,
            queue_current,
            selected,
            searching,
            query,
            style.patched(patches@),
        ) + next.fragments(
            status,
            current_track,
            queue_track,
            queue_current,
            selected,
            searching,
            query,
            style,
        ),
{
    reveal_with_fuel(parts_fragments, 3);
    let xs = seq![Texts::Styled(patches, Box::new(inner)), next];
    assert(parts_fragments(
        xs,
        0,
        status,
        current_track,
        queue_track,
        queue_current,
        selected,
        searching,
        query,
        style,
    ) =~= seq![]);
    assert(Seq::<(Seq<char>, Style)>::empty() + xs[0].fragments(
        status,
        current_track,
        queue_track,
        queue_current,
        selected,
        searching,
        query,
        style,
    ) =~= xs[0].fragments(
        status,
        current_track,
        queue_track,
        queue_current,
        selected,
        searching,
        query,
        style,
    ));
}

} // verus!
