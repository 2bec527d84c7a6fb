//! Evaluation of conditions.

use crate::config::Condition;
use crate::player::{PlayState, SingleMode, Status, Track};
use vstd::prelude::*;

verus! {

impl Condition {
    /// What the condition says of a player status, the track that plays, the row being
    /// drawn and the search.
    pub open spec fn holds(
        self,
        status: &Status,
        current_track: Option<&Track>,
        queue_current: bool,
        selected: bool,
        searching: bool,
        query: Seq<char>,
    ) -> bool
        decreases self,
    {
        match self {
            Condition::Repeat => status.repeat,
            Condition::Random => status.random,
            Condition::Single => status.single == SingleMode::Single,
            Condition::Oneshot => status.single == SingleMode::Oneshot,
            Condition::Consume => status.consume,
            Condition::Playing => status.state == PlayState::Playing,
            Condition::Paused => status.state == PlayState::Paused,
            Condition::Stopped => status.state == PlayState::Stopped,
            Condition::TitleExist => current_track is Some && current_track->0.title is Some,
            Condition::ArtistExist => current_track is Some && current_track->0.artist is Some,
            Condition::AlbumExist => current_track is Some && current_track->0.album is Some,
            Condition::QueueCurrent => queue_current,
            Condition::Selected => selected,
            Condition::Searching => searching,
            Condition::Filtered => query.len() > 0,
            Condition::Not(x) => !x.holds(
                status,
                current_track,
                queue_current,
                selected,
                searching,
                query,
            ),
            Condition::And(x, y) => x.holds(
                status,
                current_track,
                queue_current,
                selected,
                searching,
                query,
            ) && y.holds(status, current_track, queue_current, selected, searching, query),
            Condition::Or(x, y) => x.holds(
                status,
                current_track,
                queue_current,
                selected,
                searching,
                query,
            ) || y.holds(status, current_track, queue_current, selected, searching, query),
            Condition::Xor(x, y) => x.holds(
                status,
                current_track,
                queue_current,
                selected,
                searching,
                query,
            ) != y.holds(status, current_track, queue_current, selected, searching, query),
        }
    }
}

/// Evaluates a condition. `And` and `Or` stop at the left operand once it decides.
pub fn eval_cond(
    cond: &Condition,
    status: &Status,
    current_track: Option<&Track>,
    queue_current: bool,
    selected: bool,
    searching: bool,
    query: &str,
) -> (r: bool)
    ensures
        r == cond.holds(status, current_track, queue_current, selected, searching, query@),
    decreases cond,
{
    match cond {
        Condition::Repeat => status.repeat,
        Condition::Random => status.random,
        Condition::Single => matches!(status.single, SingleMode::Single),
        Condition::Oneshot => matches!(status.single, SingleMode::Oneshot),
        Condition::Consume => status.consume,
        Condition::Playing => matches!(status.state, PlayState::Playing),
        Condition::Paused => matches!(status.state, PlayState::Paused),
        Condition::Stopped => matches!(status.state, PlayState::Stopped),
        Condition::TitleExist => match current_track {
            Some(track) => track.title.is_some(),
            None => false,
        },
        Condition::ArtistExist => match current_track {
            Some(track) => track.artist.is_some(),
            None => false,
        },
        Condition::AlbumExist => match current_track {
            Some(track) => track.album.is_some(),
            None => false,
        },
        Condition::QueueCurrent => queue_current,
        Condition::Selected => selected,
        Condition::Searching => searching,
        Condition::Filtered => !query.is_empty(),
        Condition::Not(x) => !eval_cond(
            x,
            status,
            current_track,
            queue_current,
            selected,
            searching,
            query,
        ),
        Condition::And(x, y) => {
            eval_cond(x, status, current_track, queue_current, selected, searching, query)
                && eval_cond(y, status, current_track, queue_current, selected, searching, query)
        },
        Condition::Or(x, y) => {
            eval_cond(x, status, current_track, queue_current, selected, searching, query)
                || eval_cond(y, status, current_track, queue_current, selected, searching, query)
        },
        Condition::Xor(x, y) => {
            let a = eval_cond(x, status, current_track, queue_current, selected, searching, query);
            let b = eval_cond(y, status, current_track, queue_current, selected, searching, query);
            a != b
        },
    }
}

/// `And` holds if and only if both operands hold.
pub proof fn lemma_and(
    x: Condition,
    y: Condition,
    status: &Status,
    current_track: Option<&Track>,
    queue_current: bool,
    selected: bool,
    searching: bool,
    query: Seq<char>,
)
    ensures
        Condition::And(Box::new(x), Box::new(y)).holds(
            status,
            current_track,
            queue_current,
            selected,
            searching,
            query,
        ) <==> x.holds(status, current_track, queue_current, selected, searching, query) && y.holds(
            status,
            current_track,
            queue_current,
            selected,
            searching,
            query,
        ),
{
}

/// `Or` holds if and only if one of the operands holds, and `Not` if and only if its
/// operand does not.
pub proof fn lemma_or_not(
    x: Condition,
    y: Condition,
    status: &Status,
    current_track: Option<&Track>,
    queue_current: bool,
    selected: bool,
    searching: bool,
    query: Seq<char>,
)
    ensures
        Condition::Or(Box::new(x), Box::new(y)).holds(
            status,
            current_track,
            queue_current,
            selected,
            searching,
            query,
        ) <==> x.holds(status, current_track, queue_current, selected, searching, query) || y.holds(
            status,
            current_track,
            queue_current,
            selected,
            searching,
            query,
        ),
        Condition::Not(Box::new(x)).holds(
            status,
            current_track,
            queue_current,
            selected,
            searching,
            query,
        ) <==> !x.holds(status, current_track, queue_current, selected, searching, query),
{
}

/// `Xor` of a condition with itself never holds.
pub proof fn lemma_xor_self(
    x: Condition,
    status: &Status,
    current_track: Option<&Track>,
    queue_current: bool,
    selected: bool,
    searching: bool,
    query: Seq<char>,
)
    ensures
        !Condition::Xor(Box::new(x), Box::new(x)).holds(
            status,
            current_track,
            queue_current,
            selected,
            searching,
            query,
        ),
{
}

/// Exactly one of `Playing`, `Paused` and `Stopped` holds, and `Single` and `Oneshot`
/// never hold together.
pub proof fn lemma_states_exclude(
    status: &Status,
    current_track: Option<&Track>,
    queue_current: bool,
    selected: bool,
    searching: bool,
    query: Seq<char>,
)
    ensures
        ({
            let playing = Condition::Playing.holds(
                status,
                current_track,
                queue_current,
                selected,
                searching,
                query,
            );
            let paused = Condition::Paused.holds(
                status,
                current_track,
                queue_current,
                selected,
                searching,
                query,
            );
            let stopped = Condition::Stopped.holds(
                status,
                current_track,
                queue_current,
                selected,
                searching,
                query,
            );
            &&& playing || paused || stopped
            &&& !(playing && paused)
            &&& !(playing && stopped)
            &&& !(paused && stopped)
        }),
        !(Condition::Single.holds(status, current_track, queue_current, selected, searching, query)
            && Condition::Oneshot.holds(
            status,
            current_track,
            queue_current,
            selected,
            searching,
            query,
        )),
{
}

} // verus!
