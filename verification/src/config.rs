//! The configuration tree: widgets, text templates and conditions.

use crate::layout::Policy;
use crate::style::AddStyle;
use vstd::prelude::*;

verus! {

/// A node of the screen layout.
#[derive(Debug, PartialEq, Eq)]
pub enum Widget {
    /// Children stacked from top to bottom.
    Rows(Vec<Constrained<Widget>>),
    /// Children side by side, from left to right.
    Columns(Vec<Constrained<Widget>>),
    /// One line of text, aligned left.
    Textbox(Texts),
    /// One line of text, centred.
    TextboxC(Texts),
    /// One line of text, aligned right.
    TextboxR(Texts),
    /// The queue as a table, one column per entry.
    Queue(Vec<Column>),
}

/// A child together with the policy that sizes it along its parent's axis.
#[derive(Debug, PartialEq, Eq)]
pub enum Constrained<T> {
    /// Exactly so many cells.
    Fixed(u16, T),
    /// At most so many cells.
    Max(u16, T),
    /// At least so many cells.
    Min(u16, T),
    /// A share of the space, weighted against the sibling ratios.
    Ratio(u32, T),
}

/// One column of the queue table.
#[derive(Debug, PartialEq, Eq)]
pub struct Column {
    pub item: Constrained<Texts>,
    pub style: Vec<AddStyle>,
    pub selected_style: Vec<AddStyle>,
}

/// A text template.
#[derive(Debug, PartialEq, Eq)]
pub enum Texts {
    Empty,
    Text(String),
    CurrentElapsed,
    CurrentDuration,
    CurrentFile,
    CurrentTitle,
    CurrentArtist,
    CurrentAlbum,
    QueueDuration,
    QueueFile,
    QueueTitle,
    QueueArtist,
    QueueAlbum,
    Query,
    Styled(Vec<AddStyle>, Box<Texts>),
    Parts(Vec<Texts>),
    If(Condition, Box<Texts>, Option<Box<Texts>>),
}

/// A condition over the player's state and the row being drawn.
#[derive(Debug, PartialEq, Eq)]
pub enum Condition {
    Repeat,
    Random,
    Single,
    Oneshot,
    Consume,
    Playing,
    Paused,
    Stopped,
    TitleExist,
    ArtistExist,
    AlbumExist,
    QueueCurrent,
    Selected,
    Searching,
    Filtered,
    Not(Box<Condition>),
    And(Box<Condition>, Box<Condition>),
    Or(Box<Condition>, Box<Condition>),
    Xor(Box<Condition>, Box<Condition>),
}

impl<T> Constrained<T> {
    /// The sizing policy, without the child.
    pub open spec fn spec_policy(&self) -> Policy {
        match self {
            Constrained::Fixed(n, _) => Policy::Fixed(*n),
            Constrained::Max(n, _) => Policy::Max(*n),
            Constrained::Min(n, _) => Policy::Min(*n),
            Constrained::Ratio(n, _) => Policy::Ratio(*n),
        }
    }

    /// The child, without the sizing policy.
    pub open spec fn spec_inner(&self) -> &T {
        match self {
            Constrained::Fixed(_, x) => x,
            Constrained::Max(_, x) => x,
            Constrained::Min(_, x) => x,
            Constrained::Ratio(_, x) => x,
        }
    }

    /// The sizing policy, without the child.
    #[verifier::when_used_as_spec(spec_policy)]
    pub fn policy(&self) -> (p: Policy)
        ensures
            p == self.spec_policy(),
    {
        match self {
            Constrained::Fixed(n, _) => Policy::Fixed(*n),
            Constrained::Max(n, _) => Policy::Max(*n),
            Constrained::Min(n, _) => Policy::Min(*n),
            Constrained::Ratio(n, _) => Policy::Ratio(*n),
        }
    }

    /// The child, without the sizing policy.
    #[verifier::when_used_as_spec(spec_inner)]
    pub fn inner(&self) -> (x: &T)
        ensures
            x == self.spec_inner(),
    {
        match self {
            Constrained::Fixed(_, x) => x,
            Constrained::Max(_, x) => x,
            Constrained::Min(_, x) => x,
            Constrained::Ratio(_, x) => x,
        }
    }
}

/// The keywords with which a text template is written in tagged form.
#[derive(Clone, Copy, Debug, PartialEq, Eq)]
pub enum Variant {
    Text,
    CurrentElapsed,
    CurrentDuration,
    CurrentFile,
    CurrentTitle,
    CurrentArtist,
    CurrentAlbum,
    QueueDuration,
    QueueFile,
    QueueTitle,
    QueueArtist,
    QueueAlbum,
    Query,
    Styled,
    Parts,
    If,
    IfNot,
}

/// A template in tuple form has too few arguments: only so many were found.
#[derive(Clone, Copy, Debug, PartialEq, Eq)]
pub struct InvalidLength(pub usize);

impl Variant {
    /// The template that the keyword stands for by itself; none for a keyword that takes
    /// arguments.
    pub open spec fn spec_keyword(self) -> Option<Texts> {
        match self {
            Variant::CurrentElapsed => Some(Texts::CurrentElapsed),
            Variant::CurrentDuration => Some(Texts::CurrentDuration),
            Variant::CurrentFile => Some(Texts::CurrentFile),
            Variant::CurrentTitle => Some(Texts::CurrentTitle),
            Variant::CurrentArtist => Some(Texts::CurrentArtist),
            Variant::CurrentAlbum => Some(Texts::CurrentAlbum),
            Variant::QueueDuration => Some(Texts::QueueDuration),
            Variant::QueueFile => Some(Texts::QueueFile),
            Variant::QueueTitle => Some(Texts::QueueTitle),
            Variant::QueueArtist => Some(Texts::QueueArtist),
            Variant::QueueAlbum => Some(Texts::QueueAlbum),
            Variant::Query => Some(Texts::Query),
            Variant::Text | Variant::Styled | Variant::Parts | Variant::If | Variant::IfNot => None,
        }
    }

    /// The template that the keyword stands for by itself; none for a keyword that takes
    /// arguments.
    #[verifier::when_used_as_spec(spec_keyword)]
    pub fn keyword(self) -> (r: Option<Texts>)
        ensures
            r == self.spec_keyword(),
    {
        match self {
            Variant::CurrentElapsed => Some(Texts::CurrentElapsed),
            Variant::CurrentDuration => Some(Texts::CurrentDuration),
            Variant::CurrentFile => Some(Texts::CurrentFile),
            Variant::CurrentTitle => Some(Texts::CurrentTitle),
            Variant::CurrentArtist => Some(Texts::CurrentArtist),
            Variant::CurrentAlbum => Some(Texts::CurrentAlbum),
            Variant::QueueDuration => Some(Texts::QueueDuration),
            Variant::QueueFile => Some(Texts::QueueFile),
            Variant::QueueTitle => Some(Texts::QueueTitle),
            Variant::QueueArtist => Some(Texts::QueueArtist),
            Variant::QueueAlbum => Some(Texts::QueueAlbum),
            Variant::Query => Some(Texts::Query),
            _ => None,
        }
    }
}

/// What `Styled` with the arguments that were found stands for: the patch list and the
/// template that it styles are both required.
pub open spec fn spec_styled(styles: Option<Vec<AddStyle>>, inner: Option<Texts>) -> Result<
    Texts,
    InvalidLength,
> {
    match (styles, inner) {
        (None, _) => Err(InvalidLength(0)),
        (Some(_), None) => Err(InvalidLength(1)),
        (Some(s), Some(x)) => Ok(Texts::Styled(s, Box::new(x))),
    }
}

/// Builds the template of a `Styled` from the arguments that were found, in the order in
/// which they are written.
pub fn styled(styles: Option<Vec<AddStyle>>, inner: Option<Texts>) -> (r: Result<
    Texts,
    InvalidLength,
>)
    ensures
        r == spec_styled(styles, inner),
{
    match styles {
        None => Err(InvalidLength(0)),
        Some(s) => match inner {
            None => Err(InvalidLength(1)),
            Some(x) => Ok(Texts::Styled(s, Box::new(x))),
        },
    }
}

/// What `If` with the arguments that were found stands for: the condition and the branch
/// taken when it holds are required, the other branch is optional.
pub open spec fn spec_conditional(
    cond: Option<Condition>,
    yes: Option<Texts>,
    no: Option<Texts>,
) -> Result<Texts, InvalidLength> {
    match (cond, yes) {
        (None, _) => Err(InvalidLength(0)),
        (Some(_), None) => Err(InvalidLength(1)),
        (Some(c), Some(y)) => Ok(
            Texts::If(
                c,
                Box::new(y),
                match no {
                    Some(n) => Some(Box::new(n)),
                    None => None,
                },
            ),
        ),
    }
}

/// What `IfNot` with the arguments that were found stands for: the condition and the
/// branch taken when it fails are required; the branch taken when it holds is optional and
/// empty when left out.
pub open spec fn spec_conditional_not(
    cond: Option<Condition>,
    no: Option<Texts>,
    yes: Option<Texts>,
) -> Result<Texts, InvalidLength> {
    match (cond, no) {
        (None, _) => Err(InvalidLength(0)),
        (Some(_), None) => Err(InvalidLength(1)),
        (Some(c), Some(n)) => Ok(
            Texts::If(
                c,
                Box::new(
                    match yes {
                        Some(y) => y,
                        None => Texts::Empty,
                    },
                ),
                Some(Box::new(n)),
            ),
        ),
    }
}

/// Builds the template of an `If` from the arguments that were found, in the order in
/// which they are written.
pub fn conditional(cond: Option<Condition>, yes: Option<Texts>, no: Option<Texts>) -> (r: Result<
    Texts,
    InvalidLength,
>)
    ensures
        r == spec_conditional(cond, yes, no),
{
    match cond {
        None => Err(InvalidLength(0)),
        Some(c) => match yes {
            None => Err(InvalidLength(1)),
            Some(y) => Ok(
                Texts::If(
                    c,
                    Box::new(y),
                    match no {
                        Some(n) => Some(Box::new(n)),
                        None => None,
                    },
                ),
            ),
        },
    }
}

/// Builds the template of an `IfNot` from the arguments that were found, in the order in
/// which they are written: the two branches change places.
pub fn conditional_not(cond: Option<Condition>, no: Option<Texts>, yes: Option<Texts>) -> (r:
    Result<Texts, InvalidLength>)
    ensures
        r == spec_conditional_not(cond, no, yes),
{
    match cond {
        None => Err(InvalidLength(0)),
        Some(c) => match no {
            None => Err(InvalidLength(1)),
            Some(n) => Ok(
                Texts::If(
                    c,
                    Box::new(
                        match yes {
                            Some(y) => y,
                            None => Texts::Empty,
                        },
                    ),
                    Some(Box::new(n)),
                ),
            ),
        },
    }
}

/// `IfNot` with both branches is `If` with the branches in the other order.
pub proof fn lemma_if_not_swaps(cond: Condition, a: Texts, b: Texts)
    ensures
        spec_conditional_not(Some(cond), Some(a), Some(b)) == spec_conditional(
            Some(cond),
            Some(b),
            Some(a),
        ),
{
}

} // verus!
