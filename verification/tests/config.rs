use mmtc::config::{
    conditional, conditional_not, styled, Column, Condition, Constrained, InvalidLength, Texts, Variant, Widget,
};
use mmtc::style::AddStyle;
use mmtc::layout::Policy;

#[test]
fn if_needs_a_condition() {
    assert_eq!(conditional(None, None, None), Err(InvalidLength(0)));
    assert_eq!(conditional(None, Some(Texts::Empty), Some(Texts::Empty)), Err(InvalidLength(0)));
    assert_eq!(conditional_not(None, None, None), Err(InvalidLength(0)));
    assert_eq!(conditional_not(None, Some(Texts::Query), None), Err(InvalidLength(0)));
}

#[test]
fn if_needs_its_first_branch() {
    assert_eq!(conditional(Some(Condition::Playing), None, None), Err(InvalidLength(1)));
    assert_eq!(conditional(Some(Condition::Playing), None, Some(Texts::Query)), Err(InvalidLength(1)));
    assert_eq!(conditional_not(Some(Condition::Playing), None, None), Err(InvalidLength(1)));
    assert_eq!(conditional_not(Some(Condition::Playing), None, Some(Texts::Query)), Err(InvalidLength(1)));
}

#[test]
fn if_with_two_arguments_has_no_else() {
    assert_eq!(
        conditional(Some(Condition::Repeat), Some(Texts::Query), None),
        Ok(Texts::If(Condition::Repeat, Box::new(Texts::Query), None))
    );
}

#[test]
fn if_with_three_arguments() {
    assert_eq!(
        conditional(Some(Condition::Repeat), Some(Texts::Query), Some(Texts::CurrentFile)),
        Ok(Texts::If(Condition::Repeat, Box::new(Texts::Query), Some(Box::new(Texts::CurrentFile))))
    );
}

#[test]
fn if_not_swaps_its_branches() {
    assert_eq!(
        conditional_not(Some(Condition::Repeat), Some(Texts::Query), Some(Texts::CurrentFile)),
        Ok(Texts::If(Condition::Repeat, Box::new(Texts::CurrentFile), Some(Box::new(Texts::Query))))
    );
    assert_eq!(
        conditional_not(Some(Condition::Repeat), Some(Texts::Query), Some(Texts::CurrentFile)),
        conditional(Some(Condition::Repeat), Some(Texts::CurrentFile), Some(Texts::Query))
    );
}

#[test]
fn if_not_with_two_arguments_is_empty_when_the_condition_holds() {
    assert_eq!(
        conditional_not(Some(Condition::Repeat), Some(Texts::Query), None),
        Ok(Texts::If(Condition::Repeat, Box::new(Texts::Empty), Some(Box::new(Texts::Query))))
    );
}

#[test]
fn keywords_stand_for_their_templates() {
    let cases = [
        (Variant::CurrentElapsed, Texts::CurrentElapsed),
        (Variant::CurrentDuration, Texts::CurrentDuration),
        (Variant::CurrentFile, Texts::CurrentFile),
        (Variant::CurrentTitle, Texts::CurrentTitle),
        (Variant::CurrentArtist, Texts::CurrentArtist),
        (Variant::CurrentAlbum, Texts::CurrentAlbum),
        (Variant::QueueDuration, Texts::QueueDuration),
        (Variant::QueueFile, Texts::QueueFile),
        (Variant::QueueTitle, Texts::QueueTitle),
        (Variant::QueueArtist, Texts::QueueArtist),
        (Variant::QueueAlbum, Texts::QueueAlbum),
        (Variant::Query, Texts::Query),
    ];
    for (variant, texts) in cases {
        assert_eq!(variant.keyword(), Some(texts));
    }
    for variant in [Variant::Text, Variant::Styled, Variant::Parts, Variant::If, Variant::IfNot] {
        assert_eq!(variant.keyword(), None);
    }
}

#[test]
fn constrained_gives_policy_and_child() {
    let cases = [
        (Constrained::Fixed(3, Texts::Query), Policy::Fixed(3)),
        (Constrained::Max(4, Texts::Query), Policy::Max(4)),
        (Constrained::Min(5, Texts::Query), Policy::Min(5)),
        (Constrained::Ratio(6, Texts::Query), Policy::Ratio(6)),
    ];
    for (c, p) in cases {
        assert_eq!(c.policy(), p);
        assert_eq!(c.inner(), &Texts::Query);
    }
}

#[test]
fn widget_is_well_formed_while_the_ratios_fit() {
    let leaf = || Widget::Textbox(Texts::Empty);
    assert!(leaf().is_wf());
    assert!(Widget::Rows(vec![]).is_wf());
    let fits = Widget::Rows(vec![
        Constrained::Ratio(u32::MAX - 1, leaf()),
        Constrained::Fixed(u16::MAX, leaf()),
        Constrained::Ratio(1, leaf()),
    ]);
    assert!(fits.is_wf());
    let over = Widget::Columns(vec![Constrained::Ratio(u32::MAX, leaf()), Constrained::Ratio(1, leaf())]);
    assert!(!over.is_wf());
    let nested = Widget::Rows(vec![Constrained::Min(0, leaf()), Constrained::Max(1, over)]);
    assert!(!nested.is_wf());
    let column = |w: u32| Column { item: Constrained::Ratio(w, Texts::QueueTitle), style: vec![], selected_style: vec![] };
    assert!(Widget::Queue(vec![column(1), column(2)]).is_wf());
    assert!(!Widget::Queue(vec![column(u32::MAX), column(2)]).is_wf());
    let deep = Widget::Columns(vec![Constrained::Ratio(1, Widget::Queue(vec![column(u32::MAX), column(1)]))]);
    assert!(!deep.is_wf());
}

#[test]
fn styled_needs_both_arguments() {
    assert_eq!(styled(None, None), Err(InvalidLength(0)));
    assert_eq!(styled(None, Some(Texts::Query)), Err(InvalidLength(0)));
    assert_eq!(styled(Some(vec![AddStyle::Bold]), None), Err(InvalidLength(1)));
    assert_eq!(
        styled(Some(vec![AddStyle::Bold, AddStyle::NoDim]), Some(Texts::Query)),
        Ok(Texts::Styled(vec![AddStyle::Bold, AddStyle::NoDim], Box::new(Texts::Query)))
    );
    assert_eq!(styled(Some(vec![]), Some(Texts::Empty)), Ok(Texts::Styled(vec![], Box::new(Texts::Empty))));
}
