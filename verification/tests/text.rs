use mmtc::config::{conditional, conditional_not, Condition, Texts};
use mmtc::player::{PlayState, SingleMode, Song, Status, Track};
use mmtc::style::{AddStyle, Color, Style, BOLD, ITALIC};
use mmtc::text::{flatten, format_time, Fragment};

fn plain() -> Style {
    Style { fg: None, bg: None, add_modifier: 0, sub_modifier: 0 }
}

fn status(song: Option<Song>) -> Status {
    Status {
        repeat: false,
        random: false,
        single: SingleMode::Off,
        consume: false,
        queue_len: 2,
        state: PlayState::Playing,
        song,
    }
}

fn track(file: &str, title: Option<&str>, artist: Option<&str>, album: Option<&str>, time: u16) -> Track {
    Track {
        file: file.to_string(),
        artist: artist.map(String::from),
        album: album.map(String::from),
        title: title.map(String::from),
        time,
    }
}

fn frag(text: &str, style: Style) -> Fragment {
    Fragment { text: text.to_string(), style }
}

fn run(xs: &Texts, status: &Status, current: Option<&Track>, row: Option<&Track>, query: &str) -> Vec<Fragment> {
    let mut spans = Vec::new();
    flatten(&mut spans, xs, status, current, row, false, false, false, query, plain());
    spans
}

#[test]
fn time_is_minutes_and_padded_seconds() {
    assert_eq!(format_time(75), "1:15");
    assert_eq!(format_time(5), "0:05");
    assert_eq!(format_time(0), "0:00");
    assert_eq!(format_time(59), "0:59");
    assert_eq!(format_time(60), "1:00");
    assert_eq!(format_time(600), "10:00");
    assert_eq!(format_time(3599), "59:59");
    assert_eq!(format_time(3600), "60:00");
    assert_eq!(format_time(6009), "100:09");
    assert_eq!(format_time(u16::MAX), "1092:15");
}

#[test]
fn time_agrees_with_the_format_for_every_value() {
    for secs in 0..=u16::MAX {
        assert_eq!(format_time(secs), format!("{}:{:02}", secs / 60, secs % 60));
    }
}

#[test]
fn empty_and_literal() {
    let s = status(None);
    assert_eq!(run(&Texts::Empty, &s, None, None, ""), vec![]);
    assert_eq!(run(&Texts::Text("hi".to_string()), &s, None, None, ""), vec![frag("hi", plain())]);
    assert_eq!(run(&Texts::Text(String::new()), &s, None, None, ""), vec![frag("", plain())]);
}

#[test]
fn missing_current_track_emits_nothing() {
    let s = status(None);
    for xs in [
        Texts::CurrentElapsed,
        Texts::CurrentDuration,
        Texts::CurrentFile,
        Texts::CurrentTitle,
        Texts::CurrentArtist,
        Texts::CurrentAlbum,
    ] {
        assert_eq!(run(&xs, &s, None, None, ""), vec![]);
    }
}

#[test]
fn missing_optional_fields_emit_nothing() {
    let s = status(Some(Song { pos: 0, elapsed: 7 }));
    let bare = track("a.mp3", None, None, None, 61);
    for xs in [Texts::CurrentTitle, Texts::CurrentArtist, Texts::CurrentAlbum] {
        assert_eq!(run(&xs, &s, Some(&bare), None, ""), vec![]);
    }
    for xs in [Texts::QueueTitle, Texts::QueueArtist, Texts::QueueAlbum] {
        assert_eq!(run(&xs, &s, None, Some(&bare), ""), vec![]);
    }
    assert_eq!(run(&Texts::CurrentFile, &s, Some(&bare), None, ""), vec![frag("a.mp3", plain())]);
    assert_eq!(run(&Texts::CurrentDuration, &s, Some(&bare), None, ""), vec![frag("1:01", plain())]);
}

#[test]
fn current_fields_read_the_current_track() {
    let s = status(Some(Song { pos: 1, elapsed: 75 }));
    let cur = track("cur.mp3", Some("T"), Some("A"), Some("B"), 300);
    let row = track("row.mp3", Some("t"), Some("a"), Some("b"), 5);
    let cases = [
        (Texts::CurrentElapsed, "1:15"),
        (Texts::CurrentDuration, "5:00"),
        (Texts::CurrentFile, "cur.mp3"),
        (Texts::CurrentTitle, "T"),
        (Texts::CurrentArtist, "A"),
        (Texts::CurrentAlbum, "B"),
        (Texts::QueueDuration, "0:05"),
        (Texts::QueueFile, "row.mp3"),
        (Texts::QueueTitle, "t"),
        (Texts::QueueArtist, "a"),
        (Texts::QueueAlbum, "b"),
    ];
    for (xs, expected) in cases {
        assert_eq!(run(&xs, &s, Some(&cur), Some(&row), ""), vec![frag(expected, plain())]);
    }
}

#[test]
fn queue_fields_outside_a_row_emit_nothing() {
    let s = status(Some(Song { pos: 0, elapsed: 1 }));
    let cur = track("cur.mp3", Some("T"), Some("A"), Some("B"), 300);
    for xs in [Texts::QueueDuration, Texts::QueueFile, Texts::QueueTitle, Texts::QueueArtist, Texts::QueueAlbum] {
        assert_eq!(run(&xs, &s, Some(&cur), None, ""), vec![]);
    }
}

#[test]
fn elapsed_does_not_need_a_track() {
    let s = status(Some(Song { pos: 9, elapsed: 5 }));
    assert_eq!(run(&Texts::CurrentElapsed, &s, None, None, ""), vec![frag("0:05", plain())]);
}

#[test]
fn query_is_emitted_verbatim() {
    let s = status(None);
    assert_eq!(run(&Texts::Query, &s, None, None, "Ab c"), vec![frag("Ab c", plain())]);
    assert_eq!(run(&Texts::Query, &s, None, None, ""), vec![frag("", plain())]);
}

#[test]
fn flatten_appends_and_never_replaces() {
    let s = status(None);
    let seen = frag("before", Style { fg: Some(Color::Red), bg: None, add_modifier: BOLD, sub_modifier: 0 });
    let mut spans = vec![seen.clone()];
    flatten(&mut spans, &Texts::Text("x".to_string()), &s, None, None, false, false, false, "", plain());
    assert_eq!(spans, vec![seen.clone(), frag("x", plain())]);
    flatten(&mut spans, &Texts::CurrentTitle, &s, None, None, false, false, false, "", plain());
    assert_eq!(spans, vec![seen, frag("x", plain())]);
}

#[test]
fn parts_flatten_in_order_under_the_inherited_style() {
    let s = status(None);
    let base = Style { fg: Some(Color::Green), bg: None, add_modifier: 0, sub_modifier: 0 };
    let xs = Texts::Parts(vec![
        Texts::Text("a".to_string()),
        Texts::Empty,
        Texts::Parts(vec![Texts::Text("b".to_string()), Texts::Query]),
        Texts::Text("c".to_string()),
    ]);
    let mut spans = Vec::new();
    flatten(&mut spans, &xs, &s, None, None, false, false, false, "q", base);
    assert_eq!(spans, vec![frag("a", base), frag("b", base), frag("q", base), frag("c", base)]);
    assert_eq!(run(&Texts::Parts(vec![]), &s, None, None, ""), vec![]);
}

#[test]
fn styled_patches_the_inherited_style_for_its_child_only() {
    let s = status(None);
    let base = Style { fg: Some(Color::Green), bg: None, add_modifier: ITALIC, sub_modifier: 0 };
    let xs = Texts::Parts(vec![
        Texts::Styled(
            vec![AddStyle::Bold, AddStyle::Fg(Color::Red)],
            Box::new(Texts::Parts(vec![
                Texts::Text("in".to_string()),
                Texts::Styled(vec![AddStyle::NoItalic], Box::new(Texts::Text("deep".to_string()))),
            ])),
        ),
        Texts::Text("out".to_string()),
    ]);
    let mut spans = Vec::new();
    flatten(&mut spans, &xs, &s, None, None, false, false, false, "", base);
    let inner = Style { fg: Some(Color::Red), bg: None, add_modifier: ITALIC | BOLD, sub_modifier: 0 };
    let deep = Style { fg: Some(Color::Red), bg: None, add_modifier: BOLD, sub_modifier: ITALIC };
    assert_eq!(spans, vec![frag("in", inner), frag("deep", deep), frag("out", base)]);
}

#[test]
fn conditional_without_else_emits_nothing_when_false() {
    let xs = Texts::If(Condition::Playing, Box::new(Texts::Text("yes".to_string())), None);
    let mut s = status(None);
    assert_eq!(run(&xs, &s, None, None, ""), vec![frag("yes", plain())]);
    s.state = PlayState::Paused;
    assert_eq!(run(&xs, &s, None, None, ""), vec![]);
}

#[test]
fn conditional_sees_the_row_flags() {
    let s = status(None);
    let xs = Texts::If(
        Condition::And(Box::new(Condition::Selected), Box::new(Condition::Not(Box::new(Condition::QueueCurrent)))),
        Box::new(Texts::Text(">".to_string())),
        Some(Box::new(Texts::Text(" ".to_string()))),
    );
    let mut spans = Vec::new();
    flatten(&mut spans, &xs, &s, None, None, false, true, false, "", plain());
    flatten(&mut spans, &xs, &s, None, None, true, true, false, "", plain());
    flatten(&mut spans, &xs, &s, None, None, false, false, false, "", plain());
    assert_eq!(spans, vec![frag(">", plain()), frag(" ", plain()), frag(" ", plain())]);
}

#[test]
fn title_or_file_in_plain_and_reversed_form() {
    let s = status(Some(Song { pos: 0, elapsed: 0 }));
    let titled = track("a.mp3", Some("Song A"), None, None, 10);
    let untitled = track("b.mp3", None, None, None, 10);
    let plain_form =
        conditional(Some(Condition::TitleExist), Some(Texts::CurrentTitle), Some(Texts::CurrentFile)).unwrap();
    let reversed_form =
        conditional_not(Some(Condition::TitleExist), Some(Texts::CurrentFile), Some(Texts::CurrentTitle)).unwrap();
    assert_eq!(
        plain_form,
        Texts::If(Condition::TitleExist, Box::new(Texts::CurrentTitle), Some(Box::new(Texts::CurrentFile)))
    );
    assert_eq!(plain_form, reversed_form);
    for xs in [&plain_form, &reversed_form] {
        assert_eq!(run(xs, &s, Some(&titled), None, ""), vec![frag("Song A", plain())]);
        assert_eq!(run(xs, &s, Some(&untitled), None, ""), vec![frag("b.mp3", plain())]);
    }
}
