use simai_parser::events::{EventDuration, Events, SlideWaitDuration};
use simai_parser::parser::{
    event, event_duration, hold, map_start, simai_file, simai_file_outcome, simai_map, slide,
    slide_pattern, slide_wait, tap, tap_each,
};
use simai_parser::{Button, DuplicateFieldError, ParseError, SimaiMap, SimaiOutcome, SlidePattern, Tap};

#[test]
fn button_numbers() {
    assert_eq!(Button::new(0), None);
    assert_eq!(Button::new(1), Some(Button::A1));
    assert_eq!(Button::new(4), Some(Button::A4));
    assert_eq!(Button::new(8), Some(Button::A8));
    assert_eq!(Button::new(9), None);
    assert_eq!(Button::new(255), None);
    assert_eq!(Button::A1.number(), 1);
    assert_eq!(Button::A8.number(), 8);
    for v in 1..=8u8 {
        assert_eq!(Button::new(v).unwrap().number(), v);
    }
}

#[test]
fn duplicate_message() {
    assert_eq!(DuplicateFieldError("title").message(), "Duplicate map field `title`");
}

#[test]
fn patterns() {
    let cases = [
        ("-1", SlidePattern::Line),
        (">1", SlidePattern::ArcRight),
        ("<1", SlidePattern::ArcLeft),
        ("^1", SlidePattern::ArcShort),
        ("s1", SlidePattern::Thunder_s),
        ("z1", SlidePattern::Thunder_z),
        ("w1", SlidePattern::Fan),
        ("pp1", SlidePattern::Grand_p),
        ("qq1", SlidePattern::Grand_q),
        ("p1", SlidePattern::Shape_p),
        ("q1", SlidePattern::Shape_q),
        ("V3-", SlidePattern::Grand_v { middle: Button::A3 }),
    ];
    for (text, pattern) in cases {
        let (rest, p) = slide_pattern(text).unwrap();
        assert_eq!(p, pattern);
        assert_eq!(rest, if text == "V3-" { "-" } else { "1" });
    }
    assert_eq!(slide_pattern("x1"), Err(ParseError::Error));
    // A V with no middle button stops everything.
    assert_eq!(slide_pattern("V9"), Err(ParseError::Failure));
    assert_eq!(slide_pattern("V"), Err(ParseError::Failure));
    // the button reader takes every digit: `V31` names no button
    assert_eq!(slide_pattern("V31"), Err(ParseError::Failure));
}

#[test]
fn durations() {
    assert_eq!(event_duration("4:1]"), Ok(("]", EventDuration::LengthNoteDiv((4, 1)))));
    assert_eq!(event_duration("#2.5]"), Ok(("]", EventDuration::Seconds("2.5"))));
    assert_eq!(event_duration("150#4:1]"), Ok(("]", EventDuration::BpmWithNoteDiv(("150", (4, 1))))));
    assert_eq!(event_duration("x"), Err(ParseError::Error));
    // an exponent with no digits is a failure
    assert_eq!(event_duration("#1e]"), Err(ParseError::Failure));
}

#[test]
fn waits() {
    assert_eq!(slide_wait("3##1.5]"), Ok(("#1.5]", SlideWaitDuration::Seconds("3"))));
    assert_eq!(slide_wait("3##8:3]"), Ok(("8:3]", SlideWaitDuration::Seconds("3"))));
    assert_eq!(slide_wait("160#2]"), Ok(("#2]", SlideWaitDuration::OneBeatAtBpm("160"))));
    assert_eq!(slide_wait("160#8:3]"), Ok(("160#8:3]", SlideWaitDuration::OneBeatAtBpm("160"))));
    assert_eq!(slide_wait("8:3]"), Ok(("8:3]", SlideWaitDuration::OneBeatAtCurrentBpm)));
}

#[test]
fn slides() {
    let (rest, e) = slide("1b>5[4:1]b*-3[8:1],").unwrap();
    assert_eq!(rest, ",");
    assert_eq!(e.start, Button::A1);
    assert!(e.break_note);
    assert!(e.slide.slide.break_slide);
    assert_eq!(e.slide.tracks.len(), 1);
    assert_eq!(e.slide.tracks[0].track.variant, SlidePattern::ArcRight);
    assert_eq!(e.slide.tracks[0].track.end, Button::A5);
    assert_eq!(e.multi.len(), 1);
    assert!(!e.multi[0].slide.break_slide);
    assert_eq!(e.multi[0].tracks[0].track.end, Button::A3);
    assert_eq!(e.multi[0].tracks[0].length, EventDuration::LengthNoteDiv((8, 1)));

    // tracks sharing one length
    let (_, e) = slide("1-4>6[8:1]").unwrap();
    assert_eq!(e.slide.tracks.len(), 2);
    assert_eq!(e.slide.tracks[1].track.end, Button::A6);
    assert_eq!(e.slide.tracks[1].length, EventDuration::LengthNoteDiv((8, 1)));
    assert_eq!(e.slide.tracks[0].length, EventDuration::LengthNoteDiv((8, 1)));

    // tracks each with their own length; the wait is the first one's
    let (_, e) = slide("1-4[2##8:1]-6[4:1]").unwrap();
    assert_eq!(e.slide.tracks.len(), 2);
    assert_eq!(e.slide.wait, SlideWaitDuration::Seconds("2"));
    assert_eq!(e.slide.tracks[1].length, EventDuration::LengthNoteDiv((4, 1)));

    assert_eq!(slide("1"), Err(ParseError::Error));
    assert_eq!(slide("1-4"), Err(ParseError::Error));
    assert_eq!(slide("1V9[1:2]"), Err(ParseError::Failure));
}

#[test]
fn notes() {
    assert_eq!(tap("3b,"), Ok((",", Tap { button: Button::A3, break_: true })));
    assert_eq!(tap("9"), Err(ParseError::Error));
    // the button reader takes every digit, so two buttons written together never parse
    assert_eq!(tap_each("15"), Err(ParseError::Error));
    let (rest, (h, d)) = hold("2hb[#1.5],").unwrap();
    assert_eq!(rest, ",");
    assert_eq!(h.button, Button::A2);
    assert!(h.break_);
    assert_eq!(h.length, "0");
    assert_eq!(d, EventDuration::Seconds("1.5"));
    assert_eq!(event("1/2 ,"), Ok(("/2 ,", Events::Tap(Tap { button: Button::A1, break_: false }))));
    assert_eq!(event("(150) 1"), Ok(("1", Events::Bpm("150"))));
    assert_eq!(event("{8}\n"), Ok(("", Events::LengthDivider(8))));
    assert_eq!(event(", "), Ok(("", Events::Sep)));
}

#[test]
fn chart_start() {
    let (rest, (t, d)) = map_start("{4}(120)1,E").unwrap();
    assert_eq!(rest, "1,E");
    assert_eq!(t, Events::Bpm("120"));
    assert_eq!(d, Events::LengthDivider(4));
    let (_, (t, _)) = map_start(" #2 {4}").unwrap();
    assert_eq!(t, Events::ExplicitDuration("2"));
    assert_eq!(map_start("1,E"), Err(ParseError::Error));
}

#[test]
fn charts() {
    let (rest, c) = simai_map("&inote_1=(120){4}1/2h[4:1],E\nrest").unwrap();
    assert_eq!(rest, "\nrest");
    assert_eq!(c.number, 1);
    assert_eq!(c.events.len(), 2);
    assert_eq!(c.events[0].first, Events::Tap(Tap { button: Button::A1, break_: false }));
    assert_eq!(c.events[0].rest.len(), 1);
    assert_eq!(c.events[1].first, Events::Sep);
    // a chart with no start is a failure
    assert_eq!(simai_map("&inote_1=1,E").map(|_| ()), Err(ParseError::Failure));
    // a chart with no closing E
    assert_eq!(simai_map("&inote_1=(120){4}1,").map(|_| ()), Err(ParseError::Failure));
    assert_eq!(simai_map("&title=x").map(|_| ()), Err(ParseError::Error));
}

#[test]
fn file_outcomes() {
    match simai_file_outcome("&title=a\n&inote_2=(120){4}1,E\n") {
        SimaiOutcome::Parsed(rest, f) => {
            assert_eq!(rest, "");
            assert_eq!(f.maps.len(), 1);
            assert_eq!(f.maps.get(&2), Some(&SimaiMap {}));
        },
        other => panic!("unexpected {:?}", other),
    }
    match simai_file_outcome("&title=a\n&title=b") {
        SimaiOutcome::Duplicate(d) => assert_eq!(d.0, "title"),
        other => panic!("unexpected {:?}", other),
    }
    match simai_file_outcome("garbage") {
        SimaiOutcome::Failed(e) => assert_eq!(e, ParseError::Error),
        other => panic!("unexpected {:?}", other),
    }
    match simai_file_outcome("&first=1e") {
        SimaiOutcome::Failed(e) => assert_eq!(e, ParseError::Failure),
        other => panic!("unexpected {:?}", other),
    }
    match simai_file_outcome("&inote_1=x") {
        SimaiOutcome::Failed(e) => assert_eq!(e, ParseError::Failure),
        other => panic!("unexpected {:?}", other),
    }
    match simai_file_outcome("&title=a\r\n&artist=b\r\n") {
        SimaiOutcome::Parsed(rest, f) => {
            assert_eq!(rest, "");
            assert_eq!(f.title, Some("a"));
            assert_eq!(f.artist, Some("b"));
        },
        other => panic!("unexpected {:?}", other),
    }
    // a lone carriage return ends no line
    assert!(matches!(simai_file_outcome("&title=a\rb"), SimaiOutcome::Failed(ParseError::Error)));
}

#[test]
fn other_fields_and_numbers() {
    let (_, f) = simai_file("&foo=bar\n&foo=baz\n&x=1").unwrap();
    assert_eq!(f.other_fields.get("foo"), Some("baz"));
    assert_eq!(f.other_fields.get("x"), Some("1"));
    assert_eq!(f.other_fields.get("y"), None);
    assert_eq!(f.other_fields.entries().len(), 3);
    // a number field reads the number at the start of the line
    let (_, f) = simai_file("&first=1.5abc").unwrap();
    assert_eq!(f.first, "1.5");
    // a number field without a number is an ordinary field
    let (_, f) = simai_file("&first=abc").unwrap();
    assert_eq!(f.first, "0");
    assert_eq!(f.other_fields.get("first"), Some("abc"));
    let (_, f) = simai_file("&wholebpm=INF").unwrap();
    assert_eq!(f.wholebpm, Some("INF"));
    // designers without a number are number 0; `&designer=` is an ordinary field
    let (_, f) = simai_file("&des=a\n&designer=b").unwrap();
    assert_eq!(f.designers.get(&0), Some(&"a"));
    assert_eq!(f.other_fields.get("designer"), Some("b"));
    // the last value of a field wins
    let (_, f) = simai_file("&artist=a\n&artist=b\n&lv_3=x\n&lv_3=y").unwrap();
    assert_eq!(f.artist, Some("b"));
    assert_eq!(f.level_names.get(&3), Some(&"y"));
    assert!(f.maps.is_empty());
}

#[test]
fn laws_on_values() {
    // leading spaces change nothing
    let a = simai_file("&title=t\n&lv_1=x").unwrap();
    let b = simai_file(" \n\t&title=t\n&lv_1=x").unwrap();
    assert_eq!(a.0, b.0);
    assert_eq!(a.1.title, b.1.title);
    assert_eq!(a.1.level_names, b.1.level_names);
    // fields setting different things commute
    let c = simai_file("&lv_1=x\n&title=t").unwrap();
    assert_eq!(a.1.title, c.1.title);
    assert_eq!(a.1.level_names, c.1.level_names);
    // every slide has a track
    let (_, e) = slide("1-2[1:1]*>3[1:1]").unwrap();
    assert!(!e.slide.tracks.is_empty());
    assert!(e.multi.iter().all(|m| !m.tracks.is_empty()));
    // a title line gives a file with that title
    let (rest, f) = simai_file("&title=x y z").unwrap();
    assert_eq!(rest, "");
    assert_eq!(f.title, Some("x y z"));
    assert_eq!(f.first, "0");
    assert!(f.designers.is_empty());
}

#[test]
fn files_with_charts() {
    let (rest, f) = simai_file("&title=t\n&inote_2=(120){4}1,E").unwrap();
    assert_eq!(rest, "");
    assert_eq!(f.title, Some("t"));
    assert_eq!(f.maps.len(), 1);
    assert!(f.maps.contains_key(&2));
    assert!(f.other_fields.entries().is_empty());

    // several charts, with fields between and after them
    let input = "&title=t\n&inote_1={8}(150)\n1,2,\n3/4,E\n&lv_1=x\n&inote_5=#2{1}E\n&des=d\n";
    let (_, f) = simai_file(input).unwrap();
    assert_eq!(f.maps.len(), 2);
    assert!(f.maps.contains_key(&1));
    assert!(f.maps.contains_key(&5));
    assert_eq!(f.level_names.get(&1), Some(&"x"));
    assert_eq!(f.designers.get(&0), Some(&"d"));

    // once `&inote_N=` is read the field is a chart or nothing: no ordinary field
    assert_eq!(simai_file("&inote_1=oops").map(|_| ()), Err(ParseError::Failure));
    // `&inote=` (no number) is an ordinary field
    let (_, f) = simai_file("&inote=x").unwrap();
    assert_eq!(f.other_fields.get("inote"), Some("x"));
    assert!(f.maps.is_empty());
}
