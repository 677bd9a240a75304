use simai_parser::events::{EventDuration, SlideWaitDuration};
use simai_parser::parser::{field_with_num, file_field_line, file_field_start, simai_file, slide};
use simai_parser::scan::scan_multispace0;
use simai_parser::{Button, Slide, SlidePattern, SlideTrack};

#[test]
fn file_field() {
    let (s, value) = file_field_start("&title=some title 123", "title").unwrap();
    assert_eq!(value, "title");
    assert_eq!(s, "some title 123");

    let (s, value) = file_field_line("&title=some title 123", "title").unwrap();
    assert_eq!(value, "some title 123");
    assert!(s.is_empty());

    let input = "&title=some title 123\n&artist=some artist";
    let (s, title) = file_field_line(input, "title").unwrap();
    let (s, _) = scan_multispace0(s).unwrap();
    let (s, artist) = file_field_line(s, "artist").unwrap();
    assert_eq!(title, "some title 123");
    assert_eq!(artist, "some artist");
    assert!(s.is_empty());

    let (s, num) = field_with_num("_123=foo").unwrap();
    assert_eq!(s, "=foo");
    assert_eq!(num, 123);
}

#[test]
fn fields() {
    let file = "&title=some title 123";
    let (s, file) = simai_file(file).unwrap();

    assert!(s.is_empty());
    assert_eq!(file.title, Some("some title 123"));

    let file = "&lv_1=lv 1\n&lv_2=lv 2";
    let (s, file) = simai_file(file).unwrap();
    assert!(s.is_empty());
    assert_eq!(file.level_names.len(), 2);
    assert_eq!(file.level_names.get(&1), Some(&"lv 1"));
    assert_eq!(file.level_names.get(&2), Some(&"lv 2"));

    let file = "&des=des 0\n&des_1=des 1";
    let (s, file) = simai_file(file).unwrap();
    assert!(s.is_empty());
    assert_eq!(file.designers.len(), 2);
    assert_eq!(file.designers.get(&0), Some(&"des 0"));
    assert_eq!(file.designers.get(&1), Some(&"des 1"));

    let file = r#"&title=some title 123
&artist=some artist
&first=-1.337
&des=des 0
&des_1=des 1
&wholebpm=120.5
&lv_2=lv 2
&lv_1=lv 1"#;

    let (s, file) = simai_file(file).unwrap();
    assert!(s.is_empty());
    assert_eq!(file.title, Some("some title 123"));
    assert_eq!(file.artist, Some("some artist"));
    assert_eq!(file.first.parse::<f64>().unwrap(), -1.337);
    assert_eq!(file.wholebpm.map(|b| b.parse::<f64>().unwrap()), Some(120.5));
    assert_eq!(file.designers.len(), 2);
    assert_eq!(file.designers.get(&0), Some(&"des 0"));
    assert_eq!(file.designers.get(&1), Some(&"des 1"));
    assert_eq!(file.level_names.len(), 2);
    assert_eq!(file.level_names.get(&1), Some(&"lv 1"));
    assert_eq!(file.level_names.get(&2), Some(&"lv 2"));

    let (s, file) = simai_file("").unwrap();
    assert!(s.is_empty());
    assert_eq!(file.first.parse::<f64>().unwrap(), 0.);
}

#[test]
fn slide_min() {
    let (_, res) = slide("1-4[1:2]").unwrap();
    assert_eq!(res.start, Button::A1);
    assert!(!res.break_note);
    assert!(res.multi.is_empty());
    assert_eq!(
        res.slide.slide,
        Slide {
            start: Button::A1,
            break_note: false,
            break_slide: false,
            wait_duration: "0",
            tracks: Vec::new()
        }
    );
    assert!(matches!(
        res.slide.wait,
        SlideWaitDuration::OneBeatAtCurrentBpm
    ));
    assert_eq!(res.slide.tracks.len(), 1);
    let track = &res.slide.tracks[0];
    assert_eq!(
        track.track,
        SlideTrack {
            start: Button::A1,
            end: Button::A4,
            duration: "0",
            variant: SlidePattern::Line
        }
    );
    assert!(
        matches!(track.length, EventDuration::LengthNoteDiv(div) if div.0 == 1 && div.1 == 2)
    );
}

fn num(s: &str) -> f64 {
    s.parse().unwrap()
}

#[test]
fn slide_durations() {
    let (_, res) = slide("1-4[160#8:3]").unwrap();
    assert!(matches!(
        res.slide.wait,
        SlideWaitDuration::OneBeatAtBpm(bpm) if num(bpm) == 160.
    ));
    assert!(
        matches!(res.slide.tracks[0].length, EventDuration::BpmWithNoteDiv((bpm, div)) if num(bpm) == 160. && div.0 == 8 && div.1 == 3)
    );

    let (_, res) = slide("1-4[160#2]").unwrap();
    assert!(matches!(
        res.slide.wait,
        SlideWaitDuration::OneBeatAtBpm(bpm) if num(bpm) == 160.
    ));
    assert!(matches!(res.slide.tracks[0].length, EventDuration::Seconds(secs) if num(secs) == 2.));

    let (_, res) = slide("1-4[3##1.5]").unwrap();
    assert!(matches!(
        res.slide.wait,
        SlideWaitDuration::Seconds(secs) if num(secs) == 3.
    ));
    assert!(matches!(res.slide.tracks[0].length, EventDuration::Seconds(secs) if num(secs) == 1.5));

    let (_, res) = slide("1-4[3##8:3]").unwrap();
    assert!(matches!(
        res.slide.wait,
        SlideWaitDuration::Seconds(secs) if num(secs) == 3.
    ));
    assert!(
        matches!(res.slide.tracks[0].length, EventDuration::LengthNoteDiv(div) if div.0 == 8 && div.1 == 3)
    );

    let (_, res) = slide("1-4[3##160#8:3]").unwrap();
    assert!(matches!(
        res.slide.wait,
        SlideWaitDuration::Seconds(secs) if num(secs) == 3.
    ));
    assert!(
        matches!(res.slide.tracks[0].length, EventDuration::BpmWithNoteDiv((bpm, div)) if num(bpm) == 160. && div.0 == 8 && div.1 == 3)
    );
}
