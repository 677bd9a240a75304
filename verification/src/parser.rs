//! The chart parser. Each function does what the `spec_*` function of the
//! same name in `grammar` states.
use std::collections::HashMap;
use vstd::prelude::*;

use crate::errors::ParseError;
use crate::events::{
    ChartRead, EventDuration, EventDurationView, EventGroup, Events, Field, FieldView,
    NoteDiv, SlideData, SlideEvent, SlideTrackData, SlideTrackDataView, SlideWaitDuration,
    SlideWaitView,
};
use crate::grammar::{
    artist_name, file_of, first_name, lemma_title_count_prefix, plain_tap, prefixed, res_view_vec,
    SimaiOutcomeView, spec_bpm, spec_bpm_with_note_div, spec_break, spec_button, spec_buttons0,
    spec_chart_events, spec_designer, spec_designer_num, spec_duration_secs, spec_event,
    spec_event_duration, spec_event_group, spec_event_item, spec_field, spec_field_item,
    spec_field_with_num, spec_fields, spec_file_field_line, spec_file_field_start, spec_grand_v,
    spec_hold, spec_inote_header, spec_known_field, spec_length_divider, spec_length_note_div,
    spec_level, spec_map_start, spec_number_field, spec_other_field, spec_pattern_char,
    spec_pattern_pair, spec_peek_note_length, spec_peek_seconds_end, spec_simai_file,
    spec_simai_map, spec_slash_event, spec_slash_events, spec_slide, spec_slide_body,
    spec_slide_len, spec_slide_multi, spec_slide_multis, spec_slide_pattern, spec_slide_wait,
    spec_start_divider, spec_start_tempo, spec_tap, spec_tap_each, spec_track_full, spec_track_step,
    spec_track_steps0, spec_track_steps1, spec_tracks_diff_len, spec_tracks_full0,
    spec_tracks_full1, spec_tracks_same_len, spec_wait_bpm_before_seconds, spec_wait_bpm_peeked,
    spec_wait_seconds_double, spec_wait_seconds_single, title_count, title_name, track_data,
    wholebpm_name, zero_text,
};
use crate::progress::{
    lemma_button, lemma_event_group, lemma_field_item, lemma_slash_event, lemma_slide_multi,
    lemma_track_full, lemma_track_step,
};
use crate::scan::{
    PResult, res_view, scan_char, scan_float, scan_multispace0, scan_not_line_ending, scan_tag,
    scan_take_till_equals, scan_u64, scan_u8, spec_multispace0, SRes,
};
use crate::{
    SimaiMap,
    Button, DuplicateFieldError, FieldTable, Hold, opt_text, SimaiFile, SimaiFileView, SimaiOutcome,
    Slide, SlidePattern, SlideTrack, Tap,
};

verus! {

/// The text `0`, which stands for a number not filled in yet.
fn zero() -> (z: &'static str)
    ensures
        z@ == zero_text(),
{
    let z = "0";
    proof {
        reveal_strlit("0");
        assert(z@ =~= zero_text());
    }
    z
}

/// A button number, 1 to 8.
pub fn button<'a>(input: &'a str) -> (r: PResult<'a, Button>)
    ensures
        res_view(r) == spec_button(input@),
{
    proof {
        reveal(spec_button);
    }
    match scan_u8(input) {
        Ok((rest, v)) => match Button::new(v) {
            Some(b) => Ok((rest, b)),
            None => Err(ParseError::Error),
        },
        Err(e) => Err(e),
    }
}

/// An optional `b`, which marks a break.
pub fn break_<'a>(input: &'a str) -> (r: PResult<'a, bool>)
    ensures
        res_view(r) == spec_break(input@),
{
    proof {
        reveal(spec_break);
    }
    match scan_char(input, 'b') {
        Ok((rest, _)) => Ok((rest, true)),
        Err(ParseError::Error) => Ok((input, false)),
        Err(e) => Err(e),
    }
}

/// `d:n`
pub fn length_note_div<'a>(input: &'a str) -> (r: PResult<'a, NoteDiv>)
    ensures
        res_view(r) == spec_length_note_div(input@),
{
    proof {
        reveal(spec_length_note_div);
    }
    let (r1, a) = match scan_u64(input) {
        Ok(x) => x,
        Err(e) => return Err(e),
    };
    let (r2, _) = match scan_char(r1, ':') {
        Ok(x) => x,
        Err(e) => return Err(e),
    };
    let (r3, b) = match scan_u64(r2) {
        Ok(x) => x,
        Err(e) => return Err(e),
    };
    Ok((r3, (a, b)))
}

/// `#s`: a number of seconds.
pub fn duration_secs<'a>(input: &'a str) -> (r: PResult<'a, &'a str>)
    ensures
        res_view(r) == spec_duration_secs(input@),
{
    proof {
        reveal(spec_duration_secs);
    }
    match scan_char(input, '#') {
        Ok((rest, _)) => scan_float(rest),
        Err(e) => Err(e),
    }
}

/// `b#d:n`
pub fn bpm_with_note_div<'a>(input: &'a str) -> (r: PResult<'a, (&'a str, NoteDiv)>)
    ensures
        res_view(r) == spec_bpm_with_note_div(input@),
{
    proof {
        reveal(spec_bpm_with_note_div);
    }
    let (r1, b) = match scan_float(input) {
        Ok(x) => x,
        Err(e) => return Err(e),
    };
    let (r2, _) = match scan_char(r1, '#') {
        Ok(x) => x,
        Err(e) => return Err(e),
    };
    let (r3, d) = match length_note_div(r2) {
        Ok(x) => x,
        Err(e) => return Err(e),
    };
    Ok((r3, (b, d)))
}

/// The length of an event: `d:n`, `#s` or `b#d:n`.
pub fn event_duration<'a>(input: &'a str) -> (r: PResult<'a, EventDuration<'a>>)
    ensures
        res_view(r) == spec_event_duration(input@),
{
    proof {
        reveal(spec_event_duration);
    }
    match length_note_div(input) {
        Ok((rest, d)) => return Ok((rest, EventDuration::LengthNoteDiv(d))),
        Err(ParseError::Error) => {},
        Err(e) => return Err(e),
    }
    match duration_secs(input) {
        Ok((rest, x)) => return Ok((rest, EventDuration::Seconds(x))),
        Err(ParseError::Error) => {},
        Err(e) => return Err(e),
    }
    match bpm_with_note_div(input) {
        Ok((rest, p)) => Ok((rest, EventDuration::BpmWithNoteDiv(p))),
        Err(e) => Err(e),
    }
}

fn pattern_char<'a>(input: &'a str, c: char, p: SlidePattern) -> (r: PResult<'a, SlidePattern>)
    ensures
        res_view(r) == spec_pattern_char(input@, c, p),
{
    proof {
        reveal(spec_pattern_char);
    }
    match scan_char(input, c) {
        Ok((rest, _)) => Ok((rest, p)),
        Err(e) => Err(e),
    }
}

fn pattern_pair<'a>(input: &'a str, pair: &str, c: char, p: SlidePattern) -> (r: PResult<'a, SlidePattern>)
    requires
        pair@ == seq![c, c],
    ensures
        res_view(r) == spec_pattern_pair(input@, c, p),
{
    proof {
        reveal(spec_pattern_pair);
    }
    match scan_tag(input, pair) {
        Ok((rest, _)) => Ok((rest, p)),
        Err(e) => Err(e),
    }
}

fn grand_v<'a>(input: &'a str) -> (r: PResult<'a, SlidePattern>)
    ensures
        res_view(r) == spec_grand_v(input@),
{
    proof {
        reveal(spec_grand_v);
    }
    let (r1, _) = match scan_char(input, 'V') {
        Ok(x) => x,
        Err(e) => return Err(e),
    };
    match button(r1) {
        Ok((r2, b)) => Ok((r2, SlidePattern::Grand_v { middle: b })),
        Err(_) => Err(ParseError::Failure),
    }
}

/// The pattern of a slide track: `-`, `>`, `<`, `^`, `s`, `z`, `w`, `pp`, `qq`,
/// `p`, `q` or `V` and a middle button.
pub fn slide_pattern<'a>(input: &'a str) -> (r: PResult<'a, SlidePattern>)
    ensures
        res_view(r) == spec_slide_pattern(input@),
{
    proof {
        reveal(spec_slide_pattern);
        reveal_strlit("pp");
        reveal_strlit("qq");
        assert("pp"@ =~= seq!['p', 'p']);
        assert("qq"@ =~= seq!['q', 'q']);
    }
    match pattern_char(input, '-', SlidePattern::Line) {
        Err(ParseError::Error) => {},
        r => return r,
    }
    match pattern_char(input, '>', SlidePattern::ArcRight) {
        Err(ParseError::Error) => {},
        r => return r,
    }
    match pattern_char(input, '<', SlidePattern::ArcLeft) {
        Err(ParseError::Error) => {},
        r => return r,
    }
    match pattern_char(input, '^', SlidePattern::ArcShort) {
        Err(ParseError::Error) => {},
        r => return r,
    }
    match pattern_char(input, 's', SlidePattern::Thunder_s) {
        Err(ParseError::Error) => {},
        r => return r,
    }
    match pattern_char(input, 'z', SlidePattern::Thunder_z) {
        Err(ParseError::Error) => {},
        r => return r,
    }
    match pattern_char(input, 'w', SlidePattern::Fan) {
        Err(ParseError::Error) => {},
        r => return r,
    }
    match pattern_pair(input, "pp", 'p', SlidePattern::Grand_p) {
        Err(ParseError::Error) => {},
        r => return r,
    }
    match pattern_pair(input, "qq", 'q', SlidePattern::Grand_q) {
        Err(ParseError::Error) => {},
        r => return r,
    }
    match pattern_char(input, 'p', SlidePattern::Shape_p) {
        Err(ParseError::Error) => {},
        r => return r,
    }
    match pattern_char(input, 'q', SlidePattern::Shape_q) {
        Err(ParseError::Error) => {},
        r => return r,
    }
    grand_v(input)
}


fn peek_note_length<'a>(input: &'a str) -> (r: PResult<'a, ()>)
    ensures
        res_view(r) == spec_peek_note_length(input@),
{
    proof {
        reveal(spec_peek_note_length);
    }
    match length_note_div(input) {
        Ok(_) => return Ok((input, ())),
        Err(ParseError::Error) => {},
        Err(e) => return Err(e),
    }
    match bpm_with_note_div(input) {
        Ok(_) => Ok((input, ())),
        Err(e) => Err(e),
    }
}

fn wait_seconds_double<'a>(input: &'a str) -> (r: PResult<'a, SlideWaitDuration<'a>>)
    ensures
        res_view(r) == spec_wait_seconds_double(input@),
{
    proof {
        reveal(spec_wait_seconds_double);
        reveal_strlit("##");
        assert("##"@ =~= seq!['#', '#']);
    }
    let (r1, x) = match scan_float(input) {
        Ok(v) => v,
        Err(e) => return Err(e),
    };
    let (r2, _) = match scan_tag(r1, "##") {
        Ok(v) => v,
        Err(e) => return Err(e),
    };
    match peek_note_length(r2) {
        Ok(_) => Ok((r2, SlideWaitDuration::Seconds(x))),
        Err(e) => Err(e),
    }
}

fn wait_seconds_single<'a>(input: &'a str) -> (r: PResult<'a, SlideWaitDuration<'a>>)
    ensures
        res_view(r) == spec_wait_seconds_single(input@),
{
    proof {
        reveal(spec_wait_seconds_single);
    }
    let (r1, x) = match scan_float(input) {
        Ok(v) => v,
        Err(e) => return Err(e),
    };
    let (r2, _) = match scan_char(r1, '#') {
        Ok(v) => v,
        Err(e) => return Err(e),
    };
    match scan_char(r2, '#') {
        Ok(_) => Ok((r2, SlideWaitDuration::Seconds(x))),
        Err(e) => Err(e),
    }
}

fn peek_seconds_end<'a>(input: &'a str) -> (r: PResult<'a, ()>)
    ensures
        res_view(r) == spec_peek_seconds_end(input@),
{
    proof {
        reveal(spec_peek_seconds_end);
    }
    let (r1, _) = match scan_char(input, '#') {
        Ok(v) => v,
        Err(e) => return Err(e),
    };
    let (r2, _) = match scan_float(r1) {
        Ok(v) => v,
        Err(e) => return Err(e),
    };
    match scan_char(r2, ']') {
        Ok(_) => Ok((input, ())),
        Err(e) => Err(e),
    }
}

fn wait_bpm_before_seconds<'a>(input: &'a str) -> (r: PResult<'a, SlideWaitDuration<'a>>)
    ensures
        res_view(r) == spec_wait_bpm_before_seconds(input@),
{
    proof {
        reveal(spec_wait_bpm_before_seconds);
    }
    let (r1, b) = match scan_float(input) {
        Ok(v) => v,
        Err(e) => return Err(e),
    };
    match peek_seconds_end(r1) {
        Ok(_) => Ok((r1, SlideWaitDuration::OneBeatAtBpm(b))),
        Err(e) => Err(e),
    }
}

fn wait_bpm_peeked<'a>(input: &'a str) -> (r: PResult<'a, SlideWaitDuration<'a>>)
    ensures
        res_view(r) == spec_wait_bpm_peeked(input@),
{
    proof {
        reveal(spec_wait_bpm_peeked);
    }
    let (r1, b) = match scan_float(input) {
        Ok(v) => v,
        Err(e) => return Err(e),
    };
    match scan_char(r1, '#') {
        Ok(_) => Ok((input, SlideWaitDuration::OneBeatAtBpm(b))),
        Err(e) => Err(e),
    }
}

/// How long the star waits, written before the length of a slide.
pub fn slide_wait<'a>(input: &'a str) -> (r: PResult<'a, SlideWaitDuration<'a>>)
    ensures
        res_view(r) == spec_slide_wait(input@),
{
    proof {
        reveal(spec_slide_wait);
    }
    match wait_seconds_double(input) {
        Err(ParseError::Error) => {},
        r => return r,
    }
    match wait_seconds_single(input) {
        Err(ParseError::Error) => {},
        r => return r,
    }
    match wait_bpm_before_seconds(input) {
        Err(ParseError::Error) => {},
        r => return r,
    }
    match wait_bpm_peeked(input) {
        Err(ParseError::Error) => {},
        r => return r,
    }
    Ok((input, SlideWaitDuration::OneBeatAtCurrentBpm))
}

/// `[wait length]`
pub fn slide_len<'a>(input: &'a str) -> (r: PResult<'a, (SlideWaitDuration<'a>, EventDuration<'a>)>)
    ensures
        res_view(r) == spec_slide_len(input@),
{
    proof {
        reveal(spec_slide_len);
    }
    let (r1, _) = match scan_char(input, '[') {
        Ok(v) => v,
        Err(e) => return Err(e),
    };
    let (r2, w) = match slide_wait(r1) {
        Ok(v) => v,
        Err(e) => return Err(e),
    };
    let (r3, d) = match event_duration(r2) {
        Ok(v) => v,
        Err(e) => return Err(e),
    };
    match scan_char(r3, ']') {
        Ok((r4, _)) => Ok((r4, (w, d))),
        Err(e) => Err(e),
    }
}

/// A pattern and the button the track ends on.
pub fn track_step<'a>(input: &'a str) -> (r: PResult<'a, (SlidePattern, Button)>)
    ensures
        res_view(r) == spec_track_step(input@),
{
    proof {
        reveal(spec_track_step);
    }
    let (r1, p) = match slide_pattern(input) {
        Ok(v) => v,
        Err(e) => return Err(e),
    };
    match button(r1) {
        Ok((r2, b)) => Ok((r2, (p, b))),
        Err(e) => Err(e),
    }
}

fn track_steps0<'a>(input: &'a str) -> (r: PResult<'a, Vec<(SlidePattern, Button)>>)
    ensures
        res_view(r) == spec_track_steps0(input@),
{
    let mut acc: Vec<(SlidePattern, Button)> = Vec::new();
    let mut cur = input;
    loop
        invariant
            spec_track_steps0(input@) == prefixed(acc@, spec_track_steps0(cur@)),
        decreases cur@.len(),
    {
        proof {
            reveal(spec_track_steps0);
            lemma_track_step(cur@);
        }
        match track_step(cur) {
            Err(ParseError::Error) => {
                assert(acc@ + seq![] =~= acc@);
                return Ok((cur, acc));
            },
            Err(e) => return Err(e),
            Ok((rest, v)) => {
                let ghost old_acc = acc@;
                acc.push(v);
                proof {
                    match spec_track_steps0(rest@) {
                        Ok((r2, vs)) => {
                            assert(old_acc + (seq![v] + vs) =~= acc@ + vs);
                        },
                        Err(_) => {},
                    }
                }
                cur = rest;
            },
        }
    }
}

/// One or more patterns, each with the button it ends on.
pub fn track_steps1<'a>(input: &'a str) -> (r: PResult<'a, Vec<(SlidePattern, Button)>>)
    ensures
        res_view(r) == spec_track_steps1(input@),
{
    proof {
        reveal(spec_track_steps1);
    }
    let (r1, v) = match track_step(input) {
        Ok(x) => x,
        Err(e) => return Err(e),
    };
    match track_steps0(r1) {
        Ok((r2, vs)) => {
            let mut all: Vec<(SlidePattern, Button)> = Vec::new();
            all.push(v);
            let mut rest_of = vs;
            all.append(&mut rest_of);
            proof {
                assert(all@ =~= seq![v] + vs@);
            }
            Ok((r2, all))
        },
        Err(e) => Err(e),
    }
}


/// A result that carries tracks and a wait, seen by their views.
pub open spec fn res_view_tracks<'a>(
    r: Result<(&'a str, (Vec<SlideTrackData<'a>>, SlideWaitDuration<'a>)), ParseError>,
) -> SRes<(Seq<SlideTrackDataView>, SlideWaitView)> {
    match r {
        Ok((rest, (ts, w))) => Ok((rest@, (ts@.map_values(|t: SlideTrackData<'a>| t@), w@))),
        Err(e) => Err(e),
    }
}

/// Tracks that share one length: `1-4>6[8:1]`.
pub fn tracks_same_len<'a>(input: &'a str) -> (r: Result<
    (&'a str, (Vec<SlideTrackData<'a>>, SlideWaitDuration<'a>)),
    ParseError,
>)
    ensures
        res_view_tracks(r) == spec_tracks_same_len(input@),
{
    proof {
        reveal(spec_tracks_same_len);
    }
    let (r1, steps) = match track_steps1(input) {
        Ok(v) => v,
        Err(e) => return Err(e),
    };
    let (r2, (w, d)) = match slide_len(r1) {
        Ok(v) => v,
        Err(e) => return Err(e),
    };
    let mut tracks: Vec<SlideTrackData<'a>> = Vec::new();
    let mut i: usize = 0;
    while i < steps.len()
        invariant
            i <= steps@.len(),
            tracks@.len() == i,
            forall|j: int|
                0 <= j < i ==> #[trigger] tracks@[j]@ == track_data(steps@[j].0, steps@[j].1, d@),
        decreases steps@.len() - i,
    {
        let (variant, end) = steps[i];
        tracks.push(
            SlideTrackData {
                track: SlideTrack { start: Button::A1, end, duration: zero(), variant },
                length: d,
            },
        );
        i = i + 1;
    }
    proof {
        assert(tracks@.map_values(|t: SlideTrackData<'a>| t@) =~= steps@.map_values(
            |st: (SlidePattern, Button)| track_data(st.0, st.1, d@),
        ));
    }
    Ok((r2, (tracks, w)))
}

/// A pattern, the button the track ends on and its own length.
pub fn track_full<'a>(input: &'a str) -> (r: PResult<
    'a,
    (SlidePattern, Button, (SlideWaitDuration<'a>, EventDuration<'a>)),
>)
    ensures
        res_view(r) == spec_track_full(input@),
{
    proof {
        reveal(spec_track_full);
    }
    let (r1, (p, b)) = match track_step(input) {
        Ok(v) => v,
        Err(e) => return Err(e),
    };
    match slide_len(r1) {
        Ok((r2, l)) => Ok((r2, (p, b, l))),
        Err(e) => Err(e),
    }
}

fn tracks_full0<'a>(input: &'a str) -> (r: Result<
    (&'a str, Vec<(SlidePattern, Button, (SlideWaitDuration<'a>, EventDuration<'a>))>),
    ParseError,
>)
    ensures
        res_view_vec(r) == spec_tracks_full0(input@),
{
    let mut acc: Vec<(SlidePattern, Button, (SlideWaitDuration<'a>, EventDuration<'a>))> =
        Vec::new();
    let mut cur = input;
    loop
        invariant
            spec_tracks_full0(input@) == prefixed(
                acc@.map_values(
                    |x: (SlidePattern, Button, (SlideWaitDuration<'a>, EventDuration<'a>))| x@,
                ),
                spec_tracks_full0(cur@),
            ),
        decreases cur@.len(),
    {
        proof {
            reveal(spec_tracks_full0);
            lemma_track_full(cur@);
        }
        let ghost old_view = acc@.map_values(
            |x: (SlidePattern, Button, (SlideWaitDuration<'a>, EventDuration<'a>))| x@,
        );
        match track_full(cur) {
            Err(ParseError::Error) => {
                assert(old_view + seq![] =~= old_view);
                return Ok((cur, acc));
            },
            Err(e) => return Err(e),
            Ok((rest, v)) => {
                acc.push(v);
                proof {
                    let new_view = acc@.map_values(
                        |x: (SlidePattern, Button, (SlideWaitDuration<'a>, EventDuration<'a>))| x@,
                    );
                    assert(new_view =~= old_view.push(v@));
                    match spec_tracks_full0(rest@) {
                        Ok((r2, vs)) => {
                            assert(old_view + (seq![v@] + vs) =~= new_view + vs);
                        },
                        Err(_) => {},
                    }
                }
                cur = rest;
            },
        }
    }
}

fn tracks_full1<'a>(input: &'a str) -> (r: Result<
    (&'a str, Vec<(SlidePattern, Button, (SlideWaitDuration<'a>, EventDuration<'a>))>),
    ParseError,
>)
    ensures
        res_view_vec(r) == spec_tracks_full1(input@),
        r matches Ok((_, v)) ==> v@.len() > 0,
{
    proof {
        reveal(spec_tracks_full1);
    }
    let (r1, v) = match track_full(input) {
        Ok(x) => x,
        Err(e) => return Err(e),
    };
    match tracks_full0(r1) {
        Ok((r2, vs)) => {
            let mut all: Vec<(SlidePattern, Button, (SlideWaitDuration<'a>, EventDuration<'a>))> =
                Vec::new();
            all.push(v);
            let mut rest_of = vs;
            let ghost vs_view = rest_of@.map_values(
                |x: (SlidePattern, Button, (SlideWaitDuration<'a>, EventDuration<'a>))| x@,
            );
            all.append(&mut rest_of);
            proof {
                assert(all@.map_values(
                    |x: (SlidePattern, Button, (SlideWaitDuration<'a>, EventDuration<'a>))| x@,
                ) =~= seq![v@] + vs_view);
            }
            Ok((r2, all))
        },
        Err(e) => Err(e),
    }
}

/// Tracks that each carry a length: `1-4[8:1]>6[8:1]`; the wait is that of the first.
pub fn tracks_diff_len<'a>(input: &'a str) -> (r: Result<
    (&'a str, (Vec<SlideTrackData<'a>>, SlideWaitDuration<'a>)),
    ParseError,
>)
    ensures
        res_view_tracks(r) == spec_tracks_diff_len(input@),
{
    proof {
        reveal(spec_tracks_diff_len);
    }
    let (r1, full) = match tracks_full1(input) {
        Ok(v) => v,
        Err(e) => return Err(e),
    };
    let ghost full_view = full@.map_values(
        |x: (SlidePattern, Button, (SlideWaitDuration<'a>, EventDuration<'a>))| x@,
    );
    let wait = full[0].2.0;
    let mut tracks: Vec<SlideTrackData<'a>> = Vec::new();
    let mut i: usize = 0;
    while i < full.len()
        invariant
            i <= full@.len(),
            tracks@.len() == i,
            full_view == full@.map_values(
                |x: (SlidePattern, Button, (SlideWaitDuration<'a>, EventDuration<'a>))| x@,
            ),
            forall|j: int|
                0 <= j < i ==> #[trigger] tracks@[j]@ == track_data(
                    full_view[j].0,
                    full_view[j].1,
                    full_view[j].2.1,
                ),
        decreases full@.len() - i,
    {
        let (variant, end, (_, length)) = full[i];
        tracks.push(
            SlideTrackData {
                track: SlideTrack { start: Button::A1, end, duration: zero(), variant },
                length,
            },
        );
        i = i + 1;
    }
    proof {
        assert(tracks@.map_values(|t: SlideTrackData<'a>| t@) =~= full_view.map_values(
            |t: (SlidePattern, Button, (SlideWaitView, EventDurationView))| track_data(
                t.0,
                t.1,
                t.2.1,
            ),
        ));
    }
    Ok((r1, (tracks, wait)))
}


/// The part of a slide after its start button: its tracks, then an optional `b`.
pub fn slide_body<'a>(input: &'a str) -> (r: PResult<'a, SlideData<'a>>)
    ensures
        res_view(r) == spec_slide_body(input@),
{
    proof {
        reveal(spec_slide_body);
    }
    let (r1, (tracks, wait)) = match tracks_diff_len(input) {
        Ok(v) => v,
        Err(ParseError::Error) => match tracks_same_len(input) {
            Ok(v) => v,
            Err(e) => return Err(e),
        },
        Err(e) => return Err(e),
    };
    let (r2, break_slide) = match break_(r1) {
        Ok(v) => v,
        Err(e) => return Err(e),
    };
    let empty: Vec<SlideTrack<'a>> = Vec::new();
    let data = SlideData {
        slide: Slide {
            start: Button::A1,
            break_note: false,
            break_slide,
            wait_duration: zero(),
            tracks: empty,
        },
        wait,
        tracks,
    };
    proof {
        assert(data.slide@.tracks =~= seq![]);
    }
    Ok((r2, data))
}

/// `*` and another slide from the same star.
pub fn slide_multi<'a>(input: &'a str) -> (r: PResult<'a, SlideData<'a>>)
    ensures
        res_view(r) == spec_slide_multi(input@),
{
    proof {
        reveal(spec_slide_multi);
    }
    match scan_char(input, '*') {
        Ok((rest, _)) => slide_body(rest),
        Err(e) => Err(e),
    }
}

fn slide_multis<'a>(input: &'a str) -> (r: Result<(&'a str, Vec<SlideData<'a>>), ParseError>)
    ensures
        res_view_vec(r) == spec_slide_multis(input@),
{
    let mut acc: Vec<SlideData<'a>> = Vec::new();
    let mut cur = input;
    loop
        invariant
            spec_slide_multis(input@) == prefixed(
                acc@.map_values(|x: SlideData<'a>| x@),
                spec_slide_multis(cur@),
            ),
        decreases cur@.len(),
    {
        proof {
            reveal(spec_slide_multis);
            lemma_slide_multi(cur@);
        }
        let ghost old_view = acc@.map_values(|x: SlideData<'a>| x@);
        match slide_multi(cur) {
            Err(ParseError::Error) => {
                assert(old_view + seq![] =~= old_view);
                return Ok((cur, acc));
            },
            Err(e) => return Err(e),
            Ok((rest, v)) => {
                acc.push(v);
                proof {
                    let new_view = acc@.map_values(|x: SlideData<'a>| x@);
                    assert(new_view =~= old_view.push(v@));
                    match spec_slide_multis(rest@) {
                        Ok((r2, vs)) => {
                            assert(old_view + (seq![v@] + vs) =~= new_view + vs);
                        },
                        Err(_) => {},
                    }
                }
                cur = rest;
            },
        }
    }
}

/// A slide event: `1-4[8:1]`, `1b>5[4:1]*-3[4:1]` and the like.
pub fn slide<'a>(input: &'a str) -> (r: PResult<'a, SlideEvent<'a>>)
    ensures
        res_view(r) == spec_slide(input@),
{
    proof {
        reveal(spec_slide);
    }
    let (r1, start) = match button(input) {
        Ok(v) => v,
        Err(e) => return Err(e),
    };
    let (r2, break_note) = match break_(r1) {
        Ok(v) => v,
        Err(e) => return Err(e),
    };
    let (r3, slide) = match slide_body(r2) {
        Ok(v) => v,
        Err(e) => return Err(e),
    };
    let (r4, multi) = match slide_multis(r3) {
        Ok(v) => v,
        Err(e) => return Err(e),
    };
    Ok((r4, SlideEvent { start, slide, break_note, multi }))
}


/// A tap: a button and an optional break mark.
pub fn tap<'a>(input: &'a str) -> (r: PResult<'a, Tap>)
    ensures
        res_view(r) == spec_tap(input@),
{
    proof {
        reveal(spec_tap);
    }
    let (r1, button) = match button(input) {
        Ok(v) => v,
        Err(e) => return Err(e),
    };
    match break_(r1) {
        Ok((r2, break_)) => Ok((r2, Tap { button, break_ })),
        Err(e) => Err(e),
    }
}

fn buttons0<'a>(input: &'a str) -> (r: PResult<'a, Vec<Button>>)
    ensures
        res_view(r) == spec_buttons0(input@),
{
    let mut acc: Vec<Button> = Vec::new();
    let mut cur = input;
    loop
        invariant
            spec_buttons0(input@) == prefixed(acc@, spec_buttons0(cur@)),
        decreases cur@.len(),
    {
        proof {
            reveal(spec_buttons0);
            lemma_button(cur@);
        }
        match button(cur) {
            Err(ParseError::Error) => {
                assert(acc@ + seq![] =~= acc@);
                return Ok((cur, acc));
            },
            Err(e) => return Err(e),
            Ok((rest, v)) => {
                let ghost old_acc = acc@;
                acc.push(v);
                proof {
                    match spec_buttons0(rest@) {
                        Ok((r2, vs)) => {
                            assert(old_acc + (seq![v] + vs) =~= acc@ + vs);
                        },
                        Err(_) => {},
                    }
                }
                cur = rest;
            },
        }
    }
}

/// Buttons tapped at once, written together: a button followed by one or more buttons.
pub fn tap_each<'a>(input: &'a str) -> (r: PResult<'a, (Tap, Vec<Tap>)>)
    ensures
        res_view(r) == spec_tap_each(input@),
{
    proof {
        reveal(spec_tap_each);
    }
    let (r1, b) = match button(input) {
        Ok(v) => v,
        Err(e) => return Err(e),
    };
    let (r2, b2) = match button(r1) {
        Ok(v) => v,
        Err(e) => return Err(e),
    };
    let (r3, bs) = match buttons0(r2) {
        Ok(v) => v,
        Err(e) => return Err(e),
    };
    let mut taps: Vec<Tap> = Vec::new();
    taps.push(Tap { button: b2, break_: false });
    let mut i: usize = 0;
    while i < bs.len()
        invariant
            i <= bs@.len(),
            taps@.len() == i + 1,
            taps@[0] == plain_tap(b2),
            forall|j: int| 0 <= j < i ==> #[trigger] taps@[j + 1] == plain_tap(bs@[j]),
        decreases bs@.len() - i,
    {
        taps.push(Tap { button: bs[i], break_: false });
        i = i + 1;
    }
    proof {
        let all = seq![b2] + bs@;
        assert forall|k: int| 0 <= k < taps@.len() implies taps@[k] == all.map_values(
            |x: Button| plain_tap(x),
        )[k] by {
            if k > 0 {
                assert(taps@[(k - 1) + 1] == plain_tap(bs@[k - 1]));
                assert(all[k] == bs@[k - 1]);
            }
        }
        assert(taps@ =~= all.map_values(|x: Button| plain_tap(x)));
    }
    Ok((r3, (Tap { button: b, break_: false }, taps)))
}

/// A hold: `1h[4:1]`, `1hb[#2]` and the like.
pub fn hold<'a>(input: &'a str) -> (r: PResult<'a, (Hold<'a>, EventDuration<'a>)>)
    ensures
        res_view(r) == spec_hold(input@),
{
    proof {
        reveal(spec_hold);
    }
    let (r1, button) = match button(input) {
        Ok(v) => v,
        Err(e) => return Err(e),
    };
    let (r2, _) = match scan_char(r1, 'h') {
        Ok(v) => v,
        Err(e) => return Err(e),
    };
    let (r3, break_) = match break_(r2) {
        Ok(v) => v,
        Err(e) => return Err(e),
    };
    let (r4, _) = match scan_char(r3, '[') {
        Ok(v) => v,
        Err(e) => return Err(e),
    };
    let (r5, d) = match event_duration(r4) {
        Ok(v) => v,
        Err(e) => return Err(e),
    };
    match scan_char(r5, ']') {
        Ok((r6, _)) => Ok((r6, (Hold { button, break_, length: zero() }, d))),
        Err(e) => Err(e),
    }
}

/// `(b)`: a BPM.
pub fn bpm<'a>(input: &'a str) -> (r: PResult<'a, &'a str>)
    ensures
        res_view(r) == spec_bpm(input@),
{
    proof {
        reveal(spec_bpm);
    }
    let (r1, _) = match scan_char(input, '(') {
        Ok(v) => v,
        Err(e) => return Err(e),
    };
    let (r2, x) = match scan_float(r1) {
        Ok(v) => v,
        Err(e) => return Err(e),
    };
    match scan_char(r2, ')') {
        Ok((r3, _)) => Ok((r3, x)),
        Err(e) => Err(e),
    }
}

/// `{n}`: the note divider.
pub fn length_divider<'a>(input: &'a str) -> (r: PResult<'a, u64>)
    ensures
        res_view(r) == spec_length_divider(input@),
{
    proof {
        reveal(spec_length_divider);
    }
    let (r1, _) = match scan_char(input, '{') {
        Ok(v) => v,
        Err(e) => return Err(e),
    };
    let (r2, n) = match scan_u64(r1) {
        Ok(v) => v,
        Err(e) => return Err(e),
    };
    match scan_char(r2, '}') {
        Ok((r3, _)) => Ok((r3, n)),
        Err(e) => Err(e),
    }
}

fn event_item<'a>(input: &'a str) -> (r: PResult<'a, Events<'a>>)
    ensures
        res_view(r) == spec_event_item(input@),
{
    proof {
        reveal(spec_event_item);
    }
    match hold(input) {
        Ok((rest, (h, d))) => return Ok((rest, Events::Hold(h, d))),
        Err(ParseError::Error) => {},
        Err(e) => return Err(e),
    }
    match slide(input) {
        Ok((rest, e)) => return Ok((rest, Events::Slide(e))),
        Err(ParseError::Error) => {},
        Err(e) => return Err(e),
    }
    match tap_each(input) {
        Ok((rest, (t, ts))) => return Ok((rest, Events::TapEach(t, ts))),
        Err(ParseError::Error) => {},
        Err(e) => return Err(e),
    }
    match tap(input) {
        Ok((rest, t)) => return Ok((rest, Events::Tap(t))),
        Err(ParseError::Error) => {},
        Err(e) => return Err(e),
    }
    match scan_char(input, ',') {
        Ok((rest, _)) => return Ok((rest, Events::Sep)),
        Err(ParseError::Error) => {},
        Err(e) => return Err(e),
    }
    match bpm(input) {
        Ok((rest, x)) => return Ok((rest, Events::Bpm(x))),
        Err(ParseError::Error) => {},
        Err(e) => return Err(e),
    }
    match duration_secs(input) {
        Ok((rest, x)) => return Ok((rest, Events::ExplicitDuration(x))),
        Err(ParseError::Error) => {},
        Err(e) => return Err(e),
    }
    match length_divider(input) {
        Ok((rest, n)) => Ok((rest, Events::LengthDivider(n))),
        Err(e) => Err(e),
    }
}

/// One event of a chart body and the spaces after it.
pub fn event<'a>(input: &'a str) -> (r: PResult<'a, Events<'a>>)
    ensures
        res_view(r) == spec_event(input@),
{
    proof {
        reveal(spec_event);
    }
    let (r1, e) = match event_item(input) {
        Ok(v) => v,
        Err(err) => return Err(err),
    };
    match scan_multispace0(r1) {
        Ok((r2, _)) => Ok((r2, e)),
        Err(err) => Err(err),
    }
}

fn slash_event<'a>(input: &'a str) -> (r: PResult<'a, Events<'a>>)
    ensures
        res_view(r) == spec_slash_event(input@),
{
    proof {
        reveal(spec_slash_event);
    }
    match scan_char(input, '/') {
        Ok((rest, _)) => event(rest),
        Err(e) => Err(e),
    }
}

fn slash_events<'a>(input: &'a str) -> (r: Result<(&'a str, Vec<Events<'a>>), ParseError>)
    ensures
        res_view_vec(r) == spec_slash_events(input@),
{
    let mut acc: Vec<Events<'a>> = Vec::new();
    let mut cur = input;
    loop
        invariant
            spec_slash_events(input@) == prefixed(
                acc@.map_values(|x: Events<'a>| x@),
                spec_slash_events(cur@),
            ),
        decreases cur@.len(),
    {
        proof {
            reveal(spec_slash_events);
            lemma_slash_event(cur@);
        }
        let ghost old_view = acc@.map_values(|x: Events<'a>| x@);
        match slash_event(cur) {
            Err(ParseError::Error) => {
                assert(old_view + seq![] =~= old_view);
                return Ok((cur, acc));
            },
            Err(e) => return Err(e),
            Ok((rest, v)) => {
                acc.push(v);
                proof {
                    let new_view = acc@.map_values(|x: Events<'a>| x@);
                    assert(new_view =~= old_view.push(v@));
                    match spec_slash_events(rest@) {
                        Ok((r2, vs)) => {
                            assert(old_view + (seq![v@] + vs) =~= new_view + vs);
                        },
                        Err(_) => {},
                    }
                }
                cur = rest;
            },
        }
    }
}

/// An event and the events joined to it by `/`.
pub fn event_group<'a>(input: &'a str) -> (r: PResult<'a, EventGroup<'a>>)
    ensures
        res_view(r) == spec_event_group(input@),
{
    proof {
        reveal(spec_event_group);
    }
    let (r1, first) = match event(input) {
        Ok(v) => v,
        Err(_) => return Err(ParseError::Failure),
    };
    match slash_events(r1) {
        Ok((r2, rest)) => Ok((r2, EventGroup { first, rest })),
        Err(e) => Err(e),
    }
}

fn chart_events<'a>(input: &'a str) -> (r: Result<(&'a str, Vec<EventGroup<'a>>), ParseError>)
    ensures
        res_view_vec(r) == spec_chart_events(input@),
{
    let mut acc: Vec<EventGroup<'a>> = Vec::new();
    let mut cur = input;
    loop
        invariant
            spec_chart_events(input@) == prefixed(
                acc@.map_values(|x: EventGroup<'a>| x@),
                spec_chart_events(cur@),
            ),
        decreases cur@.len(),
    {
        proof {
            reveal(spec_chart_events);
            lemma_event_group(cur@);
        }
        let ghost old_view = acc@.map_values(|x: EventGroup<'a>| x@);
        match scan_char(cur, 'E') {
            Ok((rest, _)) => {
                assert(old_view + seq![] =~= old_view);
                return Ok((rest, acc));
            },
            Err(ParseError::Error) => {},
            Err(e) => return Err(e),
        }
        match event_group(cur) {
            Err(e) => return Err(e),
            Ok((rest, v)) => {
                acc.push(v);
                proof {
                    let new_view = acc@.map_values(|x: EventGroup<'a>| x@);
                    assert(new_view =~= old_view.push(v@));
                    match spec_chart_events(rest@) {
                        Ok((r2, vs)) => {
                            assert(old_view + (seq![v@] + vs) =~= new_view + vs);
                        },
                        Err(_) => {},
                    }
                }
                cur = rest;
            },
        }
    }
}

fn start_tempo<'a>(input: &'a str) -> (r: PResult<'a, Events<'a>>)
    ensures
        res_view(r) == spec_start_tempo(input@),
{
    proof {
        reveal(spec_start_tempo);
    }
    let (r1, _) = match scan_multispace0(input) {
        Ok(v) => v,
        Err(e) => return Err(e),
    };
    match bpm(r1) {
        Ok((rest, x)) => return Ok((rest, Events::Bpm(x))),
        Err(ParseError::Error) => {},
        Err(e) => return Err(e),
    }
    match duration_secs(r1) {
        Ok((rest, x)) => Ok((rest, Events::ExplicitDuration(x))),
        Err(e) => Err(e),
    }
}

fn start_divider<'a>(input: &'a str) -> (r: PResult<'a, Events<'a>>)
    ensures
        res_view(r) == spec_start_divider(input@),
{
    proof {
        reveal(spec_start_divider);
    }
    let (r1, _) = match scan_multispace0(input) {
        Ok(v) => v,
        Err(e) => return Err(e),
    };
    match length_divider(r1) {
        Ok((rest, n)) => Ok((rest, Events::LengthDivider(n))),
        Err(e) => Err(e),
    }
}

/// The start of a chart: its tempo (`(b)` or `#s`) and its divider (`{n}`), in either order.
pub fn map_start<'a>(input: &'a str) -> (r: PResult<'a, (Events<'a>, Events<'a>)>)
    ensures
        res_view(r) == spec_map_start(input@),
{
    proof {
        reveal(spec_map_start);
    }
    match start_tempo(input) {
        Ok((r1, t)) => match start_divider(r1) {
            Ok((r2, d)) => Ok((r2, (t, d))),
            Err(e) => Err(e),
        },
        Err(ParseError::Error) => match start_divider(input) {
            Ok((r1, d)) => match start_tempo(r1) {
                Ok((r2, t)) => Ok((r2, (t, d))),
                Err(e) => Err(e),
            },
            Err(e) => Err(e),
        },
        Err(e) => Err(e),
    }
}

/// `&inote_N=`
pub fn inote_header<'a>(input: &'a str) -> (r: PResult<'a, u64>)
    ensures
        res_view(r) == spec_inote_header(input@),
{
    proof {
        reveal(spec_inote_header);
        reveal_strlit("inote_");
        assert("inote_"@ =~= seq!['i', 'n', 'o', 't', 'e', '_']);
    }
    let (r1, _) = match scan_char(input, '&') {
        Ok(v) => v,
        Err(e) => return Err(e),
    };
    let (r2, _) = match scan_tag(r1, "inote_") {
        Ok(v) => v,
        Err(e) => return Err(e),
    };
    let (r3, n) = match scan_u64(r2) {
        Ok(v) => v,
        Err(e) => return Err(e),
    };
    match scan_char(r3, '=') {
        Ok((r4, _)) => Ok((r4, n)),
        Err(e) => Err(e),
    }
}

/// A whole chart, `&inote_N=` up to its closing `E`, as read.
pub fn simai_map<'a>(input: &'a str) -> (r: PResult<'a, ChartRead<'a>>)
    ensures
        res_view(r) == spec_simai_map(input@),
{
    proof {
        reveal(spec_simai_map);
    }
    let (r0, _) = match scan_multispace0(input) {
        Ok(v) => v,
        Err(e) => return Err(e),
    };
    let (r1, number) = match inote_header(r0) {
        Ok(v) => v,
        Err(e) => return Err(e),
    };
    let (r2, start) = match map_start(r1) {
        Ok(v) => v,
        Err(_) => return Err(ParseError::Failure),
    };
    let (r3, _) = match scan_multispace0(r2) {
        Ok(v) => v,
        Err(e) => return Err(e),
    };
    match chart_events(r3) {
        Ok((r4, events)) => Ok((r4, ChartRead { number, start, events })),
        Err(e) => Err(e),
    }
}


// ---- file header fields ----

/// `&name=`; the value is the name as it stands in the input.
pub fn file_field_start<'a>(input: &'a str, name: &str) -> (r: PResult<'a, &'a str>)
    ensures
        res_view(r) == spec_file_field_start(input@, name@),
{
    proof {
        reveal(spec_file_field_start);
    }
    let (r1, _) = match scan_char(input, '&') {
        Ok(v) => v,
        Err(e) => return Err(e),
    };
    let (r2, n) = match scan_tag(r1, name) {
        Ok(v) => v,
        Err(e) => return Err(e),
    };
    match scan_char(r2, '=') {
        Ok((r3, _)) => Ok((r3, n)),
        Err(e) => Err(e),
    }
}

/// `&name=value`; the value is the rest of the line.
pub fn file_field_line<'a>(input: &'a str, name: &str) -> (r: PResult<'a, &'a str>)
    ensures
        res_view(r) == spec_file_field_line(input@, name@),
{
    proof {
        reveal(spec_file_field_line);
    }
    match file_field_start(input, name) {
        Ok((r1, _)) => scan_not_line_ending(r1),
        Err(e) => Err(e),
    }
}

fn number_field<'a>(input: &'a str, name: &str) -> (r: PResult<'a, &'a str>)
    ensures
        res_view(r) == spec_number_field(input@, name@),
{
    proof {
        reveal(spec_number_field);
    }
    let (r1, line) = match file_field_line(input, name) {
        Ok(v) => v,
        Err(e) => return Err(e),
    };
    match scan_float(line) {
        Ok((_, x)) => Ok((r1, x)),
        Err(e) => Err(e),
    }
}

/// `_n`, followed by (but not reading) `=`.
pub fn field_with_num<'a>(input: &'a str) -> (r: PResult<'a, u64>)
    ensures
        res_view(r) == spec_field_with_num(input@),
{
    proof {
        reveal(spec_field_with_num);
    }
    let (r1, _) = match scan_char(input, '_') {
        Ok(v) => v,
        Err(e) => return Err(e),
    };
    let (r2, n) = match scan_u64(r1) {
        Ok(v) => v,
        Err(e) => return Err(e),
    };
    match scan_char(r2, '=') {
        Ok(_) => Ok((r2, n)),
        Err(e) => Err(e),
    }
}

fn designer_num<'a>(input: &'a str) -> (r: PResult<'a, u64>)
    ensures
        res_view(r) == spec_designer_num(input@),
{
    proof {
        reveal(spec_designer_num);
    }
    match field_with_num(input) {
        Err(ParseError::Error) => {},
        r => return r,
    }
    match scan_char(input, '=') {
        Ok(_) => Ok((input, 0)),
        Err(e) => Err(e),
    }
}

fn designer<'a>(input: &'a str) -> (r: PResult<'a, (u64, &'a str)>)
    ensures
        res_view(r) == spec_designer(input@),
{
    proof {
        reveal(spec_designer);
        reveal_strlit("des");
        assert("des"@ =~= seq!['d', 'e', 's']);
    }
    let (r1, _) = match scan_char(input, '&') {
        Ok(v) => v,
        Err(e) => return Err(e),
    };
    let (r2, _) = match scan_tag(r1, "des") {
        Ok(v) => v,
        Err(e) => return Err(e),
    };
    let (r3, n) = match designer_num(r2) {
        Ok(v) => v,
        Err(e) => return Err(e),
    };
    let (r4, _) = match scan_char(r3, '=') {
        Ok(v) => v,
        Err(e) => return Err(e),
    };
    match scan_not_line_ending(r4) {
        Ok((r5, v)) => Ok((r5, (n, v))),
        Err(e) => Err(e),
    }
}

fn level<'a>(input: &'a str) -> (r: PResult<'a, (u64, &'a str)>)
    ensures
        res_view(r) == spec_level(input@),
{
    proof {
        reveal(spec_level);
        reveal_strlit("lv");
        assert("lv"@ =~= seq!['l', 'v']);
    }
    let (r1, _) = match scan_char(input, '&') {
        Ok(v) => v,
        Err(e) => return Err(e),
    };
    let (r2, _) = match scan_tag(r1, "lv") {
        Ok(v) => v,
        Err(e) => return Err(e),
    };
    let (r3, n) = match field_with_num(r2) {
        Ok(v) => v,
        Err(e) => return Err(e),
    };
    let (r4, _) = match scan_char(r3, '=') {
        Ok(v) => v,
        Err(e) => return Err(e),
    };
    match scan_not_line_ending(r4) {
        Ok((r5, v)) => Ok((r5, (n, v))),
        Err(e) => Err(e),
    }
}

fn other_field<'a>(input: &'a str) -> (r: PResult<'a, (&'a str, &'a str)>)
    ensures
        res_view(r) == spec_other_field(input@),
{
    proof {
        reveal(spec_other_field);
    }
    let (r1, _) = match scan_char(input, '&') {
        Ok(v) => v,
        Err(e) => return Err(e),
    };
    let (r2, name) = match scan_take_till_equals(r1) {
        Ok(v) => v,
        Err(e) => return Err(e),
    };
    let (r3, _) = match scan_char(r2, '=') {
        Ok(v) => v,
        Err(e) => return Err(e),
    };
    match scan_not_line_ending(r3) {
        Ok((r4, v)) => Ok((r4, (name, v))),
        Err(e) => Err(e),
    }
}

fn known_field<'a>(input: &'a str) -> (r: PResult<'a, Field<'a>>)
    ensures
        res_view(r) == spec_known_field(input@),
{
    proof {
        reveal(spec_known_field);
        reveal_strlit("title");
        reveal_strlit("artist");
        reveal_strlit("first");
        reveal_strlit("wholebpm");
        assert("title"@ =~= title_name());
        assert("artist"@ =~= artist_name());
        assert("first"@ =~= first_name());
        assert("wholebpm"@ =~= wholebpm_name());
    }
    match file_field_line(input, "title") {
        Ok((rest, t)) => return Ok((rest, Field::Title(t))),
        Err(ParseError::Error) => {},
        Err(e) => return Err(e),
    }
    match file_field_line(input, "artist") {
        Ok((rest, t)) => return Ok((rest, Field::Artist(t))),
        Err(ParseError::Error) => {},
        Err(e) => return Err(e),
    }
    match number_field(input, "first") {
        Ok((rest, t)) => return Ok((rest, Field::First(t))),
        Err(ParseError::Error) => {},
        Err(e) => return Err(e),
    }
    match number_field(input, "wholebpm") {
        Ok((rest, t)) => return Ok((rest, Field::WholeBpm(t))),
        Err(ParseError::Error) => {},
        Err(e) => return Err(e),
    }
    match designer(input) {
        Ok((rest, (n, t))) => return Ok((rest, Field::Designer(n, t))),
        Err(ParseError::Error) => {},
        Err(e) => return Err(e),
    }
    match level(input) {
        Ok((rest, (n, t))) => Ok((rest, Field::Level(n, t))),
        Err(e) => Err(e),
    }
}

/// One field of a file: a header field, else a chart (with an empty map for
/// it), else any other `&name=value`.
pub fn field<'a>(input: &'a str) -> (r: PResult<'a, Field<'a>>)
    ensures
        res_view(r) == spec_field(input@),
{
    proof {
        reveal(spec_field);
    }
    match known_field(input) {
        Err(ParseError::Error) => {},
        r => return r,
    }
    match simai_map(input) {
        Ok((rest, c)) => return Ok((rest, Field::INote(c.number, SimaiMap {  }))),
        Err(ParseError::Error) => {},
        Err(e) => return Err(e),
    }
    match other_field(input) {
        Ok((rest, (k, v))) => Ok((rest, Field::OtherFields(k, v))),
        Err(e) => Err(e),
    }
}

fn field_item<'a>(input: &'a str) -> (r: PResult<'a, Field<'a>>)
    ensures
        res_view(r) == spec_field_item(input@),
{
    proof {
        reveal(spec_field_item);
    }
    let (r1, f) = match field(input) {
        Ok(v) => v,
        Err(e) => return Err(e),
    };
    match scan_multispace0(r1) {
        Ok((r2, _)) => Ok((r2, f)),
        Err(e) => Err(e),
    }
}

fn fields<'a>(input: &'a str) -> (r: Result<(&'a str, Vec<Field<'a>>), ParseError>)
    ensures
        res_view_vec(r) == spec_fields(input@),
{
    let mut acc: Vec<Field<'a>> = Vec::new();
    let mut cur = input;
    loop
        invariant
            spec_fields(input@) == prefixed(
                acc@.map_values(|x: Field<'a>| x@),
                spec_fields(cur@),
            ),
        decreases cur@.len(),
    {
        proof {
            reveal(spec_fields);
            lemma_field_item(cur@);
        }
        let ghost old_view = acc@.map_values(|x: Field<'a>| x@);
        match field_item(cur) {
            Err(ParseError::Error) => {
                assert(old_view + seq![] =~= old_view);
                return Ok((cur, acc));
            },
            Err(e) => return Err(e),
            Ok((rest, v)) => {
                acc.push(v);
                proof {
                    let new_view = acc@.map_values(|x: Field<'a>| x@);
                    assert(new_view =~= old_view.push(v@));
                    match spec_fields(rest@) {
                        Ok((r2, vs)) => {
                            assert(old_view + (seq![v@] + vs) =~= new_view + vs);
                        },
                        Err(_) => {},
                    }
                }
                cur = rest;
            },
        }
    }
}

/// The file that the header fields read so far describe.
pub open spec fn parts_view<'a>(
    title: Option<&'a str>,
    artist: Option<&'a str>,
    designers: HashMap<u64, &'a str>,
    first: Option<&'a str>,
    level_names: HashMap<u64, &'a str>,
    wholebpm: Option<&'a str>,
    other_fields: FieldTable<'a>,
    maps: HashMap<u64, SimaiMap>,
) -> SimaiFileView {
    SimaiFileView {
        title: opt_text(title),
        artist: opt_text(artist),
        designers: designers@.map_values(|v: &'a str| v@),
        first: match first {
            Some(x) => x@,
            None => zero_text(),
        },
        level_names: level_names@.map_values(|v: &'a str| v@),
        wholebpm: opt_text(wholebpm),
        other_fields: other_fields@,
        maps: maps@,
    }
}

/// Reads a whole simai file: its header fields (`&name=value` lines) up to the
/// end of the input.
///
/// Each chart (`&inote_N=` up to `E`) adds an empty `SimaiMap` under its number;
/// a file with two `&title=` fields gives `Duplicate`.
pub fn simai_file_outcome<'a>(input: &'a str) -> (r: SimaiOutcome<'a>)
    ensures
        r@ == spec_simai_file(input@),
{
    broadcast use vstd::std_specs::hash::group_hash_axioms;

    proof {
        reveal(spec_simai_file);
        reveal_strlit("title");
        assert("title"@ =~= title_name());
    }
    let (r0, _) = match scan_multispace0(input) {
        Ok(v) => v,
        Err(e) => return SimaiOutcome::Failed(e),
    };
    let (rest, fs) = match fields(r0) {
        Err(e) => return SimaiOutcome::Failed(e),
        Ok(v) => v,
    };
    if !rest.is_empty() {
        return SimaiOutcome::Failed(ParseError::Error);
    }
    let ghost fv = fs@.map_values(|x: Field<'a>| x@);
    let mut title: Option<&'a str> = None;
    let mut artist: Option<&'a str> = None;
    let mut first: Option<&'a str> = None;
    let mut wholebpm: Option<&'a str> = None;
    let mut designers: HashMap<u64, &'a str> = HashMap::new();
    let mut level_names: HashMap<u64, &'a str> = HashMap::new();
    let mut other_fields = FieldTable::new();
    let mut maps: HashMap<u64, SimaiMap> = HashMap::new();
    let mut i: usize = 0;
    proof {
        assert(fv.take(0) =~= seq![]);
        assert(designers@.map_values(|v: &'a str| v@) =~= Map::empty());
        assert(level_names@.map_values(|v: &'a str| v@) =~= Map::empty());
    }
    while i < fs.len()
        invariant
            i <= fs@.len(),
            fv == fs@.map_values(|x: Field<'a>| x@),
            spec_multispace0(input@) matches Ok((r, _)) && r == r0@,
            spec_fields(r0@) == Ok::<(Seq<char>, Seq<FieldView>), ParseError>((rest@, fv)),
            rest@.len() == 0,
            "title"@ == title_name(),
            title_count(fv.take(i as int)) <= 1,
            title is Some <==> title_count(fv.take(i as int)) == 1,
            parts_view(title, artist, designers, first, level_names, wholebpm, other_fields, maps)
                == file_of(fv.take(i as int)),
        decreases fs@.len() - i,
    {
        proof {
            assert(fv.take(i + 1).drop_last() =~= fv.take(i as int));
        }
        match fs[i] {
            Field::Title(value) => {
                if title.is_some() {
                    proof {
                        assert(fv[i as int] == fs@[i as int]@);
                        assert(fv.take(i + 1).last() == fv[i as int]);
                        assert(title_count(fv.take(i + 1)) == 2);
                        lemma_title_count_prefix(fv, i + 1);
                        reveal(spec_simai_file);
                    }
                    return SimaiOutcome::Duplicate(DuplicateFieldError("title"));
                }
                title = Some(value);
            },
            Field::Artist(value) => artist = Some(value),
            Field::First(value) => first = Some(value),
            Field::WholeBpm(value) => wholebpm = Some(value),
            Field::Designer(num, value) => {
                let ghost old_map = designers@;
                designers.insert(num, value);
                proof {
                    assert(designers@.map_values(|v: &'a str| v@) =~= old_map.map_values(
                        |v: &'a str| v@,
                    ).insert(num, value@));
                }
            },
            Field::Level(num, value) => {
                let ghost old_map = level_names@;
                level_names.insert(num, value);
                proof {
                    assert(level_names@.map_values(|v: &'a str| v@) =~= old_map.map_values(
                        |v: &'a str| v@,
                    ).insert(num, value@));
                }
            },
            Field::OtherFields(name, value) => {
                other_fields.insert(name, value);
            },
            Field::INote(num, value) => {
                maps.insert(num, value);
            },
        }
        i = i + 1;
    }
    proof {
        assert(fv.take(i as int) =~= fv);
    }
    let first = match first {
        Some(x) => x,
        None => zero(),
    };
    let file = SimaiFile {
        title,
        artist,
        designers,
        first,
        level_names,
        wholebpm,
        other_fields,
        maps,
    };
    SimaiOutcome::Parsed(rest, file)
}

/// Reads a whole simai file, for a file with at most one `&title=` field
/// (see `simai_file_outcome` for the others).
pub fn simai_file<'a>(input: &'a str) -> (r: Result<(&'a str, SimaiFile<'a>), ParseError>)
    requires
        !(spec_simai_file(input@) is Duplicate),
    ensures
        match r {
            Ok((rest, f)) => spec_simai_file(input@) == SimaiOutcomeView::Parsed(rest@, f@),
            Err(e) => spec_simai_file(input@) == SimaiOutcomeView::Failed(e),
        },
{
    match simai_file_outcome(input) {
        SimaiOutcome::Parsed(rest, f) => Ok((rest, f)),
        SimaiOutcome::Failed(e) => Err(e),
        _ => {
            proof {
                assert(false);
            }
            Err(ParseError::Error)
        },
    }
}

} // verus!
