//! The chart grammar, stated on the characters of the input.
//!
//! Each `spec_*` function says what the parser of the same name in
//! `parser` does: `Ok((rest, value))` with the characters it leaves, or the
//! error it gives up with.
use vstd::prelude::*;

use crate::errors::ParseError;
use crate::events::{
    ChartView, EventDurationView, EventGroupView, EventView, FieldView, NoteDiv, SlideDataView,
    SlideEventView, SlideTrackDataView, SlideWaitView,
};
use crate::scan::{
    spec_char, spec_float, spec_multispace0, spec_not_line_ending, spec_tag, spec_take_till_equals,
    spec_u64, spec_u8, SRes,
};
use crate::{
    Button, button_of, HoldView, SimaiFileView, SimaiMap, SlidePattern, SlideTrackView, SlideView,
    Tap,
};

verus! {

/// `r` is what is left of `s` after a prefix of it was read.
pub open spec fn is_suffix(r: Seq<char>, s: Seq<char>) -> bool {
    &&& r.len() <= s.len()
    &&& forall|i: int| 0 <= i < r.len() ==> #[trigger] r[i] == s[s.len() - r.len() + i]
}

/// A successful parse leaves a suffix of its input.
pub open spec fn leaves_suffix<V>(s: Seq<char>, res: SRes<V>) -> bool {
    res matches Ok((r, _)) ==> is_suffix(r, s)
}

/// A successful parse reads at least one character and leaves a suffix of its input.
pub open spec fn consumes<V>(s: Seq<char>, res: SRes<V>) -> bool {
    res matches Ok((r, _)) ==> is_suffix(r, s) && r.len() < s.len()
}

/// Apply `f` to the value of a successful parse.
pub open spec fn map_ok<A, B>(r: SRes<A>, f: spec_fn(A) -> B) -> SRes<B> {
    match r {
        Ok((rest, a)) => Ok((rest, f(a))),
        Err(e) => Err(e),
    }
}

/// `alt`: the first result, unless it is an `Error`, in which case the second.
pub open spec fn or_else<V>(a: SRes<V>, b: SRes<V>) -> SRes<V> {
    match a {
        Err(ParseError::Error) => b,
        _ => a,
    }
}

/// `cut`: an `Error` becomes a `Failure`.
pub open spec fn cut<V>(r: SRes<V>) -> SRes<V> {
    match r {
        Err(ParseError::Error) => Err(ParseError::Failure),
        _ => r,
    }
}

/// `peek`: the result of a parse of `s`, but nothing read.
pub open spec fn peek<V>(s: Seq<char>, r: SRes<V>) -> SRes<V> {
    match r {
        Ok((_, v)) => Ok((s, v)),
        Err(e) => Err(e),
    }
}

/// `acc` followed by the values of a successful parse.
pub open spec fn prefixed<V>(acc: Seq<V>, r: SRes<Seq<V>>) -> SRes<Seq<V>> {
    match r {
        Ok((rest, vs)) => Ok((rest, acc + vs)),
        Err(e) => Err(e),
    }
}

/// A result that carries a vector, seen with each element by its view.
pub open spec fn res_view_vec<'a, T: View>(r: Result<(&'a str, Vec<T>), ParseError>) -> SRes<Seq<T::V>> {
    match r {
        Ok((rest, v)) => Ok((rest@, v@.map_values(|x: T| x@))),
        Err(e) => Err(e),
    }
}

/// The text that stands for a number not filled in yet: `0`.
pub open spec fn zero_text() -> Seq<char> {
    seq!['0']
}

#[verifier::opaque]
pub open spec fn spec_button(s: Seq<char>) -> SRes<Button> {
    match spec_u8(s) {
        Ok((r, v)) => match button_of(v) {
            Some(b) => Ok((r, b)),
            None => Err(ParseError::Error),
        },
        Err(e) => Err(e),
    }
}

#[verifier::opaque]
pub open spec fn spec_break(s: Seq<char>) -> SRes<bool> {
    match spec_char(s, 'b') {
        Ok((r, _)) => Ok((r, true)),
        Err(ParseError::Error) => Ok((s, false)),
        Err(e) => Err(e),
    }
}

#[verifier::opaque]
pub open spec fn spec_length_note_div(s: Seq<char>) -> SRes<NoteDiv> {
    match spec_u64(s) {
        Ok((r1, a)) => match spec_char(r1, ':') {
            Ok((r2, _)) => match spec_u64(r2) {
                Ok((r3, b)) => Ok((r3, (a, b))),
                Err(e) => Err(e),
            },
            Err(e) => Err(e),
        },
        Err(e) => Err(e),
    }
}

#[verifier::opaque]
pub open spec fn spec_duration_secs(s: Seq<char>) -> SRes<Seq<char>> {
    match spec_char(s, '#') {
        Ok((r, _)) => spec_float(r),
        Err(e) => Err(e),
    }
}

#[verifier::opaque]
pub open spec fn spec_bpm_with_note_div(s: Seq<char>) -> SRes<(Seq<char>, NoteDiv)> {
    match spec_float(s) {
        Ok((r1, b)) => match spec_char(r1, '#') {
            Ok((r2, _)) => match spec_length_note_div(r2) {
                Ok((r3, d)) => Ok((r3, (b, d))),
                Err(e) => Err(e),
            },
            Err(e) => Err(e),
        },
        Err(e) => Err(e),
    }
}

#[verifier::opaque]
pub open spec fn spec_event_duration(s: Seq<char>) -> SRes<EventDurationView> {
    or_else(
        map_ok(spec_length_note_div(s), |d: NoteDiv| EventDurationView::LengthNoteDiv(d)),
        or_else(
            map_ok(spec_duration_secs(s), |x: Seq<char>| EventDurationView::Seconds(x)),
            map_ok(
                spec_bpm_with_note_div(s),
                |p: (Seq<char>, NoteDiv)| EventDurationView::BpmWithNoteDiv(p),
            ),
        ),
    )
}

/// A pattern written as the single character `c`.
#[verifier::opaque]
pub open spec fn spec_pattern_char(s: Seq<char>, c: char, p: SlidePattern) -> SRes<SlidePattern> {
    match spec_char(s, c) {
        Ok((r, _)) => Ok((r, p)),
        Err(e) => Err(e),
    }
}

/// A pattern written as the two characters `c` `c`.
#[verifier::opaque]
pub open spec fn spec_pattern_pair(s: Seq<char>, c: char, p: SlidePattern) -> SRes<SlidePattern> {
    match spec_tag(s, seq![c, c]) {
        Ok((r, _)) => Ok((r, p)),
        Err(e) => Err(e),
    }
}

/// `V` and the middle button of a grand V; a `V` with no button after it is a `Failure`.
#[verifier::opaque]
pub open spec fn spec_grand_v(s: Seq<char>) -> SRes<SlidePattern> {
    match spec_char(s, 'V') {
        Ok((r, _)) => match cut(spec_button(r)) {
            Ok((r2, b)) => Ok((r2, SlidePattern::Grand_v { middle: b })),
            Err(e) => Err(e),
        },
        Err(e) => Err(e),
    }
}

#[verifier::opaque]
pub open spec fn spec_slide_pattern(s: Seq<char>) -> SRes<SlidePattern> {
    or_else(spec_pattern_char(s, '-', SlidePattern::Line),
    or_else(spec_pattern_char(s, '>', SlidePattern::ArcRight),
    or_else(spec_pattern_char(s, '<', SlidePattern::ArcLeft),
    or_else(spec_pattern_char(s, '^', SlidePattern::ArcShort),
    or_else(spec_pattern_char(s, 's', SlidePattern::Thunder_s),
    or_else(spec_pattern_char(s, 'z', SlidePattern::Thunder_z),
    or_else(spec_pattern_char(s, 'w', SlidePattern::Fan),
    or_else(spec_pattern_pair(s, 'p', SlidePattern::Grand_p),
    or_else(spec_pattern_pair(s, 'q', SlidePattern::Grand_q),
    or_else(spec_pattern_char(s, 'p', SlidePattern::Shape_p),
    or_else(spec_pattern_char(s, 'q', SlidePattern::Shape_q),
    spec_grand_v(s))))))))))))
}

/// `d:n` or `b#d:n`, read but not consumed.
#[verifier::opaque]
pub open spec fn spec_peek_note_length(s: Seq<char>) -> SRes<()> {
    peek(s, or_else(
        map_ok(spec_length_note_div(s), |d: NoteDiv| ()),
        map_ok(spec_bpm_with_note_div(s), |p: (Seq<char>, NoteDiv)| ()),
    ))
}

/// `x##` before a note length: wait `x` seconds; both `#` are read.
#[verifier::opaque]
pub open spec fn spec_wait_seconds_double(s: Seq<char>) -> SRes<SlideWaitView> {
    match spec_float(s) {
        Ok((r1, x)) => match spec_tag(r1, seq!['#', '#']) {
            Ok((r2, _)) => match spec_peek_note_length(r2) {
                Ok(_) => Ok((r2, SlideWaitView::Seconds(x))),
                Err(e) => Err(e),
            },
            Err(e) => Err(e),
        },
        Err(e) => Err(e),
    }
}

/// `x##`: wait `x` seconds; only the first `#` is read.
#[verifier::opaque]
pub open spec fn spec_wait_seconds_single(s: Seq<char>) -> SRes<SlideWaitView> {
    match spec_float(s) {
        Ok((r1, x)) => match spec_char(r1, '#') {
            Ok((r2, _)) => match peek(r2, spec_char(r2, '#')) {
                Ok(_) => Ok((r2, SlideWaitView::Seconds(x))),
                Err(e) => Err(e),
            },
            Err(e) => Err(e),
        },
        Err(e) => Err(e),
    }
}

/// `#`, a number and `]`, read but not consumed.
#[verifier::opaque]
pub open spec fn spec_peek_seconds_end(s: Seq<char>) -> SRes<()> {
    match spec_char(s, '#') {
        Ok((r1, _)) => match spec_float(r1) {
            Ok((r2, _)) => match spec_char(r2, ']') {
                Ok(_) => Ok((s, ())),
                Err(e) => Err(e),
            },
            Err(e) => Err(e),
        },
        Err(e) => Err(e),
    }
}

/// `b` before `#s]`: one beat at BPM `b`; the BPM is read.
#[verifier::opaque]
pub open spec fn spec_wait_bpm_before_seconds(s: Seq<char>) -> SRes<SlideWaitView> {
    match spec_float(s) {
        Ok((r1, b)) => match spec_peek_seconds_end(r1) {
            Ok(_) => Ok((r1, SlideWaitView::OneBeatAtBpm(b))),
            Err(e) => Err(e),
        },
        Err(e) => Err(e),
    }
}

/// `b#`: one beat at BPM `b`; nothing is read.
#[verifier::opaque]
pub open spec fn spec_wait_bpm_peeked(s: Seq<char>) -> SRes<SlideWaitView> {
    match spec_float(s) {
        Ok((r1, b)) => match spec_char(r1, '#') {
            Ok(_) => Ok((s, SlideWaitView::OneBeatAtBpm(b))),
            Err(e) => Err(e),
        },
        Err(e) => Err(e),
    }
}

#[verifier::opaque]
pub open spec fn spec_slide_wait(s: Seq<char>) -> SRes<SlideWaitView> {
    or_else(spec_wait_seconds_double(s),
    or_else(spec_wait_seconds_single(s),
    or_else(spec_wait_bpm_before_seconds(s),
    or_else(spec_wait_bpm_peeked(s),
    Ok((s, SlideWaitView::OneBeatAtCurrentBpm))))))
}

/// `[wait length]`
#[verifier::opaque]
pub open spec fn spec_slide_len(s: Seq<char>) -> SRes<(SlideWaitView, EventDurationView)> {
    match spec_char(s, '[') {
        Ok((r1, _)) => match spec_slide_wait(r1) {
            Ok((r2, w)) => match spec_event_duration(r2) {
                Ok((r3, d)) => match spec_char(r3, ']') {
                    Ok((r4, _)) => Ok((r4, (w, d))),
                    Err(e) => Err(e),
                },
                Err(e) => Err(e),
            },
            Err(e) => Err(e),
        },
        Err(e) => Err(e),
    }
}

/// A pattern and the button it ends on.
#[verifier::opaque]
pub open spec fn spec_track_step(s: Seq<char>) -> SRes<(SlidePattern, Button)> {
    match spec_slide_pattern(s) {
        Ok((r1, p)) => match spec_button(r1) {
            Ok((r2, b)) => Ok((r2, (p, b))),
            Err(e) => Err(e),
        },
        Err(e) => Err(e),
    }
}

/// As many track steps as follow (`many0`).
#[verifier::opaque]
pub open spec fn spec_track_steps0(s: Seq<char>) -> SRes<Seq<(SlidePattern, Button)>>
    decreases s.len(),
{
    match spec_track_step(s) {
        Err(ParseError::Error) => Ok((s, seq![])),
        Err(e) => Err(e),
        Ok((r, v)) => if r.len() < s.len() {
            match spec_track_steps0(r) {
                Ok((r2, vs)) => Ok((r2, seq![v] + vs)),
                Err(e) => Err(e),
            }
        } else {
            Err(ParseError::Error)
        },
    }
}

/// One or more track steps (`many1`).
#[verifier::opaque]
pub open spec fn spec_track_steps1(s: Seq<char>) -> SRes<Seq<(SlidePattern, Button)>> {
    match spec_track_step(s) {
        Ok((r, v)) => match spec_track_steps0(r) {
            Ok((r2, vs)) => Ok((r2, seq![v] + vs)),
            Err(e) => Err(e),
        },
        Err(e) => Err(e),
    }
}

/// A track as first read: it starts at button 1 and its duration is `0`,
/// to be filled in.
pub open spec fn track_data(variant: SlidePattern, end: Button, length: EventDurationView) -> SlideTrackDataView {
    SlideTrackDataView {
        track: SlideTrackView { start: Button::A1, end, duration: zero_text(), variant },
        length,
    }
}

/// Tracks that share one length: `1-4>6[8:1]`.
#[verifier::opaque]
pub open spec fn spec_tracks_same_len(s: Seq<char>) -> SRes<(Seq<SlideTrackDataView>, SlideWaitView)> {
    match spec_track_steps1(s) {
        Ok((r1, steps)) => match spec_slide_len(r1) {
            Ok((r2, (w, d))) => Ok((
                r2,
                (steps.map_values(|st: (SlidePattern, Button)| track_data(st.0, st.1, d)), w),
            )),
            Err(e) => Err(e),
        },
        Err(e) => Err(e),
    }
}

/// A pattern, the button it ends on and its own length.
#[verifier::opaque]
pub open spec fn spec_track_full(s: Seq<char>) -> SRes<(SlidePattern, Button, (SlideWaitView, EventDurationView))> {
    match spec_track_step(s) {
        Ok((r1, (p, b))) => match spec_slide_len(r1) {
            Ok((r2, l)) => Ok((r2, (p, b, l))),
            Err(e) => Err(e),
        },
        Err(e) => Err(e),
    }
}

#[verifier::opaque]
pub open spec fn spec_tracks_full0(s: Seq<char>) -> SRes<Seq<(SlidePattern, Button, (SlideWaitView, EventDurationView))>>
    decreases s.len(),
{
    match spec_track_full(s) {
        Err(ParseError::Error) => Ok((s, seq![])),
        Err(e) => Err(e),
        Ok((r, v)) => if r.len() < s.len() {
            match spec_tracks_full0(r) {
                Ok((r2, vs)) => Ok((r2, seq![v] + vs)),
                Err(e) => Err(e),
            }
        } else {
            Err(ParseError::Error)
        },
    }
}

#[verifier::opaque]
pub open spec fn spec_tracks_full1(s: Seq<char>) -> SRes<Seq<(SlidePattern, Button, (SlideWaitView, EventDurationView))>> {
    match spec_track_full(s) {
        Ok((r, v)) => match spec_tracks_full0(r) {
            Ok((r2, vs)) => Ok((r2, seq![v] + vs)),
            Err(e) => Err(e),
        },
        Err(e) => Err(e),
    }
}

/// Tracks that each carry a length: `1-4[8:1]>6[8:1]`. The wait is that of the first.
#[verifier::opaque]
pub open spec fn spec_tracks_diff_len(s: Seq<char>) -> SRes<(Seq<SlideTrackDataView>, SlideWaitView)> {
    match spec_tracks_full1(s) {
        Ok((r, ts)) => Ok((
            r,
            (
                ts.map_values(|t: (SlidePattern, Button, (SlideWaitView, EventDurationView))|
                    track_data(t.0, t.1, t.2.1)),
                ts[0].2.0,
            ),
        )),
        Err(e) => Err(e),
    }
}

/// A slide before its start is filled in: its start is button 1, its note is
/// not a break, its wait is `0` and it has no tracks yet.
pub open spec fn slide_data(break_slide: bool, tracks: Seq<SlideTrackDataView>, wait: SlideWaitView) -> SlideDataView {
    SlideDataView {
        slide: SlideView {
            start: Button::A1,
            break_note: false,
            break_slide,
            wait_duration: zero_text(),
            tracks: seq![],
        },
        wait,
        tracks,
    }
}

/// The part of a slide after its start button.
#[verifier::opaque]
pub open spec fn spec_slide_body(s: Seq<char>) -> SRes<SlideDataView> {
    match or_else(spec_tracks_diff_len(s), spec_tracks_same_len(s)) {
        Ok((r1, (tracks, wait))) => match spec_break(r1) {
            Ok((r2, b)) => Ok((r2, slide_data(b, tracks, wait))),
            Err(e) => Err(e),
        },
        Err(e) => Err(e),
    }
}

/// `*` and another slide from the same star.
#[verifier::opaque]
pub open spec fn spec_slide_multi(s: Seq<char>) -> SRes<SlideDataView> {
    match spec_char(s, '*') {
        Ok((r, _)) => spec_slide_body(r),
        Err(e) => Err(e),
    }
}

#[verifier::opaque]
pub open spec fn spec_slide_multis(s: Seq<char>) -> SRes<Seq<SlideDataView>>
    decreases s.len(),
{
    match spec_slide_multi(s) {
        Err(ParseError::Error) => Ok((s, seq![])),
        Err(e) => Err(e),
        Ok((r, v)) => if r.len() < s.len() {
            match spec_slide_multis(r) {
                Ok((r2, vs)) => Ok((r2, seq![v] + vs)),
                Err(e) => Err(e),
            }
        } else {
            Err(ParseError::Error)
        },
    }
}

/// A slide event: start button, break mark, first slide, further slides.
#[verifier::opaque]
pub open spec fn spec_slide(s: Seq<char>) -> SRes<SlideEventView> {
    match spec_button(s) {
        Ok((r1, start)) => match spec_break(r1) {
            Ok((r2, break_note)) => match spec_slide_body(r2) {
                Ok((r3, slide)) => match spec_slide_multis(r3) {
                    Ok((r4, multi)) => Ok((r4, SlideEventView { start, slide, break_note, multi })),
                    Err(e) => Err(e),
                },
                Err(e) => Err(e),
            },
            Err(e) => Err(e),
        },
        Err(e) => Err(e),
    }
}


// ---- chart bodies ----

#[verifier::opaque]
pub open spec fn spec_tap(s: Seq<char>) -> SRes<Tap> {
    match spec_button(s) {
        Ok((r1, button)) => match spec_break(r1) {
            Ok((r2, break_)) => Ok((r2, Tap { button, break_ })),
            Err(e) => Err(e),
        },
        Err(e) => Err(e),
    }
}

#[verifier::opaque]
pub open spec fn spec_buttons0(s: Seq<char>) -> SRes<Seq<Button>>
    decreases s.len(),
{
    match spec_button(s) {
        Err(ParseError::Error) => Ok((s, seq![])),
        Err(e) => Err(e),
        Ok((r, v)) => if r.len() < s.len() {
            match spec_buttons0(r) {
                Ok((r2, vs)) => Ok((r2, seq![v] + vs)),
                Err(e) => Err(e),
            }
        } else {
            Err(ParseError::Error)
        },
    }
}

/// A tap that is not a break.
pub open spec fn plain_tap(button: Button) -> Tap {
    Tap { button, break_: false }
}

/// Two or more buttons tapped at once, written together: `15`.
#[verifier::opaque]
pub open spec fn spec_tap_each(s: Seq<char>) -> SRes<(Tap, Seq<Tap>)> {
    match spec_button(s) {
        Ok((r1, b)) => match spec_button(r1) {
            Ok((r2, b2)) => match spec_buttons0(r2) {
                Ok((r3, bs)) => Ok((
                    r3,
                    (plain_tap(b), (seq![b2] + bs).map_values(|x: Button| plain_tap(x))),
                )),
                Err(e) => Err(e),
            },
            Err(e) => Err(e),
        },
        Err(e) => Err(e),
    }
}

/// A hold: a button, `h`, an optional break mark and `[length]`. Its length is `0`, to be filled in.
#[verifier::opaque]
pub open spec fn spec_hold(s: Seq<char>) -> SRes<(HoldView, EventDurationView)> {
    match spec_button(s) {
        Ok((r1, button)) => match spec_char(r1, 'h') {
            Ok((r2, _)) => match spec_break(r2) {
                Ok((r3, break_)) => match spec_char(r3, '[') {
                    Ok((r4, _)) => match spec_event_duration(r4) {
                        Ok((r5, d)) => match spec_char(r5, ']') {
                            Ok((r6, _)) => Ok((
                                r6,
                                (HoldView { button, break_, length: zero_text() }, d),
                            )),
                            Err(e) => Err(e),
                        },
                        Err(e) => Err(e),
                    },
                    Err(e) => Err(e),
                },
                Err(e) => Err(e),
            },
            Err(e) => Err(e),
        },
        Err(e) => Err(e),
    }
}

/// `(b)`: a BPM.
#[verifier::opaque]
pub open spec fn spec_bpm(s: Seq<char>) -> SRes<Seq<char>> {
    match spec_char(s, '(') {
        Ok((r1, _)) => match spec_float(r1) {
            Ok((r2, x)) => match spec_char(r2, ')') {
                Ok((r3, _)) => Ok((r3, x)),
                Err(e) => Err(e),
            },
            Err(e) => Err(e),
        },
        Err(e) => Err(e),
    }
}

/// `{n}`: the note divider.
#[verifier::opaque]
pub open spec fn spec_length_divider(s: Seq<char>) -> SRes<u64> {
    match spec_char(s, '{') {
        Ok((r1, _)) => match spec_u64(r1) {
            Ok((r2, n)) => match spec_char(r2, '}') {
                Ok((r3, _)) => Ok((r3, n)),
                Err(e) => Err(e),
            },
            Err(e) => Err(e),
        },
        Err(e) => Err(e),
    }
}

/// One event, without the spaces after it.
#[verifier::opaque]
pub open spec fn spec_event_item(s: Seq<char>) -> SRes<EventView> {
    or_else(map_ok(spec_hold(s), |h: (HoldView, EventDurationView)| EventView::Hold(h.0, h.1)),
    or_else(map_ok(spec_slide(s), |e: SlideEventView| EventView::Slide(e)),
    or_else(map_ok(spec_tap_each(s), |t: (Tap, Seq<Tap>)| EventView::TapEach(t.0, t.1)),
    or_else(map_ok(spec_tap(s), |t: Tap| EventView::Tap(t)),
    or_else(map_ok(spec_char(s, ','), |c: char| EventView::Sep),
    or_else(map_ok(spec_bpm(s), |x: Seq<char>| EventView::Bpm(x)),
    or_else(map_ok(spec_duration_secs(s), |x: Seq<char>| EventView::ExplicitDuration(x)),
    map_ok(spec_length_divider(s), |n: u64| EventView::LengthDivider(n)))))))))
}

/// One event and the spaces after it.
#[verifier::opaque]
pub open spec fn spec_event(s: Seq<char>) -> SRes<EventView> {
    match spec_event_item(s) {
        Ok((r1, e)) => match spec_multispace0(r1) {
            Ok((r2, _)) => Ok((r2, e)),
            Err(err) => Err(err),
        },
        Err(err) => Err(err),
    }
}

/// `/` and an event played with the previous one.
#[verifier::opaque]
pub open spec fn spec_slash_event(s: Seq<char>) -> SRes<EventView> {
    match spec_char(s, '/') {
        Ok((r, _)) => spec_event(r),
        Err(e) => Err(e),
    }
}

#[verifier::opaque]
pub open spec fn spec_slash_events(s: Seq<char>) -> SRes<Seq<EventView>>
    decreases s.len(),
{
    match spec_slash_event(s) {
        Err(ParseError::Error) => Ok((s, seq![])),
        Err(e) => Err(e),
        Ok((r, v)) => if r.len() < s.len() {
            match spec_slash_events(r) {
                Ok((r2, vs)) => Ok((r2, seq![v] + vs)),
                Err(e) => Err(e),
            }
        } else {
            Err(ParseError::Error)
        },
    }
}

/// An event, which must be there (else `Failure`), and the events joined to it by `/`.
#[verifier::opaque]
pub open spec fn spec_event_group(s: Seq<char>) -> SRes<EventGroupView> {
    match cut(spec_event(s)) {
        Ok((r1, first)) => match spec_slash_events(r1) {
            Ok((r2, rest)) => Ok((r2, EventGroupView { first, rest })),
            Err(e) => Err(e),
        },
        Err(e) => Err(e),
    }
}

/// Event groups up to and including the closing `E` (`many_till`).
#[verifier::opaque]
pub open spec fn spec_chart_events(s: Seq<char>) -> SRes<Seq<EventGroupView>>
    decreases s.len(),
{
    match spec_char(s, 'E') {
        Ok((r, _)) => Ok((r, seq![])),
        Err(ParseError::Error) => match spec_event_group(s) {
            Err(e) => Err(e),
            Ok((r, g)) => if r.len() < s.len() {
                match spec_chart_events(r) {
                    Ok((r2, gs)) => Ok((r2, seq![g] + gs)),
                    Err(e) => Err(e),
                }
            } else {
                Err(ParseError::Error)
            },
        },
        Err(e) => Err(e),
    }
}

/// Spaces, then a BPM or a number of seconds.
#[verifier::opaque]
pub open spec fn spec_start_tempo(s: Seq<char>) -> SRes<EventView> {
    match spec_multispace0(s) {
        Ok((r, _)) => or_else(
            map_ok(spec_bpm(r), |x: Seq<char>| EventView::Bpm(x)),
            map_ok(spec_duration_secs(r), |x: Seq<char>| EventView::ExplicitDuration(x)),
        ),
        Err(e) => Err(e),
    }
}

/// Spaces, then the note divider.
#[verifier::opaque]
pub open spec fn spec_start_divider(s: Seq<char>) -> SRes<EventView> {
    match spec_multispace0(s) {
        Ok((r, _)) => map_ok(spec_length_divider(r), |n: u64| EventView::LengthDivider(n)),
        Err(e) => Err(e),
    }
}

/// The start of a chart: its tempo and its divider, in either order (`permutation`).
#[verifier::opaque]
pub open spec fn spec_map_start(s: Seq<char>) -> SRes<(EventView, EventView)> {
    match spec_start_tempo(s) {
        Ok((r1, t)) => match spec_start_divider(r1) {
            Ok((r2, d)) => Ok((r2, (t, d))),
            Err(e) => Err(e),
        },
        Err(ParseError::Error) => match spec_start_divider(s) {
            Ok((r1, d)) => match spec_start_tempo(r1) {
                Ok((r2, t)) => Ok((r2, (t, d))),
                Err(e) => Err(e),
            },
            Err(e) => Err(e),
        },
        Err(e) => Err(e),
    }
}

/// `&inote_N=`
#[verifier::opaque]
pub open spec fn spec_inote_header(s: Seq<char>) -> SRes<u64> {
    match spec_char(s, '&') {
        Ok((r1, _)) => match spec_tag(r1, seq!['i', 'n', 'o', 't', 'e', '_']) {
            Ok((r2, _)) => match spec_u64(r2) {
                Ok((r3, n)) => match spec_char(r3, '=') {
                    Ok((r4, _)) => Ok((r4, n)),
                    Err(e) => Err(e),
                },
                Err(e) => Err(e),
            },
            Err(e) => Err(e),
        },
        Err(e) => Err(e),
    }
}

/// A whole chart: `&inote_N=`, its start (which must be there, else `Failure`)
/// and its events up to `E`.
#[verifier::opaque]
pub open spec fn spec_simai_map(s: Seq<char>) -> SRes<ChartView> {
    match spec_multispace0(s) {
        Ok((r0, _)) => match spec_inote_header(r0) {
            Ok((r1, number)) => match cut(spec_map_start(r1)) {
                Ok((r2, start)) => match spec_multispace0(r2) {
                    Ok((r3, _)) => match spec_chart_events(r3) {
                        Ok((r4, events)) => Ok((r4, ChartView { number, start, events })),
                        Err(e) => Err(e),
                    },
                    Err(e) => Err(e),
                },
                Err(e) => Err(e),
            },
            Err(e) => Err(e),
        },
        Err(e) => Err(e),
    }
}


// ---- file header fields ----

pub open spec fn title_name() -> Seq<char> {
    seq!['t', 'i', 't', 'l', 'e']
}

pub open spec fn artist_name() -> Seq<char> {
    seq!['a', 'r', 't', 'i', 's', 't']
}

pub open spec fn first_name() -> Seq<char> {
    seq!['f', 'i', 'r', 's', 't']
}

pub open spec fn wholebpm_name() -> Seq<char> {
    seq!['w', 'h', 'o', 'l', 'e', 'b', 'p', 'm']
}

/// `&name=`; the value is the name.
#[verifier::opaque]
pub open spec fn spec_file_field_start(s: Seq<char>, name: Seq<char>) -> SRes<Seq<char>> {
    match spec_char(s, '&') {
        Ok((r1, _)) => match spec_tag(r1, name) {
            Ok((r2, n)) => match spec_char(r2, '=') {
                Ok((r3, _)) => Ok((r3, n)),
                Err(e) => Err(e),
            },
            Err(e) => Err(e),
        },
        Err(e) => Err(e),
    }
}

/// `&name=value`; the value is the rest of the line.
#[verifier::opaque]
pub open spec fn spec_file_field_line(s: Seq<char>, name: Seq<char>) -> SRes<Seq<char>> {
    match spec_file_field_start(s, name) {
        Ok((r1, _)) => spec_not_line_ending(r1),
        Err(e) => Err(e),
    }
}

/// `&name=value` where the value must begin with a number (`map_parser`):
/// the value is the text of that number; what follows it on the line is ignored.
#[verifier::opaque]
pub open spec fn spec_number_field(s: Seq<char>, name: Seq<char>) -> SRes<Seq<char>> {
    match spec_file_field_line(s, name) {
        Ok((r1, line)) => match spec_float(line) {
            Ok((_, x)) => Ok((r1, x)),
            Err(e) => Err(e),
        },
        Err(e) => Err(e),
    }
}

/// `_n`, followed by (but not reading) `=`.
#[verifier::opaque]
pub open spec fn spec_field_with_num(s: Seq<char>) -> SRes<u64> {
    match spec_char(s, '_') {
        Ok((r1, _)) => match spec_u64(r1) {
            Ok((r2, n)) => match spec_char(r2, '=') {
                Ok(_) => Ok((r2, n)),
                Err(e) => Err(e),
            },
            Err(e) => Err(e),
        },
        Err(e) => Err(e),
    }
}

/// The number of a designer field: `_n`, or nothing (which is number 0).
#[verifier::opaque]
pub open spec fn spec_designer_num(s: Seq<char>) -> SRes<u64> {
    or_else(
        spec_field_with_num(s),
        match spec_char(s, '=') {
            Ok(_) => Ok((s, 0u64)),
            Err(e) => Err(e),
        },
    )
}

/// `&des=name` or `&des_n=name`.
#[verifier::opaque]
pub open spec fn spec_designer(s: Seq<char>) -> SRes<(u64, Seq<char>)> {
    match spec_char(s, '&') {
        Ok((r1, _)) => match spec_tag(r1, seq!['d', 'e', 's']) {
            Ok((r2, _)) => match spec_designer_num(r2) {
                Ok((r3, n)) => match spec_char(r3, '=') {
                    Ok((r4, _)) => match spec_not_line_ending(r4) {
                        Ok((r5, v)) => Ok((r5, (n, v))),
                        Err(e) => Err(e),
                    },
                    Err(e) => Err(e),
                },
                Err(e) => Err(e),
            },
            Err(e) => Err(e),
        },
        Err(e) => Err(e),
    }
}

/// `&lv_n=name`.
#[verifier::opaque]
pub open spec fn spec_level(s: Seq<char>) -> SRes<(u64, Seq<char>)> {
    match spec_char(s, '&') {
        Ok((r1, _)) => match spec_tag(r1, seq!['l', 'v']) {
            Ok((r2, _)) => match spec_field_with_num(r2) {
                Ok((r3, n)) => match spec_char(r3, '=') {
                    Ok((r4, _)) => match spec_not_line_ending(r4) {
                        Ok((r5, v)) => Ok((r5, (n, v))),
                        Err(e) => Err(e),
                    },
                    Err(e) => Err(e),
                },
                Err(e) => Err(e),
            },
            Err(e) => Err(e),
        },
        Err(e) => Err(e),
    }
}

/// `&name=value` for any other name.
#[verifier::opaque]
pub open spec fn spec_other_field(s: Seq<char>) -> SRes<(Seq<char>, Seq<char>)> {
    match spec_char(s, '&') {
        Ok((r1, _)) => match spec_take_till_equals(r1) {
            Ok((r2, name)) => match spec_char(r2, '=') {
                Ok((r3, _)) => match spec_not_line_ending(r3) {
                    Ok((r4, v)) => Ok((r4, (name, v))),
                    Err(e) => Err(e),
                },
                Err(e) => Err(e),
            },
            Err(e) => Err(e),
        },
        Err(e) => Err(e),
    }
}

/// The header fields that come before charts in the order they are tried.
#[verifier::opaque]
pub open spec fn spec_known_field(s: Seq<char>) -> SRes<FieldView> {
    or_else(map_ok(spec_file_field_line(s, title_name()), |t: Seq<char>| FieldView::Title(t)),
    or_else(map_ok(spec_file_field_line(s, artist_name()), |t: Seq<char>| FieldView::Artist(t)),
    or_else(map_ok(spec_number_field(s, first_name()), |t: Seq<char>| FieldView::First(t)),
    or_else(map_ok(spec_number_field(s, wholebpm_name()), |t: Seq<char>| FieldView::WholeBpm(t)),
    or_else(map_ok(spec_designer(s), |p: (u64, Seq<char>)| FieldView::Designer(p.0, p.1)),
    map_ok(spec_level(s), |p: (u64, Seq<char>)| FieldView::Level(p.0, p.1)))))))
}

/// One field of a file: a header field, else a chart (which adds an empty
/// `SimaiMap` under its number), else any other `&name=value`.
#[verifier::opaque]
pub open spec fn spec_field(s: Seq<char>) -> SRes<FieldView> {
    match spec_known_field(s) {
        Err(ParseError::Error) => match spec_simai_map(s) {
            Ok((r, c)) => Ok((r, FieldView::INote(c.number, SimaiMap {  }))),
            Err(ParseError::Error) => map_ok(
                spec_other_field(s),
                |p: (Seq<char>, Seq<char>)| FieldView::OtherFields(p.0, p.1),
            ),
            Err(e) => Err(e),
        },
        r => r,
    }
}

/// A field and the spaces after it.
#[verifier::opaque]
pub open spec fn spec_field_item(s: Seq<char>) -> SRes<FieldView> {
    match spec_field(s) {
        Ok((r1, f)) => match spec_multispace0(r1) {
            Ok((r2, _)) => Ok((r2, f)),
            Err(e) => Err(e),
        },
        Err(e) => Err(e),
    }
}

/// As many fields as follow (`many0`).
#[verifier::opaque]
pub open spec fn spec_fields(s: Seq<char>) -> SRes<Seq<FieldView>>
    decreases s.len(),
{
    match spec_field_item(s) {
        Err(ParseError::Error) => Ok((s, seq![])),
        Err(e) => Err(e),
        Ok((r, f)) => if r.len() < s.len() {
            match spec_fields(r) {
                Ok((r2, fs)) => Ok((r2, seq![f] + fs)),
                Err(e) => Err(e),
            }
        } else {
            Err(ParseError::Error)
        },
    }
}

/// How many `&title=` fields there are.
pub open spec fn title_count(fs: Seq<FieldView>) -> nat
    decreases fs.len(),
{
    if fs.len() == 0 {
        0
    } else {
        title_count(fs.drop_last()) + if fs.last() is Title { 1nat } else { 0nat }
    }
}

/// A file with no fields.
pub open spec fn empty_file() -> SimaiFileView {
    SimaiFileView {
        title: None,
        artist: None,
        designers: Map::empty(),
        first: zero_text(),
        level_names: Map::empty(),
        wholebpm: None,
        other_fields: Map::empty(),
        maps: Map::empty(),
    }
}

/// `f` after the field `field` was read: the field sets its part of the file.
pub open spec fn apply_field(f: SimaiFileView, field: FieldView) -> SimaiFileView {
    match field {
        FieldView::Title(t) => SimaiFileView { title: Some(t), ..f },
        FieldView::Artist(t) => SimaiFileView { artist: Some(t), ..f },
        FieldView::First(t) => SimaiFileView { first: t, ..f },
        FieldView::WholeBpm(t) => SimaiFileView { wholebpm: Some(t), ..f },
        FieldView::Designer(n, t) => SimaiFileView { designers: f.designers.insert(n, t), ..f },
        FieldView::Level(n, t) => SimaiFileView { level_names: f.level_names.insert(n, t), ..f },
        FieldView::OtherFields(k, v) => SimaiFileView { other_fields: f.other_fields.insert(k, v), ..f },
        FieldView::INote(n, m) => SimaiFileView { maps: f.maps.insert(n, m), ..f },
    }
}

/// The file that a list of fields describes, read in order.
pub open spec fn file_of(fs: Seq<FieldView>) -> SimaiFileView
    decreases fs.len(),
{
    if fs.len() == 0 {
        empty_file()
    } else {
        apply_field(file_of(fs.drop_last()), fs.last())
    }
}

/// Fewer titles are counted in a prefix of the fields than in all of them.
pub proof fn lemma_title_count_prefix(fs: Seq<FieldView>, j: int)
    requires
        0 <= j <= fs.len(),
    ensures
        title_count(fs.take(j)) <= title_count(fs),
    decreases fs.len(),
{
    if j == fs.len() {
        assert(fs.take(j) =~= fs);
    } else {
        assert(fs.drop_last().take(j) =~= fs.take(j));
        lemma_title_count_prefix(fs.drop_last(), j);
    }
}

/// What reading a whole file gives.
pub enum SimaiOutcomeView {
    Parsed(Seq<char>, SimaiFileView),
    Failed(ParseError),
    Duplicate(Seq<char>),
}

/// A file: spaces, then fields up to the end of the input.
#[verifier::opaque]
pub open spec fn spec_simai_file(s: Seq<char>) -> SimaiOutcomeView {
    match spec_multispace0(s) {
        Ok((r0, _)) => match spec_fields(r0) {
            Err(e) => SimaiOutcomeView::Failed(e),
            Ok((r, fs)) => if r.len() > 0 {
                SimaiOutcomeView::Failed(ParseError::Error)
            } else if title_count(fs) > 1 {
                SimaiOutcomeView::Duplicate(title_name())
            } else {
                SimaiOutcomeView::Parsed(r, file_of(fs))
            },
        },
        Err(e) => SimaiOutcomeView::Failed(e),
    }
}

} // verus!
