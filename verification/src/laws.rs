//! What holds of the parser as a whole.
use vstd::prelude::*;

use crate::events::{
    EventDurationView, EventGroupView, EventView, FieldView, SlideDataView, SlideTrackDataView,
    SlideWaitView,
};
use crate::progress::{lemma_event_group, lemma_slash_event};
use crate::grammar::{
    cut, spec_chart_events, spec_event, spec_event_group, spec_map_start, spec_slash_event,
    spec_slash_events, spec_track_step, spec_tap, spec_start_tempo, spec_start_divider, spec_event_duration,
    spec_length_note_div, spec_duration_secs, spec_break, spec_event_item, spec_hold, spec_slide_len,
    apply_field, file_of, SimaiOutcomeView, spec_button, spec_designer, spec_field, spec_field_item,
    spec_fields, spec_file_field_line, spec_file_field_start, spec_grand_v, spec_inote_header,
    spec_known_field, spec_level, spec_number_field, spec_other_field, spec_pattern_char,
    spec_pattern_pair, spec_simai_file, spec_simai_map, spec_slide, spec_slide_body,
    spec_slide_multis, spec_slide_pattern, spec_track_steps1, spec_tracks_diff_len,
    spec_tracks_full1, spec_tracks_same_len, title_count, title_name, zero_text,
};
use crate::scan::{
    is_line_end, is_space, lemma_prefix_len, prefix_len, spec_char, spec_multispace0, SRes,
};
use crate::{Button, button_number, button_of, HoldView, ParseError, SimaiMap};

verus! {

/// Every button is found again from its number.
pub proof fn law_button_number(b: Button)
    ensures
        button_of(button_number(b)) == Some(b),
{
}

/// Distinct buttons have distinct numbers.
pub proof fn law_button_numbers_distinct(a: Button, b: Button)
    ensures
        a != b ==> button_number(a) != button_number(b),
{
}

/// A file that is read is read to its end: nothing is left over.
pub proof fn law_file_read_to_end(s: Seq<char>)
    ensures
        spec_simai_file(s) matches SimaiOutcomeView::Parsed(rest, _) ==> rest.len() == 0,
{
    reveal(spec_simai_file);
}

proof fn lemma_multispace0_after_space(s: Seq<char>, c: char)
    requires
        is_space(c),
    ensures
        spec_multispace0(seq![c] + s) matches Ok((r1, _)) && spec_multispace0(s) matches Ok((
            r2,
            _,
        )) && r1 == r2,
{
    let t = seq![c] + s;
    assert(t.drop_first() =~= s);
    let n = prefix_len(s, |x: char| is_space(x));
    lemma_prefix_len(s, |x: char| is_space(x));
    assert(prefix_len(t, |x: char| is_space(x)) == n + 1);
    assert(t.skip((n + 1) as int) =~= s.skip(n as int));
}

/// A space, tab or line break before a file changes nothing.
pub proof fn law_leading_space(s: Seq<char>, c: char)
    requires
        is_space(c),
    ensures
        spec_simai_file(seq![c] + s) == spec_simai_file(s),
{
    reveal(spec_simai_file);
    lemma_multispace0_after_space(s, c);
}

/// The field read last decides: after a field, the file says what that field says.
pub proof fn law_later_field_wins(fs: Seq<FieldView>, f: FieldView)
    ensures
        ({
            let file = file_of(fs.push(f));
            match f {
                FieldView::Title(t) => file.title == Some(t),
                FieldView::Artist(t) => file.artist == Some(t),
                FieldView::First(t) => file.first == t,
                FieldView::WholeBpm(t) => file.wholebpm == Some(t),
                FieldView::Designer(n, t) => file.designers.contains_key(n) && file.designers[n] == t,
                FieldView::Level(n, t) => file.level_names.contains_key(n) && file.level_names[n] == t,
                FieldView::OtherFields(k, v) => file.other_fields.contains_key(k)
                    && file.other_fields[k] == v,
                FieldView::INote(n, m) => file.maps.contains_key(n) && file.maps[n] == m,
            }
        }),
{
    assert(fs.push(f).drop_last() =~= fs);
}

/// The key a field sets: its kind, and for numbered or named fields the number or name.
pub open spec fn field_key(f: FieldView) -> (int, int, Seq<char>) {
    match f {
        FieldView::Title(_) => (0, 0, seq![]),
        FieldView::Artist(_) => (1, 0, seq![]),
        FieldView::First(_) => (2, 0, seq![]),
        FieldView::WholeBpm(_) => (3, 0, seq![]),
        FieldView::Designer(n, _) => (4, n as int, seq![]),
        FieldView::Level(n, _) => (5, n as int, seq![]),
        FieldView::OtherFields(k, _) => (6, 0, k),
        FieldView::INote(n, _) => (7, n as int, seq![]),
    }
}

/// Two fields that set different things can be written in either order.
pub proof fn law_fields_commute(fs: Seq<FieldView>, a: FieldView, b: FieldView)
    requires
        field_key(a) != field_key(b),
    ensures
        file_of(fs.push(a).push(b)) == file_of(fs.push(b).push(a)),
{
    assert(fs.push(a).push(b).drop_last() =~= fs.push(a));
    assert(fs.push(b).push(a).drop_last() =~= fs.push(b));
    assert(fs.push(a).drop_last() =~= fs);
    assert(fs.push(b).drop_last() =~= fs);
    let f = file_of(fs);
    assert(file_of(fs.push(a)) == apply_field(f, a));
    assert(file_of(fs.push(b)) == apply_field(f, b));
    let ab = apply_field(apply_field(f, a), b);
    let ba = apply_field(apply_field(f, b), a);
    assert(ab.designers =~= ba.designers);
    assert(ab.level_names =~= ba.level_names);
    assert(ab.other_fields =~= ba.other_fields);
    assert(ab.maps =~= ba.maps);
}

/// Without a `&first=` field, `first` is `0`.
pub proof fn law_first_defaults_to_zero(fs: Seq<FieldView>)
    requires
        forall|i: int| 0 <= i < fs.len() ==> !(#[trigger] fs[i] is First),
    ensures
        file_of(fs).first == zero_text(),
    decreases fs.len(),
{
    if fs.len() > 0 {
        let init = fs.drop_last();
        assert forall|i: int| 0 <= i < init.len() implies !(#[trigger] init[i] is First) by {
            assert(init[i] == fs[i]);
        }
        law_first_defaults_to_zero(init);
    }
}

/// A `V` that is not followed by a button stops the whole parse (`Failure`).
pub proof fn law_grand_v_needs_middle(s: Seq<char>)
    requires
        spec_button(s) is Err,
    ensures
        spec_slide_pattern(seq!['V'] + s) == Err::<(Seq<char>, crate::SlidePattern), ParseError>(
            ParseError::Failure,
        ),
{
    let t = seq!['V'] + s;
    reveal(spec_slide_pattern);
    reveal(spec_pattern_char);
    reveal(spec_pattern_pair);
    reveal(spec_grand_v);
    assert(t.drop_first() =~= s);
    if t.len() >= 2 {
        assert(t.take(2)[0] == 'V');
        assert(t.take(2) != seq!['p', 'p']);
        assert(t.take(2) != seq!['q', 'q']);
    }
}


/// A slide read has at least one track.
pub open spec fn has_tracks(d: SlideDataView) -> bool {
    d.tracks.len() >= 1
}

proof fn lemma_slide_body_has_tracks(s: Seq<char>)
    ensures
        spec_slide_body(s) matches Ok((_, d)) ==> has_tracks(d),
{
    reveal(spec_slide_body);
    reveal(spec_tracks_same_len);
    reveal(spec_track_steps1);
    reveal(spec_tracks_diff_len);
    reveal(spec_tracks_full1);
}

proof fn lemma_slide_multis_have_tracks(s: Seq<char>)
    ensures
        spec_slide_multis(s) matches Ok((_, ds)) ==> forall|i: int|
            0 <= i < ds.len() ==> has_tracks(#[trigger] ds[i]),
    decreases s.len(),
{
    reveal(spec_slide_multis);
    reveal(crate::grammar::spec_slide_multi);
    if let Ok((r, _)) = crate::grammar::spec_slide_multi(s) {
        if let Ok((r1, _)) = spec_char(s, '*') {
            lemma_slide_body_has_tracks(r1);
        }
        if r.len() < s.len() {
            lemma_slide_multis_have_tracks(r);
            if let Ok((_, ds)) = spec_slide_multis(s) {
                assert forall|i: int| 0 <= i < ds.len() implies has_tracks(#[trigger] ds[i]) by {
                    if i > 0 {
                        let (_, rest) = spec_slide_multis(r).unwrap();
                        assert(ds[i] == rest[i - 1]);
                    }
                }
            }
        }
    }
}

/// Every slide of a slide event, the first and those after `*`, has at least one track.
pub proof fn law_slides_have_tracks(s: Seq<char>)
    ensures
        spec_slide(s) matches Ok((_, e)) ==> has_tracks(e.slide) && forall|i: int|
            0 <= i < e.multi.len() ==> has_tracks(#[trigger] e.multi[i]),
{
    reveal(spec_slide);
    if let Ok((r1, _)) = spec_button(s) {
        if let Ok((r2, _)) = crate::grammar::spec_break(r1) {
            lemma_slide_body_has_tracks(r2);
            if let Ok((r3, _)) = spec_slide_body(r2) {
                lemma_slide_multis_have_tracks(r3);
            }
        }
    }
}


proof fn lemma_prefix_len_concat(a: Seq<char>, b: Seq<char>, p: spec_fn(char) -> bool)
    requires
        forall|i: int| 0 <= i < a.len() ==> p(#[trigger] a[i]),
    ensures
        prefix_len(a + b, p) == a.len() + prefix_len(b, p),
    decreases a.len(),
{
    if a.len() > 0 {
        assert((a + b).drop_first() =~= a.drop_first() + b);
        assert(p(a[0]));
        assert forall|i: int| 0 <= i < a.drop_first().len() implies p(#[trigger] a.drop_first()[i]) by {
            assert(a.drop_first()[i] == a[i + 1]);
        }
        lemma_prefix_len_concat(a.drop_first(), b, p);
    } else {
        assert(a + b =~= b);
    }
}

/// `&name=value` reads `value`, up to the end of its line.
pub proof fn law_field_line(name: Seq<char>, v: Seq<char>, rest: Seq<char>)
    requires
        forall|i: int| 0 <= i < v.len() ==> !is_line_end(#[trigger] v[i]),
        rest.len() == 0 || rest[0] == '\n',
    ensures
        spec_file_field_line(seq!['&'] + name + seq!['='] + v + rest, name) == Ok::<
            (Seq<char>, Seq<char>),
            ParseError,
        >((rest, v)),
{
    reveal(spec_file_field_line);
    reveal(spec_file_field_start);
    let s = seq!['&'] + name + seq!['='] + v + rest;
    let s1 = name + seq!['='] + v + rest;
    let s2 = seq!['='] + v + rest;
    let s3 = v + rest;
    assert(s.drop_first() =~= s1);
    assert(s1.take(name.len() as int) =~= name);
    assert(s1.skip(name.len() as int) =~= s2);
    assert(s2.drop_first() =~= s3);
    lemma_prefix_len_concat(v, rest, |c: char| !is_line_end(c));
    assert(prefix_len(rest, |c: char| !is_line_end(c)) == 0);
    assert(s3.skip(v.len() as int) =~= rest);
    assert(s3.take(v.len() as int) =~= v);
}


proof fn lemma_fields_of_nothing()
    ensures
        spec_fields(seq![]) == Ok::<(Seq<char>, Seq<FieldView>), ParseError>((seq![], seq![])),
{
    let e: Seq<char> = seq![];
    reveal(spec_fields);
    reveal(spec_field_item);
    reveal(spec_field);
    reveal(spec_known_field);
    reveal(spec_file_field_line);
    reveal(spec_file_field_start);
    reveal(spec_number_field);
    reveal(spec_designer);
    reveal(spec_level);
    reveal(spec_other_field);
    reveal(spec_simai_map);
    reveal(spec_inote_header);
    assert(spec_multispace0(e) == Ok::<(Seq<char>, Seq<char>), ParseError>((e, e))) by {
        assert(e.skip(0) =~= e);
        assert(e.take(0) =~= e);
    }
}

/// A file that is one `&title=` line is read as a file with that title and nothing else.
pub proof fn law_title_file(v: Seq<char>)
    requires
        forall|i: int| 0 <= i < v.len() ==> !is_line_end(#[trigger] v[i]),
    ensures
        spec_simai_file(seq!['&'] + title_name() + seq!['='] + v) == SimaiOutcomeView::Parsed(
            seq![],
            file_of(seq![FieldView::Title(v)]),
        ),
{
    let e: Seq<char> = seq![];
    let s = seq!['&'] + title_name() + seq!['='] + v;
    law_field_line(title_name(), v, e);
    assert(s + e =~= s);
    lemma_fields_of_nothing();
    reveal(spec_simai_file);
    reveal(spec_fields);
    reveal(spec_field_item);
    reveal(spec_field);
    reveal(spec_known_field);
    assert(spec_multispace0(s) == Ok::<(Seq<char>, Seq<char>), ParseError>((s, e))) by {
        assert(s[0] == '&');
        assert(prefix_len(s, |c: char| is_space(c)) == 0);
        assert(s.skip(0) =~= s);
        assert(s.take(0) =~= e);
    }
    assert(spec_multispace0(e) == Ok::<(Seq<char>, Seq<char>), ParseError>((e, e))) by {
        assert(e.skip(0) =~= e);
        assert(e.take(0) =~= e);
    }
    let fs = seq![FieldView::Title(v)];
    assert(spec_known_field(s) == Ok::<(Seq<char>, FieldView), ParseError>((e, FieldView::Title(v))));
    assert(spec_field(s) == Ok::<(Seq<char>, FieldView), ParseError>((e, FieldView::Title(v))));
    assert(spec_field_item(s) == Ok::<(Seq<char>, FieldView), ParseError>((e, FieldView::Title(v))));
    assert(seq![FieldView::Title(v)] + seq![] =~= fs);
    assert(spec_fields(s) == Ok::<(Seq<char>, Seq<FieldView>), ParseError>((e, fs)));
    assert(fs.drop_last() =~= seq![]);
    assert(title_count(fs.drop_last()) == 0);
    assert(fs.last() is Title);
    assert(title_count(fs) == 1);
}


proof fn lemma_slash_events_no_error(s: Seq<char>)
    ensures
        spec_slash_events(s) != Err::<(Seq<char>, Seq<EventView>), ParseError>(ParseError::Error),
    decreases s.len(),
{
    reveal(spec_slash_events);
    lemma_slash_event(s);
    if let Ok((r, _)) = spec_slash_event(s) {
        if r.len() < s.len() {
            lemma_slash_events_no_error(r);
        }
    }
}

proof fn lemma_chart_events_no_error(s: Seq<char>)
    ensures
        spec_chart_events(s) != Err::<(Seq<char>, Seq<EventGroupView>), ParseError>(
            ParseError::Error,
        ),
    decreases s.len(),
{
    reveal(spec_chart_events);
    reveal(spec_event_group);
    lemma_event_group(s);
    if let Ok((r1, _)) = cut(spec_event(s)) {
        lemma_slash_events_no_error(r1);
    }
    if let Ok((r, _)) = spec_event_group(s) {
        if r.len() < s.len() {
            lemma_chart_events_no_error(r);
        }
    }
}

/// Once `&inote_N=` is read, the field is a chart or the whole parse stops:
/// it never falls back to an ordinary `&name=value` field.
pub proof fn law_chart_commits(s: Seq<char>)
    requires
        s.len() > 0,
        s[0] == '&',
        spec_inote_header(s) is Ok,
        spec_known_field(s) is Err,
    ensures
        spec_field(s) matches Ok((r, FieldView::INote(n, m))) ==> (m == (SimaiMap {  })),
        spec_field(s) is Err ==> spec_field(s) == Err::<(Seq<char>, FieldView), ParseError>(
            ParseError::Failure,
        ),
        spec_field(s) matches Ok((_, f)) ==> (f is INote),
{
    reveal(spec_field);
    reveal(spec_simai_map);
    assert(spec_multispace0(s) == Ok::<(Seq<char>, Seq<char>), ParseError>((s, seq![]))) by {
        assert(prefix_len(s, |c: char| is_space(c)) == 0);
        assert(s.skip(0) =~= s);
        assert(s.take(0) =~= seq![]);
    }
    if let Ok((r1, _)) = spec_inote_header(s) {
        if let Ok((r2, _)) = spec_map_start(r1) {
            if let Ok((r3, _)) = spec_multispace0(r2) {
                lemma_chart_events_no_error(r3);
            }
        }
    }
    if spec_known_field(s) is Err {
        assert(spec_known_field(s) matches Err(ParseError::Error) || spec_known_field(s) matches Err(ParseError::Failure));
    }
}

/// A chart field adds an empty `SimaiMap` under the chart's number, and the file
/// goes on after the chart's `E`.
pub proof fn law_chart_field(s: Seq<char>)
    requires
        spec_known_field(s) == Err::<(Seq<char>, FieldView), ParseError>(ParseError::Error),
        spec_simai_map(s) is Ok,
    ensures
        spec_field(s) == Ok::<(Seq<char>, FieldView), ParseError>((
            spec_simai_map(s)->Ok_0.0,
            FieldView::INote(spec_simai_map(s)->Ok_0.1.number, (SimaiMap {  })),
        )),
{
    reveal(spec_field);
}

/// `&name=value` with a name that holds no `=` reads as the ordinary field
/// `(name, value)`, the value running to the end of its line.
pub proof fn law_other_field_line(name: Seq<char>, v: Seq<char>, rest: Seq<char>)
    requires
        name.len() > 0,
        forall|i: int| 0 <= i < name.len() ==> #[trigger] name[i] != '=',
        forall|i: int| 0 <= i < v.len() ==> !is_line_end(#[trigger] v[i]),
        rest.len() == 0 || rest[0] == '\n',
    ensures
        spec_other_field(seq!['&'] + name + seq!['='] + v + rest) == Ok::<
            (Seq<char>, (Seq<char>, Seq<char>)),
            ParseError,
        >((rest, (name, v))),
{
    reveal(spec_other_field);
    let s = seq!['&'] + name + seq!['='] + v + rest;
    let s1 = name + seq!['='] + v + rest;
    let s2 = seq!['='] + v + rest;
    let s3 = v + rest;
    assert(s.drop_first() =~= s1);
    lemma_prefix_len_concat(name, seq!['='] + v + rest, |c: char| c != '=');
    assert(s1 =~= name + (seq!['='] + v + rest));
    assert(prefix_len(s2, |c: char| c != '=') == 0);
    assert(s1.skip(name.len() as int) =~= s2);
    assert(s1.take(name.len() as int) =~= name);
    assert(s2.drop_first() =~= s3);
    lemma_prefix_len_concat(v, rest, |c: char| !is_line_end(c));
    assert(prefix_len(rest, |c: char| !is_line_end(c)) == 0);
    assert(s3.skip(v.len() as int) =~= rest);
    assert(s3.take(v.len() as int) =~= v);
}

/// A field ends at its line break; the next field is read after the line
/// break and any blank lines and spaces that follow.
pub proof fn law_fields_by_line(s: Seq<char>, t: Seq<char>, f: FieldView)
    requires
        spec_field(s) == Ok::<(Seq<char>, FieldView), ParseError>((seq!['\n'] + t, f)),
    ensures
        spec_field_item(s) == Ok::<(Seq<char>, FieldView), ParseError>((
            spec_multispace0(t)->Ok_0.0,
            f,
        )),
{
    reveal(spec_field_item);
    lemma_multispace0_after_space(t, '\n');
}


/// A slide event starts on the button its text begins with, and its note is a
/// break exactly when `b` follows that button.
pub proof fn law_slide_start(s: Seq<char>)
    ensures
        spec_slide(s) is Ok ==> spec_button(s) is Ok,
        spec_slide(s) is Ok ==> spec_slide(s)->Ok_0.1.start == spec_button(s)->Ok_0.1,
        spec_slide(s) is Ok ==> ({
            let r1 = spec_button(s)->Ok_0.0;
            spec_slide(s)->Ok_0.1.break_note == (r1.len() > 0 && r1[0] == 'b')
        }),
{
    reveal(spec_slide);
    reveal(spec_break);
}

/// Text that the hold reader refuses and the slide reader accepts is read as
/// that slide, whatever else could be read from it.
pub proof fn law_slide_event_before_taps(s: Seq<char>)
    requires
        spec_hold(s) == Err::<(Seq<char>, (HoldView, EventDurationView)), ParseError>(
            ParseError::Error,
        ),
        spec_slide(s) is Ok,
    ensures
        spec_event_item(s) == Ok::<(Seq<char>, EventView), ParseError>((
            spec_slide(s)->Ok_0.0,
            EventView::Slide(spec_slide(s)->Ok_0.1),
        )),
{
    reveal(spec_event_item);
}

/// Tracks that share one `[wait length]` take both the wait and the length
/// written there, and keep the pattern and end button written for each of them.
pub proof fn law_shared_length(s: Seq<char>)
    requires
        spec_track_steps1(s) is Ok,
        spec_slide_len(spec_track_steps1(s)->Ok_0.0) is Ok,
    ensures
        spec_tracks_same_len(s) is Ok,
        ({
            let steps = spec_track_steps1(s)->Ok_0.1;
            let (w, d) = spec_slide_len(spec_track_steps1(s)->Ok_0.0)->Ok_0.1;
            let (tracks, wait) = spec_tracks_same_len(s)->Ok_0.1;
            &&& wait == w
            &&& tracks.len() == steps.len()
            &&& forall|i: int|
                0 <= i < steps.len() ==> {
                    &&& (#[trigger] tracks[i]).track.variant == steps[i].0
                    &&& tracks[i].track.end == steps[i].1
                    &&& tracks[i].length == d
                }
        }),
{
    reveal(spec_tracks_same_len);
}

/// A hold is on the button its text begins with, and it is a break exactly
/// when `b` follows its `h`.
pub proof fn law_hold_break(s: Seq<char>)
    ensures
        spec_hold(s) is Ok ==> spec_button(s) is Ok,
        spec_hold(s) is Ok ==> ({
            let (r1, b) = spec_button(s)->Ok_0;
            let h = spec_hold(s)->Ok_0.1.0;
            &&& h.button == b
            &&& r1.len() > 0 && r1[0] == 'h'
            &&& h.break_ == (r1.len() > 1 && r1[1] == 'b')
        }),
{
    reveal(spec_hold);
    reveal(spec_break);
    if let Ok((r1, _)) = spec_button(s) {
        if let Ok((r2, _)) = spec_char(r1, 'h') {
            assert(r2.len() > 0 ==> r2[0] == r1[1]);
        }
    }
}

/// Tracks that each carry a length keep, each of them, the pattern, end button
/// and length written for it; the slide waits as its first track says.
pub proof fn law_own_lengths(s: Seq<char>)
    requires
        spec_tracks_full1(s) is Ok,
    ensures
        spec_tracks_diff_len(s) is Ok,
        ({
            let ts = spec_tracks_full1(s)->Ok_0.1;
            let (tracks, wait) = spec_tracks_diff_len(s)->Ok_0.1;
            &&& spec_tracks_diff_len(s)->Ok_0.0 == spec_tracks_full1(s)->Ok_0.0
            &&& tracks.len() == ts.len()
            &&& ts.len() > 0
            &&& wait == ts[0].2.0
            &&& forall|i: int|
                0 <= i < ts.len() ==> {
                    &&& (#[trigger] tracks[i]).track.variant == ts[i].0
                    &&& tracks[i].track.end == ts[i].1
                    &&& tracks[i].length == ts[i].2.1
                }
        }),
{
    reveal(spec_tracks_diff_len);
    reveal(spec_tracks_full1);
}


/// A tap is on the button its text begins with, and it is a break exactly when
/// `b` follows that button.
pub proof fn law_tap(s: Seq<char>)
    ensures
        spec_tap(s) is Ok <==> spec_button(s) is Ok,
        spec_tap(s) is Ok ==> ({
            let (r1, b) = spec_button(s)->Ok_0;
            let t = spec_tap(s)->Ok_0.1;
            &&& t.button == b
            &&& t.break_ == (r1.len() > 0 && r1[0] == 'b')
        }),
{
    reveal(spec_tap);
    reveal(spec_break);
}

/// The body of a slide takes its tracks and wait from the per-track reading
/// when that succeeds, else from the shared-length reading; its track is a
/// break exactly when `b` follows the tracks.
pub proof fn law_slide_body(s: Seq<char>)
    ensures
        spec_tracks_diff_len(s) is Ok ==> spec_slide_body(s) is Ok && ({
            let (r1, (tracks, wait)) = spec_tracks_diff_len(s)->Ok_0;
            let d = spec_slide_body(s)->Ok_0.1;
            &&& d.tracks == tracks
            &&& d.wait == wait
            &&& d.slide.break_slide == (r1.len() > 0 && r1[0] == 'b')
            &&& !d.slide.break_note
            &&& d.slide.tracks.len() == 0
        }),
        spec_tracks_diff_len(s) == Err::<(Seq<char>, (Seq<SlideTrackDataView>, SlideWaitView)), ParseError>(
            ParseError::Error,
        ) && spec_tracks_same_len(s) is Ok ==> spec_slide_body(s) is Ok && ({
            let (r1, (tracks, wait)) = spec_tracks_same_len(s)->Ok_0;
            let d = spec_slide_body(s)->Ok_0.1;
            &&& d.tracks == tracks
            &&& d.wait == wait
            &&& d.slide.break_slide == (r1.len() > 0 && r1[0] == 'b')
        }),
{
    reveal(spec_slide_body);
    reveal(spec_break);
}

/// The start of a chart gives its tempo first and its divider second, in
/// whichever order they are written.
pub proof fn law_map_start_either_order(s: Seq<char>)
    ensures
        spec_start_tempo(s) is Ok && spec_start_divider(spec_start_tempo(s)->Ok_0.0) is Ok
            ==> spec_map_start(s) == Ok::<(Seq<char>, (EventView, EventView)), ParseError>((
            spec_start_divider(spec_start_tempo(s)->Ok_0.0)->Ok_0.0,
            (spec_start_tempo(s)->Ok_0.1, spec_start_divider(spec_start_tempo(s)->Ok_0.0)->Ok_0.1),
        )),
        spec_start_tempo(s) == Err::<(Seq<char>, EventView), ParseError>(ParseError::Error)
            && spec_start_divider(s) is Ok && spec_start_tempo(spec_start_divider(s)->Ok_0.0) is Ok
            ==> spec_map_start(s) == Ok::<(Seq<char>, (EventView, EventView)), ParseError>((
            spec_start_tempo(spec_start_divider(s)->Ok_0.0)->Ok_0.0,
            (spec_start_tempo(spec_start_divider(s)->Ok_0.0)->Ok_0.1, spec_start_divider(s)->Ok_0.1),
        )),
{
    reveal(spec_map_start);
}

/// A hold is read as a hold before anything else is tried.
pub proof fn law_hold_event(s: Seq<char>)
    requires
        spec_hold(s) is Ok,
    ensures
        spec_event_item(s) == Ok::<(Seq<char>, EventView), ParseError>((
            spec_hold(s)->Ok_0.0,
            EventView::Hold(spec_hold(s)->Ok_0.1.0, spec_hold(s)->Ok_0.1.1),
        )),
{
    reveal(spec_event_item);
}

/// A length `d:n` is read as a note length; `#x` as seconds; `b#d:n` as a
/// note length at a BPM.
pub proof fn law_event_duration(s: Seq<char>)
    ensures
        spec_length_note_div(s) is Ok ==> spec_event_duration(s) == Ok::<
            (Seq<char>, EventDurationView),
            ParseError,
        >((
            spec_length_note_div(s)->Ok_0.0,
            EventDurationView::LengthNoteDiv(spec_length_note_div(s)->Ok_0.1),
        )),
        spec_length_note_div(s) is Err && spec_duration_secs(s) is Ok ==> spec_event_duration(s)
            == Ok::<(Seq<char>, EventDurationView), ParseError>((
            spec_duration_secs(s)->Ok_0.0,
            EventDurationView::Seconds(spec_duration_secs(s)->Ok_0.1),
        )),
{
    reveal(spec_event_duration);
    reveal(spec_length_note_div);
    reveal(spec_duration_secs);
}


/// A track step is the pattern written first and the button written after it.
pub proof fn law_track_step(s: Seq<char>)
    ensures
        spec_track_step(s) is Ok <==> (spec_slide_pattern(s) is Ok && spec_button(
            spec_slide_pattern(s)->Ok_0.0,
        ) is Ok),
        spec_track_step(s) is Ok ==> ({
            let (r1, p) = spec_slide_pattern(s)->Ok_0;
            let (r2, b) = spec_button(r1)->Ok_0;
            spec_track_step(s)->Ok_0 == (r2, (p, b))
        }),
{
    reveal(spec_track_step);
}

/// Each further slide after the first is written `*` and a slide body, in order.
pub proof fn law_slide_multis(s: Seq<char>)
    ensures
        spec_slide_multis(s) is Ok && spec_slide_multis(s)->Ok_0.1.len() > 0 ==> ({
            let r1 = spec_char(s, '*')->Ok_0.0;
            &&& spec_char(s, '*') is Ok
            &&& spec_slide_body(r1) is Ok
            &&& spec_slide_multis(s)->Ok_0.1[0] == spec_slide_body(r1)->Ok_0.1
        }),
{
    reveal(spec_slide_multis);
    reveal(crate::grammar::spec_slide_multi);
}

} // verus!
