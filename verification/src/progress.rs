//! Every parser leaves a suffix of its input, and those that are repeated
//! read at least one character each time they succeed.
use vstd::prelude::*;

use crate::grammar::{
    artist_name, consumes, first_name, leaves_suffix, or_else, spec_bpm, spec_bpm_with_note_div,
    spec_break, spec_button, spec_buttons0, spec_chart_events, spec_designer, spec_designer_num,
    spec_duration_secs, spec_event, spec_event_duration, spec_event_group, spec_event_item,
    spec_field, spec_field_item, spec_field_with_num, spec_fields, spec_file_field_line,
    spec_file_field_start, spec_grand_v, spec_hold, spec_inote_header, spec_known_field,
    spec_length_divider, spec_length_note_div, spec_level, spec_map_start, spec_number_field,
    spec_other_field, spec_pattern_char, spec_pattern_pair, spec_simai_map, spec_slash_event,
    spec_slash_events, spec_slide, spec_slide_body, spec_slide_len, spec_slide_multi,
    spec_slide_multis, spec_slide_pattern, spec_slide_wait, spec_start_divider, spec_start_tempo,
    spec_tap, spec_tap_each, spec_track_full, spec_track_step, spec_track_steps0, spec_track_steps1,
    spec_tracks_diff_len, spec_tracks_full0, spec_tracks_full1, spec_tracks_same_len,
    spec_wait_bpm_before_seconds, spec_wait_bpm_peeked, spec_wait_seconds_double,
    spec_wait_seconds_single, title_name, wholebpm_name,
};
use crate::scan::{
    digits_at, is_digit, is_line_end, is_space, lemma_prefix_len, spec_char, spec_float,
    spec_float_len, spec_multispace0, spec_not_line_ending, spec_tag, spec_take_till_equals,
    spec_u64, spec_u8, spec_unsigned,
};

verus! {

pub proof fn lemma_char(s: Seq<char>, c: char)
    ensures
        consumes(s, spec_char(s, c)),
{
}

pub proof fn lemma_tag(s: Seq<char>, t: Seq<char>)
    ensures
        leaves_suffix(s, spec_tag(s, t)),
        t.len() > 0 ==> consumes(s, spec_tag(s, t)),
{
}

pub proof fn lemma_multispace0(s: Seq<char>)
    ensures
        leaves_suffix(s, spec_multispace0(s)),
{
    lemma_prefix_len(s, |c: char| is_space(c));
}

pub proof fn lemma_not_line_ending(s: Seq<char>)
    ensures
        leaves_suffix(s, spec_not_line_ending(s)),
{
    lemma_prefix_len(s, |c: char| !is_line_end(c));
}

pub proof fn lemma_take_till_equals(s: Seq<char>)
    ensures
        consumes(s, spec_take_till_equals(s)),
{
    lemma_prefix_len(s, |c: char| c != '=');
}

pub proof fn lemma_unsigned(s: Seq<char>, max: nat)
    ensures
        consumes(s, spec_unsigned(s, max)),
{
    lemma_prefix_len(s, |c: char| is_digit(c));
}

pub proof fn lemma_u8(s: Seq<char>)
    ensures
        consumes(s, spec_u8(s)),
{
    lemma_unsigned(s, 255);
}

pub proof fn lemma_u64(s: Seq<char>)
    ensures
        consumes(s, spec_u64(s)),
{
    lemma_unsigned(s, u64::MAX as nat);
}

pub proof fn lemma_digits_at(s: Seq<char>, i: int)
    requires
        0 <= i <= s.len(),
    ensures
        i + digits_at(s, i) <= s.len(),
{
    lemma_prefix_len(s.skip(i), |c: char| is_digit(c));
}

pub proof fn lemma_float_len(s: Seq<char>)
    ensures
        spec_float_len(s) matches Ok(n) ==> 0 < n <= s.len(),
{
    let a: int = if s.len() > 0 && (s[0] == '+' || s[0] == '-') { 1 } else { 0 };
    lemma_digits_at(s, a);
    let d = digits_at(s, a);
    if d > 0 {
        let p = a + d;
        if p < s.len() {
            lemma_digits_at(s, p + 1);
        }
    } else if a < s.len() {
        lemma_digits_at(s, a + 1);
    }
    let mantissa: Option<int> = if d > 0 {
        let p = a + d;
        if p < s.len() && s[p] == '.' {
            Some(p + 1 + digits_at(s, p + 1))
        } else {
            Some(p)
        }
    } else if a < s.len() && s[a] == '.' && digits_at(s, a + 1) > 0 {
        Some(a + 1 + digits_at(s, a + 1))
    } else {
        None
    };
    if let Some(m) = mantissa {
        if m < s.len() {
            lemma_digits_at(s, m + 1);
            if m + 1 < s.len() {
                lemma_digits_at(s, m + 2);
            }
        }
    }
}

pub proof fn lemma_float(s: Seq<char>)
    ensures
        consumes(s, spec_float(s)),
{
    lemma_float_len(s);
}


pub proof fn lemma_button(s: Seq<char>)
    ensures
        consumes(s, spec_button(s)),
{
    reveal(spec_button);
    lemma_u8(s);
}

pub proof fn lemma_break(s: Seq<char>)
    ensures
        leaves_suffix(s, spec_break(s)),
{
    reveal(spec_break);
    lemma_char(s, 'b');
}

pub proof fn lemma_length_note_div(s: Seq<char>)
    ensures
        consumes(s, spec_length_note_div(s)),
{
    reveal(spec_length_note_div);
    lemma_u64(s);
    if let Ok((r1, _)) = spec_u64(s) {
        lemma_char(r1, ':');
        if let Ok((r2, _)) = spec_char(r1, ':') {
            lemma_u64(r2);
        }
    }
}

pub proof fn lemma_duration_secs(s: Seq<char>)
    ensures
        consumes(s, spec_duration_secs(s)),
{
    reveal(spec_duration_secs);
    lemma_char(s, '#');
    if let Ok((r, _)) = spec_char(s, '#') {
        lemma_float(r);
    }
}

pub proof fn lemma_bpm_with_note_div(s: Seq<char>)
    ensures
        consumes(s, spec_bpm_with_note_div(s)),
{
    reveal(spec_bpm_with_note_div);
    lemma_float(s);
    if let Ok((r1, _)) = spec_float(s) {
        lemma_char(r1, '#');
        if let Ok((r2, _)) = spec_char(r1, '#') {
            lemma_length_note_div(r2);
        }
    }
}

pub proof fn lemma_event_duration(s: Seq<char>)
    ensures
        consumes(s, spec_event_duration(s)),
{
    reveal(spec_event_duration);
    lemma_length_note_div(s);
    lemma_duration_secs(s);
    lemma_bpm_with_note_div(s);
}

pub proof fn lemma_slide_pattern(s: Seq<char>)
    ensures
        consumes(s, spec_slide_pattern(s)),
{
    reveal(spec_slide_pattern);
    reveal(spec_pattern_char);
    reveal(spec_pattern_pair);
    reveal(spec_grand_v);
    lemma_char(s, '-');
    lemma_char(s, '>');
    lemma_char(s, '<');
    lemma_char(s, '^');
    lemma_char(s, 's');
    lemma_char(s, 'z');
    lemma_char(s, 'w');
    lemma_tag(s, seq!['p', 'p']);
    lemma_tag(s, seq!['q', 'q']);
    lemma_char(s, 'p');
    lemma_char(s, 'q');
    lemma_char(s, 'V');
    if let Ok((r, _)) = spec_char(s, 'V') {
        lemma_button(r);
    }
}

pub proof fn lemma_slide_wait(s: Seq<char>)
    ensures
        leaves_suffix(s, spec_slide_wait(s)),
{
    reveal(spec_slide_wait);
    reveal(spec_wait_seconds_double);
    reveal(spec_wait_seconds_single);
    reveal(spec_wait_bpm_before_seconds);
    reveal(spec_wait_bpm_peeked);
    lemma_float(s);
    if let Ok((r1, _)) = spec_float(s) {
        lemma_tag(r1, seq!['#', '#']);
        lemma_char(r1, '#');
    }
}

pub proof fn lemma_slide_len(s: Seq<char>)
    ensures
        consumes(s, spec_slide_len(s)),
{
    reveal(spec_slide_len);
    lemma_char(s, '[');
    if let Ok((r1, _)) = spec_char(s, '[') {
        lemma_slide_wait(r1);
        if let Ok((r2, _)) = spec_slide_wait(r1) {
            lemma_event_duration(r2);
            if let Ok((r3, _)) = spec_event_duration(r2) {
                lemma_char(r3, ']');
            }
        }
    }
}

pub proof fn lemma_track_step(s: Seq<char>)
    ensures
        consumes(s, spec_track_step(s)),
{
    reveal(spec_track_step);
    lemma_slide_pattern(s);
    if let Ok((r1, _)) = spec_slide_pattern(s) {
        lemma_button(r1);
    }
}

pub proof fn lemma_track_steps0(s: Seq<char>)
    ensures
        leaves_suffix(s, spec_track_steps0(s)),
    decreases s.len(),
{
    reveal(spec_track_steps0);
    lemma_track_step(s);
    if let Ok((r, _)) = spec_track_step(s) {
        if r.len() < s.len() {
            lemma_track_steps0(r);
        }
    }
}

pub proof fn lemma_track_steps1(s: Seq<char>)
    ensures
        consumes(s, spec_track_steps1(s)),
{
    reveal(spec_track_steps1);
    lemma_track_step(s);
    if let Ok((r, _)) = spec_track_step(s) {
        lemma_track_steps0(r);
    }
}

pub proof fn lemma_tracks_same_len(s: Seq<char>)
    ensures
        consumes(s, spec_tracks_same_len(s)),
{
    reveal(spec_tracks_same_len);
    lemma_track_steps1(s);
    if let Ok((r1, _)) = spec_track_steps1(s) {
        lemma_slide_len(r1);
    }
}

pub proof fn lemma_track_full(s: Seq<char>)
    ensures
        consumes(s, spec_track_full(s)),
{
    reveal(spec_track_full);
    lemma_track_step(s);
    if let Ok((r1, _)) = spec_track_step(s) {
        lemma_slide_len(r1);
    }
}

pub proof fn lemma_tracks_full0(s: Seq<char>)
    ensures
        leaves_suffix(s, spec_tracks_full0(s)),
    decreases s.len(),
{
    reveal(spec_tracks_full0);
    lemma_track_full(s);
    if let Ok((r, _)) = spec_track_full(s) {
        if r.len() < s.len() {
            lemma_tracks_full0(r);
        }
    }
}

pub proof fn lemma_tracks_full1(s: Seq<char>)
    ensures
        consumes(s, spec_tracks_full1(s)),
{
    reveal(spec_tracks_full1);
    lemma_track_full(s);
    if let Ok((r, _)) = spec_track_full(s) {
        lemma_tracks_full0(r);
    }
}

pub proof fn lemma_tracks_diff_len(s: Seq<char>)
    ensures
        consumes(s, spec_tracks_diff_len(s)),
{
    reveal(spec_tracks_diff_len);
    lemma_tracks_full1(s);
}

pub proof fn lemma_slide_body(s: Seq<char>)
    ensures
        consumes(s, spec_slide_body(s)),
{
    reveal(spec_slide_body);
    lemma_tracks_diff_len(s);
    lemma_tracks_same_len(s);
    if let Ok((r1, _)) = or_else(spec_tracks_diff_len(s), spec_tracks_same_len(s)) {
        lemma_break(r1);
    }
}

pub proof fn lemma_slide_multi(s: Seq<char>)
    ensures
        consumes(s, spec_slide_multi(s)),
{
    reveal(spec_slide_multi);
    lemma_char(s, '*');
    if let Ok((r, _)) = spec_char(s, '*') {
        lemma_slide_body(r);
    }
}

pub proof fn lemma_slide_multis(s: Seq<char>)
    ensures
        leaves_suffix(s, spec_slide_multis(s)),
    decreases s.len(),
{
    reveal(spec_slide_multis);
    lemma_slide_multi(s);
    if let Ok((r, _)) = spec_slide_multi(s) {
        if r.len() < s.len() {
            lemma_slide_multis(r);
        }
    }
}

pub proof fn lemma_slide(s: Seq<char>)
    ensures
        consumes(s, spec_slide(s)),
{
    reveal(spec_slide);
    lemma_button(s);
    if let Ok((r1, _)) = spec_button(s) {
        lemma_break(r1);
        if let Ok((r2, _)) = spec_break(r1) {
            lemma_slide_body(r2);
            if let Ok((r3, _)) = spec_slide_body(r2) {
                lemma_slide_multis(r3);
            }
        }
    }
}


pub proof fn lemma_tap(s: Seq<char>)
    ensures
        consumes(s, spec_tap(s)),
{
    reveal(spec_tap);
    lemma_button(s);
    if let Ok((r1, _)) = spec_button(s) {
        lemma_break(r1);
    }
}

pub proof fn lemma_buttons0(s: Seq<char>)
    ensures
        leaves_suffix(s, spec_buttons0(s)),
    decreases s.len(),
{
    reveal(spec_buttons0);
    lemma_button(s);
    if let Ok((r, _)) = spec_button(s) {
        if r.len() < s.len() {
            lemma_buttons0(r);
        }
    }
}

pub proof fn lemma_tap_each(s: Seq<char>)
    ensures
        consumes(s, spec_tap_each(s)),
{
    reveal(spec_tap_each);
    lemma_button(s);
    if let Ok((r1, _)) = spec_button(s) {
        lemma_button(r1);
        if let Ok((r2, _)) = spec_button(r1) {
            lemma_buttons0(r2);
        }
    }
}

pub proof fn lemma_hold(s: Seq<char>)
    ensures
        consumes(s, spec_hold(s)),
{
    reveal(spec_hold);
    lemma_button(s);
    if let Ok((r1, _)) = spec_button(s) {
        lemma_char(r1, 'h');
        if let Ok((r2, _)) = spec_char(r1, 'h') {
            lemma_break(r2);
            if let Ok((r3, _)) = spec_break(r2) {
                lemma_char(r3, '[');
                if let Ok((r4, _)) = spec_char(r3, '[') {
                    lemma_event_duration(r4);
                    if let Ok((r5, _)) = spec_event_duration(r4) {
                        lemma_char(r5, ']');
                    }
                }
            }
        }
    }
}

pub proof fn lemma_bpm(s: Seq<char>)
    ensures
        consumes(s, spec_bpm(s)),
{
    reveal(spec_bpm);
    lemma_char(s, '(');
    if let Ok((r1, _)) = spec_char(s, '(') {
        lemma_float(r1);
        if let Ok((r2, _)) = spec_float(r1) {
            lemma_char(r2, ')');
        }
    }
}

pub proof fn lemma_length_divider(s: Seq<char>)
    ensures
        consumes(s, spec_length_divider(s)),
{
    reveal(spec_length_divider);
    lemma_char(s, '{');
    if let Ok((r1, _)) = spec_char(s, '{') {
        lemma_u64(r1);
        if let Ok((r2, _)) = spec_u64(r1) {
            lemma_char(r2, '}');
        }
    }
}

pub proof fn lemma_event_item(s: Seq<char>)
    ensures
        consumes(s, spec_event_item(s)),
{
    reveal(spec_event_item);
    lemma_hold(s);
    lemma_slide(s);
    lemma_tap_each(s);
    lemma_tap(s);
    lemma_char(s, ',');
    lemma_bpm(s);
    lemma_duration_secs(s);
    lemma_length_divider(s);
}

pub proof fn lemma_event(s: Seq<char>)
    ensures
        consumes(s, spec_event(s)),
{
    reveal(spec_event);
    lemma_event_item(s);
    if let Ok((r1, _)) = spec_event_item(s) {
        lemma_multispace0(r1);
    }
}

pub proof fn lemma_slash_event(s: Seq<char>)
    ensures
        consumes(s, spec_slash_event(s)),
{
    reveal(spec_slash_event);
    lemma_char(s, '/');
    if let Ok((r, _)) = spec_char(s, '/') {
        lemma_event(r);
    }
}

pub proof fn lemma_slash_events(s: Seq<char>)
    ensures
        leaves_suffix(s, spec_slash_events(s)),
    decreases s.len(),
{
    reveal(spec_slash_events);
    lemma_slash_event(s);
    if let Ok((r, _)) = spec_slash_event(s) {
        if r.len() < s.len() {
            lemma_slash_events(r);
        }
    }
}

pub proof fn lemma_event_group(s: Seq<char>)
    ensures
        consumes(s, spec_event_group(s)),
{
    reveal(spec_event_group);
    lemma_event(s);
    if let Ok((r1, _)) = spec_event(s) {
        lemma_slash_events(r1);
    }
}

pub proof fn lemma_chart_events(s: Seq<char>)
    ensures
        leaves_suffix(s, spec_chart_events(s)),
    decreases s.len(),
{
    reveal(spec_chart_events);
    lemma_char(s, 'E');
    lemma_event_group(s);
    if let Ok((r, _)) = spec_event_group(s) {
        if r.len() < s.len() {
            lemma_chart_events(r);
        }
    }
}

pub proof fn lemma_start_tempo(s: Seq<char>)
    ensures
        consumes(s, spec_start_tempo(s)),
{
    reveal(spec_start_tempo);
    lemma_multispace0(s);
    if let Ok((r, _)) = spec_multispace0(s) {
        lemma_bpm(r);
        lemma_duration_secs(r);
    }
}

pub proof fn lemma_start_divider(s: Seq<char>)
    ensures
        consumes(s, spec_start_divider(s)),
{
    reveal(spec_start_divider);
    lemma_multispace0(s);
    if let Ok((r, _)) = spec_multispace0(s) {
        lemma_length_divider(r);
    }
}

pub proof fn lemma_map_start(s: Seq<char>)
    ensures
        consumes(s, spec_map_start(s)),
{
    reveal(spec_map_start);
    lemma_start_tempo(s);
    lemma_start_divider(s);
    if let Ok((r1, _)) = spec_start_tempo(s) {
        lemma_start_divider(r1);
    }
    if let Ok((r1, _)) = spec_start_divider(s) {
        lemma_start_tempo(r1);
    }
}

pub proof fn lemma_inote_header(s: Seq<char>)
    ensures
        consumes(s, spec_inote_header(s)),
{
    reveal(spec_inote_header);
    lemma_char(s, '&');
    if let Ok((r1, _)) = spec_char(s, '&') {
        lemma_tag(r1, seq!['i', 'n', 'o', 't', 'e', '_']);
        if let Ok((r2, _)) = spec_tag(r1, seq!['i', 'n', 'o', 't', 'e', '_']) {
            lemma_u64(r2);
            if let Ok((r3, _)) = spec_u64(r2) {
                lemma_char(r3, '=');
            }
        }
    }
}

pub proof fn lemma_simai_map(s: Seq<char>)
    ensures
        consumes(s, spec_simai_map(s)),
{
    reveal(spec_simai_map);
    lemma_multispace0(s);
    if let Ok((r0, _)) = spec_multispace0(s) {
        lemma_inote_header(r0);
        if let Ok((r1, _)) = spec_inote_header(r0) {
            lemma_map_start(r1);
            if let Ok((r2, _)) = spec_map_start(r1) {
                lemma_multispace0(r2);
                if let Ok((r3, _)) = spec_multispace0(r2) {
                    lemma_chart_events(r3);
                }
            }
        }
    }
}


pub proof fn lemma_file_field_start(s: Seq<char>, name: Seq<char>)
    ensures
        consumes(s, spec_file_field_start(s, name)),
{
    reveal(spec_file_field_start);
    lemma_char(s, '&');
    if let Ok((r1, _)) = spec_char(s, '&') {
        lemma_tag(r1, name);
        if let Ok((r2, _)) = spec_tag(r1, name) {
            lemma_char(r2, '=');
        }
    }
}

pub proof fn lemma_file_field_line(s: Seq<char>, name: Seq<char>)
    ensures
        consumes(s, spec_file_field_line(s, name)),
{
    reveal(spec_file_field_line);
    lemma_file_field_start(s, name);
    if let Ok((r1, _)) = spec_file_field_start(s, name) {
        lemma_not_line_ending(r1);
    }
}

pub proof fn lemma_number_field(s: Seq<char>, name: Seq<char>)
    ensures
        consumes(s, spec_number_field(s, name)),
{
    reveal(spec_number_field);
    lemma_file_field_line(s, name);
}

pub proof fn lemma_field_with_num(s: Seq<char>)
    ensures
        consumes(s, spec_field_with_num(s)),
{
    reveal(spec_field_with_num);
    lemma_char(s, '_');
    if let Ok((r1, _)) = spec_char(s, '_') {
        lemma_u64(r1);
    }
}

pub proof fn lemma_designer(s: Seq<char>)
    ensures
        consumes(s, spec_designer(s)),
{
    reveal(spec_designer);
    reveal(spec_designer_num);
    lemma_char(s, '&');
    if let Ok((r1, _)) = spec_char(s, '&') {
        lemma_tag(r1, seq!['d', 'e', 's']);
        if let Ok((r2, _)) = spec_tag(r1, seq!['d', 'e', 's']) {
            lemma_field_with_num(r2);
            if let Ok((r3, _)) = spec_designer_num(r2) {
                lemma_char(r3, '=');
                if let Ok((r4, _)) = spec_char(r3, '=') {
                    lemma_not_line_ending(r4);
                }
            }
        }
    }
}

pub proof fn lemma_level(s: Seq<char>)
    ensures
        consumes(s, spec_level(s)),
{
    reveal(spec_level);
    lemma_char(s, '&');
    if let Ok((r1, _)) = spec_char(s, '&') {
        lemma_tag(r1, seq!['l', 'v']);
        if let Ok((r2, _)) = spec_tag(r1, seq!['l', 'v']) {
            lemma_field_with_num(r2);
            if let Ok((r3, _)) = spec_field_with_num(r2) {
                lemma_char(r3, '=');
                if let Ok((r4, _)) = spec_char(r3, '=') {
                    lemma_not_line_ending(r4);
                }
            }
        }
    }
}

pub proof fn lemma_other_field(s: Seq<char>)
    ensures
        consumes(s, spec_other_field(s)),
{
    reveal(spec_other_field);
    lemma_char(s, '&');
    if let Ok((r1, _)) = spec_char(s, '&') {
        lemma_take_till_equals(r1);
        if let Ok((r2, _)) = spec_take_till_equals(r1) {
            lemma_char(r2, '=');
            if let Ok((r3, _)) = spec_char(r2, '=') {
                lemma_not_line_ending(r3);
            }
        }
    }
}

pub proof fn lemma_known_field(s: Seq<char>)
    ensures
        consumes(s, spec_known_field(s)),
{
    reveal(spec_known_field);
    lemma_file_field_line(s, title_name());
    lemma_file_field_line(s, artist_name());
    lemma_number_field(s, first_name());
    lemma_number_field(s, wholebpm_name());
    lemma_designer(s);
    lemma_level(s);
}

pub proof fn lemma_field(s: Seq<char>)
    ensures
        consumes(s, spec_field(s)),
{
    reveal(spec_field);
    lemma_known_field(s);
    lemma_simai_map(s);
    lemma_other_field(s);
}

pub proof fn lemma_field_item(s: Seq<char>)
    ensures
        consumes(s, spec_field_item(s)),
{
    reveal(spec_field_item);
    lemma_field(s);
    if let Ok((r1, _)) = spec_field(s) {
        lemma_multispace0(r1);
    }
}

pub proof fn lemma_fields(s: Seq<char>)
    ensures
        leaves_suffix(s, spec_fields(s)),
    decreases s.len(),
{
    reveal(spec_fields);
    lemma_field_item(s);
    if let Ok((r, _)) = spec_field_item(s) {
        if r.len() < s.len() {
            lemma_fields(r);
        }
    }
}

} // verus!
