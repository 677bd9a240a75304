//! A parser for simai chart files (the text format used for maimai charts).
use std::collections::HashMap;
use vstd::prelude::*;

pub mod errors;
pub mod scan;
pub mod events;
pub mod grammar;
pub mod progress;
pub mod parser;
pub mod laws;

pub use errors::{DuplicateFieldError, ParseError};
use scan::text_eq;

verus! {

/// One of the eight buttons around the judgment ring, numbered 1 to 8.
#[derive(Debug, Clone, Copy, PartialEq, Eq, Structural)]
pub enum Button {
    A1,
    A2,
    A3,
    A4,
    A5,
    A6,
    A7,
    A8,
}

/// The number written in a chart for a button.
pub open spec fn button_number(b: Button) -> u8 {
    match b {
        Button::A1 => 1,
        Button::A2 => 2,
        Button::A3 => 3,
        Button::A4 => 4,
        Button::A5 => 5,
        Button::A6 => 6,
        Button::A7 => 7,
        Button::A8 => 8,
    }
}

/// The button numbered `value`, if there is one.
pub open spec fn button_of(value: u8) -> Option<Button> {
    if value == 1 {
        Some(Button::A1)
    } else if value == 2 {
        Some(Button::A2)
    } else if value == 3 {
        Some(Button::A3)
    } else if value == 4 {
        Some(Button::A4)
    } else if value == 5 {
        Some(Button::A5)
    } else if value == 6 {
        Some(Button::A6)
    } else if value == 7 {
        Some(Button::A7)
    } else if value == 8 {
        Some(Button::A8)
    } else {
        None
    }
}

impl Button {
    /// The button numbered `value` (1 to 8); `None` for any other number.
    pub fn new(value: u8) -> (b: Option<Button>)
        ensures
            b == button_of(value),
            b matches Some(x) ==> button_number(x) == value,
            b is Some <==> 1 <= value <= 8,
    {
        match value {
            1 => Some(Button::A1),
            2 => Some(Button::A2),
            3 => Some(Button::A3),
            4 => Some(Button::A4),
            5 => Some(Button::A5),
            6 => Some(Button::A6),
            7 => Some(Button::A7),
            8 => Some(Button::A8),
            _ => None,
        }
    }

    /// The number of this button, 1 to 8 (what the button is written as in a chart).
    pub fn number(&self) -> (n: u8)
        ensures
            n == button_number(*self),
            1 <= n <= 8,
            button_of(n) == Some(*self),
    {
        match self {
            Button::A1 => 1,
            Button::A2 => 2,
            Button::A3 => 3,
            Button::A4 => 4,
            Button::A5 => 5,
            Button::A6 => 6,
            Button::A7 => 7,
            Button::A8 => 8,
        }
    }
}


/// A tap note.
#[derive(Debug, Clone, Copy, PartialEq, Eq, Structural)]
pub struct Tap {
    pub button: Button,
    pub break_: bool,
}

/// A hold note. `length` is a number in seconds, kept as decimal text.
#[derive(Debug, Clone, Copy, PartialEq)]
pub struct Hold<'a> {
    pub button: Button,
    pub break_: bool,
    pub length: &'a str,
}

/// A slide: a star on one button that then travels along one or more tracks.
/// Durations are numbers in seconds, kept as decimal text.
#[derive(Debug, Clone, PartialEq)]
pub struct Slide<'a> {
    /// Slide tap and slide track start
    pub start: Button,
    /// If the slide tap is break
    pub break_note: bool,
    /// If the slide track is break
    pub break_slide: bool,
    /// Duration of time to wait before the slide star moves
    pub wait_duration: &'a str,
    /// All sequence of tracks of this slide
    pub tracks: Vec<SlideTrack<'a>>,
}

/// One track of a slide.
#[derive(Debug, Clone, Copy, PartialEq)]
pub struct SlideTrack<'a> {
    /// Track start
    pub start: Button,
    /// Track end
    pub end: Button,
    /// Duration of this track, in seconds, as decimal text
    pub duration: &'a str,
    /// Slide variant
    pub variant: SlidePattern,
}

/// Slide pattern
///
/// Currently this follows the specs noted in https://w.atwiki.jp/simai/pages/1003.html#id_a16709b9
#[allow(non_camel_case_types)]
#[derive(Debug, Clone, Copy, PartialEq, Eq, Structural)]
pub enum SlidePattern {
    /// A straight line
    Line,
    /// Circle around the screen, moving right
    ArcRight,
    /// Circle around the screen, moving left
    ArcLeft,
    /// Circle around the screen, moving the shorter path. It is never half a circle in length
    ArcShort,
    /// Goes from start to center to end in two straight lines
    Shape_v,
    /// Goes from start to end while curving around the center
    Shape_p,
    /// Goes from start to end while curving around the center
    Shape_q,
    /// Makes a thunderbolt shape in an s shape
    Thunder_s,
    /// Makes a thunderbolt shape in an z shape
    Thunder_z,
    /// Grand p shape. Connects the start to the end while curving along an imaginary circle which is tangent to both the screen center and the circled judgment line
    Grand_p,
    /// Grand q shape. Connects the start to the end while curving along an imaginary circle which is tangent to both the screen center and the circled judgment line
    Grand_q,
    /// Grand v shape. Connects the start to the end through a middle turning point in two straight lines. The line connecting the start to the middle turning point is always a short straight line
    Grand_v { middle: Button },
    /// Fan shape, also called the Wi-Fi slider. Consists of three separate tracks
    Fan,
}

/// A simai file: its header fields and its charts.
///
/// Numbers (`first`, `wholebpm`) are kept as the decimal text the file holds;
/// `first` is `0` when the file does not give it. Each chart (`&inote_N=`)
/// adds an empty `SimaiMap` to `maps` under its number.
#[derive(Debug, Clone)]
pub struct SimaiFile<'a> {
    pub title: Option<&'a str>,
    pub artist: Option<&'a str>,
    pub designers: HashMap<u64, &'a str>,
    pub first: &'a str,
    pub level_names: HashMap<u64, &'a str>,
    pub wholebpm: Option<&'a str>,
    pub other_fields: FieldTable<'a>,
    pub maps: HashMap<u64, SimaiMap>,
}

/// A text that may be absent, seen as characters.
pub open spec fn opt_text<'a>(o: Option<&'a str>) -> Option<Seq<char>> {
    match o {
        Some(t) => Some(t@),
        None => None,
    }
}

/// A file, seen with its texts as characters.
pub struct SimaiFileView {
    pub title: Option<Seq<char>>,
    pub artist: Option<Seq<char>>,
    pub designers: Map<u64, Seq<char>>,
    pub first: Seq<char>,
    pub level_names: Map<u64, Seq<char>>,
    pub wholebpm: Option<Seq<char>>,
    pub other_fields: Map<Seq<char>, Seq<char>>,
    pub maps: Map<u64, SimaiMap>,
}

impl<'a> View for SimaiFile<'a> {
    type V = SimaiFileView;

    open spec fn view(&self) -> SimaiFileView {
        SimaiFileView {
            title: opt_text(self.title),
            artist: opt_text(self.artist),
            designers: self.designers@.map_values(|v: &'a str| v@),
            first: self.first@,
            level_names: self.level_names@.map_values(|v: &'a str| v@),
            wholebpm: opt_text(self.wholebpm),
            other_fields: self.other_fields@,
            maps: self.maps@,
        }
    }
}

/// What reading a whole file gives.
#[derive(Debug)]
pub enum SimaiOutcome<'a> {
    /// The file was read; the input left over (always empty) and the file.
    Parsed(&'a str, SimaiFile<'a>),
    /// The file does not follow the format.
    Failed(ParseError),
    /// A field that may appear once appeared twice (`&title=`).
    Duplicate(DuplicateFieldError),
}

impl<'a> View for SimaiOutcome<'a> {
    type V = grammar::SimaiOutcomeView;

    open spec fn view(&self) -> grammar::SimaiOutcomeView {
        match self {
            SimaiOutcome::Parsed(rest, f) => grammar::SimaiOutcomeView::Parsed(rest@, f@),
            SimaiOutcome::Failed(e) => grammar::SimaiOutcomeView::Failed(*e),
            SimaiOutcome::Duplicate(d) => grammar::SimaiOutcomeView::Duplicate(d.0@),
        }
    }
}

/// One chart (`&inote_N=`) of a file.
#[derive(Debug, Clone, Copy, PartialEq, Eq, Structural)]
pub struct SimaiMap {}

impl View for Button {
    type V = Button;

    open spec fn view(&self) -> Button {
        *self
    }
}

impl View for SlidePattern {
    type V = SlidePattern;

    open spec fn view(&self) -> SlidePattern {
        *self
    }
}

impl View for Tap {
    type V = Tap;

    open spec fn view(&self) -> Tap {
        *self
    }
}

/// Named fields of a file that have no meaning of their own, as `(name, value)`
/// in the order they were read. A name that is read again takes the later value.
#[derive(Debug, Clone)]
pub struct FieldTable<'a> {
    entries: Vec<(&'a str, &'a str)>,
}

/// The map that `(name, value)` entries describe, later entries overriding earlier ones.
pub open spec fn entries_map<'a>(es: Seq<(&'a str, &'a str)>) -> Map<Seq<char>, Seq<char>>
    decreases es.len(),
{
    if es.len() == 0 {
        Map::empty()
    } else {
        entries_map(es.drop_last()).insert(es.last().0@, es.last().1@)
    }
}

/// Entries after position `i` that do not name `k` do not change what the map says of `k`.
pub proof fn lemma_entries_map_tail<'a>(es: Seq<(&'a str, &'a str)>, i: int, k: Seq<char>)
    requires
        0 <= i <= es.len(),
        forall|j: int| i <= j < es.len() ==> #[trigger] es[j].0@ != k,
    ensures
        entries_map(es).contains_key(k) == entries_map(es.take(i)).contains_key(k),
        entries_map(es).contains_key(k) ==> entries_map(es)[k] == entries_map(es.take(i))[k],
    decreases es.len(),
{
    if es.len() > i {
        let es2 = es.drop_last();
        assert(es2.take(i) =~= es.take(i));
        assert(es[es.len() - 1].0@ != k);
        lemma_entries_map_tail(es2, i, k);
    } else {
        assert(es.take(i) =~= es);
    }
}

impl<'a> View for FieldTable<'a> {
    type V = Map<Seq<char>, Seq<char>>;

    closed spec fn view(&self) -> Map<Seq<char>, Seq<char>> {
        entries_map(self.entries@)
    }
}

impl<'a> FieldTable<'a> {
    /// An empty table.
    pub fn new() -> (t: Self)
        ensures
            t@ == Map::<Seq<char>, Seq<char>>::empty(),
    {
        FieldTable { entries: Vec::new() }
    }

    /// Sets the field `name` to `value`.
    pub fn insert(&mut self, name: &'a str, value: &'a str)
        ensures
            final(self)@ == old(self)@.insert(name@, value@),
    {
        self.entries.push((name, value));
        proof {
            assert(self.entries@.drop_last() =~= old(self).entries@);
        }
    }

    /// The value of the field `name`, if it was set.
    pub fn get(&self, name: &str) -> (r: Option<&'a str>)
        ensures
            r is Some <==> self@.contains_key(name@),
            r matches Some(v) ==> v@ == self@[name@],
    {
        let mut i = self.entries.len();
        while i > 0
            invariant
                i <= self.entries@.len(),
                forall|j: int| i <= j < self.entries@.len() ==> #[trigger] self.entries@[j].0@ != name@,
            decreases i,
        {
            let (k, v) = self.entries[i - 1];
            if text_eq(k, name) {
                proof {
                    lemma_entries_map_tail(self.entries@, i as int, name@);
                    assert(self.entries@.take(i as int).drop_last() =~= self.entries@.take(i - 1));
                }
                return Some(v);
            }
            i = i - 1;
        }
        proof {
            lemma_entries_map_tail(self.entries@, 0, name@);
        }
        None
    }

    /// The entries, in the order they were read.
    pub fn entries(&self) -> (r: &Vec<(&'a str, &'a str)>)
        ensures
            entries_map(r@) == self@,
    {
        &self.entries
    }
}

/// A hold, seen with its length as characters.
pub struct HoldView {
    pub button: Button,
    pub break_: bool,
    pub length: Seq<char>,
}

impl<'a> View for Hold<'a> {
    type V = HoldView;

    open spec fn view(&self) -> HoldView {
        HoldView { button: self.button, break_: self.break_, length: self.length@ }
    }
}

/// A slide track, seen with its duration as characters.
pub struct SlideTrackView {
    pub start: Button,
    pub end: Button,
    pub duration: Seq<char>,
    pub variant: SlidePattern,
}

impl<'a> View for SlideTrack<'a> {
    type V = SlideTrackView;

    open spec fn view(&self) -> SlideTrackView {
        SlideTrackView {
            start: self.start,
            end: self.end,
            duration: self.duration@,
            variant: self.variant,
        }
    }
}

/// A slide, seen with its numbers as characters.
pub struct SlideView {
    pub start: Button,
    pub break_note: bool,
    pub break_slide: bool,
    pub wait_duration: Seq<char>,
    pub tracks: Seq<SlideTrackView>,
}

impl<'a> View for Slide<'a> {
    type V = SlideView;

    open spec fn view(&self) -> SlideView {
        SlideView {
            start: self.start,
            break_note: self.break_note,
            break_slide: self.break_slide,
            wait_duration: self.wait_duration@,
            tracks: self.tracks@.map_values(|t: SlideTrack<'a>| t@),
        }
    }
}

} // verus!
