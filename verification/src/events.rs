//! What the chart parser reads before a chart is assembled: durations,
//! slides and the other events of a chart body, and the header fields of a file.
use vstd::prelude::*;

use crate::{SimaiMap, Button, Hold, HoldView, Slide, SlideTrack, SlideTrackView, SlideView, Tap};

verus! {

/// A note length as a fraction of a whole note: `(divisions, count)`.
pub type NoteDiv = (u64, u64);

/// How long an event lasts.
#[derive(Debug, Clone, Copy, PartialEq)]
pub enum EventDuration<'a> {
    /// `d:n`: `n` notes of `1/d` of a whole note, at the current BPM.
    LengthNoteDiv(NoteDiv),
    /// `#s`: a number of seconds.
    Seconds(&'a str),
    /// `b#d:n`: like `d:n`, at the BPM `b`.
    BpmWithNoteDiv((&'a str, NoteDiv)),
}

pub enum EventDurationView {
    LengthNoteDiv(NoteDiv),
    Seconds(Seq<char>),
    BpmWithNoteDiv((Seq<char>, NoteDiv)),
}

impl<'a> View for EventDuration<'a> {
    type V = EventDurationView;

    open spec fn view(&self) -> EventDurationView {
        match *self {
            EventDuration::LengthNoteDiv(d) => EventDurationView::LengthNoteDiv(d),
            EventDuration::Seconds(s) => EventDurationView::Seconds(s@),
            EventDuration::BpmWithNoteDiv((b, d)) => EventDurationView::BpmWithNoteDiv((b@, d)),
        }
    }
}

/// How long the star of a slide waits before it moves.
#[derive(Debug, Clone, Copy, PartialEq)]
pub enum SlideWaitDuration<'a> {
    /// A number of seconds.
    Seconds(&'a str),
    /// One beat at the given BPM.
    OneBeatAtBpm(&'a str),
    /// One beat at the current BPM.
    OneBeatAtCurrentBpm,
}

pub enum SlideWaitView {
    Seconds(Seq<char>),
    OneBeatAtBpm(Seq<char>),
    OneBeatAtCurrentBpm,
}

impl<'a> View for SlideWaitDuration<'a> {
    type V = SlideWaitView;

    open spec fn view(&self) -> SlideWaitView {
        match *self {
            SlideWaitDuration::Seconds(s) => SlideWaitView::Seconds(s@),
            SlideWaitDuration::OneBeatAtBpm(s) => SlideWaitView::OneBeatAtBpm(s@),
            SlideWaitDuration::OneBeatAtCurrentBpm => SlideWaitView::OneBeatAtCurrentBpm,
        }
    }
}

/// A slide track as read, with the length written for it.
#[derive(Debug, Clone, PartialEq)]
pub struct SlideTrackData<'a> {
    pub track: SlideTrack<'a>,
    pub length: EventDuration<'a>,
}

pub struct SlideTrackDataView {
    pub track: SlideTrackView,
    pub length: EventDurationView,
}

impl<'a> View for SlideTrackData<'a> {
    type V = SlideTrackDataView;

    open spec fn view(&self) -> SlideTrackDataView {
        SlideTrackDataView { track: self.track@, length: self.length@ }
    }
}

/// A slide as read, before its start, timing and tracks are filled in.
#[derive(Debug, Clone, PartialEq)]
pub struct SlideData<'a> {
    pub slide: Slide<'a>,
    pub wait: SlideWaitDuration<'a>,
    pub tracks: Vec<SlideTrackData<'a>>,
}

pub struct SlideDataView {
    pub slide: SlideView,
    pub wait: SlideWaitView,
    pub tracks: Seq<SlideTrackDataView>,
}

impl<'a> View for SlideData<'a> {
    type V = SlideDataView;

    open spec fn view(&self) -> SlideDataView {
        SlideDataView {
            slide: self.slide@,
            wait: self.wait@,
            tracks: self.tracks@.map_values(|t: SlideTrackData<'a>| t@),
        }
    }
}

/// A slide event: the start button, its first slide and the slides that
/// share its star (`*`).
#[derive(Debug, Clone, PartialEq)]
pub struct SlideEvent<'a> {
    pub start: Button,
    pub slide: SlideData<'a>,
    pub break_note: bool,
    pub multi: Vec<SlideData<'a>>,
}

pub struct SlideEventView {
    pub start: Button,
    pub slide: SlideDataView,
    pub break_note: bool,
    pub multi: Seq<SlideDataView>,
}

impl<'a> View for SlideEvent<'a> {
    type V = SlideEventView;

    open spec fn view(&self) -> SlideEventView {
        SlideEventView {
            start: self.start,
            slide: self.slide@,
            break_note: self.break_note,
            multi: self.multi@.map_values(|d: SlideData<'a>| d@),
        }
    }
}

/// One event of a chart body.
#[derive(Debug, Clone, PartialEq)]
pub enum Events<'a> {
    Tap(Tap),
    TapEach(Tap, Vec<Tap>),
    Hold(Hold<'a>, EventDuration<'a>),
    Slide(SlideEvent<'a>),
    Sep,
    Bpm(&'a str),
    ExplicitDuration(&'a str),
    LengthDivider(u64),
}

pub enum EventView {
    Tap(Tap),
    TapEach(Tap, Seq<Tap>),
    Hold(HoldView, EventDurationView),
    Slide(SlideEventView),
    Sep,
    Bpm(Seq<char>),
    ExplicitDuration(Seq<char>),
    LengthDivider(u64),
}

impl<'a> View for Events<'a> {
    type V = EventView;

    open spec fn view(&self) -> EventView {
        match self {
            Events::Tap(t) => EventView::Tap(*t),
            Events::TapEach(t, ts) => EventView::TapEach(*t, ts@),
            Events::Hold(h, d) => EventView::Hold(h@, d@),
            Events::Slide(e) => EventView::Slide(e@),
            Events::Sep => EventView::Sep,
            Events::Bpm(b) => EventView::Bpm(b@),
            Events::ExplicitDuration(s) => EventView::ExplicitDuration(s@),
            Events::LengthDivider(n) => EventView::LengthDivider(*n),
        }
    }
}


/// An event and the events written after it with `/` (played at the same time).
#[derive(Debug, Clone, PartialEq)]
pub struct EventGroup<'a> {
    pub first: Events<'a>,
    pub rest: Vec<Events<'a>>,
}

pub struct EventGroupView {
    pub first: EventView,
    pub rest: Seq<EventView>,
}

impl<'a> View for EventGroup<'a> {
    type V = EventGroupView;

    open spec fn view(&self) -> EventGroupView {
        EventGroupView { first: self.first@, rest: self.rest@.map_values(|e: Events<'a>| e@) }
    }
}

/// What a chart (`&inote_N=`) holds as read: its number, the tempo and
/// divider it starts with, and its events up to the closing `E`.
#[derive(Debug)]
pub struct ChartRead<'a> {
    pub number: u64,
    pub start: (Events<'a>, Events<'a>),
    pub events: Vec<EventGroup<'a>>,
}

pub struct ChartView {
    pub number: u64,
    pub start: (EventView, EventView),
    pub events: Seq<EventGroupView>,
}

impl<'a> View for ChartRead<'a> {
    type V = ChartView;

    open spec fn view(&self) -> ChartView {
        ChartView {
            number: self.number,
            start: (self.start.0@, self.start.1@),
            events: self.events@.map_values(|g: EventGroup<'a>| g@),
        }
    }
}


/// One header field of a file.
#[derive(Debug, Clone, Copy, PartialEq)]
pub enum Field<'a> {
    Title(&'a str),
    Artist(&'a str),
    First(&'a str),
    WholeBpm(&'a str),
    Designer(u64, &'a str),
    Level(u64, &'a str),
    OtherFields(&'a str, &'a str),
    /// A chart, `&inote_N=` up to `E`, and the map built from it.
    INote(u64, SimaiMap),
}

pub enum FieldView {
    Title(Seq<char>),
    Artist(Seq<char>),
    First(Seq<char>),
    WholeBpm(Seq<char>),
    Designer(u64, Seq<char>),
    Level(u64, Seq<char>),
    OtherFields(Seq<char>, Seq<char>),
    INote(u64, SimaiMap),
}

impl<'a> View for Field<'a> {
    type V = FieldView;

    open spec fn view(&self) -> FieldView {
        match *self {
            Field::Title(t) => FieldView::Title(t@),
            Field::Artist(t) => FieldView::Artist(t@),
            Field::First(t) => FieldView::First(t@),
            Field::WholeBpm(t) => FieldView::WholeBpm(t@),
            Field::Designer(n, t) => FieldView::Designer(n, t@),
            Field::Level(n, t) => FieldView::Level(n, t@),
            Field::OtherFields(k, v) => FieldView::OtherFields(k@, v@),
            Field::INote(n, m) => FieldView::INote(n, m),
        }
    }
}

} // verus!
