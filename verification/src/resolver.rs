//! The resolver: a playlist source is classified and driven to its end, one
//! step at a time. Each step takes what the caller's last action brought and
//! answers with the next action; the resolver itself loads, asks and writes
//! nothing.

use vstd::prelude::*;
use crate::error::{ResolveError, ResolveErrorView, SegmentError};
use crate::playlist::{
    has_playlist_header, parse_playlist, parse_view, parsed_playlist, selection_labels, selection_list,
    selection_uris, Playlist, PlaylistView,
};
use crate::remux::{remux_segment, segment_output, segment_result};

verus! {

/// Where a playlist's bytes come from.
#[derive(Debug, Clone, PartialEq, Eq)]
pub enum Source {
    /// A path in local storage.
    FromFilesystem(String),
    /// The bytes themselves.
    FromMemory(Vec<u8>),
    /// A URI to fetch as text.
    FromNetwork(String),
}

/// The mathematical value of a `Source`.
pub enum SourceView {
    FromFilesystem(Seq<char>),
    FromMemory(Seq<u8>),
    FromNetwork(Seq<char>),
}

impl DeepView for Source {
    type V = SourceView;

    open spec fn deep_view(&self) -> SourceView {
        match self {
            Source::FromFilesystem(path) => SourceView::FromFilesystem(path@),
            Source::FromMemory(bytes) => SourceView::FromMemory(bytes@),
            Source::FromNetwork(uri) => SourceView::FromNetwork(uri@),
        }
    }
}

/// The states of a resolution.
#[derive(Debug, Clone, Copy, PartialEq, Eq, Structural)]
pub enum State {
    /// The playlist is not classified yet.
    Unresolved,
    /// A master playlist: a variant is being chosen.
    ResolvingMaster,
    /// A media playlist: its segments are being remuxed.
    ResolvingMedia,
    /// Every segment is in the output.
    Done,
    /// The resolution has stopped on an error.
    Failed,
}

/// What the resolver waits for.
#[derive(Debug, Clone, Copy, PartialEq, Eq, Structural)]
pub enum Phase {
    /// Nothing was asked for yet.
    Unresolved,
    /// The playlist's bytes.
    Loading,
    /// The choice of a variant.
    ResolvingMaster,
    /// The opening of the destination.
    Opening,
    /// The bytes of the next segment.
    Fetching,
    /// The writing of the last segment's packets.
    Writing,
    /// Nothing: the resolution is complete.
    Done,
    /// Nothing: the resolution has failed.
    Failed,
}

/// What the caller's last action brought.
#[derive(Debug, Clone, PartialEq, Eq)]
pub enum Event {
    /// The action was carried out and brought nothing to hand over; also the
    /// event that starts a resolution.
    Continue,
    /// The bytes that the action asked for.
    Bytes(Vec<u8>),
    /// The position chosen on the selection list.
    Selected(usize),
    /// The action could not be carried out.
    Failure,
}

/// The mathematical value of an `Event`.
pub enum EventView {
    Continue,
    Bytes(Seq<u8>),
    Selected(usize),
    Failure,
}

impl DeepView for Event {
    type V = EventView;

    open spec fn deep_view(&self) -> EventView {
        match self {
            Event::Continue => EventView::Continue,
            Event::Bytes(bytes) => EventView::Bytes(bytes@),
            Event::Selected(index) => EventView::Selected(*index),
            Event::Failure => EventView::Failure,
        }
    }
}

/// What the caller is to do next.
#[derive(Debug, Clone, PartialEq, Eq)]
pub enum Action {
    /// Load the playlist at this path and hand over its bytes.
    ReadFile(String),
    /// Fetch the playlist at this URI as text and hand over its bytes.
    FetchText(String),
    /// Present these labels, the first as the default, and hand over the
    /// position chosen.
    Select(Vec<String>),
    /// Create or truncate the destination at `path`; `segments` segments
    /// will follow.
    Create { path: String, segments: usize },
    /// Fetch the segment at this URI and hand over its bytes.
    FetchBinary(String),
    /// Append these bytes to the destination; one more segment is complete.
    Write(Vec<u8>),
    /// Flush the destination: all segments, this many, are in it.
    Finish(usize),
    /// Tell the user of the error; other inputs may still be resolved.
    Report(ResolveError),
    /// Stop on the error.
    Abort(ResolveError),
}

/// The mathematical value of an `Action`.
pub enum ActionView {
    ReadFile(Seq<char>),
    FetchText(Seq<char>),
    Select(Seq<Seq<char>>),
    Create { path: Seq<char>, segments: usize },
    FetchBinary(Seq<char>),
    Write(Seq<u8>),
    Finish(usize),
    Report(ResolveErrorView),
    Abort(ResolveErrorView),
}

impl DeepView for Action {
    type V = ActionView;

    open spec fn deep_view(&self) -> ActionView {
        match self {
            Action::ReadFile(path) => ActionView::ReadFile(path@),
            Action::FetchText(uri) => ActionView::FetchText(uri@),
            Action::Select(labels) => ActionView::Select(labels.deep_view()),
            Action::Create { path, segments } => ActionView::Create {
                path: path@,
                segments: *segments,
            },
            Action::FetchBinary(uri) => ActionView::FetchBinary(uri@),
            Action::Write(bytes) => ActionView::Write(bytes@),
            Action::Finish(segments) => ActionView::Finish(*segments),
            Action::Report(error) => ActionView::Report(error.deep_view()),
            Action::Abort(error) => ActionView::Abort(error.deep_view()),
        }
    }
}

/// A playlist source with its output destination, and how far its
/// resolution has come.
#[derive(Debug)]
pub struct M3U8 {
    input: Source,
    output_file_name: String,
    phase: Phase,
    /// The URIs of the selection list while a variant is chosen, those of
    /// the segments while they are remuxed.
    uris: Vec<String>,
    /// Number of segments that are in the output.
    next: usize,
    error: Option<ResolveError>,
}

/// The mathematical value of an `M3U8`.
pub struct M3U8View {
    pub input: SourceView,
    pub output_file_name: Seq<char>,
    pub phase: Phase,
    pub uris: Seq<Seq<char>>,
    pub next: usize,
    pub error: Option<ResolveErrorView>,
}

impl DeepView for M3U8 {
    type V = M3U8View;

    closed spec fn deep_view(&self) -> M3U8View {
        M3U8View {
            input: self.input.deep_view(),
            output_file_name: self.output_file_name@,
            phase: self.phase,
            uris: self.uris.deep_view(),
            next: self.next,
            error: self.error.deep_view(),
        }
    }
}

/// A resolution that has not started: nothing listed, nothing written.
pub open spec fn fresh(input: SourceView, output_file_name: Seq<char>) -> M3U8View {
    M3U8View {
        input,
        output_file_name,
        phase: Phase::Unresolved,
        uris: Seq::empty(),
        next: 0,
        error: None,
    }
}

/// The state that a phase belongs to.
pub open spec fn state_of(phase: Phase) -> State {
    match phase {
        Phase::Unresolved | Phase::Loading => State::Unresolved,
        Phase::ResolvingMaster => State::ResolvingMaster,
        Phase::Opening | Phase::Fetching | Phase::Writing => State::ResolvingMedia,
        Phase::Done => State::Done,
        Phase::Failed => State::Failed,
    }
}

/// The action that an error calls for: a playlist that does not parse is
/// reported, every other error stops the run.
pub open spec fn failure_action(error: ResolveErrorView) -> ActionView {
    match error {
        ResolveErrorView::Parse(_) => ActionView::Report(error),
        _ => ActionView::Abort(error),
    }
}

/// The resolution stopped on `error`.
pub open spec fn failed(m: M3U8View, error: ResolveErrorView) -> (M3U8View, ActionView) {
    (M3U8View { phase: Phase::Failed, error: Some(error), ..m }, failure_action(error))
}

/// The step after the parser has spoken: a master playlist puts its
/// selection list up for choice, a media playlist has its destination
/// opened, and bytes that are no playlist end the resolution.
pub open spec fn resolved(m: M3U8View, parsed: Result<PlaylistView, Seq<char>>) -> (
    M3U8View,
    ActionView,
) {
    match parsed {
        Err(message) => failed(m, ResolveErrorView::Parse(message)),
        Ok(PlaylistView::Master(variants)) => (
            M3U8View {
                phase: Phase::ResolvingMaster,
                uris: selection_uris(variants),
                next: 0,
                ..m
            },
            ActionView::Select(selection_labels(variants)),
        ),
        Ok(PlaylistView::Media(segments)) => (
            M3U8View { phase: Phase::Opening, uris: segments, next: 0, ..m },
            ActionView::Create { path: m.output_file_name, segments: segments.len() as usize },
        ),
    }
}

/// The step to the next segment: it is fetched, or, after the last one, the
/// resolution is complete.
pub open spec fn advanced(m: M3U8View) -> (M3U8View, ActionView) {
    if m.next < m.uris.len() {
        (M3U8View { phase: Phase::Fetching, ..m }, ActionView::FetchBinary(m.uris[m.next as int]))
    } else {
        (M3U8View { phase: Phase::Done, ..m }, ActionView::Finish(m.next))
    }
}

/// One step of the resolution: the state after `event` and the action to
/// take next.
pub open spec fn step(m: M3U8View, event: EventView) -> (M3U8View, ActionView) {
    match m.phase {
        Phase::Unresolved => match m.input {
            SourceView::FromFilesystem(path) => (
                M3U8View { phase: Phase::Loading, ..m },
                ActionView::ReadFile(path),
            ),
            SourceView::FromNetwork(uri) => (
                M3U8View { phase: Phase::Loading, ..m },
                ActionView::FetchText(uri),
            ),
            SourceView::FromMemory(bytes) => resolved(m, parsed_playlist(bytes)),
        },
        Phase::Loading => match event {
            EventView::Bytes(bytes) => resolved(
                M3U8View { input: SourceView::FromMemory(bytes), ..m },
                parsed_playlist(bytes),
            ),
            _ => failed(m, ResolveErrorView::Transport),
        },
        Phase::ResolvingMaster => match event {
            EventView::Selected(index) => if index < m.uris.len() {
                (
                    M3U8View {
                        input: SourceView::FromNetwork(m.uris[index as int]),
                        phase: Phase::Loading,
                        uris: Seq::empty(),
                        ..m
                    },
                    ActionView::FetchText(m.uris[index as int]),
                )
            } else {
                failed(m, ResolveErrorView::Selection)
            },
            _ => failed(m, ResolveErrorView::Selection),
        },
        Phase::Opening => match event {
            EventView::Continue => advanced(m),
            _ => failed(m, ResolveErrorView::Output),
        },
        Phase::Fetching => match event {
            EventView::Bytes(bytes) => match segment_result(bytes) {
                Ok(_) => (
                    M3U8View { phase: Phase::Writing, ..m },
                    ActionView::Write(segment_output(bytes)),
                ),
                Err(error) => failed(
                    m,
                    ResolveErrorView::Codec(SegmentError { segment: m.next, error }),
                ),
            },
            _ => failed(m, ResolveErrorView::Transport),
        },
        Phase::Writing => match event {
            EventView::Continue => advanced(M3U8View { next: (m.next + 1) as usize, ..m }),
            _ => failed(m, ResolveErrorView::Output),
        },
        Phase::Done => (m, ActionView::Finish(m.next)),
        Phase::Failed => match m.error {
            Some(error) => (m, failure_action(error)),
            None => (m, ActionView::Abort(ResolveErrorView::Selection)),
        },
    }
}

/// The bytes that a step hands to the parser, if it parses at all.
pub open spec fn bytes_to_parse(m: M3U8View, event: EventView) -> Option<Seq<u8>> {
    match (m.phase, m.input, event) {
        (Phase::Unresolved, SourceView::FromMemory(bytes), _) => Some(bytes),
        (Phase::Loading, _, EventView::Bytes(bytes)) => Some(bytes),
        _ => None,
    }
}

/// What holds of every resolver: its list fits the machine, the count of
/// finished segments stays within the list, a segment that is awaited or
/// written is on the list, and an error is kept exactly when the resolution
/// has failed.
pub open spec fn well_formed(m: M3U8View) -> bool {
    &&& m.uris.len() <= usize::MAX
    &&& m.phase == Phase::Opening ==> m.next == 0
    &&& (m.phase == Phase::Fetching || m.phase == Phase::Writing) ==> m.next < m.uris.len()
    &&& m.phase == Phase::Done ==> m.next == m.uris.len()
    &&& (m.phase == Phase::Failed) == (m.error is Some)
}

impl M3U8 {
    /// The resolver's invariant.
    pub open spec fn wf(&self) -> bool {
        well_formed(self.deep_view())
    }

    /// A playlist in local storage, to be resolved into `ofn`.
    pub fn from_fs(path: String, ofn: String) -> (r: Self)
        ensures
            r.deep_view() == fresh(SourceView::FromFilesystem(path@), ofn@),
            r.wf(),
    {
        let r = M3U8 {
            input: Source::FromFilesystem(path),
            output_file_name: ofn,
            phase: Phase::Unresolved,
            uris: Vec::new(),
            next: 0,
            error: None,
        };
        assert(r.uris.deep_view() =~= Seq::empty());
        r
    }

    /// A playlist on the network, to be resolved into `output_file_name`.
    pub fn from_url(url: String, output_file_name: String) -> (r: Self)
        ensures
            r.deep_view() == fresh(SourceView::FromNetwork(url@), output_file_name@),
            r.wf(),
    {
        let r = M3U8 {
            input: Source::FromNetwork(url),
            output_file_name,
            phase: Phase::Unresolved,
            uris: Vec::new(),
            next: 0,
            error: None,
        };
        assert(r.uris.deep_view() =~= Seq::empty());
        r
    }

    /// A playlist given as bytes, to be resolved into `ofn`.
    pub fn from_memory(input_buffer: Vec<u8>, ofn: String) -> (r: Self)
        ensures
            r.deep_view() == fresh(SourceView::FromMemory(input_buffer@), ofn@),
            r.wf(),
    {
        let r = M3U8 {
            input: Source::FromMemory(input_buffer),
            output_file_name: ofn,
            phase: Phase::Unresolved,
            uris: Vec::new(),
            next: 0,
            error: None,
        };
        assert(r.uris.deep_view() =~= Seq::empty());
        r
    }

    /// The state of the resolution.
    pub fn state(&self) -> (r: State)
        ensures
            r == state_of(self.deep_view().phase),
    {
        match self.phase {
            Phase::Unresolved | Phase::Loading => State::Unresolved,
            Phase::ResolvingMaster => State::ResolvingMaster,
            Phase::Opening | Phase::Fetching | Phase::Writing => State::ResolvingMedia,
            Phase::Done => State::Done,
            Phase::Failed => State::Failed,
        }
    }

    /// The destination of the remuxed stream.
    pub fn output_file_name(&self) -> (r: &String)
        ensures
            r@ == self.deep_view().output_file_name,
    {
        &self.output_file_name
    }

    /// Where the playlist's bytes come from.
    pub fn input(&self) -> (r: &Source)
        ensures
            r.deep_view() == self.deep_view().input,
    {
        &self.input
    }

    /// Stops the resolution on `error`.
    fn fail(&mut self, error: ResolveError) -> (action: Action)
        ensures
            (final(self).deep_view(), action.deep_view()) == failed(
                old(self).deep_view(),
                error.deep_view(),
            ),
    {
        let action = if error.is_recoverable() {
            Action::Report(error.duplicate())
        } else {
            Action::Abort(error.duplicate())
        };
        self.phase = Phase::Failed;
        self.error = Some(error);
        action
    }

    /// Moves on to the next segment, or completes the resolution.
    fn advance(&mut self) -> (action: Action)
        ensures
            (final(self).deep_view(), action.deep_view()) == advanced(old(self).deep_view()),
    {
        if self.next < self.uris.len() {
            self.phase = Phase::Fetching;
            Action::FetchBinary(self.uris[self.next].clone())
        } else {
            self.phase = Phase::Done;
            Action::Finish(self.next)
        }
    }

    /// Takes the parser's result and dispatches on it: the selection list of
    /// a master playlist goes up for choice, a media playlist has its
    /// destination opened, and a parse error ends the resolution.
    pub fn resolve(&mut self, parsed: Result<Playlist, String>) -> (action: Action)
        ensures
            (final(self).deep_view(), action.deep_view()) == resolved(
                old(self).deep_view(),
                parse_view(parsed),
            ),
            final(self).deep_view().uris.len() <= usize::MAX,
    {
        assert(self.uris.deep_view().len() == self.uris.len());
        match parsed {
            Err(message) => self.fail(ResolveError::Parse(message)),
            Ok(Playlist::Master(variants)) => {
                let (labels, uris) = selection_list(&variants);
                assert(uris.deep_view().len() == uris.len());
                self.phase = Phase::ResolvingMaster;
                self.uris = uris;
                self.next = 0;
                Action::Select(labels)
            },
            Ok(Playlist::Media(segments)) => {
                let uris = segment_uris(&segments);
                let count = uris.len();
                assert(uris.deep_view().len() == count);
                self.phase = Phase::Opening;
                self.uris = uris;
                self.next = 0;
                Action::Create { path: self.output_file_name.clone(), segments: count }
            },
        }
    }

    /// Takes one step of the resolution. `event` is what the action of the
    /// step before brought; the first step is started with `Continue`. The
    /// result is the action to take next. A finished resolution answers
    /// every event with its last action.
    pub fn process(&mut self, event: Event) -> (action: Action)
        requires
            old(self).wf(),
        ensures
            final(self).wf(),
            (final(self).deep_view(), action.deep_view()) == step(
                old(self).deep_view(),
                event.deep_view(),
            ),
            bytes_to_parse(old(self).deep_view(), event.deep_view()) matches Some(bytes)
                && !has_playlist_header(bytes) ==> action.deep_view() is Report,
    {
        match self.phase {
            Phase::Unresolved => {
                let parsed = match &self.input {
                    Source::FromFilesystem(path) => {
                        let action = Action::ReadFile(path.clone());
                        self.phase = Phase::Loading;
                        return action;
                    },
                    Source::FromNetwork(uri) => {
                        let action = Action::FetchText(uri.clone());
                        self.phase = Phase::Loading;
                        return action;
                    },
                    Source::FromMemory(bytes) => parse_playlist(bytes.as_slice()),
                };
                self.resolve(parsed)
            },
            Phase::Loading => match event {
                Event::Bytes(bytes) => {
                    let parsed = parse_playlist(bytes.as_slice());
                    self.input = Source::FromMemory(bytes);
                    self.resolve(parsed)
                },
                _ => self.fail(ResolveError::Transport),
            },
            Phase::ResolvingMaster => match event {
                Event::Selected(index) => {
                    if index < self.uris.len() {
                        let uri = self.uris[index].clone();
                        self.input = Source::FromNetwork(uri.clone());
                        self.phase = Phase::Loading;
                        self.uris = Vec::new();
                        assert(self.uris.deep_view() =~= Seq::empty());
                        Action::FetchText(uri)
                    } else {
                        self.fail(ResolveError::Selection)
                    }
                },
                _ => self.fail(ResolveError::Selection),
            },
            Phase::Opening => match event {
                Event::Continue => self.advance(),
                _ => self.fail(ResolveError::Output),
            },
            Phase::Fetching => match event {
                Event::Bytes(bytes) => {
                    let mut packets: Vec<u8> = Vec::new();
                    match remux_segment(bytes.as_slice(), &mut packets) {
                        Ok(_) => {
                            self.phase = Phase::Writing;
                            Action::Write(packets)
                        },
                        Err(error) => self.fail(
                            ResolveError::Codec(SegmentError { segment: self.next, error }),
                        ),
                    }
                },
                _ => self.fail(ResolveError::Transport),
            },
            Phase::Writing => match event {
                Event::Continue => {
                    assert(self.next < self.uris.len());
                    self.next = self.next + 1;
                    self.advance()
                },
                _ => self.fail(ResolveError::Output),
            },
            Phase::Done => Action::Finish(self.next),
            Phase::Failed => match &self.error {
                Some(error) => {
                    if error.is_recoverable() {
                        Action::Report(error.duplicate())
                    } else {
                        Action::Abort(error.duplicate())
                    }
                },
                None => Action::Abort(ResolveError::Selection),
            },
        }
    }
}

/// Bytes that the parser refuses end the resolution with a report, never
/// with an abort: the step that parses them leaves the resolver failed on a
/// parse error and asks only that the error be told.
pub proof fn parse_failure_is_reported(m: M3U8View, event: EventView)
    requires
        bytes_to_parse(m, event) matches Some(bytes) && parsed_playlist(bytes) is Err,
    ensures
        step(m, event).0.phase == Phase::Failed,
        step(m, event).0.error matches Some(ResolveErrorView::Parse(_)),
        step(m, event).1 is Report,
{
}

/// A resolution that is done or has failed stays as it is, and answers every
/// event with the same action.
pub proof fn finished_stays_finished(m: M3U8View, first: EventView, second: EventView)
    requires
        well_formed(m),
        m.phase == Phase::Done || m.phase == Phase::Failed,
    ensures
        step(m, first).0 == m,
        step(m, first).1 == step(m, second).1,
{
}

/// The destination is opened once: while the segments of a media playlist
/// are remuxed, no step asks to create it again.
pub proof fn destination_opened_once(m: M3U8View, event: EventView)
    requires
        state_of(m.phase) == State::ResolvingMedia,
    ensures
        !(step(m, event).1 is Create),
{
}

/// Segments are asked for in playlist order: after the packets of the
/// segment at `m.next` are written, the step asks for the segment that
/// follows it on the list, or finishes after the last one.
pub proof fn segments_fetched_in_order(m: M3U8View)
    requires
        well_formed(m),
        m.phase == Phase::Writing,
    ensures
        m.next + 1 < m.uris.len() ==> step(m, EventView::Continue).1 == ActionView::FetchBinary(
            m.uris[m.next + 1],
        ),
        m.next + 1 == m.uris.len() ==> step(m, EventView::Continue).1 == ActionView::Finish(
            m.uris.len() as usize,
        ),
{
}

/// The URIs of a media playlist's segments, in playlist order.
fn segment_uris(segments: &Vec<crate::playlist::Segment>) -> (uris: Vec<String>)
    ensures
        uris.deep_view() == segments.deep_view(),
{
    let mut uris: Vec<String> = Vec::new();
    let mut i: usize = 0;
    assert(uris.deep_view() =~= segments.deep_view().take(0));
    while i < segments.len()
        invariant
            i <= segments.len(),
            uris@.len() == i,
            uris.deep_view() == segments.deep_view().take(i as int),
        decreases segments.len() - i,
    {
        let ghost before = uris@;
        let ghost before_deep = uris.deep_view();
        uris.push(segments[i].uri.clone());
        assert forall|j: int| 0 <= j < uris@.len() implies uris.deep_view()[j]
            == segments.deep_view().take(i + 1)[j] by {
            if j < i {
                assert(uris@[j] == before[j]);
                assert(before_deep[j] == before[j].deep_view());
            }
        }
        assert(uris.deep_view() =~= segments.deep_view().take(i + 1));
        i = i + 1;
    }
    assert(segments.deep_view().take(i as int) =~= segments.deep_view());
    uris
}

} // verus!
