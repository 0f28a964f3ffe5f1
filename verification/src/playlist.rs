//! Playlists: what the parser hands over, and the list of variants that a
//! master playlist offers for selection.

use vstd::prelude::*;

verus! {

/// A variant stream of a master playlist.
#[derive(Debug, Clone, PartialEq, Eq)]
pub struct Variant {
    /// The resolution label, width by height, where the playlist gives one.
    pub resolution: Option<String>,
    /// Where the variant's own playlist is found.
    pub uri: String,
}

/// A media segment of a media playlist.
#[derive(Debug, Clone, PartialEq, Eq)]
pub struct Segment {
    /// Where the segment's bytes are found.
    pub uri: String,
}

/// A parsed playlist.
#[derive(Debug, Clone, PartialEq, Eq)]
pub enum Playlist {
    /// A menu of variant streams, in playlist order.
    Master(Vec<Variant>),
    /// The segments of one stream, in playlist order.
    Media(Vec<Segment>),
}

/// The mathematical value of a `Variant`.
pub struct VariantView {
    pub resolution: Option<Seq<char>>,
    pub uri: Seq<char>,
}

/// The mathematical value of a `Playlist`; a segment is its URI.
pub enum PlaylistView {
    Master(Seq<VariantView>),
    Media(Seq<Seq<char>>),
}

impl DeepView for Variant {
    type V = VariantView;

    open spec fn deep_view(&self) -> VariantView {
        VariantView { resolution: self.resolution.deep_view(), uri: self.uri@ }
    }
}

impl DeepView for Segment {
    type V = Seq<char>;

    open spec fn deep_view(&self) -> Seq<char> {
        self.uri@
    }
}

impl DeepView for Playlist {
    type V = PlaylistView;

    open spec fn deep_view(&self) -> PlaylistView {
        match self {
            Playlist::Master(variants) => PlaylistView::Master(variants.deep_view()),
            Playlist::Media(segments) => PlaylistView::Media(segments.deep_view()),
        }
    }
}

/// The mathematical value of a parser's result: the playlist's value, or
/// the error's text.
pub open spec fn parse_view(parsed: Result<Playlist, String>) -> Result<PlaylistView, Seq<char>> {
    match parsed {
        Ok(playlist) => Ok(playlist.deep_view()),
        Err(message) => Err(message@),
    }
}

/// What `m3u8_rs::parse_playlist_res` makes of the bytes of a playlist: the
/// variants or segments that it found, each resolution written as the
/// parser prints it, or the parser's error as it prints it.
pub uninterp spec fn parsed_playlist(input: Seq<u8>) -> Result<PlaylistView, Seq<char>>;

/// The seven bytes `#EXTM3U` that every playlist starts with.
pub open spec fn playlist_header() -> Seq<u8> {
    seq![35u8, 69u8, 88u8, 84u8, 77u8, 51u8, 85u8]
}

/// Tells whether a buffer starts with the playlist header.
pub open spec fn has_playlist_header(input: Seq<u8>) -> bool {
    input.len() >= 7 && input.take(7) == playlist_header()
}

/// Parses a playlist with `m3u8_rs::parse_playlist_res` and copies out the
/// variants' resolutions and URIs, or the segments' URIs.
///
/// The result is the one that `parsed_playlist` names for these bytes. The
/// parser checks the header first, so bytes without it are never a playlist.
#[verifier::external_body]
pub(crate) fn parse_playlist(input: &[u8]) -> (r: Result<Playlist, String>)
    ensures
        parse_view(r) == parsed_playlist(input@),
        !has_playlist_header(input@) ==> r is Err,
{
    match m3u8_rs::parse_playlist_res(input) {
        Ok(m3u8_rs::Playlist::MasterPlaylist(master)) => Ok(
            Playlist::Master(master.variants.into_iter().map(|v| Variant {
                resolution: v.resolution.map(|r| r.to_string()),
                uri: v.uri,
            }).collect()),
        ),
        Ok(m3u8_rs::Playlist::MediaPlaylist(media)) => Ok(
            Playlist::Media(media.segments.into_iter().map(|s| Segment { uri: s.uri }).collect()),
        ),
        Err(e) => Err(format!("{:#?}", e)),
    }
}

/// The label and the URI of a variant that has a resolution.
pub open spec fn offered(variant: VariantView) -> Option<(Seq<char>, Seq<char>)> {
    match variant.resolution {
        Some(label) => Some((label, variant.uri)),
        None => None,
    }
}

/// The variants that carry a resolution, each as its label and its URI, in
/// playlist order.
pub open spec fn labelled(variants: Seq<VariantView>) -> Seq<(Seq<char>, Seq<char>)> {
    variants.filter_map(|v: VariantView| offered(v))
}

/// The variants offered for selection, each as its label and its URI: those
/// that carry a resolution, in reverse playlist order.
pub open spec fn selection(variants: Seq<VariantView>) -> Seq<(Seq<char>, Seq<char>)> {
    labelled(variants).reverse()
}

/// The labels of the selection list.
pub open spec fn selection_labels(variants: Seq<VariantView>) -> Seq<Seq<char>> {
    selection(variants).map_values(|choice: (Seq<char>, Seq<char>)| choice.0)
}

/// The URIs of the selection list.
pub open spec fn selection_uris(variants: Seq<VariantView>) -> Seq<Seq<char>> {
    selection(variants).map_values(|choice: (Seq<char>, Seq<char>)| choice.1)
}

/// Builds the selection list of a master playlist: the labels to present and,
/// at the same positions, the URIs to resolve.
pub fn selection_list(variants: &Vec<Variant>) -> (r: (Vec<String>, Vec<String>))
    ensures
        r.0.deep_view() == selection_labels(variants.deep_view()),
        r.1.deep_view() == selection_uris(variants.deep_view()),
{
    let ghost all = variants.deep_view();
    let mut labels: Vec<String> = Vec::new();
    let mut uris: Vec<String> = Vec::new();
    let mut i: usize = 0;
    assert(all.take(0) == Seq::<VariantView>::empty());
    assert(labels.deep_view() == Seq::<Seq<char>>::empty());
    assert(uris.deep_view() == Seq::<Seq<char>>::empty());
    while i < variants.len()
        invariant
            i <= variants.len(),
            all == variants.deep_view(),
            labels.deep_view() == labelled(all.take(i as int)).map_values(
                |choice: (Seq<char>, Seq<char>)| choice.0,
            ),
            uris.deep_view() == labelled(all.take(i as int)).map_values(
                |choice: (Seq<char>, Seq<char>)| choice.1,
            ),
        decreases variants.len() - i,
    {
        let ghost before = labelled(all.take(i as int));
        let ghost old_labels = labels.deep_view();
        let ghost old_uris = uris.deep_view();
        proof {
            assert(all.take(i + 1).drop_last() == all.take(i as int));
            assert(all.take(i + 1).last() == variants[i as int].deep_view());
        }
        match &variants[i].resolution {
            Some(label) => {
                labels.push(label.clone());
                uris.push(variants[i].uri.clone());
                proof {
                    let choice = (label@, variants[i as int].uri@);
                    assert(labelled(all.take(i + 1)) == before + seq![choice]);
                    assert(labels.deep_view() == old_labels.push(choice.0));
                    assert(uris.deep_view() == old_uris.push(choice.1));
                    assert(labels.deep_view() == (before + seq![choice]).map_values(
                        |choice: (Seq<char>, Seq<char>)| choice.0,
                    ));
                    assert(uris.deep_view() == (before + seq![choice]).map_values(
                        |choice: (Seq<char>, Seq<char>)| choice.1,
                    ));
                }
            },
            None => {
                proof {
                    assert(labelled(all.take(i + 1)) == before);
                }
            },
        }
        i = i + 1;
    }
    proof {
        assert(all.take(i as int) == all);
        reverse_then_map(labelled(all), |choice: (Seq<char>, Seq<char>)| choice.0);
        reverse_then_map(labelled(all), |choice: (Seq<char>, Seq<char>)| choice.1);
    }
    (reversed(labels), reversed(uris))
}

/// Number of variants that carry a resolution.
pub open spec fn labelled_count(variants: Seq<VariantView>) -> nat
    decreases variants.len(),
{
    if variants.len() == 0 {
        0
    } else if variants.last().resolution is Some {
        labelled_count(variants.drop_last()) + 1
    } else {
        labelled_count(variants.drop_last())
    }
}

/// Only variants with a resolution are offered: every entry of the selection
/// list is the label and the URI of one variant of the playlist that carries
/// a resolution, and the list has one entry for each such variant, so a
/// variant without a resolution is never listed.
pub proof fn only_labelled_variants_listed(variants: Seq<VariantView>)
    ensures
        selection(variants).len() == labelled_count(variants),
        forall|j: int|
            0 <= j < selection(variants).len() ==> exists|i: int|
                0 <= i < variants.len() && #[trigger] variants[i].resolution == Some(
                    (#[trigger] selection(variants)[j]).0,
                ) && variants[i].uri == selection(variants)[j].1,
{
    let picks = labelled(variants);
    labelled_from_variants(variants);
    assert forall|j: int| 0 <= j < selection(variants).len() implies exists|i: int|
        0 <= i < variants.len() && #[trigger] variants[i].resolution == Some(
            (#[trigger] selection(variants)[j]).0,
        ) && variants[i].uri == selection(variants)[j].1 by {
        let k = picks.len() - 1 - j;
        assert(selection(variants)[j] == picks[k]);
        let i = choose|i: int|
            0 <= i < variants.len() && #[trigger] variants[i].resolution == Some(picks[k].0)
                && variants[i].uri == picks[k].1;
        assert(variants[i].resolution == Some(selection(variants)[j].0));
    }
}

proof fn labelled_from_variants(variants: Seq<VariantView>)
    ensures
        labelled(variants).len() == labelled_count(variants),
        forall|k: int|
            0 <= k < labelled(variants).len() ==> exists|i: int|
                0 <= i < variants.len() && #[trigger] variants[i].resolution == Some(
                    (#[trigger] labelled(variants)[k]).0,
                ) && variants[i].uri == labelled(variants)[k].1,
    decreases variants.len(),
{
    if variants.len() > 0 {
        let front = variants.drop_last();
        let last = variants.last();
        labelled_from_variants(front);
        assert forall|k: int| 0 <= k < labelled(variants).len() implies exists|i: int|
            0 <= i < variants.len() && #[trigger] variants[i].resolution == Some(
                (#[trigger] labelled(variants)[k]).0,
            ) && variants[i].uri == labelled(variants)[k].1 by {
            if k < labelled(front).len() {
                assert(labelled(variants)[k] == labelled(front)[k]);
                let i = choose|i: int|
                    0 <= i < front.len() && #[trigger] front[i].resolution == Some(
                        labelled(front)[k].0,
                    ) && front[i].uri == labelled(front)[k].1;
                assert(variants[i] == front[i]);
                assert(variants[i].resolution == Some(labelled(variants)[k].0));
            } else {
                let i = variants.len() - 1;
                assert(variants[i].resolution == Some(labelled(variants)[k].0));
            }
        }
    }
}

/// The selection list runs against playlist order: the entries of a
/// playlist's later part come first, those of its earlier part after them.
pub proof fn selection_reverses_order(earlier: Seq<VariantView>, later: Seq<VariantView>)
    ensures
        selection(earlier + later) == selection(later) + selection(earlier),
{
    labelled_of_joined(earlier, later);
    let a = labelled(earlier);
    let b = labelled(later);
    assert((a + b).reverse() =~= b.reverse() + a.reverse());
}

proof fn labelled_of_joined(earlier: Seq<VariantView>, later: Seq<VariantView>)
    ensures
        labelled(earlier + later) == labelled(earlier) + labelled(later),
    decreases later.len(),
{
    if later.len() == 0 {
        assert(earlier + later == earlier);
        assert(labelled(earlier) + labelled(later) == labelled(earlier));
    } else {
        labelled_of_joined(earlier, later.drop_last());
        assert((earlier + later).drop_last() == earlier + later.drop_last());
        assert((earlier + later).last() == later.last());
        assert(labelled(earlier + later) == labelled(earlier) + labelled(later));
    }
}

/// Mapping a reversed sequence gives the reversed mapped sequence.
proof fn reverse_then_map<A, B>(s: Seq<A>, f: spec_fn(A) -> B)
    ensures
        s.reverse().map_values(f) == s.map_values(f).reverse(),
{
    assert(s.reverse().map_values(f) =~= s.map_values(f).reverse());
}

/// The same strings in reverse order.
fn reversed(strings: Vec<String>) -> (r: Vec<String>)
    ensures
        r.deep_view() == strings.deep_view().reverse(),
{
    let ghost given = strings@;
    let mut rest = strings;
    let mut out: Vec<String> = Vec::new();
    while rest.len() > 0
        invariant
            rest@ == given.take(rest@.len() as int),
            rest@.len() <= given.len(),
            out@.len() == given.len() - rest@.len(),
            forall|j: int| 0 <= j < out@.len() ==> out@[j] == given[given.len() - 1 - j],
        decreases rest@.len(),
    {
        match rest.pop() {
            Some(last) => {
                out.push(last);
            },
            None => {},
        }
    }
    assert(out.deep_view() =~= strings.deep_view().reverse());
    out
}

} // verus!
