use m3u8_dl::{selection_list, Variant};

fn variant(resolution: Option<&str>, uri: &str) -> Variant {
    Variant { resolution: resolution.map(|r| r.to_string()), uri: uri.to_string() }
}

#[test]
fn labelled_variants_are_listed_in_reverse_order() {
    let variants = vec![
        variant(Some("1280x720"), "720p.m3u8"),
        variant(Some("1920x1080"), "1080p.m3u8"),
        variant(Some("854x480"), "480p.m3u8"),
    ];
    let (labels, uris) = selection_list(&variants);
    assert_eq!(labels, vec!["854x480", "1920x1080", "1280x720"]);
    assert_eq!(uris, vec!["480p.m3u8", "1080p.m3u8", "720p.m3u8"]);
}

#[test]
fn variant_without_resolution_is_never_listed() {
    let variants = vec![
        variant(None, "audio-first.m3u8"),
        variant(Some("1280x720"), "720p.m3u8"),
        variant(None, "audio.m3u8"),
        variant(Some("854x480"), "480p.m3u8"),
        variant(None, "audio-last.m3u8"),
    ];
    let (labels, uris) = selection_list(&variants);
    assert_eq!(labels, vec!["854x480", "1280x720"]);
    assert_eq!(uris, vec!["480p.m3u8", "720p.m3u8"]);
    assert!(!uris.iter().any(|u| u.starts_with("audio")));
}

#[test]
fn only_unlabelled_variants_give_an_empty_list() {
    let variants = vec![variant(None, "a.m3u8"), variant(None, "b.m3u8")];
    let (labels, uris) = selection_list(&variants);
    assert!(labels.is_empty());
    assert!(uris.is_empty());
}

#[test]
fn no_variants_give_an_empty_list() {
    let (labels, uris) = selection_list(&Vec::new());
    assert!(labels.is_empty());
    assert!(uris.is_empty());
}

#[test]
fn equal_labels_are_all_listed() {
    let variants = vec![
        variant(Some("1280x720"), "low-rate.m3u8"),
        variant(Some("1280x720"), "high-rate.m3u8"),
    ];
    let (labels, uris) = selection_list(&variants);
    assert_eq!(labels, vec!["1280x720", "1280x720"]);
    assert_eq!(uris, vec!["high-rate.m3u8", "low-rate.m3u8"]);
}

#[test]
fn joined_playlists_list_the_later_part_first() {
    let earlier = vec![variant(Some("1x1"), "a"), variant(None, "b")];
    let later = vec![variant(Some("2x2"), "c"), variant(Some("3x3"), "d")];
    let mut joined = earlier.clone();
    joined.extend(later.clone());
    let (mut labels, mut uris) = selection_list(&later);
    let (earlier_labels, earlier_uris) = selection_list(&earlier);
    labels.extend(earlier_labels);
    uris.extend(earlier_uris);
    assert_eq!(selection_list(&joined), (labels, uris));
}
