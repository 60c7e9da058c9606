use oryx::keys::{format_clock, format_duration, track_cache_key};
use oryx::model::{ProviderId, TrackRef, TrackSummary};
use oryx::libraryops::import_analysis_message;
use oryx::model::{CollectionKind, CollectionRef, CollectionSummary};
use oryx::search::rank_search_results;
use oryx::text::string_from_chars;

fn summary(id: &str) -> TrackSummary {
    TrackSummary {
        reference: TrackRef::new(ProviderId::parse("fixture_remote").unwrap(), id, None, None),
        title: id.to_string(),
        artist: None,
        album: None,
        collection_id: None,
        collection_title: None,
        collection_subtitle: None,
        duration_seconds: None,
        bitrate_bps: None,
        audio_format: None,
        artwork_url: None,
    }
}

#[test]
fn numbers_are_written_in_decimal() {
    assert_eq!(
        import_analysis_message(Ok((0, 1234, u64::MAX))),
        "Review 0 album group(s): 1234 ready offline, 18446744073709551615 need attention."
    );
}

#[test]
fn characters_become_a_string() {
    assert_eq!(string_from_chars(&['x', 'é', '日']), "xé日");
    assert_eq!(string_from_chars(&[]), "");
}

fn titled(title: &str) -> CollectionSummary {
    CollectionSummary {
        reference: CollectionRef::new(ProviderId::Local, title, CollectionKind::Album, None),
        title: title.to_string(),
        subtitle: None,
        artwork_url: None,
        track_count: None,
    }
}

#[test]
fn equally_ranked_results_order_by_lowercased_title() {
    let ordered = rank_search_results(vec![titled("Zeta"), titled("alpha")], &[0, 0], "qqq");
    assert_eq!(ordered[0].title, "alpha");
    let ordered = rank_search_results(vec![titled("Éb"), titled("éa")], &[0, 0], "qqq");
    assert_eq!(ordered[0].title, "éa");
}

#[test]
fn clock_text_pads_seconds() {
    assert_eq!(format_clock(0), "0:00");
    assert_eq!(format_clock(125), "2:05");
    assert_eq!(format_clock(3600), "60:00");
    assert_eq!(format_duration(Some(61)), "1:01");
    assert_eq!(format_duration(None), "--:--");
}

#[test]
fn track_keys_join_provider_and_id() {
    assert_eq!(track_cache_key(&summary("track-1")), "fixture_remote:track-1");
}

#[test]
fn provider_names_parse_or_are_refused() {
    assert_eq!(ProviderId::parse("local"), Some(ProviderId::Local));
    assert!(ProviderId::parse("fixture_remote").is_some());
    assert_eq!(ProviderId::parse(""), None);
    assert_eq!(ProviderId::parse("has space"), None);
}
