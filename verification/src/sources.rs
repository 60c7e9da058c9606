//! Which providers search by default, what toggling one in the source menu
//! does, and the status line a browse mode shows.

use vstd::prelude::*;
use crate::browse::BrowseMode;
use crate::model::ProviderId;
use crate::text::{decimal, u64_to_string};

verus! {

/// What the application knows of a provider's sign-in.
pub struct ProviderAccess {
    pub id: ProviderId,
    pub requires_credentials: bool,
    pub has_stored_credentials: bool,
}

/// A provider can search now: it needs no sign-in, or has one stored.
pub open spec fn can_search(p: ProviderAccess) -> bool {
    !p.requires_credentials || p.has_stored_credentials
}

/// The remote providers that can search now, in order.
pub open spec fn default_enabled(providers: Seq<ProviderAccess>) -> Seq<ProviderId>
    decreases providers.len(),
{
    if providers.len() == 0 {
        Seq::empty()
    } else {
        let p = providers.last();
        let rest = default_enabled(providers.drop_last());
        if !(p.id is Local) && can_search(p) { rest.push(p.id) } else { rest }
    }
}

/// The providers enabled for search when the application starts: every
/// remote provider that needs no sign-in or has one stored.
pub fn default_enabled_search_providers(providers: &[ProviderAccess]) -> (r: Vec<ProviderId>)
    ensures
        r@ == default_enabled(providers@),
{
    let mut r: Vec<ProviderId> = Vec::new();
    let n = providers.len();
    for i in 0..n
        invariant
            n == providers@.len(),
            r@ == default_enabled(providers@.take(i as int)),
    {
        let p = &providers[i];
        proof {
            assert(providers@.take(i + 1).drop_last() =~= providers@.take(i as int));
            assert(providers@.take(i + 1).last() == providers@[i as int]);
        }
        if !p.id.is_local_provider() && (!p.requires_credentials || p.has_stored_credentials) {
            r.push(p.id.clone());
        }
    }
    proof {
        assert(providers@.take(n as int) =~= providers@);
    }
    r
}

/// What choosing a provider in the source menu does.
#[derive(Debug, Clone, Copy, PartialEq, Eq, Structural)]
pub enum ProviderToggle {
    /// It was enabled: disable it.
    Disable,
    /// It needs a sign-in that is not stored: ask for one.
    PromptForCredentials,
    /// Enable it.
    Enable,
}

/// What choosing a provider does, given whether it is enabled and its
/// sign-in.
pub fn provider_toggle(enabled: bool, requires_credentials: bool, has_stored_credentials: bool) -> (r: ProviderToggle)
    ensures
        enabled ==> r == ProviderToggle::Disable,
        !enabled && requires_credentials && !has_stored_credentials ==> r == ProviderToggle::PromptForCredentials,
        !enabled && (!requires_credentials || has_stored_credentials) ==> r == ProviderToggle::Enable,
{
    if enabled {
        ProviderToggle::Disable
    } else if requires_credentials && !has_stored_credentials {
        ProviderToggle::PromptForCredentials
    } else {
        ProviderToggle::Enable
    }
}

/// The status line after a provider was enabled or disabled for search.
pub fn provider_toggled_message(display_name: &str, enabled: bool) -> (r: String)
    ensures
        r@ == (if enabled { "Enabled "@ } else { "Disabled "@ }) + display_name@ + " for search."@,
{
    let mut r = if enabled { String::from_str("Enabled ") } else { String::from_str("Disabled ") };
    r.append(display_name);
    r.append(" for search.");
    r
}

/// The status line when a provider that was chosen is not configured.
pub fn provider_unavailable_message(provider_name: &str) -> (r: String)
    ensures
        r@ == "Provider '"@ + provider_name@ + "' is not available."@,
{
    let mut r = String::from_str("Provider '");
    r.append(provider_name);
    r.append("' is not available.");
    r
}

/// The status line of a browse mode.
pub open spec fn browse_mode_status_text(
    mode: BrowseMode,
    source_label: Seq<char>,
    album_count: nat,
    artist_count: nat,
    playlist_count: nat,
) -> Seq<char> {
    match mode {
        BrowseMode::Discover => "Press Enter to search "@ + source_label + "."@,
        BrowseMode::Albums => decimal(album_count) + " local album(s)."@,
        BrowseMode::Artists => decimal(artist_count) + " local artist(s)."@,
        BrowseMode::Playlists => decimal(playlist_count) + " playlist(s)."@,
    }
}

/// The status line shown on switching to a browse mode: what Enter
/// searches, or how many local entries there are.
pub fn browse_mode_status(
    mode: BrowseMode,
    source_label: &str,
    album_count: usize,
    artist_count: usize,
    playlist_count: usize,
) -> (r: String)
    ensures
        r@ == browse_mode_status_text(mode, source_label@, album_count as nat, artist_count as nat, playlist_count as nat),
{
    match mode {
        BrowseMode::Discover => {
            let mut r = String::from_str("Press Enter to search ");
            r.append(source_label);
            r.append(".");
            r
        },
        BrowseMode::Albums => {
            let mut r = u64_to_string(album_count as u64);
            r.append(" local album(s).");
            r
        },
        BrowseMode::Artists => {
            let mut r = u64_to_string(artist_count as u64);
            r.append(" local artist(s).");
            r
        },
        BrowseMode::Playlists => {
            let mut r = u64_to_string(playlist_count as u64);
            r.append(" playlist(s).");
            r
        },
    }
}

/// The kind label a library mode gives its entries.
pub open spec fn mode_kind_text(mode: BrowseMode) -> Seq<char> {
    match mode {
        BrowseMode::Albums => "Album"@,
        BrowseMode::Artists => "Artist"@,
        BrowseMode::Playlists => "Playlist"@,
        BrowseMode::Discover => Seq::empty(),
    }
}

/// The kind label of a library mode's entries.
pub fn local_kind_label(mode: BrowseMode) -> (r: &'static str)
    ensures
        r@ == mode_kind_text(mode),
{
    match mode {
        BrowseMode::Albums => "Album",
        BrowseMode::Artists => "Artist",
        BrowseMode::Playlists => "Playlist",
        BrowseMode::Discover => {
            proof { reveal_strlit(""); }
            ""
        },
    }
}

/// The kind label an entry's secondary line names: every library mode's
/// but the artists'.
pub fn secondary_kind_label(mode: BrowseMode) -> (r: Option<&'static str>)
    ensures
        mode == BrowseMode::Artists ==> r is None,
        mode != BrowseMode::Artists ==> (r matches Some(k) && k@ == mode_kind_text(mode)),
{
    if mode == BrowseMode::Artists { None } else { Some(local_kind_label(mode)) }
}

/// The status line after a library entry was chosen.
pub open spec fn local_selection_text(mode: BrowseMode, track_count: nat, title: Seq<char>) -> Option<Seq<char>> {
    match mode {
        BrowseMode::Albums => Some(decimal(track_count) + " track(s) in '"@ + title + "'."@),
        BrowseMode::Artists => Some(decimal(track_count) + " track(s) by '"@ + title + "'."@),
        BrowseMode::Playlists => Some(decimal(track_count) + " track(s) in playlist '"@ + title + "'."@),
        BrowseMode::Discover => None,
    }
}

/// The status line after a library entry was chosen: how many tracks it
/// holds; none in the discover mode.
pub fn local_selection_status(mode: BrowseMode, track_count: usize, title: &str) -> (r: Option<String>)
    ensures
        match (r, local_selection_text(mode, track_count as nat, title@)) {
            (Some(a), Some(b)) => a@ == b,
            (None, None) => true,
            _ => false,
        },
{
    let middle = match mode {
        BrowseMode::Albums => " track(s) in '",
        BrowseMode::Artists => " track(s) by '",
        BrowseMode::Playlists => " track(s) in playlist '",
        BrowseMode::Discover => return None,
    };
    let mut r = u64_to_string(track_count as u64);
    r.append(middle);
    r.append(title);
    r.append("'.");
    Some(r)
}

} // verus!
