//! The texts of the provider prompts.

use vstd::prelude::*;
use crate::ui::ProviderLinkPromptMode;
use crate::textinput::TextInputId;
use crate::text::chars_of;
use crate::textorder::text_equal;
use crate::model::{CollectionSummary, ProviderId, TrackList};
use crate::notifications::NotificationLevel;
use crate::search::{trimmed, trim_chars};
use crate::text::string_from_chars;

verus! {

/// The texts of the provider-link prompt: its title, its description, the
/// field's placeholder and the submit button's label.
pub struct ProviderLinkPromptTexts {
    pub title: &'static str,
    pub description: &'static str,
    pub placeholder: &'static str,
    pub submit_label: &'static str,
}

/// The texts of the provider-link prompt in a mode; an import in progress
/// says so on its button.
pub fn provider_link_prompt_texts(mode: ProviderLinkPromptMode, submitting: bool) -> (r: ProviderLinkPromptTexts)
    ensures
        mode == ProviderLinkPromptMode::Import ==> r.title@ == "Import Provider Link"@
            && r.description@ == "Paste a compact provider link or raw TOML. Oryx will validate it before promotion."@
            && r.placeholder@ == "oryx-provider://v1/..."@
            && r.submit_label@ == (if submitting { "Importing..."@ } else { "Import"@ }),
        mode == ProviderLinkPromptMode::Export ==> r.title@ == "Export Provider Link"@
            && r.description@ == "Enter a provider id. Oryx will export the active provider config and copy a compact link to the clipboard."@
            && r.placeholder@ == "provider-id"@
            && r.submit_label@ == "Copy Link"@,
{
    match mode {
        ProviderLinkPromptMode::Import => ProviderLinkPromptTexts {
            title: "Import Provider Link",
            description: "Paste a compact provider link or raw TOML. Oryx will validate it before promotion.",
            placeholder: "oryx-provider://v1/...",
            submit_label: if submitting { "Importing..." } else { "Import" },
        },
        ProviderLinkPromptMode::Export => ProviderLinkPromptTexts {
            title: "Export Provider Link",
            description: "Enter a provider id. Oryx will export the active provider config and copy a compact link to the clipboard.",
            placeholder: "provider-id",
            submit_label: "Copy Link",
        },
    }
}

/// The title of the sign-in prompt for a provider; "Provider" when its
/// name is not known.
pub fn provider_auth_title(provider_name: Option<&str>) -> (r: String)
    ensures
        r@ == "Sign in to "@ + match provider_name { Some(n) => n@, None => "Provider"@ },
{
    let mut r = String::from_str("Sign in to ");
    match provider_name {
        Some(n) => r.append(n),
        None => r.append("Provider"),
    }
    r
}

/// The label of the sign-in button; a sign-in in progress says so.
pub fn provider_auth_submit_label(submitting: bool) -> (r: &'static str)
    ensures
        r@ == (if submitting { "Signing in..."@ } else { "Sign in"@ }),
{
    if submitting { "Signing in..." } else { "Sign in" }
}

/// Whether a key's name is the given one.
pub(crate) fn key_is(key: &str, name: &str) -> (r: bool)
    ensures
        r == (key@ == name@),
{
    let a = chars_of(key);
    let b = chars_of(name);
    text_equal(a.as_slice(), b.as_slice())
}

/// What a key (not a text-editing shortcut) does in the sign-in prompt.
#[derive(Clone, Copy, Debug, PartialEq, Eq, Structural)]
pub enum AuthKeyAction {
    Ignore,
    Close,
    FocusUsername,
    FocusPassword,
    Submit,
}

/// What a key does in the sign-in prompt: Escape closes it; Tab moves
/// between the two fields (Shift+Tab backwards); Enter submits from the
/// password field and moves to it from elsewhere. Keys with the function
/// modifier do nothing.
pub fn provider_auth_key_action(key: &str, function: bool, shift: bool, focused: Option<&TextInputId>) -> (r: AuthKeyAction)
    ensures
        function ==> r == AuthKeyAction::Ignore,
        !function && key@ == "escape"@ ==> r == AuthKeyAction::Close,
        !function && key@ == "tab"@ ==> r == match (focused, shift) {
            (Some(TextInputId::ProviderAuthPassword), true) => AuthKeyAction::FocusUsername,
            (Some(TextInputId::ProviderAuthUsername), false) => AuthKeyAction::FocusPassword,
            (_, true) => AuthKeyAction::FocusPassword,
            _ => AuthKeyAction::FocusUsername,
        },
        !function && key@ == "enter"@ ==> r == if focused matches Some(TextInputId::ProviderAuthPassword) {
            AuthKeyAction::Submit
        } else {
            AuthKeyAction::FocusPassword
        },
        !function && key@ != "escape"@ && key@ != "tab"@ && key@ != "enter"@ ==> r == AuthKeyAction::Ignore,
{
    proof {
        reveal_strlit("escape");
        reveal_strlit("tab");
        reveal_strlit("enter");
        assert("escape"@.len() == 6 && "tab"@.len() == 3 && "enter"@.len() == 5);
        assert("escape"@ != "tab"@ && "escape"@ != "enter"@ && "tab"@ != "enter"@);
    }
    if function {
        return AuthKeyAction::Ignore;
    }
    let on_password = match focused { Some(TextInputId::ProviderAuthPassword) => true, _ => false };
    let on_username = match focused { Some(TextInputId::ProviderAuthUsername) => true, _ => false };
    if key_is(key, "escape") {
        AuthKeyAction::Close
    } else if key_is(key, "tab") {
        if on_password && shift {
            AuthKeyAction::FocusUsername
        } else if on_username && !shift {
            AuthKeyAction::FocusPassword
        } else if shift {
            AuthKeyAction::FocusPassword
        } else {
            AuthKeyAction::FocusUsername
        }
    } else if key_is(key, "enter") {
        if on_password { AuthKeyAction::Submit } else { AuthKeyAction::FocusPassword }
    } else {
        AuthKeyAction::Ignore
    }
}

/// What a key (not a text-editing shortcut) does in the provider-link
/// prompt.
#[derive(Clone, Copy, Debug, PartialEq, Eq, Structural)]
pub enum LinkKeyAction {
    Ignore,
    Close,
    Submit,
}

/// What a key does in the provider-link prompt: Escape closes it, Enter
/// submits it; keys with the function modifier do nothing.
pub fn provider_link_key_action(key: &str, function: bool) -> (r: LinkKeyAction)
    ensures
        function ==> r == LinkKeyAction::Ignore,
        !function && key@ == "escape"@ ==> r == LinkKeyAction::Close,
        !function && key@ == "enter"@ ==> r == LinkKeyAction::Submit,
        !function && key@ != "escape"@ && key@ != "enter"@ ==> r == LinkKeyAction::Ignore,
{
    proof {
        reveal_strlit("escape");
        reveal_strlit("enter");
        assert("escape"@.len() == 6 && "enter"@.len() == 5);
    }
    if function {
        LinkKeyAction::Ignore
    } else if key_is(key, "escape") {
        LinkKeyAction::Close
    } else if key_is(key, "enter") {
        LinkKeyAction::Submit
    } else {
        LinkKeyAction::Ignore
    }
}

/// The credentials typed into the sign-in prompt: the user name trimmed
/// and the password as typed; an error when either is empty.
pub fn provider_auth_credentials(username_input: &str, password_input: &str) -> (r: Result<(String, String), &'static str>)
    ensures
        match r {
            Ok((u, p)) => u@ == trimmed(username_input@) && u@.len() > 0 && p@ == password_input@ && p@.len() > 0,
            Err(e) => (trimmed(username_input@).len() == 0 || password_input@.len() == 0)
                && e@ == "Username and password are required."@,
        },
{
    let cs = chars_of(username_input);
    let t = trim_chars(cs.as_slice());
    let pw = chars_of(password_input);
    if t.len() == 0 || pw.len() == 0 {
        Err("Username and password are required.")
    } else {
        Ok((string_from_chars(t.as_slice()), String::from_str(password_input)))
    }
}

/// The provider link or TOML typed into the import prompt, trimmed; an
/// error when nothing is left.
pub fn provider_link_import_payload(input: &str) -> (r: Result<String, &'static str>)
    ensures
        match r {
            Ok(p) => p@ == trimmed(input@) && p@.len() > 0,
            Err(e) => trimmed(input@).len() == 0 && e@ == "A provider link or TOML payload is required."@,
        },
{
    let cs = chars_of(input);
    let t = trim_chars(cs.as_slice());
    if t.len() == 0 {
        Err("A provider link or TOML payload is required.")
    } else {
        Ok(string_from_chars(t.as_slice()))
    }
}

/// The provider the export prompt names: the trimmed input parsed as a
/// provider identifier; an error when it is not one.
pub fn provider_link_export_target(input: &str) -> (r: Result<ProviderId, &'static str>)
    ensures
        match r {
            Ok(p) => p.name() == trimmed(input@) && p.well_formed(),
            Err(e) => e@ == "Enter a valid provider id."@,
        },
        trimmed(input@) == crate::model::local_provider_name() ==> r == Ok::<ProviderId, &'static str>(ProviderId::Local),
        trimmed(input@) != crate::model::local_provider_name() ==> (r is Ok <==> crate::model::valid_remote_provider_name(trimmed(input@))),
{
    let cs = chars_of(input);
    let t = trim_chars(cs.as_slice());
    let text = string_from_chars(t.as_slice());
    match ProviderId::parse(text.as_str()) {
        Some(p) => Ok(p),
        None => Err("Enter a valid provider id."),
    }
}

/// Whether a provider is a remote one.
pub open spec fn remote_provider() -> spec_fn(ProviderId) -> bool {
    |p: ProviderId| !(p is Local)
}

/// The provider the export prompt starts with: that of the open list, else
/// that of the first search result, else the first remote provider that
/// can search.
pub open spec fn export_target(
    browser_list: Option<crate::model::TrackListView>,
    search_results: Seq<CollectionSummary>,
    searchable: Seq<ProviderId>,
) -> Option<ProviderId> {
    match browser_list {
        Some(l) => Some(l.collection.reference.provider),
        None => if search_results.len() > 0 {
            Some(search_results[0].reference.provider)
        } else {
            match crate::browse::first_index(searchable, remote_provider()) {
                Some(i) => Some(searchable[i]),
                None => None,
            }
        },
    }
}

/// The provider the export prompt starts with.
pub fn default_provider_link_export_target(
    browser_list: Option<&TrackList>,
    search_results: &[CollectionSummary],
    searchable: &[ProviderId],
) -> (r: Option<ProviderId>)
    ensures
        r == export_target(match browser_list { Some(l) => Some(l@), None => None }, search_results@, searchable@),
{
    if let Some(l) = browser_list {
        return Some(l.collection.reference.provider.clone());
    }
    if search_results.len() > 0 {
        return Some(search_results[0].reference.provider.clone());
    }
    let ghost pred = remote_provider();
    let n = searchable.len();
    for i in 0..n
        invariant
            n == searchable@.len(),
            browser_list is None,
            search_results@.len() == 0,
            pred == remote_provider(),
            forall|j: int| 0 <= j < i ==> !pred(#[trigger] searchable@[j]),
    {
        if !searchable[i].is_local_provider() {
            let found = searchable[i].clone();
            proof { crate::browse::lemma_first_index_found(searchable@, pred, i as int); }
            return Some(found);
        }
    }
    proof { crate::browse::lemma_first_index_none(searchable@, pred); }
    None
}

/// How importing a provider configuration ended.
#[derive(Clone, Copy, Debug, PartialEq, Eq, Structural)]
pub enum ProviderImportStatus {
    /// The new configuration passed validation and is active.
    Activated,
    /// Validation waits for a sign-in; the last validated one stays active.
    PendingAuth,
    /// Validation failed; the last validated one stays active.
    RevertedToLastValidated,
}

/// The status line and the notification's level after an import.
pub fn provider_import_outcome(status: ProviderImportStatus, provider_name: &str) -> (r: (String, NotificationLevel))
    ensures
        r.0@ == "Imported provider '"@ + provider_name@ + match status {
            ProviderImportStatus::Activated => "' and activated the new config."@,
            ProviderImportStatus::PendingAuth =>
                "', but validation is waiting for sign-in. The last validated config is still active."@,
            ProviderImportStatus::RevertedToLastValidated =>
                "', but validation failed. The last validated config is still active."@,
        },
        r.1 == match status {
            ProviderImportStatus::Activated => NotificationLevel::Success,
            ProviderImportStatus::PendingAuth => NotificationLevel::Info,
            ProviderImportStatus::RevertedToLastValidated => NotificationLevel::Error,
        },
{
    let mut message = String::from_str("Imported provider '");
    message.append(provider_name);
    match status {
        ProviderImportStatus::Activated => {
            message.append("' and activated the new config.");
            (message, NotificationLevel::Success)
        },
        ProviderImportStatus::PendingAuth => {
            message.append("', but validation is waiting for sign-in. The last validated config is still active.");
            (message, NotificationLevel::Info)
        },
        ProviderImportStatus::RevertedToLastValidated => {
            message.append("', but validation failed. The last validated config is still active.");
            (message, NotificationLevel::Error)
        },
    }
}

/// The status line when a provider link was copied.
pub fn provider_link_copied_message(provider_name: &str) -> (r: String)
    ensures
        r@ == "Copied provider link for '"@ + provider_name@ + "' to the clipboard."@,
{
    let mut r = String::from_str("Copied provider link for '");
    r.append(provider_name);
    r.append("' to the clipboard.");
    r
}

/// The status line when a prompt opens for a provider's sign-in.
pub fn provider_auth_prompt_message(provider_name: &str) -> (r: String)
    ensures
        r@ == "Sign in to "@ + provider_name@ + " to use authenticated playback URLs."@,
{
    let mut r = String::from_str("Sign in to ");
    r.append(provider_name);
    r.append(" to use authenticated playback URLs.");
    r
}

/// The status line when the provider-link prompt opens.
pub fn provider_link_prompt_message(mode: ProviderLinkPromptMode) -> (r: &'static str)
    ensures
        mode == ProviderLinkPromptMode::Import ==> r@ == "Paste a provider link or provider TOML to import it."@,
        mode == ProviderLinkPromptMode::Export ==> r@ == "Enter a provider id to export its active config as a compact link."@,
{
    match mode {
        ProviderLinkPromptMode::Import => "Paste a provider link or provider TOML to import it.",
        ProviderLinkPromptMode::Export => "Enter a provider id to export its active config as a compact link.",
    }
}

} // verus!
