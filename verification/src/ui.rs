//! The overlays of the main window: at most one prompt or modal at a time,
//! the app menu or a context menu above it, and the import review flow.

use vstd::prelude::*;
use crate::model::ProviderId;

verus! {

/// What a context menu was opened on.
#[derive(Debug, PartialEq, Eq)]
pub enum ContextMenuTarget {
    LocalAlbum { provider: ProviderId, collection_id: String, title: String },
    LocalTrack { provider: ProviderId, track_id: String, title: String },
}

impl Clone for ContextMenuTarget {
    fn clone(&self) -> (r: Self)
        ensures
            r == *self,
    {
        match self {
            ContextMenuTarget::LocalAlbum { provider, collection_id, title } => ContextMenuTarget::LocalAlbum {
                provider: provider.clone(),
                collection_id: collection_id.clone(),
                title: title.clone(),
            },
            ContextMenuTarget::LocalTrack { provider, track_id, title } => ContextMenuTarget::LocalTrack {
                provider: provider.clone(),
                track_id: track_id.clone(),
                title: title.clone(),
            },
        }
    }
}

/// An open context menu: where it was opened and on what.
pub struct ContextMenuState<P> {
    pub position: P,
    pub target: ContextMenuTarget,
}

/// What the provider link prompt does.
#[derive(Clone, Copy, Debug, PartialEq, Eq, Structural)]
pub enum ProviderLinkPromptMode {
    Import,
    Export,
}

/// The prompt or modal in front, if any.
pub enum PrimaryOverlay {
    Nothing,
    OpenUrlPrompt { error: Option<String> },
    ProviderAuthPrompt { provider_id: ProviderId, error: Option<String>, submitting: bool },
    ProviderLinkPrompt { mode: ProviderLinkPromptMode, error: Option<String>, submitting: bool },
}

/// A menu above everything else.
pub enum ContextualSurface<P> {
    AppMenu,
    ContextMenu(ContextMenuState<P>),
}

/// Where the review of an import stands.
pub enum ImportReviewState<R> {
    Idle,
    Analyzing,
    Reviewing(R),
    Committing(R),
}

/// The overlays, as a value.
pub struct UiView<R, P> {
    pub primary: PrimaryOverlay,
    pub downloads_modal_open: bool,
    pub contextual: Option<ContextualSurface<P>>,
    pub import_review: ImportReviewState<R>,
}

/// The overlays of the main window.
pub struct UiState<R, P> {
    primary_overlay: PrimaryOverlay,
    downloads_modal_open: bool,
    contextual_surface: Option<ContextualSurface<P>>,
    import_review: ImportReviewState<R>,
}

impl<R, P> View for UiState<R, P> {
    type V = UiView<R, P>;

    closed spec fn view(&self) -> UiView<R, P> {
        UiView {
            primary: self.primary_overlay,
            downloads_modal_open: self.downloads_modal_open,
            contextual: self.contextual_surface,
            import_review: self.import_review,
        }
    }
}

fn clone_error(e: &Option<String>) -> (r: Option<String>)
    ensures
        r == *e,
{
    crate::model::clone_opt_string(e)
}

impl<R, P> UiState<R, P> {
    /// Nothing open, no import under review.
    pub fn new() -> (r: Self)
        ensures
            r@ == (UiView::<R, P> {
                primary: PrimaryOverlay::Nothing,
                downloads_modal_open: false,
                contextual: None,
                import_review: ImportReviewState::Idle,
            }),
    {
        UiState {
            primary_overlay: PrimaryOverlay::Nothing,
            downloads_modal_open: false,
            contextual_surface: None,
            import_review: ImportReviewState::Idle,
        }
    }

    fn dismiss_primary_overlay(&mut self)
        ensures
            final(self)@ == (UiView {
                primary: PrimaryOverlay::Nothing,
                downloads_modal_open: false,
                contextual: None,
                ..old(self)@
            }),
    {
        self.contextual_surface = None;
        self.primary_overlay = PrimaryOverlay::Nothing;
        self.downloads_modal_open = false;
    }

    /// The provider whose sign-in prompt is open.
    pub fn provider_auth_prompt(&self) -> (r: Option<ProviderId>)
        ensures
            r == match self@.primary {
                PrimaryOverlay::ProviderAuthPrompt { provider_id, .. } => Some(provider_id),
                _ => None,
            },
    {
        match &self.primary_overlay {
            PrimaryOverlay::ProviderAuthPrompt { provider_id, .. } => Some(provider_id.clone()),
            _ => None,
        }
    }

    /// Whether the app menu is open.
    pub fn app_menu_open(&self) -> (r: bool)
        ensures
            r == (self@.contextual matches Some(ContextualSurface::AppMenu)),
    {
        match &self.contextual_surface {
            Some(ContextualSurface::AppMenu) => true,
            _ => false,
        }
    }

    /// Whether the downloads modal is open.
    pub fn downloads_modal_open(&self) -> (r: bool)
        ensures
            r == self@.downloads_modal_open,
    {
        self.downloads_modal_open
    }

    /// Whether the open-URL prompt is open.
    pub fn open_url_prompt_open(&self) -> (r: bool)
        ensures
            r == (self@.primary is OpenUrlPrompt),
    {
        match &self.primary_overlay {
            PrimaryOverlay::OpenUrlPrompt { .. } => true,
            _ => false,
        }
    }

    /// The error the open-URL prompt shows.
    pub fn open_url_error(&self) -> (r: Option<String>)
        ensures
            r == match self@.primary {
                PrimaryOverlay::OpenUrlPrompt { error } => error,
                _ => None,
            },
    {
        match &self.primary_overlay {
            PrimaryOverlay::OpenUrlPrompt { error } => clone_error(error),
            _ => None,
        }
    }

    /// What the open provider link prompt does.
    pub fn provider_link_prompt(&self) -> (r: Option<ProviderLinkPromptMode>)
        ensures
            r == match self@.primary {
                PrimaryOverlay::ProviderLinkPrompt { mode, .. } => Some(mode),
                _ => None,
            },
    {
        match &self.primary_overlay {
            PrimaryOverlay::ProviderLinkPrompt { mode, .. } => Some(*mode),
            _ => None,
        }
    }

    /// Whether an import is being analysed or committed.
    pub fn import_review_loading(&self) -> (r: bool)
        ensures
            r == (self@.import_review is Analyzing || self@.import_review is Committing),
    {
        match &self.import_review {
            ImportReviewState::Analyzing | ImportReviewState::Committing(_) => true,
            _ => false,
        }
    }

    /// Whether the sign-in prompt is submitting.
    pub fn provider_auth_submitting(&self) -> (r: bool)
        ensures
            r == match self@.primary {
                PrimaryOverlay::ProviderAuthPrompt { submitting, .. } => submitting,
                _ => false,
            },
    {
        match &self.primary_overlay {
            PrimaryOverlay::ProviderAuthPrompt { submitting, .. } => *submitting,
            _ => false,
        }
    }

    /// The error the sign-in prompt shows.
    pub fn provider_auth_error(&self) -> (r: Option<String>)
        ensures
            r == match self@.primary {
                PrimaryOverlay::ProviderAuthPrompt { error, .. } => error,
                _ => None,
            },
    {
        match &self.primary_overlay {
            PrimaryOverlay::ProviderAuthPrompt { error, .. } => clone_error(error),
            _ => None,
        }
    }

    /// The error the provider link prompt shows.
    pub fn provider_link_error(&self) -> (r: Option<String>)
        ensures
            r == match self@.primary {
                PrimaryOverlay::ProviderLinkPrompt { error, .. } => error,
                _ => None,
            },
    {
        match &self.primary_overlay {
            PrimaryOverlay::ProviderLinkPrompt { error, .. } => clone_error(error),
            _ => None,
        }
    }

    /// Whether the provider link prompt is submitting.
    pub fn provider_link_submitting(&self) -> (r: bool)
        ensures
            r == match self@.primary {
                PrimaryOverlay::ProviderLinkPrompt { submitting, .. } => submitting,
                _ => false,
            },
    {
        match &self.primary_overlay {
            PrimaryOverlay::ProviderLinkPrompt { submitting, .. } => *submitting,
            _ => false,
        }
    }

    /// Opens the sign-in prompt for a provider; every other overlay closes.
    pub fn open_provider_auth_prompt(&mut self, provider_id: ProviderId)
        ensures
            final(self)@ == (UiView {
                primary: PrimaryOverlay::ProviderAuthPrompt { provider_id, error: None, submitting: false },
                downloads_modal_open: false,
                contextual: None,
                ..old(self)@
            }),
    {
        self.dismiss_primary_overlay();
        self.primary_overlay = PrimaryOverlay::ProviderAuthPrompt { provider_id, error: None, submitting: false };
    }

    /// Closes the sign-in prompt, if it is open.
    pub fn reset_provider_auth_prompt(&mut self)
        ensures
            final(self)@ == (if old(self)@.primary is ProviderAuthPrompt {
                UiView { primary: PrimaryOverlay::Nothing, ..old(self)@ }
            } else {
                old(self)@
            }),
    {
        if let PrimaryOverlay::ProviderAuthPrompt { .. } = &self.primary_overlay {
            self.primary_overlay = PrimaryOverlay::Nothing;
        }
    }

    /// Opens the provider link prompt; every other overlay closes.
    pub fn open_provider_link_prompt(&mut self, mode: ProviderLinkPromptMode)
        ensures
            final(self)@ == (UiView {
                primary: PrimaryOverlay::ProviderLinkPrompt { mode, error: None, submitting: false },
                downloads_modal_open: false,
                contextual: None,
                ..old(self)@
            }),
    {
        self.dismiss_primary_overlay();
        self.primary_overlay = PrimaryOverlay::ProviderLinkPrompt { mode, error: None, submitting: false };
    }

    /// Closes the provider link prompt, if it is open.
    pub fn reset_provider_link_prompt(&mut self)
        ensures
            final(self)@ == (if old(self)@.primary is ProviderLinkPrompt {
                UiView { primary: PrimaryOverlay::Nothing, ..old(self)@ }
            } else {
                old(self)@
            }),
    {
        if let PrimaryOverlay::ProviderLinkPrompt { .. } = &self.primary_overlay {
            self.primary_overlay = PrimaryOverlay::Nothing;
        }
    }

    /// Sets the error of the provider link prompt, if it is open.
    pub fn set_provider_link_error(&mut self, error: Option<String>)
        ensures
            final(self)@ == match old(self)@.primary {
                PrimaryOverlay::ProviderLinkPrompt { mode, submitting, .. } => UiView {
                    primary: PrimaryOverlay::ProviderLinkPrompt { mode, error, submitting },
                    ..old(self)@
                },
                _ => old(self)@,
            },
    {
        if let PrimaryOverlay::ProviderLinkPrompt { mode, submitting, .. } = &self.primary_overlay {
            self.primary_overlay = PrimaryOverlay::ProviderLinkPrompt { mode: *mode, error, submitting: *submitting };
        }
    }

    /// Marks the provider link prompt as submitting, clearing its error.
    pub fn begin_provider_link_submit(&mut self)
        ensures
            final(self)@ == match old(self)@.primary {
                PrimaryOverlay::ProviderLinkPrompt { mode, .. } => UiView {
                    primary: PrimaryOverlay::ProviderLinkPrompt { mode, error: None, submitting: true },
                    ..old(self)@
                },
                _ => old(self)@,
            },
    {
        if let PrimaryOverlay::ProviderLinkPrompt { mode, .. } = &self.primary_overlay {
            self.primary_overlay = PrimaryOverlay::ProviderLinkPrompt { mode: *mode, error: None, submitting: true };
        }
    }

    /// Ends the provider link prompt's submission.
    pub fn finish_provider_link_submit(&mut self)
        ensures
            final(self)@ == match old(self)@.primary {
                PrimaryOverlay::ProviderLinkPrompt { mode, error, .. } => UiView {
                    primary: PrimaryOverlay::ProviderLinkPrompt { mode, error, submitting: false },
                    ..old(self)@
                },
                _ => old(self)@,
            },
    {
        if let PrimaryOverlay::ProviderLinkPrompt { mode, error, .. } = &self.primary_overlay {
            let kept = clone_error(error);
            self.primary_overlay = PrimaryOverlay::ProviderLinkPrompt { mode: *mode, error: kept, submitting: false };
        }
    }

    /// Sets the error of the sign-in prompt, if it is open.
    pub fn set_provider_auth_error(&mut self, error: Option<String>)
        ensures
            final(self)@ == match old(self)@.primary {
                PrimaryOverlay::ProviderAuthPrompt { provider_id, submitting, .. } => UiView {
                    primary: PrimaryOverlay::ProviderAuthPrompt { provider_id, error, submitting },
                    ..old(self)@
                },
                _ => old(self)@,
            },
    {
        if let PrimaryOverlay::ProviderAuthPrompt { provider_id, submitting, .. } = &self.primary_overlay {
            let p = provider_id.clone();
            let s = *submitting;
            self.primary_overlay = PrimaryOverlay::ProviderAuthPrompt { provider_id: p, error, submitting: s };
        }
    }

    /// Opens the open-URL prompt, closing the menus.
    pub fn open_open_url_prompt(&mut self)
        ensures
            final(self)@ == (UiView { primary: PrimaryOverlay::OpenUrlPrompt { error: None }, contextual: None, ..old(self)@ }),
    {
        self.contextual_surface = None;
        self.primary_overlay = PrimaryOverlay::OpenUrlPrompt { error: None };
    }

    /// Closes the open-URL prompt, if it is open.
    pub fn reset_open_url_prompt(&mut self)
        ensures
            final(self)@ == (if old(self)@.primary is OpenUrlPrompt {
                UiView { primary: PrimaryOverlay::Nothing, ..old(self)@ }
            } else {
                old(self)@
            }),
    {
        if let PrimaryOverlay::OpenUrlPrompt { .. } = &self.primary_overlay {
            self.primary_overlay = PrimaryOverlay::Nothing;
        }
    }

    /// Sets the error of the open-URL prompt, if it is open.
    pub fn set_open_url_error(&mut self, error: Option<String>)
        ensures
            final(self)@ == (if old(self)@.primary is OpenUrlPrompt {
                UiView { primary: PrimaryOverlay::OpenUrlPrompt { error }, ..old(self)@ }
            } else {
                old(self)@
            }),
    {
        if let PrimaryOverlay::OpenUrlPrompt { .. } = &self.primary_overlay {
            self.primary_overlay = PrimaryOverlay::OpenUrlPrompt { error };
        }
    }

    /// Marks the sign-in prompt as submitting, clearing its error.
    pub fn begin_provider_auth_submit(&mut self)
        ensures
            final(self)@ == match old(self)@.primary {
                PrimaryOverlay::ProviderAuthPrompt { provider_id, .. } => UiView {
                    primary: PrimaryOverlay::ProviderAuthPrompt { provider_id, error: None, submitting: true },
                    ..old(self)@
                },
                _ => old(self)@,
            },
    {
        if let PrimaryOverlay::ProviderAuthPrompt { provider_id, .. } = &self.primary_overlay {
            let p = provider_id.clone();
            self.primary_overlay = PrimaryOverlay::ProviderAuthPrompt { provider_id: p, error: None, submitting: true };
        }
    }

    /// Ends the sign-in prompt's submission.
    pub fn finish_provider_auth_submit(&mut self)
        ensures
            final(self)@ == match old(self)@.primary {
                PrimaryOverlay::ProviderAuthPrompt { provider_id, error, .. } => UiView {
                    primary: PrimaryOverlay::ProviderAuthPrompt { provider_id, error, submitting: false },
                    ..old(self)@
                },
                _ => old(self)@,
            },
    {
        if let PrimaryOverlay::ProviderAuthPrompt { provider_id, error, .. } = &self.primary_overlay {
            let p = provider_id.clone();
            let e = clone_error(error);
            self.primary_overlay = PrimaryOverlay::ProviderAuthPrompt { provider_id: p, error: e, submitting: false };
        }
    }

    /// Opens or closes the downloads modal, closing the menus.
    pub fn toggle_downloads_modal(&mut self)
        ensures
            final(self)@ == (UiView {
                downloads_modal_open: !old(self)@.downloads_modal_open,
                contextual: None,
                ..old(self)@
            }),
    {
        self.contextual_surface = None;
        self.downloads_modal_open = !self.downloads_modal_open;
    }

    /// Opens the downloads modal, closing the menus.
    pub fn open_downloads_modal(&mut self)
        ensures
            final(self)@ == (UiView { downloads_modal_open: true, contextual: None, ..old(self)@ }),
    {
        self.contextual_surface = None;
        self.downloads_modal_open = true;
    }

    /// Closes the downloads modal; whether it was open.
    pub fn close_downloads_modal(&mut self) -> (r: bool)
        ensures
            r == old(self)@.downloads_modal_open,
            final(self)@ == (UiView { downloads_modal_open: false, ..old(self)@ }),
    {
        if self.downloads_modal_open {
            self.downloads_modal_open = false;
            true
        } else {
            false
        }
    }

    /// Opens a context menu, replacing any menu.
    pub fn open_context_menu(&mut self, position: P, target: ContextMenuTarget)
        ensures
            final(self)@ == (UiView {
                contextual: Some(ContextualSurface::ContextMenu(ContextMenuState { position, target })),
                ..old(self)@
            }),
    {
        self.contextual_surface = Some(ContextualSurface::ContextMenu(ContextMenuState { position, target }));
    }

    /// Closes the context menu; whether one was open.
    pub fn close_context_menu(&mut self) -> (r: bool)
        ensures
            r == (old(self)@.contextual matches Some(ContextualSurface::ContextMenu(_))),
            final(self)@ == (if r { UiView { contextual: None, ..old(self)@ } } else { old(self)@ }),
    {
        match &self.contextual_surface {
            Some(ContextualSurface::ContextMenu(_)) => {
                self.contextual_surface = None;
                true
            },
            _ => false,
        }
    }

    /// Opens the app menu, or closes it when it is open; it replaces a
    /// context menu.
    pub fn toggle_app_menu(&mut self)
        ensures
            final(self)@ == (UiView {
                contextual: if old(self)@.contextual matches Some(ContextualSurface::AppMenu) {
                    None
                } else {
                    Some(ContextualSurface::AppMenu)
                },
                ..old(self)@
            }),
    {
        let open = match &self.contextual_surface {
            Some(ContextualSurface::AppMenu) => true,
            _ => false,
        };
        self.contextual_surface = if open { None } else { Some(ContextualSurface::AppMenu) };
    }

    /// Closes the app menu; whether it was open.
    pub fn close_app_menu(&mut self) -> (r: bool)
        ensures
            r == (old(self)@.contextual matches Some(ContextualSurface::AppMenu)),
            final(self)@ == (if r { UiView { contextual: None, ..old(self)@ } } else { old(self)@ }),
    {
        match &self.contextual_surface {
            Some(ContextualSurface::AppMenu) => {
                self.contextual_surface = None;
                true
            },
            _ => false,
        }
    }

    /// Starts analysing an import; every overlay closes.
    pub fn begin_import_review_analysis(&mut self)
        ensures
            final(self)@ == (UiView::<R, P> {
                primary: PrimaryOverlay::Nothing,
                downloads_modal_open: false,
                contextual: None,
                import_review: ImportReviewState::Analyzing,
            }),
    {
        self.dismiss_primary_overlay();
        self.import_review = ImportReviewState::Analyzing;
    }

    /// Starts committing the reviewed import.
    pub fn begin_import_review_loading(&mut self)
        ensures
            final(self)@ == match old(self)@.import_review {
                ImportReviewState::Reviewing(review) => UiView {
                    import_review: ImportReviewState::Committing(review),
                    ..old(self)@
                },
                _ => old(self)@,
            },
    {
        let mut state = ImportReviewState::Idle;
        std::mem::swap(&mut state, &mut self.import_review);
        self.import_review = match state {
            ImportReviewState::Reviewing(review) => ImportReviewState::Committing(review),
            other => other,
        };
    }

    /// Ends an analysis (back to no review) or a commit (back to reviewing).
    pub fn finish_import_review_loading(&mut self)
        ensures
            final(self)@ == match old(self)@.import_review {
                ImportReviewState::Analyzing => UiView { import_review: ImportReviewState::Idle, ..old(self)@ },
                ImportReviewState::Committing(review) => UiView {
                    import_review: ImportReviewState::Reviewing(review),
                    ..old(self)@
                },
                _ => old(self)@,
            },
    {
        let mut state = ImportReviewState::Idle;
        std::mem::swap(&mut state, &mut self.import_review);
        self.import_review = match state {
            ImportReviewState::Analyzing => ImportReviewState::Idle,
            ImportReviewState::Committing(review) => ImportReviewState::Reviewing(review),
            other => other,
        };
    }

    /// Puts an import under review.
    pub fn set_pending_import_review(&mut self, review: R)
        ensures
            final(self)@ == (UiView { import_review: ImportReviewState::Reviewing(review), ..old(self)@ }),
    {
        self.import_review = ImportReviewState::Reviewing(review);
    }

    /// Drops the import under review, if any.
    pub fn clear_pending_import_review(&mut self)
        ensures
            final(self)@ == (if old(self)@.import_review is Reviewing || old(self)@.import_review is Committing {
                UiView { import_review: ImportReviewState::Idle, ..old(self)@ }
            } else {
                old(self)@
            }),
    {
        match &self.import_review {
            ImportReviewState::Reviewing(_) | ImportReviewState::Committing(_) => {
                self.import_review = ImportReviewState::Idle;
            },
            _ => {},
        }
    }

    /// Takes the import under review, if any; no review remains.
    pub fn take_pending_import_review(&mut self) -> (r: Option<R>)
        ensures
            match old(self)@.import_review {
                ImportReviewState::Reviewing(review) | ImportReviewState::Committing(review) =>
                    r == Some(review) && final(self)@ == (UiView { import_review: ImportReviewState::Idle, ..old(self)@ }),
                _ => r is None && final(self)@ == old(self)@,
            },
    {
        let mut state = ImportReviewState::Idle;
        std::mem::swap(&mut state, &mut self.import_review);
        match state {
            ImportReviewState::Reviewing(review) | ImportReviewState::Committing(review) => Some(review),
            other => {
                self.import_review = other;
                None
            },
        }
    }

    /// Replaces the import under review, keeping whether it is being
    /// committed; whether there was one.
    pub fn replace_pending_import_review(&mut self, review: R) -> (r: bool)
        ensures
            match old(self)@.import_review {
                ImportReviewState::Reviewing(_) => r && final(self)@ == (UiView { import_review: ImportReviewState::Reviewing(review), ..old(self)@ }),
                ImportReviewState::Committing(_) => r && final(self)@ == (UiView { import_review: ImportReviewState::Committing(review), ..old(self)@ }),
                _ => !r && final(self)@ == old(self)@,
            },
    {
        match &self.import_review {
            ImportReviewState::Reviewing(_) => {
                self.import_review = ImportReviewState::Reviewing(review);
                true
            },
            ImportReviewState::Committing(_) => {
                self.import_review = ImportReviewState::Committing(review);
                true
            },
            _ => false,
        }
    }
}

impl<R: Clone, P: Clone> UiState<R, P> {
    /// A copy of the open context menu.
    pub fn context_menu(&self) -> (r: Option<ContextMenuState<P>>)
        ensures
            match self@.contextual {
                Some(ContextualSurface::ContextMenu(m)) => r matches Some(c) && c.target == m.target && cloned(m.position, c.position),
                _ => r is None,
            },
    {
        match &self.contextual_surface {
            Some(ContextualSurface::ContextMenu(state)) => Some(ContextMenuState {
                position: state.position.clone(),
                target: state.target.clone(),
            }),
            _ => None,
        }
    }

    /// A copy of the import under review.
    pub fn pending_import_review(&self) -> (r: Option<R>)
        ensures
            match self@.import_review {
                ImportReviewState::Reviewing(review) | ImportReviewState::Committing(review) => r matches Some(c) && cloned(review, c),
                _ => r is None,
            },
    {
        match &self.import_review {
            ImportReviewState::Reviewing(review) | ImportReviewState::Committing(review) => Some(review.clone()),
            _ => None,
        }
    }
}

} // verus!
