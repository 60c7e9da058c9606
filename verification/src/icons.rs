//! The application's icons and the bundled files that draw them.

use vstd::prelude::*;

verus! {

/// An icon of the interface.
#[derive(Clone, Copy, Debug, PartialEq, Eq, Hash, Structural)]
pub enum AppIcon {
    Search,
    Play,
    PlayCircle,
    Pause,
    SkipBack,
    SkipForward,
    Shuffle,
    RepeatAll,
    RepeatOne,
    Music,
    Menu,
    Heart,
    HeartFilled,
    Download,
    Plus,
    Trash,
    X,
}

/// The name of an icon's file in the bundled Lucide set.
pub open spec fn icon_file(icon: AppIcon) -> Seq<char> {
    match icon {
        AppIcon::Search => "search"@,
        AppIcon::Play => "play"@,
        AppIcon::PlayCircle => "play-circle"@,
        AppIcon::Pause => "pause"@,
        AppIcon::SkipBack => "skip-back"@,
        AppIcon::SkipForward => "skip-forward"@,
        AppIcon::Shuffle => "shuffle"@,
        AppIcon::RepeatAll => "repeat-2"@,
        AppIcon::RepeatOne => "repeat-1"@,
        AppIcon::Music => "music-4"@,
        AppIcon::Menu => "menu"@,
        AppIcon::Heart => "heart"@,
        AppIcon::HeartFilled => "heart-filled"@,
        AppIcon::Download => "download"@,
        AppIcon::Plus => "plus"@,
        AppIcon::Trash => "trash-2"@,
        AppIcon::X => "x"@,
    }
}

impl AppIcon {
    /// The asset path of the icon's SVG: `icons/lucide/<name>.svg`.
    pub fn asset_path(self) -> (r: &'static str)
        ensures
            r@ == "icons/lucide/"@ + icon_file(self) + ".svg"@,
    {
        let r = match self {
            AppIcon::Search => "icons/lucide/search.svg",
            AppIcon::Play => "icons/lucide/play.svg",
            AppIcon::PlayCircle => "icons/lucide/play-circle.svg",
            AppIcon::Pause => "icons/lucide/pause.svg",
            AppIcon::SkipBack => "icons/lucide/skip-back.svg",
            AppIcon::SkipForward => "icons/lucide/skip-forward.svg",
            AppIcon::Shuffle => "icons/lucide/shuffle.svg",
            AppIcon::RepeatAll => "icons/lucide/repeat-2.svg",
            AppIcon::RepeatOne => "icons/lucide/repeat-1.svg",
            AppIcon::Music => "icons/lucide/music-4.svg",
            AppIcon::Menu => "icons/lucide/menu.svg",
            AppIcon::Heart => "icons/lucide/heart.svg",
            AppIcon::HeartFilled => "icons/lucide/heart-filled.svg",
            AppIcon::Download => "icons/lucide/download.svg",
            AppIcon::Plus => "icons/lucide/plus.svg",
            AppIcon::Trash => "icons/lucide/trash-2.svg",
            AppIcon::X => "icons/lucide/x.svg",
        };
        proof {
            reveal_strlit("icons/lucide/");
            reveal_strlit(".svg");
            reveal_strlit("icons/lucide/search.svg");
            reveal_strlit("search");
            reveal_strlit("icons/lucide/play.svg");
            reveal_strlit("play");
            reveal_strlit("icons/lucide/play-circle.svg");
            reveal_strlit("play-circle");
            reveal_strlit("icons/lucide/pause.svg");
            reveal_strlit("pause");
            reveal_strlit("icons/lucide/skip-back.svg");
            reveal_strlit("skip-back");
            reveal_strlit("icons/lucide/skip-forward.svg");
            reveal_strlit("skip-forward");
            reveal_strlit("icons/lucide/shuffle.svg");
            reveal_strlit("shuffle");
            reveal_strlit("icons/lucide/repeat-2.svg");
            reveal_strlit("repeat-2");
            reveal_strlit("icons/lucide/repeat-1.svg");
            reveal_strlit("repeat-1");
            reveal_strlit("icons/lucide/music-4.svg");
            reveal_strlit("music-4");
            reveal_strlit("icons/lucide/menu.svg");
            reveal_strlit("menu");
            reveal_strlit("icons/lucide/heart.svg");
            reveal_strlit("heart");
            reveal_strlit("icons/lucide/heart-filled.svg");
            reveal_strlit("heart-filled");
            reveal_strlit("icons/lucide/download.svg");
            reveal_strlit("download");
            reveal_strlit("icons/lucide/plus.svg");
            reveal_strlit("plus");
            reveal_strlit("icons/lucide/trash-2.svg");
            reveal_strlit("trash-2");
            reveal_strlit("icons/lucide/x.svg");
            reveal_strlit("x");
            assert(r@ =~= "icons/lucide/"@ + icon_file(self) + ".svg"@);
        }
        r
    }
}

} // verus!
