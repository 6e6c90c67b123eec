//! Converting playlists from the platform they were written for to another one.

use vstd::prelude::*;
use crate::classifier::{holds_any, mentions};
use crate::dat_parser::clone_opt_string;
use crate::error::ConverterError;
use crate::paths::{file_stem, file_stem_of};
use crate::platform::{
    converted_core_path, converted_rom_path, short_name_of, Platform, PlatformPathConverter,
};
use crate::playlist::{item_rows, ItemRow, Playlist, PlaylistItem, PlaylistRow};
use crate::split::{has_char, push_str};
use crate::text::{
    chars_of, contains, contains_sub, ends_with, has_prefix, has_suffix, lower_chars, lowercase,
    starts_with, string_of,
};

verus! {

/// The platform that a ROM path was written for, from the path and its lower-case
/// form. The first sign in the order of the list decides.
pub open spec fn platform_of_path(path: Seq<char>, lower: Seq<char>) -> Option<Platform> {
    if path.contains('\\') || has_prefix(lower, "c:"@) || has_prefix(lower, "d:"@) {
        Some(Platform::Windows)
    } else if mentions(lower, seq!["/switch/", "atmosphere"]) {
        Some(Platform::Switch)
    } else if mentions(lower, seq!["/storage/emulated/", "/android_asset/"]) {
        Some(Platform::Android)
    } else if mentions(lower, seq!["/home/pi/", "retropie"]) {
        Some(Platform::Raspberry)
    } else if mentions(lower, seq!["/home/deck/", "steamdeck"]) {
        Some(Platform::SteamDeck)
    } else if mentions(lower, seq!["/users/", ".app/contents/"]) {
        Some(Platform::MacOS)
    } else if path.len() > 0 && path[0] == '/' {
        Some(Platform::Linux)
    } else {
        None
    }
}

/// The platform that a core path was written for, from its lower-case form.
pub open spec fn platform_of_core(lower: Seq<char>) -> Option<Platform> {
    if has_suffix(lower, ".dll"@) {
        Some(Platform::Windows)
    } else if has_suffix(lower, ".dylib"@) {
        Some(Platform::MacOS)
    } else if contains_sub(lower, "_android.so"@) {
        Some(Platform::Android)
    } else if contains_sub(lower, "_libnx.a"@) {
        Some(Platform::Switch)
    } else if has_suffix(lower, ".so"@) {
        if mentions(lower, seq!["/home/pi/", "retropie"]) {
            Some(Platform::Raspberry)
        } else if contains_sub(lower, "/home/deck/"@) {
            Some(Platform::SteamDeck)
        } else {
            Some(Platform::Linux)
        }
    } else {
        None
    }
}

/// The platform that one playlist entry tells: by its ROM path, else by its core
/// path.
pub open spec fn platform_of_item(item: ItemRow) -> Option<Platform> {
    match platform_of_path(item.path, lowercase(item.path)) {
        Some(p) => Some(p),
        None => match item.core_path {
            Some(c) => platform_of_core(lowercase(c)),
            None => None,
        },
    }
}

/// The platform that the first telling entry of a playlist tells.
pub open spec fn platform_of_items(items: Seq<ItemRow>) -> Option<Platform>
    decreases items.len(),
{
    if items.len() == 0 {
        None
    } else {
        match platform_of_item(items[0]) {
            Some(p) => Some(p),
            None => platform_of_items(items.skip(1)),
        }
    }
}

/// A playlist entry converted from `source` to `target`.
pub open spec fn converted_item(source: Platform, target: Platform, item: ItemRow) -> ItemRow {
    ItemRow {
        path: converted_rom_path(source, target, item.path),
        core_path: match item.core_path {
            Some(c) => Some(converted_core_path(source, target, c)),
            None => None,
        },
        ..item
    }
}

/// A playlist converted from `source` to `target`: the default core path, and the
/// ROM path and core path of every entry.
pub open spec fn converted_playlist(source: Platform, target: Platform, p: PlaylistRow) -> PlaylistRow {
    if source == target {
        p
    } else {
        PlaylistRow {
            default_core_path: match p.default_core_path {
                Some(c) => Some(converted_core_path(source, target, c)),
                None => None,
            },
            items: Seq::new(p.items.len(), |i: int| converted_item(source, target, p.items[i])),
            ..p
        }
    }
}

/// The file name of a converted playlist: the stem of the input, the short name of
/// the target in brackets, and the extension.
pub open spec fn converted_name(input_path: Seq<char>, target: Platform) -> Seq<char> {
    file_stem_of(input_path) + " ["@ + short_name_of(target) + "].lpl"@
}

/// Converts playlists between platforms.
#[derive(Debug, Clone, Copy)]
pub struct PlaylistConverter {
    pub validate_paths: bool,
}

impl PlaylistConverter {
    /// A converter that does not validate paths.
    pub fn new() -> (c: Self)
        ensures
            !c.validate_paths,
    {
        PlaylistConverter { validate_paths: false }
    }

    /// The same converter, validating paths or not.
    pub fn with_path_validation(self, validate: bool) -> (c: Self)
        ensures
            c.validate_paths == validate,
    {
        PlaylistConverter { validate_paths: validate }
    }

    /// The platform that the ROM path `path` was written for.
    pub fn detect_platform_from_path(&self, path: &str) -> (r: Option<Platform>)
        ensures
            r == platform_of_path(path@, lowercase(path@)),
    {
        let p = chars_of(path);
        let lower = lower_chars(p.as_slice());
        let l = lower.as_slice();
        if has_char(p.as_slice(), '\\') || starts_with(l, "c:") || starts_with(l, "d:") {
            Some(Platform::Windows)
        } else if holds_any(l, vec!["/switch/", "atmosphere"]) {
            Some(Platform::Switch)
        } else if holds_any(l, vec!["/storage/emulated/", "/android_asset/"]) {
            Some(Platform::Android)
        } else if holds_any(l, vec!["/home/pi/", "retropie"]) {
            Some(Platform::Raspberry)
        } else if holds_any(l, vec!["/home/deck/", "steamdeck"]) {
            Some(Platform::SteamDeck)
        } else if holds_any(l, vec!["/users/", ".app/contents/"]) {
            Some(Platform::MacOS)
        } else if p.len() > 0 && p[0] == '/' {
            Some(Platform::Linux)
        } else {
            None
        }
    }

    /// The platform that the core path `core_path` was written for.
    pub fn detect_platform_from_core_path(&self, core_path: &str) -> (r: Option<Platform>)
        ensures
            r == platform_of_core(lowercase(core_path@)),
    {
        let lower = lower_chars(chars_of(core_path).as_slice());
        let l = lower.as_slice();
        if ends_with(l, ".dll") {
            Some(Platform::Windows)
        } else if ends_with(l, ".dylib") {
            Some(Platform::MacOS)
        } else if contains(l, "_android.so") {
            Some(Platform::Android)
        } else if contains(l, "_libnx.a") {
            Some(Platform::Switch)
        } else if ends_with(l, ".so") {
            if holds_any(l, vec!["/home/pi/", "retropie"]) {
                Some(Platform::Raspberry)
            } else if contains(l, "/home/deck/") {
                Some(Platform::SteamDeck)
            } else {
                Some(Platform::Linux)
            }
        } else {
            None
        }
    }

    /// The platform that a playlist was written for: what its first telling entry
    /// tells. An error where no entry tells.
    pub fn detect_platform(&self, playlist: &Playlist) -> (r: Result<Platform, ConverterError>)
        ensures
            match platform_of_items(playlist@.items) {
                Some(p) => r == Ok::<Platform, ConverterError>(p),
                None => r == Err::<Platform, ConverterError>(
                    ConverterError::SourcePlatformNotDetected,
                ),
            },
    {
        let ghost items = playlist@.items;
        let mut i: usize = 0;
        assert(items.skip(0) == items);
        while i < playlist.items.len()
            invariant
                i <= playlist.items.len(),
                items == item_rows(playlist.items@),
                platform_of_items(items) == platform_of_items(items.skip(i as int)),
            decreases playlist.items.len() - i,
        {
            let item = &playlist.items[i];
            assert(items.skip(i as int)[0] == item@);
            match self.detect_platform_from_path(item.path.as_str()) {
                Some(p) => {
                    return Ok(p);
                },
                None => {},
            }
            match &item.core_path {
                Some(c) => match self.detect_platform_from_core_path(c.as_str()) {
                    Some(p) => {
                        return Ok(p);
                    },
                    None => {},
                },
                None => {},
            }
            assert(items.skip(i as int).skip(1) == items.skip(i + 1));
            i += 1;
        }
        Err(ConverterError::SourcePlatformNotDetected)
    }

    /// Whether a converted entry is sound: its path is not empty.
    pub fn validate_converted_paths(&self, item: &PlaylistItem, _target: Platform) -> (r: Result<
        (),
        ConverterError,
    >)
        ensures
            r is Ok <==> item@.path.len() > 0,
            r matches Err(e) ==> (e matches ConverterError::PathConversionFailed { original, target }
                && original@ == "empty"@ && target@ == item@.path),
    {
        if item.path.as_str().unicode_len() == 0 {
            Err(
                ConverterError::PathConversionFailed {
                    original: "empty".to_owned(),
                    target: item.path.clone(),
                },
            )
        } else {
            Ok(())
        }
    }

    /// The playlist `playlist`, written for `source`, as `target` needs it.
    pub fn convert_playlist(&self, playlist: &Playlist, source: Platform, target: Platform) -> (r:
        Result<Playlist, ConverterError>)
        ensures
            r matches Ok(p) && p@ == converted_playlist(source, target, playlist@),
    {
        if source == target {
            return Ok(playlist.clone());
        }
        let converter = PlatformPathConverter::new(source, target);
        let mut items: Vec<PlaylistItem> = Vec::new();
        let ghost want = converted_playlist(source, target, playlist@).items;
        let mut i: usize = 0;
        while i < playlist.items.len()
            invariant
                i <= playlist.items.len(),
                source != target,
                converter.source == source,
                converter.target == target,
                want == converted_playlist(source, target, playlist@).items,
                item_rows(items@) == want.take(i as int),
            decreases playlist.items.len() - i,
        {
            let ghost before = item_rows(items@);
            let old = &playlist.items[i];
            assert(item_rows(playlist.items@)[i as int] == old@);
            let item = PlaylistItem {
                path: converter.convert_rom_path(old.path.as_str()),
                label: old.label.clone(),
                core_path: match &old.core_path {
                    Some(c) => Some(converter.convert_core_path(c.as_str())),
                    None => None,
                },
                core_name: clone_opt_string(&old.core_name),
                crc32: clone_opt_string(&old.crc32),
                db_name: clone_opt_string(&old.db_name),
            };
            assert(item@ == converted_item(source, target, old@));
            items.push(item);
            assert(item_rows(items@) =~= before.push(item@));
            assert(want.take(i + 1) =~= before.push(item@));
            i += 1;
        }
        assert(want.take(want.len() as int) == want);
        Ok(
            Playlist {
                version: playlist.version.clone(),
                default_core_path: match &playlist.default_core_path {
                    Some(c) => Some(converter.convert_core_path(c.as_str())),
                    None => None,
                },
                default_core_name: clone_opt_string(&playlist.default_core_name),
                label_display_mode: playlist.label_display_mode,
                right_thumbnail_mode: playlist.right_thumbnail_mode,
                left_thumbnail_mode: playlist.left_thumbnail_mode,
                sort_mode: playlist.sort_mode,
                items: items,
            },
        )
    }

    /// The file name under which the conversion of the playlist at `input_path` to
    /// `target` is saved.
    pub fn converted_file_name(&self, input_path: &str, target: Platform) -> (r: String)
        ensures
            r@ == converted_name(input_path@, target),
    {
        let mut out = file_stem(chars_of(input_path).as_slice());
        push_str(&mut out, " [");
        push_str(&mut out, target.short_name());
        push_str(&mut out, "].lpl");
        string_of(out.as_slice())
    }
}

impl Default for PlaylistConverter {
    fn default() -> (c: Self)
        ensures
            !c.validate_paths,
    {
        PlaylistConverter::new()
    }
}

/// Which playlists of a batch were converted and which were not.
#[derive(Debug)]
pub struct ConversionReport {
    pub successful_conversions: Vec<String>,
    pub failed_conversions: Vec<(String, String)>,
}

impl ConversionReport {
    /// An empty report.
    pub fn new() -> (r: Self)
        ensures
            r.successful_conversions@.len() == 0,
            r.failed_conversions@.len() == 0,
    {
        ConversionReport { successful_conversions: Vec::new(), failed_conversions: Vec::new() }
    }

    /// How many playlists were processed, as far as the machine can count.
    pub fn total_processed(&self) -> (n: usize)
        ensures
            n == if self.successful_conversions@.len() + self.failed_conversions@.len()
                > usize::MAX {
                usize::MAX as int
            } else {
                (self.successful_conversions@.len() + self.failed_conversions@.len()) as int
            },
    {
        let a = self.successful_conversions.len();
        let b = self.failed_conversions.len();
        if a > usize::MAX - b {
            usize::MAX
        } else {
            a + b
        }
    }
}

impl Default for ConversionReport {
    fn default() -> (r: Self)
        ensures
            r.successful_conversions@.len() == 0,
            r.failed_conversions@.len() == 0,
    {
        ConversionReport::new()
    }
}

} // verus!
