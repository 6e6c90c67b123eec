//! The platforms that playlists are written for, and the conversion of ROM and core
//! paths from one platform to another.

use vstd::prelude::*;
use crate::paths::{file_stem, file_stem_of};
use crate::split::{append, push_str, replace, replace_each, replaced, swapped};
use crate::text::{
    chars_of, find_chars, first_sub, run_back, slice_of, string_of, trail_run, CharClass,
};

verus! {

/// A platform that RetroArch runs on.
#[derive(Debug, Clone, Copy, PartialEq, Eq, Hash, Structural)]
pub enum Platform {
    Windows,
    Linux,
    MacOS,
    Android,
    Switch,
    Raspberry,
    SteamDeck,
}

/// The name of a platform for display.
pub open spec fn display_name_of(p: Platform) -> Seq<char> {
    match p {
        Platform::Windows => "Windows (PC)"@,
        Platform::Linux => "Linux (PC)"@,
        Platform::MacOS => "macOS"@,
        Platform::Android => "Android"@,
        Platform::Switch => "Nintendo Switch"@,
        Platform::Raspberry => "Raspberry Pi"@,
        Platform::SteamDeck => "Steam Deck"@,
    }
}

/// The short name of a platform.
pub open spec fn short_name_of(p: Platform) -> Seq<char> {
    match p {
        Platform::Windows => "Windows"@,
        Platform::Linux => "Linux"@,
        Platform::MacOS => "macOS"@,
        Platform::Android => "Android"@,
        Platform::Switch => "Switch"@,
        Platform::Raspberry => "Raspberry"@,
        Platform::SteamDeck => "SteamDeck"@,
    }
}

/// The directory where a platform keeps its ROMs by default.
pub open spec fn roms_path_of(p: Platform) -> Seq<char> {
    match p {
        Platform::Windows => "D:/Games/ROMs"@,
        Platform::Linux => "/home/user/ROMs"@,
        Platform::MacOS => "/Users/user/ROMs"@,
        Platform::Android => "/storage/emulated/0/RetroArch/roms"@,
        Platform::Switch => "/retroarch/roms"@,
        Platform::Raspberry => "/home/pi/RetroPie/roms"@,
        Platform::SteamDeck => "/home/deck/ROMs"@,
    }
}

/// The directory where a platform keeps its cores by default.
pub open spec fn cores_path_of(p: Platform) -> Seq<char> {
    match p {
        Platform::Windows => "C:/RetroArch/cores"@,
        Platform::Linux => "/usr/lib/libretro"@,
        Platform::MacOS => "/Applications/RetroArch.app/Contents/Resources/cores"@,
        Platform::Android => "/data/data/com.retroarch/cores"@,
        Platform::Switch => "/switch/retroarch/cores"@,
        Platform::Raspberry => "/opt/retropie/libretrocores"@,
        Platform::SteamDeck => "/home/deck/.var/app/org.libretro.RetroArch/config/retroarch/cores"@,
    }
}

/// The ending of the file names of a platform's cores.
pub open spec fn core_extension_of(p: Platform) -> Seq<char> {
    match p {
        Platform::Windows => ".dll"@,
        Platform::Linux => ".so"@,
        Platform::Raspberry => ".so"@,
        Platform::SteamDeck => ".so"@,
        Platform::MacOS => ".dylib"@,
        Platform::Android => "_android.so"@,
        Platform::Switch => "_libnx.a"@,
    }
}

/// The character that separates the components of a path on a platform.
pub open spec fn separator_of(p: Platform) -> char {
    if p == Platform::Windows {
        '\\'
    } else {
        '/'
    }
}

impl Platform {
    /// The name of the platform for display.
    pub fn display_name(&self) -> (r: &'static str)
        ensures
            r@ == display_name_of(*self),
    {
        match self {
            Platform::Windows => "Windows (PC)",
            Platform::Linux => "Linux (PC)",
            Platform::MacOS => "macOS",
            Platform::Android => "Android",
            Platform::Switch => "Nintendo Switch",
            Platform::Raspberry => "Raspberry Pi",
            Platform::SteamDeck => "Steam Deck",
        }
    }

    /// The short name of the platform.
    pub fn short_name(&self) -> (r: &'static str)
        ensures
            r@ == short_name_of(*self),
    {
        match self {
            Platform::Windows => "Windows",
            Platform::Linux => "Linux",
            Platform::MacOS => "macOS",
            Platform::Android => "Android",
            Platform::Switch => "Switch",
            Platform::Raspberry => "Raspberry",
            Platform::SteamDeck => "SteamDeck",
        }
    }

    /// The short name of the platform, as an owned string.
    pub fn to_string(&self) -> (r: String)
        ensures
            r@ == short_name_of(*self),
    {
        self.short_name().to_owned()
    }

    /// The directory where the platform keeps its ROMs by default.
    pub fn default_roms_path(&self) -> (r: &'static str)
        ensures
            r@ == roms_path_of(*self),
    {
        match self {
            Platform::Windows => "D:/Games/ROMs",
            Platform::Linux => "/home/user/ROMs",
            Platform::MacOS => "/Users/user/ROMs",
            Platform::Android => "/storage/emulated/0/RetroArch/roms",
            Platform::Switch => "/retroarch/roms",
            Platform::Raspberry => "/home/pi/RetroPie/roms",
            Platform::SteamDeck => "/home/deck/ROMs",
        }
    }

    /// The directory where the platform keeps its cores by default.
    pub fn default_cores_path(&self) -> (r: &'static str)
        ensures
            r@ == cores_path_of(*self),
    {
        match self {
            Platform::Windows => "C:/RetroArch/cores",
            Platform::Linux => "/usr/lib/libretro",
            Platform::MacOS => "/Applications/RetroArch.app/Contents/Resources/cores",
            Platform::Android => "/data/data/com.retroarch/cores",
            Platform::Switch => "/switch/retroarch/cores",
            Platform::Raspberry => "/opt/retropie/libretrocores",
            Platform::SteamDeck => "/home/deck/.var/app/org.libretro.RetroArch/config/retroarch/cores",
        }
    }

    /// The ending of the file names of the platform's cores.
    pub fn core_extension(&self) -> (r: &'static str)
        ensures
            r@ == core_extension_of(*self),
    {
        match self {
            Platform::Windows => ".dll",
            Platform::Linux => ".so",
            Platform::Raspberry => ".so",
            Platform::SteamDeck => ".so",
            Platform::MacOS => ".dylib",
            Platform::Android => "_android.so",
            Platform::Switch => "_libnx.a",
        }
    }

    /// The character that separates the components of a path on the platform.
    pub fn path_separator(&self) -> (r: char)
        ensures
            r == separator_of(*self),
    {
        match self {
            Platform::Windows => '\\',
            _ => '/',
        }
    }

    /// Whether the platform is like Unix: every one but Windows.
    pub fn is_unix_like(&self) -> (r: bool)
        ensures
            r == (*self != Platform::Windows),
    {
        match self {
            Platform::Windows => false,
            _ => true,
        }
    }

    /// Whether the platform reads archives: all do.
    pub fn supports_archives(&self) -> (r: bool)
        ensures
            r,
    {
        true
    }

    /// Whether file names differ by case on the platform: not on Windows and macOS.
    pub fn has_case_sensitive_filesystem(&self) -> (r: bool)
        ensures
            r == (*self != Platform::Windows && *self != Platform::MacOS),
    {
        match self {
            Platform::Windows => false,
            Platform::MacOS => false,
            _ => true,
        }
    }
}

/// The directory names after which the path relative to the ROM directory starts,
/// in the order in which they are looked for.
pub open spec fn rom_dir_patterns() -> Seq<&'static str> {
    seq![
        "roms/", "ROMs/", "games/", "Games/", "/roms/", "/ROMs/", "/games/", "/Games/",
        "RetroPie/roms/", "RetroArch/roms/", "/retroarch/roms/",
        "/storage/emulated/0/RetroArch/roms/",
    ]
}

/// What follows the first occurrence of the first of `patterns` that occurs in `s`.
pub open spec fn after_pattern(s: Seq<char>, patterns: Seq<&'static str>) -> Option<Seq<char>>
    decreases patterns.len(),
{
    if patterns.len() == 0 {
        None
    } else {
        match first_sub(s, patterns[0]@) {
            Some(i) => Some(s.skip(i + patterns[0]@.len())),
            None => after_pattern(s, patterns.skip(1)),
        }
    }
}

/// The last two components of a path with `/` as separator: what follows its last
/// slash but one. The whole path where it has at most one slash.
pub open spec fn last_two(s: Seq<char>) -> Seq<char> {
    let tail = trail_run(s, CharClass::IsNot('/')) as int;
    if tail >= s.len() {
        s
    } else {
        let head = s.take(s.len() - tail - 1);
        let mid = trail_run(head, CharClass::IsNot('/')) as int;
        s.skip(head.len() - mid)
    }
}

/// The path of a ROM relative to its ROM directory: with slashes as separators,
/// what follows the first known directory name, else the last two components.
pub open spec fn relative_path_of(path: Seq<char>) -> Seq<char> {
    let normalized = replaced(path, "\\"@, "/"@);
    match after_pattern(normalized, rom_dir_patterns()) {
        Some(rest) => rest,
        None => last_two(normalized),
    }
}

/// The name of a core: the stem of its file name without the marks of libretro and
/// of a platform.
pub open spec fn core_name_of(path: Seq<char>) -> Seq<char> {
    replaced(
        replaced(replaced(file_stem_of(path), "_libretro"@, ""@), "_android"@, ""@),
        "_libnx"@,
        ""@,
    )
}

/// The path on `target` for a path relative to the ROM or the core directory.
pub open spec fn target_path_of(target: Platform, relative: Seq<char>, is_rom: bool) -> Seq<char> {
    (if is_rom {
        roms_path_of(target)
    } else {
        cores_path_of(target)
    }) + seq![separator_of(target)] + swapped(relative, seq!['/', '\\'], seq![separator_of(target)])
}

/// The ROM path `path`, written for `source`, as `target` needs it.
pub open spec fn converted_rom_path(source: Platform, target: Platform, path: Seq<char>) -> Seq<
    char,
> {
    if source == target {
        path
    } else {
        target_path_of(target, relative_path_of(path), true)
    }
}

/// The core path `path`, written for `source`, as `target` needs it.
pub open spec fn converted_core_path(source: Platform, target: Platform, path: Seq<char>) -> Seq<
    char,
> {
    if source == target {
        path
    } else {
        cores_path_of(target) + "/"@ + core_name_of(path) + core_extension_of(target)
    }
}

/// Converts paths from one platform to another.
#[derive(Debug, Clone, Copy)]
pub struct PlatformPathConverter {
    pub source: Platform,
    pub target: Platform,
}

impl PlatformPathConverter {
    /// A converter from `source` to `target`.
    pub fn new(source: Platform, target: Platform) -> (c: Self)
        ensures
            c.source == source,
            c.target == target,
    {
        PlatformPathConverter { source, target }
    }

    /// The ROM path `path` as the target platform needs it.
    pub fn convert_rom_path(&self, path: &str) -> (r: String)
        ensures
            r@ == converted_rom_path(self.source, self.target, path@),
    {
        if self.source == self.target {
            return path.to_owned();
        }
        let relative = self.extract_relative_path(path);
        self.build_target_path(relative.as_str(), true)
    }

    /// The core path `path` as the target platform needs it.
    pub fn convert_core_path(&self, path: &str) -> (r: String)
        ensures
            r@ == converted_core_path(self.source, self.target, path@),
    {
        if self.source == self.target {
            return path.to_owned();
        }
        let name = self.extract_core_name(path);
        let mut out = chars_of(self.target.default_cores_path());
        push_str(&mut out, "/");
        push_str(&mut out, name.as_str());
        push_str(&mut out, self.target.core_extension());
        string_of(out.as_slice())
    }

    /// The path of a ROM relative to its ROM directory.
    pub fn extract_relative_path(&self, path: &str) -> (r: String)
        ensures
            r@ == relative_path_of(path@),
    {
        let p = chars_of(path);
        let normalized = replace(p.as_slice(), chars_of("\\").as_slice(), chars_of("/").as_slice());
        let patterns = vec![
            "roms/", "ROMs/", "games/", "Games/", "/roms/", "/ROMs/", "/games/", "/Games/",
            "RetroPie/roms/", "RetroArch/roms/", "/retroarch/roms/",
            "/storage/emulated/0/RetroArch/roms/",
        ];
        assert(patterns@ =~= rom_dir_patterns());
        let mut i: usize = 0;
        assert(patterns@.skip(0) == patterns@);
        while i < patterns.len()
            invariant
                i <= patterns.len(),
                patterns@ == rom_dir_patterns(),
                normalized@ == replaced(path@, "\\"@, "/"@),
                after_pattern(normalized@, patterns@) == after_pattern(
                    normalized@,
                    patterns@.skip(i as int),
                ),
            decreases patterns.len() - i,
        {
            let pat = chars_of(patterns[i]);
            assert(patterns@.skip(i as int)[0] == patterns@[i as int]);
            match find_chars(normalized.as_slice(), pat.as_slice()) {
                Some(pos) => {
                    let n = normalized.len();
                    let rest = slice_of(normalized.as_slice(), pos + pat.len(), n);
                    assert(rest@ == normalized@.skip(pos + pat@.len()));
                    return string_of(rest.as_slice());
                },
                None => {},
            }
            assert(patterns@.skip(i as int).skip(1) == patterns@.skip(i + 1));
            i += 1;
        }
        let tail = run_back(normalized.as_slice(), normalized.len(), CharClass::IsNot('/'));
        assert(normalized@.take(normalized@.len() as int) == normalized@);
        if tail >= normalized.len() {
            return string_of(normalized.as_slice());
        }
        let head_len: usize = normalized.len() - tail - 1;
        let mid = run_back(normalized.as_slice(), head_len, CharClass::IsNot('/'));
        let rest = slice_of(normalized.as_slice(), head_len - mid, normalized.len());
        assert(rest@ == normalized@.skip(head_len - mid));
        string_of(rest.as_slice())
    }

    /// The name of the core at `path`.
    pub fn extract_core_name(&self, path: &str) -> (r: String)
        ensures
            r@ == core_name_of(path@),
    {
        let p = chars_of(path);
        let stem = file_stem(p.as_slice());
        let none: Vec<char> = Vec::new();
        assert(none@ =~= ""@) by {
            reveal_strlit("");
        }
        let a = replace(stem.as_slice(), chars_of("_libretro").as_slice(), none.as_slice());
        let b = replace(a.as_slice(), chars_of("_android").as_slice(), none.as_slice());
        let c = replace(b.as_slice(), chars_of("_libnx").as_slice(), none.as_slice());
        string_of(c.as_slice())
    }

    /// The path on the target platform for a path relative to the ROM or the core
    /// directory.
    pub fn build_target_path(&self, relative_path: &str, is_rom: bool) -> (r: String)
        ensures
            r@ == target_path_of(self.target, relative_path@, is_rom),
    {
        let base = if is_rom {
            self.target.default_roms_path()
        } else {
            self.target.default_cores_path()
        };
        let sep = self.target.path_separator();
        let seps = vec!['/', '\\'];
        let one = vec![sep];
        assert(seps@ =~= seq!['/', '\\']);
        assert(one@ =~= seq![sep]);
        let rel = chars_of(relative_path);
        let converted = replace_each(rel.as_slice(), seps.as_slice(), one.as_slice());
        let mut out = chars_of(base);
        out.push(sep);
        append(&mut out, converted.as_slice());
        assert(out@ =~= base@ + seq![sep] + converted@);
        string_of(out.as_slice())
    }
}

} // verus!
