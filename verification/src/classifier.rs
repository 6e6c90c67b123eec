//! The system classifier: from a file's extension and path to the platform it most
//! likely belongs to. The rules are tried in the order in which they stand.

use vstd::prelude::*;
use crate::text::{contains, contains_sub, has_suffix, is_text, matches_at, slice_of, chars_of};

verus! {

pub const NES: &'static str = "Nintendo - Nintendo Entertainment System";

pub const SNES: &'static str = "Nintendo - Super Nintendo Entertainment System";

pub const N64: &'static str = "Nintendo - Nintendo 64";

pub const GAMECUBE: &'static str = "Nintendo - GameCube";

pub const GAME_BOY: &'static str = "Nintendo - Game Boy";

pub const GAME_BOY_COLOR: &'static str = "Nintendo - Game Boy Color";

pub const GAME_BOY_ADVANCE: &'static str = "Nintendo - Game Boy Advance";

pub const NINTENDO_DS: &'static str = "Nintendo - Nintendo DS";

pub const NINTENDO_3DS: &'static str = "Nintendo - Nintendo 3DS";

pub const MASTER_SYSTEM: &'static str = "Sega - Master System - Mark III";

pub const GENESIS: &'static str = "Sega - Mega Drive - Genesis";

pub const SEGA_32X: &'static str = "Sega - 32X";

pub const GAME_GEAR: &'static str = "Sega - Game Gear";

pub const DREAMCAST: &'static str = "Sega - Dreamcast";

pub const PLAYSTATION: &'static str = "Sony - PlayStation";

pub const PLAYSTATION_2: &'static str = "Sony - PlayStation 2";

pub const PSP: &'static str = "Sony - PlayStation Portable";

pub const ATARI_2600: &'static str = "Atari - 2600";

pub const ATARI_7800: &'static str = "Atari - 7800";

pub const PC_ENGINE: &'static str = "NEC - PC Engine - TurboGrafx 16";

pub const WONDERSWAN: &'static str = "Bandai - WonderSwan";

pub const NEO_GEO: &'static str = "SNK - Neo Geo";

pub const MAME: &'static str = "MAME";

/// The longest base name, in characters, that still reads as the short name of an
/// arcade ROM set.
pub const ARCADE_NAME_MAX: usize = 12;

/// Whether `e` is one of `names`.
pub open spec fn named(e: Seq<char>, names: Seq<&'static str>) -> bool {
    exists|i: int| 0 <= i < names.len() && (#[trigger] names[i])@ == e
}

/// Whether `e` is one of `names`.
pub fn is_named(e: &[char], names: &Vec<&'static str>) -> (r: bool)
    ensures
        r == named(e@, names@),
{
    let mut i: usize = 0;
    while i < names.len()
        invariant
            i <= names.len(),
            forall|j: int| 0 <= j < i ==> (#[trigger] names@[j])@ != e@,
        decreases names.len() - i,
    {
        if is_text(e, names[i]) {
            return true;
        }
        i += 1;
    }
    false
}

/// Whether `p` holds one of `words`.
pub open spec fn mentions(p: Seq<char>, words: Seq<&'static str>) -> bool {
    exists|i: int| 0 <= i < words.len() && contains_sub(p, (#[trigger] words[i])@)
}

/// Whether `p` holds one of `words`.
pub fn has_any(p: &[char], words: &Vec<&'static str>) -> (r: bool)
    ensures
        r == mentions(p@, words@),
{
    let mut i: usize = 0;
    while i < words.len()
        invariant
            i <= words.len(),
            forall|j: int| 0 <= j < i ==> !contains_sub(p@, (#[trigger] words@[j])@),
        decreases words.len() - i,
    {
        if contains(p, words[i]) {
            return true;
        }
        i += 1;
    }
    false
}

/// The extensions of ROM images that are no containers.
pub open spec fn rom_extensions() -> Seq<&'static str> {
    seq![
        "nes", "fds", "unf", "unif", "smc", "sfc", "swc", "fig", "z64", "n64", "v64", "gcm", "iso",
        "gcz", "rvz", "gb", "gbc", "gba", "nds", "dsi", "ids", "3ds", "cci", "cxi", "sms", "sg",
        "md", "smd", "gen", "bin", "32x", "gg", "cdi", "gdi", "chd", "pbp", "cue", "img", "mdf",
        "nrg", "cso", "a26", "a78", "pce", "sgx", "ws", "wsc", "neo",
    ]
}

/// The extensions of containers.
pub open spec fn archive_extensions() -> Seq<&'static str> {
    seq!["zip", "7z", "rar"]
}

/// Whether `ext`, in lower case, is the extension of a ROM image that is no
/// container.
pub open spec fn is_rom_ext(ext: Seq<char>) -> bool {
    named(ext, rom_extensions())
}

/// Whether `ext`, in lower case, is the extension of a container.
pub open spec fn is_archive_ext(ext: Seq<char>) -> bool {
    named(ext, archive_extensions())
}

/// Whether `extension`, in lower case, is the extension of a ROM image that is no
/// container.
pub fn is_rom_extension(extension: &str) -> (r: bool)
    ensures
        r == is_rom_ext(extension@),
{
    let e = chars_of(extension);
    rom_ext(e.as_slice())
}

/// Whether `ext` is the extension of a ROM image that is no container.
pub fn rom_ext(ext: &[char]) -> (r: bool)
    ensures
        r == is_rom_ext(ext@),
{
    let names = vec![
        "nes", "fds", "unf", "unif", "smc", "sfc", "swc", "fig", "z64", "n64", "v64", "gcm", "iso",
        "gcz", "rvz", "gb", "gbc", "gba", "nds", "dsi", "ids", "3ds", "cci", "cxi", "sms", "sg",
        "md", "smd", "gen", "bin", "32x", "gg", "cdi", "gdi", "chd", "pbp", "cue", "img", "mdf",
        "nrg", "cso", "a26", "a78", "pce", "sgx", "ws", "wsc", "neo",
    ];
    assert(names@ =~= rom_extensions());
    is_named(ext, &names)
}

/// Whether `ext` is the extension of a container.
pub fn archive_ext(ext: &[char]) -> (r: bool)
    ensures
        r == is_archive_ext(ext@),
{
    let names = vec!["zip", "7z", "rar"];
    assert(names@ =~= archive_extensions());
    is_named(ext, &names)
}

/// A hint that a path may give for an extension shared by several systems.
#[derive(Clone, Copy, Debug, PartialEq, Eq, Structural)]
pub enum PathHint {
    GameCube,
    Genesis,
    Dreamcast,
    PlayStation,
    PlayStation2,
    Psp,
    Atari2600,
}

/// The words by which a path, in lower case, gives a hint.
pub open spec fn hint_words(h: PathHint) -> Seq<&'static str> {
    match h {
        PathHint::GameCube => seq!["gamecube", "gc", "ngc"],
        PathHint::Genesis => seq!["genesis", "megadrive", "md"],
        PathHint::Dreamcast => seq!["dreamcast", "dc"],
        PathHint::PlayStation => seq!["playstation", "psx", "ps1"],
        PathHint::PlayStation2 => seq!["ps2", "playstation2"],
        PathHint::Psp => seq!["psp", "playstation portable"],
        PathHint::Atari2600 => seq!["2600", "atari"],
    }
}

/// Whether the path `p`, in lower case, gives the hint `h`.
pub open spec fn hinted(p: Seq<char>, h: PathHint) -> bool {
    mentions(p, hint_words(h))
}

/// Whether the path `p`, in lower case, gives the hint `h`.
pub fn gives_hint(p: &[char], h: PathHint) -> (r: bool)
    ensures
        r == hinted(p@, h),
{
    let words = match h {
        PathHint::GameCube => vec!["gamecube", "gc", "ngc"],
        PathHint::Genesis => vec!["genesis", "megadrive", "md"],
        PathHint::Dreamcast => vec!["dreamcast", "dc"],
        PathHint::PlayStation => vec!["playstation", "psx", "ps1"],
        PathHint::PlayStation2 => vec!["ps2", "playstation2"],
        PathHint::Psp => vec!["psp", "playstation portable"],
        PathHint::Atari2600 => vec!["2600", "atari"],
    };
    assert(words@ =~= hint_words(h));
    has_any(p, &words)
}

/// Whether the path `p`, in lower case, lies in a directory of arcade ROM sets.
pub open spec fn in_arcade_dir(p: Seq<char>) -> bool {
    mentions(p, seq!["mame", "arcade"]) || (contains_sub(p, "/roms/"@) && mentions(
        p,
        seq!["cps", "neogeo", "fbneo", "fba"],
    ))
}

/// Whether the path `p` lies in a directory of arcade ROM sets.
pub fn arcade_dir(p: &[char]) -> (r: bool)
    ensures
        r == in_arcade_dir(p@),
{
    let a = vec!["mame", "arcade"];
    let b = vec!["cps", "neogeo", "fbneo", "fba"];
    assert(a@ =~= seq!["mame", "arcade"]);
    assert(b@ =~= seq!["cps", "neogeo", "fbneo", "fba"]);
    has_any(p, &a) || (contains(p, "/roms/") && has_any(p, &b))
}

/// `s` without every copy of `suffix` at its end.
pub open spec fn without_suffix(s: Seq<char>, suffix: Seq<char>) -> Seq<char>
    decreases s.len(),
{
    if suffix.len() > 0 && has_suffix(s, suffix) {
        without_suffix(s.take(s.len() - suffix.len()), suffix)
    } else {
        s
    }
}

/// `s` without every copy of `suffix` at its end.
pub fn trim_suffix(s: &[char], suffix: &[char]) -> (r: Vec<char>)
    ensures
        r@ == without_suffix(s@, suffix@),
{
    let mut end: usize = s.len();
    assert(s@.take(end as int) == s@);
    while suffix.len() > 0 && end >= suffix.len() && matches_at(
        slice_of(s, 0, end).as_slice(),
        suffix,
        end - suffix.len(),
    )
        invariant
            end <= s.len(),
            without_suffix(s@, suffix@) == without_suffix(s@.take(end as int), suffix@),
        decreases end,
    {
        assert(s@.take(end as int).take(end - suffix@.len()) == s@.take(end - suffix@.len()));
        assert(s@.subrange(0, end as int) == s@.take(end as int));
        end = end - suffix.len();
    }
    assert(s@.subrange(0, end as int) == s@.take(end as int));
    slice_of(s, 0, end)
}

/// Whether the base name `b` of an archive, in lower case, reads as the short name
/// of an arcade ROM set: short, and free of the marks of console ROM names.
pub open spec fn arcade_named(b: Seq<char>) -> bool {
    b.len() <= ARCADE_NAME_MAX && !mentions(b, seq!["(", "[", "rev", "v1.", "disc", "track"])
}

/// Whether the base name `b` of an archive, in lower case, follows the naming of
/// console ROMs: a region tag, a dump tag, a revision or a version.
pub open spec fn console_named(b: Seq<char>) -> bool {
    mentions(b, seq!["(usa)", "(europe)", "(japan)", "(world)", "[!]", "[a]", "[h", "rev ", "version "])
}

/// The system that the directories of the path `p`, in lower case, name outright.
pub open spec fn dir_label(p: Seq<char>) -> Option<Seq<char>> {
    if mentions(p, seq!["mame", "arcade"]) {
        None
    } else if mentions(p, seq!["/n64/", "\\n64\\", "/nintendo64/", "\\nintendo64\\", "/nintendo_64/", "\\nintendo_64\\"]) {
        Some(N64@)
    } else if mentions(p, seq!["/nes/", "\\nes\\", "/famicom/", "\\famicom\\"]) {
        Some(NES@)
    } else if mentions(p, seq!["/snes/", "\\snes\\", "/super_nintendo/", "\\super_nintendo\\"]) {
        Some(SNES@)
    } else if mentions(p, seq!["/gba/", "\\gba\\", "/game_boy_advance/", "\\game_boy_advance\\"]) {
        Some(GAME_BOY_ADVANCE@)
    } else if mentions(p, seq!["/genesis/", "\\genesis\\", "/megadrive/", "\\megadrive\\", "/mega_drive/", "\\mega_drive\\"]) {
        Some(GENESIS@)
    } else {
        None
    }
}

/// The system that words in the path `p`, in lower case, suggest.
pub open spec fn loose_dir_label(p: Seq<char>) -> Option<Seq<char>> {
    if mentions(p, seq!["nes", "famicom"]) {
        Some(NES@)
    } else if mentions(p, seq!["snes", "super nintendo"]) {
        Some(SNES@)
    } else if mentions(p, seq!["n64", "nintendo 64"]) {
        Some(N64@)
    } else if mentions(p, seq!["gba", "game boy advance"]) {
        Some(GAME_BOY_ADVANCE@)
    } else if mentions(p, seq!["genesis", "megadrive"]) {
        Some(GENESIS@)
    } else if mentions(p, seq!["mame", "arcade"]) {
        Some(MAME@)
    } else {
        None
    }
}

/// The system of a container with extension `ext`, path `p` and file name `f`, all
/// in lower case: arcade, unless the base name follows the naming of console ROMs
/// and does not read as an arcade short name; then what the directories name
/// outright, if anything.
pub open spec fn archive_label(ext: Seq<char>, p: Seq<char>, f: Seq<char>) -> Option<Seq<char>> {
    let base = without_suffix(f, "."@ + ext);
    if in_arcade_dir(p) || arcade_named(base) || !console_named(base) {
        Some(MAME@)
    } else {
        dir_label(p)
    }
}

/// The system of a file with extension `ext`, path `p` and file name `f`, all in
/// lower case. The first rule that applies decides.
pub open spec fn system_label(ext: Seq<char>, p: Seq<char>, f: Seq<char>) -> Option<Seq<char>> {
    if named(ext, seq!["nes", "fds", "unf", "unif"]) {
        Some(NES@)
    } else if named(ext, seq!["smc", "sfc", "swc", "fig"]) {
        Some(SNES@)
    } else if named(ext, seq!["z64", "n64", "v64"]) {
        Some(N64@)
    } else if named(ext, seq!["gcm", "iso", "gcz", "rvz"]) && hinted(p, PathHint::GameCube) {
        Some(GAMECUBE@)
    } else if ext == "gb"@ {
        Some(GAME_BOY@)
    } else if ext == "gbc"@ {
        Some(GAME_BOY_COLOR@)
    } else if ext == "gba"@ {
        Some(GAME_BOY_ADVANCE@)
    } else if named(ext, seq!["nds", "dsi", "ids"]) {
        Some(NINTENDO_DS@)
    } else if named(ext, seq!["3ds", "cci", "cxi"]) {
        Some(NINTENDO_3DS@)
    } else if named(ext, seq!["sms", "sg"]) {
        Some(MASTER_SYSTEM@)
    } else if named(ext, seq!["md", "smd", "gen", "bin"]) && hinted(p, PathHint::Genesis) {
        Some(GENESIS@)
    } else if ext == "32x"@ {
        Some(SEGA_32X@)
    } else if ext == "gg"@ {
        Some(GAME_GEAR@)
    } else if named(ext, seq!["cdi", "gdi", "chd"]) && hinted(p, PathHint::Dreamcast) {
        Some(DREAMCAST@)
    } else if named(ext, seq!["iso", "cue", "bin", "img", "pbp", "chd"]) && hinted(
        p,
        PathHint::PlayStation,
    ) {
        Some(PLAYSTATION@)
    } else if named(ext, seq!["iso", "bin", "mdf", "nrg"]) && hinted(p, PathHint::PlayStation2) {
        Some(PLAYSTATION_2@)
    } else if named(ext, seq!["iso", "cso", "pbp"]) && hinted(p, PathHint::Psp) {
        Some(PSP@)
    } else if named(ext, seq!["a26", "bin"]) && hinted(p, PathHint::Atari2600) {
        Some(ATARI_2600@)
    } else if ext == "a78"@ {
        Some(ATARI_7800@)
    } else if named(ext, seq!["pce", "sgx"]) {
        Some(PC_ENGINE@)
    } else if named(ext, seq!["ws", "wsc"]) {
        Some(WONDERSWAN@)
    } else if ext == "neo"@ {
        Some(NEO_GEO@)
    } else if is_archive_ext(ext) {
        archive_label(ext, p, f)
    } else {
        None
    }
}

/// The text of an optional label.
pub open spec fn label_text(o: Option<&'static str>) -> Option<Seq<char>> {
    match o {
        Some(s) => Some(s@),
        None => None,
    }
}

/// Whether `e` is one of up to six names.
pub fn among(e: &[char], names: Vec<&'static str>) -> (r: bool)
    ensures
        r == named(e@, names@),
{
    is_named(e, &names)
}

/// Whether `p` holds one of some words.
pub fn holds_any(p: &[char], words: Vec<&'static str>) -> (r: bool)
    ensures
        r == mentions(p@, words@),
{
    has_any(p, &words)
}

/// The system that the directories of the path `p`, in lower case, name outright.
pub fn directory_system(p: &[char]) -> (r: Option<&'static str>)
    ensures
        label_text(r) == dir_label(p@),
{
    if holds_any(p, vec!["mame", "arcade"]) {
        None
    } else if holds_any(p, vec!["/n64/", "\\n64\\", "/nintendo64/", "\\nintendo64\\", "/nintendo_64/", "\\nintendo_64\\"]) {
        Some(N64)
    } else if holds_any(p, vec!["/nes/", "\\nes\\", "/famicom/", "\\famicom\\"]) {
        Some(NES)
    } else if holds_any(p, vec!["/snes/", "\\snes\\", "/super_nintendo/", "\\super_nintendo\\"]) {
        Some(SNES)
    } else if holds_any(p, vec!["/gba/", "\\gba\\", "/game_boy_advance/", "\\game_boy_advance\\"]) {
        Some(GAME_BOY_ADVANCE)
    } else if holds_any(p, vec!["/genesis/", "\\genesis\\", "/megadrive/", "\\megadrive\\", "/mega_drive/", "\\mega_drive\\"]) {
        Some(GENESIS)
    } else {
        None
    }
}

/// The system that words in the path `p`, in lower case, suggest.
pub fn loose_directory_system(p: &[char]) -> (r: Option<&'static str>)
    ensures
        label_text(r) == loose_dir_label(p@),
{
    if holds_any(p, vec!["nes", "famicom"]) {
        Some(NES)
    } else if holds_any(p, vec!["snes", "super nintendo"]) {
        Some(SNES)
    } else if holds_any(p, vec!["n64", "nintendo 64"]) {
        Some(N64)
    } else if holds_any(p, vec!["gba", "game boy advance"]) {
        Some(GAME_BOY_ADVANCE)
    } else if holds_any(p, vec!["genesis", "megadrive"]) {
        Some(GENESIS)
    } else if holds_any(p, vec!["mame", "arcade"]) {
        Some(MAME)
    } else {
        None
    }
}

/// The system of a container.
pub fn archive_system(ext: &[char], p: &[char], f: &[char]) -> (r: Option<&'static str>)
    ensures
        label_text(r) == archive_label(ext@, p@, f@),
{
    let mut suffix = chars_of(".");
    crate::split::append(&mut suffix, ext);
    let base = trim_suffix(f, suffix.as_slice());
    let short = base.len() <= ARCADE_NAME_MAX && !holds_any(
        base.as_slice(),
        vec!["(", "[", "rev", "v1.", "disc", "track"],
    );
    let console = holds_any(
        base.as_slice(),
        vec!["(usa)", "(europe)", "(japan)", "(world)", "[!]", "[a]", "[h", "rev ", "version "],
    );
    if arcade_dir(p) || short || !console {
        Some(MAME)
    } else {
        directory_system(p)
    }
}

/// The system of a file with extension `ext`, path `p` and file name `f`, all in
/// lower case.
pub fn classify(ext: &[char], p: &[char], f: &[char]) -> (r: Option<&'static str>)
    ensures
        label_text(r) == system_label(ext@, p@, f@),
{
    if among(ext, vec!["nes", "fds", "unf", "unif"]) {
        Some(NES)
    } else if among(ext, vec!["smc", "sfc", "swc", "fig"]) {
        Some(SNES)
    } else if among(ext, vec!["z64", "n64", "v64"]) {
        Some(N64)
    } else if among(ext, vec!["gcm", "iso", "gcz", "rvz"]) && gives_hint(p, PathHint::GameCube) {
        Some(GAMECUBE)
    } else if is_text(ext, "gb") {
        Some(GAME_BOY)
    } else if is_text(ext, "gbc") {
        Some(GAME_BOY_COLOR)
    } else if is_text(ext, "gba") {
        Some(GAME_BOY_ADVANCE)
    } else if among(ext, vec!["nds", "dsi", "ids"]) {
        Some(NINTENDO_DS)
    } else if among(ext, vec!["3ds", "cci", "cxi"]) {
        Some(NINTENDO_3DS)
    } else if among(ext, vec!["sms", "sg"]) {
        Some(MASTER_SYSTEM)
    } else if among(ext, vec!["md", "smd", "gen", "bin"]) && gives_hint(p, PathHint::Genesis) {
        Some(GENESIS)
    } else if is_text(ext, "32x") {
        Some(SEGA_32X)
    } else if is_text(ext, "gg") {
        Some(GAME_GEAR)
    } else if among(ext, vec!["cdi", "gdi", "chd"]) && gives_hint(p, PathHint::Dreamcast) {
        Some(DREAMCAST)
    } else if among(ext, vec!["iso", "cue", "bin", "img", "pbp", "chd"]) && gives_hint(
        p,
        PathHint::PlayStation,
    ) {
        Some(PLAYSTATION)
    } else if among(ext, vec!["iso", "bin", "mdf", "nrg"]) && gives_hint(p, PathHint::PlayStation2) {
        Some(PLAYSTATION_2)
    } else if among(ext, vec!["iso", "cso", "pbp"]) && gives_hint(p, PathHint::Psp) {
        Some(PSP)
    } else if among(ext, vec!["a26", "bin"]) && gives_hint(p, PathHint::Atari2600) {
        Some(ATARI_2600)
    } else if is_text(ext, "a78") {
        Some(ATARI_7800)
    } else if among(ext, vec!["pce", "sgx"]) {
        Some(PC_ENGINE)
    } else if among(ext, vec!["ws", "wsc"]) {
        Some(WONDERSWAN)
    } else if is_text(ext, "neo") {
        Some(NEO_GEO)
    } else if archive_ext(ext) {
        archive_system(ext, p, f)
    } else {
        None
    }
}

} // verus!
