//! Building playlists from scanned records.

use vstd::prelude::*;
use crate::core_mapper::{default_core, CoreMapper, CoreModel};
use crate::dat_parser::{DatCollection, DatRow};
use crate::error::PlaylistError;
use crate::platform::{converted_rom_path, Platform, PlatformPathConverter};
use crate::playlist::{
    crc_tag, sorted_by_label, without_repeats, ItemRow, Playlist, PlaylistItem, PlaylistRow,
};
use crate::scanner::{roms, RomFile, RomRow};
use crate::split::{join, joined, push_str, replace_each, swapped, words, words_of};
use crate::str_map::StrMap;
use crate::text::{chars_of, run_back, slice_of, string_of, trail_run, trim, trimmed, CharClass};

verus! {

/// A file name as a label: without its extension, with brackets and parentheses
/// turned into spaces, and with one space between words.
pub open spec fn clean_name(filename: Seq<char>) -> Seq<char> {
    let tail = trail_run(filename, CharClass::IsNot('.')) as int;
    let name = if tail >= filename.len() {
        filename
    } else {
        filename.take(filename.len() - tail - 1)
    };
    trimmed(joined(words_of(swapped(name, seq!['[', ']', '(', ')'], seq![' '])), " "@))
}

/// The label of a record: its canonical name where the index knows its checksum,
/// else its cleaned file name.
pub open spec fn label_of(index: Map<u32, DatRow>, rom: RomRow) -> Seq<char> {
    match rom.crc32 {
        Some(c) => if index.contains_key(c) {
            index[c].name
        } else {
            clean_name(rom.filename)
        },
        None => clean_name(rom.filename),
    }
}

/// What a playlist builder works with, as a mathematical value.
pub struct BuilderModel {
    pub source: Platform,
    pub target: Platform,
    pub index: Map<u32, DatRow>,
    pub systems: Map<Seq<char>, Seq<char>>,
    pub cores: Map<Seq<char>, CoreModel>,
    pub verbose: bool,
}

/// The playlist entry of a record that belongs to `system`.
pub open spec fn item_for(b: BuilderModel, rom: RomRow, system: Seq<char>) -> ItemRow {
    let core = default_core(b.systems, b.cores, system, b.target);
    ItemRow {
        path: converted_rom_path(b.source, b.target, rom.path),
        label: label_of(b.index, rom),
        core_path: Some(
            match core {
                Some(c) => c.0,
                None => "DETECT"@,
            },
        ),
        core_name: Some(
            match core {
                Some(c) => c.1,
                None => "DETECT"@,
            },
        ),
        crc32: match rom.crc32 {
            Some(c) => Some(crc_tag(c)),
            None => None,
        },
        db_name: Some(system + ".lpl"@),
    }
}

/// Which records go into a playlist.
pub enum Pick {
    /// Every record that has a system, under its own system.
    Classified,
    /// Every record whose system is the given one.
    Of(Seq<char>),
    /// Every record, under the given system.
    Forced(Seq<char>),
}

/// The system under which a record goes into a playlist, if it goes in.
pub open spec fn picked(pick: Pick, rom: RomRow) -> Option<Seq<char>> {
    match pick {
        Pick::Classified => rom.system,
        Pick::Of(s) => if rom.system == Some(s) {
            Some(s)
        } else {
            None
        },
        Pick::Forced(s) => Some(s),
    }
}

/// The entries of the records that `pick` picks, in the order of the records.
pub open spec fn entries_of(b: BuilderModel, list: Seq<RomRow>, pick: Pick) -> Seq<ItemRow>
    decreases list.len(),
{
    if list.len() == 0 {
        Seq::empty()
    } else {
        entries_of(b, list.drop_last(), pick) + match picked(pick, list.last()) {
            Some(s) => seq![item_for(b, list.last(), s)],
            None => Seq::empty(),
        }
    }
}

/// Entries as a finished playlist holds them: sorted by label, without repeats.
pub open spec fn finished(items: Seq<ItemRow>) -> Seq<ItemRow> {
    without_repeats(sorted_by_label(items))
}

/// An empty playlist with the default core of `system`, where there is one.
pub open spec fn playlist_base(b: BuilderModel, system: Option<Seq<char>>) -> PlaylistRow {
    let core = match system {
        Some(s) => default_core(b.systems, b.cores, s, b.target),
        None => None,
    };
    PlaylistRow {
        version: "1.5"@,
        default_core_path: match core {
            Some(c) => Some(c.0),
            None => None,
        },
        default_core_name: match core {
            Some(c) => Some(c.1),
            None => None,
        },
        label_display_mode: 0,
        right_thumbnail_mode: 0,
        left_thumbnail_mode: 0,
        sort_mode: 0,
        items: Seq::empty(),
    }
}

/// The finished playlist of the records that `pick` picks, with the default core
/// of `system`.
pub open spec fn playlist_of(
    b: BuilderModel,
    list: Seq<RomRow>,
    pick: Pick,
    system: Option<Seq<char>>,
) -> PlaylistRow {
    PlaylistRow { items: finished(entries_of(b, list, pick)), ..playlist_base(b, system) }
}

/// Whether one of the records belongs to `system`.
pub open spec fn has_system(list: Seq<RomRow>, system: Seq<char>) -> bool {
    exists|i: int| 0 <= i < list.len() && (#[trigger] list[i]).system == Some(system)
}

/// The exec form of `Pick`.
pub enum PickBy<'a> {
    Classified,
    Of(&'a str),
    Forced(&'a str),
}

impl<'a> View for PickBy<'a> {
    type V = Pick;

    open spec fn view(&self) -> Pick {
        match self {
            PickBy::Classified => Pick::Classified,
            PickBy::Of(s) => Pick::Of(s@),
            PickBy::Forced(s) => Pick::Forced(s@),
        }
    }
}

/// Builds playlists from scanned records.
pub struct PlaylistBuilder {
    source_platform: Platform,
    target_platform: Platform,
    path_converter: PlatformPathConverter,
    dat_collection: DatCollection,
    core_mapper: CoreMapper,
    verbose: bool,
}

impl View for PlaylistBuilder {
    type V = BuilderModel;

    closed spec fn view(&self) -> BuilderModel {
        BuilderModel {
            source: self.source_platform,
            target: self.target_platform,
            index: self.dat_collection.index(),
            systems: self.core_mapper.system_table(),
            cores: self.core_mapper.core_table(),
            verbose: self.verbose,
        }
    }
}

impl PlaylistBuilder {
    /// The parts of the builder are well formed and its converter is the one for
    /// its platforms.
    pub closed spec fn wf(&self) -> bool {
        &&& self.dat_collection.wf()
        &&& self.core_mapper.wf()
        &&& self.path_converter.source == self.source_platform
        &&& self.path_converter.target == self.target_platform
    }

    /// A builder for Windows on both sides, with an empty catalog index and the
    /// standard cores.
    pub fn new() -> (b: Self)
        ensures
            b.wf(),
            b@.source == Platform::Windows,
            b@.target == Platform::Windows,
            b@.index == Map::<u32, DatRow>::empty(),
            !b@.verbose,
            (b@.systems, b@.cores) == crate::core_mapper::registered(
                Map::empty(),
                Map::empty(),
                crate::core_mapper::standard_cores(),
            ),
    {
        PlaylistBuilder {
            source_platform: Platform::Windows,
            target_platform: Platform::Windows,
            path_converter: PlatformPathConverter::new(Platform::Windows, Platform::Windows),
            dat_collection: DatCollection::new(),
            core_mapper: CoreMapper::new(),
            verbose: false,
        }
    }

    /// The same builder for other platforms.
    pub fn with_platforms(self, source: Platform, target: Platform) -> (b: Self)
        requires
            self.wf(),
        ensures
            b.wf(),
            b@ == (BuilderModel { source: source, target: target, ..self@ }),
    {
        let mut b = self;
        b.source_platform = source;
        b.target_platform = target;
        b.path_converter = PlatformPathConverter::new(source, target);
        b
    }

    /// The same builder with another catalog.
    pub fn with_dat_collection(self, dat_collection: DatCollection) -> (b: Self)
        requires
            self.wf(),
            dat_collection.wf(),
        ensures
            b.wf(),
            b@ == (BuilderModel { index: dat_collection.index(), ..self@ }),
    {
        let mut b = self;
        b.dat_collection = dat_collection;
        b
    }

    /// The same builder, talkative or not.
    pub fn with_verbose(self, verbose: bool) -> (b: Self)
        requires
            self.wf(),
        ensures
            b.wf(),
            b@ == (BuilderModel { verbose: verbose, ..self@ }),
    {
        let mut b = self;
        b.verbose = verbose;
        b
    }

    /// A file name as a label.
    pub fn clean_filename(&self, filename: &str) -> (r: String)
        ensures
            r@ == clean_name(filename@),
    {
        let f = chars_of(filename);
        let tail = run_back(f.as_slice(), f.len(), CharClass::IsNot('.'));
        assert(f@.take(f@.len() as int) == f@);
        let name = if tail >= f.len() {
            let whole = slice_of(f.as_slice(), 0, f.len());
            assert(whole@ == f@);
            whole
        } else {
            let part = slice_of(f.as_slice(), 0, f.len() - tail - 1);
            assert(part@ == f@.take(f@.len() - tail - 1));
            part
        };
        let marks = vec!['[', ']', '(', ')'];
        let mut space: Vec<char> = Vec::new();
        space.push(' ');
        assert(marks@ =~= seq!['[', ']', '(', ')']);
        assert(space@ =~= seq![' ']);
        assert(space@ =~= " "@) by {
            reveal_strlit(" ");
        }
        let spaced = replace_each(name.as_slice(), marks.as_slice(), space.as_slice());
        let parts = words(spaced.as_slice());
        let joined_up = join(&parts, space.as_slice());
        let clean = trim(joined_up.as_slice());
        string_of(clean.as_slice())
    }

    /// The playlist entry of a record that belongs to `system`.
    pub fn create_playlist_item(&self, rom: &RomFile, system: &str) -> (r: Result<
        PlaylistItem,
        PlaylistError,
    >)
        requires
            self.wf(),
        ensures
            r matches Ok(item) && item@ == item_for(self@, rom@, system@),
    {
        let converted_path = self.path_converter.convert_rom_path(rom.path.as_str());
        let label = match rom.crc32 {
            Some(c) => match self.dat_collection.get_name_by_crc(c) {
                Some(n) => n,
                None => self.clean_filename(rom.filename.as_str()),
            },
            None => self.clean_filename(rom.filename.as_str()),
        };
        let core = match self.core_mapper.get_default_core(system, self.target_platform) {
            Some(c) => c,
            None => ("DETECT".to_owned(), "DETECT".to_owned()),
        };
        let mut db = chars_of(system);
        push_str(&mut db, ".lpl");
        let mut item = PlaylistItem::new(converted_path, label).with_core(core.0, core.1).with_db_name(
            string_of(db.as_slice()),
        );
        match rom.crc32 {
            Some(c) => {
                item = item.with_crc32(c);
            },
            None => {},
        }
        Ok(item)
    }

    /// The finished playlist of the records that `pick` picks, with the default
    /// core of `system`.
    pub fn build(&self, list: &[RomFile], pick: PickBy, system: Option<&str>) -> (p: Playlist)
        requires
            self.wf(),
        ensures
            p@ == playlist_of(
                self@,
                roms(list@),
                pick@,
                match system {
                    Some(s) => Some(s@),
                    None => None,
                },
            ),
    {
        let mut playlist = Playlist::new();
        match system {
            Some(s) => match self.core_mapper.get_default_core(s, self.target_platform) {
                Some(c) => {
                    playlist = playlist.with_default_core(c.0, c.1);
                },
                None => {},
            },
            None => {},
        }
        let ghost base = playlist@;
        let ghost rows = roms(list@);
        let mut i: usize = 0;
        assert(rows.take(0) =~= Seq::<RomRow>::empty());
        while i < list.len()
            invariant
                i <= list.len(),
                self.wf(),
                rows == roms(list@),
                playlist@ == (PlaylistRow {
                    items: entries_of(self@, rows.take(i as int), pick@),
                    ..base
                }),
            decreases list.len() - i,
        {
            let ghost before = playlist@.items;
            assert(rows.take(i + 1).drop_last() == rows.take(i as int));
            assert(rows.take(i + 1).last() == list@[i as int]@);
            let rom = &list[i];
            let under: Option<String> = match &pick {
                PickBy::Classified => crate::dat_parser::clone_opt_string(&rom.system),
                PickBy::Of(s) => match &rom.system {
                    Some(own) => if *own == (*s).to_owned() {
                        Some(own.clone())
                    } else {
                        None
                    },
                    None => None,
                },
                PickBy::Forced(s) => Some((*s).to_owned()),
            };
            assert(crate::dat_parser::opt_text(under) == picked(pick@, rom@));
            match under {
                Some(s) => match self.create_playlist_item(rom, s.as_str()) {
                    Ok(item) => {
                        playlist.add_item(item);
                        assert(playlist@.items =~= before + seq![item@]);
                    },
                    Err(_) => {},
                },
                None => {
                    assert(before + Seq::<ItemRow>::empty() =~= before);
                },
            }
            i += 1;
        }
        assert(rows.take(rows.len() as int) == rows);
        playlist.sort_by_label();
        playlist.deduplicate();
        playlist
    }

    /// One playlist with every record that has a system, sorted by label, without
    /// repeats.
    pub fn build_master(&self, list: &[RomFile]) -> (r: Result<Playlist, PlaylistError>)
        requires
            self.wf(),
        ensures
            r matches Ok(p) && p@ == playlist_of(self@, roms(list@), Pick::Classified, None),
    {
        Ok(self.build(list, PickBy::Classified, None))
    }

    /// One playlist with every record, all taken to belong to `forced_system`.
    pub fn build_single_system_playlist(&self, list: &[RomFile], forced_system: &str) -> (r:
        Result<Playlist, PlaylistError>)
        requires
            self.wf(),
        ensures
            r matches Ok(p) && p@ == playlist_of(
                self@,
                roms(list@),
                Pick::Forced(forced_system@),
                Some(forced_system@),
            ),
    {
        Ok(self.build(list, PickBy::Forced(forced_system), Some(forced_system)))
    }

    /// One playlist for each system that a record belongs to, in the order in
    /// which the systems first occur.
    pub fn build_by_system(&self, list: &[RomFile]) -> (r: Result<StrMap<Playlist>, PlaylistError>)
        requires
            self.wf(),
        ensures
            r matches Ok(m) && {
                &&& m.wf()
                &&& forall|s: Seq<char>| #[trigger] m@.contains_key(s) <==> has_system(roms(list@), s)
                &&& forall|s: Seq<char>| #[trigger]
                    m@.contains_key(s) ==> m@[s]@ == playlist_of(
                        self@,
                        roms(list@),
                        Pick::Of(s),
                        Some(s),
                    )
            },
    {
        let mut m: StrMap<Playlist> = StrMap::new();
        let ghost rows = roms(list@);
        let mut i: usize = 0;
        while i < list.len()
            invariant
                i <= list.len(),
                self.wf(),
                m.wf(),
                rows == roms(list@),
                forall|s: Seq<char>| #[trigger]
                    m@.contains_key(s) <==> has_system(rows.take(i as int), s),
                forall|s: Seq<char>| #[trigger]
                    m@.contains_key(s) ==> m@[s]@ == playlist_of(self@, rows, Pick::Of(s), Some(s)),
            decreases list.len() - i,
        {
            let ghost m0 = m@;
            let ghost done = rows.take(i as int);
            let ghost next = rows.take(i + 1);
            assert(next[i as int] == list@[i as int]@);
            assert forall|s: Seq<char>| has_system(next, s) <==> (has_system(done, s)
                || list@[i as int]@.system == Some(s)) by {
                if has_system(next, s) {
                    let j = choose|j: int| 0 <= j < next.len() && (#[trigger] next[j]).system == Some(s);
                    if j < i {
                        assert(done[j].system == Some(s));
                    }
                }
                if has_system(done, s) {
                    let j = choose|j: int| 0 <= j < done.len() && (#[trigger] done[j]).system == Some(s);
                    assert(next[j].system == Some(s));
                }
            }
            match &list[i].system {
                Some(s) => {
                    if !m.contains_key(s.as_str()) {
                        let p = self.build(list, PickBy::Of(s.as_str()), Some(s.as_str()));
                        m.insert_new(s.clone(), p);
                    }
                },
                None => {},
            }
            i += 1;
        }
        assert(rows.take(rows.len() as int) == rows);
        Ok(m)
    }
}

impl Default for PlaylistBuilder {
    fn default() -> (b: Self)
        ensures
            b.wf(),
            b@.source == Platform::Windows,
            b@.target == Platform::Windows,
            b@.index == Map::<u32, DatRow>::empty(),
            !b@.verbose,
            (b@.systems, b@.cores) == crate::core_mapper::registered(
                Map::empty(),
                Map::empty(),
                crate::core_mapper::standard_cores(),
            ),
    {
        PlaylistBuilder::new()
    }
}

} // verus!
