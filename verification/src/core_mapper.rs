//! Which emulator core runs the games of which system, and where that core lies on
//! each platform.

use vstd::prelude::*;
use crate::platform::{core_extension_of, cores_path_of, Platform};
use crate::scanner::string_texts;
use crate::split::push_str;
use crate::str_map::StrMap;
use crate::text::{chars_of, string_of};

verus! {

/// An emulator core as a mathematical value.
pub struct CoreModel {
    pub display_name: Seq<char>,
    pub library_name: Seq<char>,
    pub supported_systems: Seq<Seq<char>>,
    pub platform_cores: Seq<(Platform, Seq<char>)>,
}

/// An emulator core: its names, the systems it runs, and its file name on each
/// platform that has it.
#[derive(Debug)]
pub struct CoreInfo {
    pub display_name: String,
    pub library_name: String,
    pub supported_systems: Vec<String>,
    pub platform_cores: Vec<(Platform, String)>,
}

/// The file names by platform as mathematical values.
pub open spec fn core_files(v: Seq<(Platform, String)>) -> Seq<(Platform, Seq<char>)> {
    v.map_values(|p: (Platform, String)| (p.0, p.1@))
}

impl View for CoreInfo {
    type V = CoreModel;

    open spec fn view(&self) -> CoreModel {
        CoreModel {
            display_name: self.display_name@,
            library_name: self.library_name@,
            supported_systems: string_texts(self.supported_systems@),
            platform_cores: core_files(self.platform_cores@),
        }
    }
}

/// The file name that `files` gives for `platform`: the one given last.
pub open spec fn core_file_for(files: Seq<(Platform, Seq<char>)>, platform: Platform) -> Option<
    Seq<char>,
>
    decreases files.len(),
{
    if files.len() == 0 {
        None
    } else if files.last().0 == platform {
        Some(files.last().1)
    } else {
        core_file_for(files.drop_last(), platform)
    }
}

/// A copy of a list of strings.
pub fn clone_strings(v: &Vec<String>) -> (r: Vec<String>)
    ensures
        string_texts(r@) == string_texts(v@),
{
    let mut r: Vec<String> = Vec::new();
    let mut i: usize = 0;
    while i < v.len()
        invariant
            i <= v.len(),
            string_texts(r@) == string_texts(v@).take(i as int),
        decreases v.len() - i,
    {
        let ghost before = string_texts(r@);
        r.push(v[i].clone());
        assert(string_texts(r@) =~= before.push(v@[i as int]@));
        assert(string_texts(v@).take(i + 1) =~= before.push(v@[i as int]@));
        i += 1;
    }
    assert(string_texts(v@).take(v@.len() as int) == string_texts(v@));
    r
}

impl Clone for CoreInfo {
    fn clone(&self) -> (r: Self)
        ensures
            r@ == self@,
    {
        let mut files: Vec<(Platform, String)> = Vec::new();
        let mut i: usize = 0;
        while i < self.platform_cores.len()
            invariant
                i <= self.platform_cores.len(),
                core_files(files@) == core_files(self.platform_cores@).take(i as int),
            decreases self.platform_cores.len() - i,
        {
            let ghost before = core_files(files@);
            let p = self.platform_cores[i].0;
            let f = self.platform_cores[i].1.clone();
            files.push((p, f));
            assert(core_files(files@) =~= before.push((p, f@)));
            assert(core_files(self.platform_cores@).take(i + 1) =~= before.push((p, f@)));
            i += 1;
        }
        assert(core_files(self.platform_cores@).take(self.platform_cores@.len() as int)
            == core_files(self.platform_cores@));
        CoreInfo {
            display_name: self.display_name.clone(),
            library_name: self.library_name.clone(),
            supported_systems: clone_strings(&self.supported_systems),
            platform_cores: files,
        }
    }
}

impl CoreInfo {
    /// A core that runs no system yet and has no file on any platform.
    pub fn new(display_name: String, library_name: String) -> (c: Self)
        ensures
            c@ == (CoreModel {
                display_name: display_name@,
                library_name: library_name@,
                supported_systems: Seq::empty(),
                platform_cores: Seq::empty(),
            }),
    {
        let c = CoreInfo {
            display_name: display_name,
            library_name: library_name,
            supported_systems: Vec::new(),
            platform_cores: Vec::new(),
        };
        assert(c@.supported_systems =~= Seq::<Seq<char>>::empty());
        assert(c@.platform_cores =~= Seq::<(Platform, Seq<char>)>::empty());
        c
    }

    /// The same core, running `systems`.
    pub fn with_systems(self, systems: Vec<String>) -> (c: Self)
        ensures
            c@ == (CoreModel { supported_systems: string_texts(systems@), ..self@ }),
    {
        let mut c = self;
        c.supported_systems = systems;
        c
    }

    /// The same core, with the file `core_path` on `platform`.
    pub fn with_platform_core(self, platform: Platform, core_path: String) -> (c: Self)
        ensures
            c@ == (CoreModel {
                platform_cores: self@.platform_cores.push((platform, core_path@)),
                ..self@
            }),
    {
        let mut c = self;
        let ghost before = core_files(c.platform_cores@);
        c.platform_cores.push((platform, core_path));
        assert(core_files(c.platform_cores@) =~= before.push((platform, core_path@)));
        c
    }

    /// The file of the core on `platform`.
    pub fn get_core_for_platform(&self, platform: Platform) -> (r: Option<String>)
        ensures
            crate::dat_parser::opt_text(r) == core_file_for(self@.platform_cores, platform),
    {
        let ghost files = core_files(self.platform_cores@);
        let mut i: usize = self.platform_cores.len();
        assert(files.take(i as int) == files);
        while i > 0
            invariant
                i <= self.platform_cores.len(),
                files == core_files(self.platform_cores@),
                core_file_for(files, platform) == core_file_for(files.take(i as int), platform),
            decreases i,
        {
            i -= 1;
            assert(files.take(i + 1).last() == (
                self.platform_cores@[i as int].0,
                self.platform_cores@[i as int].1@,
            ));
            assert(files.take(i + 1).drop_last() == files.take(i as int));
            if self.platform_cores[i].0 == platform {
                return Some(self.platform_cores[i].1.clone());
            }
        }
        None
    }
}

/// The platforms that the standard cores are built for, in the order in which
/// their files are listed.
pub open spec fn core_platforms(with_switch: bool) -> Seq<Platform> {
    if with_switch {
        seq![Platform::Windows, Platform::Linux, Platform::MacOS, Platform::Android, Platform::Switch]
    } else {
        seq![Platform::Windows, Platform::Linux, Platform::MacOS, Platform::Android]
    }
}

/// The file name of the core with the library name `library` on a platform.
pub open spec fn standard_file(library: Seq<char>, p: Platform) -> Seq<char> {
    library + "_libretro"@ + core_extension_of(p)
}

/// A standard core: built for Windows, Linux, macOS and Android, and for the
/// Switch where `with_switch` says so, with the usual file name on each.
pub open spec fn standard_core(
    display: Seq<char>,
    library: Seq<char>,
    systems: Seq<Seq<char>>,
    with_switch: bool,
) -> CoreModel {
    CoreModel {
        display_name: display,
        library_name: library,
        supported_systems: systems,
        platform_cores: Seq::new(
            core_platforms(with_switch).len(),
            |i: int| (core_platforms(with_switch)[i], standard_file(library, core_platforms(with_switch)[i])),
        ),
    }
}

/// The texts of a list of literals.
pub open spec fn literal_texts(v: Seq<&'static str>) -> Seq<Seq<char>> {
    v.map_values(|s: &'static str| s@)
}

/// A list of one literal.
pub fn single(s: &'static str) -> (r: Vec<&'static str>)
    ensures
        r@ == seq![s],
{
    let mut r: Vec<&'static str> = Vec::new();
    r.push(s);
    r
}

/// A standard core.
pub fn make_standard_core(
    display: &'static str,
    library: &'static str,
    systems: &Vec<&'static str>,
    with_switch: bool,
) -> (c: CoreInfo)
    ensures
        c@ == standard_core(display@, library@, literal_texts(systems@), with_switch),
{
    let mut names: Vec<String> = Vec::new();
    let mut i: usize = 0;
    while i < systems.len()
        invariant
            i <= systems.len(),
            string_texts(names@) == literal_texts(systems@).take(i as int),
        decreases systems.len() - i,
    {
        let ghost before = string_texts(names@);
        names.push(systems[i].to_owned());
        assert(string_texts(names@) =~= before.push(systems@[i as int]@));
        assert(literal_texts(systems@).take(i + 1) =~= before.push(systems@[i as int]@));
        i += 1;
    }
    assert(literal_texts(systems@).take(systems@.len() as int) == literal_texts(systems@));
    let platforms = if with_switch {
        vec![Platform::Windows, Platform::Linux, Platform::MacOS, Platform::Android, Platform::Switch]
    } else {
        vec![Platform::Windows, Platform::Linux, Platform::MacOS, Platform::Android]
    };
    assert(platforms@ =~= core_platforms(with_switch));
    let ghost want = standard_core(display@, library@, literal_texts(systems@), with_switch).platform_cores;
    let mut files: Vec<(Platform, String)> = Vec::new();
    let mut k: usize = 0;
    while k < platforms.len()
        invariant
            k <= platforms.len(),
            platforms@ == core_platforms(with_switch),
            want == standard_core(
                display@,
                library@,
                literal_texts(systems@),
                with_switch,
            ).platform_cores,
            core_files(files@) == want.take(k as int),
        decreases platforms.len() - k,
    {
        let ghost before = core_files(files@);
        let p = platforms[k];
        let mut name = chars_of(library);
        push_str(&mut name, "_libretro");
        push_str(&mut name, p.core_extension());
        let file = string_of(name.as_slice());
        files.push((p, file));
        assert(core_files(files@) =~= before.push((p, file@)));
        assert(want.take(k + 1) =~= before.push((p, file@)));
        k += 1;
    }
    assert(want.take(want.len() as int) == want);
    CoreInfo {
        display_name: display.to_owned(),
        library_name: library.to_owned(),
        supported_systems: names,
        platform_cores: files,
    }
}

/// The cores by name, and for each system the name of the core that runs it.
pub struct CoreMapper {
    system_cores: StrMap<String>,
    cores: StrMap<CoreInfo>,
}

/// The table of cores by system after the systems of a core were given to it.
pub open spec fn systems_given(
    m: Map<Seq<char>, Seq<char>>,
    systems: Seq<Seq<char>>,
    core_name: Seq<char>,
) -> Map<Seq<char>, Seq<char>>
    decreases systems.len(),
{
    if systems.len() == 0 {
        m
    } else {
        systems_given(m, systems.drop_last(), core_name).insert(systems.last(), core_name)
    }
}

/// The order of the systems after the systems of a core were given to it: a
/// system that had no core goes to the end.
pub open spec fn order_given(order: Seq<Seq<char>>, systems: Seq<Seq<char>>) -> Seq<Seq<char>>
    decreases systems.len(),
{
    if systems.len() == 0 {
        order
    } else {
        let before = order_given(order, systems.drop_last());
        if before.contains(systems.last()) {
            before
        } else {
            before.push(systems.last())
        }
    }
}

/// The order of the systems after the cores `added` were registered one by one.
pub open spec fn registered_order(order: Seq<Seq<char>>, added: Seq<(Seq<char>, CoreModel)>) -> Seq<
    Seq<char>,
>
    decreases added.len(),
{
    if added.len() == 0 {
        order
    } else {
        order_given(registered_order(order, added.drop_last()), added.last().1.supported_systems)
    }
}

/// What registering one more core does to the order of the systems.
pub proof fn lemma_registered_order_step(
    order: Seq<Seq<char>>,
    added: Seq<(Seq<char>, CoreModel)>,
    k: int,
)
    requires
        0 < k <= added.len(),
    ensures
        registered_order(order, added.take(k)) == order_given(
            registered_order(order, added.take(k - 1)),
            added[k - 1].1.supported_systems,
        ),
{
    assert(added.take(k).drop_last() == added.take(k - 1));
    assert(added.take(k).last() == added[k - 1]);
}

/// The standard cores in the order in which they are registered: name, display
/// name, systems, and whether there is a build for the Switch.
pub open spec fn standard_cores() -> Seq<(Seq<char>, CoreModel)> {
    seq![
        (
            "mupen64plus_next"@,
            standard_core(
                "Mupen64Plus-Next"@,
                "mupen64plus_next"@,
                seq!["Nintendo - Nintendo 64"@],
                true,
            ),
        ),
        (
            "snes9x"@,
            standard_core(
                "Snes9x"@,
                "snes9x"@,
                seq!["Nintendo - Super Nintendo Entertainment System"@],
                true,
            ),
        ),
        (
            "mgba"@,
            standard_core(
                "mGBA"@,
                "mgba"@,
                seq![
                    "Nintendo - Game Boy Advance"@,
                    "Nintendo - Game Boy Color"@,
                    "Nintendo - Game Boy"@,
                ],
                true,
            ),
        ),
        (
            "genesis_plus_gx"@,
            standard_core(
                "Genesis Plus GX"@,
                "genesis_plus_gx"@,
                seq![
                    "Sega - Mega Drive - Genesis"@,
                    "Sega - Master System - Mark III"@,
                    "Sega - Game Gear"@,
                ],
                true,
            ),
        ),
        (
            "pcsx_rearmed"@,
            standard_core("PCSX ReARMed"@, "pcsx_rearmed"@, seq!["Sony - PlayStation"@], true),
        ),
        (
            "fceumm"@,
            standard_core(
                "FCEUmm"@,
                "fceumm"@,
                seq!["Nintendo - Nintendo Entertainment System"@],
                true,
            ),
        ),
        ("mame"@, standard_core("MAME (Current)"@, "mame"@, seq!["MAME"@], false)),
    ]
}

/// The two tables after the cores `added` were registered one by one.
pub open spec fn registered(
    systems: Map<Seq<char>, Seq<char>>,
    cores: Map<Seq<char>, CoreModel>,
    added: Seq<(Seq<char>, CoreModel)>,
) -> (Map<Seq<char>, Seq<char>>, Map<Seq<char>, CoreModel>)
    decreases added.len(),
{
    if added.len() == 0 {
        (systems, cores)
    } else {
        let (s, c) = registered(systems, cores, added.drop_last());
        let (name, core) = added.last();
        (systems_given(s, core.supported_systems, name), c.insert(name, core))
    }
}

/// What registering one more core does.
pub proof fn lemma_registered_step(
    systems: Map<Seq<char>, Seq<char>>,
    cores: Map<Seq<char>, CoreModel>,
    added: Seq<(Seq<char>, CoreModel)>,
    k: int,
)
    requires
        0 < k <= added.len(),
    ensures
        registered(systems, cores, added.take(k)) == (
            systems_given(
                registered(systems, cores, added.take(k - 1)).0,
                added[k - 1].1.supported_systems,
                added[k - 1].0,
            ),
            registered(systems, cores, added.take(k - 1)).1.insert(added[k - 1].0, added[k - 1].1),
        ),
{
    assert(added.take(k).drop_last() == added.take(k - 1));
    assert(added.take(k).last() == added[k - 1]);
}

/// The path and the display name of the core for `system` on `platform`, from the
/// two tables. The path is `DETECT` where the core has no file on the platform.
pub open spec fn default_core(
    systems: Map<Seq<char>, Seq<char>>,
    cores: Map<Seq<char>, CoreModel>,
    system: Seq<char>,
    platform: Platform,
) -> Option<(Seq<char>, Seq<char>)> {
    if systems.contains_key(system) && cores.contains_key(systems[system]) {
        let core = cores[systems[system]];
        Some(
            (
                match core_file_for(core.platform_cores, platform) {
                    Some(f) => cores_path_of(platform) + "/"@ + f,
                    None => "DETECT"@,
                },
                core.display_name,
            ),
        )
    } else {
        None
    }
}

/// A pair of strings as texts.
pub open spec fn pair_text(o: Option<(String, String)>) -> Option<(Seq<char>, Seq<char>)> {
    match o {
        Some(p) => Some((p.0@, p.1@)),
        None => None,
    }
}

impl CoreMapper {
    /// The tables are well formed.
    pub closed spec fn wf(&self) -> bool {
        self.system_cores.wf() && self.cores.wf()
    }

    /// For each system the name of its core.
    pub closed spec fn system_table(&self) -> Map<Seq<char>, Seq<char>> {
        self.system_cores@.map_values(|s: String| s@)
    }

    /// The cores by name.
    pub closed spec fn core_table(&self) -> Map<Seq<char>, CoreModel> {
        self.cores@.map_values(|c: CoreInfo| c@)
    }

    /// The systems in the order in which they first got a core.
    pub closed spec fn system_order(&self) -> Seq<Seq<char>> {
        self.system_cores.key_seq()
    }

    /// A mapper without cores.
    pub fn empty() -> (m: Self)
        ensures
            m.wf(),
            m.system_table() == Map::<Seq<char>, Seq<char>>::empty(),
            m.core_table() == Map::<Seq<char>, CoreModel>::empty(),
            m.system_order() == Seq::<Seq<char>>::empty(),
    {
        let m = CoreMapper { system_cores: StrMap::new(), cores: StrMap::new() };
        assert(m.system_table() =~= Map::<Seq<char>, Seq<char>>::empty());
        assert(m.core_table() =~= Map::<Seq<char>, CoreModel>::empty());
        m
    }

    /// A mapper with the standard cores.
    pub fn new() -> (m: Self)
        ensures
            m.wf(),
            (m.system_table(), m.core_table()) == registered(
                Map::empty(),
                Map::empty(),
                standard_cores(),
            ),
            m.system_order() == registered_order(Seq::empty(), standard_cores()),
    {
        let mut m = CoreMapper::empty();
        m.initialize_default_mappings();
        m
    }

    /// Registers the standard cores.
    pub fn initialize_default_mappings(&mut self)
        requires
            old(self).wf(),
        ensures
            final(self).wf(),
            (final(self).system_table(), final(self).core_table()) == registered(
                old(self).system_table(),
                old(self).core_table(),
                standard_cores(),
            ),
            final(self).system_order() == registered_order(
                old(self).system_order(),
                standard_cores(),
            ),
    {
        let ghost s0 = self.system_table();
        let ghost c0 = self.core_table();
        let ghost o0 = self.system_order();
        let ghost all = standard_cores();
        assert(all.take(0) =~= Seq::<(Seq<char>, CoreModel)>::empty());
        let n64 = single("Nintendo - Nintendo 64");
        self.add_core(
            "mupen64plus_next".to_owned(),
            make_standard_core("Mupen64Plus-Next", "mupen64plus_next", &n64, true),
        );
        assert(literal_texts(n64@) =~= seq!["Nintendo - Nintendo 64"@]);
        proof {
            lemma_registered_step(s0, c0, all, 1);
            lemma_registered_order_step(o0, all, 1);
        }
        assert((self.system_table(), self.core_table()) == registered(s0, c0, all.take(1)));
        assert(self.system_order() == registered_order(o0, all.take(1)));
        let snes = single("Nintendo - Super Nintendo Entertainment System");
        self.add_core("snes9x".to_owned(), make_standard_core("Snes9x", "snes9x", &snes, true));
        assert(literal_texts(snes@) =~= seq!["Nintendo - Super Nintendo Entertainment System"@]);
        proof {
            lemma_registered_step(s0, c0, all, 2);
            lemma_registered_order_step(o0, all, 2);
        }
        assert((self.system_table(), self.core_table()) == registered(s0, c0, all.take(2)));
        assert(self.system_order() == registered_order(o0, all.take(2)));
        let gb = vec![
            "Nintendo - Game Boy Advance",
            "Nintendo - Game Boy Color",
            "Nintendo - Game Boy",
        ];
        self.add_core("mgba".to_owned(), make_standard_core("mGBA", "mgba", &gb, true));
        assert(literal_texts(gb@) =~= seq![
            "Nintendo - Game Boy Advance"@,
            "Nintendo - Game Boy Color"@,
            "Nintendo - Game Boy"@,
        ]);
        proof {
            lemma_registered_step(s0, c0, all, 3);
            lemma_registered_order_step(o0, all, 3);
        }
        assert((self.system_table(), self.core_table()) == registered(s0, c0, all.take(3)));
        assert(self.system_order() == registered_order(o0, all.take(3)));
        let sega = vec![
            "Sega - Mega Drive - Genesis",
            "Sega - Master System - Mark III",
            "Sega - Game Gear",
        ];
        self.add_core(
            "genesis_plus_gx".to_owned(),
            make_standard_core("Genesis Plus GX", "genesis_plus_gx", &sega, true),
        );
        assert(literal_texts(sega@) =~= seq![
            "Sega - Mega Drive - Genesis"@,
            "Sega - Master System - Mark III"@,
            "Sega - Game Gear"@,
        ]);
        proof {
            lemma_registered_step(s0, c0, all, 4);
            lemma_registered_order_step(o0, all, 4);
        }
        assert((self.system_table(), self.core_table()) == registered(s0, c0, all.take(4)));
        assert(self.system_order() == registered_order(o0, all.take(4)));
        let psx = single("Sony - PlayStation");
        self.add_core(
            "pcsx_rearmed".to_owned(),
            make_standard_core("PCSX ReARMed", "pcsx_rearmed", &psx, true),
        );
        assert(literal_texts(psx@) =~= seq!["Sony - PlayStation"@]);
        proof {
            lemma_registered_step(s0, c0, all, 5);
            lemma_registered_order_step(o0, all, 5);
        }
        assert((self.system_table(), self.core_table()) == registered(s0, c0, all.take(5)));
        assert(self.system_order() == registered_order(o0, all.take(5)));
        let nes = single("Nintendo - Nintendo Entertainment System");
        self.add_core("fceumm".to_owned(), make_standard_core("FCEUmm", "fceumm", &nes, true));
        assert(literal_texts(nes@) =~= seq!["Nintendo - Nintendo Entertainment System"@]);
        proof {
            lemma_registered_step(s0, c0, all, 6);
            lemma_registered_order_step(o0, all, 6);
        }
        assert((self.system_table(), self.core_table()) == registered(s0, c0, all.take(6)));
        assert(self.system_order() == registered_order(o0, all.take(6)));
        let mame = single("MAME");
        self.add_core("mame".to_owned(), make_standard_core("MAME (Current)", "mame", &mame, false));
        assert(literal_texts(mame@) =~= seq!["MAME"@]);
        proof {
            lemma_registered_step(s0, c0, all, 7);
            lemma_registered_order_step(o0, all, 7);
        }
        assert(all.take(7) == all);
    }

    /// The path and the display name of the core for `system` on `platform`. The
    /// path is `DETECT` where the core has no file on the platform.
    pub fn get_default_core(&self, system: &str, platform: Platform) -> (r: Option<(String, String)>)
        requires
            self.wf(),
        ensures
            pair_text(r) == default_core(self.system_table(), self.core_table(), system@, platform),
    {
        let core_name = match self.system_cores.get(system) {
            Some(n) => n,
            None => {
                return None;
            },
        };
        let core_info = match self.cores.get(core_name.as_str()) {
            Some(c) => c,
            None => {
                return None;
            },
        };
        let path = match core_info.get_core_for_platform(platform) {
            Some(f) => {
                let mut out = chars_of(platform.default_cores_path());
                push_str(&mut out, "/");
                push_str(&mut out, f.as_str());
                string_of(out.as_slice())
            },
            None => "DETECT".to_owned(),
        };
        Some((path, core_info.display_name.clone()))
    }

    /// The core with the name `core_name`.
    pub fn get_core_info(&self, core_name: &str) -> (r: Option<&CoreInfo>)
        requires
            self.wf(),
        ensures
            r is Some <==> self.core_table().contains_key(core_name@),
            r matches Some(c) ==> c@ == self.core_table()[core_name@],
    {
        self.cores.get(core_name)
    }

    /// Registers a core under `core_name` and gives it every system that it runs.
    pub fn add_core(&mut self, core_name: String, core_info: CoreInfo)
        requires
            old(self).wf(),
        ensures
            final(self).wf(),
            final(self).system_table() == systems_given(
                old(self).system_table(),
                core_info@.supported_systems,
                core_name@,
            ),
            final(self).core_table() == old(self).core_table().insert(core_name@, core_info@),
            final(self).system_order() == order_given(
                old(self).system_order(),
                core_info@.supported_systems,
            ),
    {
        let ghost s0 = self.system_table();
        let ghost c0 = self.core_table();
        let ghost o0 = self.system_order();
        let ghost systems = core_info@.supported_systems;
        let mut i: usize = 0;
        assert(systems.take(0) =~= Seq::<Seq<char>>::empty());
        while i < core_info.supported_systems.len()
            invariant
                i <= core_info.supported_systems.len(),
                systems == string_texts(core_info.supported_systems@),
                self.wf(),
                self.core_table() == c0,
                self.system_table() == systems_given(s0, systems.take(i as int), core_name@),
                self.system_order() == order_given(o0, systems.take(i as int)),
            decreases core_info.supported_systems.len() - i,
        {
            let ghost before = self.system_table();
            assert(systems.take(i + 1).drop_last() == systems.take(i as int));
            assert(systems.take(i + 1).last() == core_info.supported_systems@[i as int]@);
            proof {
                self.system_cores.lemma_view();
            }
            self.system_cores.insert(core_info.supported_systems[i].clone(), core_name.clone());
            assert(self.system_table() =~= before.insert(
                core_info.supported_systems@[i as int]@,
                core_name@,
            ));
            i += 1;
        }
        assert(systems.take(systems.len() as int) == systems);
        self.cores.insert(core_name, core_info);
        assert(self.core_table() =~= c0.insert(core_name@, core_info@));
    }

    /// The systems that have a core, in the order in which they first got one.
    pub fn get_supported_systems(&self) -> (r: Vec<String>)
        requires
            self.wf(),
        ensures
            string_texts(r@) == self.system_order(),
            forall|s: Seq<char>| string_texts(r@).contains(s) <==> self.system_table().contains_key(s),
    {
        let mut r: Vec<String> = Vec::new();
        let n = self.system_cores.len();
        let mut i: usize = 0;
        while i < n
            invariant
                i <= n,
                self.wf(),
                n == self.system_cores.key_seq().len(),
                string_texts(r@) == self.system_cores.key_seq().take(i as int),
            decreases n - i,
        {
            let ghost before = string_texts(r@);
            let k = self.system_cores.key_at(i).clone();
            r.push(k);
            assert(string_texts(r@) =~= before.push(k@));
            assert(self.system_cores.key_seq().take(i + 1) =~= before.push(k@));
            i += 1;
        }
        assert(self.system_cores.key_seq().take(n as int) == self.system_cores.key_seq());
        proof {
            self.system_cores.lemma_view();
            assert(self.system_table().dom() =~= self.system_cores@.dom());
        }
        r
    }

    /// All cores by name.
    pub fn get_all_cores(&self) -> (r: &StrMap<CoreInfo>)
        requires
            self.wf(),
        ensures
            r.wf(),
            r@.map_values(|c: CoreInfo| c@) == self.core_table(),
    {
        &self.cores
    }
}

} // verus!
