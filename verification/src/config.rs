//! The configuration of the program and how the command line overrides it.

use vstd::prelude::*;
use crate::cli::Args;
use crate::core_mapper::clone_strings;
use crate::dat_parser::{clone_opt_string, opt_text};
use crate::error::ConfigError;
use crate::platform::Platform;
use crate::scanner::string_texts;
use crate::str_map::StrMap;

verus! {

/// The general settings.
#[derive(Debug, Clone, Copy, PartialEq, Eq, Structural)]
pub struct GeneralConfig {
    pub source_platform: Option<Platform>,
    pub target_platform: Option<Platform>,
    pub auto_download_dats: bool,
    pub create_master_playlist: bool,
    pub threads: Option<usize>,
    pub calculate_crc: bool,
    pub recursive_scan: bool,
}

/// The paths as mathematical values.
pub struct PathsModel {
    pub roms_directories: Seq<Seq<char>>,
    pub output_directory: Seq<char>,
    pub dat_directory: Option<Seq<char>>,
    pub custom_extensions: Option<Seq<Seq<char>>>,
}

/// The paths.
#[derive(Debug)]
pub struct PathsConfig {
    pub roms_directories: Vec<String>,
    pub output_directory: String,
    pub dat_directory: Option<String>,
    pub custom_extensions: Option<Vec<String>>,
}

/// The texts of an optional list of strings.
pub open spec fn opt_texts(o: Option<Vec<String>>) -> Option<Seq<Seq<char>>> {
    match o {
        Some(v) => Some(string_texts(v@)),
        None => None,
    }
}

impl View for PathsConfig {
    type V = PathsModel;

    open spec fn view(&self) -> PathsModel {
        PathsModel {
            roms_directories: string_texts(self.roms_directories@),
            output_directory: self.output_directory@,
            dat_directory: opt_text(self.dat_directory),
            custom_extensions: opt_texts(self.custom_extensions),
        }
    }
}

/// The cores to use instead of the standard ones.
pub struct CoresConfig {
    pub override_system_cores: StrMap<String>,
    pub custom_core_paths: Vec<(Platform, String)>,
}

/// The settings for catalogs.
#[derive(Debug)]
pub struct DatConfig {
    pub auto_download: bool,
    pub download_sources: Vec<String>,
    pub update_interval_days: u32,
}

/// The configuration.
pub struct Config {
    pub general: GeneralConfig,
    pub paths: PathsConfig,
    pub cores: CoresConfig,
    pub dat: DatConfig,
}

/// The general settings that a configuration starts with.
pub open spec fn default_general() -> GeneralConfig {
    GeneralConfig {
        source_platform: None,
        target_platform: None,
        auto_download_dats: false,
        create_master_playlist: true,
        threads: None,
        calculate_crc: true,
        recursive_scan: true,
    }
}

/// The paths that a configuration starts with.
pub open spec fn default_paths() -> PathsModel {
    PathsModel {
        roms_directories: Seq::empty(),
        output_directory: "./playlists"@,
        dat_directory: Some("./dats"@),
        custom_extensions: None,
    }
}

/// The general settings after the command line had its say.
pub open spec fn merged_general(g: GeneralConfig, args: Args) -> GeneralConfig {
    GeneralConfig {
        source_platform: match args.source_platform {
            Some(p) => Some(p),
            None => g.source_platform,
        },
        target_platform: match args.target_platform {
            Some(p) => Some(p),
            None => g.target_platform,
        },
        auto_download_dats: g.auto_download_dats,
        create_master_playlist: g.create_master_playlist && !args.skip_master,
        threads: match args.threads {
            Some(t) => Some(t),
            None => g.threads,
        },
        calculate_crc: g.calculate_crc && !args.no_crc,
        recursive_scan: g.recursive_scan && !args.no_recursive,
    }
}

/// The paths after the command line had its say.
pub open spec fn merged_paths(p: PathsModel, args: Args) -> PathsModel {
    PathsModel {
        roms_directories: if args.roms_dirs@.len() > 0 {
            string_texts(args.roms_dirs@)
        } else {
            p.roms_directories
        },
        output_directory: args.output_dir@,
        dat_directory: match args.dat_dir {
            Some(d) => Some(d@),
            None => p.dat_directory,
        },
        custom_extensions: match args.extensions {
            Some(e) => Some(string_texts(e@)),
            None => p.custom_extensions,
        },
    }
}

impl Default for Config {
    fn default() -> (c: Self)
        ensures
            c.wf(),
            c.general == default_general(),
            c.paths@ == default_paths(),
            c.cores.override_system_cores@ == Map::<Seq<char>, String>::empty(),
            c.cores.custom_core_paths@.len() == 0,
            !c.dat.auto_download,
            string_texts(c.dat.download_sources@) == seq![
                "https://datomatic.no-intro.org/"@,
                "http://redump.org/"@,
            ],
            c.dat.update_interval_days == 30,
    {
        let mut sources: Vec<String> = Vec::new();
        sources.push("https://datomatic.no-intro.org/".to_owned());
        sources.push("http://redump.org/".to_owned());
        assert(string_texts(sources@) =~= seq![
            "https://datomatic.no-intro.org/"@,
            "http://redump.org/"@,
        ]);
        let c = Config {
            general: GeneralConfig {
                source_platform: None,
                target_platform: None,
                auto_download_dats: false,
                create_master_playlist: true,
                threads: None,
                calculate_crc: true,
                recursive_scan: true,
            },
            paths: PathsConfig {
                roms_directories: Vec::new(),
                output_directory: "./playlists".to_owned(),
                dat_directory: Some("./dats".to_owned()),
                custom_extensions: None,
            },
            cores: CoresConfig {
                override_system_cores: StrMap::new(),
                custom_core_paths: Vec::new(),
            },
            dat: DatConfig { auto_download: false, download_sources: sources, update_interval_days: 30 },
        };
        assert(c.paths@.roms_directories =~= Seq::<Seq<char>>::empty());
        c
    }
}

/// The general settings after the command line had its say.
pub fn merge_general(g: GeneralConfig, args: &Args) -> (r: GeneralConfig)
    ensures
        r == merged_general(g, *args),
{
    GeneralConfig {
        source_platform: match args.source_platform {
            Some(p) => Some(p),
            None => g.source_platform,
        },
        target_platform: match args.target_platform {
            Some(p) => Some(p),
            None => g.target_platform,
        },
        auto_download_dats: g.auto_download_dats,
        create_master_playlist: g.create_master_playlist && !args.skip_master,
        threads: match args.threads {
            Some(t) => Some(t),
            None => g.threads,
        },
        calculate_crc: g.calculate_crc && !args.no_crc,
        recursive_scan: g.recursive_scan && !args.no_recursive,
    }
}

/// The paths after the command line had its say.
pub fn merge_paths(p: &PathsConfig, args: &Args) -> (r: PathsConfig)
    ensures
        r@ == merged_paths(p@, *args),
{
    let roms = if args.roms_dirs.len() > 0 {
        clone_strings(&args.roms_dirs)
    } else {
        clone_strings(&p.roms_directories)
    };
    let dat = match &args.dat_dir {
        Some(d) => Some(d.clone()),
        None => clone_opt_string(&p.dat_directory),
    };
    let ext = match &args.extensions {
        Some(e) => Some(clone_strings(e)),
        None => match &p.custom_extensions {
            Some(e) => Some(clone_strings(e)),
            None => None,
        },
    };
    PathsConfig {
        roms_directories: roms,
        output_directory: args.output_dir.clone(),
        dat_directory: dat,
        custom_extensions: ext,
    }
}

/// What was found at the place of the configuration file.
pub enum Found {
    /// There is no file.
    Nothing,
    /// There is a file, and this is what reading it gave.
    Loaded(Result<Config, ConfigError>),
}

impl Config {
    /// The table of core overrides is well formed.
    pub open spec fn wf(&self) -> bool {
        self.cores.override_system_cores.wf()
    }

    /// The path of the configuration file: the one given, else `config.toml`.
    pub open spec fn config_path(path: Option<&str>) -> Seq<char> {
        match path {
            Some(p) => p@,
            None => "config.toml"@,
        }
    }

    /// The configuration to work with, given what was found at the place of the
    /// configuration file: what the file gave, or the default where there is no
    /// file. With the default comes the path to save it to.
    pub fn load_or_create(path: Option<&str>, found: Found) -> (r: (
        Result<Config, ConfigError>,
        Option<String>,
    ))
        ensures
            match found {
                Found::Loaded(l) => r.0 == l && r.1 is None,
                Found::Nothing => (r.0 matches Ok(c) && c.general == default_general() && c.paths@
                    == default_paths() && c.wf()) && (r.1 matches Some(p) && p@ == Self::config_path(
                    path,
                )),
            },
    {
        match found {
            Found::Loaded(l) => (l, None),
            Found::Nothing => {
                let p = match path {
                    Some(p) => p.to_owned(),
                    None => "config.toml".to_owned(),
                };
                (Ok(Config::default()), Some(p))
            },
        }
    }

    /// Lets the command line override the configuration.
    pub fn merge_with_cli_args(&mut self, args: &Args)
        ensures
            final(self).general == merged_general(old(self).general, *args),
            final(self).paths@ == merged_paths(old(self).paths@, *args),
            final(self).cores == old(self).cores,
            final(self).dat.auto_download == (old(self).dat.auto_download
                || args.auto_download_dats),
            final(self).dat.download_sources == old(self).dat.download_sources,
            final(self).dat.update_interval_days == old(self).dat.update_interval_days,
    {
        self.general = merge_general(self.general, args);
        let paths = merge_paths(&self.paths, args);
        self.paths = paths;
        if args.auto_download_dats {
            self.dat.auto_download = true;
        }
    }

    /// Whether the configuration can be worked with: it names a ROM directory.
    pub fn validate(&self) -> (r: Result<(), ConfigError>)
        ensures
            r is Ok <==> self.paths@.roms_directories.len() > 0,
            r matches Err(e) ==> e is NoRomDirectories,
    {
        if self.paths.roms_directories.len() == 0 {
            Err(ConfigError::NoRomDirectories)
        } else {
            Ok(())
        }
    }
}

/// A configuration with example values.
pub fn create_sample_config() -> (c: Config)
    ensures
        c.wf(),
        c.general == (GeneralConfig {
            source_platform: Some(Platform::Windows),
            target_platform: Some(Platform::Switch),
            threads: Some(8usize),
            ..default_general()
        }),
        c.paths@ == (PathsModel {
            roms_directories: seq!["D:/Games/ROMs"@, "E:/RetroGaming/ROMs"@],
            ..default_paths()
        }),
        c.cores.override_system_cores@.dom() == set!["Nintendo - Nintendo 64"@],
        c.cores.override_system_cores@["Nintendo - Nintendo 64"@]@ == "parallel_n64"@,
        c.dat.auto_download,
        c.dat.update_interval_days == 30,
{
    let mut c = Config::default();
    c.general.source_platform = Some(Platform::Windows);
    c.general.target_platform = Some(Platform::Switch);
    c.general.threads = Some(8);
    let mut dirs: Vec<String> = Vec::new();
    dirs.push("D:/Games/ROMs".to_owned());
    dirs.push("E:/RetroGaming/ROMs".to_owned());
    assert(string_texts(dirs@) =~= seq!["D:/Games/ROMs"@, "E:/RetroGaming/ROMs"@]);
    c.paths.roms_directories = dirs;
    c.paths.output_directory = "./playlists".to_owned();
    c.paths.dat_directory = Some("./dats".to_owned());
    let value = "parallel_n64".to_owned();
    c.cores.override_system_cores.insert("Nintendo - Nintendo 64".to_owned(), value);
    assert(c.cores.override_system_cores@.dom() =~= set!["Nintendo - Nintendo 64"@]);
    c.dat.auto_download = true;
    c
}

} // verus!
