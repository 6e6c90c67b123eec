use retroarch_fast_indexer::cli::{Args, CacheAction, Commands, DeduplicationStrategy};
use retroarch_fast_indexer::config::{create_sample_config, Config, Found};
use retroarch_fast_indexer::deduplicator::Strategy;
use retroarch_fast_indexer::error::ConfigError;
use retroarch_fast_indexer::platform::Platform;

#[test]
fn test_default_config() {
    let config = Config::default();

    assert_eq!(config.general.create_master_playlist, true);
    assert_eq!(config.general.calculate_crc, true);
    assert_eq!(config.general.recursive_scan, true);
    assert_eq!(config.paths.output_directory, "./playlists");
}

#[test]
fn test_config_validation() {
    let mut config = Config::default();

    // Empty roms directories should fail validation
    let result = config.validate();
    assert!(result.is_err());

    // Add a roms directory
    config.paths.roms_directories.push("/nonexistent".to_string());
    let result = config.validate();
    assert!(result.is_ok());
}

#[test]
fn validation_names_the_missing_directories() {
    assert!(matches!(Config::default().validate(), Err(ConfigError::NoRomDirectories)));
}

#[test]
fn default_config_values() {
    let config = Config::default();
    assert_eq!(config.general.source_platform, None);
    assert_eq!(config.general.target_platform, None);
    assert_eq!(config.general.threads, None);
    assert!(!config.general.auto_download_dats);
    assert!(config.paths.roms_directories.is_empty());
    assert_eq!(config.paths.dat_directory, Some("./dats".to_string()));
    assert_eq!(config.paths.custom_extensions, None);
    assert!(!config.dat.auto_download);
    assert_eq!(
        config.dat.download_sources,
        vec!["https://datomatic.no-intro.org/".to_string(), "http://redump.org/".to_string()]
    );
    assert_eq!(config.dat.update_interval_days, 30);
    assert!(config.cores.override_system_cores.is_empty());
}

#[test]
fn sample_config_values() {
    let config = create_sample_config();
    assert_eq!(config.general.source_platform, Some(Platform::Windows));
    assert_eq!(config.general.target_platform, Some(Platform::Switch));
    assert_eq!(config.general.threads, Some(8));
    assert_eq!(
        config.paths.roms_directories,
        vec!["D:/Games/ROMs".to_string(), "E:/RetroGaming/ROMs".to_string()]
    );
    assert_eq!(config.paths.output_directory, "./playlists");
    assert_eq!(config.paths.dat_directory, Some("./dats".to_string()));
    assert_eq!(
        config.cores.override_system_cores.get("Nintendo - Nintendo 64"),
        Some(&"parallel_n64".to_string())
    );
    assert!(config.dat.auto_download);
    assert!(config.validate().is_ok());
}

fn plain_args() -> Args {
    Args {
        roms_dirs: Vec::new(),
        source_platform: None,
        target_platform: None,
        output_dir: "./out".to_string(),
        dat_dir: None,
        auto_download_dats: false,
        system: None,
        threads: None,
        no_recursive: false,
        extensions: None,
        skip_master: false,
        config: None,
        dry_run: false,
        force: false,
        quiet: false,
        verbose: 0,
        report: None,
        no_crc: false,
        command: None,
    }
}

#[test]
fn cli_without_options_changes_the_output_directory_only() {
    let mut config = create_sample_config();
    config.merge_with_cli_args(&plain_args());
    assert_eq!(config.paths.output_directory, "./out");
    assert_eq!(config.general.source_platform, Some(Platform::Windows));
    assert_eq!(config.general.threads, Some(8));
    assert_eq!(config.paths.roms_directories.len(), 2);
    assert_eq!(config.paths.dat_directory, Some("./dats".to_string()));
    assert!(config.general.create_master_playlist);
    assert!(config.general.calculate_crc);
    assert!(config.general.recursive_scan);
    assert!(config.dat.auto_download);
}

#[test]
fn cli_options_override_the_configuration() {
    let mut config = Config::default();
    let mut args = plain_args();
    args.roms_dirs = vec!["/roms".to_string()];
    args.source_platform = Some(Platform::Linux);
    args.target_platform = Some(Platform::Android);
    args.dat_dir = Some("/dats".to_string());
    args.extensions = Some(vec!["rom".to_string()]);
    args.threads = Some(3);
    args.auto_download_dats = true;
    args.skip_master = true;
    args.no_crc = true;
    args.no_recursive = true;
    args.command = Some(Commands::Cache { action: CacheAction::Clean { max_age: 30 } });
    config.merge_with_cli_args(&args);
    assert_eq!(config.paths.roms_directories, vec!["/roms".to_string()]);
    assert_eq!(config.general.source_platform, Some(Platform::Linux));
    assert_eq!(config.general.target_platform, Some(Platform::Android));
    assert_eq!(config.paths.dat_directory, Some("/dats".to_string()));
    assert_eq!(config.paths.custom_extensions, Some(vec!["rom".to_string()]));
    assert_eq!(config.general.threads, Some(3));
    assert!(config.dat.auto_download);
    assert!(!config.general.create_master_playlist);
    assert!(!config.general.calculate_crc);
    assert!(!config.general.recursive_scan);
}

#[test]
fn missing_config_file_gives_the_default_and_a_place_to_save_it() {
    let (config, save_to) = Config::load_or_create(None, Found::Nothing);
    assert_eq!(config.unwrap().paths.output_directory, "./playlists");
    assert_eq!(save_to, Some("config.toml".to_string()));
    let (_, save_to) = Config::load_or_create(Some("my.toml"), Found::Nothing);
    assert_eq!(save_to, Some("my.toml".to_string()));
}

#[test]
fn existing_config_file_gives_what_it_holds() {
    let (config, save_to) =
        Config::load_or_create(Some("my.toml"), Found::Loaded(Ok(create_sample_config())));
    assert_eq!(config.unwrap().general.threads, Some(8));
    assert_eq!(save_to, None);
    let (config, save_to) = Config::load_or_create(
        None,
        Found::Loaded(Err(ConfigError::InvalidFormat("bad".to_string()))),
    );
    assert!(matches!(config, Err(ConfigError::InvalidFormat(m)) if m == "bad"));
    assert_eq!(save_to, None);
}

#[test]
fn cli_strategies_map_to_engine_strategies() {
    assert_eq!(DeduplicationStrategy::RegionPriority.to_strategy(), Strategy::RegionPriority);
    assert_eq!(DeduplicationStrategy::FileSize.to_strategy(), Strategy::FileSize);
    assert_eq!(DeduplicationStrategy::ModificationDate.to_strategy(), Strategy::ModificationDate);
    assert_eq!(DeduplicationStrategy::DirectoryPriority.to_strategy(), Strategy::DirectoryPriority);
    assert_eq!(DeduplicationStrategy::FilenameQuality.to_strategy(), Strategy::FilenameQuality);
}
