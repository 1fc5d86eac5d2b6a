use openwilly::game_files::{
    counts_as_game_file, entry_path, game_signatures, is_game_extension, is_installer_name,
    is_iso_extension, is_movie_file, iso_entry_name, reuse_extraction, skip_on_extract,
};

#[test]
fn disc_entry_names() {
    assert_eq!(iso_entry_name("\0"), None);
    assert_eq!(iso_entry_name("\x01"), None);
    assert_eq!(iso_entry_name(""), None);
    assert_eq!(iso_entry_name("DATA.CST;1").as_deref(), Some("DATA.CST"));
    assert_eq!(iso_entry_name("MOVIES").as_deref(), Some("MOVIES"));
    assert_eq!(iso_entry_name(";1").as_deref(), Some(""));
    assert_eq!(entry_path("", "DATA.CST"), "DATA.CST");
    assert_eq!(entry_path("MOVIES", "03.DXR"), "MOVIES/03.DXR");
}

#[test]
fn installer_files_are_skipped() {
    assert!(skip_on_extract("autorun.inf"));
    assert!(skip_on_extract("Setup.exe"));
    assert!(skip_on_extract("INSTALL.EXE"));
    assert!(skip_on_extract("mysetup.ini"));
    assert!(skip_on_extract("install32.ini"));
    assert!(!skip_on_extract("game.ini"));
    assert!(!skip_on_extract("WILLY32.EXE"));
    assert!(is_installer_name("SETUP.EXE"));
    assert!(!is_installer_name("setup.exe"));
}

#[test]
fn game_file_extensions() {
    for ext in ["dxr", "CXT", "cst", "Dir", "hlp", "exe", "x32"] {
        assert!(counts_as_game_file(ext), "{}", ext);
    }
    assert!(!counts_as_game_file("txt"));
    assert!(!counts_as_game_file(""));
    assert!(is_game_extension("DXR"));
    assert!(!is_game_extension("dxr"));
    assert!(is_movie_file("03.dxr"));
    assert!(is_movie_file("02.CXT"));
    assert!(!is_movie_file("DATA.CST"));
    assert!(is_iso_extension("iso"));
    assert!(is_iso_extension("ISO"));
    assert!(is_iso_extension("IsO"));
    assert!(!is_iso_extension("iso2"));
    assert!(!is_iso_extension("img"));
}

#[test]
fn signatures_and_cache_reuse() {
    assert_eq!(game_signatures(), &["DATA.CST", "Startcd.dir", "AUTOBAU.HLP", "WILLY32.EXE", "Data/DATA.CST"]);
    assert!(reuse_extraction(true, 10));
    assert!(!reuse_extraction(true, 9));
    assert!(!reuse_extraction(false, 50));
}
