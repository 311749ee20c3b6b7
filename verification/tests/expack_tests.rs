use ffxiv_pack::{ExFileIdentifier, FFXIV, FFXIVError, FileType, GameExpansion};

#[test]
fn test_index_path_music_ffxiv() {
    let ex = ExFileIdentifier::new(&String::from("music/ffxiv/bgm_system_title.scd")).unwrap();
    let p = ex.get_index_file(&String::from("root"));
    assert_eq!(p, "root/ffxiv/0c0000.win32.index");
}

#[test]
fn test_index_path_music_ex2() {
    let ex = ExFileIdentifier::new(&String::from("music/ex2/BGM_EX2_Dan_D09.scd")).unwrap();
    let p = ex.get_index_file(&String::from("root"));
    assert_eq!(p, "root/ex2/0c0200.win32.index");
}

#[test]
fn test_dat_path() {
    let ex = ExFileIdentifier::new(&String::from("music/ffxiv/bgm_system_title.scd")).unwrap();
    let p = ex.get_dat_file(&String::from("root"), 0);
    assert_eq!(p, "root/ffxiv/0c0000.win32.dat0");
    let p12 = ex.get_dat_file(&String::from("root"), 12);
    assert_eq!(p12, "root/ffxiv/0c0000.win32.dat12");
}

#[test]
fn test_base_file_name() {
    let ex = ExFileIdentifier::new(&String::from("bg/ex1/030_abc/stuff.mdl")).unwrap();
    assert_eq!(ex.get_sqpack_base_file_name(), "020130");
}

#[test]
fn test_number_not_three_hex_chars_is_zero() {
    let ex = ExFileIdentifier::new(&String::from("bg/ffxiv/zone_x/stuff.mdl")).unwrap();
    assert_eq!(ex.get_sqpack_base_file_name(), "020000");
}

#[test]
fn test_number_too_large_is_zero() {
    // 0xfff does not fit a byte, so the number falls back to zero
    let ex = ExFileIdentifier::new(&String::from("bg/ffxiv/fff_abc/stuff.mdl")).unwrap();
    assert_eq!(ex.get_sqpack_base_file_name(), "020000");
}

#[test]
fn test_exd_prefix_override() {
    let ex = ExFileIdentifier::new(&String::from("exd/root.exl")).unwrap();
    assert_eq!(ex.get_sqpack_base_file_name(), "0a0000");
    let p = ex.get_index_file(&String::from("root"));
    assert_eq!(p, "root/ffxiv/0a0000.win32.index");
}

#[test]
fn test_unknown_file_type() {
    let r = ExFileIdentifier::new(&String::from("nope/ffxiv/000_abc"));
    assert!(matches!(r, Err(FFXIVError::UnknownFileType(p)) if p == "nope/ffxiv/000_abc"));
}

#[test]
fn test_unknown_expansion() {
    let r = ExFileIdentifier::new(&String::from("music/ex9/whatever"));
    assert!(matches!(r, Err(FFXIVError::UnknownExpansion(_))));
}

#[test]
fn test_corrupt_file_name() {
    let r = ExFileIdentifier::new(&String::from("music"));
    assert!(matches!(r, Err(FFXIVError::CorruptFileName(_))));
    let r2 = ExFileIdentifier::new(&String::from("music/ffxiv"));
    assert!(matches!(r2, Err(FFXIVError::CorruptFileName(_))));
}

#[test]
fn test_classification_is_case_insensitive() {
    let ex = ExFileIdentifier::new(&String::from("MUSIC/FFXIV/BGM_System_Title.scd")).unwrap();
    assert_eq!(ex.file_type, FileType::Music);
    assert_eq!(ex.expansion, GameExpansion::FFXIV);
}

#[test]
fn test_codes_and_names() {
    assert_eq!(FileType::Music.get_sqpack_code(), "0c");
    assert_eq!(FileType::Music.get_hashcode(), 0x0c);
    assert_eq!(FileType::Debug.get_sqpack_code(), "13");
    assert_eq!(GameExpansion::EX2.get_sqpack_code(), "02");
    assert_eq!(GameExpansion::EX2.get_sqpack_name(), "ex2");
    assert_eq!(GameExpansion::EX1.get_hashcode(), 1);
}

#[test]
fn test_from_expath_string_helpers() {
    let ft = FileType::from_expath_string(&String::from("sound/ffxiv/x")).unwrap();
    assert_eq!(ft, FileType::Sound);
    let exp = GameExpansion::from_expath_string(&String::from("sound/ex1/x")).unwrap();
    assert_eq!(exp, GameExpansion::EX1);
}

#[test]
fn test_facade_get_exfile() {
    let f = FFXIV::new(&String::from("root"));
    let ex = f.get_exfile(&String::from("music/ffxiv/bgm_system_title.scd")).unwrap();
    assert_eq!(ex.file_type, FileType::Music);
    let h = ex.get_sqpack_hashcode();
    assert_eq!(h.folder_hash, 0x0AF269D6);
    assert_eq!(h.file_hash, 0xE3B71579);
}
