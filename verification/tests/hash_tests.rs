use ffxiv_pack::hash;

#[test]
fn test_hash_file_name() {
    assert_eq!(hash::compute(&String::from("bgm_system_title.scd")), 0xE3B71579)
}

#[test]
fn test_hash_folder_name() {
    assert_eq!(hash::compute(&String::from("music/ffxiv")), 0x0AF269D6)
}

#[test]
fn test_hash_path() {
    let hash::PathHash { folder_hash, file_hash } =
        hash::compute_path(&String::from("music/ffxiv/bgm_system_title.scd"));
    assert_eq!(folder_hash, 0x0AF269D6);
    assert_eq!(file_hash, 0xE3B71579)
}

#[test]
fn test_hash_lower_eq() {
    assert_eq!(
        hash::compute(&String::from("bgm_system_title.scd")),
        hash::compute(&String::from("BGM_System_Title.scd"))
    );
}

#[test]
fn test_hash_path_case_insensitive() {
    let a = hash::compute_path(&String::from("music/ffxiv/bgm_system_title.scd"));
    let b = hash::compute_path(&String::from("MUSIC/FFXIV/BGM_SYSTEM_TITLE.SCD"));
    assert_eq!(a.folder_hash, b.folder_hash);
    assert_eq!(a.file_hash, b.file_hash);
}

#[test]
fn test_hash_no_slash_uses_empty_folder() {
    let h = hash::compute_path(&String::from("bgm_system_title.scd"));
    // the folder hash of a slash-less path is the hash of the empty string:
    // the CRC register stays at its all-ones initial value
    assert_eq!(h.folder_hash, 0xFFFFFFFF);
    assert_eq!(h.file_hash, 0xE3B71579);
}
