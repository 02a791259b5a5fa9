use dpc::output::text::{
    format_arg_fake_player, format_arg_local_storage_entry, format_lit_fake_player,
    format_local_storage_entry, format_local_storage_path, format_reg_fake_player,
    format_ret_fake_player, format_ret_local_storage_entry, get_stripped_name_unstable,
    FAKE_PLAYER_CHARSET, RESOURCE_LOCATION_CHARSET,
};

#[test]
fn test_unstable_stripping() {
    assert_eq!(get_stripped_name_unstable(0, &RESOURCE_LOCATION_CHARSET), "");
    assert_eq!(get_stripped_name_unstable(1, &RESOURCE_LOCATION_CHARSET), "b");
    assert_eq!(get_stripped_name_unstable(38, &RESOURCE_LOCATION_CHARSET), ".");
    assert_eq!(get_stripped_name_unstable(39, &RESOURCE_LOCATION_CHARSET), "ab");
}

#[test]
fn stripped_names_differ_for_different_counters() {
    let mut seen = Vec::new();
    for i in 0..2000u32 {
        let name = get_stripped_name_unstable(i, &FAKE_PLAYER_CHARSET);
        assert!(!seen.contains(&name));
        seen.push(name);
    }
}

#[test]
fn fake_player_formats() {
    assert_eq!(format_reg_fake_player(3, "foo"), "%rfoo3");
    assert_eq!(format_lit_fake_player(-12), "%l-12");
    assert_eq!(format_lit_fake_player(7), "%l7");
    assert_eq!(format_arg_fake_player(0, "f"), "%af0");
    assert_eq!(format_ret_fake_player(2, "f"), "%Rf2");
}

#[test]
fn storage_entry_formats() {
    assert_eq!(format_local_storage_entry(10, "g"), "rg10");
    assert_eq!(format_arg_local_storage_entry(1, "g"), "ag1");
    assert_eq!(format_ret_local_storage_entry(4, "g"), "Rg4");
    assert_eq!(format_local_storage_path("rg10"), "rg10");
}
