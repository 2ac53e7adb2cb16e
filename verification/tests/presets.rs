use amdu::presets::{Mod, ModPreset, PresetParser};
use amdu::urlid::{extract_mod_id, IdScan};

fn mk(id: u64, name: &str) -> Mod {
    Mod {
        tags: vec![],
        url: format!("http://example.invalid/?id={}", id),
        id,
        name: name.to_string(),
        local_filesize: 0,
    }
}

const PRESET_HTML: &str = "<html><body>\
<strong>Alpha Pack</strong>\
<table>\
<tr data-type=\"ModContainer\"><td data-type=\"DisplayName\">CBA_A3</td>\
<td><a href=\"http://steamcommunity.com/sharedfiles/filedetails/?id=450814997\" data-type=\"Link\">link</a></td></tr>\
<tr data-type=\"ModContainer\"><td data-type=\"DisplayName\">ace</td>\
<td><a href=\"http://steamcommunity.com/sharedfiles/filedetails/?id=463939057\" data-type=\"Link\">link</a></td></tr>\
</table>\
</body></html>";

#[test]
fn preset_loads_from_document() {
    let preset = ModPreset::new(PRESET_HTML.to_string(), None).unwrap();
    assert_eq!(preset.name, "Alpha Pack");
    assert_eq!(preset.get_id_list(), vec![450814997, 463939057]);
    assert_eq!(preset.mods[0].name, "CBA_A3");
    assert_eq!(
        preset.mods[0].url,
        "http://steamcommunity.com/sharedfiles/filedetails/?id=450814997"
    );
    assert_eq!(preset.mods[1].name, "ace");
}

#[test]
fn preset_name_falls_back_to_filename() {
    let html = "<html><body><table>\
<tr data-type=\"ModContainer\"><td>thing</td>\
<td><a href=\"http://steamcommunity.com/sharedfiles/filedetails/?id=12345\">link</a></td></tr>\
</table></body></html>";
    let preset = ModPreset::new(html.to_string(), Some("my_preset.html".to_string())).unwrap();
    assert_eq!(preset.name, "my_preset.html");
    assert_eq!(preset.get_id_list(), vec![12345]);
}

#[test]
fn preset_without_any_name_is_rejected() {
    let html = "<html><body><table>\
<tr data-type=\"ModContainer\"><td>thing</td>\
<td><a href=\"http://steamcommunity.com/sharedfiles/filedetails/?id=12345\">link</a></td></tr>\
</table></body></html>";
    assert!(ModPreset::new(html.to_string(), None).is_err());
}

#[test]
fn document_without_mod_table_is_rejected() {
    let html = "<html><body><strong>Empty</strong><p>nothing here</p></body></html>";
    assert!(ModPreset::new(html.to_string(), None).is_err());
}

#[test]
fn entry_without_identifier_is_skipped() {
    let html = "<html><body><strong>Partial</strong><table>\
<tr data-type=\"ModContainer\"><td>local mod</td>\
<td><a href=\"file://local/no-id-here\">link</a></td></tr>\
<tr data-type=\"ModContainer\"><td>real mod</td>\
<td><a href=\"http://steamcommunity.com/sharedfiles/filedetails/?id=777777\">link</a></td></tr>\
</table></body></html>";
    let preset = ModPreset::new(html.to_string(), None).unwrap();
    assert_eq!(preset.get_id_list(), vec![777777]);
}

#[test]
fn oversized_identifier_rejects_the_document() {
    let html = "<html><body><strong>Huge</strong><table>\
<tr data-type=\"ModContainer\"><td>giant</td>\
<td><a href=\"http://steamcommunity.com/sharedfiles/filedetails/?id=99999999999999999999999\">link</a></td></tr>\
</table></body></html>";
    assert!(ModPreset::new(html.to_string(), None).is_err());
}

#[test]
fn from_entries_builds_mods() {
    let entries = vec![
        ("first".to_string(), "http://x/?id=10000".to_string()),
        ("short".to_string(), "http://x/?id=123".to_string()),
        ("second".to_string(), "http://x/?id=20000".to_string()),
    ];
    let preset = ModPreset::from_entries("set".to_string(), entries).unwrap();
    // The three-digit URL names no identifier and is skipped.
    assert_eq!(preset.get_id_list(), vec![10000, 20000]);
    assert_eq!(preset.mods[0].name, "first");
    assert_eq!(preset.mods[0].local_filesize, 0);
    assert!(preset.mods[0].tags.is_empty());
}

#[test]
fn scan_finds_first_long_digit_run() {
    assert_eq!(
        extract_mod_id("http://steamcommunity.com/sharedfiles/filedetails/?id=450814997"),
        IdScan::Found(450814997)
    );
    // The first run of four or more digits wins, and runs to its end.
    assert_eq!(extract_mod_id("abc123x456789y0000"), IdScan::Found(456789));
    assert_eq!(extract_mod_id("a0001b"), IdScan::Found(1));
}

#[test]
fn scan_without_long_run_is_missing() {
    assert_eq!(extract_mod_id(""), IdScan::Missing);
    assert_eq!(extract_mod_id("no digits at all"), IdScan::Missing);
    assert_eq!(extract_mod_id("1a22b333c"), IdScan::Missing);
    assert_eq!(extract_mod_id("123"), IdScan::Missing);
}

#[test]
fn scan_exactly_four_digits() {
    assert_eq!(extract_mod_id("x1234y"), IdScan::Found(1234));
}

#[test]
fn scan_largest_value_and_overflow() {
    assert_eq!(
        extract_mod_id("id=18446744073709551615"),
        IdScan::Found(u64::MAX)
    );
    assert_eq!(extract_mod_id("id=18446744073709551616"), IdScan::TooLarge);
    assert_eq!(extract_mod_id("id=99999999999999999999999"), IdScan::TooLarge);
}

#[test]
fn parser_holds_presets() {
    let mut parser = PresetParser::new();
    assert!(parser.get_modpresets().is_empty());
    let presets = vec![
        ModPreset {
            name: "one".to_string(),
            mods: vec![mk(3, "c"), mk(1, "a")],
        },
        ModPreset {
            name: "two".to_string(),
            mods: vec![mk(2, "b"), mk(1, "a")],
        },
    ];
    parser.set_modpresets(presets).unwrap();
    let held = parser.get_modpresets();
    assert_eq!(held.len(), 2);
    assert_eq!(held[0].name, "one");
    assert_eq!(held[1].get_id_list(), vec![2, 1]);
}

#[test]
fn unique_ids_are_sorted_and_deduplicated() {
    let mut parser = PresetParser::new();
    parser
        .set_modpresets(vec![
            ModPreset {
                name: "one".to_string(),
                mods: vec![mk(30, "c"), mk(10, "a")],
            },
            ModPreset {
                name: "two".to_string(),
                mods: vec![mk(20, "b"), mk(10, "a2"), mk(30, "c2")],
            },
        ])
        .unwrap();
    assert_eq!(parser.get_all_mod_ids_unique().unwrap(), vec![10, 20, 30]);
}

#[test]
fn unique_ids_of_empty_parser() {
    let parser = PresetParser::new();
    assert_eq!(parser.get_all_mod_ids_unique().unwrap(), Vec::<u64>::new());
}

#[test]
fn mod_equality_is_by_id_alone() {
    let a = mk(7, "alpha");
    let mut b = mk(7, "totally different");
    b.local_filesize = 999;
    assert!(a == b);
    let c = mk(8, "alpha");
    assert!(a != c);
}
