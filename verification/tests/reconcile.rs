use amdu::presets::{Mod, ModPreset};
use amdu::reconcile::{apply_local_size, compute_removal_set, prepare_universe};

fn mk(id: u64, name: &str) -> Mod {
    Mod {
        tags: vec![],
        url: format!("http://example.invalid/?id={}", id),
        id,
        name: name.to_string(),
        local_filesize: 0,
    }
}

fn mk_tagged(id: u64, name: &str, tags: &[&str]) -> Mod {
    Mod {
        tags: tags.iter().map(|t| t.to_string()).collect(),
        url: format!("http://example.invalid/?id={}", id),
        id,
        name: name.to_string(),
        local_filesize: 0,
    }
}

fn preset_of(name: &str, mods: Vec<Mod>) -> ModPreset {
    ModPreset {
        name: name.to_string(),
        mods,
    }
}

fn ids(mods: &[Mod]) -> Vec<u64> {
    mods.iter().map(|m| m.id).collect()
}

#[test]
fn no_keepsets_no_tags_sorts_case_insensitively() {
    // Two items, names "B" and "a": case-insensitive order puts "a" first.
    let all = vec![mk(1, "B"), mk(2, "a")];
    let result = compute_removal_set(&all, &vec![], &vec![]);
    assert_eq!(ids(&result), vec![2, 1]);
    assert_eq!(result[0].name, "a");
    assert_eq!(result[1].name, "B");
}

#[test]
fn keepset_subtracts_by_id() {
    let all = vec![mk(1, "one"), mk(2, "two"), mk(3, "three")];
    let keeps = vec![preset_of("keep", vec![mk(2, "two")])];
    let result = compute_removal_set(&all, &keeps, &vec![]);
    assert_eq!(ids(&result), vec![1, 3]);
}

#[test]
fn empty_keepsets_protect_nothing() {
    let all = vec![mk(5, "epsilon"), mk(4, "delta"), mk(3, "gamma")];
    let result = compute_removal_set(&all, &vec![], &vec![]);
    // Everything is a candidate, in case-insensitive name order.
    assert_eq!(ids(&result), vec![4, 5, 3]);
}

#[test]
fn kept_ids_never_in_removal_set() {
    let all = vec![
        mk_tagged(1, "a", &["Mod"]),
        mk_tagged(2, "b", &["Mod"]),
        mk_tagged(3, "c", &["Mod"]),
    ];
    let keeps = vec![
        preset_of("first", vec![mk(1, "a")]),
        preset_of("second", vec![mk(3, "c")]),
    ];
    let result = compute_removal_set(&all, &keeps, &vec!["Scenario".to_string()]);
    assert_eq!(ids(&result), vec![2]);
}

#[test]
fn excluded_tags_never_in_removal_set() {
    // Tag-excluded items are absent even though no keep list references them.
    let all = vec![
        mk_tagged(1, "a", &["Scenario"]),
        mk_tagged(2, "b", &["Mod"]),
        mk_tagged(3, "c", &["Composition", "Mod"]),
    ];
    let excluded = vec!["Scenario".to_string(), "Composition".to_string()];
    let result = compute_removal_set(&all, &vec![], &excluded);
    assert_eq!(ids(&result), vec![2]);
}

#[test]
fn tag_exclusion_applies_before_keep_subtraction() {
    // An item that is both tag-excluded and kept stays out; keeping it does
    // not resurrect it.
    let all = vec![mk_tagged(1, "a", &["Scenario"]), mk(2, "b")];
    let keeps = vec![preset_of("keep", vec![mk(1, "a")])];
    let excluded = vec!["Scenario".to_string()];
    let result = compute_removal_set(&all, &keeps, &excluded);
    assert_eq!(ids(&result), vec![2]);
}

#[test]
fn removal_set_empty_inputs() {
    let result = compute_removal_set(&vec![], &vec![], &vec![]);
    assert!(result.is_empty());
    let keeps = vec![preset_of("keep", vec![mk(9, "x")])];
    let result = compute_removal_set(&vec![], &keeps, &vec![]);
    assert!(result.is_empty());
}

#[test]
fn determinism_identical_inputs_identical_output() {
    let all = vec![mk(3, "cc"), mk(1, "AA"), mk(2, "bb"), mk(4, "aa")];
    let keeps = vec![preset_of("keep", vec![mk(2, "bb")])];
    let excluded = vec!["Scenario".to_string()];
    let r1 = compute_removal_set(&all, &keeps, &excluded);
    let r2 = compute_removal_set(&all, &keeps, &excluded);
    assert_eq!(ids(&r1), ids(&r2));
    let names1: Vec<&str> = r1.iter().map(|m| m.name.as_str()).collect();
    let names2: Vec<&str> = r2.iter().map(|m| m.name.as_str()).collect();
    assert_eq!(names1, names2);
}

#[test]
fn sort_is_stable_for_equal_keys() {
    // "AA" and "aa" fold to the same key; input order is kept among ties.
    let all = vec![mk(1, "AA"), mk(2, "aa"), mk(3, "Ab")];
    let result = compute_removal_set(&all, &vec![], &vec![]);
    assert_eq!(ids(&result), vec![1, 2, 3]);
}

#[test]
fn prepare_universe_filters_and_sorts() {
    let all = vec![
        mk_tagged(1, "Zulu", &["Mod"]),
        mk_tagged(2, "alpha", &["Scenario"]),
        mk_tagged(3, "Mike", &["Mod"]),
    ];
    let excluded = vec!["Scenario".to_string(), "Composition".to_string()];
    let universe = prepare_universe(&all, &excluded);
    assert_eq!(ids(&universe), vec![3, 1]);
}

#[test]
fn apply_local_size_fills_known_sizes_only() {
    let mods = vec![mk(1, "a"), mk(2, "b"), mk(3, "c")];
    let sizes = vec![Some(100u64), None, Some(7u64)];
    let out = apply_local_size(&mods, &sizes);
    assert_eq!(out.len(), 3);
    assert_eq!(out[0].local_filesize, 100);
    assert_eq!(out[1].local_filesize, 0);
    assert_eq!(out[2].local_filesize, 7);
    assert_eq!(out[1].name, "b");
}
