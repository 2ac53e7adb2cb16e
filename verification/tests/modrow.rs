use amdu::modrow::{
    count_selected, rows_for_selection, selected_ids, selected_size_sum, set_all_selected,
    set_row_selected, ModRow,
};
use amdu::presets::Mod;

fn mk(id: u64, name: &str, size: u64) -> Mod {
    Mod {
        tags: vec![],
        url: format!("http://example.invalid/?id={}", id),
        id,
        name: name.to_string(),
        local_filesize: size,
    }
}

#[test]
fn row_carries_its_fields() {
    let row = ModRow::new(9, "name".to_string(), "url".to_string(), 321, true);
    assert_eq!(row.id, 9);
    assert_eq!(row.name, "name");
    assert_eq!(row.url, "url");
    assert_eq!(row.file_size, 321);
    assert!(row.selected);
}

#[test]
fn rows_are_rebuilt_from_candidates() {
    let diff = vec![mk(1, "a", 10), mk(2, "b", 20)];
    let rows = rows_for_selection(&diff, true);
    assert_eq!(rows.len(), 2);
    assert_eq!(rows[0].id, 1);
    assert_eq!(rows[0].file_size, 10);
    assert!(rows[0].selected && rows[1].selected);
}

#[test]
fn toggling_rows_and_counting() {
    let diff = vec![mk(1, "a", 5), mk(2, "b", 6), mk(3, "c", 7)];
    let mut rows = rows_for_selection(&diff, true);
    assert_eq!(count_selected(&rows), 3);
    set_row_selected(&mut rows, 1, false);
    assert_eq!(count_selected(&rows), 2);
    assert_eq!(selected_ids(&rows), vec![1, 3]);
    assert_eq!(selected_size_sum(&rows), 12);
    set_all_selected(&mut rows, false);
    assert_eq!(count_selected(&rows), 0);
    assert_eq!(selected_ids(&rows), Vec::<u64>::new());
    assert_eq!(selected_size_sum(&rows), 0);
    set_all_selected(&mut rows, true);
    assert_eq!(count_selected(&rows), 3);
    assert_eq!(selected_size_sum(&rows), 18);
}

#[test]
fn size_sum_saturates_instead_of_wrapping() {
    let diff = vec![mk(1, "a", u64::MAX), mk(2, "b", 100)];
    let rows = rows_for_selection(&diff, true);
    assert_eq!(selected_size_sum(&rows), u64::MAX);
}
