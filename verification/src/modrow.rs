//! The selection rows the interface shows, and their aggregates.
//!
//! Each removal candidate becomes a row with a user-toggleable `selected`
//! flag and its resolved local size. The aggregates the interface displays
//! - how many rows are selected and how much space they hold - are computed
//! here; rendering stays with the caller.

use vstd::prelude::*;

verus! {

use crate::presets::{Mod, ModView};
use vstd::pervasive::VecAdditionalExecFns;

/// One removal candidate as shown: the item, its resolved local size, and
/// whether the user has it selected for removal.
#[derive(Debug)]
pub struct ModRow {
    pub id: u64,
    pub name: String,
    pub url: String,
    pub file_size: u64,
    pub selected: bool,
}

/// The mathematical value of a `ModRow`.
pub struct ModRowView {
    pub id: u64,
    pub name: Seq<char>,
    pub url: Seq<char>,
    pub file_size: u64,
    pub selected: bool,
}

impl View for ModRow {
    type V = ModRowView;

    open spec fn view(&self) -> ModRowView {
        ModRowView {
            id: self.id,
            name: self.name@,
            url: self.url@,
            file_size: self.file_size,
            selected: self.selected,
        }
    }
}

impl DeepView for ModRow {
    type V = ModRowView;

    open spec fn deep_view(&self) -> ModRowView {
        self.view()
    }
}

impl Clone for ModRow {
    /// The copy has the same value as the original.
    fn clone(&self) -> (res: Self)
        ensures
            res@ == self@,
    {
        ModRow {
            id: self.id,
            name: self.name.clone(),
            url: self.url.clone(),
            file_size: self.file_size,
            selected: self.selected,
        }
    }
}

impl ModRow {
    /// A row for one candidate.
    pub fn new(id: u64, name: String, url: String, file_size: u64, selected: bool) -> (r: Self)
        ensures
            r@.id == id,
            r@.name == name@,
            r@.url == url@,
            r@.file_size == file_size,
            r@.selected == selected,
    {
        ModRow { id: id, name: name, url: url, file_size: file_size, selected: selected }
    }
}

/// The row a removal candidate turns into when the list is rebuilt: its
/// item data, its resolved size, and the default selection.
pub open spec fn row_of_mod(m: ModView, selected: bool) -> ModRowView {
    ModRowView {
        id: m.id,
        name: m.name,
        url: m.url,
        file_size: m.local_filesize,
        selected: selected,
    }
}

/// Build the selection rows for a freshly computed removal candidate list.
/// The list is rebuilt wholesale on every recomputation; every row starts
/// with the same default selection.
pub fn rows_for_selection(diff: &Vec<Mod>, selected: bool) -> (r: Vec<ModRow>)
    ensures
        r.deep_view().len() == diff.deep_view().len(),
        forall|i: int|
            0 <= i < diff.deep_view().len() ==> r.deep_view()[i] == row_of_mod(
                diff.deep_view()[i],
                selected,
            ),
{
    let mut out: Vec<ModRow> = Vec::new();
    let mut i: usize = 0;
    while i < diff.len()
        invariant
            i <= diff.len(),
            out.deep_view().len() == i,
            forall|j: int|
                0 <= j < i ==> out.deep_view()[j] == row_of_mod(diff.deep_view()[j], selected),
        decreases diff.len() - i,
    {
        let ghost dv = out.deep_view();
        let m = &diff[i];
        let row = ModRow {
            id: m.id,
            name: m.name.clone(),
            url: m.url.clone(),
            file_size: m.local_filesize,
            selected: selected,
        };
        proof {
            assert(row@ == row_of_mod(diff.deep_view()[i as int], selected));
        }
        out.push(row);
        proof {
            assert(out.deep_view() =~= dv.push(row_of_mod(diff.deep_view()[i as int], selected)));
        }
        i += 1;
    }
    out
}

/// Set one row's selection, leaving everything else as it was.
pub fn set_row_selected(rows: &mut Vec<ModRow>, index: usize, value: bool)
    requires
        index < old(rows)@.len(),
    ensures
        final(rows)@.len() == old(rows)@.len(),
        forall|j: int|
            0 <= j < old(rows)@.len() && j != index ==> final(rows).deep_view()[j] == old(
                rows,
            ).deep_view()[j],
        final(rows).deep_view()[index as int] == (ModRowView {
            selected: value,
            ..old(rows).deep_view()[index as int]
        }),
{
    let mut row = rows[index].clone();
    row.selected = value;
    rows.set(index, row);
}

/// Set every row's selection at once, leaving everything else as it was.
pub fn set_all_selected(rows: &mut Vec<ModRow>, value: bool)
    ensures
        final(rows)@.len() == old(rows)@.len(),
        forall|j: int|
            0 <= j < old(rows)@.len() ==> final(rows).deep_view()[j] == (ModRowView {
                selected: value,
                ..old(rows).deep_view()[j]
            }),
{
    let mut i: usize = 0;
    while i < rows.len()
        invariant
            i <= rows@.len(),
            rows@.len() == old(rows)@.len(),
            forall|j: int|
                i <= j < old(rows)@.len() ==> rows.deep_view()[j] == old(rows).deep_view()[j],
            forall|j: int|
                0 <= j < i ==> rows.deep_view()[j] == (ModRowView {
                    selected: value,
                    ..old(rows).deep_view()[j]
                }),
        decreases rows@.len() - i,
    {
        set_row_selected(rows, i, value);
        i += 1;
    }
}

/// How many of the rows are selected.
pub open spec fn spec_count_selected(s: Seq<ModRowView>) -> int
    decreases s.len(),
{
    if s.len() == 0 {
        0
    } else {
        spec_count_selected(s.drop_last()) + if s.last().selected {
            1int
        } else {
            0int
        }
    }
}

/// The identifiers of the selected rows, in list order.
pub open spec fn spec_selected_ids(s: Seq<ModRowView>) -> Seq<u64>
    decreases s.len(),
{
    if s.len() == 0 {
        Seq::<u64>::empty()
    } else if s.last().selected {
        spec_selected_ids(s.drop_last()).push(s.last().id)
    } else {
        spec_selected_ids(s.drop_last())
    }
}

/// Addition on sizes that stops at the largest representable value rather
/// than wrapping.
pub open spec fn sat_add_u64(a: int, b: int) -> int {
    if a + b > u64::MAX {
        u64::MAX as int
    } else {
        a + b
    }
}

/// The cumulative local size of the selected rows, saturating at the
/// largest representable value.
pub open spec fn spec_selected_size(s: Seq<ModRowView>) -> int
    decreases s.len(),
{
    if s.len() == 0 {
        0
    } else if s.last().selected {
        sat_add_u64(spec_selected_size(s.drop_last()), s.last().file_size as int)
    } else {
        spec_selected_size(s.drop_last())
    }
}

/// How many rows are selected for removal.
pub fn count_selected(rows: &Vec<ModRow>) -> (r: usize)
    ensures
        r == spec_count_selected(rows.deep_view()),
{
    let ghost rv = rows.deep_view();
    let mut count: usize = 0;
    let mut i: usize = 0;
    proof {
        assert(rv.take(0) =~= Seq::<ModRowView>::empty());
    }
    while i < rows.len()
        invariant
            i <= rows@.len(),
            rv == rows.deep_view(),
            count <= i,
            count == spec_count_selected(rv.take(i as int)),
        decreases rows@.len() - i,
    {
        proof {
            assert(rv.take(i as int + 1).drop_last() =~= rv.take(i as int));
        }
        if rows[i].selected {
            count += 1;
        }
        i += 1;
    }
    proof {
        assert(rv.take(rows@.len() as int) =~= rv);
    }
    count
}

/// The identifiers of the rows selected for removal, in list order.
pub fn selected_ids(rows: &Vec<ModRow>) -> (r: Vec<u64>)
    ensures
        r@ == spec_selected_ids(rows.deep_view()),
{
    let ghost rv = rows.deep_view();
    let mut out: Vec<u64> = Vec::new();
    let mut i: usize = 0;
    proof {
        assert(rv.take(0) =~= Seq::<ModRowView>::empty());
        assert(out@ =~= spec_selected_ids(rv.take(0)));
    }
    while i < rows.len()
        invariant
            i <= rows@.len(),
            rv == rows.deep_view(),
            out@ == spec_selected_ids(rv.take(i as int)),
        decreases rows@.len() - i,
    {
        proof {
            assert(rv.take(i as int + 1).drop_last() =~= rv.take(i as int));
        }
        if rows[i].selected {
            out.push(rows[i].id);
        }
        i += 1;
    }
    proof {
        assert(rv.take(rows@.len() as int) =~= rv);
    }
    out
}

/// The space that removing the selected rows would free, saturating at the
/// largest representable value.
pub fn selected_size_sum(rows: &Vec<ModRow>) -> (r: u64)
    ensures
        r == spec_selected_size(rows.deep_view()),
{
    let ghost rv = rows.deep_view();
    let mut sum: u64 = 0;
    let mut i: usize = 0;
    proof {
        assert(rv.take(0) =~= Seq::<ModRowView>::empty());
    }
    while i < rows.len()
        invariant
            i <= rows@.len(),
            rv == rows.deep_view(),
            sum == spec_selected_size(rv.take(i as int)),
        decreases rows@.len() - i,
    {
        proof {
            assert(rv.take(i as int + 1).drop_last() =~= rv.take(i as int));
        }
        if rows[i].selected {
            let x = rows[i].file_size;
            if sum > u64::MAX - x {
                sum = u64::MAX;
            } else {
                sum = sum + x;
            }
        }
        i += 1;
    }
    proof {
        assert(rv.take(rows@.len() as int) =~= rv);
    }
    sum
}

} // verus!
