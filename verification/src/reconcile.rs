//! The reconciliation (diff) engine.
//!
//! A pure function from (all known items, keep lists, excluded tags) to a
//! deterministically ordered removal candidate list. Items carrying an
//! excluded tag are dropped first; the rest are sorted by case-insensitive
//! name; then, unless no keep list is loaded, every item referenced by some
//! keep list is dropped. An empty keep input means "nothing protected", not
//! "everything protected".

use vstd::prelude::*;

verus! {

use crate::presets::{Mod, ModPreset, ModView, PresetView, preset_has_id};
use crate::text::{lemma_lex_lt_asymmetric, lemma_lex_lt_transitive, lower_key, name_lt,
    name_lt_exec};

/// Whether `m` carries a tag named in `excluded`.
pub open spec fn has_excluded_tag(m: ModView, excluded: Seq<Seq<char>>) -> bool {
    exists|i: int, j: int|
        0 <= i < m.tags.len() && 0 <= j < excluded.len() && m.tags[i] == excluded[j]
}

/// The predicate an item must satisfy to survive the tag filter.
pub open spec fn not_excluded(excluded: Seq<Seq<char>>) -> spec_fn(ModView) -> bool {
    |m: ModView| !has_excluded_tag(m, excluded)
}

/// The predicate an item must satisfy to survive the keep subtraction.
pub open spec fn not_kept(keeps: Seq<PresetView>) -> spec_fn(ModView) -> bool {
    |m: ModView| !preset_has_id(keeps, m.id)
}

/// The items that carry no excluded tag, in input order.
pub open spec fn tag_filtered(items: Seq<ModView>, excluded: Seq<Seq<char>>) -> Seq<ModView> {
    items.filter(not_excluded(excluded))
}

/// Insert `m` immediately before the first element it sorts strictly before,
/// so after every element that ties with it.
pub open spec fn insert_by_name(m: ModView, s: Seq<ModView>) -> Seq<ModView>
    decreases s.len(),
{
    if s.len() == 0 {
        seq![m]
    } else if name_lt(m.name, s[0].name) {
        seq![m] + s
    } else {
        seq![s[0]] + insert_by_name(m, s.drop_first())
    }
}

/// Insertion sort by case-insensitive name. Ties keep their input order.
pub open spec fn sort_by_name(s: Seq<ModView>) -> Seq<ModView>
    decreases s.len(),
{
    if s.len() == 0 {
        Seq::<ModView>::empty()
    } else {
        insert_by_name(s.last(), sort_by_name(s.drop_last()))
    }
}

/// No later item sorts strictly before an earlier one.
pub open spec fn sorted_by_name(s: Seq<ModView>) -> bool {
    forall|i: int, j: int| 0 <= i < j < s.len() ==> !name_lt(s[j].name, s[i].name)
}

/// The removal set over mathematical values: the tag-filtered universe in
/// case-insensitive name order, minus every item some keep list references;
/// with no keep list loaded, nothing is protected.
pub open spec fn removal_set(
    items: Seq<ModView>,
    keeps: Seq<PresetView>,
    excluded: Seq<Seq<char>>,
) -> Seq<ModView> {
    let base = sort_by_name(tag_filtered(items, excluded));
    if keeps.len() == 0 {
        base
    } else {
        base.filter(not_kept(keeps))
    }
}

/// Inserting at the first index whose element `m` sorts strictly before
/// is what `insert_by_name` denotes.
proof fn lemma_insert_by_name_at(m: ModView, s: Seq<ModView>, p: int)
    requires
        0 <= p <= s.len(),
        forall|j: int| 0 <= j < p ==> !name_lt(m.name, s[j].name),
        p < s.len() ==> name_lt(m.name, s[p].name),
    ensures
        insert_by_name(m, s) == s.insert(p, m),
    decreases p,
{
    if p == 0 {
        if s.len() == 0 {
            assert(insert_by_name(m, s) =~= s.insert(0, m));
        } else {
            assert(name_lt(m.name, s[0].name));
            assert(seq![m] + s =~= s.insert(0, m));
        }
    } else {
        assert(!name_lt(m.name, s[0].name));
        lemma_insert_by_name_at(m, s.drop_first(), p - 1);
        assert(seq![s[0]] + s.drop_first().insert(p - 1, m) =~= s.insert(p, m));
    }
}

/// Every element of `insert_by_name(m, s)` is `m` or an element of `s`.
proof fn lemma_insert_by_name_elems(m: ModView, s: Seq<ModView>)
    ensures
        forall|k: int|
            0 <= k < insert_by_name(m, s).len() ==> insert_by_name(m, s)[k] == m || s.contains(
                insert_by_name(m, s)[k],
            ),
    decreases s.len(),
{
    if s.len() == 0 {
    } else if name_lt(m.name, s[0].name) {
        assert forall|k: int|
            0 <= k < insert_by_name(m, s).len() implies insert_by_name(m, s)[k] == m
            || s.contains(insert_by_name(m, s)[k]) by {
            if k > 0 {
                assert(insert_by_name(m, s)[k] == s[k - 1]);
            }
        }
    } else {
        lemma_insert_by_name_elems(m, s.drop_first());
        assert forall|k: int|
            0 <= k < insert_by_name(m, s).len() implies insert_by_name(m, s)[k] == m
            || s.contains(insert_by_name(m, s)[k]) by {
            let t = insert_by_name(m, s.drop_first());
            if k == 0 {
                assert(insert_by_name(m, s)[0] == s[0]);
            } else {
                assert(insert_by_name(m, s)[k] == t[k - 1]);
                if t[k - 1] != m {
                    let tk = t[k - 1];
                    let j = choose|j: int| 0 <= j < s.drop_first().len() && s.drop_first()[j] == tk;
                    assert(s[j + 1] == tk);
                }
            }
        }
    }
}

/// `insert_by_name` keeps the list sorted.
proof fn lemma_insert_by_name_sorted(m: ModView, s: Seq<ModView>)
    requires
        sorted_by_name(s),
    ensures
        sorted_by_name(insert_by_name(m, s)),
    decreases s.len(),
{
    if s.len() == 0 {
    } else if name_lt(m.name, s[0].name) {
        let r = seq![m] + s;
        assert forall|i: int, j: int| 0 <= i < j < r.len() implies !name_lt(
            r[j].name,
            r[i].name,
        ) by {
            if i == 0 {
                assert(r[j] == s[j - 1]);
                if name_lt(s[j - 1].name, m.name) {
                    lemma_lex_lt_transitive(
                        lower_key(s[j - 1].name),
                        lower_key(m.name),
                        lower_key(s[0].name),
                    );
                    assert(j - 1 == 0 || name_lt(s[j - 1].name, s[0].name));
                    lemma_lex_lt_asymmetric(lower_key(m.name), lower_key(s[0].name));
                }
            } else {
                assert(r[i] == s[i - 1] && r[j] == s[j - 1]);
            }
        }
    } else {
        let t = insert_by_name(m, s.drop_first());
        assert(sorted_by_name(s.drop_first()));
        lemma_insert_by_name_sorted(m, s.drop_first());
        lemma_insert_by_name_elems(m, s.drop_first());
        let r = seq![s[0]] + t;
        assert forall|i: int, j: int| 0 <= i < j < r.len() implies !name_lt(
            r[j].name,
            r[i].name,
        ) by {
            if i == 0 {
                assert(r[j] == t[j - 1]);
                if t[j - 1] == m {
                    assert(!name_lt(m.name, s[0].name));
                } else {
                    let tj = t[j - 1];
                    let q = choose|q: int| 0 <= q < s.drop_first().len() && s.drop_first()[q] == tj;
                    assert(s[q + 1] == tj);
                    assert(!name_lt(s[q + 1].name, s[0].name));
                }
            } else {
                assert(r[i] == t[i - 1] && r[j] == t[j - 1]);
            }
        }
    }
}

/// The result of `sort_by_name` is sorted.
pub proof fn lemma_sort_by_name_sorted(s: Seq<ModView>)
    ensures
        sorted_by_name(sort_by_name(s)),
    decreases s.len(),
{
    if s.len() > 0 {
        lemma_sort_by_name_sorted(s.drop_last());
        lemma_insert_by_name_sorted(s.last(), sort_by_name(s.drop_last()));
    }
}

/// Every element of `sort_by_name(s)` is an element of `s`.
pub proof fn lemma_sort_by_name_elems(s: Seq<ModView>)
    ensures
        forall|k: int| 0 <= k < sort_by_name(s).len() ==> s.contains(#[trigger] sort_by_name(s)[k]),
    decreases s.len(),
{
    if s.len() > 0 {
        lemma_sort_by_name_elems(s.drop_last());
        lemma_insert_by_name_elems(s.last(), sort_by_name(s.drop_last()));
        assert forall|k: int|
            0 <= k < sort_by_name(s).len() implies s.contains(#[trigger] sort_by_name(s)[k]) by {
            let x = sort_by_name(s)[k];
            if x == s.last() {
                assert(s[s.len() - 1] == x);
            } else {
                assert(sort_by_name(s.drop_last()).contains(x));
                let j = choose|j: int|
                    0 <= j < s.drop_last().len() && s.drop_last()[j] == x;
                assert(s[j] == x);
            }
        }
    }
}

/// `insert_by_name` inserts exactly `m`: afterwards the list holds the same
/// elements as before, plus one occurrence of `m`.
proof fn lemma_insert_by_name_multiset(m: ModView, s: Seq<ModView>)
    ensures
        insert_by_name(m, s).to_multiset() == s.to_multiset().insert(m),
    decreases s.len(),
{
    broadcast use vstd::multiset::group_multiset_axioms;

    if s.len() == 0 {
        assert(seq![m] =~= Seq::<ModView>::empty().push(m));
        Seq::<ModView>::empty().to_multiset_ensures();
        assert(s =~= Seq::<ModView>::empty());
        assert(insert_by_name(m, s).to_multiset() =~= s.to_multiset().insert(m));
    } else if name_lt(m.name, s[0].name) {
        vstd::seq_lib::lemma_multiset_commutative(seq![m], s);
        assert(seq![m] =~= Seq::<ModView>::empty().push(m));
        Seq::<ModView>::empty().to_multiset_ensures();
        assert(insert_by_name(m, s).to_multiset() =~= s.to_multiset().insert(m));
    } else {
        let t = insert_by_name(m, s.drop_first());
        lemma_insert_by_name_multiset(m, s.drop_first());
        vstd::seq_lib::lemma_multiset_commutative(seq![s[0]], t);
        vstd::seq_lib::lemma_multiset_commutative(seq![s[0]], s.drop_first());
        assert(s =~= seq![s[0]] + s.drop_first());
        assert(insert_by_name(m, s).to_multiset() =~= s.to_multiset().insert(m));
    }
}

/// Sorting permutes: the sorted list holds exactly the elements of the
/// input, with the same multiplicities; nothing is lost, nothing invented.
pub proof fn lemma_sort_by_name_permutes(s: Seq<ModView>)
    ensures
        sort_by_name(s).to_multiset() == s.to_multiset(),
    decreases s.len(),
{
    broadcast use vstd::multiset::group_multiset_axioms;

    if s.len() == 0 {
        assert(s =~= Seq::<ModView>::empty());
    } else {
        lemma_sort_by_name_permutes(s.drop_last());
        lemma_insert_by_name_multiset(s.last(), sort_by_name(s.drop_last()));
        assert(s =~= s.drop_last().push(s.last()));
        s.drop_last().to_multiset_ensures();
        assert(sort_by_name(s).to_multiset() =~= s.to_multiset());
    }
}

/// Whether `m` carries a tag named in `excluded`, executably.
fn mod_has_excluded_tag(m: &Mod, excluded: &Vec<String>) -> (r: bool)
    ensures
        r == has_excluded_tag(m@, excluded.deep_view()),
{
    let mut i: usize = 0;
    while i < m.tags.len()
        invariant
            i <= m.tags.len(),
            forall|a: int, b: int|
                0 <= a < i && 0 <= b < excluded.deep_view().len() ==> m@.tags[a]
                    != excluded.deep_view()[b],
        decreases m.tags.len() - i,
    {
        let mut j: usize = 0;
        while j < excluded.len()
            invariant
                i < m.tags.len(),
                j <= excluded.len(),
                forall|b: int| 0 <= b < j ==> m@.tags[i as int] != excluded.deep_view()[b],
        decreases excluded.len() - j,
        {
            if m.tags[i] == excluded[j] {
                proof {
                    assert(m@.tags[i as int] == excluded.deep_view()[j as int]);
                }
                return true;
            }
            j += 1;
        }
        i += 1;
    }
    false
}

/// Insert `m` into the (sorted) list, executably; the contract holds for any
/// list and pins the exact result.
fn insert_sorted_mod(out: &mut Vec<Mod>, m: Mod)
    ensures
        final(out).deep_view() == insert_by_name(m@, old(out).deep_view()),
{
    let ghost s = out.deep_view();
    let mut p: usize = 0;
    while p < out.len() && !name_lt_exec(m.name.as_str(), out[p].name.as_str())
        invariant
            p <= out.len(),
            out.deep_view() == s,
            forall|j: int| 0 <= j < p ==> !name_lt(m@.name, s[j].name),
        decreases out.len() - p,
    {
        p += 1;
    }
    proof {
        lemma_insert_by_name_at(m@, s, p as int);
    }
    out.insert(p, m);
    proof {
        assert(out.deep_view() =~= s.insert(p as int, m@));
    }
}

/// The universe as presented: items carrying an excluded tag dropped, the
/// rest sorted by case-insensitive name.
pub fn prepare_universe(items: &Vec<Mod>, excluded_tags: &Vec<String>) -> (r: Vec<Mod>)
    ensures
        r.deep_view() == sort_by_name(tag_filtered(items.deep_view(), excluded_tags.deep_view())),
{
    let ghost iv = items.deep_view();
    let ghost ev = excluded_tags.deep_view();
    let mut out: Vec<Mod> = Vec::new();
    let mut i: usize = 0;
    proof {
        assert(iv.take(0) =~= Seq::<ModView>::empty());
        reveal(Seq::filter);
        assert(out.deep_view() =~= sort_by_name(tag_filtered(iv.take(0), ev)));
    }
    while i < items.len()
        invariant
            i <= items.len(),
            iv == items.deep_view(),
            ev == excluded_tags.deep_view(),
            out.deep_view() == sort_by_name(tag_filtered(iv.take(i as int), ev)),
        decreases items.len() - i,
    {
        let ghost pre = iv.take(i as int);
        let ghost post = iv.take(i as int + 1);
        proof {
            assert(post =~= pre.push(iv[i as int]));
            pre.lemma_filter_push(iv[i as int], not_excluded(ev));
        }
        let keep = !mod_has_excluded_tag(&items[i], excluded_tags);
        if keep {
            let m = items[i].clone();
            insert_sorted_mod(&mut out, m);
            proof {
                let f = tag_filtered(pre, ev);
                assert(tag_filtered(post, ev) == f.push(iv[i as int]));
                assert(f.push(iv[i as int]).drop_last() =~= f);
                assert(f.push(iv[i as int]).last() == iv[i as int]);
                assert(sort_by_name(f.push(iv[i as int])) == insert_by_name(iv[i as int],
                    sort_by_name(f)));
                assert(m@ == iv[i as int]);
            }
        } else {
            proof {
                assert(tag_filtered(post, ev) == tag_filtered(pre, ev));
            }
        }
        i += 1;
    }
    proof {
        assert(iv.take(items.len() as int) =~= iv);
    }
    out
}

/// Whether `id` occurs in the vector.
fn contains_id(ids: &Vec<u64>, id: u64) -> (r: bool)
    ensures
        r == ids@.contains(id),
{
    let mut i: usize = 0;
    while i < ids.len()
        invariant
            i <= ids.len(),
            forall|j: int| 0 <= j < i ==> ids@[j] != id,
        decreases ids.len() - i,
    {
        if ids[i] == id {
            return true;
        }
        i += 1;
    }
    false
}

/// The removal candidate list: recomputed from scratch from the full inputs,
/// never patched incrementally. Deterministic and side-effect-free; the
/// result is pinned exactly by `removal_set`.
pub fn compute_removal_set(
    all_mods: &Vec<Mod>,
    keep_sets: &Vec<ModPreset>,
    excluded_tags: &Vec<String>,
) -> (r: Vec<Mod>)
    ensures
        r.deep_view() == removal_set(
            all_mods.deep_view(),
            keep_sets.deep_view(),
            excluded_tags.deep_view(),
        ),
{
    let base = prepare_universe(all_mods, excluded_tags);
    if keep_sets.len() == 0 {
        proof {
            assert(keep_sets.deep_view().len() == 0);
        }
        return base;
    }
    let ghost kv = keep_sets.deep_view();
    let ghost bv = base.deep_view();
    let keep_ids = crate::presets::collect_unique_ids(keep_sets);
    let mut out: Vec<Mod> = Vec::new();
    let mut q: usize = 0;
    proof {
        assert(bv.take(0) =~= Seq::<ModView>::empty());
        reveal(Seq::filter);
        assert(out.deep_view() =~= bv.take(0).filter(not_kept(kv)));
    }
    while q < base.len()
        invariant
            q <= base.len(),
            bv == base.deep_view(),
            kv == keep_sets.deep_view(),
            forall|id: u64| keep_ids@.contains(id) <==> preset_has_id(kv, id),
            out.deep_view() == bv.take(q as int).filter(not_kept(kv)),
        decreases base.len() - q,
    {
        let ghost pre = bv.take(q as int);
        proof {
            assert(bv.take(q as int + 1) =~= pre.push(bv[q as int]));
            pre.lemma_filter_push(bv[q as int], not_kept(kv));
        }
        if !contains_id(&keep_ids, base[q].id) {
            let m = base[q].clone();
            out.push(m);
        }
        q += 1;
    }
    proof {
        assert(bv.take(base.len() as int) =~= bv);
        assert(keep_sets.deep_view().len() > 0);
    }
    out
}

/// `m` with its local size resolved to `s`, if a size was found.
pub open spec fn with_size(m: ModView, s: Option<u64>) -> ModView {
    match s {
        Some(n) => ModView { local_filesize: n, ..m },
        None => m,
    }
}

/// Fill in each item's locally used size from the per-item answers of the
/// external service, in order; an item the service does not know keeps its
/// previous size.
pub fn apply_local_size(mods: &Vec<Mod>, sizes: &Vec<Option<u64>>) -> (r: Vec<Mod>)
    requires
        sizes@.len() == mods@.len(),
    ensures
        r.deep_view().len() == mods.deep_view().len(),
        forall|i: int|
            0 <= i < mods.deep_view().len() ==> r.deep_view()[i] == with_size(
                mods.deep_view()[i],
                sizes@[i],
            ),
{
    let mut out: Vec<Mod> = Vec::new();
    let mut i: usize = 0;
    while i < mods.len()
        invariant
            i <= mods.len(),
            sizes@.len() == mods@.len(),
            out.deep_view().len() == i,
            forall|j: int|
                0 <= j < i ==> out.deep_view()[j] == with_size(mods.deep_view()[j], sizes@[j]),
        decreases mods.len() - i,
    {
        let ghost dv = out.deep_view();
        let mut m = mods[i].clone();
        match sizes[i] {
            Some(n) => {
                m.local_filesize = n;
            },
            None => {},
        }
        proof {
            assert(m@ == with_size(mods.deep_view()[i as int], sizes@[i as int]));
        }
        out.push(m);
        proof {
            assert(out.deep_view() =~= dv.push(m@));
        }
        i += 1;
    }
    out
}

/// A sorted list stays sorted when filtered.
proof fn lemma_filter_sorted(s: Seq<ModView>, pred: spec_fn(ModView) -> bool)
    requires
        sorted_by_name(s),
    ensures
        sorted_by_name(s.filter(pred)),
    decreases s.len(),
{
    reveal(Seq::filter);
    if s.len() > 0 {
        let front = s.drop_last();
        assert(sorted_by_name(front));
        lemma_filter_sorted(front, pred);
        if pred(s.last()) {
            let f = front.filter(pred);
            let r = f.push(s.last());
            assert forall|i: int, j: int| 0 <= i < j < r.len() implies !name_lt(
                r[j].name,
                r[i].name,
            ) by {
                if j == r.len() - 1 {
                    assert(f.contains(f[i]));
                    front.lemma_filter_contains_rev(pred, f[i]);
                    let a = choose|a: int| 0 <= a < front.len() && front[a] == f[i];
                    assert(!name_lt(s[s.len() - 1].name, s[a].name));
                }
            }
        }
    }
}

/// The removal set is deterministic: identical inputs give the identical
/// ordered output.
pub proof fn lemma_removal_set_deterministic(
    r1: Seq<ModView>,
    r2: Seq<ModView>,
    items: Seq<ModView>,
    keeps: Seq<PresetView>,
    excluded: Seq<Seq<char>>,
)
    requires
        r1 == removal_set(items, keeps, excluded),
        r2 == removal_set(items, keeps, excluded),
    ensures
        r1 == r2,
{
}

/// With no keep list loaded nothing is protected: the removal set is exactly
/// the tag-filtered universe, in display order.
pub proof fn lemma_removal_set_empty_keeps(items: Seq<ModView>, excluded: Seq<Seq<char>>)
    ensures
        removal_set(items, Seq::<PresetView>::empty(), excluded) == sort_by_name(
            tag_filtered(items, excluded),
        ),
{
}

/// An identifier referenced by any keep list never appears in the removal
/// set, whatever the tag filter does.
pub proof fn lemma_removal_set_protects_kept(
    items: Seq<ModView>,
    keeps: Seq<PresetView>,
    excluded: Seq<Seq<char>>,
    id: u64,
)
    requires
        preset_has_id(keeps, id),
    ensures
        forall|k: int|
            0 <= k < removal_set(items, keeps, excluded).len() ==> (#[trigger] removal_set(
                items,
                keeps,
                excluded,
            )[k]).id != id,
{
    let base = sort_by_name(tag_filtered(items, excluded));
    let r = removal_set(items, keeps, excluded);
    assert(keeps.len() > 0);
    assert forall|k: int| 0 <= k < r.len() implies (#[trigger] r[k]).id != id by {
        base.lemma_filter_pred(not_kept(keeps), k);
        assert(!preset_has_id(keeps, r[k].id));
    }
}

/// An item carrying an excluded tag never appears in the removal set, even
/// if no keep list references it.
pub proof fn lemma_removal_set_excludes_tagged(
    items: Seq<ModView>,
    keeps: Seq<PresetView>,
    excluded: Seq<Seq<char>>,
)
    ensures
        forall|k: int|
            0 <= k < removal_set(items, keeps, excluded).len() ==> !has_excluded_tag(
                #[trigger] removal_set(items, keeps, excluded)[k],
                excluded,
            ),
{
    let filtered = tag_filtered(items, excluded);
    let base = sort_by_name(filtered);
    let r = removal_set(items, keeps, excluded);
    lemma_sort_by_name_elems(filtered);
    assert forall|k: int| 0 <= k < r.len() implies !has_excluded_tag(
        #[trigger] r[k],
        excluded,
    ) by {
        let x = r[k];
        if keeps.len() == 0 {
            assert(filtered.contains(x));
        } else {
            assert(base.contains(x)) by {
                assert(base.filter(not_kept(keeps))[k] == x);
                assert(base.filter(not_kept(keeps)).contains(x));
                base.lemma_filter_contains_rev(not_kept(keeps), x);
            }
            assert(filtered.contains(x));
        }
        let a = choose|a: int| 0 <= a < filtered.len() && filtered[a] == x;
        items.lemma_filter_pred(not_excluded(excluded), a);
    }
}

/// Nothing eligible is lost: an item carrying no excluded tag, whose
/// identifier no keep list references, appears in the removal set.
pub proof fn lemma_removal_set_complete(
    items: Seq<ModView>,
    keeps: Seq<PresetView>,
    excluded: Seq<Seq<char>>,
    i: int,
)
    requires
        0 <= i < items.len(),
        !has_excluded_tag(items[i], excluded),
        !preset_has_id(keeps, items[i].id),
    ensures
        removal_set(items, keeps, excluded).contains(items[i]),
{
    let x = items[i];
    let filtered = tag_filtered(items, excluded);
    let base = sort_by_name(filtered);
    items.lemma_filter_contains(not_excluded(excluded), i);
    lemma_sort_by_name_permutes(filtered);
    filtered.to_multiset_ensures();
    base.to_multiset_ensures();
    assert(filtered.to_multiset().count(x) > 0);
    assert(base.to_multiset().count(x) > 0);
    assert(base.contains(x));
    if keeps.len() > 0 {
        let j = choose|j: int| 0 <= j < base.len() && base[j] == x;
        base.lemma_filter_contains(not_kept(keeps), j);
    }
}

/// The removal set is ordered by case-insensitive name.
pub proof fn lemma_removal_set_sorted(
    items: Seq<ModView>,
    keeps: Seq<PresetView>,
    excluded: Seq<Seq<char>>,
)
    ensures
        sorted_by_name(removal_set(items, keeps, excluded)),
{
    let base = sort_by_name(tag_filtered(items, excluded));
    lemma_sort_by_name_sorted(tag_filtered(items, excluded));
    if keeps.len() > 0 {
        lemma_filter_sorted(base, not_kept(keeps));
    }
}

} // verus!
