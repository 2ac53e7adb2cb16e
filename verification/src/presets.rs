//! The item and keep-list (preset) data model.
//!
//! A `Mod` is one item known to the external service; its identity is its
//! 64-bit `id` alone, never its name. A `ModPreset` is a named keep list of
//! such items; a `PresetParser` holds the currently loaded keep lists, whose
//! union of identifiers defines what is protected from removal.

use vstd::prelude::*;

verus! {

/// One item known to the external service.
#[derive(Debug)]
pub struct Mod {
    pub tags: Vec<String>,
    pub url: String,
    pub id: u64,
    pub name: String,
    pub local_filesize: u64,
}

/// The mathematical value of a `Mod`.
pub struct ModView {
    pub tags: Seq<Seq<char>>,
    pub url: Seq<char>,
    pub id: u64,
    pub name: Seq<char>,
    pub local_filesize: u64,
}

impl View for Mod {
    type V = ModView;

    open spec fn view(&self) -> ModView {
        ModView {
            tags: self.tags.deep_view(),
            url: self.url@,
            id: self.id,
            name: self.name@,
            local_filesize: self.local_filesize,
        }
    }
}

impl DeepView for Mod {
    type V = ModView;

    open spec fn deep_view(&self) -> ModView {
        self.view()
    }
}

impl Clone for Mod {
    /// The copy has the same value as the original.
    fn clone(&self) -> (res: Self)
        ensures
            res@ == self@,
    {
        let res = Mod {
            tags: self.tags.clone(),
            url: self.url.clone(),
            id: self.id,
            name: self.name.clone(),
            local_filesize: self.local_filesize,
        };
        proof {
            assert(res.tags.deep_view() =~= self.tags.deep_view());
        }
        res
    }
}

impl PartialEq for Mod {
    /// Identity is by `id` alone, never by name.
    fn eq(&self, other: &Self) -> (r: bool) {
        self.id == other.id
    }
}

impl vstd::std_specs::cmp::PartialEqSpecImpl for Mod {
    open spec fn obeys_eq_spec() -> bool {
        true
    }

    open spec fn eq_spec(&self, other: &Mod) -> bool {
        self.id == other.id
    }
}

/// A named keep list: the items whose identifiers the user wants to retain.
#[derive(Debug)]
pub struct ModPreset {
    pub name: String,
    pub mods: Vec<Mod>,
}

/// The mathematical value of a `ModPreset`.
pub struct PresetView {
    pub name: Seq<char>,
    pub mods: Seq<ModView>,
}

impl View for ModPreset {
    type V = PresetView;

    open spec fn view(&self) -> PresetView {
        PresetView { name: self.name@, mods: self.mods.deep_view() }
    }
}

impl DeepView for ModPreset {
    type V = PresetView;

    open spec fn deep_view(&self) -> PresetView {
        self.view()
    }
}

impl Clone for ModPreset {
    /// The copy has the same value as the original.
    fn clone(&self) -> (res: Self)
        ensures
            res@ == self@,
    {
        let res = ModPreset { name: self.name.clone(), mods: self.mods.clone() };
        proof {
            assert(res.mods.deep_view() =~= self.mods.deep_view());
        }
        res
    }
}

/// The display name a keep-list document carries (the text of its first
/// `strong` element), if any. A pure function of the document text.
pub uninterp spec fn doc_name(doc: Seq<char>) -> Option<Seq<char>>;

/// The item rows of a keep-list document, each as its displayed name and
/// the target of its link, in document order; absent when the document has
/// no item table. A pure function of the document text.
pub uninterp spec fn doc_entries(doc: Seq<char>) -> Option<Seq<(Seq<char>, Seq<char>)>>;

/// Relies on html_query_ast::parse_string and html_query_extractor::extract:
/// extraction is deterministic in the document text and the fixed query;
/// this query reads the text of the document's first `strong` element.
#[verifier::external_body]
fn extract_doc_name(html: &str) -> (r: Option<String>)
    ensures
        match (r, doc_name(html@)) {
            (Some(s), Some(v)) => s@ == v,
            (None, None) => true,
            _ => false,
        },
{
    match html_query_ast::parse_string("{name: strong}") {
        Ok(q) => html_query_extractor::extract(html, &q)["name"].as_str().map(|s| s.to_string()),
        Err(_) => None,
    }
}

/// Relies on html_query_ast::parse_string and html_query_extractor::extract:
/// extraction is deterministic in the document text and the fixed query;
/// this query reads, for every item row of the document, the row's cell text
/// and its link target. A missing cell or link reads as empty text.
#[verifier::external_body]
fn extract_doc_entries(html: &str) -> (r: Option<Vec<(String, String)>>)
    ensures
        match (r, doc_entries(html@)) {
            (Some(es), Some(vs)) => es.deep_view() == vs,
            (None, None) => true,
            _ => false,
        },
{
    let expr = "{mods: [data-type=ModContainer]| [ {name: td, url: a | @(href)} ] }";
    let q = html_query_ast::parse_string(expr).ok()?;
    let out = html_query_extractor::extract(html, &q);
    let arr = out["mods"].as_array()?;
    Some(arr.iter().map(|v| (v["name"].as_str().unwrap_or("").to_string(), v["url"].as_str().unwrap_or("").to_string())).collect())
}

/// The item an entry with this name, URL and identifier denotes.
pub open spec fn entry_mod(name: Seq<char>, url: Seq<char>, id: u64) -> ModView {
    ModView { tags: Seq::empty(), url: url, id: id, name: name, local_filesize: 0 }
}

/// The items an entry list denotes: an entry whose URL names an identifier
/// contributes an item, one without any is skipped, and one whose identifier
/// does not fit in 64 bits spoils the whole list.
pub open spec fn mods_of_entries(entries: Seq<(Seq<char>, Seq<char>)>) -> Option<Seq<ModView>>
    decreases entries.len(),
{
    if entries.len() == 0 {
        Some(Seq::<ModView>::empty())
    } else {
        match mods_of_entries(entries.drop_last()) {
            None => None,
            Some(front) => {
                let e = entries.last();
                match crate::urlid::spec_scan(e.1) {
                    crate::urlid::IdScan::Found(v) => Some(front.push(entry_mod(e.0, e.1, v))),
                    crate::urlid::IdScan::TooLarge => None,
                    crate::urlid::IdScan::Missing => Some(front),
                }
            },
        }
    }
}

/// Once a prefix of the entry list is spoiled, the whole list is.
proof fn lemma_mods_of_entries_none(entries: Seq<(Seq<char>, Seq<char>)>, k: int)
    requires
        0 <= k <= entries.len(),
        mods_of_entries(entries.take(k)) is None,
    ensures
        mods_of_entries(entries) is None,
    decreases entries.len() - k,
{
    if k < entries.len() {
        assert(entries.take(k + 1).drop_last() =~= entries.take(k));
        lemma_mods_of_entries_none(entries, k + 1);
    } else {
        assert(entries.take(k) =~= entries);
    }
}

/// What loading a keep-list document yields: its items, named from the
/// document or from the given fallback; nothing when the document has no
/// item table, when an identifier does not fit in 64 bits, or when neither
/// the document nor the fallback provides a name.
pub open spec fn preset_of_doc(doc: Seq<char>, fallback: Option<Seq<char>>) -> Option<PresetView> {
    match doc_entries(doc) {
        None => None,
        Some(es) => match mods_of_entries(es) {
            None => None,
            Some(ms) => match doc_name(doc) {
                Some(n) => Some(PresetView { name: n, mods: ms }),
                None => match fallback {
                    Some(f) => Some(PresetView { name: f, mods: ms }),
                    None => None,
                },
            },
        },
    }
}

impl ModPreset {
    /// Build a keep list from named entries. Each entry whose URL names an
    /// identifier contributes one item; an entry without one is skipped; an
    /// identifier too large for 64 bits fails the whole list.
    pub fn from_entries(name: String, entries: Vec<(String, String)>) -> (r: Result<
        ModPreset,
        String,
    >)
        ensures
            match mods_of_entries(entries.deep_view()) {
                Some(ms) => r is Ok && r->Ok_0@.name == name@ && r->Ok_0@.mods == ms,
                None => r is Err,
            },
    {
        let ghost ev = entries.deep_view();
        let mut mods: Vec<Mod> = Vec::new();
        let mut i: usize = 0;
        proof {
            assert(ev.take(0) =~= Seq::<(Seq<char>, Seq<char>)>::empty());
        }
        while i < entries.len()
            invariant
                i <= entries.len(),
                ev == entries.deep_view(),
                mods_of_entries(ev.take(i as int)) == Some(mods.deep_view()),
            decreases entries.len() - i,
        {
            proof {
                assert(ev.take(i as int + 1).drop_last() =~= ev.take(i as int));
                assert(ev.take(i as int + 1).last() == ev[i as int]);
            }
            let ghost dv = mods.deep_view();
            let url = entries[i].1.clone();
            match crate::urlid::extract_mod_id(url.as_str()) {
                crate::urlid::IdScan::Found(id) => {
                    let entry_name = entries[i].0.clone();
                    let m = Mod {
                        tags: Vec::new(),
                        url: url,
                        id: id,
                        name: entry_name,
                        local_filesize: 0,
                    };
                    proof {
                        assert(m@ == entry_mod(ev[i as int].0, ev[i as int].1, id)) by {
                            assert(m.tags.deep_view() =~= Seq::<Seq<char>>::empty());
                        }
                    }
                    mods.push(m);
                    proof {
                        assert(mods.deep_view() =~= dv.push(
                            entry_mod(ev[i as int].0, ev[i as int].1, id),
                        ));
                    }
                },
                crate::urlid::IdScan::TooLarge => {
                    proof {
                        assert(mods_of_entries(ev.take(i as int + 1)) is None);
                        lemma_mods_of_entries_none(ev, i as int + 1);
                    }
                    return Err("a mod URL carries an identifier too large to parse".to_string());
                },
                crate::urlid::IdScan::Missing => {},
            }
            i += 1;
        }
        proof {
            assert(ev.take(entries.len() as int) =~= ev);
        }
        Ok(ModPreset { name: name, mods: mods })
    }

    /// Load a keep list from the raw text of a structured document, taking
    /// the list's name from the document or, failing that, from `filename`.
    /// A document without an item table, with an identifier too large for 64
    /// bits, or with no name available at all is rejected whole.
    pub fn new(raw_contents: String, filename: Option<String>) -> (r: Result<Self, String>)
        ensures
            match preset_of_doc(raw_contents@, filename.deep_view()) {
                Some(pv) => r is Ok && r->Ok_0@ == pv,
                None => r is Err,
            },
    {
        let entries = match extract_doc_entries(raw_contents.as_str()) {
            Some(es) => es,
            None => {
                return Err("the document holds no mod table".to_string());
            },
        };
        let name = match extract_doc_name(raw_contents.as_str()) {
            Some(n) => n,
            None => match filename {
                Some(f) => f,
                None => {
                    return Err("the document carries no name and none was supplied".to_string());
                },
            },
        };
        ModPreset::from_entries(name, entries)
    }

    /// The identifiers this keep list references, in list order.
    pub fn get_id_list(&self) -> (r: Vec<u64>)
        ensures
            r@ == self@.mods.map_values(|m: ModView| m.id),
    {
        let mut r: Vec<u64> = Vec::new();
        let mut k: usize = 0;
        while k < self.mods.len()
            invariant
                k <= self.mods.len(),
                r@ == self@.mods.map_values(|m: ModView| m.id).take(k as int),
            decreases self.mods.len() - k,
        {
            r.push(self.mods[k].id);
            proof {
                assert(r@ =~= self@.mods.map_values(|m: ModView| m.id).take(k as int + 1));
            }
            k += 1;
        }
        proof {
            assert(r@ =~= self@.mods.map_values(|m: ModView| m.id));
        }
        r
    }
}

/// Whether some loaded keep list references the identifier `id`.
pub open spec fn preset_has_id(presets: Seq<PresetView>, id: u64) -> bool {
    exists|p: int, k: int|
        0 <= p < presets.len() && 0 <= k < presets[p].mods.len() && presets[p].mods[k].id == id
}

/// Strictly ascending order: each identifier occurs once.
pub open spec fn strictly_sorted(s: Seq<u64>) -> bool {
    forall|i: int, j: int| 0 <= i < j < s.len() ==> s[i] < s[j]
}

/// Insert `x` into a strictly sorted vector, keeping it strictly sorted and
/// ignoring `x` if it is already present.
fn insert_unique_sorted(v: &mut Vec<u64>, x: u64)
    requires
        strictly_sorted(old(v)@),
    ensures
        strictly_sorted(final(v)@),
        forall|y: u64| final(v)@.contains(y) <==> old(v)@.contains(y) || y == x,
{
    let ghost s0 = v@;
    let mut p: usize = 0;
    while p < v.len() && v[p] < x
        invariant
            p <= v.len(),
            v@ == s0,
            strictly_sorted(s0),
            forall|j: int| 0 <= j < p ==> s0[j] < x,
        decreases v.len() - p,
    {
        p += 1;
    }
    if p < v.len() && v[p] == x {
        proof {
            assert(s0[p as int] == x);
            assert(s0.contains(x));
        }
    } else {
        proof {
            s0.insert_ensures(p as int, x);
        }
        v.insert(p, x);
        proof {
            let s1 = s0.insert(p as int, x);
            assert forall|i: int, j: int| 0 <= i < j < s1.len() implies s1[i] < s1[j] by {
                if j < p {
                    assert(s1[i] == s0[i] && s1[j] == s0[j]);
                } else if i < p && j == p {
                    assert(s1[i] == s0[i] && s1[j] == x);
                } else if i < p && j > p {
                    assert(s1[i] == s0[i] && s1[j] == s0[j - 1]);
                    assert(p <= j - 1 < s0.len());
                    assert(x <= s0[j - 1]);
                } else if i == p {
                    assert(s1[i] == x && s1[j] == s0[j - 1]);
                    assert(x <= s0[p as int] || p == s0.len());
                    assert(x < s0[j - 1] || (x == s0[p as int] && j - 1 == p));
                    assert(x != s0[p as int] || p >= s0.len());
                    assert(x < s0[j - 1]);
                } else {
                    assert(s1[i] == s0[i - 1] && s1[j] == s0[j - 1]);
                }
            }
            assert forall|y: u64| s1.contains(y) <==> s0.contains(y) || y == x by {
                if s1.contains(y) {
                    let i = choose|i: int| 0 <= i < s1.len() && s1[i] == y;
                    if i < p {
                        assert(s0[i] == y);
                        assert(s0.contains(y));
                    } else if i == p {
                        assert(y == x);
                    } else {
                        assert(s0[i - 1] == y);
                        assert(s0.contains(y));
                    }
                }
                if s0.contains(y) {
                    let i = choose|i: int| 0 <= i < s0.len() && s0[i] == y;
                    if i < p {
                        assert(s1[i] == y);
                    } else {
                        assert(s1[i + 1] == y);
                    }
                    assert(s1.contains(y));
                }
                if y == x {
                    assert(s1[p as int] == y);
                    assert(s1.contains(y));
                }
            }
        }
    }
}

/// Holds the currently loaded keep lists. Multiple may be loaded at once;
/// the union of their identifier lists is the protected universe.
#[derive(Debug)]
pub struct PresetParser {
    presets: Vec<ModPreset>,
}

impl View for PresetParser {
    type V = Seq<PresetView>;

    closed spec fn view(&self) -> Seq<PresetView> {
        self.presets.deep_view()
    }
}

impl Clone for PresetParser {
    /// The copy holds the same keep lists as the original.
    fn clone(&self) -> (res: Self)
        ensures
            res@ == self@,
    {
        let res = PresetParser { presets: self.presets.clone() };
        proof {
            assert(res.presets.deep_view() =~= self.presets.deep_view());
        }
        res
    }
}

impl Default for PresetParser {
    /// The default parser has no keep lists loaded.
    fn default() -> (r: Self)
        ensures
            r@ == Seq::<PresetView>::empty(),
    {
        PresetParser::new()
    }
}

impl PresetParser {
    /// A parser with no keep lists loaded.
    pub fn new() -> (r: Self)
        ensures
            r@ == Seq::<PresetView>::empty(),
    {
        let r = PresetParser { presets: Vec::new() };
        proof {
            assert(r@ =~= Seq::<PresetView>::empty());
        }
        r
    }

    /// Replace the loaded keep lists wholesale; never fails.
    pub fn set_modpresets(&mut self, presets: Vec<ModPreset>) -> (r: Result<(), String>)
        ensures
            r is Ok,
            final(self)@ == presets.deep_view(),
    {
        self.presets = presets;
        Ok(())
    }

    /// The currently loaded keep lists.
    pub fn get_modpresets(&self) -> (r: Vec<ModPreset>)
        ensures
            r.deep_view() == self@,
    {
        let r = self.presets.clone();
        proof {
            assert(r.deep_view() =~= self.presets.deep_view());
        }
        r
    }

    /// Every identifier referenced by any loaded keep list, each exactly once,
    /// in ascending order; never fails.
    pub fn get_all_mod_ids_unique(&self) -> (r: Result<Vec<u64>, String>)
        ensures
            r is Ok,
            strictly_sorted(r->Ok_0@),
            forall|id: u64| r->Ok_0@.contains(id) <==> preset_has_id(self@, id),
    {
        Ok(collect_unique_ids(&self.presets))
    }
}

/// Every identifier referenced by any of the given keep lists, each exactly
/// once, in ascending order.
pub fn collect_unique_ids(presets: &Vec<ModPreset>) -> (r: Vec<u64>)
    ensures
        strictly_sorted(r@),
        forall|id: u64| r@.contains(id) <==> preset_has_id(presets.deep_view(), id),
{
    let mut out: Vec<u64> = Vec::new();
    let mut p: usize = 0;
    while p < presets.len()
        invariant
            p <= presets.len(),
            strictly_sorted(out@),
            forall|id: u64|
                out@.contains(id) <==> preset_has_id(presets.deep_view().take(p as int), id),
        decreases presets.len() - p,
    {
        let mods = &presets[p].mods;
        let mut k: usize = 0;
        while k < mods.len()
            invariant
                p < presets.len(),
                k <= mods.len(),
                mods == &presets@[p as int].mods,
                strictly_sorted(out@),
                forall|id: u64|
                    out@.contains(id) <==> preset_has_id(presets.deep_view().take(p as int), id)
                        || mods.deep_view().take(k as int).map_values(|m: ModView| m.id).contains(id),
            decreases mods.len() - k,
        {
            let ghost ids_k = mods.deep_view().take(k as int).map_values(|m: ModView| m.id);
            let ghost ids_k1 = mods.deep_view().take(k as int + 1).map_values(
                |m: ModView| m.id,
            );
            insert_unique_sorted(&mut out, mods[k].id);
            proof {
                assert(ids_k1 =~= ids_k.push(mods.deep_view()[k as int].id));
                assert forall|id: u64| ids_k1.contains(id) <==> ids_k.contains(id) || id == mods.deep_view()[k as int].id by {
                    if ids_k1.contains(id) {
                        let i = choose|i: int| 0 <= i < ids_k1.len() && ids_k1[i] == id;
                        if i < k as int {
                            assert(ids_k[i] == id);
                            assert(ids_k.contains(id));
                        }
                    }
                    if ids_k.contains(id) {
                        let i = choose|i: int| 0 <= i < ids_k.len() && ids_k[i] == id;
                        assert(ids_k1[i] == id);
                        assert(ids_k1.contains(id));
                    }
                    if id == mods.deep_view()[k as int].id {
                        assert(ids_k1[k as int] == id);
                        assert(ids_k1.contains(id));
                    }
                }
            }
            k += 1;
        }
        proof {
            assert(mods.deep_view().take(mods.len() as int) =~= mods.deep_view());
            assert forall|id: u64|
                out@.contains(id) <==> preset_has_id(presets.deep_view().take(p as int + 1), id) by {
                let pre = presets.deep_view().take(p as int);
                let pre1 = presets.deep_view().take(p as int + 1);
                let mv = mods.deep_view().map_values(|m: ModView| m.id);
                if out@.contains(id) {
                    if preset_has_id(pre, id) {
                        let (a, b) = choose|a: int, b: int|
                            0 <= a < pre.len() && 0 <= b < pre[a].mods.len() && pre[a].mods[b].id
                                == id;
                        assert(pre1[a].mods[b].id == id);
                        assert(preset_has_id(pre1, id));
                    } else {
                        assert(mv.contains(id));
                        let b = choose|b: int| 0 <= b < mv.len() && mv[b] == id;
                        assert(pre1[p as int].mods[b].id == id);
                        assert(preset_has_id(pre1, id));
                    }
                }
                if preset_has_id(pre1, id) {
                    let (a, b) = choose|a: int, b: int|
                        0 <= a < pre1.len() && 0 <= b < pre1[a].mods.len() && pre1[a].mods[b].id
                            == id;
                    if a < p as int {
                        assert(pre[a].mods[b].id == id);
                        assert(preset_has_id(pre, id));
                    } else {
                        assert(mv[b] == id);
                        assert(mv.contains(id));
                    }
                    assert(out@.contains(id));
                }
            }
        }
        p += 1;
    }
    proof {
        assert(presets.deep_view().take(presets.len() as int) =~= presets.deep_view());
    }
    out
}

} // verus!
