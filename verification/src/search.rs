//! Search over plugin metadata snapshots.
//!
//! The search engine keeps a fixed list of system entries and a replaceable
//! snapshot of plugin entries.  A query is folded to pinyin, each entry is
//! scored by a fuzzy match against its search text — a full-name entry whose
//! name contains the query outranks everything — and the matches come back
//! ordered by descending score, earlier entries first among ties, capped at
//! a fixed count.
//!
//! The pinyin fold and the fuzzy score come from outside crates through the
//! two trusted wrappers at the bottom of this module; everything around
//! them — scoring, ordering, truncation, snapshot conversion — is verified
//! against them.

use vstd::prelude::*;

use fuzzy_matcher::FuzzyMatcher;
use pinyin::ToPinyin;

use crate::manifest::Launcher;
use crate::manifest::PluginInfoWrapper;
use crate::strings::contains_sub;
use crate::strings::spec_contains;
use crate::strings::spec_trim;
use crate::strings::trim;

verus! {

/// How many results a search returns at most.
pub const COUNT_LIMIT: usize = 7;

/// How one search entry is launched.
#[derive(Debug)]
pub struct Execute {
    /// The launcher of the underlying plugin.
    pub launcher: Launcher,
    /// The served path opened when the entry is chosen.
    pub path: String,
}

/// Mathematical model of an [`Execute`].
pub struct ExecuteV {
    pub launcher: Launcher,
    pub path: Seq<char>,
}

impl View for Execute {
    type V = ExecuteV;

    open spec fn view(&self) -> ExecuteV {
        ExecuteV { launcher: self.launcher, path: self.path@ }
    }
}

/// How one entry is matched against queries.
#[derive(Debug)]
pub struct Search {
    /// The text the fuzzy matcher scores: the pinyin of the name joined
    /// with the declared keyword.
    pub as_search: String,
    /// Whether the entry is matched by full name: then a query contained in
    /// the name outranks every fuzzy match.
    pub is_full_name: bool,
}

/// Mathematical model of a [`Search`].
pub struct SearchV {
    pub as_search: Seq<char>,
    pub is_full_name: bool,
}

impl View for Search {
    type V = SearchV;

    open spec fn view(&self) -> SearchV {
        SearchV { as_search: self.as_search@, is_full_name: self.is_full_name }
    }
}

/// One searchable entry.
#[derive(Debug)]
pub struct SearchItem {
    /// The underlying plugin's id.
    pub id: String,
    /// The name shown for the entry.
    pub name: String,
    /// How the entry is matched.
    pub search: Search,
    /// How the entry is launched.
    pub execute: Execute,
}

/// Mathematical model of a [`SearchItem`].
pub struct SearchItemV {
    pub id: Seq<char>,
    pub name: Seq<char>,
    pub search: SearchV,
    pub execute: ExecuteV,
}

impl View for SearchItem {
    type V = SearchItemV;

    open spec fn view(&self) -> SearchItemV {
        SearchItemV { id: self.id@, name: self.name@, search: self.search@, execute: self.execute@ }
    }
}

/// One search result as returned to the caller.
#[derive(Debug)]
pub struct SearchResultItem {
    /// The name shown for the entry.
    pub name: String,
    /// The served path opened when the entry is chosen.
    pub path: String,
    /// The launcher of the underlying plugin.
    pub page_type: Launcher,
}

/// Mathematical model of a [`SearchResultItem`].
pub struct SearchResultItemV {
    pub name: Seq<char>,
    pub path: Seq<char>,
    pub page_type: Launcher,
}

impl View for SearchResultItem {
    type V = SearchResultItemV;

    open spec fn view(&self) -> SearchResultItemV {
        SearchResultItemV { name: self.name@, path: self.path@, page_type: self.page_type }
    }
}

/// The views of a list of entries.
pub open spec fn views_of(s: Seq<SearchItem>) -> Seq<SearchItemV> {
    s.map_values(|x: SearchItem| x@)
}

/// The pinyin of one character, or the character itself where it has none.
pub open spec fn spec_char_search(c: char) -> Seq<char> {
    match pinyin_plain(c) {
        Some(p) => p,
        None => seq![c],
    }
}

/// A text folded to pinyin, character by character.
pub open spec fn spec_to_pinyin(s: Seq<char>) -> Seq<char>
    decreases s.len(),
{
    if s.len() == 0 {
        Seq::empty()
    } else {
        spec_to_pinyin(s.drop_last()) + spec_char_search(s.last())
    }
}

/// Folds a text to pinyin: each character with a pinyin reading is replaced
/// by it, every other character stays.
pub fn to_pinyin(s: &str) -> (r: String)
    ensures
        r@ == spec_to_pinyin(s@),
{
    let n = s.unicode_len();
    let mut out = String::new();
    let mut i: usize = 0;
    proof {
        assert(s@.subrange(0, 0) =~= Seq::<char>::empty());
        assert(out@ =~= spec_to_pinyin(s@.subrange(0, 0)));
    }
    while i < n
        invariant
            n == s@.len(),
            i <= n,
            out@ == spec_to_pinyin(s@.subrange(0, i as int)),
        decreases n - i,
    {
        let c = s.get_char(i);
        proof {
            assert(s@.subrange(0, i + 1).drop_last() =~= s@.subrange(0, i as int));
            assert(s@.subrange(0, i + 1).last() == s@[i as int]);
        }
        match char_pinyin(c) {
            Some(p) => {
                out.append(p.as_str());
            }
            None => {
                let one = char_to_string(c);
                out.append(one.as_str());
            }
        }
        i = i + 1;
    }
    proof {
        assert(s@.subrange(0, n as int) =~= s@);
    }
    out
}

/// An entry's score for query `q`: the full-name override, or the fuzzy
/// score of its search text; no score means no match.
pub open spec fn spec_score(item: SearchItemV, q: Seq<char>) -> Option<i64> {
    if item.search.is_full_name && spec_contains(item.name, q) {
        Some(100)
    } else {
        fuzzy_score(item.search.as_search, q)
    }
}

/// The entries that match `q`, each paired with its score, in entry order.
pub open spec fn spec_scored(items: Seq<SearchItemV>, q: Seq<char>) -> Seq<(i64, SearchItemV)>
    decreases items.len(),
{
    if items.len() == 0 {
        Seq::empty()
    } else {
        (match spec_score(items.first(), q) {
            Some(sc) => seq![(sc, items.first())],
            None => Seq::<(i64, SearchItemV)>::empty(),
        }) + spec_scored(items.drop_first(), q)
    }
}

/// The position of the first highest score.
pub open spec fn first_max_idx(s: Seq<(i64, SearchItemV)>) -> int
    decreases s.len(),
{
    if s.len() <= 1 {
        0
    } else {
        let r = first_max_idx(s.drop_last());
        if s.last().0 > s[r].0 {
            s.len() - 1
        } else {
            r
        }
    }
}

/// Scored entries ordered by descending score, earlier entries first among
/// equal scores: the first highest is moved to the front, and the rest is
/// ordered the same way.
pub open spec fn spec_sort_desc(s: Seq<(i64, SearchItemV)>) -> Seq<(i64, SearchItemV)>
    decreases s.len(),
{
    if s.len() == 0 {
        Seq::empty()
    } else {
        let m = first_max_idx(s);
        if 0 <= m < s.len() {
            seq![s[m]] + spec_sort_desc(s.remove(m))
        } else {
            s
        }
    }
}

/// The entries of a scored list, scores dropped.
pub open spec fn items_of(s: Seq<(i64, SearchItemV)>) -> Seq<SearchItemV> {
    s.map_values(|p: (i64, SearchItemV)| p.1)
}

/// `first_max_idx` lies in the list.
pub proof fn lemma_first_max_idx(s: Seq<(i64, SearchItemV)>)
    requires
        s.len() > 0,
    ensures
        0 <= first_max_idx(s) < s.len(),
    decreases s.len(),
{
    if s.len() > 1 {
        lemma_first_max_idx(s.drop_last());
    }
}

/// The exec scan's running best index equals `first_max_idx` of the prefix.
proof fn lemma_first_max_step(s: Seq<(i64, SearchItemV)>, j: int)
    requires
        0 < j < s.len(),
    ensures
        first_max_idx(s.subrange(0, j + 1)) == if s[j].0 > s[first_max_idx(
            s.subrange(0, j),
        )].0 {
            j
        } else {
            first_max_idx(s.subrange(0, j))
        },
{
    let t = s.subrange(0, j + 1);
    assert(t.drop_last() =~= s.subrange(0, j));
    assert(t.last() == s[j]);
    lemma_first_max_idx(s.subrange(0, j));
    assert(t[first_max_idx(s.subrange(0, j))] == s[first_max_idx(s.subrange(0, j))]);
}

/// The first highest score is a highest score.
proof fn lemma_first_max_is_max(s: Seq<(i64, SearchItemV)>)
    requires
        s.len() > 0,
    ensures
        forall|j: int| 0 <= j < s.len() ==> s[first_max_idx(s)].0 >= (#[trigger] s[j]).0,
    decreases s.len(),
{
    if s.len() > 1 {
        lemma_first_max_is_max(s.drop_last());
        lemma_first_max_idx(s.drop_last());
        let r = first_max_idx(s.drop_last());
        assert forall|j: int| 0 <= j < s.len() implies s[first_max_idx(s)].0 >= (
        #[trigger] s[j]).0 by {
            assert(s.drop_last()[r] == s[r]);
            if j < s.len() - 1 {
                assert(s.drop_last()[j] == s[j]);
            }
        }
    }
}

/// Every ordered entry comes from the scored list.
proof fn lemma_sort_desc_elems(s: Seq<(i64, SearchItemV)>)
    ensures
        spec_sort_desc(s).len() == s.len(),
        forall|k: int|
            0 <= k < spec_sort_desc(s).len() ==> exists|i: int|
                0 <= i < s.len() && s[i] == #[trigger] spec_sort_desc(s)[k],
    decreases s.len(),
{
    if s.len() > 0 {
        lemma_first_max_idx(s);
        let m = first_max_idx(s);
        let rem = s.remove(m);
        lemma_sort_desc_elems(rem);
        let t = spec_sort_desc(s);
        assert forall|k: int| 0 <= k < t.len() implies exists|i: int|
            0 <= i < s.len() && s[i] == #[trigger] t[k] by {
            if k == 0 {
                assert(t[0] == s[m]);
            } else {
                assert(t[k] == spec_sort_desc(rem)[k - 1]);
                let i0 = choose|i0: int| 0 <= i0 < rem.len() && rem[i0] == spec_sort_desc(rem)[k
                    - 1];
                if i0 < m {
                    assert(s[i0] == rem[i0]);
                } else {
                    assert(s[i0 + 1] == rem[i0]);
                }
            }
        }
    }
}

/// Law: the ordering is by descending score.  In the ordered scored list,
/// every entry's score is at least the score of every entry after it.
pub proof fn lemma_sort_desc_sorted(s: Seq<(i64, SearchItemV)>)
    ensures
        forall|i: int, j: int|
            0 <= i < j < spec_sort_desc(s).len() ==> (#[trigger] spec_sort_desc(s)[i]).0 >= (
            #[trigger] spec_sort_desc(s)[j]).0,
    decreases s.len(),
{
    if s.len() > 0 {
        lemma_first_max_idx(s);
        lemma_first_max_is_max(s);
        let m = first_max_idx(s);
        let rem = s.remove(m);
        lemma_sort_desc_sorted(rem);
        lemma_sort_desc_elems(rem);
        let t = spec_sort_desc(s);
        assert forall|i: int, j: int|
            0 <= i < j < t.len() implies (#[trigger] t[i]).0 >= (#[trigger] t[j]).0 by {
            assert(t[j] == spec_sort_desc(rem)[j - 1]);
            if i == 0 {
                let i0 = choose|i0: int| 0 <= i0 < rem.len() && rem[i0] == spec_sort_desc(rem)[j
                    - 1];
                if i0 < m {
                    assert(rem[i0] == s[i0]);
                } else {
                    assert(rem[i0] == s[i0 + 1]);
                }
            } else {
                assert(t[i] == spec_sort_desc(rem)[i - 1]);
            }
        }
    }
}

/// The matching entries for query `q`, by descending score, earlier entries
/// first among ties.
pub open spec fn spec_fuzzy_search(items: Seq<SearchItemV>, q: Seq<char>) -> Seq<SearchItemV> {
    items_of(spec_sort_desc(spec_scored(items, q)))
}

/// Scores every entry against `q` and returns the matches ordered by
/// descending score, earlier entries first among equal scores.
pub fn fuzzy_search(q: &str, data: Vec<SearchItem>) -> (r: Vec<SearchItem>)
    ensures
        views_of(r@) == spec_fuzzy_search(views_of(data@), q@),
{
    let ghost orig = views_of(data@);
    let mut data = data;
    let mut scored: Vec<(i64, SearchItem)> = Vec::new();
    proof {
        assert(scored_views(scored@) =~= Seq::<(i64, SearchItemV)>::empty());
        assert(scored_views(scored@) + spec_scored(views_of(data@), q@) =~= spec_scored(
            orig,
            q@,
        ));
    }
    while data.len() > 0
        invariant
            scored_views(scored@) + spec_scored(views_of(data@), q@) == spec_scored(orig, q@),
        decreases data@.len(),
    {
        let ghost before = views_of(data@);
        let item = data.remove(0);
        proof {
            assert(views_of(data@) =~= before.drop_first());
            assert(before.first() == item@);
        }
        let matched: Option<i64> = if item.search.is_full_name && contains_sub(
            item.name.as_str(),
            q,
        ) {
            Some(100)
        } else {
            fuzzy_match_score(item.search.as_search.as_str(), q)
        };
        let ghost scored_before = scored_views(scored@);
        match matched {
            Some(sc) => {
                scored.push((sc, item));
                proof {
                    assert(scored_views(scored@) =~= scored_before.push((sc, item@)));
                    assert(scored_before.push((sc, item@)) + spec_scored(views_of(data@), q@)
                        =~= scored_before + (seq![(sc, item@)] + spec_scored(
                        views_of(data@),
                        q@,
                    )));
                }
            }
            None => {
                proof {
                    assert(spec_scored(before, q@) =~= spec_scored(views_of(data@), q@));
                }
            }
        }
    }
    proof {
        assert(views_of(data@) =~= Seq::<SearchItemV>::empty());
        assert(spec_scored(views_of(data@), q@) =~= Seq::<(i64, SearchItemV)>::empty());
        assert(scored_views(scored@) + spec_scored(views_of(data@), q@) =~= scored_views(
            scored@,
        ));
    }
    // Repeatedly move the first highest-scored entry to the output.
    let ghost all = scored_views(scored@);
    let mut out: Vec<SearchItem> = Vec::new();
    proof {
        assert(views_of(out@) =~= Seq::<SearchItemV>::empty());
        assert(views_of(out@) + items_of(spec_sort_desc(scored_views(scored@))) =~= items_of(
            spec_sort_desc(all),
        ));
    }
    while scored.len() > 0
        invariant
            views_of(out@) + items_of(spec_sort_desc(scored_views(scored@))) == items_of(
                spec_sort_desc(all),
            ),
        decreases scored@.len(),
    {
        let n = scored.len();
        let mut best: usize = 0;
        let mut j: usize = 1;
        while j < n
            invariant
                n == scored@.len(),
                0 < n,
                best < j <= n,
                best as int == first_max_idx(scored_views(scored@).subrange(0, j as int)),
            decreases n - j,
        {
            proof {
                lemma_first_max_step(scored_views(scored@), j as int);
            }
            if scored[j].0 > scored[best].0 {
                best = j;
            }
            j = j + 1;
        }
        proof {
            assert(scored_views(scored@).subrange(0, n as int) =~= scored_views(scored@));
        }
        let ghost cur = scored_views(scored@);
        let ghost out_before = views_of(out@);
        let (_sc, item) = scored.remove(best);
        proof {
            assert(scored_views(scored@) =~= cur.remove(best as int));
            assert(cur[best as int].1 == item@);
        }
        out.push(item);
        proof {
            lemma_first_max_idx(cur);
            assert(views_of(out@) =~= out_before.push(item@));
            assert(items_of(spec_sort_desc(cur)) =~= seq![cur[best as int].1] + items_of(
                spec_sort_desc(cur.remove(best as int)),
            ));
            assert(out_before.push(item@) + items_of(spec_sort_desc(cur.remove(best as int)))
                =~= out_before + items_of(spec_sort_desc(cur)));
        }
    }
    proof {
        assert(scored_views(scored@) =~= Seq::<(i64, SearchItemV)>::empty());
        assert(items_of(spec_sort_desc(scored_views(scored@))) =~= Seq::<SearchItemV>::empty());
        assert(views_of(out@) + items_of(spec_sort_desc(scored_views(scored@))) =~= views_of(
            out@,
        ));
    }
    out
}

/// The views of a scored list.
pub open spec fn scored_views(s: Seq<(i64, SearchItem)>) -> Seq<(i64, SearchItemV)> {
    s.map_values(|p: (i64, SearchItem)| (p.0, p.1@))
}

impl SearchItem {
    pub fn clone(&self) -> (r: Self)
        ensures
            r@ == self@,
    {
        SearchItem {
            id: self.id.clone(),
            name: self.name.clone(),
            search: Search {
                as_search: self.search.as_search.clone(),
                is_full_name: self.search.is_full_name,
            },
            execute: Execute {
                launcher: self.execute.launcher,
                path: self.execute.path.clone(),
            },
        }
    }

    /// The search entry a registered plugin's information denotes: the
    /// search text is the pinyin of the name joined with the declared
    /// keyword and trimmed, and the entry opens the published UI path.
    pub fn from(value: PluginInfoWrapper) -> (r: Self)
        ensures
            r@ == spec_item_of(value@),
    {
        let as_search_raw = {
            let mut t = to_pinyin(value.info.name.as_str());
            t.append(" ");
            match &value.info.keyword {
                Some(k) => t.append(k.as_str()),
                None => (),
            }
            t
        };
        let as_search = trim(as_search_raw.as_str());
        let path = match &value.info_net {
            Some(n) => n.html.clone(),
            None => String::new(),
        };
        SearchItem {
            id: value.id,
            name: value.info.name,
            search: Search { as_search, is_full_name: false },
            execute: Execute { launcher: value.info.luncher, path },
        }
    }
}

/// The search entry denoted by a registered plugin's information.
pub open spec fn spec_item_of(w: crate::manifest::PluginInfoWrapperV) -> SearchItemV {
    SearchItemV {
        id: w.id,
        name: w.info.name,
        search: SearchV {
            as_search: spec_trim(
                spec_to_pinyin(w.info.name) + " "@ + match w.info.keyword {
                    Some(k) => k,
                    None => Seq::empty(),
                },
            ),
            is_full_name: false,
        },
        execute: ExecuteV {
            launcher: w.info.luncher,
            path: match w.info_net {
                Some(n) => n.html,
                None => Seq::empty(),
            },
        },
    }
}

impl SearchResultItem {
    /// The result shown for one matching entry.
    pub fn from(value: &SearchItem) -> (r: Self)
        ensures
            r@ == spec_result_of(value@),
    {
        SearchResultItem {
            name: value.name.clone(),
            path: value.execute.path.clone(),
            page_type: value.execute.launcher,
        }
    }
}

/// The result denoted by one matching entry.
pub open spec fn spec_result_of(it: SearchItemV) -> SearchResultItemV {
    SearchResultItemV { name: it.name, path: it.execute.path, page_type: it.execute.launcher }
}

/// The search engine: a fixed list of system entries and a replaceable
/// snapshot of plugin entries.
#[derive(Debug)]
pub struct SearchEngine {
    /// The system entries, searched before the plugin snapshot.
    pub sys: Vec<SearchItem>,
    /// The plugin snapshot, replaced whole on every registry update.
    pub data: Vec<SearchItem>,
}

impl Default for SearchEngine {
    fn default() -> (r: Self)
        ensures
            r.sys@.len() == 0,
            r.data@.len() == 0,
    {
        SearchEngine { sys: Vec::new(), data: Vec::new() }
    }
}

/// Copies a list of entries.
fn clone_items(items: &Vec<SearchItem>) -> (r: Vec<SearchItem>)
    ensures
        views_of(r@) == views_of(items@),
{
    let n = items.len();
    let mut out: Vec<SearchItem> = Vec::new();
    let mut i: usize = 0;
    while i < n
        invariant
            n == items@.len(),
            i <= n,
            out@.len() == i,
            forall|k: int| 0 <= k < i ==> (#[trigger] out@[k])@ == items@[k]@,
        decreases n - i,
    {
        out.push(items[i].clone());
        i = i + 1;
    }
    proof {
        assert(views_of(out@) =~= views_of(items@));
    }
    out
}

/// What an engine search returns before truncation: the ordered matches of
/// the system entries, then the ordered matches of the plugin snapshot,
/// both against the pinyin of the query.
pub open spec fn spec_engine_search(
    sys: Seq<SearchItemV>,
    data: Seq<SearchItemV>,
    q: Seq<char>,
) -> Seq<SearchItemV> {
    spec_fuzzy_search(sys, spec_to_pinyin(q)) + spec_fuzzy_search(data, spec_to_pinyin(q))
}

impl SearchEngine {
    /// The entries shown when there is no query: the system entries.
    pub fn collect_default(&self) -> (r: Vec<SearchItem>)
        ensures
            views_of(r@) == views_of(self.sys@),
    {
        clone_items(&self.sys)
    }

    /// The ordered matches for query `q`: system entries first, then the
    /// plugin snapshot, each part by descending score.
    pub fn search(&self, q: &str) -> (r: Vec<SearchItem>)
        ensures
            views_of(r@) == spec_engine_search(views_of(self.sys@), views_of(self.data@), q@),
    {
        let p = to_pinyin(q);
        let mut res = fuzzy_search(p.as_str(), clone_items(&self.sys));
        let mut rest = fuzzy_search(p.as_str(), clone_items(&self.data));
        let ghost first_part = views_of(res@);
        let ghost second_part = views_of(rest@);
        res.append(&mut rest);
        proof {
            assert(views_of(res@) =~= first_part + second_part);
        }
        res
    }

    /// The matches of the plugin snapshot alone.
    pub fn search_data(&self, q: &str) -> (r: Vec<SearchItem>)
        ensures
            views_of(r@) == spec_fuzzy_search(views_of(self.data@), q@),
    {
        fuzzy_search(q, clone_items(&self.data))
    }

    /// The matches of the system entries alone.
    pub fn search_sys(&self, q: &str) -> (r: Vec<SearchItem>)
        ensures
            views_of(r@) == spec_fuzzy_search(views_of(self.sys@), q@),
    {
        fuzzy_search(q, clone_items(&self.sys))
    }
}

/// Replaces the engine's plugin snapshot, after a registry update.
pub fn on_update(engine: &mut SearchEngine, items: Vec<SearchItem>)
    ensures
        final(engine).data == items,
        final(engine).sys == old(engine).sys,
{
    engine.data = items;
}

/// The first `COUNT_LIMIT` of a result list.
pub open spec fn spec_take_limit(s: Seq<SearchItemV>) -> Seq<SearchItemV> {
    if s.len() <= COUNT_LIMIT {
        s
    } else {
        s.subrange(0, COUNT_LIMIT as int)
    }
}

/// Searches the engine: with a nonempty query, the ordered matches; with
/// none, the default entries; in both cases capped at the fixed count and
/// shown as results.
pub fn search(engine: &SearchEngine, word: Option<String>) -> (r: Vec<SearchResultItem>)
    ensures
        r@.map_values(|x: SearchResultItem| x@) == spec_take_limit(
            match word {
                Some(w) => if w@.len() == 0 {
                    views_of(engine.sys@)
                } else {
                    spec_engine_search(views_of(engine.sys@), views_of(engine.data@), w@)
                },
                None => views_of(engine.sys@),
            },
        ).map_values(|it: SearchItemV| spec_result_of(it)),
{
    let picked: Vec<SearchItem> = match &word {
        Some(w) => {
            if w.unicode_len() == 0 {
                engine.collect_default()
            } else {
                engine.search(w.as_str())
            }
        }
        None => engine.collect_default(),
    };
    let ghost picked_views = views_of(picked@);
    let count = if picked.len() > COUNT_LIMIT {
        COUNT_LIMIT
    } else {
        picked.len()
    };
    let mut out: Vec<SearchResultItem> = Vec::new();
    let mut i: usize = 0;
    while i < count
        invariant
            count <= picked@.len(),
            i <= count,
            out@.len() == i,
            forall|k: int|
                0 <= k < i ==> (#[trigger] out@[k])@ == spec_result_of(picked@[k]@),
        decreases count - i,
    {
        out.push(SearchResultItem::from(&picked[i]));
        i = i + 1;
    }
    proof {
        assert(out@.map_values(|x: SearchResultItem| x@) =~= spec_take_limit(
            picked_views,
        ).map_values(|it: SearchItemV| spec_result_of(it)));
    }
    out
}

/// The plain pinyin reading of a character, where it has one.
pub uninterp spec fn pinyin_plain(c: char) -> Option<Seq<char>>;

/// Relies on pinyin's `ToPinyin` for `char` and `Pinyin::plain`: the plain
/// reading of a character is a fixed table lookup, the same for the same
/// character everywhere.
#[verifier::external_body]
fn char_pinyin(c: char) -> (r: Option<String>)
    ensures
        match r {
            Some(p) => pinyin_plain(c) == Some(p@),
            None => pinyin_plain(c) is None,
        },
{
    c.to_pinyin().map(|p| p.plain().to_owned())
}

/// Relies on `char::to_string`: the string holding exactly this character.
#[verifier::external_body]
fn char_to_string(c: char) -> (r: String)
    ensures
        r@ == seq![c],
{
    c.to_string()
}

/// The skim fuzzy-match score of a choice text against a pattern.
pub uninterp spec fn fuzzy_score(choice: Seq<char>, pattern: Seq<char>) -> Option<i64>;

/// Relies on fuzzy_matcher's `SkimMatcherV2` under its default
/// configuration: the score is computed by a deterministic alignment of the
/// two texts, the same for the same texts everywhere.
#[verifier::external_body]
fn fuzzy_match_score(choice: &str, pattern: &str) -> (r: Option<i64>)
    ensures
        r == fuzzy_score(choice@, pattern@),
{
    fuzzy_matcher::skim::SkimMatcherV2::default().fuzzy_match(choice, pattern)
}

} // verus!
