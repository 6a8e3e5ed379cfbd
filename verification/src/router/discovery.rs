//! Discovery of routes in an app directory, in the manner of the Next.js App
//! Router: a `page` file makes a route, `layout` files wrap the pages below them,
//! `[param]` and `[...param]` directories make dynamic segments and `(group)`
//! directories leave the URL unchanged.
use vstd::prelude::*;
use crate::head::strings_view;
use crate::order::{sort_order, stable_order, keys_view, key_lt, is_permutation, stable_order_sorts};
use crate::resolver::{join_path, join_paths};
use crate::text::{
    count_char, count_chars, starts_with, ends_with, str_starts_with, str_ends_with, chars_of, string_of,
    push_str, string_from, copy_string, str_eq,
};

verus! {

broadcast use vstd::string::group_string_axioms;

/// A discovered route.
#[derive(Debug)]
pub struct RouteEntry {
    /// The Axum path pattern, such as `/blog/{slug}`.
    pub axum_path: String,
    /// The page file.
    pub page_file: String,
    /// The layout files, from the root to the innermost.
    pub layouts: Vec<String>,
}

/// A route as its path pattern, page file and layouts.
pub type RouteView = (Seq<char>, Seq<char>, Seq<Seq<char>>);

impl View for RouteEntry {
    type V = RouteView;

    open spec fn view(&self) -> RouteView {
        (self.axum_path@, self.page_file@, strings_view(self.layouts@))
    }
}

pub open spec fn routes_view(v: Seq<RouteEntry>) -> Seq<RouteView> {
    v.map_values(|e: RouteEntry| e@)
}

/// A directory of the app as the scan reads it: its path, the names in it that
/// exist, and its subdirectories by name, in the order in which they were listed.
pub struct DirTree {
    pub path: String,
    pub names: Vec<String>,
    pub subdirs: Vec<(String, DirTree)>,
}

/// What a directory name contributes to the URL.
pub enum Segment {
    Static(String),
    Dynamic(String),
    CatchAll(String),
    Group,
}

pub enum SegmentView {
    Static(Seq<char>),
    Dynamic(Seq<char>),
    CatchAll(Seq<char>),
    Group,
}

impl View for Segment {
    type V = SegmentView;

    open spec fn view(&self) -> SegmentView {
        match self {
            Segment::Static(s) => SegmentView::Static(s@),
            Segment::Dynamic(s) => SegmentView::Dynamic(s@),
            Segment::CatchAll(s) => SegmentView::CatchAll(s@),
            Segment::Group => SegmentView::Group,
        }
    }
}

/// `(name)` is a group, `[...name]` a catch-all parameter, `[name]` a parameter, and
/// any other name a static segment.
pub open spec fn segment_of(name: Seq<char>) -> SegmentView {
    if starts_with(name, "("@) && ends_with(name, ")"@) {
        SegmentView::Group
    } else if starts_with(name, "[..."@) && ends_with(name, "]"@) {
        SegmentView::CatchAll(name.subrange(4, name.len() - 1))
    } else if starts_with(name, "["@) && ends_with(name, "]"@) {
        SegmentView::Dynamic(name.subrange(1, name.len() - 1))
    } else {
        SegmentView::Static(name)
    }
}

/// The URL prefix of a subdirectory.
pub open spec fn child_prefix(prefix: Seq<char>, seg: SegmentView) -> Seq<char> {
    match seg {
        SegmentView::Static(s) => prefix + "/"@ + s,
        SegmentView::Dynamic(p) => prefix + "/{"@ + p + "}"@,
        SegmentView::CatchAll(p) => prefix + "/{*"@ + p + "}"@,
        SegmentView::Group => prefix,
    }
}

/// The file `base.tsx`, else `base.jsx`, in the directory, where it exists.
pub open spec fn find_in(t: DirTree, base: Seq<char>) -> Option<Seq<char>> {
    let names = strings_view(t.names@);
    if names.contains(base + ".tsx"@) {
        Some(join_path(t.path@, base + ".tsx"@))
    } else if names.contains(base + ".jsx"@) {
        Some(join_path(t.path@, base + ".jsx"@))
    } else {
        None
    }
}

/// The subdirectory names as sort keys.
pub open spec fn name_keys(t: DirTree) -> Seq<(nat, Seq<char>)> {
    t.subdirs@.map_values(|e: (String, DirTree)| (0nat, e.0@))
}

/// The layouts of the pages in a directory: its parent's, then its own, where it has one.
pub open spec fn layouts_here(t: DirTree, parent: Seq<Seq<char>>) -> Seq<Seq<char>> {
    match find_in(t, "layout"@) {
        Some(l) => parent.push(l),
        None => parent,
    }
}

/// The route of a directory's page, where it has one; the root's path is `/`.
pub open spec fn page_here(t: DirTree, prefix: Seq<char>, layouts: Seq<Seq<char>>) -> Seq<RouteView> {
    match find_in(t, "page"@) {
        Some(p) => seq![(if prefix.len() == 0 { "/"@ } else { prefix }, p, layouts)],
        None => Seq::empty(),
    }
}

/// The routes of a directory and, in order of their names, of its subdirectories.
pub open spec fn s_collect(t: DirTree, prefix: Seq<char>, parent: Seq<Seq<char>>) -> Seq<RouteView>
    decreases t, 1nat, 0int,
{
    let layouts = layouts_here(t, parent);
    page_here(t, prefix, layouts) + s_subdirs(
        t,
        stable_order(name_keys(t), t.subdirs@.len() as int),
        0,
        prefix,
        layouts,
    )
}

/// The routes of the subdirectories `order[k..]`.
pub open spec fn s_subdirs(t: DirTree, order: Seq<usize>, k: int, prefix: Seq<char>, layouts: Seq<Seq<char>>) -> Seq<RouteView>
    decreases t, 0nat, order.len() - k,
{
    if k < 0 || k >= order.len() || order[k] >= t.subdirs@.len() {
        Seq::empty()
    } else {
        let e = t.subdirs@[order[k] as int];
        s_collect(e.1, child_prefix(prefix, segment_of(e.0@)), layouts) + s_subdirs(t, order, k + 1, prefix, layouts)
    }
}

/// The sort key of a route: the number of its parameters, then its path.
pub open spec fn route_keys(rs: Seq<RouteView>) -> Seq<(nat, Seq<char>)> {
    rs.map_values(|r: RouteView| (count_char(r.0, '{'), r.0))
}

/// The routes in stable order of their keys.
pub open spec fn by_priority(rs: Seq<RouteView>) -> Seq<RouteView> {
    stable_order(route_keys(rs), rs.len() as int).map_values(|i: usize| rs[i as int])
}

/// The routes of an app directory, static before dynamic.
pub open spec fn scanned(t: DirTree) -> Seq<RouteView> {
    by_priority(s_collect(t, Seq::empty(), Seq::empty()))
}

/// The segment that a directory name gives.
pub fn dir_name_to_segment(name: &str) -> (r: Segment)
    ensures
        r@ == segment_of(name@),
{
    proof {
        reveal_strlit("(");
        reveal_strlit(")");
        reveal_strlit("[...");
        reveal_strlit("[");
        reveal_strlit("]");
    }
    if str_starts_with(name, "(") && str_ends_with(name, ")") {
        Segment::Group
    } else if str_starts_with(name, "[...") && str_ends_with(name, "]") {
        let v = chars_of(name);
        assert(v@.skip(v.len() - 1)[0] == v@[v.len() - 1]);
        assert(v@[v.len() - 1] == ']');
        assert(v.len() >= 5) by {
            if v.len() == 4 {
                assert(v@.take(4) =~= v@);
            }
        }
        Segment::CatchAll(string_of(&v, 4, v.len() - 1))
    } else if str_starts_with(name, "[") && str_ends_with(name, "]") {
        let v = chars_of(name);
        assert(v@.skip(v.len() - 1)[0] == v@[v.len() - 1]);
        assert(v@[v.len() - 1] == ']');
        assert(v@.take(1)[0] == v@[0]);
        assert(v.len() >= 2);
        Segment::Dynamic(string_of(&v, 1, v.len() - 1))
    } else {
        Segment::Static(string_from(name))
    }
}

/// The URL prefix of a subdirectory.
pub fn child_url(prefix: &str, seg: &Segment) -> (r: String)
    ensures
        r@ == child_prefix(prefix@, seg@),
{
    let mut s = string_from(prefix);
    match seg {
        Segment::Static(n) => {
            push_str(&mut s, "/");
            push_str(&mut s, n.as_str());
        },
        Segment::Dynamic(p) => {
            push_str(&mut s, "/{");
            push_str(&mut s, p.as_str());
            push_str(&mut s, "}");
        },
        Segment::CatchAll(p) => {
            push_str(&mut s, "/{*");
            push_str(&mut s, p.as_str());
            push_str(&mut s, "}");
        },
        Segment::Group => {},
    }
    s
}

fn has_name(names: &Vec<String>, n: &str) -> (r: bool)
    ensures
        r == strings_view(names@).contains(n@),
{
    let mut i: usize = 0;
    while i < names.len()
        invariant
            i <= names.len(),
            forall|j: int| 0 <= j < i ==> names@[j]@ != n@,
        decreases names.len() - i,
    {
        if str_eq(names[i].as_str(), n) {
            assert(strings_view(names@)[i as int] == n@);
            return true;
        }
        i = i + 1;
    }
    proof {
        if strings_view(names@).contains(n@) {
            let j = choose|j: int| 0 <= j < strings_view(names@).len() && strings_view(names@)[j] == n@;
            assert(names@[j]@ == n@);
        }
    }
    false
}

/// The file `base_name.tsx`, else `base_name.jsx`, in the directory, where it exists.
pub fn find_file(dir: &DirTree, base_name: &str) -> (r: Option<String>)
    ensures
        match r {
            Some(p) => find_in(*dir, base_name@) == Some(p@),
            None => find_in(*dir, base_name@) is None,
        },
{
    let mut tsx = string_from(base_name);
    push_str(&mut tsx, ".tsx");
    if has_name(&dir.names, tsx.as_str()) {
        return Some(join_paths(dir.path.as_str(), tsx.as_str()));
    }
    let mut jsx = string_from(base_name);
    push_str(&mut jsx, ".jsx");
    if has_name(&dir.names, jsx.as_str()) {
        return Some(join_paths(dir.path.as_str(), jsx.as_str()));
    }
    None
}

fn copy_strings(v: &Vec<String>) -> (r: Vec<String>)
    ensures
        strings_view(r@) == strings_view(v@),
{
    let mut out: Vec<String> = Vec::new();
    let mut i: usize = 0;
    while i < v.len()
        invariant
            i <= v.len(),
            out@.len() == i,
            forall|j: int| 0 <= j < i ==> #[trigger] out@[j]@ == v@[j]@,
        decreases v.len() - i,
    {
        out.push(copy_string(&v[i]));
        i = i + 1;
    }
    assert(strings_view(out@) =~= strings_view(v@));
    out
}

/// A copy of a route.
pub fn clone_route(e: &RouteEntry) -> (r: RouteEntry)
    ensures
        r@ == e@,
{
    RouteEntry {
        axum_path: copy_string(&e.axum_path),
        page_file: copy_string(&e.page_file),
        layouts: copy_strings(&e.layouts),
    }
}

/// The subdirectory names as sort keys.
fn subdir_keys(t: &DirTree) -> (r: Vec<(usize, String)>)
    ensures
        keys_view(r@) == name_keys(*t),
{
    let mut keys: Vec<(usize, String)> = Vec::new();
    let mut i: usize = 0;
    while i < t.subdirs.len()
        invariant
            i <= t.subdirs.len(),
            keys@.len() == i,
            forall|j: int| 0 <= j < i ==> #[trigger] keys@[j].0 == 0 && keys@[j].1@ == t.subdirs@[j].0@,
        decreases t.subdirs.len() - i,
    {
        keys.push((0, copy_string(&t.subdirs[i].0)));
        i = i + 1;
    }
    assert(keys_view(keys@) =~= name_keys(*t));
    keys
}

/// Appends the routes of a directory and of its subdirectories, in order of their
/// names, to `entries`.
pub fn collect_routes(dir: &DirTree, url_prefix: &str, parent_layouts: &Vec<String>, entries: &mut Vec<RouteEntry>)
    ensures
        routes_view(final(entries)@) == routes_view(old(entries)@) + s_collect(*dir, url_prefix@, strings_view(parent_layouts@)),
    decreases dir,
{
    let ghost start = routes_view(entries@);
    let mut layouts = copy_strings(parent_layouts);
    if let Some(l) = find_file(dir, "layout") {
        let ghost before = layouts@;
        layouts.push(l);
        assert(strings_view(layouts@) =~= strings_view(before).push(l@));
    }
    let ghost lv = strings_view(layouts@);
    assert(lv == layouts_here(*dir, strings_view(parent_layouts@)));
    if let Some(page) = find_file(dir, "page") {
        let axum_path = if url_prefix.unicode_len() == 0 { string_from("/") } else { string_from(url_prefix) };
        let ghost before = entries@;
        entries.push(RouteEntry { axum_path, page_file: page, layouts: copy_strings(&layouts) });
        assert(routes_view(entries@) =~= routes_view(before).push(entries@.last()@));
    }
    let ghost here = routes_view(entries@);
    assert(here =~= start + page_here(*dir, url_prefix@, lv));
    let keys = subdir_keys(dir);
    let order = sort_order(&keys);
    assert(keys@.len() == keys_view(keys@).len());
    let ghost ord = stable_order(name_keys(*dir), dir.subdirs@.len() as int);
    let mut k: usize = 0;
    proof {
        assert(routes_view(entries@) + s_subdirs(*dir, ord, 0, url_prefix@, lv) =~= here + s_subdirs(*dir, ord, 0, url_prefix@, lv));
    }
    while k < order.len()
        invariant
            order@ == ord,
            is_permutation(ord, dir.subdirs@.len() as int),
            k <= order.len(),
            lv == strings_view(layouts@),
            routes_view(entries@) + s_subdirs(*dir, ord, k as int, url_prefix@, lv) == here + s_subdirs(*dir, ord, 0, url_prefix@, lv),
        decreases order.len() - k,
    {
        let idx = order[k];
        assert(ord[k as int] < dir.subdirs@.len());
        let sub = &dir.subdirs[idx];
        let seg = dir_name_to_segment(sub.0.as_str());
        let child = child_url(url_prefix, &seg);
        let ghost before = routes_view(entries@);
        proof {
            assert(decreases_to!(dir => dir.subdirs));
            assert(decreases_to!(dir.subdirs => dir.subdirs@));
            assert(decreases_to!(dir.subdirs@ => dir.subdirs@[idx as int]));
            assert(decreases_to!(dir.subdirs@[idx as int] => dir.subdirs@[idx as int].1));
        }
        collect_routes(&sub.1, child.as_str(), &layouts, entries);
        proof {
            let c = s_collect(sub.1, child_prefix(url_prefix@, segment_of(sub.0@)), lv);
            assert(routes_view(entries@) == before + c);
            assert(s_subdirs(*dir, ord, k as int, url_prefix@, lv) == c + s_subdirs(*dir, ord, k + 1, url_prefix@, lv));
            assert(routes_view(entries@) + s_subdirs(*dir, ord, k + 1, url_prefix@, lv) =~= before + s_subdirs(*dir, ord, k as int, url_prefix@, lv));
        }
        k = k + 1;
    }
    proof {
        assert(s_subdirs(*dir, ord, k as int, url_prefix@, lv) =~= Seq::<RouteView>::empty());
        assert(routes_view(entries@) =~= start + s_collect(*dir, url_prefix@, strings_view(parent_layouts@)));
    }
}

/// The routes of an app directory, sorted so that static routes come before dynamic
/// ones: by the number of their parameters, then by path, discovery order kept
/// between equal paths.
pub fn scan_routes(app_dir: &DirTree) -> (r: Vec<RouteEntry>)
    ensures
        routes_view(r@) == scanned(*app_dir),
{
    let mut entries: Vec<RouteEntry> = Vec::new();
    let no_layouts: Vec<String> = Vec::new();
    proof {
        reveal_strlit("");
        assert(""@ =~= Seq::<char>::empty());
        assert(strings_view(no_layouts@) =~= Seq::<Seq<char>>::empty());
        assert(routes_view(entries@) =~= Seq::<RouteView>::empty());
    }
    collect_routes(app_dir, "", &no_layouts, &mut entries);
    let ghost found = s_collect(*app_dir, Seq::empty(), Seq::empty());
    assert(routes_view(entries@) =~= found);
    let mut keys: Vec<(usize, String)> = Vec::new();
    let mut i: usize = 0;
    while i < entries.len()
        invariant
            i <= entries.len(),
            routes_view(entries@) == found,
            keys@.len() == i,
            forall|j: int| 0 <= j < i ==> (#[trigger] keys@[j]).0 as nat == route_keys(found)[j].0 && keys@[j].1@ == route_keys(found)[j].1,
        decreases entries.len() - i,
    {
        keys.push(route_priority(entries[i].axum_path.as_str()));
        assert(found[i as int] == entries@[i as int]@);
        i = i + 1;
    }
    assert(keys_view(keys@) =~= route_keys(found));
    let order = sort_order(&keys);
    let mut out: Vec<RouteEntry> = Vec::new();
    let mut j: usize = 0;
    while j < order.len()
        invariant
            j <= order.len(),
            order@ == stable_order(route_keys(found), found.len() as int),
            is_permutation(order@, found.len() as int),
            routes_view(entries@) == found,
            out@.len() == j,
            forall|m: int| 0 <= m < j ==> #[trigger] out@[m]@ == by_priority(found)[m],
        decreases order.len() - j,
    {
        let idx = order[j];
        assert(order@[j as int] < found.len());
        out.push(clone_route(&entries[idx]));
        assert(found[idx as int] == entries@[idx as int]@);
        j = j + 1;
    }
    assert(routes_view(out@) =~= by_priority(found));
    out
}

/// The sort key of a route path: the number of its parameters, then the path.
pub fn route_priority(path: &str) -> (r: (usize, String))
    ensures
        r.0 as nat == count_char(path@, '{'),
        r.1@ == path@,
{
    (count_chars(path, '{'), string_from(path))
}

/// Whether a route has parameters: its path holds a `{`.
pub fn is_dynamic_route(entry: &RouteEntry) -> (r: bool)
    ensures
        r == (count_char(entry.axum_path@, '{') > 0),
{
    count_chars(entry.axum_path.as_str(), '{') > 0
}

/// Scanning keeps every discovered route once and puts the routes with fewer
/// parameters first; routes with the same path keep the order of discovery.
pub proof fn scan_puts_static_routes_first(t: DirTree)
    requires
        s_collect(t, Seq::empty(), Seq::empty()).len() <= usize::MAX,
    ensures
        ({
            let found = s_collect(t, Seq::empty(), Seq::empty());
            let order = stable_order(route_keys(found), found.len() as int);
            &&& scanned(t).len() == found.len()
            &&& is_permutation(order, found.len() as int)
            &&& forall|a: int| 0 <= a < found.len() ==> #[trigger] scanned(t)[a] == found[order[a] as int]
            &&& forall|a: int, b: int|
                0 <= a < b < found.len() ==> count_char(scanned(t)[a].0, '{') <= count_char(scanned(t)[b].0, '{')
            &&& forall|a: int, b: int|
                0 <= a < b < found.len() && scanned(t)[a].0 == scanned(t)[b].0 ==> order[a] < order[b]
        }),
{
    let found = s_collect(t, Seq::empty(), Seq::empty());
    let keys = route_keys(found);
    stable_order_sorts(keys, found.len() as int);
    let order = stable_order(keys, found.len() as int);
    assert forall|a: int, b: int|
        0 <= a < b < found.len() implies count_char(scanned(t)[a].0, '{') <= count_char(scanned(t)[b].0, '{') by {
        assert(!key_lt(keys[order[b] as int], keys[order[a] as int]));
    }
    assert forall|a: int, b: int|
        0 <= a < b < found.len() && scanned(t)[a].0 == scanned(t)[b].0 implies order[a] < order[b] by {
        assert(keys[order[a] as int] == keys[order[b] as int]);
    }
}

} // verus!
