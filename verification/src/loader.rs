//! Loading the components that a module imports, before rendering: the loader
//! says which import path to load next and records what loading it gave; each
//! path is loaded once, and the imports of every loaded module are followed.
use vstd::prelude::*;
use crate::ast::{Module, Item};
use crate::error::JsxrsError;
use crate::export::{collect_imports, imports_of, pairs_view};
use crate::renderer::{ComponentTable, ComponentsView, component_lookup};
use crate::text::{copy_string, str_eq};

verus! {

broadcast use vstd::string::group_string_axioms;

/// The sources of the default imports of `items`, in order.
pub open spec fn import_sources(items: Seq<Item>) -> Seq<Seq<char>> {
    imports_of(items).map_values(|p: (Seq<char>, Seq<char>)| p.1)
}

/// No import path is loaded twice.
pub open spec fn paths_distinct(t: ComponentsView) -> bool {
    forall|i: int, j: int| 0 <= i < j < t.len() ==> t[i].0 != t[j].0
}

/// The paths still to visit after popping those already loaded from the top of
/// `pending`, and the first one that is not loaded, if any.
pub open spec fn next_unloaded(t: ComponentsView, pending: Seq<Seq<char>>) -> (Seq<Seq<char>>, Option<Seq<char>>)
    decreases pending.len(),
{
    if pending.len() == 0 {
        (pending, None)
    } else if component_lookup(t, pending.last()) is Some {
        next_unloaded(t, pending.drop_last())
    } else {
        (pending.drop_last(), Some(pending.last()))
    }
}

/// The loader never asks for a path that it has loaded, and what it skips to get
/// to the next path is only paths that it has loaded; when it asks for nothing,
/// every path it had still to visit is loaded.
pub proof fn requests_only_unloaded_paths(t: ComponentsView, pending: Seq<Seq<char>>)
    ensures
        next_unloaded(t, pending).1 matches Some(p) ==> component_lookup(t, p) is None,
        ({
            let rest = next_unloaded(t, pending).0;
            &&& rest.len() <= pending.len()
            &&& rest == pending.take(rest.len() as int)
            &&& next_unloaded(t, pending).1 is None ==> rest.len() == 0
            &&& next_unloaded(t, pending).1 is Some ==> rest.len() < pending.len()
                && pending[rest.len() as int] == next_unloaded(t, pending).1->Some_0
            &&& forall|j: int|
                rest.len() + (if next_unloaded(t, pending).1 is Some { 1int } else { 0int }) <= j < pending.len()
                    ==> component_lookup(t, #[trigger] pending[j]) is Some
        }),
    decreases pending.len(),
{
    if pending.len() > 0 {
        if component_lookup(t, pending.last()) is Some {
            requests_only_unloaded_paths(t, pending.drop_last());
            let rest = next_unloaded(t, pending).0;
            assert(pending.drop_last().take(rest.len() as int) =~= pending.take(rest.len() as int));
            assert forall|j: int|
                rest.len() + (if next_unloaded(t, pending).1 is Some { 1int } else { 0int }) <= j < pending.len()
                    implies component_lookup(t, #[trigger] pending[j]) is Some by {
                if j < pending.len() - 1 {
                    assert(pending[j] == pending.drop_last()[j]);
                }
            }
        } else {
            assert(pending.drop_last() =~= pending.take(pending.len() - 1));
        }
    } else {
        assert(pending =~= pending.take(0));
    }
}

/// The component loader: the loaded components and the import paths still to visit.
pub struct ComponentLoader {
    table: ComponentTable,
    pending: Vec<String>,
}

impl ComponentLoader {
    /// The components loaded so far.
    pub closed spec fn loaded(&self) -> ComponentsView {
        self.table@
    }

    /// The import paths still to visit; the last is visited first.
    pub closed spec fn pending(&self) -> Seq<Seq<char>> {
        self.pending@.map_values(|s: String| s@)
    }

    /// No import path has been loaded twice.
    pub open spec fn wf(&self) -> bool {
        paths_distinct(self.loaded())
    }

    /// A loader for the imports of `items`, with nothing loaded yet.
    pub fn new(items: &Vec<Item>) -> (r: ComponentLoader)
        ensures
            r.wf(),
            r.loaded() == Seq::<(Seq<char>, Result<Module, crate::error::ErrorView>)>::empty(),
            r.pending() == import_sources(items@),
    {
        let table = ComponentTable { entries: Vec::new() };
        let pending = import_paths(items);
        let r = ComponentLoader { table, pending };
        assert(r.loaded() =~= Seq::<(Seq<char>, Result<Module, crate::error::ErrorView>)>::empty());
        r
    }

    /// The next import path to load, skipping those already loaded; `None` when
    /// every import has been visited.
    pub fn next_request(&mut self) -> (r: Option<String>)
        requires
            old(self).wf(),
        ensures
            final(self).wf(),
            final(self).loaded() == old(self).loaded(),
            (final(self).pending(), match r {
                Some(p) => Some(p@),
                None => None,
            }) == next_unloaded(old(self).loaded(), old(self).pending()),
    {
        loop
            invariant
                self.wf(),
                self.loaded() == old(self).loaded(),
                next_unloaded(old(self).loaded(), old(self).pending()) == next_unloaded(self.loaded(), self.pending()),
            decreases self.pending@.len(),
        {
            let ghost before = self.pending();
            match self.pending.pop() {
                None => {
                    assert(self.pending() =~= before);
                    return None;
                },
                Some(p) => {
                    assert(self.pending() =~= before.drop_last());
                    if !self.is_loaded(p.as_str()) {
                        return Some(p);
                    }
                },
            }
        }
    }

    /// Whether `path` has been loaded.
    fn is_loaded(&self, path: &str) -> (r: bool)
        ensures
            r == component_lookup(self.loaded(), path@) is Some,
    {
        let mut i: usize = 0;
        assert(self.table@.skip(0) =~= self.table@);
        while i < self.table.entries.len()
            invariant
                i <= self.table.entries.len(),
                component_lookup(self.table@, path@) == component_lookup(self.table@.skip(i as int), path@),
            decreases self.table.entries.len() - i,
        {
            assert(self.table@.skip(i as int).drop_first() =~= self.table@.skip(i + 1));
            if str_eq(self.table.entries[i].0.as_str(), path) {
                return true;
            }
            i = i + 1;
        }
        false
    }

    /// Records what loading `path` gave: a path already loaded is left as it was;
    /// otherwise it is added, and the imports of a module that loaded are to be
    /// visited.
    pub fn deliver(&mut self, path: String, loaded: Result<Module, JsxrsError>)
        requires
            old(self).wf(),
        ensures
            final(self).wf(),
            component_lookup(old(self).loaded(), path@) is Some ==> final(self).loaded() == old(self).loaded()
                && final(self).pending() == old(self).pending(),
            component_lookup(old(self).loaded(), path@) is None ==> final(self).loaded() == old(self).loaded().push(
                (path@, crate::renderer::module_res_view(loaded)),
            ) && final(self).pending() == old(self).pending() + match loaded {
                Ok(m) => import_sources(m.body@),
                Err(_) => Seq::empty(),
            },
    {
        if self.is_loaded(path.as_str()) {
            return;
        }
        let more = match &loaded {
            Ok(m) => import_paths(&m.body),
            Err(_) => Vec::new(),
        };
        let ghost t0 = self.table@;
        let ghost p0 = self.pending();
        proof { lemma_lookup_none_distinct(t0, path@); }
        self.table.entries.push((path, loaded));
        assert(self.table@ =~= t0.push((path@, crate::renderer::module_res_view(loaded))));
        let mut more = more;
        let ghost mv = more@.map_values(|s: String| s@);
        self.pending.append(&mut more);
        assert(self.pending() =~= p0 + mv);
    }

    /// The loaded components.
    pub fn finish(self) -> (r: ComponentTable)
        ensures
            r@ == self.loaded(),
    {
        self.table
    }
}

proof fn lemma_lookup_none_distinct(t: ComponentsView, p: Seq<char>)
    requires
        component_lookup(t, p) is None,
    ensures
        forall|i: int| 0 <= i < t.len() ==> t[i].0 != p,
    decreases t.len(),
{
    if t.len() > 0 {
        lemma_lookup_none_distinct(t.drop_first(), p);
        assert forall|i: int| 0 <= i < t.len() implies t[i].0 != p by {
            if i > 0 {
                assert(t[i] == t.drop_first()[i - 1]);
            }
        }
    }
}

/// The sources of the default imports of `items`, in order.
fn import_paths(items: &Vec<Item>) -> (r: Vec<String>)
    ensures
        r@.map_values(|s: String| s@) == import_sources(items@),
{
    let pairs = collect_imports(items);
    let ghost pv = pairs_view(pairs@);
    let mut out: Vec<String> = Vec::new();
    let mut i: usize = 0;
    while i < pairs.len()
        invariant
            i <= pairs.len(),
            pv == pairs_view(pairs@),
            pv == imports_of(items@),
            out@.len() == i,
            forall|j: int| 0 <= j < i ==> #[trigger] out@[j]@ == pv[j].1,
        decreases pairs.len() - i,
    {
        out.push(copy_string(&pairs[i].1));
        i = i + 1;
    }
    assert(out@.map_values(|s: String| s@) =~= import_sources(items@));
    out
}

} // verus!
