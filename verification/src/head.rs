//! Head content collected from `<Head>` components, and its merge with the
//! head elements that the API specifies.
use vstd::prelude::*;
use crate::config::{HeadElement, HeadElementView, head_elements_view};
use crate::text::{trim, starts_with, find, chars_of, trim_bounds, chars_start_with_at, string_of, copy_string, push_str, string_from, occurs_at};

verus! {

broadcast use vstd::string::group_string_axioms;

/// How a head element takes part in the merge.
pub enum HeadTag {
    Title,
    Meta { name: String },
    Other,
}

pub enum HeadTagView {
    Title,
    Meta(Seq<char>),
    Other,
}

impl View for HeadTag {
    type V = HeadTagView;

    open spec fn view(&self) -> HeadTagView {
        match self {
            HeadTag::Title => HeadTagView::Title,
            HeadTag::Meta { name } => HeadTagView::Meta(name@),
            HeadTag::Other => HeadTagView::Other,
        }
    }
}

/// One collected head element: its HTML and its tag.
pub struct HeadEntry {
    pub html: String,
    pub tag: HeadTag,
}

/// Head content collected from JSX `<Head>` components: each element with the tag
/// that its HTML classifies as.
pub struct HeadContent {
    entries: Vec<HeadEntry>,
}

impl View for HeadContent {
    type V = Seq<(Seq<char>, HeadTagView)>;

    closed spec fn view(&self) -> Seq<(Seq<char>, HeadTagView)> {
        self.entries@.map_values(|e: HeadEntry| (e.html@, e.tag@))
    }
}

/// Each element carries the tag of its HTML.
pub open spec fn well_tagged(v: Seq<(Seq<char>, HeadTagView)>) -> bool {
    forall|i: int| 0 <= i < v.len() ==> #[trigger] v[i].1 == classify(v[i].0)
}

/// Well-tagged head content is determined by its HTML alone: it is the content that
/// pushing those elements in order would build.
pub proof fn well_tagged_content_is_its_html(v: Seq<(Seq<char>, HeadTagView)>)
    requires
        well_tagged(v),
    ensures
        v == v.map_values(|e: (Seq<char>, HeadTagView)| (e.0, classify(e.0))),
{
    let w = v.map_values(|e: (Seq<char>, HeadTagView)| (e.0, classify(e.0)));
    assert forall|i: int| 0 <= i < v.len() implies v[i] == w[i] by {
        assert(v[i].1 == classify(v[i].0));
    }
    assert(v =~= w);
}

/// The quoted value that starts at position `k` of `h`: the text up to the first
/// occurrence of the opening quote (`"` or `'`).
pub open spec fn quoted_at(h: Seq<char>, k: int) -> Option<Seq<char>> {
    let after = h.skip(k);
    if after.len() == 0 || (after[0] != '"' && after[0] != '\'') {
        None
    } else {
        let inner = after.skip(1);
        match find(inner, seq![after[0]]) {
            None => None,
            Some(e) => Some(inner.take(e)),
        }
    }
}

/// The value of the first `name="..."` (or `name='...'`) in `h`.
pub open spec fn meta_name_spec(h: Seq<char>) -> Option<Seq<char>> {
    match find(h, "name="@) {
        None => None,
        Some(p) => quoted_at(h, p + "name="@.len()),
    }
}

/// The tag of a head element's HTML: a title, a named meta, or other.
pub open spec fn classify(html: Seq<char>) -> HeadTagView {
    let t = trim(html);
    if starts_with(t, "<title"@) {
        HeadTagView::Title
    } else if (starts_with(t, "<meta "@) || starts_with(t, "<meta>"@)) && meta_name_spec(t) is Some {
        HeadTagView::Meta(meta_name_spec(t)->0)
    } else {
        HeadTagView::Other
    }
}

proof fn lemma_occurs_single(s: Seq<char>, c: char, j: int)
    ensures
        occurs_at(s, seq![c], j) <==> (0 <= j < s.len() && s[j] == c),
{
    if 0 <= j < s.len() {
        if s[j] == c {
            assert(s.subrange(j, j + 1) =~= seq![c]);
        } else {
            assert(s.subrange(j, j + 1)[0] != seq![c][0]);
        }
    }
}

proof fn lemma_find_single(s: Seq<char>, c: char, e: int)
    requires
        0 <= e < s.len(),
        s[e] == c,
        forall|j: int| 0 <= j < e ==> s[j] != c,
    ensures
        find(s, seq![c]) == Some(e),
{
    reveal(find);
    lemma_occurs_single(s, c, e);
    assert forall|j: int| 0 <= j < e implies !occurs_at(s, seq![c], j) by {
        lemma_occurs_single(s, c, j);
    }
    let w = choose|w: int| occurs_at(s, seq![c], w) && forall|j: int| 0 <= j < w ==> !occurs_at(s, seq![c], j);
    if w > e {
    } else if w < e {
        lemma_occurs_single(s, c, w);
    }
}

proof fn lemma_find_single_none(s: Seq<char>, c: char)
    requires
        forall|j: int| 0 <= j < s.len() ==> s[j] != c,
    ensures
        find(s, seq![c]) is None,
{
    reveal(find);
    assert forall|j: int| !occurs_at(s, seq![c], j) by {
        lemma_occurs_single(s, c, j);
    }
}

/// The first position at or after `start` of the character `c`, relative to `start`.
fn find_char_from(t: &Vec<char>, c: char, start: usize) -> (r: Option<usize>)
    requires
        start <= t.len(),
    ensures
        match r {
            Some(e) => find(t@.skip(start as int), seq![c]) == Some(e as int) && e < t.len() - start,
            None => find(t@.skip(start as int), seq![c]) is None,
        },
{
    let ghost s = t@.skip(start as int);
    let mut i = start;
    while i < t.len()
        invariant
            start <= i <= t.len(),
            s == t@.skip(start as int),
            forall|j: int| start <= j < i ==> t@[j] != c,
        decreases t.len() - i,
    {
        if t[i] == c {
            proof {
                assert forall|j: int| 0 <= j < i - start implies s[j] != c by {
                    assert(s[j] == t@[start + j]);
                }
                lemma_find_single(s, c, i - start);
            }
            return Some(i - start);
        }
        i = i + 1;
    }
    proof {
        assert forall|j: int| 0 <= j < s.len() implies s[j] != c by {
            assert(s[j] == t@[start + j]);
        }
        lemma_find_single_none(s, c);
    }
    None
}

fn quoted_value_at(t: &Vec<char>, k: usize) -> (r: Option<String>)
    requires
        k <= t.len(),
    ensures
        match r {
            Some(s) => quoted_at(t@, k as int) == Some(s@),
            None => quoted_at(t@, k as int) is None,
        },
{
    let ghost after = t@.skip(k as int);
    if k >= t.len() {
        assert(after.len() == 0);
        return None;
    }
    let q = t[k];
    assert(after[0] == q);
    if q != '"' && q != '\'' {
        return None;
    }
    let start = k + 1;
    assert(after.skip(1) =~= t@.skip(start as int));
    match find_char_from(t, q, start) {
        Some(e) => {
            assert(t@.skip(start as int).take(e as int) =~= t@.subrange(start as int, start + e));
            Some(string_of(t, start, start + e))
        },
        None => None,
    }
}

/// The value of the first `name="..."` in `t`.
fn extract_meta_name(t: &Vec<char>) -> (r: Option<String>)
    ensures
        match r {
            Some(s) => meta_name_spec(t@) == Some(s@),
            None => meta_name_spec(t@) is None,
        },
{
    let pat = chars_of("name=");
    let n = pat.len();
    let found = crate::text::find_chars(t, &pat);
    match found {
        Some(p) => {
            assert(occurs_at(t@, pat@, p as int));
            assert(p + n <= t.len());
            let r = quoted_value_at(t, p + n);
            assert(find(t@, "name="@) == Some(p as int));
            r
        },
        None => {
            assert(find(t@, "name="@) is None);
            None
        },
    }
}

/// The tag of a head element's HTML.
pub fn classify_head_tag(html: &str) -> (r: HeadTag)
    ensures
        r@ == classify(html@),
{
    let v = chars_of(html);
    let (lo, hi) = trim_bounds(&v);
    let t = string_of(&v, lo, hi);
    let tv = chars_of(t.as_str());
    assert(tv@.skip(0) =~= tv@);
    if chars_start_with_at(&tv, 0, "<title") {
        return HeadTag::Title;
    }
    if chars_start_with_at(&tv, 0, "<meta ") || chars_start_with_at(&tv, 0, "<meta>") {
        if let Some(name) = extract_meta_name(&tv) {
            return HeadTag::Meta { name };
        }
    }
    HeadTag::Other
}

impl HeadContent {
    #[verifier::type_invariant]
    spec fn tags_classified(self) -> bool {
        forall|i: int| 0 <= i < self.entries@.len() ==> #[trigger] self.entries@[i].tag@ == classify(self.entries@[i].html@)
    }

    proof fn lemma_view_well_tagged(self)
        requires
            self.tags_classified(),
        ensures
            well_tagged(self@),
    {
        assert forall|i: int| 0 <= i < self@.len() implies #[trigger] self@[i].1 == classify(self@[i].0) by {
            assert(self@[i] == (self.entries@[i].html@, self.entries@[i].tag@));
        }
    }

    /// No head content.
    pub fn new() -> (r: HeadContent)
        ensures
            r@ == Seq::<(Seq<char>, HeadTagView)>::empty(),
            well_tagged(r@),
    {
        let r = HeadContent { entries: Vec::new() };
        assert(r@ =~= Seq::<(Seq<char>, HeadTagView)>::empty());
        r
    }

    /// Adds an element, tagged by its HTML.
    pub fn push(&mut self, html: String)
        ensures
            final(self)@ == old(self)@.push((html@, classify(html@))),
            well_tagged(final(self)@),
    {
        proof { use_type_invariant(&*self); }
        let tag = classify_head_tag(html.as_str());
        let e = HeadEntry { html, tag };
        let ghost ev = (e.html@, e.tag@);
        let mut entries: Vec<HeadEntry> = Vec::new();
        std::mem::swap(&mut entries, &mut self.entries);
        let ghost before = entries@;
        entries.push(e);
        assert(forall|i: int| 0 <= i < before.len() ==> #[trigger] entries@[i] == before[i]);
        self.entries = entries;
        assert(self@ =~= old(self)@.push(ev));
        proof { self.lemma_view_well_tagged(); }
    }

    /// Appends the elements of `other`.
    pub fn extend(&mut self, other: HeadContent)
        ensures
            final(self)@ == old(self)@ + other@,
            well_tagged(final(self)@),
            well_tagged(other@),
    {
        proof {
            use_type_invariant(&*self);
            use_type_invariant(&other);
            other.lemma_view_well_tagged();
        }
        let ghost ov = other@;
        let HeadContent { entries: other_entries } = other;
        let mut other_entries = other_entries;
        let ghost oe = other_entries@;
        let mut entries: Vec<HeadEntry> = Vec::new();
        std::mem::swap(&mut entries, &mut self.entries);
        let ghost before = entries@;
        entries.append(&mut other_entries);
        assert(entries@ =~= before + oe);
        self.entries = entries;
        assert(self@ =~= old(self)@ + ov);
        proof { self.lemma_view_well_tagged(); }
    }
}

/// The API element `e` overrides a JSX element tagged `tag`: both are titles, or both
/// are metas of the same name.
pub open spec fn overrides(e: HeadElementView, tag: HeadTagView) -> bool {
    match tag {
        HeadTagView::Title => e is Title,
        HeadTagView::Meta(n) => e matches HeadElementView::Meta(name, _) && name == n,
        HeadTagView::Other => false,
    }
}

/// An element collected from JSX is dropped where some API element overrides it.
pub open spec fn overridden(tag: HeadTagView, api: Seq<HeadElementView>) -> bool {
    exists|i: int| 0 <= i < api.len() && #[trigger] overrides(api[i], tag)
}

/// The HTML of the JSX elements that are not overridden, in order.
pub open spec fn kept(jsx: Seq<(Seq<char>, HeadTagView)>, api: Seq<HeadElementView>) -> Seq<Seq<char>>
    decreases jsx.len(),
{
    if jsx.len() == 0 {
        Seq::empty()
    } else {
        let rest = kept(jsx.drop_last(), api);
        if overridden(jsx.last().1, api) { rest } else { rest.push(jsx.last().0) }
    }
}

/// The HTML of an API head element.
pub open spec fn head_element_html(e: HeadElementView) -> Seq<char> {
    match e {
        HeadElementView::Title(t) => "<title>"@ + t + "</title>"@,
        HeadElementView::Meta(name, content) => "<meta name=\""@ + name + "\" content=\""@ + content + "\">"@,
        HeadElementView::Link(rel, href) => "<link rel=\""@ + rel + "\" href=\""@ + href + "\">"@,
        HeadElementView::Style(css) => "<style>"@ + css + "</style>"@,
        HeadElementView::Script(js) => "<script>"@ + js + "</script>"@,
    }
}

/// The models of a list of strings.
pub open spec fn strings_view(v: Seq<String>) -> Seq<Seq<char>> {
    v.map_values(|s: String| s@)
}

/// The HTML of a list of API head elements.
pub open spec fn api_html(api: Seq<HeadElementView>) -> Seq<Seq<char>> {
    api.map_values(|e: HeadElementView| head_element_html(e))
}

proof fn lemma_strings_view_push(v: Seq<String>, x: String)
    ensures
        strings_view(v.push(x)) == strings_view(v).push(x@),
{
    assert(strings_view(v.push(x)) =~= strings_view(v).push(x@));
}

/// The merged head: the JSX elements that the API does not override, then every API element.
pub open spec fn merged(jsx: Seq<(Seq<char>, HeadTagView)>, api: Seq<HeadElementView>) -> Seq<Seq<char>> {
    kept(jsx, api) + api_html(api)
}

/// The HTML of an API head element.
pub fn render_head_element(el: &HeadElement) -> (r: String)
    ensures
        r@ == head_element_html(el@),
{
    match el {
        HeadElement::Title(t) => {
            let mut s = string_from("<title>");
            push_str(&mut s, t.as_str());
            push_str(&mut s, "</title>");
            s
        },
        HeadElement::Meta { name, content } => {
            let mut s = string_from("<meta name=\"");
            push_str(&mut s, name.as_str());
            push_str(&mut s, "\" content=\"");
            push_str(&mut s, content.as_str());
            push_str(&mut s, "\">");
            s
        },
        HeadElement::Link { rel, href } => {
            let mut s = string_from("<link rel=\"");
            push_str(&mut s, rel.as_str());
            push_str(&mut s, "\" href=\"");
            push_str(&mut s, href.as_str());
            push_str(&mut s, "\">");
            s
        },
        HeadElement::Style(css) => {
            let mut s = string_from("<style>");
            push_str(&mut s, css.as_str());
            push_str(&mut s, "</style>");
            s
        },
        HeadElement::Script(js) => {
            let mut s = string_from("<script>");
            push_str(&mut s, js.as_str());
            push_str(&mut s, "</script>");
            s
        },
    }
}

fn tag_overridden(tag: &HeadTag, api: &Vec<HeadElement>) -> (r: bool)
    ensures
        r == overridden(tag@, head_elements_view(api@)),
{
    let ghost av = head_elements_view(api@);
    let mut i: usize = 0;
    while i < api.len()
        invariant
            i <= api.len(),
            av == head_elements_view(api@),
            forall|k: int| 0 <= k < i ==> !#[trigger] overrides(av[k], tag@),
        decreases api.len() - i,
    {
        assert(av[i as int] == api@[i as int]@);
        match (tag, &api[i]) {
            (HeadTag::Title, HeadElement::Title(_)) => {
                assert(overrides(av[i as int], tag@));
                return true;
            },
            (HeadTag::Meta { name: n }, HeadElement::Meta { name, .. }) => {
                if crate::text::str_eq(n.as_str(), name.as_str()) {
                    assert(overrides(av[i as int], tag@));
                    return true;
                }
            },
            _ => {},
        }
        i = i + 1;
    }
    false
}

/// Merges JSX-collected head elements with API-specified ones: the API takes
/// priority for the title and for metas of the same name; links, styles and
/// scripts of both are kept.
#[verifier::loop_isolation(false)]
pub fn merge_head(jsx_head: &HeadContent, api_elements: &Vec<HeadElement>) -> (r: Vec<String>)
    ensures
        strings_view(r@) == merged(jsx_head@, head_elements_view(api_elements@)),
        well_tagged(jsx_head@),
{
    proof {
        use_type_invariant(jsx_head);
        jsx_head.lemma_view_well_tagged();
    }
    let ghost api = head_elements_view(api_elements@);
    let mut result: Vec<String> = Vec::new();
    let mut i: usize = 0;
    while i < jsx_head.entries.len()
        invariant
            i <= jsx_head.entries.len(),
            strings_view(result@) == kept(jsx_head@.take(i as int), api),
        decreases jsx_head.entries.len() - i,
    {
        assert(jsx_head@.take(i + 1).drop_last() =~= jsx_head@.take(i as int));
        assert(jsx_head@.take(i + 1).last() == (jsx_head.entries@[i as int].html@, jsx_head.entries@[i as int].tag@));
        let ghost before = result@;
        if !tag_overridden(&jsx_head.entries[i].tag, api_elements) {
            let h = copy_string(&jsx_head.entries[i].html);
            result.push(h);
            proof { lemma_strings_view_push(before, h); }
        }
        i = i + 1;
    }
    assert(jsx_head@.take(jsx_head.entries.len() as int) =~= jsx_head@);
    let ghost kept_part = strings_view(result@);
    let mut j: usize = 0;
    while j < api_elements.len()
        invariant
            j <= api_elements.len(),
            strings_view(result@) == kept_part + api_html(api.take(j as int)),
        decreases api_elements.len() - j,
    {
        let ghost before = result@;
        let h = render_head_element(&api_elements[j]);
        result.push(h);
        proof { lemma_strings_view_push(before, h); }
        j = j + 1;
        assert(api.take(j as int) =~= api.take(j - 1).push(api_elements@[j - 1]@));
        assert(api_html(api.take(j as int)) =~= api_html(api.take(j - 1)).push(h@));
    }
    assert(api.take(api_elements.len() as int) =~= api);
    result
}

/// When the API gives a title, no title collected from JSX survives the merge;
/// in general, an element survives exactly when the API does not override it.
pub proof fn merge_keeps_exactly_the_not_overridden(jsx: Seq<(Seq<char>, HeadTagView)>, api: Seq<HeadElementView>)
    ensures
        forall|h: Seq<char>| kept(jsx, api).contains(h) <==> exists|i: int|
            0 <= i < jsx.len() && #[trigger] jsx[i].0 == h && !overridden(jsx[i].1, api),
    decreases jsx.len(),
{
    if jsx.len() > 0 {
        merge_keeps_exactly_the_not_overridden(jsx.drop_last(), api);
        let rest = kept(jsx.drop_last(), api);
        assert forall|h: Seq<char>| kept(jsx, api).contains(h) <==> exists|i: int|
            0 <= i < jsx.len() && #[trigger] jsx[i].0 == h && !overridden(jsx[i].1, api) by {
            if kept(jsx, api).contains(h) {
                if rest.contains(h) {
                    let i = choose|i: int| 0 <= i < jsx.drop_last().len() && #[trigger] jsx.drop_last()[i].0 == h && !overridden(jsx.drop_last()[i].1, api);
                    assert(jsx[i] == jsx.drop_last()[i]);
                } else {
                    let k = choose|k: int| 0 <= k < kept(jsx, api).len() && kept(jsx, api)[k] == h;
                    assert(jsx[jsx.len() - 1].0 == h);
                }
            }
            if exists|i: int| 0 <= i < jsx.len() && #[trigger] jsx[i].0 == h && !overridden(jsx[i].1, api) {
                let i = choose|i: int| 0 <= i < jsx.len() && #[trigger] jsx[i].0 == h && !overridden(jsx[i].1, api);
                if i < jsx.len() - 1 {
                    assert(jsx.drop_last()[i] == jsx[i]);
                    assert(rest.contains(h));
                    if !overridden(jsx.last().1, api) {
                        assert(rest.push(jsx.last().0)[rest.len() as int - 0] == jsx.last().0);
                        let k = choose|k: int| 0 <= k < rest.len() && rest[k] == h;
                        assert(rest.push(jsx.last().0)[k] == h);
                    }
                } else {
                    assert(kept(jsx, api) == rest.push(jsx.last().0));
                    assert(kept(jsx, api)[rest.len() as int] == h);
                }
            }
        }
    }
}

/// Every API element appears in the merged head, after the elements kept from JSX.
pub proof fn merge_ends_with_api_elements(jsx: Seq<(Seq<char>, HeadTagView)>, api: Seq<HeadElementView>)
    ensures
        merged(jsx, api).len() == kept(jsx, api).len() + api.len(),
        forall|i: int| 0 <= i < api.len() ==> merged(jsx, api)[kept(jsx, api).len() + i] == head_element_html(#[trigger] api[i]),
{
}

/// Keeping the elements that the API does not override distributes over appending
/// head content.
pub proof fn kept_distributes_over_concatenation(a: Seq<(Seq<char>, HeadTagView)>, b: Seq<(Seq<char>, HeadTagView)>, api: Seq<HeadElementView>)
    ensures
        kept(a + b, api) == kept(a, api) + kept(b, api),
    decreases b.len(),
{
    if b.len() == 0 {
        assert(a + b =~= a);
        assert(kept(a, api) + kept(b, api) =~= kept(a, api));
    } else {
        kept_distributes_over_concatenation(a, b.drop_last(), api);
        assert((a + b).drop_last() =~= a + b.drop_last());
        assert((a + b).last() == b.last());
        let ka = kept(a, api);
        let kb = kept(b.drop_last(), api);
        if !overridden(b.last().1, api) {
            assert(ka + kb.push(b.last().0) =~= (ka + kb).push(b.last().0));
        }
    }
}

/// Merging extended head content: the elements kept from the first part, then those
/// kept from the appended part, then the API elements; with no API elements, the
/// merge of the whole is the merge of the first part followed by that of the second.
pub proof fn merge_of_appended_head(a: Seq<(Seq<char>, HeadTagView)>, b: Seq<(Seq<char>, HeadTagView)>, api: Seq<HeadElementView>)
    ensures
        merged(a + b, api) == kept(a, api) + kept(b, api) + api_html(api),
        merged(a + b, Seq::empty()) == merged(a, Seq::empty()) + merged(b, Seq::empty()),
{
    kept_distributes_over_concatenation(a, b, api);
    kept_distributes_over_concatenation(a, b, Seq::empty());
    let none = Seq::<HeadElementView>::empty();
    assert(api_html(none) =~= Seq::<Seq<char>>::empty());
    assert(merged(a, none) =~= kept(a, none));
    assert(merged(b, none) =~= kept(b, none));
    assert(merged(a + b, none) =~= kept(a, none) + kept(b, none));
}

/// A JSX head element that is neither a title nor a named meta (a link, a style, a
/// script, ...) is never dropped by the merge: whatever API elements are configured,
/// the merged head holds it, before the API elements.
pub proof fn merge_keeps_other_elements(jsx: Seq<(Seq<char>, HeadTagView)>, api: Seq<HeadElementView>, i: int)
    requires
        0 <= i < jsx.len(),
        jsx[i].1 is Other,
    ensures
        kept(jsx, api).contains(jsx[i].0),
        merged(jsx, api).contains(jsx[i].0),
{
    merge_keeps_exactly_the_not_overridden(jsx, api);
    assert(!overridden(jsx[i].1, api));
    let k = kept(jsx, api);
    assert(k.contains(jsx[i].0));
    let j = choose|j: int| 0 <= j < k.len() && k[j] == jsx[i].0;
    assert(merged(jsx, api)[j] == k[j]);
}

/// Configured links, styles and scripts override nothing: where the API configures
/// no title and no meta, every JSX head element is kept, in order.
pub proof fn api_without_titles_or_metas_drops_nothing(jsx: Seq<(Seq<char>, HeadTagView)>, api: Seq<HeadElementView>)
    requires
        forall|j: int| 0 <= j < api.len() ==> !(#[trigger] api[j] is Title) && !(api[j] is Meta),
    ensures
        kept(jsx, api) == jsx.map_values(|e: (Seq<char>, HeadTagView)| e.0),
    decreases jsx.len(),
{
    if jsx.len() > 0 {
        api_without_titles_or_metas_drops_nothing(jsx.drop_last(), api);
        if overridden(jsx.last().1, api) {
            let j = choose|j: int| 0 <= j < api.len() && #[trigger] overrides(api[j], jsx.last().1);
            assert(!(api[j] is Title) && !(api[j] is Meta));
        }
        assert(jsx.map_values(|e: (Seq<char>, HeadTagView)| e.0) =~= jsx.drop_last().map_values(
            |e: (Seq<char>, HeadTagView)| e.0,
        ).push(jsx.last().0));
    } else {
        assert(jsx.map_values(|e: (Seq<char>, HeadTagView)| e.0) =~= Seq::<Seq<char>>::empty());
    }
}

} // verus!
