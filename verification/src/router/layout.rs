//! The props that a layout is rendered with.
use vstd::prelude::*;
use crate::value::{Value, ValueView, lookup, raw_html, insert_entry, insert_field, clone_value, entries_view};
use crate::text::string_from;
use crate::config::{RenderConfig, file_config, is_file_config};

verus! {

broadcast use vstd::string::group_string_axioms;

/// The page's props, where they are an object, with `children` set to
/// `{ "__html": inner }`, so that the layout renders the inner HTML unescaped.
pub open spec fn layout_props_spec(props: ValueView, inner: Seq<char>) -> ValueView {
    let base = match props {
        ValueView::Object(m) => m,
        _ => Seq::empty(),
    };
    ValueView::Object(insert_entry(base, "children"@, ValueView::Object(seq![("__html"@, ValueView::Str(inner))])))
}

/// The props of a layout around `inner_html`: those of the page, where they are an
/// object, and `children` holding the inner HTML as raw HTML.
pub fn layout_props(props: &Value, inner_html: String) -> (r: Value)
    ensures
        r@ == layout_props_spec(props@, inner_html@),
        r@ matches ValueView::Object(m) && lookup(m, "children"@) matches Some(c) && raw_html(c) == Some(inner_html@),
        r@ is Object,
        props@ is Object ==> forall|k: Seq<char>|
            k != "children"@ ==> #[trigger] lookup(r@->Object_0, k) == lookup(props@->Object_0, k),
{
    let mut map: Vec<(String, Value)> = match clone_value(props) {
        Value::Object(m) => {
            proof { crate::value::lemma_value_view_object(m); }
            m
        },
        _ => Vec::new(),
    };
    assert(entries_view(map@) == (match props@ {
        ValueView::Object(m) => m,
        _ => Seq::empty(),
    }));
    let ghost base = entries_view(map@);
    let mut html_entry: Vec<(String, Value)> = Vec::new();
    html_entry.push((string_from("__html"), Value::Str(inner_html)));
    let children = Value::Object(html_entry);
    proof {
        crate::value::lemma_value_view_object(html_entry);
        assert(entries_view(html_entry@) =~= seq![("__html"@, ValueView::Str(inner_html@))]);
    }
    insert_field(&mut map, string_from("children"), children);
    proof {
        crate::value::lemma_value_view_object(map);
        reveal_strlit("__html");
        assert(lookup(seq![("__html"@, ValueView::Str(inner_html@))], "__html"@) == Some(ValueView::Str(inner_html@)));
    }
    Value::Object(map)
}

/// What to do next while rendering a page inside its layouts: render a file with
/// props under a configuration, or return the finished HTML.
pub enum LayoutStep {
    Render { file: String, props: Value, config: RenderConfig },
    Done(String),
}

/// Rendering a page inside its layouts: the page first, then each layout from the
/// innermost (the last) to the outermost (the first), each with the page's props and
/// the HTML rendered so far as its raw `children`; each file is rendered as a fragment
/// with its imports resolved against its own directory.
pub struct LayoutChain {
    layouts: Vec<String>,
    props: Value,
    config: RenderConfig,
    remaining: usize,
}

impl LayoutChain {
    /// The layouts not yet rendered, from the outermost.
    pub closed spec fn remaining(&self) -> Seq<Seq<char>> {
        crate::head::strings_view(self.layouts@.take(self.remaining as int))
    }

    /// The props of the page.
    pub closed spec fn page_props(&self) -> ValueView {
        self.props@
    }

    /// The configuration of the whole page.
    pub closed spec fn page_config(&self) -> RenderConfig {
        self.config
    }

    pub closed spec fn wf(&self) -> bool {
        self.remaining <= self.layouts@.len()
    }

    /// The chain for a page and its layouts (from the outermost) under `config`, and
    /// the first step: rendering the page with its props, as a fragment with imports
    /// resolved against the page's directory.
    pub fn start(page_file: &String, layouts: Vec<String>, props: Value, config: RenderConfig) -> (r: (LayoutChain, LayoutStep))
        ensures
            r.0.wf(),
            r.0.remaining() == crate::head::strings_view(layouts@),
            r.0.page_props() == props@,
            r.0.page_config() == config,
            r.1 matches LayoutStep::Render { file, props: p, config: c } && file@ == page_file@ && p@ == props@
                && is_file_config(c, config, page_file@),
    {
        let first = LayoutStep::Render {
            file: crate::text::copy_string(page_file),
            props: clone_value(&props),
            config: file_config(&config, page_file.as_str()),
        };
        let n = layouts.len();
        let chain = LayoutChain { layouts, props, config, remaining: n };
        assert(chain.layouts@.take(n as int) =~= chain.layouts@);
        (chain, first)
    }

    /// The step after a render that gave `html`: the next layout out with `html` as
    /// its children, or `html` itself once the outermost layout has rendered.
    pub fn next(&mut self, html: String) -> (r: LayoutStep)
        requires
            old(self).wf(),
        ensures
            final(self).wf(),
            final(self).page_props() == old(self).page_props(),
            final(self).page_config() == old(self).page_config(),
            old(self).remaining().len() == 0 ==> (r matches LayoutStep::Done(h) && h@ == html@),
            old(self).remaining().len() > 0 ==> final(self).remaining() == old(self).remaining().drop_last(),
            old(self).remaining().len() > 0 ==> (r matches LayoutStep::Render { file, props, config } && file@
                == old(self).remaining().last() && props@ == layout_props_spec(old(self).page_props(), html@)
                && is_file_config(config, old(self).page_config(), file@)),
    {
        if self.remaining == 0 {
            return LayoutStep::Done(html);
        }
        self.remaining = self.remaining - 1;
        let file = crate::text::copy_string(&self.layouts[self.remaining]);
        let props = layout_props(&self.props, html);
        let config = file_config(&self.config, file.as_str());
        proof {
            let l = old(self).layouts@;
            assert(l.take(self.remaining as int) =~= l.take(self.remaining + 1).drop_last());
            assert(crate::head::strings_view(l.take(self.remaining as int)) =~= crate::head::strings_view(l.take(self.remaining + 1)).drop_last());
        }
        LayoutStep::Render { file, props, config }
    }
}

} // verus!
