//! Rendering of JSX/TSX modules to complete HTML documents: expressions evaluated
//! against JSON props, components, `<Head>` content merged with configured head
//! elements, optional Tailwind CSS, and file-based routing.
use vstd::prelude::*;

pub mod ast;
pub mod codegen;
pub mod config;
pub mod document;
pub mod attributes;
pub mod error;
pub mod eval;
pub mod export;
pub mod frontend;
pub mod head;
pub mod loader;
pub mod num;
pub mod order;
pub mod parser;
pub mod renderer;
pub mod resolver;
pub mod router;
pub mod tailwind;
pub mod escape;
pub mod text;
pub mod value;

use crate::ast::{Module, Item};
use crate::config::{RenderConfig, HeadElementView, head_elements_view};
use crate::document::{build_document, document};
use crate::error::{JsxrsError, ErrorView};
use crate::head::{HeadTagView, merge_head, merged, strings_view};
use crate::num::{FloatQuery, FloatAnswer, is_float_oracle, answers};
use crate::frontend::swc_module;
use crate::parser::{parse_source, syntax_of};
use crate::renderer::{RenderState, RenderCx, ComponentTable, Env, Out, s_module, after, render_module};
use crate::tailwind::{generate_css, generated_css, style_element};
use crate::value::{Value, ValueView};
use crate::attributes::join;

verus! {

broadcast use vstd::string::group_string_axioms;

/// How deeply components may render one another: as many levels as there are loaded
/// components. A chain of components whose imports do not come back round uses each
/// component at most once, so it is never cut short; a component that renders itself,
/// directly or through others, is refused with an unsupported-construct error once
/// the chain is longer than that, rather than recursing without end.
pub open spec fn component_depth(components: &ComponentTable) -> nat {
    components@.len()
}

/// The head elements of a page: the merged `<Head>` and API elements, then, with
/// Tailwind on, a `<style>` element with the CSS generated for the class names used,
/// where there is any.
pub open spec fn head_parts(
    st: (Seq<(Seq<char>, HeadTagView)>, Seq<Seq<char>>),
    api: Seq<HeadElementView>,
    tailwind: bool,
) -> Seq<Seq<char>> {
    let css = generated_css(st.1);
    merged(st.0, api) + if tailwind && css.len() > 0 {
        seq!["<style>"@ + css + "</style>"@]
    } else {
        Seq::empty()
    }
}

/// What rendering a module gives under a configuration: the body HTML alone in
/// fragment mode, else the document around it and its head.
pub open spec fn page(
    r: Result<Out, ErrorView>,
    api: Seq<HeadElementView>,
    tailwind: bool,
    fragment: bool,
    pretty: bool,
) -> Result<Seq<char>, ErrorView> {
    match r {
        Err(e) => Err(e),
        Ok(o) => if fragment {
            Ok(o.html)
        } else {
            let st = after((Seq::empty(), Seq::empty()), o);
            Ok(document(join(head_parts(st, api, tailwind), Seq::empty()), o.html, pretty))
        },
    }
}

/// The environment that a configuration, the loaded components and the float
/// oracle give rendering.
pub open spec fn env_of<F: Fn(FloatQuery) -> FloatAnswer>(config: &RenderConfig, components: &ComponentTable, f: &F) -> Env {
    Env { has_base_dir: config.base_dir is Some, components: components@, fa: answers(*f) }
}

/// The page that a module's items give with `props` under `config`.
pub open spec fn page_of<F: Fn(FloatQuery) -> FloatAnswer>(
    items: Seq<Item>,
    props: ValueView,
    config: &RenderConfig,
    components: &ComponentTable,
    f: &F,
) -> Result<Seq<char>, ErrorView> {
    page(
        s_module(items, props, env_of(config, components, f), component_depth(components)),
        head_elements_view(config.head_elements@),
        config.tailwind,
        config.fragment,
        config.pretty,
    )
}

/// The head elements of a page.
pub fn build_head(state: &RenderState, config: &RenderConfig) -> (r: Vec<String>)
    ensures
        strings_view(r@) == head_parts(state@, head_elements_view(config.head_elements@), config.tailwind),
{
    let mut parts = merge_head(&state.head, &config.head_elements);
    if config.tailwind {
        let css = generate_css(&state.class_names);
        if css.as_str().unicode_len() > 0 {
            let ghost before = parts@;
            let st = style_element(css.as_str());
            parts.push(st);
            proof {
                assert(strings_view(parts@) =~= strings_view(before).push(st@));
            }
        }
    }
    proof {
        let css = generated_css(state@.1);
        if !(config.tailwind && css.len() > 0) {
            assert(strings_view(parts@) =~= strings_view(parts@) + Seq::<Seq<char>>::empty());
        }
    }
    parts
}

/// The strings of `parts` one after another.
pub fn concat_parts(parts: &Vec<String>) -> (r: String)
    ensures
        r@ == join(strings_view(parts@), Seq::empty()),
{
    let ghost sv = strings_view(parts@);
    let mut out = String::new();
    let mut i: usize = 0;
    while i < parts.len()
        invariant
            i <= parts.len(),
            sv == strings_view(parts@),
            out@ == join(sv.take(i as int), Seq::empty()),
        decreases parts.len() - i,
    {
        crate::text::push_str(&mut out, parts[i].as_str());
        proof {
            assert(sv.take(i + 1).drop_last() =~= sv.take(i as int));
            if i == 0 {
                assert(out@ =~= sv.take(1)[0]);
            } else {
                assert(out@ =~= join(sv.take(i as int), Seq::empty()) + Seq::empty() + sv[i as int]);
            }
        }
        i = i + 1;
    }
    assert(sv.take(parts.len() as int) =~= sv);
    out
}

/// Renders a JSX/TSX source with `props` to a complete HTML document, or to its body
/// HTML alone in fragment mode. An empty source has no default export; otherwise the
/// source is parsed with swc under its file name, and a source that does not parse
/// gives its parse error. The components that the module imports are looked up in
/// `components`, loaded beforehand by import path.
pub fn render_string<F: Fn(FloatQuery) -> FloatAnswer>(
    source: &str,
    file_name: &str,
    props: Value,
    config: &RenderConfig,
    components: &ComponentTable,
    f: &F,
) -> (r: Result<String, JsxrsError>)
    requires
        is_float_oracle(*f),
    ensures
        source@.len() == 0 ==> r is Err && r->Err_0@ == ErrorView::NoDefaultExport,
        source@.len() > 0 ==> match swc_module(source@, file_name@, syntax_of(file_name@)) {
            Err(e) => r is Err && r->Err_0@ == e,
            Ok(m) => match page_of(m.body@, props@, config, components, f) {
                Ok(html) => r is Ok && r->Ok_0@ == html,
                Err(e) => r is Err && r->Err_0@ == e,
            },
        },
{
    if source.unicode_len() == 0 {
        return Err(JsxrsError::NoDefaultExport);
    }
    let module = parse_source(source, file_name)?;
    render_module_page(&module, props, config, components, f)
}

/// Renders a parsed module with `props` to a complete HTML document, or to its body
/// HTML alone in fragment mode.
pub fn render_module_page<F: Fn(FloatQuery) -> FloatAnswer>(
    module: &Module,
    props: Value,
    config: &RenderConfig,
    components: &ComponentTable,
    f: &F,
) -> (r: Result<String, JsxrsError>)
    requires
        is_float_oracle(*f),
    ensures
        match page_of(module.body@, props@, config, components, f) {
            Ok(html) => r is Ok && r->Ok_0@ == html,
            Err(e) => r is Err && r->Err_0@ == e,
        },
{
    let cx = RenderCx { has_base_dir: config.base_dir.is_some(), components, num: f };
    let (body_html, state) = render_module(&module.body, props, &cx, components.entries.len())?;
    if config.fragment {
        return Ok(body_html);
    }
    let head = build_head(&state, config);
    let head_html = concat_parts(&head);
    Ok(build_document(head_html.as_str(), body_html.as_str(), config.pretty))
}

/// In fragment mode a page is the body HTML that the full page wraps: rendering
/// succeeds in both modes or in neither, and the full page is the document, with
/// some head, around the fragment.
pub proof fn full_page_wraps_fragment(r: Result<Out, ErrorView>, api: Seq<HeadElementView>, tailwind: bool, pretty: bool)
    ensures
        page(r, api, tailwind, true, pretty) is Ok <==> page(r, api, tailwind, false, pretty) is Ok,
        page(r, api, tailwind, true, pretty) is Ok ==> exists|head: Seq<char>|
            page(r, api, tailwind, false, pretty) == Ok::<Seq<char>, ErrorView>(
                #[trigger] document(head, page(r, api, tailwind, true, pretty)->Ok_0, pretty),
            ),
{
    if let Ok(o) = r {
        let st = after((Seq::empty(), Seq::empty()), o);
        let head = join(head_parts(st, api, tailwind), Seq::empty());
        assert(page(r, api, tailwind, true, pretty) == Ok::<Seq<char>, ErrorView>(o.html));
        assert(page(r, api, tailwind, false, pretty) == Ok::<Seq<char>, ErrorView>(document(head, o.html, pretty)));
        assert(page(r, api, tailwind, false, pretty) == Ok::<Seq<char>, ErrorView>(
            document(head, page(r, api, tailwind, true, pretty)->Ok_0, pretty),
        ));
    }
}

/// A fragment leaves out everything of the head: neither the configured head
/// elements nor Tailwind nor the formatting change it.
pub proof fn fragment_ignores_head_settings(
    r: Result<Out, ErrorView>,
    api1: Seq<HeadElementView>,
    tailwind1: bool,
    pretty1: bool,
    api2: Seq<HeadElementView>,
    tailwind2: bool,
    pretty2: bool,
)
    ensures
        page(r, api1, tailwind1, true, pretty1) == page(r, api2, tailwind2, true, pretty2),
{
}

/// Rendering a module in fragment mode gives the body that the full document of the
/// same module wraps, under any configuration that agrees on whether a base directory
/// is set: both succeed or both fail, and the document is the one around the fragment.
pub proof fn fragment_render_is_the_documents_body<F: Fn(FloatQuery) -> FloatAnswer>(
    items: Seq<Item>,
    props: ValueView,
    fragment_config: &RenderConfig,
    full_config: &RenderConfig,
    components: &ComponentTable,
    f: &F,
)
    requires
        fragment_config.fragment,
        !full_config.fragment,
        (fragment_config.base_dir is Some) == (full_config.base_dir is Some),
    ensures
        page_of(items, props, fragment_config, components, f) is Ok <==> page_of(items, props, full_config, components, f) is Ok,
        page_of(items, props, fragment_config, components, f) is Ok ==> exists|head: Seq<char>|
            page_of(items, props, full_config, components, f) == Ok::<Seq<char>, ErrorView>(
                #[trigger] document(head, page_of(items, props, fragment_config, components, f)->Ok_0, full_config.pretty),
            ),
{
    let r = s_module(items, props, env_of(full_config, components, f), component_depth(components));
    assert(env_of(fragment_config, components, f) == env_of(full_config, components, f));
    let api = head_elements_view(full_config.head_elements@);
    full_page_wraps_fragment(r, api, full_config.tailwind, full_config.pretty);
    fragment_ignores_head_settings(
        r,
        head_elements_view(fragment_config.head_elements@),
        fragment_config.tailwind,
        fragment_config.pretty,
        api,
        full_config.tailwind,
        full_config.pretty,
    );
}

/// In fragment mode the configured head elements, Tailwind and the formatting do not
/// change what is rendered.
pub proof fn fragment_render_ignores_head_settings<F: Fn(FloatQuery) -> FloatAnswer>(
    items: Seq<Item>,
    props: ValueView,
    config1: &RenderConfig,
    config2: &RenderConfig,
    components: &ComponentTable,
    f: &F,
)
    requires
        config1.fragment,
        config2.fragment,
        (config1.base_dir is Some) == (config2.base_dir is Some),
    ensures
        page_of(items, props, config1, components, f) == page_of(items, props, config2, components, f),
{
    assert(env_of(config1, components, f) == env_of(config2, components, f));
}

} // verus!
