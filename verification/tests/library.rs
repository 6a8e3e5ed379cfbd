//! The library's parts on given values: escaping, documents, head merging,
//! import resolution, route discovery and ordering, layouts, type generation.

use jsxrs::ast::{ImportSpec, Item, Module};
use jsxrs::loader::ComponentLoader;
use jsxrs::codegen::{generate_module_types, ts_type_to_rust, TsInterface, TsKeyword, TsMember, TsTypeModel};
use jsxrs::parser::parse_source;
use jsxrs::config::{file_config, HeadElement, RenderConfig};
use jsxrs::document::{build_document, build_minified, build_pretty};
use jsxrs::error::JsxrsError;
use jsxrs::escape::{escape_attr, escape_html};
use jsxrs::head::{classify_head_tag, merge_head, render_head_element, HeadContent, HeadTag};
use jsxrs::num::Num;
use jsxrs::order::{sort_order, str_lt};
use jsxrs::renderer::{normalize_jsx_text, RenderState};
use jsxrs::resolver::{append_to_path, import_candidates, join_paths, resolve_import, strip_leading_dot};
use jsxrs::router::discovery::{
    dir_name_to_segment, is_dynamic_route, route_priority, scan_routes, DirTree, RouteEntry, Segment,
};
use jsxrs::router::layout::{layout_props, LayoutChain, LayoutStep};
use jsxrs::router::JsxRouter;
use jsxrs::tailwind::{class_source_html, css_or_empty, generate_css};
use jsxrs::num::{bits_eq, bits_le, bits_lt, bits_negate};
use jsxrs::value::{extract_raw_html, get_field, insert_field, values_equal, Value};
use jsxrs::{build_head, concat_parts};

fn dir(path: &str, names: &[&str], subdirs: Vec<(&str, DirTree)>) -> DirTree {
    DirTree {
        path: path.to_string(),
        names: names.iter().map(|n| n.to_string()).collect(),
        subdirs: subdirs.into_iter().map(|(n, t)| (n.to_string(), t)).collect(),
    }
}

// The app of the discovery scenario: pages at the root, about, blog, blog/[slug] and
// (marketing)/contact; layouts at the root and in blog. The listing order is not sorted.
fn test_app() -> DirTree {
    let base = "/tmp/app";
    dir(
        base,
        &["page.tsx", "layout.tsx", "blog", "about", "(marketing)"],
        vec![
            (
                "blog",
                dir(
                    "/tmp/app/blog",
                    &["[slug]", "page.tsx", "layout.tsx"],
                    vec![("[slug]", dir("/tmp/app/blog/[slug]", &["page.tsx"], vec![]))],
                ),
            ),
            ("about", dir("/tmp/app/about", &["page.tsx"], vec![])),
            (
                "(marketing)",
                dir("/tmp/app/(marketing)", &["contact"], vec![("contact", dir("/tmp/app/(marketing)/contact", &["page.tsx"], vec![]))]),
            ),
        ],
    )
}

#[test]
fn test_scan_routes() {
    let routes = scan_routes(&test_app());
    let paths: Vec<&str> = routes.iter().map(|r| r.axum_path.as_str()).collect();
    assert!(paths.contains(&"/"), "should have root route");
    assert!(paths.contains(&"/about"), "should have /about");
    assert!(paths.contains(&"/blog"), "should have /blog");
    assert!(paths.contains(&"/blog/{slug}"), "should have /blog/{{slug}}");
    assert!(paths.contains(&"/contact"), "should have /contact (group stripped)");
    let blog_slug = routes.iter().find(|r| r.axum_path == "/blog/{slug}").unwrap();
    assert_eq!(blog_slug.layouts.len(), 2, "should have root + blog layouts");
    let contact = routes.iter().find(|r| r.axum_path == "/contact").unwrap();
    assert_eq!(contact.layouts.len(), 1, "should have root layout only");
}

#[test]
fn scanned_routes_are_static_first_then_by_path() {
    let routes = scan_routes(&test_app());
    let paths: Vec<&str> = routes.iter().map(|r| r.axum_path.as_str()).collect();
    assert_eq!(paths, vec!["/", "/about", "/blog", "/contact", "/blog/{slug}"]);
    let slug = &routes[4];
    assert_eq!(slug.page_file, "/tmp/app/blog/[slug]/page.tsx");
    assert_eq!(slug.layouts, vec!["/tmp/app/layout.tsx".to_string(), "/tmp/app/blog/layout.tsx".to_string()]);
    assert!(is_dynamic_route(slug));
    assert!(!is_dynamic_route(&routes[0]));
}

#[test]
fn jsx_page_is_found_when_no_tsx_page_exists() {
    let routes = scan_routes(&dir("/a", &["page.jsx", "layout.jsx"], vec![]));
    assert_eq!(routes.len(), 1);
    assert_eq!(routes[0].page_file, "/a/page.jsx");
    assert_eq!(routes[0].layouts, vec!["/a/layout.jsx".to_string()]);
}

#[test]
fn route_discovery_keeps_discovery_order_for_equal_paths() {
    let t = dir(
        "/r",
        &[],
        vec![
            ("(b)", dir("/r/(b)", &["x"], vec![("x", dir("/r/(b)/x", &["page.tsx"], vec![]))])),
            ("(a)", dir("/r/(a)", &["x"], vec![("x", dir("/r/(a)/x", &["page.jsx"], vec![]))])),
        ],
    );
    let routes = scan_routes(&t);
    assert_eq!(routes.len(), 2);
    assert_eq!(routes[0].page_file, "/r/(a)/x/page.jsx");
    assert_eq!(routes[1].page_file, "/r/(b)/x/page.tsx");
}

#[test]
fn directory_names_map_to_segments() {
    assert!(matches!(dir_name_to_segment("(group)"), Segment::Group));
    assert!(matches!(dir_name_to_segment("[...rest]"), Segment::CatchAll(p) if p == "rest"));
    assert!(matches!(dir_name_to_segment("[id]"), Segment::Dynamic(p) if p == "id"));
    assert!(matches!(dir_name_to_segment("about"), Segment::Static(p) if p == "about"));
    assert!(matches!(dir_name_to_segment("[]"), Segment::Dynamic(p) if p.is_empty()));
}

#[test]
fn catch_all_routes_use_a_star_parameter() {
    let t = dir("/s", &[], vec![("docs", dir("/s/docs", &[], vec![("[...path]", dir("/s/docs/[...path]", &["page.tsx"], vec![]))]))]);
    let routes = scan_routes(&t);
    assert_eq!(routes[0].axum_path, "/docs/{*path}");
}

#[test]
fn route_priority_counts_parameters() {
    let (n, p) = route_priority("/a/{b}/{c}");
    assert_eq!(n, 2);
    assert_eq!(p, "/a/{b}/{c}");
}

#[test]
fn sort_order_is_stable_and_sorted() {
    let keys = vec![
        (1usize, "b".to_string()),
        (0usize, "z".to_string()),
        (1usize, "a".to_string()),
        (0usize, "z".to_string()),
        (0usize, "m".to_string()),
    ];
    assert_eq!(sort_order(&keys), vec![4, 1, 3, 2, 0]);
    assert!(str_lt("abc", "abd"));
    assert!(str_lt("ab", "abc"));
    assert!(!str_lt("abc", "abc"));
    assert!(!str_lt("b", "abc"));
}

#[test]
fn router_keeps_its_directory_and_configuration() {
    let r = JsxRouter::new("./app".to_string());
    assert_eq!(r.app_dir_path(), "./app");
    assert!(!r.render_config().tailwind);
    let r = r.with_config(RenderConfig { tailwind: true, ..Default::default() });
    assert_eq!(r.app_dir_path(), "./app");
    assert!(r.render_config().tailwind);
}

#[test]
fn layout_props_keep_the_page_props_and_add_raw_children() {
    let props = Value::Object(vec![("title".to_string(), Value::Str("T".to_string()))]);
    let lp = layout_props(&props, "<p>inner</p>".to_string());
    let Value::Object(entries) = &lp else { panic!("layout props are an object") };
    assert!(matches!(get_field(entries, "title"), Some(Value::Str(t)) if t == "T"));
    let children = get_field(entries, "children").expect("children");
    assert_eq!(extract_raw_html(children).map(|s| s.as_str()), Some("<p>inner</p>"));
    let lp = layout_props(&Value::Null, "x".to_string());
    let Value::Object(entries) = &lp else { panic!("layout props are an object") };
    assert_eq!(entries.len(), 1);
}

#[test]
fn inserting_a_field_replaces_the_first_entry_with_its_key() {
    let mut o = vec![("a".to_string(), Value::Null), ("b".to_string(), Value::Bool(true))];
    insert_field(&mut o, "a".to_string(), Value::Number(Num::PosInt(1)));
    assert_eq!(o.len(), 2);
    assert!(matches!(get_field(&o, "a"), Some(Value::Number(Num::PosInt(1)))));
    insert_field(&mut o, "c".to_string(), Value::Null);
    assert_eq!(o.len(), 3);
    assert_eq!(o[2].0, "c");
}

#[test]
fn escaping_replaces_markup_characters() {
    assert_eq!(escape_html("a<b>&\"c'"), "a&lt;b&gt;&amp;\"c'");
    assert_eq!(escape_attr("a<b>&\"c'"), "a&lt;b&gt;&amp;&quot;c'");
    assert_eq!(escape_html("plain text"), "plain text");
}

#[test]
fn documents_minified_and_pretty() {
    assert_eq!(build_minified("<title>t</title>", "<p>b</p>"), "<!DOCTYPE html><html><head><title>t</title></head><body><p>b</p></body></html>");
    assert_eq!(
        build_pretty("<a>\r\n<b>\n", "B"),
        "<!DOCTYPE html>\n<html>\n  <head>\n    <a>\n    <b>\n  </head>\n  <body>\n    B\n  </body>\n</html>"
    );
    assert_eq!(build_pretty("", "B"), "<!DOCTYPE html>\n<html>\n  <head>\n  </head>\n  <body>\n    B\n  </body>\n</html>");
    assert_eq!(build_pretty("x\r", "B"), "<!DOCTYPE html>\n<html>\n  <head>\n    x\r\n  </head>\n  <body>\n    B\n  </body>\n</html>");
    assert_eq!(build_document("h", "b", false), build_minified("h", "b"));
    assert_eq!(build_document("h", "b", true), build_pretty("h", "b"));
}

#[test]
fn jsx_text_is_normalized_across_lines() {
    assert_eq!(normalize_jsx_text("  one line  "), "  one line  ");
    assert_eq!(normalize_jsx_text("Hello \n   World  \n  !"), "HelloWorld!");
    assert_eq!(normalize_jsx_text("\n    \n  "), "");
}

#[test]
fn head_tags_are_classified() {
    assert!(matches!(classify_head_tag("<title>x</title>"), HeadTag::Title));
    assert!(matches!(classify_head_tag(r#"<meta name="d" content="c">"#), HeadTag::Meta { name } if name == "d"));
    assert!(matches!(classify_head_tag(r#"<meta charset="utf-8">"#), HeadTag::Other));
    assert!(matches!(classify_head_tag(r#"<link rel="x">"#), HeadTag::Other));
}

#[test]
fn api_head_elements_render_and_override() {
    assert_eq!(render_head_element(&HeadElement::Title("a b".to_string())), "<title>a b</title>");
    assert_eq!(
        render_head_element(&HeadElement::Meta { name: "n".to_string(), content: "c".to_string() }),
        r#"<meta name="n" content="c">"#
    );
    assert_eq!(
        render_head_element(&HeadElement::Link { rel: "icon".to_string(), href: "/f.ico".to_string() }),
        r#"<link rel="icon" href="/f.ico">"#
    );
    assert_eq!(render_head_element(&HeadElement::Script("go()".to_string())), "<script>go()</script>");
    let mut jsx = HeadContent::new();
    jsx.push("<title>JSX</title>".to_string());
    jsx.push(r#"<meta name="d" content="jsx">"#.to_string());
    jsx.push(r#"<meta name="k" content="keep">"#.to_string());
    let api = vec![HeadElement::Title("API".to_string()), HeadElement::Meta { name: "d".to_string(), content: "api".to_string() }];
    let merged = merge_head(&jsx, &api);
    assert_eq!(
        merged,
        vec![
            r#"<meta name="k" content="keep">"#.to_string(),
            "<title>API</title>".to_string(),
            r#"<meta name="d" content="api">"#.to_string(),
        ]
    );
}

#[test]
fn head_content_extends_in_order() {
    let mut a = HeadContent::new();
    a.push("<x>".to_string());
    let mut b = HeadContent::new();
    b.push("<y>".to_string());
    a.extend(b);
    let merged = merge_head(&a, &vec![]);
    assert_eq!(merged, vec!["<x>".to_string(), "<y>".to_string()]);
}

#[test]
fn build_head_adds_no_style_without_tailwind() {
    let mut state = RenderState::new();
    state.head.push("<title>t</title>".to_string());
    state.class_names.push("p-4".to_string());
    let parts = build_head(&state, &RenderConfig::default());
    assert_eq!(concat_parts(&parts), "<title>t</title>");
    let parts = build_head(&state, &RenderConfig { tailwind: true, ..Default::default() });
    assert_eq!(parts.len(), 2);
    assert!(parts[1].starts_with("<style>") && parts[1].ends_with("</style>"));
}

#[test]
fn tailwind_scans_one_div_per_class() {
    let classes = vec!["p-4".to_string(), "text-xl font-bold".to_string()];
    assert_eq!(class_source_html(&classes), "<div class=\"p-4\"></div>\n<div class=\"text-xl font-bold\"></div>");
    assert_eq!(generate_css(&vec![]), "");
    assert!(generate_css(&classes).contains("padding"));
    assert_eq!(css_or_empty(" \n\t".to_string()), "");
    assert_eq!(css_or_empty(".a{}".to_string()), ".a{}");
}

#[test]
fn import_candidates_follow_the_resolution_order() {
    let c = import_candidates("./components/button", "/base");
    assert_eq!(
        c,
        vec![
            "/base/components/button",
            "/base/components/button.tsx",
            "/base/components/button.jsx",
            "/base/components/button.ts",
            "/base/components/button.js",
            "/base/components/button/index.tsx",
            "/base/components/button/index.jsx",
        ]
    );
    assert_eq!(strip_leading_dot("./a"), "a");
    assert_eq!(strip_leading_dot("../a"), "../a");
    assert_eq!(join_paths("/b/", "c"), "/b/c");
    assert_eq!(join_paths("", "c"), "c");
    assert_eq!(join_paths("/b", "/abs"), "/abs");
    assert_eq!(append_to_path("/x/y", ".tsx"), "/x/y.tsx");
}

#[test]
fn resolve_import_picks_the_first_existing_candidate() {
    let r = resolve_import("./button", "/b", &vec![false, false, true, true]);
    assert_eq!(r.ok(), Some("/b/button.jsx".to_string()));
    let r = resolve_import("./button", "/b", &vec![false, false, false, false, false, false, true]);
    assert_eq!(r.ok(), Some("/b/button/index.jsx".to_string()));
    let r = resolve_import("./missing", "/b", &vec![]);
    assert!(matches!(r, Err(JsxrsError::ImportNotFound { path }) if path == "./missing"));
}

#[test]
fn rust_types_for_typescript_types() {
    assert_eq!(ts_type_to_rust(&TsTypeModel::Keyword(TsKeyword::String)), "String");
    assert_eq!(ts_type_to_rust(&TsTypeModel::Keyword(TsKeyword::Number)), "f64");
    assert_eq!(ts_type_to_rust(&TsTypeModel::Keyword(TsKeyword::Null)), "Option<()>");
    assert_eq!(
        ts_type_to_rust(&TsTypeModel::Array(Box::new(TsTypeModel::Array(Box::new(TsTypeModel::Keyword(TsKeyword::Boolean)))))),
        "Vec<Vec<bool>>"
    );
    assert_eq!(ts_type_to_rust(&TsTypeModel::Other), "serde_json::Value");
}

#[test]
fn generated_types_for_interfaces() {
    let card = TsInterface {
        name: "CardProps".to_string(),
        members: vec![
            TsMember::Property { key: Some("title".to_string()), type_ann: Some(TsTypeModel::Keyword(TsKeyword::String)), optional: false },
            TsMember::Property { key: Some("count".to_string()), type_ann: Some(TsTypeModel::Keyword(TsKeyword::Number)), optional: true },
            TsMember::Property { key: Some("tags".to_string()), type_ann: Some(TsTypeModel::Array(Box::new(TsTypeModel::Keyword(TsKeyword::String)))), optional: false },
            TsMember::Property { key: None, type_ann: None, optional: false },
            TsMember::Property { key: Some("extra".to_string()), type_ann: None, optional: false },
            TsMember::Other,
        ],
    };
    let empty = TsInterface { name: "Props".to_string(), members: vec![] };
    assert_eq!(
        generate_module_types(&vec![Module { body: vec![Item::TsInterface(card), Item::Other, Item::TsInterface(empty)] }]),
        "use serde::{Serialize, Deserialize};\n\n#[derive(Debug, Clone, Serialize, Deserialize)]\npub struct CardProps {\n    pub title: String,\n    pub count: Option<f64>,\n    pub tags: Vec<String>,\n    pub extra: serde_json::Value,\n}\n\n#[derive(Debug, Clone, Serialize, Deserialize)]\npub struct Props {\n}\n\n"
    );
}

#[test]
fn route_entries_are_plain_values() {
    let e = RouteEntry { axum_path: "/x".to_string(), page_file: "/p".to_string(), layouts: vec![] };
    assert!(!is_dynamic_route(&e));
}

#[test]
fn loader_visits_each_import_once_and_follows_loaded_modules() {
    let import = |src: &str, local: &str| Item::Import { src: src.to_string(), specifiers: vec![ImportSpec::Default(local.to_string())] };
    let root = vec![import("./a", "A"), import("./b", "B"), import("./a", "A2")];
    let mut loader = ComponentLoader::new(&root);
    let mut asked = Vec::new();
    while let Some(p) = loader.next_request() {
        asked.push(p.clone());
        let loaded = if p == "./b" {
            Ok(Module { body: vec![import("./c", "C"), import("./b", "B")] })
        } else if p == "./c" {
            Err(JsxrsError::ImportNotFound { path: p.clone() })
        } else {
            Ok(Module { body: vec![] })
        };
        loader.deliver(p, loaded);
    }
    assert_eq!(asked, vec!["./a".to_string(), "./b".to_string(), "./c".to_string()]);
    let table = loader.finish();
    assert_eq!(table.entries.len(), 3);
    assert!(matches!(&table.entries[2].1, Err(JsxrsError::ImportNotFound { .. })));
}

// The type fixtures: `CardProps` with a string, a number, a boolean and a string
// array; `Props` with a name.
const CARD_TSX: &str = "interface CardProps {\n  title: string;\n  count: number;\n  active: boolean;\n  tags: string[];\n}\nexport default function Card(props: CardProps) { return <div>{props.title}</div>; }\n";
const PROPS_TSX: &str = "interface Props {\n  name: string;\n}\nexport default function Page(props: Props) { return <p>{props.name}</p>; }\n";

fn generate(sources: &[&str]) -> String {
    let modules: Vec<Module> = sources.iter().map(|s| parse_source(s, "types.tsx").unwrap()).collect();
    generate_module_types(&modules)
}

#[test]
fn should_generate_rust_struct_from_tsx_interface() {
    let generated = generate(&[CARD_TSX]);
    assert!(generated.contains("struct CardProps"));
    assert!(generated.contains("title"));
    assert!(generated.contains("count"));
    assert!(generated.contains("active"));
    assert!(generated.contains("tags"));
}

#[test]
fn should_generate_rust_struct_with_correct_field_types() {
    let generated = generate(&[CARD_TSX]);
    assert!(generated.contains("String"));
    assert!(generated.contains("f64") || generated.contains("i64"));
    assert!(generated.contains("bool"));
    assert!(generated.contains("Vec<String>"));
}

#[test]
fn should_generate_serde_derive_on_struct() {
    let generated = generate(&[CARD_TSX]);
    assert!(generated.contains("Serialize"));
    assert!(generated.contains("Deserialize"));
}

#[test]
fn should_generate_structs_from_multiple_tsx_files() {
    let generated = generate(&[CARD_TSX, PROPS_TSX]);
    assert!(generated.contains("CardProps"));
    assert!(generated.contains("Props"));
    assert!(generated.find("CardProps") < generated.find("pub struct Props"));
}

#[test]
fn value_equality_ignores_key_order_both_ways() {
    let n = |u: u64| Value::Number(Num::PosInt(u));
    let a = Value::Object(vec![("a".to_string(), n(1)), ("b".to_string(), Value::Array(vec![n(2)]))]);
    let b = Value::Object(vec![("b".to_string(), Value::Array(vec![n(2)])), ("a".to_string(), n(1))]);
    let c = Value::Object(vec![("b".to_string(), Value::Array(vec![n(3)])), ("a".to_string(), n(1))]);
    assert!(values_equal(&a, &b));
    assert!(values_equal(&b, &a));
    assert!(!values_equal(&a, &c));
    assert!(!values_equal(&c, &a));
    let pos_zero = Value::Number(Num::Float(0));
    let neg_zero = Value::Number(Num::Float(0x8000_0000_0000_0000));
    assert!(values_equal(&pos_zero, &neg_zero) && values_equal(&neg_zero, &pos_zero));
    let nan = Value::Number(Num::Float(f64::NAN.to_bits()));
    assert!(!values_equal(&nan, &nan));
}

#[test]
fn double_order_on_bits() {
    let b = |f: f64| f.to_bits();
    assert!(bits_lt(b(-2.5), b(-1.0)));
    assert!(bits_lt(b(-1.0), b(0.0)));
    assert!(bits_lt(b(0.5), b(3.0)));
    assert!(!bits_lt(b(-0.0), b(0.0)) && !bits_lt(b(0.0), b(-0.0)));
    assert!(!bits_lt(b(f64::NAN), b(1.0)) && !bits_lt(b(1.0), b(f64::NAN)));
    assert!(bits_lt(b(1.0), b(2.0)) && bits_lt(bits_negate(b(2.0)), bits_negate(b(1.0))));
    assert_eq!(bits_negate(b(1.5)), b(-1.5));
    assert!(bits_le(b(1.0), b(1.0)) && bits_eq(b(0.0), b(-0.0)));
}

#[test]
fn layouts_wrap_the_page_from_the_innermost_out() {
    let props = Value::Object(vec![("slug".to_string(), Value::Str("x".to_string()))]);
    let config = RenderConfig { tailwind: true, ..Default::default() };
    let (mut chain, mut step) = LayoutChain::start(
        &"/app/blog/page.tsx".to_string(),
        vec!["/app/layout.tsx".to_string(), "/app/blog/layout.tsx".to_string()],
        props,
        config,
    );
    let mut rendered = Vec::new();
    let result = loop {
        match step {
            LayoutStep::Done(html) => break html,
            LayoutStep::Render { file, props, config } => {
                assert!(config.fragment && config.tailwind);
                let dir = file.rsplit_once('/').map(|(d, _)| d.to_string());
                assert_eq!(config.base_dir, dir);
                let Value::Object(entries) = &props else { panic!("props are an object") };
                let inner = get_field(entries, "children").and_then(extract_raw_html).cloned().unwrap_or_default();
                assert!(matches!(get_field(entries, "slug"), Some(Value::Str(s)) if s == "x"));
                rendered.push(file.clone());
                step = chain.next(format!("<{file}>{inner}</{file}>"));
            }
        }
    };
    assert_eq!(
        rendered,
        vec!["/app/blog/page.tsx".to_string(), "/app/blog/layout.tsx".to_string(), "/app/layout.tsx".to_string()]
    );
    assert_eq!(
        result,
        "</app/layout.tsx></app/blog/layout.tsx></app/blog/page.tsx><//app/blog/page.tsx><//app/blog/layout.tsx><//app/layout.tsx>"
    );
}

#[test]
fn file_configuration_renders_a_fragment_from_the_files_directory() {
    let config = RenderConfig {
        pretty: true,
        head_elements: vec![HeadElement::Title("T".to_string())],
        ..Default::default()
    };
    let c = file_config(&config, "/srv/app/page.jsx");
    assert!(c.fragment && c.pretty && !c.tailwind);
    assert_eq!(c.base_dir.as_deref(), Some("/srv/app"));
    assert_eq!(c.head_elements.len(), 1);
    assert_eq!(file_config(&config, "page.jsx").base_dir.as_deref(), Some(""));
    assert_eq!(file_config(&config, "/").base_dir.as_deref(), Some("."));
}
