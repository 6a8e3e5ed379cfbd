//! Rendering scenarios: JSX/TSX sources parsed with swc into the library's
//! syntax tree, rendered with JSON props under a configuration.

use jsxrs::ast::Module;
use jsxrs::config::{HeadElement, RenderConfig};
use jsxrs::error::JsxrsError;
use jsxrs::loader::ComponentLoader;
use jsxrs::num::{FloatAnswer, FloatQuery, Num};
use jsxrs::parser::parse_source;
use jsxrs::renderer::ComponentTable;
use jsxrs::resolver::{import_candidates, resolve_import};
use jsxrs::value::Value;

fn oracle(q: FloatQuery) -> FloatAnswer {
    match q {
        FloatQuery::OfU64(u) => FloatAnswer::Bits((u as f64).to_bits()),
        FloatQuery::OfI64(i) => FloatAnswer::Bits((i as f64).to_bits()),
        FloatQuery::Parse(s) => FloatAnswer::Bits(s.parse::<f64>().unwrap_or(f64::NAN).to_bits()),
        FloatQuery::Add(a, b) => FloatAnswer::Bits((f64::from_bits(a) + f64::from_bits(b)).to_bits()),
        FloatQuery::Display(b) => {
            let f = f64::from_bits(b);
            FloatAnswer::Text(if f.is_nan() {
                "NaN".to_string()
            } else if f.fract() == 0.0 && f.abs() < 9_007_199_254_740_992.0 {
                format!("{f:.0}")
            } else {
                format!("{f}")
            })
        }
    }
}

/// The components that `module` imports, loaded from the given files.
fn load_components(module: &Module, base_dir: &str, files: &[(&str, &str)]) -> ComponentTable {
    let mut loader = ComponentLoader::new(&module.body);
    while let Some(src) = loader.next_request() {
        let candidates = import_candidates(&src, base_dir);
        let is_file: Vec<bool> = candidates.iter().map(|c| files.iter().any(|(p, _)| p == c)).collect();
        let loaded = resolve_import(&src, base_dir, &is_file).and_then(|path| {
            let source = files.iter().find(|(p, _)| *p == path).map(|(_, s)| *s).unwrap_or("");
            parse_source(source, &path)
        });
        loader.deliver(src, loaded);
    }
    loader.finish()
}

fn render_in(source: &str, file_name: &str, props: Value, config: &RenderConfig, files: &[(&str, &str)]) -> Result<String, JsxrsError> {
    let components = match &config.base_dir {
        Some(base) if !source.is_empty() => match parse_source(source, file_name) {
            Ok(m) => load_components(&m, base, files),
            Err(_) => ComponentTable { entries: Vec::new() },
        },
        _ => ComponentTable { entries: Vec::new() },
    };
    jsxrs::render_string(source, file_name, props, config, &components, &oracle)
}

fn render_string(source: &str, file_name: &str, props: Value, config: &RenderConfig) -> Result<String, JsxrsError> {
    render_in(source, file_name, props, config, &FIXTURES)
}

const FIXTURES_DIR: &str = "tests/fixtures";

/// The fixture files that the scenarios load components and pages from.
const FIXTURES: [(&str, &str); 8] = [
    ("tests/fixtures/components/button.jsx", "export default function Button(props) {\n  return <button>{props.label}</button>;\n}"),
    ("tests/fixtures/with_import.jsx", "import Button from './components/button';\nexport default function Page() {\n  return (\n    <div>\n      <h1>Title</h1>\n      <Button label=\"Click me\" />\n    </div>\n  );\n}"),
    ("tests/fixtures/components/child_with_head.jsx", "export default function Child() {\n  return (\n    <>\n      <Head>\n        <meta name=\"child-meta\" content=\"from-child\" />\n      </Head>\n      <section>hello</section>\n    </>\n  );\n}"),
    ("tests/fixtures/with_child_head.jsx", "import Child from './components/child_with_head';\nexport default function Page() {\n  return (\n    <>\n      <Head><title>Parent Title</title></Head>\n      <Child />\n    </>\n  );\n}"),
    ("tests/fixtures/with_head.jsx", "export default function Page() {\n  return (\n    <>\n      <Head>\n        <title>My Page</title>\n        <meta name=\"description\" content=\"A test page\" />\n        <link rel=\"stylesheet\" href=\"/style.css\" />\n      </Head>\n      <div>content</div>\n    </>\n  );\n}"),
    ("tests/fixtures/tailwind.jsx", "export default function Page() {\n  return <div className=\"flex items-center p-4 bg-blue-500\">styled</div>;\n}"),
    ("tests/fixtures/simple.jsx", "export default function Page() {\n  return <div>Hello</div>;\n}"),
    ("tests/fixtures/with_props.jsx", "export default function Page(props) {\n  return <div>Hello, {props.name}!</div>;\n}"),
];

fn fixture(path: &str) -> &'static str {
    FIXTURES.iter().find(|(p, _)| *p == path).map(|(_, s)| *s).unwrap_or("")
}

fn render_fixture(name: &str, props: Value, config: &RenderConfig) -> Result<String, JsxrsError> {
    let path = format!("{FIXTURES_DIR}/{name}");
    render_in(fixture(&path), name, props, config, &FIXTURES)
}

fn minimal_config() -> RenderConfig {
    RenderConfig::default()
}

fn pretty_config() -> RenderConfig {
    RenderConfig { pretty: true, ..Default::default() }
}

fn config_with_base_dir(base_dir: &str) -> RenderConfig {
    RenderConfig { base_dir: Some(base_dir.to_string()), ..Default::default() }
}

fn config_with_tailwind() -> RenderConfig {
    RenderConfig { tailwind: true, ..Default::default() }
}

fn config_with_head(head_elements: Vec<HeadElement>) -> RenderConfig {
    RenderConfig { head_elements, ..Default::default() }
}

fn fragment_config() -> RenderConfig {
    RenderConfig { fragment: true, ..Default::default() }
}

fn extract_body(html: &str) -> Option<&str> {
    let start = html.find("<body>")? + "<body>".len();
    let end = html.find("</body>")?;
    Some(&html[start..end])
}

fn extract_head(html: &str) -> Option<&str> {
    let start = html.find("<head>")? + "<head>".len();
    let end = html.find("</head>")?;
    Some(&html[start..end])
}

fn empty() -> Value {
    Value::Object(Vec::new())
}

fn obj(entries: Vec<(&str, Value)>) -> Value {
    Value::Object(entries.into_iter().map(|(k, v)| (k.to_string(), v)).collect())
}

fn text(s: &str) -> Value {
    Value::Str(s.to_string())
}

fn number(u: u64) -> Value {
    Value::Number(Num::PosInt(u))
}

fn body_of(source: &str, file_name: &str, props: Value) -> String {
    let result = render_string(source, file_name, props, &minimal_config()).unwrap();
    extract_body(&result).expect("missing body").to_string()
}

// --- attributes ---

#[test]
fn should_convert_classname_to_class_when_given_classname_attribute() {
    let source = r#"export default function Page() {
  return <div className="container">content</div>;
}"#;
    assert_eq!(body_of(source, "page.jsx", empty()), r#"<div class="container">content</div>"#);
}

#[test]
fn should_convert_htmlfor_to_for_when_given_htmlfor_attribute() {
    let source = r#"export default function Page() {
  return <label htmlFor="email">Email</label>;
}"#;
    assert_eq!(body_of(source, "page.jsx", empty()), r#"<label for="email">Email</label>"#);
}

#[test]
fn should_convert_style_object_to_css_string_when_given_camelcase_styles() {
    let source = r"export default function Page() {
  return <div style={{color: 'red', fontSize: '14px', backgroundColor: 'blue'}}>styled</div>;
}";
    let body = body_of(source, "page.jsx", empty());
    assert!(body.contains(r#"style=""#));
    assert!(body.contains("color: red"));
    assert!(body.contains("font-size: 14px"));
    assert!(body.contains("background-color: blue"));
}

#[test]
fn should_render_boolean_attribute_name_only_when_value_is_true() {
    let source = r"export default function Page() {
  return <input disabled={true} />;
}";
    assert_eq!(body_of(source, "page.jsx", empty()), "<input disabled>");
}

#[test]
fn should_omit_boolean_attribute_when_value_is_false() {
    let source = r"export default function Page() {
  return <input disabled={false} />;
}";
    assert_eq!(body_of(source, "page.jsx", empty()), "<input>");
}

#[test]
fn should_exclude_event_handler_attributes_from_html_output() {
    let source = r"export default function Page() {
  return <button onClick={handler} onMouseOver={handler}>click</button>;
}";
    assert_eq!(body_of(source, "page.jsx", empty()), "<button>click</button>");
}

#[test]
fn should_pass_through_standard_html_attributes() {
    let source = r#"export default function Page() {
  return <a href="/link" target="_blank" rel="noopener">link</a>;
}"#;
    assert_eq!(body_of(source, "page.jsx", empty()), r#"<a href="/link" target="_blank" rel="noopener">link</a>"#);
}

#[test]
fn should_pass_through_data_attributes() {
    let source = r#"export default function Page() {
  return <div data-id="123" data-testid="item">content</div>;
}"#;
    let body = body_of(source, "page.jsx", empty());
    assert!(body.contains(r#"data-id="123""#));
    assert!(body.contains(r#"data-testid="item""#));
}

#[test]
fn should_convert_tabindex_to_lowercase_when_given_camelcase() {
    let source = r"export default function Page() {
  return <div tabIndex={0}>focusable</div>;
}";
    assert_eq!(body_of(source, "page.jsx", empty()), r#"<div tabindex="0">focusable</div>"#);
}

#[test]
fn should_render_shorthand_boolean_attribute_when_no_value_specified() {
    let source = r"export default function Page() {
  return <input required />;
}";
    assert_eq!(body_of(source, "page.jsx", empty()), "<input required>");
}

#[test]
fn should_render_dynamic_attribute_value_from_props() {
    let source = r"export default function Page(props) {
  return <div id={props.elementId}>content</div>;
}";
    let props = obj(vec![("elementId", text("main-content"))]);
    assert_eq!(body_of(source, "page.jsx", props), r#"<div id="main-content">content</div>"#);
}

#[test]
fn should_handle_multiple_react_specific_attributes() {
    let source = r#"export default function Page() {
  return <div className="wrapper" tabIndex={-1}><label htmlFor="name">Name</label></div>;
}"#;
    let body = body_of(source, "page.jsx", empty());
    assert!(body.contains(r#"class="wrapper""#));
    assert!(body.contains(r#"tabindex="-1""#));
    assert!(body.contains(r#"for="name""#));
}

// --- documents ---

#[test]
fn should_produce_complete_html_document_when_rendering_jsx() {
    let source = r#"export default function Page() {
  return <div>Hello</div>;
}"#;
    let result = render_string(source, "page.jsx", empty(), &minimal_config()).unwrap();
    assert!(result.starts_with("<!DOCTYPE html>"));
    assert!(result.contains("<html>"));
    assert!(result.contains("<head>"));
    assert!(result.contains("</head>"));
    assert!(result.contains("<body>"));
    assert!(result.contains("<div>Hello</div>"));
    assert!(result.contains("</body>"));
    assert!(result.contains("</html>"));
}

#[test]
fn should_not_contain_extra_whitespace_when_pretty_is_false() {
    let source = r#"export default function Page() {
  return <div>Hello</div>;
}"#;
    let result = render_string(source, "page.jsx", empty(), &minimal_config()).unwrap();
    assert_eq!(result, "<!DOCTYPE html><html><head></head><body><div>Hello</div></body></html>");
}

#[test]
fn should_contain_indentation_when_pretty_is_true() {
    let source = r#"export default function Page() {
  return <div>Hello</div>;
}"#;
    let result = render_string(source, "page.jsx", empty(), &pretty_config()).unwrap();
    assert!(result.starts_with("<!DOCTYPE html>"));
    assert!(result.contains('\n'));
    assert!(result.contains("<html>"));
    assert!(result.contains("  <head>"));
    assert!(result.contains("  <body>"));
    assert!(result.contains("<div>Hello</div>"));
}

#[test]
fn should_include_empty_head_when_no_head_elements_specified() {
    let source = r#"export default function Page() {
  return <div>content</div>;
}"#;
    let result = render_string(source, "page.jsx", empty(), &minimal_config()).unwrap();
    assert!(result.contains("<head></head>"));
}

#[test]
fn should_render_file_when_given_file_path() {
    let result = render_fixture("simple.jsx", empty(), &minimal_config()).unwrap();
    assert!(result.starts_with("<!DOCTYPE html>"));
    assert!(result.contains("<div>Hello</div>"));
}

#[test]
fn should_render_file_with_props_when_given_file_path_and_props() {
    let props = obj(vec![("name", text("World"))]);
    let result = render_fixture("with_props.jsx", props, &minimal_config()).unwrap();
    assert!(result.contains("<div>Hello, World!</div>"));
}

// --- errors ---

#[test]
fn should_return_parse_error_when_given_invalid_jsx_syntax() {
    let source = r"export default function Page() {
  return <div><span></div>;
}";
    let result = render_string(source, "page.jsx", empty(), &minimal_config());
    assert!(result.is_err());
    assert!(matches!(result.err().expect("expected Err but got Ok"), JsxrsError::Parse(_)));
}

#[test]
fn should_return_error_when_no_default_export_found() {
    let source = r"function Page() {
  return <div>Hello</div>;
}";
    let result = render_string(source, "page.jsx", empty(), &minimal_config());
    assert!(result.is_err());
}

#[test]
fn should_return_unsupported_error_when_given_variable_declaration() {
    let source = r"export default function Page() {
  return <div>{let x = 1}</div>;
}";
    let result = render_string(source, "page.jsx", empty(), &minimal_config());
    assert!(result.is_err());
}

#[test]
fn should_return_error_when_referencing_undefined_prop() {
    let source = r"export default function Page(props) {
  return <div>{props.missing}</div>;
}";
    let result = render_string(source, "page.jsx", empty(), &minimal_config());
    assert!(result.is_err());
}

#[test]
fn should_return_error_when_import_target_not_found() {
    let source = r"import Foo from './does_not_exist';
export default function Page() {
  return <Foo />;
}";
    let result = render_string(source, "page.jsx", empty(), &config_with_base_dir(FIXTURES_DIR));
    assert!(result.is_err());
}

#[test]
fn should_return_parse_error_when_given_invalid_tsx_syntax() {
    let source = r"
interface Props {
  name: string
}
export default function Page(props: Props) {
  return <div><span></div>;
}";
    let result = render_string(source, "page.tsx", empty(), &minimal_config());
    assert!(result.is_err());
    assert!(matches!(result.err().expect("expected Err but got Ok"), JsxrsError::Parse(_)));
}

#[test]
fn should_return_error_when_source_is_empty() {
    let result = render_string("", "page.jsx", empty(), &minimal_config());
    assert!(result.is_err());
}

// --- expressions ---

#[test]
fn should_resolve_prop_reference_when_given_simple_variable() {
    let source = r"export default function Page(props) {
  return <span>{props.greeting}</span>;
}";
    assert_eq!(body_of(source, "p.jsx", obj(vec![("greeting", text("hi"))])), "<span>hi</span>");
}

#[test]
fn should_resolve_nested_member_access_when_given_deep_prop() {
    let source = r"export default function Page(props) {
  return <span>{props.user.name}</span>;
}";
    let props = obj(vec![("user", obj(vec![("name", text("Alice"))]))]);
    assert_eq!(body_of(source, "p.jsx", props), "<span>Alice</span>");
}

#[test]
fn should_render_consequent_when_ternary_condition_is_truthy() {
    let source = r"export default function Page(props) {
  return <div>{props.show ? <span>visible</span> : <span>hidden</span>}</div>;
}";
    assert_eq!(body_of(source, "p.jsx", obj(vec![("show", Value::Bool(true))])), "<div><span>visible</span></div>");
}

#[test]
fn should_render_alternate_when_ternary_condition_is_falsy() {
    let source = r"export default function Page(props) {
  return <div>{props.show ? <span>visible</span> : <span>hidden</span>}</div>;
}";
    assert_eq!(body_of(source, "p.jsx", obj(vec![("show", Value::Bool(false))])), "<div><span>hidden</span></div>");
}

#[test]
fn should_render_text_consequent_when_ternary_returns_string() {
    let source = r#"export default function Page(props) {
  return <span>{props.active ? "on" : "off"}</span>;
}"#;
    assert_eq!(body_of(source, "p.jsx", obj(vec![("active", Value::Bool(true))])), "<span>on</span>");
}

#[test]
fn should_render_element_when_logical_and_lhs_is_truthy() {
    let source = r"export default function Page(props) {
  return <div>{props.visible && <span>shown</span>}</div>;
}";
    assert_eq!(body_of(source, "p.jsx", obj(vec![("visible", Value::Bool(true))])), "<div><span>shown</span></div>");
}

#[test]
fn should_render_nothing_when_logical_and_lhs_is_falsy() {
    let source = r"export default function Page(props) {
  return <div>{props.visible && <span>shown</span>}</div>;
}";
    assert_eq!(body_of(source, "p.jsx", obj(vec![("visible", Value::Bool(false))])), "<div></div>");
}

#[test]
fn should_render_lhs_when_logical_or_lhs_is_truthy() {
    let source = r#"export default function Page(props) {
  return <span>{props.name || "anonymous"}</span>;
}"#;
    assert_eq!(body_of(source, "p.jsx", obj(vec![("name", text("Alice"))])), "<span>Alice</span>");
}

#[test]
fn should_render_rhs_when_logical_or_lhs_is_falsy() {
    let source = r#"export default function Page(props) {
  return <span>{props.name || "anonymous"}</span>;
}"#;
    assert_eq!(body_of(source, "p.jsx", obj(vec![("name", text(""))])), "<span>anonymous</span>");
}

#[test]
fn should_negate_boolean_when_given_logical_not() {
    let source = r"export default function Page(props) {
  return <div>{!props.hidden && <span>shown</span>}</div>;
}";
    assert_eq!(body_of(source, "p.jsx", obj(vec![("hidden", Value::Bool(false))])), "<div><span>shown</span></div>");
}

#[test]
fn should_interpolate_template_literal_with_prop_value() {
    let source = r"export default function Page(props) {
  return <span>{`Hello, ${props.name}!`}</span>;
}";
    assert_eq!(body_of(source, "p.jsx", obj(vec![("name", text("World"))])), "<span>Hello, World!</span>");
}

#[test]
fn should_interpolate_multiple_expressions_in_template_literal() {
    let source = r"export default function Page(props) {
  return <span>{`${props.first} ${props.last}`}</span>;
}";
    let props = obj(vec![("first", text("John")), ("last", text("Doe"))]);
    assert_eq!(body_of(source, "p.jsx", props), "<span>John Doe</span>");
}

#[test]
fn should_render_list_when_given_array_map() {
    let source = r"export default function Page(props) {
  return <ul>{props.items.map(item => <li>{item}</li>)}</ul>;
}";
    let props = obj(vec![("items", Value::Array(vec![text("a"), text("b"), text("c")]))]);
    assert_eq!(body_of(source, "p.jsx", props), "<ul><li>a</li><li>b</li><li>c</li></ul>");
}

#[test]
fn should_render_empty_list_when_given_empty_array_map() {
    let source = r"export default function Page(props) {
  return <ul>{props.items.map(item => <li>{item}</li>)}</ul>;
}";
    assert_eq!(body_of(source, "p.jsx", obj(vec![("items", Value::Array(vec![]))])), "<ul></ul>");
}

#[test]
fn should_access_object_properties_in_map_callback() {
    let source = r"export default function Page(props) {
  return <ul>{props.users.map(user => <li>{user.name}</li>)}</ul>;
}";
    let props = obj(vec![(
        "users",
        Value::Array(vec![obj(vec![("name", text("Alice"))]), obj(vec![("name", text("Bob"))])]),
    )]);
    assert_eq!(body_of(source, "p.jsx", props), "<ul><li>Alice</li><li>Bob</li></ul>");
}

#[test]
fn should_evaluate_equality_comparison_in_ternary() {
    let source = r#"export default function Page(props) {
  return <span>{props.status === "active" ? "yes" : "no"}</span>;
}"#;
    assert_eq!(body_of(source, "p.jsx", obj(vec![("status", text("active"))])), "<span>yes</span>");
}

#[test]
fn should_evaluate_numeric_comparison_in_ternary() {
    let source = r#"export default function Page(props) {
  return <span>{props.count > 0 ? "has items" : "empty"}</span>;
}"#;
    assert_eq!(body_of(source, "p.jsx", obj(vec![("count", number(5))])), "<span>has items</span>");
}

#[test]
fn should_concatenate_strings_with_plus_operator() {
    let source = r#"export default function Page(props) {
  return <span>{props.first + " " + props.last}</span>;
}"#;
    let props = obj(vec![("first", text("Jane")), ("last", text("Doe"))]);
    assert_eq!(body_of(source, "p.jsx", props), "<span>Jane Doe</span>");
}

#[test]
fn should_treat_null_as_falsy() {
    let source = r"export default function Page(props) {
  return <div>{props.value && <span>truthy</span>}</div>;
}";
    assert_eq!(body_of(source, "p.jsx", obj(vec![("value", Value::Null)])), "<div></div>");
}

#[test]
fn should_treat_zero_as_falsy() {
    let source = r"export default function Page(props) {
  return <div>{props.count && <span>truthy</span>}</div>;
}";
    assert_eq!(body_of(source, "p.jsx", obj(vec![("count", number(0))])), "<div></div>");
}

#[test]
fn should_treat_empty_string_as_falsy() {
    let source = r"export default function Page(props) {
  return <div>{props.name && <span>truthy</span>}</div>;
}";
    assert_eq!(body_of(source, "p.jsx", obj(vec![("name", text(""))])), "<div></div>");
}

#[test]
fn should_treat_nonzero_number_as_truthy() {
    let source = r"export default function Page(props) {
  return <div>{props.count && <span>truthy</span>}</div>;
}";
    assert_eq!(body_of(source, "p.jsx", obj(vec![("count", number(1))])), "<div><span>truthy</span></div>");
}

// --- head ---

fn head_of(result: &str) -> &str {
    extract_head(result).expect("missing head")
}

#[test]
fn should_render_title_in_head_when_jsx_contains_head_component() {
    let source = r"export default function Page() {
  return (
    <>
      <Head><title>My Page</title></Head>
      <div>content</div>
    </>
  );
}";
    let result = render_string(source, "page.jsx", empty(), &minimal_config()).unwrap();
    assert!(head_of(&result).contains("<title>My Page</title>"));
}

#[test]
fn should_render_meta_in_head_when_jsx_contains_head_with_meta() {
    let source = r#"export default function Page() {
  return (
    <>
      <Head>
        <meta name="description" content="A test page" />
      </Head>
      <div>content</div>
    </>
  );
}"#;
    let result = render_string(source, "page.jsx", empty(), &minimal_config()).unwrap();
    assert!(head_of(&result).contains(r#"<meta name="description" content="A test page">"#));
}

#[test]
fn should_render_link_in_head_when_jsx_contains_head_with_link() {
    let source = r#"export default function Page() {
  return (
    <>
      <Head>
        <link rel="stylesheet" href="/style.css" />
      </Head>
      <div>content</div>
    </>
  );
}"#;
    let result = render_string(source, "page.jsx", empty(), &minimal_config()).unwrap();
    assert!(head_of(&result).contains(r#"<link rel="stylesheet" href="/style.css">"#));
}

#[test]
fn should_not_render_head_component_in_body() {
    let source = r"export default function Page() {
  return (
    <>
      <Head><title>Page</title></Head>
      <div>body content</div>
    </>
  );
}";
    let result = render_string(source, "page.jsx", empty(), &minimal_config()).unwrap();
    let body = extract_body(&result).expect("missing body");
    assert!(!body.contains("<Head>"));
    assert!(!body.contains("<title>"));
    assert!(body.contains("<div>body content</div>"));
}

#[test]
fn should_override_jsx_title_when_api_title_is_specified() {
    let source = r"export default function Page() {
  return (
    <>
      <Head><title>JSX Title</title></Head>
      <div>content</div>
    </>
  );
}";
    let config = config_with_head(vec![HeadElement::Title("API Title".to_string())]);
    let result = render_string(source, "page.jsx", empty(), &config).unwrap();
    let head = head_of(&result);
    assert!(head.contains("<title>API Title</title>"));
    assert!(!head.contains("JSX Title"));
}

#[test]
fn should_override_jsx_meta_when_api_specifies_same_name_meta() {
    let source = r#"export default function Page() {
  return (
    <>
      <Head>
        <meta name="description" content="JSX description" />
      </Head>
      <div>content</div>
    </>
  );
}"#;
    let config = config_with_head(vec![HeadElement::Meta {
        name: "description".to_string(),
        content: "API description".to_string(),
    }]);
    let result = render_string(source, "page.jsx", empty(), &config).unwrap();
    let head = head_of(&result);
    assert!(head.contains("API description"));
    assert!(!head.contains("JSX description"));
}

#[test]
fn should_keep_both_link_tags_when_api_and_jsx_specify_links() {
    let source = r#"export default function Page() {
  return (
    <>
      <Head>
        <link rel="stylesheet" href="/jsx.css" />
      </Head>
      <div>content</div>
    </>
  );
}"#;
    let config = config_with_head(vec![HeadElement::Link { rel: "stylesheet".to_string(), href: "/api.css".to_string() }]);
    let result = render_string(source, "page.jsx", empty(), &config).unwrap();
    let head = head_of(&result);
    assert!(head.contains("/jsx.css"));
    assert!(head.contains("/api.css"));
}

#[test]
fn should_render_api_head_elements_when_no_head_component_in_jsx() {
    let source = r"export default function Page() {
  return <div>content</div>;
}";
    let config = config_with_head(vec![
        HeadElement::Title("API Title".to_string()),
        HeadElement::Meta { name: "viewport".to_string(), content: "width=device-width".to_string() },
    ]);
    let result = render_string(source, "page.jsx", empty(), &config).unwrap();
    let head = head_of(&result);
    assert!(head.contains("<title>API Title</title>"));
    assert!(head.contains(r#"<meta name="viewport" content="width=device-width">"#));
}

#[test]
fn should_render_head_from_fixture_file() {
    let result = render_fixture("with_head.jsx", empty(), &minimal_config()).unwrap();
    let head = head_of(&result);
    assert!(head.contains("<title>My Page</title>"));
    assert!(head.contains(r#"<meta name="description" content="A test page">"#));
    assert!(head.contains(r#"<link rel="stylesheet" href="/style.css">"#));
}

#[test]
fn should_propagate_child_component_head_to_parent_output() {
    let result = render_fixture("with_child_head.jsx", empty(), &config_with_base_dir(FIXTURES_DIR)).unwrap();
    let head = head_of(&result);
    assert!(head.contains("<title>Parent Title</title>"), "parent <Head> title missing from output head: {head}");
    assert!(
        head.contains(r#"<meta name="child-meta" content="from-child">"#),
        "child component <Head> meta missing from output head: {head}"
    );
    let body = extract_body(&result).expect("missing body");
    assert!(body.contains("<section>hello</section>"), "child body content missing: {body}");
}

// --- basic rendering ---

#[test]
fn should_render_simple_div_when_given_basic_jsx() {
    let source = r#"export default function Page() {
  return <div>Hello</div>;
}"#;
    assert_eq!(body_of(source, "page.jsx", empty()), "<div>Hello</div>");
}

#[test]
fn should_render_nested_elements_when_given_nested_jsx() {
    let source = r#"export default function Page() {
  return <div><span>inner</span></div>;
}"#;
    assert_eq!(body_of(source, "page.jsx", empty()), "<div><span>inner</span></div>");
}

#[test]
fn should_render_self_closing_tags_when_given_void_elements() {
    let source = r#"export default function Page() {
  return <div><br/><hr/></div>;
}"#;
    assert_eq!(body_of(source, "page.jsx", empty()), "<div><br><hr></div>");
}

#[test]
fn should_render_img_with_attributes_when_given_self_closing_element() {
    let source = r#"export default function Page() {
  return <img src="test.png" alt="test" />;
}"#;
    assert_eq!(body_of(source, "page.jsx", empty()), r#"<img src="test.png" alt="test">"#);
}

#[test]
fn should_render_fragment_children_when_given_jsx_fragment() {
    let source = r#"export default function Page() {
  return <><div>first</div><span>second</span></>;
}"#;
    assert_eq!(body_of(source, "page.jsx", empty()), "<div>first</div><span>second</span>");
}

#[test]
fn should_render_mixed_text_and_elements_when_given_interleaved_content() {
    let source = r#"export default function Page() {
  return <div>Hello <strong>World</strong>!</div>;
}"#;
    assert_eq!(body_of(source, "page.jsx", empty()), "<div>Hello <strong>World</strong>!</div>");
}

#[test]
fn should_render_deeply_nested_elements_when_given_multiple_nesting_levels() {
    let source = r#"export default function Page() {
  return <div><section><article><p>deep</p></article></section></div>;
}"#;
    assert_eq!(body_of(source, "page.jsx", empty()), "<div><section><article><p>deep</p></article></section></div>");
}

#[test]
fn should_render_multiple_children_when_given_sibling_elements() {
    let source = r#"export default function Page() {
  return (
    <ul>
      <li>one</li>
      <li>two</li>
      <li>three</li>
    </ul>
  );
}"#;
    assert_eq!(body_of(source, "page.jsx", empty()), "<ul><li>one</li><li>two</li><li>three</li></ul>");
}

#[test]
fn should_render_props_in_text_when_given_jsx_expression_with_props() {
    let source = r#"export default function Greeting(props) {
  return <div>Hello, {props.name}!</div>;
}"#;
    assert_eq!(body_of(source, "greeting.jsx", obj(vec![("name", text("World"))])), "<div>Hello, World!</div>");
}

#[test]
fn should_render_tsx_source_when_given_tsx_file_name() {
    let source = r#"
interface Props {
  name: string;
}
export default function Page(props: Props) {
  return <div>{props.name}</div>;
}"#;
    assert_eq!(body_of(source, "page.tsx", obj(vec![("name", text("TypeScript"))])), "<div>TypeScript</div>");
}

#[test]
fn should_render_arrow_function_default_export() {
    let source = r#"const Page = () => <div>arrow</div>;
export default Page;"#;
    assert_eq!(body_of(source, "page.jsx", empty()), "<div>arrow</div>");
}

#[test]
fn should_render_number_prop_as_text_when_given_numeric_expression() {
    let source = r#"export default function Page(props) {
  return <span>{props.count}</span>;
}"#;
    assert_eq!(body_of(source, "page.jsx", obj(vec![("count", number(42))])), "<span>42</span>");
}

#[test]
fn should_render_anonymous_arrow_default_export() {
    let source = r#"export default () => <div>anon-arrow</div>;"#;
    assert_eq!(body_of(source, "page.jsx", empty()), "<div>anon-arrow</div>");
}

#[test]
fn should_render_anonymous_function_default_export() {
    let source = r#"export default function() {
  return <div>anon-fn</div>;
}"#;
    assert_eq!(body_of(source, "page.jsx", empty()), "<div>anon-fn</div>");
}

#[test]
fn should_escape_html_in_text_content() {
    let source = r#"export default function Page(props) {
  return <div>{props.text}</div>;
}"#;
    let props = obj(vec![("text", text("<script>alert('xss')</script>"))]);
    assert_eq!(body_of(source, "page.jsx", props), "<div>&lt;script&gt;alert('xss')&lt;/script&gt;</div>");
}

#[test]
fn should_escape_quotes_in_attribute_values() {
    let source = r#"export default function Page(props) {
  return <div title={props.title}>content</div>;
}"#;
    let props = obj(vec![("title", text("a\"b"))]);
    assert_eq!(body_of(source, "page.jsx", props), r#"<div title="a&quot;b">content</div>"#);
}

#[test]
fn should_render_empty_element_when_given_no_children() {
    let source = r#"export default function Page() {
  return <div></div>;
}"#;
    assert_eq!(body_of(source, "page.jsx", empty()), "<div></div>");
}

// --- component imports ---

#[test]
fn should_resolve_imported_component_when_given_relative_import() {
    let result = render_fixture("with_import.jsx", empty(), &config_with_base_dir(FIXTURES_DIR)).unwrap();
    let body = extract_body(&result).expect("missing body");
    assert!(body.contains("<h1>Title</h1>"));
    assert!(body.contains("<button>Click me</button>"));
}

#[test]
fn should_resolve_import_without_extension_when_jsx_file_exists() {
    let result = render_fixture("with_import.jsx", empty(), &config_with_base_dir(FIXTURES_DIR));
    assert!(result.is_ok());
}

#[test]
fn should_return_error_when_imported_component_not_found() {
    let source = r"import Missing from './nonexistent';
export default function Page() {
  return <Missing />;
}";
    let result = render_string(source, "page.jsx", empty(), &config_with_base_dir(FIXTURES_DIR));
    assert!(result.is_err());
}

#[test]
fn should_pass_props_to_imported_component() {
    let result = render_fixture("with_import.jsx", empty(), &config_with_base_dir(FIXTURES_DIR)).unwrap();
    let body = extract_body(&result).expect("missing body");
    assert!(body.contains("<button>Click me</button>"));
}

#[test]
fn should_use_base_dir_for_import_resolution() {
    let source = r#"import Button from './components/button';
export default function Page() {
  return <Button label="test" />;
}"#;
    let result = render_string(source, "page.jsx", empty(), &config_with_base_dir(FIXTURES_DIR)).unwrap();
    let body = extract_body(&result).expect("missing body");
    assert!(body.contains("<button>test</button>"));
}

#[test]
fn should_return_error_when_base_dir_not_set_and_import_exists() {
    let source = r#"import Button from './components/button';
export default function Page() {
  return <Button label="test" />;
}"#;
    let result = render_string(source, "page.jsx", empty(), &minimal_config());
    assert!(result.is_err());
}

// --- tailwind ---

#[test]
fn should_generate_tailwind_css_in_head_when_classes_used() {
    let source = r#"export default function Page() {
  return <div className="bg-blue-500 text-white p-4">content</div>;
}"#;
    let result = render_string(source, "page.jsx", empty(), &config_with_tailwind()).unwrap();
    let head = head_of(&result);
    assert!(head.contains("<style>"));
    assert!(head.contains("</style>"));
}

#[test]
fn should_not_add_style_tag_when_no_tailwind_classes_used() {
    let source = r"export default function Page() {
  return <div>plain content</div>;
}";
    let result = render_string(source, "page.jsx", empty(), &config_with_tailwind()).unwrap();
    assert!(!head_of(&result).contains("<style>"));
}

#[test]
fn should_not_process_tailwind_when_disabled_in_config() {
    let source = r#"export default function Page() {
  return <div className="bg-blue-500 text-white">content</div>;
}"#;
    let result = render_string(source, "page.jsx", empty(), &minimal_config()).unwrap();
    assert!(!head_of(&result).contains("<style>"));
}

#[test]
fn should_collect_classes_from_nested_elements() {
    let source = r#"export default function Page() {
  return (
    <div className="p-4">
      <h1 className="text-xl font-bold">title</h1>
      <p className="mt-2">text</p>
    </div>
  );
}"#;
    let result = render_string(source, "page.jsx", empty(), &config_with_tailwind()).unwrap();
    assert!(head_of(&result).contains("<style>"));
}

#[test]
fn should_render_tailwind_css_from_fixture_file() {
    let mut config = config_with_tailwind();
    config.base_dir = Some(FIXTURES_DIR.to_string());
    let result = render_fixture("tailwind.jsx", empty(), &config).unwrap();
    assert!(head_of(&result).contains("<style>"));
}

// --- fragments ---

#[test]
fn fragment_mode_returns_the_body_html_alone() {
    let source = r#"export default function Page() {
  return (
    <>
      <Head><title>Ignored</title></Head>
      <div className="p-4">Hello</div>
    </>
  );
}"#;
    let mut config = fragment_config();
    config.tailwind = true;
    config.head_elements = vec![HeadElement::Title("API".to_string())];
    let result = render_string(source, "page.jsx", empty(), &config).unwrap();
    assert_eq!(result, r#"<div class="p-4">Hello</div>"#);
}

#[test]
fn full_document_wraps_the_fragment() {
    let source = r#"export default function Page(props) {
  return <main>{props.n}</main>;
}"#;
    let props = || obj(vec![("n", number(7))]);
    let fragment = render_string(source, "page.jsx", props(), &fragment_config()).unwrap();
    let full = render_string(source, "page.jsx", props(), &minimal_config()).unwrap();
    assert_eq!(fragment, "<main>7</main>");
    assert_eq!(extract_body(&full), Some(fragment.as_str()));
}

#[test]
fn pretty_document_indents_each_head_line() {
    let source = r#"export default function Page() {
  return <p>x</p>;
}"#;
    let mut config = pretty_config();
    config.head_elements = vec![HeadElement::Title("T".to_string()), HeadElement::Style("a{}".to_string())];
    let result = render_string(source, "page.jsx", empty(), &config).unwrap();
    assert_eq!(
        result,
        "<!DOCTYPE html>\n<html>\n  <head>\n    <title>T</title><style>a{}</style>\n  </head>\n  <body>\n    <p>x</p>\n  </body>\n</html>"
    );
}

#[test]
fn component_nested_in_itself_is_refused_not_overflowed() {
    let files = [("app/loop.jsx", "import Loop from './loop';\nexport default function L() {\n  return <div><Loop /></div>;\n}")];
    let source = "import Loop from './loop';\nexport default function Page() {\n  return <Loop />;\n}";
    let result = render_in(source, "page.jsx", empty(), &config_with_base_dir("app"), &files);
    assert!(matches!(result, Err(JsxrsError::Unsupported(_))));
}

#[test]
fn map_callback_parameter_shadows_props_of_the_same_name() {
    let source = r"export default function Page(props) {
  return <ul>{props.items.map(props => <li>{props}</li>)}</ul>;
}";
    let props = obj(vec![("items", Value::Array(vec![text("x"), number(2)]))]);
    assert_eq!(body_of(source, "p.jsx", props), "<ul><li>x</li><li>2</li></ul>");
}

#[test]
fn unsupported_expression_reports_its_kind() {
    let source = r"export default function Page(props) {
  return <div>{props.a - 1}</div>;
}";
    let result = render_string(source, "page.jsx", obj(vec![("a", number(3))]), &minimal_config());
    match result {
        Err(JsxrsError::Unsupported(msg)) => assert!(msg.starts_with("binary operator: "), "{msg}"),
        other => panic!("expected an unsupported-expression error, got {:?}", other.map_err(|_| ())),
    }
}

#[test]
fn raw_html_object_in_a_child_expression_passes_through() {
    let source = r"export default function Layout(props) {
  return <main>{props.children}</main>;
}";
    let props = obj(vec![("children", obj(vec![("__html", text("<h1>Home</h1>"))]))]);
    assert_eq!(body_of(source, "layout.jsx", props), "<main><h1>Home</h1></main>");
}

#[test]
fn false_attribute_from_an_expression_is_left_out() {
    let source = r"export default function Page(props) {
  return <input disabled={props.flag} />;
}";
    assert_eq!(body_of(source, "p.jsx", obj(vec![("flag", Value::Bool(false))])), "<input>");
    assert_eq!(body_of(source, "p.jsx", obj(vec![("flag", Value::Bool(true))])), r#"<input disabled="true">"#);
}

#[test]
fn map_over_a_value_that_is_not_an_array_is_unsupported() {
    let source = r"export default function Page(props) {
  return <ul>{props.items.map(item => <li>{item}</li>)}</ul>;
}";
    let result = render_string(source, "p.jsx", obj(vec![("items", text("abc"))]), &minimal_config());
    assert!(matches!(result, Err(JsxrsError::Unsupported(m)) if m == "map() on non-array"));
}

#[test]
fn components_nested_more_than_sixty_four_deep_render() {
    let depth = 70;
    let sources: Vec<(String, String)> = (0..depth)
        .map(|k| {
            let path = format!("deep/c{k}.jsx");
            let src = if k + 1 < depth {
                format!("import Next from './c{}';\nexport default function C() {{\n  return <b><Next /></b>;\n}}", k + 1)
            } else {
                "export default function C() {\n  return <i>end</i>;\n}".to_string()
            };
            (path, src)
        })
        .collect();
    let files: Vec<(&str, &str)> = sources.iter().map(|(p, s)| (p.as_str(), s.as_str())).collect();
    let source = "import First from './c0';\nexport default function Page() {\n  return <First />;\n}";
    let result = render_in(source, "page.jsx", empty(), &config_with_base_dir("deep"), &files).unwrap();
    let body = extract_body(&result).expect("missing body");
    assert_eq!(body, format!("{}<i>end</i>{}", "<b>".repeat(depth - 1), "</b>".repeat(depth - 1)));
}

#[test]
fn parsed_imports_keep_only_default_specifiers() {
    let module = parse_source("import Card, { Badge } from \"./card\";\nimport * as ns from \"./ns\";\nexport default () => <div/>;", "page.jsx").unwrap();
    let imports = jsxrs::export::collect_imports(&module.body);
    assert_eq!(imports, vec![("Card".to_string(), "./card".to_string())]);
}

#[test]
fn source_that_does_not_parse_gives_a_parse_error() {
    assert!(matches!(parse_source("export default <div", "page.jsx"), Err(JsxrsError::Parse(_))));
    assert!(parse_source("const x: number = 1;", "page.tsx").is_ok());
}

#[test]
fn interfaces_of_parsed_modules_become_structs() {
    let a = parse_source("interface CardProps { title: string; count?: number; tags: string[] }\nexport default function C() { return <div/>; }", "card.tsx").unwrap();
    let b = parse_source("interface Empty {}\ntype T = string;", "b.tsx").unwrap();
    let out = jsxrs::codegen::generate_module_types(&vec![a, b]);
    assert_eq!(
        out,
        "use serde::{Serialize, Deserialize};\n\n#[derive(Debug, Clone, Serialize, Deserialize)]\npub struct CardProps {\n    pub title: String,\n    pub count: Option<f64>,\n    pub tags: Vec<String>,\n}\n\n#[derive(Debug, Clone, Serialize, Deserialize)]\npub struct Empty {\n}\n\n"
    );
}
