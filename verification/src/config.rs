//! The configuration of the rendering pipeline.
use vstd::prelude::*;

verus! {

/// A head element specified through the API.
#[derive(Debug, Clone)]
pub enum HeadElement {
    Title(String),
    Meta { name: String, content: String },
    Link { rel: String, href: String },
    Style(String),
    Script(String),
}

pub enum HeadElementView {
    Title(Seq<char>),
    Meta(Seq<char>, Seq<char>),
    Link(Seq<char>, Seq<char>),
    Style(Seq<char>),
    Script(Seq<char>),
}

impl View for HeadElement {
    type V = HeadElementView;

    open spec fn view(&self) -> HeadElementView {
        match self {
            HeadElement::Title(t) => HeadElementView::Title(t@),
            HeadElement::Meta { name, content } => HeadElementView::Meta(name@, content@),
            HeadElement::Link { rel, href } => HeadElementView::Link(rel@, href@),
            HeadElement::Style(s) => HeadElementView::Style(s@),
            HeadElement::Script(s) => HeadElementView::Script(s@),
        }
    }
}

/// Configuration for the JSX-to-HTML rendering pipeline.
#[derive(Debug, Clone)]
pub struct RenderConfig {
    /// Format the document with indentation.
    pub pretty: bool,
    /// The directory that component imports are resolved against.
    pub base_dir: Option<String>,
    /// Head elements to include in every document.
    pub head_elements: Vec<HeadElement>,
    /// Generate Tailwind CSS for the class names used.
    pub tailwind: bool,
    /// Return the body HTML alone, without the document around it.
    pub fragment: bool,
}

/// The default configuration: a minified document, no base directory, no head
/// elements, no Tailwind, not a fragment.
pub open spec fn is_default_config(c: RenderConfig) -> bool {
    &&& !c.pretty
    &&& c.base_dir is None
    &&& c.head_elements@.len() == 0
    &&& !c.tailwind
    &&& !c.fragment
}

impl Default for RenderConfig {
    fn default() -> (r: RenderConfig)
        ensures
            is_default_config(r),
    {
        RenderConfig { pretty: false, base_dir: None, head_elements: Vec::new(), tailwind: false, fragment: false }
    }
}

/// The head elements of the models of `v`.
pub open spec fn head_elements_view(v: Seq<HeadElement>) -> Seq<HeadElementView> {
    v.map_values(|e: HeadElement| e@)
}

/// `Path::parent` of a path, as text, where the path has a parent.
pub uninterp spec fn std_path_parent(path: Seq<char>) -> Option<Seq<char>>;

/// Calls `std::path::Path::parent` on `path` and gives the parent as text. The
/// contract claims only that the result is a function of the path: the parent is
/// found from the path's text alone (its last component is dropped), without the
/// file system. A parent of a UTF-8 path is UTF-8, so the lossy conversion loses nothing.
#[verifier::external_body]
fn path_parent(path: &str) -> (r: Option<String>)
    ensures
        match r {
            Some(p) => std_path_parent(path@) == Some(p@),
            None => std_path_parent(path@) is None,
        },
{
    match std::path::Path::new(path).parent() {
        Some(q) => Some(q.to_string_lossy().into_owned()),
        None => None,
    }
}

/// The directory that a file's imports are resolved against: its parent, or `.`.
pub open spec fn base_dir_of(file: Seq<char>) -> Seq<char> {
    match std_path_parent(file) {
        Some(p) => p,
        None => "."@,
    }
}

/// The directory that a file's imports are resolved against: its parent, or `.`.
pub fn file_base_dir(file: &str) -> (r: String)
    ensures
        r@ == base_dir_of(file@),
{
    match path_parent(file) {
        Some(p) => p,
        None => String::from_str("."),
    }
}

/// A copy of a head element.
pub fn copy_head_element(e: &HeadElement) -> (r: HeadElement)
    ensures
        r@ == e@,
{
    match e {
        HeadElement::Title(t) => HeadElement::Title(crate::text::copy_string(t)),
        HeadElement::Meta { name, content } => HeadElement::Meta {
            name: crate::text::copy_string(name),
            content: crate::text::copy_string(content),
        },
        HeadElement::Link { rel, href } => HeadElement::Link {
            rel: crate::text::copy_string(rel),
            href: crate::text::copy_string(href),
        },
        HeadElement::Style(c) => HeadElement::Style(crate::text::copy_string(c)),
        HeadElement::Script(j) => HeadElement::Script(crate::text::copy_string(j)),
    }
}

/// `r` is `config` for rendering `file` on its own: as a fragment, with imports
/// resolved against the file's directory, and everything else as `config` has it.
pub open spec fn is_file_config(r: RenderConfig, config: RenderConfig, file: Seq<char>) -> bool {
    &&& r.fragment
    &&& r.base_dir matches Some(d) && d@ == base_dir_of(file)
    &&& r.pretty == config.pretty
    &&& r.tailwind == config.tailwind
    &&& head_elements_view(r.head_elements@) == head_elements_view(config.head_elements@)
}

/// `config` for rendering `file` on its own: as a fragment, with imports resolved
/// against the file's directory.
pub fn file_config(config: &RenderConfig, file: &str) -> (r: RenderConfig)
    ensures
        is_file_config(r, *config, file@),
{
    let mut head_elements: Vec<HeadElement> = Vec::new();
    let mut i: usize = 0;
    while i < config.head_elements.len()
        invariant
            i <= config.head_elements.len(),
            head_elements@.len() == i,
            forall|j: int| 0 <= j < i ==> #[trigger] head_elements@[j]@ == config.head_elements@[j]@,
        decreases config.head_elements.len() - i,
    {
        head_elements.push(copy_head_element(&config.head_elements[i]));
        i = i + 1;
    }
    assert(head_elements_view(head_elements@) =~= head_elements_view(config.head_elements@));
    RenderConfig {
        pretty: config.pretty,
        base_dir: Some(file_base_dir(file)),
        head_elements,
        tailwind: config.tailwind,
        fragment: true,
    }
}

} // verus!
