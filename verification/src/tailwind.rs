//! Tailwind CSS for the class names that a page uses, generated by `encre_css`.
use vstd::prelude::*;
use crate::attributes::join;
use crate::head::strings_view;
use crate::text::{is_blank, push_str, string_from, trim};

verus! {

broadcast use vstd::string::group_string_axioms;

/// What `encre_css::generate` returns for the one source `source` under the default
/// configuration.
pub uninterp spec fn encre_css_generate(source: Seq<char>) -> Seq<char>;

/// Calls `encre_css::generate` with `source` as the only source and
/// `encre_css::Config::default()`. The contract claims only that the result is a
/// function of `source`: the generator has no other input (it scans the source and
/// collects the selectors in a `BTreeSet`).
#[verifier::external_body]
fn encre_generate(source: &str) -> (r: String)
    ensures
        r@ == encre_css_generate(source@),
{
    encre_css::generate([source], &encre_css::Config::default())
}

/// One class attribute in an empty `div`.
pub open spec fn class_div(c: Seq<char>) -> Seq<char> {
    "<div class=\""@ + c + "\"></div>"@
}

/// The HTML scanned for classes: one `div` per class name, on lines of their own.
pub open spec fn class_source(classes: Seq<Seq<char>>) -> Seq<char> {
    join(classes.map_values(|c: Seq<char>| class_div(c)), "\n"@)
}

/// Generated CSS, or nothing where it is only whitespace.
pub open spec fn css_or_empty_spec(css: Seq<char>) -> Seq<char> {
    if trim(css).len() == 0 {
        Seq::empty()
    } else {
        css
    }
}

/// The CSS for `classes`: nothing for no classes, else the generated CSS unless it is blank.
pub open spec fn generated_css(classes: Seq<Seq<char>>) -> Seq<char> {
    if classes.len() == 0 {
        Seq::empty()
    } else {
        css_or_empty_spec(encre_css_generate(class_source(classes)))
    }
}

/// The HTML that the generator scans for `class_names`.
pub fn class_source_html(class_names: &Vec<String>) -> (r: String)
    ensures
        r@ == class_source(strings_view(class_names@)),
{
    let ghost divs = strings_view(class_names@).map_values(|c: Seq<char>| class_div(c));
    let mut out = String::new();
    let mut i: usize = 0;
    while i < class_names.len()
        invariant
            i <= class_names.len(),
            divs.len() == class_names.len(),
            divs == strings_view(class_names@).map_values(|c: Seq<char>| class_div(c)),
            out@ == join(divs.take(i as int), "\n"@),
        decreases class_names.len() - i,
    {
        let ghost before = out@;
        if i > 0 {
            push_str(&mut out, "\n");
        }
        push_str(&mut out, "<div class=\"");
        push_str(&mut out, class_names[i].as_str());
        push_str(&mut out, "\"></div>");
        proof {
            assert(divs[i as int] == class_div(class_names@[i as int]@));
            assert(divs.take(i + 1).drop_last() =~= divs.take(i as int));
            if i == 0 {
                assert(out@ =~= divs.take(1)[0]);
            } else {
                assert(out@ =~= join(divs.take(i as int), "\n"@) + "\n"@ + divs[i as int]);
            }
        }
        i = i + 1;
    }
    assert(divs.take(class_names.len() as int) =~= divs);
    out
}

/// The generated CSS, or an empty string where it holds only whitespace.
pub fn css_or_empty(css: String) -> (r: String)
    ensures
        r@ == css_or_empty_spec(css@),
{
    if is_blank(css.as_str()) {
        String::new()
    } else {
        css
    }
}

/// Tailwind CSS for `class_names`; empty where there are none or nothing is generated.
pub fn generate_css(class_names: &Vec<String>) -> (r: String)
    ensures
        r@ == generated_css(strings_view(class_names@)),
{
    if class_names.len() == 0 {
        return String::new();
    }
    let html = class_source_html(class_names);
    let css = encre_generate(html.as_str());
    css_or_empty(css)
}

/// The head element that holds the generated CSS.
pub fn style_element(css: &str) -> (r: String)
    ensures
        r@ == "<style>"@ + css@ + "</style>"@,
{
    let mut s = string_from("<style>");
    push_str(&mut s, css);
    push_str(&mut s, "</style>");
    s
}

} // verus!
