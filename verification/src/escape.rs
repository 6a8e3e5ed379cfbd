//! HTML escaping of text content and attribute values.
use vstd::prelude::*;
use crate::text::{chars_of, push_char, push_str};

verus! {

broadcast use vstd::string::group_string_axioms;

/// The escaped form of one character of text content.
pub open spec fn escape_html_char(c: char) -> Seq<char> {
    if c == '&' {
        seq!['&', 'a', 'm', 'p', ';']
    } else if c == '<' {
        seq!['&', 'l', 't', ';']
    } else if c == '>' {
        seq!['&', 'g', 't', ';']
    } else {
        seq![c]
    }
}

/// The escaped form of one character of an attribute value.
pub open spec fn escape_attr_char(c: char) -> Seq<char> {
    if c == '"' {
        seq!['&', 'q', 'u', 'o', 't', ';']
    } else {
        escape_html_char(c)
    }
}

/// Text content with `&`, `<` and `>` replaced by character references.
pub open spec fn escape_html_spec(s: Seq<char>) -> Seq<char>
    decreases s.len(),
{
    if s.len() == 0 {
        Seq::empty()
    } else {
        escape_html_spec(s.drop_last()) + escape_html_char(s.last())
    }
}

/// An attribute value with `&`, `"`, `<` and `>` replaced by character references.
pub open spec fn escape_attr_spec(s: Seq<char>) -> Seq<char>
    decreases s.len(),
{
    if s.len() == 0 {
        Seq::empty()
    } else {
        escape_attr_spec(s.drop_last()) + escape_attr_char(s.last())
    }
}

fn push_escaped(out: &mut String, c: char, attr: bool)
    ensures
        final(out)@ == old(out)@ + (if attr { escape_attr_char(c) } else { escape_html_char(c) }),
{
    if c == '&' {
        push_str(out, "&amp;");
        proof { reveal_strlit("&amp;"); }
    } else if c == '<' {
        push_str(out, "&lt;");
        proof { reveal_strlit("&lt;"); }
    } else if c == '>' {
        push_str(out, "&gt;");
        proof { reveal_strlit("&gt;"); }
    } else if attr && c == '"' {
        push_str(out, "&quot;");
        proof { reveal_strlit("&quot;"); }
    } else {
        push_char(out, c);
    }
    assert(final(out)@ =~= old(out)@ + (if attr { escape_attr_char(c) } else { escape_html_char(c) }));
}

fn escape_impl(s: &str, attr: bool) -> (r: String)
    ensures
        r@ == (if attr { escape_attr_spec(s@) } else { escape_html_spec(s@) }),
{
    let v = chars_of(s);
    let mut out = String::new();
    let mut i: usize = 0;
    while i < v.len()
        invariant
            v@ == s@,
            i <= v.len(),
            out@ == (if attr { escape_attr_spec(v@.take(i as int)) } else { escape_html_spec(
                v@.take(i as int),
            ) }),
        decreases v.len() - i,
    {
        assert(v@.take(i + 1).drop_last() =~= v@.take(i as int));
        push_escaped(&mut out, v[i], attr);
        i = i + 1;
    }
    assert(v@.take(v.len() as int) =~= v@);
    out
}

/// Escapes text content for HTML.
pub fn escape_html(s: &str) -> (r: String)
    ensures
        r@ == escape_html_spec(s@),
{
    escape_impl(s, false)
}

/// Escapes an attribute value for a double-quoted HTML attribute.
pub fn escape_attr(s: &str) -> (r: String)
    ensures
        r@ == escape_attr_spec(s@),
{
    escape_impl(s, true)
}

/// Escaped text content holds no `<` and no `>`: no markup can be injected through it.
pub proof fn escaped_html_has_no_markup(s: Seq<char>)
    ensures
        forall|i: int| 0 <= i < escape_html_spec(s).len() ==> escape_html_spec(s)[i] != '<'
            && escape_html_spec(s)[i] != '>',
    decreases s.len(),
{
    if s.len() > 0 {
        escaped_html_has_no_markup(s.drop_last());
        let a = escape_html_spec(s.drop_last());
        let b = escape_html_char(s.last());
        assert forall|i: int| 0 <= i < (a + b).len() implies (a + b)[i] != '<' && (a + b)[i] != '>' by {
            if i >= a.len() {
                assert((a + b)[i] == b[i - a.len()]);
            }
        }
    }
}

/// An escaped attribute value holds no `"`, `<` or `>`: it cannot end the attribute or the tag.
pub proof fn escaped_attr_cannot_break_out(s: Seq<char>)
    ensures
        forall|i: int| 0 <= i < escape_attr_spec(s).len() ==> escape_attr_spec(s)[i] != '"'
            && escape_attr_spec(s)[i] != '<' && escape_attr_spec(s)[i] != '>',
    decreases s.len(),
{
    if s.len() > 0 {
        escaped_attr_cannot_break_out(s.drop_last());
        let a = escape_attr_spec(s.drop_last());
        let b = escape_attr_char(s.last());
        assert forall|i: int| 0 <= i < (a + b).len() implies (a + b)[i] != '"' && (a + b)[i] != '<' && (a + b)[i] != '>' by {
            if i >= a.len() {
                assert((a + b)[i] == b[i - a.len()]);
            }
        }
    }
}

/// Text without `&`, `<` and `>` is left unchanged by escaping.
pub proof fn escape_html_keeps_plain_text(s: Seq<char>)
    requires
        forall|i: int| 0 <= i < s.len() ==> s[i] != '&' && s[i] != '<' && s[i] != '>',
    ensures
        escape_html_spec(s) == s,
    decreases s.len(),
{
    if s.len() > 0 {
        escape_html_keeps_plain_text(s.drop_last());
        assert(s.drop_last() + seq![s.last()] =~= s);
    }
}

} // verus!
