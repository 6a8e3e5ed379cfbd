//! The HTML document around the rendered head and body.
use vstd::prelude::*;
use crate::text::{split_newlines, split_lines, lines_view, lemma_split_nonempty, push_str, push_chars, string_from, chars_of};

verus! {

broadcast use vstd::string::group_string_axioms;

/// A line without the `\r` of a `\r\n` ending.
pub open spec fn strip_cr(l: Seq<char>) -> Seq<char> {
    if l.len() > 0 && l.last() == '\r' {
        l.drop_last()
    } else {
        l
    }
}

/// `str::lines`: the pieces between line feeds, each that a line feed ends without
/// the `\r` before it; a final line feed ends the last line and starts none.
pub open spec fn str_lines(s: Seq<char>) -> Seq<Seq<char>> {
    let p = split_newlines(s);
    let k = if s.len() == 0 || s.last() == '\n' { p.len() - 1 } else { p.len() as int };
    Seq::new(k as nat, |i: int| if i < p.len() - 1 { strip_cr(p[i]) } else { p[i] })
}

/// Each of `lines[..k]` indented by four spaces and ended by a line feed.
pub open spec fn indented(lines: Seq<Seq<char>>, k: int) -> Seq<char>
    decreases k,
{
    if k <= 0 {
        Seq::empty()
    } else {
        indented(lines, k - 1) + "    "@ + lines[k - 1] + "\n"@
    }
}

/// The document on one line.
pub open spec fn minified_document(head: Seq<char>, body: Seq<char>) -> Seq<char> {
    "<!DOCTYPE html><html><head>"@ + head + "</head><body>"@ + body + "</body></html>"@
}

/// The document with each head line and the body on a line of its own, indented.
pub open spec fn pretty_document(head: Seq<char>, body: Seq<char>) -> Seq<char> {
    let lines = str_lines(head);
    "<!DOCTYPE html>\n<html>\n  <head>\n"@ + indented(lines, lines.len() as int) + "  </head>\n  <body>\n    "@
        + body + "\n  </body>\n</html>"@
}

pub open spec fn document(head: Seq<char>, body: Seq<char>, pretty: bool) -> Seq<char> {
    if pretty {
        pretty_document(head, body)
    } else {
        minified_document(head, body)
    }
}

/// Assembles a full HTML document from the head elements and the body content.
pub fn build_document(head_html: &str, body_html: &str, pretty: bool) -> (r: String)
    ensures
        r@ == document(head_html@, body_html@, pretty),
{
    if pretty {
        build_pretty(head_html, body_html)
    } else {
        build_minified(head_html, body_html)
    }
}

/// The document on one line.
pub fn build_minified(head_html: &str, body_html: &str) -> (r: String)
    ensures
        r@ == minified_document(head_html@, body_html@),
{
    let mut out = string_from("<!DOCTYPE html><html><head>");
    push_str(&mut out, head_html);
    push_str(&mut out, "</head><body>");
    push_str(&mut out, body_html);
    push_str(&mut out, "</body></html>");
    out
}

/// The document with indentation.
pub fn build_pretty(head_html: &str, body_html: &str) -> (r: String)
    ensures
        r@ == pretty_document(head_html@, body_html@),
{
    let ghost lines = str_lines(head_html@);
    let mut out = string_from("<!DOCTYPE html>\n<html>\n  <head>\n");
    let ghost start = out@;
    let v = chars_of(head_html);
    let pieces = split_lines(&v);
    proof { lemma_split_nonempty(v@); }
    let n = pieces.len();
    let k = if v.len() == 0 || v[v.len() - 1] == '\n' { n - 1 } else { n };
    assert(lines.len() == k);
    let mut j: usize = 0;
    assert(out@ =~= start + indented(lines, 0));
    while j < k
        invariant
            n == pieces.len(),
            n >= 1,
            k <= n,
            lines.len() == k,
            lines_view(pieces@) == split_newlines(head_html@),
            lines == str_lines(head_html@),
            j <= k,
            out@ == start + indented(lines, j as int),
        decreases k - j,
    {
        let l = &pieces[j];
        assert(lines_view(pieces@)[j as int] == l@);
        let hi = if j + 1 < n && l.len() > 0 && l[l.len() - 1] == '\r' { l.len() - 1 } else { l.len() };
        let ghost before = out@;
        push_str(&mut out, "    ");
        push_chars(&mut out, l, 0, hi);
        push_str(&mut out, "\n");
        proof {
            assert(l@.subrange(0, hi as int) == lines[j as int]) by {
                if j + 1 < n && l.len() > 0 && l@.last() == '\r' {
                    assert(l@.subrange(0, hi as int) =~= l@.drop_last());
                } else {
                    assert(l@.subrange(0, hi as int) =~= l@);
                }
            }
            assert(out@ =~= start + indented(lines, j + 1));
        }
        j = j + 1;
    }
    push_str(&mut out, "  </head>\n  <body>\n    ");
    push_str(&mut out, body_html);
    push_str(&mut out, "\n  </body>\n</html>");
    proof {
        assert(out@ =~= pretty_document(head_html@, body_html@));
    }
    out
}

/// A document, pretty or not, holds the body as it was given, between `<body>` and
/// `</body>`: what comes before it ends with `<body>` and what follows it starts with
/// `</body>`.
pub proof fn document_holds_body(head: Seq<char>, body: Seq<char>, pretty: bool)
    ensures
        exists|pre: Seq<char>, post: Seq<char>|
            #![trigger pre + body + post]
            document(head, body, pretty) == pre + body + post
            && crate::text::ends_with(pre, if pretty { "<body>\n    "@ } else { "<body>"@ })
            && crate::text::starts_with(post, if pretty { "\n  </body>"@ } else { "</body>"@ }),
{
    if pretty {
        let lines = str_lines(head);
        let pre = "<!DOCTYPE html>\n<html>\n  <head>\n"@ + indented(lines, lines.len() as int) + "  </head>\n  <body>\n    "@;
        let post = "\n  </body>\n</html>"@;
        assert(document(head, body, pretty) =~= pre + body + post);
        reveal_strlit("  </head>\n  <body>\n    ");
        reveal_strlit("<body>\n    ");
        reveal_strlit("\n  </body>\n</html>");
        reveal_strlit("\n  </body>");
        assert(pre.skip(pre.len() - 11) =~= "<body>\n    "@);
        assert(post.take(10) =~= "\n  </body>"@);
    } else {
        let pre = "<!DOCTYPE html><html><head>"@ + head + "</head><body>"@;
        let post = "</body></html>"@;
        assert(document(head, body, pretty) =~= pre + body + post);
        reveal_strlit("</head><body>");
        reveal_strlit("<body>");
        reveal_strlit("</body></html>");
        reveal_strlit("</body>");
        assert(pre.skip(pre.len() - 6) =~= "<body>"@);
        assert(post.take(7) =~= "</body>"@);
    }
}

} // verus!
