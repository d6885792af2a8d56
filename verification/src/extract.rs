//! The extractor: locating the abstract element in a fetched document.
//!
//! The extractor parses the document, finds the first element in document
//! order that carries the `abstract` marker class, and returns the text of
//! its descendant text nodes joined with single spaces. The HTML parsing
//! and the structural query are done by the `scraper` crate behind one
//! trusted wrapper; the join and everything after it is verified.

use vstd::prelude::*;
use crate::errors::GistError;
use crate::strutil::chars_of;
use crate::strutil::string_of_chars;
use crate::text::join_words;
use crate::text::normalized;

verus! {

/// Whether the structural query text parses as a CSS selector. A function
/// of the query text alone.
pub uninterp spec fn selector_ok(css: Seq<char>) -> bool;

/// The text parts of the descendant text nodes, in document order, of the
/// first element of `html` that the selector `css` matches; `None` where no
/// element matches. A function of the two texts alone.
pub uninterp spec fn class_match_texts(html: Seq<char>, css: Seq<char>) -> Option<Seq<Seq<char>>>;

/// What one structural query returned.
enum Selection {
    /// The query text did not parse; carries the parser's diagnostic.
    BadSelector(String),
    /// No element matches the query.
    NoMatch,
    /// The text parts of the first matching element, in document order.
    Matched(Vec<String>),
}

/// Relies on the `scraper` crate: `Selector::parse` to parse the query
/// text, `Html::parse_document` to parse the document, `Html::select` for
/// the elements matching the query in document order, and
/// `ElementRef::text` for the descendant text nodes of the first of them.
/// Each computes from its arguments alone; `selector_ok` names whether the
/// query parses, `class_match_texts` what the first match holds.
#[verifier::external_body]
fn select_first_texts(html: &str, css: &str) -> (r: Selection)
    ensures
        (r is BadSelector) == !selector_ok(css@),
        selector_ok(css@) ==> ((r is NoMatch) == (class_match_texts(html@, css@) is None)),
        r matches Selection::Matched(parts) ==> class_match_texts(html@, css@) == Some(
            parts.deep_view(),
        ),
{
    let sel = match scraper::Selector::parse(css) {
        Ok(s) => s,
        Err(e) => return Selection::BadSelector(e.to_string()),
    };
    let doc = scraper::Html::parse_document(html);
    match doc.select(&sel).next() {
        None => Selection::NoMatch,
        Some(el) => Selection::Matched(el.text().map(|t| t.to_string()).collect()),
    }
}

/// The structural query the extractor issues, as text.
pub open spec fn abstract_query() -> Seq<char> {
    ".abstract"@
}

/// The diagnostic reported when the structural query does not parse.
pub open spec fn selector_failure_note() -> Seq<char> {
    "Failed to parse HTML selector"@
}

/// The parts joined with a single space between neighbours.
fn join_with_spaces(parts: &Vec<String>) -> (r: String)
    ensures
        r@ == join_words(parts.deep_view()),
{
    let dvlen: usize = parts.len();
    let mut out: Vec<char> = Vec::new();
    let mut i: usize = 0;
    while i < dvlen
        invariant
            dvlen == parts.len(),
            parts.deep_view().len() == dvlen,
            i <= dvlen,
            out@ == join_words(parts.deep_view().take(i as int)),
        decreases dvlen - i,
    {
        proof {
            assert(parts.deep_view().take(i + 1).drop_last() =~= parts.deep_view().take(i as int));
            assert(parts.deep_view().take(i + 1).last() == parts.deep_view()[i as int]);
        }
        if i > 0 {
            out.push(' ');
        }
        let ghost base = out@;
        let cs = chars_of(parts[i].as_str());
        proof {
            assert(cs@ == parts.deep_view()[i as int]);
        }
        let mut k: usize = 0;
        while k < cs.len()
            invariant
                k <= cs.len(),
                out@ == base + cs@.take(k as int),
            decreases cs.len() - k,
        {
            out.push(cs[k]);
            proof {
                assert(base + cs@.take(k + 1) =~= (base + cs@.take(k as int)).push(cs@[k as int]));
            }
            k = k + 1;
        }
        proof {
            assert(cs@.take(cs@.len() as int) =~= cs@);
            let dv = parts.deep_view();
            if i == 0 {
                assert(join_words(dv.take(1)) == dv.take(1)[0]);
                assert(out@ =~= join_words(dv.take(i + 1)));
            } else {
                assert(join_words(dv.take(i + 1))
                    == join_words(dv.take(i as int)) + seq![' '] + dv[i as int]);
                assert(out@ =~= join_words(dv.take(i + 1)));
            }
        }
        i = i + 1;
    }
    proof {
        assert(parts.deep_view().take(dvlen as int) =~= parts.deep_view());
    }
    string_of_chars(&out)
}

/// Extraction: the text of the first element of `html` carrying the
/// `abstract` marker class, its parts joined with single spaces, raw and
/// not yet normalized. Fails with `AbstractNotFound` where no element
/// carries the class, and with `ParseError` where the fixed structural
/// query itself does not parse.
pub fn extract_abstract(html: &str) -> (r: Result<String, GistError>)
    ensures
        !selector_ok(abstract_query()) ==> (r matches Err(e) && e matches GistError::ParseError(m)
            && m@ == selector_failure_note()),
        selector_ok(abstract_query()) && class_match_texts(html@, abstract_query()) is None ==> (
        r matches Err(e) && e is AbstractNotFound),
        selector_ok(abstract_query()) && class_match_texts(html@, abstract_query()) is Some ==> (
        r matches Ok(t) && t@ == join_words(class_match_texts(html@, abstract_query())->Some_0)),
{
    match select_first_texts(html, ".abstract") {
        Selection::BadSelector(_) => Err(
            GistError::ParseError("Failed to parse HTML selector".to_owned()),
        ),
        Selection::NoMatch => Err(GistError::AbstractNotFound),
        Selection::Matched(parts) => Ok(join_with_spaces(&parts)),
    }
}

/// The compute part of one fetch: extract the abstract of the fetched
/// document, then normalize it. What comes back is the normalized abstract
/// text, or the extraction failure.
pub fn process_document(html: &str) -> (r: Result<String, GistError>)
    ensures
        !selector_ok(abstract_query()) ==> (r matches Err(e) && e matches GistError::ParseError(m)
            && m@ == selector_failure_note()),
        selector_ok(abstract_query()) && class_match_texts(html@, abstract_query()) is None ==> (
        r matches Err(e) && e is AbstractNotFound),
        selector_ok(abstract_query()) && class_match_texts(html@, abstract_query()) is Some ==> (
        r matches Ok(t) && t@ == normalized(join_words(class_match_texts(html@, abstract_query())->Some_0))),
{
    match extract_abstract(html) {
        Ok(raw) => Ok(crate::text::normalize(raw.as_str())),
        Err(e) => Err(e),
    }
}

} // verus!
