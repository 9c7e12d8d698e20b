//! Reading the search API's JSON response body.
//!
//! The body is parsed with `serde_json`; only the path `query.search` is
//! consulted, and of each of its elements only the string field `title`.
use vstd::prelude::*;

verus! {

/// Whether `s` is a JSON text that the parser accepts.
pub uninterp spec fn json_well_formed(s: Seq<char>) -> bool;

/// What stands under `query.search` of the parsed body: `None` when that
/// path is missing or not an array; else one entry per element of the
/// array, in order — the element's `title` text, or `None` where it
/// carries no string `title`.
pub uninterp spec fn search_titles_of(body: Seq<char>) -> Option<Seq<Option<Seq<char>>>>;

#[verifier::external_type_specification]
#[verifier::external_body]
pub struct ExJsonError(serde_json::Error);

/// A response body that the parser rejected, with its description of why.
#[derive(Debug)]
pub struct ParseError {
    pub detail: String,
}

/// Relies on `serde_json::from_str::<serde_json::Value>`, which accepts
/// exactly well-formed JSON text, and on `Value::get`, `Value::as_array`
/// and `Value::as_str`, which read an object's member, an array's element
/// vector and a string's text; each depends on the text alone, so the
/// reading as a whole is a function of the body.
#[verifier::external_body]
fn read_search_titles(body: &str) -> (r: Result<Option<Vec<Option<String>>>, serde_json::Error>)
    ensures
        r is Ok <==> json_well_formed(body@),
        r matches Ok(s) ==> s.deep_view() == search_titles_of(body@),
{
    let parsed: serde_json::Value = match serde_json::from_str(body) {
        Ok(v) => v,
        Err(e) => return Err(e),
    };
    let items = parsed.get("query").and_then(|q| q.get("search")).and_then(|s| s.as_array());
    Ok(items.map(|elements| elements.iter().map(
        |element| element.get("title").and_then(|t| t.as_str()).map(str::to_owned),
    ).collect()))
}

/// Relies on `serde_json::Error`'s `Display` impl through `ToString`: a
/// one-line description of the parse failure.
#[verifier::external_body]
fn json_error_text(e: &serde_json::Error) -> String {
    e.to_string()
}

/// The titles that are present among the per-element readings: elements
/// without a string `title` left out, the rest kept in order.
pub open spec fn kept_titles(elements: Seq<Option<Seq<char>>>) -> Seq<Seq<char>>
    decreases elements.len(),
{
    if elements.len() == 0 {
        Seq::empty()
    } else {
        kept_titles(elements.drop_last()) + (match elements.last() {
            Option::Some(t) => seq![t],
            Option::None => Seq::empty(),
        })
    }
}

/// What the library extracts from a response body: `None` when the parsed
/// body has no sequence under `query.search`, else the titles of its
/// elements, in order, elements without a string `title` left out.
pub open spec fn extracted_titles(body: Seq<char>) -> Option<Seq<Seq<char>>> {
    match search_titles_of(body) {
        Option::None => Option::None,
        Option::Some(elements) => Option::Some(kept_titles(elements)),
    }
}

/// The search titles of the response body: `Err` exactly when the body is
/// not well-formed JSON, else exactly what `extracted_titles` names. An
/// element without a string `title` yields no title, rather than failing
/// the whole response.
pub fn extract_search_titles(body: &str) -> (r: Result<Option<Vec<String>>, ParseError>)
    ensures
        r is Ok <==> json_well_formed(body@),
        r matches Ok(s) ==> s.deep_view() == extracted_titles(body@),
{
    let elements = match read_search_titles(body) {
        Ok(v) => v,
        Err(e) => {
            let detail = json_error_text(&e);
            return Err(ParseError { detail });
        },
    };
    match elements {
        None => Ok(None),
        Some(items) => {
            let mut titles: Vec<String> = Vec::new();
            proof {
                assert(titles.deep_view() =~= kept_titles(items.deep_view().subrange(0, 0)));
            }
            let mut i: usize = 0;
            while i < items.len()
                invariant
                    i <= items@.len(),
                    titles.deep_view() == kept_titles(items.deep_view().subrange(0, i as int)),
                decreases items@.len() - i,
            {
                let entry = &items[i];
                match entry {
                    Some(t) => {
                        titles.push(t.clone());
                    },
                    None => (),
                }
                i = i + 1;
                proof {
                    let dv = items.deep_view().subrange(0, i as int);
                    assert(dv.drop_last() =~= items.deep_view().subrange(0, i - 1));
                    assert(dv.last() == items@[i - 1].deep_view());
                    assert(titles.deep_view() =~= kept_titles(dv));
                }
            }
            proof {
                assert(items.deep_view().subrange(0, items@.len() as int) =~= items.deep_view());
                assert(Some(titles).deep_view() == extracted_titles(body@));
            }
            Ok(Some(titles))
        },
    }
}

/// The whole formatting step on a raw response body: parse it, pull the
/// titles out, and build the output that `output_spec` describes for
/// exactly the extraction `extracted_titles` names. `Err` exactly when the
/// body is not well-formed JSON.
pub fn format_response(body: &str, json_mode: bool, query: &str) -> (r: Result<String, ParseError>)
    ensures
        r is Ok <==> json_well_formed(body@),
        r matches Ok(out) ==> out@ == crate::render::output_spec(
            query@,
            extracted_titles(body@),
            json_mode,
        ),
{
    let search = match extract_search_titles(body) {
        Ok(s) => s,
        Err(e) => {
            return Err(e);
        },
    };
    let out = crate::render::render_output(query, &search, json_mode);
    proof {
        assert(search.deep_view() == extracted_titles(body@));
    }
    Ok(out)
}

} // verus!
