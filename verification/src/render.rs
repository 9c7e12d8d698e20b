//! Building the program's output from the extracted search titles.
use vstd::prelude::*;
use crate::escape::is_json_string_literal;
use crate::escape::quoted;
use crate::urls::article_url_spec;

verus! {

/// One search result: the title as the API returned it, and the article URL
/// derived from it.
pub struct SearchResult {
    pub title: String,
    pub url: String,
}

impl SearchResult {
    /// The URL field is exactly the one derived from the title field.
    pub open spec fn well_formed(&self) -> bool {
        self.url@ == article_url_spec(self.title@)
    }
}

/// The titles of a sequence of results.
pub open spec fn titles_of(rs: Seq<SearchResult>) -> Seq<Seq<char>> {
    rs.map_values(|r: SearchResult| r.title@)
}

/// One result per title, in order, each carrying its derived URL.
pub fn build_results(titles: &Vec<String>) -> (rs: Vec<SearchResult>)
    ensures
        rs@.len() == titles@.len(),
        forall|i: int| 0 <= i < rs@.len() ==> (#[trigger] rs@[i]).title@ == titles@[i]@,
        forall|i: int| 0 <= i < rs@.len() ==> (#[trigger] rs@[i]).well_formed(),
{
    let mut rs: Vec<SearchResult> = Vec::new();
    let mut i: usize = 0;
    while i < titles.len()
        invariant
            i <= titles@.len(),
            rs@.len() == i,
            forall|j: int| 0 <= j < i ==> (#[trigger] rs@[j]).title@ == titles@[j]@,
            forall|j: int| 0 <= j < i ==> (#[trigger] rs@[j]).well_formed(),
        decreases titles@.len() - i,
    {
        let title = titles[i].clone();
        let url = crate::urls::article_url(title.as_str());
        rs.push(SearchResult { title, url });
        i = i + 1;
    }
    rs
}

/// The line of the JSON array that shows one result: an indented object
/// whose only keys are `title` and `url`.
pub open spec fn json_item(title: Seq<char>) -> Seq<char> {
    "  {\"title\":"@ + quoted(title) + ",\"url\":"@ + quoted(article_url_spec(title)) + "}"@
}

/// The item lines of the JSON array, one per title, in order, separated by
/// a comma and a line break.
pub open spec fn json_items(titles: Seq<Seq<char>>) -> Seq<char>
    decreases titles.len(),
{
    if titles.len() == 0 {
        Seq::empty()
    } else if titles.len() == 1 {
        json_item(titles[0])
    } else {
        json_items(titles.drop_last()) + ",\n"@ + json_item(titles.last())
    }
}

/// The whole JSON-mode output: a bracketed array with one object per title,
/// in order; `[]` when there are no titles.
pub open spec fn json_output(titles: Seq<Seq<char>>) -> Seq<char> {
    if titles.len() == 0 {
        "[]"@
    } else {
        "[\n"@ + json_items(titles) + "\n]"@
    }
}

/// How many characters one result object takes at the head of `s`: exactly
/// the form `{"title":` string literal `,"url":` string literal `}`; `None`
/// where none stands there.
pub open spec fn result_object_extent(s: Seq<char>) -> Option<nat> {
    if s.len() >= 9 && s.subrange(0, 9) == "{\"title\":"@ {
        match crate::escape::literal_extent(s.skip(9)) {
            Option::Some(k) => if 9 + k + 7 <= s.len() && s.subrange(
                9 + k as int,
                9 + k as int + 7,
            ) == ",\"url\":"@ {
                match crate::escape::literal_extent(s.skip(9 + k as int + 7)) {
                    Option::Some(m) => if 9 + k + 7 + m < s.len() && s[9 + k as int + 7
                        + m as int] == '}' {
                        Option::Some((9 + k + 7 + m + 1) as nat)
                    } else {
                        Option::None
                    },
                    Option::None => Option::None,
                }
            } else {
                Option::None
            },
            Option::None => Option::None,
        }
    } else {
        Option::None
    }
}

/// How many result objects stand in `s` when it reads, from the left, as
/// the lines of the output array: each object indented by two spaces,
/// consecutive lines separated by a comma and a line break; `None` where
/// `s` does not read so.
pub open spec fn result_items_count(s: Seq<char>) -> Option<nat>
    decreases s.len(),
{
    if s.len() >= 2 && s.subrange(0, 2) == "  "@ {
        match result_object_extent(s.skip(2)) {
            Option::Some(k) => if 2 + k <= s.len() {
                if 2 + k == s.len() {
                    Option::Some(1)
                } else if 2 + k + 2 <= s.len() && s.subrange(2 + k as int, 2 + k as int + 2)
                    == ",\n"@ {
                    match result_items_count(s.skip(2 + k as int + 2)) {
                        Option::Some(m) => Option::Some(m + 1),
                        Option::None => Option::None,
                    }
                } else {
                    Option::None
                }
            } else {
                Option::None
            },
            Option::None => Option::None,
        }
    } else {
        Option::None
    }
}

/// Whether `s` parses, from the left, as the JSON-mode output, and then
/// with how many result objects: the empty array, or brackets on their own
/// lines around comma-separated, indented result objects.
pub open spec fn output_object_count(s: Seq<char>) -> Option<nat> {
    if s == "[]"@ {
        Option::Some(0)
    } else if s.len() >= 4 && s.subrange(0, 2) == "[\n"@ && s.subrange(s.len() - 2, s.len() as int)
        == "\n]"@ {
        result_items_count(s.subrange(2, s.len() - 2))
    } else {
        Option::None
    }
}

proof fn lemma_object_parse(title: Seq<char>, rest: Seq<char>)
    ensures
        ({
            let obj = "{\"title\":"@ + quoted(title) + ",\"url\":"@ + quoted(
                article_url_spec(title),
            ) + "}"@;
            result_object_extent(obj + rest) == Some(obj.len())
        }),
{
    reveal_strlit("{\"title\":");
    reveal_strlit(",\"url\":");
    reveal_strlit("}");
    let t = quoted(title);
    let u = quoted(article_url_spec(title));
    let obj = "{\"title\":"@ + t + ",\"url\":"@ + u + "}"@;
    let s = obj + rest;
    assert("{\"title\":"@.len() == 9);
    assert(",\"url\":"@.len() == 7);
    assert("}"@.len() == 1);
    assert(s.subrange(0, 9) =~= "{\"title\":"@);
    assert(s.skip(9) =~= t + (",\"url\":"@ + (u + ("}"@ + rest))));
    crate::escape::lemma_literal_extent_prefix(title, ",\"url\":"@ + (u + ("}"@ + rest)));
    let k = t.len() as int;
    assert(s.subrange(9 + k, 9 + k + 7) =~= ",\"url\":"@);
    assert(s.skip(9 + k + 7) =~= u + ("}"@ + rest));
    crate::escape::lemma_literal_extent_prefix(article_url_spec(title), "}"@ + rest);
    let m = u.len() as int;
    assert(s[9 + k + 7 + m] == '}');
    assert(obj.len() == 9 + k + 7 + m + 1);
}

proof fn lemma_json_items_first(titles: Seq<Seq<char>>)
    requires
        titles.len() >= 2,
    ensures
        json_items(titles) == json_item(titles[0]) + ",\n"@ + json_items(titles.drop_first()),
    decreases titles.len(),
{
    if titles.len() == 2 {
        assert(titles.drop_last() =~= seq![titles[0]]);
        assert(titles.drop_first() =~= seq![titles[1]]);
        assert(json_items(seq![titles[0]]) == json_item(titles[0]));
        assert(json_items(seq![titles[1]]) == json_item(titles[1]));
        assert(json_items(titles) =~= json_item(titles[0]) + ",\n"@ + json_items(
            titles.drop_first(),
        ));
    } else {
        lemma_json_items_first(titles.drop_last());
        assert(titles.drop_last().drop_first() =~= titles.drop_first().drop_last());
        assert(titles.drop_first().last() == titles.last());
        assert(titles.drop_last()[0] == titles[0]);
        assert(titles.drop_first().len() >= 2);
        assert(json_items(titles.drop_first()) == json_items(titles.drop_first().drop_last())
            + ",\n"@ + json_item(titles.drop_first().last()));
        assert(json_items(titles) =~= json_item(titles[0]) + ",\n"@ + json_items(
            titles.drop_first(),
        ));
    }
}

proof fn lemma_items_parse(titles: Seq<Seq<char>>)
    requires
        titles.len() >= 1,
    ensures
        result_items_count(json_items(titles)) == Some(titles.len()),
    decreases titles.len(),
{
    reveal_strlit("  {\"title\":");
    reveal_strlit("{\"title\":");
    reveal_strlit("  ");
    reveal_strlit(",\n");
    let t0 = titles[0];
    let obj = "{\"title\":"@ + quoted(t0) + ",\"url\":"@ + quoted(article_url_spec(t0)) + "}"@;
    assert("  {\"title\":"@ =~= "  "@ + "{\"title\":"@);
    assert(json_item(t0) =~= "  "@ + obj);
    if titles.len() == 1 {
        let s = json_items(titles);
        assert(s == json_item(t0));
        lemma_object_parse(t0, Seq::<char>::empty());
        assert(s.subrange(0, 2) =~= "  "@);
        assert(s.skip(2) =~= obj + Seq::<char>::empty());
        assert(2 + obj.len() == s.len());
        assert(result_items_count(s) == Some(1nat));
    } else {
        lemma_json_items_first(titles);
        let s = json_items(titles);
        let tail = json_items(titles.drop_first());
        assert(s == json_item(t0) + ",\n"@ + tail);
        lemma_object_parse(t0, ",\n"@ + tail);
        assert(s.subrange(0, 2) =~= "  "@);
        assert(s.skip(2) =~= obj + (",\n"@ + tail));
        let k = obj.len() as int;
        assert(2 + k + 2 <= s.len());
        assert(s.subrange(2 + k, 2 + k + 2) =~= ",\n"@);
        assert(s.skip(2 + k + 2) =~= tail);
        lemma_items_parse(titles.drop_first());
        assert(result_items_count(s) == Some(titles.len()));
    }
}

/// The JSON-mode output parses, from the left, as a JSON array of exactly
/// one result object per title, in order: the empty array for no titles,
/// else bracket lines around indented objects of the exact member form
/// `title` then `url`, each value a string literal.
pub proof fn lemma_json_output_parses(titles: Seq<Seq<char>>)
    ensures
        output_object_count(json_output(titles)) == Some(titles.len()),
{
    reveal_strlit("[]");
    reveal_strlit("[\n");
    reveal_strlit("\n]");
    if titles.len() == 0 {
        assert(json_output(titles) == "[]"@);
        assert(output_object_count(json_output(titles)) == Some(0nat));
    } else {
        let s = json_output(titles);
        let items = json_items(titles);
        lemma_items_parse(titles);
        assert(items.len() >= 2);
        assert(s.len() == items.len() + 4);
        assert(s != "[]"@);
        assert(s.subrange(0, 2) =~= "[\n"@);
        assert(s.subrange(s.len() - 2, s.len() as int) =~= "\n]"@);
        assert(s.subrange(2, s.len() - 2) =~= items);
    }
}

/// Every string value in the JSON-mode output is a well-formed JSON string
/// literal: for each title, the `title` value and the `url` value both are,
/// whatever characters the title holds.
pub proof fn lemma_json_output_strings(titles: Seq<Seq<char>>)
    ensures
        forall|i: int|
            0 <= i < titles.len() ==> is_json_string_literal(quoted(#[trigger] titles[i])),
        forall|i: int|
            0 <= i < titles.len() ==> is_json_string_literal(
                quoted(article_url_spec(#[trigger] titles[i])),
            ),
{
    assert forall|i: int| 0 <= i < titles.len() implies is_json_string_literal(
        quoted(#[trigger] titles[i]),
    ) && is_json_string_literal(quoted(article_url_spec(titles[i]))) by {
        crate::escape::lemma_quoted_well_formed(titles[i]);
        crate::escape::lemma_quoted_well_formed(article_url_spec(titles[i]));
    }
}

/// The header line of the text-mode output, with the query quoted inside it.
pub open spec fn text_header(query: Seq<char>) -> Seq<char> {
    "Search results for '"@ + query + "':"@
}

/// One text-mode result line, on a line of its own below the header.
pub open spec fn text_line(title: Seq<char>) -> Seq<char> {
    "\n - "@ + title + ": "@ + article_url_spec(title)
}

/// The result lines of the text-mode output, one per title, in order.
pub open spec fn text_lines(titles: Seq<Seq<char>>) -> Seq<char>
    decreases titles.len(),
{
    if titles.len() == 0 {
        Seq::empty()
    } else {
        text_lines(titles.drop_last()) + text_line(titles.last())
    }
}

/// The whole text-mode output: the header, then one line per title.
pub open spec fn text_output(query: Seq<char>, titles: Seq<Seq<char>>) -> Seq<char> {
    text_header(query) + text_lines(titles)
}

/// The message shown when the response carries no results.
pub open spec fn no_results_spec(query: Seq<char>) -> Seq<char> {
    "No search results found for '"@ + query + "'"@
}

/// What the program prints for a query: the no-results message when the
/// response had no `query.search` sequence or an empty one, else the JSON
/// array or the text listing, as the mode asks.
pub open spec fn output_spec(query: Seq<char>, search: Option<Seq<Seq<char>>>, json_mode: bool) -> Seq<char> {
    match search {
        Option::None => no_results_spec(query),
        Option::Some(titles) => if titles.len() == 0 {
            no_results_spec(query)
        } else if json_mode {
            json_output(titles)
        } else {
            text_output(query, titles)
        },
    }
}

/// The number of line-break characters in `s`.
pub open spec fn line_breaks(s: Seq<char>) -> nat
    decreases s.len(),
{
    if s.len() == 0 {
        0
    } else {
        line_breaks(s.drop_last()) + (if s.last() == '\n' { 1nat } else { 0nat })
    }
}

/// No character of `s` is a line break.
pub open spec fn break_free(s: Seq<char>) -> bool {
    forall|i: int| 0 <= i < s.len() ==> s[i] != '\n'
}

proof fn lemma_line_breaks_concat(a: Seq<char>, b: Seq<char>)
    ensures
        line_breaks(a + b) == line_breaks(a) + line_breaks(b),
    decreases b.len(),
{
    if b.len() == 0 {
        assert(a + b =~= a);
    } else {
        assert((a + b).drop_last() =~= a + b.drop_last());
        lemma_line_breaks_concat(a, b.drop_last());
    }
}

proof fn lemma_line_breaks_free(s: Seq<char>)
    requires
        break_free(s),
    ensures
        line_breaks(s) == 0,
    decreases s.len(),
{
    if s.len() > 0 {
        assert(break_free(s.drop_last()));
        lemma_line_breaks_free(s.drop_last());
    }
}

proof fn lemma_text_line_breaks(title: Seq<char>)
    requires
        break_free(title),
    ensures
        line_breaks(text_line(title)) == 1,
{
    reveal_strlit("\n - ");
    reveal_strlit(" - ");
    reveal_strlit(": ");
    reveal_strlit("https://en.wikipedia.org/wiki/");
    assert("\n - "@ =~= seq!['\n'] + " - "@);
    assert(seq!['\n'].drop_last() =~= Seq::<char>::empty());
    assert(line_breaks(Seq::<char>::empty()) == 0);
    assert(seq!['\n'].last() == '\n');
    assert(line_breaks(seq!['\n']) == 1);
    assert(break_free(" - "@));
    lemma_line_breaks_free(" - "@);
    lemma_line_breaks_concat(seq!['\n'], " - "@);
    assert(line_breaks("\n - "@) == 1);
    lemma_line_breaks_free(title);
    assert(break_free(": "@));
    lemma_line_breaks_free(": "@);
    assert(break_free(crate::urls::wiki_base()));
    lemma_line_breaks_free(crate::urls::wiki_base());
    assert(break_free(crate::urls::underscored(title)));
    lemma_line_breaks_free(crate::urls::underscored(title));
    lemma_line_breaks_concat(crate::urls::wiki_base(), crate::urls::underscored(title));
    lemma_line_breaks_concat("\n - "@, title);
    lemma_line_breaks_concat("\n - "@ + title, ": "@);
    lemma_line_breaks_concat("\n - "@ + title + ": "@, article_url_spec(title));
}

proof fn lemma_text_lines_breaks(titles: Seq<Seq<char>>)
    requires
        forall|j: int| 0 <= j < titles.len() ==> break_free(#[trigger] titles[j]),
    ensures
        line_breaks(text_lines(titles)) == titles.len(),
    decreases titles.len(),
{
    if titles.len() > 0 {
        lemma_text_lines_breaks(titles.drop_last());
        lemma_text_line_breaks(titles.last());
        lemma_line_breaks_concat(text_lines(titles.drop_last()), text_line(titles.last()));
    }
}

/// The shape of the text-mode output: it begins with the header; the header
/// carries the query itself between its quotes; and, when neither the query
/// nor any title holds a line break, the output holds exactly one line
/// break per result — the header line, then one line per result.
pub proof fn lemma_text_output_shape(query: Seq<char>, titles: Seq<Seq<char>>)
    requires
        break_free(query),
        forall|j: int| 0 <= j < titles.len() ==> break_free(#[trigger] titles[j]),
    ensures
        text_output(query, titles).subrange(0, text_header(query).len() as int) == text_header(query),
        text_header(query).subrange(
            "Search results for '"@.len() as int,
            "Search results for '"@.len() as int + query.len() as int,
        ) == query,
        line_breaks(text_output(query, titles)) == titles.len(),
{
    assert(text_output(query, titles).subrange(0, text_header(query).len() as int) =~= text_header(
        query,
    ));
    assert(text_header(query).subrange(
        "Search results for '"@.len() as int,
        "Search results for '"@.len() as int + query.len() as int,
    ) =~= query);
    reveal_strlit("Search results for '");
    reveal_strlit("':");
    assert(break_free("Search results for '"@));
    lemma_line_breaks_free("Search results for '"@);
    assert(break_free("':"@));
    lemma_line_breaks_free("':"@);
    lemma_line_breaks_free(query);
    lemma_line_breaks_concat("Search results for '"@, query);
    lemma_line_breaks_concat("Search results for '"@ + query, "':"@);
    lemma_text_lines_breaks(titles);
    lemma_line_breaks_concat(text_header(query), text_lines(titles));
}

/// The no-results message is a single output line: it holds no line break
/// when the query holds none.
pub proof fn lemma_no_results_single_line(query: Seq<char>)
    requires
        break_free(query),
    ensures
        line_breaks(no_results_spec(query)) == 0,
{
    reveal_strlit("No search results found for '");
    reveal_strlit("'");
    assert(break_free("No search results found for '"@));
    lemma_line_breaks_free("No search results found for '"@);
    assert(break_free("'"@));
    lemma_line_breaks_free("'"@);
    lemma_line_breaks_free(query);
    lemma_line_breaks_concat("No search results found for '"@, query);
    lemma_line_breaks_concat("No search results found for '"@ + query, "'"@);
}

/// The no-results message for `query`.
pub fn no_results_message(query: &str) -> (r: String)
    ensures
        r@ == no_results_spec(query@),
{
    let mut out = String::from_str("No search results found for '");
    out.append(query);
    out.append("'");
    proof {
        assert(out@ =~= no_results_spec(query@));
    }
    out
}

/// Render the JSON-mode output for `results`.
pub fn render_json(results: &Vec<SearchResult>) -> (r: String)
    requires
        forall|i: int| 0 <= i < results@.len() ==> (#[trigger] results@[i]).well_formed(),
    ensures
        r@ == json_output(titles_of(results@)),
{
    if results.len() == 0 {
        return String::from_str("[]");
    }
    let mut out = String::from_str("[\n");
    proof {
        assert(out@ =~= "[\n"@ + json_items(titles_of(results@.subrange(0, 0))));
    }
    let mut i: usize = 0;
    while i < results.len()
        invariant
            forall|k: int| 0 <= k < results@.len() ==> (#[trigger] results@[k]).well_formed(),
            i <= results@.len(),
            out@ == "[\n"@ + json_items(titles_of(results@.subrange(0, i as int))),
        decreases results@.len() - i,
    {
        if i > 0 {
            out.append(",\n");
        }
        out.append("  {\"title\":");
        crate::escape::push_quoted(&mut out, results[i].title.as_str());
        out.append(",\"url\":");
        crate::escape::push_quoted(&mut out, results[i].url.as_str());
        out.append("}");
        i = i + 1;
        proof {
            let ts = titles_of(results@.subrange(0, i as int));
            assert(ts.drop_last() =~= titles_of(results@.subrange(0, i - 1)));
            assert(ts.last() == results@[i - 1].title@);
            assert(quoted(results@[i - 1].url@) == quoted(article_url_spec(ts.last())));
            assert(out@ =~= "[\n"@ + json_items(ts));
        }
    }
    out.append("\n]");
    proof {
        assert(results@.subrange(0, results@.len() as int) =~= results@);
        assert(titles_of(results@).len() == results@.len());
        assert(out@ =~= json_output(titles_of(results@)));
    }
    out
}

/// The header line of the text-mode output for `query`.
pub fn header_line(query: &str) -> (r: String)
    ensures
        r@ == text_header(query@),
{
    let mut out = String::from_str("Search results for '");
    out.append(query);
    out.append("':");
    proof {
        assert(out@ =~= text_header(query@));
    }
    out
}

/// Render the text-mode output for `query` and `results`.
pub fn render_text(query: &str, results: &Vec<SearchResult>) -> (r: String)
    requires
        forall|i: int| 0 <= i < results@.len() ==> (#[trigger] results@[i]).well_formed(),
    ensures
        r@ == text_output(query@, titles_of(results@)),
{
    let mut out = header_line(query);
    proof {
        assert(out@ =~= text_header(query@) + text_lines(titles_of(results@.subrange(0, 0))));
    }
    let mut i: usize = 0;
    while i < results.len()
        invariant
            forall|k: int| 0 <= k < results@.len() ==> (#[trigger] results@[k]).well_formed(),
            i <= results@.len(),
            out@ == text_header(query@) + text_lines(titles_of(results@.subrange(0, i as int))),
        decreases results@.len() - i,
    {
        out.append("\n - ");
        out.append(results[i].title.as_str());
        out.append(": ");
        out.append(results[i].url.as_str());
        i = i + 1;
        proof {
            let ts = titles_of(results@.subrange(0, i as int));
            assert(ts.drop_last() =~= titles_of(results@.subrange(0, i - 1)));
            assert(ts.last() == results@[i - 1].title@);
            assert(out@ =~= text_header(query@) + text_lines(ts));
        }
    }
    proof {
        assert(results@.subrange(0, results@.len() as int) =~= results@);
        assert(out@ =~= text_output(query@, titles_of(results@)));
    }
    out
}

/// Build the whole output for the extracted titles: the no-results message
/// when there was no `query.search` sequence or it was empty, else the JSON
/// array or the text listing, as `json_mode` asks.
pub fn render_output(query: &str, search: &Option<Vec<String>>, json_mode: bool) -> (r: String)
    ensures
        r@ == output_spec(query@, search.deep_view(), json_mode),
{
    match search {
        Option::None => no_results_message(query),
        Option::Some(titles) => {
            if titles.len() == 0 {
                no_results_message(query)
            } else {
                let results = build_results(titles);
                proof {
                    assert(titles_of(results@) =~= titles.deep_view());
                }
                if json_mode {
                    render_json(&results)
                } else {
                    render_text(query, &results)
                }
            }
        },
    }
}

} // verus!
