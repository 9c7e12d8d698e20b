use wikisearch::client::{api_endpoint, search_params};
use wikisearch::response::{extract_search_titles, format_response};

#[test]
fn titles_are_extracted_in_order() {
    let body = "{\"query\":{\"search\":[{\"title\":\"Rust (programming language)\"},{\"title\":\"Systems programming\"}]}}";
    let titles = extract_search_titles(body).unwrap().unwrap();
    assert_eq!(
        titles,
        vec![
            String::from("Rust (programming language)"),
            String::from("Systems programming"),
        ]
    );
}

#[test]
fn missing_search_path_is_no_results() {
    let body = "{\"batchcomplete\":\"\"}";
    assert_eq!(extract_search_titles(body).unwrap(), None);
    let body = "{\"query\":{\"searchinfo\":{\"totalhits\":0}}}";
    assert_eq!(extract_search_titles(body).unwrap(), None);
    let body = "{\"query\":{\"search\":\"not an array\"}}";
    assert_eq!(extract_search_titles(body).unwrap(), None);
}

#[test]
fn empty_search_array_is_extracted_empty() {
    let body = "{\"query\":{\"search\":[]}}";
    assert_eq!(extract_search_titles(body).unwrap(), Some(Vec::new()));
}

#[test]
fn elements_without_a_string_title_are_left_out() {
    let body = "{\"query\":{\"search\":[{\"title\":\"Alpha\"},{\"size\":3},{\"title\":7},{\"title\":\"Beta\"}]}}";
    let titles = extract_search_titles(body).unwrap().unwrap();
    assert_eq!(titles, vec![String::from("Alpha"), String::from("Beta")]);
}

#[test]
fn malformed_body_is_a_parse_error() {
    let err = extract_search_titles("not json at all").unwrap_err();
    assert!(!err.detail.is_empty());
    assert!(extract_search_titles("{\"query\":").is_err());
}

#[test]
fn format_response_missing_path_prints_one_line() {
    let body = "{\"batchcomplete\":\"\"}";
    let out = format_response(body, false, "Rust programming").unwrap();
    assert_eq!(out, "No search results found for 'Rust programming'");
    assert!(!out.contains('\n'));
    let out_json = format_response(body, true, "Rust programming").unwrap();
    assert_eq!(out_json, "No search results found for 'Rust programming'");
}

#[test]
fn format_response_empty_array_prints_no_results() {
    let body = "{\"query\":{\"search\":[]}}";
    let out = format_response(body, false, "Rust programming").unwrap();
    assert_eq!(out, "No search results found for 'Rust programming'");
}

#[test]
fn format_response_skips_title_less_elements() {
    let body = "{\"query\":{\"search\":[{\"title\":\"Alpha\"},{\"size\":3}]}}";
    let out = format_response(body, false, "q").unwrap();
    assert_eq!(
        out,
        "Search results for 'q':\n - Alpha: https://en.wikipedia.org/wiki/Alpha"
    );
}

#[test]
fn format_response_end_to_end_text() {
    let body = "{\"query\":{\"search\":[{\"title\":\"Rust (programming language)\"},{\"title\":\"Systems programming\"}]}}";
    let out = format_response(body, false, "Rust programming").unwrap();
    let expected = "Search results for 'Rust programming':\n \
                    - Rust (programming language): https://en.wikipedia.org/wiki/Rust_(programming_language)\n \
                    - Systems programming: https://en.wikipedia.org/wiki/Systems_programming";
    assert_eq!(out, expected);
}

#[test]
fn format_response_end_to_end_json() {
    let body = "{\"query\":{\"search\":[{\"title\":\"Rust (programming language)\"},{\"title\":\"Systems programming\"}]}}";
    let out = format_response(body, true, "Rust programming").unwrap();
    let expected = "[\n  \
        {\"title\":\"Rust (programming language)\",\"url\":\"https://en.wikipedia.org/wiki/Rust_(programming_language)\"},\n  \
        {\"title\":\"Systems programming\",\"url\":\"https://en.wikipedia.org/wiki/Systems_programming\"}\n]";
    assert_eq!(out, expected);
}

#[test]
fn malformed_body_fails_formatting() {
    assert!(format_response("][", false, "q").is_err());
    assert!(format_response("", true, "q").is_err());
}

#[test]
fn fixed_request_parts() {
    assert_eq!(api_endpoint(), "https://en.wikipedia.org/w/api.php");
    let params = search_params("Rust programming");
    assert_eq!(params.len(), 4);
    assert_eq!(params[0], (String::from("action"), String::from("query")));
    assert_eq!(params[1], (String::from("format"), String::from("json")));
    assert_eq!(params[2], (String::from("list"), String::from("search")));
    assert_eq!(
        params[3],
        (String::from("srsearch"), String::from("Rust programming"))
    );
}
