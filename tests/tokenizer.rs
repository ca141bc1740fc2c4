use demongrep::tokenizer::{tokenize_code, CodeTokenizer};

#[test]
fn tokenizes_snake_and_camel() {
    let mut tokenizer = CodeTokenizer;
    let mut stream = tokenizer.token_stream("UserConfig process_data HTTPServer");
    let mut terms = Vec::new();
    while stream.advance() {
        terms.push(stream.token().text.clone());
    }
    assert_eq!(terms, vec!["user", "config", "process", "data", "http", "server"]);
}

#[test]
fn http_server_query_matches_identifier_tokens() {
    let doc: Vec<String> = tokenize_code("let s = HTTPServer::new();").into_iter().map(|t| t.text).collect();
    let query: Vec<String> = tokenize_code("http server").into_iter().map(|t| t.text).collect();
    assert_eq!(query, vec!["http", "server"]);
    for q in &query {
        assert!(doc.contains(q));
    }
}

#[test]
fn token_offsets_and_positions() {
    let t = tokenize_code("getX2Value kebab-case");
    let spans: Vec<(usize, usize, usize)> = t.iter().map(|k| (k.offset_from, k.offset_to, k.position)).collect();
    let texts: Vec<String> = t.iter().map(|k| k.text.clone()).collect();
    assert_eq!(texts, vec!["get", "x2", "value", "kebab", "case"]);
    assert_eq!(spans, vec![(0, 3, 0), (3, 5, 1), (5, 10, 2), (11, 16, 3), (17, 21, 4)]);
    assert!(tokenize_code("").is_empty());
    assert!(tokenize_code("  ->  ;; __ ").is_empty());
}

#[test]
fn non_ascii_letters_are_kept() {
    let t: Vec<String> = tokenize_code("größe_wert").into_iter().map(|k| k.text).collect();
    assert_eq!(t, vec!["größe", "wert"]);
}

#[test]
fn non_ascii_capitals_are_lowercased() {
    let t: Vec<String> = tokenize_code("ÜberSchrift ÉCOLE").into_iter().map(|k| k.text).collect();
    assert_eq!(t, vec!["über", "schrift", "école"]);
}
