use guerrillamail::error::Error;
use guerrillamail::token::extract_token;

#[test]
fn token_with_spaces_around_colon() {
    let page = "<script>var conf = { api_token : 'abc123XYZ' };</script>";
    assert_eq!(extract_token(page).unwrap(), "abc123XYZ");
}

#[test]
fn token_without_spaces() {
    let page = "api_token:'t0k3n_'";
    assert_eq!(extract_token(page).unwrap(), "t0k3n_");
}

#[test]
fn token_with_tabs_and_newlines() {
    let page = "prefix api_token\t\n : \t'deadbeef' suffix";
    assert_eq!(extract_token(page).unwrap(), "deadbeef");
}

#[test]
fn page_without_pattern_is_token_parse_error() {
    let page = "<html><body>service unavailable</body></html>";
    assert_eq!(extract_token(page), Err(Error::TokenParse));
}

#[test]
fn colon_missing_is_token_parse_error() {
    let page = "api_token 'abc'";
    assert_eq!(extract_token(page), Err(Error::TokenParse));
}

#[test]
fn empty_quotes_are_not_a_token() {
    let page = "api_token : ''";
    assert_eq!(extract_token(page), Err(Error::TokenParse));
}

#[test]
fn leftmost_instance_wins() {
    let page = "api_token : 'first' and api_token : 'second'";
    assert_eq!(extract_token(page).unwrap(), "first");
}

#[test]
fn malformed_instance_is_skipped_for_a_later_one() {
    let page = "api_token : '' then api_token : 'real1'";
    assert_eq!(extract_token(page).unwrap(), "real1");
}

#[test]
fn token_stops_at_non_word_character() {
    let page = "api_token : 'abc-def'";
    assert_eq!(extract_token(page), Err(Error::TokenParse));
}
