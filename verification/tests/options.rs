use github_comments::comments::{CommentListOptions, CommentListOptionsBuilder};

fn decoded(query: &str) -> Vec<(String, String)> {
    url::form_urlencoded::parse(query.as_bytes()).into_owned().collect()
}

#[test]
fn no_options_serialize_to_none() {
    let options = CommentListOptions::builder().build();
    assert_eq!(options.serialize(), None);
}

#[test]
fn default_options_serialize_to_none() {
    assert_eq!(CommentListOptions::default().serialize(), None);
    assert_eq!(CommentListOptionsBuilder::default().build().serialize(), None);
}

#[test]
fn since_is_written_as_a_pair() {
    let options = CommentListOptions::builder().since("2020-01-01").build();
    assert_eq!(options.serialize(), Some("since=2020-01-01".to_string()));
}

#[test]
fn query_has_no_leading_question_mark() {
    let query = CommentListOptions::builder().since("x").build().serialize().unwrap();
    assert!(!query.starts_with('?'));
}

#[test]
fn empty_value_is_still_an_entry() {
    let options = CommentListOptions::builder().since("").build();
    assert_eq!(options.serialize(), Some("since=".to_string()));
}

#[test]
fn second_value_wins() {
    let mut builder = CommentListOptionsBuilder::new();
    builder.since("first").since("second");
    let query = builder.build().serialize().unwrap();
    assert_eq!(query, "since=second");
    assert_eq!(decoded(&query), vec![("since".to_string(), "second".to_string())]);
}

#[test]
fn reserved_characters_are_encoded() {
    let options = CommentListOptions::builder().since("a&b=c d+e").build();
    assert_eq!(options.serialize(), Some("since=a%26b%3Dc+d%2Be".to_string()));
}

#[test]
fn unchanged_characters_stay() {
    let options = CommentListOptions::builder().since("AZaz09*-._").build();
    assert_eq!(options.serialize(), Some("since=AZaz09*-._".to_string()));
}

#[test]
fn timestamp_colons_are_encoded() {
    let options = CommentListOptions::builder().since("2016-01-02T03:04:05Z").build();
    assert_eq!(options.serialize(), Some("since=2016-01-02T03%3A04%3A05Z".to_string()));
}

#[test]
fn non_ascii_is_encoded_by_its_utf8_bytes() {
    let options = CommentListOptions::builder().since("\u{c9}t\u{e9}").build();
    assert_eq!(options.serialize(), Some("since=%C3%89t%C3%A9".to_string()));
}

#[test]
fn serialized_options_decode_to_what_was_built() {
    for value in ["2020-01-01", "a&b", "k=v", "two words", "caf\u{e9} \u{1f600}", "100%", "+", ""] {
        let query = CommentListOptions::builder().since(value).build().serialize().unwrap();
        assert_eq!(decoded(&query), vec![("since".to_string(), value.to_string())]);
    }
}

#[test]
fn build_takes_a_snapshot() {
    let mut builder = CommentListOptions::builder();
    let none = builder.build();
    builder.since("one");
    let one = builder.build();
    builder.since("two");
    let two = builder.build();
    assert_eq!(none.serialize(), None);
    assert_eq!(one.serialize(), Some("since=one".to_string()));
    assert_eq!(two.serialize(), Some("since=two".to_string()));
    assert_eq!(builder.build().serialize(), Some("since=two".to_string()));
}

#[test]
fn serialize_is_repeatable() {
    let options = CommentListOptions::builder().since("a b").build();
    assert_eq!(options.serialize(), options.serialize());
}
