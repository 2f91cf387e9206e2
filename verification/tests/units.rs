//! Line classification, chunk parsing details, credentials, generation
//! modes, message-list helpers, and the smaller text utilities.

use hampter::auth::{AuthorizedClient, TokenResponse};
use hampter::character::{build_query_string, SortMode};
use hampter::chat::{
    delete_messages, edit_message, get_message, validate_generation, GenerationMode, Message,
    MessageChunk,
};
use hampter::error::HampterError;
use hampter::line::{classify_line, LineEvent};
use hampter::misc::{u64_from_string, u64_to_string};

#[test]
fn from_line_empty_is_none() {
    let r = MessageChunk::from_line(&String::new()).unwrap();
    assert!(r.is_none());
}

#[test]
fn from_line_sentinel_is_none_case_insensitively() {
    assert!(MessageChunk::from_line(&"data: [DONE]".to_string()).unwrap().is_none());
    assert!(MessageChunk::from_line(&"Data: [Done]".to_string()).unwrap().is_none());
    assert!(MessageChunk::from_line(&"data: [done]".to_string()).unwrap().is_none());
}

#[test]
fn from_line_short_line_is_decode_error() {
    assert!(matches!(
        MessageChunk::from_line(&"data:".to_string()),
        Err(HampterError::DecodeError)
    ));
}

#[test]
fn from_line_parses_a_data_line() {
    let line = "data: {\"id\":\"cid\",\"object\":\"chat.completion.chunk\",\"created\":1700000000,\"model\":\"big\",\"choices\":[{\"index\":0,\"delta\":{\"role\":\"assistant\",\"content\":\"hi\"},\"logprobs\":null,\"finish_reason\":null}]}"
        .to_string();
    let chunk = MessageChunk::from_line(&line).unwrap().unwrap();
    assert_eq!(chunk.id, "cid");
    assert_eq!(chunk.object, "chat.completion.chunk");
    assert_eq!(chunk.created, 1700000000);
    assert_eq!(chunk.model, "big");
    assert_eq!(chunk.choices.len(), 1);
    assert_eq!(chunk.choices[0].index, 0);
    assert_eq!(chunk.choices[0].delta.role.as_deref(), Some("assistant"));
    assert_eq!(chunk.choices[0].delta.content, "hi");
    assert!(chunk.choices[0].logprobs.is_none());
    assert!(chunk.choices[0].finish_reason.is_none());
}

#[test]
fn from_line_malformed_json_is_decode_error() {
    let line = "data: {\"id\":\"cid\"".to_string();
    assert!(matches!(
        MessageChunk::from_line(&line),
        Err(HampterError::DecodeError)
    ));
}

#[test]
fn parser_accepts_unknown_members_and_any_order() {
    let line = "data: {\"model\":\"m\",\"usage\":{\"total\":[1,2,{\"deep\":null}]},\"created\":7,\"id\":\"i\",\"extra\":\"x\",\"choices\":[],\"object\":\"o\"}"
        .to_string();
    let chunk = MessageChunk::from_line(&line).unwrap().unwrap();
    assert_eq!(chunk.id, "i");
    assert_eq!(chunk.created, 7);
    assert_eq!(chunk.choices.len(), 0);
    assert_eq!(
        chunk.content(None),
        Err(HampterError::IndexError)
    );
}

#[test]
fn parser_rejects_duplicate_members() {
    let line = "data: {\"id\":\"a\",\"id\":\"b\",\"object\":\"o\",\"created\":1,\"model\":\"m\",\"choices\":[]}"
        .to_string();
    assert!(matches!(
        MessageChunk::from_line(&line),
        Err(HampterError::DecodeError)
    ));
}

#[test]
fn parser_rejects_missing_member() {
    let line = "data: {\"id\":\"a\",\"object\":\"o\",\"created\":1,\"choices\":[]}".to_string();
    assert!(matches!(
        MessageChunk::from_line(&line),
        Err(HampterError::DecodeError)
    ));
}

#[test]
fn parser_rejects_fractional_created() {
    let line = "data: {\"id\":\"a\",\"object\":\"o\",\"created\":1.5,\"model\":\"m\",\"choices\":[]}"
        .to_string();
    assert!(matches!(
        MessageChunk::from_line(&line),
        Err(HampterError::DecodeError)
    ));
}

#[test]
fn parser_rejects_created_beyond_u64() {
    let line = "data: {\"id\":\"a\",\"object\":\"o\",\"created\":18446744073709551616,\"model\":\"m\",\"choices\":[]}"
        .to_string();
    assert!(matches!(
        MessageChunk::from_line(&line),
        Err(HampterError::DecodeError)
    ));
}

#[test]
fn parser_accepts_created_at_u64_max() {
    let line = "data: {\"id\":\"a\",\"object\":\"o\",\"created\":18446744073709551615,\"model\":\"m\",\"choices\":[]}"
        .to_string();
    let chunk = MessageChunk::from_line(&line).unwrap().unwrap();
    assert_eq!(chunk.created, u64::MAX);
}

#[test]
fn parser_unescapes_string_escapes() {
    let line = "data: {\"id\":\"a\\nb\\t\\\"q\\\"\",\"object\":\"o\",\"created\":1,\"model\":\"m\",\"choices\":[{\"index\":0,\"delta\":{\"content\":\"\\u0041\\u00e9\\uD83D\\uDE00\"}}]}"
        .to_string();
    let chunk = MessageChunk::from_line(&line).unwrap().unwrap();
    assert_eq!(chunk.id, "a\nb\t\"q\"");
    assert_eq!(chunk.choices[0].delta.content, "Aé😀");
}

#[test]
fn parser_rejects_lone_surrogate() {
    let line = "data: {\"id\":\"a\",\"object\":\"o\",\"created\":1,\"model\":\"m\",\"choices\":[{\"index\":0,\"delta\":{\"content\":\"\\uD83D\"}}]}"
        .to_string();
    assert!(matches!(
        MessageChunk::from_line(&line),
        Err(HampterError::DecodeError)
    ));
}

#[test]
fn parser_rejects_null_for_required_string() {
    let line = "data: {\"id\":null,\"object\":\"o\",\"created\":1,\"model\":\"m\",\"choices\":[]}"
        .to_string();
    assert!(matches!(
        MessageChunk::from_line(&line),
        Err(HampterError::DecodeError)
    ));
}

#[test]
fn parser_accepts_null_role() {
    let line = "data: {\"id\":\"a\",\"object\":\"o\",\"created\":1,\"model\":\"m\",\"choices\":[{\"index\":0,\"delta\":{\"role\":null,\"content\":\"c\"}}]}"
        .to_string();
    let chunk = MessageChunk::from_line(&line).unwrap().unwrap();
    assert!(chunk.choices[0].delta.role.is_none());
}

#[test]
fn parser_accepts_whitespace_between_tokens() {
    let line = "data:   { \"id\" : \"a\" ,\t\"object\":\"o\", \"created\" : 1 , \"model\":\"m\", \"choices\" : [ { \"index\" : 0 , \"delta\" : { \"content\" : \"w\" } } ]  }  "
        .to_string();
    let chunk = MessageChunk::from_line(&line).unwrap().unwrap();
    assert_eq!(chunk.choices[0].delta.content, "w");
}

#[test]
fn parser_unescapes_member_keys() {
    // "id" spells the key "id".
    let line = "data: {\"\\u0069\\u0064\":\"a\",\"object\":\"o\",\"created\":1,\"model\":\"m\",\"choices\":[]}"
        .to_string();
    let chunk = MessageChunk::from_line(&line).unwrap().unwrap();
    assert_eq!(chunk.id, "a");
}

#[test]
fn parser_bounds_unknown_member_nesting() {
    let mut nested = String::from("0");
    for _ in 0..70 {
        nested = format!("[{}]", nested);
    }
    let line = format!(
        "data: {{\"id\":\"a\",\"object\":\"o\",\"created\":1,\"model\":\"m\",\"choices\":[],\"junk\":{}}}",
        nested
    );
    assert!(matches!(
        MessageChunk::from_line(&line),
        Err(HampterError::DecodeError)
    ));
    let mut shallow = String::from("0");
    for _ in 0..10 {
        shallow = format!("[{}]", shallow);
    }
    let line = format!(
        "data: {{\"id\":\"a\",\"object\":\"o\",\"created\":1,\"model\":\"m\",\"choices\":[],\"junk\":{}}}",
        shallow
    );
    assert!(MessageChunk::from_line(&line).unwrap().is_some());
}

#[test]
fn parser_rejects_trailing_commas() {
    let in_object = "data: {\"id\":\"a\",\"object\":\"o\",\"created\":1,\"model\":\"m\",\"choices\":[],}"
        .to_string();
    assert!(matches!(
        MessageChunk::from_line(&in_object),
        Err(HampterError::DecodeError)
    ));
    let in_array = "data: {\"id\":\"a\",\"object\":\"o\",\"created\":1,\"model\":\"m\",\"choices\":[],\"junk\":[1,]}"
        .to_string();
    assert!(matches!(
        MessageChunk::from_line(&in_array),
        Err(HampterError::DecodeError)
    ));
}

#[test]
fn parser_skips_unknown_number_shapes() {
    let line = "data: {\"id\":\"a\",\"object\":\"o\",\"created\":1,\"model\":\"m\",\"choices\":[],\"t\":-0.5e+3,\"u\":true,\"v\":false}"
        .to_string();
    assert!(MessageChunk::from_line(&line).unwrap().is_some());
}

#[test]
fn classify_line_distinguishes_the_three_events() {
    assert!(matches!(classify_line(""), Ok(LineEvent::KeepAlive)));
    assert!(matches!(
        classify_line("noise data: [done] noise"),
        Ok(LineEvent::Terminator)
    ));
    let line = "data: {\"id\":\"a\",\"object\":\"o\",\"created\":1,\"model\":\"m\",\"choices\":[]}";
    assert!(matches!(classify_line(line), Ok(LineEvent::Chunk(_))));
    assert!(matches!(classify_line("data"), Err(HampterError::DecodeError)));
}

#[test]
fn content_reads_the_requested_choice() {
    let line = "data: {\"id\":\"a\",\"object\":\"o\",\"created\":1,\"model\":\"m\",\"choices\":[{\"index\":0,\"delta\":{\"content\":\"first\"}},{\"index\":1,\"delta\":{\"content\":\"second\"}}]}"
        .to_string();
    let chunk = MessageChunk::from_line(&line).unwrap().unwrap();
    assert_eq!(chunk.content(None).unwrap(), "first");
    assert_eq!(chunk.content(Some(0)).unwrap(), "first");
    assert_eq!(chunk.content(Some(1)).unwrap(), "second");
    assert_eq!(chunk.content(Some(2)), Err(HampterError::IndexError));
}

#[test]
fn refresh_success_rotates_both_tokens_atomically() {
    let mut client = AuthorizedClient::new("ua", "cf", "A1", "R1", "v1", "key");
    let response = TokenResponse {
        access_token: "A2".to_string(),
        token_type: "bearer".to_string(),
        expires_in: 3600,
        expires_at: 1700003600,
        refresh_token: "R2".to_string(),
    };
    let r = client.apply_refresh_response(Ok(response));
    assert!(r.is_ok());
    assert_eq!(client.auth_token(), "A2");
    assert_eq!(client.refresh_token(), "R2");
    assert_eq!(client.user_agent(), "ua");
    assert_eq!(client.api_key(), "key");
    assert_eq!(client.bearer_header(), "Bearer A2");
}

#[test]
fn refresh_failure_leaves_tokens_untouched() {
    let mut client = AuthorizedClient::new("ua", "cf", "A1", "R1", "v1", "key");
    let r = client.apply_refresh_response(Err(HampterError::HttpStatusError(401)));
    assert_eq!(r, Err(HampterError::AuthError));
    assert_eq!(client.auth_token(), "A1");
    assert_eq!(client.refresh_token(), "R1");
}

#[test]
fn rotate_replaces_only_the_token_pair() {
    let mut client = AuthorizedClient::new("ua", "cf", "A1", "R1", "v1", "key");
    client.rotate("A9".to_string(), "R9".to_string());
    assert_eq!(client.auth_token(), "A9");
    assert_eq!(client.refresh_token(), "R9");
    assert_eq!(client.cookie_header(), "cf_clearance=cf");
    assert_eq!(client.x_app_version(), "v1");
}

#[test]
fn generation_mode_tokens() {
    assert_eq!(GenerationMode::New.token(), "NEW");
    assert_eq!(GenerationMode::Alternative.token(), "ALTERNATIVE");
    assert_eq!(GenerationMode::Suggestion.token(), "SUGGESTION");
    assert_eq!(GenerationMode::SummaryFull.token(), "SUMMARY_FULL");
    assert_eq!(GenerationMode::SummaryLast.token(), "SUMMARY_LAST");
}

#[test]
fn validate_generation_flags_long_suggestion_message() {
    let long = Message::new(None, false, true, 1, "a message of more than twenty characters");
    let short = Message::new(None, false, true, 1, "short");
    assert_eq!(
        validate_generation(Some(GenerationMode::Suggestion), Some(&long)),
        Err(HampterError::ValidationError)
    );
    assert_eq!(
        validate_generation(Some(GenerationMode::Suggestion), Some(&short)),
        Ok(GenerationMode::Suggestion)
    );
    assert_eq!(
        validate_generation(Some(GenerationMode::New), Some(&long)),
        Ok(GenerationMode::New)
    );
    assert_eq!(validate_generation(None, None), Ok(GenerationMode::New));
}

#[test]
fn message_new_defaults_the_id_to_zero() {
    let m = Message::new(None, true, false, 7, "hello");
    assert_eq!(m.id, 0);
    assert!(m.is_bot);
    assert!(!m.is_main);
    assert_eq!(m.chat_id, 7);
    assert_eq!(m.message, "hello");
    let m2 = Message::new(Some(42), false, true, 7, "x");
    assert_eq!(m2.id, 42);
}

#[test]
fn message_list_helpers() {
    let mut list = vec![
        Message::new(Some(1), false, true, 9, "one"),
        Message::new(Some(2), true, true, 9, "two"),
        Message::new(Some(3), false, true, 9, "three"),
    ];
    let found = get_message(&list, 2).unwrap();
    assert_eq!(found.message, "two");
    assert!(get_message(&list, 4).is_none());

    assert!(edit_message(&mut list, 2, "TWO"));
    assert_eq!(list[1].message, "TWO");
    assert!(!edit_message(&mut list, 4, "nope"));

    delete_messages(&mut list, &vec![1, 3]);
    assert_eq!(list.len(), 1);
    assert_eq!(list[0].id, 2);
    delete_messages(&mut list, &vec![99]);
    assert_eq!(list.len(), 1);
}

#[test]
fn sort_mode_tokens() {
    assert_eq!(SortMode::Popular.token(), "popular");
    assert_eq!(SortMode::Latest.token(), "latest");
    assert_eq!(SortMode::Trending.token(), "trending");
    assert_eq!(SortMode::Trending24.token(), "trending24");
    assert_eq!(SortMode::Relevance.token(), "relevance");
}

#[test]
fn query_string_exact_shape() {
    let tags = vec![3u32, 17u32];
    let custom = vec!["wizard".to_string(), "space".to_string()];
    let q = build_query_string(
        2,
        true,
        Some("dragon"),
        Some(SortMode::Latest),
        Some(&tags),
        Some(&custom),
    );
    assert_eq!(
        q,
        "https://janitorai.com/hampter/characters?page=2&mode=all&sort=latest&tag_id[]=3&tag_id[]=17&custom_tags[]=wizard&custom_tags[]=space&search=dragon"
    );
}

#[test]
fn query_string_defaults() {
    let q = build_query_string(1, false, None, None, None, None);
    assert_eq!(
        q,
        "https://janitorai.com/hampter/characters?page=1&mode=sfw&sort=popular"
    );
}

#[test]
fn u64_from_string_reads_decimal_text() {
    assert_eq!(u64_from_string("123"), Ok(123));
    assert_eq!(u64_from_string("+5"), Ok(5));
    assert_eq!(u64_from_string("0123"), Ok(123));
    assert_eq!(u64_from_string("0"), Ok(0));
    assert_eq!(u64_from_string("18446744073709551615"), Ok(u64::MAX));
    assert_eq!(u64_from_string(""), Err(HampterError::DecodeError));
    assert_eq!(u64_from_string("+"), Err(HampterError::DecodeError));
    assert_eq!(u64_from_string("12a"), Err(HampterError::DecodeError));
    assert_eq!(u64_from_string("-3"), Err(HampterError::DecodeError));
    assert_eq!(
        u64_from_string("18446744073709551616"),
        Err(HampterError::DecodeError)
    );
}

#[test]
fn tag_suggestion_needs_three_characters() {
    assert!(hampter::tag::tag_suggestion_url("").is_none());
    assert!(hampter::tag::tag_suggestion_url("ab").is_none());
    assert_eq!(
        hampter::tag::tag_suggestion_url("abc").unwrap(),
        "https://janitorai.com/hampter/characters/tags/suggest?prefix=abc"
    );
}

#[test]
fn u64_to_string_prints_decimal_text() {
    assert_eq!(u64_to_string(0), "0");
    assert_eq!(u64_to_string(10), "10");
    assert_eq!(u64_to_string(90210), "90210");
    assert_eq!(u64_to_string(u64::MAX), "18446744073709551615");
}
