use meme_bot::imgflip::{
    caption_reply, client_error_text, decode_caption_response, reply_for_body, CaptionResponse,
    CaptionResponseData, ClientError, ImgflipClient,
};

#[test]
fn successful_response_yields_the_image_url() {
    let body = r#"{"success":true,"data":{"url":"https://x/1.jpg","page_url":"https://x/p/1"}}"#;
    assert_eq!(reply_for_body(body), "https://x/1.jpg");
    match decode_caption_response(body) {
        Ok(CaptionResponse { success, data: CaptionResponseData::Data { url, page_url } }) => {
            assert!(success);
            assert_eq!(url, "https://x/1.jpg");
            assert_eq!(page_url, "https://x/p/1");
        },
        _ => panic!("expected a decoded data payload"),
    }
}

#[test]
fn provider_error_yields_the_error_message() {
    let body = r#"{"success":false,"error_message":"bad template"}"#;
    assert_eq!(reply_for_body(body), "bad template");
    match decode_caption_response(body) {
        Ok(CaptionResponse { success, data: CaptionResponseData::ErrorMessage(m) }) => {
            assert!(!success);
            assert_eq!(m, "bad template");
        },
        _ => panic!("expected a decoded error message"),
    }
}

#[test]
fn undecodable_body_comes_back_raw() {
    assert_eq!(reply_for_body("oops, not json"), "oops, not json");
    match decode_caption_response("oops, not json") {
        Err(ClientError::Decode(b)) => assert_eq!(b, "oops, not json"),
        _ => panic!("expected a decode failure"),
    }
}

#[test]
fn envelope_without_payload_is_a_decode_failure() {
    let body = r#"{"success":true}"#;
    match decode_caption_response(body) {
        Err(ClientError::Decode(b)) => assert_eq!(b, body),
        _ => panic!("expected a decode failure"),
    }
    assert_eq!(reply_for_body(body), body);
}

#[test]
fn envelope_without_success_flag_is_a_decode_failure() {
    let body = r#"{"data":{"url":"https://x/1.jpg","page_url":"https://x/p/1"}}"#;
    assert!(matches!(decode_caption_response(body), Err(ClientError::Decode(_))));
}

#[test]
fn caption_reply_picks_the_url_or_the_message() {
    let ok = CaptionResponse {
        success: true,
        data: CaptionResponseData::Data {
            url: "https://x/2.jpg".to_string(),
            page_url: "https://x/p/2".to_string(),
        },
    };
    assert_eq!(caption_reply(&ok), "https://x/2.jpg");
    let failed = CaptionResponse {
        success: false,
        data: CaptionResponseData::ErrorMessage("no such template".to_string()),
    };
    assert_eq!(caption_reply(&failed), "no such template");
}

#[test]
fn client_error_text_is_the_carried_message() {
    assert_eq!(
        client_error_text(&ClientError::Transport("connection refused".to_string())),
        "connection refused"
    );
    assert_eq!(client_error_text(&ClientError::Decode("raw".to_string())), "raw");
}

#[test]
fn caption_params_carry_credentials_and_positional_boxes() {
    let client = ImgflipClient::new("user".to_string(), "pass".to_string());
    let texts = vec!["Top".to_string(), "Bottom".to_string()];
    let params = client.build_caption_params("181913649", &texts);
    assert_eq!(
        params,
        vec![
            ("template_id".to_string(), "181913649".to_string()),
            ("username".to_string(), "user".to_string()),
            ("password".to_string(), "pass".to_string()),
            ("boxes[0][text]".to_string(), "Top".to_string()),
            ("boxes[1][text]".to_string(), "Bottom".to_string()),
        ]
    );
}

#[test]
fn caption_params_render_two_digit_box_indices() {
    let client = ImgflipClient::new("u".to_string(), "p".to_string());
    let texts: Vec<String> = (0..12).map(|i| format!("line {}", i)).collect();
    let params = client.build_caption_params("1", &texts);
    assert_eq!(params.len(), 15);
    assert_eq!(params[13].0, "boxes[10][text]");
    assert_eq!(params[14].0, "boxes[11][text]");
    assert_eq!(params[14].1, "line 11");
}

#[test]
fn caption_params_with_no_texts_hold_only_the_fixed_fields() {
    let client = ImgflipClient::new("u".to_string(), "p".to_string());
    let params = client.build_caption_params("42", &Vec::new());
    assert_eq!(params.len(), 3);
    assert_eq!(params[0], ("template_id".to_string(), "42".to_string()));
}

#[test]
fn update_template_map_reports_failure_and_keeps_the_old_map() {
    let mut client = ImgflipClient::new("u".to_string(), "p".to_string());
    assert!(client.update_template_map(r#"{"drake":"181913649"}"#));
    assert!(!client.update_template_map("[1, 2, 3]"));
    assert_eq!(client.list_memes(), vec!["drake".to_string()]);
}
