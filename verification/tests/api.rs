use metastable::api::{apply_image_edits, may_edit_character, status_after_edit, CharacterFeature, CharacterStatus};
use metastable::api::{
    bind_email_user_id, card_pool_open, check_registration, checkout_email, checkout_user, mail_outcome, may_follow,
    needs_account_lookup, otp_email_form, payment_belongs_to, payment_notification, RegisterError, WebhookError, checkout_return_urls, extract_auth_token, forwarded_response_headers, hasura_identity,
    hasura_request_headers, login_user_id, may_read_conversation, may_update_character, otp_email_body, plan_agent_call,
    post_character_count_ok, post_character_slots, session_status, upload_extension, upload_key, vip_level_for, AgentCall, AuthError,
    BuyReferralRequest, CallError, GetConversationsRequest, ListCharactersQuery, ListCharactersWithFiltersQuery,
    ListConversationHistoryQuery, RuntimeCallType, SetCharacterStatusPayload, UploadRequest, UploadRequestError,
};

fn pairs(v: &[(&str, &str)]) -> Vec<(String, String)> {
    v.iter().map(|(a, b)| (a.to_string(), b.to_string())).collect()
}

#[test]
fn sign_in_identities() {
    assert_eq!(login_user_id("email", "a@b.c"), Ok("email_a@b.c".to_string()));
    assert_eq!(login_user_id("phone", "138"), Ok("phone_86_138".to_string()));
    assert_eq!(login_user_id("wechat", "x"), Err(AuthError::InvalidProvider));
    assert_eq!(bind_email_user_id("  a@b.c "), Some("email_a@b.c".to_string()));
    assert_eq!(bind_email_user_id("ab.c"), None);
    assert_eq!(bind_email_user_id("@b.c"), None);
    assert_eq!(bind_email_user_id("a@"), None);
    assert_eq!(otp_email_body("123456"), "Your OTP is: 123456. It will expire in 5 minutes.");
}

#[test]
fn sessions() {
    assert_eq!(session_status(None), Some((false, false)));
    assert_eq!(session_status(Some((false, true))), Some((true, true)));
    assert_eq!(session_status(Some((true, true))), None);
}

#[test]
fn tokens_from_header_or_cookie() {
    assert_eq!(extract_auth_token(Some("Bearer abc"), None), Some("abc".to_string()));
    assert_eq!(extract_auth_token(Some("  Bearer \t abc  "), None), Some("abc".to_string()));
    assert_eq!(extract_auth_token(Some("Basic abc"), None), None);
    assert_eq!(extract_auth_token(Some("Bearer a b"), None), None);
    assert_eq!(
        extract_auth_token(None, Some("theme=dark; metastable.auth_token=tok123; x=1")),
        Some("tok123".to_string())
    );
    assert_eq!(extract_auth_token(Some("Bearer h"), Some("metastable.auth_token=c")), Some("h".to_string()));
    assert_eq!(extract_auth_token(Some("Token h"), Some("metastable.auth_token=c")), Some("c".to_string()));
    // The value ends at the next `=`.
    assert_eq!(extract_auth_token(None, Some("metastable.auth_token=ab=cd")), Some("ab".to_string()));
    assert_eq!(extract_auth_token(None, Some("other=1")), None);
    assert_eq!(extract_auth_token(None, None), None);
}

#[test]
fn paging_defaults() {
    assert_eq!(ListCharactersQuery { limit: None, offset: None }.page(), (10, 0));
    assert_eq!(ListCharactersQuery { limit: Some(5), offset: Some(20) }.page(), (5, 20));
    let f = ListCharactersWithFiltersQuery { has_image: Some(true), has_roleplay_enabled: None, limit: None, offset: Some(3) };
    assert_eq!(f.page(), (10, 3));
    assert_eq!(ListConversationHistoryQuery { limit: Some(1), offset: None }.page(), (1, 0));
    assert_eq!(GetConversationsRequest { limit: None }.limit_or_default(), 1);
    assert_eq!(BuyReferralRequest { count: None }.count_or_default(), 1);
    assert_eq!(BuyReferralRequest { count: Some(4) }.count_or_default(), 4);
}

#[test]
fn access_rules() {
    assert!(SetCharacterStatusPayload { roleplay_status: Some(false) }.status_after(true) == false);
    assert!(SetCharacterStatusPayload { roleplay_status: None }.status_after(true));
    assert!(may_update_character(true, false));
    assert!(may_update_character(false, true));
    assert!(!may_update_character(false, false));
    assert!(may_read_conversation(true, false));
    assert!(!may_read_conversation(false, false));
    assert!(!post_character_count_ok(0));
    assert!(post_character_count_ok(3));
    assert!(!post_character_count_ok(4));
    assert_eq!(post_character_slots(&vec![7, 8]), (Some(7), Some(8), None));
}

#[test]
fn uploads() {
    let req = |f: &str, c: &str| UploadRequest { filename: f.to_string(), content_type: c.to_string() };
    assert_eq!(upload_extension(&req("photo.png", "image/png")), Ok("png".to_string()));
    assert_eq!(upload_extension(&req("archive.tar.gz", "application/gzip")), Ok("gz".to_string()));
    assert_eq!(upload_extension(&req(".bashrc", "text/plain")), Err(UploadRequestError::NoExtension));
    assert_eq!(upload_extension(&req("noext", "text/plain")), Err(UploadRequestError::NoExtension));
    assert_eq!(upload_extension(&req("", "text/plain")), Err(UploadRequestError::MissingField));
    assert_eq!(upload_extension(&req("a.png", "")), Err(UploadRequestError::MissingField));
    assert_eq!(upload_key(1, "png"), "00000000-0000-0000-0000-000000000001.png");
}

#[test]
fn runtime_calls() {
    assert_eq!(RuntimeCallType::CharacterCreation.price(), 3);
    assert_eq!(RuntimeCallType::RoleplayV1.price(), 3);
    assert_eq!(RuntimeCallType::RoleplayV1Regenerate.price(), 1);
    assert_eq!(plan_agent_call(RuntimeCallType::CharacterCreation, None, true), Ok(AgentCall::CharacterCreation));
    assert_eq!(
        plan_agent_call(RuntimeCallType::RoleplayV1, Some("hi".to_string()), false),
        Ok(AgentCall::Continue { pure_roleplay: false, message: "hi".to_string() })
    );
    assert_eq!(plan_agent_call(RuntimeCallType::RoleplayV1, None, true), Err(CallError::MessageRequired));
    assert_eq!(plan_agent_call(RuntimeCallType::RoleplayV1Regenerate, None, true), Ok(AgentCall::Regenerate { pure_roleplay: true }));
}

#[test]
fn query_proxy_headers() {
    assert_eq!(hasura_identity(None), (0, "anyone"));
    assert_eq!(hasura_identity(Some((5, true))), (5, "admin"));
    assert_eq!(hasura_identity(Some((5, false))), (5, "user"));
    let sent = hasura_request_headers(
        &pairs(&[("authorization", "Bearer x"), ("content-type", "application/json"), ("host", "h"), ("x-hasura-role", "admin")]),
        "user",
        1,
        "secret",
    );
    assert_eq!(
        sent,
        pairs(&[
            ("content-type", "application/json"),
            ("x-hasura-role", "user"),
            ("x-hasura-user-id", "00000000-0000-0000-0000-000000000001"),
            ("x-hasura-admin-secret", "secret"),
        ])
    );
    let back = forwarded_response_headers(&pairs(&[
        ("content-type", "application/json"),
        ("connection", "keep-alive"),
        ("set-cookie", "a=1"),
        ("transfer-encoding", "chunked"),
        ("set-cookie", "b=2"),
    ]));
    assert_eq!(back, pairs(&[("content-type", "application/json"), ("set-cookie", "b=2")]));
}

#[test]
fn checkout_details() {
    assert_eq!(checkout_email("email_a@b.c"), Some("a@b.c".to_string()));
    assert_eq!(checkout_email("phone_86_1"), None);
    assert_eq!(checkout_email("email_x email_y"), Some("x ".to_string()));
    assert_eq!(
        checkout_return_urls(None),
        (
            "http://localhost:3000/setting/recharge?status=success".to_string(),
            "http://localhost:3000/setting/recharge?status=success".to_string()
        )
    );
    assert_eq!(checkout_return_urls(Some("https://app")).0, "https://app/setting/recharge?status=success");
    assert_eq!(vip_level_for("price_1S7ciiK4f3Ep0fmJMAC6YvSR"), 1);
    assert_eq!(vip_level_for("price_1S7ckVK4f3Ep0fmJghyxiL0N"), 2);
    assert_eq!(vip_level_for("price_1S7cljK4f3Ep0fmJACVeWBXw"), 3);
    assert_eq!(vip_level_for("other"), 0);
}

#[test]
fn payment_webhook_attribution() {
    assert_eq!(checkout_user(None), Err(WebhookError::MissingClientReference));
    assert_eq!(checkout_user(Some("00000000-0000-0000-0000-00000000002a")), Ok(Some(42)));
    assert_eq!(checkout_user(Some("not-an-id")), Ok(None));
    assert!(payment_belongs_to(42, "00000000-0000-0000-0000-00000000002a"));
    assert!(!payment_belongs_to(41, "00000000-0000-0000-0000-00000000002a"));
    assert_eq!(payment_notification(2), "Payment proceed at level 2");
    assert_eq!(payment_notification(0), "Payment proceed at level 0");
    assert_eq!(payment_notification(-3), "Payment proceed at level -3");
}

#[test]
fn accounts_and_registration() {
    assert!(!needs_account_lookup(""));
    assert!(!needs_account_lookup("anonymous"));
    assert!(needs_account_lookup("email_a@b.c"));
    assert_eq!(check_registration(true, Some(false)), Err(RegisterError::UserExists));
    assert_eq!(check_registration(false, None), Err(RegisterError::ReferralNotFound));
    assert_eq!(check_registration(false, Some(true)), Err(RegisterError::ReferralUsed));
    assert_eq!(check_registration(false, Some(false)), Ok(()));
    assert!(may_follow(false));
    assert!(!may_follow(true));
    assert!(card_pool_open(10, 10));
    assert!(card_pool_open(9, 10));
    assert!(!card_pool_open(11, 10));
}

#[test]
fn otp_mail() {
    assert_eq!(
        otp_email_form("a@b.c", "123456"),
        pairs(&[
            ("from", "Metastable <dudu@metastable.art>"),
            ("to", "a@b.c"),
            ("subject", "Metastable OTP"),
            ("plain", "Your OTP is: 123456. It will expire in 5 minutes."),
        ])
    );
    assert_eq!(mail_outcome(true, Some(true), Some("sent")), Ok("sent".to_string()));
    assert_eq!(mail_outcome(true, Some(false), Some("quota")), Err("quota".to_string()));
    assert_eq!(mail_outcome(false, Some(true), None), Err("Unknown error".to_string()));
    assert_eq!(mail_outcome(true, None, None), Err("Unknown error".to_string()));
}

#[test]
fn character_edits() {
    let mut features: Vec<CharacterFeature<&str>> = vec![
        CharacterFeature::Other("roleplay"),
        CharacterFeature::AvatarImage("old-a".to_string()),
        CharacterFeature::AvatarImage("old-b".to_string()),
    ];
    apply_image_edits(&mut features, Some("new-a".to_string()), Some("bg".to_string()));
    let shown: Vec<String> = features
        .iter()
        .map(|f| match f {
            CharacterFeature::AvatarImage(u) => format!("avatar:{}", u),
            CharacterFeature::BackgroundImage(u) => format!("background:{}", u),
            CharacterFeature::Other(x) => format!("other:{}", x),
        })
        .collect();
    assert_eq!(shown, vec!["other:roleplay", "avatar:new-a", "avatar:old-b", "background:bg"]);
    assert_eq!(status_after_edit(CharacterStatus::<u8>::Draft), CharacterStatus::Draft);
    assert_eq!(status_after_edit(CharacterStatus::<u8>::Other(3)), CharacterStatus::Reviewing);
    assert_eq!(status_after_edit(CharacterStatus::<u8>::Reviewing), CharacterStatus::Reviewing);
    assert!(may_edit_character(7, 7));
    assert!(!may_edit_character(7, 8));
}

#[test]
fn upload_extensions_follow_path_rules() {
    let req = |f: &str| UploadRequest { filename: f.to_string(), content_type: "image/png".to_string() };
    assert_eq!(upload_extension(&req("dir/photo.png")), Ok("png".to_string()));
    assert_eq!(upload_extension(&req("a.tar.gz/.")), Ok("gz".to_string()));
    assert_eq!(upload_extension(&req("a/b.c//")), Ok("c".to_string()));
    assert_eq!(upload_extension(&req(".a.b")), Ok("b".to_string()));
    assert_eq!(upload_extension(&req("x.png/..")), Err(UploadRequestError::NoExtension));
    assert_eq!(upload_extension(&req("file.")), Err(UploadRequestError::NoExtension));
    assert_eq!(upload_extension(&req("/")), Err(UploadRequestError::NoExtension));
    assert_eq!(upload_extension(&req("dir.d/file")), Err(UploadRequestError::NoExtension));
}
