use x_likes_downloader::config::Config;
use x_likes_downloader::config::EnvOverrides;
use x_likes_downloader::config::token_file_lookup;
use x_likes_downloader::setup::SetupError;
use x_likes_downloader::setup::format_private_tokens;
use x_likes_downloader::setup::parse_cookies;
use x_likes_downloader::setup::parse_curl_command;
use x_likes_downloader::setup::private_tokens_from_curl;

const SAMPLE_CURL: &str = "curl 'https://x.test/api' -H 'AUTHORIZATION: Bearer AAAA1234' -H 'User-Agent: TestAgent/1.0' -H 'x-client-uuid: uuid-77' -H 'X-Client-Transaction-Id: txid-88' -b 'twid=\"u%3D4242\"; auth_token=tok; ct0=csrf; personalization_id=\"pid\"'";

#[test]
fn curl_command_parses_headers_and_cookie() {
    let p = parse_curl_command(SAMPLE_CURL).expect("well-formed command");
    assert_eq!(p.bearer_token, "AAAA1234");
    assert_eq!(
        p.cookie_str,
        "twid=\"u%3D4242\"; auth_token=tok; ct0=csrf; personalization_id=\"pid\""
    );
    assert_eq!(p.user_agent, Some("TestAgent/1.0".to_string()));
    assert_eq!(p.x_client_uuid, Some("uuid-77".to_string()));
    assert_eq!(p.x_client_transaction_id, Some("txid-88".to_string()));
}

#[test]
fn curl_command_without_cookie_fails() {
    let cmd = "curl 'https://x.test' -H 'Authorization: Bearer T'";
    assert!(matches!(parse_curl_command(cmd), Err(SetupError::NoCookie)));
}

#[test]
fn curl_command_without_bearer_fails() {
    let cmd = "curl 'https://x.test' -H 'Accept: text/html' -b 'a=b'";
    assert!(matches!(parse_curl_command(cmd), Err(SetupError::NoBearer)));
}

#[test]
fn last_authorization_header_wins() {
    let cmd = "-H 'Authorization: Bearer ONE' -H 'Authorization: Bearer TWO' -b 'a=b'";
    let p = parse_curl_command(cmd).expect("parses");
    assert_eq!(p.bearer_token, "TWO");
}

#[test]
fn cookies_parse_with_quotes_and_twid_prefixes() {
    let c = parse_cookies("twid=\"u%3D4242\"; auth_token=tok; ct0=csrf; personalization_id=\"pid\"")
        .expect("all required cookies present");
    assert_eq!(c.twid, "4242");
    assert_eq!(c.auth_token, "tok");
    assert_eq!(c.ct0, "csrf");
    assert_eq!(c.personalization_id, "pid");
}

#[test]
fn plain_u_prefix_is_stripped() {
    let c = parse_cookies("twid=u=77; auth_token=a; ct0=c; personalization_id=p").expect("parses");
    assert_eq!(c.twid, "77");
}

#[test]
fn missing_cookie_is_named() {
    match parse_cookies("auth_token=a; ct0=c; personalization_id=p") {
        Err(SetupError::MissingCookie(k)) => assert_eq!(k, "twid"),
        _ => panic!("twid should be reported missing first"),
    }
    match parse_cookies("twid=1; ct0=c; personalization_id=p") {
        Err(SetupError::MissingCookie(k)) => assert_eq!(k, "auth_token"),
        _ => panic!("auth_token should be reported missing"),
    }
}

#[test]
fn duplicate_cookie_keys_take_the_last_value() {
    let c = parse_cookies("twid=1; twid=2; auth_token=a; ct0=c; personalization_id=p")
        .expect("parses");
    assert_eq!(c.twid, "2");
}

#[test]
fn token_file_layout() {
    let content = format_private_tokens("id", "b", "a", "c", "p", "ua", "uu", "tx");
    assert_eq!(
        content,
        "USER_ID=id\nBEARER_TOKEN=b\nAUTH_TOKEN=a\nCT0=c\nPERSONALIZATION_ID=p\nUSER_AGENT=ua\nX_CLIENT_UUID=uu\nX_CLIENT_TRANSACTION_ID=tx\n"
    );
}

#[test]
fn bootstrap_end_to_end() {
    let content = private_tokens_from_curl(SAMPLE_CURL).expect("well-formed command");
    assert_eq!(
        content,
        "USER_ID=4242\nBEARER_TOKEN=AAAA1234\nAUTH_TOKEN=tok\nCT0=csrf\nPERSONALIZATION_ID=pid\nUSER_AGENT=TestAgent/1.0\nX_CLIENT_UUID=uuid-77\nX_CLIENT_TRANSACTION_ID=txid-88\n"
    );
}

#[test]
fn token_file_lookup_trims_and_takes_last() {
    let content = "USER_ID = 1 \nUSER_ID=2\nBROKEN LINE\n";
    assert_eq!(token_file_lookup(content, "USER_ID"), Some("2".to_string()));
    assert_eq!(token_file_lookup(content, "CT0"), None);
}

fn no_overrides() -> EnvOverrides {
    EnvOverrides {
        count: None,
        all: None,
        download_dir: None,
        download_record: None,
        file_format: None,
        auto_organize: None,
        target_dir: None,
        likes_api_url: None,
        likes_features: None,
        likes_fieldtoggles: None,
        tweet_detail_api_url: None,
        tweet_features: None,
        tweet_fieldtoggles: None,
        mock_mode: None,
        mock_liked_tweets_file: None,
    }
}

#[test]
fn config_defaults() {
    let cfg = Config::from_sources("USER_ID=9\nBEARER_TOKEN=b\n", &no_overrides());
    assert_eq!(cfg.user_id, "9");
    assert_eq!(cfg.bearer_token, "b");
    assert_eq!(cfg.auth_token, "");
    assert_eq!(cfg.count, "20");
    assert!(!cfg.all);
    assert_eq!(cfg.download_dir, "data/downloads");
    assert_eq!(cfg.download_record, "data/downloaded_tweet_ids.txt");
    assert_eq!(cfg.file_format, "{USERNAME} {ID}");
    assert!(!cfg.auto_organize);
    assert_eq!(cfg.target_dir, "data/organized");
    assert!(cfg.likes_api_url.contains("graphql"));
    assert!(!cfg.mock_mode);
}

#[test]
fn config_flag_comparison_folds_case() {
    let mut env = no_overrides();
    env.all = Some("TRUE".to_string());
    env.auto_organize = Some("False".to_string());
    env.count = Some("50".to_string());
    let cfg = Config::from_sources("", &env);
    assert!(cfg.all);
    assert!(!cfg.auto_organize);
    assert_eq!(cfg.count, "50");
}
