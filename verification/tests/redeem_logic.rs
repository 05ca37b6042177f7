use hoyolab_auto::redeem::{
    exchange_reply, ExchangeReply, is_missing, missing_info_notice, next_redeem_action, redeem_cookie, redeem_failure,
    redeem_games, select_codes, RedeemAction, FAILURE_MARK, TOKEN_EXPIRED_RETCODE,
};
use hoyolab_auto::structs::{GameInfo, RedeemData, RedeemGame};

fn s(x: &str) -> String {
    x.to_string()
}

fn info(entries: &[(&str, Option<&str>)]) -> GameInfo {
    GameInfo { entries: entries.iter().map(|(k, v)| (s(k), v.map(s))).collect() }
}

#[test]
fn missing_settings() {
    assert!(is_missing(None));
    assert!(is_missing(Some(&None)));
    assert!(is_missing(Some(&Some(s("   ")))));
    assert!(is_missing(Some(&Some(s("")))));
    assert!(!is_missing(Some(&Some(s(" 800000001 ")))));
}

#[test]
fn account_info_needs_uid_region_and_biz() {
    let full = info(&[("uid", Some("8001")), ("region", Some("os_asia")), ("game_biz", Some("hk4e_global"))]);
    assert!(RedeemGame::has_account_info(&full));
    let blank = info(&[("uid", Some("8001")), ("region", Some(" ")), ("game_biz", Some("hk4e_global"))]);
    assert!(!RedeemGame::has_account_info(&blank));
    let absent = info(&[("uid", Some("8001")), ("region", Some("os_asia"))]);
    assert!(!RedeemGame::has_account_info(&absent));
    let no_value = info(&[("uid", None), ("region", Some("os_asia")), ("game_biz", Some("x"))]);
    assert!(!RedeemGame::has_account_info(&no_value));
}

#[test]
fn setting_lookup() {
    let i = info(&[("uid", Some("1")), ("region", None)]);
    assert_eq!(i.get("uid"), Some(&Some(s("1"))));
    assert_eq!(i.get("region"), Some(&None));
    assert_eq!(i.get("game_biz"), None);
}

#[test]
fn redeem_game_catalogue() {
    let g = redeem_games();
    let names: Vec<&str> = g.iter().map(|x| x.name.as_str()).collect();
    assert_eq!(names, vec!["genshin", "hkrpg", "nap"]);
    assert_eq!(g[0].domain, "sg-hk4e-api");
    assert_eq!(g[0].method, "GET");
    assert_eq!(g[1].domain, "public-operation-hkrpg");
    assert_eq!(g[2].method, "POST");
}

#[test]
fn exchange_urls() {
    let g = redeem_games();
    assert_eq!(
        g[0].exchange_url(),
        "https://sg-hk4e-api.hoyoverse.com/common/apicdkey/api/webExchangeCdkey"
    );
    assert_eq!(
        g[1].exchange_url(),
        "https://public-operation-hkrpg.hoyoverse.com/common/apicdkey/api/webExchangeCdkeyRisk"
    );
    assert!(g[0].sends_query());
    assert!(!g[2].sends_query());
}

#[test]
fn exchange_params_default_to_empty() {
    let code = RedeemData::new(s("GENSHINGIFT"), s("Primogem x60"));
    let i = info(&[("uid", Some("8001")), ("region", None)]);
    let p = code.exchange_params(&i);
    let expected = vec![
        (s("lang"), s("zh-tw")),
        (s("cdkey"), s("GENSHINGIFT")),
        (s("uid"), s("8001")),
        (s("game_biz"), s("")),
        (s("region"), s("")),
    ];
    assert_eq!(p, expected);
}

#[test]
fn new_code_is_untried() {
    let d = RedeemData::new(s("A"), s("B"));
    assert_eq!(d.cdkey, "A");
    assert_eq!(d.reward, "B");
    assert_eq!(d.status, None);
}

#[test]
fn cookie_and_failure_texts() {
    assert_eq!(redeem_cookie("123", "tok"), "account_mid_v2=123;cookie_token_v2=tok");
    assert_eq!(
        redeem_failure("400 Bad Request", "{}"),
        "❌ Redeem failed 400 Bad Request: {}"
    );
    assert_eq!(FAILURE_MARK, "❌ Redeem failed");
    let g = &redeem_games()[2];
    assert_eq!(missing_info_notice(g), "uid, region, or game_biz is missing for nap");
}

#[test]
fn token_expiry_is_retried_once() {
    assert_eq!(TOKEN_EXPIRED_RETCODE, -1071);
    assert!(matches!(next_redeem_action(false, Some(-1071), Some(s("expired"))), RedeemAction::RefreshAndRetry));
    match next_redeem_action(true, Some(-1071), Some(s("expired"))) {
        RedeemAction::Finish(t) => assert_eq!(t, "expired"),
        _ => panic!("retried twice"),
    }
}

#[test]
fn reply_message_or_unknown_error() {
    match next_redeem_action(false, Some(0), Some(s("兌換成功"))) {
        RedeemAction::Finish(t) => assert_eq!(t, "兌換成功"),
        _ => panic!(),
    }
    match next_redeem_action(false, None, None) {
        RedeemAction::Finish(t) => assert_eq!(t, "未知錯誤"),
        _ => panic!(),
    }
}

#[test]
fn codes_worth_trying() {
    let fetched = vec![
        (s("NEW"), s("Primogem x60")),
        (s("DONE"), s("Mora x10000")),
        (s("FAILED"), s("")),
        (s("RETRIED_OK"), s("x")),
    ];
    let history = vec![
        (s("DONE"), s("兌換成功")),
        (s("FAILED"), s("❌ Redeem failed 500 Internal Server Error: oops")),
        (s("RETRIED_OK"), s("❌ Redeem failed 502 Bad Gateway: ")),
        (s("RETRIED_OK"), s("兌換成功")),
    ];
    let got = select_codes(&fetched, &history);
    let keys: Vec<&str> = got.iter().map(|c| c.cdkey.as_str()).collect();
    assert_eq!(keys, vec!["NEW", "FAILED"]);
    assert_eq!(got[0].reward, "Primogem x60");
    assert!(got.iter().all(|c| c.status.is_none()));
}

#[test]
fn latest_history_entry_decides() {
    let fetched = vec![(s("K"), s("r"))];
    let history = vec![(s("K"), s("兌換成功")), (s("K"), s("❌ Redeem failed 400 Bad Request: x"))];
    assert_eq!(select_codes(&fetched, &history).len(), 1);
    assert_eq!(select_codes(&fetched, &vec![]).len(), 1);
}

#[test]
fn report_fields() {
    let mut failed = RedeemData::new(s("F"), s("Gems"));
    failed.status = Some(s("❌ Redeem failed 400 Bad Request: no"));
    let f = failed.report_field();
    assert_eq!(f.name, "**F**");
    assert_eq!(f.value, "`❌ Redeem failed 400 Bad Request: no`");

    let mut plain = RedeemData::new(s("P"), s(""));
    plain.status = Some(s("兌換成功"));
    assert_eq!(plain.report_field().value, "`Reward Not Displayed`");

    let mut rewarded = RedeemData::new(s("R"), s("Mora x10000"));
    rewarded.status = Some(s("已兌換"));
    assert_eq!(rewarded.report_field().value, "`Mora x10000`");
}

#[test]
fn redeem_report_message() {
    let g = &redeem_games()[0];
    let mut c = RedeemData::new(s("K"), s("Primogem x60"));
    c.status = Some(s("ok"));
    let m = g.webhook_message(&vec![c], "2024-01-01 08:00:00", "42", 0x123456);
    assert_eq!(m.content, "<@42> Finish Redeem For genshin At `2024-01-01 08:00:00`");
    assert_eq!(m.title, "genshin 兌換碼兌換");
    assert_eq!(m.color, 0x123456);
    assert_eq!(m.fields.len(), 1);
    assert_eq!(m.fields[0].name, "**K**");
    assert_eq!(m.fields[0].value, "`Primogem x60`");
    assert_eq!(m.inline, Some(false));
    assert_eq!(m.username, "アストローギスト・モナ・メギストス");
}

#[test]
fn exchange_reply_reads_status_and_body() {
    match exchange_reply(400, "400 Bad Request", "nope") {
        ExchangeReply::HttpError(m) => assert_eq!(m, "❌ Redeem failed 400 Bad Request: nope"),
        _ => panic!("expected an HTTP error"),
    }
    match exchange_reply(200, "200 OK", r#"{"retcode":-2017,"message":"已兌換"}"#) {
        ExchangeReply::Reply { retcode, message } => {
            assert_eq!(retcode, Some(-2017));
            assert_eq!(message, Some(s("已兌換")));
        }
        _ => panic!("expected a reply"),
    }
    match exchange_reply(204, "204 No Content", r#"{"retcode":"x","message":3}"#) {
        ExchangeReply::Reply { retcode, message } => {
            assert_eq!(retcode, None);
            assert_eq!(message, None);
        }
        _ => panic!("expected a reply"),
    }
    assert!(matches!(exchange_reply(200, "200 OK", "<html>"), ExchangeReply::NotJson(_)));
    assert!(matches!(exchange_reply(302, "302 Found", "{}"), ExchangeReply::HttpError(_)));
}

#[test]
fn outcome_is_recorded_as_status() {
    let mut c = RedeemData::new(s("K"), s("r"));
    c.record_outcome(Ok(s("兌換成功")));
    assert_eq!(c.status, Some(s("兌換成功")));
    c.record_outcome(Err(s("❌ Redeem failed 500 Internal Server Error: x")));
    assert_eq!(c.status, Some(s("❌ Redeem failed 500 Internal Server Error: x")));
    assert_eq!(c.cdkey, "K");
}
