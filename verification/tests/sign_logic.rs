use hoyolab_auto::sign::{
    parse_res, sign_cookie, sign_games, sign_methods, sign_webhook_message, Award, SignPhase,
    SignReply, SignRequest, ALREADY_SIGNED_RETCODE,
};
use hoyolab_auto::structs::{EmbedField, SignGame};

fn s(x: &str) -> String {
    x.to_string()
}

fn field(n: &str, v: &str) -> EmbedField {
    EmbedField { name: s(n), value: s(v) }
}

fn pairs(f: &[EmbedField]) -> Vec<(String, String)> {
    f.iter().map(|x| (x.name.clone(), x.value.clone())).collect()
}

fn awards(n: usize) -> Vec<Award> {
    (1..=n).map(|i| Award { name: format!("Reward{}", i), cnt: (i * 10).to_string() }).collect()
}

#[test]
fn sign_game_catalogue() {
    let g = sign_games();
    let names: Vec<&str> = g.iter().map(|x| x.name.as_str()).collect();
    assert_eq!(names, vec!["原神", "崩壞三", "崩壞：星穹鐵道", "絕區零"]);
    let signgames: Vec<&str> = g.iter().map(|x| x.signgame.as_str()).collect();
    assert_eq!(signgames, vec!["hk4e", "bh3", "hkrpg", "zzz"]);
    assert_eq!(g[2].biz, "luna/os");
    assert_eq!(g[3].act_id, "e202406031448091");
}

#[test]
fn check_in_requests() {
    let m = sign_methods();
    let v: Vec<(&str, &str, i32)> = m.iter().map(|x| (x.name.as_str(), x.method.as_str(), x.cookie)).collect();
    assert_eq!(v, vec![("sign", "POST", 1), ("info", "GET", 1), ("home", "GET", 0)]);
    assert!(m[0].sends_cookie());
    assert!(!m[2].sends_cookie());
    let g = &sign_games()[0];
    assert_eq!(
        m[0].url(g),
        "https://sg-hk4e-api.hoyolab.com/event/sol/sign?act_id=e202102251931481&lang=zh-tw"
    );
    let g = &sign_games()[3];
    assert_eq!(
        SignRequest::Home.method().url(g),
        "https://sg-public-api.hoyolab.com/event/luna/zzz/os/home?act_id=e202406031448091&lang=zh-tw"
    );
    assert_eq!(sign_cookie("1", "t"), "ltuid_v2=1;ltoken_v2=t");
}

#[test]
fn successful_check_in_reports_reward() {
    let g = &sign_games()[0];
    let mut p = SignGame::sign_start();
    assert!(matches!(p.next_request(), Some(SignRequest::Claim)));
    p = g.sign_step(p, SignReply::Claim { retcode: Some(0), message: s("OK") });
    assert!(matches!(p.next_request(), Some(SignRequest::Info)));
    p = g.sign_step(p, SignReply::Info { total_sign_day: 3 });
    assert!(matches!(p.phase, SignPhase::AwaitHome { day: 3 }));
    assert!(matches!(p.next_request(), Some(SignRequest::Home)));
    p = g.sign_step(p, SignReply::Home { awards: awards(30) });
    assert!(p.next_request().is_none());
    assert_eq!(pairs(&p.fields), vec![(s("原神 3 / 30"), s("`Reward3` x30"))]);
}

#[test]
fn already_claimed_reports_message() {
    assert_eq!(ALREADY_SIGNED_RETCODE, -5003);
    let g = &sign_games()[1];
    let p = g.sign_step(
        SignGame::sign_start(),
        SignReply::Claim { retcode: Some(-5003), message: s("旅行者,你已經簽到過了~") },
    );
    assert!(matches!(p.phase, SignPhase::Finished));
    assert_eq!(pairs(&p.fields), vec![(s("崩壞三"), s("旅行者,你已經簽到過了~"))]);
}

#[test]
fn other_failures_report_nothing() {
    let g = &sign_games()[2];
    let p = g.sign_step(
        SignGame::sign_start(),
        SignReply::Claim { retcode: Some(-100), message: s("尚未登入") },
    );
    assert!(p.next_request().is_none());
    assert!(p.fields.is_empty());
}

#[test]
fn last_day_of_month() {
    let g = &sign_games()[3];
    let mut p = g.sign_step(SignGame::sign_start(), SignReply::Claim { retcode: None, message: s("OK") });
    p = g.sign_step(p, SignReply::Info { total_sign_day: 31 });
    p = g.sign_step(p, SignReply::Home { awards: awards(31) });
    assert_eq!(pairs(&p.fields), vec![(s("絕區零 31 / 31"), s("`Reward31` x310"))]);
}

#[test]
fn report_separates_results() {
    assert!(parse_res(&vec![]).is_empty());
    assert_eq!(pairs(&parse_res(&vec![field("a", "1")])), vec![(s("a"), s("1"))]);
    let out = parse_res(&vec![field("a", "1"), field("b", "2"), field("c", "3")]);
    assert_eq!(
        pairs(&out),
        vec![
            (s("a"), s("1")),
            (s("** **"), s("** **")),
            (s("b"), s("2")),
            (s("** **"), s("** **")),
            (s("c"), s("3")),
        ]
    );
}

#[test]
fn check_in_report_message() {
    let m = sign_webhook_message(&vec![field("a", "1"), field("b", "2")], "2024-05-01 00:00:05", "99", 7);
    assert_eq!(m.content, "<@99> Finish check-in at `2024-05-01 00:00:05`");
    assert_eq!(m.title, "HoyoLab 簽到");
    assert_eq!(m.color, 7);
    assert_eq!(m.fields.len(), 3);
    assert_eq!(m.inline, None);
    assert_eq!(m.username, "アストローギスト・モナ・メギストス");
}

#[test]
fn reward_count_is_written_as_its_json_text() {
    let g = &sign_games()[0];
    let mut p = g.sign_step(SignGame::sign_start(), SignReply::Claim { retcode: Some(0), message: s("OK") });
    p = g.sign_step(p, SignReply::Info { total_sign_day: 1 });
    p = g.sign_step(p, SignReply::Home { awards: vec![Award { name: s("Mora"), cnt: s("1.5") }] });
    assert_eq!(pairs(&p.fields), vec![(s("原神 1 / 1"), s("`Mora` x1.5"))]);
}
