//! Gift-code redemption: which games take part, which codes are still worth
//! trying, the exchange request for a code, what a reply decides, and the
//! report sent afterwards.

use vstd::prelude::*;

use crate::structs::{
    bot_name, fields_view, pairs_view, opt_text, setting, EmbedField, GameInfo, RedeemData, RedeemDataView, RedeemGame,
    WebhookMessage,
};
use crate::text::{contains, contains_seq, is_blank, occurs_at, is_blank_str, is_white_space, same_text};

verus! {

/// The `retcode` with which the exchange API says that the login token expired.
pub const TOKEN_EXPIRED_RETCODE: i64 = -1071;

/// The text that opens the status of a code whose exchange request failed.
pub const FAILURE_MARK: &'static str = "❌ Redeem failed";

/// A setting that is absent, has no value, or has a blank value.
pub open spec fn missing(value: Option<Option<Seq<char>>>) -> bool {
    match value {
        None => true,
        Some(None) => true,
        Some(Some(s)) => is_blank(s),
    }
}

/// Whether a setting is absent, has no value, or has only white space.
pub fn is_missing(value: Option<&Option<String>>) -> (r: bool)
    ensures
        r == missing(match value {
            Some(v) => Some(opt_text(*v)),
            None => None,
        }),
{
    match value {
        None => true,
        Some(v) => match v {
            None => true,
            Some(s) => is_blank_str(s.as_str()),
        },
    }
}

/// The section of a game has all that an exchange request needs.
pub open spec fn account_info_complete(info: Seq<(Seq<char>, Option<Seq<char>>)>) -> bool {
    &&& !missing(setting(info, "uid"@))
    &&& !missing(setting(info, "region"@))
    &&& !missing(setting(info, "game_biz"@))
}

/// A game's section is complete exactly when each of `uid`, `region` and
/// `game_biz` has a value that holds a character other than white space; a
/// section whose uid is empty or blank is incomplete.
pub proof fn lemma_account_info_needs_text(info: Seq<(Seq<char>, Option<Seq<char>>)>)
    ensures
        account_info_complete(info) <==> {
            &&& exists|v: Seq<char>, i: int|
                setting(info, "uid"@) == Some(Some(v)) && 0 <= i < v.len() && !is_white_space(
                    #[trigger] v[i],
                )
            &&& exists|v: Seq<char>, i: int|
                setting(info, "region"@) == Some(Some(v)) && 0 <= i < v.len() && !is_white_space(
                    #[trigger] v[i],
                )
            &&& exists|v: Seq<char>, i: int|
                setting(info, "game_biz"@) == Some(Some(v)) && 0 <= i < v.len() && !is_white_space(
                    #[trigger] v[i],
                )
        },
        (setting(info, "uid"@) matches Some(Some(v)) && is_blank(v)) ==> !account_info_complete(
            info,
        ),
{
}

/// The text of a setting, or the empty text where it is absent or has no value.
pub open spec fn setting_or_empty(info: Seq<(Seq<char>, Option<Seq<char>>)>, key: Seq<char>) -> Seq<
    char,
> {
    match setting(info, key) {
        Some(Some(v)) => v,
        _ => Seq::empty(),
    }
}

/// The games whose codes are redeemed, in the order they are handled.
pub fn redeem_games() -> (games: Vec<RedeemGame>)
    ensures
        games@.len() == 3,
        games@[0].name@ == "genshin"@,
        games@[0].domain@ == "sg-hk4e-api"@,
        games@[0].method@ == "GET"@,
        games@[1].name@ == "hkrpg"@,
        games@[1].domain@ == "public-operation-hkrpg"@,
        games@[1].method@ == "POST"@,
        games@[2].name@ == "nap"@,
        games@[2].domain@ == "public-operation-nap"@,
        games@[2].method@ == "POST"@,
{
    let mut games = Vec::new();
    games.push(
        RedeemGame {
            name: String::from_str("genshin"),
            domain: String::from_str("sg-hk4e-api"),
            method: String::from_str("GET"),
        },
    );
    games.push(
        RedeemGame {
            name: String::from_str("hkrpg"),
            domain: String::from_str("public-operation-hkrpg"),
            method: String::from_str("POST"),
        },
    );
    games.push(
        RedeemGame {
            name: String::from_str("nap"),
            domain: String::from_str("public-operation-nap"),
            method: String::from_str("POST"),
        },
    );
    games
}

/// The `Cookie` header of an exchange request.
pub fn redeem_cookie(account_mid: &str, cookie_token: &str) -> (c: String)
    ensures
        c@ == "account_mid_v2="@ + account_mid@ + ";cookie_token_v2="@ + cookie_token@,
{
    let mut c = String::from_str("account_mid_v2=");
    c.append(account_mid);
    c.append(";cookie_token_v2=");
    c.append(cookie_token);
    c
}

/// The status recorded for a code whose exchange request got an HTTP error.
pub fn redeem_failure(status: &str, body: &str) -> (m: String)
    ensures
        m@ == FAILURE_MARK@ + " "@ + status@ + ": "@ + body@,
{
    let mut m = String::from_str(FAILURE_MARK);
    m.append(" ");
    m.append(status);
    m.append(": ");
    m.append(body);
    m
}

/// The text printed when a game's section lacks what an exchange needs.
pub fn missing_info_notice(game: &RedeemGame) -> (m: String)
    ensures
        m@ == "uid, region, or game_biz is missing for "@ + game.name@,
{
    let mut m = String::from_str("uid, region, or game_biz is missing for ");
    m.append(game.name.as_str());
    m
}

impl RedeemGame {
    /// Whether the game's section names the account's uid, region and game
    /// biz; a game without them is skipped.
    pub fn has_account_info(info: &GameInfo) -> (r: bool)
        ensures
            r == account_info_complete(info@),
    {
        !(is_missing(info.get("uid")) || is_missing(info.get("region")) || is_missing(
            info.get("game_biz"),
        ))
    }

    /// Whether the exchange request sends its parameters in the query string
    /// (a `GET` request) rather than as a JSON body.
    pub fn sends_query(&self) -> (r: bool)
        ensures
            r == (self.method@ == "GET"@),
    {
        same_text(self.method.as_str(), "GET")
    }

    /// The address of the exchange endpoint.
    pub fn exchange_url(&self) -> (u: String)
        ensures
            u@ == "https://"@ + self.domain@ + ".hoyoverse.com/common/apicdkey/api/webExchangeCdkey"@
                + (if self.method@ == "POST"@ {
                "Risk"@
            } else {
                ""@
            }),
    {
        let mut u = String::from_str("https://");
        u.append(self.domain.as_str());
        u.append(".hoyoverse.com/common/apicdkey/api/webExchangeCdkey");
        if same_text(self.method.as_str(), "POST") {
            u.append("Risk");
        } else {
            u.append("");
        }
        u
    }
}

impl RedeemData {
    /// The parameters of the exchange request for this code, in order.
    pub fn exchange_params(&self, info: &GameInfo) -> (p: Vec<(String, String)>)
        ensures
            p@.len() == 5,
            p@[0].0@ == "lang"@ && p@[0].1@ == "zh-tw"@,
            p@[1].0@ == "cdkey"@ && p@[1].1@ == self.cdkey@,
            p@[2].0@ == "uid"@ && p@[2].1@ == setting_or_empty(info@, "uid"@),
            p@[3].0@ == "game_biz"@ && p@[3].1@ == setting_or_empty(info@, "game_biz"@),
            p@[4].0@ == "region"@ && p@[4].1@ == setting_or_empty(info@, "region"@),
    {
        let mut p = Vec::new();
        p.push((String::from_str("lang"), String::from_str("zh-tw")));
        p.push((String::from_str("cdkey"), self.cdkey.clone()));
        p.push((String::from_str("uid"), setting_text(info, "uid")));
        p.push((String::from_str("game_biz"), setting_text(info, "game_biz")));
        p.push((String::from_str("region"), setting_text(info, "region")));
        p
    }
}

fn setting_text(info: &GameInfo, key: &str) -> (t: String)
    ensures
        t@ == setting_or_empty(info@, key@),
{
    match info.get(key) {
        Some(v) => match v {
            Some(s) => s.clone(),
            None => String::new(),
        },
        None => String::new(),
    }
}

/// The `retcode` (where it is an integer) and the `message` (where it is a
/// string) of the JSON object that `body` holds, as `serde_json::from_str`
/// reads it into a `serde_json::Value`; `None` where `body` is no JSON text.
pub uninterp spec fn json_reply_fields(body: Seq<char>) -> Option<(Option<i64>, Option<Seq<char>>)>;

/// Reads the `retcode` and `message` of an exchange reply's body with
/// `serde_json::from_str::<serde_json::Value>`, then `["retcode"].as_i64()`
/// and `["message"].as_str()`. Where the body is no JSON, the parse error's
/// text comes back; that text is not stated.
#[verifier::external_body]
fn read_reply_fields(body: &str) -> (r: Result<(Option<i64>, Option<String>), String>)
    ensures
        match r {
            Ok(x) => json_reply_fields(body@) == Some((x.0, opt_text(x.1))),
            Err(_) => json_reply_fields(body@) is None,
        },
{
    match serde_json::from_str::<serde_json::Value>(body) {
        Ok(v) => {
            let message = match v["message"].as_str() {
                Some(m) => Some(m.to_string()),
                None => None,
            };
            Ok((v["retcode"].as_i64(), message))
        },
        Err(e) => Err(e.to_string()),
    }
}

/// What the HTTP answer to an exchange request says.
pub enum ExchangeReply {
    /// A successful answer with a JSON body: its `retcode` and `message`.
    Reply { retcode: Option<i64>, message: Option<String> },
    /// An answer with an error status; the text is the status recorded for the code.
    HttpError(String),
    /// A successful answer whose body is no JSON; the text is the parse error's.
    NotJson(String),
}

/// Reads the HTTP answer to an exchange request: its status code, the status
/// as `StatusCode` writes it, and the body text.
pub fn exchange_reply(status: u16, status_text: &str, body: &str) -> (r: ExchangeReply)
    ensures
        !(200 <= status <= 299) ==> (r matches ExchangeReply::HttpError(m) && m@ == FAILURE_MARK@
            + " "@ + status_text@ + ": "@ + body@),
        200 <= status <= 299 ==> match json_reply_fields(body@) {
            Some(x) => (r matches ExchangeReply::Reply { retcode, message } && retcode == x.0
                && opt_text(message) == x.1),
            None => r is NotJson,
        },
{
    if status < 200 || status > 299 {
        return ExchangeReply::HttpError(redeem_failure(status_text, body));
    }
    match read_reply_fields(body) {
        Ok(x) => ExchangeReply::Reply { retcode: x.0, message: x.1 },
        Err(e) => ExchangeReply::NotJson(e),
    }
}

impl RedeemData {
    /// Records the outcome of redeeming this code as its status: the text that
    /// the exchange ended with, or the text of the error that stopped it.
    pub fn record_outcome(&mut self, outcome: Result<String, String>)
        ensures
            final(self).cdkey == old(self).cdkey,
            final(self).reward == old(self).reward,
            opt_text(final(self).status) == Some(
                match outcome {
                    Ok(t) => t@,
                    Err(e) => e@,
                },
            ),
    {
        let text = match outcome {
            Ok(t) => t,
            Err(e) => e,
        };
        self.status = Some(text);
    }
}

/// What a reply to an exchange request leads to.
pub enum RedeemAction {
    /// The token expired: refresh it, rebuild the cookie and send the request again.
    RefreshAndRetry,
    /// The exchange is over; the text is the status recorded for the code.
    Finish(String),
}

/// The text `未知錯誤` ("unknown error"), recorded when a reply carries no message.
pub open spec fn unknown_error() -> Seq<char> {
    "未知錯誤"@
}

/// The decision on a reply: retry once after a token expiry, else record the
/// reply's message, or `未知錯誤` where it has none.
pub open spec fn redeem_decision(retried: bool, retcode: Option<i64>, message: Option<Seq<char>>) -> Option<
    Seq<char>,
> {
    if retcode == Some(TOKEN_EXPIRED_RETCODE) && !retried {
        None
    } else {
        match message {
            Some(m) => Some(m),
            None => Some(unknown_error()),
        }
    }
}

/// Decides on a reply to an exchange request, given whether the request was
/// already retried, the reply's `retcode` and its `message` where it is text.
pub fn next_redeem_action(retried: bool, retcode: Option<i64>, message: Option<String>) -> (a:
    RedeemAction)
    ensures
        match a {
            RedeemAction::RefreshAndRetry => redeem_decision(retried, retcode, opt_text(message))
                is None,
            RedeemAction::Finish(t) => redeem_decision(retried, retcode, opt_text(message)) == Some(
                t@,
            ),
        },
{
    let expired = match retcode {
        Some(c) => c == TOKEN_EXPIRED_RETCODE,
        None => false,
    };
    if expired && !retried {
        RedeemAction::RefreshAndRetry
    } else {
        match message {
            Some(m) => RedeemAction::Finish(m),
            None => RedeemAction::Finish(String::from_str("未知錯誤")),
        }
    }
}

/// A request that was already retried is never retried again, whatever the reply.
pub proof fn lemma_retry_at_most_once(retcode: Option<i64>, message: Option<Seq<char>>)
    ensures
        redeem_decision(true, retcode, message) is Some,
{
}

/// On a reply not retried yet, the exchange refreshes the token and retries
/// exactly when the reply's `retcode` is -1071; on any other reply it ends
/// with the reply's message, or `未知錯誤` where the reply has none.
pub proof fn lemma_retry_only_on_token_expiry(retcode: Option<i64>, message: Option<Seq<char>>)
    ensures
        redeem_decision(false, retcode, message) is None <==> retcode == Some(-1071i64),
        retcode != Some(-1071i64) ==> redeem_decision(false, retcode, message) == Some(
            match message {
                Some(m) => m,
                None => "未知錯誤"@,
            },
        ),
        redeem_decision(true, retcode, message) == Some(
            match message {
                Some(m) => m,
                None => "未知錯誤"@,
            },
        ),
{
}

/// The status last recorded for `code` in the history of past redemptions.
pub open spec fn latest_status(history: Seq<(Seq<char>, Seq<char>)>, code: Seq<char>) -> Option<
    Seq<char>,
>
    decreases history.len(),
{
    if history.len() == 0 {
        None
    } else if history.last().0 == code {
        Some(history.last().1)
    } else {
        latest_status(history.drop_last(), code)
    }
}

/// A code is worth trying when it was never tried, or when its last try failed
/// with an HTTP error.
pub open spec fn worth_trying(history: Seq<(Seq<char>, Seq<char>)>, code: Seq<char>) -> bool {
    match latest_status(history, code) {
        None => true,
        Some(s) => contains_seq(s, FAILURE_MARK@),
    }
}

/// The codes out of `fetched` (code and reward, in order) that are worth
/// trying, in the same order, none of them tried yet.
pub open spec fn pending_codes(
    fetched: Seq<(Seq<char>, Seq<char>)>,
    history: Seq<(Seq<char>, Seq<char>)>,
) -> Seq<RedeemDataView>
    decreases fetched.len(),
{
    if fetched.len() == 0 {
        Seq::empty()
    } else {
        let rest = pending_codes(fetched.drop_last(), history);
        let code = fetched.last();
        if worth_trying(history, code.0) {
            rest.push(RedeemDataView { cdkey: code.0, reward: code.1, status: None })
        } else {
            rest
        }
    }
}

/// Each code that a run tries is one of the fetched codes with its reward, is
/// worth trying, and has not been tried yet; and every fetched code worth
/// trying is tried.
pub proof fn lemma_pending_codes(
    fetched: Seq<(Seq<char>, Seq<char>)>,
    history: Seq<(Seq<char>, Seq<char>)>,
)
    ensures
        forall|i: int|
            0 <= i < pending_codes(fetched, history).len() ==> {
                let c = #[trigger] pending_codes(fetched, history)[i];
                &&& worth_trying(history, c.cdkey)
                &&& c.status is None
                &&& fetched.contains((c.cdkey, c.reward))
            },
        forall|j: int|
            0 <= j < fetched.len() && worth_trying(history, (#[trigger] fetched[j]).0) ==> exists|
                i: int,
            |
                0 <= i < pending_codes(fetched, history).len() && pending_codes(fetched, history)[i]
                    == (RedeemDataView { cdkey: fetched[j].0, reward: fetched[j].1, status: None }),
    decreases fetched.len(),
{
    if fetched.len() > 0 {
        let init = fetched.drop_last();
        lemma_pending_codes(init, history);
        let rest = pending_codes(init, history);
        let p = pending_codes(fetched, history);
        let last = fetched.last();
        assert forall|i: int| 0 <= i < p.len() implies {
            let c = #[trigger] p[i];
            &&& worth_trying(history, c.cdkey)
            &&& c.status is None
            &&& fetched.contains((c.cdkey, c.reward))
        } by {
            if i < rest.len() {
                assert(p[i] == rest[i]);
                let k = choose|k: int| 0 <= k < init.len() && init[k] == (rest[i].cdkey, rest[i].reward);
                assert(fetched[k] == init[k]);
            } else {
                assert(fetched[fetched.len() - 1] == last);
            }
        }
        assert forall|j: int|
            0 <= j < fetched.len() && worth_trying(history, (#[trigger] fetched[j]).0) implies exists|
                i: int,
            |
                0 <= i < p.len() && p[i] == (RedeemDataView {
                    cdkey: fetched[j].0,
                    reward: fetched[j].1,
                    status: None,
                }) by {
            if j < init.len() {
                assert(init[j] == fetched[j]);
                let i = choose|i: int|
                    0 <= i < rest.len() && rest[i] == (RedeemDataView {
                        cdkey: init[j].0,
                        reward: init[j].1,
                        status: None,
                    });
                assert(p[i] == rest[i]);
            } else {
                assert(p[rest.len() as int] == (RedeemDataView {
                    cdkey: last.0,
                    reward: last.1,
                    status: None,
                }));
            }
        }
    }
}

/// A code whose latest history entry has status `status` is worth trying
/// exactly when that status holds `❌ Redeem failed`; entries for other codes
/// recorded after it change nothing; and a code that the history never
/// names is worth trying.
pub proof fn lemma_latest_status_decides(
    history: Seq<(Seq<char>, Seq<char>)>,
    code: Seq<char>,
    status: Seq<char>,
    later: Seq<(Seq<char>, Seq<char>)>,
)
    requires
        forall|i: int| 0 <= i < later.len() ==> (#[trigger] later[i]).0 != code,
    ensures
        worth_trying(history.push((code, status)) + later, code) <==> contains_seq(
            status,
            "❌ Redeem failed"@,
        ),
        (forall|i: int| 0 <= i < history.len() ==> (#[trigger] history[i]).0 != code) ==> worth_trying(
            history,
            code,
        ),
    decreases later.len(),
{
    let h = history.push((code, status)) + later;
    if later.len() == 0 {
        assert(h =~= history.push((code, status)));
        assert(h.drop_last() =~= history);
    } else {
        let init = later.drop_last();
        assert forall|i: int| 0 <= i < init.len() implies (#[trigger] init[i]).0 != code by {
            assert(init[i] == later[i]);
        }
        lemma_latest_status_decides(history, code, status, init);
        assert(h.last() == later.last());
        assert(h.drop_last() =~= history.push((code, status)) + init);
    }
    lemma_absent_code_worth_trying(history, code);
}

proof fn lemma_absent_code_worth_trying(history: Seq<(Seq<char>, Seq<char>)>, code: Seq<char>)
    ensures
        (forall|i: int| 0 <= i < history.len() ==> (#[trigger] history[i]).0 != code)
            ==> latest_status(history, code) is None,
    decreases history.len(),
{
    if history.len() > 0 {
        let init = history.drop_last();
        lemma_absent_code_worth_trying(init, code);
        if forall|i: int| 0 <= i < history.len() ==> (#[trigger] history[i]).0 != code {
            assert(history.last() == history[history.len() - 1]);
            assert forall|i: int| 0 <= i < init.len() implies (#[trigger] init[i]).0 != code by {
                assert(init[i] == history[i]);
            }
        }
    }
}

/// The status recorded for a code whose exchange request got an HTTP error
/// begins with `❌ Redeem failed`, so the next run tries that code again.
pub proof fn lemma_http_failure_is_retried(
    history: Seq<(Seq<char>, Seq<char>)>,
    code: Seq<char>,
    status: Seq<char>,
    body: Seq<char>,
)
    ensures
        ({
            let text = FAILURE_MARK@ + " "@ + status + ": "@ + body;
            &&& occurs_at(text, "❌ Redeem failed"@, 0)
            &&& worth_trying(history.push((code, text)), code)
        }),
{
    let text = FAILURE_MARK@ + " "@ + status + ": "@ + body;
    let m = "❌ Redeem failed"@;
    assert(text.subrange(0, m.len() as int) =~= m);
    assert(occurs_at(text, m, 0));
    lemma_latest_status_decides(history, code, text, Seq::empty());
    assert(history.push((code, text)) + Seq::<(Seq<char>, Seq<char>)>::empty() =~= history.push(
        (code, text),
    ));
}

/// A run of one fetched code tries it, untried and with its reward, exactly
/// when the history never names it or its latest status holds
/// `❌ Redeem failed`.
pub proof fn lemma_single_code_selection(
    history: Seq<(Seq<char>, Seq<char>)>,
    code: Seq<char>,
    reward: Seq<char>,
    status: Seq<char>,
)
    ensures
        pending_codes(seq![(code, reward)], history.push((code, status))) == if contains_seq(
            status,
            "❌ Redeem failed"@,
        ) {
            seq![RedeemDataView { cdkey: code, reward, status: None }]
        } else {
            Seq::<RedeemDataView>::empty()
        },
{
    let f = seq![(code, reward)];
    let h = history.push((code, status));
    assert(f.drop_last() =~= Seq::<(Seq<char>, Seq<char>)>::empty());
    assert(f.last() == (code, reward));
    assert(pending_codes(f.drop_last(), h) == Seq::<RedeemDataView>::empty());
    lemma_latest_status_decides(history, code, status, Seq::empty());
    assert(history.push((code, status)) + Seq::<(Seq<char>, Seq<char>)>::empty() =~= history.push(
        (code, status),
    ));
    assert(Seq::<RedeemDataView>::empty().push(
        RedeemDataView { cdkey: code, reward, status: None },
    ) =~= seq![RedeemDataView { cdkey: code, reward, status: None }]);
}

/// The views of a list of codes.
pub open spec fn codes_view(codes: Seq<RedeemData>) -> Seq<RedeemDataView> {
    codes.map_values(|c: RedeemData| c@)
}

fn is_worth_trying(history: &Vec<(String, String)>, code: &str) -> (r: bool)
    ensures
        r == worth_trying(pairs_view(history@), code@),
{
    let ghost h = pairs_view(history@);
    let mut latest: Option<usize> = None;
    let mut i: usize = 0;
    while i < history.len()
        invariant
            h == pairs_view(history@),
            i <= history.len(),
            match latest {
                Some(j) => j < i && latest_status(h.take(i as int), code@) == Some(h[j as int].1),
                None => latest_status(h.take(i as int), code@) is None,
            },
        decreases history.len() - i,
    {
        assert(h.take(i + 1).drop_last() =~= h.take(i as int));
        assert(h.take(i + 1).last() == h[i as int]);
        if same_text(history[i].0.as_str(), code) {
            latest = Some(i);
        }
        i = i + 1;
    }
    assert(h.take(i as int) =~= h);
    match latest {
        None => true,
        Some(j) => contains(history[j].1.as_str(), FAILURE_MARK),
    }
}

/// The codes that a redemption run tries: each fetched code (with its reward)
/// that was never tried, or whose last try ended in an HTTP error.
pub fn select_codes(fetched: &Vec<(String, String)>, history: &Vec<(String, String)>) -> (codes:
    Vec<RedeemData>)
    ensures
        codes_view(codes@) == pending_codes(pairs_view(fetched@), pairs_view(history@)),
{
    let ghost f = pairs_view(fetched@);
    let ghost h = pairs_view(history@);
    let mut codes: Vec<RedeemData> = Vec::new();
    let mut i: usize = 0;
    while i < fetched.len()
        invariant
            f == pairs_view(fetched@),
            h == pairs_view(history@),
            i <= fetched.len(),
            codes_view(codes@) == pending_codes(f.take(i as int), h),
        decreases fetched.len() - i,
    {
        assert(f.take(i + 1).drop_last() =~= f.take(i as int));
        assert(f.take(i + 1).last() == f[i as int]);
        if is_worth_trying(history, fetched[i].0.as_str()) {
            let d = RedeemData::new(fetched[i].0.clone(), fetched[i].1.clone());
            codes.push(d);
            assert(codes_view(codes@) =~= pending_codes(f.take(i as int), h).push(d@));
        }
        i = i + 1;
    }
    assert(f.take(i as int) =~= f);
    codes
}

/// The text reported for a tried code: its failure status if its exchange
/// request failed, else its reward, or `Reward Not Displayed` where it has none.
pub open spec fn report_text(code: RedeemDataView) -> Seq<char> {
    let status = code.status.unwrap();
    if contains_seq(status, FAILURE_MARK@) {
        status
    } else if code.reward.len() == 0 {
        "Reward Not Displayed"@
    } else {
        code.reward
    }
}

/// The embed field that reports a tried code.
pub open spec fn report_field(code: RedeemDataView) -> (Seq<char>, Seq<char>) {
    ("**"@ + code.cdkey + "**"@, "`"@ + report_text(code) + "`"@)
}

/// The report field of a tried code is its code in bold, over: its status in
/// backticks wherever the status holds `❌ Redeem failed`, whatever the
/// reward; else its reward in backticks, or `` `Reward Not Displayed` ``
/// where the reward is empty.
pub proof fn lemma_report_field_text(cdkey: Seq<char>, reward: Seq<char>, status: Seq<char>)
    ensures
        ({
            let f = report_field(RedeemDataView { cdkey, reward, status: Some(status) });
            &&& f.0 == "**"@ + cdkey + "**"@
            &&& contains_seq(status, "❌ Redeem failed"@) ==> f.1 == "`"@ + status + "`"@
            &&& !contains_seq(status, "❌ Redeem failed"@) && reward.len() == 0 ==> f.1 == "`"@
                + "Reward Not Displayed"@ + "`"@
            &&& !contains_seq(status, "❌ Redeem failed"@) && reward.len() > 0 ==> f.1 == "`"@
                + reward + "`"@
        }),
{
}

impl RedeemData {
    /// The embed field that reports this code once tried.
    pub fn report_field(&self) -> (f: EmbedField)
        requires
            self.status is Some,
        ensures
            f@ == report_field(self@),
    {
        let mut name = String::from_str("**");
        name.append(self.cdkey.as_str());
        name.append("**");
        let mut value = String::from_str("`");
        let status = self.status.as_ref().unwrap();
        if contains(status.as_str(), FAILURE_MARK) {
            value.append(status.as_str());
        } else if self.reward.unicode_len() == 0 {
            value.append("Reward Not Displayed");
        } else {
            value.append(self.reward.as_str());
        }
        value.append("`");
        EmbedField { name, value }
    }
}

impl RedeemGame {
    /// The report of a redemption run for this game, at `time`, mentioning
    /// the user `user_id`, with one field per tried code, in order.
    pub fn webhook_message(&self, codes: &Vec<RedeemData>, time: &str, user_id: &str, color: u32) -> (m:
        WebhookMessage)
        requires
            forall|i: int| 0 <= i < codes@.len() ==> (#[trigger] codes@[i]).status is Some,
        ensures
            m.content@ == "<@"@ + user_id@ + "> Finish Redeem For "@ + self.name@ + " At `"@ + time@
                + "`"@,
            m.title@ == self.name@ + " 兌換碼兌換"@,
            m.color == color,
            m.inline == Some(false),
            fields_view(m.fields@) == codes_view(codes@).map_values(
                |c: RedeemDataView| report_field(c),
            ),
            m.username@ == bot_name(),
    {
        let mut content = String::from_str("<@");
        content.append(user_id);
        content.append("> Finish Redeem For ");
        content.append(self.name.as_str());
        content.append(" At `");
        content.append(time);
        content.append("`");
        let mut title = self.name.clone();
        title.append(" 兌換碼兌換");
        let mut fields: Vec<EmbedField> = Vec::new();
        let mut i: usize = 0;
        while i < codes.len()
            invariant
                i <= codes.len(),
                forall|j: int| 0 <= j < codes@.len() ==> (#[trigger] codes@[j]).status is Some,
                fields_view(fields@) == codes_view(codes@.take(i as int)).map_values(
                    |c: RedeemDataView| report_field(c),
                ),
            decreases codes.len() - i,
        {
            let f = codes[i].report_field();
            let ghost before = fields_view(fields@);
            fields.push(f);
            assert(fields_view(fields@) =~= before.push(f@));
            assert(codes@.take(i + 1) =~= codes@.take(i as int).push(codes@[i as int]));
            assert(codes_view(codes@.take(i + 1)) =~= codes_view(codes@.take(i as int)).push(
                codes@[i as int]@,
            ));
            assert(fields_view(fields@) =~= codes_view(codes@.take(i + 1)).map_values(
                |c: RedeemDataView| report_field(c),
            ));
            i = i + 1;
        }
        assert(codes@.take(i as int) =~= codes@);
        WebhookMessage {
            content,
            title,
            color,
            fields,
            inline: Some(false),
            username: String::from_str("アストローギスト・モナ・メギストス"),
        }
    }
}

} // verus!
