//! Daily check-in: which games take part, the requests of the check-in API,
//! the steps of one game's check-in as a state machine driven by the replies,
//! and the report sent afterwards.

use vstd::prelude::*;

use crate::structs::{bot_name, fields_view, EmbedField, SignGame, SignMethod, WebhookMessage};
use crate::text::{count_text, decimal, decimal_text, same_text};

verus! {

/// The `retcode` with which the check-in API says that today's reward was
/// already claimed.
pub const ALREADY_SIGNED_RETCODE: i64 = -5003;

/// The games whose daily check-in is claimed, in the order they are handled.
pub fn sign_games() -> (games: Vec<SignGame>)
    ensures
        games@.len() == 4,
        games@[0].name@ == "原神"@ && games@[0].domain@ == "hk4e"@ && games@[0].biz@ == "sol"@
            && games@[0].act_id@ == "e202102251931481"@ && games@[0].signgame@ == "hk4e"@,
        games@[1].name@ == "崩壞三"@ && games@[1].domain@ == "public"@ && games@[1].biz@ == "mani"@
            && games@[1].act_id@ == "e202110291205111"@ && games@[1].signgame@ == "bh3"@,
        games@[2].name@ == "崩壞：星穹鐵道"@ && games@[2].domain@ == "public"@ && games@[2].biz@
            == "luna/os"@ && games@[2].act_id@ == "e202303301540311"@ && games@[2].signgame@
            == "hkrpg"@,
        games@[3].name@ == "絕區零"@ && games@[3].domain@ == "public"@ && games@[3].biz@
            == "luna/zzz/os"@ && games@[3].act_id@ == "e202406031448091"@ && games@[3].signgame@
            == "zzz"@,
{
    let mut games = Vec::new();
    games.push(
        SignGame {
            name: String::from_str("原神"),
            domain: String::from_str("hk4e"),
            biz: String::from_str("sol"),
            act_id: String::from_str("e202102251931481"),
            signgame: String::from_str("hk4e"),
        },
    );
    games.push(
        SignGame {
            name: String::from_str("崩壞三"),
            domain: String::from_str("public"),
            biz: String::from_str("mani"),
            act_id: String::from_str("e202110291205111"),
            signgame: String::from_str("bh3"),
        },
    );
    games.push(
        SignGame {
            name: String::from_str("崩壞：星穹鐵道"),
            domain: String::from_str("public"),
            biz: String::from_str("luna/os"),
            act_id: String::from_str("e202303301540311"),
            signgame: String::from_str("hkrpg"),
        },
    );
    games.push(
        SignGame {
            name: String::from_str("絕區零"),
            domain: String::from_str("public"),
            biz: String::from_str("luna/zzz/os"),
            act_id: String::from_str("e202406031448091"),
            signgame: String::from_str("zzz"),
        },
    );
    games
}

/// The requests of the check-in API, by their place in a check-in.
pub enum SignRequest {
    /// Claim today's reward.
    Claim,
    /// Read how many days were claimed this month.
    Info,
    /// Read this month's rewards.
    Home,
}

/// The name, HTTP method and cookie flag of a request.
pub open spec fn request_spec(r: SignRequest) -> (Seq<char>, Seq<char>, i32) {
    match r {
        SignRequest::Claim => ("sign"@, "POST"@, 1),
        SignRequest::Info => ("info"@, "GET"@, 1),
        SignRequest::Home => ("home"@, "GET"@, 0),
    }
}

/// The view of a request.
pub open spec fn method_view(m: SignMethod) -> (Seq<char>, Seq<char>, i32) {
    (m.name@, m.method@, m.cookie)
}

impl SignRequest {
    /// The request as a method of the check-in API.
    pub fn method(&self) -> (m: SignMethod)
        ensures
            method_view(m) == request_spec(*self),
    {
        match self {
            SignRequest::Claim => SignMethod {
                name: String::from_str("sign"),
                method: String::from_str("POST"),
                cookie: 1,
            },
            SignRequest::Info => SignMethod {
                name: String::from_str("info"),
                method: String::from_str("GET"),
                cookie: 1,
            },
            SignRequest::Home => SignMethod {
                name: String::from_str("home"),
                method: String::from_str("GET"),
                cookie: 0,
            },
        }
    }
}

/// The three requests of a check-in, in the order they are sent.
pub fn sign_methods() -> (methods: Vec<SignMethod>)
    ensures
        methods@.len() == 3,
        method_view(methods@[0]) == request_spec(SignRequest::Claim),
        method_view(methods@[1]) == request_spec(SignRequest::Info),
        method_view(methods@[2]) == request_spec(SignRequest::Home),
{
    let mut methods = Vec::new();
    methods.push(SignRequest::Claim.method());
    methods.push(SignRequest::Info.method());
    methods.push(SignRequest::Home.method());
    methods
}

/// The `Cookie` header of a check-in request that carries the login cookie.
pub fn sign_cookie(ltuid: &str, ltoken: &str) -> (c: String)
    ensures
        c@ == "ltuid_v2="@ + ltuid@ + ";ltoken_v2="@ + ltoken@,
{
    let mut c = String::from_str("ltuid_v2=");
    c.append(ltuid);
    c.append(";ltoken_v2=");
    c.append(ltoken);
    c
}

impl SignMethod {
    /// The address of this request for `game`.
    pub fn url(&self, game: &SignGame) -> (u: String)
        ensures
            u@ == "https://sg-"@ + game.domain@ + "-api.hoyolab.com/event/"@ + game.biz@ + "/"@
                + self.name@ + "?act_id="@ + game.act_id@ + "&lang=zh-tw"@,
    {
        let mut u = String::from_str("https://sg-");
        u.append(game.domain.as_str());
        u.append("-api.hoyolab.com/event/");
        u.append(game.biz.as_str());
        u.append("/");
        u.append(self.name.as_str());
        u.append("?act_id=");
        u.append(game.act_id.as_str());
        u.append("&lang=zh-tw");
        u
    }

    /// Whether the request carries the login cookie.
    pub fn sends_cookie(&self) -> (r: bool)
        ensures
            r == (self.cookie == 1),
    {
        self.cookie == 1
    }
}

/// One reward of the month: its name, and how many are given, as the JSON
/// text of the reply's `cnt` value.
pub struct Award {
    pub name: String,
    pub cnt: String,
}

/// The views of a list of rewards.
pub open spec fn awards_view(a: Seq<Award>) -> Seq<(Seq<char>, Seq<char>)> {
    a.map_values(|w: Award| (w.name@, w.cnt@))
}

/// What a reply of the check-in API says, as far as the check-in reads it.
pub enum SignReply {
    /// The reply to the claim: its `retcode` where it is an integer, and its
    /// `message` (its text where it is a string, else its JSON text).
    Claim { retcode: Option<i64>, message: String },
    /// The reply to the info request: the number of days claimed this month.
    Info { total_sign_day: i64 },
    /// The reply to the home request: this month's rewards, in order.
    Home { awards: Vec<Award> },
}

/// The view of a reply.
pub enum SignReplyView {
    Claim { retcode: Option<i64>, message: Seq<char> },
    Info { total_sign_day: i64 },
    Home { awards: Seq<(Seq<char>, Seq<char>)> },
}

impl View for SignReply {
    type V = SignReplyView;

    open spec fn view(&self) -> SignReplyView {
        match self {
            SignReply::Claim { retcode, message } => SignReplyView::Claim {
                retcode: *retcode,
                message: message@,
            },
            SignReply::Info { total_sign_day } => SignReplyView::Info {
                total_sign_day: *total_sign_day,
            },
            SignReply::Home { awards } => SignReplyView::Home { awards: awards_view(awards@) },
        }
    }
}

/// Where a game's check-in stands.
pub enum SignPhase {
    /// The claim is to be sent.
    AwaitClaim,
    /// The claim succeeded; the info request is to be sent.
    AwaitInfo,
    /// `day` days are claimed this month; the home request is to be sent.
    AwaitHome { day: i64 },
    /// The check-in is over.
    Finished,
}

/// A game's check-in in progress: where it stands, and the report fields
/// gathered so far.
pub struct SignProgress {
    pub phase: SignPhase,
    pub fields: Vec<EmbedField>,
}

/// The request that a phase waits to send, if any.
pub open spec fn pending_request(phase: SignPhase) -> Option<SignRequest> {
    match phase {
        SignPhase::AwaitClaim => Some(SignRequest::Claim),
        SignPhase::AwaitInfo => Some(SignRequest::Info),
        SignPhase::AwaitHome { .. } => Some(SignRequest::Home),
        SignPhase::Finished => None,
    }
}

/// A reply answers the request that the phase sent.
pub open spec fn reply_fits(phase: SignPhase, reply: SignReplyView) -> bool {
    match (phase, reply) {
        (SignPhase::AwaitClaim, SignReplyView::Claim { .. }) => true,
        (SignPhase::AwaitInfo, SignReplyView::Info { .. }) => true,
        (SignPhase::AwaitHome { day }, SignReplyView::Home { awards }) => 1 <= day <= awards.len(),
        _ => false,
    }
}

/// The field that reports a claimed reward: `<game> <day> / <days in month>`
/// over `` `<reward>` x<count> ``.
pub open spec fn reward_field(game: Seq<char>, day: i64, awards: Seq<(Seq<char>, Seq<char>)>) -> (
    Seq<char>,
    Seq<char>,
) {
    let award = awards[day - 1];
    (
        game + " "@ + decimal(day as int) + " / "@ + decimal(awards.len() as int),
        "`"@ + award.0 + "` x"@ + award.1,
    )
}

/// One step of a check-in: the next phase and the fields gathered so far,
/// after `reply` arrives in `phase`.
pub open spec fn sign_step_spec(
    game: Seq<char>,
    phase: SignPhase,
    fields: Seq<(Seq<char>, Seq<char>)>,
    reply: SignReplyView,
) -> (SignPhase, Seq<(Seq<char>, Seq<char>)>) {
    match reply {
        SignReplyView::Claim { retcode, message } => {
            let fields2 = if retcode == Some(ALREADY_SIGNED_RETCODE) {
                fields.push((game, message))
            } else {
                fields
            };
            if message == "OK"@ {
                (SignPhase::AwaitInfo, fields2)
            } else {
                (SignPhase::Finished, fields2)
            }
        },
        SignReplyView::Info { total_sign_day } => (
            SignPhase::AwaitHome { day: total_sign_day },
            fields,
        ),
        SignReplyView::Home { awards } => match phase {
            SignPhase::AwaitHome { day } => (
                SignPhase::Finished,
                fields.push(reward_field(game, day, awards)),
            ),
            _ => (SignPhase::Finished, fields),
        },
    }
}

impl SignProgress {
    /// The request to send next, or `None` once the check-in is over.
    pub fn next_request(&self) -> (r: Option<SignRequest>)
        ensures
            r == pending_request(self.phase),
    {
        match self.phase {
            SignPhase::AwaitClaim => Some(SignRequest::Claim),
            SignPhase::AwaitInfo => Some(SignRequest::Info),
            SignPhase::AwaitHome { .. } => Some(SignRequest::Home),
            SignPhase::Finished => None,
        }
    }
}

impl SignGame {
    /// A check-in that has not sent anything yet.
    pub fn sign_start() -> (p: SignProgress)
        ensures
            p.phase == SignPhase::AwaitClaim,
            p.fields@.len() == 0,
    {
        SignProgress { phase: SignPhase::AwaitClaim, fields: Vec::new() }
    }

    /// Moves this game's check-in on by the reply to the request it sent.
    pub fn sign_step(&self, progress: SignProgress, reply: SignReply) -> (p: SignProgress)
        requires
            reply_fits(progress.phase, reply@),
        ensures
            (p.phase, fields_view(p.fields@)) == sign_step_spec(
                self.name@,
                progress.phase,
                fields_view(progress.fields@),
                reply@,
            ),
    {
        let SignProgress { phase, mut fields } = progress;
        let ghost before = fields_view(fields@);
        match reply {
            SignReply::Claim { retcode, message } => {
                let already = match retcode {
                    Some(c) => c == ALREADY_SIGNED_RETCODE,
                    None => false,
                };
                let ok = same_text(message.as_str(), "OK");
                if already {
                    let f = EmbedField { name: self.name.clone(), value: message };
                    fields.push(f);
                    assert(fields_view(fields@) =~= before.push(f@));
                }
                if ok {
                    SignProgress { phase: SignPhase::AwaitInfo, fields }
                } else {
                    SignProgress { phase: SignPhase::Finished, fields }
                }
            },
            SignReply::Info { total_sign_day } => SignProgress {
                phase: SignPhase::AwaitHome { day: total_sign_day },
                fields,
            },
            SignReply::Home { awards } => {
                let day = match phase {
                    SignPhase::AwaitHome { day } => day,
                    _ => 1,
                };
                let award = &awards[(day - 1) as usize];
                let mut name = self.name.clone();
                name.append(" ");
                name.append(decimal_text(day).as_str());
                name.append(" / ");
                name.append(count_text(awards.len()).as_str());
                let mut value = String::from_str("`");
                value.append(award.name.as_str());
                value.append("` x");
                value.append(award.cnt.as_str());
                let f = EmbedField { name, value };
                fields.push(f);
                assert(fields_view(fields@) =~= before.push(f@));
                SignProgress { phase: SignPhase::Finished, fields }
            },
        }
    }
}

/// What one game's check-in reports: a field with the reply's message when
/// the reward was already claimed, then, when the claim reply says `OK`, the
/// field of the reward for the day count that the info reply gives.
pub open spec fn sign_report(
    game: Seq<char>,
    retcode: Option<i64>,
    message: Seq<char>,
    day: i64,
    awards: Seq<(Seq<char>, Seq<char>)>,
) -> Seq<(Seq<char>, Seq<char>)> {
    let first = if retcode == Some(ALREADY_SIGNED_RETCODE) {
        seq![(game, message)]
    } else {
        Seq::empty()
    };
    if message == "OK"@ {
        first.push(reward_field(game, day, awards))
    } else {
        first
    }
}

/// A check-in run from its start sends the claim, and, only when the claim
/// reply says `OK`, the info and then the home request; it then stops, having
/// gathered exactly the fields of `sign_report`.
pub proof fn lemma_sign_run(
    game: Seq<char>,
    retcode: Option<i64>,
    message: Seq<char>,
    day: i64,
    awards: Seq<(Seq<char>, Seq<char>)>,
)
    requires
        message == "OK"@ ==> 1 <= day <= awards.len(),
    ensures
        ({
            let start = SignPhase::AwaitClaim;
            let (p1, f1) = sign_step_spec(
                game,
                start,
                Seq::empty(),
                SignReplyView::Claim { retcode, message },
            );
            &&& pending_request(start) == Some(SignRequest::Claim)
            &&& message != "OK"@ ==> p1 == SignPhase::Finished && pending_request(p1) is None
                && f1 == sign_report(game, retcode, message, day, awards)
            &&& message == "OK"@ ==> {
                let (p2, f2) = sign_step_spec(
                    game,
                    p1,
                    f1,
                    SignReplyView::Info { total_sign_day: day },
                );
                let (p3, f3) = sign_step_spec(game, p2, f2, SignReplyView::Home { awards });
                &&& pending_request(p1) == Some(SignRequest::Info)
                &&& reply_fits(p2, SignReplyView::Home { awards })
                &&& pending_request(p2) == Some(SignRequest::Home)
                &&& p3 == SignPhase::Finished
                &&& pending_request(p3) is None
                &&& f3 == sign_report(game, retcode, message, day, awards)
            }
        }),
{
    let e = Seq::<(Seq<char>, Seq<char>)>::empty();
    if retcode == Some(ALREADY_SIGNED_RETCODE) {
        assert(e.push((game, message)) =~= seq![(game, message)]);
    }
}

/// The field that separates two results in the check-in report.
pub open spec fn blank_field() -> (Seq<char>, Seq<char>) {
    ("** **"@, "** **"@)
}

/// `fields` with the blank field between each two neighbours.
pub open spec fn separated(fields: Seq<(Seq<char>, Seq<char>)>) -> Seq<(Seq<char>, Seq<char>)>
    decreases fields.len(),
{
    if fields.len() <= 1 {
        fields
    } else {
        separated(fields.drop_last()).push(blank_field()).push(fields.last())
    }
}

/// The check-in results with a blank field between each two of them, so that
/// the report shows them apart.
pub fn parse_res(res: &Vec<EmbedField>) -> (out: Vec<EmbedField>)
    ensures
        fields_view(out@) == separated(fields_view(res@)),
{
    let ghost r = fields_view(res@);
    let mut out: Vec<EmbedField> = Vec::new();
    let mut i: usize = 0;
    while i < res.len()
        invariant
            r == fields_view(res@),
            i <= res.len(),
            fields_view(out@) == separated(r.take(i as int)),
        decreases res.len() - i,
    {
        let ghost before = fields_view(out@);
        assert(r.take(i + 1).drop_last() =~= r.take(i as int));
        assert(r.take(i + 1).last() == r[i as int]);
        let f = res[i].clone();
        if i > 0 {
            let b = EmbedField { name: String::from_str("** **"), value: String::from_str("** **") };
            out.push(b);
            out.push(f);
            assert(fields_view(out@) =~= before.push(b@).push(f@));
        } else {
            out.push(f);
            assert(fields_view(out@) =~= before.push(f@));
            assert(r.take(1) =~= seq![r[0]]);
        }
        i = i + 1;
    }
    assert(r.take(i as int) =~= r);
    out
}

/// The separated report holds the results at its even places and the blank
/// field at its odd places, and so has one field fewer than twice the results.
pub proof fn lemma_separated_shape(fields: Seq<(Seq<char>, Seq<char>)>)
    ensures
        separated(fields).len() == if fields.len() == 0 {
            0
        } else {
            2 * fields.len() - 1
        },
        forall|i: int| 0 <= i < fields.len() ==> #[trigger] separated(fields)[2 * i] == fields[i],
        forall|i: int|
            0 <= i < fields.len() - 1 ==> #[trigger] separated(fields)[2 * i + 1] == blank_field(),
    decreases fields.len(),
{
    if fields.len() > 1 {
        let init = fields.drop_last();
        lemma_separated_shape(init);
        let s = separated(fields);
        let t = separated(init);
        assert(s == t.push(blank_field()).push(fields.last()));
        assert forall|i: int| 0 <= i < fields.len() implies #[trigger] s[2 * i] == fields[i] by {
            if i < fields.len() - 1 {
                assert(t[2 * i] == init[i]);
            }
        }
        assert forall|i: int| 0 <= i < fields.len() - 1 implies #[trigger] s[2 * i + 1]
            == blank_field() by {
            if i < fields.len() - 2 {
                assert(t[2 * i + 1] == blank_field());
            }
        }
    }
}

/// The report of a check-in run at `time`, mentioning the user `user_id`,
/// with the results of all games separated by blank fields.
pub fn sign_webhook_message(res: &Vec<EmbedField>, time: &str, user_id: &str, color: u32) -> (m:
    WebhookMessage)
    ensures
        m.content@ == "<@"@ + user_id@ + "> Finish check-in at `"@ + time@ + "`"@,
        m.title@ == "HoyoLab 簽到"@,
        m.color == color,
        m.inline is None,
        fields_view(m.fields@) == separated(fields_view(res@)),
        m.username@ == bot_name(),
{
    let mut content = String::from_str("<@");
    content.append(user_id);
    content.append("> Finish check-in at `");
    content.append(time);
    content.append("`");
    WebhookMessage {
        content,
        title: String::from_str("HoyoLab 簽到"),
        color,
        fields: parse_res(res),
        inline: None,
        username: String::from_str("アストローギスト・モナ・メギストス"),
    }
}

} // verus!
