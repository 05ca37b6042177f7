//! The records the check-in and redemption logic works on.

use vstd::prelude::*;

verus! {

/// The view of an optional text.
pub open spec fn opt_text(o: Option<String>) -> Option<Seq<char>> {
    match o {
        Some(s) => Some(s@),
        None => None,
    }
}

/// One request of the daily check-in API: the endpoint's last path segment,
/// the HTTP method, and whether the request carries the login cookie (1) or
/// not (any other value).
pub struct SignMethod {
    pub name: String,
    pub method: String,
    pub cookie: i32,
}

/// A game whose daily check-in is claimed.
pub struct SignGame {
    pub name: String,
    pub domain: String,
    pub biz: String,
    pub act_id: String,
    pub signgame: String,
}

/// A game whose gift codes are redeemed.
pub struct RedeemGame {
    pub name: String,
    pub domain: String,
    pub method: String,
}

/// A gift code, its reward, and once tried, the outcome of redeeming it.
pub struct RedeemData {
    pub cdkey: String,
    pub reward: String,
    pub status: Option<String>,
}

pub struct RedeemDataView {
    pub cdkey: Seq<char>,
    pub reward: Seq<char>,
    pub status: Option<Seq<char>>,
}

impl View for RedeemData {
    type V = RedeemDataView;

    open spec fn view(&self) -> RedeemDataView {
        RedeemDataView { cdkey: self.cdkey@, reward: self.reward@, status: opt_text(self.status) }
    }
}

impl RedeemData {
    /// A code not tried yet.
    pub fn new(code: String, reward: String) -> (r: Self)
        ensures
            r@ == (RedeemDataView { cdkey: code@, reward: reward@, status: None }),
    {
        Self { cdkey: code, reward, status: None }
    }
}

/// One field of a Discord embed: a title line and its text.
pub struct EmbedField {
    pub name: String,
    pub value: String,
}

impl View for EmbedField {
    type V = (Seq<char>, Seq<char>);

    open spec fn view(&self) -> (Seq<char>, Seq<char>) {
        (self.name@, self.value@)
    }
}

impl Clone for EmbedField {
    fn clone(&self) -> (r: Self)
        ensures
            r@ == self@,
    {
        EmbedField { name: self.name.clone(), value: self.value.clone() }
    }
}

/// The views of a list of embed fields.
pub open spec fn fields_view(fields: Seq<EmbedField>) -> Seq<(Seq<char>, Seq<char>)> {
    fields.map_values(|f: EmbedField| f@)
}

/// The views of a list of text pairs.
pub open spec fn pairs_view(p: Seq<(String, String)>) -> Seq<(Seq<char>, Seq<char>)> {
    p.map_values(|e: (String, String)| (e.0@, e.1@))
}

/// A message to a Discord webhook with one embed. Where `inline` is given,
/// every field carries that `inline` flag; where it is `None`, the fields
/// carry none.
pub struct WebhookMessage {
    pub content: String,
    pub title: String,
    pub color: u32,
    pub fields: Vec<EmbedField>,
    pub inline: Option<bool>,
    pub username: String,
}

/// The bot name under which both reports are posted.
pub open spec fn bot_name() -> Seq<char> {
    "アストローギスト・モナ・メギストス"@
}

/// A random `u32`, by `rand::random::<u32>()` (drawn from `rand::thread_rng()`).
/// Which value comes out is not stated.
#[verifier::external_body]
fn random_u32() -> u32 {
    rand::random::<u32>()
}

/// The 24-bit RGB colour that a drawn `u32` gives: its low 24 bits.
pub fn color_of(drawn: u32) -> (c: u32)
    ensures
        c == drawn & 0xFFFFFF,
        c <= 0xFFFFFF,
{
    assert(drawn & 0xFFFFFF <= 0xFFFFFF) by (bit_vector);
    drawn & 0xFFFFFF
}

/// A random 24-bit RGB colour for a report's embed: the low 24 bits of a
/// random `u32`. Which colour comes out is random and is not stated.
pub fn embed_color() -> (c: u32)
    ensures
        exists|drawn: u32| c == drawn & 0xFFFFFF,
        c <= 0xFFFFFF,
{
    let drawn = random_u32();
    color_of(drawn)
}

/// The settings of one game, as read from its section of the configuration
/// file: each key with its value, if it has one.
pub struct GameInfo {
    pub entries: Vec<(String, Option<String>)>,
}

/// The first value given for `key` in `entries`.
pub open spec fn setting(entries: Seq<(Seq<char>, Option<Seq<char>>)>, key: Seq<char>) -> Option<
    Option<Seq<char>>,
>
    decreases entries.len(),
{
    if entries.len() == 0 {
        None
    } else if entries[0].0 == key {
        Some(entries[0].1)
    } else {
        setting(entries.drop_first(), key)
    }
}

impl View for GameInfo {
    type V = Seq<(Seq<char>, Option<Seq<char>>)>;

    open spec fn view(&self) -> Seq<(Seq<char>, Option<Seq<char>>)> {
        self.entries@.map_values(|e: (String, Option<String>)| (e.0@, opt_text(e.1)))
    }
}

impl GameInfo {
    /// The value given for `key`, as a lookup in the section's map.
    pub fn get(&self, key: &str) -> (r: Option<&Option<String>>)
        ensures
            match r {
                Some(v) => setting(self@, key@) == Some(opt_text(*v)),
                None => setting(self@, key@) is None,
            },
    {
        let mut i: usize = 0;
        assert(self@.skip(0) =~= self@);
        while i < self.entries.len()
            invariant
                i <= self.entries.len(),
                setting(self@, key@) == setting(self@.skip(i as int), key@),
            decreases self.entries.len() - i,
        {
            let ghost rest = self@.skip(i as int);
            assert(rest[0] == (self.entries@[i as int].0@, opt_text(self.entries@[i as int].1)));
            if crate::text::same_text(self.entries[i].0.as_str(), key) {
                return Some(&self.entries[i].1);
            }
            assert(rest.drop_first() =~= self@.skip(i + 1));
            i = i + 1;
        }
        assert(self@.skip(i as int) =~= Seq::<(Seq<char>, Option<Seq<char>>)>::empty());
        None
    }
}

} // verus!
