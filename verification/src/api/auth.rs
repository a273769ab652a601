//! Sessions: the store of tokens, what a token authorizes, logging in,
//! renewing a token and deleting expired tokens.

use vstd::prelude::*;
use vstd::hash_map::StringHashMap;

use crate::api::errors::errors::{
    law_plain_error_body, ApiResponse, ResponseView, error_message, error_response, internal_error,
    internal_error_response, json_response, unauthorized_error, unauthorized_response,
};
use crate::api::json::{is_plain_json_char, law_plain_text_is_only_quoted};
use crate::api::types::{TokenBody, token_json};
use crate::database::db::{ID, LoginResultError};

verus! {

/// How long a token lives, in seconds, before it is deleted from the store.
pub const TOKEN_TTL_SECS: u64 = 60 * 60;

/// A value together with the time (in seconds since the Unix epoch) at which
/// it expires.
#[derive(Clone, Copy)]
pub struct AddedTime<T> {
    pub data: T,
    pub added_time: u64,
}

impl<T> AddedTime<T> {
    /// The value `data` as stamped at time `now`: it expires one token
    /// lifetime later.
    pub open spec fn stamped(data: T, now: u64) -> Self {
        AddedTime { data, added_time: (now + TOKEN_TTL_SECS) as u64 }
    }

    /// Stamps `data` at time `now` (seconds since the Unix epoch): it expires
    /// `TOKEN_TTL_SECS` later.
    pub fn new(data: T, now: u64) -> (r: Self)
        requires
            now <= u64::MAX - TOKEN_TTL_SECS,
        ensures
            r == Self::stamped(data, now),
            r.data == data,
            r.added_time == now + TOKEN_TTL_SECS,
    {
        AddedTime { data, added_time: now + TOKEN_TTL_SECS }
    }
}

/// The sessions: each token maps to the user's id and the token's expiry.
pub type Sessions = Map<Seq<char>, AddedTime<ID>>;

/// The texts of a sequence of strings.
pub open spec fn token_views(tokens: Seq<String>) -> Seq<Seq<char>> {
    tokens.map_values(|t: String| t@)
}

/// The store of session tokens.
pub struct TokenStore {
    entries: StringHashMap<AddedTime<ID>>,
    tokens: Vec<String>,
}

impl View for TokenStore {
    type V = Sessions;

    closed spec fn view(&self) -> Sessions {
        self.entries@
    }
}

/// Whether the entry is still alive at time `now`: it expires after `now`.
pub open spec fn is_live(entry: AddedTime<ID>, now: u64) -> bool {
    entry.added_time > now
}

/// The sessions that are still alive at time `now`.
pub open spec fn unexpired(m: Sessions, now: u64) -> Sessions {
    Map::new(|k: Seq<char>| m.contains_key(k) && is_live(m[k], now), |k: Seq<char>| m[k])
}

/// The user that `token` authorizes, if any.
pub open spec fn user_of(m: Sessions, token: Seq<char>) -> Option<ID> {
    if m.contains_key(token) {
        Some(m[token].data)
    } else {
        None
    }
}

proof fn lemma_push_contains(s: Seq<Seq<char>>, x: Seq<char>, k: Seq<char>)
    ensures
        s.push(x).contains(k) <==> (s.contains(k) || k == x),
{
    if s.contains(k) {
        let j = choose|j: int| 0 <= j < s.len() && s[j] == k;
        assert(s.push(x)[j] == k);
    }
    if k == x {
        assert(s.push(x)[s.len() as int] == k);
    }
    if s.push(x).contains(k) {
        let j = choose|j: int| 0 <= j < s.push(x).len() && s.push(x)[j] == k;
        if j < s.len() {
            assert(s[j] == k);
        }
    }
}

/// Pushing an element that a sequence does not hold keeps it free of
/// duplicates, and adds exactly that element.
proof fn lemma_push_fresh(s: Seq<Seq<char>>, x: Seq<char>)
    requires
        s.no_duplicates(),
        !s.contains(x),
    ensures
        s.push(x).no_duplicates(),
        forall|k: Seq<char>| #[trigger] s.push(x).contains(k) <==> (s.contains(k) || k == x),
{
    assert forall|k: Seq<char>| #[trigger] s.push(x).contains(k) <==> (s.contains(k) || k == x) by {
        lemma_push_contains(s, x, k);
    }
    let t = s.push(x);
    assert forall|a: int, b: int| 0 <= a < t.len() && 0 <= b < t.len() && a != b implies t[a]
        != t[b] by {
        if a < s.len() && b < s.len() {
            assert(t[a] == s[a] && t[b] == s[b]);
        } else if a < s.len() {
            assert(t[a] == s[a]);
        } else {
            assert(t[b] == s[b]);
        }
    }
}

/// The map and the list of tokens agree: the list holds each token of the map
/// exactly once.
spec fn fields_agree(entries: Sessions, tokens: Seq<String>) -> bool {
    &&& token_views(tokens).no_duplicates()
    &&& forall|k: Seq<char>|
        #[trigger] entries.contains_key(k) <==> token_views(tokens).contains(k)
}

impl TokenStore {
    #[verifier::type_invariant]
    spec fn wf(self) -> bool {
        fields_agree(self.entries@, self.tokens@)
    }

    /// An empty store.
    pub fn new() -> (r: Self)
        ensures
            r@ == Map::<Seq<char>, AddedTime<ID>>::empty(),
    {
        let entries = StringHashMap::new();
        let tokens: Vec<String> = Vec::new();
        assert(token_views(tokens@) =~= Seq::<Seq<char>>::empty());
        TokenStore { entries, tokens }
    }

    /// Takes the fields out of the store, leaving it empty.
    fn take_fields(&mut self) -> (r: (StringHashMap<AddedTime<ID>>, Vec<String>))
        ensures
            r.0@ == old(self)@,
            fields_agree(r.0@, r.1@),
    {
        proof {
            use_type_invariant(&*self);
        }
        let mut taken = TokenStore::new();
        std::mem::swap(self, &mut taken);
        proof {
            use_type_invariant(&taken);
        }
        let TokenStore { entries, tokens } = taken;
        (entries, tokens)
    }

    /// The entry of `token`, if it has one.
    pub fn get(&self, token: &str) -> (r: Option<AddedTime<ID>>)
        ensures
            r == (if self@.contains_key(token@) {
                Some(self@[token@])
            } else {
                None
            }),
    {
        match self.entries.get(token) {
            Some(e) => Some(*e),
            None => None,
        }
    }

    /// Gives `token` the entry `entry`, replacing the one it had.
    pub fn insert(&mut self, token: String, entry: AddedTime<ID>)
        ensures
            final(self)@ == old(self)@.insert(token@, entry),
    {
        let (mut entries, mut tokens) = self.take_fields();
        let ghost old_views = token_views(tokens@);
        if !entries.contains_key(token.as_str()) {
            let copy = token.clone();
            tokens.push(copy);
            proof {
                assert(token_views(tokens@) =~= old_views.push(token@));
                lemma_push_fresh(old_views, token@);
            }
        }
        entries.insert(token, entry);
        *self = TokenStore { entries, tokens };
    }

    /// Removes `token` from the store, and gives back the entry it had.
    pub fn remove(&mut self, token: &String) -> (r: Option<AddedTime<ID>>)
        ensures
            final(self)@ == old(self)@.remove(token@),
            r == (if old(self)@.contains_key(token@) {
                Some(old(self)@[token@])
            } else {
                None
            }),
    {
        let found = self.get(token.as_str());
        match found {
            None => {
                assert(self@ =~= old(self)@.remove(token@));
                None
            },
            Some(entry) => {
                let (mut entries, mut tokens) = self.take_fields();
                let ghost views = token_views(tokens@);
                assert(views.contains(token@));
                let mut i: usize = 0;
                while i < tokens.len() && !(tokens[i] == *token)
                    invariant
                        views == token_views(tokens@),
                        views.contains(token@),
                        0 <= i <= tokens@.len(),
                        forall|j: int| 0 <= j < i ==> tokens@[j]@ != token@,
                    decreases tokens@.len() - i,
                {
                    i = i + 1;
                }
                proof {
                    if i == tokens@.len() {
                        let j = choose|j: int| 0 <= j < views.len() && views[j] == token@;
                        assert(tokens@[j]@ == token@);
                    }
                }
                assert(views[i as int] == token@);
                tokens.remove(i);
                entries.remove(token.as_str());
                proof {
                    let nv = token_views(tokens@);
                    assert(nv =~= views.remove(i as int));
                    assert forall|a: int, b: int|
                        0 <= a < nv.len() && 0 <= b < nv.len() && a != b implies nv[a]
                        != nv[b] by {
                        let oa = if a < i { a } else { a + 1 };
                        let ob = if b < i { b } else { b + 1 };
                        assert(nv[a] == views[oa]);
                        assert(nv[b] == views[ob]);
                    }
                    assert forall|k: Seq<char>|
                        #[trigger] entries@.contains_key(k) <==> nv.contains(k) by {
                        if nv.contains(k) {
                            let a = choose|a: int| 0 <= a < nv.len() && nv[a] == k;
                            let oa = if a < i { a } else { a + 1 };
                            assert(views[oa] == k);
                            assert(oa != i);
                            assert(views.contains(k));
                        }
                        if entries@.contains_key(k) {
                            assert(views.contains(k));
                            let o = choose|o: int| 0 <= o < views.len() && views[o] == k;
                            assert(o != i);
                            if o < i {
                                assert(nv[o] == k);
                            } else {
                                assert(nv[o - 1] == k);
                            }
                        }
                    }
                }
                *self = TokenStore { entries, tokens };
                Some(entry)
            },
        }
    }

    /// Deletes every token whose expiry has come: it keeps exactly the tokens
    /// that expire after `now`.
    pub fn remove_expired(&mut self, now: u64)
        ensures
            final(self)@ == unexpired(old(self)@, now),
    {
        let (mut entries, tokens) = self.take_fields();
        let ghost old_m = entries@;
        let ghost keys = token_views(tokens@);
        let mut kept: Vec<String> = Vec::new();
        let n = tokens.len();
        let mut i: usize = 0;
        while i < n
            invariant
                n == tokens@.len(),
                keys == token_views(tokens@),
                keys.no_duplicates(),
                forall|k: Seq<char>| #[trigger] old_m.contains_key(k) <==> keys.contains(k),
                0 <= i <= n,
                forall|k: Seq<char>|
                    #[trigger] entries@.contains_key(k) <==> (old_m.contains_key(k) && (
                    !keys.take(i as int).contains(k) || is_live(old_m[k], now))),
                forall|k: Seq<char>|
                    #[trigger] entries@.contains_key(k) ==> entries@[k] == old_m[k],
                token_views(kept@).no_duplicates(),
                forall|k: Seq<char>|
                    #[trigger] token_views(kept@).contains(k) <==> (keys.take(i as int).contains(k)
                        && is_live(old_m[k], now)),
            decreases n - i,
        {
            let ghost key = keys[i as int];
            let ghost before = token_views(kept@);
            proof {
                assert forall|k: Seq<char>|
                    #[trigger] before.contains(k) <==> (keys.take(i as int).contains(k) && is_live(
                        old_m[k],
                        now,
                    )) by {
                    assert(token_views(kept@).contains(k) <==> (keys.take(i as int).contains(k)
                        && is_live(old_m[k], now)));
                }
                assert(keys.take(i + 1) =~= keys.take(i as int).push(key));
                assert forall|k: Seq<char>|
                    keys.take(i + 1).contains(k) <==> (keys.take(i as int).contains(k) || k
                        == key) by {
                    lemma_push_contains(keys.take(i as int), key, k);
                }
                if keys.take(i as int).contains(key) {
                    let j = choose|j: int|
                        0 <= j < keys.take(i as int).len() && keys.take(i as int)[j] == key;
                    assert(keys[j] == keys[i as int]);
                }
                assert(keys.contains(key));
                assert(old_m.contains_key(key));
            }
            match entries.get(tokens[i].as_str()) {
                Some(e) => {
                    if e.added_time > now {
                        let copy = tokens[i].clone();
                        kept.push(copy);
                        proof {
                            assert(token_views(kept@) =~= before.push(key));
                            lemma_push_fresh(before, key);
                        }
                    } else {
                        entries.remove(tokens[i].as_str());
                    }
                },
                None => {
                    proof {
                        assert(false);
                    }
                },
            }
            proof {
                assert forall|k: Seq<char>|
                    #[trigger] token_views(kept@).contains(k) <==> (keys.take(i + 1).contains(k)
                        && is_live(old_m[k], now)) by {
                    if is_live(old_m[key], now) {
                        lemma_push_contains(before, key, k);
                    }
                }
            }
            i = i + 1;
        }
        proof {
            assert(keys.take(n as int) =~= keys);
            assert(entries@ =~= unexpired(old_m, now));
        }
        *self = TokenStore { entries, tokens: kept };
    }
}

/// The reply and the sessions after a login attempt with the given outcome,
/// where `token` is the fresh token handed out on success.
pub open spec fn login_transition(
    m: Sessions,
    outcome: Result<ID, LoginResultError>,
    token: Seq<char>,
    now: u64,
) -> (Sessions, ResponseView) {
    match outcome {
        Ok(id) => (m.insert(token, AddedTime::stamped(id, now)), json_response(token_json(token))),
        Err(LoginResultError::SqlError(_)) => (m, internal_error_response()),
        Err(LoginResultError::InvalidUsernamePassword) => (
            m,
            error_response("invalid username or password"@, 400),
        ),
    }
}

/// The reply and the sessions after a request to renew the token `auth`, where
/// `new_token` is the fresh token handed out on success.
pub open spec fn renew_transition(m: Sessions, auth: Seq<char>, new_token: Seq<char>) -> (
    Sessions,
    ResponseView,
) {
    if m.contains_key(auth) {
        (m.remove(auth).insert(new_token, m[auth]), json_response(token_json(new_token)))
    } else {
        (m, unauthorized_response())
    }
}

/// Whether `c` is a lowercase hexadecimal digit.
pub open spec fn is_lower_hex(c: char) -> bool {
    ('0' <= c <= '9') || ('a' <= c <= 'f')
}

/// Whether `s` is a UUID in hyphenated lowercase form:
/// `xxxxxxxx-xxxx-xxxx-xxxx-xxxxxxxxxxxx`.
pub open spec fn is_hyphenated_uuid(s: Seq<char>) -> bool {
    &&& s.len() == 36
    &&& forall|i: int|
        0 <= i < 36 ==> if i == 8 || i == 13 || i == 18 || i == 23 {
            s[i] == '-'
        } else {
            is_lower_hex(#[trigger] s[i])
        }
}

/// Whether `s` is a version 4 UUID in hyphenated lowercase form: the version
/// digit is `4` and the variant digit is one of `8`, `9`, `a`, `b`.
pub open spec fn is_v4_uuid(s: Seq<char>) -> bool {
    &&& is_hyphenated_uuid(s)
    &&& s[14] == '4'
    &&& (s[19] == '8' || s[19] == '9' || s[19] == 'a' || s[19] == 'b')
}

/// Calls `uuid::Uuid::new_v4()` and writes the id as text (`Display`).
/// Trusted: the text is the hyphenated lowercase form of a version 4 UUID
/// (`new_v4` sets the version and variant bits); which id comes out is left
/// open (it is random).
#[verifier::external_body]
fn new_token() -> (r: String)
    ensures
        is_v4_uuid(r@),
{
    uuid::Uuid::new_v4().to_string()
}

/// The reply that hands out `token`.
fn token_reply(token: String) -> (r: ApiResponse)
    ensures
        r@ == json_response(token_json(token@)),
{
    let body = TokenBody { token };
    ApiResponse { status: 200, json: true, body: body.to_json() }
}

/// The user that the token `auth` authorizes, or the unauthorized reply.
pub fn authorize_user(store: &TokenStore, auth: &str) -> (r: Result<ID, ApiResponse>)
    ensures
        match user_of(store@, auth@) {
            Some(id) => r == Ok::<ID, ApiResponse>(id),
            None => r matches Err(e) && e@ == unauthorized_response(),
        },
{
    match store.get(auth) {
        None => Err(unauthorized_error()),
        Some(entry) => Ok(entry.data),
    }
}

/// With no token, no user; with a token, the user it authorizes, or the
/// unauthorized reply.
pub fn authorize_user_optional(store: &TokenStore, auth: Option<String>) -> (r: Result<
    Option<ID>,
    ApiResponse,
>)
    ensures
        match auth {
            None => r == Ok::<Option<ID>, ApiResponse>(None),
            Some(a) => match user_of(store@, a@) {
                Some(id) => r == Ok::<Option<ID>, ApiResponse>(Some(id)),
                None => r matches Err(e) && e@ == unauthorized_response(),
            },
        },
{
    match auth {
        None => Ok(None),
        Some(auth_string) => match store.get(auth_string.as_str()) {
            None => Err(unauthorized_error()),
            Some(entry) => Ok(Some(entry.data)),
        },
    }
}

/// Completes a login attempt with the given outcome at time `now`: on success
/// `token` is stored for the user and handed out.
pub fn login_user_with_token(
    store: &mut TokenStore,
    outcome: Result<ID, LoginResultError>,
    token: String,
    now: u64,
) -> (r: ApiResponse)
    requires
        outcome is Ok ==> now <= u64::MAX - TOKEN_TTL_SECS,
    ensures
        (final(store)@, r@) == login_transition(old(store)@, outcome, token@, now),
{
    match outcome {
        Ok(user_id) => {
            let copy = token.clone();
            store.insert(copy, AddedTime::new(user_id, now));
            token_reply(token)
        },
        Err(LoginResultError::SqlError(_)) => internal_error(),
        Err(LoginResultError::InvalidUsernamePassword) => error_message(
            "invalid username or password",
            400,
        ),
    }
}

/// Completes a login attempt with the given outcome at time `now`: on success a
/// fresh token is stored for the user and handed out.
pub fn login_user(store: &mut TokenStore, outcome: Result<ID, LoginResultError>, now: u64) -> (r:
    ApiResponse)
    requires
        outcome is Ok ==> now <= u64::MAX - TOKEN_TTL_SECS,
    ensures
        exists|token: Seq<char>|
            #![trigger login_transition(old(store)@, outcome, token, now)]
            (outcome is Ok ==> is_v4_uuid(token)) && (final(store)@, r@)
                == login_transition(old(store)@, outcome, token, now),
{
    let token = if outcome.is_ok() {
        new_token()
    } else {
        String::new()
    };
    let ghost t = token@;
    let r = login_user_with_token(store, outcome, token, now);
    assert((store@, r@) == login_transition(old(store)@, outcome, t, now));
    r
}

/// Replaces the token `auth` by `new_token`, which keeps the user and the
/// expiry; an unknown token gets the unauthorized reply.
pub fn renew_token_with(store: &mut TokenStore, auth: String, new_token: String) -> (r:
    ApiResponse)
    ensures
        (final(store)@, r@) == renew_transition(old(store)@, auth@, new_token@),
{
    match store.remove(&auth) {
        None => unauthorized_error(),
        Some(entry) => {
            let copy = new_token.clone();
            store.insert(copy, entry);
            token_reply(new_token)
        },
    }
}

/// Replaces the token `auth` by a fresh one, which keeps the user and the
/// expiry; an unknown token gets the unauthorized reply.
pub fn renew_token(store: &mut TokenStore, auth: String) -> (r: ApiResponse)
    ensures
        exists|token: Seq<char>|
            #![trigger renew_transition(old(store)@, auth@, token)]
            (old(store)@.contains_key(auth@) ==> is_v4_uuid(token) && token != auth@) && (
            final(store)@, r@) == renew_transition(old(store)@, auth@, token),
        old(store)@.contains_key(auth@) ==> !final(store)@.contains_key(auth@),
{
    let token = if store.get(auth.as_str()).is_some() {
        let fresh = new_token();
        if fresh == auth {
            other_uuid(&fresh)
        } else {
            fresh
        }
    } else {
        String::new()
    };
    let ghost t = token@;
    let r = renew_token_with(store, auth, token);
    assert((store@, r@) == renew_transition(old(store)@, auth@, t));
    r
}

/// A version 4 UUID text that differs from `t` in its last digit only.
fn other_uuid(t: &String) -> (r: String)
    requires
        is_v4_uuid(t@),
    ensures
        is_v4_uuid(r@),
        r@ != t@,
{
    let text = t.as_str();
    let prefix = text.substring_char(0, 35);
    let last = text.get_char(35);
    let mut r = String::new();
    r.append(prefix);
    proof {
        reveal_strlit("0");
        reveal_strlit("1");
    }
    if last == '0' {
        r.append("1");
    } else {
        r.append("0");
    }
    assert(r@[35] != t@[35]);
    assert forall|i: int|
        0 <= i < 36 implies if i == 8 || i == 13 || i == 18 || i == 23 {
        r@[i] == '-'
    } else {
        is_lower_hex(#[trigger] r@[i])
    } by {
        if i < 35 {
            assert(r@[i] == t@[i]);
        }
    }
    r
}

/// After a successful login, the token handed out authorizes the user.
pub proof fn law_login_then_authorize(m: Sessions, id: ID, token: Seq<char>, now: u64)
    ensures
        user_of(login_transition(m, Ok(id), token, now).0, token) == Some(id),
{
}

/// A successful login stores the user under the new token, expiring one token
/// lifetime later, and leaves every other token's session as it was.
pub proof fn law_login_keeps_other_sessions(
    m: Sessions,
    id: ID,
    token: Seq<char>,
    now: u64,
    k: Seq<char>,
)
    requires
        now <= u64::MAX - TOKEN_TTL_SECS,
    ensures
        login_transition(m, Ok(id), token, now).0.contains_key(token),
        login_transition(m, Ok(id), token, now).0[token].data == id,
        login_transition(m, Ok(id), token, now).0[token].added_time == now + TOKEN_TTL_SECS,
        k != token ==> login_transition(m, Ok(id), token, now).0.contains_key(k)
            == m.contains_key(k),
        k != token && m.contains_key(k) ==> login_transition(m, Ok(id), token, now).0[k] == m[k],
{
}

/// A failed login changes no session, whatever the failure.
pub proof fn law_failed_login_keeps_sessions(
    m: Sessions,
    error: LoginResultError,
    token: Seq<char>,
    now: u64,
)
    ensures
        login_transition(m, Err(error), token, now).0 == m,
{
}

/// Renewing a known token moves its session to the new token: the new token
/// authorizes the same user and expires when the old one would have, the old
/// token authorizes no one any more (unless it is the new one), and every
/// other token keeps its session.
pub proof fn law_renew_moves_session(m: Sessions, auth: Seq<char>, new_token: Seq<char>)
    requires
        m.contains_key(auth),
    ensures
        renew_transition(m, auth, new_token).0.contains_key(new_token),
        renew_transition(m, auth, new_token).0[new_token] == m[auth],
        user_of(renew_transition(m, auth, new_token).0, new_token) == user_of(m, auth),
        auth != new_token ==> user_of(renew_transition(m, auth, new_token).0, auth) is None,
        forall|k: Seq<char>|
            k != auth && k != new_token ==> (#[trigger] renew_transition(m, auth, new_token).0.contains_key(k)
                == m.contains_key(k) && (m.contains_key(k) ==> renew_transition(
                m,
                auth,
                new_token,
            ).0[k] == m[k])),
{
}

/// Renewing a token that the store does not hold changes nothing and is
/// answered with the unauthorized reply.
pub proof fn law_renew_unknown_token(m: Sessions, auth: Seq<char>, new_token: Seq<char>)
    requires
        !m.contains_key(auth),
    ensures
        renew_transition(m, auth, new_token) == (m, unauthorized_response()),
{
}

/// Deleting expired tokens keeps exactly the sessions that are alive at that
/// time, each unchanged.
pub proof fn law_cleanup_keeps_live(m: Sessions, now: u64)
    ensures
        forall|k: Seq<char>|
            #[trigger] unexpired(m, now).contains_key(k) <==> (m.contains_key(k)
                && m[k].added_time > now),
        forall|k: Seq<char>| #[trigger] unexpired(m, now).contains_key(k) ==> unexpired(m, now)[k] == m[k],
{
}

/// Deleting expired tokens twice at the same time is deleting them once.
pub proof fn law_cleanup_idempotent(m: Sessions, now: u64)
    ensures
        unexpired(unexpired(m, now), now) == unexpired(m, now),
{
    assert(unexpired(unexpired(m, now), now) =~= unexpired(m, now));
}

/// A later cleanup deletes everything that an earlier one deleted.
pub proof fn law_later_cleanup_subsumes(m: Sessions, earlier: u64, later: u64)
    requires
        earlier <= later,
    ensures
        unexpired(unexpired(m, earlier), later) == unexpired(m, later),
{
    assert(unexpired(unexpired(m, earlier), later) =~= unexpired(m, later));
}

/// A token handed out by a login at time `issued` survives every cleanup before
/// an hour (3600 seconds) has passed, and no cleanup after that.
pub proof fn law_token_lives_for_ttl(m: Sessions, id: ID, token: Seq<char>, issued: u64, now: u64)
    requires
        issued <= u64::MAX - 3600,
    ensures
        user_of(unexpired(login_transition(m, Ok(id), token, issued).0, now), token) == (if now
            < issued + 3600 {
            Some(id)
        } else {
            None
        }),
{
}

/// The reply that hands out a UUID token is the token between quotes, with
/// nothing escaped.
pub proof fn law_token_body_is_plain(token: Seq<char>)
    requires
        is_hyphenated_uuid(token),
    ensures
        token_json(token) == "{\"token\":\""@ + token + "\"}"@,
{
    assert forall|i: int| 0 <= i < token.len() implies is_plain_json_char(#[trigger] token[i]) by {
        if !(i == 8 || i == 13 || i == 18 || i == 23) {
            assert(is_lower_hex(token[i]));
        }
    }
    law_plain_text_is_only_quoted(token);
    reveal_strlit("{\"token\":");
    reveal_strlit("}");
    reveal_strlit("{\"token\":\"");
    reveal_strlit("\"}");
    assert(token_json(token) =~= "{\"token\":\""@ + token + "\"}"@);
}

/// A login refused for a wrong name or password is answered with status 400 and
/// `{"error":"invalid username or password"}`.
pub proof fn law_invalid_login_reply(m: Sessions, token: Seq<char>, now: u64)
    ensures
        login_transition(m, Err(LoginResultError::InvalidUsernamePassword), token, now).1 == (
        ResponseView {
            status: 400,
            json: true,
            body: "{\"error\":\"invalid username or password\"}"@,
        }),
{
    reveal_strlit("invalid username or password");
    reveal_strlit("{\"error\":\"invalid username or password\"}");
    let msg = "invalid username or password"@;
    assert forall|i: int| 0 <= i < msg.len() implies is_plain_json_char(#[trigger] msg[i]) by {}
    law_plain_error_body(msg);
    reveal_strlit("{\"error\":\"");
    reveal_strlit("\"}");
    assert("{\"error\":\""@ + msg + "\"}"@ =~= "{\"error\":\"invalid username or password\"}"@);
}

} // verus!
