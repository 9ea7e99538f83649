//! One-time-password login for the administrator: codes waiting to be
//! used, session tokens, and the check that guards the admin routes.

use vstd::prelude::*;
use crate::api::{ApiError, OtpError};
use crate::text::{stripped, strip_prefix, trim, trimmed};

verus! {

/// The views of a list of key/value pairs of strings.
pub open spec fn pair_views(s: Seq<(String, String)>) -> Seq<(Seq<char>, Seq<char>)> {
    s.map_values(|e: (String, String)| (e.0@, e.1@))
}

/// The value of the last pair in `s` whose key is `key`.
pub open spec fn lookup(s: Seq<(Seq<char>, Seq<char>)>, key: Seq<char>) -> Option<Seq<char>>
    decreases s.len(),
{
    if s.len() == 0 {
        None
    } else if s.last().0 == key {
        Some(s.last().1)
    } else {
        lookup(s.drop_last(), key)
    }
}

/// The map that a list of pairs stands for: a later pair for a key hides
/// an earlier one.
pub open spec fn pairs_map(s: Seq<(Seq<char>, Seq<char>)>) -> Map<Seq<char>, Seq<char>> {
    Map::new(|k: Seq<char>| lookup(s, k) is Some, |k: Seq<char>| lookup(s, k)->0)
}

/// The pairs of `s` whose key is not `key`, in order.
pub open spec fn without_key(s: Seq<(Seq<char>, Seq<char>)>, key: Seq<char>) -> Seq<
    (Seq<char>, Seq<char>),
> {
    s.filter(|e: (Seq<char>, Seq<char>)| e.0 != key)
}

proof fn lemma_lookup_without_key(s: Seq<(Seq<char>, Seq<char>)>, key: Seq<char>, k: Seq<char>)
    ensures
        lookup(without_key(s, key), k) == (if k == key {
            None
        } else {
            lookup(s, k)
        }),
    decreases s.len(),
{
    reveal(Seq::filter);
    if s.len() > 0 {
        lemma_lookup_without_key(s.drop_last(), key, k);
        let f = without_key(s, key);
        if s.last().0 != key {
            assert(f.drop_last() =~= without_key(s.drop_last(), key));
        }
    }
}

proof fn lemma_map_without_key(s: Seq<(Seq<char>, Seq<char>)>, key: Seq<char>)
    ensures
        pairs_map(without_key(s, key)) == pairs_map(s).remove(key),
{
    assert forall|k: Seq<char>| true implies lookup(without_key(s, key), k) == (if k == key {
        None
    } else {
        lookup(s, k)
    }) by {
        lemma_lookup_without_key(s, key, k);
    }
    assert(pairs_map(without_key(s, key)) =~= pairs_map(s).remove(key));
}

proof fn lemma_map_push(s: Seq<(Seq<char>, Seq<char>)>, key: Seq<char>, value: Seq<char>)
    ensures
        pairs_map(s.push((key, value))) == pairs_map(s).insert(key, value),
{
    assert forall|k: Seq<char>| true implies lookup(s.push((key, value)), k) == (if k == key {
        Some(value)
    } else {
        lookup(s, k)
    }) by {
        assert(s.push((key, value)).drop_last() =~= s);
    }
    assert(pairs_map(s.push((key, value))) =~= pairs_map(s).insert(key, value));
}

/// A small map from strings to strings.
pub struct Table {
    entries: Vec<(String, String)>,
}

impl View for Table {
    type V = Map<Seq<char>, Seq<char>>;

    closed spec fn view(&self) -> Map<Seq<char>, Seq<char>> {
        pairs_map(pair_views(self.entries@))
    }
}

impl Table {
    /// An empty table.
    pub fn new() -> (r: Table)
        ensures
            r@ == Map::<Seq<char>, Seq<char>>::empty(),
    {
        let r = Table { entries: Vec::new() };
        assert(r@ =~= Map::<Seq<char>, Seq<char>>::empty());
        r
    }

    /// The value stored under `key`.
    pub fn get(&self, key: &String) -> (r: Option<String>)
        ensures
            match r {
                Some(v) => self@.contains_key(key@) && self@[key@] == v@,
                None => !self@.contains_key(key@),
            },
    {
        let ghost s = pair_views(self.entries@);
        let mut i = self.entries.len();
        assert(s.take(i as int) =~= s);
        while i > 0
            invariant
                s == pair_views(self.entries@),
                i <= s.len(),
                lookup(s, key@) == lookup(s.take(i as int), key@),
            decreases i,
        {
            let entry = &self.entries[i - 1];
            assert(s[i - 1] == (entry.0@, entry.1@));
            assert(s.take(i as int).last() == s[i - 1]);
            if entry.0 == *key {
                return Some(entry.1.clone());
            }
            assert(s.take(i as int).drop_last() =~= s.take(i - 1));
            i -= 1;
        }
        None
    }

    /// Removes what is stored under `key`.
    pub fn remove(&mut self, key: &String)
        ensures
            final(self)@ == old(self)@.remove(key@),
    {
        let ghost s = pair_views(self.entries@);
        let mut kept: Vec<(String, String)> = Vec::new();
        let n = self.entries.len();
        let mut i: usize = 0;
        assert(pair_views(kept@) =~= without_key(s.take(0), key@)) by {
            reveal(Seq::filter);
        }
        while i < n
            invariant
                n == self.entries@.len(),
                s == pair_views(self.entries@),
                i <= n,
                pair_views(kept@) == without_key(s.take(i as int), key@),
            decreases n - i,
        {
            let entry = &self.entries[i];
            assert(s[i as int] == (entry.0@, entry.1@));
            assert(s.take(i + 1).drop_last() =~= s.take(i as int));
            assert(s.take(i + 1).last() == s[i as int]);
            proof {
                reveal(Seq::filter);
            }
            if entry.0 != *key {
                let ghost before = kept@;
                kept.push((entry.0.clone(), entry.1.clone()));
                assert(pair_views(kept@) =~= pair_views(before).push(s[i as int]));
            }
            i += 1;
        }
        assert(s.take(n as int) =~= s);
        proof {
            lemma_map_without_key(s, key@);
        }
        self.entries = kept;
    }

    /// Stores `value` under `key`, in place of what was there.
    pub fn insert(&mut self, key: String, value: String)
        ensures
            final(self)@ == old(self)@.insert(key@, value@),
    {
        self.remove(&key);
        let ghost s = pair_views(self.entries@);
        self.entries.push((key, value));
        proof {
            assert(pair_views(self.entries@) =~= s.push((key@, value@)));
            lemma_map_push(s, key@, value@);
        }
    }
}

/// What the login state holds: the code waiting for each email, and the
/// email that each session token belongs to.
pub struct AuthView {
    pub otps: Map<Seq<char>, Seq<char>>,
    pub sessions: Map<Seq<char>, Seq<char>>,
}

/// The outcome of asking for a login code.
pub enum RequestOtpOutcome {
    /// A code was issued; it is to be sent to the email.
    Issued(String),
}

/// Login codes and sessions.
pub struct AuthStore {
    otps: Table,
    sessions: Table,
}

impl View for AuthStore {
    type V = AuthView;

    closed spec fn view(&self) -> AuthView {
        AuthView { otps: self.otps@, sessions: self.sessions@ }
    }
}

impl AuthView {
    /// The state after a code is issued for `email`.
    pub open spec fn with_otp(self, email: Seq<char>, code: Seq<char>) -> AuthView {
        AuthView { otps: self.otps.insert(email, code), ..self }
    }

    /// What using `code` for `email` answers.
    pub open spec fn otp_check(self, email: Seq<char>, code: Seq<char>) -> Result<(), OtpError> {
        if !self.otps.contains_key(email) {
            Err(OtpError::NotRequested)
        } else if self.otps[email] != code {
            Err(OtpError::Mismatch)
        } else {
            Ok(())
        }
    }

    /// The state after `code` is used for `email`: a code that is
    /// accepted is used up.
    pub open spec fn after_otp_use(self, email: Seq<char>, code: Seq<char>) -> AuthView {
        if self.otp_check(email, code) is Ok {
            AuthView { otps: self.otps.remove(email), ..self }
        } else {
            self
        }
    }

    /// The state after a session `token` is opened for `email`.
    pub open spec fn with_session(self, token: Seq<char>, email: Seq<char>) -> AuthView {
        AuthView { sessions: self.sessions.insert(token, email), ..self }
    }

    /// The state after the session `token` is closed.
    pub open spec fn without_session(self, token: Seq<char>) -> AuthView {
        AuthView { sessions: self.sessions.remove(token), ..self }
    }
}

impl AuthStore {
    /// No codes and no sessions.
    pub fn new() -> (r: AuthStore)
        ensures
            r@.otps == Map::<Seq<char>, Seq<char>>::empty(),
            r@.sessions == Map::<Seq<char>, Seq<char>>::empty(),
    {
        AuthStore { otps: Table::new(), sessions: Table::new() }
    }

    /// Issues `code` for `email`, in place of any earlier code for it.
    pub fn request_otp(&mut self, email: &str, code: String) -> (r: RequestOtpOutcome)
        ensures
            final(self)@ == old(self)@.with_otp(email@, code@),
            r matches RequestOtpOutcome::Issued(c) && c@ == code@,
    {
        let issued = code.clone();
        self.otps.insert(email.to_owned(), code);
        RequestOtpOutcome::Issued(issued)
    }

    /// Uses `code` for `email`: accepted when it is the code issued for
    /// the email, which is then used up.
    pub fn consume_otp(&mut self, email: &str, code: &str) -> (r: Result<(), OtpError>)
        ensures
            r == old(self)@.otp_check(email@, code@),
            final(self)@ == old(self)@.after_otp_use(email@, code@),
    {
        let key = email.to_owned();
        match self.otps.get(&key) {
            None => Err(OtpError::NotRequested),
            Some(expected) => {
                if expected != code.to_owned() {
                    Err(OtpError::Mismatch)
                } else {
                    self.otps.remove(&key);
                    proof {
                        assert(self@ =~= old(self)@.after_otp_use(email@, code@));
                    }
                    Ok(())
                }
            },
        }
    }

    /// Opens the session `token` for `email`, and hands the token back.
    pub fn create_session(&mut self, email: &str, token: String) -> (r: String)
        ensures
            final(self)@ == old(self)@.with_session(token@, email@),
            r@ == token@,
    {
        let t = token.clone();
        self.sessions.insert(token, email.to_owned());
        t
    }

    /// The email that the session `token` belongs to.
    pub fn session_email(&self, token: &str) -> (r: Option<String>)
        ensures
            match r {
                Some(e) => self@.sessions.contains_key(token@) && self@.sessions[token@] == e@,
                None => !self@.sessions.contains_key(token@),
            },
    {
        self.sessions.get(&token.to_owned())
    }

    /// Closes the session `token`.
    pub fn logout(&mut self, token: &str)
        ensures
            final(self)@ == old(self)@.without_session(token@),
    {
        self.sessions.remove(&token.to_owned());
    }
}


/// What the handlers need of the server state: the login state, and the
/// email of the one administrator.
pub struct AppState {
    pub auth: AuthStore,
    pub admin_email: String,
}

pub struct AppStateView {
    pub auth: AuthView,
    pub admin_email: Seq<char>,
}

impl View for AppState {
    type V = AppStateView;

    open spec fn view(&self) -> AppStateView {
        AppStateView { auth: self.auth@, admin_email: self.admin_email@ }
    }
}

/// An optional header value, by its view.
pub open spec fn header_view(h: Option<&str>) -> Option<Seq<char>> {
    match h {
        Some(s) => Some(s@),
        None => None,
    }
}

/// The session token that an `Authorization` header carries: what
/// follows `Bearer `, or the empty token.
pub open spec fn bearer_token(header: Option<Seq<char>>) -> Seq<char> {
    match header {
        Some(h) => match stripped(h, "Bearer "@) {
            Some(t) => t,
            None => Seq::empty(),
        },
        None => Seq::empty(),
    }
}

/// Whether the `Authorization` header opens the admin routes: its token
/// belongs to a session of the administrator's email.
pub open spec fn admits(state: AppStateView, header: Option<Seq<char>>) -> bool {
    let t = bearer_token(header);
    state.auth.sessions.contains_key(t) && state.auth.sessions[t] == state.admin_email
}

/// Lets the request through when its `Authorization` header holds a
/// session token of the administrator.
pub fn require_admin_session(state: &AppState, authorization: Option<&str>) -> (r: Result<(), ApiError>)
    ensures
        r == (if admits(state@, header_view(authorization)) {
            Ok(())
        } else {
            Err(ApiError::AdminLoginRequired)
        }),
{
    let token: &str = match authorization {
        Some(h) => match strip_prefix(h, "Bearer ") {
            Some(t) => t,
            None => "",
        },
        None => "",
    };
    proof {
        reveal_strlit("");
        assert(token@ == bearer_token(header_view(authorization)));
    }
    match state.auth.session_email(token) {
        Some(email) => {
            if email == state.admin_email {
                Ok(())
            } else {
                Err(ApiError::AdminLoginRequired)
            }
        },
        None => Err(ApiError::AdminLoginRequired),
    }
}

/// A login code to be mailed.
pub struct OtpDelivery {
    pub email: String,
    pub code: String,
}

/// The email that a login-code request names: the `email` field of its
/// body, trimmed, or the empty email where there is none.
pub open spec fn requested_email(email: Option<Seq<char>>) -> Seq<char> {
    match email {
        Some(e) => trimmed(e),
        None => trimmed(Seq::empty()),
    }
}

/// Handles a request for a login code: only the administrator's email
/// gets one, and only where mail can be sent. `code` is the fresh code to
/// issue.
pub fn request_otp(state: &mut AppState, email: Option<&str>, smtp_configured: bool, code: String) -> (r: Result<OtpDelivery, ApiError>)
    ensures
        ({
            let e = requested_email(header_view(email));
            if e != old(state)@.admin_email {
                r == Err::<OtpDelivery, ApiError>(ApiError::EmailNotRegistered) && final(state)@
                    == old(state)@
            } else if !smtp_configured {
                r == Err::<OtpDelivery, ApiError>(ApiError::SmtpNotConfigured) && final(state)@
                    == old(state)@
            } else {
                &&& r matches Ok(d) && d.email@ == e && d.code@ == code@
                &&& final(state)@ == (AppStateView {
                    auth: old(state)@.auth.with_otp(e, code@),
                    ..old(state)@
                })
            }
        }),
{
    let given: &str = match email {
        Some(e) => e,
        None => "",
    };
    let e = trim(given);
    proof {
        reveal_strlit("");
        assert(e@ == requested_email(header_view(email)));
    }
    if e != state.admin_email {
        return Err(ApiError::EmailNotRegistered);
    }
    if !smtp_configured {
        return Err(ApiError::SmtpNotConfigured);
    }
    let RequestOtpOutcome::Issued(issued) = state.auth.request_otp(e.as_str(), code);
    Ok(OtpDelivery { email: e, code: issued })
}

/// What a login-code request answers once the mail with the code has been
/// tried: status 200 and "otp sent" when it went out, and the mail refusal
/// (502, "failed to send mail") when it did not.
pub fn otp_mail_answer(sent: bool) -> (r: (u16, &'static str))
    ensures
        sent ==> r.0 == 200 && r.1@ == "otp sent"@,
        !sent ==> r.0 == ApiError::MailNotSent.spec_status() && r.1@
            == ApiError::MailNotSent.spec_message(),
{
    if sent {
        (200, "otp sent")
    } else {
        let e = ApiError::MailNotSent;
        (e.status(), e.message())
    }
}

/// Handles a login: when `code` is the one issued for `email`, it is used
/// up and the session `token` is opened for the email.
pub fn verify_otp(state: &mut AppState, email: &str, code: &str, token: String) -> (r: Result<String, ApiError>)
    ensures
        match old(state)@.auth.otp_check(email@, code@) {
            Ok(()) => {
                &&& r matches Ok(t) && t@ == token@
                &&& final(state)@ == (AppStateView {
                    auth: old(state)@.auth.after_otp_use(email@, code@).with_session(token@, email@),
                    ..old(state)@
                })
            },
            Err(e) => r == Err::<String, ApiError>(ApiError::Otp(e)) && final(state)@ == old(state)@,
        },
{
    match state.auth.consume_otp(email, code) {
        Ok(()) => Ok(state.auth.create_session(email, token)),
        Err(e) => Err(ApiError::Otp(e)),
    }
}

/// The session that a logout closes: the token after `Bearer `, if the
/// header has that form.
pub open spec fn logout_token(header: Option<Seq<char>>) -> Option<Seq<char>> {
    match header {
        Some(h) => stripped(h, "Bearer "@),
        None => None,
    }
}

/// Handles a logout: closes the session that the header names, if any.
pub fn logout(state: &mut AppState, authorization: Option<&str>)
    ensures
        final(state)@ == (match logout_token(header_view(authorization)) {
            Some(t) => (AppStateView { auth: old(state)@.auth.without_session(t), ..old(state)@ }),
            None => old(state)@,
        }),
{
    if let Some(h) = authorization {
        if let Some(t) = strip_prefix(h, "Bearer ") {
            state.auth.logout(t);
        }
    }
}

/// A code is accepted for the email it was issued for, and only once.
pub proof fn law_issued_code_accepted_once(a: AuthView, email: Seq<char>, code: Seq<char>)
    ensures
        a.with_otp(email, code).otp_check(email, code) is Ok,
        a.with_otp(email, code).after_otp_use(email, code).otp_check(email, code)
            == Err::<(), OtpError>(OtpError::NotRequested),
{
}

/// A code other than the one issued is refused, and changes nothing.
pub proof fn law_other_code_refused(a: AuthView, email: Seq<char>, code: Seq<char>, other: Seq<char>)
    requires
        other != code,
    ensures
        a.with_otp(email, code).otp_check(email, other) == Err::<(), OtpError>(OtpError::Mismatch),
        a.with_otp(email, code).after_otp_use(email, other) == a.with_otp(email, code),
{
}

/// A newer code replaces an older one for the same email.
pub proof fn law_newer_code_replaces(a: AuthView, email: Seq<char>, old_code: Seq<char>, new_code: Seq<char>)
    requires
        old_code != new_code,
    ensures
        a.with_otp(email, old_code).with_otp(email, new_code).otp_check(email, old_code)
            == Err::<(), OtpError>(OtpError::Mismatch),
        a.with_otp(email, old_code).with_otp(email, new_code).otp_check(email, new_code) is Ok,
{
    assert(a.with_otp(email, old_code).with_otp(email, new_code).otps =~= a.otps.insert(email, new_code));
}

/// A session opened for the administrator's email lets a request that
/// carries `Bearer <token>` through the admin routes.
pub proof fn law_admin_session_admits(st: AppStateView, token: Seq<char>)
    ensures
        admits(
            (AppStateView { auth: st.auth.with_session(token, st.admin_email), ..st }),
            Some("Bearer "@ + token),
        ),
{
    let h = "Bearer "@ + token;
    assert("Bearer "@.is_prefix_of(h)) by {
        assert(h.subrange(0, "Bearer "@.len() as int) =~= "Bearer "@);
    }
    assert(h.skip("Bearer "@.len() as int) =~= token);
}

/// The login flow: a code issued for the administrator's email is
/// accepted, and the session opened with it lets `Bearer <token>` through
/// the admin routes.
pub proof fn law_login_flow(st: AppStateView, code: Seq<char>, token: Seq<char>)
    ensures
        ({
            let issued = st.auth.with_otp(st.admin_email, code);
            &&& issued.otp_check(st.admin_email, code) is Ok
            &&& admits(
                (AppStateView {
                    auth: issued.after_otp_use(st.admin_email, code).with_session(
                        token,
                        st.admin_email,
                    ),
                    ..st
                }),
                Some("Bearer "@ + token),
            )
        }),
{
    let issued = st.auth.with_otp(st.admin_email, code);
    law_admin_session_admits(
        AppStateView { auth: issued.after_otp_use(st.admin_email, code), ..st },
        token,
    );
}

/// After a logout with `Bearer <token>`, that header no longer lets a
/// request through.
pub proof fn law_logout_closes_session(st: AppStateView, token: Seq<char>)
    ensures
        ({
            let h = Some("Bearer "@ + token);
            match logout_token(h) {
                Some(t) => !admits((AppStateView { auth: st.auth.without_session(t), ..st }), h),
                None => false,
            }
        }),
{
    let h = "Bearer "@ + token;
    assert("Bearer "@.is_prefix_of(h)) by {
        assert(h.subrange(0, "Bearer "@.len() as int) =~= "Bearer "@);
    }
    assert(h.skip("Bearer "@.len() as int) =~= token);
}

/// A session of some other email does not open the admin routes.
pub proof fn law_other_session_refused(st: AppStateView, token: Seq<char>, email: Seq<char>)
    requires
        email != st.admin_email,
    ensures
        !admits(
            (AppStateView { auth: st.auth.with_session(token, email), ..st }),
            Some("Bearer "@ + token),
        ),
{
    let h = "Bearer "@ + token;
    assert("Bearer "@.is_prefix_of(h)) by {
        assert(h.subrange(0, "Bearer "@.len() as int) =~= "Bearer "@);
    }
    assert(h.skip("Bearer "@.len() as int) =~= token);
}

} // verus!
