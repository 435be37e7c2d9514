//! The bind protocol: a user asks for a session and gets a token, a user on
//! another platform answers with the token, and the first user confirms;
//! the two accounts then share a reference id.

use vstd::prelude::*;
use crate::text::{clone_opt, opt_view, str_eq, trim};
use crate::token::{parse_token_chars, token_text, Token};
use crate::user::{
    apply_updates, by_counterpart, by_id, first_match, linked, ref_of, BridgeUser,
    BridgeUserManager,
};

verus! {

/// How long a bind session lives, in milliseconds.
pub const CACHE_TIMEOUT: i64 = 1000 * 3600 * 24;

/// Why a bind command failed.
#[derive(PartialEq, Eq, Debug, Clone, Copy, Structural)]
pub enum BindErr {
    /// The two accounts are linked already.
    AlreadyMapping,
    /// The token is not a token.
    InvalidToken,
    /// The caller has no live session.
    NoApply,
    /// A bridge user is missing.
    NotFoundBridgeUser,
    /// No live session has the token.
    NotFoundToken,
    /// Nobody has answered the session yet.
    NoResponed,
    /// Both sides are the same account, or on the same platform.
    SelfReference,
    /// The identity store refused the change.
    UpdateBridgeUserFailure,
}

/// The message shown to the user for `e`.
pub open spec fn bind_err_text(e: BindErr) -> Seq<char> {
    match e {
        BindErr::AlreadyMapping => "您与该账户已经存在关联。"@,
        BindErr::InvalidToken => "无效的口令！"@,
        BindErr::NotFoundToken => "无效的口令！"@,
        BindErr::NoApply => "您未申请绑定，或申请已被重置。"@,
        BindErr::NotFoundBridgeUser => "获取用户信息失败！"@,
        BindErr::NoResponed => "您的关联申请暂未收获回应。"@,
        BindErr::SelfReference => "自引用操作无效！"@,
        BindErr::UpdateBridgeUserFailure => "更新关联失败！"@,
    }
}

impl BindErr {
    /// The message shown to the user.
    pub fn to_string(&self) -> (r: String)
        ensures
            r@ == bind_err_text(*self),
    {
        let s = match self {
            BindErr::AlreadyMapping => "您与该账户已经存在关联。",
            BindErr::InvalidToken => "无效的口令！",
            BindErr::NotFoundToken => "无效的口令！",
            BindErr::NoApply => "您未申请绑定，或申请已被重置。",
            BindErr::NotFoundBridgeUser => "获取用户信息失败！",
            BindErr::NoResponed => "您的关联申请暂未收获回应。",
            BindErr::SelfReference => "自引用操作无效！",
            BindErr::UpdateBridgeUserFailure => "更新关联失败！",
        };
        String::from_str(s)
    }
}

/// A live bind request.
pub struct BindSession {
    /// The token's value.
    pub token: u32,
    /// The bridge user who asked.
    pub appl: String,
    /// The bridge user who answered, if any.
    pub resp: Option<String>,
    /// When the session was made, in milliseconds of a monotonic clock.
    pub create_time: i64,
}

impl Clone for BindSession {
    fn clone(&self) -> (r: Self)
        ensures
            r == *self,
    {
        BindSession {
            token: self.token,
            appl: self.appl.clone(),
            resp: clone_opt(&self.resp),
            create_time: self.create_time,
        }
    }
}

/// Sessions younger than the timeout at `now`.
pub open spec fn is_live(now: i64) -> spec_fn(BindSession) -> bool {
    |x: BindSession| now - x.create_time < CACHE_TIMEOUT
}

/// Sessions not asked for by `appl`.
pub open spec fn not_of(appl: Seq<char>) -> spec_fn(BindSession) -> bool {
    |x: BindSession| x.appl@ != appl
}

/// The sessions of `s` that `p` keeps, in order.
pub open spec fn keep(s: Seq<BindSession>, p: spec_fn(BindSession) -> bool) -> Seq<BindSession>
    decreases s.len(),
{
    if s.len() == 0 {
        Seq::empty()
    } else if p(s.last()) {
        keep(s.drop_last(), p).push(s.last())
    } else {
        keep(s.drop_last(), p)
    }
}

/// The sessions that are live at `now`.
pub open spec fn live_sessions(s: Seq<BindSession>, now: i64) -> Seq<BindSession> {
    keep(s, is_live(now))
}

/// No two sessions share a token, and each user has at most one session.
pub open spec fn sessions_wf(s: Seq<BindSession>) -> bool {
    forall|i: int, j: int|
        0 <= i < s.len() && 0 <= j < s.len() && i != j ==> #[trigger] s[i].token
            != #[trigger] s[j].token && s[i].appl@ != s[j].appl@
}

/// Whether some session of `s` has token `v`.
pub open spec fn has_token(s: Seq<BindSession>, v: u32) -> bool {
    exists|k: int| 0 <= k < s.len() && #[trigger] s[k].token == v
}

/// `y` is the session `x` answered by `resp`.
pub open spec fn answered(x: BindSession, y: BindSession, resp: Seq<char>) -> bool {
    &&& y.token == x.token
    &&& y.appl == x.appl
    &&& y.create_time == x.create_time
    &&& opt_view(y.resp) == Some(resp)
}

/// What answering a session of `appl` by `resp` comes to, given the users.
pub open spec fn resp_decision(appl: Seq<char>, resp: Seq<char>, us: Seq<BridgeUser>) -> Result<
    (),
    BindErr,
> {
    if appl == resp {
        Err(BindErr::SelfReference)
    } else {
        match (first_match(us, by_id(appl)), first_match(us, by_id(resp))) {
            (Some(a), Some(b)) => {
                if a.platform@ == b.platform@ {
                    Err(BindErr::SelfReference)
                } else if linked(a, b) {
                    Err(BindErr::AlreadyMapping)
                } else {
                    Ok(())
                }
            },
            _ => Err(BindErr::NotFoundBridgeUser),
        }
    }
}

/// The reference id two users are given when linked: the first one's, else
/// the second one's, else `fresh`.
pub open spec fn shared_ref(a: BridgeUser, b: BridgeUser, fresh: Seq<char>) -> Seq<char> {
    if ref_of(a) is Some {
        ref_of(a)->0
    } else if ref_of(b) is Some {
        ref_of(b)->0
    } else {
        fresh
    }
}

/// `b` is `a` with reference id `r` (none when `r` is `None`).
pub open spec fn relinked(a: BridgeUser, b: BridgeUser, r: Option<Seq<char>>) -> bool {
    &&& b.id == a.id
    &&& b.platform == a.platform
    &&& b.origin_id == a.origin_id
    &&& b.display_text == a.display_text
    &&& ref_of(b) == r
}

/// One step of `keep` over a growing prefix.
pub proof fn lemma_keep_step(s: Seq<BindSession>, p: spec_fn(BindSession) -> bool, i: int)
    requires
        0 <= i < s.len(),
    ensures
        keep(s.take(i + 1), p) == if p(s[i]) {
            keep(s.take(i), p).push(s[i])
        } else {
            keep(s.take(i), p)
        },
{
    assert(s.take(i + 1).drop_last() =~= s.take(i));
    assert(s.take(i + 1).last() == s[i]);
}

/// What `keep` leaves is drawn from `s`, and keeps its invariants.
pub proof fn lemma_keep_wf(s: Seq<BindSession>, p: spec_fn(BindSession) -> bool)
    requires
        sessions_wf(s),
    ensures
        sessions_wf(keep(s, p)),
        forall|k: int|
            0 <= k < keep(s, p).len() ==> exists|j: int|
                0 <= j < s.len() && s[j] == #[trigger] keep(s, p)[k],
        forall|k: int| 0 <= k < keep(s, p).len() ==> p(#[trigger] keep(s, p)[k]),
    decreases s.len(),
{
    if s.len() > 0 {
        let t = s.drop_last();
        assert(sessions_wf(t)) by {
            assert forall|i: int, j: int|
                0 <= i < t.len() && 0 <= j < t.len() && i != j implies #[trigger] t[i].token
                != #[trigger] t[j].token && t[i].appl@ != t[j].appl@ by {
                assert(t[i] == s[i] && t[j] == s[j]);
            }
        }
        lemma_keep_wf(t, p);
        let f = keep(t, p);
        if p(s.last()) {
            let g = f.push(s.last());
            assert forall|k: int| 0 <= k < g.len() implies exists|j: int|
                0 <= j < s.len() && s[j] == #[trigger] g[k] by {
                if k < f.len() {
                    let j = choose|j: int| 0 <= j < t.len() && t[j] == f[k];
                    assert(s[j] == g[k]);
                } else {
                    assert(s[s.len() - 1] == g[k]);
                }
            }
            assert forall|i: int, j: int|
                0 <= i < g.len() && 0 <= j < g.len() && i != j implies #[trigger] g[i].token
                != #[trigger] g[j].token && g[i].appl@ != g[j].appl@ by {
                if i < f.len() && j < f.len() {
                } else if i < f.len() {
                    let a = choose|a: int| 0 <= a < t.len() && t[a] == f[i];
                    assert(s[a] == g[i] && s[s.len() - 1] == g[j]);
                } else {
                    let a = choose|a: int| 0 <= a < t.len() && t[a] == f[j];
                    assert(s[a] == g[j] && s[s.len() - 1] == g[i]);
                }
            }
            assert forall|k: int| 0 <= k < g.len() implies p(#[trigger] g[k]) by {
                if k < f.len() {
                    assert(g[k] == f[k]);
                }
            }
        } else {
            assert forall|k: int| 0 <= k < f.len() implies exists|j: int|
                0 <= j < s.len() && s[j] == #[trigger] f[k] by {
                let j = choose|j: int| 0 <= j < t.len() && t[j] == f[k];
                assert(s[j] == f[k]);
            }
        }
    }
}

/// Live bind sessions never share a token.
pub proof fn lemma_tokens_unique(s: Seq<BindSession>, now: i64, i: int, j: int)
    requires
        sessions_wf(s),
        0 <= i < live_sessions(s, now).len(),
        0 <= j < live_sessions(s, now).len(),
        i != j,
    ensures
        live_sessions(s, now)[i].token != live_sessions(s, now)[j].token,
{
    lemma_keep_wf(s, is_live(now));
}

/// The live bind sessions.
pub struct BindSessions {
    sessions: Vec<BindSession>,
}

impl View for BindSessions {
    type V = Seq<BindSession>;

    closed spec fn view(&self) -> Seq<BindSession> {
        self.sessions@
    }
}

impl BindSessions {
    /// The table's invariants hold.
    pub open spec fn wf(&self) -> bool {
        sessions_wf(self@)
    }

    /// No sessions.
    pub fn new() -> (r: BindSessions)
        ensures
            r@ == Seq::<BindSession>::empty(),
            r.wf(),
    {
        BindSessions { sessions: Vec::new() }
    }

    /// All sessions.
    pub fn sessions(&self) -> (r: &Vec<BindSession>)
        ensures
            r@ == self@,
    {
        &self.sessions
    }

    /// Keeps the sessions that are live at `now`.
    fn retain_live(&mut self, now: i64)
        requires
            old(self).wf(),
        ensures
            final(self)@ == live_sessions(old(self)@, now),
            final(self).wf(),
    {
        let ghost s = self@;
        let mut next: Vec<BindSession> = Vec::new();
        let n = self.sessions.len();
        for i in 0..n
            invariant
                n == s.len(),
                s == self.sessions@,
                next@ == keep(s.take(i as int), is_live(now)),
        {
            proof {
                lemma_keep_step(s, is_live(now), i as int);
            }
            let x = &self.sessions[i];
            if (now as i128) - (x.create_time as i128) < CACHE_TIMEOUT as i128 {
                next.push(x.clone());
            }
        }
        assert(s.take(n as int) =~= s);
        proof {
            lemma_keep_wf(s, is_live(now));
        }
        self.sessions = next;
    }

    /// Drops the sessions older than the timeout at `now`.
    pub fn clean_overtime_session(&mut self, now: i64)
        requires
            old(self).wf(),
        ensures
            final(self)@ == live_sessions(old(self)@, now),
            final(self).wf(),
    {
        self.retain_live(now)
    }

    /// Drops the session asked for by `appl`, if any.
    fn remove_applicant(&mut self, appl: &str)
        requires
            old(self).wf(),
        ensures
            final(self)@ == keep(old(self)@, not_of(appl@)),
            final(self).wf(),
    {
        let ghost s = self@;
        let mut next: Vec<BindSession> = Vec::new();
        let n = self.sessions.len();
        for i in 0..n
            invariant
                n == s.len(),
                s == self.sessions@,
                next@ == keep(s.take(i as int), not_of(appl@)),
        {
            proof {
                lemma_keep_step(s, not_of(appl@), i as int);
            }
            let x = &self.sessions[i];
            if !str_eq(appl, &x.appl) {
                next.push(x.clone());
            }
        }
        assert(s.take(n as int) =~= s);
        proof {
            lemma_keep_wf(s, not_of(appl@));
        }
        self.sessions = next;
    }

    /// The index of the session with token `v`.
    fn find_token(&self, v: u32) -> (r: Option<usize>)
        ensures
            r is None <==> !has_token(self@, v),
            r matches Some(k) ==> k < self@.len() && self@[k as int].token == v,
    {
        let n = self.sessions.len();
        for i in 0..n
            invariant
                n == self@.len(),
                self@ == self.sessions@,
                forall|k: int| 0 <= k < i ==> #[trigger] self@[k].token != v,
        {
            if self.sessions[i].token == v {
                return Some(i);
            }
        }
        None
    }

    /// The index of the session asked for by `appl`.
    fn find_applicant(&self, appl: &str) -> (r: Option<usize>)
        ensures
            r is None <==> forall|k: int| 0 <= k < self@.len() ==> #[trigger] self@[k].appl@ != appl@,
            r matches Some(k) ==> k < self@.len() && self@[k as int].appl@ == appl@,
    {
        let n = self.sessions.len();
        for i in 0..n
            invariant
                n == self@.len(),
                self@ == self.sessions@,
                forall|k: int| 0 <= k < i ==> #[trigger] self@[k].appl@ != appl@,
        {
            if str_eq(appl, &self.sessions[i].appl) {
                return Some(i);
            }
        }
        None
    }

    /// Opens a session for `applicant_id` under `token` at `now`, replacing
    /// the applicant's earlier one; fails, after dropping expired sessions,
    /// when a live session holds the token.
    pub fn create_session_with(&mut self, applicant_id: &str, token: &Token, now: i64) -> (r:
        Result<String, ()>)
        requires
            old(self).wf(),
        ensures
            final(self).wf(),
            has_token(live_sessions(old(self)@, now), token.spec_val()) ==> r is Err
                && final(self)@ == live_sessions(old(self)@, now),
            !has_token(live_sessions(old(self)@, now), token.spec_val()) ==> {
                &&& r matches Ok(t) && t@ == token_text(token.spec_val())
                &&& final(self)@.drop_last() == keep(
                    live_sessions(old(self)@, now),
                    not_of(applicant_id@),
                )
                &&& final(self)@.len() > 0
                &&& final(self)@.last().token == token.spec_val()
                &&& final(self)@.last().appl@ == applicant_id@
                &&& final(self)@.last().resp is None
                &&& final(self)@.last().create_time == now
            },
    {
        self.retain_live(now);
        self.insert_session(applicant_id, token, now)
    }

    /// Opens a session under `token` in a table already cleaned.
    fn insert_session(&mut self, applicant_id: &str, token: &Token, now: i64) -> (r: Result<
        String,
        (),
    >)
        requires
            old(self).wf(),
        ensures
            final(self).wf(),
            has_token(old(self)@, token.spec_val()) ==> r is Err && final(self)@ == old(self)@,
            !has_token(old(self)@, token.spec_val()) ==> {
                &&& r matches Ok(t) && t@ == token_text(token.spec_val())
                &&& final(self)@.drop_last() == keep(old(self)@, not_of(applicant_id@))
                &&& final(self)@.len() > 0
                &&& final(self)@.last().token == token.spec_val()
                &&& final(self)@.last().appl@ == applicant_id@
                &&& final(self)@.last().resp is None
                &&& final(self)@.last().create_time == now
            },
    {
        if self.find_token(token.val()).is_some() {
            return Err(());
        }
        let ghost s = self@;
        self.remove_applicant(applicant_id);
        proof {
            lemma_keep_wf(s, not_of(applicant_id@));
        }
        let ghost t = self@;
        let session = BindSession {
            token: token.val(),
            appl: String::from_str(applicant_id),
            resp: None,
            create_time: now,
        };
        self.sessions.push(session);
        proof {
            assert(self@.drop_last() =~= t);
            assert forall|i: int, j: int|
                0 <= i < self@.len() && 0 <= j < self@.len() && i != j implies #[trigger] self@[i].token
                != #[trigger] self@[j].token && self@[i].appl@ != self@[j].appl@ by {
                if i < t.len() && j < t.len() {
                    assert(self@[i] == t[i] && self@[j] == t[j]);
                } else if i < t.len() {
                    assert(self@[i] == t[i]);
                    assert(not_of(applicant_id@)(t[i]));
                    let a = choose|a: int| 0 <= a < s.len() && s[a] == t[i];
                } else {
                    assert(self@[j] == t[j]);
                    assert(not_of(applicant_id@)(t[j]));
                    let a = choose|a: int| 0 <= a < s.len() && s[a] == t[j];
                }
            }
        }
        Ok(token.to_string())
    }

    /// Opens a session for `applicant_id` at `now` under a token drawn from
    /// the clock, replacing the applicant's earlier one. A drawn token that
    /// a live session holds is drawn again, a few times; then the smallest
    /// free token is taken. It fails only when every token is held.
    pub fn create_session(&mut self, applicant_id: &str, now: i64) -> (r: Result<String, ()>)
        requires
            old(self).wf(),
        ensures
            final(self).wf(),
            create_ensures(old(self)@, final(self)@, applicant_id@, now, r),
    {
        self.retain_live(now);
        let ghost c = self@;
        let mut tries: u32 = 0;
        while tries < 8
            invariant
                self@ == c,
                sessions_wf(c),
                c == live_sessions(old(self)@, now),
            decreases 8 - tries,
        {
            let token = Token::new();
            let r = self.insert_session(applicant_id, &token, now);
            if r.is_ok() {
                return r;
            }
            tries = tries + 1;
        }
        let mut v: u32 = 0;
        while v < 0x100_0000 && self.find_token(v).is_some()
            invariant
                self@ == c,
                sessions_wf(c),
                c == live_sessions(old(self)@, now),
                v <= 0x100_0000,
                forall|w: u32| w < v ==> has_token(c, w),
            decreases 0x100_0000 - v,
        {
            v = v + 1;
        }
        if v == 0x100_0000 {
            return Err(());
        }
        self.insert_session(applicant_id, &Token::from_value(v), now)
    }

    /// Answers the session with `token` as `resp_user_id`, after dropping
    /// expired sessions. The two users must be known, on different
    /// platforms, and not linked already.
    pub fn update_resp(
        &mut self,
        token: &str,
        resp_user_id: &str,
        users: &BridgeUserManager,
        now: i64,
    ) -> (r: Result<(), BindErr>)
        requires
            old(self).wf(),
        ensures
            final(self).wf(),
            resp_ensures(old(self)@, final(self)@, token@, resp_user_id@, users@, now, r),
    {
        self.retain_live(now);
        let ghost c = self@;
        let tok = match Token::from_str(token) {
            Ok(t) => t,
            Err(_) => {
                return Err(BindErr::InvalidToken);
            },
        };
        let k = match self.find_token(tok.val()) {
            Some(k) => k,
            None => {
                return Err(BindErr::NotFoundToken);
            },
        };
        assert forall|j: int| 0 <= j < c.len() && c[j].token == tok.spec_val() implies j == k by {
        }
        let appl = self.sessions[k].appl.clone();
        if str_eq(resp_user_id, &appl) {
            return Err(BindErr::SelfReference);
        }
        let a = match users.get(appl.as_str()) {
            Some(a) => a,
            None => {
                return Err(BindErr::NotFoundBridgeUser);
            },
        };
        let b = match users.get(resp_user_id) {
            Some(b) => b,
            None => {
                return Err(BindErr::NotFoundBridgeUser);
            },
        };
        if a.platform == b.platform {
            return Err(BindErr::SelfReference);
        }
        if a.ref_id.is_some() && crate::text::opt_eq(&a.ref_id, &b.ref_id) {
            return Err(BindErr::AlreadyMapping);
        }
        let x = &self.sessions[k];
        let y = BindSession {
            token: x.token,
            appl: x.appl.clone(),
            resp: Some(String::from_str(resp_user_id)),
            create_time: x.create_time,
        };
        self.sessions.set(k, y);
        proof {
            assert forall|i: int, j: int|
                0 <= i < self@.len() && 0 <= j < self@.len() && i != j implies #[trigger] self@[i].token
                != #[trigger] self@[j].token && self@[i].appl@ != self@[j].appl@ by {
                assert(c[i].token != c[j].token && c[i].appl@ != c[j].appl@);
            }
        }
        Ok(())
    }

    /// Confirms the session asked for by `applicant_id`, after dropping
    /// expired sessions: both users get the shared reference id (the
    /// applicant's, else the responder's, else a fresh one), in one update
    /// of the identity store, and the session ends.
    pub fn confirm_bind(
        &mut self,
        applicant_id: &str,
        users: &mut BridgeUserManager,
        now: i64,
    ) -> (r: Result<(), BindErr>)
        requires
            old(self).wf(),
            old(users).wf(),
        ensures
            final(self).wf(),
            final(users).wf(),
            r is Err ==> final(users)@ == old(users)@,
            r is Err ==> final(self)@ == live_sessions(old(self)@, now),
            (forall|k: int|
                0 <= k < live_sessions(old(self)@, now).len() ==> #[trigger] live_sessions(
                    old(self)@,
                    now,
                )[k].appl@ != applicant_id@) ==> r == Err::<(), BindErr>(BindErr::NoApply),
            confirm_ensures(old(self)@, final(self)@, old(users)@, final(users)@, applicant_id@, now, r),
    {
        let ghost s0 = self@;
        self.retain_live(now);
        let ghost c = self@;
        let ghost u0 = users@;
        let k = match self.find_applicant(applicant_id) {
            Some(k) => k,
            None => {
                return Err(BindErr::NoApply);
            },
        };
        assert forall|j: int| 0 <= j < c.len() && c[j].appl@ == applicant_id@ implies j == k by {
            if j != k as int {
                assert(c[j].token != c[k as int].token);
            }
        }
        let resp = match &self.sessions[k].resp {
            Some(x) => x.clone(),
            None => {
                return Err(BindErr::NoResponed);
            },
        };
        let a = match users.get(applicant_id) {
            Some(a) => a.clone(),
            None => {
                return Err(BindErr::NotFoundBridgeUser);
            },
        };
        let b = match users.get(resp.as_str()) {
            Some(b) => b.clone(),
            None => {
                return Err(BindErr::NotFoundBridgeUser);
            },
        };
        assert(first_match(u0, by_id(applicant_id@)) == Some(a));
        assert(first_match(u0, by_id(opt_view(c[k as int].resp)->0)) == Some(b));
        let fresh = users.fresh_ref();
        let linked_r = link_users(users, &a, &b, fresh.as_str());
        let ghost rf = Some(shared_ref(a, b, fresh@));
        let ghost (wa, wb) = choose|wa: BridgeUser, wb: BridgeUser|
            relinked(a, wa, rf) && relinked(b, wb, rf) && {
                let applied = apply_updates(u0, seq![wa, wb]);
                &&& linked_r is Ok ==> users@ == applied
                &&& linked_r is Err ==> !crate::user::users_wf(applied)
            };
        let r = match linked_r {
            Ok(()) => {
                self.remove_at(k);
                Ok(())
            },
            Err(()) => Err(BindErr::UpdateBridgeUserFailure),
        };
        assert forall|j: int| 0 <= j < c.len() && #[trigger] c[j].appl@ == applicant_id@ implies {
            let a1 = first_match(u0, by_id(applicant_id@));
            let b1 = first_match(u0, by_id(opt_view(c[j].resp)->0));
            &&& c[j].resp is None ==> r == Err::<(), BindErr>(BindErr::NoResponed)
            &&& (c[j].resp is Some && (a1 is None || b1 is None)) ==> r == Err::<(), BindErr>(
                BindErr::NotFoundBridgeUser,
            )
            &&& (c[j].resp is Some && a1 is Some && b1 is Some) ==> (exists|
                f: Seq<char>,
                ua: BridgeUser,
                ub: BridgeUser,
            |
                #[trigger] confirmed(u0, users@, a1->0, b1->0, f, ua, ub, r) && (r is Ok
                    ==> self@ == c.remove(j)))
        } by {
            assert(j == k);
            assert(confirmed(u0, users@, a, b, fresh@, wa, wb, r));
            assert(first_match(u0, by_id(applicant_id@))->0 == a);
            assert(first_match(u0, by_id(opt_view(c[j].resp)->0))->0 == b);
            assert(r is Ok ==> self@ == c.remove(j));
        }
        assert(confirm_ensures(s0, self@, u0, users@, applicant_id@, now, r));
        r
    }

    /// Drops the session at `k`.
    fn remove_at(&mut self, k: usize)
        requires
            old(self).wf(),
            k < old(self)@.len(),
        ensures
            final(self)@ == old(self)@.remove(k as int),
            final(self).wf(),
    {
        let ghost c = self@;
        self.sessions.remove(k);
        proof {
            assert(self@ =~= c.remove(k as int));
            assert forall|i: int, j: int|
                0 <= i < self@.len() && 0 <= j < self@.len() && i != j implies #[trigger] self@[i].token
                != #[trigger] self@[j].token && self@[i].appl@ != self@[j].appl@ by {
                let ii = if i < k { i } else { i + 1 };
                let jj = if j < k { j } else { j + 1 };
                assert(self@[i] == c[ii] && self@[j] == c[jj]);
                assert(c[ii].token != c[jj].token);
            }
        }
    }
}

/// Gives `a` and `b` their shared reference id in one update of the
/// identity store; fails, changing nothing, when the store refuses it.
fn link_users(users: &mut BridgeUserManager, a: &BridgeUser, b: &BridgeUser, fresh: &str) -> (r:
    Result<(), ()>)
    requires
        old(users).wf(),
        crate::user::has_id(old(users)@, a.id@),
        crate::user::has_id(old(users)@, b.id@),
    ensures
        final(users).wf(),
        r is Err ==> final(users)@ == old(users)@,
        exists|ua: BridgeUser, ub: BridgeUser|
            relinked(*a, ua, Some(shared_ref(*a, *b, fresh@))) && relinked(
                *b,
                ub,
                Some(shared_ref(*a, *b, fresh@)),
            ) && {
                let applied = apply_updates(old(users)@, seq![ua, ub]);
                &&& r is Ok ==> final(users)@ == applied
                &&& r is Err ==> !crate::user::users_wf(applied)
            },
{
    let shared = match &a.ref_id {
        Some(x) => x.clone(),
        None => match &b.ref_id {
            Some(y) => y.clone(),
            None => String::from_str(fresh),
        },
    };
    assert(shared@ == shared_ref(*a, *b, fresh@));
    let mut ua = a.clone();
    let mut ub = b.clone();
    ua.ref_id = Some(shared.clone());
    ub.ref_id = Some(shared);
    let ghost ua_g = ua;
    let ghost ub_g = ub;
    let mut batch: Vec<BridgeUser> = Vec::new();
    batch.push(ua);
    batch.push(ub);
    assert(batch@ =~= seq![ua_g, ub_g]);
    let ghost before = users@;
    assert(relinked(*a, ua_g, Some(shared_ref(*a, *b, fresh@))));
    assert(relinked(*b, ub_g, Some(shared_ref(*a, *b, fresh@))));
    match users.batch_update(batch) {
        Ok(_) => {
            Ok(())
        },
        Err(_) => {
            assert(has_id_of(before, ua_g) && has_id_of(before, ub_g));
            assert(!crate::user::users_wf(apply_updates(before, seq![ua_g, ub_g])));
            Err(())
        },
    }
}

/// What opening a session for `appl` at `now` comes to: on success a new
/// session under a token no live session held, with the applicant's
/// earlier one gone; it fails only when every token is held, and then only
/// the expired sessions are gone.
pub open spec fn create_ensures(
    s0: Seq<BindSession>,
    s1: Seq<BindSession>,
    appl: Seq<char>,
    now: i64,
    r: Result<String, ()>,
) -> bool {
    &&& r is Err ==> s1 == live_sessions(s0, now) && forall|v: u32|
        v < 0x100_0000 ==> #[trigger] has_token(live_sessions(s0, now), v)
    &&& r matches Ok(t) ==> {
        &&& s1.len() > 0
        &&& t@ == token_text(s1.last().token)
        &&& !has_token(live_sessions(s0, now), s1.last().token)
        &&& s1.drop_last() == keep(live_sessions(s0, now), not_of(appl))
        &&& s1.last().appl@ == appl
        &&& s1.last().resp is None
        &&& s1.last().create_time == now
    }
}

/// What answering the session with `token` as `resp` comes to.
pub open spec fn resp_ensures(
    s0: Seq<BindSession>,
    s1: Seq<BindSession>,
    token: Seq<char>,
    resp: Seq<char>,
    us: Seq<BridgeUser>,
    now: i64,
    r: Result<(), BindErr>,
) -> bool {
    let c = live_sessions(s0, now);
    &&& parse_token_chars(trim(token)) is Err ==> r == Err::<(), BindErr>(BindErr::InvalidToken)
        && s1 == c
    &&& (parse_token_chars(trim(token)) matches Ok(v) && !has_token(c, v)) ==> r == Err::<
        (),
        BindErr,
    >(BindErr::NotFoundToken) && s1 == c
    &&& forall|k: int|
        0 <= k < c.len() && parse_token_chars(trim(token)) == Ok::<
            u32,
            crate::token::InvalidFormat,
        >(#[trigger] c[k].token) ==> {
            &&& r == resp_decision(c[k].appl@, resp, us)
            &&& r is Err ==> s1 == c
            &&& r is Ok ==> s1.len() == c.len() && answered(c[k], s1[k], resp) && forall|j: int|
                0 <= j < c.len() && j != k ==> #[trigger] s1[j] == c[j]
        }
}

/// What unlinking `user_id` from its counterpart on `platform` comes to.
pub open spec fn unbind_ensures(
    u0: Seq<BridgeUser>,
    u1: Seq<BridgeUser>,
    user_id: Seq<char>,
    platform: Seq<char>,
    r: Result<(), BindErr>,
) -> bool {
    &&& r is Err ==> u1 == u0
    &&& first_match(u0, by_id(user_id)) is None ==> r == Err::<(), BindErr>(
        BindErr::NotFoundBridgeUser,
    )
    &&& first_match(u0, by_id(user_id)) matches Some(u) ==> {
        &&& ref_of(u) is None ==> r is Ok && u1 == u0
        &&& ref_of(u) is Some && first_match(u0, by_counterpart(ref_of(u)->0, platform)) is None
            ==> r is Ok && u1 == u0
        &&& (ref_of(u) is Some && first_match(u0, by_counterpart(ref_of(u)->0, platform)) is Some)
            ==> {
            let t = first_match(u0, by_counterpart(ref_of(u)->0, platform))->0;
            exists|ut: BridgeUser|
                #[trigger] unlinked(u0, u1, t, ut, r)
        }
    }
}

/// How unlinking `t` ends: `ut` is `t` without its reference id; on success
/// the table is `before` with it replaced, on failure that table would
/// break its invariants.
pub open spec fn unlinked(
    before: Seq<BridgeUser>,
    after: Seq<BridgeUser>,
    t: BridgeUser,
    ut: BridgeUser,
    r: Result<(), BindErr>,
) -> bool {
    let applied = apply_updates(before, seq![ut]);
    &&& relinked(t, ut, None)
    &&& r is Ok ==> after == applied
    &&& r is Err ==> r == Err::<(), BindErr>(BindErr::UpdateBridgeUserFailure)
        && !crate::user::users_wf(applied)
}

/// What confirming the session of `applicant` comes to, for the session
/// tables and user tables before and after.
pub open spec fn confirm_ensures(
    s0: Seq<BindSession>,
    s1: Seq<BindSession>,
    u0: Seq<BridgeUser>,
    u1: Seq<BridgeUser>,
    applicant: Seq<char>,
    now: i64,
    r: Result<(), BindErr>,
) -> bool {
    let c = live_sessions(s0, now);
    forall|k: int|
        0 <= k < c.len() && #[trigger] c[k].appl@ == applicant ==> {
            let a = first_match(u0, by_id(applicant));
            let b = first_match(u0, by_id(opt_view(c[k].resp)->0));
            &&& c[k].resp is None ==> r == Err::<(), BindErr>(BindErr::NoResponed)
            &&& (c[k].resp is Some && (a is None || b is None)) ==> r == Err::<(), BindErr>(
                BindErr::NotFoundBridgeUser,
            )
            &&& (c[k].resp is Some && a is Some && b is Some) ==> (exists|
                f: Seq<char>,
                ua: BridgeUser,
                ub: BridgeUser,
            |
                #[trigger] confirmed(u0, u1, a->0, b->0, f, ua, ub, r) && (r is Ok ==> s1
                    == c.remove(k)))
        }
}

/// How confirming a link between `a` and `b` ends: `ua` and `ub` are the
/// two with their shared reference id (`fresh`, held by no user, when
/// neither had one); on success the table is `before` with both replaced,
/// on failure that table would break its invariants.
pub open spec fn confirmed(
    before: Seq<BridgeUser>,
    after: Seq<BridgeUser>,
    a: BridgeUser,
    b: BridgeUser,
    fresh: Seq<char>,
    ua: BridgeUser,
    ub: BridgeUser,
    r: Result<(), BindErr>,
) -> bool {
    let applied = apply_updates(before, seq![ua, ub]);
    &&& crate::user::ref_free(before, fresh)
    &&& relinked(a, ua, Some(shared_ref(a, b, fresh)))
    &&& relinked(b, ub, Some(shared_ref(a, b, fresh)))
    &&& r is Ok ==> after == applied
    &&& r is Err ==> r == Err::<(), BindErr>(BindErr::UpdateBridgeUserFailure)
        && !crate::user::users_wf(applied)
}

/// `s` holds a user with `u`'s id.
spec fn has_id_of(s: Seq<BridgeUser>, u: BridgeUser) -> bool {
    crate::user::has_id(s, u.id@)
}

/// Breaks the link between `user_id` and its counterpart on `platform`: the
/// counterpart loses its reference id; the caller keeps its own. Nothing
/// happens when the caller is unlinked or has no counterpart there.
pub fn unbind(user_id: &str, platform: &str, users: &mut BridgeUserManager) -> (r: Result<
    (),
    BindErr,
>)
    requires
        old(users).wf(),
    ensures
        final(users).wf(),
        unbind_ensures(old(users)@, final(users)@, user_id@, platform@, r),
{
    let u = match users.get(user_id) {
        Some(u) => u,
        None => {
            return Err(BindErr::NotFoundBridgeUser);
        },
    };
    let ref_id = match &u.ref_id {
        Some(x) => x.clone(),
        None => {
            return Ok(());
        },
    };
    let mut t = match users.findByRefAndPlatform(ref_id.as_str(), platform) {
        Some(t) => t.clone(),
        None => {
            return Ok(());
        },
    };
    let ghost t0 = t;
    t.ref_id = None;
    let ghost tg = t;
    let mut batch: Vec<BridgeUser> = Vec::new();
    batch.push(t);
    assert(batch@ =~= seq![tg]);
    let ghost before = users@;
    match users.batch_update(batch) {
        Ok(_) => {
            assert(unlinked(before, users@, t0, tg, Ok(())));
            Ok(())
        },
        Err(_) => {
            assert(has_id_of(old(users)@, tg));
            assert(unlinked(before, users@, t0, tg, Err(BindErr::UpdateBridgeUserFailure)));
            Err(BindErr::UpdateBridgeUserFailure)
        },
    }
}

} // verus!
