//! The identity store: one bridge user per platform account, grouped across
//! platforms by a shared reference id.

use vstd::prelude::*;
use crate::text::{clone_opt, opt_eq, opt_view, str_eq};

verus! {

/// An account on one platform, as the bridge knows it.
#[derive(Debug, PartialEq, Eq)]
pub struct BridgeUser {
    /// The bridge's own id of the user.
    pub id: String,
    /// The platform code (`DC`, `QQ`, `TG`, `CMD`).
    pub platform: String,
    /// The user's id on that platform.
    pub origin_id: String,
    /// A human label.
    pub display_text: String,
    /// The id shared with the user's accounts on other platforms.
    pub ref_id: Option<String>,
}

impl Clone for BridgeUser {
    fn clone(&self) -> (r: Self)
        ensures
            r == *self,
    {
        BridgeUser {
            id: self.id.clone(),
            platform: self.platform.clone(),
            origin_id: self.origin_id.clone(),
            display_text: self.display_text.clone(),
            ref_id: clone_opt(&self.ref_id),
        }
    }
}

/// The account `u` is linked to on `platform`, if any.
pub open spec fn linked_on(us: Seq<BridgeUser>, u: BridgeUser, platform: Seq<char>) -> Option<
    BridgeUser,
> {
    match ref_of(u) {
        Some(r) => first_match(us, by_counterpart(r, platform)),
        None => None,
    }
}

impl BridgeUser {
    /// The user's label: `[platform] display text`.
    pub fn to_string(&self) -> (r: String)
        ensures
            r@ == seq!['['] + self.platform@ + seq![']', ' '] + self.display_text@,
    {
        let mut r = String::new();
        crate::text::push_char(&mut r, '[');
        r.append(self.platform.as_str());
        crate::text::push_char(&mut r, ']');
        crate::text::push_char(&mut r, ' ');
        r.append(self.display_text.as_str());
        r
    }

    /// The account this user is linked to on `platform`, if any.
    pub fn find_by_platform<'a>(&self, users: &'a BridgeUserManager, platform: &str) -> (r: Option<
        &'a BridgeUser,
    >)
        ensures
            r matches Some(u) ==> linked_on(users@, *self, platform@) == Some(*u),
            r is None ==> linked_on(users@, *self, platform@) is None,
    {
        match &self.ref_id {
            Some(ref_id) => users.findByRefAndPlatform(ref_id.as_str(), platform),
            None => None,
        }
    }
}

/// What a platform adapter knows of a user it has not seen before.
pub struct BridgeUserSaveForm {
    pub origin_id: String,
    pub platform: String,
    pub display_text: String,
}

/// The view of a user's reference id.
pub open spec fn ref_of(u: BridgeUser) -> Option<Seq<char>> {
    opt_view(u.ref_id)
}

/// `u` is the account `origin` on `platform`.
pub open spec fn is_account(u: BridgeUser, origin: Seq<char>, platform: Seq<char>) -> bool {
    u.origin_id@ == origin && u.platform@ == platform
}

/// `u` is linked under `ref_id` and lives on `platform`.
pub open spec fn is_counterpart(u: BridgeUser, ref_id: Seq<char>, platform: Seq<char>) -> bool {
    ref_of(u) == Some(ref_id) && u.platform@ == platform
}

/// Two users are linked: they share a reference id.
pub open spec fn linked(u: BridgeUser, v: BridgeUser) -> bool {
    ref_of(u) is Some && ref_of(u) == ref_of(v)
}

/// Users `a` and `b` of the table may stand side by side: different ids,
/// different accounts, and different platforms when linked.
pub open spec fn pair_ok(s: Seq<BridgeUser>, a: int, b: int) -> bool {
    &&& s[a].id@ != s[b].id@
    &&& !is_account(s[a], s[b].origin_id@, s[b].platform@)
    &&& linked(s[a], s[b]) ==> s[a].platform@ != s[b].platform@
}

/// The table's invariants: ids are unique, each platform account appears
/// once, and linked users live on different platforms.
pub open spec fn users_wf(s: Seq<BridgeUser>) -> bool {
    forall|i: int, j: int|
        0 <= i < s.len() && 0 <= j < s.len() && i != j ==> #[trigger] pair_ok(s, i, j)
}

/// Whether `s` holds a user with id `id`.
pub open spec fn has_id(s: Seq<BridgeUser>, id: Seq<char>) -> bool {
    exists|k: int| 0 <= k < s.len() && #[trigger] s[k].id@ == id
}

/// Whether `s` holds the account `origin` on `platform`.
pub open spec fn has_account(s: Seq<BridgeUser>, origin: Seq<char>, platform: Seq<char>) -> bool {
    exists|k: int| 0 <= k < s.len() && is_account(#[trigger] s[k], origin, platform)
}

/// Users whose id is `id`.
pub open spec fn by_id(id: Seq<char>) -> spec_fn(BridgeUser) -> bool {
    |u: BridgeUser| u.id@ == id
}

/// Users who are the account `origin` on `platform`.
pub open spec fn by_account(origin: Seq<char>, platform: Seq<char>) -> spec_fn(BridgeUser) -> bool {
    |u: BridgeUser| is_account(u, origin, platform)
}

/// Users linked under `ref_id` on `platform`.
pub open spec fn by_counterpart(ref_id: Seq<char>, platform: Seq<char>) -> spec_fn(
    BridgeUser,
) -> bool {
    |u: BridgeUser| is_counterpart(u, ref_id, platform)
}

/// The first user of `s` that `p` accepts.
pub open spec fn first_match(s: Seq<BridgeUser>, p: spec_fn(BridgeUser) -> bool) -> Option<
    BridgeUser,
>
    decreases s.len(),
{
    if s.len() == 0 {
        None
    } else if p(s[0]) {
        Some(s[0])
    } else {
        first_match(s.drop_first(), p)
    }
}

/// A scan that passes over `i` users that `p` refuses finds the first match
/// at `i`, or none when it reaches the end.
pub proof fn lemma_first_match(s: Seq<BridgeUser>, p: spec_fn(BridgeUser) -> bool, i: int)
    requires
        0 <= i <= s.len(),
        forall|k: int| 0 <= k < i ==> !p(#[trigger] s[k]),
    ensures
        i < s.len() && p(s[i]) ==> first_match(s, p) == Some(s[i]),
        i == s.len() ==> first_match(s, p) is None,
    decreases i,
{
    if i > 0 {
        assert(!p(s[0]));
        let t = s.drop_first();
        assert forall|k: int| 0 <= k < i - 1 implies !p(#[trigger] t[k]) by {
            assert(t[k] == s[k + 1]);
        }
        lemma_first_match(t, p, i - 1);
        if i < s.len() {
            assert(t[i - 1] == s[i]);
        }
    }
}

/// The record `x` after the updates `us`: the last update with its id wins.
pub open spec fn updated_user(x: BridgeUser, us: Seq<BridgeUser>) -> BridgeUser
    decreases us.len(),
{
    if us.len() == 0 {
        x
    } else if us.last().id@ == x.id@ {
        us.last()
    } else {
        updated_user(x, us.drop_last())
    }
}

/// The table `s` after the updates `us`.
pub open spec fn apply_updates(s: Seq<BridgeUser>, us: Seq<BridgeUser>) -> Seq<BridgeUser> {
    Seq::new(s.len(), |i: int| updated_user(s[i], us))
}

/// No user holds `f` as reference id.
pub open spec fn ref_free(s: Seq<BridgeUser>, f: Seq<char>) -> bool {
    forall|k: int| 0 <= k < s.len() ==> #[trigger] ref_of(s[k]) != Some(f)
}

/// What `likeAndSave` leaves behind: the existing record is returned
/// unchanged, or a new unlinked record with the given fields and a fresh id
/// is appended.
pub open spec fn find_or_create_ensures(
    old: Seq<BridgeUser>,
    origin: Seq<char>,
    platform: Seq<char>,
    display: Seq<char>,
    new: Seq<BridgeUser>,
    r: Result<BridgeUser, String>,
) -> bool {
    if has_account(old, origin, platform) {
        new == old && exists|k: int|
            0 <= k < old.len() && is_account(#[trigger] old[k], origin, platform) && r == Ok::<
                BridgeUser,
                String,
            >(old[k])
    } else {
        match r {
            Ok(u) => {
                &&& new == old.push(u)
                &&& is_account(u, origin, platform)
                &&& u.display_text@ == display
                &&& u.ref_id is None
                &&& !has_id(old, u.id@)
            },
            Err(_) => false,
        }
    }
}

/// A fresh, random bridge id. Relies on `uuid::Uuid::new_v4` and the
/// hyphenated text form of a UUID, which is 36 characters long.
#[verifier::external_body]
pub(crate) fn new_uuid() -> (r: String)
    ensures
        r@.len() == 36,
{
    uuid::Uuid::new_v4().to_string()
}

/// Whether the table satisfies its invariants.
pub fn check_users(v: &Vec<BridgeUser>) -> (r: bool)
    ensures
        r == users_wf(v@),
{
    let n = v.len();
    for i in 0..n
        invariant
            n == v@.len(),
            forall|a: int, b: int|
                0 <= a < i && 0 <= b < n && a != b ==> #[trigger] pair_ok(v@, a, b),
    {
        for j in 0..n
            invariant
                n == v@.len(),
                0 <= i < n,
                forall|a: int, b: int|
                    0 <= a < i && 0 <= b < n && a != b ==> #[trigger] pair_ok(v@, a, b),
                forall|b: int| 0 <= b < j && b != i ==> #[trigger] pair_ok(v@, i as int, b),
        {
            if i != j {
                let x = &v[i];
                let y = &v[j];
                if x.id == y.id {
                    assert(!pair_ok(v@, i as int, j as int));
                    return false;
                }
                if x.origin_id == y.origin_id && x.platform == y.platform {
                    assert(!pair_ok(v@, i as int, j as int));
                    return false;
                }
                if x.ref_id.is_some() && opt_eq(&x.ref_id, &y.ref_id) && x.platform == y.platform {
                    assert(!pair_ok(v@, i as int, j as int));
                    return false;
                }
                assert(pair_ok(v@, i as int, j as int));
            }
        }
    }
    true
}

/// An update keeps the record's id.
pub proof fn lemma_updated_keeps_id(x: BridgeUser, us: Seq<BridgeUser>)
    ensures
        updated_user(x, us).id@ == x.id@,
    decreases us.len(),
{
    if us.len() > 0 && us.last().id@ != x.id@ {
        lemma_updated_keeps_id(x, us.drop_last());
    }
}

/// The bridge users, held in memory; persisting them is the caller's part.
pub struct BridgeUserManager {
    bridge_users: Vec<BridgeUser>,
}

impl View for BridgeUserManager {
    type V = Seq<BridgeUser>;

    closed spec fn view(&self) -> Seq<BridgeUser> {
        self.bridge_users@
    }
}

impl BridgeUserManager {
    /// The table's invariants hold.
    pub open spec fn wf(&self) -> bool {
        users_wf(self@)
    }

    /// An empty table.
    pub fn new() -> (r: BridgeUserManager)
        ensures
            r@ == Seq::<BridgeUser>::empty(),
            r.wf(),
    {
        BridgeUserManager { bridge_users: Vec::new() }
    }

    /// A table holding `users`, if they satisfy the invariants.
    pub fn load(users: Vec<BridgeUser>) -> (r: Option<BridgeUserManager>)
        ensures
            r is Some <==> users_wf(users@),
            r matches Some(m) ==> m@ == users@ && m.wf(),
    {
        if check_users(&users) {
            Some(BridgeUserManager { bridge_users: users })
        } else {
            None
        }
    }

    /// All users, for persisting them.
    pub fn users(&self) -> (r: &Vec<BridgeUser>)
        ensures
            r@ == self@,
    {
        &self.bridge_users
    }

    /// The user with id `id`.
    pub fn get(&self, id: &str) -> (r: Option<&BridgeUser>)
        ensures
            r is None <==> !has_id(self@, id@),
            r matches Some(u) ==> u.id@ == id@ && exists|k: int|
                0 <= k < self@.len() && self@[k] == *u,
            r matches Some(u) ==> first_match(self@, by_id(id@)) == Some(*u),
            r is None ==> first_match(self@, by_id(id@)) is None,
    {
        let n = self.bridge_users.len();
        for i in 0..n
            invariant
                n == self@.len(),
                self@ == self.bridge_users@,
                forall|k: int| 0 <= k < i ==> #[trigger] self@[k].id@ != id@,
        {
            if str_eq(id, &self.bridge_users[i].id) {
                proof {
                    lemma_first_match(self@, by_id(id@), i as int);
                }
                return Some(&self.bridge_users[i]);
            }
        }
        proof {
            lemma_first_match(self@, by_id(id@), n as int);
        }
        None
    }

    /// The user for account `origin_id` on `platform`.
    pub fn like(&self, origin_id: &str, platform: &str) -> (r: Option<&BridgeUser>)
        ensures
            r is None <==> !has_account(self@, origin_id@, platform@),
            r matches Some(u) ==> is_account(*u, origin_id@, platform@) && exists|k: int|
                0 <= k < self@.len() && self@[k] == *u,
            r matches Some(u) ==> first_match(self@, by_account(origin_id@, platform@)) == Some(
                *u,
            ),
            r is None ==> first_match(self@, by_account(origin_id@, platform@)) is None,
    {
        let n = self.bridge_users.len();
        for i in 0..n
            invariant
                n == self@.len(),
                self@ == self.bridge_users@,
                forall|k: int| 0 <= k < i ==> !is_account(#[trigger] self@[k], origin_id@, platform@),
        {
            let u = &self.bridge_users[i];
            if str_eq(origin_id, &u.origin_id) && str_eq(platform, &u.platform) {
                proof {
                    lemma_first_match(self@, by_account(origin_id@, platform@), i as int);
                }
                return Some(u);
            }
        }
        proof {
            lemma_first_match(self@, by_account(origin_id@, platform@), n as int);
        }
        None
    }

    /// The user linked under `ref_id` that lives on `platform`.
    #[allow(non_snake_case)]
    pub fn findByRefAndPlatform(&self, ref_id: &str, platform: &str) -> (r: Option<&BridgeUser>)
        ensures
            r is None <==> forall|k: int|
                0 <= k < self@.len() ==> !is_counterpart(#[trigger] self@[k], ref_id@, platform@),
            r matches Some(u) ==> is_counterpart(*u, ref_id@, platform@) && exists|k: int|
                0 <= k < self@.len() && self@[k] == *u,
            r matches Some(u) ==> first_match(self@, by_counterpart(ref_id@, platform@)) == Some(
                *u,
            ),
            r is None ==> first_match(self@, by_counterpart(ref_id@, platform@)) is None,
    {
        let n = self.bridge_users.len();
        for i in 0..n
            invariant
                n == self@.len(),
                self@ == self.bridge_users@,
                forall|k: int|
                    0 <= k < i ==> !is_counterpart(#[trigger] self@[k], ref_id@, platform@),
        {
            let u = &self.bridge_users[i];
            match &u.ref_id {
                Some(x) => {
                    if str_eq(ref_id, x) && str_eq(platform, &u.platform) {
                        proof {
                            lemma_first_match(self@, by_counterpart(ref_id@, platform@), i as int);
                        }
                        return Some(u);
                    }
                },
                None => {},
            }
        }
        proof {
            lemma_first_match(self@, by_counterpart(ref_id@, platform@), n as int);
        }
        None
    }

    /// Adds the account described by `form` under the bridge id `id`; fails
    /// when the account is known already or the id is taken.
    pub fn save_with_id(&mut self, form: BridgeUserSaveForm, id: String) -> (r: Result<
        BridgeUser,
        String,
    >)
        requires
            old(self).wf(),
        ensures
            final(self).wf(),
            r is Ok <==> !has_account(old(self)@, form.origin_id@, form.platform@) && !has_id(
                old(self)@,
                id@,
            ),
            r matches Ok(u) ==> {
                &&& final(self)@ == old(self)@.push(u)
                &&& u.id == id
                &&& u.origin_id == form.origin_id
                &&& u.platform == form.platform
                &&& u.display_text == form.display_text
                &&& u.ref_id is None
            },
            r is Err ==> final(self)@ == old(self)@,
    {
        if self.like(form.origin_id.as_str(), form.platform.as_str()).is_some() {
            return Err(String::from_str("the account is known already"));
        }
        if self.get(id.as_str()).is_some() {
            return Err(String::from_str("the id is taken"));
        }
        let user = BridgeUser {
            id,
            platform: form.platform,
            origin_id: form.origin_id,
            display_text: form.display_text,
            ref_id: None,
        };
        let r = user.clone();
        let ghost s = self@;
        self.bridge_users.push(user);
        assert(self@ == s.push(r));
        assert(users_wf(self@)) by {
            assert forall|i: int, j: int|
                0 <= i < self@.len() && 0 <= j < self@.len() && i != j implies #[trigger] pair_ok(
                self@,
                i,
                j,
            ) by {
                if i == s.len() as int {
                    assert(s[j] == self@[j]);
                    assert(!is_account(s[j], r.origin_id@, r.platform@));
                    assert(s[j].id@ != r.id@);
                } else if j == s.len() as int {
                    assert(s[i] == self@[i]);
                    assert(!is_account(s[i], r.origin_id@, r.platform@));
                    assert(s[i].id@ != r.id@);
                } else {
                    assert(s[i] == self@[i] && s[j] == self@[j]);
                    assert(pair_ok(s, i, j));
                }
            }
        }
        Ok(r)
    }

    /// A bridge id no user has: a random one, lengthened past every id in
    /// the table when it is taken.
    pub fn fresh_id(&self) -> (r: String)
        ensures
            !has_id(self@, r@),
    {
        let id = new_uuid();
        if self.get(id.as_str()).is_none() {
            return id;
        }
        let mut max: usize = 0;
        let n = self.bridge_users.len();
        for i in 0..n
            invariant
                n == self@.len(),
                self@ == self.bridge_users@,
                forall|k: int| 0 <= k < i ==> #[trigger] self@[k].id@.len() <= max,
        {
            let l = self.bridge_users[i].id.as_str().unicode_len();
            if l > max {
                max = l;
            }
        }
        let r = crate::text::pad_past(id, max);
        assert forall|k: int| 0 <= k < self@.len() implies #[trigger] self@[k].id@ != r@ by {
            assert(self@[k].id@.len() <= max);
        }
        r
    }

    /// A reference id no user holds: a random one, lengthened past every
    /// reference id in the table when it is held.
    pub fn fresh_ref(&self) -> (r: String)
        ensures
            ref_free(self@, r@),
    {
        let id = new_uuid();
        let mut max: usize = 0;
        let n = self.bridge_users.len();
        for i in 0..n
            invariant
                n == self@.len(),
                self@ == self.bridge_users@,
                forall|k: int| 0 <= k < i ==> #[trigger] ref_of(self@[k]) is Some ==> ref_of(self@[k])->0.len() <= max,
        {
            match &self.bridge_users[i].ref_id {
                Some(x) => {
                    let l = x.as_str().unicode_len();
                    if l > max {
                        max = l;
                    }
                },
                None => {},
            }
        }
        let r = crate::text::pad_past(id, max);
        assert forall|k: int| 0 <= k < self@.len() implies #[trigger] ref_of(self@[k]) != Some(r@) by {
            if ref_of(self@[k]) is Some {
                assert(ref_of(self@[k])->0.len() <= max);
            }
        }
        r
    }

    /// Adds the account described by `form` under a fresh id; fails exactly
    /// when the account is known already.
    pub fn save(&mut self, form: BridgeUserSaveForm) -> (r: Result<BridgeUser, String>)
        requires
            old(self).wf(),
        ensures
            final(self).wf(),
            r is Err <==> has_account(old(self)@, form.origin_id@, form.platform@),
            r matches Ok(u) ==> {
                &&& final(self)@ == old(self)@.push(u)
                &&& !has_id(old(self)@, u.id@)
                &&& u.origin_id == form.origin_id
                &&& u.platform == form.platform
                &&& u.display_text == form.display_text
                &&& u.ref_id is None
            },
            r is Err ==> final(self)@ == old(self)@,
    {
        let id = self.fresh_id();
        self.save_with_id(form, id)
    }

    /// The user for the account in `form`, created when it is new. An
    /// existing record is returned as it is: its display text is not
    /// refreshed.
    #[allow(non_snake_case)]
    pub fn likeAndSave(&mut self, form: BridgeUserSaveForm) -> (r: Result<BridgeUser, String>)
        requires
            old(self).wf(),
        ensures
            final(self).wf(),
            find_or_create_ensures(
                old(self)@,
                form.origin_id@,
                form.platform@,
                form.display_text@,
                final(self)@,
                r,
            ),
    {
        match self.like(form.origin_id.as_str(), form.platform.as_str()) {
            Some(u) => Ok(u.clone()),
            None => self.save(form),
        }
    }

    /// Replaces each listed record by the one with its id, all or nothing;
    /// fails when an id is unknown or the result would break the invariants.
    pub fn batch_update(&mut self, users: Vec<BridgeUser>) -> (r: Result<usize, String>)
        requires
            old(self).wf(),
        ensures
            final(self).wf(),
            r is Ok <==> (forall|j: int|
                0 <= j < users@.len() ==> has_id(old(self)@, #[trigger] users@[j].id@))
                && users_wf(apply_updates(old(self)@, users@)),
            r matches Ok(n) ==> n == users@.len() && final(self)@ == apply_updates(
                old(self)@,
                users@,
            ),
            r is Err ==> final(self)@ == old(self)@,
    {
        let ghost s = self@;
        let mut next: Vec<BridgeUser> = Vec::new();
        let n = self.bridge_users.len();
        for i in 0..n
            invariant
                n == s.len(),
                s == self.bridge_users@,
                next@ == s.take(i as int),
        {
            next.push(self.bridge_users[i].clone());
            assert(next@ =~= s.take(i + 1));
        }
        assert(next@ =~= apply_updates(s, users@.take(0)));
        let m = users.len();
        for k in 0..m
            invariant
                m == users@.len(),
                n == s.len(),
                users_wf(s),
                s == self.bridge_users@,
                next@ == apply_updates(s, users@.take(k as int)),
                forall|j: int| 0 <= j < k ==> has_id(s, #[trigger] users@[j].id@),
        {
            let u = &users[k];
            proof {
                assert forall|t: int| 0 <= t < n implies #[trigger] next@[t].id@ == s[t].id@ by {
                    lemma_updated_keeps_id(s[t], users@.take(k as int));
                }
            }
            let mut found = false;
            let mut idx: usize = 0;
            for i in 0..n
                invariant
                    n == s.len(),
                    next@.len() == n,
                    forall|t: int| 0 <= t < n ==> #[trigger] next@[t].id@ == s[t].id@,
                    !found ==> forall|t: int| 0 <= t < i ==> #[trigger] s[t].id@ != u.id@,
                    found ==> idx < n && s[idx as int].id@ == u.id@,
            {
                if !found && next[i].id == u.id {
                    found = true;
                    idx = i;
                }
            }
            if !found {
                assert(!has_id(s, users@[k as int].id@));
                return Err(String::from_str("unknown user id"));
            }
            let ghost before = next@;
            next.set(idx, u.clone());
            proof {
                let us = users@.take(k + 1);
                assert(us.drop_last() =~= users@.take(k as int));
                assert(us.last() == users@[k as int]);
                assert forall|t: int| 0 <= t < n implies #[trigger] next@[t] == updated_user(
                    s[t],
                    us,
                ) by {
                    if t != idx as int {
                        assert(pair_ok(s, t, idx as int));
                    }
                }
                assert(next@ =~= apply_updates(s, us));
            }
        }
        assert(users@.take(m as int) =~= users@);
        if !check_users(&next) {
            return Err(String::from_str("the update breaks the table's invariants"));
        }
        self.bridge_users = next;
        Ok(m)
    }
}

/// Linked users find each other: in a well-formed table, the only user on
/// `v`'s platform that is linked under `u`'s reference id is `v`, and the
/// other way round.
pub proof fn lemma_linked_users_find_each_other(s: Seq<BridgeUser>, i: int, j: int)
    requires
        users_wf(s),
        0 <= i < s.len(),
        0 <= j < s.len(),
        linked(s[i], s[j]),
    ensures
        is_counterpart(s[j], ref_of(s[i])->0, s[j].platform@),
        forall|k: int|
            0 <= k < s.len() && is_counterpart(#[trigger] s[k], ref_of(s[i])->0, s[j].platform@)
                ==> k == j,
        is_counterpart(s[i], ref_of(s[j])->0, s[i].platform@),
        forall|k: int|
            0 <= k < s.len() && is_counterpart(#[trigger] s[k], ref_of(s[j])->0, s[i].platform@)
                ==> k == i,
{
    assert forall|k: int|
        0 <= k < s.len() && is_counterpart(#[trigger] s[k], ref_of(s[i])->0, s[j].platform@)
            implies k == j by {
        if k != j {
            assert(linked(s[k], s[j]));
            assert(pair_ok(s, k, j));
        }
    }
    assert forall|k: int|
        0 <= k < s.len() && is_counterpart(#[trigger] s[k], ref_of(s[j])->0, s[i].platform@)
            implies k == i by {
        if k != i {
            assert(linked(s[k], s[i]));
            assert(pair_ok(s, k, i));
        }
    }
}

/// Asking twice for the same account gives the same record, with the
/// display text of the first request.
pub proof fn lemma_find_or_create_stable(
    s0: Seq<BridgeUser>,
    origin: Seq<char>,
    platform: Seq<char>,
    d1: Seq<char>,
    d2: Seq<char>,
    s1: Seq<BridgeUser>,
    r1: Result<BridgeUser, String>,
    s2: Seq<BridgeUser>,
    r2: Result<BridgeUser, String>,
)
    requires
        users_wf(s0),
        users_wf(s1),
        !has_account(s0, origin, platform),
        find_or_create_ensures(s0, origin, platform, d1, s1, r1),
        find_or_create_ensures(s1, origin, platform, d2, s2, r2),
        r1 is Ok,
    ensures
        r2 == r1,
        r1->Ok_0.display_text@ == d1,
        s2 == s1,
{
    let u = r1->Ok_0;
    assert(s1[s0.len() as int] == u);
    assert(has_account(s1, origin, platform));
    let k = choose|k: int|
        0 <= k < s1.len() && is_account(#[trigger] s1[k], origin, platform) && r2 == Ok::<
            BridgeUser,
            String,
        >(s1[k]);
    if k != s0.len() as int {
        assert(s0[k] == s1[k]);
    }
}

impl BridgeUserSaveForm {
    /// A Discord account: its display text is `name#discriminator`.
    pub fn discord(id: u64, name: &str, discriminator: u16) -> (r: BridgeUserSaveForm)
        ensures
            r.origin_id@ == crate::decimal::dec(id as nat),
            r.platform@ == "DC"@,
            r.display_text@ == name@ + seq!['#'] + crate::decimal::dec(discriminator as nat),
    {
        let mut origin = String::new();
        crate::decimal::push_dec(&mut origin, id);
        let mut display = String::from_str(name);
        crate::text::push_char(&mut display, '#');
        crate::decimal::push_dec(&mut display, discriminator as u64);
        BridgeUserSaveForm { origin_id: origin, platform: String::from_str("DC"), display_text: display }
    }

    /// A QQ account: its display text is `name(id)`.
    pub fn qq(id: u64, name: &str) -> (r: BridgeUserSaveForm)
        ensures
            r.origin_id@ == crate::decimal::dec(id as nat),
            r.platform@ == "QQ"@,
            r.display_text@ == name@ + seq!['('] + crate::decimal::dec(id as nat) + seq![')'],
    {
        let mut origin = String::new();
        crate::decimal::push_dec(&mut origin, id);
        let mut display = String::from_str(name);
        crate::text::push_char(&mut display, '(');
        display.append(origin.as_str());
        crate::text::push_char(&mut display, ')');
        BridgeUserSaveForm { origin_id: origin, platform: String::from_str("QQ"), display_text: display }
    }

    /// A Telegram account: its display text is `name(id)`.
    pub fn telegram(id: i64, name: &str) -> (r: BridgeUserSaveForm)
        ensures
            r.origin_id@ == crate::decimal::dec_signed(id as int),
            r.platform@ == "TG"@,
            r.display_text@ == name@ + seq!['('] + crate::decimal::dec_signed(id as int) + seq![')'],
    {
        let mut origin = String::new();
        crate::decimal::push_dec_signed(&mut origin, id);
        let mut display = String::from_str(name);
        crate::text::push_char(&mut display, '(');
        display.append(origin.as_str());
        crate::text::push_char(&mut display, ')');
        BridgeUserSaveForm { origin_id: origin, platform: String::from_str("TG"), display_text: display }
    }
}

/// A reference id on record.
pub struct BridgeUserRefPO {
    pub id: String,
}

/// The recorded reference ids (an older table, kept for its file).
pub struct BridgeUserRefManager {
    pub bridge_user_refs: Vec<BridgeUserRefPO>,
}

impl BridgeUserRefManager {
    /// The table holding `refs`.
    pub fn new(refs: Vec<BridgeUserRefPO>) -> (r: BridgeUserRefManager)
        ensures
            r.bridge_user_refs@ == refs@,
    {
        BridgeUserRefManager { bridge_user_refs: refs }
    }

    /// Records a fresh reference id and returns it.
    pub fn save(&mut self) -> (r: String)
        ensures
            final(self).bridge_user_refs@.len() == old(self).bridge_user_refs@.len() + 1,
            final(self).bridge_user_refs@.drop_last() == old(self).bridge_user_refs@,
            final(self).bridge_user_refs@.last().id@ == r@,
            r@.len() == 36,
    {
        let id = new_uuid();
        let r = id.clone();
        let ghost before = self.bridge_user_refs@;
        self.bridge_user_refs.push(BridgeUserRefPO { id });
        assert(self.bridge_user_refs@.drop_last() =~= before);
        r
    }
}

/// The address of a QQ account's avatar.
pub fn qq_avatar_url(id: u64) -> (r: String)
    ensures
        r@ == "https://q1.qlogo.cn/g?b=qq&nk="@ + crate::decimal::dec(id as nat) + "&s=100"@,
{
    let mut r = String::from_str("https://q1.qlogo.cn/g?b=qq&nk=");
    crate::decimal::push_dec(&mut r, id);
    r.append("&s=100");
    r
}

} // verus!
