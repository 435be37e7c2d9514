//! The pairwise binding map: pairs of accounts on two platforms, each
//! account written as (platform bit, unique id, display id). Reading and
//! writing the map's file is the caller's part.

use vstd::prelude::*;
use crate::platform::{platform_of_bit, BridgeClientPlatform};

verus! {

/// A chat user as the binding map sees it.
pub struct User {
    pub name: String,
    pub avatar_url: Option<String>,
    pub unique_id: u64,
    pub display_id: u64,
    pub platform_id: u64,
    pub platform: BridgeClientPlatform,
}

/// One account of a pair.
#[derive(Debug, PartialEq, Eq, Clone, Copy, Structural)]
pub struct BindKey {
    /// The platform's bit value.
    pub platform: u64,
    pub unique_id: u64,
    pub display_id: u64,
}

/// Whether the pair `e` joins the platforms of the bit set `pp`.
pub open spec fn joins(e: (BindKey, BindKey), pp: u64) -> bool {
    (e.0.platform | e.1.platform) == pp
}

/// The other side of the pair `e`, when one side is the account (`uid`,
/// `did`) on platform bit `up`, by unique or display id.
pub open spec fn other_side(e: (BindKey, BindKey), up: u64, uid: u64, did: u64) -> Option<BindKey> {
    if e.0.platform == up && (e.0.unique_id == uid || e.0.display_id == did) {
        Some(e.1)
    } else if e.1.platform == up && (e.1.unique_id == uid || e.1.display_id == did) {
        Some(e.0)
    } else {
        None
    }
}

/// Whether the pair `e` gives an account for (`up`, `uid`, `did`) across
/// `pp`.
pub open spec fn gives(e: (BindKey, BindKey), pp: u64, up: u64, uid: u64, did: u64) -> bool {
    joins(e, pp) && other_side(e, up, uid, did) is Some && platform_of_bit(
        other_side(e, up, uid, did)->0.platform,
    ) is Some
}

/// The account bound to (`up`, `uid`, `did`) across `pp`, from the first
/// pair that gives one.
pub open spec fn bind_lookup(
    data: Seq<(BindKey, BindKey)>,
    pp: u64,
    up: u64,
    uid: u64,
    did: u64,
) -> Option<BindKey>
    decreases data.len(),
{
    if data.len() == 0 {
        None
    } else if gives(data[0], pp, up, uid, did) {
        other_side(data[0], up, uid, did)
    } else {
        bind_lookup(data.drop_first(), pp, up, uid, did)
    }
}

/// A lookup that no pair of `data` answers is answered by a pair added at
/// the end, when it gives an account.
pub proof fn lemma_lookup_push(
    data: Seq<(BindKey, BindKey)>,
    e: (BindKey, BindKey),
    pp: u64,
    up: u64,
    uid: u64,
    did: u64,
)
    requires
        forall|k: int| 0 <= k < data.len() ==> !gives(#[trigger] data[k], pp, up, uid, did),
        gives(e, pp, up, uid, did),
    ensures
        bind_lookup(data.push(e), pp, up, uid, did) == other_side(e, up, uid, did),
    decreases data.len(),
{
    if data.len() > 0 {
        assert(data.push(e).drop_first() =~= data.drop_first().push(e));
        assert(data.push(e)[0] == data[0]);
        assert forall|k: int| 0 <= k < data.len() - 1 implies !gives(
            #[trigger] data.drop_first()[k],
            pp,
            up,
            uid,
            did,
        ) by {
            assert(data.drop_first()[k] == data[k + 1]);
        }
        lemma_lookup_push(data.drop_first(), e, pp, up, uid, did);
    } else {
        assert(data.push(e)[0] == e);
    }
}

/// After `add_bind` adds the pair of `u1` and `u2` to a map with no pair
/// across their platforms that touches them, each one's lookup gives the
/// other.
pub proof fn lemma_added_pair_found(data: Seq<(BindKey, BindKey)>, u1: User, u2: User)
    requires
        u1.platform != u2.platform,
        forall|k: int|
            0 <= k < data.len() ==> !gives(
                #[trigger] data[k],
                u1.platform.spec_bit() | u2.platform.spec_bit(),
                u1.platform.spec_bit(),
                u1.unique_id,
                u1.display_id,
            ) && !gives(
                data[k],
                u1.platform.spec_bit() | u2.platform.spec_bit(),
                u2.platform.spec_bit(),
                u2.unique_id,
                u2.display_id,
            ),
    ensures
        ({
            let k1 = BindKey {
                platform: u1.platform.spec_bit(),
                unique_id: u1.unique_id,
                display_id: u1.display_id,
            };
            let k2 = BindKey {
                platform: u2.platform.spec_bit(),
                unique_id: u2.unique_id,
                display_id: u2.display_id,
            };
            let d = data.push((k1, k2));
            let pp = u1.platform.spec_bit() | u2.platform.spec_bit();
            &&& bind_lookup(d, pp, k1.platform, u1.unique_id, u1.display_id) == Some(k2)
            &&& bind_lookup(d, pp, k2.platform, u2.unique_id, u2.display_id) == Some(k1)
        }),
{
    let k1 = BindKey {
        platform: u1.platform.spec_bit(),
        unique_id: u1.unique_id,
        display_id: u1.display_id,
    };
    let k2 = BindKey {
        platform: u2.platform.spec_bit(),
        unique_id: u2.unique_id,
        display_id: u2.display_id,
    };
    let pp = u1.platform.spec_bit() | u2.platform.spec_bit();
    crate::platform::lemma_bits_distinct(u1.platform, u2.platform);
    crate::platform::lemma_bits_distinct(u2.platform, u1.platform);
    lemma_lookup_push(data, (k1, k2), pp, k1.platform, u1.unique_id, u1.display_id);
    lemma_lookup_push(data, (k1, k2), pp, k2.platform, u2.unique_id, u2.display_id);
}

/// Whether the pair `e` already binds the two accounts, by unique ids or
/// by display ids, in either order.
pub open spec fn binds(e: (BindKey, BindKey), a: User, b: User) -> bool {
    ||| (e.0.unique_id == a.unique_id && e.1.unique_id == b.unique_id)
    ||| (e.1.unique_id == a.unique_id && e.0.unique_id == b.unique_id)
    ||| (e.0.display_id == a.display_id && e.1.display_id == b.display_id)
    ||| (e.1.display_id == a.display_id && e.0.display_id == b.display_id)
}

/// Pairs that do not bind `a` and `b` across their platforms.
pub open spec fn not_pair(a: User, b: User) -> spec_fn((BindKey, BindKey)) -> bool {
    |e: (BindKey, BindKey)|
        !(joins(e, a.platform.spec_bit() | b.platform.spec_bit()) && binds(e, a, b))
}

/// Pairs that do not involve `u` on a platform it shares with them.
pub open spec fn not_of_user(u: User) -> spec_fn((BindKey, BindKey)) -> bool {
    |e: (BindKey, BindKey)|
        !((e.0.platform | e.1.platform) & u.platform.spec_bit() > 0 && (e.0.unique_id == u.unique_id || e.1.unique_id
            == u.unique_id || e.0.display_id == u.display_id || e.1.display_id == u.display_id))
}

/// The pairs of `s` that `p` keeps, in order.
pub open spec fn keep_pairs(s: Seq<(BindKey, BindKey)>, p: spec_fn((BindKey, BindKey)) -> bool) -> Seq<
    (BindKey, BindKey),
>
    decreases s.len(),
{
    if s.len() == 0 {
        Seq::empty()
    } else if p(s.last()) {
        keep_pairs(s.drop_last(), p).push(s.last())
    } else {
        keep_pairs(s.drop_last(), p)
    }
}

/// The account bound to `user` on `to_platform`, with only platform, unique
/// id and display id filled in; none across the user's own platform.
pub fn get_bind(data: &Vec<(BindKey, BindKey)>, user: &User, to_platform: BridgeClientPlatform) -> (r:
    Option<User>)
    ensures
        to_platform == user.platform ==> r is None,
        to_platform != user.platform ==> match bind_lookup(
            data@,
            user.platform.spec_bit() | to_platform.spec_bit(),
            user.platform.spec_bit(),
            user.unique_id,
            user.display_id,
        ) {
            None => r is None,
            Some(k) => r matches Some(u) && platform_of_bit(k.platform) == Some(u.platform)
                && u.unique_id == k.unique_id && u.display_id == k.display_id && u.name@.len() == 0
                && u.avatar_url is None && u.platform_id == 0,
        },
{
    if to_platform == user.platform {
        return None;
    }
    let up = user.platform.bit();
    let pp = up | to_platform.bit();
    let n = data.len();
    assert(data@.skip(0) =~= data@);
    for i in 0..n
        invariant
            n == data@.len(),
            to_platform != user.platform,
            up == user.platform.spec_bit(),
            pp == user.platform.spec_bit() | to_platform.spec_bit(),
            bind_lookup(data@, pp, up, user.unique_id, user.display_id) == bind_lookup(
                data@.skip(i as int),
                pp,
                up,
                user.unique_id,
                user.display_id,
            ),
    {
        assert(data@.skip(i as int).drop_first() =~= data@.skip(i + 1));
        assert(data@.skip(i as int)[0] == data@[i as int]);
        let (a, b) = data[i];
        if (a.platform | b.platform) == pp {
            let f: Option<BindKey> = if a.platform == up && (a.unique_id == user.unique_id
                || a.display_id == user.display_id) {
                Some(b)
            } else if b.platform == up && (b.unique_id == user.unique_id || b.display_id
                == user.display_id) {
                Some(a)
            } else {
                None
            };
            if let Some(k) = f {
                if let Some(platform) = BridgeClientPlatform::by_value(k.platform) {
                    return Some(
                        User {
                            name: String::new(),
                            avatar_url: None,
                            platform_id: 0,
                            platform,
                            display_id: k.display_id,
                            unique_id: k.unique_id,
                        },
                    );
                }
            }
        }
    }
    None
}

/// Adds the pair of `user1` and `user2`, unless a pair across their
/// platforms binds them already. Returns whether it was added.
pub fn add_bind(data: &mut Vec<(BindKey, BindKey)>, user1: &User, user2: &User) -> (r: bool)
    ensures
        r == !exists|k: int|
            0 <= k < old(data)@.len() && joins(
                #[trigger] old(data)@[k],
                user1.platform.spec_bit() | user2.platform.spec_bit(),
            ) && binds(old(data)@[k], *user1, *user2),
        r ==> final(data)@ == old(data)@.push(
            (
                BindKey {
                    platform: user1.platform.spec_bit(),
                    unique_id: user1.unique_id,
                    display_id: user1.display_id,
                },
                BindKey {
                    platform: user2.platform.spec_bit(),
                    unique_id: user2.unique_id,
                    display_id: user2.display_id,
                },
            ),
        ),
        !r ==> final(data)@ == old(data)@,
{
    let p1 = user1.platform.bit();
    let p2 = user2.platform.bit();
    let pp = p1 | p2;
    let n = data.len();
    for i in 0..n
        invariant
            n == data@.len(),
            data@ == old(data)@,
            pp == user1.platform.spec_bit() | user2.platform.spec_bit(),
            forall|k: int|
                0 <= k < i ==> !(joins(#[trigger] data@[k], pp) && binds(data@[k], *user1, *user2)),
    {
        let (a, b) = data[i];
        if (a.platform | b.platform) == pp {
            if (a.unique_id == user1.unique_id && b.unique_id == user2.unique_id) || (b.unique_id == user1.unique_id && a.unique_id
                == user2.unique_id) {
                return false;
            }
            if (a.display_id == user1.display_id && b.display_id == user2.display_id) || (b.display_id == user1.display_id
                && a.display_id == user2.display_id) {
                return false;
            }
        }
    }
    let k1 = BindKey { platform: p1, unique_id: user1.unique_id, display_id: user1.display_id };
    let k2 = BindKey { platform: p2, unique_id: user2.unique_id, display_id: user2.display_id };
    data.push((k1, k2));
    true
}

/// Removes the pairs across the two users' platforms that bind them, by
/// unique or display ids, in either order.
pub fn rm_bind_pair(data: &mut Vec<(BindKey, BindKey)>, user1: &User, user2: &User)
    ensures
        final(data)@ == keep_pairs(old(data)@, not_pair(*user1, *user2)),
{
    let pp = user1.platform.bit() | user2.platform.bit();
    let ghost s = data@;
    let mut next: Vec<(BindKey, BindKey)> = Vec::new();
    let n = data.len();
    for i in 0..n
        invariant
            n == s.len(),
            data@ == s,
            pp == user1.platform.spec_bit() | user2.platform.spec_bit(),
            next@ == keep_pairs(s.take(i as int), not_pair(*user1, *user2)),
    {
        assert(s.take(i + 1).drop_last() =~= s.take(i as int));
        assert(s.take(i + 1).last() == s[i as int]);
        let (a, b) = data[i];
        let hit = (a.platform | b.platform) == pp && ((a.unique_id == user1.unique_id && b.unique_id == user2.unique_id) || (
        b.unique_id == user1.unique_id && a.unique_id == user2.unique_id) || (a.display_id == user1.display_id && b.display_id
            == user2.display_id) || (b.display_id == user1.display_id && a.display_id == user2.display_id));
        if !hit {
            next.push((a, b));
        }
    }
    assert(s.take(n as int) =~= s);
    *data = next;
}

/// Removes every pair that involves `user` on a platform it shares with
/// the pair.
pub fn rm_user_all_bind(data: &mut Vec<(BindKey, BindKey)>, user: &User)
    ensures
        final(data)@ == keep_pairs(old(data)@, not_of_user(*user)),
{
    let p = user.platform.bit();
    let ghost s = data@;
    let mut next: Vec<(BindKey, BindKey)> = Vec::new();
    let n = data.len();
    for i in 0..n
        invariant
            n == s.len(),
            data@ == s,
            p == user.platform.spec_bit(),
            next@ == keep_pairs(s.take(i as int), not_of_user(*user)),
    {
        assert(s.take(i + 1).drop_last() =~= s.take(i as int));
        assert(s.take(i + 1).last() == s[i as int]);
        let (a, b) = data[i];
        let hit = (a.platform | b.platform) & p > 0 && (a.unique_id == user.unique_id || b.unique_id == user.unique_id || a.display_id
            == user.display_id || b.display_id == user.display_id);
        if !hit {
            next.push((a, b));
        }
    }
    assert(s.take(n as int) =~= s);
    *data = next;
}

/// Pairs with a platform on both sides.
pub open spec fn has_platforms() -> spec_fn((BindKey, BindKey)) -> bool {
    |e: (BindKey, BindKey)| e.0.platform > 0 && e.1.platform > 0
}

/// Drops the pairs of a freshly read map that lack a platform on either
/// side.
pub fn retain_valid(data: &mut Vec<(BindKey, BindKey)>)
    ensures
        final(data)@ == keep_pairs(old(data)@, has_platforms()),
{
    let ghost s = data@;
    let mut next: Vec<(BindKey, BindKey)> = Vec::new();
    let n = data.len();
    for i in 0..n
        invariant
            n == s.len(),
            data@ == s,
            next@ == keep_pairs(s.take(i as int), has_platforms()),
    {
        assert(s.take(i + 1).drop_last() =~= s.take(i as int));
        assert(s.take(i + 1).last() == s[i as int]);
        let (a, b) = data[i];
        if a.platform > 0 && b.platform > 0 {
            next.push((a, b));
        }
    }
    assert(s.take(n as int) =~= s);
    *data = next;
}

/// One side of a bind request: a platform and a user id there.
#[derive(Debug, PartialEq, Eq, Clone, Copy, Structural)]
pub struct MetaUnit {
    pub platform: BridgeClientPlatform,
    pub user: u64,
}

impl MetaUnit {
    /// The user this side names, with only platform and unique id known.
    pub fn to_user(&self) -> (r: User)
        ensures
            r.platform == self.platform,
            r.unique_id == self.user,
            r.avatar_url is None,
            r.platform_id == 0,
            r.display_id == 0,
            r.name@.len() == 0,
    {
        User {
            platform: self.platform,
            unique_id: self.user,
            avatar_url: None,
            platform_id: 0,
            display_id: 0,
            name: String::new(),
        }
    }
}

/// A bind request: who asks, and whom.
#[derive(Debug, Clone, Copy)]
pub struct BindMeta {
    pub from: MetaUnit,
    pub to: MetaUnit,
}

impl BindMeta {
    /// The request from `a` to `b`.
    pub fn new(a: (BridgeClientPlatform, u64), b: (BridgeClientPlatform, u64)) -> (r: BindMeta)
        ensures
            r.from.platform == a.0 && r.from.user == a.1,
            r.to.platform == b.0 && r.to.user == b.1,
    {
        let (ap, au) = a;
        let (bp, bu) = b;
        BindMeta { from: MetaUnit { platform: ap, user: au }, to: MetaUnit { platform: bp, user: bu } }
    }
}

/// Two requests are the same when they join the same two sides, in either
/// direction.
pub open spec fn same_request(x: BindMeta, y: BindMeta) -> bool {
    (x.from == y.from && x.to == y.to) || (x.from == y.to && x.to == y.from)
}

impl PartialEq for BindMeta {
    fn eq(&self, other: &BindMeta) -> (r: bool)
        ensures
            r == same_request(*self, *other),
    {
        (self.from == other.from && self.to == other.to) || (self.from == other.to && self.to
            == other.from)
    }
}

impl vstd::std_specs::cmp::PartialEqSpecImpl for BindMeta {
    open spec fn obeys_eq_spec() -> bool {
        true
    }

    open spec fn eq_spec(&self, other: &BindMeta) -> bool {
        same_request(*self, *other)
    }
}

impl Eq for BindMeta {
}

} // verus!
