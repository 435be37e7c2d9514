//! Answers to commands of the older syntax, against the binding map.

use vstd::prelude::*;
use crate::bind_map::{
    add_bind, bind_lookup, get_bind, keep_pairs, not_pair, rm_bind_pair, same_request, BindKey,
    BindMeta, MetaUnit, User,
};
use crate::platform::platform_of_bit;
use crate::decimal::{parse_u64, parse_u64_spec};
use crate::platform::{parse_code, BridgeClientPlatform};
use crate::text::chars_of;

verus! {

/// The bind usage shown to a user of `p`.
pub open spec fn bind_usage(p: BridgeClientPlatform) -> Seq<char> {
    match p {
        BridgeClientPlatform::Discord => "!绑定 qq [qq号]"@,
        BridgeClientPlatform::QQ => "!绑定 dc [#9617(仅填写数字)]"@,
        _ => Seq::empty(),
    }
}

/// The help shown to a user of `p`.
pub open spec fn help_for(p: BridgeClientPlatform) -> Seq<char> {
    "!帮助\n!ping\n"@ + bind_usage(p) + "\n!确认绑定\n!解除绑定\n!查看绑定状态"@
}

/// The command help for `user`, with the bind usage of its platform.
pub fn get_help(user: &User) -> (r: String)
    ensures
        r@ == help_for(user.platform),
{
    let mut r = String::from_str("!帮助\n!ping\n");
    match user.platform {
        BridgeClientPlatform::Discord => r.append("!绑定 qq [qq号]"),
        BridgeClientPlatform::QQ => r.append("!绑定 dc [#9617(仅填写数字)]"),
        _ => {
            assert(r@ =~= r@ + Seq::<char>::empty());
        },
    }
    r.append("\n!确认绑定\n!解除绑定\n!查看绑定状态");
    r
}

/// The platform and numeric id that bind arguments name.
pub fn parse_bind_args(args: &Vec<String>) -> (r: Option<(BridgeClientPlatform, u64)>)
    ensures
        args@.len() < 2 ==> r is None,
        args@.len() >= 2 ==> match (parse_code(args@[0]@), parse_u64_spec(args@[1]@)) {
            (Some(p), Some(u)) => r == Some((p, u)),
            _ => r is None,
        },
{
    if args.len() < 2 {
        return None;
    }
    let p = match BridgeClientPlatform::from_str(args[0].as_str()) {
        Ok(p) => p,
        Err(_) => {
            return None;
        },
    };
    let u = match parse_u64(&chars_of(args[1].as_str())) {
        Some(u) => u,
        None => {
            return None;
        },
    };
    Some((p, u))
}

/// The arguments' views.
pub open spec fn opt_args(a: Option<Vec<String>>) -> Option<Seq<Seq<char>>> {
    match a {
        Some(v) => Some(crate::cmd::string_views(v@)),
        None => None,
    }
}

/// The platform and id that bind arguments name.
pub open spec fn bind_target(a: Option<Seq<Seq<char>>>) -> Option<(BridgeClientPlatform, u64)> {
    match a {
        Some(v) => if v.len() >= 2 {
            match (parse_code(v[0]), parse_u64_spec(v[1])) {
                (Some(p), Some(u)) => Some((p, u)),
                _ => None,
            }
        } else {
            None
        },
        None => None,
    }
}

/// Account `from` is bound to the account `to.1` (by unique or display id)
/// on platform `to.0`.
pub open spec fn mapped(
    data: Seq<(BindKey, BindKey)>,
    from: (BridgeClientPlatform, u64),
    to: (BridgeClientPlatform, u64),
) -> bool {
    from.0 != to.0 && match bind_lookup(
        data,
        from.0.spec_bit() | to.0.spec_bit(),
        from.0.spec_bit(),
        from.1,
        from.1,
    ) {
        Some(k) => k.unique_id == to.1 || k.display_id == to.1,
        None => false,
    }
}

/// Whether account `from` is bound to the account `to.1` (by unique or
/// display id) on platform `to.0`.
pub fn is_mapping(
    data: &Vec<(BindKey, BindKey)>,
    from: (BridgeClientPlatform, u64),
    to: (BridgeClientPlatform, u64),
) -> (r: bool)
    ensures
        r == mapped(data@, from, to),
{
    let (fp, fu) = from;
    let (tp, tu) = to;
    let user = User {
        name: String::new(),
        avatar_url: None,
        unique_id: fu,
        display_id: fu,
        platform_id: 0,
        platform: fp,
    };
    match get_bind(data, &user, tp) {
        Some(m) => m.unique_id == tu || m.display_id == tu,
        None => false,
    }
}

/// Unbinds `user` from its account on the platform `args[0]` names.
pub fn try_unbind(data: &mut Vec<(BindKey, BindKey)>, user: &User, args: &Vec<String>) -> (r:
    String)
    ensures
        args@.len() == 0 || parse_code(args@[0]@) is None ==> r@ == help_for(user.platform)
            && final(data)@ == old(data)@,
        args@.len() > 0 && parse_code(args@[0]@) == Some(user.platform) ==> r@ == "原地TP？"@
            && final(data)@ == old(data)@,
        (args@.len() > 0 && parse_code(args@[0]@) is Some && parse_code(args@[0]@)
            != Some(user.platform)) ==> {
            let p = parse_code(args@[0]@)->0;
            match bind_lookup(
                old(data)@,
                user.platform.spec_bit() | p.spec_bit(),
                user.platform.spec_bit(),
                user.unique_id,
                user.display_id,
            ) {
                None => r@ == "未向此平台绑定用户"@ && final(data)@ == old(data)@,
                Some(k) => r@ == "已解除绑定"@ && exists|o: User|
                    platform_of_bit(k.platform) == Some(o.platform) && o.unique_id == k.unique_id
                        && o.display_id == k.display_id && #[trigger] keep_pairs(
                        old(data)@,
                        not_pair(*user, o),
                    ) == final(data)@,
            }
        },
{
    if args.len() == 0 {
        return get_help(user);
    }
    let p = match BridgeClientPlatform::from_str(args[0].as_str()) {
        Ok(p) => p,
        Err(_) => {
            return get_help(user);
        },
    };
    if p == user.platform {
        return String::from_str("原地TP？");
    }
    match get_bind(data, user, p) {
        Some(other) => {
            let ghost before = data@;
            rm_bind_pair(data, user, &other);
            assert(keep_pairs(before, not_pair(*user, other)) == data@);
            String::from_str("已解除绑定")
        },
        None => String::from_str("未向此平台绑定用户"),
    }
}

/// How long a bind request waits for its answer, in milliseconds.
pub const REQUEST_TIMEOUT: i64 = 30_000;

/// Requests kept when `new` is made at `now`: not expired, and not the same
/// request as `new`.
pub open spec fn kept_request(now: i64, new: BindMeta) -> spec_fn((i64, BindMeta)) -> bool {
    |e: (i64, BindMeta)| !(now - e.0 > REQUEST_TIMEOUT) && !same_request(new, e.1)
}

/// `e` is a live request that `user` answers.
pub open spec fn answers(e: (i64, BindMeta), user: User, now: i64) -> bool {
    e.0 >= now - REQUEST_TIMEOUT && e.1.to.platform == user.platform && (e.1.to.user
        == user.unique_id || e.1.to.user == user.display_id)
}

/// Requests kept after `user` answers at `now`: live ones that `user` does
/// not answer.
pub open spec fn kept_after_answer(now: i64, user: User) -> spec_fn((i64, BindMeta)) -> bool {
    |e: (i64, BindMeta)| e.0 >= now - REQUEST_TIMEOUT && !answers(e, user, now)
}

/// The requests of `s` that `p` keeps, in order.
pub open spec fn keep_requests(s: Seq<(i64, BindMeta)>, p: spec_fn((i64, BindMeta)) -> bool) -> Seq<
    (i64, BindMeta),
>
    decreases s.len(),
{
    if s.len() == 0 {
        Seq::empty()
    } else if p(s.last()) {
        keep_requests(s.drop_last(), p).push(s.last())
    } else {
        keep_requests(s.drop_last(), p)
    }
}

/// The first request of `s` that `user` answers at `now`.
pub open spec fn first_answered(s: Seq<(i64, BindMeta)>, user: User, now: i64) -> Option<BindMeta>
    decreases s.len(),
{
    if s.len() == 0 {
        None
    } else if answers(s[0], user, now) {
        Some(s[0].1)
    } else {
        first_answered(s.drop_first(), user, now)
    }
}

/// Records a bind request from `user` at `now`, after dropping expired
/// requests and an earlier copy of the same one.
pub fn try_cache_bind(
    data: &Vec<(BindKey, BindKey)>,
    user: &User,
    caches: &mut Vec<(i64, BindMeta)>,
    args: Option<Vec<String>>,
    now: i64,
) -> (r: String)
    requires
        now >= i64::MIN + REQUEST_TIMEOUT,
    ensures
        match bind_target(opt_args(args)) {
            None => r@ == help_for(user.platform) && final(caches)@ == old(caches)@,
            Some(t) => if mapped(data@, (user.platform, user.unique_id), t) {
                r@ == "此用户已绑定"@ && final(caches)@ == old(caches)@
            } else {
                let m = BindMeta {
                    from: MetaUnit { platform: user.platform, user: user.unique_id },
                    to: MetaUnit { platform: t.0, user: t.1 },
                };
                &&& r@ == "已记录，30秒后失效。"@
                &&& final(caches)@ == keep_requests(old(caches)@, kept_request(now, m)).push(
                    (now, m),
                )
            },
        },
{
    let bind_to = match &args {
        Some(a) => parse_bind_args(a),
        None => None,
    };
    let bind_to = match bind_to {
        Some(b) => b,
        None => {
            return get_help(user);
        },
    };
    if is_mapping(data, (user.platform, user.unique_id), bind_to) {
        return String::from_str("此用户已绑定");
    }
    let new_meta = BindMeta::new((user.platform, user.unique_id), bind_to);
    let ghost s = caches@;
    let mut next: Vec<(i64, BindMeta)> = Vec::new();
    let n = caches.len();
    for i in 0..n
        invariant
            n == s.len(),
            caches@ == s,
            next@ == keep_requests(s.take(i as int), kept_request(now, new_meta)),
    {
        assert(s.take(i + 1).drop_last() =~= s.take(i as int));
        assert(s.take(i + 1).last() == s[i as int]);
        let (t, m) = caches[i];
        let expired = (now as i128) - (t as i128) > REQUEST_TIMEOUT as i128;
        if !expired && !(new_meta == m) {
            next.push((t, m));
        }
    }
    assert(s.take(n as int) =~= s);
    next.push((now, new_meta));
    *caches = next;
    String::from_str("已记录，30秒后失效。")
}

/// Answers, as `user` at `now`, the first live request that names it,
/// binding the requester to it; drops expired requests and those it
/// answers. Returns the feedback, empty when nothing was answered.
pub fn try_bind(
    data: &mut Vec<(BindKey, BindKey)>,
    user: &User,
    caches: &mut Vec<(i64, BindMeta)>,
    now: i64,
) -> (r: String)
    requires
        now >= i64::MIN + REQUEST_TIMEOUT,
    ensures
        final(caches)@ == keep_requests(old(caches)@, kept_after_answer(now, *user)),
        first_answered(old(caches)@, *user, now) is None ==> r@.len() == 0 && final(data)@ == old(
            data,
        )@,
        first_answered(old(caches)@, *user, now) is Some ==> r@ == "绑定完成"@,
{
    let deadline = now - REQUEST_TIMEOUT;
    let ghost s = caches@;
    let mut found: Option<BindMeta> = None;
    let mut next: Vec<(i64, BindMeta)> = Vec::new();
    let n = caches.len();
    assert(s.skip(0) =~= s);
    for i in 0..n
        invariant
            n == s.len(),
            caches@ == s,
            deadline == now - REQUEST_TIMEOUT,
            next@ == keep_requests(s.take(i as int), kept_after_answer(now, *user)),
            found is None ==> first_answered(s, *user, now) == first_answered(s.skip(i as int), *user, now),
            found matches Some(m) ==> first_answered(s, *user, now) == Some(m),
    {
        assert(s.take(i + 1).drop_last() =~= s.take(i as int));
        assert(s.take(i + 1).last() == s[i as int]);
        assert(s.skip(i as int).drop_first() =~= s.skip(i + 1));
        assert(s.skip(i as int)[0] == s[i as int]);
        let (t, m) = caches[i];
        if t >= deadline {
            let hit = m.to.platform == user.platform && (m.to.user == user.unique_id || m.to.user
                == user.display_id);
            if hit {
                if found.is_none() {
                    found = Some(m);
                }
            } else {
                next.push((t, m));
            }
        }
    }
    assert(s.take(n as int) =~= s);
    *caches = next;
    match found {
        Some(m) => {
            let from = m.from.to_user();
            add_bind(data, &from, user);
            String::from_str("绑定完成")
        },
        None => String::new(),
    }
}

} // verus!
