//! The correlation store: which native message on which platform each bridge
//! message became, so that replies can be carried across platforms.

use vstd::prelude::*;
use crate::config::BridgeConfig;
use crate::message::MessageContent;
use crate::text::str_eq;

verus! {

/// One native copy of a bridge message: its platform and native id.
pub struct BridgeMessageRefPO {
    /// The platform code.
    pub platform: String,
    /// The native message id.
    pub origin_id: String,
}

impl Clone for BridgeMessageRefPO {
    fn clone(&self) -> (r: Self)
        ensures
            r == *self,
    {
        BridgeMessageRefPO { platform: self.platform.clone(), origin_id: self.origin_id.clone() }
    }
}

/// A stored bridge message and its native copies.
pub struct BridgeMessagePO {
    /// The bridge message id.
    pub id: String,
    /// The bridge user who sent it.
    pub sender_id: String,
    /// The sender's avatar.
    pub avatar_url: Option<String>,
    /// The native copies, at most one per platform.
    pub refs: Vec<BridgeMessageRefPO>,
    /// The message's segments.
    pub message_chain: Vec<MessageContent>,
}

/// A message an adapter hands to the bus, with its own native copy.
pub struct BridgeSendMessageForm {
    pub sender_id: String,
    pub avatar_url: Option<String>,
    pub bridge_config: BridgeConfig,
    pub message_chain: Vec<MessageContent>,
    pub origin_message: BridgeMessageRefPO,
}

/// A message of the older form: its chain and its one native copy.
pub struct BridgeMessageSaveAndRefForm {
    pub platform: String,
    pub origin_id: String,
    pub message_chain: Vec<MessageContent>,
}

/// A native copy to record against a bridge message.
pub struct BridgeMessageRefMessageForm {
    pub bridge_message_id: String,
    pub platform: String,
    pub origin_id: String,
}

/// The native copies name each platform at most once.
pub open spec fn refs_unique(refs: Seq<BridgeMessageRefPO>) -> bool {
    forall|i: int, j: int|
        0 <= i < refs.len() && 0 <= j < refs.len() && i != j ==> #[trigger] refs[i].platform@
            != #[trigger] refs[j].platform@
}

/// The store's invariants: unique ids, and at most one native copy per
/// platform in each record.
pub open spec fn messages_wf(s: Seq<BridgeMessagePO>) -> bool {
    &&& forall|i: int| 0 <= i < s.len() ==> refs_unique(#[trigger] s[i].refs@)
    &&& forall|i: int, j: int|
        0 <= i < s.len() && 0 <= j < s.len() && i != j ==> #[trigger] s[i].id@ != #[trigger] s[j].id@
}

/// `m` has a native copy `origin` on `platform`.
pub open spec fn has_ref(m: BridgeMessagePO, origin: Seq<char>, platform: Seq<char>) -> bool {
    exists|k: int|
        0 <= k < m.refs@.len() && #[trigger] m.refs@[k].origin_id@ == origin && m.refs@[k].platform@
            == platform
}

/// `m` has a native copy on `platform`.
pub open spec fn has_platform(m: BridgeMessagePO, platform: Seq<char>) -> bool {
    exists|k: int| 0 <= k < m.refs@.len() && #[trigger] m.refs@[k].platform@ == platform
}

/// The records with native copy `origin` on `platform`, in order.
pub open spec fn matching(s: Seq<BridgeMessagePO>, origin: Seq<char>, platform: Seq<char>) -> Seq<
    BridgeMessagePO,
>
    decreases s.len(),
{
    if s.len() == 0 {
        Seq::empty()
    } else if has_ref(s.last(), origin, platform) {
        matching(s.drop_last(), origin, platform).push(s.last())
    } else {
        matching(s.drop_last(), origin, platform)
    }
}

/// Whether `s` holds a record with id `id`.
pub open spec fn has_message(s: Seq<BridgeMessagePO>, id: Seq<char>) -> bool {
    exists|k: int| 0 <= k < s.len() && #[trigger] s[k].id@ == id
}

/// `b` is `a` with the native copy `r` appended.
pub open spec fn with_ref(a: BridgeMessagePO, b: BridgeMessagePO, r: BridgeMessageRefPO) -> bool {
    &&& b.id == a.id
    &&& b.sender_id == a.sender_id
    &&& b.avatar_url == a.avatar_url
    &&& b.message_chain == a.message_chain
    &&& b.refs@ == a.refs@.push(r)
}

/// Whether the native copies name each platform at most once.
fn check_refs(refs: &Vec<BridgeMessageRefPO>) -> (r: bool)
    ensures
        r == refs_unique(refs@),
{
    let n = refs.len();
    for i in 0..n
        invariant
            n == refs@.len(),
            forall|a: int, b: int|
                0 <= a < i && 0 <= b < n && a != b ==> #[trigger] refs@[a].platform@
                    != #[trigger] refs@[b].platform@,
    {
        for j in 0..n
            invariant
                n == refs@.len(),
                0 <= i < n,
                forall|a: int, b: int|
                    0 <= a < i && 0 <= b < n && a != b ==> #[trigger] refs@[a].platform@
                        != #[trigger] refs@[b].platform@,
                forall|b: int| 0 <= b < j && b != i ==> refs@[i as int].platform@
                    != #[trigger] refs@[b].platform@,
        {
            if i != j && refs[i].platform == refs[j].platform {
                return false;
            }
        }
    }
    true
}

/// Whether `m` has a native copy on `platform`.
fn find_platform(m: &BridgeMessagePO, platform: &str) -> (r: bool)
    ensures
        r == has_platform(*m, platform@),
{
    let n = m.refs.len();
    for i in 0..n
        invariant
            n == m.refs@.len(),
            forall|k: int| 0 <= k < i ==> #[trigger] m.refs@[k].platform@ != platform@,
    {
        if str_eq(platform, &m.refs[i].platform) {
            return true;
        }
    }
    false
}

/// Whether `m` has the native copy `origin` on `platform`.
fn find_ref(m: &BridgeMessagePO, origin: &str, platform: &str) -> (r: bool)
    ensures
        r == has_ref(*m, origin@, platform@),
{
    let n = m.refs.len();
    for i in 0..n
        invariant
            n == m.refs@.len(),
            forall|k: int|
                0 <= k < i ==> !(#[trigger] m.refs@[k].origin_id@ == origin@ && m.refs@[k].platform@
                    == platform@),
    {
        if str_eq(origin, &m.refs[i].origin_id) && str_eq(platform, &m.refs[i].platform) {
            return true;
        }
    }
    false
}

/// The bridge messages, held in memory; persisting them is the caller's part.
pub struct BridgeMessageManager {
    messages: Vec<BridgeMessagePO>,
}

impl View for BridgeMessageManager {
    type V = Seq<BridgeMessagePO>;

    closed spec fn view(&self) -> Seq<BridgeMessagePO> {
        self.messages@
    }
}

impl BridgeMessageManager {
    /// The store's invariants hold.
    pub open spec fn wf(&self) -> bool {
        messages_wf(self@)
    }

    /// An empty store.
    pub fn new() -> (r: BridgeMessageManager)
        ensures
            r@ == Seq::<BridgeMessagePO>::empty(),
            r.wf(),
    {
        BridgeMessageManager { messages: Vec::new() }
    }

    /// A store holding `messages`, if they satisfy the invariants.
    pub fn load(messages: Vec<BridgeMessagePO>) -> (r: Option<BridgeMessageManager>)
        ensures
            r is Some <==> messages_wf(messages@),
            r matches Some(m) ==> m@ == messages@ && m.wf(),
    {
        let n = messages.len();
        for i in 0..n
            invariant
                n == messages@.len(),
                forall|a: int| 0 <= a < i ==> refs_unique(#[trigger] messages@[a].refs@),
                forall|a: int, b: int|
                    0 <= a < i && 0 <= b < n && a != b ==> #[trigger] messages@[a].id@
                        != #[trigger] messages@[b].id@,
        {
            if !check_refs(&messages[i].refs) {
                return None;
            }
            for j in 0..n
                invariant
                    n == messages@.len(),
                    0 <= i < n,
                    forall|a: int, b: int|
                        0 <= a < i && 0 <= b < n && a != b ==> #[trigger] messages@[a].id@
                            != #[trigger] messages@[b].id@,
                    forall|b: int| 0 <= b < j && b != i ==> messages@[i as int].id@
                        != #[trigger] messages@[b].id@,
            {
                if i != j && messages[i].id == messages[j].id {
                    return None;
                }
            }
        }
        Some(BridgeMessageManager { messages })
    }

    /// All records, for persisting them.
    pub fn messages(&self) -> (r: &Vec<BridgeMessagePO>)
        ensures
            r@ == self@,
    {
        &self.messages
    }

    /// The record with id `id`.
    pub fn get(&self, id: &str) -> (r: Option<&BridgeMessagePO>)
        ensures
            r is None <==> !has_message(self@, id@),
            r matches Some(m) ==> m.id@ == id@ && exists|k: int|
                0 <= k < self@.len() && self@[k] == *m,
    {
        let n = self.messages.len();
        for i in 0..n
            invariant
                n == self@.len(),
                self@ == self.messages@,
                forall|k: int| 0 <= k < i ==> #[trigger] self@[k].id@ != id@,
        {
            if str_eq(id, &self.messages[i].id) {
                return Some(&self.messages[i]);
            }
        }
        None
    }

    /// Records `form` under the bridge id `id`, seeded with the sender's own
    /// native copy; fails when the id is taken.
    pub fn save_with_id(&mut self, form: BridgeSendMessageForm, id: String) -> (r: Result<
        (),
        String,
    >)
        requires
            old(self).wf(),
        ensures
            final(self).wf(),
            r is Ok <==> !has_message(old(self)@, id@),
            r is Ok ==> final(self)@.len() == old(self)@.len() + 1 && final(self)@.drop_last()
                == old(self)@ && ({
                let m = final(self)@.last();
                &&& m.id == id
                &&& m.sender_id == form.sender_id
                &&& m.avatar_url == form.avatar_url
                &&& m.message_chain == form.message_chain
                &&& m.refs@ == seq![form.origin_message]
            }),
            r is Err ==> final(self)@ == old(self)@,
    {
        if self.get(id.as_str()).is_some() {
            return Err(String::from_str("the id is taken"));
        }
        let mut refs: Vec<BridgeMessageRefPO> = Vec::new();
        refs.push(form.origin_message);
        let record = BridgeMessagePO {
            id,
            sender_id: form.sender_id,
            avatar_url: form.avatar_url,
            refs,
            message_chain: form.message_chain,
        };
        let ghost s = self@;
        self.messages.push(record);
        proof {
            assert(self@.drop_last() =~= s);
            assert forall|i: int, j: int|
                0 <= i < self@.len() && 0 <= j < self@.len() && i != j implies #[trigger] self@[i].id@
                != #[trigger] self@[j].id@ by {
                if i < s.len() && j < s.len() {
                    assert(s[i] == self@[i] && s[j] == self@[j]);
                } else if i < s.len() {
                    assert(s[i] == self@[i]);
                } else {
                    assert(s[j] == self@[j]);
                }
            }
            assert forall|i: int| 0 <= i < self@.len() implies refs_unique(
                #[trigger] self@[i].refs@,
            ) by {
                if i < s.len() {
                    assert(s[i] == self@[i]);
                }
            }
        }
        Ok(())
    }

    /// A bridge message id no record has: a random one, lengthened past
    /// every id in the store when it is taken.
    pub fn fresh_id(&self) -> (r: String)
        ensures
            !has_message(self@, r@),
    {
        let id = crate::user::new_uuid();
        if self.get(id.as_str()).is_none() {
            return id;
        }
        let mut max: usize = 0;
        let n = self.messages.len();
        for i in 0..n
            invariant
                n == self@.len(),
                self@ == self.messages@,
                forall|k: int| 0 <= k < i ==> #[trigger] self@[k].id@.len() <= max,
        {
            let l = self.messages[i].id.as_str().unicode_len();
            if l > max {
                max = l;
            }
        }
        let r = crate::text::pad_past(id, max);
        assert forall|k: int| 0 <= k < self@.len() implies #[trigger] self@[k].id@ != r@ by {
            assert(self@[k].id@.len() <= max);
        }
        r
    }

    /// Records `form` under a fresh bridge id, seeded with the sender's own
    /// native copy, and returns the id.
    pub fn save(&mut self, form: BridgeSendMessageForm) -> (r: String)
        requires
            old(self).wf(),
        ensures
            final(self).wf(),
            !has_message(old(self)@, r@),
            final(self)@.len() == old(self)@.len() + 1,
            final(self)@.drop_last() == old(self)@,
            ({
                let m = final(self)@.last();
                &&& m.id@ == r@
                &&& m.sender_id == form.sender_id
                &&& m.avatar_url == form.avatar_url
                &&& m.message_chain == form.message_chain
                &&& m.refs@ == seq![form.origin_message]
            }),
    {
        let id = self.fresh_id();
        let copy = id.clone();
        let _ = self.save_with_id(form, id);
        copy
    }

    /// Records a message of the older form under a fresh bridge id, seeded
    /// with its native copy, and returns the id; it has no sender.
    pub fn save_and_ref(&mut self, form: BridgeMessageSaveAndRefForm) -> (r: String)
        requires
            old(self).wf(),
        ensures
            final(self).wf(),
            !has_message(old(self)@, r@),
            final(self)@.len() == old(self)@.len() + 1,
            final(self)@.drop_last() == old(self)@,
            ({
                let m = final(self)@.last();
                &&& m.id@ == r@
                &&& m.sender_id@.len() == 0
                &&& m.avatar_url is None
                &&& m.message_chain == form.message_chain
                &&& m.refs@.len() == 1
                &&& m.refs@[0].platform == form.platform
                &&& m.refs@[0].origin_id == form.origin_id
            }),
    {
        let id = self.fresh_id();
        let copy = id.clone();
        let ghost chain = form.message_chain;
        let send = BridgeSendMessageForm {
            sender_id: String::new(),
            avatar_url: None,
            bridge_config: crate::config::BridgeConfig {
                discord: crate::config::DiscordBridgeConfig { id: 0, token: String::new(), channel_id: 0 },
                qq_group: 0,
                tg_group: 0,
                enable: false,
            },
            message_chain: form.message_chain,
            origin_message: BridgeMessageRefPO { platform: form.platform, origin_id: form.origin_id },
        };
        let _ = self.save_with_id(send, id);
        copy
    }

    /// Records a native copy of a bridge message. Returns false when no
    /// record has the id; a second copy on the same platform is ignored.
    pub fn ref_bridge_message(&mut self, form: BridgeMessageRefMessageForm) -> (r: bool)
        requires
            old(self).wf(),
        ensures
            final(self).wf(),
            r == has_message(old(self)@, form.bridge_message_id@),
            final(self)@.len() == old(self)@.len(),
            forall|k: int|
                0 <= k < old(self)@.len() && old(self)@[k].id@ != form.bridge_message_id@
                    ==> #[trigger] final(self)@[k] == old(self)@[k],
            forall|k: int|
                0 <= k < old(self)@.len() && old(self)@[k].id@ == form.bridge_message_id@ ==> {
                    if has_platform(old(self)@[k], form.platform@) {
                        #[trigger] final(self)@[k] == old(self)@[k]
                    } else {
                        with_ref(
                            old(self)@[k],
                            final(self)@[k],
                            BridgeMessageRefPO { platform: form.platform, origin_id: form.origin_id },
                        )
                    }
                },
    {
        let ghost s = self@;
        let n = self.messages.len();
        let mut idx: usize = 0;
        let mut found = false;
        for i in 0..n
            invariant
                n == s.len(),
                s == self.messages@,
                !found ==> forall|k: int| 0 <= k < i ==> #[trigger] s[k].id@
                    != form.bridge_message_id@,
                found ==> idx < n && s[idx as int].id@ == form.bridge_message_id@,
        {
            if !found && str_eq(form.bridge_message_id.as_str(), &self.messages[i].id) {
                found = true;
                idx = i;
            }
        }
        if !found {
            return false;
        }
        assert forall|k: int| 0 <= k < s.len() && k != idx as int implies #[trigger] s[k].id@
            != form.bridge_message_id@ by {
            assert(s[k].id@ != s[idx as int].id@);
        }
        if find_platform(&self.messages[idx], form.platform.as_str()) {
            return true;
        }
        let new_ref = BridgeMessageRefPO { platform: form.platform, origin_id: form.origin_id };
        let mut record = self.messages.remove(idx);
        let ghost before = record;
        record.refs.push(new_ref);
        proof {
            assert forall|a: int, b: int|
                0 <= a < record.refs@.len() && 0 <= b < record.refs@.len() && a != b implies #[trigger] record.refs@[a].platform@
                != #[trigger] record.refs@[b].platform@ by {
                if a < before.refs@.len() && b < before.refs@.len() {
                    assert(refs_unique(s[idx as int].refs@));
                } else if a < before.refs@.len() {
                    assert(before.refs@[a] == record.refs@[a]);
                } else {
                    assert(before.refs@[b] == record.refs@[b]);
                }
            }
        }
        self.messages.insert(idx, record);
        proof {
            assert forall|k: int| 0 <= k < s.len() && k != idx as int implies #[trigger] self@[k]
                == s[k] by {
                if k < idx {
                } else {
                }
            }
            assert forall|i: int| 0 <= i < self@.len() implies refs_unique(
                #[trigger] self@[i].refs@,
            ) by {
                if i != idx as int {
                    assert(self@[i] == s[i]);
                }
            }
            assert forall|i: int, j: int|
                0 <= i < self@.len() && 0 <= j < self@.len() && i != j implies #[trigger] self@[i].id@
                != #[trigger] self@[j].id@ by {
                if i != idx as int {
                    assert(self@[i] == s[i]);
                }
                if j != idx as int {
                    assert(self@[j] == s[j]);
                }
            }
        }
        true
    }

    /// The record with native copy `origin_id` on `platform`. More than one
    /// such record is an error, never resolved by picking one.
    pub fn find_by_ref_and_platform(&self, origin_id: &str, platform: &str) -> (r: Result<
        Option<&BridgeMessagePO>,
        String,
    >)
        ensures
            r is Err <==> matching(self@, origin_id@, platform@).len() > 1,
            r matches Ok(None) <==> matching(self@, origin_id@, platform@).len() == 0,
            r matches Ok(Some(m)) ==> matching(self@, origin_id@, platform@) == seq![*m],
    {
        let n = self.messages.len();
        let mut count: usize = 0;
        let mut first: usize = 0;
        for i in 0..n
            invariant
                n == self@.len(),
                self@ == self.messages@,
                count <= 1,
                count == matching(self@.take(i as int), origin_id@, platform@).len(),
                count == 1 ==> first < i && matching(self@.take(i as int), origin_id@, platform@)
                    == seq![self@[first as int]],
        {
            proof {
                assert(self@.take(i + 1).drop_last() =~= self@.take(i as int));
            }
            if find_ref(&self.messages[i], origin_id, platform) {
                if count == 1 {
                    proof {
                        lemma_matching_len_grows(self@, origin_id@, platform@, i + 1);
                    }
                    return Err(String::from_str("more than one record holds the reference"));
                }
                count = 1;
                first = i;
                assert(matching(self@.take(i + 1), origin_id@, platform@) =~= seq![
                    self@[first as int],
                ]);
            }
        }
        assert(self@.take(n as int) =~= self@);
        if count == 1 {
            Ok(Some(&self.messages[first]))
        } else {
            Ok(None)
        }
    }
}

/// The matches in a prefix are never more than in the whole sequence.
proof fn lemma_matching_len_grows(
    s: Seq<BridgeMessagePO>,
    origin: Seq<char>,
    platform: Seq<char>,
    i: int,
)
    requires
        0 <= i <= s.len(),
    ensures
        matching(s.take(i), origin, platform).len() <= matching(s, origin, platform).len(),
    decreases s.len() - i,
{
    if i < s.len() {
        lemma_matching_len_grows(s, origin, platform, i + 1);
        assert(s.take(i + 1).drop_last() =~= s.take(i));
    } else {
        assert(s.take(i) =~= s);
    }
}

/// In a well-formed store, two native copies held by one record are on
/// different platforms.
pub proof fn lemma_one_ref_per_platform(s: Seq<BridgeMessagePO>, m: int, a: int, b: int)
    requires
        messages_wf(s),
        0 <= m < s.len(),
        0 <= a < s[m].refs@.len(),
        0 <= b < s[m].refs@.len(),
        a != b,
    ensures
        s[m].refs@[a].platform@ != s[m].refs@[b].platform@,
{
    assert(refs_unique(s[m].refs@));
}

} // verus!
