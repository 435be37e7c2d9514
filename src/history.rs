//! The message history: for each bridge message id, the native messages it
//! was sent as. Reading and writing its file is the caller's part.

use vstd::prelude::*;
use crate::text::str_eq;

verus! {

/// The platforms the history knows.
#[derive(Debug, Clone, Copy, PartialEq, Eq, Structural)]
pub enum Platform {
    Discord,
    QQ,
}

/// One native message.
pub struct HisotryMessage {
    pub platform: Platform,
    pub message_id: String,
}

/// A bridge message id and its native messages.
pub struct History {
    pub id: String,
    pub message: Vec<HisotryMessage>,
}

/// `h` holds native message `mid` on `p`.
pub open spec fn holds(h: History, p: Platform, mid: Seq<char>) -> bool {
    exists|k: int|
        0 <= k < h.message@.len() && #[trigger] h.message@[k].message_id@ == mid
            && h.message@[k].platform == p
}

/// The index of the first history with id `id`.
pub open spec fn index_of(s: Seq<History>, id: Seq<char>) -> Option<int>
    decreases s.len(),
{
    if s.len() == 0 {
        None
    } else if s[0].id@ == id {
        Some(0)
    } else {
        match index_of(s.drop_first(), id) {
            Some(k) => Some(k + 1),
            None => None,
        }
    }
}

/// The index of the first history holding native message `mid` on `p`.
pub open spec fn index_holding(s: Seq<History>, p: Platform, mid: Seq<char>) -> Option<int>
    decreases s.len(),
{
    if s.len() == 0 {
        None
    } else if holds(s[0], p, mid) {
        Some(0)
    } else {
        match index_holding(s.drop_first(), p, mid) {
            Some(k) => Some(k + 1),
            None => None,
        }
    }
}

/// `b` is history `a` with one more native message, `mid` on `p`.
pub open spec fn appended(a: History, b: History, p: Platform, mid: Seq<char>) -> bool {
    &&& b.id == a.id
    &&& b.message@.len() == a.message@.len() + 1
    &&& b.message@.drop_last() == a.message@
    &&& b.message@.last().platform == p
    &&& b.message@.last().message_id@ == mid
}

/// A scan past `i` histories with other ids finds the id at `i`, or none.
proof fn lemma_index_of(s: Seq<History>, id: Seq<char>, i: int)
    requires
        0 <= i <= s.len(),
        forall|k: int| 0 <= k < i ==> #[trigger] s[k].id@ != id,
    ensures
        i < s.len() && s[i].id@ == id ==> index_of(s, id) == Some(i),
        i == s.len() ==> index_of(s, id) is None,
    decreases i,
{
    if i > 0 {
        let t = s.drop_first();
        assert forall|k: int| 0 <= k < i - 1 implies #[trigger] t[k].id@ != id by {
            assert(t[k] == s[k + 1]);
        }
        lemma_index_of(t, id, i - 1);
        if i < s.len() {
            assert(t[i - 1] == s[i]);
        }
    }
}

/// A scan past `i` histories not holding the message finds it at `i`, or
/// none.
proof fn lemma_index_holding(s: Seq<History>, p: Platform, mid: Seq<char>, i: int)
    requires
        0 <= i <= s.len(),
        forall|k: int| 0 <= k < i ==> !holds(#[trigger] s[k], p, mid),
    ensures
        i < s.len() && holds(s[i], p, mid) ==> index_holding(s, p, mid) == Some(i),
        i == s.len() ==> index_holding(s, p, mid) is None,
    decreases i,
{
    if i > 0 {
        let t = s.drop_first();
        assert forall|k: int| 0 <= k < i - 1 implies !holds(#[trigger] t[k], p, mid) by {
            assert(t[k] == s[k + 1]);
        }
        lemma_index_holding(t, p, mid, i - 1);
        if i < s.len() {
            assert(t[i - 1] == s[i]);
        }
    }
}

/// Whether history `h` holds native message `mid` on `p`.
fn holds_exec(h: &History, p: Platform, mid: &str) -> (r: bool)
    ensures
        r == holds(*h, p, mid@),
{
    let n = h.message.len();
    for i in 0..n
        invariant
            n == h.message@.len(),
            forall|k: int|
                0 <= k < i ==> !(#[trigger] h.message@[k].message_id@ == mid@
                    && h.message@[k].platform == p),
    {
        if h.message[i].platform == p && str_eq(mid, &h.message[i].message_id) {
            return true;
        }
    }
    false
}

/// All histories, in memory.
pub struct BridgeMessageHistory {
    list: Vec<History>,
}

impl View for BridgeMessageHistory {
    type V = Seq<History>;

    closed spec fn view(&self) -> Seq<History> {
        self.list@
    }
}

impl BridgeMessageHistory {
    /// The histories `list`.
    pub fn from_list(list: Vec<History>) -> (r: BridgeMessageHistory)
        ensures
            r@ == list@,
    {
        BridgeMessageHistory { list }
    }

    /// All histories, for persisting them.
    pub fn find_all(&self) -> (r: &Vec<History>)
        ensures
            r@ == self@,
    {
        &self.list
    }

    /// Records that bridge message `id` was sent as `message_id` on
    /// `platform`; the same native message twice is an error.
    pub fn insert(&mut self, id: &str, platform: Platform, message_id: &str) -> (r: Result<
        (),
        String,
    >)
        ensures
            match index_of(old(self)@, id@) {
                Some(k) => if holds(old(self)@[k], platform, message_id@) {
                    r is Err && final(self)@ == old(self)@
                } else {
                    &&& r is Ok
                    &&& final(self)@.len() == old(self)@.len()
                    &&& appended(old(self)@[k], final(self)@[k], platform, message_id@)
                    &&& forall|j: int|
                        0 <= j < old(self)@.len() && j != k ==> #[trigger] final(self)@[j] == old(
                            self,
                        )@[j]
                },
                None => {
                    &&& r is Ok
                    &&& final(self)@.len() == old(self)@.len() + 1
                    &&& final(self)@.drop_last() == old(self)@
                    &&& final(self)@.last().id@ == id@
                    &&& final(self)@.last().message@.len() == 1
                    &&& final(self)@.last().message@[0].platform == platform
                    &&& final(self)@.last().message@[0].message_id@ == message_id@
                },
            },
    {
        let ghost s = self@;
        let n = self.list.len();
        let mut idx: usize = n;
        for i in 0..n
            invariant
                n == s.len(),
                s == self.list@,
                idx <= n,
                idx == n ==> forall|k: int| 0 <= k < i ==> #[trigger] s[k].id@ != id@,
                idx < n ==> index_of(s, id@) == Some(idx as int),
        {
            if idx == n && str_eq(id, &self.list[i].id) {
                proof {
                    lemma_index_of(s, id@, i as int);
                }
                idx = i;
            }
        }
        let message = HisotryMessage { platform, message_id: String::from_str(message_id) };
        if idx == n {
            proof {
                lemma_index_of(s, id@, n as int);
            }
            let mut v: Vec<HisotryMessage> = Vec::new();
            v.push(message);
            self.list.push(History { id: String::from_str(id), message: v });
            assert(self@.drop_last() =~= s);
            return Ok(());
        }
        if holds_exec(&self.list[idx], platform, message_id) {
            return Err(String::from_str("插入相同的消息id"));
        }
        let mut h = self.list.remove(idx);
        let ghost before = h;
        h.message.push(message);
        self.list.insert(idx, h);
        proof {
            assert forall|j: int| 0 <= j < s.len() && j != idx as int implies #[trigger] self@[j]
                == s[j] by {}
            assert(self@[idx as int].message@.drop_last() =~= before.message@);
        }
        Ok(())
    }

    /// The first history holding native message `message_id` on `platform`.
    pub fn find_by_message_id(&self, platform: Platform, message_id: &str) -> (r: Option<&History>)
        ensures
            match index_holding(self@, platform, message_id@) {
                Some(k) => r == Some(&self@[k]),
                None => r is None,
            },
    {
        let n = self.list.len();
        for i in 0..n
            invariant
                n == self@.len(),
                self@ == self.list@,
                forall|k: int| 0 <= k < i ==> !holds(#[trigger] self@[k], platform, message_id@),
        {
            if holds_exec(&self.list[i], platform, message_id) {
                proof {
                    lemma_index_holding(self@, platform, message_id@, i as int);
                }
                return Some(&self.list[i]);
            }
        }
        proof {
            lemma_index_holding(self@, platform, message_id@, n as int);
        }
        None
    }
}

} // verus!
