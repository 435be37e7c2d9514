//! The bus registry: which adapters are registered, and which of them a
//! published message goes to.

use vstd::prelude::*;
use crate::config::BridgeConfig;
use crate::platform::BridgeClientPlatform;
use crate::text::str_eq;

verus! {

/// A registered adapter: its unique name and its platform.
pub struct ClientEntry {
    pub name: String,
    pub platform: BridgeClientPlatform,
}

/// Whether adapters on platform `p` take part in the channel mapping `c`:
/// the mapping is enabled and names a group there (the command adapter
/// takes part in every enabled mapping).
pub open spec fn participates(c: BridgeConfig, p: BridgeClientPlatform) -> bool {
    c.enable && match p {
        BridgeClientPlatform::Discord => c.discord.channel_id != 0,
        BridgeClientPlatform::QQ => c.qq_group != 0,
        BridgeClientPlatform::Telegram => c.tg_group != 0,
        BridgeClientPlatform::Cmd => true,
    }
}

/// The names, in registration order, of the adapters that a message
/// published by `sender` on mapping `c` goes to.
pub open spec fn fanout(s: Seq<ClientEntry>, sender: Seq<char>, c: BridgeConfig) -> Seq<Seq<char>>
    decreases s.len(),
{
    if s.len() == 0 {
        Seq::empty()
    } else {
        let rest = fanout(s.drop_last(), sender, c);
        if s.last().name@ != sender && participates(c, s.last().platform) {
            rest.push(s.last().name@)
        } else {
            rest
        }
    }
}

/// How often `x` occurs in `s`.
pub open spec fn count(s: Seq<Seq<char>>, x: Seq<char>) -> nat
    decreases s.len(),
{
    if s.len() == 0 {
        0
    } else {
        count(s.drop_last(), x) + if s.last() == x {
            1nat
        } else {
            0nat
        }
    }
}

/// Adapter names are unique.
pub open spec fn names_unique(s: Seq<ClientEntry>) -> bool {
    forall|i: int, j: int|
        0 <= i < s.len() && 0 <= j < s.len() && i != j ==> #[trigger] s[i].name@ != #[trigger] s[j].name@
}

/// The registered adapters.
pub struct BridgeService {
    clients: Vec<ClientEntry>,
}

impl View for BridgeService {
    type V = Seq<ClientEntry>;

    closed spec fn view(&self) -> Seq<ClientEntry> {
        self.clients@
    }
}

impl BridgeService {
    /// The registry's invariant holds.
    pub open spec fn wf(&self) -> bool {
        names_unique(self@)
    }

    /// No adapters.
    pub fn new() -> (r: BridgeService)
        ensures
            r@ == Seq::<ClientEntry>::empty(),
            r.wf(),
    {
        BridgeService { clients: Vec::new() }
    }

    /// Registers an adapter; a name registered already is refused.
    pub fn create_client(&mut self, name: &str, platform: BridgeClientPlatform) -> (r: Result<
        (),
        String,
    >)
        requires
            old(self).wf(),
        ensures
            final(self).wf(),
            r is Err <==> exists|k: int| 0 <= k < old(self)@.len() && #[trigger] old(self)@[k].name@ == name@,
            r is Ok ==> final(self)@.len() == old(self)@.len() + 1 && final(self)@.drop_last()
                == old(self)@ && final(self)@.last().name@ == name@ && final(self)@.last().platform
                == platform,
            r is Err ==> final(self)@ == old(self)@,
    {
        let n = self.clients.len();
        for i in 0..n
            invariant
                n == self@.len(),
                self@ == self.clients@,
                names_unique(self@),
                forall|k: int| 0 <= k < i ==> #[trigger] self@[k].name@ != name@,
        {
            if str_eq(name, &self.clients[i].name) {
                return Err(String::from_str("a client of that name is registered already"));
            }
        }
        let ghost s = self@;
        self.clients.push(ClientEntry { name: String::from_str(name), platform });
        proof {
            assert(self@.drop_last() =~= s);
            assert forall|i: int, j: int|
                0 <= i < self@.len() && 0 <= j < self@.len() && i != j implies #[trigger] self@[i].name@
                != #[trigger] self@[j].name@ by {
                if i < s.len() {
                    assert(self@[i] == s[i]);
                }
                if j < s.len() {
                    assert(self@[j] == s[j]);
                }
            }
        }
        Ok(())
    }

    /// The names of the adapters that a message published by `sender` on
    /// mapping `config` goes to: every other registered adapter whose
    /// platform takes part in the mapping.
    pub fn recipients(&self, sender: &str, config: &BridgeConfig) -> (r: Vec<String>)
        ensures
            r@.len() == fanout(self@, sender@, *config).len(),
            forall|k: int| 0 <= k < r@.len() ==> #[trigger] r@[k]@ == fanout(
                self@,
                sender@,
                *config,
            )[k],
    {
        let mut r: Vec<String> = Vec::new();
        let n = self.clients.len();
        for i in 0..n
            invariant
                n == self@.len(),
                self@ == self.clients@,
                r@.len() == fanout(self@.take(i as int), sender@, *config).len(),
                forall|k: int| 0 <= k < r@.len() ==> #[trigger] r@[k]@ == fanout(
                    self@.take(i as int),
                    sender@,
                    *config,
                )[k],
        {
            assert(self@.take(i + 1).drop_last() =~= self@.take(i as int));
            let c = &self.clients[i];
            let takes_part = config.enable && match c.platform {
                BridgeClientPlatform::Discord => config.discord.channel_id != 0,
                BridgeClientPlatform::QQ => config.qq_group != 0,
                BridgeClientPlatform::Telegram => config.tg_group != 0,
                BridgeClientPlatform::Cmd => true,
            };
            if !str_eq(sender, &c.name) && takes_part {
                r.push(c.name.clone());
            }
        }
        assert(self@.take(n as int) =~= self@);
        r
    }

    /// Where the feedback to a command sent through `sender` goes: back to
    /// that adapter, when it is registered.
    pub fn feedback_recipients(&self, sender: &str) -> (r: Vec<String>)
        ensures
            (exists|k: int| 0 <= k < self@.len() && #[trigger] self@[k].name@ == sender@) ==> r@.len()
                == 1 && r@[0]@ == sender@,
            !(exists|k: int| 0 <= k < self@.len() && #[trigger] self@[k].name@ == sender@) ==> r@.len()
                == 0,
    {
        let mut r: Vec<String> = Vec::new();
        let n = self.clients.len();
        for i in 0..n
            invariant
                n == self@.len(),
                self@ == self.clients@,
                forall|k: int| 0 <= k < i ==> #[trigger] self@[k].name@ != sender@,
                r@.len() == 0,
        {
            if str_eq(sender, &self.clients[i].name) {
                r.push(String::from_str(sender));
                return r;
            }
        }
        r
    }
}

/// A published message reaches every other adapter that takes part in its
/// mapping exactly once, and no other adapter, the sender included.
pub proof fn lemma_fanout_exactly_once(
    s: Seq<ClientEntry>,
    sender: Seq<char>,
    c: BridgeConfig,
    b: int,
)
    requires
        names_unique(s),
        0 <= b < s.len(),
    ensures
        count(fanout(s, sender, c), s[b].name@) == if s[b].name@ != sender && participates(
            c,
            s[b].platform,
        ) {
            1nat
        } else {
            0nat
        },
        count(fanout(s, sender, c), sender) == 0,
    decreases s.len(),
{
    lemma_fanout_absent(s, sender, c, sender);
    let t = s.drop_last();
    assert(names_unique(t)) by {
        assert forall|i: int, j: int|
            0 <= i < t.len() && 0 <= j < t.len() && i != j implies #[trigger] t[i].name@
            != #[trigger] t[j].name@ by {
            assert(t[i] == s[i] && t[j] == s[j]);
        }
    }
    lemma_count_push(fanout(t, sender, c), s.last().name@, s[b].name@);
    if b < s.len() - 1 {
        lemma_fanout_exactly_once(t, sender, c, b);
        assert(t[b] == s[b]);
        assert(s[s.len() - 1].name@ != s[b].name@);
    } else {
        assert forall|k: int| 0 <= k < t.len() implies #[trigger] t[k].name@ != s[b].name@ by {
            assert(t[k] == s[k]);
        }
        lemma_fanout_absent(t, sender, c, s[b].name@);
    }
}

/// Counting over a sequence with one more element.
proof fn lemma_count_push(s: Seq<Seq<char>>, y: Seq<char>, x: Seq<char>)
    ensures
        count(s.push(y), x) == count(s, x) + if y == x {
            1nat
        } else {
            0nat
        },
{
    assert(s.push(y).drop_last() =~= s);
}

/// A name that no adapter other than the sender has never appears in the
/// fan-out.
proof fn lemma_fanout_absent(s: Seq<ClientEntry>, sender: Seq<char>, c: BridgeConfig, x: Seq<char>)
    requires
        x == sender || forall|k: int| 0 <= k < s.len() ==> #[trigger] s[k].name@ != x,
    ensures
        count(fanout(s, sender, c), x) == 0,
    decreases s.len(),
{
    if s.len() > 0 {
        let t = s.drop_last();
        assert forall|k: int| x != sender && 0 <= k < t.len() implies #[trigger] t[k].name@ != x by {
            assert(t[k] == s[k]);
        }
        lemma_fanout_absent(t, sender, c, x);
        assert(s.last() == s[s.len() - 1]);
        lemma_count_push(fanout(t, sender, c), s.last().name@, x);
    }
}

} // verus!
