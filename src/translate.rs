//! Translation between canonical messages and what platforms carry:
//! mentions, replies, quoted previews and Discord's parsed markdown.

use vstd::prelude::*;
use crate::message::{chain_view, Image, MessageContent, Segment};
use crate::message_store::{matching, BridgeMessageManager, BridgeMessagePO, BridgeMessageRefPO};
use crate::text::{push_char, str_eq};
use crate::user::{
    by_account, by_counterpart, by_id, first_match, ref_of, BridgeUser, BridgeUserManager,
};

verus! {

/// One node of a Discord message as the markdown parser returns it.
pub enum MarkdownAst {
    /// Text.
    Plain { text: String },
    /// A mention written as text.
    At { username: String },
    /// A mention of a Discord user by id.
    DiscordAtUser { id: String },
    /// `@everyone`.
    DiscordAtEveryone,
    /// `@here`.
    DiscordAtHere,
    /// A custom emoji.
    DiscordEmoji { id: String, name: String, animated: bool },
}

/// The mathematical content of a markdown node.
pub enum MdNode {
    Plain(Seq<char>),
    At(Seq<char>),
    AtUser(Seq<char>),
    Everyone,
    Here,
    Emoji(Seq<char>, Seq<char>, bool),
}

impl View for MarkdownAst {
    type V = MdNode;

    open spec fn view(&self) -> MdNode {
        match self {
            MarkdownAst::Plain { text } => MdNode::Plain(text@),
            MarkdownAst::At { username } => MdNode::At(username@),
            MarkdownAst::DiscordAtUser { id } => MdNode::AtUser(id@),
            MarkdownAst::DiscordAtEveryone => MdNode::Everyone,
            MarkdownAst::DiscordAtHere => MdNode::Here,
            MarkdownAst::DiscordEmoji { id, name, animated } => MdNode::Emoji(id@, name@, *animated),
        }
    }
}

/// The contents of a sequence of markdown nodes.
pub open spec fn md_view(v: Seq<MarkdownAst>) -> Seq<MdNode> {
    Seq::new(v.len(), |i: int| v[i]@)
}

/// Where Discord serves a custom emoji.
pub open spec fn emoji_url(id: Seq<char>, animated: bool) -> Seq<char> {
    "https://cdn.discordapp.com/emojis/"@ + id + "."@ + if animated {
        "gif"@
    } else {
        "png"@
    }
}

/// The canonical segment for a markdown node; a Discord user mention
/// becomes a mention of the bridge user for that account when there is one.
pub open spec fn node_segment(us: Seq<BridgeUser>, n: MdNode) -> Segment {
    match n {
        MdNode::Plain(t) => Segment::Plain(t),
        MdNode::At(name) => Segment::Plain(name),
        MdNode::AtUser(id) => match first_match(us, by_account(id, "DC"@)) {
            Some(u) => Segment::At(u.id@),
            None => Segment::Plain("@"@ + id),
        },
        MdNode::Everyone => Segment::AtAll,
        MdNode::Here => Segment::AtAll,
        MdNode::Emoji(id, _, animated) => Segment::ImageUrl(emoji_url(id, animated)),
    }
}

/// The canonical chain for parsed markdown.
pub open spec fn from_md(us: Seq<BridgeUser>, ns: Seq<MdNode>) -> Seq<Segment> {
    Seq::new(ns.len(), |i: int| node_segment(us, ns[i]))
}

/// The markdown node for a segment, when markdown can carry it.
pub open spec fn segment_node(s: Segment) -> Option<MdNode> {
    match s {
        Segment::Plain(t) => Some(MdNode::Plain(t)),
        Segment::AtAll => Some(MdNode::Everyone),
        Segment::At(id) => Some(MdNode::At(id)),
        _ => None,
    }
}

/// The markdown for a canonical chain; segments markdown cannot carry are
/// left out.
pub open spec fn to_md(c: Seq<Segment>) -> Seq<MdNode>
    decreases c.len(),
{
    if c.len() == 0 {
        Seq::empty()
    } else {
        match segment_node(c.last()) {
            Some(n) => to_md(c.drop_last()).push(n),
            None => to_md(c.drop_last()),
        }
    }
}

/// `ns` without a final node that is a lone line break.
pub open spec fn strip_newline(ns: Seq<MdNode>) -> Seq<MdNode> {
    if ns.len() > 0 && ns.last() == MdNode::Plain(seq!['\n']) {
        ns.drop_last()
    } else {
        ns
    }
}

/// The segment a reply to the native message `origin` on `platform`
/// becomes: a reply to the one bridge message that holds it, else a
/// quoted placeholder.
pub open spec fn reply_segment(s: Seq<BridgeMessagePO>, origin: Seq<char>, platform: Seq<char>) -> Segment {
    if matching(s, origin, platform).len() == 1 {
        Segment::Reply(Some(matching(s, origin, platform)[0].id@))
    } else {
        Segment::Plain(REPLY_PLACEHOLDER@)
    }
}

/// The placeholder for a reply whose target is unknown or ambiguous.
pub const REPLY_PLACEHOLDER: &'static str = "> {回复消息}\n";

/// How a mention of a bridge user is sent on a platform.
pub enum MentionRender {
    /// A native mention of this platform id.
    Native(String),
    /// Text.
    Text(String),
}

/// How a mention of bridge user `target` is sent on `platform`: natively
/// when the user is linked to an account there, else as `@` and the
/// display text (`@[UN] ` and the id for an unknown user).
pub open spec fn mention_spec(us: Seq<BridgeUser>, target: Seq<char>, platform: Seq<char>) -> (
    bool,
    Seq<char>,
) {
    match first_match(us, by_id(target)) {
        None => (false, "@[UN] "@ + target),
        Some(u) => if ref_of(u) is Some && first_match(
            us,
            by_counterpart(ref_of(u)->0, platform),
        ) is Some {
            (true, first_match(us, by_counterpart(ref_of(u)->0, platform))->0.origin_id@)
        } else {
            (false, "@"@ + u.display_text@)
        },
    }
}

/// The text a mention takes in a quoted preview.
pub open spec fn mention_text(us: Seq<BridgeUser>, target: Seq<char>, platform: Seq<char>) -> Seq<
    char,
> {
    match first_match(us, by_id(target)) {
        None => "@[UN] "@ + target,
        Some(u) => if ref_of(u) is Some && first_match(
            us,
            by_counterpart(ref_of(u)->0, platform),
        ) is Some {
            "@"@ + first_match(us, by_counterpart(ref_of(u)->0, platform))->0.display_text@
        } else {
            "@"@ + u.display_text@
        },
    }
}

/// The text a segment takes in a quoted preview.
pub open spec fn segment_text(us: Seq<BridgeUser>, s: Segment, platform: Seq<char>) -> Seq<char> {
    match s {
        Segment::Plain(t) => t,
        Segment::ImageUrl(_) => "[图片]"@,
        Segment::ImagePath(_) => "[图片]"@,
        Segment::ImageBytes(_) => "[图片]"@,
        Segment::Reply(_) => "[回复消息]"@,
        Segment::At(id) => mention_text(us, id, platform),
        _ => Seq::empty(),
    }
}

/// The text of a chain in a quoted preview.
pub open spec fn chain_text(us: Seq<BridgeUser>, c: Seq<Segment>, platform: Seq<char>) -> Seq<char>
    decreases c.len(),
{
    if c.len() == 0 {
        Seq::empty()
    } else {
        chain_text(us, c.drop_last(), platform) + segment_text(us, c.last(), platform)
    }
}

/// The label of a message's sender in a quoted preview.
pub open spec fn sender_label(us: Seq<BridgeUser>, sender: Seq<char>) -> Seq<char> {
    match first_match(us, by_id(sender)) {
        Some(u) => u.display_text@,
        None => "[UN] "@ + sender,
    }
}

/// The text of the preview of a replied-to message.
pub open spec fn preview_text(us: Seq<BridgeUser>, m: BridgeMessagePO, platform: Seq<char>) -> Seq<
    char,
> {
    "回复 @"@ + sender_label(us, m.sender_id@) + " 的消息\n"@ + chain_text(
        us,
        chain_view(m.message_chain@),
        platform,
    )
}

/// The lines of `s` read so far, and the line being read.
pub open spec fn lines_state(s: Seq<char>) -> (Seq<Seq<char>>, Seq<char>)
    decreases s.len(),
{
    if s.len() == 0 {
        (Seq::empty(), Seq::empty())
    } else {
        let (d, c) = lines_state(s.drop_last());
        if s.last() == '\n' {
            (d.push(c), Seq::empty())
        } else {
            (d, c.push(s.last()))
        }
    }
}

/// The pieces of `s` between line breaks; `n` breaks give `n + 1` pieces.
pub open spec fn split_lines(s: Seq<char>) -> Seq<Seq<char>> {
    lines_state(s).0.push(lines_state(s).1)
}

/// A piece of text as a quoted line.
pub open spec fn quoted(line: Seq<char>) -> Seq<char> {
    "> "@ + line + "\n"@
}

/// The native id on `platform` among a record's native copies.
pub open spec fn first_ref(refs: Seq<BridgeMessageRefPO>, platform: Seq<char>) -> Option<Seq<char>>
    decreases refs.len(),
{
    if refs.len() == 0 {
        None
    } else if refs[0].platform@ == platform {
        Some(refs[0].origin_id@)
    } else {
        first_ref(refs.drop_first(), platform)
    }
}

/// Removes a final lone line break twice, as the markdown parser leaves
/// them at the end of a message.
pub fn strip_trailing_newlines(v: Vec<MarkdownAst>) -> (r: Vec<MarkdownAst>)
    ensures
        md_view(r@) == strip_newline(strip_newline(md_view(v@))),
{
    let mut v = v;
    strip_one(&mut v);
    strip_one(&mut v);
    v
}

/// Removes a final lone line break.
fn strip_one(v: &mut Vec<MarkdownAst>)
    ensures
        md_view(final(v)@) == strip_newline(md_view(old(v)@)),
{
    let n = v.len();
    if n == 0 {
        return;
    }
    let is_break = match &v[n - 1] {
        MarkdownAst::Plain { text } => str_eq("\n", text),
        _ => false,
    };
    proof {
        reveal_strlit("\n");
        assert("\n"@ =~= seq!['\n']);
        assert(md_view(v@).last() == v@[n - 1]@);
    }
    if is_break {
        let ghost before = v@;
        v.pop();
        assert(md_view(v@) =~= md_view(before).drop_last());
    } else {
        assert(md_view(v@).last() != MdNode::Plain(seq!['\n']));
    }
}

/// Builds `a` followed by `b`.
fn concat(a: &str, b: &str) -> (r: String)
    ensures
        r@ == a@ + b@,
{
    let mut s = String::from_str(a);
    s.append(b);
    s
}

/// The canonical chain for parsed Discord markdown.
pub fn from_markdown(users: &BridgeUserManager, asts: &Vec<MarkdownAst>) -> (r: Vec<
    MessageContent,
>)
    ensures
        chain_view(r@) == from_md(users@, md_view(asts@)),
{
    let mut r: Vec<MessageContent> = Vec::new();
    let n = asts.len();
    for i in 0..n
        invariant
            n == asts@.len(),
            r@.len() == i,
            forall|k: int| 0 <= k < i ==> #[trigger] r@[k]@ == node_segment(users@, asts@[k]@),
    {
        let seg = match &asts[i] {
            MarkdownAst::Plain { text } => MessageContent::Plain { text: text.clone() },
            MarkdownAst::At { username } => MessageContent::Plain { text: username.clone() },
            MarkdownAst::DiscordAtUser { id } => match users.like(id.as_str(), "DC") {
                Some(u) => MessageContent::At { id: u.id.clone() },
                None => MessageContent::Plain { text: concat("@", id.as_str()) },
            },
            MarkdownAst::DiscordAtEveryone => MessageContent::AtAll,
            MarkdownAst::DiscordAtHere => MessageContent::AtAll,
            MarkdownAst::DiscordEmoji { id, animated, .. } => {
                let mut u = concat("https://cdn.discordapp.com/emojis/", id.as_str());
                u.append(".");
                if *animated {
                    u.append("gif");
                } else {
                    u.append("png");
                }
                MessageContent::Image(Image::Url(u))
            },
        };
        r.push(seg);
    }
    assert(chain_view(r@) =~= from_md(users@, md_view(asts@)));
    r
}

/// The markdown for a canonical chain; replies, images, error segments and
/// unknown segments are left out.
pub fn to_markdown(chain: &Vec<MessageContent>) -> (r: Vec<MarkdownAst>)
    ensures
        md_view(r@) == to_md(chain_view(chain@)),
{
    let mut r: Vec<MarkdownAst> = Vec::new();
    let n = chain.len();
    for i in 0..n
        invariant
            n == chain@.len(),
            md_view(r@) == to_md(chain_view(chain@).take(i as int)),
    {
        let ghost c = chain_view(chain@);
        assert(c.take(i + 1).drop_last() =~= c.take(i as int));
        assert(c.take(i + 1).last() == chain@[i as int]@);
        let ghost before = r@;
        match &chain[i] {
            MessageContent::Plain { text } => r.push(MarkdownAst::Plain { text: text.clone() }),
            MessageContent::AtAll => r.push(MarkdownAst::DiscordAtEveryone),
            MessageContent::At { id } => r.push(MarkdownAst::At { username: id.clone() }),
            _ => {},
        }
        assert(md_view(r@) =~= to_md(c.take(i + 1)));
    }
    assert(chain_view(chain@).take(n as int) =~= chain_view(chain@));
    r
}

/// A chain of plain text and mentions of everyone.
pub open spec fn plain_or_at_all(c: Seq<Segment>) -> bool {
    forall|i: int| 0 <= i < c.len() ==> (#[trigger] c[i] is Plain || c[i] is AtAll)
}

/// A chain of plain text and mentions of everyone survives a trip to
/// markdown and back unchanged.
pub proof fn lemma_markdown_round_trip(us: Seq<BridgeUser>, c: Seq<Segment>)
    requires
        plain_or_at_all(c),
    ensures
        from_md(us, to_md(c)) == c,
    decreases c.len(),
{
    if c.len() > 0 {
        let t = c.drop_last();
        assert(plain_or_at_all(t)) by {
            assert forall|i: int| 0 <= i < t.len() implies (#[trigger] t[i] is Plain || t[i] is AtAll) by {
                assert(t[i] == c[i]);
            }
        }
        lemma_markdown_round_trip(us, t);
        assert(c.last() == c[c.len() - 1]);
        assert(from_md(us, to_md(c)) =~= c) by {
            assert(from_md(us, to_md(c)) =~= from_md(us, to_md(t)).push(c.last()));
        }
    }
}

/// Going from a platform to canonical form and back twice gives, the
/// second time, the canonical chain of the first.
pub proof fn lemma_markdown_stable(us: Seq<BridgeUser>, ns: Seq<MdNode>)
    requires
        plain_or_at_all(from_md(us, ns)),
    ensures
        from_md(us, to_md(from_md(us, ns))) == from_md(us, ns),
{
    lemma_markdown_round_trip(us, from_md(us, ns));
}

/// How a mention of bridge user `target_id` is sent on `platform`.
pub fn render_at(users: &BridgeUserManager, target_id: &str, platform: &str) -> (r: MentionRender)
    ensures
        match r {
            MentionRender::Native(s) => mention_spec(users@, target_id@, platform@) == (true, s@),
            MentionRender::Text(s) => mention_spec(users@, target_id@, platform@) == (false, s@),
        },
{
    let u = match users.get(target_id) {
        Some(u) => u,
        None => {
            return MentionRender::Text(concat("@[UN] ", target_id));
        },
    };
    match &u.ref_id {
        Some(ref_id) => match users.findByRefAndPlatform(ref_id.as_str(), platform) {
            Some(t) => {
                return MentionRender::Native(t.origin_id.clone());
            },
            None => {},
        },
        None => {},
    }
    MentionRender::Text(concat("@", u.display_text.as_str()))
}

/// The segment that a reply to the native message `native_id` on
/// `platform` becomes.
pub fn resolve_reply(store: &BridgeMessageManager, native_id: &str, platform: &str) -> (r:
    MessageContent)
    ensures
        r@ == reply_segment(store@, native_id@, platform@),
{
    match store.find_by_ref_and_platform(native_id, platform) {
        Ok(Some(m)) => {
            assert(matching(store@, native_id@, platform@)[0] == *m);
            MessageContent::Reply { id: Some(m.id.clone()) }
        },
        _ => MessageContent::Plain { text: String::from_str(REPLY_PLACEHOLDER) },
    }
}

/// The native id on `platform` of the bridge message `bridge_id`, for a
/// native reply.
pub fn reply_target(store: &BridgeMessageManager, bridge_id: &str, platform: &str) -> (r: Option<
    String,
>)
    requires
        store.wf(),
    ensures
        !crate::message_store::has_message(store@, bridge_id@) ==> r is None,
        forall|k: int|
            0 <= k < store@.len() && #[trigger] store@[k].id@ == bridge_id@ ==> crate::text::opt_view(
                r,
            ) == first_ref(store@[k].refs@, platform@),
{
    let m = match store.get(bridge_id) {
        Some(m) => m,
        None => {
            return None;
        },
    };
    assert forall|k: int| 0 <= k < store@.len() && #[trigger] store@[k].id@ == bridge_id@ implies store@[k] == *m by {
        let j = choose|j: int| 0 <= j < store@.len() && store@[j] == *m;
        if j != k {
            assert(store@[j].id@ != store@[k].id@);
        }
    }
    let n = m.refs.len();
    assert(m.refs@.skip(0) =~= m.refs@);
    for i in 0..n
        invariant
            n == m.refs@.len(),
            first_ref(m.refs@, platform@) == first_ref(m.refs@.skip(i as int), platform@),
            crate::message_store::has_message(store@, bridge_id@),
            forall|k: int| 0 <= k < store@.len() && #[trigger] store@[k].id@ == bridge_id@ ==> store@[k] == *m,
    {
        assert(m.refs@.skip(i as int).drop_first() =~= m.refs@.skip(i + 1));
        if str_eq(platform, &m.refs[i].platform) {
            return Some(m.refs[i].origin_id.clone());
        }
    }
    None
}

/// The quoted preview of a replied-to message, line by line, for a platform
/// with no native reply to it.
pub fn to_reply_content(users: &BridgeUserManager, reply: &BridgeMessagePO, platform: &str) -> (r:
    Vec<String>)
    ensures
        r@.len() == split_lines(preview_text(users@, *reply, platform@)).len(),
        forall|k: int|
            0 <= k < r@.len() ==> #[trigger] r@[k]@ == quoted(
                split_lines(preview_text(users@, *reply, platform@))[k],
            ),
{
    let mut content = String::from_str("回复 @");
    match users.get(reply.sender_id.as_str()) {
        Some(u) => content.append(u.display_text.as_str()),
        None => {
            content.append("[UN] ");
            content.append(reply.sender_id.as_str());
            assert(content@ =~= "回复 @"@ + ("[UN] "@ + reply.sender_id@));
        },
    }
    content.append(" 的消息\n");
    let ghost head = content@;
    assert(head == "回复 @"@ + sender_label(users@, reply.sender_id@) + " 的消息\n"@);
    let n = reply.message_chain.len();
    for i in 0..n
        invariant
            n == reply.message_chain@.len(),
            content@ == head + chain_text(
                users@,
                chain_view(reply.message_chain@).take(i as int),
                platform@,
            ),
    {
        let ghost c = chain_view(reply.message_chain@);
        assert(c.take(i + 1).drop_last() =~= c.take(i as int));
        assert(c.take(i + 1).last() == reply.message_chain@[i as int]@);
        match &reply.message_chain[i] {
            MessageContent::Plain { text } => content.append(text.as_str()),
            MessageContent::Image(_) => content.append("[图片]"),
            MessageContent::Reply { .. } => content.append("[回复消息]"),
            MessageContent::At { id } => {
                let t = mention_label(users, id.as_str(), platform);
                content.append(t.as_str());
            },
            _ => {},
        }
        assert(content@ =~= head + chain_text(users@, c.take(i + 1), platform@));
    }
    assert(chain_view(reply.message_chain@).take(n as int) =~= chain_view(reply.message_chain@));
    assert(content@ == preview_text(users@, *reply, platform@));
    quote_lines(&content)
}

/// The text a mention takes in a quoted preview.
pub(crate) fn mention_label(users: &BridgeUserManager, target_id: &str, platform: &str) -> (r: String)
    ensures
        r@ == mention_text(users@, target_id@, platform@),
{
    let u = match users.get(target_id) {
        Some(u) => u,
        None => {
            return concat("@[UN] ", target_id);
        },
    };
    match &u.ref_id {
        Some(ref_id) => match users.findByRefAndPlatform(ref_id.as_str(), platform) {
            Some(t) => {
                return concat("@", t.display_text.as_str());
            },
            None => {},
        },
        None => {},
    }
    concat("@", u.display_text.as_str())
}

/// Each piece of `s` between line breaks, as a quoted line.
pub fn quote_lines(s: &String) -> (r: Vec<String>)
    ensures
        r@.len() == split_lines(s@).len(),
        forall|k: int| 0 <= k < r@.len() ==> #[trigger] r@[k]@ == quoted(split_lines(s@)[k]),
{
    let cs = crate::text::chars_of(s.as_str());
    let mut done: Vec<String> = Vec::new();
    let mut cur = String::new();
    let n = cs.len();
    assert(cs@.take(0) =~= Seq::<char>::empty());
    for i in 0..n
        invariant
            n == cs@.len(),
            cs@ == s@,
            done@.len() == lines_state(cs@.take(i as int)).0.len(),
            forall|k: int| 0 <= k < done@.len() ==> #[trigger] done@[k]@ == quoted(
                lines_state(cs@.take(i as int)).0[k],
            ),
            cur@ == lines_state(cs@.take(i as int)).1,
    {
        assert(cs@.take(i + 1).drop_last() =~= cs@.take(i as int));
        let c = cs[i];
        if c == '\n' {
            let mut line = String::from_str("> ");
            line.append(cur.as_str());
            line.append("\n");
            done.push(line);
            cur = String::new();
        } else {
            push_char(&mut cur, c);
        }
    }
    assert(cs@.take(n as int) =~= cs@);
    let mut line = String::from_str("> ");
    line.append(cur.as_str());
    line.append("\n");
    done.push(line);
    done
}

} // verus!
