//! What the Discord adapter does with a canonical message before sending
//! it through a webhook, apart from the network.

use vstd::prelude::*;
use crate::message::{chain_view, Image, MessageContent, Segment};
use crate::message_store::{has_message, BridgeMessageManager, BridgeMessagePO};
use crate::mention::{mention_pieces, parse_text_mention_rule, pieces_view, MentionText};
use crate::translate::{
    from_markdown, from_md, md_view, MarkdownAst,
    first_ref, mention_spec, preview_text, quoted, render_at, reply_target, split_lines,
    to_reply_content, MentionRender,
};
use crate::user::{BridgeUser, BridgeUserManager};

verus! {

/// One segment of a message as Discord will carry it.
pub enum DiscordPart {
    /// Text, with the Discord mentions written in it split out.
    Text(Vec<MentionText>),
    /// A native mention of this Discord user id.
    Mention(String),
    /// Text standing for a mention.
    MentionText(String),
    /// A file to attach.
    Attachment(Image),
    /// A reply: the native message it answers, if Discord has one, and the
    /// quoted preview of the message.
    Reply { target: Option<String>, quote: Vec<String> },
    /// A reply whose message is unknown: a quoted placeholder.
    UnknownReply,
    /// Nothing to send.
    Nothing,
}

/// `p` is the Discord part for segment `s`.
pub open spec fn part_for(
    us: Seq<BridgeUser>,
    store: Seq<BridgeMessagePO>,
    s: Segment,
    p: DiscordPart,
) -> bool {
    match s {
        Segment::Plain(t) => p matches DiscordPart::Text(v) && pieces_view(v@) == mention_pieces(
            t,
            0,
        ),
        Segment::At(id) => {
            let m = mention_spec(us, id, "DC"@);
            if m.0 {
                p matches DiscordPart::Mention(x) && x@ == m.1
            } else {
                p matches DiscordPart::MentionText(x) && x@ == m.1
            }
        },
        Segment::ImageUrl(u) => p matches DiscordPart::Attachment(Image::Url(x)) && x@ == u,
        Segment::ImagePath(f) => p matches DiscordPart::Attachment(Image::Path(x)) && x@ == f,
        Segment::ImageBytes(b) => p matches DiscordPart::Attachment(Image::Buff(x)) && x@ == b,
        Segment::Reply(Some(id)) => if has_message(store, id) {
            p matches DiscordPart::Reply { target, quote } && forall|k: int|
                0 <= k < store.len() && #[trigger] store[k].id@ == id ==> {
                    &&& crate::text::opt_view(target) == first_ref(store[k].refs@, "DC"@)
                    &&& quote@.len() == split_lines(preview_text(us, store[k], "DC"@)).len()
                    &&& forall|j: int|
                        0 <= j < quote@.len() ==> #[trigger] quote@[j]@ == quoted(
                            split_lines(preview_text(us, store[k], "DC"@))[j],
                        )
                }
        } else {
            p is UnknownReply
        },
        _ => p is Nothing,
    }
}

/// The Discord parts for a canonical chain, one per segment.
pub fn discord_parts(
    users: &BridgeUserManager,
    store: &BridgeMessageManager,
    chain: &Vec<MessageContent>,
) -> (r: Vec<DiscordPart>)
    requires
        store.wf(),
    ensures
        r@.len() == chain@.len(),
        forall|k: int|
            0 <= k < r@.len() ==> part_for(users@, store@, chain@[k]@, #[trigger] r@[k]),
{
    let mut r: Vec<DiscordPart> = Vec::new();
    let n = chain.len();
    for i in 0..n
        invariant
            n == chain@.len(),
            store.wf(),
            r@.len() == i,
            forall|k: int| 0 <= k < i ==> part_for(users@, store@, chain@[k]@, #[trigger] r@[k]),
    {
        let part = match &chain[i] {
            MessageContent::Plain { text } => DiscordPart::Text(parse_text_mention_rule(text.clone())),
            MessageContent::At { id } => match render_at(users, id.as_str(), "DC") {
                MentionRender::Native(x) => DiscordPart::Mention(x),
                MentionRender::Text(x) => DiscordPart::MentionText(x),
            },
            MessageContent::Image(Image::Url(u)) => DiscordPart::Attachment(Image::Url(u.clone())),
            MessageContent::Image(Image::Path(p)) => DiscordPart::Attachment(Image::Path(p.clone())),
            MessageContent::Image(Image::Buff(b)) => DiscordPart::Attachment(Image::Buff(b.clone())),
            MessageContent::Reply { id: Some(id) } => match store.get(id.as_str()) {
                Some(m) => {
                    proof {
                        assert forall|k: int|
                            0 <= k < store@.len() && #[trigger] store@[k].id@ == id@ implies store@[k]
                            == *m by {
                            let j = choose|j: int| 0 <= j < store@.len() && store@[j] == *m;
                            if j != k {
                                assert(store@[j].id@ != store@[k].id@);
                            }
                        }
                    }
                    DiscordPart::Reply {
                        target: reply_target(store, id.as_str(), "DC"),
                        quote: to_reply_content(users, m, "DC"),
                    }
                },
                None => DiscordPart::UnknownReply,
            },
            _ => DiscordPart::Nothing,
        };
        r.push(part);
    }
    r
}

/// The canonical chain of a received Discord message: its parsed markdown,
/// then each attachment as an image by address.
pub fn inbound_chain(users: &BridgeUserManager, asts: &Vec<MarkdownAst>, attachments: &Vec<String>) -> (r: Vec<MessageContent>)
    ensures
        chain_view(r@) == from_md(users@, md_view(asts@)) + Seq::new(
            attachments@.len(),
            |i: int| Segment::ImageUrl(attachments@[i]@),
        ),
{
    let mut r = from_markdown(users, asts);
    let ghost head = chain_view(r@);
    let n = attachments.len();
    for i in 0..n
        invariant
            n == attachments@.len(),
            chain_view(r@) == head + Seq::new(i as nat, |k: int| Segment::ImageUrl(attachments@[k]@)),
    {
        let ghost before = r@;
        r.push(MessageContent::Image(Image::Url(attachments[i].clone())));
        assert(chain_view(r@) =~= chain_view(before).push(Segment::ImageUrl(attachments@[i as int]@)));
        assert(Seq::new((i + 1) as nat, |k: int| Segment::ImageUrl(attachments@[k]@)) =~= Seq::new(
            i as nat,
            |k: int| Segment::ImageUrl(attachments@[k]@),
        ).push(Segment::ImageUrl(attachments@[i as int]@)));
        assert(chain_view(r@) =~= head + Seq::new((i + 1) as nat, |k: int| Segment::ImageUrl(attachments@[k]@)));
    }
    assert(Seq::new(n as nat, |k: int| Segment::ImageUrl(attachments@[k]@)) =~= Seq::new(
        attachments@.len(),
        |i: int| Segment::ImageUrl(attachments@[i]@),
    ));
    r
}

} // verus!
