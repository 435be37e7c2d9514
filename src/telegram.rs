//! What the Telegram adapter does with messages, apart from the network:
//! the canonical chain of a received message, and for a message to send one
//! text message and the images one by one.

use vstd::prelude::*;
use crate::message::{chain_view, Image, MessageContent, Segment};
use crate::text::{push_char, string_of_range};
use crate::translate::{mention_label, mention_text};
use crate::user::{BridgeUser, BridgeUserManager};

verus! {

/// The text of a chain, joined: plain text as it is, and each mention as
/// text (`@` and the display text of the user's Telegram account, else of
/// the user).
pub open spec fn joined_text(us: Seq<BridgeUser>, c: Seq<Segment>) -> Seq<char>
    decreases c.len(),
{
    if c.len() == 0 {
        Seq::empty()
    } else {
        joined_text(us, c.drop_last()) + match c.last() {
            Segment::Plain(t) => t,
            Segment::At(id) => mention_text(us, id, "TG"@),
            _ => Seq::empty(),
        }
    }
}

/// The text message for a chain sent by `sender`: its label, ` : ` and
/// the chain's joined text; none when the chain has no text.
pub fn tg_text(users: &BridgeUserManager, sender: &BridgeUser, chain: &Vec<MessageContent>) -> (r:
    Option<String>)
    ensures
        joined_text(users@, chain_view(chain@)).len() == 0 ==> r is None,
        joined_text(users@, chain_view(chain@)).len() > 0 ==> (r matches Some(t) && t@ == seq![
            '[',
        ] + sender.platform@ + seq![']', ' '] + sender.display_text@ + " : "@ + joined_text(
            users@,
            chain_view(chain@),
        )),
{
    let mut text = String::new();
    let n = chain.len();
    for i in 0..n
        invariant
            n == chain@.len(),
            text@ == joined_text(users@, chain_view(chain@).take(i as int)),
    {
        let ghost c = chain_view(chain@);
        assert(c.take(i + 1).drop_last() =~= c.take(i as int));
        assert(c.take(i + 1).last() == chain@[i as int]@);
        match &chain[i] {
            MessageContent::Plain { text: t } => text.append(t.as_str()),
            MessageContent::At { id } => {
                let m = mention_label(users, id.as_str(), "TG");
                text.append(m.as_str());
            },
            _ => {
                assert(text@ =~= text@ + Seq::<char>::empty());
            },
        }
    }
    assert(chain_view(chain@).take(n as int) =~= chain_view(chain@));
    if text.as_str().unicode_len() == 0 {
        return None;
    }
    let mut r = sender.to_string();
    r.append(" : ");
    r.append(text.as_str());
    Some(r)
}

/// The images of a chain, in order.
pub open spec fn images(c: Seq<Segment>) -> Seq<Segment>
    decreases c.len(),
{
    if c.len() == 0 {
        Seq::empty()
    } else {
        let rest = images(c.drop_last());
        match c.last() {
            Segment::ImageUrl(_) => rest.push(c.last()),
            Segment::ImagePath(_) => rest.push(c.last()),
            Segment::ImageBytes(_) => rest.push(c.last()),
            _ => rest,
        }
    }
}

/// The image of a segment, as a segment.
pub open spec fn image_view(i: Image) -> Segment {
    match i {
        Image::Url(u) => Segment::ImageUrl(u@),
        Image::Path(p) => Segment::ImagePath(p@),
        Image::Buff(b) => Segment::ImageBytes(b@),
    }
}

/// The images of a chain, each to be sent as a photo.
pub fn tg_images(chain: &Vec<MessageContent>) -> (r: Vec<Image>)
    ensures
        r@.len() == images(chain_view(chain@)).len(),
        forall|k: int| 0 <= k < r@.len() ==> image_view(#[trigger] r@[k]) == images(
            chain_view(chain@),
        )[k],
{
    let mut r: Vec<Image> = Vec::new();
    let n = chain.len();
    for i in 0..n
        invariant
            n == chain@.len(),
            r@.len() == images(chain_view(chain@).take(i as int)).len(),
            forall|k: int| 0 <= k < r@.len() ==> image_view(#[trigger] r@[k]) == images(
                chain_view(chain@).take(i as int),
            )[k],
    {
        let ghost c = chain_view(chain@);
        assert(c.take(i + 1).drop_last() =~= c.take(i as int));
        assert(c.take(i + 1).last() == chain@[i as int]@);
        match &chain[i] {
            MessageContent::Image(Image::Url(u)) => r.push(Image::Url(u.clone())),
            MessageContent::Image(Image::Path(p)) => r.push(Image::Path(p.clone())),
            MessageContent::Image(Image::Buff(b)) => r.push(Image::Buff(b.clone())),
            _ => {},
        }
    }
    assert(chain_view(chain@).take(n as int) =~= chain_view(chain@));
    r
}

/// A formatting entity of a received Telegram message; offsets and lengths
/// count characters of the message text.
#[derive(PartialEq, Eq, Debug, Clone, Copy, Structural)]
pub enum TgEntity {
    /// A mention by user name, written in the text.
    Mention { offset: usize, length: usize },
    /// A mention of a user without a user name.
    MentionName { offset: usize, length: usize },
    /// Any other entity.
    Other,
}

/// The span `off..off + len` lies within `t` and does not start before
/// `cur`.
pub open spec fn span_ok(t: Seq<char>, cur: int, off: int, len: int) -> bool {
    cur <= off && off + len <= t.len()
}

/// The plain text between `cur` and `off`, if any.
pub open spec fn text_before(t: Seq<char>, cur: int, off: int) -> Seq<Segment> {
    if cur < off {
        seq![Segment::Plain(t.subrange(cur, off))]
    } else {
        Seq::empty()
    }
}

/// The pieces of text `t` from `cur` on, given the entities `es`: the text
/// before each mention, the mention as plain text (a mention without a user
/// name gets an `@`), and the rest of the text. Entities out of range, or
/// overlapping one already read, are ignored.
pub open spec fn tg_pieces(t: Seq<char>, es: Seq<TgEntity>, cur: int) -> Seq<Segment>
    decreases es.len(),
{
    if es.len() == 0 {
        if cur < t.len() {
            seq![Segment::Plain(t.subrange(cur, t.len() as int))]
        } else {
            Seq::empty()
        }
    } else {
        match es[0] {
            TgEntity::Mention { offset, length } => if span_ok(t, cur, offset as int, length as int) {
                text_before(t, cur, offset as int) + seq![
                    Segment::Plain(t.subrange(offset as int, offset + length)),
                ] + tg_pieces(t, es.drop_first(), offset + length)
            } else {
                tg_pieces(t, es.drop_first(), cur)
            },
            TgEntity::MentionName { offset, length } => if span_ok(
                t,
                cur,
                offset as int,
                length as int,
            ) {
                text_before(t, cur, offset as int) + seq![
                    Segment::Plain(seq!['@'] + t.subrange(offset as int, offset + length)),
                ] + tg_pieces(t, es.drop_first(), offset + length)
            } else {
                tg_pieces(t, es.drop_first(), cur)
            },
            TgEntity::Other => tg_pieces(t, es.drop_first(), cur),
        }
    }
}

/// The entities, if the message has them.
pub open spec fn entities_view(e: Option<Vec<TgEntity>>) -> Option<Seq<TgEntity>> {
    match e {
        Some(v) => Some(v@),
        None => None,
    }
}

/// The photo's bytes, if the message has one.
pub open spec fn photo_view(p: Option<Vec<u8>>) -> Option<Seq<u8>> {
    match p {
        Some(v) => Some(v@),
        None => None,
    }
}

/// The canonical chain of a received Telegram message: the photo first,
/// then its text, cut at the mentions when it has entities.
pub open spec fn tg_inbound_spec(t: Seq<char>, es: Option<Seq<TgEntity>>, photo: Option<Seq<u8>>) -> Seq<
    Segment,
> {
    (match photo {
        Some(p) => seq![Segment::ImageBytes(p)],
        None => Seq::empty(),
    }) + if t.len() == 0 {
        Seq::empty()
    } else {
        match es {
            None => seq![Segment::Plain(t)],
            Some(v) => tg_pieces(t, v, 0),
        }
    }
}

/// Appends a plain segment.
fn push_plain(r: &mut Vec<MessageContent>, text: String)
    ensures
        chain_view(final(r)@) == chain_view(old(r)@).push(Segment::Plain(text@)),
{
    let ghost t = text@;
    r.push(MessageContent::Plain { text });
    assert(chain_view(final(r)@) =~= chain_view(old(r)@).push(Segment::Plain(t)));
}

/// The canonical chain of a received Telegram message.
pub fn tg_inbound_chain(text: &Vec<char>, entities: &Option<Vec<TgEntity>>, photo: Option<Vec<u8>>) -> (r: Vec<MessageContent>)
    ensures
        chain_view(r@) == tg_inbound_spec(text@, entities_view(*entities), photo_view(photo)),
{
    let mut r: Vec<MessageContent> = Vec::new();
    let ghost pv = photo_view(photo);
    match photo {
        Some(data) => {
            let ghost d = data@;
            r.push(MessageContent::Image(Image::Buff(data)));
            assert(chain_view(r@) =~= seq![Segment::ImageBytes(d)]);
        },
        None => {
            assert(chain_view(r@) =~= Seq::<Segment>::empty());
        },
    }
    let ghost head = chain_view(r@);
    let n = text.len();
    if n == 0 {
        assert(chain_view(r@) =~= tg_inbound_spec(text@, entities_view(*entities), pv));
        return r;
    }
    match entities {
        None => {
            push_plain(&mut r, string_of_range(text, 0, n));
            assert(text@.subrange(0, n as int) =~= text@);
            assert(chain_view(r@) =~= tg_inbound_spec(text@, entities_view(*entities), pv));
            r
        },
        Some(es) => {
            let ghost target = head + tg_pieces(text@, es@, 0);
            let m = es.len();
            let mut cur: usize = 0;
            assert(es@.skip(0) =~= es@);
            assert(chain_view(r@) + tg_pieces(text@, es@.skip(0), 0) =~= target);
            for i in 0..m
                invariant
                    m == es@.len(),
                    n == text@.len(),
                    cur <= n,
                    chain_view(r@) + tg_pieces(text@, es@.skip(i as int), cur as int) == target,
            {
                let ghost rest = es@.skip(i as int);
                assert(rest.drop_first() =~= es@.skip(i + 1));
                assert(rest[0] == es@[i as int]);
                let ghost before = chain_view(r@);
                match es[i] {
                    TgEntity::Mention { offset, length } => {
                        if cur <= offset && offset <= n && length <= n - offset {
                            if cur < offset {
                                push_plain(&mut r, string_of_range(text, cur, offset));
                            }
                            push_plain(&mut r, string_of_range(text, offset, offset + length));
                            assert(chain_view(r@) =~= before + text_before(text@, cur as int, offset as int)
                                + seq![Segment::Plain(text@.subrange(offset as int, offset + length))]);
                            cur = offset + length;
                        }
                    },
                    TgEntity::MentionName { offset, length } => {
                        if cur <= offset && offset <= n && length <= n - offset {
                            if cur < offset {
                                push_plain(&mut r, string_of_range(text, cur, offset));
                            }
                            let mut t = String::new();
                            push_char(&mut t, '@');
                            let name = string_of_range(text, offset, offset + length);
                            t.append(name.as_str());
                            push_plain(&mut r, t);
                            assert(chain_view(r@) =~= before + text_before(text@, cur as int, offset as int)
                                + seq![Segment::Plain(seq!['@'] + text@.subrange(offset as int, offset + length))]);
                            cur = offset + length;
                        }
                    },
                    TgEntity::Other => {},
                }
            }
            assert(es@.skip(m as int) =~= Seq::<TgEntity>::empty());
            if cur < n {
                push_plain(&mut r, string_of_range(text, cur, n));
            }
            assert(chain_view(r@) =~= target);
            r
        },
    }
}

} // verus!
