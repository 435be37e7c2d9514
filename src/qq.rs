//! What the QQ adapter does with messages, apart from the network: turning
//! decoded group-message elements into a canonical chain, and a canonical
//! message into the parts of a QQ message.

use vstd::prelude::*;
use crate::decimal::dec;
use crate::group_message_id::{id_text, GroupMessageId};
use crate::message::{Image, MessageContent, Segment};
use crate::message_store::BridgeMessageManager;
use crate::translate::{mention_spec, render_at, reply_segment, resolve_reply, MentionRender};
use crate::user::{by_account, by_id, first_match, BridgeUser, BridgeUserManager};

verus! {

/// One element of a received QQ group message, as the SDK decodes it.
pub enum QQElem {
    /// A mention of account `target`, shown as `display`.
    At { target: u64, display: String },
    /// Text.
    Text(String),
    /// An image, with the local file when it could be cached.
    GroupImage { url: String, path: Option<String> },
    /// A reply to the group message `seq` of `group` sent at `time`.
    Reply { group: u64, seq: i32, time: i64 },
    /// A mention of everyone.
    AtAll,
    /// Anything else.
    Other,
}

/// The content of a received element.
pub enum QQElemView {
    At(u64),
    Text(Seq<char>),
    GroupImage(Seq<char>, Option<Seq<char>>),
    Reply(u64, i32, i64),
    AtAll,
    Other,
}

impl View for QQElem {
    type V = QQElemView;

    open spec fn view(&self) -> QQElemView {
        match self {
            QQElem::At { target, .. } => QQElemView::At(*target),
            QQElem::Text(t) => QQElemView::Text(t@),
            QQElem::GroupImage { url, path } => QQElemView::GroupImage(
                url@,
                crate::text::opt_view(*path),
            ),
            QQElem::Reply { group, seq, time } => QQElemView::Reply(*group, *seq, *time),
            QQElem::AtAll => QQElemView::AtAll,
            QQElem::Other => QQElemView::Other,
        }
    }
}

/// The placeholder for an element the bridge does not relay.
pub const UNHANDLED: &'static str = "[未处理]";

/// The canonical segment for one received element: a mention of a known
/// account becomes a mention of its bridge user, of an unknown one `@` and
/// the account number; a cached image its file, else its address; a reply
/// the bridge message it answers, else a quoted placeholder.
pub open spec fn elem_segment(
    us: Seq<BridgeUser>,
    store: Seq<crate::message_store::BridgeMessagePO>,
    e: QQElemView,
) -> Segment {
    match e {
        QQElemView::At(target) => match first_match(us, by_account(dec(target as nat), "QQ"@)) {
            Some(u) => Segment::At(u.id@),
            None => Segment::Plain("@"@ + dec(target as nat)),
        },
        QQElemView::Text(t) => Segment::Plain(t),
        QQElemView::GroupImage(url, path) => match path {
            Some(p) => Segment::ImagePath(p),
            None => Segment::ImageUrl(url),
        },
        QQElemView::Reply(group, seq, time) => reply_segment(
            store,
            id_text(GroupMessageId { group_id: group, seqs: seq, time }),
            "QQ"@,
        ),
        QQElemView::AtAll => Segment::AtAll,
        QQElemView::Other => Segment::Plain(UNHANDLED@),
    }
}

/// The canonical chain of a received QQ group message.
pub fn group_message_chain(
    users: &BridgeUserManager,
    store: &BridgeMessageManager,
    elems: &Vec<QQElem>,
) -> (r: Vec<MessageContent>)
    ensures
        r@.len() == elems@.len(),
        forall|k: int|
            0 <= k < r@.len() ==> #[trigger] r@[k]@ == elem_segment(users@, store@, elems@[k]@),
{
    let mut r: Vec<MessageContent> = Vec::new();
    let n = elems.len();
    for i in 0..n
        invariant
            n == elems@.len(),
            r@.len() == i,
            forall|k: int|
                0 <= k < i ==> #[trigger] r@[k]@ == elem_segment(users@, store@, elems@[k]@),
    {
        let seg = match &elems[i] {
            QQElem::At { target, .. } => {
                let mut origin = String::new();
                crate::decimal::push_dec(&mut origin, *target);
                match users.like(origin.as_str(), "QQ") {
                    Some(u) => MessageContent::At { id: u.id.clone() },
                    None => {
                        let mut t = String::from_str("@");
                        t.append(origin.as_str());
                        MessageContent::Plain { text: t }
                    },
                }
            },
            QQElem::Text(t) => MessageContent::Plain { text: t.clone() },
            QQElem::GroupImage { url, path } => match path {
                Some(p) => MessageContent::Image(Image::Path(p.clone())),
                None => MessageContent::Image(Image::Url(url.clone())),
            },
            QQElem::Reply { group, seq, time } => {
                let id = GroupMessageId::new(*group, *seq, *time).to_string();
                resolve_reply(store, id.as_str(), "QQ")
            },
            QQElem::AtAll => MessageContent::AtAll,
            QQElem::Other => MessageContent::Plain { text: String::from_str(UNHANDLED) },
        };
        r.push(seg);
    }
    r
}

/// One part of a QQ message to send.
pub enum QQPart {
    /// Text.
    Text(String),
    /// A native mention of this account.
    At(i64),
    /// A mention of everyone.
    AtAll,
    /// An image to upload.
    Image(Image),
}

/// The content of a part.
pub enum QQPartView {
    Text(Seq<char>),
    At(i64),
    AtAll,
    ImageUrl(Seq<char>),
    ImagePath(Seq<char>),
    ImageBytes(Seq<u8>),
}

impl View for QQPart {
    type V = QQPartView;

    open spec fn view(&self) -> QQPartView {
        match self {
            QQPart::Text(t) => QQPartView::Text(t@),
            QQPart::At(a) => QQPartView::At(*a),
            QQPart::AtAll => QQPartView::AtAll,
            QQPart::Image(Image::Url(u)) => QQPartView::ImageUrl(u@),
            QQPart::Image(Image::Path(p)) => QQPartView::ImagePath(p@),
            QQPart::Image(Image::Buff(b)) => QQPartView::ImageBytes(b@),
        }
    }
}

/// The placeholder for a segment QQ cannot carry.
pub const UNRELAYED: &'static str = "{未处理的桥信息}";

/// The QQ account number a linked account's origin id spells, if it is one.
pub open spec fn qq_number(origin: Seq<char>) -> Option<int> {
    crate::decimal::parse_signed_spec(origin, i64::MIN as int, i64::MAX as int)
}

/// The part for one segment: text as text; a mention natively when the
/// user is linked to a QQ account with a numeric id, else as text; an image
/// as an upload; anything else as a placeholder.
pub open spec fn segment_part(us: Seq<BridgeUser>, s: Segment) -> QQPartView {
    match s {
        Segment::Plain(t) => QQPartView::Text(t),
        Segment::At(id) => {
            let m = mention_spec(us, id, "QQ"@);
            if m.0 && qq_number(m.1) is Some {
                QQPartView::At(qq_number(m.1)->0 as i64)
            } else if m.0 {
                QQPartView::Text("@"@ + first_match(us, by_id(id))->0.display_text@)
            } else {
                QQPartView::Text(m.1)
            }
        },
        Segment::AtAll => QQPartView::AtAll,
        Segment::ImageUrl(u) => QQPartView::ImageUrl(u),
        Segment::ImagePath(p) => QQPartView::ImagePath(p),
        Segment::ImageBytes(b) => QQPartView::ImageBytes(b),
        _ => QQPartView::Text(UNRELAYED@),
    }
}

/// The parts of the QQ message for a canonical chain, one per segment.
pub fn qq_parts(users: &BridgeUserManager, chain: &Vec<MessageContent>) -> (r: Vec<QQPart>)
    ensures
        r@.len() == chain@.len(),
        forall|k: int|
            0 <= k < r@.len() ==> #[trigger] r@[k]@ == segment_part(users@, chain@[k]@),
{
    let mut r: Vec<QQPart> = Vec::new();
    let n = chain.len();
    for i in 0..n
        invariant
            n == chain@.len(),
            r@.len() == i,
            forall|k: int|
                0 <= k < i ==> #[trigger] r@[k]@ == segment_part(users@, chain@[k]@),
    {
        let part = match &chain[i] {
            MessageContent::Plain { text } => QQPart::Text(text.clone()),
            MessageContent::At { id } => match render_at(users, id.as_str(), "QQ") {
                MentionRender::Native(origin) => {
                    let cs = crate::text::chars_of(origin.as_str());
                    match crate::decimal::parse_i64(&cs) {
                        Some(v) => QQPart::At(v),
                        None => {
                            let u = users.get(id.as_str());
                            let mut t = String::from_str("@");
                            match u {
                                Some(u) => t.append(u.display_text.as_str()),
                                None => {},
                            }
                            QQPart::Text(t)
                        },
                    }
                },
                MentionRender::Text(t) => QQPart::Text(t),
            },
            MessageContent::AtAll => QQPart::AtAll,
            MessageContent::Image(Image::Url(u)) => QQPart::Image(Image::Url(u.clone())),
            MessageContent::Image(Image::Path(p)) => QQPart::Image(Image::Path(p.clone())),
            MessageContent::Image(Image::Buff(b)) => QQPart::Image(Image::Buff(b.clone())),
            _ => QQPart::Text(String::from_str(UNRELAYED)),
        };
        r.push(part);
    }
    r
}

/// How a sent part comes back when received: text as text, a mention of
/// everyone as one; anything else as an unhandled element.
pub open spec fn received_elem(p: QQPartView) -> QQElemView {
    match p {
        QQPartView::Text(t) => QQElemView::Text(t),
        QQPartView::AtAll => QQElemView::AtAll,
        _ => QQElemView::Other,
    }
}

/// A chain of plain text and mentions of everyone, sent to QQ and received
/// back, is the same chain.
pub proof fn lemma_qq_round_trip(
    us: Seq<BridgeUser>,
    store: Seq<crate::message_store::BridgeMessagePO>,
    c: Seq<Segment>,
)
    requires
        crate::translate::plain_or_at_all(c),
    ensures
        Seq::new(c.len(), |i: int| elem_segment(us, store, received_elem(segment_part(us, c[i]))))
            == c,
{
    assert(Seq::new(c.len(), |i: int| elem_segment(us, store, received_elem(segment_part(us, c[i]))))
        =~= c);
}

} // verus!
