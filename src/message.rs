//! The canonical message model that every platform adapter translates to and
//! from.

use vstd::prelude::*;
use crate::config::BridgeConfig;
use crate::text::opt_view;

verus! {

/// Where an image's data can be had.
#[derive(Debug, Clone)]
pub enum Image {
    /// A remote address.
    Url(String),
    /// A local file.
    Path(String),
    /// The bytes themselves.
    Buff(Vec<u8>),
}

/// One segment of a canonical message.
#[derive(Debug, Clone)]
pub enum MessageContent {
    /// A reply to the bridge message with this id, when it is known.
    Reply { id: Option<String> },
    /// Plain text.
    Plain { text: String },
    /// A mention of the bridge user with this id.
    At { id: String },
    /// A mention of everyone.
    AtAll,
    /// An image.
    Image(Image),
    /// A segment that could not be translated.
    Error { message: String },
    /// Anything else.
    Other,
}

/// The mathematical content of a message segment.
pub enum Segment {
    Reply(Option<Seq<char>>),
    Plain(Seq<char>),
    At(Seq<char>),
    AtAll,
    ImageUrl(Seq<char>),
    ImagePath(Seq<char>),
    ImageBytes(Seq<u8>),
    Error(Seq<char>),
    Other,
}

impl View for MessageContent {
    type V = Segment;

    open spec fn view(&self) -> Segment {
        match self {
            MessageContent::Reply { id } => Segment::Reply(opt_view(*id)),
            MessageContent::Plain { text } => Segment::Plain(text@),
            MessageContent::At { id } => Segment::At(id@),
            MessageContent::AtAll => Segment::AtAll,
            MessageContent::Image(Image::Url(u)) => Segment::ImageUrl(u@),
            MessageContent::Image(Image::Path(p)) => Segment::ImagePath(p@),
            MessageContent::Image(Image::Buff(b)) => Segment::ImageBytes(b@),
            MessageContent::Error { message } => Segment::Error(message@),
            MessageContent::Other => Segment::Other,
        }
    }
}

/// The contents of a chain of segments.
pub open spec fn chain_view(v: Seq<MessageContent>) -> Seq<Segment> {
    Seq::new(v.len(), |i: int| v[i]@)
}

/// A message on the bus: what one adapter received, for the others to send.
#[derive(Clone)]
pub struct BridgeMessage {
    /// The bridge message id.
    pub id: String,
    /// The bridge user who sent it.
    pub sender_id: String,
    /// The sender's avatar.
    pub avatar_url: Option<String>,
    /// The channel mapping it travels on.
    pub bridge_config: BridgeConfig,
    /// Its segments, in order.
    pub message_chain: Vec<MessageContent>,
}

} // verus!
