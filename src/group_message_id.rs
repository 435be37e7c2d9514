//! The native id of a QQ group message: QQ gives no unique id, so the group,
//! the sequence number and the time stand in for one.

use vstd::prelude::*;
use crate::decimal::{
    dec, dec_signed, parse_i32, parse_i64, parse_signed_spec, parse_u64, parse_u64_spec,
    push_dec, push_dec_signed,
};
use crate::text::{chars_of, pieces, push_char, split_on, views};

verus! {

/// The parts that identify a QQ group message.
pub struct GroupMessageId {
    pub group_id: u64,
    pub seqs: i32,
    pub time: i64,
}

/// The text of an id: `|group|seqs|time|`.
pub open spec fn id_text(g: GroupMessageId) -> Seq<char> {
    seq!['|'] + dec(g.group_id as nat) + seq!['|'] + dec_signed(g.seqs as int) + seq!['|']
        + dec_signed(g.time as int) + seq!['|']
}

/// The id that text `s` holds: its second, third and fourth pieces between
/// `|` read as numbers.
pub open spec fn id_of_text(s: Seq<char>) -> Option<GroupMessageId> {
    let p = pieces(s, '|');
    if p.len() < 4 {
        None
    } else {
        match (
            parse_u64_spec(p[1]),
            parse_signed_spec(p[2], i32::MIN as int, i32::MAX as int),
            parse_signed_spec(p[3], i64::MIN as int, i64::MAX as int),
        ) {
            (Some(g), Some(q), Some(t)) => Some(
                GroupMessageId { group_id: g, seqs: q as i32, time: t as i64 },
            ),
            _ => None,
        }
    }
}

impl GroupMessageId {
    /// The id of message `seqs` sent at `time` in group `group_id`.
    pub fn new(group_id: u64, seqs: i32, time: i64) -> (r: GroupMessageId)
        ensures
            r.group_id == group_id,
            r.seqs == seqs,
            r.time == time,
    {
        GroupMessageId { group_id, seqs, time }
    }

    /// The id's text, `|group|seqs|time|`.
    pub fn to_string(&self) -> (r: String)
        ensures
            r@ == id_text(*self),
    {
        let mut r = String::new();
        push_char(&mut r, '|');
        push_dec(&mut r, self.group_id);
        push_char(&mut r, '|');
        push_dec_signed(&mut r, self.seqs as i64);
        push_char(&mut r, '|');
        push_dec_signed(&mut r, self.time);
        push_char(&mut r, '|');
        assert(r@ =~= id_text(*self));
        r
    }

    /// Reads an id from its text; none when the text does not hold one.
    pub fn from_bridge_message_id(bridge_message_id: &str) -> (r: Option<GroupMessageId>)
        ensures
            r == id_of_text(bridge_message_id@),
    {
        let cs = chars_of(bridge_message_id);
        let p = split_on(&cs, '|');
        let ghost pv = views(p@);
        if p.len() < 4 {
            return None;
        }
        assert(p@[1]@ == pv[1] && p@[2]@ == pv[2] && p@[3]@ == pv[3]);
        let g = parse_u64(&p[1]);
        let q = parse_i32(&p[2]);
        let t = parse_i64(&p[3]);
        match (g, q, t) {
            (Some(g), Some(q), Some(t)) => Some(GroupMessageId { group_id: g, seqs: q, time: t }),
            _ => None,
        }
    }
}

} // verus!
