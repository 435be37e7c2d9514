//! Mentions of Discord users written as text, `@[DC] name#1234`, which the
//! Discord side turns back into native mentions.

use vstd::prelude::*;
use crate::text::{chars_of, string_of};

verus! {

/// A piece of text: plain, or a mention written as text.
pub enum MentionText {
    Text(String),
    MentionText { name: String, discriminator: String },
}

/// The content of a piece.
pub enum MentionPiece {
    Text(Seq<char>),
    Mention(Seq<char>, Seq<char>),
}

impl View for MentionText {
    type V = MentionPiece;

    open spec fn view(&self) -> MentionPiece {
        match self {
            MentionText::Text(t) => MentionPiece::Text(t@),
            MentionText::MentionText { name, discriminator } => MentionPiece::Mention(
                name@,
                discriminator@,
            ),
        }
    }
}

/// The tag that opens a written mention.
pub open spec fn tag() -> Seq<char> {
    seq!['@', '[', 'D', 'C', ']', ' ']
}

/// `c` may stand in a written name.
pub open spec fn is_name_char(c: char) -> bool {
    c != '\n' && c != '^' && c != '#' && c != '@'
}

/// The end of the run of name characters from `j`.
pub open spec fn name_end(s: Seq<char>, j: int) -> int
    decreases s.len() - j,
{
    if j >= s.len() || !is_name_char(s[j]) {
        j
    } else {
        name_end(s, j + 1)
    }
}

/// A written mention starts at `i`: the tag, a name (possibly empty), `#`
/// and four digits.
pub open spec fn match_at(s: Seq<char>, i: int) -> bool {
    &&& 0 <= i
    &&& i + 6 <= s.len()
    &&& s.subrange(i, i + 6) == tag()
    &&& name_end(s, i + 6) + 5 <= s.len()
    &&& s[name_end(s, i + 6)] == '#'
    &&& forall|q: int|
        name_end(s, i + 6) + 1 <= q < name_end(s, i + 6) + 5 ==> '0' <= #[trigger] s[q] <= '9'
}

/// The first position from `i` where a written mention starts.
pub open spec fn next_match(s: Seq<char>, i: int) -> Option<int>
    decreases s.len() - i,
{
    if i < 0 || i >= s.len() {
        None
    } else if match_at(s, i) {
        Some(i)
    } else {
        next_match(s, i + 1)
    }
}

/// The pieces of `s` from `i`: before each written mention the text up to
/// it, then the mention; at the end the rest of the text, if any.
pub open spec fn mention_pieces(s: Seq<char>, i: int) -> Seq<MentionPiece>
    decreases s.len() - i,
{
    if i < 0 || i > s.len() {
        Seq::empty()
    } else {
        match next_match(s, i) {
            None => if i < s.len() {
                seq![MentionPiece::Text(s.subrange(i, s.len() as int))]
            } else {
                Seq::empty()
            },
            Some(k) => {
                let e = name_end(s, k + 6);
                if k >= i && e + 5 <= s.len() && e + 5 > i {
                    seq![
                        MentionPiece::Text(s.subrange(i, k)),
                        MentionPiece::Mention(s.subrange(k + 6, e), s.subrange(e + 1, e + 5)),
                    ] + mention_pieces(s, e + 5)
                } else {
                    Seq::empty()
                }
            },
        }
    }
}

/// The contents of a list of pieces.
pub open spec fn pieces_view(v: Seq<MentionText>) -> Seq<MentionPiece> {
    Seq::new(v.len(), |i: int| v[i]@)
}

/// The end of a run never comes before its start, nor after the text.
proof fn lemma_name_end(s: Seq<char>, j: int)
    requires
        0 <= j <= s.len(),
    ensures
        j <= name_end(s, j) <= s.len(),
        forall|q: int| j <= q < name_end(s, j) ==> is_name_char(#[trigger] s[q]),
        name_end(s, j) < s.len() ==> !is_name_char(s[name_end(s, j)]),
    decreases s.len() - j,
{
    if j < s.len() && is_name_char(s[j]) {
        lemma_name_end(s, j + 1);
    }
}

/// A scan from `i` past positions where no mention starts finds the first
/// one at `k`, or none at the end.
proof fn lemma_next_match(s: Seq<char>, i: int, k: int)
    requires
        0 <= i <= k <= s.len(),
        forall|q: int| i <= q < k ==> !match_at(s, q),
    ensures
        k < s.len() && match_at(s, k) ==> next_match(s, i) == Some(k),
        k == s.len() ==> next_match(s, i) is None,
    decreases k - i,
{
    if i < k {
        lemma_next_match(s, i + 1, k);
    }
}

/// The end of the run of name characters from `j`.
fn name_end_at(s: &Vec<char>, j: usize) -> (r: usize)
    requires
        j <= s@.len(),
    ensures
        r == name_end(s@, j as int),
        j <= r <= s@.len(),
{
    let n = s.len();
    let mut k = j;
    proof {
        lemma_name_end(s@, j as int);
    }
    while k < n && s[k] != '\n' && s[k] != '^' && s[k] != '#' && s[k] != '@'
        invariant
            j <= k <= n,
            n == s@.len(),
            name_end(s@, j as int) == name_end(s@, k as int),
        decreases n - k,
    {
        k = k + 1;
    }
    k
}

/// Whether a written mention starts at `i`.
fn match_at_exec(s: &Vec<char>, i: usize) -> (r: bool)
    requires
        i <= s@.len(),
    ensures
        r == match_at(s@, i as int),
{
    let n = s.len();
    if n - i < 6 {
        return false;
    }
    if !(s[i] == '@' && s[i + 1] == '[' && s[i + 2] == 'D' && s[i + 3] == 'C' && s[i + 4] == ']'
        && s[i + 5] == ' ') {
        assert(!(s@.subrange(i as int, i + 6) =~= tag())) by {
            let t = s@.subrange(i as int, i + 6);
            assert(t[0] == s@[i as int] && t[1] == s@[i + 1] && t[2] == s@[i + 2] && t[3]
                == s@[i + 3] && t[4] == s@[i + 4] && t[5] == s@[i + 5]);
        }
        return false;
    }
    assert(s@.subrange(i as int, i + 6) =~= tag());
    let e = name_end_at(s, i + 6);
    if n - e < 5 || s[e] != '#' {
        return false;
    }
    let mut q = e + 1;
    while q < e + 5
        invariant
            e + 1 <= q <= e + 5,
            e + 5 <= n,
            n == s@.len(),
            i + 6 <= n,
            e == name_end(s@, i + 6),
            s@[e as int] == '#',
            s@.subrange(i as int, i + 6) == tag(),
            forall|x: int| e + 1 <= x < q ==> '0' <= #[trigger] s@[x] <= '9',
        decreases e + 5 - q,
    {
        if !('0' <= s[q] && s[q] <= '9') {
            assert(!('0' <= s@[q as int] <= '9'));
            return false;
        }
        q = q + 1;
    }
    true
}

/// Splits text into plain pieces and the Discord mentions written in it.
pub fn parse_text_mention_rule(text: String) -> (r: Vec<MentionText>)
    ensures
        pieces_view(r@) == mention_pieces(text@, 0),
{
    let s = chars_of(text.as_str());
    let n = s.len();
    let mut out: Vec<MentionText> = Vec::new();
    let mut i: usize = 0;
    while i < n
        invariant
            i <= n,
            n == s@.len(),
            s@ == text@,
            pieces_view(out@) + mention_pieces(s@, i as int) == mention_pieces(s@, 0),
        decreases n - i,
    {
        let mut k = i;
        while k < n && !match_at_exec(&s, k)
            invariant
                i <= k <= n,
                n == s@.len(),
                forall|q: int| i <= q < k ==> !match_at(s@, q),
            decreases n - k,
        {
            k = k + 1;
        }
        proof {
            lemma_next_match(s@, i as int, k as int);
        }
        let ghost before = out@;
        if k == n {
            out.push(MentionText::Text(string_of(&slice_of(&s, i, n))));
            assert(pieces_view(out@) =~= pieces_view(before).push(
                MentionPiece::Text(s@.subrange(i as int, n as int)),
            ));
            assert(mention_pieces(s@, n as int) =~= Seq::<MentionPiece>::empty());
            assert(pieces_view(out@) + mention_pieces(s@, n as int) =~= pieces_view(before)
                + mention_pieces(s@, i as int));
            i = n;
        } else {
            let e = name_end_at(&s, k + 6);
            proof {
                lemma_name_end(s@, k + 6);
            }
            out.push(MentionText::Text(string_of(&slice_of(&s, i, k))));
            out.push(
                MentionText::MentionText {
                    name: string_of(&slice_of(&s, k + 6, e)),
                    discriminator: string_of(&slice_of(&s, e + 1, e + 5)),
                },
            );
            assert(pieces_view(out@) =~= pieces_view(before) + seq![
                MentionPiece::Text(s@.subrange(i as int, k as int)),
                MentionPiece::Mention(
                    s@.subrange(k + 6, e as int),
                    s@.subrange(e + 1, e + 5),
                ),
            ]);
            assert(pieces_view(out@) + mention_pieces(s@, e + 5) =~= pieces_view(before)
                + mention_pieces(s@, i as int));
            i = e + 5;
        }
    }
    assert(mention_pieces(s@, n as int) =~= Seq::<MentionPiece>::empty());
    assert(pieces_view(out@) =~= pieces_view(out@) + mention_pieces(s@, i as int));
    out
}

/// A vector holding `s[from..to]`.
fn slice_of(s: &Vec<char>, from: usize, to: usize) -> (r: Vec<char>)
    requires
        from <= to <= s@.len(),
    ensures
        r@ == s@.subrange(from as int, to as int),
{
    let mut r: Vec<char> = Vec::new();
    for i in from..to
        invariant
            to <= s@.len(),
            r@ == s@.subrange(from as int, i as int),
    {
        r.push(s[i]);
        assert(r@ =~= s@.subrange(from as int, i + 1));
    }
    assert(r@ =~= s@.subrange(from as int, to as int));
    r
}

} // verus!
