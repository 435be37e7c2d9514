//! The older command syntax: `!绑定 <platform> <id>`, `!确认绑定`,
//! `!解除绑定 <platform>` and `!帮助` (or their English keywords), with a
//! full-width `！` accepted for `!`.

use vstd::prelude::*;
use crate::message::MessageContent;
use crate::text::{char_is_space, chars_of, is_space, string_of, trim, trim_chars};

verus! {

/// A command kind of the older syntax.
#[derive(PartialEq, Eq, Debug, Clone, Copy, Structural)]
pub enum Cmd {
    Help,
    Bind,
    Unbind,
    ConfirmBind,
}

/// `c` opens a command.
pub open spec fn is_prefix_char(c: char) -> bool {
    c == '!' || c == '！'
}

/// What follows the prefix character and keyword `kw` at the start of `s`.
pub open spec fn after_kw(s: Seq<char>, kw: Seq<char>) -> Option<Seq<char>> {
    if s.len() >= 1 + kw.len() && is_prefix_char(s[0]) && s.subrange(1, 1 + kw.len() as int)
        == kw {
        Some(s.subrange(1 + kw.len() as int, s.len() as int))
    } else {
        None
    }
}

/// What follows the prefix character and either keyword.
pub open spec fn after_kws(s: Seq<char>, kw1: Seq<char>, kw2: Seq<char>) -> Option<Seq<char>> {
    if after_kw(s, kw1) is Some {
        after_kw(s, kw1)
    } else {
        after_kw(s, kw2)
    }
}

/// No character of `s` is whitespace.
pub open spec fn no_space(s: Seq<char>) -> bool {
    forall|i: int| 0 <= i < s.len() ==> !is_space(#[trigger] s[i])
}

/// Every character of `s` is an ASCII digit.
pub open spec fn ascii_digits(s: Seq<char>) -> bool {
    forall|i: int| 0 <= i < s.len() ==> '0' <= #[trigger] s[i] <= '9'
}

/// The index of the first space character in `s`.
pub open spec fn first_space(s: Seq<char>) -> Option<int>
    decreases s.len(),
{
    if s.len() == 0 {
        None
    } else if s[0] == ' ' {
        Some(0)
    } else {
        match first_space(s.drop_first()) {
            Some(j) => Some(j + 1),
            None => None,
        }
    }
}

/// The arguments of a bind command in trimmed text `t`: a platform word
/// and an id of 4 to 20 digits, each after one space.
pub open spec fn bind_args(t: Seq<char>) -> Option<Seq<Seq<char>>> {
    match after_kws(t, "绑定"@, "bind"@) {
        Some(r) => if r.len() > 0 && r[0] == ' ' {
            let w = r.drop_first();
            match first_space(w) {
                Some(j) => {
                    let a = w.take(j);
                    let b = w.skip(j + 1);
                    if a.len() > 0 && no_space(a) && 4 <= b.len() <= 20 && ascii_digits(b) {
                        Some(seq![a, b])
                    } else {
                        None
                    }
                },
                None => None,
            }
        } else {
            None
        },
        None => None,
    }
}

/// The argument of an unbind command in trimmed text `t`: one platform
/// word after one space.
pub open spec fn unbind_args(t: Seq<char>) -> Option<Seq<Seq<char>>> {
    match after_kws(t, "解除绑定"@, "unbind"@) {
        Some(r) => if r.len() > 1 && r[0] == ' ' && no_space(r.drop_first()) {
            Some(seq![r.drop_first()])
        } else {
            None
        },
        None => None,
    }
}

/// `s` asks for help.
pub open spec fn help_match(s: Seq<char>) -> bool {
    after_kws(s, "帮助"@, "help"@) is Some
}

/// `s` confirms a bind.
pub open spec fn confirm_match(s: Seq<char>) -> bool {
    after_kws(s, "确认绑定"@, "confirm-bind"@) == Some(Seq::<char>::empty())
}

/// The arguments that command `c` finds in `input`.
pub open spec fn args_spec(c: Cmd, input: Seq<char>) -> Option<Seq<Seq<char>>> {
    match c {
        Cmd::Bind => bind_args(trim(input)),
        Cmd::Unbind => unbind_args(trim(input)),
        _ => None,
    }
}

/// The views of a list of strings.
pub open spec fn string_views(v: Seq<String>) -> Seq<Seq<char>> {
    Seq::new(v.len(), |i: int| v[i]@)
}

/// The command and arguments a plain text holds, if any.
pub open spec fn text_command(t: Seq<char>) -> Option<(Cmd, Option<Seq<Seq<char>>>)> {
    if confirm_match(t) {
        Some((Cmd::ConfirmBind, None))
    } else if help_match(t) {
        Some((Cmd::Help, None))
    } else if bind_args(trim(t)) is Some {
        Some((Cmd::Bind, bind_args(trim(t))))
    } else if unbind_args(trim(t)) is Some {
        Some((Cmd::Unbind, unbind_args(trim(t))))
    } else {
        None
    }
}

/// The command a chain holds: plain segments are read in order from the
/// first one that opens with `!` (or `！`); one that comes before it ends
/// the search.
pub open spec fn kind_spec(chain: Seq<MessageContent>, started: bool) -> Option<
    (Cmd, Option<Seq<Seq<char>>>),
>
    decreases chain.len(),
{
    if chain.len() == 0 {
        None
    } else {
        match chain[0] {
            MessageContent::Plain { text } => if !started && !(text@.len() > 0 && is_prefix_char(
                text@[0],
            )) {
                None
            } else if text_command(text@) is Some {
                text_command(text@)
            } else {
                kind_spec(chain.drop_first(), true)
            },
            _ => kind_spec(chain.drop_first(), started),
        }
    }
}

/// The index after the prefix character and keyword `kw` at the start of
/// `s`.
fn after_kw_at(s: &Vec<char>, kw: &str) -> (r: Option<usize>)
    ensures
        match after_kw(s@, kw@) {
            Some(rest) => r matches Some(k) && k == 1 + kw@.len() && k <= s@.len() && rest
                == s@.subrange(k as int, s@.len() as int),
            None => r is None,
        },
{
    let m = kw.unicode_len();
    if s.len() == 0 || s.len() - 1 < m || !(s[0] == '!' || s[0] == '！') {
        return None;
    }
    for i in 0..m
        invariant
            m == kw@.len(),
            s@.len() >= 1 + m,
            forall|k: int| 0 <= k < i ==> #[trigger] s@[1 + k] == kw@[k],
    {
        if s[1 + i] != kw.get_char(i) {
            assert(s@.subrange(1, 1 + m as int)[i as int] != kw@[i as int]);
            return None;
        }
    }
    assert forall|k: int| 0 <= k < m implies #[trigger] s@.subrange(1, 1 + m as int)[k]
        == kw@[k] by {
        assert(s@.subrange(1, 1 + m as int)[k] == s@[1 + k]);
    }
    assert(s@.subrange(1, 1 + m as int) =~= kw@);
    Some(1 + m)
}

/// The index after the prefix character and either keyword.
fn after_kws_at(s: &Vec<char>, kw1: &str, kw2: &str) -> (r: Option<usize>)
    ensures
        match after_kws(s@, kw1@, kw2@) {
            Some(rest) => r matches Some(k) && k <= s@.len() && rest == s@.subrange(
                k as int,
                s@.len() as int,
            ),
            None => r is None,
        },
{
    match after_kw_at(s, kw1) {
        Some(k) => Some(k),
        None => after_kw_at(s, kw2),
    }
}

/// Whether no character of `s` from `from` to `to` is whitespace.
fn no_space_in(s: &Vec<char>, from: usize, to: usize) -> (r: bool)
    requires
        from <= to <= s@.len(),
    ensures
        r == no_space(s@.subrange(from as int, to as int)),
{
    for i in from..to
        invariant
            to <= s@.len(),
            forall|k: int| from <= k < i ==> !is_space(#[trigger] s@[k]),
    {
        if char_is_space(s[i]) {
            assert(s@.subrange(from as int, to as int)[i - from] == s@[i as int]);
            return false;
        }
    }
    assert forall|k: int| 0 <= k < to - from implies !is_space(
        #[trigger] s@.subrange(from as int, to as int)[k],
    ) by {
        assert(s@.subrange(from as int, to as int)[k] == s@[from + k]);
    }
    true
}

/// Whether every character of `s` from `from` to `to` is an ASCII digit.
fn digits_in(s: &Vec<char>, from: usize, to: usize) -> (r: bool)
    requires
        from <= to <= s@.len(),
    ensures
        r == ascii_digits(s@.subrange(from as int, to as int)),
{
    for q in from..to
        invariant
            to <= s@.len(),
            forall|x: int| from <= x < q ==> '0' <= #[trigger] s@[x] <= '9',
    {
        let c = s[q];
        if !('0' <= c && c <= '9') {
            assert(s@.subrange(from as int, to as int)[q - from] == s@[q as int]);
            return false;
        }
    }
    assert forall|x: int| 0 <= x < to - from implies '0' <= #[trigger] s@.subrange(
        from as int,
        to as int,
    )[x] <= '9' by {
        assert(s@.subrange(from as int, to as int)[x] == s@[from + x]);
    }
    true
}

/// A vector holding `s[from..to]`.
fn sub_vec(s: &Vec<char>, from: usize, to: usize) -> (r: Vec<char>)
    requires
        from <= to <= s@.len(),
    ensures
        r@ == s@.subrange(from as int, to as int),
{
    let mut r: Vec<char> = Vec::new();
    for i in from..to
        invariant
            to <= s@.len(),
            r@ == s@.subrange(from as int, i as int),
    {
        r.push(s[i]);
        assert(r@ =~= s@.subrange(from as int, i + 1));
    }
    assert(r@ =~= s@.subrange(from as int, to as int));
    r
}

/// The index of the first space in `w` from `from` on, counted from `from`.
proof fn lemma_first_space(w: Seq<char>, j: int)
    requires
        0 <= j <= w.len(),
        forall|k: int| 0 <= k < j ==> #[trigger] w[k] != ' ',
    ensures
        j < w.len() && w[j] == ' ' ==> first_space(w) == Some(j),
        j == w.len() ==> first_space(w) is None,
    decreases j,
{
    if j > 0 {
        let t = w.drop_first();
        assert forall|k: int| 0 <= k < j - 1 implies #[trigger] t[k] != ' ' by {
            assert(t[k] == w[k + 1]);
        }
        lemma_first_space(t, j - 1);
        if j < w.len() {
            assert(t[j - 1] == w[j]);
        }
    }
}

/// The bind arguments of trimmed text `t`.
fn bind_args_of(t: &Vec<char>) -> (r: Option<Vec<String>>)
    ensures
        match bind_args(t@) {
            Some(v) => r matches Some(x) && string_views(x@) == v,
            None => r is None,
        },
{
    let k = match after_kws_at(t, "绑定", "bind") {
        Some(k) => k,
        None => {
            return None;
        },
    };
    let n = t.len();
    let ghost rest = t@.subrange(k as int, n as int);
    if k >= n || t[k] != ' ' {
        return None;
    }
    let ghost w = rest.drop_first();
    let start = k + 1;
    let mut j = start;
    while j < n && t[j] != ' '
        invariant
            start <= j <= n,
            n == t@.len(),
            w == t@.subrange(start as int, n as int),
            forall|q: int| 0 <= q < j - start ==> #[trigger] w[q] != ' ',
        decreases n - j,
    {
        j = j + 1;
    }
    proof {
        lemma_first_space(w, j - start);
    }
    if j >= n {
        return None;
    }
    assert(w[j - start] == t@[j as int]);
    assert(first_space(w) == Some(j - start));
    assert(w.take(j - start) =~= t@.subrange(start as int, j as int));
    assert(w.skip(j - start + 1) =~= t@.subrange(j + 1, n as int));
    if j == start || !no_space_in(t, start, j) {
        return None;
    }
    let blen = n - (j + 1);
    if blen < 4 || blen > 20 {
        return None;
    }
    if !digits_in(t, j + 1, n) {
        return None;
    }
    let a = string_of(&sub_vec(t, start, j));
    let b = string_of(&sub_vec(t, j + 1, n));
    let mut v: Vec<String> = Vec::new();
    v.push(a);
    v.push(b);
    assert(string_views(v@) =~= bind_args(t@)->0);
    Some(v)
}

/// The unbind argument of trimmed text `t`.
fn unbind_args_of(t: &Vec<char>) -> (r: Option<Vec<String>>)
    ensures
        match unbind_args(t@) {
            Some(v) => r matches Some(x) && string_views(x@) == v,
            None => r is None,
        },
{
    let k = match after_kws_at(t, "解除绑定", "unbind") {
        Some(k) => k,
        None => {
            return None;
        },
    };
    let n = t.len();
    if n - k <= 1 || t[k] != ' ' {
        return None;
    }
    assert(t@.subrange(k as int, n as int).drop_first() =~= t@.subrange(k + 1, n as int));
    if !no_space_in(t, k + 1, n) {
        return None;
    }
    let a = string_of(&sub_vec(t, k + 1, n));
    let mut v: Vec<String> = Vec::new();
    v.push(a);
    assert(string_views(v@) =~= unbind_args(t@)->0);
    Some(v)
}

/// Whether text `t` asks for help.
fn help_of(t: &Vec<char>) -> (r: bool)
    ensures
        r == help_match(t@),
{
    after_kws_at(t, "帮助", "help").is_some()
}

/// Whether text `t` confirms a bind.
fn confirm_of(t: &Vec<char>) -> (r: bool)
    ensures
        r == confirm_match(t@),
{
    match after_kws_at(t, "确认绑定", "confirm-bind") {
        Some(k) => {
            assert(k == t@.len() ==> t@.subrange(k as int, t@.len() as int) =~= Seq::<
                char,
            >::empty());
            k == t.len()
        },
        None => false,
    }
}

impl Cmd {
    /// The arguments of this command in `input`, surrounding whitespace
    /// ignored: platform and id for a bind, platform for an unbind; none
    /// when the input is not this command with its arguments.
    pub fn get_args(&self, input: &str) -> (r: Option<Vec<String>>)
        ensures
            match args_spec(*self, input@) {
                Some(v) => r matches Some(x) && string_views(x@) == v,
                None => r is None,
            },
    {
        let cs = chars_of(input);
        let t = trim_chars(&cs);
        match self {
            Cmd::Bind => bind_args_of(&t),
            Cmd::Unbind => unbind_args_of(&t),
            _ => None,
        }
    }
}

/// The command that a plain text holds.
fn text_command_of(text: &String) -> (r: Option<(Cmd, Option<Vec<String>>)>)
    ensures
        match text_command(text@) {
            Some((c, a)) => r matches Some((rc, ra)) && rc == c && match a {
                Some(v) => ra matches Some(x) && string_views(x@) == v,
                None => ra is None,
            },
            None => r is None,
        },
{
    let cs = chars_of(text.as_str());
    if confirm_of(&cs) {
        return Some((Cmd::ConfirmBind, None));
    }
    if help_of(&cs) {
        return Some((Cmd::Help, None));
    }
    if let Some(args) = Cmd::Bind.get_args(text.as_str()) {
        return Some((Cmd::Bind, Some(args)));
    }
    if let Some(args) = Cmd::Unbind.get_args(text.as_str()) {
        return Some((Cmd::Unbind, Some(args)));
    }
    None
}

/// The command a message chain holds, and its arguments.
pub fn kind(token_chain: &Vec<MessageContent>) -> (r: Option<(Cmd, Option<Vec<String>>)>)
    ensures
        match kind_spec(token_chain@, false) {
            Some((c, a)) => r matches Some((rc, ra)) && rc == c && match a {
                Some(v) => ra matches Some(x) && string_views(x@) == v,
                None => ra is None,
            },
            None => r is None,
        },
{
    let mut started = false;
    let n = token_chain.len();
    assert(token_chain@.skip(0) =~= token_chain@);
    for i in 0..n
        invariant
            n == token_chain@.len(),
            kind_spec(token_chain@, false) == kind_spec(token_chain@.skip(i as int), started),
    {
        assert(token_chain@.skip(i as int).drop_first() =~= token_chain@.skip(i + 1));
        assert(token_chain@.skip(i as int)[0] == token_chain@[i as int]);
        if let MessageContent::Plain { text } = &token_chain[i] {
            if !started {
                let cs = chars_of(text.as_str());
                if !(cs.len() > 0 && (cs[0] == '!' || cs[0] == '！')) {
                    return None;
                }
            }
            started = true;
            let r = text_command_of(text);
            if r.is_some() {
                return r;
            }
        }
    }
    None
}

} // verus!
