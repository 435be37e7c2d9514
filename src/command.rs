//! Commands embedded in bridged messages: recognising them and carrying
//! them out against the bind sessions and the identity store.

use vstd::prelude::*;
use crate::bind::{
    bind_err_text, confirm_ensures, create_ensures, resp_ensures, unbind, unbind_ensures, BindErr,
    BindSessions,
};
use crate::message::{BridgeMessage, MessageContent};
use crate::platform::{parse_code, BridgeClientPlatform};
use crate::text::{chars_eq_str, chars_of, opt_view, split_words, string_of, views, words};
use crate::user::{by_id, first_match, BridgeUserManager};

verus! {

/// A recognised command.
pub enum BridgeCommand {
    /// Ask for a bind session, or answer one with its token.
    Bind { token: Option<String> },
    /// Break the link with the account on a platform.
    Unbind { platform: String },
    /// Confirm the caller's answered session.
    ConfirmBind,
    /// Help, on one command or on all.
    Tips { command: Option<String> },
}

/// `w` is the help keyword.
pub open spec fn is_help_kw(w: Seq<char>) -> bool {
    w == "!help"@ || w == "!帮助"@
}

/// `w` is the bind keyword.
pub open spec fn is_bind_kw(w: Seq<char>) -> bool {
    w == "!bind"@ || w == "!关联"@
}

/// `w` is the confirm keyword.
pub open spec fn is_confirm_kw(w: Seq<char>) -> bool {
    w == "!confirm-bind"@ || w == "!确认关联"@
}

/// `w` is the unbind keyword.
pub open spec fn is_unbind_kw(w: Seq<char>) -> bool {
    w == "!unbind"@ || w == "!解除关联"@
}

/// The optional argument after the keyword.
pub open spec fn opt_arg(ws: Seq<Seq<char>>) -> Option<Seq<char>> {
    if ws.len() == 2 {
        Some(ws[1])
    } else {
        None
    }
}

/// The words `ws` form a command.
pub open spec fn is_command(ws: Seq<Seq<char>>) -> bool {
    ws.len() >= 1 && ((is_help_kw(ws[0]) && ws.len() <= 2) || (is_bind_kw(ws[0]) && ws.len()
        <= 2) || (is_confirm_kw(ws[0]) && ws.len() == 1) || (is_unbind_kw(ws[0]) && ws.len() == 2))
}

/// `c` is the command that the words `ws` form.
pub open spec fn command_matches(c: BridgeCommand, ws: Seq<Seq<char>>) -> bool {
    ws.len() >= 1 && match c {
        BridgeCommand::Tips { command } => is_help_kw(ws[0]) && ws.len() <= 2 && opt_view(command)
            == opt_arg(ws),
        BridgeCommand::Bind { token } => is_bind_kw(ws[0]) && ws.len() <= 2 && opt_view(token)
            == opt_arg(ws),
        BridgeCommand::ConfirmBind => is_confirm_kw(ws[0]) && ws.len() == 1,
        BridgeCommand::Unbind { platform } => is_unbind_kw(ws[0]) && ws.len() == 2 && platform@
            == ws[1],
    }
}

/// The text of the first plain segment of a chain.
pub open spec fn first_plain(chain: Seq<MessageContent>) -> Option<Seq<char>>
    decreases chain.len(),
{
    if chain.len() == 0 {
        None
    } else if chain[0] is Plain {
        Some(chain[0]->Plain_text@)
    } else {
        first_plain(chain.drop_first())
    }
}

/// The help on the command `topic` names (with or without its `!`), or on
/// all commands.
pub open spec fn help_text(topic: Option<Seq<char>>) -> Seq<char> {
    let sub = match topic {
        Some(t) => if t.len() > 0 && t[0] == '!' {
            t
        } else {
            seq!['!'] + t
        },
        None => Seq::empty(),
    };
    if is_bind_kw(sub) {
        HELP_BIND@
    } else if is_confirm_kw(sub) {
        HELP_CONFIRM@
    } else if is_unbind_kw(sub) {
        HELP_UNBIND@
    } else {
        HELP_ALL@
    }
}

/// Help on asking for and answering a bind session.
pub const HELP_BIND: &'static str =
    "申请关联，获取验证码；或者用验证码回应申请\n用法：!关联 [口令]\n口令\t\t选填。无口令时申请；有口令时回应申请\n【申请关联】!关联\n【回应申请】!关联 1a2b3c";

/// Help on confirming a bind session.
pub const HELP_CONFIRM: &'static str = "确定保存关联。无参\n用法: !确认关联";

/// Help on unbinding.
pub const HELP_UNBIND: &'static str =
    "【解除桥用户关联】解除指定平台的关联\n用法：!解除关联 <平台>\n平台\t\t必填，单选。选项：QQ、DC=Discord、TG=Telegram\n【用例】!解除关联 DC";

/// Help on all commands.
pub const HELP_ALL: &'static str =
    "桥的可用指令：\n【申请/回应关联桥用户】!关联 [口令]\n【确认关联】!确认关联\n【解除桥用户关联】!解除关联 <平台>";

/// The feedback after asking for a session, before the token.
pub const REQ_OK: &'static str = "申请成功。请切换客户端，使用验证码回应请求: ";

/// The feedback when no session could be opened.
pub const REQ_FAIL: &'static str = "申请失败，请联系管理员处理。";

/// The feedback after answering a session.
pub const RESP_OK: &'static str = "OK，请回到原客户端进行确认。";

/// The feedback after confirming a session.
pub const CONFIRM_OK: &'static str = "完成关联。";

/// The feedback after unbinding.
pub const UNBIND_OK: &'static str = "已取消关联。";

/// A feedback of one plain segment holding `text`.
pub open spec fn plain_feedback(r: Result<Vec<MessageContent>, String>, text: Seq<char>) -> bool {
    r matches Ok(v) && v@.len() == 1 && v@[0] is Plain && v@[0]->Plain_text@ == text
}

/// A failure whose message is `text`.
pub open spec fn fail_feedback(r: Result<Vec<MessageContent>, String>, text: Seq<char>) -> bool {
    r matches Err(m) && m@ == text
}

/// The feedback for a bind step that ended in `res`; `ok` on success.
pub open spec fn step_feedback(
    r: Result<Vec<MessageContent>, String>,
    res: Result<(), BindErr>,
    ok: Seq<char>,
) -> bool {
    match res {
        Ok(()) => plain_feedback(r, ok),
        Err(e) => fail_feedback(r, bind_err_text(e)),
    }
}

/// The platform code a user wrote: the canonical code when it names a
/// platform, else the text as written.
pub open spec fn code_of(p: Seq<char>) -> Seq<char> {
    match parse_code(p) {
        Some(q) => q.spec_code(),
        None => p,
    }
}

/// A one-segment feedback.
fn plain(text: String) -> (r: Result<Vec<MessageContent>, String>)
    ensures
        plain_feedback(r, text@),
{
    let mut v: Vec<MessageContent> = Vec::new();
    v.push(MessageContent::Plain { text });
    Ok(v)
}

/// The first plain segment of `chain`.
fn find_first_plain(chain: &Vec<MessageContent>) -> (r: Option<&String>)
    ensures
        r matches Some(t) ==> first_plain(chain@) == Some(t@),
        r is None ==> first_plain(chain@) is None,
{
    let n = chain.len();
    assert(chain@.skip(0) =~= chain@);
    for i in 0..n
        invariant
            n == chain@.len(),
            first_plain(chain@) == first_plain(chain@.skip(i as int)),
    {
        assert(chain@.skip(i as int).drop_first() =~= chain@.skip(i + 1));
        match &chain[i] {
            MessageContent::Plain { text } => {
                return Some(text);
            },
            _ => {},
        }
    }
    None
}

/// Whether `w` is one of the two spellings of a keyword.
fn is_kw(w: &Vec<char>, a: &str, b: &str) -> (r: bool)
    ensures
        r == (w@ == a@ || w@ == b@),
{
    chars_eq_str(w, a) || chars_eq_str(w, b)
}

/// The optional argument after the keyword.
fn arg_of(ws: &Vec<Vec<char>>) -> (r: Option<String>)
    ensures
        opt_view(r) == opt_arg(views(ws@)),
{
    if ws.len() == 2 {
        Some(string_of(&ws[1]))
    } else {
        None
    }
}

impl BridgeCommand {
    /// The command that the first plain segment of `chain` holds, if any.
    pub fn parse_chain(chain: &Vec<MessageContent>) -> (r: Option<BridgeCommand>)
        ensures
            r is Some <==> first_plain(chain@) is Some && is_command(
                words(first_plain(chain@)->0),
            ),
            r matches Some(c) ==> command_matches(c, words(first_plain(chain@)->0)),
    {
        let text = match find_first_plain(chain) {
            Some(t) => t,
            None => {
                return None;
            },
        };
        let cs = chars_of(text.as_str());
        let ws = split_words(&cs);
        let ghost wv = views(ws@);
        if ws.len() == 0 || ws.len() > 2 {
            return None;
        }
        proof {
            assert(ws@[0]@ == wv[0]);
            reveal_strlit("!help");
            reveal_strlit("!帮助");
            reveal_strlit("!bind");
            reveal_strlit("!关联");
            reveal_strlit("!confirm-bind");
            reveal_strlit("!确认关联");
            reveal_strlit("!unbind");
            reveal_strlit("!解除关联");
        }
        let kw = &ws[0];
        if is_kw(kw, "!help", "!帮助") {
            return Some(BridgeCommand::Tips { command: arg_of(&ws) });
        }
        if is_kw(kw, "!bind", "!关联") {
            return Some(BridgeCommand::Bind { token: arg_of(&ws) });
        }
        if is_kw(kw, "!confirm-bind", "!确认关联") {
            if ws.len() == 1 {
                return Some(BridgeCommand::ConfirmBind);
            }
            proof {
                assert("!确认关联"@[1] != "!解除关联"@[1]);
                assert("!confirm-bind"@.len() != "!unbind"@.len());
            }
            return None;
        }
        if is_kw(kw, "!unbind", "!解除关联") {
            if ws.len() == 2 {
                assert(ws@[1]@ == wv[1]);
                return Some(BridgeCommand::Unbind { platform: string_of(&ws[1]) });
            }
            return None;
        }
        None
    }
}

/// The help text on `topic`.
pub fn get_help(topic: &Option<String>) -> (r: String)
    ensures
        r@ == help_text(opt_view(*topic)),
{
    let sub: Vec<char> = match topic {
        Some(t) => {
            let cs = chars_of(t.as_str());
            if cs.len() > 0 && cs[0] == '!' {
                cs
            } else {
                let mut v: Vec<char> = Vec::new();
                v.push('!');
                for i in 0..cs.len()
                    invariant
                        v@ == seq!['!'] + cs@.take(i as int),
                {
                    v.push(cs[i]);
                    assert(v@ =~= seq!['!'] + cs@.take(i + 1));
                }
                assert(cs@.take(cs@.len() as int) =~= cs@);
                v
            }
        },
        None => Vec::new(),
    };
    assert(topic is None ==> sub@ =~= Seq::<char>::empty());
    let text = if is_kw(&sub, "!bind", "!关联") {
        HELP_BIND
    } else if is_kw(&sub, "!confirm-bind", "!确认关联") {
        HELP_CONFIRM
    } else if is_kw(&sub, "!unbind", "!解除关联") {
        HELP_UNBIND
    } else {
        HELP_ALL
    };
    String::from_str(text)
}

/// A recognised command and who sent it.
pub struct CommandCentext {
    /// The command.
    pub token: BridgeCommand,
    /// The name of the bridge client it came through.
    pub client: String,
    /// The message that holds it.
    pub src_msg: BridgeMessage,
}

impl CommandCentext {
    /// Recognises the command in `msg`, received through `client`.
    pub fn try_parse(msg: BridgeMessage, client: &str) -> (r: Option<CommandCentext>)
        ensures
            r is Some <==> first_plain(msg.message_chain@) is Some && is_command(
                words(first_plain(msg.message_chain@)->0),
            ),
            r matches Some(c) ==> command_matches(
                c.token,
                words(first_plain(msg.message_chain@)->0),
            ) && c.client@ == client@ && c.src_msg == msg,
    {
        match BridgeCommand::parse_chain(&msg.message_chain) {
            Some(token) => Some(
                CommandCentext { token, client: String::from_str(client), src_msg: msg },
            ),
            None => None,
        }
    }

    /// Carries the command out at `now` and returns its feedback: one plain
    /// segment on success, a message from the fixed table on failure.
    pub fn process_command(
        &self,
        sessions: &mut BindSessions,
        users: &mut BridgeUserManager,
        now: i64,
    ) -> (r: Result<Vec<MessageContent>, String>)
        requires
            old(sessions).wf(),
            old(users).wf(),
        ensures
            final(sessions).wf(),
            final(users).wf(),
            self.token matches BridgeCommand::Tips { command } ==> plain_feedback(
                r,
                help_text(opt_view(command)),
            ) && final(sessions)@ == old(sessions)@ && final(users)@ == old(users)@,
            self.token matches BridgeCommand::Bind { token } ==> final(users)@ == old(users)@
                && match token {
                Some(t) => exists|res: Result<(), BindErr>|
                    #[trigger] resp_ensures(
                        old(sessions)@,
                        final(sessions)@,
                        t@,
                        self.src_msg.sender_id@,
                        old(users)@,
                        now,
                        res,
                    ) && step_feedback(r, res, RESP_OK@),
                None => exists|res: Result<String, ()>|
                    #[trigger] create_ensures(
                        old(sessions)@,
                        final(sessions)@,
                        self.src_msg.sender_id@,
                        now,
                        res,
                    ) && match res {
                        Ok(t) => plain_feedback(r, REQ_OK@ + t@),
                        Err(()) => fail_feedback(r, REQ_FAIL@),
                    },
            },
            self.token is ConfirmBind ==> exists|res: Result<(), BindErr>|
                #[trigger] confirm_ensures(
                    old(sessions)@,
                    final(sessions)@,
                    old(users)@,
                    final(users)@,
                    self.src_msg.sender_id@,
                    now,
                    res,
                ) && step_feedback(r, res, CONFIRM_OK@),
            self.token matches BridgeCommand::Unbind { platform } ==> final(sessions)@ == old(
                sessions,
            )@ && {
                let caller = first_match(old(users)@, by_id(self.src_msg.sender_id@));
                if caller is Some && caller->0.platform@ == code_of(platform@) {
                    fail_feedback(r, bind_err_text(BindErr::SelfReference)) && final(users)@ == old(
                        users,
                    )@
                } else {
                    exists|res: Result<(), BindErr>|
                        #[trigger] unbind_ensures(
                            old(users)@,
                            final(users)@,
                            self.src_msg.sender_id@,
                            code_of(platform@),
                            res,
                        ) && step_feedback(r, res, UNBIND_OK@)
                }
            },
    {
        match &self.token {
            BridgeCommand::Tips { command } => plain(get_help(command)),
            BridgeCommand::Bind { token } => match token {
                Some(t) => {
                    let res = sessions.update_resp(t.as_str(), self.src_msg.sender_id.as_str(), users, now);
                    let r = match res {
                        Ok(()) => plain(String::from_str(RESP_OK)),
                        Err(e) => Err(e.to_string()),
                    };
                    r
                },
                None => {
                    let res = sessions.create_session(self.src_msg.sender_id.as_str(), now);
                    match res {
                        Ok(t) => {
                            let mut text = String::from_str(REQ_OK);
                            text.append(t.as_str());
                            plain(text)
                        },
                        Err(()) => Err(String::from_str(REQ_FAIL)),
                    }
                },
            },
            BridgeCommand::ConfirmBind => {
                let res = sessions.confirm_bind(self.src_msg.sender_id.as_str(), users, now);
                match res {
                    Ok(()) => plain(String::from_str(CONFIRM_OK)),
                    Err(e) => Err(e.to_string()),
                }
            },
            BridgeCommand::Unbind { platform } => {
                let code = match BridgeClientPlatform::from_str(platform.as_str()) {
                    Ok(p) => p.to_string(),
                    Err(_) => platform.clone(),
                };
                match users.get(self.src_msg.sender_id.as_str()) {
                    Some(u) => {
                        if u.platform == code {
                            return Err(BindErr::SelfReference.to_string());
                        }
                    },
                    None => {},
                }
                assert(code@ == code_of(platform@));
                let ghost u0 = users@;
                let res = unbind(self.src_msg.sender_id.as_str(), code.as_str(), users);
                let r = match res {
                    Ok(()) => plain(String::from_str(UNBIND_OK)),
                    Err(e) => Err(e.to_string()),
                };
                assert(unbind_ensures(u0, users@, self.src_msg.sender_id@, code_of(platform@), res));
                r
            },
        }
    }
}

} // verus!
