use message_bridge_rs::bind::{unbind, BindErr, BindSessions};
use message_bridge_rs::bus::BridgeService;
use message_bridge_rs::command::{get_help, BridgeCommand, CommandCentext, HELP_ALL, HELP_BIND, HELP_UNBIND};
use message_bridge_rs::config::{BridgeConfig, DiscordBridgeConfig};
use message_bridge_rs::media::{FetchPlan, MediaCache};
use message_bridge_rs::message::{BridgeMessage, MessageContent};
use message_bridge_rs::message_store::{
    BridgeMessageManager, BridgeMessageRefMessageForm, BridgeMessageRefPO, BridgeSendMessageForm,
};
use message_bridge_rs::platform::BridgeClientPlatform;
use message_bridge_rs::translate::{
    from_markdown, render_at, reply_target, resolve_reply, strip_trailing_newlines, to_markdown,
    to_reply_content, MarkdownAst, MentionRender,
};
use message_bridge_rs::user::{BridgeUser, BridgeUserManager, BridgeUserSaveForm};

fn config() -> BridgeConfig {
    BridgeConfig {
        discord: DiscordBridgeConfig { id: 1, token: "t".to_string(), channel_id: 10 },
        qq_group: 20,
        tg_group: 30,
        enable: true,
    }
}

fn form(origin: &str, platform: &str, display: &str) -> BridgeUserSaveForm {
    BridgeUserSaveForm {
        origin_id: origin.to_string(),
        platform: platform.to_string(),
        display_text: display.to_string(),
    }
}

fn message(sender: &str, text: &str) -> BridgeMessage {
    BridgeMessage {
        id: "m".to_string(),
        sender_id: sender.to_string(),
        avatar_url: None,
        bridge_config: config(),
        message_chain: vec![MessageContent::Plain { text: text.to_string() }],
    }
}

fn run(
    text: &str,
    sender: &str,
    sessions: &mut BindSessions,
    users: &mut BridgeUserManager,
    now: i64,
) -> Result<Vec<MessageContent>, String> {
    let cmd = CommandCentext::try_parse(message(sender, text), "bridge_cmd_client").expect("a command");
    cmd.process_command(sessions, users, now)
}

fn plain_text(r: &Result<Vec<MessageContent>, String>) -> String {
    match r {
        Ok(v) => match &v[0] {
            MessageContent::Plain { text } => text.clone(),
            _ => panic!("not plain"),
        },
        Err(e) => panic!("failed: {e}"),
    }
}

struct World {
    users: BridgeUserManager,
    sessions: BindSessions,
    u: BridgeUser,
    v: BridgeUser,
}

fn world() -> World {
    let mut users = BridgeUserManager::new();
    let u = users.likeAndSave(form("111", "QQ", "U")).unwrap();
    let v = users.likeAndSave(form("222", "DC", "V")).unwrap();
    World { users, sessions: BindSessions::new(), u, v }
}

fn token_of(feedback: &str) -> String {
    feedback.rsplit(' ').next().unwrap().to_string()
}

#[test]
fn text_relay_reaches_the_other_adapters() {
    let mut bus = BridgeService::new();
    bus.create_client("bridge_dc_client", BridgeClientPlatform::Discord).unwrap();
    bus.create_client("bridge_qq_client", BridgeClientPlatform::QQ).unwrap();
    bus.create_client("bridge_tg_client", BridgeClientPlatform::Telegram).unwrap();
    assert!(bus.create_client("bridge_qq_client", BridgeClientPlatform::QQ).is_err());
    let r = bus.recipients("bridge_qq_client", &config());
    assert_eq!(r, vec!["bridge_dc_client".to_string(), "bridge_tg_client".to_string()]);
    let mut off = config();
    off.tg_group = 0;
    assert_eq!(bus.recipients("bridge_qq_client", &off), vec!["bridge_dc_client".to_string()]);
    off.enable = false;
    assert!(bus.recipients("bridge_qq_client", &off).is_empty());
    assert_eq!(bus.feedback_recipients("bridge_tg_client"), vec!["bridge_tg_client".to_string()]);
    assert!(bus.feedback_recipients("nobody").is_empty());
}

#[test]
fn bind_happy_path() {
    let mut w = world();
    let fb = plain_text(&run("!bind", &w.u.id, &mut w.sessions, &mut w.users, 0));
    let t = token_of(&fb);
    assert_eq!(t.len(), 6);
    assert!(t.chars().all(|c| c.is_ascii_hexdigit()));
    let fb = plain_text(&run(&format!("!bind {t}"), &w.v.id, &mut w.sessions, &mut w.users, 10));
    assert_eq!(fb, "OK，请回到原客户端进行确认。");
    let fb = plain_text(&run("!confirm-bind", &w.u.id, &mut w.sessions, &mut w.users, 20));
    assert_eq!(fb, "完成关联。");
    let u = w.users.get(&w.u.id).unwrap().clone();
    let ref_id = u.ref_id.clone().unwrap();
    assert_eq!(ref_id.len(), 36);
    let found = w.users.findByRefAndPlatform(&ref_id, "DC").unwrap();
    assert_eq!(found.id, w.v.id);
    let back = w.users.findByRefAndPlatform(&ref_id, "QQ").unwrap();
    assert_eq!(back.id, w.u.id);
    assert!(w.sessions.sessions().is_empty());
}

#[test]
fn self_reference_is_rejected() {
    let mut w = world();
    let fb = plain_text(&run("!关联", &w.u.id, &mut w.sessions, &mut w.users, 0));
    let t = token_of(&fb);
    let r = run(&format!("!关联 {t}"), &w.u.id, &mut w.sessions, &mut w.users, 1);
    assert_eq!(r.err(), Some(BindErr::SelfReference.to_string()));
    assert_eq!(w.sessions.sessions().len(), 1);
    assert!(w.sessions.sessions()[0].resp.is_none());
}

#[test]
fn mentions_are_native_only_where_linked() {
    let mut w = world();
    let fb = plain_text(&run("!bind", &w.u.id, &mut w.sessions, &mut w.users, 0));
    let t = token_of(&fb);
    run(&format!("!bind {t}"), &w.v.id, &mut w.sessions, &mut w.users, 1).unwrap();
    run("!confirm-bind", &w.u.id, &mut w.sessions, &mut w.users, 2).unwrap();
    assert!(matches!(render_at(&w.users, &w.v.id, "DC"), MentionRender::Native(id) if id == "222"));
    assert!(matches!(render_at(&w.users, &w.v.id, "TG"), MentionRender::Text(t) if t == "@V"));
    assert!(matches!(render_at(&w.users, "nobody", "TG"), MentionRender::Text(t) if t == "@[UN] nobody"));
    let tg = message_bridge_rs::telegram::tg_text(&w.users, &w.u, &vec![MessageContent::At { id: w.v.id.clone() }]);
    assert_eq!(tg, Some("[QQ] U : @V".to_string()));
}

fn send_form(sender: &str, platform: &str, origin: &str, chain: Vec<MessageContent>) -> BridgeSendMessageForm {
    BridgeSendMessageForm {
        sender_id: sender.to_string(),
        avatar_url: None,
        bridge_config: config(),
        message_chain: chain,
        origin_message: BridgeMessageRefPO { platform: platform.to_string(), origin_id: origin.to_string() },
    }
}

#[test]
fn reply_across_platforms() {
    let mut store = BridgeMessageManager::new();
    let r = store.save(send_form("s", "DC", "777", vec![]));
    assert!(store.ref_bridge_message(BridgeMessageRefMessageForm {
        bridge_message_id: r.clone(),
        platform: "QQ".to_string(),
        origin_id: "888".to_string(),
    }));
    match resolve_reply(&store, "888", "QQ") {
        MessageContent::Reply { id } => assert_eq!(id, Some(r.clone())),
        _ => panic!("expected a reply"),
    }
    assert_eq!(reply_target(&store, &r, "DC"), Some("777".to_string()));
    assert_eq!(reply_target(&store, &r, "TG"), None);
}

#[test]
fn ambiguous_reply_becomes_a_placeholder() {
    let mut store = BridgeMessageManager::new();
    store.save(send_form("s", "QQ", "888", vec![]));
    store.save(send_form("s", "QQ", "888", vec![]));
    assert!(store.find_by_ref_and_platform("888", "QQ").is_err());
    match resolve_reply(&store, "888", "QQ") {
        MessageContent::Plain { text } => assert_eq!(text, "> {回复消息}\n"),
        _ => panic!("expected the placeholder"),
    }
    match resolve_reply(&store, "999", "QQ") {
        MessageContent::Plain { text } => assert_eq!(text, "> {回复消息}\n"),
        _ => panic!("expected the placeholder"),
    }
}

#[test]
fn refs_stay_one_per_platform() {
    let mut store = BridgeMessageManager::new();
    let r = store.save(send_form("s", "DC", "1", vec![]));
    let add = |p: &str, o: &str| BridgeMessageRefMessageForm {
        bridge_message_id: r.clone(),
        platform: p.to_string(),
        origin_id: o.to_string(),
    };
    assert!(store.ref_bridge_message(add("QQ", "2")));
    assert!(store.ref_bridge_message(add("QQ", "3")));
    assert!(store.ref_bridge_message(add("DC", "4")));
    assert!(!store.ref_bridge_message(BridgeMessageRefMessageForm {
        bridge_message_id: "none".to_string(),
        platform: "TG".to_string(),
        origin_id: "5".to_string(),
    }));
    let m = store.get(&r).unwrap();
    assert_eq!(m.refs.len(), 2);
    assert_eq!(m.refs[1].origin_id, "2");
    assert_eq!(store.find_by_ref_and_platform("2", "QQ").unwrap().unwrap().id, r);
    assert!(store.find_by_ref_and_platform("3", "QQ").unwrap().is_none());
}

#[test]
fn find_or_create_keeps_the_first_record() {
    let mut users = BridgeUserManager::new();
    let a = users.likeAndSave(form("1", "QQ", "first")).unwrap();
    let b = users.likeAndSave(form("1", "QQ", "second")).unwrap();
    assert_eq!(a, b);
    assert_eq!(b.display_text, "first");
    assert_eq!(users.users().len(), 1);
    assert_eq!(a.id.len(), 36);
    assert!(users.save(form("1", "QQ", "x")).is_err());
    let c = users.save_with_id(form("2", "QQ", "x"), a.id.clone());
    assert!(c.is_err());
}

#[test]
fn batch_update_is_all_or_nothing() {
    let mut w = world();
    let mut u = w.u.clone();
    let mut v = w.v.clone();
    u.ref_id = Some("r".to_string());
    v.ref_id = Some("r".to_string());
    assert_eq!(w.users.batch_update(vec![u.clone(), v.clone()]), Ok(2));
    let mut x = w.users.likeAndSave(form("333", "DC", "X")).unwrap();
    x.ref_id = Some("r".to_string());
    assert!(w.users.batch_update(vec![x]).is_err());
    let mut ghost = w.u.clone();
    ghost.id = "missing".to_string();
    assert!(w.users.batch_update(vec![ghost]).is_err());
    assert_eq!(w.users.get("missing"), None);
}

#[test]
fn each_bind_error_has_its_input() {
    let mut w = world();
    let r = run("!bind zz", &w.v.id, &mut w.sessions, &mut w.users, 0);
    assert_eq!(r.err(), Some(BindErr::InvalidToken.to_string()));
    let r = run("!bind 000000", &w.v.id, &mut w.sessions, &mut w.users, 0);
    assert_eq!(r.err(), Some(BindErr::NotFoundToken.to_string()));
    let r = run("!confirm-bind", &w.u.id, &mut w.sessions, &mut w.users, 0);
    assert_eq!(r.err(), Some(BindErr::NoApply.to_string()));
    let t = token_of(&plain_text(&run("!bind", &w.u.id, &mut w.sessions, &mut w.users, 0)));
    let r = run("!confirm-bind", &w.u.id, &mut w.sessions, &mut w.users, 0);
    assert_eq!(r.err(), Some(BindErr::NoResponed.to_string()));
    let r = run(&format!("!bind {t}"), "stranger", &mut w.sessions, &mut w.users, 0);
    assert_eq!(r.err(), Some(BindErr::NotFoundBridgeUser.to_string()));
    let same = w.users.likeAndSave(form("999", "QQ", "W")).unwrap();
    let r = run(&format!("!bind {t}"), &same.id, &mut w.sessions, &mut w.users, 0);
    assert_eq!(r.err(), Some(BindErr::SelfReference.to_string()));
    run(&format!("!bind {t}"), &w.v.id, &mut w.sessions, &mut w.users, 0).unwrap();
    run("!confirm-bind", &w.u.id, &mut w.sessions, &mut w.users, 0).unwrap();
    let t2 = token_of(&plain_text(&run("!bind", &w.u.id, &mut w.sessions, &mut w.users, 0)));
    let r = run(&format!("!bind {t2}"), &w.v.id, &mut w.sessions, &mut w.users, 0);
    assert_eq!(r.err(), Some(BindErr::AlreadyMapping.to_string()));
    let x = w.users.likeAndSave(form("444", "DC", "X")).unwrap();
    run(&format!("!bind {t2}"), &x.id, &mut w.sessions, &mut w.users, 0).unwrap();
    let r = run("!confirm-bind", &w.u.id, &mut w.sessions, &mut w.users, 0);
    assert_eq!(r.err(), Some(BindErr::UpdateBridgeUserFailure.to_string()));
}

#[test]
fn sessions_expire_after_a_day() {
    let mut w = world();
    let t = token_of(&plain_text(&run("!bind", &w.u.id, &mut w.sessions, &mut w.users, 0)));
    let day = 1000 * 3600 * 24;
    let r = run(&format!("!bind {t}"), &w.v.id, &mut w.sessions, &mut w.users, day);
    assert_eq!(r.err(), Some(BindErr::NotFoundToken.to_string()));
    assert!(w.sessions.sessions().is_empty());
}

#[test]
fn live_tokens_are_distinct_and_renewal_replaces() {
    let mut w = world();
    plain_text(&run("!bind", &w.u.id, &mut w.sessions, &mut w.users, 0));
    plain_text(&run("!bind", &w.v.id, &mut w.sessions, &mut w.users, 0));
    plain_text(&run("!bind", &w.u.id, &mut w.sessions, &mut w.users, 0));
    let s = w.sessions.sessions();
    assert_eq!(s.len(), 2);
    assert_ne!(s[0].token, s[1].token);
}

#[test]
fn unbind_clears_the_counterpart_only() {
    let mut w = world();
    let t = token_of(&plain_text(&run("!bind", &w.u.id, &mut w.sessions, &mut w.users, 0)));
    run(&format!("!bind {t}"), &w.v.id, &mut w.sessions, &mut w.users, 0).unwrap();
    run("!confirm-bind", &w.u.id, &mut w.sessions, &mut w.users, 0).unwrap();
    let r = run("!unbind qq", &w.u.id, &mut w.sessions, &mut w.users, 0);
    assert_eq!(r.err(), Some(BindErr::SelfReference.to_string()));
    let fb = plain_text(&run("!unbind dc", &w.u.id, &mut w.sessions, &mut w.users, 0));
    assert_eq!(fb, "已取消关联。");
    assert!(w.users.get(&w.v.id).unwrap().ref_id.is_none());
    assert!(w.users.get(&w.u.id).unwrap().ref_id.is_some());
    assert_eq!(unbind("nobody", "DC", &mut w.users), Err(BindErr::NotFoundBridgeUser));
}

#[test]
fn commands_are_recognised() {
    let parse = |t: &str| BridgeCommand::parse_chain(&vec![MessageContent::Plain { text: t.to_string() }]);
    assert!(matches!(parse("  !bind  "), Some(BridgeCommand::Bind { token: None })));
    assert!(matches!(parse("!bind abc123"), Some(BridgeCommand::Bind { token: Some(t) }) if t == "abc123"));
    assert!(matches!(parse("!确认关联"), Some(BridgeCommand::ConfirmBind)));
    assert!(matches!(parse("!unbind TG"), Some(BridgeCommand::Unbind { platform }) if platform == "TG"));
    assert!(parse("!unbind").is_none());
    assert!(parse("!confirm-bind now").is_none());
    assert!(parse("!bind a b").is_none());
    assert!(parse("bind").is_none());
    assert!(parse("!Bind").is_none());
    let chain = vec![MessageContent::AtAll, MessageContent::Plain { text: "!help bind".to_string() }];
    assert!(matches!(BridgeCommand::parse_chain(&chain), Some(BridgeCommand::Tips { command: Some(c) }) if c == "bind"));
    assert!(BridgeCommand::parse_chain(&vec![MessageContent::AtAll]).is_none());
}

#[test]
fn help_topics() {
    assert_eq!(get_help(&Some("bind".to_string())), HELP_BIND);
    assert_eq!(get_help(&Some("!解除关联".to_string())), HELP_UNBIND);
    assert_eq!(get_help(&None), HELP_ALL);
    assert_eq!(get_help(&Some("other".to_string())), HELP_ALL);
    let mut w = world();
    let fb = plain_text(&run("!help", &w.u.id, &mut w.sessions, &mut w.users, 0));
    assert_eq!(fb, HELP_ALL);
}

#[test]
fn markdown_round_trip_of_text_and_everyone() {
    let users = BridgeUserManager::new();
    let chain = vec![
        MessageContent::Plain { text: "hi ".to_string() },
        MessageContent::AtAll,
        MessageContent::Plain { text: "there".to_string() },
    ];
    let back = from_markdown(&users, &to_markdown(&chain));
    assert_eq!(format!("{:?}", back), format!("{:?}", chain));
}

#[test]
fn markdown_nodes_become_segments() {
    let mut users = BridgeUserManager::new();
    let v = users.likeAndSave(form("55", "DC", "V")).unwrap();
    let asts = vec![
        MarkdownAst::DiscordAtUser { id: "55".to_string() },
        MarkdownAst::DiscordAtUser { id: "66".to_string() },
        MarkdownAst::DiscordAtHere,
        MarkdownAst::DiscordEmoji { id: "9".to_string(), name: "e".to_string(), animated: true },
        MarkdownAst::At { username: "bob".to_string() },
    ];
    let c = from_markdown(&users, &asts);
    assert!(matches!(&c[0], MessageContent::At { id } if *id == v.id));
    assert!(matches!(&c[1], MessageContent::Plain { text } if text == "@66"));
    assert!(matches!(&c[2], MessageContent::AtAll));
    assert!(matches!(&c[3], MessageContent::Image(message_bridge_rs::message::Image::Url(u)) if u == "https://cdn.discordapp.com/emojis/9.gif"));
    assert!(matches!(&c[4], MessageContent::Plain { text } if text == "bob"));
    let s = strip_trailing_newlines(vec![
        MarkdownAst::Plain { text: "a".to_string() },
        MarkdownAst::Plain { text: "\n".to_string() },
        MarkdownAst::Plain { text: "\n".to_string() },
        MarkdownAst::Plain { text: "\n".to_string() },
    ]);
    assert_eq!(s.len(), 2);
}

#[test]
fn reply_preview_is_quoted() {
    let mut users = BridgeUserManager::new();
    let s = users.likeAndSave(form("1", "QQ", "Sam")).unwrap();
    let mut store = BridgeMessageManager::new();
    let chain = vec![
        MessageContent::Plain { text: "hello\nworld".to_string() },
        MessageContent::At { id: "ghost".to_string() },
    ];
    let id = store.save(send_form(&s.id, "QQ", "1", chain));
    let m = store.get(&id).unwrap();
    let lines = to_reply_content(&users, m, "DC");
    assert_eq!(lines, vec![
        "> 回复 @Sam 的消息\n".to_string(),
        "> hello\n".to_string(),
        "> world@[UN] ghost\n".to_string(),
    ]);
}

#[test]
fn media_is_fetched_once() {
    let mut cache = MediaCache::new();
    assert!(matches!(cache.plan("http://x/a.png"), FetchPlan::Download));
    cache.record("http://x/a.png", "cache/a.png".to_string());
    for _ in 0..3 {
        assert!(matches!(cache.plan("http://x/a.png"), FetchPlan::Cached(p) if p == "cache/a.png"));
    }
    cache.record("http://x/a.png", "cache/other.png".to_string());
    assert!(matches!(cache.plan("http://x/a.png"), FetchPlan::Cached(p) if p == "cache/a.png"));
    assert!(matches!(cache.plan("http://x/b.png"), FetchPlan::Download));
}
