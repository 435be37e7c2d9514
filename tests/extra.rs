use message_bridge_rs::discord::{discord_parts, inbound_chain, DiscordPart};
use message_bridge_rs::telegram::{tg_images, tg_inbound_chain, tg_text, TgEntity};
use message_bridge_rs::translate::MarkdownAst;
use message_bridge_rs::message::{Image, MessageContent};
use message_bridge_rs::qq::{group_message_chain, qq_parts, QQElem, QQPart};
use message_bridge_rs::mention::{parse_text_mention_rule, MentionText};
use message_bridge_rs::bind_map::{add_bind, retain_valid, BindKey, User};
use message_bridge_rs::cmd_adapter::{try_bind, try_cache_bind};
use message_bridge_rs::config::{
    find_cfg_by_channel, find_cfg_by_group, find_cfg_by_tg_group, is_own_author, BridgeConfig, Config,
    DiscordBridgeConfig, DiscordConfig, QQConfig, TelegramConfig,
};
use message_bridge_rs::history::{BridgeMessageHistory, Platform};
use message_bridge_rs::platform::BridgeClientPlatform::{Discord, QQ};
use message_bridge_rs::user::{qq_avatar_url, BridgeUserManager, BridgeUserSaveForm};

fn mapping(channel: u64, qq: u64, tg: i64, enable: bool) -> BridgeConfig {
    BridgeConfig {
        discord: DiscordBridgeConfig { id: 100 + channel, token: "t".to_string(), channel_id: channel },
        qq_group: qq,
        tg_group: tg,
        enable,
    }
}

fn full_config() -> Config {
    Config {
        print_qr: None,
        qq_config: QQConfig { bot_id: None, password: None, version: "ipad".to_string(), auth: "qr".to_string() },
        discord_config: DiscordConfig { bot_id: 7, bot_token: "x".to_string() },
        telegram_config: TelegramConfig { api_id: 1, api_hash: "h".to_string(), bot_token: "b".to_string() },
        bridges: vec![mapping(1, 11, -1, false), mapping(2, 11, -2, true), mapping(3, 33, -3, true)],
    }
}

#[test]
fn mappings_are_found_by_group_and_channel() {
    let c = full_config();
    assert_eq!(find_cfg_by_group(&c.bridges, 11).unwrap().discord.channel_id, 2);
    assert!(find_cfg_by_group(&c.bridges, 12).is_none());
    assert_eq!(find_cfg_by_tg_group(&c.bridges, -3).unwrap().qq_group, 33);
    assert!(find_cfg_by_tg_group(&c.bridges, -1).is_none());
    assert_eq!(find_cfg_by_channel(&c.bridges, 3).unwrap().qq_group, 33);
    assert!(find_cfg_by_channel(&c.bridges, 1).is_none());
    assert!(is_own_author(&c, 7));
    assert!(is_own_author(&c, 101));
    assert!(!is_own_author(&c, 5));
}

#[test]
fn history_insert_and_find() {
    let mut h = BridgeMessageHistory::from_list(Vec::new());
    assert!(h.insert("bridge_1", Platform::QQ, "qq_1").is_ok());
    assert!(h.insert("bridge_1", Platform::Discord, "dc_1").is_ok());
    assert!(h.insert("bridge_1", Platform::QQ, "qq_1").is_err());
    assert!(h.insert("bridge_2", Platform::QQ, "qq_2").is_ok());
    assert_eq!(h.find_all().len(), 2);
    assert_eq!(h.find_all()[0].message.len(), 2);
    assert_eq!(h.find_by_message_id(Platform::Discord, "dc_1").unwrap().id, "bridge_1");
    assert_eq!(h.find_by_message_id(Platform::QQ, "qq_2").unwrap().id, "bridge_2");
    assert!(h.find_by_message_id(Platform::Discord, "qq_2").is_none());
}

fn user(unique_id: u64, display_id: u64, platform: message_bridge_rs::platform::BridgeClientPlatform) -> User {
    User { name: String::new(), avatar_url: None, unique_id, display_id, platform_id: 0, platform }
}

#[test]
fn bind_requests_wait_for_their_answer() {
    let mut data: Vec<(BindKey, BindKey)> = Vec::new();
    let mut caches = Vec::new();
    let a = user(1111, 11, Discord);
    let b = user(2222, 22, QQ);
    let r = try_cache_bind(&data, &a, &mut caches, Some(vec!["qq".to_string(), "2222".to_string()]), 0);
    assert_eq!(r, "已记录，30秒后失效。");
    let r = try_cache_bind(&data, &a, &mut caches, Some(vec!["qq".to_string(), "2222".to_string()]), 10);
    assert_eq!(r, "已记录，30秒后失效。");
    assert_eq!(caches.len(), 1);
    assert_eq!(try_bind(&mut data, &user(3333, 33, QQ), &mut caches, 20), "");
    assert_eq!(try_bind(&mut data, &b, &mut caches, 20), "绑定完成");
    assert_eq!(data.len(), 1);
    assert!(caches.is_empty());
    let r = try_cache_bind(&data, &a, &mut caches, Some(vec!["qq".to_string(), "2222".to_string()]), 30);
    assert_eq!(r, "此用户已绑定");
    let r = try_cache_bind(&data, &a, &mut caches, Some(vec!["zz".to_string(), "1".to_string()]), 30);
    assert!(r.starts_with("!帮助"));
    try_cache_bind(&data, &a, &mut caches, Some(vec!["qq".to_string(), "4444".to_string()]), 40);
    assert_eq!(try_bind(&mut data, &user(4444, 44, QQ), &mut caches, 40 + 30_001), "");
    assert!(caches.is_empty());
}

#[test]
fn loaded_pairs_need_platforms() {
    let mut data = Vec::new();
    add_bind(&mut data, &user(1, 1, Discord), &user(2, 2, QQ));
    data.push((BindKey { platform: 0, unique_id: 3, display_id: 3 }, BindKey { platform: 2, unique_id: 4, display_id: 4 }));
    retain_valid(&mut data);
    assert_eq!(data.len(), 1);
}

#[test]
fn linked_account_on_a_platform() {
    let mut users = BridgeUserManager::new();
    let mut u = users.likeAndSave(BridgeUserSaveForm::qq(111, "U")).unwrap();
    let mut v = users.likeAndSave(BridgeUserSaveForm::discord(222, "V", 42)).unwrap();
    assert_eq!(u.display_text, "U(111)");
    assert_eq!(v.display_text, "V#42");
    assert!(u.find_by_platform(&users, "DC").is_none());
    u.ref_id = Some("r".to_string());
    v.ref_id = Some("r".to_string());
    users.batch_update(vec![u.clone(), v.clone()]).unwrap();
    assert_eq!(u.find_by_platform(&users, "DC").unwrap().id, v.id);
    let t = BridgeUserSaveForm::telegram(-5, "T");
    assert_eq!((t.origin_id.as_str(), t.display_text.as_str(), t.platform.as_str()), ("-5", "T(-5)", "TG"));
    assert_eq!(qq_avatar_url(243249439), "https://q1.qlogo.cn/g?b=qq&nk=243249439&s=100");
}

#[test]
fn written_discord_mentions_are_split_out() {
    let text = "test qq 1 @[DC] 6uopdong#4700你看看@[DC] rabbitkiller#7372".to_string();
    let pieces = parse_text_mention_rule(text);
    let shown: Vec<String> = pieces
        .iter()
        .map(|p| match p {
            MentionText::Text(t) => format!("T:{t}"),
            MentionText::MentionText { name, discriminator } => format!("M:{name}#{discriminator}"),
        })
        .collect();
    assert_eq!(shown, vec!["T:test qq 1 ", "M:6uopdong#4700", "T:你看看", "M:rabbitkiller#7372"]);
    let p = parse_text_mention_rule("@[DC] #12345 tail".to_string());
    assert_eq!(p.len(), 3);
    assert!(matches!(&p[1], MentionText::MentionText { name, discriminator } if name.is_empty() && discriminator == "1234"));
    assert!(matches!(&p[2], MentionText::Text(t) if t == "5 tail"));
    assert!(parse_text_mention_rule(String::new()).is_empty());
    let p = parse_text_mention_rule("@[DC] a#12".to_string());
    assert!(matches!(&p[..], [MentionText::Text(t)] if t == "@[DC] a#12"));
}

#[test]
fn qq_elements_become_segments() {
    let mut users = BridgeUserManager::new();
    let q = users.likeAndSave(BridgeUserSaveForm::qq(42, "Q")).unwrap();
    let mut store = message_bridge_rs::message_store::BridgeMessageManager::new();
    let gid = message_bridge_rs::group_message_id::GroupMessageId::new(9, 8, 7).to_string();
    let rid = store
        .save(message_bridge_rs::message_store::BridgeSendMessageForm {
            sender_id: q.id.clone(),
            avatar_url: None,
            bridge_config: mapping(1, 9, 0, true),
            message_chain: vec![],
            origin_message: message_bridge_rs::message_store::BridgeMessageRefPO {
                platform: "QQ".to_string(),
                origin_id: gid,
            },
        });
    let elems = vec![
        QQElem::At { target: 42, display: "@Q".to_string() },
        QQElem::At { target: 43, display: "@R".to_string() },
        QQElem::Text("hi".to_string()),
        QQElem::GroupImage { url: "u".to_string(), path: Some("cache/x.png".to_string()) },
        QQElem::GroupImage { url: "u".to_string(), path: None },
        QQElem::Reply { group: 9, seq: 8, time: 7 },
        QQElem::Other,
    ];
    let c = group_message_chain(&users, &store, &elems);
    assert!(matches!(&c[0], MessageContent::At { id } if *id == q.id));
    assert!(matches!(&c[1], MessageContent::Plain { text } if text == "@43"));
    assert!(matches!(&c[2], MessageContent::Plain { text } if text == "hi"));
    assert!(matches!(&c[3], MessageContent::Image(Image::Path(p)) if p == "cache/x.png"));
    assert!(matches!(&c[4], MessageContent::Image(Image::Url(u)) if u == "u"));
    assert!(matches!(&c[5], MessageContent::Reply { id: Some(r) } if *r == rid));
    assert!(matches!(&c[6], MessageContent::Plain { text } if text == "[未处理]"));
    let parts = qq_parts(&users, &vec![
        MessageContent::At { id: q.id.clone() },
        MessageContent::Plain { text: "x".to_string() },
        MessageContent::AtAll,
    ]);
    assert!(matches!(&parts[0], QQPart::Text(t) if t == "@Q(42)"));
    assert!(matches!(&parts[1], QQPart::Text(t) if t == "x"));
    assert!(matches!(&parts[2], QQPart::AtAll));
}

#[test]
fn linked_qq_mention_is_native() {
    let mut users = BridgeUserManager::new();
    let mut q = users.likeAndSave(BridgeUserSaveForm::qq(42, "Q")).unwrap();
    let mut d = users.likeAndSave(BridgeUserSaveForm::discord(7, "D", 1)).unwrap();
    q.ref_id = Some("r".to_string());
    d.ref_id = Some("r".to_string());
    users.batch_update(vec![q, d.clone()]).unwrap();
    let parts = qq_parts(&users, &vec![message_bridge_rs::message::MessageContent::At { id: d.id.clone() }]);
    assert!(matches!(&parts[0], QQPart::At(42)));
}

#[test]
fn discord_parts_follow_the_chain() {
    let users = BridgeUserManager::new();
    let mut store = message_bridge_rs::message_store::BridgeMessageManager::new();
    let rid = store
        .save(message_bridge_rs::message_store::BridgeSendMessageForm {
            sender_id: "s".to_string(),
            avatar_url: None,
            bridge_config: mapping(1, 9, 0, true),
            message_chain: vec![MessageContent::Plain { text: "old".to_string() }],
            origin_message: message_bridge_rs::message_store::BridgeMessageRefPO {
                platform: "DC".to_string(),
                origin_id: "777".to_string(),
            },
        });
    let parts = discord_parts(&users, &store, &vec![
        MessageContent::Plain { text: "a @[DC] b#1234".to_string() },
        MessageContent::At { id: "x".to_string() },
        MessageContent::Image(Image::Url("u".to_string())),
        MessageContent::Reply { id: Some(rid) },
        MessageContent::Reply { id: Some("none".to_string()) },
        MessageContent::AtAll,
    ]);
    assert!(matches!(&parts[0], DiscordPart::Text(v) if v.len() == 2));
    assert!(matches!(&parts[1], DiscordPart::MentionText(t) if t == "@[UN] x"));
    assert!(matches!(&parts[2], DiscordPart::Attachment(Image::Url(u)) if u == "u"));
    match &parts[3] {
        DiscordPart::Reply { target, quote } => {
            assert_eq!(target.as_deref(), Some("777"));
            assert_eq!(quote, &vec!["> 回复 @[UN] s 的消息\n".to_string(), "> old\n".to_string()]);
        }
        _ => panic!("expected a reply"),
    }
    assert!(matches!(&parts[4], DiscordPart::UnknownReply));
    assert!(matches!(&parts[5], DiscordPart::Nothing));
}

#[test]
fn telegram_text_and_images() {
    let mut users = BridgeUserManager::new();
    let u = users.likeAndSave(BridgeUserSaveForm::qq(1, "A")).unwrap();
    assert_eq!(u.to_string(), "[QQ] A(1)");
    let chain = vec![
        MessageContent::Plain { text: "hello ".to_string() },
        MessageContent::Image(Image::Url("u1".to_string())),
        MessageContent::AtAll,
        MessageContent::Plain { text: "world".to_string() },
        MessageContent::Image(Image::Path("p1".to_string())),
    ];
    assert_eq!(tg_text(&users, &u, &chain), Some("[QQ] A(1) : hello world".to_string()));
    assert_eq!(tg_text(&users, &u, &vec![MessageContent::AtAll]), None);
    let only_mention = vec![MessageContent::At { id: u.id.clone() }];
    assert_eq!(tg_text(&users, &u, &only_mention), Some("[QQ] A(1) : @A(1)".to_string()));
    let imgs = tg_images(&chain);
    assert_eq!(imgs.len(), 2);
    assert!(matches!(&imgs[1], Image::Path(p) if p == "p1"));
}

#[test]
fn discord_inbound_keeps_attachments_last() {
    let users = BridgeUserManager::new();
    let c = inbound_chain(
        &users,
        &vec![MarkdownAst::Plain { text: "hi".to_string() }, MarkdownAst::DiscordAtEveryone],
        &vec!["a.png".to_string(), "b.png".to_string()],
    );
    assert_eq!(c.len(), 4);
    assert!(matches!(&c[1], MessageContent::AtAll));
    assert!(matches!(&c[3], MessageContent::Image(Image::Url(u)) if u == "b.png"));
}

#[test]
fn telegram_inbound_cuts_text_at_mentions() {
    let text: Vec<char> = "hi @bob and Ann!".chars().collect();
    let es = Some(vec![
        TgEntity::Mention { offset: 3, length: 4 },
        TgEntity::Other,
        TgEntity::MentionName { offset: 12, length: 3 },
        TgEntity::Mention { offset: 10, length: 50 },
    ]);
    let c = tg_inbound_chain(&text, &es, Some(vec![1, 2, 3]));
    let shown: Vec<String> = c
        .iter()
        .map(|m| match m {
            MessageContent::Plain { text } => text.clone(),
            MessageContent::Image(Image::Buff(b)) => format!("img{}", b.len()),
            _ => "?".to_string(),
        })
        .collect();
    assert_eq!(shown, vec!["img3", "hi ", "@bob", " and ", "@Ann", "!"]);
    let plain = tg_inbound_chain(&text, &None, None);
    assert!(matches!(&plain[..], [MessageContent::Plain { text }] if text == "hi @bob and Ann!"));
    assert!(tg_inbound_chain(&Vec::new(), &None, None).is_empty());
    let huge = Some(vec![TgEntity::Mention { offset: usize::MAX, length: usize::MAX }]);
    assert_eq!(tg_inbound_chain(&text, &huge, None).len(), 1);
}

#[test]
fn whitespace_agrees_with_std() {
    let mut c: u32 = 0;
    while c <= 0x10FFFF {
        if let Some(ch) = char::from_u32(c) {
            let words = message_bridge_rs::text::split_words(&vec!['a', ch, 'b']);
            assert_eq!(words.len() == 2, ch.is_whitespace(), "{c:x}");
        }
        c += 1;
    }
}

#[test]
fn bind_lookup_takes_the_users_side() {
    let mut data = Vec::new();
    let u1 = user(5, 5, Discord);
    let u2 = user(5, 5, QQ);
    assert!(add_bind(&mut data, &u1, &u2));
    let from1 = message_bridge_rs::bind_map::get_bind(&data, &u1, QQ).unwrap();
    let from2 = message_bridge_rs::bind_map::get_bind(&data, &u2, Discord).unwrap();
    assert_eq!(from1.platform, QQ);
    assert_eq!(from2.platform, Discord);
}

#[test]
fn save_and_ref_keeps_the_native_copy() {
    let mut store = message_bridge_rs::message_store::BridgeMessageManager::new();
    let id = store.save_and_ref(message_bridge_rs::message_store::BridgeMessageSaveAndRefForm {
        platform: "QQ".to_string(),
        origin_id: "1".to_string(),
        message_chain: vec![],
    });
    assert_eq!(store.find_by_ref_and_platform("1", "QQ").unwrap().unwrap().id, id);
}
