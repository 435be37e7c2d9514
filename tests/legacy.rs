use message_bridge_rs::bind_map::{add_bind, get_bind, rm_bind_pair, rm_user_all_bind, BindKey, BindMeta, MetaUnit, User};
use message_bridge_rs::cmd::{kind, Cmd};
use message_bridge_rs::cmd_adapter::{get_help, is_mapping, parse_bind_args, try_unbind};
use message_bridge_rs::message::MessageContent;
use message_bridge_rs::platform::BridgeClientPlatform::{self, Discord, QQ};

fn emp() -> String {
    "".to_string()
}

fn user(unique_id: u64, display_id: u64, platform: BridgeClientPlatform) -> User {
    User {
        name: emp(),
        avatar_url: None,
        unique_id,
        display_id,
        platform_id: display_id,
        platform,
    }
}

fn get_users() -> Vec<User> {
    vec![
        user(111_111, 111, Discord),
        user(222_222, 222, QQ),
        user(333_333, 333, Discord),
        user(444_444, 444, QQ),
        user(555_555, 555, Discord),
        user(666_666, 666, Discord),
    ]
}

fn filled() -> Vec<(BindKey, BindKey)> {
    let uls = get_users();
    let mut data = Vec::new();
    add_bind(&mut data, &uls[0], &uls[1]);
    add_bind(&mut data, &uls[2], &uls[3]);
    add_bind(&mut data, &uls[4], &uls[1]);
    add_bind(&mut data, &uls[5], &uls[2]);
    data
}

#[test]
fn ts_get_args() {
    let inp = "!绑定 dc 123456789";
    println!("inp: '{}'", inp);
    let args = Cmd::Bind.get_args(inp);
    for (x, a) in args.iter().enumerate() {
        println!("{}: {:?}", x, a);
    }
    assert_eq!(args, Some(vec!["dc".to_string(), "123456789".to_string()]));
}

#[test]
fn add() {
    let uls = get_users();
    let mut data = Vec::new();
    assert!(add_bind(&mut data, &uls[0], &uls[1]));
    assert!(add_bind(&mut data, &uls[2], &uls[3]));
    assert!(add_bind(&mut data, &uls[4], &uls[1]));
    assert!(add_bind(&mut data, &uls[5], &uls[2]));
    println!("add 4 mapping: {}", data.len());
    assert_eq!(data.len(), 4);
    assert!(!add_bind(&mut data, &uls[1], &uls[0]));
    assert_eq!(data.len(), 4);
}

#[test]
fn get() {
    let data = filled();
    let u1 = User { name: "".to_string(), avatar_url: None, unique_id: 111_111, display_id: 111, platform_id: 111, platform: Discord };
    let u2 = User { name: "".to_string(), avatar_url: None, unique_id: 0, display_id: 0, platform_id: 0, platform: QQ };
    match get_bind(&data, &u1, QQ) {
        None => println!("{} no mapping", u1.unique_id),
        Some(u2) => println!("{} map to {}", u1.unique_id, u2.unique_id),
    }
    match get_bind(&data, &u2, Discord) {
        None => println!("{} no mapping user", u2.unique_id),
        Some(u3) => println!("{} map to {}", u2.unique_id, u3.unique_id),
    }
    let m = get_bind(&data, &u1, QQ).unwrap();
    assert_eq!((m.platform, m.unique_id, m.display_id), (QQ, 222_222, 222));
    assert!(get_bind(&data, &u2, Discord).is_none());
    assert!(get_bind(&data, &u1, Discord).is_none());
}

#[test]
fn rm() {
    let uls = get_users();
    let mut data = filled();
    rm_bind_pair(&mut data, &uls[0], &uls[1]);
    rm_bind_pair(&mut data, &uls[2], &uls[3]);
    assert_eq!(data.len(), 2);
}

#[test]
fn rm_all() {
    let uls = get_users();
    let mut data = filled();
    rm_user_all_bind(&mut data, &uls[1]);
    assert_eq!(data.len(), 2);
}

#[test]
fn legacy_kind_recognises_each_command() {
    let chain = |t: &str| vec![MessageContent::Plain { text: t.to_string() }];
    assert!(matches!(kind(&chain("!确认绑定")), Some((Cmd::ConfirmBind, None))));
    assert!(matches!(kind(&chain("！帮助 一下")), Some((Cmd::Help, None))));
    match kind(&chain("!bind qq 12345")) {
        Some((Cmd::Bind, Some(args))) => assert_eq!(args, vec!["qq".to_string(), "12345".to_string()]),
        _ => panic!("bind not recognised"),
    }
    match kind(&chain("!unbind qq")) {
        Some((Cmd::Unbind, Some(args))) => assert_eq!(args, vec!["qq".to_string()]),
        _ => panic!("unbind not recognised"),
    }
    assert!(kind(&chain("hello !bind qq 12345")).is_none());
    assert!(kind(&chain("!bind qq 123")).is_none());
    assert!(kind(&vec![MessageContent::AtAll, MessageContent::Plain { text: "!确认绑定".to_string() }]).is_some());
}

#[test]
fn legacy_args_and_help() {
    assert_eq!(parse_bind_args(&vec!["dc".to_string(), "1234".to_string()]), Some((Discord, 1234)));
    assert_eq!(parse_bind_args(&vec!["xx".to_string(), "1234".to_string()]), None);
    assert_eq!(parse_bind_args(&vec!["dc".to_string()]), None);
    let h = get_help(&user(1, 1, Discord));
    assert_eq!(h, "!帮助\n!ping\n!绑定 qq [qq号]\n!确认绑定\n!解除绑定\n!查看绑定状态");
    let data = filled();
    assert!(is_mapping(&data, (Discord, 111_111), (QQ, 222_222)));
    assert!(!is_mapping(&data, (Discord, 111_111), (QQ, 444_444)));
}

#[test]
fn legacy_unbind() {
    let uls = get_users();
    let mut data = filled();
    assert_eq!(try_unbind(&mut data, &uls[0], &vec!["dc".to_string()]), "原地TP？");
    assert_eq!(try_unbind(&mut data, &uls[0], &vec!["qq".to_string()]), "已解除绑定");
    assert_eq!(data.len(), 3);
    assert_eq!(try_unbind(&mut data, &uls[0], &vec!["qq".to_string()]), "未向此平台绑定用户");
}

#[test]
fn bind_meta_is_symmetric() {
    let a = BindMeta::new((Discord, 1), (QQ, 2));
    let b = BindMeta::new((QQ, 2), (Discord, 1));
    assert!(a == b);
    assert!(a != BindMeta::new((QQ, 3), (Discord, 1)));
    let u = MetaUnit { platform: QQ, user: 9 }.to_user();
    assert_eq!((u.platform, u.unique_id, u.display_id), (QQ, 9, 0));
}
