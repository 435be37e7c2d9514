use message_bridge_rs::config::{ConfigError, QQAuthentication, QQConfig, QQVersion};
use message_bridge_rs::group_message_id::GroupMessageId;
use message_bridge_rs::mirai::Mirai;
use message_bridge_rs::platform::BridgeClientPlatform::{self, Cmd, Discord, Telegram, QQ};
use message_bridge_rs::token::{InvalidFormat, Token};

#[test]
fn ts_display() {
    println!("dc:{}, qq:{}", Discord.to_string(), QQ.to_string());
    assert_eq!(Discord.to_string(), "DC");
    assert_eq!(Cmd.to_string(), "CMD");
    assert_eq!(Telegram.to_string(), "TG");
}

#[test]
fn mod_ts_parse() {
    let q = BridgeClientPlatform::from_str("qQ").ok().unwrap();
    let d = BridgeClientPlatform::from_str("Dc").ok().unwrap();
    println!("parse 'qQ' to enum: {}", q.to_string());
    println!("parse 'Dc' to enum: {}", d.to_string());
    assert_eq!(q, QQ);
    assert_eq!(d, Discord);
    assert!(BridgeClientPlatform::from_str("discord").is_err());
}

#[test]
fn platform_bits() {
    assert_eq!(BridgeClientPlatform::by_value(4), Some(Cmd));
    assert_eq!(BridgeClientPlatform::by_value(3), None);
    assert_eq!(Discord.bitor(QQ), 3);
}

#[test]
fn token_ts_parse() {
    for _ in 0..10 {
        let t = Token::new();
        let c = match Token::from_str(&t.to_string()) {
            Ok(c) => c,
            Err(e) => panic!("{e:?}"),
        };
        assert_eq!(t.val(), c.val());
    }
}

#[test]
fn token_text_and_errors() {
    let t = Token::from_nanos(0x12_3456_78);
    assert_eq!(t.val(), 0x12_3456);
    assert_eq!(t.to_string(), "563412");
    assert_eq!(Token::from_str("  563412 ").ok().map(|t| t.val()), Some(0x12_3456));
    assert!(matches!(Token::from_str("12345"), Err(InvalidFormat::InvalidLength)));
    assert!(matches!(Token::from_str("12x456"), Err(InvalidFormat::InvalidChar('x'))));
    assert!(matches!(Token::from_str("ABCDEF"), Err(InvalidFormat::InvalidChar('A'))));
}

#[test]
fn group_message_id_test() {
    let i1 = GroupMessageId::new(243249439, 6539, 1678267174);
    assert_eq!(i1.to_string(), format!("|{}|{}|{}|", 243249439, 6539, 1678267174));
    println!("{}", i1.to_string());
    let i2 = GroupMessageId::from_bridge_message_id(i1.to_string().as_str()).unwrap();
    println!("{}", i2.to_string());
    assert_eq!(i1.to_string(), i2.to_string());
}

#[test]
fn group_message_id_edges() {
    let n = GroupMessageId::new(u64::MAX, i32::MIN, i64::MIN);
    let back = GroupMessageId::from_bridge_message_id(&n.to_string()).unwrap();
    assert_eq!((back.group_id, back.seqs, back.time), (u64::MAX, i32::MIN, i64::MIN));
    assert!(GroupMessageId::from_bridge_message_id("|18446744073709551616|1|1|").is_none());
    assert!(GroupMessageId::from_bridge_message_id("|1|2").is_none());
    assert!(GroupMessageId::from_bridge_message_id("|1|+2|-3|").is_some());
}

fn qq(auth: &str, bot: Option<i64>, pwd: Option<&str>, version: &str) -> QQConfig {
    QQConfig { bot_id: bot, password: pwd.map(|p| p.to_string()), version: version.to_string(), auth: auth.to_string() }
}

#[test]
fn qq_login_settings() {
    assert_eq!(qq("QR", None, None, "ipad").get_auth(), Ok(QQAuthentication::QRCode));
    assert_eq!(qq("pwd", None, None, "ipad").get_auth(), Err(ConfigError::MissingCredentials));
    assert_eq!(qq("pwd", Some(1), Some("short"), "ipad").get_auth(), Err(ConfigError::BadPasswordLength));
    let ok = qq("Pwd", Some(7), Some("0123456789abcdef"), "ipad").get_auth();
    assert_eq!(ok, Ok(QQAuthentication::UinPasswordMd5(7, *b"0123456789abcdef")));
    assert_eq!(qq("sms", None, None, "ipad").get_auth(), Err(ConfigError::UnsupportedAuth));
    assert_eq!(qq("qr", None, None, "AndroidWatch").get_version(), Ok(QQVersion::AndroidWatch));
    assert_eq!(qq("qr", None, None, "win").get_version(), Err(ConfigError::UnsupportedVersion));
}

#[test]
fn mirai_url() {
    let m = Mirai::builder("localhost", 8080, "key").bind_qq(42).build();
    assert_eq!(m.get_url("/verify"), "http://localhost:8080/verify");
}
