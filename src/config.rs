//! The bridge's configuration, as plain values.

use vstd::prelude::*;
use vstd::utf8::encode_utf8;

verus! {

/// The Discord side of a channel mapping: the webhook and the channel.
pub struct DiscordBridgeConfig {
    /// The webhook id.
    pub id: u64,
    /// The webhook token.
    pub token: String,
    /// The channel the mapping relays.
    pub channel_id: u64,
}

impl Clone for DiscordBridgeConfig {
    fn clone(&self) -> (r: Self)
        ensures
            r == *self,
    {
        DiscordBridgeConfig { id: self.id, token: self.token.clone(), channel_id: self.channel_id }
    }
}

/// One channel mapping: the groups on each platform that mirror each other.
pub struct BridgeConfig {
    pub discord: DiscordBridgeConfig,
    pub qq_group: u64,
    pub tg_group: i64,
    pub enable: bool,
}

impl Clone for BridgeConfig {
    fn clone(&self) -> (r: Self)
        ensures
            r == *self,
    {
        BridgeConfig {
            discord: self.discord.clone(),
            qq_group: self.qq_group,
            tg_group: self.tg_group,
            enable: self.enable,
        }
    }
}

/// The bot account on Discord.
pub struct DiscordConfig {
    pub bot_id: u64,
    pub bot_token: String,
}

/// The bot account on Telegram.
pub struct TelegramConfig {
    pub api_id: i32,
    pub api_hash: String,
    pub bot_token: String,
}

/// How the QQ bot logs in.
#[derive(PartialEq, Eq, Debug, Clone, Copy)]
pub enum QQAuthentication {
    /// Account and the MD5 digest of its password, as 16 bytes of text.
    UinPasswordMd5(i64, [u8; 16]),
    /// A QR code scanned with the phone.
    QRCode,
}

/// The client protocol the QQ bot presents.
#[derive(PartialEq, Eq, Debug, Clone, Copy, Structural)]
pub enum QQVersion {
    IPad,
    MacOS,
    QiDian,
    AndroidPhone,
    AndroidWatch,
}

/// A configuration that cannot be used.
#[derive(PartialEq, Eq, Debug, Clone, Copy, Structural)]
pub enum ConfigError {
    /// Password login without both `botId` and `password`.
    MissingCredentials,
    /// A password that is not 16 bytes of MD5 text.
    BadPasswordLength,
    /// An `auth` other than `pwd` and `qr`.
    UnsupportedAuth,
    /// A `version` that names no known protocol.
    UnsupportedVersion,
}

/// The QQ bot's settings.
pub struct QQConfig {
    pub bot_id: Option<i64>,
    pub password: Option<String>,
    pub version: String,
    pub auth: String,
}

/// The whole configuration file.
pub struct Config {
    pub print_qr: Option<bool>,
    pub qq_config: QQConfig,
    pub discord_config: DiscordConfig,
    pub telegram_config: TelegramConfig,
    pub bridges: Vec<BridgeConfig>,
}

/// Mappings that relay QQ group `g`.
pub open spec fn for_qq_group(g: u64) -> spec_fn(BridgeConfig) -> bool {
    |c: BridgeConfig| c.enable && c.qq_group == g
}

/// Mappings that relay Telegram group `g`.
pub open spec fn for_tg_group(g: i64) -> spec_fn(BridgeConfig) -> bool {
    |c: BridgeConfig| c.enable && c.tg_group == g
}

/// Mappings that relay Discord channel `ch`.
pub open spec fn for_channel(ch: u64) -> spec_fn(BridgeConfig) -> bool {
    |c: BridgeConfig| c.enable && c.discord.channel_id == ch
}

/// The first mapping of `s` that `p` accepts.
pub open spec fn first_cfg(s: Seq<BridgeConfig>, p: spec_fn(BridgeConfig) -> bool) -> Option<
    BridgeConfig,
>
    decreases s.len(),
{
    if s.len() == 0 {
        None
    } else if p(s[0]) {
        Some(s[0])
    } else {
        first_cfg(s.drop_first(), p)
    }
}

/// A scan past `i` refused mappings finds the first match at `i`, or none
/// at the end.
proof fn lemma_first_cfg(s: Seq<BridgeConfig>, p: spec_fn(BridgeConfig) -> bool, i: int)
    requires
        0 <= i <= s.len(),
        forall|k: int| 0 <= k < i ==> !p(#[trigger] s[k]),
    ensures
        i < s.len() && p(s[i]) ==> first_cfg(s, p) == Some(s[i]),
        i == s.len() ==> first_cfg(s, p) is None,
    decreases i,
{
    if i > 0 {
        let t = s.drop_first();
        assert forall|k: int| 0 <= k < i - 1 implies !p(#[trigger] t[k]) by {
            assert(t[k] == s[k + 1]);
        }
        lemma_first_cfg(t, p, i - 1);
        if i < s.len() {
            assert(t[i - 1] == s[i]);
        }
    }
}

/// The enabled mapping that relays QQ group `group_id`.
pub fn find_cfg_by_group(bridges: &Vec<BridgeConfig>, group_id: u64) -> (r: Option<&BridgeConfig>)
    ensures
        r matches Some(c) ==> first_cfg(bridges@, for_qq_group(group_id)) == Some(*c),
        r is None ==> first_cfg(bridges@, for_qq_group(group_id)) is None,
{
    let n = bridges.len();
    for i in 0..n
        invariant
            n == bridges@.len(),
            forall|k: int| 0 <= k < i ==> !for_qq_group(group_id)(#[trigger] bridges@[k]),
    {
        if bridges[i].enable && bridges[i].qq_group == group_id {
            proof {
                lemma_first_cfg(bridges@, for_qq_group(group_id), i as int);
            }
            return Some(&bridges[i]);
        }
    }
    proof {
        lemma_first_cfg(bridges@, for_qq_group(group_id), n as int);
    }
    None
}

/// The enabled mapping that relays Telegram group `group_id`.
pub fn find_cfg_by_tg_group(bridges: &Vec<BridgeConfig>, group_id: i64) -> (r: Option<
    &BridgeConfig,
>)
    ensures
        r matches Some(c) ==> first_cfg(bridges@, for_tg_group(group_id)) == Some(*c),
        r is None ==> first_cfg(bridges@, for_tg_group(group_id)) is None,
{
    let n = bridges.len();
    for i in 0..n
        invariant
            n == bridges@.len(),
            forall|k: int| 0 <= k < i ==> !for_tg_group(group_id)(#[trigger] bridges@[k]),
    {
        if bridges[i].enable && bridges[i].tg_group == group_id {
            proof {
                lemma_first_cfg(bridges@, for_tg_group(group_id), i as int);
            }
            return Some(&bridges[i]);
        }
    }
    proof {
        lemma_first_cfg(bridges@, for_tg_group(group_id), n as int);
    }
    None
}

/// The enabled mapping that relays Discord channel `channel_id`.
pub fn find_cfg_by_channel(bridges: &Vec<BridgeConfig>, channel_id: u64) -> (r: Option<
    &BridgeConfig,
>)
    ensures
        r matches Some(c) ==> first_cfg(bridges@, for_channel(channel_id)) == Some(*c),
        r is None ==> first_cfg(bridges@, for_channel(channel_id)) is None,
{
    let n = bridges.len();
    for i in 0..n
        invariant
            n == bridges@.len(),
            forall|k: int| 0 <= k < i ==> !for_channel(channel_id)(#[trigger] bridges@[k]),
    {
        if bridges[i].enable && bridges[i].discord.channel_id == channel_id {
            proof {
                lemma_first_cfg(bridges@, for_channel(channel_id), i as int);
            }
            return Some(&bridges[i]);
        }
    }
    proof {
        lemma_first_cfg(bridges@, for_channel(channel_id), n as int);
    }
    None
}

/// Whether a Discord author is the bot itself or one of the mappings'
/// webhooks: their messages are echoes and are not relayed again.
pub fn is_own_author(config: &Config, author_id: u64) -> (r: bool)
    ensures
        r == (author_id == config.discord_config.bot_id || exists|k: int|
            0 <= k < config.bridges@.len() && #[trigger] config.bridges@[k].discord.id == author_id),
{
    if author_id == config.discord_config.bot_id {
        return true;
    }
    let n = config.bridges.len();
    for i in 0..n
        invariant
            n == config.bridges@.len(),
            forall|k: int| 0 <= k < i ==> #[trigger] config.bridges@[k].discord.id != author_id,
    {
        if config.bridges[i].discord.id == author_id {
            return true;
        }
    }
    false
}

/// `c` equals the ASCII character `l` when case is ignored.
pub open spec fn char_eq_ignore_ascii_case(c: char, l: char) -> bool {
    c == l || ('a' <= l <= 'z' && c as u32 + 32 == l as u32) || ('A' <= l <= 'Z' && c as u32
        == l as u32 + 32)
}

/// `s` equals `lit` when ASCII case is ignored.
pub open spec fn eq_ignore_ascii_case(s: Seq<char>, lit: Seq<char>) -> bool {
    s.len() == lit.len() && forall|i: int|
        0 <= i < s.len() ==> char_eq_ignore_ascii_case(#[trigger] s[i], lit[i])
}

/// Whether `s` equals `lit` when ASCII case is ignored.
pub fn str_eq_ignore_ascii_case(s: &str, lit: &str) -> (r: bool)
    ensures
        r == eq_ignore_ascii_case(s@, lit@),
{
    let n = s.unicode_len();
    if n != lit.unicode_len() {
        return false;
    }
    for i in 0..n
        invariant
            n == s@.len(),
            n == lit@.len(),
            forall|k: int| 0 <= k < i ==> char_eq_ignore_ascii_case(#[trigger] s@[k], lit@[k]),
    {
        let c = s.get_char(i);
        let l = lit.get_char(i);
        let ok = c == l || ('a' <= l && l <= 'z' && c as u32 + 32 == l as u32) || ('A' <= l && l
            <= 'Z' && c as u32 == l as u32 + 32);
        if !ok {
            return false;
        }
    }
    true
}

/// The protocol that `version` names.
pub open spec fn version_spec(v: Seq<char>) -> Result<QQVersion, ConfigError> {
    if eq_ignore_ascii_case(v, "ipad"@) {
        Ok(QQVersion::IPad)
    } else if eq_ignore_ascii_case(v, "macos"@) {
        Ok(QQVersion::MacOS)
    } else if eq_ignore_ascii_case(v, "qidian"@) {
        Ok(QQVersion::QiDian)
    } else if eq_ignore_ascii_case(v, "androidphone"@) {
        Ok(QQVersion::AndroidPhone)
    } else if eq_ignore_ascii_case(v, "androidwatch"@) {
        Ok(QQVersion::AndroidWatch)
    } else {
        Err(ConfigError::UnsupportedVersion)
    }
}

impl QQConfig {
    /// The login method: `pwd` (case ignored) asks for the account and a
    /// password given as 16 bytes of MD5 text; `qr` logs in by QR code.
    pub fn get_auth(&self) -> (r: Result<QQAuthentication, ConfigError>)
        ensures
            eq_ignore_ascii_case(self.auth@, "pwd"@) ==> {
                &&& (self.bot_id is None || self.password is None) ==> r == Err::<
                    QQAuthentication,
                    ConfigError,
                >(ConfigError::MissingCredentials)
                &&& (self.bot_id is Some && self.password is Some
                    && encode_utf8(self.password->0@).len() != 16) ==> r == Err::<
                    QQAuthentication,
                    ConfigError,
                >(ConfigError::BadPasswordLength)
                &&& (self.bot_id is Some && self.password is Some
                    && encode_utf8(self.password->0@).len() == 16) ==> (r matches Ok(
                    QQAuthentication::UinPasswordMd5(uin, buf),
                ) && uin == self.bot_id->0 && buf@ == encode_utf8(self.password->0@))
            },
            !eq_ignore_ascii_case(self.auth@, "pwd"@) && eq_ignore_ascii_case(self.auth@, "qr"@)
                ==> r == Ok::<QQAuthentication, ConfigError>(QQAuthentication::QRCode),
            !eq_ignore_ascii_case(self.auth@, "pwd"@) && !eq_ignore_ascii_case(
                self.auth@,
                "qr"@,
            ) ==> r == Err::<QQAuthentication, ConfigError>(ConfigError::UnsupportedAuth),
    {
        if str_eq_ignore_ascii_case(self.auth.as_str(), "pwd") {
            match (&self.bot_id, &self.password) {
                (Some(uin), Some(pwd)) => {
                    let bytes = pwd.as_str().as_bytes();
                    if bytes.len() != 16 {
                        return Err(ConfigError::BadPasswordLength);
                    }
                    let mut buf = [0u8; 16];
                    for i in 0..16
                        invariant
                            bytes@.len() == 16,
                            buf@.len() == 16,
                            forall|k: int| 0 <= k < i ==> buf@[k] == bytes@[k],
                    {
                        buf[i] = bytes[i];
                    }
                    assert(buf@ =~= bytes@);
                    Ok(QQAuthentication::UinPasswordMd5(*uin, buf))
                },
                _ => Err(ConfigError::MissingCredentials),
            }
        } else if str_eq_ignore_ascii_case(self.auth.as_str(), "qr") {
            Ok(QQAuthentication::QRCode)
        } else {
            Err(ConfigError::UnsupportedAuth)
        }
    }

    /// The client protocol that `version` names, case ignored.
    pub fn get_version(&self) -> (r: Result<QQVersion, ConfigError>)
        ensures
            r == version_spec(self.version@),
    {
        let v = self.version.as_str();
        if str_eq_ignore_ascii_case(v, "ipad") {
            Ok(QQVersion::IPad)
        } else if str_eq_ignore_ascii_case(v, "macos") {
            Ok(QQVersion::MacOS)
        } else if str_eq_ignore_ascii_case(v, "qidian") {
            Ok(QQVersion::QiDian)
        } else if str_eq_ignore_ascii_case(v, "androidphone") {
            Ok(QQVersion::AndroidPhone)
        } else if str_eq_ignore_ascii_case(v, "androidwatch") {
            Ok(QQVersion::AndroidWatch)
        } else {
            Err(ConfigError::UnsupportedVersion)
        }
    }
}

} // verus!
