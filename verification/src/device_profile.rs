//! What kind of device a session leads to, by what is known without connecting to it.
//!
//! The signals count in this order: the kind of the session, words in its name, host, user and
//! note, known addresses, and last a careful guess by the address of a gateway. Where none
//! speaks, the session shows its protocol instead of a guess.
use crate::number;
use crate::text;
use crate::text::CharSet;
use vstd::prelude::*;

verus! {

/// A kind of device.
#[derive(Debug, Clone, Copy, PartialEq, Eq, Structural)]
pub enum DeviceKind {
    OpenWrt,
    Router,
    RuijieRouter,
    XiaomiRouter,
    TpLinkRouter,
    HuaweiRouter,
    AsusRouter,
    Modem,
    Nas,
    Docker,
    Linux,
    Cloud,
    Windows,
    Serial,
    Telnet,
    Unknown,
}

/// How the files of a device are best reached. This is a hint only.
#[derive(Debug, Clone, Copy, PartialEq, Eq, Structural)]
pub enum FileModeHint {
    Auto,
    SftpFirst,
    SshBrowserFirst,
    /// The device has no files to browse.
    NoFiles,
}

/// What a session shows about its device.
#[derive(Debug, Clone, Copy)]
pub struct DeviceProfile {
    pub kind: DeviceKind,
    /// A short label.
    pub label: &'static str,
    pub icon: &'static str,
    pub hint_zh: &'static str,
    pub hint_en: &'static str,
    pub file_mode: FileModeHint,
    /// How sure the kind is, in percent. An unknown device has no confidence at all.
    pub confidence: u8,
}

/// The contents of a [`DeviceProfile`].
#[verifier::ext_equal]
pub struct ProfileView {
    pub kind: DeviceKind,
    pub label: Seq<char>,
    pub icon: Seq<char>,
    pub hint_zh: Seq<char>,
    pub hint_en: Seq<char>,
    pub file_mode: FileModeHint,
    pub confidence: u8,
}

impl View for DeviceProfile {
    type V = ProfileView;

    open spec fn view(&self) -> ProfileView {
        ProfileView {
            kind: self.kind,
            label: self.label@,
            icon: self.icon@,
            hint_zh: self.hint_zh@,
            hint_en: self.hint_en@,
            file_mode: self.file_mode,
            confidence: self.confidence,
        }
    }
}

impl DeviceKind {
    /// The profile of a kind; an unknown device is labelled by its protocol.
    pub open spec fn describe(self, protocol_label: Seq<char>) -> ProfileView {
        match self {
            DeviceKind::OpenWrt => ProfileView {
                kind: self,
                label: "OpenWrt"@,
                icon: "router"@,
                hint_zh: "OpenWrt 路由 · 自动选择文件模式"@,
                hint_en: "OpenWrt router · auto file mode"@,
                file_mode: FileModeHint::Auto,
                confidence: 95,
            },
            DeviceKind::RuijieRouter => ProfileView {
                kind: self,
                label: "锐捷路由"@,
                icon: "router"@,
                hint_zh: "锐捷路由 · 自动选择文件模式"@,
                hint_en: "Ruijie router · auto file mode"@,
                file_mode: FileModeHint::Auto,
                confidence: 92,
            },
            DeviceKind::XiaomiRouter => ProfileView {
                kind: self,
                label: "小米路由"@,
                icon: "router"@,
                hint_zh: "小米路由 · 自动选择文件模式"@,
                hint_en: "Xiaomi router · auto file mode"@,
                file_mode: FileModeHint::Auto,
                confidence: 88,
            },
            DeviceKind::TpLinkRouter => ProfileView {
                kind: self,
                label: "TP路由"@,
                icon: "router"@,
                hint_zh: "TP-Link 路由"@,
                hint_en: "TP-Link router"@,
                file_mode: FileModeHint::Auto,
                confidence: 86,
            },
            DeviceKind::HuaweiRouter => ProfileView {
                kind: self,
                label: "华为设备"@,
                icon: "router"@,
                hint_zh: "华为网络设备"@,
                hint_en: "Huawei network device"@,
                file_mode: FileModeHint::Auto,
                confidence: 84,
            },
            DeviceKind::AsusRouter => ProfileView {
                kind: self,
                label: "华硕路由"@,
                icon: "router"@,
                hint_zh: "华硕路由"@,
                hint_en: "ASUS router"@,
                file_mode: FileModeHint::Auto,
                confidence: 84,
            },
            DeviceKind::Router => ProfileView {
                kind: self,
                label: "Router"@,
                icon: "router"@,
                hint_zh: "路由管理 · 自动选择文件模式"@,
                hint_en: "router ops · auto file mode"@,
                file_mode: FileModeHint::Auto,
                confidence: 80,
            },
            DeviceKind::Modem => ProfileView {
                kind: self,
                label: "光猫"@,
                icon: "settings_input_component"@,
                hint_zh: "光猫/ONT"@,
                hint_en: "modem / ONT"@,
                file_mode: FileModeHint::NoFiles,
                confidence: 86,
            },
            DeviceKind::Nas => ProfileView {
                kind: self,
                label: "NAS"@,
                icon: "storage"@,
                hint_zh: "NAS · SFTP优先"@,
                hint_en: "NAS · SFTP first"@,
                file_mode: FileModeHint::SftpFirst,
                confidence: 90,
            },
            DeviceKind::Docker => ProfileView {
                kind: self,
                label: "Docker"@,
                icon: "dns"@,
                hint_zh: "Docker 主机"@,
                hint_en: "Docker host"@,
                file_mode: FileModeHint::SftpFirst,
                confidence: 88,
            },
            DeviceKind::Linux => ProfileView {
                kind: self,
                label: "Linux"@,
                icon: "terminal"@,
                hint_zh: "Linux 主机"@,
                hint_en: "Linux host"@,
                file_mode: FileModeHint::SftpFirst,
                confidence: 82,
            },
            DeviceKind::Cloud => ProfileView {
                kind: self,
                label: "云主机"@,
                icon: "cloud"@,
                hint_zh: "云服务器"@,
                hint_en: "cloud server"@,
                file_mode: FileModeHint::SftpFirst,
                confidence: 82,
            },
            DeviceKind::Windows => ProfileView {
                kind: self,
                label: "Windows"@,
                icon: "desktop_windows"@,
                hint_zh: "Windows 主机"@,
                hint_en: "Windows host"@,
                file_mode: FileModeHint::SftpFirst,
                confidence: 82,
            },
            DeviceKind::Serial => ProfileView {
                kind: self,
                label: "Serial"@,
                icon: "settings_ethernet"@,
                hint_zh: "串口设备"@,
                hint_en: "serial device"@,
                file_mode: FileModeHint::NoFiles,
                confidence: 100,
            },
            DeviceKind::Telnet => ProfileView {
                kind: self,
                label: "Telnet"@,
                icon: "settings_input_component"@,
                hint_zh: "Telnet 会话"@,
                hint_en: "telnet session"@,
                file_mode: FileModeHint::NoFiles,
                confidence: 100,
            },
            DeviceKind::Unknown => ProfileView {
                kind: self,
                label: protocol_label,
                icon: "dns"@,
                hint_zh: ""@,
                hint_en: ""@,
                file_mode: FileModeHint::Auto,
                confidence: 0,
            },
        }
    }

    /// The profile of a kind; an unknown device is labelled by its protocol.
    pub fn profile(self, protocol_label: &'static str) -> (out: DeviceProfile)
        ensures
            out@ == self.describe(protocol_label@),
    {
        match self {
            DeviceKind::OpenWrt => DeviceProfile {
                kind: self,
                label: "OpenWrt",
                icon: "router",
                hint_zh: "OpenWrt 路由 · 自动选择文件模式",
                hint_en: "OpenWrt router · auto file mode",
                file_mode: FileModeHint::Auto,
                confidence: 95,
            },
            DeviceKind::RuijieRouter => DeviceProfile {
                kind: self,
                label: "锐捷路由",
                icon: "router",
                hint_zh: "锐捷路由 · 自动选择文件模式",
                hint_en: "Ruijie router · auto file mode",
                file_mode: FileModeHint::Auto,
                confidence: 92,
            },
            DeviceKind::XiaomiRouter => DeviceProfile {
                kind: self,
                label: "小米路由",
                icon: "router",
                hint_zh: "小米路由 · 自动选择文件模式",
                hint_en: "Xiaomi router · auto file mode",
                file_mode: FileModeHint::Auto,
                confidence: 88,
            },
            DeviceKind::TpLinkRouter => DeviceProfile {
                kind: self,
                label: "TP路由",
                icon: "router",
                hint_zh: "TP-Link 路由",
                hint_en: "TP-Link router",
                file_mode: FileModeHint::Auto,
                confidence: 86,
            },
            DeviceKind::HuaweiRouter => DeviceProfile {
                kind: self,
                label: "华为设备",
                icon: "router",
                hint_zh: "华为网络设备",
                hint_en: "Huawei network device",
                file_mode: FileModeHint::Auto,
                confidence: 84,
            },
            DeviceKind::AsusRouter => DeviceProfile {
                kind: self,
                label: "华硕路由",
                icon: "router",
                hint_zh: "华硕路由",
                hint_en: "ASUS router",
                file_mode: FileModeHint::Auto,
                confidence: 84,
            },
            DeviceKind::Router => DeviceProfile {
                kind: self,
                label: "Router",
                icon: "router",
                hint_zh: "路由管理 · 自动选择文件模式",
                hint_en: "router ops · auto file mode",
                file_mode: FileModeHint::Auto,
                confidence: 80,
            },
            DeviceKind::Modem => DeviceProfile {
                kind: self,
                label: "光猫",
                icon: "settings_input_component",
                hint_zh: "光猫/ONT",
                hint_en: "modem / ONT",
                file_mode: FileModeHint::NoFiles,
                confidence: 86,
            },
            DeviceKind::Nas => DeviceProfile {
                kind: self,
                label: "NAS",
                icon: "storage",
                hint_zh: "NAS · SFTP优先",
                hint_en: "NAS · SFTP first",
                file_mode: FileModeHint::SftpFirst,
                confidence: 90,
            },
            DeviceKind::Docker => DeviceProfile {
                kind: self,
                label: "Docker",
                icon: "dns",
                hint_zh: "Docker 主机",
                hint_en: "Docker host",
                file_mode: FileModeHint::SftpFirst,
                confidence: 88,
            },
            DeviceKind::Linux => DeviceProfile {
                kind: self,
                label: "Linux",
                icon: "terminal",
                hint_zh: "Linux 主机",
                hint_en: "Linux host",
                file_mode: FileModeHint::SftpFirst,
                confidence: 82,
            },
            DeviceKind::Cloud => DeviceProfile {
                kind: self,
                label: "云主机",
                icon: "cloud",
                hint_zh: "云服务器",
                hint_en: "cloud server",
                file_mode: FileModeHint::SftpFirst,
                confidence: 82,
            },
            DeviceKind::Windows => DeviceProfile {
                kind: self,
                label: "Windows",
                icon: "desktop_windows",
                hint_zh: "Windows 主机",
                hint_en: "Windows host",
                file_mode: FileModeHint::SftpFirst,
                confidence: 82,
            },
            DeviceKind::Serial => DeviceProfile {
                kind: self,
                label: "Serial",
                icon: "settings_ethernet",
                hint_zh: "串口设备",
                hint_en: "serial device",
                file_mode: FileModeHint::NoFiles,
                confidence: 100,
            },
            DeviceKind::Telnet => DeviceProfile {
                kind: self,
                label: "Telnet",
                icon: "settings_input_component",
                hint_zh: "Telnet 会话",
                hint_en: "telnet session",
                file_mode: FileModeHint::NoFiles,
                confidence: 100,
            },
            DeviceKind::Unknown => DeviceProfile {
                kind: self,
                label: protocol_label,
                icon: "dns",
                hint_zh: "",
                hint_en: "",
                file_mode: FileModeHint::Auto,
                confidence: 0,
            },
        }
    }
}

// ---------------------------------------------------------------------------
// Words
// ---------------------------------------------------------------------------

/// Words that speak of OpenWrt and its relatives.
pub open spec fn openwrt_words() -> Seq<&'static str> {
    seq!["openwrt", "immortalwrt", "lede", "istoreos", "istore os", "ubus", "opkg"]
}

/// Words that speak of Ruijie devices.
pub open spec fn ruijie_words() -> Seq<&'static str> {
    seq!["ruijie", "锐捷", "be72", "eg310", "rg-"]
}

/// Words that speak of Xiaomi devices.
pub open spec fn xiaomi_words() -> Seq<&'static str> {
    seq!["xiaomi", "miwifi", "redmi", "小米", "红米"]
}

/// Words that speak of TP-Link devices.
pub open spec fn tplink_words() -> Seq<&'static str> {
    seq!["tplink", "tp-link", "tp link", "普联"]
}

/// Words that speak of Huawei devices.
pub open spec fn huawei_words() -> Seq<&'static str> {
    seq!["huawei", "华为", "honor", "荣耀"]
}

/// Words that speak of ASUS devices.
pub open spec fn asus_words() -> Seq<&'static str> {
    seq!["asus", "华硕", "merlin", "梅林"]
}

/// Words that speak of routers of any kind.
pub open spec fn router_words() -> Seq<&'static str> {
    seq!["router", "路由", "gateway", "网关", "gw", "ikuai", "爱快", "mwan", "wan6"]
}

/// Words that speak of modems.
pub open spec fn modem_words() -> Seq<&'static str> {
    seq!["光猫", "猫", "modem", "onu", "ont", "宽带猫"]
}

/// Words that speak of storage devices.
pub open spec fn nas_words() -> Seq<&'static str> {
    seq!["synology", "群晖", "nas", "飞牛", "fnos", "truenas", "unraid", "qnap", "威联通"]
}

/// Words that speak of container hosts.
pub open spec fn docker_words() -> Seq<&'static str> {
    seq!["docker", "compose", "container", "portainer"]
}

/// Words that speak of Linux hosts.
pub open spec fn linux_words() -> Seq<&'static str> {
    seq!["ubuntu", "debian", "centos", "rocky", "almalinux", "linux", "fedora", "archlinux"]
}

/// Words that speak of cloud hosts.
pub open spec fn cloud_words() -> Seq<&'static str> {
    seq!["vps", "ecs", "cloud", "aliyun", "tencent", "aws", "azure", "oracle"]
}

/// Words that speak of Windows hosts.
pub open spec fn windows_words() -> Seq<&'static str> {
    seq!["windows", "win11", "win10", "powershell", "pwsh"]
}

/// Words that speak of administrators.
pub open spec fn admin_words() -> Seq<&'static str> {
    seq!["root", "admin"]
}

/// Words that speak of a local network.
pub open spec fn lan_words() -> Seq<&'static str> {
    seq!["ssh", "lan", "home"]
}

/// Whether an address looks like that of a gateway: the first one of a private network.
pub open spec fn gateway_address(host: Seq<char>) -> bool {
    let parts = text::pieces(host, CharSet::Only('.'));
    parts.len() == 4 && parts[3] == "1"@ && {
        match (
            number::number_in(parts[0], 10, u8::MAX as nat),
            number::number_in(parts[1], 10, u8::MAX as nat),
        ) {
            (Some(a), Some(b)) => a == 10 || (a == 192 && b == 168) || (a == 172 && 16 <= b <= 31),
            _ => false,
        }
    }
}

/// Whether an address looks like that of a gateway.
pub fn looks_like_gateway_ip(host: &str) -> (r: bool)
    ensures
        r == gateway_address(host@),
{
    let parts = text::split(host, CharSet::Only('.'));
    let ghost all = text::texts(parts@);
    if parts.len() != 4 {
        return false;
    }
    assert(all[0] == parts@[0]@ && all[1] == parts@[1]@ && all[3] == parts@[3]@);
    if !text::same_text(parts[3].as_str(), "1") {
        return false;
    }
    match (
        number::parse_number(parts[0].as_str(), 10, u8::MAX as u64),
        number::parse_number(parts[1].as_str(), 10, u8::MAX as u64),
    ) {
        (Some(a), Some(b)) => a == 10 || (a == 192 && b == 168) || (a == 172 && 16 <= b && b
            <= 31),
        _ => false,
    }
}

// ---------------------------------------------------------------------------
// Classification
// ---------------------------------------------------------------------------

/// The kind of device that words speak of, in lower case: the first kind that is spoken of
/// counts.
pub open spec fn kind_by_words(hay: Seq<char>) -> Option<DeviceKind> {
    if text::has_any(hay, openwrt_words()) {
        Some(DeviceKind::OpenWrt)
    } else if text::has_any(hay, ruijie_words()) {
        Some(DeviceKind::RuijieRouter)
    } else if text::has_any(hay, xiaomi_words()) {
        Some(DeviceKind::XiaomiRouter)
    } else if text::has_any(hay, tplink_words()) {
        Some(DeviceKind::TpLinkRouter)
    } else if text::has_any(hay, huawei_words()) {
        Some(DeviceKind::HuaweiRouter)
    } else if text::has_any(hay, asus_words()) {
        Some(DeviceKind::AsusRouter)
    } else if text::has_any(hay, router_words()) {
        Some(DeviceKind::Router)
    } else if text::has_any(hay, modem_words()) {
        Some(DeviceKind::Modem)
    } else if text::has_any(hay, nas_words()) {
        Some(DeviceKind::Nas)
    } else if text::has_any(hay, docker_words()) {
        Some(DeviceKind::Docker)
    } else if text::has_any(hay, linux_words()) {
        Some(DeviceKind::Linux)
    } else if text::has_any(hay, cloud_words()) {
        Some(DeviceKind::Cloud)
    } else if text::has_any(hay, windows_words()) {
        Some(DeviceKind::Windows)
    } else {
        None
    }
}

/// The kind of device that an address speaks of: one that a maker gives to its routers.
pub open spec fn kind_by_address(host: Seq<char>) -> Option<DeviceKind> {
    if host == "192.168.31.1"@ {
        Some(DeviceKind::XiaomiRouter)
    } else if host == "192.168.0.1"@ {
        Some(DeviceKind::TpLinkRouter)
    } else if host == "192.168.50.1"@ {
        Some(DeviceKind::AsusRouter)
    } else {
        None
    }
}

/// The kind of device that words and an address speak of: the words count first, then a known
/// address, and last the address of a gateway.
pub open spec fn device_of(hay: Seq<char>, host: Seq<char>) -> DeviceKind {
    match kind_by_words(hay) {
        Some(kind) => kind,
        None => match kind_by_address(host) {
            Some(kind) => kind,
            None => if gateway_address(host) && text::has_any(hay, admin_words())
                && text::has_any(hay, lan_words()) {
                DeviceKind::Router
            } else {
                DeviceKind::Unknown
            },
        },
    }
}

fn has_openwrt_words(hay: &str) -> (r: bool)
    ensures
        r == text::has_any(hay@, openwrt_words()),
{
    let words = ["openwrt", "immortalwrt", "lede", "istoreos", "istore os", "ubus", "opkg"];
    assert(words@ =~= openwrt_words());
    text::contains_any(hay, words.as_slice())
}

fn has_ruijie_words(hay: &str) -> (r: bool)
    ensures
        r == text::has_any(hay@, ruijie_words()),
{
    let words = ["ruijie", "锐捷", "be72", "eg310", "rg-"];
    assert(words@ =~= ruijie_words());
    text::contains_any(hay, words.as_slice())
}

fn has_xiaomi_words(hay: &str) -> (r: bool)
    ensures
        r == text::has_any(hay@, xiaomi_words()),
{
    let words = ["xiaomi", "miwifi", "redmi", "小米", "红米"];
    assert(words@ =~= xiaomi_words());
    text::contains_any(hay, words.as_slice())
}

fn has_tplink_words(hay: &str) -> (r: bool)
    ensures
        r == text::has_any(hay@, tplink_words()),
{
    let words = ["tplink", "tp-link", "tp link", "普联"];
    assert(words@ =~= tplink_words());
    text::contains_any(hay, words.as_slice())
}

fn has_huawei_words(hay: &str) -> (r: bool)
    ensures
        r == text::has_any(hay@, huawei_words()),
{
    let words = ["huawei", "华为", "honor", "荣耀"];
    assert(words@ =~= huawei_words());
    text::contains_any(hay, words.as_slice())
}

fn has_asus_words(hay: &str) -> (r: bool)
    ensures
        r == text::has_any(hay@, asus_words()),
{
    let words = ["asus", "华硕", "merlin", "梅林"];
    assert(words@ =~= asus_words());
    text::contains_any(hay, words.as_slice())
}

fn has_router_words(hay: &str) -> (r: bool)
    ensures
        r == text::has_any(hay@, router_words()),
{
    let words = ["router", "路由", "gateway", "网关", "gw", "ikuai", "爱快", "mwan", "wan6"];
    assert(words@ =~= router_words());
    text::contains_any(hay, words.as_slice())
}

fn has_modem_words(hay: &str) -> (r: bool)
    ensures
        r == text::has_any(hay@, modem_words()),
{
    let words = ["光猫", "猫", "modem", "onu", "ont", "宽带猫"];
    assert(words@ =~= modem_words());
    text::contains_any(hay, words.as_slice())
}

fn has_nas_words(hay: &str) -> (r: bool)
    ensures
        r == text::has_any(hay@, nas_words()),
{
    let words = ["synology", "群晖", "nas", "飞牛", "fnos", "truenas", "unraid", "qnap", "威联通"];
    assert(words@ =~= nas_words());
    text::contains_any(hay, words.as_slice())
}

fn has_docker_words(hay: &str) -> (r: bool)
    ensures
        r == text::has_any(hay@, docker_words()),
{
    let words = ["docker", "compose", "container", "portainer"];
    assert(words@ =~= docker_words());
    text::contains_any(hay, words.as_slice())
}

fn has_linux_words(hay: &str) -> (r: bool)
    ensures
        r == text::has_any(hay@, linux_words()),
{
    let words = ["ubuntu", "debian", "centos", "rocky", "almalinux", "linux", "fedora", "archlinux"];
    assert(words@ =~= linux_words());
    text::contains_any(hay, words.as_slice())
}

fn has_cloud_words(hay: &str) -> (r: bool)
    ensures
        r == text::has_any(hay@, cloud_words()),
{
    let words = ["vps", "ecs", "cloud", "aliyun", "tencent", "aws", "azure", "oracle"];
    assert(words@ =~= cloud_words());
    text::contains_any(hay, words.as_slice())
}

fn has_windows_words(hay: &str) -> (r: bool)
    ensures
        r == text::has_any(hay@, windows_words()),
{
    let words = ["windows", "win11", "win10", "powershell", "pwsh"];
    assert(words@ =~= windows_words());
    text::contains_any(hay, words.as_slice())
}

fn has_admin_words(hay: &str) -> (r: bool)
    ensures
        r == text::has_any(hay@, admin_words()),
{
    let words = ["root", "admin"];
    assert(words@ =~= admin_words());
    text::contains_any(hay, words.as_slice())
}

fn has_lan_words(hay: &str) -> (r: bool)
    ensures
        r == text::has_any(hay@, lan_words()),
{
    let words = ["ssh", "lan", "home"];
    assert(words@ =~= lan_words());
    text::contains_any(hay, words.as_slice())
}

fn find_by_words(hay: &str) -> (out: Option<DeviceKind>)
    ensures
        out == kind_by_words(hay@),
{
    if has_openwrt_words(hay) {
        Some(DeviceKind::OpenWrt)
    } else if has_ruijie_words(hay) {
        Some(DeviceKind::RuijieRouter)
    } else if has_xiaomi_words(hay) {
        Some(DeviceKind::XiaomiRouter)
    } else if has_tplink_words(hay) {
        Some(DeviceKind::TpLinkRouter)
    } else if has_huawei_words(hay) {
        Some(DeviceKind::HuaweiRouter)
    } else if has_asus_words(hay) {
        Some(DeviceKind::AsusRouter)
    } else if has_router_words(hay) {
        Some(DeviceKind::Router)
    } else if has_modem_words(hay) {
        Some(DeviceKind::Modem)
    } else if has_nas_words(hay) {
        Some(DeviceKind::Nas)
    } else if has_docker_words(hay) {
        Some(DeviceKind::Docker)
    } else if has_linux_words(hay) {
        Some(DeviceKind::Linux)
    } else if has_cloud_words(hay) {
        Some(DeviceKind::Cloud)
    } else if has_windows_words(hay) {
        Some(DeviceKind::Windows)
    } else {
        None
    }
}

fn find_by_address(host: &str) -> (out: Option<DeviceKind>)
    ensures
        out == kind_by_address(host@),
{
    if text::same_text(host, "192.168.31.1") {
        Some(DeviceKind::XiaomiRouter)
    } else if text::same_text(host, "192.168.0.1") {
        Some(DeviceKind::TpLinkRouter)
    } else if text::same_text(host, "192.168.50.1") {
        Some(DeviceKind::AsusRouter)
    } else {
        None
    }
}

/// The kind of device that words and an address speak of.
fn find_device(hay: &str, host: &str) -> (out: DeviceKind)
    ensures
        out == device_of(hay@, host@),
{
    if let Some(kind) = find_by_words(hay) {
        return kind;
    }
    if let Some(kind) = find_by_address(host) {
        return kind;
    }
    if looks_like_gateway_ip(host) && has_admin_words(hay) && has_lan_words(hay) {
        DeviceKind::Router
    } else {
        DeviceKind::Unknown
    }
}

/// All that is known of a session, in lower case.
pub open spec fn known_words(
    name: Seq<char>,
    host: Seq<char>,
    user: Seq<char>,
    note: Seq<char>,
) -> Seq<char> {
    text::ascii_lower(name + " "@ + host + " "@ + user + " "@ + note)
}

/// What a session shows about its device.
pub open spec fn classified(
    kind: Seq<char>,
    name: Seq<char>,
    host: Seq<char>,
    user: Seq<char>,
    note: Seq<char>,
) -> ProfileView {
    let k = text::ascii_lower(text::trimmed(kind));
    if k == "serial"@ {
        DeviceKind::Serial.describe("Serial"@)
    } else if k == "telnet"@ {
        DeviceKind::Telnet.describe("Telnet"@)
    } else {
        device_of(
            known_words(name, host, user, note),
            text::ascii_lower(text::trimmed(host)),
        ).describe("SSH"@)
    }
}

/// What a session shows about its device, by the kind of the session and by what the user wrote
/// about it.
pub fn classify(kind: &str, name: &str, host: &str, user: &str, note: &str) -> (out: DeviceProfile)
    ensures
        out@ == classified(kind@, name@, host@, user@, note@),
{
    let bare = text::trim(kind);
    let k = text::to_ascii_lower(bare.as_str());
    if text::same_text(k.as_str(), "serial") {
        return DeviceKind::Serial.profile("Serial");
    }
    if text::same_text(k.as_str(), "telnet") {
        return DeviceKind::Telnet.profile("Telnet");
    }
    let mut raw = text::join4(name, " ", host, " ");
    raw.append(user);
    raw.append(" ");
    raw.append(note);
    let hay = text::to_ascii_lower(raw.as_str());
    let bare_host = text::trim(host);
    let host_l = text::to_ascii_lower(bare_host.as_str());
    find_device(hay.as_str(), host_l.as_str()).profile("SSH")
}

/// How the files of a device are best reached.
pub fn recommended_file_mode(kind: &str, name: &str, host: &str, user: &str, note: &str) -> (out:
    FileModeHint)
    ensures
        out == classified(kind@, name@, host@, user@, note@).file_mode,
{
    classify(kind, name, host, user, note).file_mode
}

// ---------------------------------------------------------------------------
// Laws
// ---------------------------------------------------------------------------

/// A device of which nothing is known is not guessed at: it shows its protocol, without any
/// confidence, and only it has none.
pub proof fn law_unknown_shows_protocol(
    kind: Seq<char>,
    name: Seq<char>,
    host: Seq<char>,
    user: Seq<char>,
    note: Seq<char>,
)
    ensures
        ({
            let p = classified(kind, name, host, user, note);
            &&& p.kind == DeviceKind::Unknown ==> p.label == "SSH"@ && p.confidence == 0
                && p.file_mode == FileModeHint::Auto
            &&& p.kind != DeviceKind::Unknown ==> p.confidence >= 80
        }),
{
}

/// Words come before addresses: where words speak of a device, its address changes nothing.
pub proof fn law_words_come_first(hay: Seq<char>, host: Seq<char>, other: Seq<char>)
    requires
        kind_by_words(hay) is Some,
    ensures
        device_of(hay, host) == device_of(hay, other),
        device_of(hay, host) == kind_by_words(hay)->0,
{
}

/// Whether a character stands in a bare address.
pub open spec fn numeric_char(c: char) -> bool {
    '0' <= c <= '9' || c == '.' || c == ' '
}

/// Whether a text is made of digits, dots and spaces.
pub open spec fn numeric(s: Seq<char>) -> bool {
    forall|i: int| 0 <= i < s.len() ==> numeric_char(#[trigger] s[i])
}

/// Whether every word begins with a character that no bare address holds.
spec fn no_numbers(words: Seq<&str>) -> bool {
    forall|i: int|
        0 <= i < words.len() ==> (#[trigger] words[i])@.len() > 0 && !numeric_char(words[i]@[0])
}

proof fn lemma_words_are_no_numbers()
    ensures
        no_numbers(openwrt_words()),
        no_numbers(ruijie_words()),
        no_numbers(xiaomi_words()),
        no_numbers(tplink_words()),
        no_numbers(huawei_words()),
        no_numbers(asus_words()),
        no_numbers(router_words()),
        no_numbers(modem_words()),
        no_numbers(nas_words()),
        no_numbers(docker_words()),
        no_numbers(linux_words()),
        no_numbers(cloud_words()),
        no_numbers(windows_words()),
        no_numbers(admin_words()),
{
    reveal_strlit("openwrt");
    reveal_strlit("immortalwrt");
    reveal_strlit("lede");
    reveal_strlit("istoreos");
    reveal_strlit("istore os");
    reveal_strlit("ubus");
    reveal_strlit("opkg");
    reveal_strlit("ruijie");
    reveal_strlit("锐捷");
    reveal_strlit("be72");
    reveal_strlit("eg310");
    reveal_strlit("rg-");
    reveal_strlit("xiaomi");
    reveal_strlit("miwifi");
    reveal_strlit("redmi");
    reveal_strlit("小米");
    reveal_strlit("红米");
    reveal_strlit("tplink");
    reveal_strlit("tp-link");
    reveal_strlit("tp link");
    reveal_strlit("普联");
    reveal_strlit("huawei");
    reveal_strlit("华为");
    reveal_strlit("honor");
    reveal_strlit("荣耀");
    reveal_strlit("asus");
    reveal_strlit("华硕");
    reveal_strlit("merlin");
    reveal_strlit("梅林");
    reveal_strlit("router");
    reveal_strlit("路由");
    reveal_strlit("gateway");
    reveal_strlit("网关");
    reveal_strlit("gw");
    reveal_strlit("ikuai");
    reveal_strlit("爱快");
    reveal_strlit("mwan");
    reveal_strlit("wan6");
    reveal_strlit("光猫");
    reveal_strlit("猫");
    reveal_strlit("modem");
    reveal_strlit("onu");
    reveal_strlit("ont");
    reveal_strlit("宽带猫");
    reveal_strlit("synology");
    reveal_strlit("群晖");
    reveal_strlit("nas");
    reveal_strlit("飞牛");
    reveal_strlit("fnos");
    reveal_strlit("truenas");
    reveal_strlit("unraid");
    reveal_strlit("qnap");
    reveal_strlit("威联通");
    reveal_strlit("docker");
    reveal_strlit("compose");
    reveal_strlit("container");
    reveal_strlit("portainer");
    reveal_strlit("ubuntu");
    reveal_strlit("debian");
    reveal_strlit("centos");
    reveal_strlit("rocky");
    reveal_strlit("almalinux");
    reveal_strlit("linux");
    reveal_strlit("fedora");
    reveal_strlit("archlinux");
    reveal_strlit("vps");
    reveal_strlit("ecs");
    reveal_strlit("cloud");
    reveal_strlit("aliyun");
    reveal_strlit("tencent");
    reveal_strlit("aws");
    reveal_strlit("azure");
    reveal_strlit("oracle");
    reveal_strlit("windows");
    reveal_strlit("win11");
    reveal_strlit("win10");
    reveal_strlit("powershell");
    reveal_strlit("pwsh");
    reveal_strlit("root");
    reveal_strlit("admin");
}

/// A bare address holds none of the words.
proof fn lemma_no_words(hay: Seq<char>, words: Seq<&str>)
    requires
        numeric(hay),
        no_numbers(words),
    ensures
        !text::has_any(hay, words),
{
    assert forall|i: int| 0 <= i < words.len() implies !text::has_text(
        hay,
        #[trigger] words[i]@,
    ) by {
        if text::has_text(hay, words[i]@) {
            text::lemma_has_text(hay, words[i]@, 0);
        }
    }
}

/// An address alone says nothing about its device, not even that of a gateway: a session of
/// which only digits and dots are known stays unknown, unless the address is one that a maker
/// gives to its routers.
pub proof fn law_bare_address_is_unknown(kind: Seq<char>, host: Seq<char>)
    requires
        numeric(host),
        text::ascii_lower(text::trimmed(kind)) != "serial"@,
        text::ascii_lower(text::trimmed(kind)) != "telnet"@,
        kind_by_address(text::ascii_lower(text::trimmed(host))) is None,
    ensures
        classified(kind, ""@, host, ""@, ""@).kind == DeviceKind::Unknown,
{
    reveal_strlit("");
    reveal_strlit(" ");
    let raw = ""@ + " "@ + host + " "@ + ""@ + " "@ + ""@;
    let hay = known_words(""@, host, ""@, ""@);
    assert forall|i: int| 0 <= i < hay.len() implies numeric_char(#[trigger] hay[i]) by {
        assert(hay[i] == text::ascii_lower_char(raw[i]));
        assert(numeric_char(raw[i]));
    }
    lemma_words_are_no_numbers();
    lemma_no_words(hay, openwrt_words());
    lemma_no_words(hay, ruijie_words());
    lemma_no_words(hay, xiaomi_words());
    lemma_no_words(hay, tplink_words());
    lemma_no_words(hay, huawei_words());
    lemma_no_words(hay, asus_words());
    lemma_no_words(hay, router_words());
    lemma_no_words(hay, modem_words());
    lemma_no_words(hay, nas_words());
    lemma_no_words(hay, docker_words());
    lemma_no_words(hay, linux_words());
    lemma_no_words(hay, cloud_words());
    lemma_no_words(hay, windows_words());
    lemma_no_words(hay, admin_words());
}

/// What is known of a session: its kind, name, host and user, and the note on it.
pub type Known = (Seq<char>, Seq<char>, Seq<char>, Seq<char>, Seq<char>);

/// Whether two texts differ at most in the case of ASCII letters.
pub open spec fn same_letters(a: Seq<char>, b: Seq<char>) -> bool {
    text::ascii_lower(a) == text::ascii_lower(b)
}

/// Capitals do not matter: what a session shows about its device is the same however the ASCII
/// letters of what is known of it are written.
pub proof fn law_case_does_not_matter(a: Known, b: Known)
    requires
        same_letters(a.0, b.0),
        same_letters(a.1, b.1),
        same_letters(a.2, b.2),
        same_letters(a.3, b.3),
        same_letters(a.4, b.4),
    ensures
        classified(a.0, a.1, a.2, a.3, a.4) == classified(b.0, b.1, b.2, b.3, b.4),
{
    text::lemma_trim_lower(a.0);
    text::lemma_trim_lower(b.0);
    text::lemma_trim_lower(a.2);
    text::lemma_trim_lower(b.2);
    lemma_words_by_part(a.1, a.2, a.3, a.4);
    lemma_words_by_part(b.1, b.2, b.3, b.4);
}

proof fn lemma_words_by_part(
    name: Seq<char>,
    host: Seq<char>,
    user: Seq<char>,
    note: Seq<char>,
)
    ensures
        known_words(name, host, user, note) == text::ascii_lower(name) + text::ascii_lower(" "@)
            + text::ascii_lower(host) + text::ascii_lower(" "@) + text::ascii_lower(user)
            + text::ascii_lower(" "@) + text::ascii_lower(note),
{
}

/// The kind of a device is the first of these that one of its words speaks of: a make of router,
/// any router, a modem, a storage device, a container host, a Linux host, a cloud host, a Windows
/// host.
pub proof fn law_words_tell_the_kind(hay: Seq<char>)
    ensures
        ({
            let openwrt = text::has_text(hay, "openwrt"@)
                || text::has_text(hay, "immortalwrt"@)
                || text::has_text(hay, "lede"@)
                || text::has_text(hay, "istoreos"@)
                || text::has_text(hay, "istore os"@)
                || text::has_text(hay, "ubus"@)
                || text::has_text(hay, "opkg"@);
            let ruijie = text::has_text(hay, "ruijie"@)
                || text::has_text(hay, "锐捷"@)
                || text::has_text(hay, "be72"@)
                || text::has_text(hay, "eg310"@)
                || text::has_text(hay, "rg-"@);
            let xiaomi = text::has_text(hay, "xiaomi"@)
                || text::has_text(hay, "miwifi"@)
                || text::has_text(hay, "redmi"@)
                || text::has_text(hay, "小米"@)
                || text::has_text(hay, "红米"@);
            let tplink = text::has_text(hay, "tplink"@)
                || text::has_text(hay, "tp-link"@)
                || text::has_text(hay, "tp link"@)
                || text::has_text(hay, "普联"@);
            let huawei = text::has_text(hay, "huawei"@)
                || text::has_text(hay, "华为"@)
                || text::has_text(hay, "honor"@)
                || text::has_text(hay, "荣耀"@);
            let asus = text::has_text(hay, "asus"@)
                || text::has_text(hay, "华硕"@)
                || text::has_text(hay, "merlin"@)
                || text::has_text(hay, "梅林"@);
            let router = text::has_text(hay, "router"@)
                || text::has_text(hay, "路由"@)
                || text::has_text(hay, "gateway"@)
                || text::has_text(hay, "网关"@)
                || text::has_text(hay, "gw"@)
                || text::has_text(hay, "ikuai"@)
                || text::has_text(hay, "爱快"@)
                || text::has_text(hay, "mwan"@)
                || text::has_text(hay, "wan6"@);
            let modem = text::has_text(hay, "光猫"@)
                || text::has_text(hay, "猫"@)
                || text::has_text(hay, "modem"@)
                || text::has_text(hay, "onu"@)
                || text::has_text(hay, "ont"@)
                || text::has_text(hay, "宽带猫"@);
            let nas = text::has_text(hay, "synology"@)
                || text::has_text(hay, "群晖"@)
                || text::has_text(hay, "nas"@)
                || text::has_text(hay, "飞牛"@)
                || text::has_text(hay, "fnos"@)
                || text::has_text(hay, "truenas"@)
                || text::has_text(hay, "unraid"@)
                || text::has_text(hay, "qnap"@)
                || text::has_text(hay, "威联通"@);
            let docker = text::has_text(hay, "docker"@)
                || text::has_text(hay, "compose"@)
                || text::has_text(hay, "container"@)
                || text::has_text(hay, "portainer"@);
            let linux = text::has_text(hay, "ubuntu"@)
                || text::has_text(hay, "debian"@)
                || text::has_text(hay, "centos"@)
                || text::has_text(hay, "rocky"@)
                || text::has_text(hay, "almalinux"@)
                || text::has_text(hay, "linux"@)
                || text::has_text(hay, "fedora"@)
                || text::has_text(hay, "archlinux"@);
            let cloud = text::has_text(hay, "vps"@)
                || text::has_text(hay, "ecs"@)
                || text::has_text(hay, "cloud"@)
                || text::has_text(hay, "aliyun"@)
                || text::has_text(hay, "tencent"@)
                || text::has_text(hay, "aws"@)
                || text::has_text(hay, "azure"@)
                || text::has_text(hay, "oracle"@);
            let windows = text::has_text(hay, "windows"@)
                || text::has_text(hay, "win11"@)
                || text::has_text(hay, "win10"@)
                || text::has_text(hay, "powershell"@)
                || text::has_text(hay, "pwsh"@);
            &&& openwrt ==> kind_by_words(hay) == Some(DeviceKind::OpenWrt)
            &&& !openwrt && ruijie ==> kind_by_words(hay) == Some(DeviceKind::RuijieRouter)
            &&& !openwrt && !ruijie && xiaomi ==> kind_by_words(hay) ==
                Some(DeviceKind::XiaomiRouter)
            &&& !openwrt && !ruijie && !xiaomi && tplink ==> kind_by_words(hay) ==
                Some(DeviceKind::TpLinkRouter)
            &&& !openwrt && !ruijie && !xiaomi && !tplink && huawei ==> kind_by_words(hay) ==
                Some(DeviceKind::HuaweiRouter)
            &&& !openwrt && !ruijie && !xiaomi && !tplink && !huawei && asus ==>
                kind_by_words(hay) == Some(DeviceKind::AsusRouter)
            &&& !openwrt && !ruijie && !xiaomi && !tplink && !huawei && !asus && router ==>
                kind_by_words(hay) == Some(DeviceKind::Router)
            &&& !openwrt && !ruijie && !xiaomi && !tplink && !huawei && !asus && !router && modem
                ==> kind_by_words(hay) == Some(DeviceKind::Modem)
            &&& !openwrt && !ruijie && !xiaomi && !tplink && !huawei && !asus && !router && !modem
                && nas ==> kind_by_words(hay) == Some(DeviceKind::Nas)
            &&& !openwrt && !ruijie && !xiaomi && !tplink && !huawei && !asus && !router && !modem
                && !nas && docker ==> kind_by_words(hay) == Some(DeviceKind::Docker)
            &&& !openwrt && !ruijie && !xiaomi && !tplink && !huawei && !asus && !router && !modem
                && !nas && !docker && linux ==> kind_by_words(hay) == Some(DeviceKind::Linux)
            &&& !openwrt && !ruijie && !xiaomi && !tplink && !huawei && !asus && !router && !modem
                && !nas && !docker && !linux && cloud ==> kind_by_words(hay) ==
                Some(DeviceKind::Cloud)
            &&& !openwrt && !ruijie && !xiaomi && !tplink && !huawei && !asus && !router && !modem
                && !nas && !docker && !linux && !cloud && windows ==> kind_by_words(hay) ==
                Some(DeviceKind::Windows)
            &&& !openwrt && !ruijie && !xiaomi && !tplink && !huawei && !asus && !router && !modem
                && !nas && !docker && !linux && !cloud && !windows ==> kind_by_words(hay) is None
        }),
{
    lemma_openwrt_words(hay);
    lemma_ruijie_words(hay);
    lemma_xiaomi_words(hay);
    lemma_tplink_words(hay);
    lemma_huawei_words(hay);
    lemma_asus_words(hay);
    lemma_router_words(hay);
    lemma_modem_words(hay);
    lemma_nas_words(hay);
    lemma_docker_words(hay);
    lemma_linux_words(hay);
    lemma_cloud_words(hay);
    lemma_windows_words(hay);
}

proof fn lemma_openwrt_words(hay: Seq<char>)
    ensures
        text::has_any(hay, openwrt_words()) <==> (text::has_text(hay, "openwrt"@)
            || text::has_text(hay, "immortalwrt"@)
            || text::has_text(hay, "lede"@)
            || text::has_text(hay, "istoreos"@)
            || text::has_text(hay, "istore os"@)
            || text::has_text(hay, "ubus"@)
            || text::has_text(hay, "opkg"@)),
{
    let words = openwrt_words();
    assert(words[0]@ == "openwrt"@);
    assert(words[1]@ == "immortalwrt"@);
    assert(words[2]@ == "lede"@);
    assert(words[3]@ == "istoreos"@);
    assert(words[4]@ == "istore os"@);
    assert(words[5]@ == "ubus"@);
    assert(words[6]@ == "opkg"@);
}

proof fn lemma_ruijie_words(hay: Seq<char>)
    ensures
        text::has_any(hay, ruijie_words()) <==> (text::has_text(hay, "ruijie"@)
            || text::has_text(hay, "锐捷"@)
            || text::has_text(hay, "be72"@)
            || text::has_text(hay, "eg310"@)
            || text::has_text(hay, "rg-"@)),
{
    let words = ruijie_words();
    assert(words[0]@ == "ruijie"@);
    assert(words[1]@ == "锐捷"@);
    assert(words[2]@ == "be72"@);
    assert(words[3]@ == "eg310"@);
    assert(words[4]@ == "rg-"@);
}

proof fn lemma_xiaomi_words(hay: Seq<char>)
    ensures
        text::has_any(hay, xiaomi_words()) <==> (text::has_text(hay, "xiaomi"@)
            || text::has_text(hay, "miwifi"@)
            || text::has_text(hay, "redmi"@)
            || text::has_text(hay, "小米"@)
            || text::has_text(hay, "红米"@)),
{
    let words = xiaomi_words();
    assert(words[0]@ == "xiaomi"@);
    assert(words[1]@ == "miwifi"@);
    assert(words[2]@ == "redmi"@);
    assert(words[3]@ == "小米"@);
    assert(words[4]@ == "红米"@);
}

proof fn lemma_tplink_words(hay: Seq<char>)
    ensures
        text::has_any(hay, tplink_words()) <==> (text::has_text(hay, "tplink"@)
            || text::has_text(hay, "tp-link"@)
            || text::has_text(hay, "tp link"@)
            || text::has_text(hay, "普联"@)),
{
    let words = tplink_words();
    assert(words[0]@ == "tplink"@);
    assert(words[1]@ == "tp-link"@);
    assert(words[2]@ == "tp link"@);
    assert(words[3]@ == "普联"@);
}

proof fn lemma_huawei_words(hay: Seq<char>)
    ensures
        text::has_any(hay, huawei_words()) <==> (text::has_text(hay, "huawei"@)
            || text::has_text(hay, "华为"@)
            || text::has_text(hay, "honor"@)
            || text::has_text(hay, "荣耀"@)),
{
    let words = huawei_words();
    assert(words[0]@ == "huawei"@);
    assert(words[1]@ == "华为"@);
    assert(words[2]@ == "honor"@);
    assert(words[3]@ == "荣耀"@);
}

proof fn lemma_asus_words(hay: Seq<char>)
    ensures
        text::has_any(hay, asus_words()) <==> (text::has_text(hay, "asus"@)
            || text::has_text(hay, "华硕"@)
            || text::has_text(hay, "merlin"@)
            || text::has_text(hay, "梅林"@)),
{
    let words = asus_words();
    assert(words[0]@ == "asus"@);
    assert(words[1]@ == "华硕"@);
    assert(words[2]@ == "merlin"@);
    assert(words[3]@ == "梅林"@);
}

proof fn lemma_router_words(hay: Seq<char>)
    ensures
        text::has_any(hay, router_words()) <==> (text::has_text(hay, "router"@)
            || text::has_text(hay, "路由"@)
            || text::has_text(hay, "gateway"@)
            || text::has_text(hay, "网关"@)
            || text::has_text(hay, "gw"@)
            || text::has_text(hay, "ikuai"@)
            || text::has_text(hay, "爱快"@)
            || text::has_text(hay, "mwan"@)
            || text::has_text(hay, "wan6"@)),
{
    let words = router_words();
    assert(words[0]@ == "router"@);
    assert(words[1]@ == "路由"@);
    assert(words[2]@ == "gateway"@);
    assert(words[3]@ == "网关"@);
    assert(words[4]@ == "gw"@);
    assert(words[5]@ == "ikuai"@);
    assert(words[6]@ == "爱快"@);
    assert(words[7]@ == "mwan"@);
    assert(words[8]@ == "wan6"@);
}

proof fn lemma_modem_words(hay: Seq<char>)
    ensures
        text::has_any(hay, modem_words()) <==> (text::has_text(hay, "光猫"@)
            || text::has_text(hay, "猫"@)
            || text::has_text(hay, "modem"@)
            || text::has_text(hay, "onu"@)
            || text::has_text(hay, "ont"@)
            || text::has_text(hay, "宽带猫"@)),
{
    let words = modem_words();
    assert(words[0]@ == "光猫"@);
    assert(words[1]@ == "猫"@);
    assert(words[2]@ == "modem"@);
    assert(words[3]@ == "onu"@);
    assert(words[4]@ == "ont"@);
    assert(words[5]@ == "宽带猫"@);
}

proof fn lemma_nas_words(hay: Seq<char>)
    ensures
        text::has_any(hay, nas_words()) <==> (text::has_text(hay, "synology"@)
            || text::has_text(hay, "群晖"@)
            || text::has_text(hay, "nas"@)
            || text::has_text(hay, "飞牛"@)
            || text::has_text(hay, "fnos"@)
            || text::has_text(hay, "truenas"@)
            || text::has_text(hay, "unraid"@)
            || text::has_text(hay, "qnap"@)
            || text::has_text(hay, "威联通"@)),
{
    let words = nas_words();
    assert(words[0]@ == "synology"@);
    assert(words[1]@ == "群晖"@);
    assert(words[2]@ == "nas"@);
    assert(words[3]@ == "飞牛"@);
    assert(words[4]@ == "fnos"@);
    assert(words[5]@ == "truenas"@);
    assert(words[6]@ == "unraid"@);
    assert(words[7]@ == "qnap"@);
    assert(words[8]@ == "威联通"@);
}

proof fn lemma_docker_words(hay: Seq<char>)
    ensures
        text::has_any(hay, docker_words()) <==> (text::has_text(hay, "docker"@)
            || text::has_text(hay, "compose"@)
            || text::has_text(hay, "container"@)
            || text::has_text(hay, "portainer"@)),
{
    let words = docker_words();
    assert(words[0]@ == "docker"@);
    assert(words[1]@ == "compose"@);
    assert(words[2]@ == "container"@);
    assert(words[3]@ == "portainer"@);
}

proof fn lemma_linux_words(hay: Seq<char>)
    ensures
        text::has_any(hay, linux_words()) <==> (text::has_text(hay, "ubuntu"@)
            || text::has_text(hay, "debian"@)
            || text::has_text(hay, "centos"@)
            || text::has_text(hay, "rocky"@)
            || text::has_text(hay, "almalinux"@)
            || text::has_text(hay, "linux"@)
            || text::has_text(hay, "fedora"@)
            || text::has_text(hay, "archlinux"@)),
{
    let words = linux_words();
    assert(words[0]@ == "ubuntu"@);
    assert(words[1]@ == "debian"@);
    assert(words[2]@ == "centos"@);
    assert(words[3]@ == "rocky"@);
    assert(words[4]@ == "almalinux"@);
    assert(words[5]@ == "linux"@);
    assert(words[6]@ == "fedora"@);
    assert(words[7]@ == "archlinux"@);
}

proof fn lemma_cloud_words(hay: Seq<char>)
    ensures
        text::has_any(hay, cloud_words()) <==> (text::has_text(hay, "vps"@)
            || text::has_text(hay, "ecs"@)
            || text::has_text(hay, "cloud"@)
            || text::has_text(hay, "aliyun"@)
            || text::has_text(hay, "tencent"@)
            || text::has_text(hay, "aws"@)
            || text::has_text(hay, "azure"@)
            || text::has_text(hay, "oracle"@)),
{
    let words = cloud_words();
    assert(words[0]@ == "vps"@);
    assert(words[1]@ == "ecs"@);
    assert(words[2]@ == "cloud"@);
    assert(words[3]@ == "aliyun"@);
    assert(words[4]@ == "tencent"@);
    assert(words[5]@ == "aws"@);
    assert(words[6]@ == "azure"@);
    assert(words[7]@ == "oracle"@);
}

proof fn lemma_windows_words(hay: Seq<char>)
    ensures
        text::has_any(hay, windows_words()) <==> (text::has_text(hay, "windows"@)
            || text::has_text(hay, "win11"@)
            || text::has_text(hay, "win10"@)
            || text::has_text(hay, "powershell"@)
            || text::has_text(hay, "pwsh"@)),
{
    let words = windows_words();
    assert(words[0]@ == "windows"@);
    assert(words[1]@ == "win11"@);
    assert(words[2]@ == "win10"@);
    assert(words[3]@ == "powershell"@);
    assert(words[4]@ == "pwsh"@);
}

proof fn lemma_admin_words(hay: Seq<char>)
    ensures
        text::has_any(hay, admin_words()) <==> (text::has_text(hay, "root"@)
            || text::has_text(hay, "admin"@)),
{
    let words = admin_words();
    assert(words[0]@ == "root"@);
    assert(words[1]@ == "admin"@);
}

proof fn lemma_lan_words(hay: Seq<char>)
    ensures
        text::has_any(hay, lan_words()) <==> (text::has_text(hay, "ssh"@)
            || text::has_text(hay, "lan"@)
            || text::has_text(hay, "home"@)),
{
    let words = lan_words();
    assert(words[0]@ == "ssh"@);
    assert(words[1]@ == "lan"@);
    assert(words[2]@ == "home"@);
}

/// A device of which the words tell nothing is told by its address: some makes by the address that
/// they come with, and a router where an administrator logs in at the first address of a private
/// network.
pub proof fn law_address_tells_the_kind(hay: Seq<char>, host: Seq<char>)
    requires
        kind_by_words(hay) is None,
    ensures
        host == "192.168.31.1"@ ==> device_of(hay, host) == DeviceKind::XiaomiRouter,
        host == "192.168.0.1"@ && host != "192.168.31.1"@ ==> device_of(hay, host)
            == DeviceKind::TpLinkRouter,
        host == "192.168.50.1"@ && host != "192.168.31.1"@ && host != "192.168.0.1"@ ==> device_of(
            hay,
            host,
        ) == DeviceKind::AsusRouter,
        host != "192.168.31.1"@ && host != "192.168.0.1"@ && host != "192.168.50.1"@ ==> (device_of(
            hay,
            host,
        ) == DeviceKind::Router <==> gateway_address(host) && (text::has_text(hay, "root"@)
            || text::has_text(hay, "admin"@)) && (text::has_text(hay, "ssh"@) || text::has_text(
            hay,
            "lan"@,
        ) || text::has_text(hay, "home"@))),
{
    lemma_admin_words(hay);
    lemma_lan_words(hay);
}

/// The address of a gateway is the first one of a private network of four octets.
pub proof fn law_gateway_is_the_first_address(a: u8, b: u8, c: u8, d: u8)
    ensures
        gateway_address(
            number::decimal(a as nat) + "."@ + number::decimal(b as nat) + "."@ + number::decimal(
                c as nat,
            ) + "."@ + number::decimal(d as nat),
        ) <==> d == 1 && (a == 10 || (a == 192 && b == 168) || (a == 172 && 16 <= b <= 31)),
{
    reveal_strlit(".");
    reveal_strlit("1");
    let set = CharSet::Only('.');
    let (w, x, y, z) = (
        number::decimal(a as nat),
        number::decimal(b as nat),
        number::decimal(c as nat),
        number::decimal(d as nat),
    );
    number::lemma_decimal(a as nat);
    number::lemma_decimal(b as nat);
    number::lemma_decimal(c as nat);
    number::lemma_decimal(d as nat);
    text::lemma_whole_piece(w, set);
    text::lemma_whole_piece(x, set);
    text::lemma_whole_piece(y, set);
    text::lemma_whole_piece(z, set);
    let host = w + "."@ + x + "."@ + y + "."@ + z;
    assert(host =~= w + seq!['.'] + (x + seq!['.'] + (y + seq!['.'] + z)));
    text::lemma_pieces_cut(y, '.', z, set);
    text::lemma_pieces_cut(x, '.', y + seq!['.'] + z, set);
    text::lemma_pieces_cut(w, '.', x + seq!['.'] + (y + seq!['.'] + z), set);
    assert(text::pieces(host, set) =~= seq![w, x, y, z]);
    number::law_number_round_trip(a as nat, 10, u8::MAX as nat);
    number::law_number_round_trip(b as nat, 10, u8::MAX as nat);
    number::law_number_round_trip(d as nat, 10, u8::MAX as nat);
    number::law_number_round_trip(1, 10, u8::MAX as nat);
    assert("1"@ =~= number::decimal(1));
}

/// A profile is that of its kind. Devices without files to browse are told so, hosts that offer
/// the file service are reached by it first, and for the rest the way is found out.
pub proof fn law_profile_fits_the_kind(kind: DeviceKind, protocol_label: Seq<char>)
    ensures
        kind.describe(protocol_label).kind == kind,
        kind.describe(protocol_label).file_mode == if kind == DeviceKind::Modem || kind
            == DeviceKind::Serial || kind == DeviceKind::Telnet {
            FileModeHint::NoFiles
        } else if kind == DeviceKind::Nas || kind == DeviceKind::Docker || kind
            == DeviceKind::Linux || kind == DeviceKind::Cloud || kind == DeviceKind::Windows {
            FileModeHint::SftpFirst
        } else {
            FileModeHint::Auto
        },
        kind.describe(protocol_label).confidence <= 100,
{
}

} // verus!
