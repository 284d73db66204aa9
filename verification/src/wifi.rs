use vstd::prelude::*;

use vstd::utf8::{encode_utf8, is_ascii_chars, is_ascii_chars_encode_utf8};

verus! {

/// The room, in UTF-8 bytes, for a network name.
pub const SSID_CAPACITY: usize = 32;

/// The room, in UTF-8 bytes, for a password.
pub const PASSWORD_CAPACITY: usize = 64;

/// Whether the text `s` fits in `capacity` UTF-8 bytes.
pub open spec fn fits(s: Seq<char>, capacity: usize) -> bool {
    encode_utf8(s).len() <= capacity
}

/// An ASCII text takes one byte per character.
pub proof fn lemma_ascii_fits(s: Seq<char>, capacity: usize)
    requires
        is_ascii_chars(s),
        s.len() <= capacity,
    ensures
        fits(s, capacity),
{
    is_ascii_chars_encode_utf8(s);
}

/// How a network authenticates its stations.
#[derive(Debug, Clone, Copy, PartialEq, Eq, PartialOrd, Ord, Hash, Structural)]
pub enum AuthMethod {
    /// No authentication.
    Open,
    WEP,
    WPA,
    WPA2Personal,
    WPAWPA2Personal,
    WPA2Enterprise,
    WPA3Personal,
    WPA2WPA3Personal,
    WAPIPersonal,
}

impl Default for AuthMethod {
    fn default() -> (r: Self)
        ensures
            r == AuthMethod::WPA2Personal,
    {
        AuthMethod::WPA2Personal
    }
}

/// A Wi-Fi protocol generation.
#[derive(Debug, Clone, Copy, PartialEq, Eq, PartialOrd, Ord, Hash, Structural)]
pub enum Protocol {
    P802D11B,
    P802D11BG,
    P802D11BGN,
    P802D11BGNLR,
    P802D11LR,
}

impl Protocol {
    /// The place of the protocol in the order the variants are declared in.
    pub open spec fn rank(self) -> nat {
        match self {
            Protocol::P802D11B => 0,
            Protocol::P802D11BG => 1,
            Protocol::P802D11BGN => 2,
            Protocol::P802D11BGNLR => 3,
            Protocol::P802D11LR => 4,
        }
    }
}

/// Whether `protocols` is a set kept in its one canonical order: each protocol once, in the
/// order the variants are declared in, so that equal sets are equal sequences.
pub open spec fn protocol_set(protocols: Seq<Protocol>) -> bool {
    forall|i: int, j: int| 0 <= i < j < protocols.len() ==> #[trigger] protocols[i].rank() < #[trigger] protocols[j].rank()
}

/// Two protocol sets in canonical order with the same protocols are the same sequence: the
/// order never tells two equal sets apart.
pub proof fn lemma_protocol_set_unique(a: Seq<Protocol>, b: Seq<Protocol>)
    requires
        protocol_set(a),
        protocol_set(b),
        forall|p: Protocol| a.contains(p) <==> b.contains(p),
    ensures
        a == b,
    decreases a.len(),
{
    if a.len() == 0 {
        if b.len() > 0 {
            assert(b.contains(b[0]));
        }
        assert(a =~= b);
    } else {
        assert(a.contains(a[0]));
        assert(b.len() > 0);
        assert(b.contains(b[0]));
        let j = choose|j: int| 0 <= j < b.len() && b[j] == a[0];
        let i = choose|i: int| 0 <= i < a.len() && a[i] == b[0];
        if i > 0 {
            assert(a[0].rank() < a[i].rank());
        }
        if j > 0 {
            assert(b[0].rank() < b[j].rank());
        }
        assert(a[0].rank() == b[0].rank());
        assert(a[0] == b[0]);
        let a1 = a.drop_first();
        let b1 = b.drop_first();
        assert forall|x: int, y: int| 0 <= x < y < a1.len() implies #[trigger] a1[x].rank() < #[trigger] a1[y].rank() by {
            assert(a1[x] == a[x + 1] && a1[y] == a[y + 1]);
        }
        assert forall|x: int, y: int| 0 <= x < y < b1.len() implies #[trigger] b1[x].rank() < #[trigger] b1[y].rank() by {
            assert(b1[x] == b[x + 1] && b1[y] == b[y + 1]);
        }
        assert forall|p: Protocol| a1.contains(p) <==> b1.contains(p) by {
            if a1.contains(p) {
                let x = choose|x: int| 0 <= x < a1.len() && a1[x] == p;
                assert(a[x + 1] == p);
                assert(a[0].rank() < a[x + 1].rank());
                assert(b.contains(p));
                let y = choose|y: int| 0 <= y < b.len() && b[y] == p;
                assert(y != 0);
                assert(b1[y - 1] == p);
            }
            if b1.contains(p) {
                let x = choose|x: int| 0 <= x < b1.len() && b1[x] == p;
                assert(b[x + 1] == p);
                assert(b[0].rank() < b[x + 1].rank());
                assert(a.contains(p));
                let y = choose|y: int| 0 <= y < a.len() && a[y] == p;
                assert(y != 0);
                assert(a1[y - 1] == p);
            }
        }
        lemma_protocol_set_unique(a1, b1);
        assert(a =~= seq![a[0]] + a1);
        assert(b =~= seq![b[0]] + b1);
    }
}

impl Default for Protocol {
    fn default() -> (r: Self)
        ensures
            r == Protocol::P802D11BGN,
    {
        Protocol::P802D11BGN
    }
}

/// Where the secondary channel of a 40 MHz network lies.
#[derive(Debug, Clone, Copy, PartialEq, Eq, PartialOrd, Ord, Hash, Structural)]
pub enum SecondaryChannel {
    /// No secondary channel.
    NoSecondary,
    Above,
    Below,
}

impl Default for SecondaryChannel {
    fn default() -> (r: Self)
        ensures
            r == SecondaryChannel::NoSecondary,
    {
        SecondaryChannel::NoSecondary
    }
}

/// What a scan found about an access point.
#[derive(Debug, Clone, PartialEq, Eq)]
pub struct AccessPointInfo {
    pub ssid: String,
    pub bssid: [u8; 6],
    pub channel: u8,
    pub secondary_channel: SecondaryChannel,
    pub signal_strength: i8,
    /// The protocols the access point supports, as a set in canonical order.
    pub protocols: Vec<Protocol>,
    pub auth_method: Option<AuthMethod>,
}

impl AccessPointInfo {
    /// The name fits its room and no protocol is listed twice.
    pub open spec fn wf(self) -> bool {
        &&& fits(self.ssid@, SSID_CAPACITY)
        &&& protocol_set(self.protocols@)
    }
}

/// Configuration of the access point mode.
#[derive(Debug, Clone, PartialEq, Eq)]
pub struct AccessPointConfiguration {
    pub ssid: String,
    pub ssid_hidden: bool,
    pub channel: u8,
    pub secondary_channel: Option<u8>,
    /// The protocols the access point offers, as a set in canonical order.
    pub protocols: Vec<Protocol>,
    pub auth_method: AuthMethod,
    pub password: String,
    pub max_connections: u16,
}

impl AccessPointConfiguration {
    /// The name and the password fit their room and no protocol is listed twice.
    pub open spec fn wf(self) -> bool {
        &&& fits(self.ssid@, SSID_CAPACITY)
        &&& fits(self.password@, PASSWORD_CAPACITY)
        &&& protocol_set(self.protocols@)
    }

    /// The default access point configuration.
    pub open spec fn spec_default(self) -> bool {
        &&& self.ssid@ == "iot-device"@
        &&& !self.ssid_hidden
        &&& self.channel == 1
        &&& self.secondary_channel is None
        &&& self.protocols@ == seq![Protocol::P802D11B, Protocol::P802D11BG, Protocol::P802D11BGN]
        &&& self.auth_method == AuthMethod::Open
        &&& self.password@ == Seq::<char>::empty()
        &&& self.max_connections == 255
    }
}

impl Default for AccessPointConfiguration {
    fn default() -> (r: Self)
        ensures
            r.spec_default(),
            r.wf(),
    {
        let mut protocols = Vec::new();
        protocols.push(Protocol::P802D11B);
        protocols.push(Protocol::P802D11BG);
        protocols.push(Protocol::P802D11BGN);
        assert(protocols@ =~= seq![Protocol::P802D11B, Protocol::P802D11BG, Protocol::P802D11BGN]);
        let r = AccessPointConfiguration {
            ssid: String::from_str("iot-device"),
            ssid_hidden: false,
            channel: 1,
            secondary_channel: None,
            protocols,
            auth_method: AuthMethod::Open,
            password: String::new(),
            max_connections: 255,
        };
        proof {
            lemma_ap_default_wf(r);
        }
        r
    }
}

/// Configuration of the station (client) mode.
#[derive(Debug, Clone, PartialEq, Eq)]
pub struct ClientConfiguration {
    /// SSID of the target access point.
    pub ssid: String,
    /// BSSID of the target access point.
    pub bssid: Option<[u8; 6]>,
    pub auth_method: AuthMethod,
    pub password: String,
    /// The channel the target access point is expected on.
    pub channel: Option<u8>,
    /// How to search for the target access point.
    pub scan_method: ScanMethod,
    /// Protected Management Frame configuration.
    pub pmf_cfg: PmfConfiguration,
}

impl ClientConfiguration {
    /// The name and the password fit their room.
    pub open spec fn wf(self) -> bool {
        &&& fits(self.ssid@, SSID_CAPACITY)
        &&& fits(self.password@, PASSWORD_CAPACITY)
    }

    /// The default station configuration.
    pub open spec fn spec_default(self) -> bool {
        &&& self.ssid@ == Seq::<char>::empty()
        &&& self.bssid is None
        &&& self.auth_method == AuthMethod::WPA2Personal
        &&& self.password@ == Seq::<char>::empty()
        &&& self.channel is None
        &&& self.scan_method == ScanMethod::CompleteScan(ScanSortMethod::Signal)
        &&& self.pmf_cfg == PmfConfiguration::NotCapable
    }
}

impl Default for ClientConfiguration {
    fn default() -> (r: Self)
        ensures
            r.spec_default(),
            r.wf(),
    {
        let r = ClientConfiguration {
            ssid: String::new(),
            bssid: None,
            auth_method: AuthMethod::default(),
            password: String::new(),
            channel: None,
            scan_method: ScanMethod::default(),
            pmf_cfg: PmfConfiguration::default(),
        };
        proof {
            lemma_client_default_wf(r);
        }
        r
    }
}

/// Protected Management Frame configuration.
#[derive(Debug, Clone, Copy, PartialEq, Eq, Structural)]
pub enum PmfConfiguration {
    /// No support for PMF is advertised.
    NotCapable,
    /// PMF support is advertised, required or not.
    Capable { required: bool },
}

impl Default for PmfConfiguration {
    fn default() -> (r: Self)
        ensures
            r == PmfConfiguration::NotCapable,
    {
        PmfConfiguration::NotCapable
    }
}

impl PmfConfiguration {
    /// PMF advertised and required.
    pub fn new_required() -> (r: Self)
        ensures
            r == (PmfConfiguration::Capable { required: true }),
    {
        PmfConfiguration::Capable { required: true }
    }

    /// PMF advertised as available but optional.
    pub fn new_pmf_optional() -> (r: Self)
        ensures
            r == (PmfConfiguration::Capable { required: false }),
    {
        PmfConfiguration::Capable { required: false }
    }
}

/// How to search for the access point to connect to.
#[derive(Debug, Clone, Copy, PartialEq, Eq, Structural)]
#[non_exhaustive]
pub enum ScanMethod {
    /// Scan every channel and pick an access point by the given criterion.
    CompleteScan(ScanSortMethod),
    /// Connect to the first matching access point found.
    FastScan,
}

impl Default for ScanMethod {
    fn default() -> (r: Self)
        ensures
            r == ScanMethod::CompleteScan(ScanSortMethod::Signal),
    {
        ScanMethod::CompleteScan(ScanSortMethod::default())
    }
}

/// The criterion a complete scan picks an access point by.
#[derive(Debug, Clone, Copy, PartialEq, Eq, Structural)]
#[non_exhaustive]
pub enum ScanSortMethod {
    /// By signal strength.
    Signal,
    /// By security.
    Security,
}

impl Default for ScanSortMethod {
    fn default() -> (r: Self)
        ensures
            r == ScanSortMethod::Signal,
    {
        ScanSortMethod::Signal
    }
}

/// An operating mode a Wi-Fi driver may offer.
#[derive(Debug, Clone, Copy, PartialEq, Eq, PartialOrd, Ord, Hash, Structural)]
pub enum Capability {
    Client,
    AccessPoint,
    Mixed,
}

/// The configuration of a Wi-Fi driver: off, station, access point, or both.
#[derive(Debug, Clone, PartialEq, Eq)]
pub enum Configuration {
    /// Neither mode configured.
    Unconfigured,
    Client(ClientConfiguration),
    AccessPoint(AccessPointConfiguration),
    Mixed(ClientConfiguration, AccessPointConfiguration),
}

impl Default for Configuration {
    fn default() -> (r: Self)
        ensures
            r is Unconfigured,
    {
        Configuration::Unconfigured
    }
}

impl Configuration {
    /// Every part held is well formed.
    pub open spec fn wf(self) -> bool {
        match self {
            Configuration::Unconfigured => true,
            Configuration::Client(c) => c.wf(),
            Configuration::AccessPoint(a) => a.wf(),
            Configuration::Mixed(c, a) => c.wf() && a.wf(),
        }
    }
}

/// The default station configuration is well formed.
pub proof fn lemma_client_default_wf(c: ClientConfiguration)
    requires
        c.spec_default(),
    ensures
        c.wf(),
{
    lemma_ascii_fits(c.ssid@, SSID_CAPACITY);
    lemma_ascii_fits(c.password@, PASSWORD_CAPACITY);
}

/// The default access point configuration is well formed.
pub proof fn lemma_ap_default_wf(a: AccessPointConfiguration)
    requires
        a.spec_default(),
    ensures
        a.wf(),
{
    reveal_strlit("iot-device");
    lemma_ascii_fits(a.ssid@, SSID_CAPACITY);
    lemma_ascii_fits(a.password@, PASSWORD_CAPACITY);
}

/// The station configuration `as_client_conf_mut` leaves in place of `c`: the one `c` holds,
/// or the default when it holds none (a `Client` configuration then results).
pub open spec fn client_part(c: Configuration, d: ClientConfiguration) -> bool {
    match c {
        Configuration::Client(cc) => d == cc,
        Configuration::Mixed(cc, _) => d == cc,
        _ => d.spec_default(),
    }
}

/// The access point configuration `as_ap_conf_mut` leaves in place of `c`: the one `c` holds,
/// or the default when it holds none.
pub open spec fn ap_part(c: Configuration, d: AccessPointConfiguration) -> bool {
    match c {
        Configuration::AccessPoint(a) => d == a,
        Configuration::Mixed(_, a) => d == a,
        _ => d.spec_default(),
    }
}

impl Configuration {
    /// The station configuration, in `Client` and `Mixed` mode.
    pub fn as_client_conf_ref(&self) -> (r: Option<&ClientConfiguration>)
        ensures
            r is Some == (self is Client || self is Mixed),
            r matches Some(c) ==> client_part(*self, *c),
    {
        match self {
            Configuration::Client(client_conf) | Configuration::Mixed(client_conf, _) => Some(client_conf),
            _ => None,
        }
    }

    /// The access point configuration, in `AccessPoint` and `Mixed` mode.
    pub fn as_ap_conf_ref(&self) -> (r: Option<&AccessPointConfiguration>)
        ensures
            r is Some == (self is AccessPoint || self is Mixed),
            r matches Some(a) ==> ap_part(*self, *a),
    {
        match self {
            Configuration::AccessPoint(ap_conf) | Configuration::Mixed(_, ap_conf) => Some(ap_conf),
            _ => None,
        }
    }

    fn client_mut(&mut self) -> (r: Option<&mut ClientConfiguration>)
        ensures
            r is Some == *old(self) is Client,
            r matches Some(c) ==> *old(self) == Configuration::Client(*c) && *final(self)
                == Configuration::Client(*final(c)),
    {
        match self {
            Configuration::Client(c) => Some(c),
            _ => None,
        }
    }

    fn ap_mut(&mut self) -> (r: Option<&mut AccessPointConfiguration>)
        ensures
            r is Some == *old(self) is AccessPoint,
            r matches Some(a) ==> *old(self) == Configuration::AccessPoint(*a) && *final(self)
                == Configuration::AccessPoint(*final(a)),
    {
        match self {
            Configuration::AccessPoint(a) => Some(a),
            _ => None,
        }
    }

    fn mixed_mut(&mut self) -> (r: Option<(&mut ClientConfiguration, &mut AccessPointConfiguration)>)
        ensures
            r is Some == *old(self) is Mixed,
            r matches Some(p) ==> *old(self) == Configuration::Mixed(*p.0, *p.1) && *final(self)
                == Configuration::Mixed(*final(p.0), *final(p.1)),
    {
        match self {
            Configuration::Mixed(c, a) => Some((c, a)),
            _ => None,
        }
    }

    /// The station configuration, switching to `Client` mode: a `Mixed` configuration keeps its
    /// station part and drops its access point part; otherwise the default station configuration
    /// is used.
    pub fn as_client_conf_mut(&mut self) -> (r: &mut ClientConfiguration)
        ensures
            client_part(*old(self), *r),
            old(self).wf() ==> r.wf(),
            *final(self) == Configuration::Client(*final(r)),
    {
        let mut prev = Configuration::Unconfigured;
        core::mem::swap(&mut prev, self);
        let client_conf = match prev {
            Configuration::Client(c) => c,
            Configuration::Mixed(c, _) => c,
            _ => ClientConfiguration::default(),
        };
        proof {
            if !(prev is Client || prev is Mixed) {
                lemma_client_default_wf(client_conf);
            }
        }
        *self = Configuration::Client(client_conf);
        self.client_mut().unwrap()
    }

    /// The access point configuration, switching to `AccessPoint` mode: a `Mixed` configuration
    /// keeps its access point part and drops its station part; otherwise the default access point
    /// configuration is used.
    pub fn as_ap_conf_mut(&mut self) -> (r: &mut AccessPointConfiguration)
        ensures
            ap_part(*old(self), *r),
            old(self).wf() ==> r.wf(),
            *final(self) == Configuration::AccessPoint(*final(r)),
    {
        let mut prev = Configuration::Unconfigured;
        core::mem::swap(&mut prev, self);
        let ap_conf = match prev {
            Configuration::AccessPoint(a) => a,
            Configuration::Mixed(_, a) => a,
            _ => AccessPointConfiguration::default(),
        };
        proof {
            if !(prev is AccessPoint || prev is Mixed) {
                lemma_ap_default_wf(ap_conf);
            }
        }
        *self = Configuration::AccessPoint(ap_conf);
        self.ap_mut().unwrap()
    }

    /// Both configurations, switching to `Mixed` mode: the parts the configuration holds are
    /// kept, the missing ones are the defaults.
    pub fn as_mixed_conf_mut(&mut self) -> (r: (&mut ClientConfiguration, &mut AccessPointConfiguration))
        ensures
            client_part(*old(self), *r.0),
            ap_part(*old(self), *r.1),
            old(self).wf() ==> r.0.wf() && r.1.wf(),
            *final(self) == Configuration::Mixed(*final(r.0), *final(r.1)),
    {
        let mut prev = Configuration::Unconfigured;
        core::mem::swap(&mut prev, self);
        let (client_conf, ap_conf) = match prev {
            Configuration::Mixed(c, a) => (c, a),
            Configuration::AccessPoint(a) => (ClientConfiguration::default(), a),
            Configuration::Client(c) => (c, AccessPointConfiguration::default()),
            Configuration::Unconfigured => (ClientConfiguration::default(), AccessPointConfiguration::default()),
        };
        proof {
            if !(prev is Client || prev is Mixed) {
                lemma_client_default_wf(client_conf);
            }
            if !(prev is AccessPoint || prev is Mixed) {
                lemma_ap_default_wf(ap_conf);
            }
        }
        *self = Configuration::Mixed(client_conf, ap_conf);
        self.mixed_mut().unwrap()
    }
}

/// The place of `p` in the order the variants are declared in.
fn protocol_rank(p: Protocol) -> (r: u8)
    ensures
        r == p.rank(),
{
    match p {
        Protocol::P802D11B => 0,
        Protocol::P802D11BG => 1,
        Protocol::P802D11BGN => 2,
        Protocol::P802D11BGNLR => 3,
        Protocol::P802D11LR => 4,
    }
}

/// Whether `protocols` is a set in canonical order.
pub fn is_protocol_set(protocols: &Vec<Protocol>) -> (r: bool)
    ensures
        r == protocol_set(protocols@),
{
    let n = protocols.len();
    let mut i: usize = 1;
    if n == 0 {
        return true;
    }
    while i < n
        invariant
            1 <= i <= n,
            n == protocols@.len(),
            forall|a: int, b: int| 0 <= a < b < i ==> #[trigger] protocols@[a].rank() < #[trigger] protocols@[b].rank(),
        decreases n - i,
    {
        if protocol_rank(protocols[i - 1]) >= protocol_rank(protocols[i]) {
            return false;
        }
        proof {
            assert forall|a: int, b: int| 0 <= a < b < i + 1 implies #[trigger] protocols@[a].rank()
                < #[trigger] protocols@[b].rank() by {
                if b == i as int && a < i - 1 {
                    assert(protocols@[a].rank() < protocols@[i - 1].rank());
                }
            }
        }
        i = i + 1;
    }
    true
}

/// Whether the text `s` fits in `capacity` UTF-8 bytes.
pub fn text_fits(s: &String, capacity: usize) -> (r: bool)
    ensures
        r == fits(s@, capacity),
{
    s.as_str().as_bytes().len() <= capacity
}

impl ClientConfiguration {
    /// Whether the configuration is well formed.
    pub fn is_wf(&self) -> (r: bool)
        ensures
            r == self.wf(),
    {
        text_fits(&self.ssid, SSID_CAPACITY) && text_fits(&self.password, PASSWORD_CAPACITY)
    }
}

impl AccessPointConfiguration {
    /// Whether the configuration is well formed.
    pub fn is_wf(&self) -> (r: bool)
        ensures
            r == self.wf(),
    {
        text_fits(&self.ssid, SSID_CAPACITY) && text_fits(&self.password, PASSWORD_CAPACITY)
            && is_protocol_set(&self.protocols)
    }
}

impl Configuration {
    /// Whether every part held is well formed.
    pub fn is_wf(&self) -> (r: bool)
        ensures
            r == self.wf(),
    {
        match self {
            Configuration::Unconfigured => true,
            Configuration::Client(c) => c.is_wf(),
            Configuration::AccessPoint(a) => a.is_wf(),
            Configuration::Mixed(c, a) => c.is_wf() && a.is_wf(),
        }
    }
}

/// A Wi-Fi driver.
pub trait Wifi {
    type Error;

    /// The modes the driver offers, each once.
    fn get_capabilities(&self) -> (r: Result<Vec<Capability>, Self::Error>)
        ensures
            r matches Ok(c) ==> c@.no_duplicates(),
    ;

    fn get_configuration(&self) -> (r: Result<Configuration, Self::Error>)
        ensures
            r matches Ok(c) ==> c.wf(),
    ;

    fn set_configuration(&mut self, conf: &Configuration) -> Result<(), Self::Error>
        requires
            conf.wf(),
    ;

    fn start(&mut self) -> Result<(), Self::Error>;

    fn stop(&mut self) -> Result<(), Self::Error>;

    fn connect(&mut self) -> Result<(), Self::Error>;

    fn disconnect(&mut self) -> Result<(), Self::Error>;

    fn is_started(&self) -> Result<bool, Self::Error>;

    fn is_connected(&self) -> Result<bool, Self::Error>;

    /// At most `N` access points found by a scan, and how many were found in all.
    fn scan_n<const N: usize>(&mut self) -> (r: Result<(Vec<AccessPointInfo>, usize), Self::Error>)
        ensures
            r matches Ok((found, _)) ==> found@.len() <= N && forall|i: int|
                0 <= i < found@.len() ==> (#[trigger] found@[i]).wf(),
    ;

    fn scan(&mut self) -> (r: Result<Vec<AccessPointInfo>, Self::Error>)
        ensures
            r matches Ok(found) ==> forall|i: int| 0 <= i < found@.len() ==> (#[trigger] found@[i]).wf(),
    ;
}

} // verus!
