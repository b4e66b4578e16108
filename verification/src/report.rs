//! The diagnostic report: what it holds, and its JSON.

use vstd::prelude::*;

use crate::cli::{provider_label, provider_text};
use crate::config::Config;
use crate::connections::TcpConnections;
use crate::dns::{ResolverSet, Resolvers};
use crate::interfaces::{adapters, Adapter, Interface};
use crate::tcp::TcpStatus;
use crate::text::views;
use crate::wlan::{link_views, Link, WlanLink};

verus! {

// ---------------------------------------------------------------------------
// JSON values
// ---------------------------------------------------------------------------

/// A JSON value of `serde_json`.
#[verifier::external_type_specification]
#[verifier::external_body]
pub struct ExValue(serde_json::Value);

/// The members of a JSON object under construction.
#[verifier::external_type_specification]
#[verifier::external_body]
#[verifier::reject_recursive_types(K)]
#[verifier::reject_recursive_types(V)]
pub struct ExMembers<K, V>(serde_json::Map<K, V>);

/// What a JSON value holds.
pub enum Tree {
    Null,
    Bool(bool),
    Number(int),
    /// A number with a fraction, as it is written.
    Decimal(Seq<char>),
    Text(Seq<char>),
    List(Seq<Tree>),
    Members(Map<Seq<char>, Tree>),
}

/// What a JSON value of `serde_json` holds.
pub uninterp spec fn tree(value: serde_json::Value) -> Tree;

/// What several JSON values hold.
pub open spec fn trees(values: Seq<serde_json::Value>) -> Seq<Tree> {
    Seq::new(values.len(), |i: int| tree(values[i]))
}

/// What the members of a JSON object hold, by their keys.
pub uninterp spec fn contents(
    object: serde_json::Map<String, serde_json::Value>,
) -> Map<Seq<char>, Tree>;

/// The members of an object that these pairs make; of several pairs with the
/// same key the last counts.
pub open spec fn members(list: Seq<(Seq<char>, Tree)>) -> Map<Seq<char>, Tree>
    decreases list.len(),
{
    if list.len() == 0 {
        Map::empty()
    } else {
        members(list.drop_last()).insert(list.last().0, list.last().1)
    }
}

/// `serde_json::Value::Null` is the null value.
#[verifier::external_body]
fn null() -> (value: serde_json::Value)
    ensures
        tree(value) == Tree::Null,
{
    serde_json::Value::Null
}

/// `serde_json::Value::from` of a `bool` is that truth value.
#[verifier::external_body]
fn boolean(b: bool) -> (value: serde_json::Value)
    ensures
        tree(value) == Tree::Bool(b),
{
    serde_json::Value::from(b)
}

/// `serde_json::Value::from` of a `u64` is that number.
#[verifier::external_body]
fn number(n: u64) -> (value: serde_json::Value)
    ensures
        tree(value) == Tree::Number(n as int),
{
    serde_json::Value::from(n)
}

/// `serde_json::Value::from` of an `i64` is that number.
#[verifier::external_body]
fn integer(n: i64) -> (value: serde_json::Value)
    ensures
        tree(value) == Tree::Number(n as int),
{
    serde_json::Value::from(n)
}

/// `serde_json::Value::from` of a `String` is that text.
#[verifier::external_body]
fn string(s: String) -> (value: serde_json::Value)
    ensures
        tree(value) == Tree::Text(s@),
{
    serde_json::Value::from(s)
}

/// `serde_json::Value::from` of a `Vec` is the list of its values.
#[verifier::external_body]
fn list(values: Vec<serde_json::Value>) -> (value: serde_json::Value)
    ensures
        tree(value) == Tree::List(trees(values@)),
{
    serde_json::Value::from(values)
}

/// `serde_json::Map::new` makes an object without members.
#[verifier::external_body]
fn no_members() -> (object: serde_json::Map<String, serde_json::Value>)
    ensures
        contents(object) == members(Seq::empty()),
{
    serde_json::Map::new()
}

/// `serde_json::Map::insert` gives the key this value, whether or not it had one
/// before, and leaves every other member as it is.
#[verifier::external_body]
fn insert(
    object: &mut serde_json::Map<String, serde_json::Value>,
    key: String,
    value: serde_json::Value,
)
    ensures
        contents(*final(object)) == contents(*old(object)).insert(key@, tree(value)),
{
    let _ = object.insert(key, value);
}

/// `serde_json::Value::from` of a `serde_json::Map` is the object with these
/// members.
#[verifier::external_body]
fn object(fields: serde_json::Map<String, serde_json::Value>) -> (value: serde_json::Value)
    ensures
        tree(value) == Tree::Members(contents(fields)),
{
    serde_json::Value::from(fields)
}

/// What `serde_json::to_vec_pretty` makes of a JSON value: its bytes, or the
/// message of the error.
pub uninterp spec fn pretty_printed(value: Tree) -> Result<Seq<u8>, Seq<char>>;

/// Bytes or a message, over sequences.
pub open spec fn bytes_view(r: Result<Vec<u8>, String>) -> Result<Seq<u8>, Seq<char>> {
    match r {
        Ok(bytes) => Ok(bytes@),
        Err(e) => Err(e@),
    }
}

/// `serde_json::to_vec_pretty` depends on what the value holds, and on nothing
/// else.
#[verifier::external_body]
fn to_vec_pretty(value: &serde_json::Value) -> (bytes: Result<Vec<u8>, String>)
    ensures
        bytes_view(bytes) == pretty_printed(tree(*value)),
{
    serde_json::to_vec_pretty(value).map_err(|error| error.to_string())
}

/// An object under construction, and the pairs put into it so far.
struct Fields {
    object: serde_json::Map<String, serde_json::Value>,
    list: Ghost<Seq<(Seq<char>, Tree)>>,
}

impl Fields {
    /// The object holds what the pairs make.
    spec fn wf(self) -> bool {
        contents(self.object) == members(self.list@)
    }

    fn new() -> (fields: Fields)
        ensures
            fields.wf(),
            fields.list@ == Seq::<(Seq<char>, Tree)>::empty(),
    {
        Fields { object: no_members(), list: Ghost(Seq::empty()) }
    }

    fn put(&mut self, key: &str, value: serde_json::Value)
        requires
            old(self).wf(),
        ensures
            final(self).wf(),
            final(self).list@ == old(self).list@.push((key@, tree(value))),
    {
        let ghost pair = (key@, tree(value));
        let ghost before = self.list@;
        insert(&mut self.object, key.to_owned(), value);
        self.list = Ghost(before.push(pair));
        assert(self.list@.drop_last() =~= before);
    }

    fn value(self) -> (value: serde_json::Value)
        requires
            self.wf(),
        ensures
            tree(value) == Tree::Members(members(self.list@)),
    {
        object(self.object)
    }
}

// ---------------------------------------------------------------------------
// The report
// ---------------------------------------------------------------------------

/// What a report is made of, except the transfer rates.
#[derive(Debug)]
pub struct Report {
    /// When the report was made.
    pub time: String,
    pub config: Config,
    /// Archived registry values.
    pub registry_values: usize,
    /// Archived DNS configurations.
    pub dns_backups: usize,
    pub tcp: TcpStatus,
    pub resolvers: Resolvers,
    pub throttling_removed: bool,
    pub mtu_aligned: bool,
    pub power_no_power_down: bool,
    pub connections: TcpConnections,
    pub interfaces: Vec<Interface>,
    pub wlan: Vec<WlanLink>,
    pub latency_ms: Option<u32>,
}

/// A number that may be absent.
pub open spec fn optional_number(n: Option<u32>) -> Tree {
    match n {
        Some(v) => Tree::Number(v as int),
        None => Tree::Null,
    }
}

/// A signed number that may be absent.
pub open spec fn optional_integer(n: Option<i32>) -> Tree {
    match n {
        Some(v) => Tree::Number(v as int),
        None => Tree::Null,
    }
}

/// A list of texts.
pub open spec fn text_list(list: Seq<Seq<char>>) -> Tree {
    Tree::List(Seq::new(list.len(), |i: int| Tree::Text(list[i])))
}

/// The config as the report shows it.
pub open spec fn config_tree(cfg: Config) -> Tree {
    Tree::Members(
        members(
            seq![
                ("tcp"@, Tree::Bool(cfg.tcp)),
                ("dns"@, Tree::Bool(cfg.dns)),
                ("multimedia"@, Tree::Bool(cfg.multimedia)),
                ("self_heal"@, Tree::Bool(cfg.self_heal)),
                ("dns_provider"@, Tree::Text(provider_text(cfg.dns_provider))),
                ("mtu"@, optional_number(cfg.mtu)),
                ("power"@, Tree::Bool(cfg.power)),
            ],
        ),
    )
}

/// The size of the archive as the report shows it.
pub open spec fn archive_tree(registry_values: usize, dns_backups: usize) -> Tree {
    Tree::Members(
        members(
            seq![
                ("registry_values"@, Tree::Number(registry_values as int)),
                ("dns_backups"@, Tree::Number(dns_backups as int)),
            ],
        ),
    )
}

/// The TCP status as the report shows it.
pub open spec fn tcp_tree(s: TcpStatus) -> Tree {
    Tree::Members(
        members(
            seq![
                ("global_ok"@, Tree::Bool(s.global_ok)),
                ("ifaces_ok"@, Tree::Number(s.ifaces_ok as int)),
                ("ifaces_total"@, Tree::Number(s.ifaces_total as int)),
            ],
        ),
    )
}

/// The resolvers as the report shows them.
pub open spec fn dns_tree(r: ResolverSet) -> Tree {
    Tree::Members(
        members(
            seq![
                ("provider"@, Tree::Text(provider_text(r.provider))),
                ("primary"@, Tree::Text(r.primary)),
                ("secondary"@, Tree::Text(r.secondary)),
            ],
        ),
    )
}

/// The connection counts as the report shows them.
pub open spec fn connections_tree(c: TcpConnections) -> Tree {
    Tree::Members(
        members(
            seq![
                ("total"@, Tree::Number(c.total as int)),
                ("established"@, Tree::Number(c.established as int)),
                ("time_wait"@, Tree::Number(c.time_wait as int)),
            ],
        ),
    )
}

/// An adapter as the report shows it.
pub open spec fn adapter_tree(a: Adapter) -> Tree {
    Tree::Members(
        members(
            seq![
                ("friendly"@, Tree::Text(a.friendly)),
                ("guid"@, Tree::Text(a.guid)),
                ("up"@, Tree::Bool(a.up)),
                ("dhcp"@, Tree::Bool(a.dhcp)),
                ("mtu"@, Tree::Number(a.mtu as int)),
                ("dns"@, text_list(a.dns)),
                ("dns6"@, text_list(a.dns6)),
                ("ips"@, text_list(a.ips)),
                ("gateways"@, text_list(a.gateways)),
            ],
        ),
    )
}

/// A Wi-Fi link as the report shows it.
pub open spec fn link_tree(l: Link) -> Tree {
    Tree::Members(
        members(
            seq![
                ("guid"@, Tree::Text(l.guid)),
                ("ssid"@, Tree::Text(l.ssid)),
                ("bssid"@, Tree::Text(l.bssid)),
                ("signal_quality"@, Tree::Number(l.signal_quality as int)),
                ("rssi_dbm"@, optional_integer(l.rssi_dbm)),
                ("channel"@, optional_number(l.channel)),
                ("rx_kbps"@, Tree::Number(l.rx_kbps as int)),
                ("tx_kbps"@, Tree::Number(l.tx_kbps as int)),
            ],
        ),
    )
}

/// The whole report; `traffic` are the transfer rates.
pub open spec fn report_tree(r: Report, traffic: Seq<Tree>) -> Tree {
    let ifaces = adapters(r.interfaces@);
    let links = link_views(r.wlan@);
    Tree::Members(
        members(
            seq![
                ("program"@, Tree::Text("stabilizatores"@)),
                ("version"@, Tree::Text(crate::VERSION@)),
                ("time"@, Tree::Text(r.time@)),
                ("config"@, config_tree(r.config)),
                ("archive"@, archive_tree(r.registry_values, r.dns_backups)),
                ("tcp"@, tcp_tree(r.tcp)),
                ("dns"@, dns_tree(r.resolvers@)),
                ("throttling_removed"@, Tree::Bool(r.throttling_removed)),
                ("mtu_aligned"@, Tree::Bool(r.mtu_aligned)),
                ("power_no_power_down"@, Tree::Bool(r.power_no_power_down)),
                ("connections"@, connections_tree(r.connections)),
                (
                    "interfaces"@,
                    Tree::List(Seq::new(ifaces.len(), |i: int| adapter_tree(ifaces[i]))),
                ),
                ("wlan"@, Tree::List(Seq::new(links.len(), |i: int| link_tree(links[i])))),
                ("traffic"@, Tree::List(traffic)),
                ("latency_ms"@, optional_number(r.latency_ms)),
            ],
        ),
    )
}

fn optional(n: Option<u32>) -> (value: serde_json::Value)
    ensures
        tree(value) == optional_number(n),
{
    match n {
        Some(v) => number(v as u64),
        None => null(),
    }
}

fn texts(list_of: &Vec<String>) -> (value: serde_json::Value)
    ensures
        tree(value) == text_list(views(list_of@)),
{
    let mut values: Vec<serde_json::Value> = Vec::new();
    let mut i: usize = 0;
    while i < list_of.len()
        invariant
            i <= list_of@.len(),
            values@.len() == i,
            forall|k: int| 0 <= k < i ==> tree(#[trigger] values@[k]) == Tree::Text(list_of@[k]@),
        decreases list_of@.len() - i,
    {
        values.push(string(list_of[i].clone()));
        i = i + 1;
    }
    assert(trees(values@) =~= Seq::new(
        views(list_of@).len(),
        |i: int| Tree::Text(views(list_of@)[i]),
    ));
    list(values)
}

fn config_value(cfg: &Config) -> (value: serde_json::Value)
    ensures
        tree(value) == config_tree(*cfg),
{
    let mut m = Fields::new();
    m.put("tcp", boolean(cfg.tcp));
    m.put("dns", boolean(cfg.dns));
    m.put("multimedia", boolean(cfg.multimedia));
    m.put("self_heal", boolean(cfg.self_heal));
    m.put("dns_provider", string(provider_label(cfg.dns_provider).to_owned()));
    m.put("mtu", optional(cfg.mtu));
    m.put("power", boolean(cfg.power));
    assert(m.list@ =~= seq![
        ("tcp"@, Tree::Bool(cfg.tcp)),
        ("dns"@, Tree::Bool(cfg.dns)),
        ("multimedia"@, Tree::Bool(cfg.multimedia)),
        ("self_heal"@, Tree::Bool(cfg.self_heal)),
        ("dns_provider"@, Tree::Text(provider_text(cfg.dns_provider))),
        ("mtu"@, optional_number(cfg.mtu)),
        ("power"@, Tree::Bool(cfg.power)),
    ]);
    m.value()
}

fn archive_value(registry_values: usize, dns_backups: usize) -> (value: serde_json::Value)
    ensures
        tree(value) == archive_tree(registry_values, dns_backups),
{
    let mut m = Fields::new();
    m.put("registry_values", number(registry_values as u64));
    m.put("dns_backups", number(dns_backups as u64));
    assert(m.list@ =~= seq![
        ("registry_values"@, Tree::Number(registry_values as int)),
        ("dns_backups"@, Tree::Number(dns_backups as int)),
    ]);
    m.value()
}

fn tcp_value(s: &TcpStatus) -> (value: serde_json::Value)
    ensures
        tree(value) == tcp_tree(*s),
{
    let mut m = Fields::new();
    m.put("global_ok", boolean(s.global_ok));
    m.put("ifaces_ok", number(s.ifaces_ok as u64));
    m.put("ifaces_total", number(s.ifaces_total as u64));
    assert(m.list@ =~= seq![
        ("global_ok"@, Tree::Bool(s.global_ok)),
        ("ifaces_ok"@, Tree::Number(s.ifaces_ok as int)),
        ("ifaces_total"@, Tree::Number(s.ifaces_total as int)),
    ]);
    m.value()
}

fn dns_value(r: &Resolvers) -> (value: serde_json::Value)
    ensures
        tree(value) == dns_tree(r@),
{
    let mut m = Fields::new();
    m.put("provider", string(provider_label(r.provider).to_owned()));
    m.put("primary", string(r.primary.to_owned()));
    m.put("secondary", string(r.secondary.to_owned()));
    assert(m.list@ =~= seq![
        ("provider"@, Tree::Text(provider_text(r.provider))),
        ("primary"@, Tree::Text(r.primary@)),
        ("secondary"@, Tree::Text(r.secondary@)),
    ]);
    m.value()
}

fn connections_value(c: &TcpConnections) -> (value: serde_json::Value)
    ensures
        tree(value) == connections_tree(*c),
{
    let mut m = Fields::new();
    m.put("total", number(c.total as u64));
    m.put("established", number(c.established as u64));
    m.put("time_wait", number(c.time_wait as u64));
    assert(m.list@ =~= seq![
        ("total"@, Tree::Number(c.total as int)),
        ("established"@, Tree::Number(c.established as int)),
        ("time_wait"@, Tree::Number(c.time_wait as int)),
    ]);
    m.value()
}

fn adapter_value(iface: &Interface) -> (value: serde_json::Value)
    ensures
        tree(value) == adapter_tree(iface@),
{
    let mut m = Fields::new();
    m.put("friendly", string(iface.friendly.clone()));
    m.put("guid", string(iface.guid.clone()));
    m.put("up", boolean(iface.up));
    m.put("dhcp", boolean(iface.dhcp));
    m.put("mtu", number(iface.mtu as u64));
    m.put("dns", texts(&iface.dns));
    m.put("dns6", texts(&iface.dns6));
    m.put("ips", texts(&iface.ips));
    m.put("gateways", texts(&iface.gateways));
    let ghost a = iface@;
    assert(m.list@ =~= seq![
        ("friendly"@, Tree::Text(a.friendly)),
        ("guid"@, Tree::Text(a.guid)),
        ("up"@, Tree::Bool(a.up)),
        ("dhcp"@, Tree::Bool(a.dhcp)),
        ("mtu"@, Tree::Number(a.mtu as int)),
        ("dns"@, text_list(a.dns)),
        ("dns6"@, text_list(a.dns6)),
        ("ips"@, text_list(a.ips)),
        ("gateways"@, text_list(a.gateways)),
    ]);
    m.value()
}

fn link_value(link: &WlanLink) -> (value: serde_json::Value)
    ensures
        tree(value) == link_tree(link@),
{
    let rssi = match link.rssi_dbm {
        Some(v) => integer(v as i64),
        None => null(),
    };
    let mut m = Fields::new();
    m.put("guid", string(link.guid.clone()));
    m.put("ssid", string(link.ssid.clone()));
    m.put("bssid", string(link.bssid.clone()));
    m.put("signal_quality", number(link.signal_quality as u64));
    m.put("rssi_dbm", rssi);
    m.put("channel", optional(link.channel));
    m.put("rx_kbps", number(link.rx_kbps as u64));
    m.put("tx_kbps", number(link.tx_kbps as u64));
    let ghost l = link@;
    assert(m.list@ =~= seq![
        ("guid"@, Tree::Text(l.guid)),
        ("ssid"@, Tree::Text(l.ssid)),
        ("bssid"@, Tree::Text(l.bssid)),
        ("signal_quality"@, Tree::Number(l.signal_quality as int)),
        ("rssi_dbm"@, optional_integer(l.rssi_dbm)),
        ("channel"@, optional_number(l.channel)),
        ("rx_kbps"@, Tree::Number(l.rx_kbps as int)),
        ("tx_kbps"@, Tree::Number(l.tx_kbps as int)),
    ]);
    m.value()
}

fn adapter_values(ifaces: &Vec<Interface>) -> (value: serde_json::Value)
    ensures
        tree(value) == Tree::List(
            Seq::new(
                adapters(ifaces@).len(),
                |i: int| adapter_tree(adapters(ifaces@)[i]),
            ),
        ),
{
    let mut values: Vec<serde_json::Value> = Vec::new();
    let mut i: usize = 0;
    while i < ifaces.len()
        invariant
            i <= ifaces@.len(),
            values@.len() == i,
            forall|k: int| 0 <= k < i ==> tree(#[trigger] values@[k]) == adapter_tree(ifaces@[k]@),
        decreases ifaces@.len() - i,
    {
        values.push(adapter_value(&ifaces[i]));
        i = i + 1;
    }
    assert(trees(values@) =~= Seq::new(
        adapters(ifaces@).len(),
        |i: int| adapter_tree(adapters(ifaces@)[i]),
    ));
    list(values)
}

fn link_values(links: &Vec<WlanLink>) -> (value: serde_json::Value)
    ensures
        tree(value) == Tree::List(
            Seq::new(link_views(links@).len(), |i: int| link_tree(link_views(links@)[i])),
        ),
{
    let mut values: Vec<serde_json::Value> = Vec::new();
    let mut i: usize = 0;
    while i < links.len()
        invariant
            i <= links@.len(),
            values@.len() == i,
            forall|k: int| 0 <= k < i ==> tree(#[trigger] values@[k]) == link_tree(links@[k]@),
        decreases links@.len() - i,
    {
        values.push(link_value(&links[i]));
        i = i + 1;
    }
    assert(trees(values@) =~= Seq::new(
        link_views(links@).len(),
        |i: int| link_tree(link_views(links@)[i]),
    ));
    list(values)
}

/// Gathers the report into one JSON value; `traffic` are the transfer rates.
pub fn collect_report(report: &Report, traffic: Vec<serde_json::Value>) -> (value:
    serde_json::Value)
    ensures
        tree(value) == report_tree(*report, trees(traffic@)),
{
    let ghost rates = trees(traffic@);
    let mut m = Fields::new();
    m.put("program", string("stabilizatores".to_owned()));
    m.put("version", string(crate::VERSION.to_owned()));
    m.put("time", string(report.time.clone()));
    m.put("config", config_value(&report.config));
    m.put("archive", archive_value(report.registry_values, report.dns_backups));
    m.put("tcp", tcp_value(&report.tcp));
    m.put("dns", dns_value(&report.resolvers));
    m.put("throttling_removed", boolean(report.throttling_removed));
    m.put("mtu_aligned", boolean(report.mtu_aligned));
    m.put("power_no_power_down", boolean(report.power_no_power_down));
    m.put("connections", connections_value(&report.connections));
    m.put("interfaces", adapter_values(&report.interfaces));
    m.put("wlan", link_values(&report.wlan));
    m.put("traffic", list(traffic));
    m.put("latency_ms", optional(report.latency_ms));
    let ghost r = *report;
    let ghost ifaces = adapters(r.interfaces@);
    let ghost links = link_views(r.wlan@);
    assert(m.list@ =~= seq![
        ("program"@, Tree::Text("stabilizatores"@)),
        ("version"@, Tree::Text(crate::VERSION@)),
        ("time"@, Tree::Text(r.time@)),
        ("config"@, config_tree(r.config)),
        ("archive"@, archive_tree(r.registry_values, r.dns_backups)),
        ("tcp"@, tcp_tree(r.tcp)),
        ("dns"@, dns_tree(r.resolvers@)),
        ("throttling_removed"@, Tree::Bool(r.throttling_removed)),
        ("mtu_aligned"@, Tree::Bool(r.mtu_aligned)),
        ("power_no_power_down"@, Tree::Bool(r.power_no_power_down)),
        ("connections"@, connections_tree(r.connections)),
        ("interfaces"@, Tree::List(Seq::new(ifaces.len(), |i: int| adapter_tree(ifaces[i])))),
        ("wlan"@, Tree::List(Seq::new(links.len(), |i: int| link_tree(links[i])))),
        ("traffic"@, Tree::List(rates)),
        ("latency_ms"@, optional_number(r.latency_ms)),
    ]);
    m.value()
}

/// The bytes of a report file: the pretty-printed report and a line end. What
/// serialization can fail with is its own to say.
pub fn report_bytes(report: &Report, traffic: Vec<serde_json::Value>) -> (bytes: Result<
    Vec<u8>,
    String,
>)
    ensures
        bytes_view(bytes) == with_line_end(
            pretty_printed(report_tree(*report, trees(traffic@))),
        ),
{
    let value = collect_report(report, traffic);
    let printed = to_vec_pretty(&value);
    end_line(printed)
}

/// Serialized bytes with a line end.
pub open spec fn with_line_end(bytes: Result<Seq<u8>, Seq<char>>) -> Result<Seq<u8>, Seq<char>> {
    match bytes {
        Ok(b) => Ok(b.push(10u8)),
        Err(e) => Err(e),
    }
}

/// Ends serialized bytes with a line feed.
pub fn end_line(bytes: Result<Vec<u8>, String>) -> (ended: Result<Vec<u8>, String>)
    ensures
        bytes_view(ended) == with_line_end(bytes_view(bytes)),
{
    match bytes {
        Ok(mut b) => {
            b.push(10);
            Ok(b)
        },
        Err(e) => Err(e),
    }
}

/// The name of a report file.
pub fn report_file(stamp: &str) -> (name: String)
    ensures
        name@ == "report-"@ + stamp@ + ".json"@,
{
    "report-".to_owned().concat(stamp).concat(".json")
}

} // verus!
