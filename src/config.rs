//! The manifest model: tool and host specifications, and the aggregation of
//! manifests with first-write-wins semantics.

use vstd::prelude::*;
use vstd::string::*;

use crate::text::str_equal;
use crate::ci_string::{folded, lemma_folded_concat, lemma_folded_len, CiString};
use crate::entries::{
    find_key, insert_if_absent, insert_or_replace, is_first_position, keys_of, keys_unique, lookup,
    or_else, position_in,
};
use crate::text::{concat, concat3};
use crate::version::{parse_requirement, semver_requirement};

verus! {

/// The protocol a tool is fetched with.
#[derive(Debug, Clone, Copy, PartialEq, Eq, Structural)]
pub enum Protocol {
    Github,
    Gitlab,
    Artifactory,
}

/// A value inside a tool or host entry.
#[derive(Debug, Clone, PartialEq, Eq)]
pub enum TomlScalar {
    Str(String),
    /// Any other kind of value (a number, a boolean, an array, a table).
    Other,
}

/// A tool or host entry of a manifest.
#[derive(Debug, Clone, PartialEq, Eq)]
pub enum TomlValue {
    Str(String),
    Table(Vec<(String, TomlScalar)>),
    /// Any other kind of value.
    Other,
}

/// A tool or host entry together with its TOML rendering, which errors quote.
#[derive(Debug, Clone, PartialEq, Eq)]
pub struct TomlItem {
    pub value: TomlValue,
    pub text: String,
}

/// A top-level value of a manifest, such as its `tools` table.
#[derive(Debug, Clone, PartialEq, Eq)]
pub enum TomlSection {
    Table(Vec<(String, TomlItem)>),
    /// Any other kind of value.
    Other,
}

/// A whole manifest: its top-level keys and values, and its TOML rendering.
#[derive(Debug, Clone, PartialEq, Eq)]
pub struct TomlDocument {
    pub sections: Vec<(String, TomlSection)>,
    pub text: String,
}

/// Why a manifest was refused.
#[derive(Debug, Clone, PartialEq, Eq)]
pub enum ConfigFileParseError {
    /// A tool entry, or the manifest holding it, is malformed; its rendering.
    Tool { tool: String },
    /// A host entry is malformed; its rendering.
    Host { host: String },
    InvalidProtocol { protocol: String },
    MissingField { field: String },
}

/// The model of a parse error.
pub enum ParseErrorModel {
    Tool(Seq<char>),
    Host(Seq<char>),
    InvalidProtocol(Seq<char>),
    MissingField(Seq<char>),
}

impl View for ConfigFileParseError {
    type V = ParseErrorModel;

    open spec fn view(&self) -> ParseErrorModel {
        match self {
            ConfigFileParseError::Tool { tool } => ParseErrorModel::Tool(tool@),
            ConfigFileParseError::Host { host } => ParseErrorModel::Host(host@),
            ConfigFileParseError::InvalidProtocol { protocol } => ParseErrorModel::InvalidProtocol(
                protocol@,
            ),
            ConfigFileParseError::MissingField { field } => ParseErrorModel::MissingField(field@),
        }
    }
}

/// The serialization of the URL written `s`, per the url crate, if it parses.
pub uninterp spec fn url_parse(s: Seq<char>) -> Option<Seq<char>>;

/// Relies on `url::Url::parse` and the URL's `Display` (its serialization).
#[verifier::external_body]
fn parse_url(s: &str) -> (r: Option<String>)
    ensures
        match (r, url_parse(s@)) {
            (Some(u), Some(m)) => u@ == m,
            (None, None) => true,
            _ => false,
        },
{
    match url::Url::parse(s) {
        Ok(u) => Some(u.to_string()),
        Err(_) => None,
    }
}

/// A backend that tools can name: its URL and protocol.
#[derive(Debug, Clone, PartialEq, Eq)]
pub struct Host {
    pub source: String,
    pub protocol: Protocol,
}

/// The model of a host.
pub struct HostModel {
    pub source: Seq<char>,
    pub protocol: Protocol,
}

impl View for Host {
    type V = HostModel;

    open spec fn view(&self) -> HostModel {
        HostModel { source: self.source@, protocol: self.protocol }
    }
}

/// Every key of `entries` is `a` or `b`.
pub open spec fn only_keys(entries: Seq<(String, TomlScalar)>, a: Seq<char>, b: Seq<char>) -> bool {
    forall|i: int| 0 <= i < entries.len() ==> #[trigger] entries[i].0@ == a || entries[i].0@ == b
}

fn check_only_keys(entries: &Vec<(String, TomlScalar)>, a: &str, b: &str) -> (r: bool)
    ensures
        r == only_keys(entries@, a@, b@),
{
    let mut i: usize = 0;
    while i < entries.len()
        invariant
            i <= entries@.len(),
            forall|k: int| 0 <= k < i ==> #[trigger] entries@[k].0@ == a@ || entries@[k].0@ == b@,
        decreases entries@.len() - i,
    {
        if !str_equal(entries[i].0.as_str(), a) && !str_equal(entries[i].0.as_str(), b) {
            return false;
        }
        i = i + 1;
    }
    true
}

/// The string held at `key` of a table, if there is one.
pub open spec fn str_at(entries: Seq<(String, TomlScalar)>, key: Seq<char>) -> Option<Seq<char>> {
    match lookup(entries, key) {
        Some(TomlScalar::Str(s)) => Some(s@),
        _ => None,
    }
}

/// The protocol named `p`.
pub open spec fn protocol_named(p: Seq<char>) -> Option<Protocol> {
    if p == "github"@ {
        Some(Protocol::Github)
    } else if p == "gitlab"@ {
        Some(Protocol::Gitlab)
    } else if p == "artifactory"@ {
        Some(Protocol::Artifactory)
    } else {
        None
    }
}

/// What a host entry parses to: a table with exactly `source`, a URL, and
/// `protocol`, one of the three protocol names.
pub open spec fn host_result(item: TomlItem) -> Result<HostModel, ParseErrorModel> {
    match item.value {
        TomlValue::Table(entries) => {
            let e = entries@;
            match str_at(e, "source"@) {
                None => Err(ParseErrorModel::Host(item.text@)),
                Some(s) => match url_parse(s) {
                    None => Err(ParseErrorModel::Host(item.text@)),
                    Some(u) => if lookup(e, "protocol"@) is None || !only_keys(
                        e,
                        "source"@,
                        "protocol"@,
                    ) {
                        Err(ParseErrorModel::Host(item.text@))
                    } else {
                        match str_at(e, "protocol"@) {
                            None => Err(ParseErrorModel::Host(item.text@)),
                            Some(p) => match protocol_named(p) {
                                None => Err(ParseErrorModel::InvalidProtocol(p)),
                                Some(protocol) => Ok(HostModel { source: u, protocol }),
                            },
                        }
                    },
                },
            }
        },
        _ => Err(ParseErrorModel::Host(item.text@)),
    }
}

/// The string held at `key` of a table.
fn get_str<'a>(entries: &'a Vec<(String, TomlScalar)>, key: &str) -> (r: Option<&'a String>)
    ensures
        match (r, str_at(entries@, key@)) {
            (Some(s), Some(m)) => s@ == m,
            (None, None) => true,
            _ => false,
        },
{
    match find_key(entries, key) {
        Some(i) => match &entries[i].1 {
            TomlScalar::Str(s) => Some(s),
            _ => None,
        },
        None => None,
    }
}

impl Host {
    pub fn new(source: String, protocol: Protocol) -> (r: Host)
        ensures
            r@ == (HostModel { source: source@, protocol }),
    {
        Host { source, protocol }
    }

    pub fn source(&self) -> (r: &String)
        ensures
            r@ == self@.source,
    {
        &self.source
    }

    pub fn protocol(&self) -> (r: Protocol)
        ensures
            r == self@.protocol,
    {
        self.protocol
    }

    /// A copy of this host.
    pub fn duplicate(&self) -> (r: Host)
        ensures
            r == *self,
    {
        Host { source: self.source.clone(), protocol: self.protocol }
    }

    /// Reads a host entry of a manifest.
    pub fn from_value(item: &TomlItem) -> (r: Result<Host, ConfigFileParseError>)
        ensures
            match (r, host_result(*item)) {
                (Ok(h), Ok(m)) => h@ == m,
                (Err(e), Err(m)) => e@ == m,
                _ => false,
            },
    {
        proof {
            reveal_strlit("source");
            reveal_strlit("protocol");
            reveal_strlit("github");
            reveal_strlit("gitlab");
            reveal_strlit("artifactory");
        }
        let refused = ConfigFileParseError::Host { host: item.text.clone() };
        match &item.value {
            TomlValue::Table(entries) => {
                let source_string = match get_str(entries, "source") {
                    Some(s) => s,
                    None => return Err(refused),
                };
                let source = match parse_url(source_string.as_str()) {
                    Some(u) => u,
                    None => return Err(refused),
                };
                if find_key(entries, "protocol").is_none() {
                    return Err(refused);
                }
                if !check_only_keys(entries, "source", "protocol") {
                    return Err(refused);
                }
                let protocol_str = match get_str(entries, "protocol") {
                    Some(p) => p,
                    None => return Err(refused),
                };
                let protocol = if str_equal(protocol_str.as_str(), "github") {
                    Protocol::Github
                } else if str_equal(protocol_str.as_str(), "gitlab") {
                    Protocol::Gitlab
                } else if str_equal(protocol_str.as_str(), "artifactory") {
                    Protocol::Artifactory
                } else {
                    return Err(ConfigFileParseError::InvalidProtocol { protocol: protocol_str.clone() });
                };
                Ok(Host { source, protocol })
            },
            _ => Err(refused),
        }
    }
}

/// A tool of a manifest: where it is hosted, its path there, the version
/// requirement (in semver's canonical form) and the protocol.
#[derive(Debug, Clone, PartialEq, Eq)]
pub struct ToolSpec {
    pub host: String,
    pub path: String,
    pub version: String,
    pub protocol: Protocol,
}

/// The model of a tool specification.
pub struct ToolSpecModel {
    pub host: Seq<char>,
    pub path: Seq<char>,
    pub version: Seq<char>,
    pub protocol: Protocol,
}

impl View for ToolSpec {
    type V = ToolSpecModel;

    open spec fn view(&self) -> ToolSpecModel {
        ToolSpecModel {
            host: self.host@,
            path: self.path@,
            version: self.version@,
            protocol: self.protocol,
        }
    }
}

/// The models of a host table, in order.
pub open spec fn host_models(hosts: Seq<(String, Host)>) -> Seq<(Seq<char>, HostModel)> {
    hosts.map_values(|e: (String, Host)| (e.0@, e.1@))
}

/// The first host, from position `j` on, whose key (other than `version`) the
/// tool entry holds.
pub open spec fn first_host_from(
    entries: Seq<(String, TomlScalar)>,
    hosts: Seq<(Seq<char>, HostModel)>,
    j: int,
) -> Option<int>
    decreases hosts.len() - j,
{
    if j < 0 || j >= hosts.len() {
        None
    } else if hosts[j].0 != "version"@ && lookup(entries, hosts[j].0) is Some {
        Some(j)
    } else {
        first_host_from(entries, hosts, j + 1)
    }
}

/// What a tool entry parses to against the host table `hosts`: a table with
/// a `version` requirement and exactly one other key, the first host key of
/// `hosts` that it holds, whose value is the tool's path.
pub open spec fn tool_result(item: TomlItem, hosts: Seq<(Seq<char>, HostModel)>) -> Option<ToolSpecModel> {
    match item.value {
        TomlValue::Table(entries) => {
            let e = entries@;
            match str_at(e, "version"@) {
                None => None,
                Some(v) => match semver_requirement(v) {
                    Err(_) => None,
                    Ok(req) => match first_host_from(e, hosts, 0) {
                        None => None,
                        Some(h) => if !only_keys(e, "version"@, hosts[h].0) {
                            None
                        } else {
                            match str_at(e, hosts[h].0) {
                                None => None,
                                Some(p) => Some(
                                    ToolSpecModel {
                                        host: hosts[h].1.source,
                                        path: p,
                                        version: req,
                                        protocol: hosts[h].1.protocol,
                                    },
                                ),
                            }
                        },
                    },
                },
            }
        },
        _ => None,
    }
}

/// The text of a tool's cache key: the path for GitHub, `gitlab@`
/// and the path for GitLab, the host, `@` and the path for an
/// artifact repository.
pub open spec fn cache_key_text(t: ToolSpecModel) -> Seq<char> {
    match t.protocol {
        Protocol::Github => t.path,
        Protocol::Gitlab => "gitlab@"@ + t.path,
        Protocol::Artifactory => t.host + "@"@ + t.path,
    }
}

/// The provider's domain that a tool's source is shown under.
pub open spec fn provider_domain(p: Protocol) -> Seq<char> {
    match p {
        Protocol::Github => "github.com"@,
        Protocol::Gitlab => "gitlab.com"@,
        Protocol::Artifactory => "artifactory.com"@,
    }
}

/// The first host of `host_map` whose key (other than `version`) the entry holds.
fn first_host(entries: &Vec<(String, TomlScalar)>, host_map: &Vec<(String, Host)>) -> (r: Option<usize>)
    ensures
        match r {
            Some(h) => h < host_map@.len() && first_host_from(entries@, host_models(host_map@), 0) == Some(
                h as int,
            ),
            None => first_host_from(entries@, host_models(host_map@), 0) is None,
        },
{
    proof {
        reveal_strlit("version");
    }
    let mut h: usize = 0;
    while h < host_map.len()
        invariant
            h <= host_map@.len(),
            first_host_from(entries@, host_models(host_map@), 0) == first_host_from(
                entries@,
                host_models(host_map@),
                h as int,
            ),
        decreases host_map@.len() - h,
    {
        assert(host_models(host_map@)[h as int] == (host_map@[h as int].0@, host_map@[h as int].1@));
        if !str_equal(host_map[h].0.as_str(), "version") && find_key(entries, host_map[h].0.as_str()).is_some() {
            return Some(h);
        }
        h = h + 1;
    }
    None
}

impl ToolSpec {
    pub fn new(host: String, path: String, version: String, protocol: Protocol) -> (r: ToolSpec)
        ensures
            r@ == (ToolSpecModel { host: host@, path: path@, version: version@, protocol }),
    {
        ToolSpec { host, path, version, protocol }
    }

    /// A copy of this specification.
    pub fn duplicate(&self) -> (r: ToolSpec)
        ensures
            r == *self,
    {
        ToolSpec {
            host: self.host.clone(),
            path: self.path.clone(),
            version: self.version.clone(),
            protocol: self.protocol,
        }
    }

    /// Reads a tool entry of a manifest against the host table `host_map`.
    pub fn from_value(item: &TomlItem, host_map: &Vec<(String, Host)>) -> (r: Result<
        ToolSpec,
        ConfigFileParseError,
    >)
        ensures
            match (r, tool_result(*item, host_models(host_map@))) {
                (Ok(t), Some(m)) => t@ == m,
                (Err(e), None) => e@ == ParseErrorModel::Tool(item.text@),
                _ => false,
            },
    {
        proof {
            reveal_strlit("version");
        }
        let entries = match &item.value {
            TomlValue::Table(entries) => entries,
            _ => return Err(ConfigFileParseError::Tool { tool: item.text.clone() }),
        };
        let version_str = match get_str(entries, "version") {
            Some(v) => v,
            None => return Err(ConfigFileParseError::Tool { tool: item.text.clone() }),
        };
        let version = match parse_requirement(version_str.as_str()) {
            Ok(req) => req,
            Err(_) => return Err(ConfigFileParseError::Tool { tool: item.text.clone() }),
        };
        let h = match first_host(entries, host_map) {
            Some(h) => h,
            None => return Err(ConfigFileParseError::Tool { tool: item.text.clone() }),
        };
        assert(first_host_from(entries@, host_models(host_map@), 0) == Some(h as int));
        assert(host_models(host_map@)[h as int] == (host_map@[h as int].0@, host_map@[h as int].1@));
        let key = host_map[h].0.as_str();
        if !check_only_keys(entries, "version", key) {
            return Err(ConfigFileParseError::Tool { tool: item.text.clone() });
        }
        let path = match get_str(entries, key) {
            Some(p) => p.clone(),
            None => return Err(ConfigFileParseError::Tool { tool: item.text.clone() }),
        };
        let host = host_map[h].1.source.clone();
        Ok(ToolSpec { host, path, version, protocol: host_map[h].1.protocol })
    }

    /// The identity of the tool in the index.
    pub fn cache_key(&self) -> (r: CiString)
        ensures
            r.0@ == cache_key_text(self@),
    {
        proof {
            reveal_strlit("gitlab@");
            reveal_strlit("@");
        }
        match self.protocol {
            Protocol::Github => CiString(self.path.clone()),
            Protocol::Gitlab => CiString(concat("gitlab@", self.path.as_str())),
            Protocol::Artifactory => CiString(concat3(self.host.as_str(), "@", self.path.as_str())),
        }
    }

    /// The provider's domain and the path: `github.com/user/repo`.
    pub fn source(&self) -> (r: String)
        ensures
            r@ == provider_domain(self@.protocol) + "/"@ + self@.path,
    {
        let provider = match self.protocol {
            Protocol::Github => "github.com",
            Protocol::Gitlab => "gitlab.com",
            Protocol::Artifactory => "artifactory.com",
        };
        concat3(provider, "/", self.path.as_str())
    }

    pub fn path(&self) -> (r: &str)
        ensures
            r@ == self@.path,
    {
        self.path.as_str()
    }

    /// The version requirement, in semver's canonical form.
    pub fn version(&self) -> (r: &str)
        ensures
            r@ == self@.version,
    {
        self.version.as_str()
    }

    pub fn protocol(&self) -> (r: Protocol)
        ensures
            r == self@.protocol,
    {
        self.protocol
    }

    /// The URL of the tool's host.
    pub fn host(&self) -> (r: &str)
        ensures
            r@ == self@.host,
    {
        self.host.as_str()
    }

    /// The display form: the source, `@`, and the requirement.
    pub fn to_string(&self) -> (r: String)
        ensures
            r@ == provider_domain(self@.protocol) + "/"@ + self@.path + "@"@ + self@.version,
    {
        let source = self.source();
        concat3(source.as_str(), "@", self.version.as_str())
    }
}

/// The URL of GitHub, as the url crate serializes it.
pub const GITHUB: &'static str = "https://github.com/";

/// The URL of GitLab, as the url crate serializes it.
pub const GITLAB: &'static str = "https://gitlab.com/";

/// An aggregated manifest: tools by alias, hosts by key.
#[derive(Debug, Clone, PartialEq, Eq)]
pub struct ConfigFile {
    pub tools: Vec<(String, ToolSpec)>,
    pub hosts: Vec<(String, Host)>,
}

/// The host keys every manifest knows: `source` and `github` for GitHub,
/// and `gitlab` for GitLab.
pub open spec fn default_host(k: Seq<char>) -> Option<HostModel> {
    if k == "source"@ || k == "github"@ {
        Some(HostModel { source: GITHUB@, protocol: Protocol::Github })
    } else if k == "gitlab"@ {
        Some(HostModel { source: GITLAB@, protocol: Protocol::Gitlab })
    } else {
        None
    }
}

/// The model of an optional host.
pub open spec fn host_view(h: Option<Host>) -> Option<HostModel> {
    match h {
        Some(h) => Some(h@),
        None => None,
    }
}

/// The model of an optional tool.
pub open spec fn tool_view(t: Option<ToolSpec>) -> Option<ToolSpecModel> {
    match t {
        Some(t) => Some(t@),
        None => None,
    }
}

/// The tools of the `j`-th and later manifests of a chain, each alias taken
/// from the first manifest that defines it.
pub open spec fn chain_tool(chain: Seq<ConfigFile>, k: Seq<char>, j: int) -> Option<ToolSpec>
    decreases chain.len() - j,
{
    if j < 0 || j >= chain.len() {
        None
    } else {
        or_else(lookup(chain[j].tools@, k), chain_tool(chain, k, j + 1))
    }
}

/// The hosts of the `j`-th and later manifests of a chain, each key taken from
/// the first manifest that defines it.
pub open spec fn chain_host(chain: Seq<ConfigFile>, k: Seq<char>, j: int) -> Option<Host>
    decreases chain.len() - j,
{
    if j < 0 || j >= chain.len() {
        None
    } else {
        or_else(lookup(chain[j].hosts@, k), chain_host(chain, k, j + 1))
    }
}

/// The entries of a manifest's `hosts` table (none where it has none).
pub open spec fn hosts_section(doc: TomlDocument) -> Seq<(String, TomlItem)> {
    match lookup(doc.sections@, "hosts"@) {
        Some(TomlSection::Table(h)) => h@,
        _ => Seq::empty(),
    }
}

/// The entries of a manifest's `tools` table; absent where the key is.
pub open spec fn tools_section(doc: TomlDocument) -> Option<Seq<(String, TomlItem)>> {
    match lookup(doc.sections@, "tools"@) {
        Some(TomlSection::Table(t)) => Some(t@),
        Some(TomlSection::Other) => Some(Seq::empty()),
        None => None,
    }
}

/// The position of the entry of `entries` whose key is `k`.
pub open spec fn has_key<V>(entries: Seq<(String, V)>, k: Seq<char>) -> bool {
    exists|i: int| 0 <= i < entries.len() && #[trigger] entries[i].0@ == k
}

/// The default host table: `source` and `github` for GitHub, then `gitlab`.
pub open spec fn default_host_models() -> Seq<(Seq<char>, HostModel)> {
    seq![
        ("source"@, HostModel { source: GITHUB@, protocol: Protocol::Github }),
        ("github"@, HostModel { source: GITHUB@, protocol: Protocol::Github }),
        ("gitlab"@, HostModel { source: GITLAB@, protocol: Protocol::Gitlab }),
    ]
}

/// `hosts` with `key` set to `m`: the first entry with that key replaced, or
/// a new entry at the end.
pub open spec fn set_host(hosts: Seq<(Seq<char>, HostModel)>, key: Seq<char>, m: HostModel) -> Seq<(Seq<char>, HostModel)> {
    match position_in(hosts.map_values(|e: (Seq<char>, HostModel)| e.0), key) {
        Some(i) => hosts.update(i, (key, m)),
        None => hosts.push((key, m)),
    }
}

/// The host table after the first `n` entries of a `hosts` table were laid
/// over the defaults, in order.
pub open spec fn merged_hosts_upto(hs: Seq<(String, TomlItem)>, n: int) -> Seq<(Seq<char>, HostModel)>
    decreases n,
{
    if n <= 0 {
        default_host_models()
    } else {
        match host_result(hs[n - 1].1) {
            Ok(m) => set_host(merged_hosts_upto(hs, n - 1), hs[n - 1].0@, m),
            Err(_) => merged_hosts_upto(hs, n - 1),
        }
    }
}

/// The host table of a manifest: the defaults overlaid by its `hosts` table.
pub open spec fn merged_hosts(doc: TomlDocument) -> Seq<(Seq<char>, HostModel)> {
    merged_hosts_upto(hosts_section(doc), hosts_section(doc).len() as int)
}

/// Every entry of the manifest's `hosts` table parses.
pub open spec fn hosts_parse(doc: TomlDocument) -> bool {
    forall|i: int| 0 <= i < hosts_section(doc).len() ==> #[trigger] host_result(hosts_section(doc)[i].1) is Ok
}

/// Every entry of the manifest's `tools` table parses against its host table.
pub open spec fn tools_parse(doc: TomlDocument) -> bool {
    tools_section(doc) matches Some(ts) && forall|i: int|
        0 <= i < ts.len() ==> #[trigger] tool_result(ts[i].1, merged_hosts(doc)) is Some
}

/// Adds each entry of `from` whose key `into` lacks, in order.
fn merge_entries<V>(into: &mut Vec<(String, V)>, from: Vec<(String, V)>)
    ensures
        forall|k: Seq<char>|
            lookup(final(into)@, k) == or_else(lookup(old(into)@, k), lookup(from@, k)),
        keys_unique(old(into)@) ==> keys_unique(final(into)@),
{
    let ghost orig = from@;
    let ghost start = into@;
    let mut from = from;
    let ghost mut i: int = 0;
    while from.len() > 0
        invariant
            0 <= i <= orig.len(),
            from@ == orig.subrange(i as int, orig.len() as int),
            forall|k: Seq<char>|
                lookup(into@, k) == or_else(lookup(start, k), lookup(orig.subrange(0, i as int), k)),
            keys_unique(start) ==> keys_unique(into@),
        decreases from@.len(),
    {
        let (key, value) = from.remove(0);
        let ghost before = into@;
        let ghost kv = key@;
        insert_if_absent(into, key, value);
        assert(i < orig.len()) by {
            assert(from@.len() + 1 == orig.len() - i);
        }
        proof {
            assert(orig.subrange(0, i + 1) =~= orig.subrange(0, i as int).push(orig[i as int]));
            assert forall|k: Seq<char>|
                lookup(into@, k) == or_else(lookup(start, k), lookup(orig.subrange(0, i + 1), k)) by {
                crate::entries::lemma_lookup_push(orig.subrange(0, i as int), orig[i as int], k, 0);
            }
        }
        proof {
            i = i + 1;
        }
        assert(from@ =~= orig.subrange(i as int, orig.len() as int));
    }
    assert(orig.subrange(0, i as int) =~= orig);
}

impl ConfigFile {
    /// A manifest with no tools and the default hosts.
    pub fn new_with_defaults() -> (r: ConfigFile)
        ensures
            r.tools@.len() == 0,
            forall|k: Seq<char>| #[trigger] host_view(lookup(r.hosts@, k)) == default_host(k),
            keys_unique(r.hosts@),
            host_models(r.hosts@) == default_host_models(),
    {
        let mut hosts: Vec<(String, Host)> = Vec::new();
        proof {
            reveal_strlit("source");
            reveal_strlit("github");
            reveal_strlit("gitlab");
        }
        let ghost h0 = hosts@;
        let a = Host::new(String::from_str(GITHUB), Protocol::Github);
        let b = Host::new(String::from_str(GITHUB), Protocol::Github);
        let c = Host::new(String::from_str(GITLAB), Protocol::Gitlab);
        let ghost ga = a;
        let ghost gb = b;
        let ghost gc = c;
        assert(!exists|i: int| is_first_position(keys_of(h0), "source"@, i));
        insert_or_replace(&mut hosts, String::from_str("source"), a);
        let ghost h1 = hosts@;
        assert(keys_of(h1)[0] == "source"@);
        assert("github"@ != "source"@) by {
            assert("github"@[0] != "source"@[0]);
        }
        assert(!exists|i: int| is_first_position(keys_of(h1), "github"@, i));
        insert_or_replace(&mut hosts, String::from_str("github"), b);
        let ghost h2 = hosts@;
        assert(keys_of(h2)[0] == "source"@ && keys_of(h2)[1] == "github"@);
        assert("gitlab"@ != "github"@) by {
            assert("gitlab"@[3] != "github"@[3]);
        }
        assert("gitlab"@ != "source"@) by {
            assert("gitlab"@[0] != "source"@[0]);
        }
        assert(!exists|i: int| is_first_position(keys_of(h2), "gitlab"@, i));
        insert_or_replace(&mut hosts, String::from_str("gitlab"), c);
        assert(host_models(hosts@) =~= default_host_models());
        assert(ga@ == HostModel { source: GITHUB@, protocol: Protocol::Github });
        assert(gb@ == HostModel { source: GITHUB@, protocol: Protocol::Github });
        assert(gc@ == HostModel { source: GITLAB@, protocol: Protocol::Gitlab });
        assert("gitlab"@ != "github"@) by {
            assert("gitlab"@[3] != "github"@[3]);
        }
        assert("gitlab"@ != "source"@) by {
            assert("gitlab"@[0] != "source"@[0]);
        }
        assert("github"@ != "source"@) by {
            assert("github"@[0] != "source"@[0]);
        }
        assert forall|k: Seq<char>| #[trigger] host_view(lookup(hosts@, k)) == default_host(k) by {
            assert(lookup(h0, k) is None);
            if k == "gitlab"@ {
                assert(lookup(hosts@, k) == Some(gc));
            } else if k == "github"@ {
                assert(lookup(hosts@, k) == lookup(h2, k));
                assert(lookup(h2, k) == Some(gb));
            } else if k == "source"@ {
                assert(lookup(hosts@, k) == lookup(h2, k));
                assert(lookup(h2, k) == lookup(h1, k));
                assert(lookup(h1, k) == Some(ga));
            } else {
                assert(lookup(hosts@, k) == lookup(h2, k));
                assert(lookup(h2, k) == lookup(h1, k));
                assert(lookup(h1, k) == lookup(h0, k));
            }
        }
        ConfigFile { tools: Vec::new(), hosts }
    }

    /// Reads a manifest: its `hosts` table over the default hosts, then its
    /// `tools` table against the resulting hosts. It succeeds exactly when
    /// every host entry and every tool entry parses and there is a `tools`
    /// key; a failing entry is reported with the manifest's rendering.
    pub fn from_value(value: &TomlDocument) -> (r: Result<ConfigFile, ConfigFileParseError>)
        ensures
            hosts_parse(*value) && tools_parse(*value) ==> r is Ok,
            r is Ok ==> hosts_parse(*value) && tools_parse(*value),
            !hosts_parse(*value) ==> r is Err && r->Err_0@ == ParseErrorModel::Tool(value.text@),
            hosts_parse(*value) && tools_section(*value) is None ==> r is Err && r->Err_0@
                == ParseErrorModel::MissingField("tools"@),
            r matches Err(e) ==> e@ == ParseErrorModel::Tool(value.text@) || e@
                == ParseErrorModel::MissingField("tools"@),
            r matches Ok(c) ==> {
                &&& host_models(c.hosts@) == merged_hosts(*value)
                &&& tools_section(*value) matches Some(ts) && {
                    &&& keys_unique(ts) ==> forall|i: int|
                        0 <= i < ts.len() ==> tool_view(lookup(c.tools@, #[trigger] ts[i].0@))
                            == tool_result(ts[i].1, merged_hosts(*value))
                    &&& forall|k: Seq<char>|
                        #[trigger] lookup(c.tools@, k) is Some ==> has_key(ts, k)
                }
                &&& keys_unique(c.tools@)
                &&& keys_unique(c.hosts@)
            },
    {
        proof {
            reveal_strlit("hosts");
            reveal_strlit("tools");
        }
        let mut config = ConfigFile::new_with_defaults();
        let ghost hs = hosts_section(*value);
        let empty: Vec<(String, TomlItem)> = Vec::new();
        let hosts: &Vec<(String, TomlItem)> = match find_key(&value.sections, "hosts") {
            Some(i) => match &value.sections[i].1 {
                TomlSection::Table(h) => h,
                TomlSection::Other => &empty,
            },
            None => &empty,
        };
        assert(hosts@ == hs);
        let mut i: usize = 0;
        while i < hosts.len()
            invariant
                hosts@ == hs,
                hs == hosts_section(*value),
                i <= hs.len(),
                config.tools@.len() == 0,
                forall|j: int| 0 <= j < i ==> #[trigger] host_result(hs[j].1) is Ok,
                host_models(config.hosts@) == merged_hosts_upto(hs, i as int),
                keys_unique(config.hosts@),
            decreases hs.len() - i,
        {
            let host = match Host::from_value(&hosts[i].1) {
                Ok(h) => h,
                Err(_) => {
                    assert(host_result(hosts_section(*value)[i as int].1) is Err);
                    return Err(ConfigFileParseError::Tool { tool: value.text.clone() });
                },
            };
            let ghost before = config.hosts@;
            let ghost key = hosts@[i as int].0@;
            let ghost hv = host;
            insert_or_replace(&mut config.hosts, hosts[i].0.clone(), host);
            proof {
                assert(keys_of(before) =~= host_models(before).map_values(
                    |e: (Seq<char>, HostModel)| e.0,
                ));
                assert(host_result(hs[i as int].1) == Ok::<HostModel, ParseErrorModel>(hv@));
                match position_in(keys_of(before), key) {
                    Some(p) => {
                        assert(host_models(config.hosts@) =~= host_models(before).update(p, (key, hv@)));
                    },
                    None => {
                        assert(host_models(config.hosts@) =~= host_models(before).push((key, hv@)));
                    },
                }
                assert(host_models(config.hosts@) == merged_hosts_upto(hs, i + 1));
            }
            i = i + 1;
        }
        assert(hosts_parse(*value));
        let tools: &Vec<(String, TomlItem)> = match find_key(&value.sections, "tools") {
            Some(i) => match &value.sections[i].1 {
                TomlSection::Table(t) => t,
                TomlSection::Other => &empty,
            },
            None => {
                return Err(ConfigFileParseError::MissingField { field: String::from_str("tools") });
            },
        };
        let ghost ts = tools@;
        assert(tools_section(*value) == Some(ts));
        let ghost hosts_done = config.hosts@;
        let mut j: usize = 0;
        while j < tools.len()
            invariant
                tools@ == ts,
                tools_section(*value) == Some(ts),
                hosts_parse(*value),
                config.hosts@ == hosts_done,
                host_models(hosts_done) == merged_hosts(*value),
                j <= ts.len(),
                forall|m: int| 0 <= m < j ==> #[trigger] tool_result(ts[m].1, merged_hosts(*value)) is Some,
                keys_unique(ts) ==> forall|m: int|
                    0 <= m < j ==> tool_view(lookup(config.tools@, #[trigger] ts[m].0@))
                        == tool_result(ts[m].1, merged_hosts(*value)),
                forall|k: Seq<char>|
                    #[trigger] lookup(config.tools@, k) is Some ==> has_key(ts.subrange(0, j as int), k),
                keys_unique(config.tools@),
                keys_unique(config.hosts@),
            decreases ts.len() - j,
        {
            let spec = match ToolSpec::from_value(&tools[j].1, &config.hosts) {
                Ok(t) => t,
                Err(_) => {
                    assert(tool_result(ts[j as int].1, merged_hosts(*value)) is None);
                    assert(!tools_parse(*value));
                    return Err(ConfigFileParseError::Tool { tool: value.text.clone() });
                },
            };
            let ghost key = tools@[j as int].0@;
            insert_or_replace(&mut config.tools, tools[j].0.clone(), spec);
            proof {
                if keys_unique(ts) {
                    assert forall|m: int|
                        0 <= m < j + 1 implies tool_view(lookup(config.tools@, #[trigger] ts[m].0@))
                        == tool_result(ts[m].1, merged_hosts(*value)) by {
                        if m < j {
                            assert(ts[m].0@ != ts[j as int].0@);
                        }
                    }
                }
                assert forall|k: Seq<char>|
                    #[trigger] lookup(config.tools@, k) is Some implies has_key(ts.subrange(0, j + 1), k) by {
                    if k == key {
                        assert(ts.subrange(0, j + 1)[j as int].0@ == k);
                    } else {
                        let m = choose|m: int|
                            0 <= m < j && #[trigger] ts.subrange(0, j as int)[m].0@ == k;
                        assert(ts.subrange(0, j + 1)[m].0@ == k);
                    }
                }
            }
            j = j + 1;
        }
        proof {
            assert(ts.subrange(0, ts.len() as int) =~= ts);
            assert(tools_parse(*value));
        }
        Ok(config)
    }

    /// Adds the tools and hosts of `other` that this manifest lacks: what is
    /// here already is kept.
    pub fn fill_from(&mut self, other: ConfigFile)
        ensures
            forall|k: Seq<char>|
                lookup(final(self).tools@, k) == or_else(lookup(old(self).tools@, k), lookup(other.tools@, k)),
            forall|k: Seq<char>|
                lookup(final(self).hosts@, k) == or_else(lookup(old(self).hosts@, k), lookup(other.hosts@, k)),
            keys_unique(old(self).tools@) ==> keys_unique(final(self).tools@),
            keys_unique(old(self).hosts@) ==> keys_unique(final(self).hosts@),
    {
        let ConfigFile { tools, hosts } = other;
        merge_entries(&mut self.tools, tools);
        merge_entries(&mut self.hosts, hosts);
    }

    /// Folds a chain of manifests, innermost first, into the defaults: each
    /// alias and host key is taken from the first manifest that defines it.
    pub fn aggregate(chain: Vec<ConfigFile>) -> (r: ConfigFile)
        ensures
            forall|k: Seq<char>| #[trigger] lookup(r.tools@, k) == chain_tool(chain@, k, 0),
            forall|k: Seq<char>|
                #[trigger] host_view(lookup(r.hosts@, k)) == (match default_host(k) {
                    Some(h) => Some(h),
                    None => host_view(chain_host(chain@, k, 0)),
                }),
            keys_unique(r.tools@),
            keys_unique(r.hosts@),
    {
        let ghost orig = chain@;
        let mut config = ConfigFile::new_with_defaults();
        let ghost defaults = config.hosts@;
        let mut chain = chain;
        let ghost mut i: int = 0;
        while chain.len() > 0
            invariant
                0 <= i <= orig.len(),
                chain@ == orig.subrange(i as int, orig.len() as int),
                forall|k: Seq<char>|
                    or_else(lookup(config.tools@, k), chain_tool(orig, k, i as int)) == chain_tool(orig, k, 0),
                forall|k: Seq<char>|
                    or_else(lookup(config.hosts@, k), chain_host(orig, k, i as int)) == or_else(
                        lookup(defaults, k),
                        chain_host(orig, k, 0),
                    ),
                forall|k: Seq<char>| #[trigger] host_view(lookup(defaults, k)) == default_host(k),
                keys_unique(config.tools@),
                keys_unique(config.hosts@),
            decreases chain@.len(),
        {
            assert(chain@.len() == orig.len() - i);
            let next = chain.remove(0);
            assert(next == orig[i as int]);
            config.fill_from(next);
            proof {
                i = i + 1;
            }
            assert(chain@ =~= orig.subrange(i as int, orig.len() as int));
        }
        assert forall|k: Seq<char>| #[trigger] lookup(config.tools@, k) == chain_tool(orig, k, 0) by {
            assert(chain_tool(orig, k, i as int) is None);
        }
        assert forall|k: Seq<char>|
            #[trigger] host_view(lookup(config.hosts@, k)) == (match default_host(k) {
                Some(h) => Some(h),
                None => host_view(chain_host(orig, k, 0)),
            }) by {
            assert(chain_host(orig, k, i as int) is None);
            assert(lookup(config.hosts@, k) == or_else(lookup(defaults, k), chain_host(orig, k, 0)));
            match lookup(defaults, k) {
                Some(h) => {
                    assert(host_view(lookup(defaults, k)) == default_host(k));
                },
                None => {
                    assert(host_view(lookup(defaults, k)) == default_host(k));
                },
            }
        }
        config
    }
}

/// The listing of a manifest's tools: a heading, then one line per tool,
/// `\t <alias> => <tool>`.
pub open spec fn rendered_tools(tools: Seq<(String, ToolSpec)>) -> Seq<char>
    decreases tools.len(),
{
    if tools.len() == 0 {
        "Available Tools:\n"@
    } else {
        let t = tools.last();
        rendered_tools(tools.drop_last()) + "\t "@ + t.0@ + " => "@ + provider_domain(t.1@.protocol) + "/"@
            + t.1@.path + "@"@ + t.1@.version + "\n"@
    }
}

impl ConfigFile {
    /// The listing of the tools, as shown when a tool is not found.
    pub fn to_string(&self) -> (r: String)
        ensures
            r@ == rendered_tools(self.tools@),
    {
        let mut out = String::from_str("Available Tools:\n");
        let mut i: usize = 0;
        while i < self.tools.len()
            invariant
                i <= self.tools@.len(),
                out@ == rendered_tools(self.tools@.subrange(0, i as int)),
            decreases self.tools@.len() - i,
        {
            let line = concat3("\t ", self.tools[i].0.as_str(), " => ");
            let spec = self.tools[i].1.to_string();
            out.append(line.as_str());
            out.append(spec.as_str());
            out.append("\n");
            assert(self.tools@.subrange(0, i + 1).drop_last() =~= self.tools@.subrange(0, i as int));
            assert(out@ =~= rendered_tools(self.tools@.subrange(0, i + 1)));
            i = i + 1;
        }
        assert(self.tools@.subrange(0, i as int) =~= self.tools@);
        out
    }
}

/// The key of a tool of GitHub is its path, byte for byte.
pub proof fn lemma_github_cache_key_is_path(t: ToolSpecModel)
    requires
        t.protocol == Protocol::Github,
    ensures
        cache_key_text(t) == t.path,
{
}

/// A GitHub tool and a GitLab tool whose paths are equal up to case have distinct
/// cache keys, also up to case.
pub proof fn lemma_forge_keys_disjoint(a: ToolSpecModel, b: ToolSpecModel)
    requires
        a.protocol == Protocol::Github,
        b.protocol == Protocol::Gitlab,
        folded(a.path) == folded(b.path),
    ensures
        folded(cache_key_text(a)) != folded(cache_key_text(b)),
{
    reveal_strlit("gitlab@");
    lemma_folded_concat("gitlab@"@, b.path);
    lemma_folded_len("gitlab@"@);
}

} // verus!
