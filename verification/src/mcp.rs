//! MCP servers of the catalog and the scope they are installed in.

use vstd::prelude::*;
use crate::yaml::Yaml;
use crate::yaml::find_value;
use crate::yaml::lookup;
use crate::yaml::parsed_yaml;
use crate::yaml::text_of;
use crate::yaml::untagged;

verus! {

/// Whether the target tool reports the server as installed.
#[derive(Clone, Copy, Debug, PartialEq, Eq, Structural)]
pub enum McpStatus {
    Installed,
    NotInstalled,
}

impl McpStatus {
    /// The words shown for the status.
    pub open spec fn label(self) -> Seq<char> {
        match self {
            McpStatus::Installed => "installed"@,
            McpStatus::NotInstalled => "not installed"@,
        }
    }

    /// The words shown for the status.
    pub fn display(&self) -> (r: &'static str)
        ensures
            r@ == self.label(),
    {
        match self {
            McpStatus::Installed => "installed",
            McpStatus::NotInstalled => "not installed",
        }
    }
}

/// How widely a server is registered: for the user, or for one project.
#[derive(Clone, Copy, Debug, PartialEq, Eq, Structural)]
pub enum McpScope {
    User,
    Local,
}

impl McpScope {
    /// The word that names the scope on the command line.
    pub open spec fn label(self) -> Seq<char> {
        match self {
            McpScope::User => "user"@,
            McpScope::Local => "local"@,
        }
    }

    /// The word that names the scope on the command line.
    pub fn display(&self) -> (r: &'static str)
        ensures
            r@ == self.label(),
    {
        match self {
            McpScope::User => "user",
            McpScope::Local => "local",
        }
    }

    /// The other scope.
    pub fn toggled(self) -> (r: McpScope)
        ensures
            r != self,
    {
        match self {
            McpScope::User => McpScope::Local,
            McpScope::Local => McpScope::User,
        }
    }
}

/// A server of the catalog. It is reached over HTTP at `url`, or started by
/// `command`.
#[derive(Debug)]
pub struct McpServerDef {
    pub name: String,
    pub description: String,
    pub category: String,
    pub command: Option<String>,
    pub url: Option<String>,
    /// The names of the environment variables that the server needs.
    pub env: Vec<String>,
}

/// A server with its selection and its status.
#[derive(Debug)]
pub struct McpServer {
    pub def: McpServerDef,
    pub selected: bool,
    pub status: McpStatus,
}

impl McpServer {
    /// A server that is not selected.
    pub fn new(def: McpServerDef, status: McpStatus) -> (r: Self)
        ensures
            r.def == def,
            r.status == status,
            !r.selected,
    {
        McpServer { def, selected: false, status }
    }

    /// Whether the server is reached over HTTP.
    pub open spec fn http(self) -> bool {
        self.def.url is Some
    }

    /// Whether the server is reached over HTTP.
    pub fn is_http(&self) -> (r: bool)
        ensures
            r == self.http(),
    {
        self.def.url.is_some()
    }
}


/// What a server of the catalog stands for, as text.
pub struct McpDefValue {
    pub name: Seq<char>,
    pub description: Seq<char>,
    pub category: Seq<char>,
    pub command: Option<Seq<char>>,
    pub url: Option<Seq<char>>,
    pub env: Seq<Seq<char>>,
}

/// The texts of a list of strings.
pub open spec fn names_view(v: Seq<String>) -> Seq<Seq<char>> {
    Seq::new(v.len(), |i: int| v[i]@)
}

/// An optional text.
pub open spec fn option_view(t: Option<String>) -> Option<Seq<char>> {
    match t {
        Some(s) => Some(s@),
        None => None,
    }
}

impl View for McpServerDef {
    type V = McpDefValue;

    open spec fn view(&self) -> McpDefValue {
        McpDefValue {
            name: self.name@,
            description: self.description@,
            category: self.category@,
            command: option_view(self.command),
            url: option_view(self.url),
            env: names_view(self.env@),
        }
    }
}

/// The servers of a catalog, as what they stand for.
pub open spec fn defs_view(defs: Seq<McpServerDef>) -> Seq<McpDefValue> {
    Seq::new(defs.len(), |i: int| defs[i]@)
}

/// The strings among the items of a list, in order.
pub open spec fn strings_of(items: Seq<Yaml>) -> Seq<Seq<char>>
    decreases items.len(),
{
    if items.len() == 0 {
        Seq::empty()
    } else {
        let before = strings_of(items.drop_last());
        match text_of(items.last()) {
            Some(t) => before.push(t),
            None => before,
        }
    }
}

/// The string under a key of a record, if the record has one there.
pub open spec fn field_text(record: Seq<(Yaml, Yaml)>, key: Seq<char>) -> Option<Seq<char>> {
    match lookup(record, key) {
        Some(v) => text_of(v),
        None => None,
    }
}

/// The string under a key of a record, or no text.
pub open spec fn field_or_empty(record: Seq<(Yaml, Yaml)>, key: Seq<char>) -> Seq<char> {
    match field_text(record, key) {
        Some(t) => t,
        None => Seq::empty(),
    }
}

/// The variables that a record names under `env`: the strings of the list
/// there.
pub open spec fn field_env(record: Seq<(Yaml, Yaml)>) -> Seq<Seq<char>> {
    match lookup(record, "env"@) {
        Some(v) => match untagged(v) {
            Yaml::Sequence(items) => strings_of(items@),
            _ => Seq::empty(),
        },
        None => Seq::empty(),
    }
}

/// The server that an entry of the catalog describes: its key is the name,
/// its value a record. An entry of another shape describes none.
pub open spec fn server_of(key: Yaml, value: Yaml) -> Option<McpDefValue> {
    match (text_of(key), untagged(value)) {
        (Some(name), Yaml::Mapping(record)) => Some(
            McpDefValue {
                name,
                description: field_or_empty(record@, "description"@),
                category: field_or_empty(record@, "category"@),
                command: field_text(record@, "command"@),
                url: field_text(record@, "url"@),
                env: field_env(record@),
            },
        ),
        _ => None,
    }
}

/// The servers that the entries of a catalog describe, in order.
pub open spec fn servers_of(entries: Seq<(Yaml, Yaml)>) -> Seq<McpDefValue>
    decreases entries.len(),
{
    if entries.len() == 0 {
        Seq::empty()
    } else {
        let before = servers_of(entries.drop_last());
        match server_of(entries.last().0, entries.last().1) {
            Some(d) => before.push(d),
            None => before,
        }
    }
}

/// The servers of a catalog document: those of its `servers` section where
/// it has one, else those of the document itself.
pub open spec fn mcp_catalog_of(doc: Yaml) -> Seq<McpDefValue> {
    match untagged(doc) {
        Yaml::Mapping(root) => match lookup(root@, "servers"@) {
            Some(section) => match untagged(section) {
                Yaml::Mapping(entries) => servers_of(entries@),
                _ => Seq::empty(),
            },
            None => servers_of(root@),
        },
        _ => Seq::empty(),
    }
}

/// The servers of a catalog text; none where the text is not YAML.
pub open spec fn mcp_catalog_of_text(doc: Option<Yaml>) -> Seq<McpDefValue> {
    match doc {
        Some(d) => mcp_catalog_of(d),
        None => Seq::empty(),
    }
}

/// The string under a key of a record.
fn text_field(record: &Vec<(Yaml, Yaml)>, key: &str) -> (r: Option<String>)
    ensures
        option_view(r) == field_text(record@, key@),
{
    match find_value(record, key) {
        Some(v) => match v.as_text() {
            Some(t) => Some(t.clone()),
            None => None,
        },
        None => None,
    }
}

/// The string under a key of a record, or no text.
fn text_field_or_empty(record: &Vec<(Yaml, Yaml)>, key: &str) -> (r: String)
    ensures
        r@ == field_or_empty(record@, key@),
{
    match text_field(record, key) {
        Some(t) => t,
        None => String::new(),
    }
}

/// The variables that a record names under `env`.
fn env_field(record: &Vec<(Yaml, Yaml)>) -> (r: Vec<String>)
    ensures
        names_view(r@) == field_env(record@),
{
    let mut out: Vec<String> = Vec::new();
    assert(names_view(out@) =~= Seq::<Seq<char>>::empty());
    match find_value(record, "env") {
        Some(v) => match v.untag() {
            Yaml::Sequence(items) => {
                let mut i: usize = 0;
                assert(items@.subrange(0, 0) =~= Seq::<Yaml>::empty());
                while i < items.len()
                    invariant
                        i <= items.len(),
                        names_view(out@) == strings_of(items@.subrange(0, i as int)),
                    decreases items.len() - i,
                {
                    let ghost next = items@.subrange(0, i + 1);
                    assert(next.drop_last() =~= items@.subrange(0, i as int));
                    assert(next.last() == items@[i as int]);
                    match items[i].as_text() {
                        Some(t) => {
                            let ghost before = out@;
                            out.push(t.clone());
                            assert(names_view(out@) =~= names_view(before).push(t@));
                        },
                        None => {},
                    }
                    i += 1;
                }
                assert(items@.subrange(0, items@.len() as int) =~= items@);
            },
            _ => {},
        },
        None => {},
    }
    out
}

/// The server that an entry of the catalog describes.
fn server_entry(key: &Yaml, value: &Yaml) -> (r: Option<McpServerDef>)
    ensures
        match r {
            Some(d) => server_of(*key, *value) == Some(d@),
            None => server_of(*key, *value) is None,
        },
{
    let name = match key.as_text() {
        Some(n) => n.clone(),
        None => {
            return None;
        },
    };
    match value.untag() {
        Yaml::Mapping(record) => Some(
            McpServerDef {
                name,
                description: text_field_or_empty(record, "description"),
                category: text_field_or_empty(record, "category"),
                command: text_field(record, "command"),
                url: text_field(record, "url"),
                env: env_field(record),
            },
        ),
        _ => None,
    }
}

/// The servers that the entries of a catalog describe.
fn server_entries(entries: &Vec<(Yaml, Yaml)>) -> (r: Vec<McpServerDef>)
    ensures
        defs_view(r@) == servers_of(entries@),
{
    let mut out: Vec<McpServerDef> = Vec::new();
    let mut i: usize = 0;
    assert(entries@.subrange(0, 0) =~= Seq::<(Yaml, Yaml)>::empty());
    assert(defs_view(out@) =~= Seq::<McpDefValue>::empty());
    while i < entries.len()
        invariant
            i <= entries.len(),
            defs_view(out@) == servers_of(entries@.subrange(0, i as int)),
        decreases entries.len() - i,
    {
        let ghost next = entries@.subrange(0, i + 1);
        assert(next.drop_last() =~= entries@.subrange(0, i as int));
        assert(next.last() == entries@[i as int]);
        match server_entry(&entries[i].0, &entries[i].1) {
            Some(d) => {
                let ghost before = out@;
                let ghost dv = d@;
                out.push(d);
                assert(defs_view(out@) =~= defs_view(before).push(dv));
            },
            None => {},
        }
        i += 1;
    }
    assert(entries@.subrange(0, entries@.len() as int) =~= entries@);
    out
}

/// The servers of a catalog document. The catalog is keyed by the names of
/// the servers, at the top or under `servers`; each entry is a record with
/// `description`, `category`, `command`, `url` and the list `env`. An entry
/// of another shape is passed over.
pub fn mcp_catalog_from_yaml(doc: &Yaml) -> (r: Vec<McpServerDef>)
    ensures
        defs_view(r@) == mcp_catalog_of(*doc),
{
    match doc.untag() {
        Yaml::Mapping(root) => match find_value(root, "servers") {
            Some(section) => match section.untag() {
                Yaml::Mapping(entries) => server_entries(entries),
                _ => {
                    let out: Vec<McpServerDef> = Vec::new();
                    assert(defs_view(out@) =~= Seq::<McpDefValue>::empty());
                    out
                },
            },
            None => server_entries(root),
        },
        _ => {
            let out: Vec<McpServerDef> = Vec::new();
            assert(defs_view(out@) =~= Seq::<McpDefValue>::empty());
            out
        },
    }
}

/// The servers of a catalog text; none where the text is not YAML.
pub fn parse_mcps_yaml(content: &str) -> (r: Vec<McpServerDef>)
    ensures
        defs_view(r@) == mcp_catalog_of_text(parsed_yaml(content@)),
{
    match Yaml::parse(content) {
        Some(doc) => mcp_catalog_from_yaml(&doc),
        None => {
            let out: Vec<McpServerDef> = Vec::new();
            assert(defs_view(out@) =~= Seq::<McpDefValue>::empty());
            out
        },
    }
}

} // verus!
