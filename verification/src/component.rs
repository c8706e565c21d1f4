//! Installable artifacts: their kind, their status and what a hook declares.

use vstd::prelude::*;
use crate::text::concat;
use crate::yaml::Yaml;
use crate::yaml::find_value;
use crate::yaml::lookup;
use crate::yaml::parsed_yaml;
use crate::yaml::text_of;
use crate::yaml::untagged;

verus! {

/// The kind of an artifact; it names the directory the artifact lives under.
#[derive(Clone, Copy, Debug, PartialEq, Eq, Structural)]
pub enum ComponentType {
    Agents,
    Commands,
    Contexts,
    Rules,
    Skills,
    Hooks,
    OutputStyles,
    Statusline,
    ConfigFile,
}

impl ComponentType {
    /// The name shown for the kind.
    pub open spec fn name(self) -> Seq<char> {
        match self {
            ComponentType::Agents => "agents"@,
            ComponentType::Commands => "commands"@,
            ComponentType::Contexts => "contexts"@,
            ComponentType::Rules => "rules"@,
            ComponentType::Skills => "skills"@,
            ComponentType::Hooks => "hooks"@,
            ComponentType::OutputStyles => "output-styles"@,
            ComponentType::Statusline => "statusline"@,
            ComponentType::ConfigFile => "config"@,
        }
    }

    /// The name shown for the kind.
    pub fn display_name(&self) -> (r: &'static str)
        ensures
            r@ == self.name(),
    {
        match self {
            ComponentType::Agents => "agents",
            ComponentType::Commands => "commands",
            ComponentType::Contexts => "contexts",
            ComponentType::Rules => "rules",
            ComponentType::Skills => "skills",
            ComponentType::Hooks => "hooks",
            ComponentType::OutputStyles => "output-styles",
            ComponentType::Statusline => "statusline",
            ComponentType::ConfigFile => "config",
        }
    }
}

/// How an artifact of the source stands at the destination.
#[derive(Clone, Copy, Debug, PartialEq, Eq, Structural)]
pub enum InstallStatus {
    /// No file at the destination.
    New,
    /// A file at the destination whose content differs.
    Modified,
    /// A file at the destination with the same content.
    Unchanged,
    /// No file of its own: an entry of the settings document.
    Managed,
}

impl InstallStatus {
    /// The word shown for the status.
    pub open spec fn label(self) -> Seq<char> {
        match self {
            InstallStatus::New => "new"@,
            InstallStatus::Modified => "modified"@,
            InstallStatus::Unchanged => "installed"@,
            InstallStatus::Managed => "managed"@,
        }
    }

    /// The word shown for the status.
    pub fn display(&self) -> (r: &'static str)
        ensures
            r@ == self.label(),
    {
        match self {
            InstallStatus::New => "new",
            InstallStatus::Modified => "modified",
            InstallStatus::Unchanged => "installed",
            InstallStatus::Managed => "managed",
        }
    }
}

/// What the manifest beside a hook declares.
#[derive(Debug)]
pub struct HookConfig {
    pub name: String,
    pub event: String,
    pub hook_type: String,
    pub timeout: Option<u32>,
}

impl Clone for HookConfig {
    fn clone(&self) -> (r: Self)
        ensures
            r == *self,
    {
        HookConfig {
            name: self.name.clone(),
            event: self.event.clone(),
            hook_type: self.hook_type.clone(),
            timeout: self.timeout,
        }
    }
}

/// One installable artifact.
#[derive(Debug)]
pub struct Component {
    pub component_type: ComponentType,
    /// The path of the artifact under the directory of its kind.
    pub name: String,
    pub source_path: String,
    pub dest_path: String,
    pub selected: bool,
    pub status: InstallStatus,
    pub hook_config: Option<HookConfig>,
}

impl Clone for Component {
    fn clone(&self) -> (r: Self)
        ensures
            r == *self,
    {
        Component {
            component_type: self.component_type,
            name: self.name.clone(),
            source_path: self.source_path.clone(),
            dest_path: self.dest_path.clone(),
            selected: self.selected,
            status: self.status,
            hook_config: match &self.hook_config {
                Some(c) => Some(c.clone()),
                None => None,
            },
        }
    }
}

/// What a component stands for: its paths and name as text.
pub struct ComponentValue {
    pub kind: ComponentType,
    pub name: Seq<char>,
    pub source_path: Seq<char>,
    pub dest_path: Seq<char>,
    pub selected: bool,
    pub status: InstallStatus,
    pub hook_config: Option<HookConfig>,
}

impl View for Component {
    type V = ComponentValue;

    open spec fn view(&self) -> ComponentValue {
        ComponentValue {
            kind: self.component_type,
            name: self.name@,
            source_path: self.source_path@,
            dest_path: self.dest_path@,
            selected: self.selected,
            status: self.status,
            hook_config: self.hook_config,
        }
    }
}

impl Component {
    /// A component without a hook manifest. It is selected unless it is
    /// unchanged.
    pub fn new(
        component_type: ComponentType,
        name: String,
        source_path: String,
        dest_path: String,
        status: InstallStatus,
    ) -> (r: Self)
        ensures
            r.component_type == component_type,
            r.name == name,
            r.source_path == source_path,
            r.dest_path == dest_path,
            r.status == status,
            r.selected == (status != InstallStatus::Unchanged),
            r.hook_config is None,
    {
        Component {
            component_type,
            name,
            source_path,
            dest_path,
            selected: status != InstallStatus::Unchanged,
            status,
            hook_config: None,
        }
    }

    /// The component with `config` as its hook manifest; nothing else changes.
    pub fn with_hook_config(self, config: HookConfig) -> (r: Self)
        ensures
            r == (Component { hook_config: Some(config), ..self }),
    {
        let mut c = self;
        c.hook_config = Some(config);
        c
    }

    /// The kind's name, a slash and the component's name.
    pub open spec fn full_name(self) -> Seq<char> {
        self.component_type.name() + "/"@ + self.name@
    }

    /// The kind's name, a slash and the component's name.
    pub fn display_name(&self) -> (r: String)
        ensures
            r@ == self.full_name(),
    {
        let head = concat(self.component_type.display_name(), "/");
        concat(head.as_str(), self.name.as_str())
    }
}


/// What a hook manifest declares, as text.
pub struct HookConfigValue {
    pub name: Seq<char>,
    pub event: Seq<char>,
    pub hook_type: Seq<char>,
    pub timeout: Option<u32>,
}

impl View for HookConfig {
    type V = HookConfigValue;

    open spec fn view(&self) -> HookConfigValue {
        HookConfigValue {
            name: self.name@,
            event: self.event@,
            hook_type: self.hook_type@,
            timeout: self.timeout,
        }
    }
}

/// The string under a key of a record, if the record has one there.
pub open spec fn manifest_text(record: Seq<(Yaml, Yaml)>, key: Seq<char>) -> Option<Seq<char>> {
    match lookup(record, key) {
        Some(v) => text_of(v),
        None => None,
    }
}

/// The timeout of a manifest: none where the record names none; the number
/// of seconds where it names one that fits; a record that names anything
/// else is no manifest.
pub open spec fn manifest_timeout(record: Seq<(Yaml, Yaml)>) -> Option<Option<u32>> {
    match lookup(record, "timeout"@) {
        None => Some(None),
        Some(v) => match untagged(v) {
            Yaml::Integer(n) => if n <= u32::MAX {
                Some(Some(n as u32))
            } else {
                None
            },
            _ => None,
        },
    }
}

/// What a manifest document declares: a record with the strings `name`,
/// `event` and `type` and, where it names one, a timeout.
pub open spec fn manifest_of(doc: Yaml) -> Option<HookConfigValue> {
    match untagged(doc) {
        Yaml::Mapping(record) => match (
            manifest_text(record@, "name"@),
            manifest_text(record@, "event"@),
            manifest_text(record@, "type"@),
            manifest_timeout(record@),
        ) {
            (Some(name), Some(event), Some(hook_type), Some(timeout)) => Some(
                HookConfigValue { name, event, hook_type, timeout },
            ),
            _ => None,
        },
        _ => None,
    }
}

/// What a manifest text declares; nothing where the text is not YAML.
pub open spec fn manifest_of_text(doc: Option<Yaml>) -> Option<HookConfigValue> {
    match doc {
        Some(d) => manifest_of(d),
        None => None,
    }
}

/// The string under a key of a record.
fn record_text(record: &Vec<(Yaml, Yaml)>, key: &str) -> (r: Option<String>)
    ensures
        match r {
            Some(t) => manifest_text(record@, key@) == Some(t@),
            None => manifest_text(record@, key@) is None,
        },
{
    match find_value(record, key) {
        Some(v) => match v.as_text() {
            Some(t) => Some(t.clone()),
            None => None,
        },
        None => None,
    }
}

/// What a manifest document declares.
pub fn hook_config_from_yaml(doc: &Yaml) -> (r: Option<HookConfig>)
    ensures
        match r {
            Some(c) => manifest_of(*doc) == Some(c@),
            None => manifest_of(*doc) is None,
        },
{
    match doc.untag() {
        Yaml::Mapping(record) => {
            let name = record_text(record, "name");
            let event = record_text(record, "event");
            let hook_type = record_text(record, "type");
            let timeout: Option<Option<u32>> = match find_value(record, "timeout") {
                None => Some(None),
                Some(v) => match v.untag() {
                    Yaml::Integer(n) => if *n <= 0xffff_ffff {
                        Some(Some(*n as u32))
                    } else {
                        None
                    },
                    _ => None,
                },
            };
            match (name, event, hook_type, timeout) {
                (Some(name), Some(event), Some(hook_type), Some(timeout)) => Some(
                    HookConfig { name, event, hook_type, timeout },
                ),
                _ => None,
            }
        },
        _ => None,
    }
}

/// What a manifest text declares; nothing where the text is not YAML or
/// lacks a part of a manifest.
pub fn parse_hook_manifest(content: &str) -> (r: Option<HookConfig>)
    ensures
        match r {
            Some(c) => manifest_of_text(parsed_yaml(content@)) == Some(c@),
            None => manifest_of_text(parsed_yaml(content@)) is None,
        },
{
    match Yaml::parse(content) {
        Some(doc) => hook_config_from_yaml(&doc),
        None => None,
    }
}

} // verus!
