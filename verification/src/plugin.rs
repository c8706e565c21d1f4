//! Plugins and the catalog that lists them by marketplace.

use vstd::prelude::*;
use crate::text::after_last;
use crate::text::first_index_of;
use crate::text::has_prefix;
use crate::text::starts_with;
use crate::text::index_of;
use crate::text::text_after_last;
use crate::text::strip_trailing;
use crate::text::to_chars;
use crate::text::trim_range;
use crate::text::trimmed;
use crate::text::without_trailing;
use crate::yaml::Yaml;
use crate::yaml::find_value;
use crate::yaml::lookup;
use crate::yaml::parsed_yaml;
use crate::yaml::text_of;
use crate::yaml::text_or_empty;
use crate::yaml::untagged;

verus! {

/// Whether the target tool reports the plugin as installed.
#[derive(Clone, Copy, Debug, PartialEq, Eq, Structural)]
pub enum PluginStatus {
    Installed,
    NotInstalled,
}

impl PluginStatus {
    /// The words shown for the status.
    pub open spec fn label(self) -> Seq<char> {
        match self {
            PluginStatus::Installed => "installed"@,
            PluginStatus::NotInstalled => "not installed"@,
        }
    }

    /// The words shown for the status.
    pub fn display(&self) -> (r: &'static str)
        ensures
            r@ == self.label(),
    {
        match self {
            PluginStatus::Installed => "installed",
            PluginStatus::NotInstalled => "not installed",
        }
    }
}

/// A plugin of the catalog.
#[derive(Debug)]
pub struct PluginDef {
    pub name: String,
    /// The name under which the marketplace is registered.
    pub marketplace: String,
    /// The address from which the marketplace is registered.
    pub source: String,
    pub comment: Option<String>,
}

impl Clone for PluginDef {
    fn clone(&self) -> (r: Self)
        ensures
            r == *self,
    {
        PluginDef {
            name: self.name.clone(),
            marketplace: self.marketplace.clone(),
            source: self.source.clone(),
            comment: match &self.comment {
                Some(c) => Some(c.clone()),
                None => None,
            },
        }
    }
}

/// A plugin with its selection and its status.
#[derive(Debug)]
pub struct Plugin {
    pub def: PluginDef,
    pub selected: bool,
    pub status: PluginStatus,
}

impl Clone for Plugin {
    fn clone(&self) -> (r: Self)
        ensures
            r == *self,
    {
        Plugin { def: self.def.clone(), selected: self.selected, status: self.status }
    }
}

/// The owner and name of the repository at `source`: what follows the last
/// `github.com/` once every trailing `.git` is removed.
pub open spec fn short_repo_of(source: Seq<char>) -> Seq<char> {
    text_after_last(without_trailing(source, ".git"@), "github.com/"@)
}

/// The last segment of the address `url`: what follows its last slash once
/// every trailing `.git` is removed.
pub open spec fn marketplace_name_of(url: Seq<char>) -> Seq<char> {
    text_after_last(without_trailing(url, ".git"@), "/"@)
}

impl Plugin {
    /// A plugin that is not selected.
    pub fn new(def: PluginDef, status: PluginStatus) -> (r: Self)
        ensures
            r.def == def,
            r.status == status,
            !r.selected,
    {
        Plugin { def, selected: false, status }
    }

    /// The owner and name of the repository that the marketplace comes from.
    pub fn short_repo(&self) -> (r: String)
        ensures
            r@ == short_repo_of(self.def.source@),
    {
        let base = strip_trailing(self.def.source.as_str(), ".git");
        after_last(base.as_str(), "github.com/")
    }
}

/// The name of a marketplace that is given by its address only.
pub fn extract_marketplace_name(repo_url: &str) -> (r: String)
    ensures
        r@ == marketplace_name_of(repo_url@),
{
    let base = strip_trailing(repo_url, ".git");
    after_last(base.as_str(), "/")
}

/// The name in a catalog entry: the entry up to its first `#`, or all of it,
/// without the white space around it.
pub open spec fn entry_name(s: Seq<char>) -> Seq<char> {
    trimmed(s.subrange(0, first_index_of(s, '#') as int))
}

/// The comment in a catalog entry: what follows its first `#`, without the
/// white space around it.
pub open spec fn entry_comment(s: Seq<char>) -> Option<Seq<char>> {
    let i = first_index_of(s, '#') as int;
    if i < s.len() {
        Some(trimmed(s.subrange(i + 1, s.len() as int)))
    } else {
        None
    }
}

/// The comment of an entry, as text.
pub open spec fn comment_view(c: Option<String>) -> Option<Seq<char>> {
    match c {
        Some(t) => Some(t@),
        None => None,
    }
}

/// Splits the text of a catalog entry into the plugin's name and the comment
/// after `#`.
pub fn split_entry(s: &str) -> (r: (String, Option<String>))
    ensures
        r.0@ == entry_name(s@),
        comment_view(r.1) == entry_comment(s@),
{
    let v = to_chars(s);
    let i = index_of(&v, '#');
    let name = trim_range(&v, 0, i);
    if i < v.len() {
        let comment = trim_range(&v, i + 1, v.len());
        (name, Some(comment))
    } else {
        (name, None)
    }
}


/// The plugins of a catalog: marketplace, address of the marketplace, name of
/// the plugin, and comment.
pub type PluginCatalog = Vec<(String, String, String, Option<String>)>;

/// One line of a catalog, as text.
pub type CatalogLine = (Seq<char>, Seq<char>, Seq<char>, Option<Seq<char>>);

/// One line of a catalog, as text.
pub open spec fn line_view(e: (String, String, String, Option<String>)) -> CatalogLine {
    (e.0@, e.1@, e.2@, comment_view(e.3))
}

/// The lines of a catalog, as text.
pub open spec fn catalog_view(c: Seq<(String, String, String, Option<String>)>) -> Seq<
    CatalogLine,
> {
    Seq::new(c.len(), |i: int| line_view(c[i]))
}

/// The name and the comment that an entry of a plugin list gives: those of
/// its text where it is a string, no name where it is not.
pub open spec fn entry_of(y: Yaml) -> (Seq<char>, Option<Seq<char>>) {
    match text_of(y) {
        Some(s) => (entry_name(s), entry_comment(s)),
        None => (Seq::empty(), None),
    }
}

/// The lines for a list of plugins of one marketplace: one for each entry
/// that gives a name, in order.
pub open spec fn listed(plugins: Seq<Yaml>, marketplace: Seq<char>, source: Seq<char>) -> Seq<
    CatalogLine,
>
    decreases plugins.len(),
{
    if plugins.len() == 0 {
        Seq::empty()
    } else {
        let before = listed(plugins.drop_last(), marketplace, source);
        let e = entry_of(plugins.last());
        if e.0.len() > 0 {
            before.push((marketplace, source, e.0, e.1))
        } else {
            before
        }
    }
}

/// The lines for one marketplace of the `marketplaces` section: its name is
/// the key, its address the string under `source`, its plugins the list
/// under `plugins`. Anything of another shape gives no line.
pub open spec fn of_marketplace(key: Yaml, data: Yaml) -> Seq<CatalogLine> {
    match untagged(data) {
        Yaml::Mapping(m) => {
            let source = match lookup(m@, "source"@) {
                Some(s) => text_or_empty(s),
                None => Seq::empty(),
            };
            match lookup(m@, "plugins"@) {
                Some(p) => match untagged(p) {
                    Yaml::Sequence(items) => listed(items@, text_or_empty(key), source),
                    _ => Seq::empty(),
                },
                None => Seq::empty(),
            }
        },
        _ => Seq::empty(),
    }
}

/// The lines of a `marketplaces` section, marketplace by marketplace.
pub open spec fn of_marketplaces(entries: Seq<(Yaml, Yaml)>) -> Seq<CatalogLine>
    decreases entries.len(),
{
    if entries.len() == 0 {
        Seq::empty()
    } else {
        of_marketplaces(entries.drop_last()) + of_marketplace(entries.last().0, entries.last().1)
    }
}

/// The lines for one entry of a catalog that is keyed by address: where the
/// key begins with `https://` and the value is a list, the plugins of the
/// list, under the name that the address gives.
pub open spec fn of_address(key: Yaml, value: Yaml) -> Seq<CatalogLine> {
    let url = text_or_empty(key);
    if starts_with(url, "https://"@) {
        match untagged(value) {
            Yaml::Sequence(items) => listed(items@, marketplace_name_of(url), url),
            _ => Seq::empty(),
        }
    } else {
        Seq::empty()
    }
}

/// The lines of a catalog that is keyed by address, entry by entry.
pub open spec fn of_addresses(entries: Seq<(Yaml, Yaml)>) -> Seq<CatalogLine>
    decreases entries.len(),
{
    if entries.len() == 0 {
        Seq::empty()
    } else {
        of_addresses(entries.drop_last()) + of_address(entries.last().0, entries.last().1)
    }
}

/// The catalog that a document holds: the `marketplaces` section where the
/// document has one, else the document read as keyed by address.
pub open spec fn catalog_of(doc: Yaml) -> Seq<CatalogLine> {
    match untagged(doc) {
        Yaml::Mapping(root) => match lookup(root@, "marketplaces"@) {
            Some(m) => match untagged(m) {
                Yaml::Mapping(entries) => of_marketplaces(entries@),
                _ => Seq::empty(),
            },
            None => of_addresses(root@),
        },
        _ => Seq::empty(),
    }
}

/// The catalog that a text holds; none where the text is not YAML.
pub open spec fn catalog_of_text(doc: Option<Yaml>) -> Seq<CatalogLine> {
    match doc {
        Some(d) => catalog_of(d),
        None => Seq::empty(),
    }
}

/// The name and the comment that an entry of a plugin list gives.
pub fn parse_plugin_entry(entry: &Yaml) -> (r: (String, Option<String>))
    ensures
        (r.0@, comment_view(r.1)) == entry_of(*entry),
{
    match entry.as_text() {
        Some(s) => split_entry(s.as_str()),
        None => (String::new(), None),
    }
}

/// Appends the lines for a list of plugins of one marketplace.
fn append_listed(
    out: &mut PluginCatalog,
    items: &Vec<Yaml>,
    marketplace: &String,
    source: &String,
)
    ensures
        catalog_view(final(out)@) == catalog_view(old(out)@) + listed(
            items@,
            marketplace@,
            source@,
        ),
{
    let ghost start = catalog_view(out@);
    let mut i: usize = 0;
    assert(items@.subrange(0, 0) =~= Seq::<Yaml>::empty());
    assert(start + Seq::<CatalogLine>::empty() =~= start);
    while i < items.len()
        invariant
            i <= items.len(),
            catalog_view(out@) == start + listed(
                items@.subrange(0, i as int),
                marketplace@,
                source@,
            ),
        decreases items.len() - i,
    {
        let ghost before = out@;
        let ghost done = items@.subrange(0, i as int);
        let ghost next = items@.subrange(0, i + 1);
        assert(next.drop_last() =~= done);
        assert(next.last() == items@[i as int]);
        let (name, comment) = parse_plugin_entry(&items[i]);
        if name.as_str().unicode_len() > 0 {
            out.push((marketplace.clone(), source.clone(), name, comment));
            assert(catalog_view(out@) =~= catalog_view(before).push(
                (marketplace@, source@, name@, comment_view(comment)),
            ));
            assert(start + listed(done, marketplace@, source@).push(
                (marketplace@, source@, name@, comment_view(comment)),
            ) =~= (start + listed(done, marketplace@, source@)).push(
                (marketplace@, source@, name@, comment_view(comment)),
            ));
        }
        i += 1;
    }
    assert(items@.subrange(0, items@.len() as int) =~= items@);
}

/// Appends the lines for one marketplace of the `marketplaces` section.
fn append_marketplace(out: &mut PluginCatalog, key: &Yaml, data: &Yaml)
    ensures
        catalog_view(final(out)@) == catalog_view(old(out)@) + of_marketplace(*key, *data),
{
    let ghost start = catalog_view(out@);
    assert(start + Seq::<CatalogLine>::empty() =~= start);
    let name = match key.as_text() {
        Some(s) => s.clone(),
        None => String::new(),
    };
    match data.untag() {
        Yaml::Mapping(m) => {
            let source = match find_value(m, "source") {
                Some(s) => match s.as_text() {
                    Some(t) => t.clone(),
                    None => String::new(),
                },
                None => String::new(),
            };
            match find_value(m, "plugins") {
                Some(p) => match p.untag() {
                    Yaml::Sequence(items) => {
                        append_listed(out, items, &name, &source);
                    },
                    _ => {},
                },
                None => {},
            }
        },
        _ => {},
    }
}

/// Appends the lines for one entry of a catalog that is keyed by address.
fn append_address(out: &mut PluginCatalog, key: &Yaml, value: &Yaml)
    ensures
        catalog_view(final(out)@) == catalog_view(old(out)@) + of_address(*key, *value),
{
    let ghost start = catalog_view(out@);
    assert(start + Seq::<CatalogLine>::empty() =~= start);
    let url = match key.as_text() {
        Some(s) => s.clone(),
        None => String::new(),
    };
    if has_prefix(url.as_str(), "https://") {
        let marketplace = extract_marketplace_name(url.as_str());
        match value.untag() {
            Yaml::Sequence(items) => {
                append_listed(out, items, &marketplace, &url);
            },
            _ => {},
        }
    }
}

/// The catalog that a YAML document holds. A document with a `marketplaces`
/// section lists, for each marketplace, its address under `source` and its
/// plugins under `plugins`; a document without one lists plugins under the
/// address of their marketplace. An entry of a plugin list is the plugin's
/// name, with an optional comment after `#`; entries without a name and
/// parts of another shape are passed over.
pub fn catalog_from_yaml(doc: &Yaml) -> (r: PluginCatalog)
    ensures
        catalog_view(r@) == catalog_of(*doc),
{
    let mut out: PluginCatalog = Vec::new();
    assert(catalog_view(out@) =~= Seq::<CatalogLine>::empty());
    match doc.untag() {
        Yaml::Mapping(root) => match find_value(root, "marketplaces") {
            Some(m) => match m.untag() {
                Yaml::Mapping(entries) => {
                    let mut i: usize = 0;
                    assert(entries@.subrange(0, 0) =~= Seq::<(Yaml, Yaml)>::empty());
                    while i < entries.len()
                        invariant
                            i <= entries.len(),
                            catalog_view(out@) == of_marketplaces(entries@.subrange(0, i as int)),
                        decreases entries.len() - i,
                    {
                        let ghost next = entries@.subrange(0, i + 1);
                        assert(next.drop_last() =~= entries@.subrange(0, i as int));
                        assert(next.last() == entries@[i as int]);
                        append_marketplace(&mut out, &entries[i].0, &entries[i].1);
                        i += 1;
                    }
                    assert(entries@.subrange(0, entries@.len() as int) =~= entries@);
                },
                _ => {},
            },
            None => {
                let mut i: usize = 0;
                assert(root@.subrange(0, 0) =~= Seq::<(Yaml, Yaml)>::empty());
                while i < root.len()
                    invariant
                        i <= root.len(),
                        catalog_view(out@) == of_addresses(root@.subrange(0, i as int)),
                    decreases root.len() - i,
                {
                    let ghost next = root@.subrange(0, i + 1);
                    assert(next.drop_last() =~= root@.subrange(0, i as int));
                    assert(next.last() == root@[i as int]);
                    append_address(&mut out, &root[i].0, &root[i].1);
                    i += 1;
                }
                assert(root@.subrange(0, root@.len() as int) =~= root@);
            },
        },
        _ => {},
    }
    out
}

/// The catalog that a YAML text holds; an empty catalog where the text is
/// not YAML.
pub fn parse_plugins_yaml(content: &str) -> (r: PluginCatalog)
    ensures
        catalog_view(r@) == catalog_of_text(parsed_yaml(content@)),
{
    match Yaml::parse(content) {
        Some(doc) => catalog_from_yaml(&doc),
        None => {
            let out: PluginCatalog = Vec::new();
            assert(catalog_view(out@) =~= Seq::<CatalogLine>::empty());
            out
        },
    }
}

} // verus!
