//! The tree differ: what each artifact of the source is at the destination.
//!
//! Walking the two trees and reading their files is the caller's part. It
//! hands over what it found, file by file; the rules that classify are here.

use vstd::prelude::*;
use crate::component::Component;
use crate::component::ComponentType;
use crate::component::ComponentValue;
use crate::component::HookConfig;
use crate::component::InstallStatus;
use crate::json::Json;
use crate::json::JsonValue;
use crate::json::parsed_json;
use crate::settings::merge_json_values;
use crate::settings::merge_values;
use crate::text::concat;
use crate::text::ends_with;
use crate::text::has_suffix;

verus! {

/// The status of a file of the source, given the content of the file at the
/// destination: new where there is none, unchanged where the two contents
/// are the same byte for byte, modified otherwise.
pub open spec fn status_of(source: Seq<u8>, dest: Option<Seq<u8>>) -> InstallStatus {
    match dest {
        None => InstallStatus::New,
        Some(d) => if d == source {
            InstallStatus::Unchanged
        } else {
            InstallStatus::Modified
        },
    }
}

/// The content of a destination file, if the file exists.
pub open spec fn content_view(content: Option<Vec<u8>>) -> Option<Seq<u8>> {
    match content {
        Some(c) => Some(c@),
        None => None,
    }
}

/// What the destination holds after a file was copied there.
pub open spec fn content_after_copy(source: Seq<u8>) -> Seq<u8> {
    source
}

/// Copying an unchanged file leaves the destination's content as it was.
pub proof fn lemma_copy_of_unchanged_is_noop(source: Seq<u8>, dest: Seq<u8>)
    requires
        status_of(source, Some(dest)) == InstallStatus::Unchanged,
    ensures
        content_after_copy(source) == dest,
{
}

/// After a copy the file is unchanged, and a second copy changes nothing.
pub proof fn lemma_copy_is_idempotent(source: Seq<u8>)
    ensures
        status_of(source, Some(content_after_copy(source))) == InstallStatus::Unchanged,
        content_after_copy(content_after_copy(source)) == content_after_copy(source),
{
}

/// Whether the two contents are the same byte for byte.
pub fn same_bytes(a: &Vec<u8>, b: &Vec<u8>) -> (r: bool)
    ensures
        r == (a@ == b@),
{
    if a.len() != b.len() {
        return false;
    }
    let mut i: usize = 0;
    while i < a.len()
        invariant
            i <= a.len(),
            a.len() == b.len(),
            forall|j: int| 0 <= j < i ==> a@[j] == b@[j],
        decreases a.len() - i,
    {
        if a[i] != b[i] {
            return false;
        }
        i += 1;
    }
    assert(a@ =~= b@);
    true
}

/// The status of a file of the source, given the content of the file at the
/// destination.
pub fn classify(source: &Vec<u8>, dest: &Option<Vec<u8>>) -> (r: InstallStatus)
    ensures
        r == status_of(source@, content_view(*dest)),
{
    match dest {
        None => InstallStatus::New,
        Some(d) => if same_bytes(d, source) {
            InstallStatus::Unchanged
        } else {
            InstallStatus::Modified
        },
    }
}

/// The status of the settings file, which is merged and never overwritten:
/// new without a destination, unchanged where merging the source into the
/// destination would change nothing, modified otherwise.
pub open spec fn settings_status_of(source: JsonValue, dest: Option<JsonValue>) -> InstallStatus {
    match dest {
        None => InstallStatus::New,
        Some(d) => if merge_values(d, source) == d {
            InstallStatus::Unchanged
        } else {
            InstallStatus::Modified
        },
    }
}

/// The status of the settings file.
pub fn settings_status(source: &Json, dest: Option<&Json>) -> (r: InstallStatus)
    requires
        source.wf(),
        dest matches Some(d) ==> d.wf(),
    ensures
        r == settings_status_of(
            source@,
            match dest {
                Some(d) => Some(d@),
                None => None,
            },
        ),
{
    match dest {
        None => InstallStatus::New,
        Some(d) => {
            let merged = merge_json_values(d, source);
            if merged.equals(d) {
                InstallStatus::Unchanged
            } else {
                InstallStatus::Modified
            }
        },
    }
}

/// The ending that the files of a kind have; no ending is asked of hooks and
/// status-line scripts.
pub open spec fn expected_ending(kind: ComponentType) -> Seq<char> {
    match kind {
        ComponentType::Hooks => Seq::empty(),
        ComponentType::Statusline => Seq::empty(),
        ComponentType::ConfigFile => ".json"@,
        _ => ".md"@,
    }
}

/// The ending that the files of a kind have.
pub fn kind_ending(kind: ComponentType) -> (r: &'static str)
    ensures
        r@ == expected_ending(kind),
{
    match kind {
        ComponentType::Hooks => {
            proof {
                reveal_strlit("");
            }
            assert(""@ =~= Seq::<char>::empty());
            ""
        },
        ComponentType::Statusline => {
            proof {
                reveal_strlit("");
            }
            assert(""@ =~= Seq::<char>::empty());
            ""
        },
        ComponentType::ConfigFile => ".json",
        _ => ".md",
    }
}

/// A file that was found under the directory of a kind in the source tree.
#[derive(Debug)]
pub struct SourceFile {
    pub kind: ComponentType,
    /// The path of the file under the directory of its kind.
    pub name: String,
    pub content: Vec<u8>,
    /// The content of the file at the destination, if there is one.
    pub dest_content: Option<Vec<u8>>,
    /// What the manifest beside a hook declares, if there is one.
    pub manifest: Option<HookConfig>,
    /// The content as text, where it is text.
    pub text: Option<String>,
    /// The content of the file at the destination as text, where it is text.
    pub dest_text: Option<String>,
}

/// The path of a file of a kind under a root directory.
pub open spec fn path_under(root: Seq<char>, kind: ComponentType, name: Seq<char>) -> Seq<char> {
    root + "/"@ + kind.name() + "/"@ + name
}

/// The path of a file of a kind under a root directory.
pub fn artifact_path(root: &str, kind: ComponentType, name: &str) -> (r: String)
    ensures
        r@ == path_under(root@, kind, name@),
{
    let a = concat(root, "/");
    let b = concat(a.as_str(), kind.display_name());
    let c = concat(b.as_str(), "/");
    concat(c.as_str(), name)
}

/// The file is the settings file, whose status is that of a merge.
pub open spec fn is_settings_file(kind: ComponentType, name: Seq<char>) -> bool {
    kind == ComponentType::ConfigFile && name == "settings.json"@
}

/// The file is passed over: it lacks the ending of its kind, or it is a hook
/// without a manifest.
pub open spec fn passed_over(file: SourceFile) -> bool {
    !ends_with(file.name@, expected_ending(file.kind)) || (file.kind == ComponentType::Hooks
        && file.manifest is None)
}

/// The component that a file of the source gives, with the status `status`.
pub open spec fn component_with(
    file: SourceFile,
    source_dir: Seq<char>,
    dest_dir: Seq<char>,
    status: InstallStatus,
) -> ComponentValue {
    ComponentValue {
        kind: file.kind,
        name: file.name@,
        source_path: path_under(source_dir, file.kind, file.name@),
        dest_path: path_under(dest_dir, file.kind, file.name@),
        selected: status != InstallStatus::Unchanged,
        status,
        hook_config: if file.kind == ComponentType::Hooks {
            file.manifest
        } else {
            None
        },
    }
}

/// The component that a file of the source gives, for a file that is not
/// the settings file.
fn file_component(file: &SourceFile, source_dir: &str, dest_dir: &str) -> (r: Option<
    Component,
>)
    requires
        !is_settings_file(file.kind, file.name@),
    ensures
        match r {
            Some(c) => !passed_over(*file) && c@ == component_with(
                *file,
                source_dir@,
                dest_dir@,
                status_of(file.content@, content_view(file.dest_content)),
            ),
            None => passed_over(*file),
        },
{
    if !has_suffix(file.name.as_str(), kind_ending(file.kind)) {
        return None;
    }
    let status = classify(&file.content, &file.dest_content);
    let component = Component::new(
        file.kind,
        file.name.clone(),
        artifact_path(source_dir, file.kind, file.name.as_str()),
        artifact_path(dest_dir, file.kind, file.name.as_str()),
        status,
    );
    match file.kind {
        ComponentType::Hooks => match &file.manifest {
            Some(m) => Some(component.with_hook_config(m.clone())),
            None => None,
        },
        _ => Some(component),
    }
}


/// The status of the settings file of the source, whose document is
/// `source`: new without a destination file, modified where the destination
/// file is not a JSON text, else what a merge would come to.
pub open spec fn settings_file_status(source: JsonValue, file: SourceFile) -> InstallStatus {
    if file.dest_content is None {
        InstallStatus::New
    } else {
        match file.dest_text {
            Some(t) => match parsed_json(t@) {
                Ok(d) => settings_status_of(source, Some(d)),
                Err(_) => InstallStatus::Modified,
            },
            None => InstallStatus::Modified,
        }
    }
}

/// The component that a file of the source gives; none for a file that is
/// passed over, and none for a settings file that is not a JSON text.
pub open spec fn component_of(file: SourceFile, source_dir: Seq<char>, dest_dir: Seq<char>)
    -> Option<ComponentValue> {
    if is_settings_file(file.kind, file.name@) {
        match file.text {
            Some(t) => match parsed_json(t@) {
                Ok(s) => Some(
                    component_with(file, source_dir, dest_dir, settings_file_status(s, file)),
                ),
                Err(_) => None,
            },
            None => None,
        }
    } else if passed_over(file) {
        None
    } else {
        Some(
            component_with(
                file,
                source_dir,
                dest_dir,
                status_of(file.content@, content_view(file.dest_content)),
            ),
        )
    }
}

/// The component of the settings file.
fn settings_component(file: &SourceFile, source_dir: &str, dest_dir: &str) -> (r: Option<
    Component,
>)
    requires
        is_settings_file(file.kind, file.name@),
    ensures
        match r {
            Some(c) => component_of(*file, source_dir@, dest_dir@) == Some(c@),
            None => component_of(*file, source_dir@, dest_dir@) is None,
        },
{
    let source = match &file.text {
        Some(t) => match Json::parse(t.as_str()) {
            Ok(j) => j,
            Err(_) => {
                return None;
            },
        },
        None => {
            return None;
        },
    };
    let status = if file.dest_content.is_none() {
        InstallStatus::New
    } else {
        match &file.dest_text {
            Some(t) => match Json::parse(t.as_str()) {
                Ok(d) => settings_status(&source, Some(&d)),
                Err(_) => InstallStatus::Modified,
            },
            None => InstallStatus::Modified,
        }
    };
    Some(
        Component::new(
            file.kind,
            file.name.clone(),
            artifact_path(source_dir, file.kind, file.name.as_str()),
            artifact_path(dest_dir, file.kind, file.name.as_str()),
            status,
        ),
    )
}

/// The component that a file of the source gives. A file without the ending
/// of its kind, a hook without a manifest and a settings file that is not a
/// JSON text give none.
pub fn component_for(file: &SourceFile, source_dir: &str, dest_dir: &str) -> (r: Option<
    Component,
>)
    ensures
        match r {
            Some(c) => component_of(*file, source_dir@, dest_dir@) == Some(c@),
            None => component_of(*file, source_dir@, dest_dir@) is None,
        },
{
    let settings = "settings.json".to_owned();
    if file.kind == ComponentType::ConfigFile && file.name == settings {
        settings_component(file, source_dir, dest_dir)
    } else {
        file_component(file, source_dir, dest_dir)
    }
}

/// The components, as what they stand for.
pub open spec fn components_view(components: Seq<Component>) -> Seq<ComponentValue> {
    Seq::new(components.len(), |i: int| components[i]@)
}

/// Some component of the list has the kind and the name.
pub open spec fn has_component(list: Seq<ComponentValue>, kind: ComponentType, name: Seq<char>)
    -> bool {
    exists|i: int| 0 <= i < list.len() && (#[trigger] list[i]).kind == kind && list[i].name == name
}

/// No two components of the list share kind and name.
pub open spec fn distinct_components(list: Seq<ComponentValue>) -> bool {
    forall|i: int, j: int|
        0 <= i < j < list.len() ==> !((#[trigger] list[i]).kind == (#[trigger] list[j]).kind
            && list[i].name == list[j].name)
}

/// The components of a scan: for each file in order the component that it
/// gives, unless an earlier file gave one of the same kind and name.
pub open spec fn scanned(files: Seq<SourceFile>, source_dir: Seq<char>, dest_dir: Seq<char>) -> Seq<
    ComponentValue,
>
    decreases files.len(),
{
    if files.len() == 0 {
        Seq::empty()
    } else {
        let before = scanned(files.drop_last(), source_dir, dest_dir);
        match component_of(files.last(), source_dir, dest_dir) {
            Some(c) => if has_component(before, c.kind, c.name) {
                before
            } else {
                before.push(c)
            },
            None => before,
        }
    }
}

/// A scan gives one component for each pair of kind and name.
pub proof fn lemma_scanned_distinct(
    files: Seq<SourceFile>,
    source_dir: Seq<char>,
    dest_dir: Seq<char>,
)
    ensures
        distinct_components(scanned(files, source_dir, dest_dir)),
    decreases files.len(),
{
    if files.len() > 0 {
        lemma_scanned_distinct(files.drop_last(), source_dir, dest_dir);
        let before = scanned(files.drop_last(), source_dir, dest_dir);
        let after = scanned(files, source_dir, dest_dir);
        match component_of(files.last(), source_dir, dest_dir) {
            Some(c) => {
                if !has_component(before, c.kind, c.name) {
                    assert forall|i: int, j: int| 0 <= i < j < after.len() implies !((
                    #[trigger] after[i]).kind == (#[trigger] after[j]).kind && after[i].name
                        == after[j].name) by {
                        if j < before.len() {
                            assert(before[i].kind == after[i].kind);
                            assert(before[j].kind == after[j].kind);
                        } else {
                            assert(before[i] == after[i]);
                        }
                    }
                }
            },
            None => {},
        }
    }
}

/// Whether some component of the list has the kind and the name.
fn listed(list: &Vec<Component>, kind: ComponentType, name: &String) -> (r: bool)
    ensures
        r == has_component(components_view(list@), kind, name@),
{
    let mut i: usize = 0;
    while i < list.len()
        invariant
            i <= list.len(),
            forall|j: int|
                0 <= j < i ==> !((#[trigger] components_view(list@)[j]).kind == kind
                    && components_view(list@)[j].name == name@),
        decreases list.len() - i,
    {
        if list[i].component_type == kind && list[i].name == *name {
            assert(components_view(list@)[i as int].kind == kind);
            return true;
        }
        i += 1;
    }
    false
}

/// The components of a scan, from the files that were found in the source
/// tree: one for each pair of kind and name. A file without the ending of
/// its kind, a hook without a manifest and a settings file that cannot be
/// read as JSON are passed over.
pub fn scan_components(source_dir: &str, dest_dir: &str, files: &Vec<SourceFile>) -> (r: Vec<
    Component,
>)
    ensures
        components_view(r@) == scanned(files@, source_dir@, dest_dir@),
        distinct_components(components_view(r@)),
{
    let mut out: Vec<Component> = Vec::new();
    let mut i: usize = 0;
    assert(files@.subrange(0, 0) =~= Seq::<SourceFile>::empty());
    assert(components_view(out@) =~= Seq::<ComponentValue>::empty());
    while i < files.len()
        invariant
            i <= files.len(),
            components_view(out@) == scanned(files@.subrange(0, i as int), source_dir@, dest_dir@),
        decreases files.len() - i,
    {
        let ghost next = files@.subrange(0, i + 1);
        assert(next.drop_last() =~= files@.subrange(0, i as int));
        assert(next.last() == files@[i as int]);
        match component_for(&files[i], source_dir, dest_dir) {
            Some(c) => {
                if !listed(&out, c.component_type, &c.name) {
                    let ghost before = out@;
                    let ghost cv = c@;
                    out.push(c);
                    assert(components_view(out@) =~= components_view(before).push(cv));
                }
            },
            None => {},
        }
        i += 1;
    }
    assert(files@.subrange(0, files@.len() as int) =~= files@);
    proof {
        lemma_scanned_distinct(files@, source_dir@, dest_dir@);
    }
    out
}

} // verus!
