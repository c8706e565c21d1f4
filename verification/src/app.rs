//! The state of the interactive application: views, tabs, the cursor and the
//! selection, the queue of pending work, and the refresh that follows it.
//!
//! The state decides; it performs nothing. Whoever drives it runs the work
//! that a step asks for and hands back how it ended.

use vstd::prelude::*;
use crate::component::Component;
use crate::component::ComponentType;
use crate::mcp::McpScope;
use crate::mcp::McpServer;
use crate::plugin::Plugin;
use crate::text::concat;
use crate::text::ends_with;
use crate::text::has_suffix;
use crate::text::push_char;
use crate::text::string_from;
use crate::text::to_chars;

verus! {

/// What is on the screen. Exactly one view is current.
#[derive(Clone, Copy, Debug, PartialEq, Eq, Structural)]
pub enum Screen {
    List,
    Diff,
    EnvInput,
    ProjectPath,
    Installing,
}

/// A tab of the list view: one for each kind of component, one for the MCP
/// servers and one for the plugins.
#[derive(Clone, Copy, Debug, PartialEq, Eq, Structural)]
pub enum Tab {
    Agents,
    Commands,
    Contexts,
    Rules,
    Skills,
    Hooks,
    OutputStyles,
    Statusline,
    Config,
    McpServers,
    Plugins,
}

/// The number of tabs.
pub const TAB_COUNT: usize = 11;

impl Tab {
    /// The position of the tab, from the left.
    pub open spec fn position(self) -> nat {
        match self {
            Tab::Agents => 0,
            Tab::Commands => 1,
            Tab::Contexts => 2,
            Tab::Rules => 3,
            Tab::Skills => 4,
            Tab::Hooks => 5,
            Tab::OutputStyles => 6,
            Tab::Statusline => 7,
            Tab::Config => 8,
            Tab::McpServers => 9,
            Tab::Plugins => 10,
        }
    }

    /// The position of the tab, from the left.
    pub fn index(&self) -> (r: usize)
        ensures
            r == self.position(),
            r < TAB_COUNT,
    {
        match self {
            Tab::Agents => 0,
            Tab::Commands => 1,
            Tab::Contexts => 2,
            Tab::Rules => 3,
            Tab::Skills => 4,
            Tab::Hooks => 5,
            Tab::OutputStyles => 6,
            Tab::Statusline => 7,
            Tab::Config => 8,
            Tab::McpServers => 9,
            Tab::Plugins => 10,
        }
    }

    /// The tab at a position, if there is one.
    pub fn from_index(i: usize) -> (r: Option<Tab>)
        ensures
            match r {
                Some(t) => t.position() == i,
                None => i >= TAB_COUNT,
            },
    {
        match i {
            0 => Some(Tab::Agents),
            1 => Some(Tab::Commands),
            2 => Some(Tab::Contexts),
            3 => Some(Tab::Rules),
            4 => Some(Tab::Skills),
            5 => Some(Tab::Hooks),
            6 => Some(Tab::OutputStyles),
            7 => Some(Tab::Statusline),
            8 => Some(Tab::Config),
            9 => Some(Tab::McpServers),
            10 => Some(Tab::Plugins),
            _ => None,
        }
    }

    /// The tabs from left to right.
    pub fn all() -> (r: Vec<Tab>)
        ensures
            r@.len() == TAB_COUNT,
            forall|i: int| 0 <= i < r@.len() ==> (#[trigger] r@[i]).position() == i,
    {
        let mut v: Vec<Tab> = Vec::new();
        v.push(Tab::Agents);
        v.push(Tab::Commands);
        v.push(Tab::Contexts);
        v.push(Tab::Rules);
        v.push(Tab::Skills);
        v.push(Tab::Hooks);
        v.push(Tab::OutputStyles);
        v.push(Tab::Statusline);
        v.push(Tab::Config);
        v.push(Tab::McpServers);
        v.push(Tab::Plugins);
        v
    }

    /// The kind of the components that the tab lists, if it lists components.
    pub open spec fn kind(self) -> Option<ComponentType> {
        match self {
            Tab::Agents => Some(ComponentType::Agents),
            Tab::Commands => Some(ComponentType::Commands),
            Tab::Contexts => Some(ComponentType::Contexts),
            Tab::Rules => Some(ComponentType::Rules),
            Tab::Skills => Some(ComponentType::Skills),
            Tab::Hooks => Some(ComponentType::Hooks),
            Tab::OutputStyles => Some(ComponentType::OutputStyles),
            Tab::Statusline => Some(ComponentType::Statusline),
            Tab::Config => Some(ComponentType::ConfigFile),
            Tab::McpServers => None,
            Tab::Plugins => None,
        }
    }

    /// The kind of the components that the tab lists, if it lists components.
    pub fn component_type(&self) -> (r: Option<ComponentType>)
        ensures
            r == self.kind(),
    {
        match self {
            Tab::Agents => Some(ComponentType::Agents),
            Tab::Commands => Some(ComponentType::Commands),
            Tab::Contexts => Some(ComponentType::Contexts),
            Tab::Rules => Some(ComponentType::Rules),
            Tab::Skills => Some(ComponentType::Skills),
            Tab::Hooks => Some(ComponentType::Hooks),
            Tab::OutputStyles => Some(ComponentType::OutputStyles),
            Tab::Statusline => Some(ComponentType::Statusline),
            Tab::Config => Some(ComponentType::ConfigFile),
            Tab::McpServers => None,
            Tab::Plugins => None,
        }
    }

    /// The title of the tab.
    pub open spec fn title(self) -> Seq<char> {
        match self {
            Tab::Agents => "Agents"@,
            Tab::Commands => "Commands"@,
            Tab::Contexts => "Contexts"@,
            Tab::Rules => "Rules"@,
            Tab::Skills => "Skills"@,
            Tab::Hooks => "Hooks"@,
            Tab::OutputStyles => "Output Styles"@,
            Tab::Statusline => "Statusline"@,
            Tab::Config => "Config"@,
            Tab::McpServers => "MCP Servers"@,
            Tab::Plugins => "Plugins"@,
        }
    }

    /// The title of the tab.
    pub fn display_name(&self) -> (r: &'static str)
        ensures
            r@ == self.title(),
    {
        match self {
            Tab::Agents => "Agents",
            Tab::Commands => "Commands",
            Tab::Contexts => "Contexts",
            Tab::Rules => "Rules",
            Tab::Skills => "Skills",
            Tab::Hooks => "Hooks",
            Tab::OutputStyles => "Output Styles",
            Tab::Statusline => "Statusline",
            Tab::Config => "Config",
            Tab::McpServers => "MCP Servers",
            Tab::Plugins => "Plugins",
        }
    }

    /// The tab to the right; the first after the last.
    pub fn next(self) -> (r: Tab)
        ensures
            r.position() == (self.position() + 1) as int % (TAB_COUNT as int),
    {
        match Tab::from_index((self.index() + 1) % TAB_COUNT) {
            Some(t) => t,
            None => self,
        }
    }

    /// The tab to the left; the last before the first.
    pub fn prev(self) -> (r: Tab)
        ensures
            r.position() == (self.position() + TAB_COUNT - 1) % (TAB_COUNT as int),
    {
        match Tab::from_index((self.index() + TAB_COUNT - 1) % TAB_COUNT) {
            Some(t) => t,
            None => self,
        }
    }
}

/// What is done to the selection.
#[derive(Clone, Copy, Debug, PartialEq, Eq, Structural)]
pub enum Action {
    Install,
    Remove,
}

/// What a queue entry works on: an item of one of the three collections, by
/// its position.
#[derive(Clone, Copy, Debug, PartialEq, Eq, Structural)]
pub enum Target {
    Component(usize),
    Mcp(usize),
    Plugin(usize),
}

/// One pending piece of work.
#[derive(Clone, Copy, Debug, PartialEq, Eq, Structural)]
pub struct QueueEntry {
    pub target: Target,
    pub action: Action,
}

/// The most lines that the processing log keeps.
pub const MAX_LOG_LINES: usize = 1000;

/// The state of the application.
#[derive(Debug)]
pub struct App {
    pub components: Vec<Component>,
    pub mcp_servers: Vec<McpServer>,
    pub plugins: Vec<Plugin>,
    pub tab: Tab,
    pub current_view: Screen,
    /// The cursor among the components of the current tab.
    pub list_index: usize,
    pub mcp_index: usize,
    pub plugin_index: usize,
    pub mcp_scope: McpScope,
    /// The directory in which servers of local scope are registered.
    pub project_path: Option<String>,
    pub project_path_buffer: String,
    /// The environment variables that were entered, with their values.
    pub env_values: Vec<(String, String)>,
    /// The names of the variables that are still asked for; the first is the
    /// one being entered.
    pub env_pending: Vec<String>,
    pub env_buffer: String,
    pub processing_queue: Vec<QueueEntry>,
    pub processing_log: Vec<String>,
    pub processing_progress: usize,
    pub processing_total: usize,
    pub processing_complete: bool,
    pub needs_refresh: bool,
    pub refreshing: bool,
    pub is_removing: bool,
    pub animation_frame: usize,
    pub status_message: Option<String>,
    pub diff_content: Option<String>,
    pub diff_scroll: u16,
    pub current_output_style: Option<String>,
    pub current_statusline: Option<String>,
    pub should_quit: bool,
}

/// The positions of the components of a kind, in order.
pub open spec fn visible(components: Seq<Component>, kind: ComponentType) -> Seq<int>
    decreases components.len(),
{
    if components.len() == 0 {
        Seq::empty()
    } else {
        let before = visible(components.drop_last(), kind);
        if components.last().component_type == kind {
            before.push(components.len() - 1)
        } else {
            before
        }
    }
}

/// The positions that are visible are positions of components of the kind,
/// in rising order, and none is left out.
pub proof fn lemma_visible(components: Seq<Component>, kind: ComponentType)
    ensures
        visible(components, kind).len() <= components.len(),
        forall|k: int|
            0 <= k < visible(components, kind).len() ==> {
                &&& 0 <= (#[trigger] visible(components, kind)[k]) < components.len()
                &&& components[visible(components, kind)[k]].component_type == kind
            },
        forall|a: int, b: int|
            0 <= a < b < visible(components, kind).len() ==> visible(components, kind)[a]
                < visible(components, kind)[b],
        forall|i: int|
            0 <= i < components.len() && (#[trigger] components[i]).component_type == kind
                ==> visible(components, kind).contains(i),
    decreases components.len(),
{
    if components.len() > 0 {
        let init = components.drop_last();
        lemma_visible(init, kind);
        let before = visible(init, kind);
        let after = visible(components, kind);
        assert forall|k: int| 0 <= k < after.len() implies {
            &&& 0 <= (#[trigger] after[k]) < components.len()
            &&& components[after[k]].component_type == kind
        } by {
            if k < before.len() {
                assert(after[k] == before[k]);
                assert(components[before[k]] == init[before[k]]);
            }
        }
        assert forall|a: int, b: int| 0 <= a < b < after.len() implies after[a] < after[b] by {
            if b < before.len() {
                assert(after[a] == before[a] && after[b] == before[b]);
            } else {
                assert(after[a] == before[a]);
            }
        }
        assert forall|i: int|
            0 <= i < components.len() && (#[trigger] components[i]).component_type
                == kind implies after.contains(i) by {
            if i < init.len() {
                assert(init[i] == components[i]);
                assert(before.contains(i));
                let k = choose|k: int| 0 <= k < before.len() && before[k] == i;
                assert(after[k] == i);
            } else {
                assert(after[after.len() - 1] == i);
            }
        }
    }
}


/// The cursor after a step down a list of `len` items: it stops at the end.
pub open spec fn moved_down(i: usize, len: nat) -> usize {
    if i + 1 < len {
        (i + 1) as usize
    } else {
        i
    }
}

/// The cursor after a step up: it stops at the start.
pub open spec fn moved_up(i: usize) -> usize {
    if i > 0 {
        (i - 1) as usize
    } else {
        i
    }
}

/// The components, each of the kind with its selection set to `on`.
pub open spec fn components_selected(old: Seq<Component>, kind: ComponentType, on: bool) -> Seq<
    Component,
> {
    Seq::new(
        old.len(),
        |i: int|
            if old[i].component_type == kind {
                Component { selected: on, ..old[i] }
            } else {
                old[i]
            },
    )
}

/// The servers, each with its selection set to `on`.
pub open spec fn servers_selected(old: Seq<McpServer>, on: bool) -> Seq<McpServer> {
    Seq::new(old.len(), |i: int| McpServer { selected: on, ..old[i] })
}

/// The plugins, each with its selection set to `on`.
pub open spec fn plugins_selected(old: Seq<Plugin>, on: bool) -> Seq<Plugin> {
    Seq::new(old.len(), |i: int| Plugin { selected: on, ..old[i] })
}

/// `after` is `before` on the tab to the right, with the cursor at the top.
pub open spec fn tab_advanced(before: App, after: App) -> bool {
    &&& after == (App { tab: after.tab, list_index: 0, ..before })
    &&& after.tab.position() == (before.tab.position() + 1) as int % (TAB_COUNT as int)
}

/// `after` is `before` on the tab to the left, with the cursor at the top.
pub open spec fn tab_retreated(before: App, after: App) -> bool {
    &&& after == (App { tab: after.tab, list_index: 0, ..before })
    &&& after.tab.position() == (before.tab.position() + TAB_COUNT - 1) % (TAB_COUNT as int)
}

/// `after` is `before` on the tab at `index`, with the cursor at the top;
/// `before` itself where there is no such tab.
pub open spec fn tab_chosen(before: App, after: App, index: usize) -> bool {
    if index < TAB_COUNT {
        &&& after == (App { tab: after.tab, list_index: 0, ..before })
        &&& after.tab.position() == index
    } else {
        after == before
    }
}

/// `after` is `before` with the cursor of the current tab one item down.
pub open spec fn cursor_lowered(before: App, after: App) -> bool {
    after == match before.tab {
        Tab::McpServers => (App {
            mcp_index: moved_down(before.mcp_index, before.listed_len()),
            ..before
        }),
        Tab::Plugins => (App {
            plugin_index: moved_down(before.plugin_index, before.listed_len()),
            ..before
        }),
        _ => (App { list_index: moved_down(before.list_index, before.listed_len()), ..before }),
    }
}

/// `after` is `before` with the cursor of the current tab one item up.
pub open spec fn cursor_raised(before: App, after: App) -> bool {
    after == match before.tab {
        Tab::McpServers => (App { mcp_index: moved_up(before.mcp_index), ..before }),
        Tab::Plugins => (App { plugin_index: moved_up(before.plugin_index), ..before }),
        _ => (App { list_index: moved_up(before.list_index), ..before }),
    }
}

/// `after` is `before` with the selection of the item under the cursor
/// flipped; `before` itself where the cursor is on no item.
pub open spec fn selection_flipped(before: App, after: App) -> bool {
    match before.tab {
        Tab::McpServers => if before.mcp_index < before.mcp_servers@.len() {
            let i = before.mcp_index as int;
            let server = before.mcp_servers@[i];
            &&& after == (App { mcp_servers: after.mcp_servers, ..before })
            &&& after.mcp_servers@ == before.mcp_servers@.update(
                i,
                (McpServer { selected: !server.selected, ..server }),
            )
        } else {
            after == before
        },
        Tab::Plugins => if before.plugin_index < before.plugins@.len() {
            let i = before.plugin_index as int;
            let plugin = before.plugins@[i];
            &&& after == (App { plugins: after.plugins, ..before })
            &&& after.plugins@ == before.plugins@.update(
                i,
                (Plugin { selected: !plugin.selected, ..plugin }),
            )
        } else {
            after == before
        },
        _ => match before.cursor_component() {
            Some(i) => {
                let component = before.components@[i];
                &&& after == (App { components: after.components, ..before })
                &&& after.components@ == before.components@.update(
                    i,
                    (Component { selected: !component.selected, ..component }),
                )
            },
            None => after == before,
        },
    }
}

/// `after` is `before` with the selection of every item of the current tab
/// set to `on`, and of no other item.
pub open spec fn selection_set(before: App, after: App, on: bool) -> bool {
    match before.tab.kind() {
        Some(k) => {
            &&& after == (App { components: after.components, ..before })
            &&& after.components@ == components_selected(before.components@, k, on)
        },
        None => if before.tab == Tab::McpServers {
            &&& after == (App { mcp_servers: after.mcp_servers, ..before })
            &&& after.mcp_servers@ == servers_selected(before.mcp_servers@, on)
        } else {
            &&& after == (App { plugins: after.plugins, ..before })
            &&& after.plugins@ == plugins_selected(before.plugins@, on)
        },
    }
}

/// `after` is `before` with the other scope.
pub open spec fn scope_switched(before: App, after: App) -> bool {
    &&& after == (App { mcp_scope: after.mcp_scope, ..before })
    &&& after.mcp_scope != before.mcp_scope
}

/// `after` is `before` back in the list, without differences.
pub open spec fn diff_closed(before: App, after: App) -> bool {
    after == (App { current_view: Screen::List, diff_content: None, diff_scroll: 0, ..before })
}

/// `after` is `before` with the differences one line down.
pub open spec fn diff_lowered(before: App, after: App) -> bool {
    after == (App {
        diff_scroll: if before.diff_scroll < u16::MAX {
            (before.diff_scroll + 1) as u16
        } else {
            before.diff_scroll
        },
        ..before
    })
}

/// `after` is `before` with the differences one line up.
pub open spec fn diff_raised(before: App, after: App) -> bool {
    after == (App {
        diff_scroll: if before.diff_scroll > 0 {
            (before.diff_scroll - 1) as u16
        } else {
            before.diff_scroll
        },
        ..before
    })
}

/// `after` is `before` back in the list, where the queue is empty; `before`
/// itself where it is not.
pub open spec fn processing_closed(before: App, after: App) -> bool {
    if before.processing_queue@.len() == 0 {
        after == (App { current_view: Screen::List, processing_complete: false, ..before })
    } else {
        after == before
    }
}

/// `after` is `before` back in the list, with no variable asked for.
pub open spec fn env_cancelled(before: App, after: App) -> bool {
    &&& after == (App {
        current_view: Screen::List,
        env_pending: after.env_pending,
        env_buffer: after.env_buffer,
        ..before
    })
    &&& after.env_pending@.len() == 0
    &&& after.env_buffer@.len() == 0
}

/// `after` is `before` with the entered value taken for the variable that
/// was asked for: the next variable is asked for, or, after the last, the
/// installation that asked for the values goes on. `before` itself where no
/// variable was asked for.
pub open spec fn env_submitted(before: App, after: App) -> bool {
    if before.env_pending@.len() == 0 {
        after == before
    } else {
        let entered = (App {
            env_pending: after.env_pending,
            env_buffer: after.env_buffer,
            env_values: after.env_values,
            ..before
        });
        &&& after.env_pending@ == before.env_pending@.drop_first()
        &&& after.env_buffer@.len() == 0
        &&& after.env_values@.len() == before.env_values@.len() + 1
        &&& after.env_values@.drop_last() == before.env_values@
        &&& after.env_values@.last().0@ == before.env_pending@[0]@
        &&& after.env_values@.last().1@ == before.env_buffer@
        &&& if before.env_pending@.len() > 1 {
            after == entered
        } else {
            begun(entered, after, before.selection(Action::Install), Action::Install)
        }
    }
}

/// `after` is `before` with the entered value one character shorter.
pub open spec fn env_shortened(before: App, after: App) -> bool {
    &&& after == (App { env_buffer: after.env_buffer, ..before })
    &&& after.env_buffer@ == if before.env_buffer@.len() > 0 {
        before.env_buffer@.drop_last()
    } else {
        before.env_buffer@
    }
}

/// `after` is `before` with `c` added to the entered value.
pub open spec fn env_extended(before: App, after: App, c: char) -> bool {
    &&& after == (App { env_buffer: after.env_buffer, ..before })
    &&& after.env_buffer@ == before.env_buffer@.push(c)
}

/// `after` is `before` back in the list, with the scope of the user.
pub open spec fn path_cancelled(before: App, after: App) -> bool {
    &&& after == (App {
        current_view: Screen::List,
        mcp_scope: McpScope::User,
        project_path_buffer: after.project_path_buffer,
        ..before
    })
    &&& after.project_path_buffer@.len() == 0
}

/// `after` is `before` with the entered path taken as the project path, and
/// the installation that asked for it gone on; `before` itself where nothing
/// was entered.
pub open spec fn path_submitted(before: App, after: App) -> bool {
    if before.project_path_buffer@.len() == 0 {
        after == before
    } else {
        &&& after.project_path matches Some(p)
        &&& p@ == before.project_path_buffer@
        &&& install_requested(
            (App { project_path: after.project_path, current_view: Screen::List, ..before }),
            after,
        )
    }
}

/// `after` is `before` with the entered path one character shorter.
pub open spec fn path_shortened(before: App, after: App) -> bool {
    &&& after == (App { project_path_buffer: after.project_path_buffer, ..before })
    &&& after.project_path_buffer@ == if before.project_path_buffer@.len() > 0 {
        before.project_path_buffer@.drop_last()
    } else {
        before.project_path_buffer@
    }
}

/// `after` is `before` with `c` added to the entered path.
pub open spec fn path_extended(before: App, after: App, c: char) -> bool {
    &&& after == (App { project_path_buffer: after.project_path_buffer, ..before })
    &&& after.project_path_buffer@ == before.project_path_buffer@.push(c)
}

impl App {
    /// The state at the start: the first tab of the list view, nothing
    /// queued, the scope of the user.
    pub fn new(components: Vec<Component>, mcp_servers: Vec<McpServer>, plugins: Vec<Plugin>) -> (r:
        App)
        ensures
            r.components == components,
            r.mcp_servers == mcp_servers,
            r.plugins == plugins,
            r.tab == Tab::Agents,
            r.current_view == Screen::List,
            r.list_index == 0 && r.mcp_index == 0 && r.plugin_index == 0,
            r.mcp_scope == McpScope::User,
            r.project_path is None,
            r.processing_queue@.len() == 0,
            r.processing_log@.len() == 0,
            !r.processing_complete && !r.needs_refresh && !r.refreshing && !r.should_quit,
    {
        App {
            components,
            mcp_servers,
            plugins,
            tab: Tab::Agents,
            current_view: Screen::List,
            list_index: 0,
            mcp_index: 0,
            plugin_index: 0,
            mcp_scope: McpScope::User,
            project_path: None,
            project_path_buffer: String::new(),
            env_values: Vec::new(),
            env_pending: Vec::new(),
            env_buffer: String::new(),
            processing_queue: Vec::new(),
            processing_log: Vec::new(),
            processing_progress: 0,
            processing_total: 0,
            processing_complete: false,
            needs_refresh: false,
            refreshing: false,
            is_removing: false,
            animation_frame: 0,
            status_message: None,
            diff_content: None,
            diff_scroll: 0,
            current_output_style: None,
            current_statusline: None,
            should_quit: false,
        }
    }

    /// The number of items that the current tab lists.
    pub open spec fn listed_len(self) -> nat {
        match self.tab.kind() {
            Some(k) => visible(self.components@, k).len(),
            None => if self.tab == Tab::McpServers {
                self.mcp_servers@.len()
            } else {
                self.plugins@.len()
            },
        }
    }

    /// The positions of the components of a kind, in order.
    pub fn visible_indices(&self, kind: ComponentType) -> (r: Vec<usize>)
        ensures
            r@.len() == visible(self.components@, kind).len(),
            forall|k: int| 0 <= k < r@.len() ==> (#[trigger] r@[k]) as int == visible(
                self.components@,
                kind,
            )[k],
    {
        let mut out: Vec<usize> = Vec::new();
        let mut i: usize = 0;
        assert(self.components@.subrange(0, 0) =~= Seq::<Component>::empty());
        while i < self.components.len()
            invariant
                i <= self.components.len(),
                out@.len() == visible(self.components@.subrange(0, i as int), kind).len(),
                forall|k: int| 0 <= k < out@.len() ==> (#[trigger] out@[k]) as int == visible(
                    self.components@.subrange(0, i as int),
                    kind,
                )[k],
            decreases self.components.len() - i,
        {
            let ghost next = self.components@.subrange(0, i + 1);
            assert(next.drop_last() =~= self.components@.subrange(0, i as int));
            assert(next.last() == self.components@[i as int]);
            if self.components[i].component_type == kind {
                out.push(i);
            }
            i += 1;
        }
        assert(self.components@.subrange(0, self.components@.len() as int) =~= self.components@);
        out
    }

    /// The number of items that the current tab lists.
    pub fn current_len(&self) -> (r: usize)
        ensures
            r == self.listed_len(),
    {
        match self.tab.component_type() {
            Some(k) => {
                let v = self.visible_indices(k);
                v.len()
            },
            None => match self.tab {
                Tab::McpServers => self.mcp_servers.len(),
                _ => self.plugins.len(),
            },
        }
    }

    /// Goes to the tab to the right, with the cursor at the top.
    pub fn next_tab(&mut self)
        ensures
            tab_advanced(*old(self), *final(self)),
    {
        self.tab = self.tab.next();
        self.list_index = 0;
    }

    /// Goes to the tab to the left, with the cursor at the top.
    pub fn prev_tab(&mut self)
        ensures
            tab_retreated(*old(self), *final(self)),
    {
        self.tab = self.tab.prev();
        self.list_index = 0;
    }

    /// Goes to the tab at a position, with the cursor at the top; nothing
    /// changes where there is no such tab.
    pub fn set_tab(&mut self, index: usize)
        ensures
            tab_chosen(*old(self), *final(self), index),
    {
        match Tab::from_index(index) {
            Some(t) => {
                self.tab = t;
                self.list_index = 0;
            },
            None => {},
        }
    }

    /// Moves the cursor of the current tab one item down.
    pub fn next_item(&mut self)
        ensures
            cursor_lowered(*old(self), *final(self)),
    {
        let len = self.current_len();
        match self.tab {
            Tab::McpServers => {
                if self.mcp_index < usize::MAX && self.mcp_index + 1 < len {
                    self.mcp_index = self.mcp_index + 1;
                }
            },
            Tab::Plugins => {
                if self.plugin_index < usize::MAX && self.plugin_index + 1 < len {
                    self.plugin_index = self.plugin_index + 1;
                }
            },
            _ => {
                if self.list_index < usize::MAX && self.list_index + 1 < len {
                    self.list_index = self.list_index + 1;
                }
            },
        }
    }

    /// Moves the cursor of the current tab one item up.
    pub fn prev_item(&mut self)
        ensures
            cursor_raised(*old(self), *final(self)),
    {
        match self.tab {
            Tab::McpServers => {
                if self.mcp_index > 0 {
                    self.mcp_index = self.mcp_index - 1;
                }
            },
            Tab::Plugins => {
                if self.plugin_index > 0 {
                    self.plugin_index = self.plugin_index - 1;
                }
            },
            _ => {
                if self.list_index > 0 {
                    self.list_index = self.list_index - 1;
                }
            },
        }
    }

    /// The position, among all components, of the component under the
    /// cursor, if the current tab lists components and the cursor is on one.
    pub open spec fn cursor_component(self) -> Option<int> {
        match self.tab.kind() {
            Some(k) => if self.list_index < visible(self.components@, k).len() {
                Some(visible(self.components@, k)[self.list_index as int])
            } else {
                None
            },
            None => None,
        }
    }

    /// The position, among all components, of the component under the
    /// cursor.
    pub fn selected_component_index(&self) -> (r: Option<usize>)
        ensures
            match r {
                Some(i) => self.cursor_component() == Some(i as int) && i < self.components@.len(),
                None => self.cursor_component() is None,
            },
    {
        match self.tab.component_type() {
            Some(k) => {
                let v = self.visible_indices(k);
                proof {
                    lemma_visible(self.components@, k);
                }
                if self.list_index < v.len() {
                    Some(v[self.list_index])
                } else {
                    None
                }
            },
            None => None,
        }
    }

    /// Flips the selection of the item under the cursor; nothing changes
    /// where the cursor is on no item.
    pub fn toggle_selected(&mut self)
        ensures
            selection_flipped(*old(self), *final(self)),
    {
        match self.tab {
            Tab::McpServers => {
                if self.mcp_index < self.mcp_servers.len() {
                    let i = self.mcp_index;
                    let s = self.mcp_servers[i].selected;
                    self.mcp_servers[i].selected = !s;
                }
            },
            Tab::Plugins => {
                if self.plugin_index < self.plugins.len() {
                    let i = self.plugin_index;
                    let s = self.plugins[i].selected;
                    self.plugins[i].selected = !s;
                }
            },
            _ => {
                match self.selected_component_index() {
                    Some(i) => {
                        let s = self.components[i].selected;
                        self.components[i].selected = !s;
                    },
                    None => {},
                }
            },
        }
    }

    /// Sets the selection of every item that the current tab lists, and of
    /// no other item.
    pub fn set_all_selected(&mut self, on: bool)
        ensures
            selection_set(*old(self), *final(self), on),
    {
        let ghost before = *self;
        match self.tab.component_type() {
            Some(k) => {
                let mut i: usize = 0;
                while i < self.components.len()
                    invariant
                        i <= self.components.len(),
                        *self == (App { components: self.components, ..before }),
                        self.components@.len() == before.components@.len(),
                        forall|j: int|
                            0 <= j < i ==> (#[trigger] self.components@[j]) == components_selected(
                                before.components@,
                                k,
                                on,
                            )[j],
                        forall|j: int|
                            i <= j < self.components@.len() ==> (#[trigger] self.components@[j])
                                == before.components@[j],
                    decreases self.components.len() - i,
                {
                    if self.components[i].component_type == k {
                        self.components[i].selected = on;
                    }
                    i += 1;
                }
                assert(self.components@ =~= components_selected(before.components@, k, on));
            },
            None => match self.tab {
                Tab::McpServers => {
                    let mut i: usize = 0;
                    while i < self.mcp_servers.len()
                        invariant
                            i <= self.mcp_servers.len(),
                            *self == (App { mcp_servers: self.mcp_servers, ..before }),
                            self.mcp_servers@.len() == before.mcp_servers@.len(),
                            forall|j: int|
                                0 <= j < i ==> (#[trigger] self.mcp_servers@[j])
                                    == servers_selected(before.mcp_servers@, on)[j],
                            forall|j: int|
                                i <= j < self.mcp_servers@.len() ==> (
                                #[trigger] self.mcp_servers@[j]) == before.mcp_servers@[j],
                        decreases self.mcp_servers.len() - i,
                    {
                        self.mcp_servers[i].selected = on;
                        i += 1;
                    }
                    assert(self.mcp_servers@ =~= servers_selected(before.mcp_servers@, on));
                },
                _ => {
                    let mut i: usize = 0;
                    while i < self.plugins.len()
                        invariant
                            i <= self.plugins.len(),
                            *self == (App { plugins: self.plugins, ..before }),
                            self.plugins@.len() == before.plugins@.len(),
                            forall|j: int|
                                0 <= j < i ==> (#[trigger] self.plugins@[j]) == plugins_selected(
                                    before.plugins@,
                                    on,
                                )[j],
                            forall|j: int|
                                i <= j < self.plugins@.len() ==> (#[trigger] self.plugins@[j])
                                    == before.plugins@[j],
                        decreases self.plugins.len() - i,
                    {
                        self.plugins[i].selected = on;
                        i += 1;
                    }
                    assert(self.plugins@ =~= plugins_selected(before.plugins@, on));
                },
            },
        }
    }

    /// Selects every item that the current tab lists.
    pub fn select_all(&mut self)
        ensures
            selection_set(*old(self), *final(self), true),
    {
        self.set_all_selected(true);
    }

    /// Takes every item that the current tab lists out of the selection.
    pub fn deselect_all(&mut self)
        ensures
            selection_set(*old(self), *final(self), false),
    {
        self.set_all_selected(false);
    }
}


/// The queue entries for the selected components of a kind, in order.
pub open spec fn selected_components(cs: Seq<Component>, kind: ComponentType, action: Action)
    -> Seq<QueueEntry>
    decreases cs.len(),
{
    if cs.len() == 0 {
        Seq::empty()
    } else {
        let before = selected_components(cs.drop_last(), kind, action);
        if cs.last().component_type == kind && cs.last().selected {
            before.push(QueueEntry { target: Target::Component((cs.len() - 1) as usize), action })
        } else {
            before
        }
    }
}

/// The queue entries for the selected servers, in order.
pub open spec fn selected_servers(ss: Seq<McpServer>, action: Action) -> Seq<QueueEntry>
    decreases ss.len(),
{
    if ss.len() == 0 {
        Seq::empty()
    } else {
        let before = selected_servers(ss.drop_last(), action);
        if ss.last().selected {
            before.push(QueueEntry { target: Target::Mcp((ss.len() - 1) as usize), action })
        } else {
            before
        }
    }
}

/// The queue entries for the selected plugins, in order.
pub open spec fn selected_plugins(ps: Seq<Plugin>, action: Action) -> Seq<QueueEntry>
    decreases ps.len(),
{
    if ps.len() == 0 {
        Seq::empty()
    } else {
        let before = selected_plugins(ps.drop_last(), action);
        if ps.last().selected {
            before.push(QueueEntry { target: Target::Plugin((ps.len() - 1) as usize), action })
        } else {
            before
        }
    }
}

/// The text of a line of the log: the marker in brackets, a space and the
/// message.
pub open spec fn log_line(marker: Seq<char>, message: Seq<char>) -> Seq<char> {
    "["@ + marker + "] "@ + message
}

/// How one piece of work ended.
#[derive(Debug)]
pub enum StepOutcome {
    Done(String),
    Failed(String),
    Skipped(String),
}

impl StepOutcome {
    /// The line that the log gets for the outcome.
    pub open spec fn line(self) -> Seq<char> {
        match self {
            StepOutcome::Done(m) => log_line("OK"@, m@),
            StepOutcome::Failed(m) => log_line("ERR"@, m@),
            StepOutcome::Skipped(m) => log_line("SKIP"@, m@),
        }
    }

    /// The line that the log gets for the outcome.
    pub fn log_text(&self) -> (r: String)
        ensures
            r@ == self.line(),
    {
        let (marker, message) = match self {
            StepOutcome::Done(m) => ("OK", m),
            StepOutcome::Failed(m) => ("ERR", m),
            StepOutcome::Skipped(m) => ("SKIP", m),
        };
        let a = concat("[", marker);
        let b = concat(a.as_str(), "] ");
        concat(b.as_str(), message.as_str())
    }
}

/// The lines that the log keeps when one more is added: all but the oldest
/// where the log is full.
pub open spec fn kept_lines(log: Seq<String>) -> Seq<String> {
    if log.len() >= MAX_LOG_LINES {
        log.drop_first()
    } else {
        log
    }
}

/// `after` is `before` with the work on `queue` begun: the installing view
/// with the queue and an empty log; or, for an empty queue, `before` with a
/// message that nothing is selected.
pub open spec fn begun(before: App, after: App, queue: Seq<QueueEntry>, action: Action) -> bool {
    if queue.len() > 0 {
        &&& after == before.processing(after.processing_queue, action, after.processing_log)
        &&& after.processing_queue@ == queue
        &&& after.processing_log@.len() == 0
    } else {
        &&& after == (App { status_message: after.status_message, ..before })
        &&& after.status_message matches Some(m)
        &&& m@ == "No items selected"@
    }
}

/// The texts of a list of strings.
pub open spec fn texts(v: Seq<String>) -> Seq<Seq<char>> {
    Seq::new(v.len(), |i: int| v[i]@)
}

/// A value was entered for the variable.
pub open spec fn has_value(values: Seq<(String, String)>, name: Seq<char>) -> bool {
    exists|i: int| 0 <= i < values.len() && (#[trigger] values[i]).0@ == name
}

/// `acc`, and after it each of `names` that has no value and is not listed
/// yet, in order.
pub open spec fn add_missing(acc: Seq<Seq<char>>, names: Seq<String>, values: Seq<(String, String)>)
    -> Seq<Seq<char>>
    decreases names.len(),
{
    if names.len() == 0 {
        acc
    } else {
        let before = add_missing(acc, names.drop_last(), values);
        let n = names.last()@;
        if has_value(values, n) || before.contains(n) {
            before
        } else {
            before.push(n)
        }
    }
}

/// The variables that the selected servers need and that have no value yet,
/// each once, in the order of the servers.
pub open spec fn missing_names(servers: Seq<McpServer>, values: Seq<(String, String)>) -> Seq<
    Seq<char>,
>
    decreases servers.len(),
{
    if servers.len() == 0 {
        Seq::empty()
    } else {
        let before = missing_names(servers.drop_last(), values);
        if servers.last().selected {
            add_missing(before, servers.last().def.env@, values)
        } else {
            before
        }
    }
}

/// `s` without a final `.md`.
pub open spec fn without_md(s: Seq<char>) -> Seq<char> {
    if ends_with(s, ".md"@) {
        s.subrange(0, s.len() - 3)
    } else {
        s
    }
}

/// `after` is what a request to install the selection makes of `before`.
/// On the tab of the MCP servers, local scope without a project path asks
/// for the path first, and variables without a value are asked for before
/// anything is queued; in every other case the selection is queued.
pub open spec fn install_requested(before: App, after: App) -> bool {
    if before.tab == Tab::McpServers && before.mcp_scope == McpScope::Local
        && before.project_path is None {
        &&& after == (App {
            current_view: Screen::ProjectPath,
            project_path_buffer: after.project_path_buffer,
            ..before
        })
        &&& after.project_path_buffer@.len() == 0
    } else if before.tab == Tab::McpServers && missing_names(
        before.mcp_servers@,
        before.env_values@,
    ).len() > 0 {
        &&& after == (App {
            current_view: Screen::EnvInput,
            env_pending: after.env_pending,
            env_buffer: after.env_buffer,
            ..before
        })
        &&& texts(after.env_pending@) == missing_names(before.mcp_servers@, before.env_values@)
        &&& after.env_buffer@.len() == 0
    } else {
        begun(before, after, before.selection(Action::Install), Action::Install)
    }
}

/// Whether the list holds the text.
fn holds_text(list: &Vec<String>, name: &String) -> (r: bool)
    ensures
        r == texts(list@).contains(name@),
{
    let mut i: usize = 0;
    while i < list.len()
        invariant
            i <= list.len(),
            forall|j: int| 0 <= j < i ==> (#[trigger] texts(list@)[j]) != name@,
        decreases list.len() - i,
    {
        if list[i] == *name {
            assert(texts(list@)[i as int] == name@);
            return true;
        }
        i += 1;
    }
    false
}

/// Whether a value was entered for the variable.
fn holds_value(values: &Vec<(String, String)>, name: &String) -> (r: bool)
    ensures
        r == has_value(values@, name@),
{
    let mut i: usize = 0;
    while i < values.len()
        invariant
            i <= values.len(),
            forall|j: int| 0 <= j < i ==> (#[trigger] values@[j]).0@ != name@,
        decreases values.len() - i,
    {
        if values[i].0 == *name {
            return true;
        }
        i += 1;
    }
    false
}

/// The text without its last character.
fn without_last(s: &String) -> (r: String)
    ensures
        r@ == if s@.len() > 0 {
            s@.drop_last()
        } else {
            s@
        },
{
    let v = to_chars(s.as_str());
    if v.len() == 0 {
        let r = String::new();
        assert(r@ =~= s@);
        r
    } else {
        string_from(&v, 0, v.len() - 1)
    }
}

/// What the application does at a tick of the installing view.
#[derive(Clone, Copy, Debug, PartialEq, Eq, Structural)]
pub enum TickAction {
    /// Work on the first entry of the queue.
    ProcessStep,
    /// Start the refresh of the collections in the background.
    StartRefresh,
    /// Look whether the refresh has ended.
    PollRefresh,
    /// Wait for the user.
    Idle,
}

impl App {
    /// The queue entries for what is selected in the current tab.
    pub open spec fn selection(self, action: Action) -> Seq<QueueEntry> {
        match self.tab.kind() {
            Some(k) => selected_components(self.components@, k, action),
            None => if self.tab == Tab::McpServers {
                selected_servers(self.mcp_servers@, action)
            } else {
                selected_plugins(self.plugins@, action)
            },
        }
    }

    /// The queue entries for what is selected in the current tab.
    pub fn selection_queue(&self, action: Action) -> (r: Vec<QueueEntry>)
        ensures
            r@ == self.selection(action),
    {
        let mut out: Vec<QueueEntry> = Vec::new();
        match self.tab.component_type() {
            Some(k) => {
                let mut i: usize = 0;
                assert(self.components@.subrange(0, 0) =~= Seq::<Component>::empty());
                while i < self.components.len()
                    invariant
                        i <= self.components.len(),
                        out@ == selected_components(
                            self.components@.subrange(0, i as int),
                            k,
                            action,
                        ),
                    decreases self.components.len() - i,
                {
                    let ghost next = self.components@.subrange(0, i + 1);
                    assert(next.drop_last() =~= self.components@.subrange(0, i as int));
                    assert(next.last() == self.components@[i as int]);
                    if self.components[i].component_type == k && self.components[i].selected {
                        out.push(QueueEntry { target: Target::Component(i), action });
                    }
                    i += 1;
                }
                assert(self.components@.subrange(0, self.components@.len() as int)
                    =~= self.components@);
            },
            None => match self.tab {
                Tab::McpServers => {
                    let mut i: usize = 0;
                    assert(self.mcp_servers@.subrange(0, 0) =~= Seq::<McpServer>::empty());
                    while i < self.mcp_servers.len()
                        invariant
                            i <= self.mcp_servers.len(),
                            out@ == selected_servers(
                                self.mcp_servers@.subrange(0, i as int),
                                action,
                            ),
                        decreases self.mcp_servers.len() - i,
                    {
                        let ghost next = self.mcp_servers@.subrange(0, i + 1);
                        assert(next.drop_last() =~= self.mcp_servers@.subrange(0, i as int));
                        assert(next.last() == self.mcp_servers@[i as int]);
                        if self.mcp_servers[i].selected {
                            out.push(QueueEntry { target: Target::Mcp(i), action });
                        }
                        i += 1;
                    }
                    assert(self.mcp_servers@.subrange(0, self.mcp_servers@.len() as int)
                        =~= self.mcp_servers@);
                },
                _ => {
                    let mut i: usize = 0;
                    assert(self.plugins@.subrange(0, 0) =~= Seq::<Plugin>::empty());
                    while i < self.plugins.len()
                        invariant
                            i <= self.plugins.len(),
                            out@ == selected_plugins(self.plugins@.subrange(0, i as int), action),
                        decreases self.plugins.len() - i,
                    {
                        let ghost next = self.plugins@.subrange(0, i + 1);
                        assert(next.drop_last() =~= self.plugins@.subrange(0, i as int));
                        assert(next.last() == self.plugins@[i as int]);
                        if self.plugins[i].selected {
                            out.push(QueueEntry { target: Target::Plugin(i), action });
                        }
                        i += 1;
                    }
                    assert(self.plugins@.subrange(0, self.plugins@.len() as int)
                        =~= self.plugins@);
                },
            },
        }
        out
    }

    /// The state in which the queue is worked on.
    pub open spec fn processing(self, queue: Vec<QueueEntry>, action: Action, log: Vec<String>)
        -> App {
        App {
            current_view: Screen::Installing,
            processing_queue: queue,
            processing_log: log,
            processing_progress: 0,
            processing_total: queue@.len() as usize,
            processing_complete: false,
            needs_refresh: false,
            refreshing: false,
            is_removing: action == Action::Remove,
            status_message: None,
            ..self
        }
    }

    /// Starts to work on a queue: enters the installing view with an empty
    /// log. With an empty queue nothing starts, and a message says so.
    pub fn begin_processing(&mut self, queue: Vec<QueueEntry>, action: Action)
        ensures
            begun(*old(self), *final(self), queue@, action),
    {
        if queue.len() == 0 {
            self.status_message = Some("No items selected".to_owned());
        } else {
            self.current_view = Screen::Installing;
            self.processing_total = queue.len();
            self.processing_queue = queue;
            self.processing_log = Vec::new();
            self.processing_progress = 0;
            self.processing_complete = false;
            self.needs_refresh = false;
            self.refreshing = false;
            self.is_removing = action == Action::Remove;
            self.status_message = None;
        }
    }

    /// The first entry of the queue: the work that the next step is about,
    /// while the installing view is current.
    pub fn next_step(&self) -> (r: Option<QueueEntry>)
        ensures
            r == if self.current_view == Screen::Installing && self.processing_queue@.len() > 0 {
                Some(self.processing_queue@[0])
            } else {
                None
            },
    {
        if self.current_view == Screen::Installing && self.processing_queue.len() > 0 {
            Some(self.processing_queue[0])
        } else {
            None
        }
    }

    /// Takes the first entry off the queue once its work has ended: the log
    /// gets one line, the progress counts one more, and after the last entry
    /// a refresh is asked for. Nothing changes while the queue is empty.
    pub fn finish_step(&mut self, outcome: &StepOutcome)
        ensures
            old(self).processing_queue@.len() == 0 ==> *final(self) == *old(self),
            old(self).processing_queue@.len() > 0 ==> {
                &&& *final(self) == (App {
                    processing_queue: final(self).processing_queue,
                    processing_log: final(self).processing_log,
                    processing_progress: final(self).processing_progress,
                    needs_refresh: final(self).needs_refresh,
                    ..*old(self)
                })
                &&& final(self).processing_queue@ == old(self).processing_queue@.drop_first()
                &&& final(self).processing_log@.len() > 0
                &&& final(self).processing_log@.drop_last() == kept_lines(
                    old(self).processing_log@,
                )
                &&& final(self).processing_log@.last()@ == outcome.line()
                &&& final(self).processing_progress == if old(self).processing_progress
                    < usize::MAX {
                    (old(self).processing_progress + 1) as usize
                } else {
                    old(self).processing_progress
                }
                &&& final(self).needs_refresh == (old(self).needs_refresh || old(
                    self,
                ).processing_queue@.len() == 1)
            },
    {
        if self.processing_queue.len() == 0 {
            return ;
        }
        let ghost before = self.processing_log@;
        let line = outcome.log_text();
        self.processing_queue.remove(0);
        if self.processing_log.len() >= MAX_LOG_LINES {
            self.processing_log.remove(0);
        }
        self.processing_log.push(line);
        assert(self.processing_log@.drop_last() =~= kept_lines(before));
        if self.processing_progress < usize::MAX {
            self.processing_progress = self.processing_progress + 1;
        }
        if self.processing_queue.len() == 0 {
            self.needs_refresh = true;
        }
    }

    /// What to do at a tick of the installing view: work while the queue has
    /// entries; then start the refresh that was asked for; then wait for it;
    /// then wait for the user.
    pub fn installing_action(&self) -> (r: TickAction)
        ensures
            r == if self.processing_queue@.len() > 0 {
                TickAction::ProcessStep
            } else if self.needs_refresh && !self.refreshing {
                TickAction::StartRefresh
            } else if self.refreshing {
                TickAction::PollRefresh
            } else {
                TickAction::Idle
            },
    {
        if self.processing_queue.len() > 0 {
            TickAction::ProcessStep
        } else if self.needs_refresh && !self.refreshing {
            TickAction::StartRefresh
        } else if self.refreshing {
            TickAction::PollRefresh
        } else {
            TickAction::Idle
        }
    }

    /// Notes that the refresh runs in the background.
    pub fn start_refresh(&mut self)
        ensures
            *final(self) == (App { refreshing: true, ..*old(self) }),
    {
        self.refreshing = true;
    }

    /// Takes over the collections that the refresh found, all at once, and
    /// ends the processing. The cursors move back onto the lists where they
    /// had been beyond their ends.
    pub fn apply_refresh_result(
        &mut self,
        components: Vec<Component>,
        mcp_servers: Vec<McpServer>,
        plugins: Vec<Plugin>,
    )
        ensures
            *final(self) == (App {
                components,
                mcp_servers,
                plugins,
                list_index: 0,
                mcp_index: if old(self).mcp_index < mcp_servers@.len() {
                    old(self).mcp_index
                } else {
                    0
                },
                plugin_index: if old(self).plugin_index < plugins@.len() {
                    old(self).plugin_index
                } else {
                    0
                },
                needs_refresh: false,
                refreshing: false,
                processing_complete: true,
                ..*old(self)
            }),
    {
        if self.mcp_index >= mcp_servers.len() {
            self.mcp_index = 0;
        }
        if self.plugin_index >= plugins.len() {
            self.plugin_index = 0;
        }
        self.list_index = 0;
        self.components = components;
        self.mcp_servers = mcp_servers;
        self.plugins = plugins;
        self.needs_refresh = false;
        self.refreshing = false;
        self.processing_complete = true;
    }

    /// Notes that the refresh failed: the log gets one line with the reason,
    /// and the processing ends so that the user is not kept waiting.
    pub fn refresh_failed(&mut self, reason: &str)
        ensures
            *final(self) == (App {
                processing_log: final(self).processing_log,
                needs_refresh: false,
                refreshing: false,
                processing_complete: true,
                ..*old(self)
            }),
            final(self).processing_log@.len() > 0,
            final(self).processing_log@.drop_last() == kept_lines(old(self).processing_log@),
            final(self).processing_log@.last()@ == "[ERROR] Refresh failed: "@ + reason@,
    {
        let ghost before = self.processing_log@;
        let line = concat("[ERROR] Refresh failed: ", reason);
        if self.processing_log.len() >= MAX_LOG_LINES {
            self.processing_log.remove(0);
        }
        self.processing_log.push(line);
        assert(self.processing_log@.drop_last() =~= kept_lines(before));
        self.needs_refresh = false;
        self.refreshing = false;
        self.processing_complete = true;
    }

    /// Leaves the installing view for the list, once the queue is empty; a
    /// request to close is not heard while entries are pending.
    pub fn close_processing(&mut self)
        ensures
            processing_closed(*old(self), *final(self)),
    {
        if self.processing_queue.len() == 0 {
            self.current_view = Screen::List;
            self.processing_complete = false;
        }
    }

    /// Advances the animation by one frame.
    pub fn tick(&mut self)
        ensures
            *final(self) == (App {
                animation_frame: if old(self).animation_frame < usize::MAX {
                    (old(self).animation_frame + 1) as usize
                } else {
                    0
                },
                ..*old(self)
            }),
    {
        if self.animation_frame < usize::MAX {
            self.animation_frame = self.animation_frame + 1;
        } else {
            self.animation_frame = 0;
        }
    }
}


impl App {
    /// The variables that the selected servers need and that have no value
    /// yet.
    pub fn missing_env(&self) -> (r: Vec<String>)
        ensures
            texts(r@) == missing_names(self.mcp_servers@, self.env_values@),
    {
        let mut out: Vec<String> = Vec::new();
        let mut i: usize = 0;
        assert(self.mcp_servers@.subrange(0, 0) =~= Seq::<McpServer>::empty());
        assert(texts(out@) =~= Seq::<Seq<char>>::empty());
        while i < self.mcp_servers.len()
            invariant
                i <= self.mcp_servers.len(),
                texts(out@) == missing_names(
                    self.mcp_servers@.subrange(0, i as int),
                    self.env_values@,
                ),
            decreases self.mcp_servers.len() - i,
        {
            let ghost next = self.mcp_servers@.subrange(0, i + 1);
            assert(next.drop_last() =~= self.mcp_servers@.subrange(0, i as int));
            assert(next.last() == self.mcp_servers@[i as int]);
            if self.mcp_servers[i].selected {
                let ghost start = texts(out@);
                let names = &self.mcp_servers[i].def.env;
                let mut j: usize = 0;
                assert(names@.subrange(0, 0) =~= Seq::<String>::empty());
                while j < names.len()
                    invariant
                        j <= names.len(),
                        texts(out@) == add_missing(
                            start,
                            names@.subrange(0, j as int),
                            self.env_values@,
                        ),
                    decreases names.len() - j,
                {
                    let ghost more = names@.subrange(0, j + 1);
                    assert(more.drop_last() =~= names@.subrange(0, j as int));
                    assert(more.last() == names@[j as int]);
                    if !holds_value(&self.env_values, &names[j]) && !holds_text(&out, &names[j]) {
                        let ghost before = out@;
                        out.push(names[j].clone());
                        assert(texts(out@) =~= texts(before).push(names@[j as int]@));
                    }
                    j += 1;
                }
                assert(names@.subrange(0, names@.len() as int) =~= names@);
            }
            i += 1;
        }
        assert(self.mcp_servers@.subrange(0, self.mcp_servers@.len() as int)
            =~= self.mcp_servers@);
        out
    }

    /// Asks to install what is selected in the current tab.
    pub fn install_selected(&mut self)
        ensures
            install_requested(*old(self), *final(self)),
    {
        match self.tab {
            Tab::McpServers => {
                if self.mcp_scope == McpScope::Local && self.project_path.is_none() {
                    self.current_view = Screen::ProjectPath;
                    self.project_path_buffer = String::new();
                    return ;
                }
                let missing = self.missing_env();
                if missing.len() > 0 {
                    self.current_view = Screen::EnvInput;
                    self.env_pending = missing;
                    self.env_buffer = String::new();
                    return ;
                }
            },
            _ => {},
        }
        let queue = self.selection_queue(Action::Install);
        self.begin_processing(queue, Action::Install);
    }

    /// Asks to remove what is selected in the current tab.
    pub fn remove_selected(&mut self)
        ensures
            begun(*old(self), *final(self), old(self).selection(Action::Remove), Action::Remove),
    {
        let queue = self.selection_queue(Action::Remove);
        self.begin_processing(queue, Action::Remove);
    }

    /// Switches the scope in which MCP servers are registered.
    pub fn toggle_mcp_scope(&mut self)
        ensures
            scope_switched(*old(self), *final(self)),
    {
        self.mcp_scope = self.mcp_scope.toggled();
    }

    /// Adds a character to the project path that is being entered.
    pub fn project_path_char(&mut self, c: char)
        ensures
            path_extended(*old(self), *final(self), c),
    {
        push_char(&mut self.project_path_buffer, c);
    }

    /// Takes the last character off the project path that is being entered.
    pub fn project_path_backspace(&mut self)
        ensures
            path_shortened(*old(self), *final(self)),
    {
        self.project_path_buffer = without_last(&self.project_path_buffer);
    }

    /// Gives up entering a project path: back to the list, with the scope of
    /// the user.
    pub fn project_path_cancel(&mut self)
        ensures
            path_cancelled(*old(self), *final(self)),
    {
        self.current_view = Screen::List;
        self.mcp_scope = McpScope::User;
        self.project_path_buffer = String::new();
    }

    /// Takes the path that was entered as the project path and goes on with
    /// the installation that asked for it. An empty path is not taken.
    pub fn project_path_submit(&mut self)
        ensures
            path_submitted(*old(self), *final(self)),
    {
        if self.project_path_buffer.as_str().unicode_len() == 0 {
            return ;
        }
        let path = self.project_path_buffer.clone();
        self.project_path = Some(path);
        self.current_view = Screen::List;
        self.install_selected();
    }

    /// Adds a character to the value that is being entered.
    pub fn env_input_char(&mut self, c: char)
        ensures
            env_extended(*old(self), *final(self), c),
    {
        push_char(&mut self.env_buffer, c);
    }

    /// Takes the last character off the value that is being entered.
    pub fn env_input_backspace(&mut self)
        ensures
            env_shortened(*old(self), *final(self)),
    {
        self.env_buffer = without_last(&self.env_buffer);
    }

    /// Gives up entering values: back to the list, with nothing asked for.
    pub fn env_input_cancel(&mut self)
        ensures
            env_cancelled(*old(self), *final(self)),
    {
        self.current_view = Screen::List;
        self.env_pending = Vec::new();
        self.env_buffer = String::new();
    }

    /// Takes the value that was entered for the variable that is asked for,
    /// and asks for the next; after the last, the installation that asked
    /// for the values goes on. Nothing changes while nothing is asked for.
    pub fn env_input_submit(&mut self)
        ensures
            env_submitted(*old(self), *final(self)),
    {
        if self.env_pending.len() == 0 {
            return ;
        }
        let ghost values = self.env_values@;
        let name = self.env_pending.remove(0);
        let value = self.env_buffer.clone();
        self.env_values.push((name, value));
        assert(self.env_values@.drop_last() =~= values);
        self.env_buffer = String::new();
        if self.env_pending.len() == 0 {
            let queue = self.selection_queue(Action::Install);
            self.begin_processing(queue, Action::Install);
        }
    }

    /// Shows the differences of the component under the cursor, from the
    /// top; nothing changes where the cursor is on no component.
    pub fn show_diff(&mut self, content: String)
        ensures
            old(self).cursor_component() is None ==> *final(self) == *old(self),
            old(self).cursor_component() is Some ==> *final(self) == (App {
                current_view: Screen::Diff,
                diff_content: Some(content),
                diff_scroll: 0,
                ..*old(self)
            }),
    {
        if self.selected_component_index().is_some() {
            self.current_view = Screen::Diff;
            self.diff_content = Some(content);
            self.diff_scroll = 0;
        }
    }

    /// Leaves the differences for the list.
    pub fn close_diff(&mut self)
        ensures
            diff_closed(*old(self), *final(self)),
    {
        self.current_view = Screen::List;
        self.diff_content = None;
        self.diff_scroll = 0;
    }

    /// Scrolls the differences one line down.
    pub fn scroll_diff_down(&mut self)
        ensures
            diff_lowered(*old(self), *final(self)),
    {
        if self.diff_scroll < u16::MAX {
            self.diff_scroll = self.diff_scroll + 1;
        }
    }

    /// Scrolls the differences one line up.
    pub fn scroll_diff_up(&mut self)
        ensures
            diff_raised(*old(self), *final(self)),
    {
        if self.diff_scroll > 0 {
            self.diff_scroll = self.diff_scroll - 1;
        }
    }

    /// Makes the output style under the cursor the default, and gives its
    /// name: the component's name without a final `.md`. Nothing happens on
    /// another tab or where the cursor is on no component.
    pub fn set_default_style(&mut self) -> (r: Option<String>)
        ensures
            match r {
                Some(n) => {
                    &&& old(self).tab == Tab::OutputStyles
                    &&& old(self).cursor_component() matches Some(i)
                    &&& n@ == without_md(old(self).components@[i].name@)
                    &&& *final(self) == (App {
                        current_output_style: final(self).current_output_style,
                        ..*old(self)
                    })
                    &&& final(self).current_output_style matches Some(m)
                    &&& m@ == n@
                },
                None => {
                    &&& *final(self) == *old(self)
                    &&& old(self).tab != Tab::OutputStyles || old(self).cursor_component() is None
                },
            },
    {
        match self.tab {
            Tab::OutputStyles => match self.selected_component_index() {
                Some(i) => {
                    let name = &self.components[i].name;
                    let style = if has_suffix(name.as_str(), ".md") {
                        let v = to_chars(name.as_str());
                        proof {
                            reveal_strlit(".md");
                        }
                        string_from(&v, 0, v.len() - 3)
                    } else {
                        name.clone()
                    };
                    self.current_output_style = Some(style.clone());
                    Some(style)
                },
                None => None,
            },
            _ => None,
        }
    }

    /// Makes the status-line script under the cursor the default, and gives
    /// its name. Nothing happens on another tab or where the cursor is on no
    /// component.
    pub fn set_statusline(&mut self) -> (r: Option<String>)
        ensures
            match r {
                Some(n) => {
                    &&& old(self).tab == Tab::Statusline
                    &&& old(self).cursor_component() matches Some(i)
                    &&& n@ == old(self).components@[i].name@
                    &&& *final(self) == (App {
                        current_statusline: final(self).current_statusline,
                        ..*old(self)
                    })
                    &&& final(self).current_statusline matches Some(m)
                    &&& m@ == n@
                },
                None => {
                    &&& *final(self) == *old(self)
                    &&& old(self).tab != Tab::Statusline || old(self).cursor_component() is None
                },
            },
    {
        match self.tab {
            Tab::Statusline => match self.selected_component_index() {
                Some(i) => {
                    let name = self.components[i].name.clone();
                    self.current_statusline = Some(name.clone());
                    Some(name)
                },
                None => None,
            },
            _ => None,
        }
    }
}


/// Setting the selection of a tab changes no component of another kind, and
/// gives every component of the tab's kind the same selection.
pub proof fn lemma_selection_stays_in_tab(
    components: Seq<Component>,
    kind: ComponentType,
    on: bool,
    i: int,
)
    requires
        0 <= i < components.len(),
    ensures
        components_selected(components, kind, on).len() == components.len(),
        components[i].component_type != kind ==> components_selected(components, kind, on)[i]
            == components[i],
        components[i].component_type == kind ==> components_selected(components, kind, on)[i]
            == (Component { selected: on, ..components[i] }),
{
}

/// The queue that a request makes of the components holds the selected
/// components of the tab's kind, each once, in their order, and nothing else.
pub proof fn lemma_selected_components(cs: Seq<Component>, kind: ComponentType, action: Action)
    requires
        cs.len() <= usize::MAX,
    ensures
        forall|k: int|
            0 <= k < selected_components(cs, kind, action).len() ==> {
                &&& (#[trigger] selected_components(cs, kind, action)[k]).action == action
                &&& selected_components(cs, kind, action)[k].target matches Target::Component(i)
                &&& i < cs.len()
                &&& cs[i as int].component_type == kind
                &&& cs[i as int].selected
            },
        forall|a: int, b: int|
            0 <= a < b < selected_components(cs, kind, action).len() ==> queue_position(
                #[trigger] selected_components(cs, kind, action)[a],
            ) < queue_position(#[trigger] selected_components(cs, kind, action)[b]),
        forall|i: int|
            0 <= i < cs.len() && (#[trigger] cs[i]).component_type == kind && cs[i].selected
                ==> selected_components(cs, kind, action).contains(
                QueueEntry { target: Target::Component(i as usize), action },
            ),
    decreases cs.len(),
{
    if cs.len() > 0 {
        let init = cs.drop_last();
        lemma_selected_components(init, kind, action);
        let before = selected_components(init, kind, action);
        let after = selected_components(cs, kind, action);
        assert forall|k: int| 0 <= k < after.len() implies {
            &&& (#[trigger] after[k]).action == action
            &&& after[k].target matches Target::Component(i)
            &&& i < cs.len()
            &&& cs[i as int].component_type == kind
            &&& cs[i as int].selected
        } by {
            if k < before.len() {
                assert(after[k] == before[k]);
                let i = before[k].target->Component_0;
                assert(cs[i as int] == init[i as int]);
            }
        }
        assert forall|a: int, b: int| 0 <= a < b < after.len() implies queue_position(
            #[trigger] after[a],
        ) < queue_position(#[trigger] after[b]) by {
            assert(after[a] == before[a]);
            if b < before.len() {
                assert(after[b] == before[b]);
            }
        }
        assert forall|i: int|
            0 <= i < cs.len() && (#[trigger] cs[i]).component_type == kind
                && cs[i].selected implies after.contains(
            QueueEntry { target: Target::Component(i as usize), action },
        ) by {
            let e = QueueEntry { target: Target::Component(i as usize), action };
            if i < init.len() {
                assert(init[i] == cs[i]);
                assert(before.contains(e));
                let k = choose|k: int| 0 <= k < before.len() && before[k] == e;
                assert(after[k] == e);
            } else {
                assert(after[after.len() - 1] == e);
            }
        }
    }
}

/// The position that a queue entry works on.
pub open spec fn queue_position(e: QueueEntry) -> int {
    match e.target {
        Target::Component(i) => i as int,
        Target::Mcp(i) => i as int,
        Target::Plugin(i) => i as int,
    }
}

/// A request to install servers in local scope, while no project path is
/// set, shows the view that asks for the path and queues nothing.
pub proof fn lemma_local_scope_asks_for_path(before: App, after: App)
    requires
        install_requested(before, after),
        before.tab == Tab::McpServers,
        before.mcp_scope == McpScope::Local,
        before.project_path is None,
    ensures
        after.current_view == Screen::ProjectPath,
        after.processing_queue == before.processing_queue,
        after.mcp_servers == before.mcp_servers,
{
}

/// While entries are pending, a request to close the installing view
/// changes nothing.
pub proof fn lemma_pending_work_is_not_interrupted(before: App, after: App)
    requires
        processing_closed(before, after),
        before.processing_queue@.len() > 0,
    ensures
        after == before,
{
}

} // verus!
