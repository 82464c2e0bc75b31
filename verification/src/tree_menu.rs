//! The context menu of a tree node and the icon that a node is shown with.
use vstd::prelude::*;

use crate::db_node;
use crate::db_node::{DatabaseType, DbNode, DbNodeType};
use crate::text;
use crate::tree_model;
use crate::tree_types;
use crate::tree_types::{DbTreeViewEvent, EventKind};

verus! {

/// What choosing a menu item does.
#[derive(Debug)]
pub enum ContextMenuEvent {
    TreeEvent(DbTreeViewEvent),
    /// Something of the driver's own, which the menu does not offer.
    Custom(String),
}

/// One item that a driver offers for a node.
#[derive(Debug)]
pub enum ContextMenuItem {
    Item { label: String, event: ContextMenuEvent, requires_active: bool },
    Separator,
    Submenu { label: String, items: Vec<ContextMenuItem>, requires_active: bool },
}

/// One entry of the menu as it is shown.
#[derive(Debug)]
pub enum MenuEntry {
    Item { label: String, kind: EventKind, node_id: String, disabled: bool },
    Separator,
    Submenu { label: String, entries: Vec<MenuEntry>, disabled: bool },
}

/// The mathematical value of a menu entry.
pub ghost enum EntryView {
    Item(Seq<char>, tree_types::EventView, bool),
    Separator,
    Submenu(Seq<char>, Seq<EntryView>, bool),
}

impl MenuEntry {
    /// The mathematical value of the entry.
    pub open spec fn view(&self) -> EntryView
        decreases self,
    {
        match self {
            MenuEntry::Item { label, kind, node_id, disabled } => EntryView::Item(
                label@,
                tree_types::EventView { kind: *kind, node_id: node_id@ },
                *disabled,
            ),
            MenuEntry::Separator => EntryView::Separator,
            MenuEntry::Submenu { label, entries, disabled } => EntryView::Submenu(
                label@,
                Seq::new(
                    entries@.len(),
                    |i: int|
                        if 0 <= i < entries@.len() {
                            entries@[i].view()
                        } else {
                            arbitrary()
                        },
                ),
                *disabled,
            ),
        }
    }
}

/// The values of a list of menu entries.
pub open spec fn entry_views(v: Seq<MenuEntry>) -> Seq<EntryView> {
    Seq::new(v.len(), |i: int| v[i].view())
}

/// The entry that an item becomes: disabled where it needs an active
/// connection and there is none. Events of the driver's own are left out.
pub open spec fn entry_of(item: ContextMenuItem, is_active: bool) -> Option<EntryView>
    decreases item, 0nat,
{
    match item {
        ContextMenuItem::Item { label, event, requires_active } => match event {
            ContextMenuEvent::TreeEvent(e) => Some(
                EntryView::Item(label@, e.view(), requires_active && !is_active),
            ),
            ContextMenuEvent::Custom(_) => None,
        },
        ContextMenuItem::Separator => Some(EntryView::Separator),
        ContextMenuItem::Submenu { label, items, requires_active } => Some(
            EntryView::Submenu(
                label@,
                entries_of(items@, is_active),
                requires_active && !is_active,
            ),
        ),
    }
}

/// The entries that a list of items becomes.
pub open spec fn entries_of(items: Seq<ContextMenuItem>, is_active: bool) -> Seq<EntryView>
    decreases items, items.len(),
{
    if items.len() == 0 {
        Seq::empty()
    } else {
        let rest = entries_of(items.drop_last(), is_active);
        match entry_of(items.last(), is_active) {
            Some(e) => rest.push(e),
            None => rest,
        }
    }
}

/// The entries that a list of items becomes.
pub fn render_context_menu_items(items: &Vec<ContextMenuItem>, is_active: bool) -> (r: Vec<
    MenuEntry,
>)
    ensures
        entry_views(r@) == entries_of(items@, is_active),
    decreases items@,
{
    let mut out: Vec<MenuEntry> = Vec::new();
    let mut i: usize = 0;
    assert(items@.take(0) =~= Seq::empty());
    assert(entry_views(out@) =~= Seq::empty());
    while i < items.len()
        invariant
            i <= items@.len(),
            entry_views(out@) == entries_of(items@.take(i as int), is_active),
        decreases items@.len() - i,
    {
        let ghost before = out@;
        assert(items@.take(i as int + 1).drop_last() =~= items@.take(i as int));
        assert(items@.take(i as int + 1).last() == items@[i as int]);
        proof {
            reveal_with_fuel(entry_of, 2);
            reveal_with_fuel(entries_of, 2);
        }
        match &items[i] {
            ContextMenuItem::Item { label, event, requires_active } => {
                let disabled = *requires_active && !is_active;
                if let ContextMenuEvent::TreeEvent(e) = event {
                    let (kind, node_id) = e.parts();
                    out.push(MenuEntry::Item { label: label.clone(), kind, node_id, disabled });
                    assert(entry_views(out@) =~= entry_views(before).push(
                        EntryView::Item(label@, e.view(), disabled),
                    ));
                }
            },
            ContextMenuItem::Separator => {
                out.push(MenuEntry::Separator);
                assert(entry_views(out@) =~= entry_views(before).push(EntryView::Separator));
            },
            ContextMenuItem::Submenu { label, items: sub_items, requires_active } => {
                let disabled = *requires_active && !is_active;
                let entries = render_context_menu_items(sub_items, is_active);
                let ghost es = entry_views(entries@);
                let entry = MenuEntry::Submenu { label: label.clone(), entries, disabled };
                assert(entry.view() == EntryView::Submenu(label@, es, disabled)) by {
                    assert(entry.view()->Submenu_1 =~= es);
                }
                out.push(entry);
                assert(entry_views(out@) =~= entry_views(before).push(entry.view()));
            },
        }
        i = i + 1;
    }
    assert(items@.take(items@.len() as int) =~= items@);
    out
}

/// The number of the node's connection, by which it is looked up whether the
/// connection is in use.
pub fn connection_number(node: &DbNode) -> (r: Option<i64>)
    ensures
        match r {
            Some(number) => tree_model::connection_number(node.view().connection_id) == Some(
                number as int,
            ),
            None => tree_model::connection_number(node.view().connection_id) is None,
        },
{
    text::parse_i64(node.connection_id.as_str())
}

/// Whether items that need an active connection can be chosen for the node:
/// its connection is in use, and a database has been loaded.
pub fn is_node_active(node: &DbNode, connection_in_use: bool) -> (r: bool)
    ensures
        r == (connection_in_use && tree_model::connection_number(node.view().connection_id) is Some
            && (node.node_type == DbNodeType::Database ==> node.children_loaded)),
{
    let in_use = match connection_number(node) {
        Some(_) => connection_in_use,
        None => false,
    };
    in_use && (node.node_type != DbNodeType::Database || node.children_loaded)
}

/// The icons that nodes are shown with.
#[derive(Debug, Clone, Copy, PartialEq, Eq, Structural)]
pub enum NodeIcon {
    /// The icon of the database product.
    Product(DatabaseType),
    MySql,
    Database,
    Schema,
    FolderTables,
    FolderViews,
    FolderFunctions,
    FolderProcedures,
    FolderTriggers,
    FolderForeignKeys,
    FolderCheckConstraints,
    FolderQueries,
    FolderColumns,
    FolderIndexes,
    FolderSequences,
    Table,
    View,
    Function,
    Procedure,
    PrimaryKey,
    Column,
    Index,
    ForeignKey,
    Trigger,
    Sequence,
    CheckConstraint,
    Query,
    File,
    Loader,
}

/// The icon for a kind of node, where nothing else is known of it.
pub open spec fn kind_icon(t: DbNodeType) -> NodeIcon {
    match t {
        DbNodeType::Connection => NodeIcon::MySql,
        DbNodeType::Schema => NodeIcon::Schema,
        DbNodeType::Database => NodeIcon::Database,
        DbNodeType::Table => NodeIcon::Table,
        DbNodeType::View => NodeIcon::View,
        DbNodeType::Function => NodeIcon::Function,
        DbNodeType::Procedure => NodeIcon::Procedure,
        DbNodeType::Column => NodeIcon::Column,
        DbNodeType::Index => NodeIcon::Index,
        DbNodeType::Trigger => NodeIcon::Trigger,
        DbNodeType::Sequence => NodeIcon::Sequence,
        DbNodeType::NamedQuery => NodeIcon::Query,
        _ => NodeIcon::File,
    }
}

/// The icon for a kind of node, where nothing else is known of it.
pub fn get_icon_for_node_type(node_type: &DbNodeType) -> (r: NodeIcon)
    ensures
        r == kind_icon(*node_type),
{
    match node_type {
        DbNodeType::Connection => NodeIcon::MySql,
        DbNodeType::Schema => NodeIcon::Schema,
        DbNodeType::Database => NodeIcon::Database,
        DbNodeType::Table => NodeIcon::Table,
        DbNodeType::View => NodeIcon::View,
        DbNodeType::Function => NodeIcon::Function,
        DbNodeType::Procedure => NodeIcon::Procedure,
        DbNodeType::Column => NodeIcon::Column,
        DbNodeType::Index => NodeIcon::Index,
        DbNodeType::Trigger => NodeIcon::Trigger,
        DbNodeType::Sequence => NodeIcon::Sequence,
        DbNodeType::NamedQuery => NodeIcon::Query,
        _ => NodeIcon::File,
    }
}

/// The icon of a node: a connection has that of its product, a column of the
/// primary key is marked, and every folder has its own.
pub open spec fn node_icon(n: db_node::NodeView) -> NodeIcon {
    match n.node_type {
        DbNodeType::Connection => NodeIcon::Product(n.database_type),
        DbNodeType::TablesFolder => NodeIcon::FolderTables,
        DbNodeType::ViewsFolder => NodeIcon::FolderViews,
        DbNodeType::FunctionsFolder => NodeIcon::FolderFunctions,
        DbNodeType::ProceduresFolder => NodeIcon::FolderProcedures,
        DbNodeType::TriggersFolder => NodeIcon::FolderTriggers,
        DbNodeType::ForeignKeysFolder => NodeIcon::FolderForeignKeys,
        DbNodeType::ChecksFolder => NodeIcon::FolderCheckConstraints,
        DbNodeType::QueriesFolder => NodeIcon::FolderQueries,
        DbNodeType::ColumnsFolder => NodeIcon::FolderColumns,
        DbNodeType::IndexesFolder => NodeIcon::FolderIndexes,
        DbNodeType::SequencesFolder => NodeIcon::FolderSequences,
        DbNodeType::Column => if db_node::lookup(n.metadata, "is_primary_key"@) == Some("true"@) {
            NodeIcon::PrimaryKey
        } else {
            NodeIcon::Column
        },
        DbNodeType::ForeignKey => NodeIcon::ForeignKey,
        DbNodeType::Check => NodeIcon::CheckConstraint,
        _ => kind_icon(n.node_type),
    }
}

/// The icon of a node; that of something still loading where it is unknown.
pub fn get_icon_for_node(node: Option<&DbNode>) -> (r: NodeIcon)
    ensures
        r == match node {
            Some(n) => node_icon(n.view()),
            None => NodeIcon::Loader,
        },
{
    match node {
        Some(n) => match n.node_type {
            DbNodeType::Connection => NodeIcon::Product(n.database_type),
            DbNodeType::TablesFolder => NodeIcon::FolderTables,
            DbNodeType::ViewsFolder => NodeIcon::FolderViews,
            DbNodeType::FunctionsFolder => NodeIcon::FolderFunctions,
            DbNodeType::ProceduresFolder => NodeIcon::FolderProcedures,
            DbNodeType::TriggersFolder => NodeIcon::FolderTriggers,
            DbNodeType::ForeignKeysFolder => NodeIcon::FolderForeignKeys,
            DbNodeType::ChecksFolder => NodeIcon::FolderCheckConstraints,
            DbNodeType::QueriesFolder => NodeIcon::FolderQueries,
            DbNodeType::ColumnsFolder => NodeIcon::FolderColumns,
            DbNodeType::IndexesFolder => NodeIcon::FolderIndexes,
            DbNodeType::SequencesFolder => NodeIcon::FolderSequences,
            DbNodeType::Column => {
                let is_primary_key = match n.meta("is_primary_key") {
                    Some(v) => text::same(v.as_str(), "true"),
                    None => false,
                };
                if is_primary_key {
                    NodeIcon::PrimaryKey
                } else {
                    NodeIcon::Column
                }
            },
            DbNodeType::ForeignKey => NodeIcon::ForeignKey,
            DbNodeType::Check => NodeIcon::CheckConstraint,
            _ => get_icon_for_node_type(&n.node_type),
        },
        None => NodeIcon::Loader,
    }
}

} // verus!
