//! How values of the program stand for what the laws speak of, and what lies
//! below what.
use vstd::prelude::*;

use crate::bson_ext;
use crate::bson_ext::BsonView;
use crate::db_node;
use crate::db_node::{DbNode, NodeView};
use crate::document_table;
use crate::document_table::{ChangeView, TableView};
use crate::dump_target::SqlDumpTarget;
use crate::mfa;
use crate::mfa::{TerminalMfaPrompt, TerminalMfaRequest, TerminalMfaResponder};
use crate::mongo_connection;
use crate::mongo_connection::{ConnectAction, ConnectView, FindStep, FindStepView};
use crate::node_store;
use crate::panel_laws;
use crate::places;
use crate::query_input::{InputError, InputErrorView, QueryLabels, QueryTexts};
use crate::schema::DocumentItem;
use crate::ssh_auth;
use crate::ssh_auth::{KeyboardInteractivePrompt, KeyboardInteractiveRequest};
use crate::ssh_connect;
use crate::ssh_connect::{ConnectStep, StepView};
use crate::terminal_types::{
    ConnectionState, EffectView, ModelEventView, StateView, TerminalEffect, TerminalModelEvent,
};
use crate::text;
use crate::tree;
use crate::tree::FlatDbEntry;
use crate::tree_events;
use crate::tree_events::TreeUpdate;
use crate::tree_menu;
use crate::tree_menu::{EntryView, MenuEntry};
use crate::tree_model::FlatView;
use crate::tree_row_laws;
use crate::tree_types;
use crate::tree_types::{DatabaseListDelegate, DatabaseSelection, StoredConnection, TreeAction};

verus! {

// ---------------------------------------------------------------------------
// What lies below what
// ---------------------------------------------------------------------------

/// A child lies below its parent, and what lies below the child lies below the
/// parent too.
pub proof fn law_children_are_below(
    nodes: Seq<NodeView>,
    a: Seq<char>,
    n: NodeView,
    b: Seq<char>,
    c: Seq<char>,
)
    requires
        node_store::find(nodes, a) == Some(n),
        tree_row_laws::has_child(n, b),
    ensures
        node_store::descends(nodes, a, b),
        node_store::descends(nodes, b, c) ==> node_store::descends(nodes, a, c),
{
    lemma_child_of(nodes, a, n, b);
    node_store::lemma_child_below(nodes, a, b);
    if node_store::descends(nodes, b, c) {
        assert(node_store::below(nodes, b).contains(c));
    }
}

proof fn lemma_child_of(nodes: Seq<NodeView>, a: Seq<char>, n: NodeView, b: Seq<char>)
    requires
        node_store::find(nodes, a) == Some(n),
    ensures
        node_store::child_of(nodes, a, b) == tree_row_laws::has_child(n, b),
{
    let ids = db_node::ids(n.children);
    if tree_row_laws::has_child(n, b) {
        let j = choose|j: int| 0 <= j < n.children.len() && (#[trigger] n.children[j]).id == b;
        assert(ids[j] == b);
    }
    if ids.contains(b) {
        let j = choose|j: int| 0 <= j < ids.len() && ids[j] == b;
        assert(n.children[j].id == b);
    }
}

/// Nothing else lies below a node: what does is a child of it, or a child of
/// something below it.
pub proof fn law_only_children_are_below(nodes: Seq<NodeView>, a: Seq<char>, c: Seq<char>)
    requires
        node_store::descends(nodes, a, c),
    ensures
        ({
            ||| node_store::find(nodes, a) matches Some(n) && tree_row_laws::has_child(n, c)
            ||| exists|b: Seq<char>|
                node_store::descends(nodes, a, b) && (#[trigger] node_store::find(
                    nodes,
                    b,
                ) matches Some(n) && tree_row_laws::has_child(n, c))
        }),
{
    let path = choose|path: Seq<Seq<char>>|
        #![trigger node_store::is_path(nodes, path)]
        path.len() >= 2 && path[0] == a && path.last() == c && node_store::is_path(nodes, path);
    let k = path.len() - 2;
    let b = path[k];
    assert(node_store::child_of(nodes, path[k], path[k + 1]));
    lemma_child_of(nodes, b, node_store::find(nodes, b)->0, c);
    if k > 0 {
        let up = path.drop_last();
        assert forall|i: int| 0 <= i < up.len() - 1 implies node_store::child_of(
            nodes,
            #[trigger] up[i],
            up[i + 1],
        ) by {
            assert(up[i] == path[i] && up[i + 1] == path[i + 1]);
            assert(node_store::child_of(nodes, path[i], path[i + 1]));
        }
        assert(node_store::is_path(nodes, up));
        assert(up.last() == b);
        assert(node_store::descends(nodes, a, b));
        assert(node_store::find(nodes, b) is Some);
    }
}

/// In a tree nothing lies below itself.
pub proof fn law_tree_has_no_circle(nodes: Seq<NodeView>, a: Seq<char>)
    requires
        node_store::acyclic(nodes),
    ensures
        !node_store::descends(nodes, a, a),
{
}

// ---------------------------------------------------------------------------
// The table and the server
// ---------------------------------------------------------------------------

/// A column is counted from the left: that of a name is the first that bears
/// it.
pub proof fn law_column_index(columns: Seq<Seq<char>>, name: Seq<char>, i: int)
    requires
        0 <= i < columns.len(),
        columns[i] == name,
        forall|j: int| 0 <= j < i ==> #[trigger] columns[j] != name,
    ensures
        document_table::column_index(columns, name) == i,
    decreases columns.len(),
{
    if i > 0 {
        let rest = columns.drop_first();
        assert(columns[0] != name);
        assert forall|j: int| 0 <= j < i - 1 implies #[trigger] rest[j] != name by {
            assert(rest[j] == columns[j + 1]);
        }
        assert(rest[i - 1] == columns[i]);
        law_column_index(rest, name, i - 1);
    }
}

/// An edit that makes a value another one is noted with both, and its cell is
/// marked; one that makes it what it was is noted no longer. All other edits and
/// marks stay.
pub proof fn law_edit_is_noted(
    t: TableView,
    row: usize,
    col: usize,
    input: Seq<char>,
    old_value: BsonView,
    new_value: BsonView,
    other_row: usize,
    other: Seq<char>,
    other_cell: (usize, usize),
)
    requires
        col < t.columns.len(),
        forall|j: int| 0 <= j < col ==> #[trigger] t.columns[j] != t.columns[col as int],
        t.edit_answer(row, t.columns[col as int], input) == Ok::<bool, Seq<char>>(true),
        t.original(row, t.columns[col as int]) == Some(old_value),
        document_table::parsed_edit(Some(old_value), input) == Ok::<BsonView, Seq<char>>(new_value),
        other_row != row || other != t.columns[col as int],
        other_cell != (row, col),
    ensures
        ({
            let field = t.columns[col as int];
            let u = t.edited(row, field, input);
            let same = bson_ext::same_value(old_value, new_value);
            &&& !same ==> document_table::change_at(u.changes, row, field) == Some(
                ChangeView { row, field, old_value, new_value },
            ) && u.modified.contains((row, col))
            &&& same ==> document_table::change_at(u.changes, row, field) is None
                && !u.modified.contains((row, col))
            &&& document_table::change_at(u.changes, other_row, other) == document_table::change_at(
                t.changes,
                other_row,
                other,
            )
            &&& u.modified.contains(other_cell) == t.modified.contains(other_cell)
        }),
{
    let field = t.columns[col as int];
    law_column_index(t.columns, field, col as int);
    let c = ChangeView { row, field, old_value, new_value };
    panel_laws::law_change_put(t.changes, c, other_row, other);
    panel_laws::law_change_dropped(t.changes, row, field, other_row, other);
}

/// Edits are ordered by their rows, and within a row by their fields.
pub proof fn law_edit_order(row: usize, field: Seq<char>, c: ChangeView)
    ensures
        row < c.row ==> document_table::stands_before(row, field, c),
        row > c.row ==> !document_table::stands_before(row, field, c),
        row == c.row ==> document_table::stands_before(row, field, c) == db_node::precedes(
            field,
            c.field,
        ),
{
}

/// An index is made with its keys, and with its name where it has one.
pub proof fn law_index_fields(keys: Seq<(Seq<char>, BsonView)>, name: Seq<char>)
    ensures
        mongo_connection::index_fields(keys, Some(name)) == seq![
            ("key"@, BsonView::Document(keys)),
            ("name"@, BsonView::Text(name)),
        ],
        mongo_connection::index_fields(keys, None) == seq![("key"@, BsonView::Document(keys))],
{
}

/// The length of a text is that of its bytes in UTF-8.
pub proof fn law_byte_len(s: Seq<char>)
    ensures
        text::byte_len(s) == vstd::utf8::encode_utf8(s).len(),
{
}

/// The keys of a user are looked for under their usual names in the directory
/// `.ssh` of the home directory, in this order.
pub proof fn law_key_places(home: Seq<char>, found: Seq<Seq<char>>)
    requires
        ssh_auth::are_key_places(Some(home), found),
    ensures
        found.len() == 4,
        exists|dir: Seq<char>| #[trigger]
            places::is_path_in(home, ".ssh"@, dir) && places::is_path_in(
                dir,
                "id_ed25519"@,
                found[0],
            ) && places::is_path_in(dir, "id_rsa"@, found[1]) && places::is_path_in(
                dir,
                "id_ecdsa"@,
                found[2],
            ) && places::is_path_in(dir, "id_dsa"@, found[3]),
{
    let dir = choose|dir: Seq<char>|
        places::is_path_in(home, ".ssh"@, dir) && #[trigger] ssh_auth::are_keys_in(dir, found);
    assert(places::is_path_in(dir, ssh_auth::default_key_files()[0], found[0]));
    assert(places::is_path_in(dir, ssh_auth::default_key_files()[1], found[1]));
    assert(places::is_path_in(dir, ssh_auth::default_key_files()[2], found[2]));
    assert(places::is_path_in(dir, ssh_auth::default_key_files()[3], found[3]));
}

// ---------------------------------------------------------------------------
// Lists
// ---------------------------------------------------------------------------

/// The lists of the tree stand for their parts, in their order.
pub proof fn law_tree_lists(
    actions: Seq<TreeAction>,
    updates: Seq<TreeUpdate>,
    entries: Seq<MenuEntry>,
    rows: Seq<FlatDbEntry>,
    connections: Seq<StoredConnection>,
    i: int,
)
    ensures
        tree_types::actions(actions).len() == actions.len(),
        0 <= i < actions.len() ==> tree_types::actions(actions)[i] == actions[i].view(),
        tree_events::update_views(updates).len() == updates.len(),
        0 <= i < updates.len() ==> tree_events::update_views(updates)[i] == updates[i].view(),
        tree_menu::entry_views(entries).len() == entries.len(),
        0 <= i < entries.len() ==> tree_menu::entry_views(entries)[i] == entries[i].view(),
        tree::flat_views(rows).len() == rows.len(),
        0 <= i < rows.len() ==> tree::flat_views(rows)[i] == (FlatView {
            node_id: rows[i].node_id@,
            depth: rows[i].depth as nat,
        }),
        tree_types::connection_views(connections).len() == connections.len(),
        0 <= i < connections.len() ==> tree_types::connection_views(connections)[i]
            == connections[i].view(),
{
}

/// The lists of nodes stand for their nodes, in their order.
pub proof fn law_node_lists(
    nodes: Seq<DbNode>,
    views: Seq<NodeView>,
    pairs: Seq<(String, String)>,
    i: int,
)
    ensures
        db_node::node_views(nodes).len() == nodes.len(),
        0 <= i < nodes.len() ==> db_node::node_views(nodes)[i] == nodes[i].view(),
        tree_events::node_views(nodes) == db_node::node_views(nodes),
        db_node::ids(views).len() == views.len(),
        0 <= i < views.len() ==> db_node::ids(views)[i] == views[i].id,
        db_node::pair_views(pairs).len() == pairs.len(),
        0 <= i < pairs.len() ==> db_node::pair_views(pairs)[i] == (pairs[i].0@, pairs[i].1@),
{
    assert(tree_events::node_views(nodes) =~= db_node::node_views(nodes));
}

/// A menu entry shows its label, sends its event, and is disabled where it says
/// so; a submenu holds its entries.
pub proof fn law_entry_view(e: MenuEntry, i: int)
    ensures
        match e {
            MenuEntry::Item { label, kind, node_id, disabled } => e.view() == EntryView::Item(
                label@,
                tree_types::EventView { kind, node_id: node_id@ },
                disabled,
            ),
            MenuEntry::Separator => e.view() == EntryView::Separator,
            MenuEntry::Submenu { label, entries, disabled } => e.view() matches EntryView::Submenu(
                l,
                inner,
                d,
            ) && l == label@ && d == disabled && inner.len() == entries@.len() && (0 <= i
                < inner.len() ==> inner[i] == entries@[i].view()),
        },
{
}

/// The selection of databases and the list behind the filter are what they
/// hold.
pub proof fn law_filter_views(selection: DatabaseSelection, list: DatabaseListDelegate)
    ensures
        selection is All <==> selection@ is None,
        selection matches DatabaseSelection::Only(set) ==> selection@ == Some(set@),
        list@.connection_id == list.connection_id@,
        list@.databases == db_node::pair_views(list.databases@),
        list@.filtered == db_node::pair_views(list.filtered_databases@),
        list@.selected_index == list.selected_index,
{
}

/// The questions of a server stand for their texts and whether the answer is
/// shown, in their order.
pub proof fn law_question_lists(
    prompts: Seq<KeyboardInteractivePrompt>,
    open: Seq<TerminalMfaPrompt>,
    i: int,
)
    ensures
        ssh_auth::prompt_views(prompts).len() == prompts.len(),
        0 <= i < prompts.len() ==> ssh_auth::prompt_views(prompts)[i] == (
            prompts[i].prompt@,
            prompts[i].echo,
        ),
        mfa::mfa_prompt_views(open).len() == open.len(),
        0 <= i < open.len() ==> mfa::mfa_prompt_views(open)[i] == (open[i].prompt@, open[i].echo),
{
}

/// A request of a server, a request to the user and what answers them are what
/// they hold.
pub proof fn law_question_views(
    request: KeyboardInteractiveRequest,
    asked: TerminalMfaRequest,
    responder: TerminalMfaResponder,
)
    ensures
        request@.target == request.target,
        request@.name == request.name@,
        request@.instructions == request.instructions@,
        request@.prompts == ssh_auth::prompt_views(request.prompts@),
        asked@.name == asked.name@,
        asked@.instructions == asked.instructions@,
        asked@.prompts == mfa::mfa_prompt_views(asked.prompts@),
        responder.pending is Some <==> responder@.pending is Some,
        responder.pending matches Some(r) ==> responder@.pending == Some(r@),
        responder@.jump_password == text::opt_view(responder.jump_password),
        responder@.target_password == text::opt_view(responder.target_password),
{
}

/// The steps of a connection go where they say, in their order, and with the
/// login that they hold.
pub proof fn law_connect_steps(steps: Seq<ConnectStep>, i: int)
    ensures
        ssh_connect::step_views(steps).len() == steps.len(),
        0 <= i < steps.len() ==> {
            let v = ssh_connect::step_views(steps)[i];
            match steps[i] {
                ConnectStep::Dial { through_proxy, host, port } => v == (StepView::Dial {
                    through_proxy,
                    host: host@,
                    port,
                }),
                ConnectStep::Forward { host, port } => v == (StepView::Forward {
                    host: host@,
                    port,
                }),
                ConnectStep::Authenticate { target, username, auth } => v == (
                StepView::Authenticate { target, username: username@, auth: auth@ }),
            }
        },
{
}

/// What follows outside a terminal is what the effect holds.
pub proof fn law_terminal_effect(e: TerminalEffect)
    ensures
        match e {
            TerminalEffect::Emit(m) => e@ == EffectView::Emit(m@),
            TerminalEffect::MfaChanged => e@ == EffectView::MfaChanged,
            TerminalEffect::SetActive { connection_id, active } => e@ == (EffectView::SetActive {
                connection_id,
                active,
            }),
            TerminalEffect::ResizeSurface { cols, rows } => e@ == (EffectView::ResizeSurface {
                cols,
                rows,
            }),
            TerminalEffect::ResetSurface { cols, rows } => e@ == (EffectView::ResetSurface {
                cols,
                rows,
            }),
            TerminalEffect::ResizeBackend(size) => e@ == EffectView::ResizeBackend(size),
            TerminalEffect::Write(data) => e@ == EffectView::Write(data@),
            TerminalEffect::ShutdownBackend => e@ == EffectView::ShutdownBackend,
            TerminalEffect::DropBackend => e@ == EffectView::DropBackend,
            TerminalEffect::ShutdownArrived => e@ == EffectView::ShutdownArrived,
            TerminalEffect::CloseSession { generation } => e@ == (EffectView::CloseSession {
                generation,
            }),
            TerminalEffect::ConnectSsh { generation } => e@ == (EffectView::ConnectSsh {
                generation,
            }),
            TerminalEffect::ConnectSerial { generation } => e@ == (EffectView::ConnectSerial {
                generation,
            }),
            TerminalEffect::LoadHistory => e@ == EffectView::LoadHistory,
            TerminalEffect::RecordCommand { command, cwd } => e@ == (EffectView::RecordCommand {
                command: command@,
                cwd: text::opt_view(cwd),
            }),
            TerminalEffect::RecordExitCode(code) => e@ == EffectView::RecordExitCode(code),
        },
{
}

/// What a terminal reports, and how it is connected, is what the values hold.
pub proof fn law_terminal_reports(m: TerminalModelEvent, s: ConnectionState)
    ensures
        match m {
            TerminalModelEvent::Wakeup => m@ == ModelEventView::Wakeup,
            TerminalModelEvent::SshMfaChanged => m@ == ModelEventView::SshMfaChanged,
            TerminalModelEvent::PromptStart => m@ == ModelEventView::PromptStart,
            TerminalModelEvent::InputStart => m@ == ModelEventView::InputStart,
            TerminalModelEvent::TitleChanged(t) => m@ == ModelEventView::TitleChanged(t@),
            TerminalModelEvent::Bell => m@ == ModelEventView::Bell,
            TerminalModelEvent::ChildExit(code) => m@ == ModelEventView::ChildExit(code),
            TerminalModelEvent::ClipboardStore(t) => m@ == ModelEventView::ClipboardStore(t@),
            TerminalModelEvent::WorkingDirChanged(t) => m@ == ModelEventView::WorkingDirChanged(t@),
        },
        match s {
            ConnectionState::Connected => s@ == StateView::Connected,
            ConnectionState::Connecting => s@ == StateView::Connecting,
            ConnectionState::Disconnected { error } => s@ == (StateView::Disconnected {
                error: text::opt_view(error),
            }),
        },
{
}

/// The steps towards a database server are what they hold.
pub proof fn law_server_steps(a: ConnectAction, f: FindStep)
    ensures
        match a {
            ConnectAction::Done => a@ == ConnectView::Done,
            ConnectAction::Open { connection_string, retry } => a@ == (ConnectView::Open {
                connection_string: connection_string@,
                retry,
            }),
            ConnectAction::Keep { connection_string } => a@ == (ConnectView::Keep {
                connection_string: connection_string@,
            }),
            ConnectAction::ConnectFailed => a@ == ConnectView::ConnectFailed,
            ConnectAction::PingFailed => a@ == ConnectView::PingFailed,
        },
        match f {
            FindStep::Search { filter } => f@ == (FindStepView::Search {
                filter: bson_ext::document_view(filter),
            }),
            FindStep::List { pipeline, all_users } => f@ == (FindStepView::List {
                pipeline: bson_ext::document_views(pipeline@),
                all_users,
            }),
            FindStep::Fail => f@ == FindStepView::Fail,
        },
{
}

/// The inputs of a query, their labels and what is wrong with them are what the
/// values hold.
pub proof fn law_input_views(t: QueryTexts, labels: QueryLabels, e: InputError)
    ensures
        t@.filter == t.filter@ && t@.sort == t.sort@ && t@.projection == t.projection@,
        t@.page_size == t.page_size@ && t@.skip == t.skip@,
        labels@.filter == labels.filter@ && labels@.sort == labels.sort@ && labels@.projection
            == labels.projection@,
        labels@.page_size == labels.page_size@ && labels@.skip == labels.skip@,
        match e {
            InputError::Required { label } => e@ == (InputErrorView::Required { label: label@ }),
            InputError::MustBeJsonObject { label } => e@ == (InputErrorView::MustBeJsonObject {
                label: label@,
            }),
            InputError::ParseFailed { label, error } => e@ == (InputErrorView::ParseFailed {
                label: label@,
                error: error@,
            }),
            InputError::MustBeMinInt { label, min } => e@ == (InputErrorView::MustBeMinInt {
                label: label@,
                min,
            }),
            InputError::PipelineParseFailed { error } => e@ == (
            InputErrorView::PipelineParseFailed { error: error@ }),
            InputError::PipelineMustBeArray => e@ == InputErrorView::PipelineMustBeArray,
            InputError::PipelineItemParseFailed { index, error } => e@ == (
            InputErrorView::PipelineItemParseFailed { index: index as int, error: error@ }),
            InputError::PipelineItemMustBeObject { index } => e@ == (
            InputErrorView::PipelineItemMustBeObject { index: index as int }),
        },
{
}

/// A listed document and the target of a dump are what they hold.
pub proof fn law_item_views(item: DocumentItem, target: SqlDumpTarget)
    ensures
        item@.id == item.id@,
        item@.pretty_json == item.pretty_json@,
        item@.document == bson_ext::document_view(item.document),
        item.id_bson is Some <==> item@.id_bson is Some,
        item.id_bson matches Some(v) ==> item@.id_bson == Some(bson_ext::bson_view(v)),
        target.view().database == target.database@,
        target.view().schema == text::opt_view(target.schema),
        target.view().table == text::opt_view(target.table),
{
}

} // verus!
