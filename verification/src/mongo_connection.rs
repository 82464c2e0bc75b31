//! How a server is reached and what it is asked: the connection string, the
//! commands as documents, and what is read out of the replies.
use vstd::prelude::*;

use mongodb::bson::{Bson, Document};

use crate::bson_ext;
use crate::bson_ext::BsonView;
use crate::mongo_types::MongoError;
use crate::query_input;
use crate::query_input::{FindPlan, PlanView};
use crate::text;

verus! {

// ---------------------------------------------------------------------------
// The connection string
// ---------------------------------------------------------------------------

/// The connection string names the database that knows the user.
pub open spec fn names_auth_source(s: Seq<char>) -> bool {
    text::occurs(text::ascii_lowered(s), "authsource="@)
}

/// The connection string has a path: a slash behind the scheme.
pub open spec fn names_path(s: Seq<char>) -> bool {
    exists|i: int, j: int|
        #[trigger] text::occurs_at(s, "://"@, i) && i + 3 <= j < s.len() && #[trigger] s[j] == '/'
}

/// The message of the server says that the user was not accepted.
pub open spec fn says_unauthenticated(message: Seq<char>) -> bool {
    text::occurs(message, "SCRAM failure"@) || text::occurs(message, "AuthenticationFailed"@)
        || text::occurs(message, "code 18"@)
}

/// What stands between the connection string and a further option.
pub open spec fn option_separator(s: Seq<char>) -> Seq<char> {
    if s.contains('?') {
        if s.last() == '?' || s.last() == '&' {
            Seq::empty()
        } else {
            "&"@
        }
    } else if names_path(s) {
        "?"@
    } else {
        "/?"@
    }
}

/// The connection string with the users of the server itself.
pub open spec fn with_admin_source(s: Seq<char>) -> Seq<char> {
    s + option_separator(s) + "authSource=admin"@
}

/// The user may be known to the server itself: the connection string has a
/// user and does not say where to look for it, and it was not accepted.
pub open spec fn wants_retry(s: Seq<char>, message: Seq<char>) -> bool {
    !names_auth_source(s) && s.contains('@') && says_unauthenticated(message)
}

/// Whether the connection string names the database that knows the user.
pub fn has_auth_source(connection_string: &str) -> (r: bool)
    ensures
        r == names_auth_source(connection_string@),
{
    text::contains(text::to_ascii_lowercase(connection_string).as_str(), "authsource=")
}

/// Whether the connection string has a user.
pub fn has_credentials(connection_string: &str) -> (r: bool)
    ensures
        r == connection_string@.contains('@'),
{
    text::contains_char(connection_string, '@')
}

/// Whether the message says that the user was not accepted.
pub fn is_authentication_failed(message: &str) -> (r: bool)
    ensures
        r == says_unauthenticated(message@),
{
    text::contains(message, "SCRAM failure") || text::contains(message, "AuthenticationFailed")
        || text::contains(message, "code 18")
}

/// Whether the connection string has a path.
fn has_path(connection_string: &str) -> (r: bool)
    ensures
        r == names_path(connection_string@),
{
    let chars = text::to_chars(connection_string);
    let scheme = text::to_chars("://");
    proof {
        reveal_strlit("://");
    }
    match text::find_chars(&chars, &scheme, 0) {
        None => false,
        Some(at) => {
            let ghost s = connection_string@;
            assert(at + 3 <= chars.len());
            let mut j: usize = at + 3;
            while j < chars.len()
                invariant
                    at + 3 <= j <= chars@.len(),
                    chars@ == connection_string@,
                    s == connection_string@,
                    text::occurs_at(s, "://"@, at as int),
                    forall|k: int| at + 3 <= k < j ==> s[k] != '/',
                decreases chars@.len() - j,
            {
                if chars[j] == '/' {
                    assert(s[j as int] == '/');
                    return true;
                }
                j = j + 1;
            }
            assert(!names_path(s)) by {
                if names_path(s) {
                    let (i, k) = choose|i: int, k: int|
                        #[trigger] text::occurs_at(s, "://"@, i) && i + 3 <= k < s.len() && #[trigger] s[k]
                            == '/';
                    assert(i >= at);
                }
            }
            false
        },
    }
}

/// The connection string with the users of the server itself.
pub fn append_admin_auth_source(connection_string: &str) -> (r: String)
    ensures
        r@ == with_admin_source(connection_string@),
{
    let mut s = connection_string.to_owned();
    if text::contains_char(connection_string, '?') {
        if !text::ends_with_char(connection_string, '?') && !text::ends_with_char(
            connection_string,
            '&',
        ) {
            s.append("&");
        } else {
            assert(s@ =~= connection_string@ + Seq::<char>::empty());
        }
    } else if has_path(connection_string) {
        s.append("?");
    } else {
        s.append("/?");
    }
    s.append("authSource=admin");
    s
}

/// Whether the server is tried again with its own users.
pub fn should_retry_with_admin_auth_source(connection_string: &str, message: &str) -> (r: bool)
    ensures
        r == wants_retry(connection_string@, message@),
{
    !has_auth_source(connection_string) && has_credentials(connection_string)
        && is_authentication_failed(message)
}

/// What is done next to reach a server.
#[derive(Debug)]
pub enum ConnectAction {
    Done,
    Open { connection_string: String, retry: bool },
    Keep { connection_string: String },
    ConnectFailed,
    PingFailed,
}

/// The mathematical value of a [`ConnectAction`].
#[allow(inconsistent_fields)]
pub ghost enum ConnectView {
    Done,
    Open { connection_string: Seq<char>, retry: bool },
    Keep { connection_string: Seq<char> },
    ConnectFailed,
    PingFailed,
}

impl ConnectAction {
    /// The mathematical value of the action.
    pub open spec fn view(&self) -> ConnectView {
        match *self {
            ConnectAction::Done => ConnectView::Done,
            ConnectAction::Open { connection_string, retry } => ConnectView::Open {
                connection_string: connection_string@,
                retry,
            },
            ConnectAction::Keep { connection_string } => ConnectView::Keep {
                connection_string: connection_string@,
            },
            ConnectAction::ConnectFailed => ConnectView::ConnectFailed,
            ConnectAction::PingFailed => ConnectView::PingFailed,
        }
    }
}

/// What is done first: nothing where the server is reached already.
pub open spec fn connect_first(connected: bool, s: Seq<char>) -> ConnectView {
    if connected {
        ConnectView::Done
    } else {
        ConnectView::Open { connection_string: s, retry: false }
    }
}

/// What is done once a client was made, or not, and the server answered its
/// first command, or not. The server is tried again once at most.
pub open spec fn connect_next(
    s: Seq<char>,
    retry: bool,
    opened: bool,
    refusal: Option<Seq<char>>,
) -> ConnectView {
    if !opened {
        ConnectView::ConnectFailed
    } else {
        match refusal {
            None => ConnectView::Keep { connection_string: s },
            Some(message) => if !retry && wants_retry(s, message) {
                ConnectView::Open { connection_string: with_admin_source(s), retry: true }
            } else {
                ConnectView::PingFailed
            },
        }
    }
}

/// What is done first to reach a server.
pub fn start_connect(connected: bool, connection_string: &str) -> (r: ConnectAction)
    ensures
        r@ == connect_first(connected, connection_string@),
{
    if connected {
        ConnectAction::Done
    } else {
        ConnectAction::Open { connection_string: connection_string.to_owned(), retry: false }
    }
}

/// What is done once a client was made, or not, and the server answered its
/// first command, or not.
pub fn continue_connect(
    connection_string: &str,
    retry: bool,
    opened: bool,
    refusal: &Option<String>,
) -> (r: ConnectAction)
    ensures
        r@ == connect_next(connection_string@, retry, opened, text::opt_view(*refusal)),
{
    if !opened {
        return ConnectAction::ConnectFailed;
    }
    match refusal {
        None => ConnectAction::Keep { connection_string: connection_string.to_owned() },
        Some(message) => {
            if !retry && should_retry_with_admin_auth_source(connection_string, message.as_str()) {
                ConnectAction::Open {
                    connection_string: append_admin_auth_source(connection_string),
                    retry: true,
                }
            } else {
                ConnectAction::PingFailed
            }
        },
    }
}

// ---------------------------------------------------------------------------
// Commands
// ---------------------------------------------------------------------------

/// The document with one more field that is not there yet.
fn push_field(d: &mut Document, key: &str, value: Bson)
    requires
        !bson_ext::keys(bson_ext::document_view(*old(d))).contains(key@),
    ensures
        bson_ext::document_view(*final(d)) == bson_ext::document_view(*old(d)).push(
            (key@, bson_ext::bson_view(value)),
        ),
{
    bson_ext::set_field(d, key.to_owned(), value);
}

/// A document with one field.
fn one_field(key: &str, value: Bson) -> (r: Document)
    ensures
        bson_ext::document_view(r) == seq![(key@, bson_ext::bson_view(value))],
{
    let mut d = bson_ext::new_document();
    push_field(&mut d, key, value);
    assert(bson_ext::document_view(d) =~= seq![(key@, bson_ext::bson_view(value))]);
    d
}

/// The command that asks whether the server is there.
pub fn ping_command() -> (r: Document)
    ensures
        bson_ext::document_view(r) == seq![("ping"@, BsonView::Int32(1))],
{
    one_field("ping", bson_ext::bson_int32(1))
}

/// The filter for the document with an id.
pub fn id_filter(id: &Bson) -> (r: Document)
    ensures
        bson_ext::document_view(r) == seq![("_id"@, bson_ext::bson_view(*id))],
{
    one_field("_id", bson_ext::copy_bson(id))
}

/// The filter of a query: one that every document meets where there is none.
pub fn actual_filter(filter: &Option<Document>) -> (r: Document)
    ensures
        bson_ext::document_view(r) == filter_fields(query_input::opt_document_view(*filter)),
{
    match filter {
        Some(f) => bson_ext::copy_document(f),
        None => bson_ext::new_document(),
    }
}

/// The fields of a filter; none where there is no filter.
pub open spec fn filter_fields(filter: Option<Seq<(Seq<char>, BsonView)>>) -> Seq<
    (Seq<char>, BsonView),
> {
    match filter {
        Some(f) => f,
        None => Seq::empty(),
    }
}

/// The collection is that of the sessions, which cannot be searched but only
/// be listed.
pub open spec fn is_session_list(collection: Seq<char>) -> bool {
    collection == "system.sessions"@
}

/// Whether the collection is that of the sessions.
pub fn lists_sessions(collection_name: &str) -> (r: bool)
    ensures
        r == is_session_list(collection_name@),
{
    text::same(collection_name, "system.sessions")
}

/// The stages that list the sessions.
pub open spec fn session_stages(
    all_users: bool,
    filter: Option<Seq<(Seq<char>, BsonView)>>,
    plan: PlanView,
) -> Seq<Seq<(Seq<char>, BsonView)>> {
    seq![
        seq![
            (
                "$listSessions"@,
                BsonView::Document(
                    if all_users {
                        seq![("allUsers"@, BsonView::Boolean(true))]
                    } else {
                        Seq::empty()
                    },
                ),
            ),
        ],
    ] + (if filter_fields(filter).len() > 0 {
        seq![seq![("$match"@, BsonView::Document(filter_fields(filter)))]]
    } else {
        Seq::empty()
    }) + (match plan.skip {
        Some(n) => seq![seq![("$skip"@, BsonView::Int64(n as i64))]],
        None => Seq::empty(),
    }) + (match plan.limit {
        Some(n) => seq![seq![("$limit"@, BsonView::Int64(n))]],
        None => Seq::empty(),
    })
}

/// The pipeline that lists the sessions: those of all users, or where the
/// server does not allow it, one's own.
pub fn session_pipeline(all_users: bool, filter: &Option<Document>, plan: &FindPlan) -> (r: Vec<
    Document,
>)
    ensures
        bson_ext::document_views(r@) == session_stages(
            all_users,
            query_input::opt_document_view(*filter),
            plan@,
        ),
{
    let ghost f = filter_fields(query_input::opt_document_view(*filter));
    let mut pipeline: Vec<Document> = Vec::new();
    let users = if all_users {
        one_field("allUsers", bson_ext::bson_bool(true))
    } else {
        bson_ext::new_document()
    };
    pipeline.push(one_field("$listSessions", bson_ext::bson_document(users)));
    let ghost first = bson_ext::document_views(pipeline@);
    assert(first =~= session_stages(
        all_users,
        None,
        PlanView { limit: None, skip: None, ..plan@ },
    ));
    let ghost mut done = first;
    if let Some(d) = filter {
        if bson_ext::document_keys(d).len() > 0 {
            assert(f.len() == bson_ext::keys(f).len());
            pipeline.push(one_field("$match", bson_ext::bson_document(bson_ext::copy_document(d))));
            proof {
                done = done.push(seq![("$match"@, BsonView::Document(f))]);
            }
            assert(bson_ext::document_views(pipeline@) =~= done);
        } else {
            assert(text::views(Seq::<String>::empty()).len() == 0);
            assert(f.len() == bson_ext::keys(f).len());
        }
    }
    if let Some(n) = plan.skip {
        pipeline.push(one_field("$skip", bson_ext::bson_int64(n as i64)));
        proof {
            done = done.push(seq![("$skip"@, BsonView::Int64(n as i64))]);
        }
        assert(bson_ext::document_views(pipeline@) =~= done);
    }
    if let Some(n) = plan.limit {
        pipeline.push(one_field("$limit", bson_ext::bson_int64(n)));
        proof {
            done = done.push(seq![("$limit"@, BsonView::Int64(n))]);
        }
        assert(bson_ext::document_views(pipeline@) =~= done);
    }
    assert(done =~= session_stages(all_users, query_input::opt_document_view(*filter), plan@));
    pipeline
}

/// The client that is talked to; without one there is no connection.
pub fn client_of<T>(client: Option<&T>) -> (r: Result<&T, MongoError>)
    ensures
        match client {
            Some(c) => r matches Ok(d) && d == c,
            None => r matches Err(e) && e is NotConnected,
        },
{
    match client {
        Some(c) => Ok(c),
        None => Err(MongoError::NotConnected),
    }
}

/// What is done next to fetch documents.
#[derive(Debug)]
pub enum FindStep {
    Search { filter: Document },
    List { pipeline: Vec<Document>, all_users: bool },
    Fail,
}

/// The mathematical value of a [`FindStep`].
pub ghost enum FindStepView {
    Search { filter: Seq<(Seq<char>, BsonView)> },
    List { pipeline: Seq<Seq<(Seq<char>, BsonView)>>, all_users: bool },
    Fail,
}

impl FindStep {
    /// The mathematical value of the step.
    pub open spec fn view(&self) -> FindStepView {
        match *self {
            FindStep::Search { filter } => FindStepView::Search {
                filter: bson_ext::document_view(filter),
            },
            FindStep::List { pipeline, all_users } => FindStepView::List {
                pipeline: bson_ext::document_views(pipeline@),
                all_users,
            },
            FindStep::Fail => FindStepView::Fail,
        }
    }
}

/// What is done first to fetch documents: the sessions are listed, those of
/// all users; every other collection is searched.
pub open spec fn find_first(
    collection: Seq<char>,
    filter: Option<Seq<(Seq<char>, BsonView)>>,
    plan: PlanView,
) -> FindStepView {
    if is_session_list(collection) {
        FindStepView::List { pipeline: session_stages(true, filter, plan), all_users: true }
    } else {
        FindStepView::Search { filter: filter_fields(filter) }
    }
}

/// How a step to fetch documents fails: the server refuses the command, or
/// the documents cannot be read to their end.
#[derive(Debug, Clone, Copy, PartialEq, Eq, Structural)]
pub enum FindFault {
    Refused,
    Broken,
}

/// What is done once a step failed: one's own sessions are listed where the
/// server refused to list those of all users; else nothing is left to try.
pub open spec fn find_after(
    step: FindStepView,
    fault: FindFault,
    filter: Option<Seq<(Seq<char>, BsonView)>>,
    plan: PlanView,
) -> FindStepView {
    match (step, fault) {
        (FindStepView::List { pipeline: _, all_users: true }, FindFault::Refused) => {
            FindStepView::List { pipeline: session_stages(false, filter, plan), all_users: false }
        },
        _ => FindStepView::Fail,
    }
}

/// What is done first to fetch documents.
pub fn start_find(collection_name: &str, filter: &Option<Document>, plan: &FindPlan) -> (r:
    FindStep)
    ensures
        r@ == find_first(collection_name@, query_input::opt_document_view(*filter), plan@),
{
    if lists_sessions(collection_name) {
        FindStep::List { pipeline: session_pipeline(true, filter, plan), all_users: true }
    } else {
        FindStep::Search { filter: actual_filter(filter) }
    }
}

/// What is done once a step failed.
pub fn continue_find(
    step: &FindStep,
    fault: FindFault,
    filter: &Option<Document>,
    plan: &FindPlan,
) -> (r: FindStep)
    ensures
        r@ == find_after(step@, fault, query_input::opt_document_view(*filter), plan@),
{
    match (step, fault) {
        (FindStep::List { pipeline: _, all_users: true }, FindFault::Refused) => FindStep::List {
            pipeline: session_pipeline(false, filter, plan),
            all_users: false,
        },
        _ => FindStep::Fail,
    }
}

/// The command that lists the indexes of a collection.
pub fn list_indexes_command(collection_name: &str) -> (r: Document)
    ensures
        bson_ext::document_view(r) == seq![("listIndexes"@, BsonView::Text(collection_name@))],
{
    one_field("listIndexes", bson_ext::bson_text(collection_name.to_owned()))
}

/// An index with the given keys, and the given name where there is one.
pub open spec fn index_fields(keys: Seq<(Seq<char>, BsonView)>, name: Option<Seq<char>>) -> Seq<
    (Seq<char>, BsonView),
> {
    seq![("key"@, BsonView::Document(keys))] + (match name {
        Some(n) => seq![("name"@, BsonView::Text(n))],
        None => Seq::empty(),
    })
}

/// The command that makes an index.
pub fn create_index_command(collection_name: &str, keys: &Document, name: &Option<String>) -> (r:
    Document)
    ensures
        bson_ext::document_view(r) == seq![
            ("createIndexes"@, BsonView::Text(collection_name@)),
            (
                "indexes"@,
                BsonView::Array(
                    seq![
                        BsonView::Document(
                            index_fields(bson_ext::document_view(*keys), text::opt_view(*name)),
                        ),
                    ],
                ),
            ),
        ],
{
    let ghost want = index_fields(bson_ext::document_view(*keys), text::opt_view(*name));
    let mut index = one_field("key", bson_ext::bson_document(bson_ext::copy_document(keys)));
    if let Some(n) = name {
        proof {
            reveal_strlit("key");
            reveal_strlit("name");
            assert("key"@.len() != "name"@.len());
        }
        push_field(&mut index, "name", bson_ext::bson_text(n.clone()));
    }
    assert(bson_ext::document_view(index) =~= want);
    let mut indexes: Vec<Bson> = Vec::new();
    indexes.push(bson_ext::bson_document(index));
    assert(bson_ext::bson_views(indexes@) =~= seq![BsonView::Document(want)]);
    let mut command = one_field(
        "createIndexes",
        bson_ext::bson_text(collection_name.to_owned()),
    );
    proof {
        reveal_strlit("createIndexes");
        reveal_strlit("indexes");
        assert("createIndexes"@.len() != "indexes"@.len());
    }
    push_field(&mut command, "indexes", bson_ext::bson_array(indexes));
    command
}

/// The command that drops an index.
pub fn drop_index_command(collection_name: &str, name: &str) -> (r: Document)
    ensures
        bson_ext::document_view(r) == seq![
            ("dropIndexes"@, BsonView::Text(collection_name@)),
            ("index"@, BsonView::Text(name@)),
        ],
{
    let mut command = one_field("dropIndexes", bson_ext::bson_text(collection_name.to_owned()));
    proof {
        reveal_strlit("dropIndexes");
        reveal_strlit("index");
        assert("dropIndexes"@.len() != "index"@.len());
    }
    push_field(&mut command, "index", bson_ext::bson_text(name.to_owned()));
    command
}

/// The command that asks what is known of a collection.
pub fn get_validation_command(collection_name: &str) -> (r: Document)
    ensures
        bson_ext::document_view(r) == seq![
            ("listCollections"@, BsonView::Int32(1)),
            ("filter"@, BsonView::Document(seq![("name"@, BsonView::Text(collection_name@))])),
        ],
{
    let mut command = one_field("listCollections", bson_ext::bson_int32(1));
    let filter = one_field("name", bson_ext::bson_text(collection_name.to_owned()));
    proof {
        reveal_strlit("listCollections");
        reveal_strlit("filter");
        assert("listCollections"@.len() != "filter"@.len());
    }
    push_field(&mut command, "filter", bson_ext::bson_document(filter));
    command
}

/// The command that sets the validation rules of a collection; without rules
/// every document is valid.
pub fn update_validation_command(collection_name: &str, validator: &Option<Document>) -> (r:
    Document)
    ensures
        bson_ext::document_view(r) == seq![
            ("collMod"@, BsonView::Text(collection_name@)),
            (
                "validator"@,
                BsonView::Document(filter_fields(query_input::opt_document_view(*validator))),
            ),
            ("validationLevel"@, BsonView::Text("moderate"@)),
            ("validationAction"@, BsonView::Text("error"@)),
        ],
{
    let mut command = one_field("collMod", bson_ext::bson_text(collection_name.to_owned()));
    proof {
        reveal_strlit("collMod");
        reveal_strlit("validator");
        reveal_strlit("validationLevel");
        reveal_strlit("validationAction");
        assert("collMod"@.len() == 7);
        assert("validator"@.len() == 9);
        assert("validationLevel"@.len() == 15);
        assert("validationAction"@.len() == 16);
    }
    push_field(&mut command, "validator", bson_ext::bson_document(actual_filter(validator)));
    push_field(&mut command, "validationLevel", bson_ext::bson_text("moderate".to_owned()));
    push_field(&mut command, "validationAction", bson_ext::bson_text("error".to_owned()));
    command
}

/// The search that is explained.
pub open spec fn explained_find(
    collection: Seq<char>,
    filter: Option<Seq<(Seq<char>, BsonView)>>,
    plan: PlanView,
) -> Seq<(Seq<char>, BsonView)> {
    seq![
        ("find"@, BsonView::Text(collection)),
        ("filter"@, BsonView::Document(filter_fields(filter))),
    ] + (match plan.sort {
        Some(d) => seq![("sort"@, BsonView::Document(d))],
        None => Seq::empty(),
    }) + (match plan.projection {
        Some(d) => seq![("projection"@, BsonView::Document(d))],
        None => Seq::empty(),
    }) + (match plan.skip {
        Some(n) => seq![("skip"@, BsonView::Int64(n as i64))],
        None => Seq::empty(),
    }) + (match plan.limit {
        Some(n) => seq![("limit"@, BsonView::Int64(n))],
        None => Seq::empty(),
    })
}

/// The command that explains a search.
pub fn explain_command(collection_name: &str, filter: &Option<Document>, plan: &FindPlan) -> (r:
    Document)
    ensures
        bson_ext::document_view(r) == seq![
            (
                "explain"@,
                BsonView::Document(
                    explained_find(
                        collection_name@,
                        query_input::opt_document_view(*filter),
                        plan@,
                    ),
                ),
            ),
        ],
{
    proof {
        reveal_strlit("find");
        reveal_strlit("filter");
        reveal_strlit("sort");
        reveal_strlit("projection");
        reveal_strlit("skip");
        reveal_strlit("limit");
        assert("find"@.len() == 4 && "find"@[0] == 'f');
        assert("sort"@.len() == 4 && "sort"@[0] == 's' && "sort"@[1] == 'o');
        assert("skip"@.len() == 4 && "skip"@[0] == 's' && "skip"@[1] == 'k');
        assert("filter"@.len() == 6);
        assert("projection"@.len() == 10);
        assert("limit"@.len() == 5);
    }
    let ghost mut done = seq![
        ("find"@, BsonView::Text(collection_name@)),
        (
            "filter"@,
            BsonView::Document(filter_fields(query_input::opt_document_view(*filter))),
        ),
    ];
    let mut find = one_field("find", bson_ext::bson_text(collection_name.to_owned()));
    push_field(&mut find, "filter", bson_ext::bson_document(actual_filter(filter)));
    assert(bson_ext::document_view(find) =~= done);
    if let Some(d) = &plan.sort {
        push_field(&mut find, "sort", bson_ext::bson_document(bson_ext::copy_document(d)));
        proof {
            done = done.push(("sort"@, BsonView::Document(bson_ext::document_view(*d))));
        }
    }
    if let Some(d) = &plan.projection {
        push_field(&mut find, "projection", bson_ext::bson_document(bson_ext::copy_document(d)));
        proof {
            done = done.push(("projection"@, BsonView::Document(bson_ext::document_view(*d))));
        }
    }
    if let Some(n) = plan.skip {
        push_field(&mut find, "skip", bson_ext::bson_int64(n as i64));
        proof {
            done = done.push(("skip"@, BsonView::Int64(n as i64)));
        }
    }
    if let Some(n) = plan.limit {
        push_field(&mut find, "limit", bson_ext::bson_int64(n));
        proof {
            done = done.push(("limit"@, BsonView::Int64(n)));
        }
    }
    proof {
        assert(done =~= explained_find(
            collection_name@,
            query_input::opt_document_view(*filter),
            plan@,
        ));
    }
    one_field("explain", bson_ext::bson_document(find))
}

// ---------------------------------------------------------------------------
// Replies
// ---------------------------------------------------------------------------

/// What is wrong with a reply: a field is missing, or is of another kind.
#[derive(Debug)]
pub enum ReplyFault {
    NotPresent(String),
    UnexpectedKind(String),
}

/// The mathematical value of a [`ReplyFault`].
pub ghost enum FaultView {
    NotPresent(Seq<char>),
    UnexpectedKind(Seq<char>),
}

impl ReplyFault {
    /// The mathematical value of the fault.
    pub open spec fn view(&self) -> FaultView {
        match *self {
            ReplyFault::NotPresent(key) => FaultView::NotPresent(key@),
            ReplyFault::UnexpectedKind(key) => FaultView::UnexpectedKind(key@),
        }
    }
}

/// The document under a key.
pub open spec fn document_under(d: Seq<(Seq<char>, BsonView)>, key: Seq<char>) -> Result<
    Seq<(Seq<char>, BsonView)>,
    FaultView,
> {
    match bson_ext::field(d, key) {
        None => Err(FaultView::NotPresent(key)),
        Some(BsonView::Document(inner)) => Ok(inner),
        Some(_) => Err(FaultView::UnexpectedKind(key)),
    }
}

/// The list under a key.
pub open spec fn array_under(d: Seq<(Seq<char>, BsonView)>, key: Seq<char>) -> Result<
    Seq<BsonView>,
    FaultView,
> {
    match bson_ext::field(d, key) {
        None => Err(FaultView::NotPresent(key)),
        Some(BsonView::Array(v)) => Ok(v),
        Some(_) => Err(FaultView::UnexpectedKind(key)),
    }
}

/// The list in a reply that comes in batches.
pub open spec fn first_batch(reply: Seq<(Seq<char>, BsonView)>) -> Result<Seq<BsonView>, FaultView> {
    match document_under(reply, "cursor"@) {
        Err(e) => Err(e),
        Ok(cursor) => array_under(cursor, "firstBatch"@),
    }
}

/// The documents among the values, in their order.
pub open spec fn documents_among(v: Seq<BsonView>) -> Seq<Seq<(Seq<char>, BsonView)>>
    decreases v.len(),
{
    if v.len() == 0 {
        Seq::empty()
    } else {
        let rest = documents_among(v.drop_last());
        match v.last() {
            BsonView::Document(d) => rest.push(d),
            _ => rest,
        }
    }
}

/// The validation rules in what is known of a collection.
pub open spec fn rules_in(v: Seq<BsonView>) -> Option<Seq<(Seq<char>, BsonView)>> {
    if v.len() > 0 {
        match v[0] {
            BsonView::Document(d) => match document_under(d, "options"@) {
                Ok(options) => match document_under(options, "validator"@) {
                    Ok(rules) => Some(rules),
                    Err(_) => None,
                },
                Err(_) => None,
            },
            _ => None,
        }
    } else {
        None
    }
}

/// The document under a key.
fn get_document(d: &Document, key: &str) -> (r: Result<Document, ReplyFault>)
    ensures
        match r {
            Ok(inner) => document_under(bson_ext::document_view(*d), key@) == Ok::<
                Seq<(Seq<char>, BsonView)>,
                FaultView,
            >(bson_ext::document_view(inner)),
            Err(e) => document_under(bson_ext::document_view(*d), key@) == Err::<
                Seq<(Seq<char>, BsonView)>,
                FaultView,
            >(e@),
        },
{
    match bson_ext::get_field(d, key) {
        None => Err(ReplyFault::NotPresent(key.to_owned())),
        Some(v) => match bson_ext::document_of(&v) {
            Some(inner) => Ok(inner),
            None => Err(ReplyFault::UnexpectedKind(key.to_owned())),
        },
    }
}

/// The list in a reply that comes in batches.
fn get_first_batch(reply: &Document) -> (r: Result<Vec<Bson>, ReplyFault>)
    ensures
        match r {
            Ok(v) => first_batch(bson_ext::document_view(*reply)) == Ok::<
                Seq<BsonView>,
                FaultView,
            >(bson_ext::bson_views(v@)),
            Err(e) => first_batch(bson_ext::document_view(*reply)) == Err::<
                Seq<BsonView>,
                FaultView,
            >(e@),
        },
{
    let cursor = match get_document(reply, "cursor") {
        Ok(d) => d,
        Err(e) => return Err(e),
    };
    match bson_ext::get_field(&cursor, "firstBatch") {
        None => Err(ReplyFault::NotPresent("firstBatch".to_owned())),
        Some(v) => match bson_ext::array_of(&v) {
            Some(items) => Ok(items),
            None => Err(ReplyFault::UnexpectedKind("firstBatch".to_owned())),
        },
    }
}

/// The indexes in the reply to [`list_indexes_command`].
pub fn indexes_of_reply(reply: &Document) -> (r: Result<Vec<Document>, ReplyFault>)
    ensures
        match first_batch(bson_ext::document_view(*reply)) {
            Ok(v) => r matches Ok(list) && bson_ext::document_views(list@) == documents_among(v),
            Err(fault) => r matches Err(e) && e@ == fault,
        },
{
    let batch = match get_first_batch(reply) {
        Ok(v) => v,
        Err(e) => return Err(e),
    };
    let ghost vs = bson_ext::bson_views(batch@);
    let mut indexes: Vec<Document> = Vec::new();
    let mut i: usize = 0;
    assert(vs.take(0) =~= Seq::empty());
    assert(bson_ext::document_views(indexes@) =~= Seq::empty());
    while i < batch.len()
        invariant
            i <= batch@.len(),
            vs == bson_ext::bson_views(batch@),
            bson_ext::document_views(indexes@) == documents_among(vs.take(i as int)),
        decreases batch@.len() - i,
    {
        let ghost before = indexes@;
        assert(vs.take(i as int + 1).drop_last() =~= vs.take(i as int));
        assert(vs.take(i as int + 1).last() == bson_ext::bson_view(batch@[i as int]));
        if let Some(d) = bson_ext::document_of(&batch[i]) {
            indexes.push(d);
            assert(bson_ext::document_views(indexes@) =~= bson_ext::document_views(before).push(
                bson_ext::document_view(d),
            ));
        }
        i = i + 1;
    }
    assert(vs.take(vs.len() as int) =~= vs);
    Ok(indexes)
}

/// The validation rules in the reply to [`get_validation_command`].
pub fn validator_of_reply(reply: &Document) -> (r: Result<Option<Document>, ReplyFault>)
    ensures
        match first_batch(bson_ext::document_view(*reply)) {
            Ok(v) => r matches Ok(d) && query_input::opt_document_view(d) == rules_in(v),
            Err(fault) => r matches Err(e) && e@ == fault,
        },
{
    let batch = match get_first_batch(reply) {
        Ok(v) => v,
        Err(e) => return Err(e),
    };
    let ghost vs = bson_ext::bson_views(batch@);
    if batch.len() == 0 {
        return Ok(None);
    }
    assert(vs[0] == bson_ext::bson_view(batch@[0]));
    match bson_ext::document_of(&batch[0]) {
        None => Ok(None),
        Some(d) => match get_document(&d, "options") {
            Err(_) => Ok(None),
            Ok(options) => match get_document(&options, "validator") {
                Ok(rules) => Ok(Some(rules)),
                Err(_) => Ok(None),
            },
        },
    }
}

// ---------------------------------------------------------------------------
// Laws
// ---------------------------------------------------------------------------

/// A connection string with the users of the server itself says so: it begins
/// with the one it was made from, it names the database that knows the user,
/// and it is not tried a third time.
pub proof fn law_retry_once(s: Seq<char>, message: Seq<char>)
    ensures
        text::begins_with(with_admin_source(s), s),
        names_auth_source(with_admin_source(s)),
        !wants_retry(with_admin_source(s), message),
{
    let sep = option_separator(s);
    let tail = "authSource=admin"@;
    let t = with_admin_source(s);
    assert(t.subrange(0, s.len() as int) =~= s);
    reveal_strlit("authSource=admin");
    reveal_strlit("authsource=");
    let low = text::ascii_lowered(t);
    let at = (s.len() + sep.len()) as int;
    let needle = "authsource="@;
    assert(low.subrange(at, at + needle.len()) =~= needle) by {
        assert forall|i: int| 0 <= i < needle.len() implies low[at + i] == needle[i] by {
            assert(t[at + i] == tail[i]);
        }
    }
    assert(text::occurs_at(low, needle, at));
}

/// A server that refuses the user is asked at most twice: once as it was
/// given, and once with the users of the server itself.
pub proof fn law_connect_ends(s: Seq<char>, retry: bool, opened: bool, refusal: Option<Seq<char>>)
    ensures
        connect_next(s, retry, opened, refusal) matches ConnectView::Open {
            connection_string,
            retry: again,
        } ==> !retry && again && connection_string == with_admin_source(s),
        connect_next(s, true, opened, refusal) is Open ==> false,
        connect_next(s, retry, true, None) == (ConnectView::Keep { connection_string: s }),
{
}

/// Sessions are asked for at most twice, a search is sent once, and a refused
/// list of all sessions is followed by that of one's own. Documents that
/// cannot be read to their end are never asked for again.
pub proof fn law_find_ends(
    collection: Seq<char>,
    filter: Option<Seq<(Seq<char>, BsonView)>>,
    plan: PlanView,
    step: FindStepView,
)
    ensures
        ({
            let first = find_first(collection, filter, plan);
            let second = find_after(first, FindFault::Refused, filter, plan);
            &&& !(first is Fail)
            &&& second is List <==> is_session_list(collection)
            &&& second is List ==> !second->all_users && second->pipeline == session_stages(
                false,
                filter,
                plan,
            )
            &&& find_after(second, FindFault::Refused, filter, plan) is Fail
        }),
        find_after(step, FindFault::Broken, filter, plan) is Fail,
{
}

} // verus!
