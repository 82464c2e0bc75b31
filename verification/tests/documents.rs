//! Documents, their table and their texts, on concrete values.
use mongodb::bson::{oid::ObjectId, Bson, DateTime, Document};
use onetcli::document_table::{
    build_set_update_document, collect_table_columns, edit_input_text, is_safe_update_field_name,
    parse_edit_cell_value, table_cell_text, table_column_width, BsonCellValue,
    MongoDocumentTableDelegate,
};
use onetcli::mongo_connection::{
    append_admin_auth_source, client_of, continue_connect, continue_find, create_index_command,
    explain_command, has_auth_source, indexes_of_reply, lists_sessions, session_pipeline,
    should_retry_with_admin_auth_source, start_connect, start_find, update_validation_command,
    validator_of_reply, ConnectAction, FindFault, FindStep, ReplyFault,
};
use onetcli::mongo_types::{
    bson_to_compact_json, bson_to_string, document_to_pretty_json, MongoError, MongoNode,
    MongoNodeType,
};
use onetcli::query_input::{
    build_find_options, build_query_code, parse_i64_input, parse_optional_document, parse_pipeline,
    parse_required_bson_value, parse_required_document, read_query_inputs,
    read_query_inputs_or_default, FindPlan, InputError, QueryLabels, QueryTexts,
};
use onetcli::schema::{
    bson_type_name, build_schema_payload, document_items_from_documents, documents_to_pretty_json,
    schema_value,
};

fn document(fields: Vec<(&str, Bson)>) -> Document {
    let mut d = Document::new();
    for (key, value) in fields {
        d.insert(key, value);
    }
    d
}

fn text(s: &str) -> Bson {
    Bson::String(s.to_string())
}

#[test]
fn parse_required_document_accepts_extended_json_and_preserves_bson_types() {
    let document = parse_required_document(
        r#"{
              "_id": { "$oid": "6652a9a3f9347a5bbf9a1234" },
              "createdAt": { "$date": "2026-05-24T08:00:00Z" },
              "count": { "$numberLong": "42" }
            }"#,
        "Document",
    )
    .unwrap();

    assert_eq!(
        Some(&Bson::ObjectId(
            ObjectId::parse_str("6652a9a3f9347a5bbf9a1234").unwrap()
        )),
        document.get("_id")
    );
    assert!(matches!(document.get("createdAt"), Some(Bson::DateTime(_))));
    assert_eq!(Some(&Bson::Int64(42)), document.get("count"));
}

#[test]
fn parse_required_bson_value_accepts_extended_json_values() {
    let date =
        parse_required_bson_value(r#"{ "$date": "2026-05-24T08:00:00Z" }"#, "Field").unwrap();
    let nested =
        parse_required_bson_value(r#"{ "items": [1, { "$numberLong": "2" }] }"#, "Field").unwrap();

    assert!(matches!(date, Bson::DateTime(_)));
    assert!(matches!(nested, Bson::Document(_)));
    let Bson::Document(document) = nested else {
        unreachable!();
    };
    assert_eq!(
        Some(&Bson::Array(vec![Bson::Int32(1), Bson::Int64(2)])),
        document.get("items")
    );
}

#[test]
fn document_to_pretty_json_outputs_extended_json() {
    let document = document(vec![
        (
            "_id",
            Bson::ObjectId(ObjectId::parse_str("6652a9a3f9347a5bbf9a1234").unwrap()),
        ),
        (
            "createdAt",
            Bson::DateTime(DateTime::parse_rfc3339_str("2026-05-24T08:00:00Z").unwrap()),
        ),
    ]);

    let output = document_to_pretty_json(&document).unwrap();

    assert!(output.contains("\"$oid\""));
    assert!(output.contains("\"$date\""));
}

#[test]
fn table_columns_put_id_first_and_keep_first_seen_fields() {
    let documents = vec![
        document(vec![
            ("_id", Bson::Int32(1)),
            ("name", text("Alice")),
            ("age", Bson::Int32(20)),
        ]),
        document(vec![
            ("email", text("alice@example.com")),
            ("name", text("Alice Updated")),
        ]),
    ];

    assert_eq!(
        vec![
            "_id".to_string(),
            "name".to_string(),
            "age".to_string(),
            "email".to_string()
        ],
        collect_table_columns(&documents)
    );
}

#[test]
fn table_cell_text_formats_nested_values_and_missing_cells() {
    let nested = Bson::Document(document(vec![
        ("enabled", Bson::Boolean(true)),
        ("count", Bson::Int32(2)),
    ]));
    let datetime = DateTime::parse_rfc3339_str("2026-05-24T08:00:00Z").unwrap();

    assert_eq!("", table_cell_text(None));
    assert_eq!(
        "plain",
        table_cell_text(Some(&Bson::String("plain".to_string())))
    );
    assert_eq!(
        "2026-05-24T08:00:00Z",
        table_cell_text(Some(&Bson::DateTime(datetime)))
    );
    assert_eq!(
        "{\"enabled\":true,\"count\":2}",
        table_cell_text(Some(&nested))
    );
}

#[test]
fn parse_edit_cell_value_preserves_bson_scalar_types() {
    let datetime = DateTime::parse_rfc3339_str("2026-05-24T08:00:00Z").unwrap();

    assert_eq!(
        Bson::String("updated".to_string()),
        parse_edit_cell_value(Some(&Bson::String("old".to_string())), "updated").unwrap()
    );
    assert_eq!(
        Bson::Int32(42),
        parse_edit_cell_value(Some(&Bson::Int32(1)), "42").unwrap()
    );
    assert_eq!(
        Bson::Int64(42),
        parse_edit_cell_value(Some(&Bson::Int64(1)), "42").unwrap()
    );
    assert_eq!(
        Bson::Double(42.5),
        parse_edit_cell_value(Some(&Bson::Double(1.0)), "42.5").unwrap()
    );
    assert_eq!(
        Bson::Boolean(false),
        parse_edit_cell_value(Some(&Bson::Boolean(true)), "false").unwrap()
    );
    assert_eq!(
        Bson::DateTime(datetime),
        parse_edit_cell_value(Some(&datetime.into()), "2026-05-24T08:00:00Z").unwrap()
    );
}

#[test]
fn parse_edit_cell_value_rejects_missing_and_complex_values() {
    assert!(parse_edit_cell_value(None, "value").is_err());
    assert!(parse_edit_cell_value(
        Some(&Bson::Document(document(vec![(
            "nested",
            Bson::Boolean(true)
        )]))),
        "{}"
    )
    .is_err());
    assert!(parse_edit_cell_value(Some(&Bson::Array(vec![Bson::Int32(1)])), "[1]").is_err());
}

#[test]
fn set_update_document_uses_mongodb_set_operator() {
    assert_eq!(
        document(vec![(
            "$set",
            Bson::Document(document(vec![("name", text("Alice"))]))
        )]),
        build_set_update_document("name", Bson::String("Alice".to_string()))
    );
}

#[test]
fn mongo_document_table_delegate_tracks_changed_bson_cells() {
    let document = document(vec![
        ("_id", Bson::Int32(1)),
        ("name", text("Alice")),
        ("age", Bson::Int32(20)),
    ]);
    let mut delegate = MongoDocumentTableDelegate::new(vec![document]);

    assert!(delegate.record_cell_edit(0, "age", "21").unwrap());
    assert_eq!(
        vec![BsonCellValue {
            row_index: 0,
            field: "age".to_string(),
            old_value: Bson::Int32(20),
            new_value: Bson::Int32(21),
        }],
        delegate.cell_changes()
    );
    assert!(delegate.record_cell_edit(0, "age", "20").unwrap());
    assert!(delegate.cell_changes().is_empty());
}

#[test]
fn mongo_document_table_delegate_exposes_complex_fields_for_detail_editing() {
    let nested = || Bson::Document(document(vec![("nested", Bson::Boolean(true))]));
    let row = document(vec![
        ("_id", Bson::Int32(1)),
        (
            "profile",
            Bson::Document(document(vec![("email", text("alice@example.com"))])),
        ),
        ("name", text("Alice")),
        ("bad.name", nested()),
        ("$bad", nested()),
    ]);
    let delegate = MongoDocumentTableDelegate::new(vec![row]);

    assert_eq!(Some("profile"), delegate.field_name_at(1).as_deref());
    assert_eq!(
        Some(Bson::Document(document(vec![(
            "email",
            text("alice@example.com")
        )]))),
        delegate.value_at(0, 1)
    );
    assert!(delegate.is_detail_editable_field(0, 1));
    assert!(!delegate.is_detail_editable_field(0, 0));
    assert!(!delegate.is_detail_editable_field(0, 2));
    assert!(!delegate.is_detail_editable_field(0, 3));
    assert!(!delegate.is_detail_editable_field(0, 4));
}

#[test]
fn edited_rows_become_updates_by_id() {
    let rows = vec![
        document(vec![("_id", Bson::Int32(1)), ("n", Bson::Int32(1)), ("s", text("a"))]),
        document(vec![("_id", Bson::Int32(2)), ("n", Bson::Int32(2)), ("s", text("b"))]),
    ];
    let mut delegate = MongoDocumentTableDelegate::new(rows);
    assert!(delegate.record_cell_edit(1, "n", "5").unwrap());
    assert!(delegate.record_cell_edit(0, "n", "7").unwrap());
    assert!(delegate.record_cell_edit(0, "s", "z").unwrap());
    assert!(delegate.is_cell_modified(0, 1));
    let changes = delegate.field_changes().unwrap();
    assert_eq!(changes.len(), 2);
    assert_eq!(changes[0].id, Bson::Int32(1));
    assert_eq!(
        changes[0].set_fields,
        document(vec![("n", Bson::Int32(7)), ("s", text("z"))])
    );
    assert_eq!(changes[1].row_index, 1);
    assert_eq!(
        delegate.documents()[1],
        document(vec![("_id", Bson::Int32(2)), ("n", Bson::Int32(5)), ("s", text("b"))])
    );
    delegate.revert_changes();
    assert!(!delegate.has_changes());
    assert_eq!(delegate.value_at(0, 1), Some(Bson::Int32(1)));
}

#[test]
fn edits_are_the_cells_that_differ_from_what_was_loaded() {
    let rows = vec![
        document(vec![("_id", Bson::Int32(1)), ("d", Bson::Double(0.0)), ("s", text("a"))]),
        document(vec![("_id", Bson::Int32(2)), ("d", Bson::Double(2.5)), ("s", Bson::Null)]),
    ];
    let mut delegate = MongoDocumentTableDelegate::new(vec![]);
    delegate.set_documents(rows.clone());
    let edits = [
        (1, "s", "x"),
        (0, "d", "-0"),
        (1, "d", "3"),
        (0, "s", "b"),
        (1, "d", "NaN"),
        (0, "s", "a"),
        (1, "s", " "),
        (1, "d", "2.5"),
        (1, "s", ""),
    ];
    for (row, field, input) in edits {
        assert!(delegate.record_cell_edit(row, field, input).unwrap());
        let shown = delegate.documents().clone();
        assert_eq!(delegate.has_changes(), shown != rows);
        let mut cells: Vec<(usize, String)> = vec![];
        for row in 0..rows.len() {
            for field in ["_id", "d", "s"] {
                if shown[row].get(field) != rows[row].get(field) {
                    cells.push((row, field.to_string()));
                }
            }
        }
        let changes = delegate.cell_changes();
        let changed: Vec<_> = changes.iter().map(|c| (c.row_index, c.field.clone())).collect();
        assert_eq!(changed, cells);
        for change in changes {
            assert_eq!(Some(&change.old_value), rows[change.row_index].get(&change.field));
            let now = shown[change.row_index].get(&change.field).unwrap();
            assert_eq!(change.new_value.to_string(), now.to_string());
        }
    }
    assert!(!delegate.has_changes());
}

#[test]
fn refused_edits_say_why() {
    let mut delegate = MongoDocumentTableDelegate::new(vec![document(vec![
        ("_id", Bson::Int32(1)),
        ("n", Bson::Int32(1)),
    ])]);
    assert!(matches!(
        delegate.record_cell_edit(0, "missing", "1"),
        Err(MongoError::InvalidFilter(m)) if m == "Unknown field: missing"
    ));
    assert!(matches!(
        delegate.record_cell_edit(0, "_id", "2"),
        Err(MongoError::InvalidFilter(m)) if m == "This field cannot be edited with $set."
    ));
    assert!(delegate.record_cell_edit(0, "n", "many").is_err());
    assert!(!delegate.has_changes());
}

#[test]
fn rows_without_an_id_cannot_be_saved() {
    let mut delegate =
        MongoDocumentTableDelegate::new(vec![document(vec![("n", Bson::Int32(1))])]);
    assert!(delegate.record_cell_edit(0, "n", "2").unwrap());
    assert!(matches!(
        delegate.field_changes(),
        Err(MongoError::InvalidFilter(m)) if m == "Missing _id for update."
    ));
}

#[test]
fn column_widths_and_safe_names() {
    assert_eq!(table_column_width("_id"), 220);
    assert_eq!(table_column_width("name"), 160);
    assert!(is_safe_update_field_name("name"));
    assert!(!is_safe_update_field_name("_id"));
    assert!(!is_safe_update_field_name("a.b"));
    assert!(!is_safe_update_field_name("$x"));
    assert!(is_safe_update_field_name(""));
}

#[test]
fn wide_tables_stop_at_the_limit() {
    let mut d = Document::new();
    for i in 0..40 {
        d.insert(format!("f{i}"), i);
    }
    let columns = collect_table_columns(&vec![d]);
    assert_eq!(columns.len(), 24);
    assert_eq!(columns[0], "_id");
    assert_eq!(columns[1], "f0");
    assert_eq!(columns[23], "f22");
}

#[test]
fn values_have_plain_texts() {
    assert_eq!(bson_to_string(&text("a")), "a");
    assert_eq!(bson_to_string(&Bson::Int32(-7)), "-7");
    assert_eq!(bson_to_string(&Bson::Int64(1 << 40)), "1099511627776");
    assert_eq!(bson_to_string(&Bson::Double(2.5)), "2.5");
    assert_eq!(bson_to_string(&Bson::Boolean(true)), "true");
    assert_eq!(
        bson_to_string(&Bson::ObjectId(
            ObjectId::parse_str("6652a9a3f9347a5bbf9a1234").unwrap()
        )),
        "6652a9a3f9347a5bbf9a1234"
    );
    assert_eq!(bson_to_string(&Bson::Null), "Null");
    assert_eq!(edit_input_text(&Bson::Int32(4)), "4");
    assert_eq!(bson_to_compact_json(&Bson::Int32(4)).unwrap(), "4");
}

#[test]
fn kinds_of_values_have_names() {
    assert_eq!(bson_type_name(&text("a")), "string");
    assert_eq!(bson_type_name(&Bson::Int32(1)), "int32");
    assert_eq!(bson_type_name(&Bson::Int64(1)), "int64");
    assert_eq!(bson_type_name(&Bson::Double(1.0)), "double");
    assert_eq!(bson_type_name(&Bson::Boolean(true)), "bool");
    assert_eq!(bson_type_name(&Bson::Null), "null");
    assert_eq!(bson_type_name(&Bson::Undefined), "undefined");
    assert_eq!(bson_type_name(&Bson::MinKey), "minKey");
    assert_eq!(bson_type_name(&Bson::MaxKey), "maxKey");
    assert_eq!(bson_type_name(&Bson::Symbol("s".to_string())), "symbol");
    assert_eq!(
        bson_type_name(&Bson::JavaScriptCode("x".to_string())),
        "javascript"
    );
    assert_eq!(bson_type_name(&Bson::Document(Document::new())), "document");
    assert_eq!(bson_type_name(&Bson::Array(vec![])), "array");
    assert_eq!(
        bson_type_name(&Bson::DateTime(DateTime::from_millis(0))),
        "date"
    );
    assert_eq!(
        bson_type_name(&Bson::Timestamp(mongodb::bson::Timestamp {
            time: 1,
            increment: 1
        })),
        "timestamp"
    );
    assert_eq!(
        bson_type_name(&Bson::Decimal128("1".parse().unwrap())),
        "decimal128"
    );
    assert_eq!(
        bson_type_name(&Bson::Binary(mongodb::bson::Binary {
            subtype: mongodb::bson::spec::BinarySubtype::Generic,
            bytes: vec![1]
        })),
        "binary"
    );
    assert_eq!(
        bson_type_name(&Bson::RegularExpression(mongodb::bson::Regex {
            pattern: "a".to_string(),
            options: String::new()
        })),
        "regex"
    );
    assert_eq!(
        bson_type_name(&Bson::JavaScriptCodeWithScope(
            mongodb::bson::JavaScriptCodeWithScope {
                code: "x".to_string(),
                scope: Document::new()
            }
        )),
        "javascriptScope"
    );
}

#[test]
fn inputs_that_are_missing_or_wrong_are_refused() {
    assert!(matches!(
        parse_required_document("  ", "Filter"),
        Err(InputError::Required { label }) if label == "Filter"
    ));
    assert!(matches!(
        parse_required_document("[1]", "Filter"),
        Err(InputError::MustBeJsonObject { label }) if label == "Filter"
    ));
    assert!(matches!(
        parse_required_document("{", "Filter"),
        Err(InputError::ParseFailed { label, error }) if label == "Filter" && !error.is_empty()
    ));
    assert!(matches!(
        parse_required_bson_value(r#"{ "$oid": "short" }"#, "Filter"),
        Err(InputError::ParseFailed { .. })
    ));
    assert!(parse_optional_document(" \n", "Filter").unwrap().is_none());
    assert_eq!(parse_i64_input("", "n", 25, 1).unwrap(), 25);
    assert_eq!(parse_i64_input(" 30 ", "n", 25, 1).unwrap(), 30);
    assert!(matches!(
        parse_i64_input("0", "n", 25, 1),
        Err(InputError::MustBeMinInt { label, min: 1 }) if label == "n"
    ));
    assert!(parse_i64_input("9223372036854775808", "n", 25, 1).is_err());
}

#[test]
fn pipelines_are_lists_of_stages() {
    assert!(parse_pipeline(" ").unwrap().is_empty());
    assert_eq!(
        parse_pipeline(r#"[{ "$match": { "a": 1 } }, { "$limit": 5 }]"#)
            .unwrap()
            .len(),
        2
    );
    assert!(matches!(
        parse_pipeline("{}"),
        Err(InputError::PipelineMustBeArray)
    ));
    assert!(matches!(
        parse_pipeline("["),
        Err(InputError::PipelineParseFailed { .. })
    ));
    assert!(matches!(
        parse_pipeline("[{}, 1]"),
        Err(InputError::PipelineItemMustBeObject { index: 2 })
    ));
    assert!(matches!(
        parse_pipeline(r#"[{}, {}, { "$oid": "short" }]"#),
        Err(InputError::PipelineItemParseFailed { index: 3, .. })
    ));
}

fn labels() -> QueryLabels {
    QueryLabels {
        filter: "Filter".to_string(),
        sort: "Sort".to_string(),
        projection: "Projection".to_string(),
        page_size: "Page size".to_string(),
        skip: "Skip".to_string(),
    }
}

#[test]
fn queries_are_read_and_written() {
    let mut texts = QueryTexts::initial();
    let inputs = read_query_inputs(&texts, &labels()).unwrap();
    assert_eq!((inputs.page_size, inputs.skip_base), (25, 0));
    assert!(inputs.filter.is_none());
    assert_eq!(
        build_query_code("users", &inputs, 0).unwrap(),
        "db.users.find({}).limit(25)"
    );
    texts.filter = r#"{"a":1}"#.to_string();
    texts.sort = r#"{"b":-1}"#.to_string();
    texts.projection = r#"{"c":1}"#.to_string();
    texts.page_size = "10".to_string();
    texts.skip = "3".to_string();
    let inputs = read_query_inputs(&texts, &labels()).unwrap();
    assert_eq!(inputs.skip(2), 23);
    let plan = build_find_options(&inputs, inputs.skip(2));
    assert_eq!(plan.limit, Some(10));
    assert_eq!(plan.skip, Some(23));
    assert!(plan.sort.is_some());
    assert_eq!(build_find_options(&inputs, 0).skip, None);
    assert_eq!(
        build_query_code("users", &inputs, 23).unwrap(),
        "db.users.find({\"a\":1}, {\"c\":1}).sort({\"b\":-1}).skip(23).limit(10)"
    );
    texts.page_size = "none".to_string();
    assert!(matches!(
        read_query_inputs(&texts, &labels()),
        Err(InputError::MustBeMinInt { label, .. }) if label == "Page size"
    ));
    assert_eq!(read_query_inputs_or_default(&texts, &labels()).page_size, 25);
}

#[test]
fn results_are_listed_by_id_or_place() {
    let items = document_items_from_documents(vec![
        document(vec![("_id", text("x"))]),
        document(vec![("n", Bson::Int32(1))]),
    ])
    .unwrap();
    assert_eq!(items[0].id, "x");
    assert_eq!(items[1].id, "#2");
    assert!(items[1].id_bson.is_none());
    assert!(items[1].pretty_json.contains("\"n\": 1"));
    assert_eq!(
        documents_to_pretty_json(&vec![Document::new()]).unwrap(),
        "[\n  {}\n]"
    );
}

#[test]
fn schema_counts_fields_kinds_and_examples() {
    let sample = vec![
        document(vec![("a", Bson::Int32(1)), ("b", text("x"))]),
        document(vec![("a", Bson::Int64(2))]),
        document(vec![("a", Bson::Int32(3))]),
        document(vec![("a", Bson::Int32(4))]),
    ];
    let value = schema_value(&sample);
    assert_eq!(value["samples"], serde_json::Value::from(4));
    let a = &value["fields"]["a"];
    assert_eq!(a["count"], serde_json::Value::from(4));
    assert_eq!(a["types"]["int32"], serde_json::Value::from(3));
    assert_eq!(a["types"]["int64"], serde_json::Value::from(1));
    assert_eq!(a["examples"].as_array().unwrap().len(), 3);
    assert_eq!(a["examples"][0], serde_json::Value::from("1"));
    assert_eq!(
        value["fields"]["b"]["examples"][0],
        serde_json::Value::from("\"x\"")
    );
    let text = build_schema_payload(&sample).unwrap();
    let back: serde_json::Value = serde_json::from_str(&text).unwrap();
    assert_eq!(back, value);
    assert!(text.starts_with("{\n  \"samples\": 4,"));
}

#[test]
fn servers_are_tried_again_with_their_own_users() {
    assert_eq!(
        append_admin_auth_source("mongodb://u:p@h"),
        "mongodb://u:p@h/?authSource=admin"
    );
    assert_eq!(
        append_admin_auth_source("mongodb://u:p@h/db"),
        "mongodb://u:p@h/db?authSource=admin"
    );
    assert_eq!(
        append_admin_auth_source("mongodb://h/?a=1"),
        "mongodb://h/?a=1&authSource=admin"
    );
    assert_eq!(
        append_admin_auth_source("mongodb://h/?a=1&"),
        "mongodb://h/?a=1&authSource=admin"
    );
    assert_eq!(
        append_admin_auth_source("mongodb://h/?"),
        "mongodb://h/?authSource=admin"
    );
    assert!(has_auth_source("mongodb://h/?AuthSource=x"));
    assert!(should_retry_with_admin_auth_source(
        "mongodb://u:p@h",
        "SCRAM failure: no"
    ));
    assert!(!should_retry_with_admin_auth_source(
        "mongodb://h",
        "SCRAM failure: no"
    ));
    assert!(!should_retry_with_admin_auth_source(
        "mongodb://u:p@h",
        "timeout"
    ));
    assert!(matches!(start_connect(true, "x"), ConnectAction::Done));
    let refused = Some("AuthenticationFailed".to_string());
    let next = continue_connect("mongodb://u:p@h", false, true, &refused);
    let ConnectAction::Open {
        connection_string,
        retry: true,
    } = next
    else {
        panic!("the server is tried again");
    };
    assert!(matches!(
        continue_connect(&connection_string, true, true, &refused),
        ConnectAction::PingFailed
    ));
    assert!(matches!(
        continue_connect(&connection_string, true, true, &None),
        ConnectAction::Keep { .. }
    ));
    assert!(matches!(
        continue_connect("x", false, false, &None),
        ConnectAction::ConnectFailed
    ));
}

#[test]
fn commands_are_documents() {
    assert!(lists_sessions("system.sessions"));
    assert!(!lists_sessions("users"));
    let inputs = read_query_inputs_or_default(&QueryTexts::initial(), &labels());
    let plan = build_find_options(&inputs, 50);
    let pipeline = session_pipeline(true, &None, &plan);
    assert_eq!(
        pipeline,
        vec![
            document(vec![(
                "$listSessions",
                Bson::Document(document(vec![("allUsers", Bson::Boolean(true))]))
            )]),
            document(vec![("$skip", Bson::Int64(50))]),
            document(vec![("$limit", Bson::Int64(25))]),
        ]
    );
    let filter = Some(document(vec![("a", Bson::Int32(1))]));
    assert_eq!(session_pipeline(false, &filter, &plan).len(), 4);
    let open_end = FindPlan {
        limit: None,
        skip: Some(5),
        sort: None,
        projection: None,
    };
    assert_eq!(
        session_pipeline(false, &filter, &open_end),
        vec![
            document(vec![("$listSessions", Bson::Document(Document::new()))]),
            document(vec![("$match", Bson::Document(filter.clone().unwrap()))]),
            document(vec![("$skip", Bson::Int64(5))]),
        ]
    );
    let explained = explain_command("users", &None, &open_end);
    assert!(explained.get_document("explain").unwrap().get("limit").is_none());
    assert!(matches!(
        start_find("users", &filter, &plan),
        FindStep::Search { filter: f } if Some(&f) == filter.as_ref()
    ));
    let first = start_find("system.sessions", &filter, &plan);
    let second = continue_find(&first, FindFault::Refused, &filter, &plan);
    assert!(matches!(
        &second,
        FindStep::List { pipeline, all_users: false }
            if pipeline == &session_pipeline(false, &filter, &plan)
    ));
    assert!(matches!(
        continue_find(&second, FindFault::Refused, &filter, &plan),
        FindStep::Fail
    ));
    for step in [&first, &second] {
        assert!(matches!(
            continue_find(step, FindFault::Broken, &filter, &plan),
            FindStep::Fail
        ));
    }
    assert!(matches!(client_of(Some(&5)), Ok(5)));
    assert!(matches!(client_of::<i32>(None), Err(MongoError::NotConnected)));
    assert_eq!(
        create_index_command(
            "users",
            &document(vec![("a", Bson::Int32(1))]),
            &Some("by_a".to_string())
        ),
        document(vec![
            ("createIndexes", text("users")),
            (
                "indexes",
                Bson::Array(vec![Bson::Document(document(vec![
                    ("key", Bson::Document(document(vec![("a", Bson::Int32(1))]))),
                    ("name", text("by_a")),
                ]))])
            ),
        ])
    );
    let update = update_validation_command("users", &None);
    assert_eq!(update.get("validator"), Some(&Bson::Document(Document::new())));
    assert_eq!(update.get("validationLevel"), Some(&text("moderate")));
    let explain = explain_command("users", &filter, &plan);
    let find = explain.get_document("explain").unwrap();
    assert_eq!(find.get("find"), Some(&text("users")));
    assert_eq!(find.get("skip"), Some(&Bson::Int64(50)));
    assert_eq!(find.get("limit"), Some(&Bson::Int64(25)));
    assert!(find.get("sort").is_none());
}

#[test]
fn replies_are_read() {
    let index = document(vec![("name", text("_id_"))]);
    let reply = document(vec![(
        "cursor",
        Bson::Document(document(vec![(
            "firstBatch",
            Bson::Array(vec![Bson::Document(index.clone()), Bson::Int32(1)]),
        )])),
    )]);
    assert_eq!(indexes_of_reply(&reply).unwrap(), vec![index]);
    assert!(validator_of_reply(&reply).unwrap().is_none());
    assert!(matches!(
        indexes_of_reply(&Document::new()),
        Err(ReplyFault::NotPresent(key)) if key == "cursor"
    ));
    assert!(matches!(
        indexes_of_reply(&document(vec![("cursor", Bson::Int32(1))])),
        Err(ReplyFault::UnexpectedKind(key)) if key == "cursor"
    ));
    let rules = document(vec![("a", Bson::Int32(1))]);
    let reply = document(vec![(
        "cursor",
        Bson::Document(document(vec![(
            "firstBatch",
            Bson::Array(vec![Bson::Document(document(vec![(
                "options",
                Bson::Document(document(vec![(
                    "validator",
                    Bson::Document(rules.clone()),
                )])),
            )]))]),
        )])),
    )]);
    assert_eq!(validator_of_reply(&reply).unwrap(), Some(rules));
}

#[test]
fn errors_and_nodes() {
    assert_eq!(
        MongoError::connection("x".to_string()).text(),
        "Connection error: x"
    );
    assert_eq!(MongoError::command("x".to_string()).text(), "Command error: x");
    assert_eq!(MongoError::NotConnected.text(), "Not connected to MongoDB");
    assert_eq!(
        MongoError::Internal("x".to_string()).text(),
        "Internal error: x"
    );
    let with_source =
        MongoError::command_with_source("x".to_string(), anyhow::Error::msg("behind"));
    assert_eq!(with_source.text(), "Command error: x");
    assert!(matches!(
        MongoError::connection_with_source("x".to_string(), anyhow::Error::msg("behind")),
        MongoError::Connection { source: Some(_), .. }
    ));
    let mut node = MongoNode::new_connection("1".to_string(), "local".to_string());
    assert!(node.is_expandable());
    node.set_children(vec![MongoNode::new_database(
        "1:db".to_string(),
        "db".to_string(),
        "1".to_string(),
        "db".to_string(),
    )]);
    assert!(node.children_loaded);
    assert_eq!(node.children[0].node_type, MongoNodeType::Database);
    let leaf = MongoNode::new_collection(
        "1:db:c".to_string(),
        "c".to_string(),
        "1".to_string(),
        "db".to_string(),
        "c".to_string(),
    );
    assert!(!leaf.is_expandable());
    assert!(leaf.children_loaded);
}

#[test]
fn cells_are_shown_pasted_and_edited() {
    let mut delegate = MongoDocumentTableDelegate::new(vec![document(vec![
        ("_id", Bson::Int32(1)),
        ("n", Bson::Int32(1)),
        ("s", Bson::Null),
        ("d", Bson::Document(Document::new())),
    ])]);
    assert_eq!(delegate.columns_count(), 4);
    assert_eq!(delegate.get_cell_value(0, 1), "1");
    assert_eq!(delegate.get_cell_value(5, 1), "");
    assert_eq!(delegate.build_input(0, 1).as_deref(), Some("1"));
    assert_eq!(delegate.build_input(0, 2).as_deref(), Some(""));
    assert_eq!(delegate.build_input(0, 0), None);
    assert_eq!(delegate.build_input(0, 3), None);
    assert!(delegate.cell_edit_enabled() && delegate.single_click_to_edit());
    assert!(delegate.row_number_enabled());
    assert!(delegate.set_cell_values(vec![
        (0, 1, "2".to_string()),
        (0, 1, "x".to_string()),
        (9, 1, "3".to_string()),
    ]));
    assert_eq!(delegate.value_at(0, 1), Some(Bson::Int32(2)));
    assert!(!delegate.set_cell_values(vec![(0, 0, "2".to_string())]));
}
