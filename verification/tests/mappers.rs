use transf_orm_cli::importer::prisma::ast::{RawArg, RawAttr, RawValue};
use transf_orm_cli::importer::prisma::mappers::{
    extract_columns_from_attr, extract_db_naming, extract_index_columns, extract_one_index_col,
    map_db_hint, map_default_value, map_index_type, map_scalar_type, parse_referential_action,
    raw_args_to_json, raw_value_to_json,
};
use transf_orm_cli::json::JsonValue;
use transf_orm_cli::pivot::relation::ReferentialAction;
use transf_orm_cli::pivot::table::{IndexType, SortDirection};
use transf_orm_cli::pivot::types::{
    ColumnType, DbHint, DefaultFn, DefaultValue, LiteralValue, ScalarType,
};

fn s(x: &str) -> String {
    x.to_string()
}

fn pos_int(n: i64) -> RawArg {
    RawArg::Positional(RawValue::Int(n))
}

#[test]
fn scalar_types_map_exactly() {
    assert_eq!(map_scalar_type("String"), Some(ScalarType::String));
    assert_eq!(map_scalar_type("Int"), Some(ScalarType::Int));
    assert_eq!(map_scalar_type("BigInt"), Some(ScalarType::BigInt));
    assert_eq!(map_scalar_type("Float"), Some(ScalarType::Double));
    assert_eq!(
        map_scalar_type("Decimal"),
        Some(ScalarType::Decimal { precision: 65, scale: 30 })
    );
    assert_eq!(map_scalar_type("Boolean"), Some(ScalarType::Boolean));
    assert_eq!(
        map_scalar_type("DateTime"),
        Some(ScalarType::Timestamp { precision: 3, with_timezone: false })
    );
    assert_eq!(map_scalar_type("Json"), Some(ScalarType::Json));
    assert_eq!(map_scalar_type("Bytes"), Some(ScalarType::Bytes));
    assert_eq!(map_scalar_type("string"), None);
    assert_eq!(map_scalar_type(""), None);
}

#[test]
fn index_types_map_exactly() {
    assert_eq!(map_index_type("BTree"), IndexType::BTree);
    assert_eq!(map_index_type("Btree"), IndexType::BTree);
    assert_eq!(map_index_type("Hash"), IndexType::Hash);
    assert_eq!(map_index_type("Gin"), IndexType::Gin);
    assert_eq!(map_index_type("Gist"), IndexType::Gist);
    assert_eq!(map_index_type("Brin"), IndexType::Brin);
    assert_eq!(map_index_type("SpGist"), IndexType::SpGist);
    assert_eq!(map_index_type("Bloom"), IndexType::Custom { name: s("Bloom") });
}

#[test]
fn referential_actions_map_exactly() {
    assert_eq!(parse_referential_action("Cascade"), Some(ReferentialAction::Cascade));
    assert_eq!(parse_referential_action("Restrict"), Some(ReferentialAction::Restrict));
    assert_eq!(parse_referential_action("SetNull"), Some(ReferentialAction::SetNull));
    assert_eq!(parse_referential_action("SetDefault"), Some(ReferentialAction::SetDefault));
    assert_eq!(parse_referential_action("NoAction"), Some(ReferentialAction::NoAction));
    assert_eq!(parse_referential_action("cascade"), None);
}

#[test]
fn db_hints_with_arguments() {
    assert_eq!(map_db_hint("db.VarChar", &vec![pos_int(255)]), Some(DbHint::VarChar { length: 255 }));
    assert_eq!(map_db_hint("db.VarChar", &vec![]), None);
    assert_eq!(map_db_hint("db.Char", &vec![pos_int(2)]), Some(DbHint::Char { length: 2 }));
    assert_eq!(
        map_db_hint("db.Decimal", &vec![pos_int(10), pos_int(2)]),
        Some(DbHint::Numeric { precision: 10, scale: 2 })
    );
    assert_eq!(
        map_db_hint(
            "db.Numeric",
            &vec![
                RawArg::Named(s("scale"), RawValue::Int(4)),
                RawArg::Named(s("precision"), RawValue::Int(12)),
            ]
        ),
        Some(DbHint::Numeric { precision: 12, scale: 4 })
    );
    assert_eq!(map_db_hint("db.Decimal", &vec![pos_int(10)]), None);
    assert_eq!(map_db_hint("db.Time", &vec![pos_int(3)]), Some(DbHint::Time { precision: 3 }));
    assert_eq!(map_db_hint("db.Timestamp", &vec![]), Some(DbHint::Timestamp { precision: 0 }));
    assert_eq!(map_db_hint("db.Bit", &vec![]), Some(DbHint::Bit { length: None }));
    assert_eq!(map_db_hint("db.VarBit", &vec![pos_int(8)]), Some(DbHint::Bit { length: Some(8) }));
    assert_eq!(map_db_hint("db.Uuid", &vec![]), Some(DbHint::Uuid));
    assert_eq!(map_db_hint("db.Integer", &vec![]), Some(DbHint::Int));
    assert_eq!(
        map_db_hint("db.Geometry", &vec![]),
        Some(DbHint::Custom { type_expr: s("Geometry") })
    );
    assert_eq!(map_db_hint("map", &vec![]), None);
}

#[test]
fn default_values_map_exactly() {
    assert_eq!(
        map_default_value(&RawValue::Str(s("x"))),
        Some(DefaultValue::Literal(LiteralValue::String(s("x"))))
    );
    assert_eq!(
        map_default_value(&RawValue::Int(-3)),
        Some(DefaultValue::Literal(LiteralValue::Int(-3)))
    );
    assert_eq!(
        map_default_value(&RawValue::Float(s("1.5"))),
        Some(DefaultValue::Literal(LiteralValue::Float(s("1.5"))))
    );
    assert_eq!(
        map_default_value(&RawValue::Ident(s("true"))),
        Some(DefaultValue::Literal(LiteralValue::Bool(true)))
    );
    assert_eq!(
        map_default_value(&RawValue::Ident(s("false"))),
        Some(DefaultValue::Literal(LiteralValue::Bool(false)))
    );
    assert_eq!(
        map_default_value(&RawValue::Ident(s("ADMIN"))),
        Some(DefaultValue::Literal(LiteralValue::String(s("ADMIN"))))
    );
    assert_eq!(
        map_default_value(&RawValue::Call(s("now"), vec![])),
        Some(DefaultValue::Function(DefaultFn::Now))
    );
    assert_eq!(
        map_default_value(&RawValue::Call(s("cuid2"), vec![])),
        Some(DefaultValue::Function(DefaultFn::Cuid2))
    );
    assert_eq!(
        map_default_value(&RawValue::Call(
            s("dbgenerated"),
            vec![RawArg::Positional(RawValue::Str(s("gen_random_uuid()")))]
        )),
        Some(DefaultValue::Raw(s("gen_random_uuid()")))
    );
    assert_eq!(
        map_default_value(&RawValue::Call(s("dbgenerated"), vec![])),
        Some(DefaultValue::Raw(s("")))
    );
    assert_eq!(map_default_value(&RawValue::Call(s("random"), vec![])), None);
    assert_eq!(map_default_value(&RawValue::Array(vec![])), None);
}

#[test]
fn index_columns_from_values() {
    let col = extract_one_index_col(&RawValue::Call(
        s("title"),
        vec![RawArg::Named(s("sort"), RawValue::Ident(s("Desc")))],
    ));
    assert_eq!(col.column, "title");
    assert_eq!(col.sort, SortDirection::Desc);
    let cols = extract_index_columns(&RawValue::Array(vec![
        RawValue::Ident(s("a")),
        RawValue::Ident(s("b")),
    ]));
    assert_eq!(cols.len(), 2);
    assert_eq!(cols[1].column, "b");
    assert_eq!(cols[1].sort, SortDirection::Asc);
    let single = extract_index_columns(&RawValue::Ident(s("only")));
    assert_eq!(single.len(), 1);
    assert_eq!(single[0].column, "only");
}

#[test]
fn columns_and_naming_from_attributes() {
    let attr = RawAttr {
        path: s("unique"),
        args: vec![RawArg::Named(
            s("fields"),
            RawValue::Array(vec![RawValue::Ident(s("email")), RawValue::Ident(s("name"))]),
        )],
    };
    assert_eq!(extract_columns_from_attr(&attr), vec![s("email"), s("name")]);
    let attrs = vec![
        RawAttr { path: s("map"), args: vec![RawArg::Positional(RawValue::Str(s("users")))] },
        RawAttr { path: s("schema"), args: vec![RawArg::Positional(RawValue::Str(s("auth")))] },
    ];
    assert_eq!(extract_db_naming(&attrs), (Some(s("users")), Some(s("auth"))));
    assert_eq!(extract_db_naming(&vec![]), (None, None));
}

#[test]
fn attribute_arguments_to_json() {
    assert_eq!(raw_args_to_json(&vec![]), JsonValue::Bool(true));
    assert_eq!(raw_args_to_json(&vec![pos_int(7)]), JsonValue::Int(7));
    assert_eq!(
        raw_args_to_json(&vec![
            RawArg::Named(s("a"), RawValue::Int(1)),
            RawArg::Named(s("b"), RawValue::Ident(s("x"))),
        ]),
        JsonValue::Object(vec![
            (s("a"), JsonValue::Int(1)),
            (s("b"), JsonValue::String(s("x"))),
        ])
    );
    // Members are kept in key order; a repeated key keeps its last value.
    assert_eq!(
        raw_args_to_json(&vec![
            RawArg::Named(s("z"), RawValue::Int(1)),
            RawArg::Named(s("a"), RawValue::Int(2)),
            pos_int(3),
            RawArg::Named(s("z"), RawValue::Int(4)),
        ]),
        JsonValue::Object(vec![
            (s("_"), JsonValue::Int(3)),
            (s("a"), JsonValue::Int(2)),
            (s("z"), JsonValue::Int(4)),
        ])
    );
    // A named argument with one positional argument: the value itself under `_`.
    assert_eq!(
        raw_args_to_json(&vec![RawArg::Named(s("map"), RawValue::Str(s("x"))), pos_int(1)]),
        JsonValue::Object(vec![
            (s("_"), JsonValue::Int(1)),
            (s("map"), JsonValue::String(s("x"))),
        ])
    );
    assert_eq!(
        raw_args_to_json(&vec![RawArg::Named(s("sort"), RawValue::Ident(s("Desc")))]),
        JsonValue::Object(vec![(s("sort"), JsonValue::String(s("Desc")))])
    );
    assert_eq!(
        raw_args_to_json(&vec![RawArg::Positional(RawValue::Array(vec![RawValue::Ident(s("id"))]))]),
        JsonValue::Array(vec![JsonValue::String(s("id"))])
    );
    // Several positional arguments are all kept, in order.
    assert_eq!(
        raw_args_to_json(&vec![pos_int(1), pos_int(2)]),
        JsonValue::Object(vec![(
            s("_"),
            JsonValue::Array(vec![JsonValue::Int(1), JsonValue::Int(2)])
        )])
    );
    assert_eq!(
        raw_value_to_json(&RawValue::Call(s("now"), vec![pos_int(1)])),
        JsonValue::Object(vec![
            (s("args"), JsonValue::Array(vec![JsonValue::Int(1)])),
            (s("fn"), JsonValue::String(s("now"))),
        ])
    );
    assert_eq!(
        raw_value_to_json(&RawValue::Array(vec![RawValue::Str(s("p")), RawValue::Int(2)])),
        JsonValue::Array(vec![JsonValue::String(s("p")), JsonValue::Int(2)])
    );
}

#[test]
fn simple_column_type_has_no_hint() {
    let t = ColumnType::simple(ScalarType::Uuid);
    assert_eq!(t.scalar, ScalarType::Uuid);
    assert_eq!(t.db_hint, None);
    assert!(!t.array);
}
