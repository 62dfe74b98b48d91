use transf_orm_cli::exporter::ExportError;
use transf_orm_cli::importer::prisma::{parse_schema, PrismaImporter};
use transf_orm_cli::importer::{ImportError, Importer};
use transf_orm_cli::pivot::types::ScalarType;
use transf_orm_cli::pivot::{DatabaseKind, Schema};
use transf_orm_cli::registry::{
    detect, eq_ignore_ascii_case, find_by_name, names, orms, path_extension, ImporterKind,
};

#[test]
fn registry_lists_prisma() {
    let all = orms();
    assert_eq!(all.len(), 1);
    assert_eq!(all[0].name, "prisma");
    assert_eq!(all[0].display_name, "Prisma");
    assert_eq!(all[0].extensions, vec!["prisma"]);
    assert!(all[0].certain);
    assert_eq!(all[0].make_importer, Some(ImporterKind::Prisma));
    assert!(!all[0].can_export);
    assert_eq!(names(), vec!["prisma"]);
}

#[test]
fn detect_by_extension() {
    assert_eq!(detect("schema.prisma").map(|d| d.name), Some("prisma"));
    assert_eq!(detect("/home/me/app/prisma/schema.prisma").map(|d| d.name), Some("prisma"));
    assert_eq!(detect("dir.prisma/schema.txt").map(|d| d.name), None);
    assert!(detect("schema.PRISMA").is_none());
    assert!(detect(".prisma").is_none());
    assert!(detect("schema").is_none());
    assert!(detect("").is_none());
}

#[test]
fn path_extension_follows_std_rules() {
    let cases = [
        "foo.rs",
        "foo.tar.gz",
        ".bashrc",
        "foo",
        "foo.",
        "a/b.c/",
        "a/b.c/.",
        "a/b.c/..",
        "/",
        "..",
        "...",
        "x/./y.z",
        "dir//file.txt",
    ];
    for c in cases {
        let expected = std::path::Path::new(c)
            .extension()
            .map(|e| e.to_str().unwrap().to_string());
        assert_eq!(path_extension(c), expected, "path {:?}", c);
    }
}

#[test]
fn find_by_name_ignores_ascii_case() {
    assert_eq!(find_by_name("prisma").map(|d| d.name), Some("prisma"));
    assert_eq!(find_by_name("PRISMA").map(|d| d.name), Some("prisma"));
    assert_eq!(find_by_name("PrIsMa").map(|d| d.name), Some("prisma"));
    assert!(find_by_name("drizzle").is_none());
    assert!(find_by_name("prism").is_none());
    assert!(find_by_name("").is_none());
}

#[test]
fn ascii_case_comparison() {
    assert!(eq_ignore_ascii_case("Hello", "hELLO"));
    assert!(!eq_ignore_ascii_case("Hello", "Hell"));
    assert!(!eq_ignore_ascii_case("É", "é"));
    assert!(eq_ignore_ascii_case("straße", "STRAßE"));
    for (a, b) in [("abc", "ABC"), ("a1[", "A1{"), ("Z@", "z`")] {
        assert_eq!(eq_ignore_ascii_case(a, b), a.eq_ignore_ascii_case(b));
    }
}

#[test]
fn importer_kind_runs_prisma() {
    let input = "model A { id Int @id }";
    let r = ImporterKind::Prisma.import(input).unwrap();
    assert_eq!(r.tables.len(), 1);
    let via_trait = PrismaImporter.import(input).unwrap();
    assert_eq!(via_trait, r);
}

#[test]
fn new_schema_is_empty() {
    let s = Schema::new(DatabaseKind::MySql);
    assert_eq!(s.pivot_version, "1.0.0");
    assert_eq!(s.database, DatabaseKind::MySql);
    assert!(s.dialect_version.is_none());
    assert!(s.tables.is_empty() && s.views.is_empty() && s.enums.is_empty());
    assert!(s.functions.is_empty() && s.procedures.is_empty() && s.triggers.is_empty());
}

#[test]
fn empty_input_gives_empty_postgres_schema() {
    let s = parse_schema("").unwrap();
    assert_eq!(s, Schema::new(DatabaseKind::PostgreSql));
    let c = parse_schema("// just a comment\n").unwrap();
    assert_eq!(c, Schema::new(DatabaseKind::PostgreSql));
}

#[test]
fn unexpected_character_is_a_parse_error() {
    match parse_schema("model A { id Int $ }") {
        Err(ImportError::Parse(m)) => assert_eq!(m, "unexpected character `$` at line 1, column 18"),
        other => panic!("unexpected result {:?}", other),
    }
    match parse_schema("model A { name String @default(\"open) }") {
        Err(ImportError::Parse(m)) => {
            assert_eq!(m, "unterminated string literal at line 1, column 32")
        }
        other => panic!("unexpected result {:?}", other),
    }
    match parse_schema("model A {\n  id Int @id\n  n  Int #\n}") {
        Err(ImportError::Parse(m)) => assert_eq!(m, "unexpected character `#` at line 3, column 10"),
        other => panic!("unexpected result {:?}", other),
    }
}

#[test]
fn malformed_block_is_a_parse_error() {
    match parse_schema("model A { id Int @id ") {
        Err(ImportError::Parse(m)) => {
            assert_eq!(m, "invalid block starting with `model` at line 1, column 1")
        }
        other => panic!("unexpected result {:?}", other),
    }
    match parse_schema("table A { }") {
        Err(ImportError::Parse(m)) => {
            assert_eq!(m, "invalid block starting with `table` at line 1, column 1")
        }
        other => panic!("unexpected result {:?}", other),
    }
    match parse_schema("model A { id Int @id }\n\n  enum E { X Y") {
        Err(ImportError::Parse(m)) => {
            assert_eq!(m, "invalid block starting with `enum` at line 3, column 3")
        }
        other => panic!("unexpected result {:?}", other),
    }
    let e = parse_schema("table A { }").unwrap_err();
    assert_eq!(e.message(), "parse error: invalid block starting with `table` at line 1, column 1");
}

#[test]
fn oversized_integer_is_a_schema_error() {
    let input = "model A { name String @db.VarChar(99999999999999999999) }";
    match parse_schema(input) {
        Err(e @ ImportError::Schema(_)) => {
            assert_eq!(e.message(), "schema error: invalid integer: 99999999999999999999");
        }
        other => panic!("unexpected result {:?}", other),
    }
    // The largest i64 still fits.
    assert!(parse_schema("model A { n Int @default(9223372036854775807) }").is_ok());
}

#[test]
fn unknown_type_is_a_schema_error() {
    let input = r#"
        datasource db { provider = "postgresql" }
        model Post {
          id       Int @id
          authorId Int
          author   Usr @relation(fields: [authorId], references: [id])
        }
    "#;
    match parse_schema(input) {
        Err(ImportError::Schema(m)) => assert_eq!(m, "unknown type Usr on field Post.author"),
        other => panic!("unexpected result {:?}", other),
    }
    match parse_schema("model A { id Int @id } view V { x Mystery }") {
        Err(ImportError::Schema(m)) => assert_eq!(m, "unknown type Mystery on field V.x"),
        other => panic!("unexpected result {:?}", other),
    }
    // Scalars, enums, models, aliases and Unsupported(..) are all known.
    let ok = r#"
        type Id = Int @id
        enum Role { A }
        model A { id Id role Role b B? raw Unsupported("hstore") }
        model B { id Int @id aId Int a A @relation(fields: [aId], references: [id]) }
    "#;
    assert!(parse_schema(ok).is_ok());
    // A view name is a known type too: the field becomes an Unsupported column.
    let with_view = parse_schema("view V { id Int } model A { id Int @id v V }").unwrap();
    let v = with_view.tables[0].columns.iter().find(|c| c.name == "v").unwrap();
    assert_eq!(v.col_type.scalar, ScalarType::Unsupported { raw_type: "V".to_string() });
    // An out-of-range integer is reported before an unknown type.
    match parse_schema("model A { x Nope @default(99999999999999999999) }") {
        Err(ImportError::Schema(m)) => assert_eq!(m, "invalid integer: 99999999999999999999"),
        other => panic!("unexpected result {:?}", other),
    }
}

#[test]
fn error_messages() {
    assert_eq!(ImportError::Parse("x".to_string()).message(), "parse error: x");
    assert_eq!(ImportError::Schema("y".to_string()).message(), "schema error: y");
    assert_eq!(
        ExportError::Unsupported("views".to_string()).message(),
        "unsupported construct: views"
    );
    assert_eq!(ExportError::Render("io".to_string()).message(), "render error: io");
}

#[test]
fn datasource_provider_selects_database() {
    let cases = [
        ("postgresql", DatabaseKind::PostgreSql),
        ("postgres", DatabaseKind::PostgreSql),
        ("mysql", DatabaseKind::MySql),
        ("sqlite", DatabaseKind::Sqlite),
        ("sqlserver", DatabaseKind::MsSql),
        ("cockroachdb", DatabaseKind::CockroachDb),
        ("mongodb", DatabaseKind::Custom("mongodb".to_string())),
    ];
    for (p, kind) in cases {
        let input = format!("datasource db {{ provider = \"{}\" }}", p);
        assert_eq!(parse_schema(&input).unwrap().database, kind);
    }
}
