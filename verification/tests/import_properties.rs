use transf_orm_cli::importer::prisma::parse_schema;
use transf_orm_cli::json::JsonValue;
use transf_orm_cli::pivot::relation::{ReferentialAction, Relation, RelationKind};
use transf_orm_cli::pivot::table::{IndexType, SortDirection, Table};
use transf_orm_cli::pivot::types::{DbHint, DefaultFn, DefaultValue, LiteralValue, ScalarType};
use transf_orm_cli::pivot::DatabaseKind;

fn junction_of(r: &Relation) -> Option<(String, bool)> {
    match &r.kind {
        RelationKind::ManyToMany { junction, implicit } => Some((junction.table.clone(), *implicit)),
        _ => None,
    }
}

fn table<'a>(tables: &'a [Table], name: &str) -> &'a Table {
    tables.iter().find(|t| t.name == name).unwrap()
}

#[test]
fn columns_follow_scalar_fields_in_order() {
    let input = r#"
        model User {
          id      Int     @id
          posts   Post[]
          email   String
          profile Profile?
          age     Int?
        }
        model Post { id Int @id author User @relation(fields: [authorId], references: [id]) authorId Int }
        model Profile { id Int @id user User @relation(fields: [userId], references: [id]) userId Int @unique }
    "#;
    let schema = parse_schema(input).unwrap();
    let user = &schema.tables[0];
    let names: Vec<&str> = user.columns.iter().map(|c| c.name.as_str()).collect();
    assert_eq!(names, ["id", "email", "age"]);
    let post = &schema.tables[1];
    let names: Vec<&str> = post.columns.iter().map(|c| c.name.as_str()).collect();
    assert_eq!(names, ["id", "authorId"]);
}

#[test]
fn blocks_keep_their_order() {
    let input = r#"
        enum B { X }
        model Z { id Int @id }
        view V2 { id Int }
        enum A { Y }
        model M { id Int @id }
        view V1 { id Int }
    "#;
    let schema = parse_schema(input).unwrap();
    let tables: Vec<&str> = schema.tables.iter().map(|t| t.name.as_str()).collect();
    let views: Vec<&str> = schema.views.iter().map(|v| v.name.as_str()).collect();
    let enums: Vec<&str> = schema.enums.iter().map(|e| e.name.as_str()).collect();
    assert_eq!(tables, ["Z", "M"]);
    assert_eq!(views, ["V2", "V1"]);
    assert_eq!(enums, ["B", "A"]);
}

#[test]
fn foreign_key_relation_on_both_tables() {
    let input = r#"
        model Post {
          id       Int  @id
          authorId Int
          author   User @relation(fields: [authorId], references: [id], onUpdate: Restrict)
        }
        model User { id Int @id posts Post[] }
    "#;
    let schema = parse_schema(input).unwrap();
    let post = table(&schema.tables, "Post");
    let user = table(&schema.tables, "User");
    assert_eq!(post.foreign_keys.len(), 1);
    assert!(user.foreign_keys.is_empty());
    let rel_post = &post.relations[0];
    let rel_user = &user.relations[0];
    for r in [rel_post, rel_user] {
        assert_eq!(r.from_table, "User");
        assert_eq!(r.from_fields, ["id"]);
        assert_eq!(r.to_table, "Post");
        assert_eq!(r.to_fields, ["authorId"]);
        assert_eq!(r.cascade.on_update, Some(ReferentialAction::Restrict));
    }
    // Both copies carry the relation's cardinality: `User.posts` is a list.
    assert_eq!(rel_post.kind, RelationKind::OneToMany);
    assert_eq!(rel_user.kind, RelationKind::OneToMany);
    assert_eq!(rel_post, rel_user);
}

#[test]
fn one_to_one_when_back_field_is_single() {
    let input = r#"
        model User { id Int @id profile Profile? }
        model Profile {
          id     Int  @id
          userId Int  @unique
          user   User @relation(fields: [userId], references: [id])
        }
    "#;
    let schema = parse_schema(input).unwrap();
    let profile = table(&schema.tables, "Profile");
    let user = table(&schema.tables, "User");
    let one = RelationKind::OneToOne { owner_table: "Profile".to_string() };
    assert_eq!(profile.relations[0].kind, one);
    assert_eq!(user.relations[0].kind, one);
}

#[test]
fn named_implicit_many_to_many_keeps_its_name() {
    let input = r#"
        model A { id Int @id bs B[] @relation("Links") }
        model B { id Int @id as A[] @relation("Links") }
    "#;
    let schema = parse_schema(input).unwrap();
    for (t, other) in [("A", "B"), ("B", "A")] {
        let rels = &table(&schema.tables, t).relations;
        assert_eq!(rels.len(), 1);
        assert_eq!(rels[0].name.as_deref(), Some("Links"));
        assert_eq!(junction_of(&rels[0]), Some(("_AToB".to_string(), true)));
        assert_eq!(rels[0].from_table, t);
        assert_eq!(rels[0].to_table, other);
    }
}

#[test]
fn implicit_many_to_many_on_both_sides() {
    // Tag is declared first: the junction still names the models in sorted order.
    let input = r#"
        model Tag { id Int @id posts Post[] }
        model Post { id Int @id tags Tag[] }
    "#;
    let schema = parse_schema(input).unwrap();
    let tag = table(&schema.tables, "Tag");
    let post = table(&schema.tables, "Post");
    assert_eq!(tag.relations.len(), 1);
    assert_eq!(post.relations.len(), 1);
    assert_eq!(junction_of(&tag.relations[0]), Some(("_PostToTag".to_string(), true)));
    assert_eq!(junction_of(&post.relations[0]), Some(("_PostToTag".to_string(), true)));
    assert_eq!(tag.relations[0].from_table, "Tag");
    assert_eq!(tag.relations[0].to_table, "Post");
    assert_eq!(post.relations[0].from_table, "Post");
    assert_eq!(post.relations[0].to_table, "Tag");
}

#[test]
fn list_without_back_list_is_not_many_to_many() {
    let input = r#"
        model Tag { id Int @id posts Post[] }
        model Post { id Int @id tagId Int tag Tag @relation(fields: [tagId], references: [id]) }
    "#;
    let schema = parse_schema(input).unwrap();
    for t in &schema.tables {
        assert!(t.relations.iter().all(|r| junction_of(r).is_none()));
    }
}

#[test]
fn unknown_attributes_keep_arguments() {
    let input = r#"
        model User {
          id    Int    @id
          email String @encrypted(algo: "aes", bits: 256) @db.VarChar(10)
          @@shardKey([id])
          @@auditLog
          @@ignore
        }
    "#;
    let schema = parse_schema(input).unwrap();
    let feats = &schema.tables[0].metadata.unknown_features;
    assert_eq!(feats[0].name, "prisma.ignore");
    let shard = feats.iter().find(|f| f.name == "prisma.shardKey").unwrap();
    assert_eq!(shard.value, JsonValue::Array(vec![JsonValue::String("id".to_string())]));
    let audit = feats.iter().find(|f| f.name == "prisma.auditLog").unwrap();
    assert_eq!(audit.value, JsonValue::Bool(true));
    let enc = feats.iter().find(|f| f.name == "prisma.field.email.encrypted").unwrap();
    assert_eq!(
        enc.value,
        JsonValue::Object(vec![
            ("algo".to_string(), JsonValue::String("aes".to_string())),
            ("bits".to_string(), JsonValue::Int(256)),
        ])
    );
    assert!(feats.iter().all(|f| !f.name.contains("db.")));
}

const RICH: &str = r#"
// A schema in the shape of a real application.
generator client {
  provider        = "prisma-client-js"
  previewFeatures = ["multiSchema", "views"]
}

datasource db {
  provider = "postgresql"
  url      = env("DATABASE_URL")
  schemas  = ["public", "shop", "analytics"]
}

type UuidPk = String @id @default(uuid()) @db.Uuid

/// Application users.
model User {
  id        UuidPk
  email     String   @unique
  tags      String[]
  balance   Decimal  @default(0.5) @db.Decimal(12, 2)
  ipAddress String?  @db.Inet
  createdAt DateTime @default(now())
  score     Int      @default(-1)
  profile   Profile?
  posts     Post[]
  written   Review[] @relation("Author")
  received  Review[] @relation("Subject")

  @@index([createdAt(sort: Desc)])
  @@schema("public")
}

model Profile {
  id        Int                      @id @default(autoincrement())
  userId    String                   @unique @db.Uuid
  user      User                     @relation(fields: [userId], references: [id], onDelete: Cascade)
  rawConfig Unsupported("hstore")?
  @@schema("public")
}

model Post {
  id           Int    @id
  title        String
  body         String
  internalNote String @ignore
  authorId     String @db.Uuid
  author       User   @relation(fields: [authorId], references: [id])
  tags         Tag[]
  @@fulltext([title, body])
  @@schema("public")
}

model Tag {
  id    Int    @id
  posts Post[]
  @@schema("public")
}

model Review {
  id        Int    @id
  authorId  String
  subjectId String
  author    User   @relation("Author", fields: [authorId], references: [id])
  subject   User   @relation("Subject", fields: [subjectId], references: [id])
  @@schema("shop")
}

model Product {
  id    Int         @id
  items OrderItem[]
  @@schema("shop")
}

model Order {
  id     Int         @id
  status Status      @default(PENDING)
  items  OrderItem[]
  @@schema("shop")
}

model OrderItem {
  orderId   Int
  productId Int
  order     Order   @relation(fields: [orderId], references: [id])
  product   Product @relation(fields: [productId], references: [id])
  @@id([orderId, productId])
  @@schema("shop")
}

model Event {
  id   String @id @default(dbgenerated("gen_random_uuid()")) @db.Uuid
  kind EventKind
  @@ignore
  @@schema("analytics")
}

view UserStats {
  userId    String @unique
  postCount Int
  @@schema("analytics")
}

enum Status {
  PENDING
  DONE @map("done")
  @@schema("shop")
}

enum EventKind {
  CLICK
  VIEW
  @@map("event_kind")
  @@schema("analytics")
}

enum Role {
  USER
  ADMIN
  @@schema("public")
}
"#;

#[test]
fn parse_rich_schema() {
    let schema = parse_schema(RICH).expect("schema should parse without error");
    assert_eq!(schema.database, DatabaseKind::PostgreSql);
    let names: Vec<&str> = schema.tables.iter().map(|t| t.name.as_str()).collect();
    assert_eq!(
        names,
        ["User", "Profile", "Post", "Tag", "Review", "Product", "Order", "OrderItem", "Event"]
    );
    assert_eq!(schema.enums.len(), 3);
    assert_eq!(schema.enums[1].db_name.as_deref(), Some("event_kind"));
    assert_eq!(schema.views.len(), 1);
    assert_eq!(schema.views[0].name, "UserStats");

    let user = table(&schema.tables, "User");
    let id = user.columns.iter().find(|c| c.name == "id").unwrap();
    assert_eq!(id.col_type.scalar, ScalarType::String);
    assert_eq!(id.col_type.db_hint, Some(DbHint::Uuid));
    assert_eq!(id.default, Some(DefaultValue::Function(DefaultFn::Uuid)));
    assert_eq!(user.primary_key.as_ref().unwrap().columns, ["id"]);
    assert_eq!(user.db_schema.as_deref(), Some("public"));
    assert!(user.columns.iter().find(|c| c.name == "tags").unwrap().col_type.array);
    let balance = user.columns.iter().find(|c| c.name == "balance").unwrap();
    assert_eq!(balance.col_type.db_hint, Some(DbHint::Numeric { precision: 12, scale: 2 }));
    assert_eq!(
        balance.default,
        Some(DefaultValue::Literal(LiteralValue::Float("0.5".to_string())))
    );
    let score = user.columns.iter().find(|c| c.name == "score").unwrap();
    assert_eq!(score.default, Some(DefaultValue::Literal(LiteralValue::Int(-1))));
    let ip = user.columns.iter().find(|c| c.name == "ipAddress").unwrap();
    assert_eq!(ip.col_type.db_hint, Some(DbHint::Inet));
    assert!(ip.nullable);
    let idx = user.indexes.iter().find(|i| i.columns.iter().any(|c| c.column == "createdAt"));
    assert_eq!(idx.unwrap().columns[0].sort, SortDirection::Desc);

    let profile = table(&schema.tables, "Profile");
    let raw = profile.columns.iter().find(|c| c.name == "rawConfig").unwrap();
    assert!(
        matches!(&raw.col_type.scalar, ScalarType::Unsupported { raw_type } if raw_type == "hstore")
    );
    assert!(raw.nullable);

    let post = table(&schema.tables, "Post");
    assert!(post.columns.iter().any(|c| c.name == "internalNote"));
    assert!(post.metadata.unknown_features.iter().any(|f| f.name == "prisma.ignoredFields"));
    assert!(post.relations.iter().any(|r| junction_of(r) == Some(("_PostToTag".to_string(), true))));
    assert!(post.indexes.iter().any(
        |i| matches!(&i.index_type, Some(IndexType::Custom { name }) if name == "fulltext")
    ));

    let review = table(&schema.tables, "Review");
    assert_eq!(review.foreign_keys.len(), 2);
    assert_eq!(review.db_schema.as_deref(), Some("shop"));

    let order_item = table(&schema.tables, "OrderItem");
    let pk = order_item.primary_key.as_ref().unwrap();
    assert_eq!(pk.columns, ["orderId", "productId"]);

    let order = table(&schema.tables, "Order");
    let status = order.columns.iter().find(|c| c.name == "status").unwrap();
    assert_eq!(status.col_type.scalar, ScalarType::Enum { name: "Status".to_string() });

    let event = table(&schema.tables, "Event");
    assert_eq!(event.db_schema.as_deref(), Some("analytics"));
    assert_eq!(event.metadata.unknown_features[0].name, "prisma.ignore");
    let eid = event.columns.iter().find(|c| c.name == "id").unwrap();
    assert_eq!(eid.default, Some(DefaultValue::Raw("gen_random_uuid()".to_string())));

    // Foreign keys and relations only point at declared models.
    for t in &schema.tables {
        for fk in &t.foreign_keys {
            assert!(names.contains(&fk.referenced_table.as_str()));
        }
        for r in &t.relations {
            assert!(names.contains(&r.from_table.as_str()));
            assert!(names.contains(&r.to_table.as_str()));
        }
    }
}

#[test]
fn keywords_as_field_names() {
    let input = "model Event {\r\n\tid Int @id // key\r\n\ttype String\r\n\tmodel String?\r\n\tview Int[]\r\n}\r\nenum Kind { type model }";
    let schema = parse_schema(input).unwrap();
    let names: Vec<&str> = schema.tables[0].columns.iter().map(|c| c.name.as_str()).collect();
    assert_eq!(names, ["id", "type", "model", "view"]);
    assert_eq!(schema.enums[0].values[0].name, "type");
    assert_eq!(schema.enums[0].values[1].name, "model");
}
