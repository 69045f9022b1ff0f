use catalog_meta::catalog::{DatabaseCatalog, MutableCatalog, USER_ID_BEGIN};
use catalog_meta::error::ErrorKind;

#[test]
fn create_then_get_database() {
    let mut c = DatabaseCatalog::new();
    let d = c.create_database("db1", "FUSE").unwrap();
    assert_eq!(d.name, "db1");
    assert_eq!(d.engine, "FUSE");
    assert_eq!(d.id, USER_ID_BEGIN);
    let g = c.get_database("db1").unwrap();
    assert_eq!(g.id, d.id);
    assert_eq!(g.name, "db1");
    assert_eq!(g.engine, "FUSE");
    assert!(g.id >= USER_ID_BEGIN);
}

#[test]
fn create_database_twice_fails() {
    let mut c = DatabaseCatalog::new();
    c.create_database("db1", "FUSE").unwrap();
    let e = c.create_database("db1", "MEMORY").err().unwrap();
    assert_eq!(e.kind, ErrorKind::AlreadyExists);
    assert_eq!(e.context, "(while create database).");
    assert_eq!(c.get_database("db1").unwrap().engine, "FUSE");
}

#[test]
fn drop_missing_database() {
    let mut c = DatabaseCatalog::new();
    assert!(c.drop_database("nope", true).is_ok());
    let e = c.drop_database("nope", false).err().unwrap();
    assert_eq!(e.kind, ErrorKind::NotFound);
}

#[test]
fn drop_existing_database() {
    let mut c = DatabaseCatalog::new();
    c.create_database("db1", "FUSE").unwrap();
    assert!(c.drop_database("db1", false).is_ok());
    assert_eq!(c.get_database("db1").err().unwrap().kind, ErrorKind::NotFound);
}

#[test]
fn ids_are_never_reused() {
    let mut c = DatabaseCatalog::new();
    let a = c.create_database("a", "FUSE").unwrap();
    c.drop_database("a", false).unwrap();
    let b = c.create_database("b", "FUSE").unwrap();
    assert_ne!(a.id, b.id);
    let a2 = c.create_database("a", "FUSE").unwrap();
    assert_ne!(a2.id, a.id);
    assert_ne!(a2.id, b.id);
}

#[test]
fn system_name_collision_rejected() {
    let mut c = DatabaseCatalog::new();
    let e = c.create_database("system", "FUSE").err().unwrap();
    assert_eq!(e.kind, ErrorKind::AlreadyExists);
    let e = c.create_database("information_schema", "FUSE").err().unwrap();
    assert_eq!(e.kind, ErrorKind::AlreadyExists);
    let s = c.get_database("system").unwrap();
    assert_eq!(s.id, 1);
    assert!(s.id < USER_ID_BEGIN);
}

#[test]
fn system_database_is_read_only() {
    let mut c = DatabaseCatalog::new();
    assert_eq!(c.drop_database("system", true).err().unwrap().kind, ErrorKind::ReadOnlyViolation);
    assert_eq!(c.create_table("system", "t", "FUSE").err().unwrap().kind, ErrorKind::ReadOnlyViolation);
    assert_eq!(c.drop_table("system", "tables", true).err().unwrap().kind, ErrorKind::ReadOnlyViolation);
    assert_eq!(
        c.rename_table("system", "tables", "t2").err().unwrap().kind,
        ErrorKind::ReadOnlyViolation
    );
    let t = c.get_table("system", "tables").unwrap();
    assert_eq!(t.id, 4);
    assert_eq!(t.database_id, 1);
    assert_eq!(c.get_table("system", "schemata").err().unwrap().kind, ErrorKind::NotFound);
    assert_eq!(c.get_table("information_schema", "schemata").unwrap().id, 6);
}

#[test]
fn lookup_by_id_picks_tier() {
    let mut c = DatabaseCatalog::new();
    let d = c.create_database("db1", "FUSE").unwrap();
    assert_eq!(c.get_database_by_id(d.id).unwrap().name, "db1");
    assert_eq!(c.get_database_by_id(2).unwrap().name, "information_schema");
    assert_eq!(c.get_database_by_id(3).err().unwrap().kind, ErrorKind::NotFound);
    assert_eq!(c.get_database_by_id(d.id + 1).err().unwrap().kind, ErrorKind::NotFound);
}

#[test]
fn racing_create_table() {
    let mut c = DatabaseCatalog::new();
    c.create_database("db", "FUSE").unwrap();
    let first = c.create_table("db", "t", "FUSE");
    let second = c.create_table("db", "t", "MEMORY");
    assert!(first.is_ok());
    assert_eq!(second.err().unwrap().kind, ErrorKind::AlreadyExists);
    let t = c.get_table("db", "t").unwrap();
    assert_eq!(t.id, first.unwrap().id);
    assert_eq!(t.engine, "FUSE");
}

#[test]
fn create_table_in_missing_database() {
    let mut c = DatabaseCatalog::new();
    assert_eq!(c.create_table("nope", "t", "FUSE").err().unwrap().kind, ErrorKind::NotFound);
}

#[test]
fn drop_and_rename_table() {
    let mut c = DatabaseCatalog::new();
    let d = c.create_database("db", "FUSE").unwrap();
    let t = c.create_table("db", "t", "FUSE").unwrap();
    assert_eq!(t.database_id, d.id);
    c.create_table("db", "u", "FUSE").unwrap();
    assert_eq!(c.rename_table("db", "t", "u").err().unwrap().kind, ErrorKind::AlreadyExists);
    assert_eq!(c.rename_table("db", "x", "y").err().unwrap().kind, ErrorKind::NotFound);
    c.rename_table("db", "t", "t2").unwrap();
    assert_eq!(c.get_table("db", "t").err().unwrap().kind, ErrorKind::NotFound);
    let r = c.get_table("db", "t2").unwrap();
    assert_eq!(r.id, t.id);
    assert_eq!(r.name, "t2");
    c.drop_table("db", "t2", false).unwrap();
    assert_eq!(c.drop_table("db", "t2", false).err().unwrap().kind, ErrorKind::NotFound);
    assert!(c.drop_table("db", "t2", true).is_ok());
}

#[test]
fn dropped_database_tables_stay_hidden() {
    let mut c = DatabaseCatalog::new();
    c.create_database("db", "FUSE").unwrap();
    c.create_table("db", "t", "FUSE").unwrap();
    c.drop_database("db", false).unwrap();
    c.create_database("db", "FUSE").unwrap();
    assert_eq!(c.get_table("db", "t").err().unwrap().kind, ErrorKind::NotFound);
    assert!(c.create_table("db", "t", "FUSE").is_ok());
}

#[test]
fn listing_round_trip() {
    let mut c = DatabaseCatalog::new();
    let names = ["a", "b", "c", "d", "e"];
    for n in names.iter() {
        c.create_database(n, "FUSE").unwrap();
    }
    let list = c.list_databases();
    assert_eq!(list.len(), 2 + names.len());
    assert_eq!(list[0].name, "system");
    assert_eq!(list[1].name, "information_schema");
    let mut seen: Vec<String> = list.iter().map(|d| d.name.clone()).collect();
    seen.sort();
    seen.dedup();
    assert_eq!(seen.len(), list.len());
    for n in names.iter() {
        assert!(list.iter().any(|d| d.name == *n));
    }
}

#[test]
fn mutable_catalog_alone() {
    let mut m = MutableCatalog::new();
    let d = m.create_database("system", "FUSE").unwrap();
    assert_eq!(d.id, USER_ID_BEGIN);
    assert_eq!(m.list_databases().len(), 1);
    assert_eq!(m.get_database_by_id(USER_ID_BEGIN).unwrap().name, "system");
}

#[test]
fn catalog_error_contexts() {
    let mut c = DatabaseCatalog::new();
    assert_eq!(c.get_database("x").err().unwrap().context, "(while get database).");
    assert_eq!(c.drop_database("x", false).err().unwrap().context, "(while drop database).");
    assert_eq!(c.create_table("x", "t", "FUSE").err().unwrap().context, "(while create table).");
    assert_eq!(c.rename_table("x", "t", "u").err().unwrap().context, "(while rename table).");
    assert_eq!(c.get_database_by_id(99).err().unwrap().context, "(while get database by id).");
}
