use catalog_meta::uuids::{UUIDCreator, UUIDCreatorFunction, UUIDv4, UUIDv4Function, UUIDZero, UUIDZeroFunction};

fn is_uuid_text(s: &str) -> bool {
    s.len() == 36
        && s.chars().enumerate().all(|(i, c)| {
            if i == 8 || i == 13 || i == 18 || i == 23 {
                c == '-'
            } else {
                c.is_ascii_hexdigit() && !c.is_ascii_uppercase()
            }
        })
}

#[test]
fn zero_uuid() {
    assert_eq!(UUIDZero::create().unwrap(), "00000000-0000-0000-0000-000000000000");
    let f = UUIDZeroFunction::try_create("gen_zero_uuid").unwrap();
    assert_eq!(f.name(), "gen_zero_uuid");
    let col = f.eval(10).unwrap();
    assert_eq!(col, vec!["00000000-0000-0000-0000-000000000000".to_string()]);
}

#[test]
fn random_uuid() {
    let a = UUIDv4::create().unwrap();
    let b = UUIDv4::create().unwrap();
    assert!(is_uuid_text(&a));
    assert_eq!(a.as_bytes()[14], b'4');
    assert!(matches!(a.as_bytes()[19], b'8' | b'9' | b'a' | b'b'));
    assert_ne!(a, b);
    let f = UUIDv4Function::try_create("gen_random_uuid").unwrap();
    let col = f.eval(3).unwrap();
    assert_eq!(col.len(), 1);
    assert!(is_uuid_text(&col[0]));
    assert_eq!(col[0].as_bytes()[14], b'4');
    assert_ne!(col[0], "00000000-0000-0000-0000-000000000000");
}

#[test]
fn uuid_function_desc() {
    let d = UUIDCreatorFunction::<UUIDv4>::desc();
    assert!(!d.features.is_deterministic);
    assert!(!d.features.monotonicity);
    let f = UUIDCreatorFunction::<UUIDZero>::try_create("z").unwrap();
    assert_eq!(f.return_type(), "String");
}
