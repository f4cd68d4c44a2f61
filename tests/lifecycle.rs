use blog::error::BlogError;
use blog::key::Pubkey;
use blog::ledger::Ledger;
use blog::{create_blog, delete_blog, update_blog, CreateBlog, DeleteBlog, UpdateBlog};

fn key(b: u8) -> Pubkey {
    Pubkey::new_from_array([b; 32])
}

fn ledger() -> Ledger {
    Ledger::new(key(200))
}

#[test]
fn concrete_lifecycle_scenario() {
    let mut l = ledger();
    let a = key(1);
    let addr = create_blog(&mut l, &CreateBlog { owner: a }, "hello".to_string(), "world".to_string()).unwrap();
    let e = l.read(&addr).unwrap();
    assert_eq!(e.owner.bytes, a.bytes);
    assert_eq!(e.title, "hello");
    assert_eq!(e.description, "world");

    let ctx = UpdateBlog { blog_entry: addr, owner: a };
    assert_eq!(update_blog(&mut l, &ctx, "hello".to_string(), "bye".to_string()), Ok(()));
    let e = l.read(&addr).unwrap();
    assert_eq!(e.description, "bye");
    assert_eq!(e.title, "hello");

    let del = DeleteBlog { blog_entry: addr, owner: a };
    assert!(delete_blog(&mut l, &del, "hello".to_string()).is_ok());
    assert!(matches!(l.read(&addr), Err(BlogError::NotFound)));
}

#[test]
fn stranger_update_unauthorized() {
    let mut l = ledger();
    let a = key(1);
    let b = key(2);
    let addr = create_blog(&mut l, &CreateBlog { owner: a }, "t".to_string(), "d".to_string()).unwrap();
    let ctx = UpdateBlog { blog_entry: addr, owner: b };
    assert_eq!(update_blog(&mut l, &ctx, "t".to_string(), "x".to_string()), Err(BlogError::Unauthorized));
    let e = l.read(&addr).unwrap();
    assert_eq!(e.owner.bytes, a.bytes);
    assert_eq!(e.title, "t");
    assert_eq!(e.description, "d");
}

#[test]
fn stranger_delete_unauthorized() {
    let mut l = ledger();
    let addr = create_blog(&mut l, &CreateBlog { owner: key(1) }, "t".to_string(), "d".to_string()).unwrap();
    let del = DeleteBlog { blog_entry: addr, owner: key(2) };
    assert_eq!(delete_blog(&mut l, &del, "t".to_string()), Err(BlogError::Unauthorized));
    assert!(l.contains(&addr));
}

#[test]
fn create_then_read_returns_fields() {
    let mut l = ledger();
    let owner = key(9);
    let addr = create_blog(&mut l, &CreateBlog { owner }, "my title".to_string(), "some text ü".to_string()).unwrap();
    let e = l.read(&addr).unwrap();
    assert_eq!(e.owner.bytes, [9u8; 32]);
    assert_eq!(e.title, "my title");
    assert_eq!(e.description, "some text ü");
}

#[test]
fn create_twice_already_exists() {
    let mut l = ledger();
    let owner = key(3);
    let addr = create_blog(&mut l, &CreateBlog { owner }, "t".to_string(), "first".to_string()).unwrap();
    let again = create_blog(&mut l, &CreateBlog { owner }, "t".to_string(), "second".to_string());
    assert!(matches!(again, Err(BlogError::AlreadyExists)));
    assert_eq!(l.read(&addr).unwrap().description, "first");
}

#[test]
fn same_owner_two_titles_two_slots() {
    let mut l = ledger();
    let owner = key(3);
    let a1 = create_blog(&mut l, &CreateBlog { owner }, "one".to_string(), "1".to_string()).unwrap();
    let a2 = create_blog(&mut l, &CreateBlog { owner }, "two".to_string(), "2".to_string()).unwrap();
    assert_ne!(a1.bytes, a2.bytes);
    assert_eq!(l.read(&a1).unwrap().description, "1");
    assert_eq!(l.read(&a2).unwrap().description, "2");
}

#[test]
fn update_resizes_to_required_capacity() {
    let mut l = ledger();
    let owner = key(4);
    let addr = create_blog(&mut l, &CreateBlog { owner }, "abc".to_string(), "12345".to_string()).unwrap();
    assert_eq!(l.capacity(&addr), Some(8 + 32 + 4 + 3 + 4 + 5));
    assert_eq!(l.deposit(&addr), Some(56));
    let ctx = UpdateBlog { blog_entry: addr, owner };
    update_blog(&mut l, &ctx, "abc".to_string(), "a much longer description".to_string()).unwrap();
    assert_eq!(l.capacity(&addr), Some(8 + 32 + 4 + 3 + 4 + 25));
    assert_eq!(l.deposit(&addr), Some(76));
    update_blog(&mut l, &ctx, "abc".to_string(), "".to_string()).unwrap();
    assert_eq!(l.capacity(&addr), Some(51));
    assert_eq!(l.deposit(&addr), Some(51));
    let e = l.read(&addr).unwrap();
    assert_eq!(e.title, "abc");
    assert_eq!(e.description, "");
}

#[test]
fn delete_then_create_is_fresh() {
    let mut l = ledger();
    let owner = key(5);
    let long = "x".repeat(500);
    let addr = create_blog(&mut l, &CreateBlog { owner }, "t".to_string(), long).unwrap();
    let del = DeleteBlog { blog_entry: addr, owner };
    assert_eq!(delete_blog(&mut l, &del, "t".to_string()), Ok(8 + 32 + 4 + 1 + 4 + 500));
    assert!(!l.contains(&addr));
    let again = create_blog(&mut l, &CreateBlog { owner }, "t".to_string(), "new".to_string()).unwrap();
    assert_eq!(again.bytes, addr.bytes);
    let e = l.read(&again).unwrap();
    assert_eq!(e.description, "new");
    assert_eq!(l.capacity(&again), Some(8 + 32 + 4 + 1 + 4 + 3));
}

#[test]
fn title_over_cap_is_validation_error() {
    let mut l = ledger();
    let r = create_blog(&mut l, &CreateBlog { owner: key(1) }, "a".repeat(101), "d".to_string());
    assert!(matches!(r, Err(BlogError::ValidationError)));
}

#[test]
fn title_over_seed_limit_is_invalid_seeds() {
    let mut l = ledger();
    let r = create_blog(&mut l, &CreateBlog { owner: key(1) }, "a".repeat(33), "d".to_string());
    assert!(matches!(r, Err(BlogError::InvalidSeeds)));
    let ok = create_blog(&mut l, &CreateBlog { owner: key(1) }, "a".repeat(32), "d".to_string());
    assert!(ok.is_ok());
}

#[test]
fn description_over_cap_is_validation_error() {
    let mut l = ledger();
    let owner = key(1);
    let r = create_blog(&mut l, &CreateBlog { owner }, "t".to_string(), "d".repeat(501));
    assert!(matches!(r, Err(BlogError::ValidationError)));
    let addr = create_blog(&mut l, &CreateBlog { owner }, "t".to_string(), "d".repeat(500)).unwrap();
    let ctx = UpdateBlog { blog_entry: addr, owner };
    assert_eq!(update_blog(&mut l, &ctx, "t".to_string(), "e".repeat(501)), Err(BlogError::ValidationError));
    assert_eq!(l.read(&addr).unwrap().description, "d".repeat(500));
}

#[test]
fn update_absent_is_not_found() {
    let mut l = ledger();
    let ctx = UpdateBlog { blog_entry: key(77), owner: key(1) };
    assert_eq!(update_blog(&mut l, &ctx, "t".to_string(), "x".to_string()), Err(BlogError::NotFound));
    let del = DeleteBlog { blog_entry: key(77), owner: key(1) };
    assert_eq!(delete_blog(&mut l, &del, "t".to_string()), Err(BlogError::NotFound));
}

#[test]
fn update_with_other_title_is_not_found() {
    let mut l = ledger();
    let owner = key(6);
    let addr = create_blog(&mut l, &CreateBlog { owner }, "right".to_string(), "d".to_string()).unwrap();
    let ctx = UpdateBlog { blog_entry: addr, owner };
    assert_eq!(update_blog(&mut l, &ctx, "wrong".to_string(), "x".to_string()), Err(BlogError::NotFound));
    let del = DeleteBlog { blog_entry: addr, owner };
    assert_eq!(delete_blog(&mut l, &del, "wrong".to_string()), Err(BlogError::NotFound));
    assert_eq!(l.read(&addr).unwrap().description, "d");
}

#[test]
fn read_absent_is_not_found() {
    let l = ledger();
    assert!(matches!(l.read(&key(1)), Err(BlogError::NotFound)));
    assert_eq!(l.capacity(&key(1)), None);
    assert_eq!(l.deposit(&key(1)), None);
}
