use lokc::lir::Constants;

#[test]
fn interned_strings_are_read_back_by_index() {
    let mut pool = Constants::new();
    let a = pool.intern(b"first".to_vec(), true);
    let b = pool.intern(b"second".to_vec(), false);
    let c = pool.intern(b"first".to_vec(), true);
    assert_eq!(a, 0);
    assert_eq!(b, 1);
    assert_eq!(c, 2);
    assert_eq!(pool.len(), 3);
    assert_eq!(pool.get(a), Some((&b"first".to_vec(), true)));
    assert_eq!(pool.get(b), Some((&b"second".to_vec(), false)));
    assert_eq!(pool.get(c), Some((&b"first".to_vec(), true)));
    assert_eq!(pool.get(3), None);
}
