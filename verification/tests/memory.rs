use bun_support::memory::{create, destroy, drop_sentinel, init_default, rebase_slice, AllocError};
use bun_support::meta::{type_base_name, void_field_type_discard_helper, ListContainerType};

#[test]
fn create_boxes_the_value() {
    let b = create(41u32).unwrap();
    assert_eq!(*b, 41);
    destroy(b);
}

#[test]
fn init_default_gives_default_values() {
    let x: u64 = init_default();
    assert_eq!(x, 0);
    let v: Vec<u8> = init_default();
    assert!(v.is_empty());
}

#[test]
fn drop_sentinel_removes_the_terminator() {
    let r = drop_sentinel(vec![b'a', b'b', 0]).unwrap();
    assert_eq!(&*r, b"ab");
}

#[test]
fn drop_sentinel_of_only_the_terminator_is_empty() {
    let r = drop_sentinel(vec![0]).unwrap();
    assert!(r.is_empty());
}

#[test]
fn alloc_error_compares_equal() {
    assert_eq!(AllocError, AllocError);
}

#[test]
fn rebase_slice_keeps_offset_and_length() {
    let new_base = [10u8, 11, 12, 13, 14, 15];
    // A slice of 3 bytes at address 0x34 in a buffer based at 0x32.
    let r = rebase_slice(0x34, 3, 0x32, &new_base);
    assert_eq!(r, &[12, 13, 14]);
}

#[test]
fn rebase_slice_of_empty_slice_at_end() {
    let new_base = [1u8, 2];
    let r = rebase_slice(102, 0, 100, &new_base);
    assert!(r.is_empty());
}

#[test]
fn type_base_name_strips_namespaces() {
    assert_eq!(type_base_name("some.namespace.MyType"), "MyType");
}

#[test]
fn type_base_name_strips_rust_paths() {
    assert_eq!(type_base_name("bun_core::strings::Slice"), "Slice");
    assert_eq!(type_base_name("a.b::c::D"), "D");
}

#[test]
fn type_base_name_keeps_generic_and_function_names() {
    assert_eq!(type_base_name("alloc::vec::Vec<u8>"), "alloc::vec::Vec<u8>");
    assert_eq!(type_base_name("fn(u8) -> u8"), "fn(u8) -> u8");
}

#[test]
fn type_base_name_of_plain_name_is_itself() {
    assert_eq!(type_base_name("MyType"), "MyType");
    assert_eq!(type_base_name(""), "");
}

#[test]
fn type_base_name_edge_cases() {
    assert_eq!(type_base_name("a."), "");
    assert_eq!(type_base_name("a::"), "");
    assert_eq!(type_base_name("a:::b"), "b");
    assert_eq!(type_base_name("a:b"), "a:b");
}

#[test]
fn type_base_name_is_idempotent() {
    for name in ["some.namespace.MyType", "x::y::Z", "Vec<u8>", "a.b::c", "plain"] {
        let once = type_base_name(name);
        assert_eq!(type_base_name(once), once);
        assert!(name.ends_with(once));
    }
}

#[test]
fn discard_helper_accepts_anything() {
    void_field_type_discard_helper(vec![1, 2, 3]);
    void_field_type_discard_helper(ListContainerType::SmallList);
    assert_ne!(ListContainerType::Vec, ListContainerType::ArrayList);
}
