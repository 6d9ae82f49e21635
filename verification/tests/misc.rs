use nostr_scrolls::allocator::{BumpAllocator, PAGE_SIZE};
use nostr_scrolls::entry::{check_run_fn, parse_main_attrs, plan_main, MainError};
use nostr_scrolls::host_memory::{compare_size, ensure_size, read_slice_string, slice_string_ok};
use nostr_scrolls::{Error, StaticCell};

#[test]
fn size_checks() {
    assert_eq!(compare_size(3, 3), Ok(()));
    assert_eq!(compare_size(3, 4), Err(Error::SizeMismatch { expected: 4, found: 3 }));
    assert_eq!(ensure_size(i32::MAX as usize), Ok(()));
    assert_eq!(ensure_size(i32::MAX as usize + 1), Err(Error::SizeOverflow));
}

#[test]
fn error_messages() {
    assert_eq!(Error::SizeOverflow.message(), "size exceeds maximum allowed value of 2147483647");
    assert_eq!(
        Error::SizeMismatch { expected: 64, found: 0 }.message(),
        "expected value of size 64, got 0"
    );
    assert_eq!(Error::InvalidTag.message(), "invalid tag, should be an ASCII alphabetic character");
}

#[test]
fn length_prefixed_strings_are_big_endian() {
    let mut mem = vec![0u8, 0, 0, 3];
    mem.extend_from_slice(b"abcdef");
    assert!(slice_string_ok(&mem));
    assert_eq!(read_slice_string(&mem), "abc");
    assert!(!slice_string_ok(&[0u8, 0, 1, 0, b'a']));
    assert!(!slice_string_ok(&[0u8, 0]));
    assert!(!slice_string_ok(&[0u8, 0, 0, 1, 0xff]));
}

#[test]
fn bump_first_allocation_starts_at_heap_base() {
    let mut a = BumpAllocator::new();
    let plan = a.plan(1001, 10, 8, 1).unwrap();
    assert_eq!(plan.addr, 1008);
    assert_eq!(plan.next, 1018);
    assert_eq!(plan.grow_pages, 0);
    a.commit(&plan);
    let second = a.plan(1001, 4, 4, 1).unwrap();
    assert_eq!(second.addr, 1020);
    assert_eq!(second.next, 1024);
}

#[test]
fn bump_grows_whole_pages() {
    let a = BumpAllocator::new();
    let plan = a.plan(PAGE_SIZE - 8, 16, 8, 1).unwrap();
    assert_eq!(plan.addr, PAGE_SIZE - 8);
    assert_eq!(plan.grow_pages, 1);
    let big = a.plan(0, 3 * PAGE_SIZE, 8, 1).unwrap();
    assert_eq!(big.grow_pages, 2);
    let exact = a.plan(0, PAGE_SIZE, 8, 1).unwrap();
    assert_eq!(exact.grow_pages, 0);
}

#[test]
fn bump_overflow_gives_none() {
    let a = BumpAllocator::new();
    assert!(a.plan(16, usize::MAX, 8, 0).is_none());
}

#[test]
fn main_attribute_decisions() {
    assert!(parse_main_attrs(&vec![]).map(|a| a.no_panic_handler) == Ok(false));
    assert!(parse_main_attrs(&vec!["no_panic_handler".to_string()]).map(|a| a.no_panic_handler) == Ok(true));
    assert!(matches!(
        parse_main_attrs(&vec!["no_panic_handler".to_string(), "verbose".to_string()]),
        Err(MainError::UnknownOption(1))
    ));
    assert!(check_run_fn("run", true, false).is_ok());
    assert!(matches!(check_run_fn("start", true, false), Err(MainError::NotNamedRun)));
    assert!(matches!(check_run_fn("run", false, true), Err(MainError::NotPrivate)));
    assert!(matches!(check_run_fn("run", true, true), Err(MainError::NotSynchronous)));
    let plan = plan_main(&vec![], "run", true, false, 2).ok().unwrap();
    assert!(plan.panic_handler && plan.check_pointer);
    let plan = plan_main(&vec!["no_panic_handler".to_string()], "run", true, false, 0).ok().unwrap();
    assert!(!plan.panic_handler && !plan.check_pointer);
    assert!(matches!(plan_main(&vec!["x".to_string()], "main", false, true, 0), Err(MainError::UnknownOption(0))));
}

#[test]
fn static_cell_access() {
    let mut cell = StaticCell::new(1usize);
    assert_eq!(*cell.get(), 1);
    *cell.get_mut() += 1;
    assert_eq!(*cell.get(), 2);
}
