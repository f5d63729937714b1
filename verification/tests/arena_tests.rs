//! Arena allocator behaviour: allocation, release, resizing, exhaustion.

use luahost::arena::Arena;
use luahost::arena::COOKIE_SIZE;

#[test]
fn malloc_returns_offset_past_cookie() {
    let mut a = Arena::new(256);
    let p = a.malloc(16);
    assert_eq!(p, COOKIE_SIZE);
    assert_eq!(a.high_water_mark(), COOKIE_SIZE + 16);
    assert_eq!(a.capacity(), 256);
    assert_eq!(a.oom_count(), 0);
}

#[test]
fn malloc_then_free_restores_high_water_mark() {
    let mut a = Arena::new(256);
    let before = a.high_water_mark();
    let p = a.malloc(40);
    assert_ne!(p, 0);
    assert_eq!(a.high_water_mark(), before + COOKIE_SIZE + 40);
    a.free(p);
    assert_eq!(a.high_water_mark(), before);
}

#[test]
fn malloc_then_free_restores_mark_above_live_block() {
    let mut a = Arena::new(256);
    let p1 = a.malloc(10);
    let before = a.high_water_mark();
    let p2 = a.malloc(32);
    a.free(p2);
    assert_eq!(a.high_water_mark(), before);
    // the first block is still addressable
    a.write_byte(p1, 0, 7);
    assert_eq!(a.read_byte(p1, 0), 7);
}

#[test]
fn free_of_non_top_block_keeps_mark() {
    let mut a = Arena::new(256);
    let p1 = a.malloc(10);
    let _p2 = a.malloc(10);
    let mark = a.high_water_mark();
    a.free(p1);
    assert_eq!(a.high_water_mark(), mark);
}

#[test]
fn free_null_is_noop() {
    let mut a = Arena::new(64);
    let _ = a.malloc(8);
    let mark = a.high_water_mark();
    a.free(0);
    assert_eq!(a.high_water_mark(), mark);
}

#[test]
fn realloc_preserves_prefix_when_growing() {
    let mut a = Arena::new(512);
    let p = a.malloc(8);
    for i in 0..8 {
        a.write_byte(p, i, (i as u8) + 1);
    }
    let q = a.realloc(p, 32);
    assert_ne!(q, 0);
    for i in 0..8 {
        assert_eq!(a.read_byte(q, i), (i as u8) + 1);
    }
}

#[test]
fn realloc_preserves_prefix_when_shrinking() {
    let mut a = Arena::new(512);
    let p = a.malloc(8);
    for i in 0..8 {
        a.write_byte(p, i, 0xa0 + (i as u8));
    }
    let q = a.realloc(p, 3);
    assert_ne!(q, 0);
    for i in 0..3 {
        assert_eq!(a.read_byte(q, i), 0xa0 + (i as u8));
    }
}

#[test]
fn realloc_null_behaves_as_malloc() {
    let mut a = Arena::new(128);
    let q = a.realloc(0, 16);
    assert_eq!(q, COOKIE_SIZE);
    assert_eq!(a.high_water_mark(), COOKIE_SIZE + 16);
}

#[test]
fn realloc_to_zero_behaves_as_free() {
    let mut a = Arena::new(128);
    let p = a.malloc(16);
    let q = a.realloc(p, 0);
    assert_eq!(q, 0);
    assert_eq!(a.high_water_mark(), 0);
}

#[test]
fn exhaustion_reports_null_and_counts() {
    let mut a = Arena::new(32);
    let p = a.malloc(10);
    assert_ne!(p, 0);
    a.write_byte(p, 0, 42);
    let mark = a.high_water_mark();
    let q = a.malloc(20);
    assert_eq!(q, 0);
    assert_eq!(a.oom_count(), 1);
    // nothing moved, nothing corrupted
    assert_eq!(a.high_water_mark(), mark);
    assert_eq!(a.read_byte(p, 0), 42);
}

#[test]
fn exhaustion_of_realloc_keeps_old_block_live() {
    let mut a = Arena::new(32);
    let p = a.malloc(10);
    a.write_byte(p, 5, 99);
    let q = a.realloc(p, 100);
    assert_eq!(q, 0);
    assert_eq!(a.oom_count(), 1);
    assert_eq!(a.read_byte(p, 5), 99);
}

#[test]
fn request_larger_than_capacity_is_exhaustion() {
    let mut a = Arena::new(16);
    assert_eq!(a.malloc(16), 0);
    assert_eq!(a.oom_count(), 1);
    // the cookie itself must fit too
    let mut b = Arena::new(4);
    assert_eq!(b.malloc(0), 0);
    assert_eq!(b.oom_count(), 1);
}

#[test]
fn zero_sized_allocation_still_carves_a_cookie() {
    let mut a = Arena::new(64);
    let p = a.malloc(0);
    assert_eq!(p, COOKIE_SIZE);
    assert_eq!(a.high_water_mark(), COOKIE_SIZE);
    a.free(p);
    assert_eq!(a.high_water_mark(), 0);
}
