//! Tests of the block pool: allocation, reuse, copy-on-write and the
//! silence identity.

use web_audio_api::buffer2::Alloc;
use web_audio_api::RENDER_QUANTUM_SIZE;
use web_audio_api::SAMPLE_ONE;

fn filled(value: i64) -> Vec<i64> {
    vec![value; RENDER_QUANTUM_SIZE]
}

#[test]
fn test_pool() {
    // Create pool of size 2
    let mut alloc = Alloc::with_capacity(2);
    assert_eq!(alloc.pool_size(), 2);

    // take a buffer out of the pool; it reads as zeros
    let a = alloc.allocate();
    assert_eq!(alloc.copy_samples(&a), filled(0));
    assert_eq!(alloc.pool_size(), 1);

    // writing through the sole handle keeps the pool unchanged
    let mut a = a;
    alloc.write_block(&mut a, filled(SAMPLE_ONE));
    assert_eq!(alloc.copy_samples(&a), filled(SAMPLE_ONE));
    assert_eq!(alloc.pool_size(), 1);

    // clone this handle; cloning does not allocate
    let b = alloc.clone_handle(&a);
    assert_eq!(alloc.pool_size(), 1);

    // writing the shared handle copies on write, taking the last free block
    let mut b = b;
    alloc.write_block(&mut b, filled(2 * SAMPLE_ONE));
    assert_eq!(alloc.pool_size(), 0);
    assert_eq!(alloc.copy_samples(&a), filled(SAMPLE_ONE));
    assert_eq!(alloc.copy_samples(&b), filled(2 * SAMPLE_ONE));

    // all buffers are reclaimed
    alloc.drop_handle(a);
    alloc.drop_handle(b);
    assert_eq!(alloc.pool_size(), 2);

    let c = {
        let a = alloc.allocate();
        let b = alloc.allocate();

        // we can allocate beyond the pool size
        let c = alloc.allocate();
        assert_eq!(alloc.pool_size(), 0);

        // every allocation reads as zeros, reused or fresh
        assert_eq!(alloc.copy_samples(&a), filled(0));
        assert_eq!(alloc.copy_samples(&b), filled(0));
        assert_eq!(alloc.copy_samples(&c), filled(0));

        alloc.drop_handle(a);
        alloc.drop_handle(b);
        c
    };

    // dropping c extends the free list: the pool capacity has grown
    alloc.drop_handle(c);
    assert_eq!(alloc.pool_size(), 3);

    {
        // silence will not allocate at first
        let s = alloc.silence();
        assert!(s.is_silent());
        assert_eq!(alloc.pool_size(), 3);
        assert_eq!(alloc.copy_samples(&s), filled(0));

        // writing through silence allocates a copy
        let mut s = s;
        alloc.write_block(&mut s, filled(0));
        assert_eq!(alloc.pool_size(), 2);

        // the copy is still all zeros, even though a dirty block was taken
        assert_eq!(alloc.copy_samples(&s), filled(0));

        // is_silent is a superficial identity check
        assert_eq!(s.is_silent(), false);
        alloc.drop_handle(s);
    }
    assert_eq!(alloc.pool_size(), 3);
}

#[test]
fn pool_never_shrinks() {
    let mut alloc = Alloc::with_capacity(1);
    assert_eq!(alloc.num_blocks(), 2);
    let a = alloc.allocate();
    let b = alloc.allocate();
    assert_eq!(alloc.num_blocks(), 3);
    alloc.drop_handle(a);
    alloc.drop_handle(b);
    // blocks return to the free list; the store never shrinks
    assert_eq!(alloc.num_blocks(), 3);
    assert_eq!(alloc.pool_size(), 2);
}

#[test]
fn silence_stays_identical_through_add() {
    let mut alloc = Alloc::with_capacity(2);
    let mut a = alloc.silence();
    let b = alloc.silence();
    // silence + silence adopts the other handle: still pointer-identical
    a.add(&b, &mut alloc);
    assert!(a.is_silent());
    // a freshly allocated block is never the silence block
    let f = alloc.allocate();
    assert!(!f.is_silent());
    // accumulating a non-silent block into silence adopts it
    let mut s = alloc.silence();
    let mut f = f;
    alloc.write_block(&mut f, vec![7; RENDER_QUANTUM_SIZE]);
    s.add(&f, &mut alloc);
    assert!(!s.is_silent());
    assert_eq!(alloc.copy_samples(&s), vec![7; RENDER_QUANTUM_SIZE]);
}
