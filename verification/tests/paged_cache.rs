use paraoxidizer::paged_cache::{BlockManager, BlockTable, PagedKvCache, PhysicalBlock, DEFAULT_BLOCK_SIZE};

#[test]
fn test_paged_kv_cache_allocation_and_free() {
    let mut cache: PagedKvCache<f32> = PagedKvCache::new(4, 16, 2, 2, 32);
    let mut seq1 = cache.new_sequence();

    // Append 20 tokens -> requires 2 blocks (16 + 4)
    for i in 0..20 {
        let k = vec![i as f32; 32];
        let v = vec![i as f32 * 2.0; 32];
        cache.append(&mut seq1, 0, 0, &k, &v).unwrap();
    }

    assert_eq!(seq1.allocated_block_ids.len(), 2);
    assert_eq!(seq1.sequence_len, 20);
    assert_eq!(cache.manager.available_blocks(), 2);

    cache.free_sequence(&mut seq1);
    assert_eq!(seq1.sequence_len, 0);
    assert_eq!(cache.manager.available_blocks(), 4);
}

#[test]
fn paged_cache_out_of_blocks_is_an_error() {
    let mut cache: PagedKvCache<f32> = PagedKvCache::new(1, 2, 1, 1, 4);
    let mut seq = cache.new_sequence();
    let k = vec![1.0f32; 4];
    let v = vec![2.0f32; 4];
    cache.append(&mut seq, 0, 0, &k, &v).unwrap();
    cache.append(&mut seq, 0, 0, &k, &v).unwrap();
    let err = cache.append(&mut seq, 0, 0, &k, &v).unwrap_err();
    match err {
        paraoxidizer::error::PoxError::Runtime(m) => {
            assert_eq!(m, "PagedAttention Out of Memory: No free physical blocks available")
        }
        other => panic!("unexpected error {:?}", other),
    }
    assert_eq!(seq.sequence_len, 2);
    assert_eq!(seq.allocated_block_ids.len(), 1);
}

#[test]
fn block_manager_allocates_from_the_end_and_ignores_double_free() {
    let mut m: BlockManager<f32> = BlockManager::new(3, 4, 1, 1, 2);
    assert_eq!(m.available_blocks(), 3);
    let a = m.allocate_block().unwrap();
    assert_eq!(a, 2);
    assert_eq!(m.available_blocks(), 2);
    m.free_block(a);
    m.free_block(a);
    m.free_block(99);
    assert_eq!(m.available_blocks(), 3);
}

#[test]
fn block_manager_memory_usage_counts_both_buffers() {
    let m: BlockManager<f32> = BlockManager::new(2, 16, 2, 2, 8);
    // 2 blocks * (16*2*2*8 elements) * 2 buffers * 4 bytes
    assert_eq!(m.memory_usage_bytes(), 2 * 512 * 2 * 4);
}

#[test]
fn block_table_appends_into_new_block_at_boundary() {
    let mut m: BlockManager<f32> = BlockManager::new(2, 2, 1, 1, 1);
    let mut t = BlockTable::new(2);
    let (b0, o0) = t.append_token(&mut m).unwrap();
    let (b1, o1) = t.append_token(&mut m).unwrap();
    let (b2, o2) = t.append_token(&mut m).unwrap();
    assert_eq!((o0, o1, o2), (0, 1, 0));
    assert_eq!(b0, b1);
    assert_ne!(b1, b2);
    assert_eq!(t.sequence_len, 3);
    t.free(&mut m);
    assert_eq!(m.available_blocks(), 2);
    assert_eq!(t.allocated_block_ids.len(), 0);
}

#[test]
fn physical_block_rejects_token_past_capacity() {
    let mut b: PhysicalBlock<f32> = PhysicalBlock::new(0, 2, 1, 1, 2);
    assert!(b.write_kv(1, 0, 0, &[1.0, 2.0], &[3.0, 4.0]).is_ok());
    assert_eq!(&b.k_data[2..4], &[1.0, 2.0]);
    assert_eq!(&b.v_data[2..4], &[3.0, 4.0]);
    let err = b.write_kv(2, 0, 0, &[1.0, 2.0], &[3.0, 4.0]).unwrap_err();
    assert_eq!(err, paraoxidizer::error::PoxError::Runtime("Token index exceeds block capacity".to_string()));
    assert_eq!(DEFAULT_BLOCK_SIZE, 16);
}
