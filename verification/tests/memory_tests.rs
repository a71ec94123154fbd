use royaos::memory::{MemoryCategory, MemoryError, MemoryHandle, MemoryManager};

#[test]
fn test_memory_allocation() {
    let mut manager = MemoryManager::new(100, "balanced"); // 100 MB

    // Allocate memory
    let handle = manager.allocate(1024 * 1024, "Test allocation", MemoryCategory::Working).unwrap();
    assert_eq!(manager.current_usage(), 1024 * 1024);

    // Deallocate memory
    let result = manager.deallocate(handle);
    assert!(result.is_ok());
    assert_eq!(manager.current_usage(), 0);
}

#[test]
fn test_memory_allocation_limit() {
    let mut manager = MemoryManager::new(1, "balanced"); // 1 MB

    // Try to allocate more than the limit
    let result = manager.allocate(2 * 1024 * 1024, "Too large allocation", MemoryCategory::Working);
    assert!(result.is_err());
}

#[test]
fn test_memory_category_usage() {
    let mut manager = MemoryManager::new(100, "balanced"); // 100 MB

    // Allocate memory in different categories
    let _handle1 = manager.allocate(1024 * 1024, "System allocation", MemoryCategory::System).unwrap();
    let handle2 = manager.allocate(2 * 1024 * 1024, "Working allocation", MemoryCategory::Working).unwrap();
    let _handle3 = manager.allocate(3 * 1024 * 1024, "Long-term allocation", MemoryCategory::LongTerm).unwrap();

    // Check category usage
    assert_eq!(manager.category_usage(MemoryCategory::System), 1024 * 1024);
    assert_eq!(manager.category_usage(MemoryCategory::Working), 2 * 1024 * 1024);
    assert_eq!(manager.category_usage(MemoryCategory::LongTerm), 3 * 1024 * 1024);

    // Deallocate and check again
    manager.deallocate(handle2).unwrap();
    assert_eq!(manager.category_usage(MemoryCategory::Working), 0);
    assert_eq!(manager.current_usage(), 4 * 1024 * 1024);
}

#[test]
fn test_memory_optimization() {
    let mut manager = MemoryManager::new(10, "aggressive"); // 10 MB

    // Fill up memory with background allocations
    for i in 0..8 {
        manager.allocate(1024 * 1024, &format!("Background {}", i), MemoryCategory::Background).unwrap();
    }

    // Check usage before optimization
    assert_eq!(manager.current_usage(), 8 * 1024 * 1024);

    // An immediate pass frees nothing: no record has been idle past the
    // 60-second aggressive threshold yet
    let freed = manager.optimize();
    assert_eq!(freed, 0);

    // Let the records age past the threshold, then allocate more memory;
    // the capacity guard's eviction pass makes room
    manager.advance_clock(61);
    let result = manager.allocate(3 * 1024 * 1024, "New allocation", MemoryCategory::Working);
    assert!(result.is_ok());
    assert_eq!(manager.current_usage(), 3 * 1024 * 1024);
}

#[test]
fn test_capacity_exceeded_error() {
    let mut manager = MemoryManager::new(1, "balanced");

    let result = manager.allocate(2_097_152, "x", MemoryCategory::Working);
    assert_eq!(result, Err(MemoryError::CapacityExceeded));

    // The refused allocation changed nothing
    assert_eq!(manager.current_usage(), 0);
    assert_eq!(manager.category_usage(MemoryCategory::Working), 0);
}

#[test]
fn test_zero_size_allocation() {
    let mut manager = MemoryManager::new(1, "balanced");

    let first = manager.allocate(0, "empty one", MemoryCategory::ShortTerm).unwrap();
    let second = manager.allocate(0, "empty two", MemoryCategory::ShortTerm).unwrap();

    // Each zero-size allocation succeeds under its own fresh handle and
    // contributes nothing to the totals
    assert_ne!(first, second);
    assert_eq!(manager.current_usage(), 0);
    assert_eq!(manager.category_usage(MemoryCategory::ShortTerm), 0);

    assert!(manager.deallocate(first).is_ok());
    assert!(manager.deallocate(second).is_ok());
}

#[test]
fn test_not_found_errors() {
    let mut manager = MemoryManager::new(1, "balanced");

    // A handle that was never issued
    let bogus = MemoryHandle { id: 123 };
    assert_eq!(manager.access(bogus), Err(MemoryError::NotFound));
    assert_eq!(manager.deallocate(bogus), Err(MemoryError::NotFound));

    // A handle that was already deallocated
    let handle = manager.allocate(1024, "short lived", MemoryCategory::Working).unwrap();
    assert!(manager.deallocate(handle).is_ok());
    assert_eq!(manager.access(handle), Err(MemoryError::NotFound));
    assert_eq!(manager.deallocate(handle), Err(MemoryError::NotFound));
}

#[test]
fn test_alloc_dealloc_restores_counters() {
    let mut manager = MemoryManager::new(100, "balanced");
    manager.allocate(1024 * 1024, "resident", MemoryCategory::System).unwrap();

    let usage_before = manager.current_usage();
    let system_before = manager.category_usage(MemoryCategory::System);
    let working_before = manager.category_usage(MemoryCategory::Working);

    let handle = manager.allocate(5 * 1024 * 1024, "transient", MemoryCategory::Working).unwrap();
    manager.deallocate(handle).unwrap();

    // Allocate then deallocate on the same handle is a round trip
    assert_eq!(manager.current_usage(), usage_before);
    assert_eq!(manager.category_usage(MemoryCategory::System), system_before);
    assert_eq!(manager.category_usage(MemoryCategory::Working), working_before);
}

#[test]
fn test_optimize_after_idle() {
    let mut manager = MemoryManager::new(10, "aggressive");
    for i in 0..8 {
        manager.allocate(1024 * 1024, &format!("Background {}", i), MemoryCategory::Background).unwrap();
    }

    // Usage is 80%, above the high-water mark, but nothing is idle yet
    assert_eq!(manager.optimize(), 0);
    assert_eq!(manager.current_usage(), 8 * 1024 * 1024);

    // Past the 60-second aggressive threshold every record goes
    manager.advance_clock(61);
    assert_eq!(manager.optimize(), 8 * 1024 * 1024);
    assert_eq!(manager.current_usage(), 0);
    assert_eq!(manager.category_usage(MemoryCategory::Background), 0);
}

#[test]
fn test_optimize_twice_frees_nothing_new() {
    let mut manager = MemoryManager::new(10, "balanced");
    for i in 0..8 {
        manager.allocate(1024 * 1024, &format!("Background {}", i), MemoryCategory::Background).unwrap();
    }
    manager.advance_clock(301);

    // The first pass reclaims everything idle past the balanced threshold;
    // an immediate second pass has no new candidates and frees nothing
    let first = manager.optimize();
    let second = manager.optimize();
    assert_eq!(first, 8 * 1024 * 1024);
    assert_eq!(second, 0);
}

#[test]
fn test_optimize_below_threshold_is_noop() {
    let mut manager = MemoryManager::new(100, "aggressive");
    for i in 0..8 {
        manager.allocate(1024 * 1024, &format!("Background {}", i), MemoryCategory::Background).unwrap();
    }

    // Usage is 8%, far below the 70% high-water mark; however idle the
    // records are,
    // the pass removes nothing
    manager.advance_clock(1_000_000);
    assert_eq!(manager.optimize(), 0);
    assert_eq!(manager.current_usage(), 8 * 1024 * 1024);
    assert_eq!(manager.category_usage(MemoryCategory::Background), 8 * 1024 * 1024);
}

#[test]
fn test_conservative_strategy_never_engages_guard() {
    let mut manager = MemoryManager::new(10, "conservative");
    for i in 0..8 {
        manager.allocate(1024 * 1024, &format!("Background {}", i), MemoryCategory::Background).unwrap();
    }

    // Even with every record idle for hours, an overflowing allocation
    // fails at once: only the aggressive profile evicts on demand
    manager.advance_clock(10_000);
    let result = manager.allocate(3_145_728, "New allocation", MemoryCategory::Working);
    assert_eq!(result, Err(MemoryError::CapacityExceeded));
    assert_eq!(manager.current_usage(), 8 * 1024 * 1024);
}

#[test]
fn test_access_refreshes_idle_time() {
    let mut manager = MemoryManager::new(10, "aggressive");
    let mut handles = Vec::new();
    for i in 0..8 {
        let h = manager.allocate(1024 * 1024, &format!("Background {}", i), MemoryCategory::Background).unwrap();
        handles.push(h);
    }

    // Touch one record after the others have been idle a while
    manager.advance_clock(61);
    manager.access(handles[0]).unwrap();

    // The pass takes the seven idle records and spares the touched one
    assert_eq!(manager.optimize(), 7 * 1024 * 1024);
    assert_eq!(manager.current_usage(), 1024 * 1024);
    assert!(manager.deallocate(handles[0]).is_ok());
    assert_eq!(manager.deallocate(handles[1]), Err(MemoryError::NotFound));
}

#[test]
fn test_unknown_strategy_treated_as_balanced() {
    let mut manager = MemoryManager::new(10, "whatever");
    for i in 0..8 {
        manager.allocate(1024 * 1024, &format!("Background {}", i), MemoryCategory::Background).unwrap();
    }

    // Not aggressive: no eviction on overflow
    let result = manager.allocate(3 * 1024 * 1024, "New allocation", MemoryCategory::Working);
    assert_eq!(result, Err(MemoryError::CapacityExceeded));

    // Balanced threshold: 300 idle seconds are not enough, 301 are
    manager.advance_clock(300);
    assert_eq!(manager.optimize(), 0);
    manager.advance_clock(1);
    assert_eq!(manager.optimize(), 8 * 1024 * 1024);
}

#[test]
fn test_idle_threshold_is_strict() {
    let mut manager = MemoryManager::new(10, "aggressive");
    for i in 0..8 {
        manager.allocate(1024 * 1024, &format!("Background {}", i), MemoryCategory::Background).unwrap();
    }

    // A record idle for exactly the threshold is not yet a candidate
    manager.advance_clock(60);
    assert_eq!(manager.optimize(), 0);

    // One more second past the threshold, it is
    manager.advance_clock(1);
    assert_eq!(manager.optimize(), 8 * 1024 * 1024);
}

#[test]
fn test_usage_percentage() {
    let mut manager = MemoryManager::new(10, "balanced");
    assert_eq!(manager.usage_percentage(), 0);

    manager.allocate(5 * 1024 * 1024, "half", MemoryCategory::Working).unwrap();
    assert_eq!(manager.usage_percentage(), 50);

    // 5.5 MiB of 10 MB rounds down to 55%
    manager.allocate(512 * 1024, "a bit more", MemoryCategory::Working).unwrap();
    assert_eq!(manager.usage_percentage(), 55);

    assert_eq!(manager.max_allocation(), 10 * 1024 * 1024);
}
