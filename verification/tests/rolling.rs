use rolling_buffer::buffer::RollingBuffer;
use rolling_buffer::traits::Rolling;

#[test]
fn test_rolling_data_underflow() {
    let mut data = RollingBuffer::<i32>::new(4);
    data.push(1);
    data.push(2);

    assert_eq!(*data.raw(), [1, 2, 0, 0]);
    assert_eq!(*data.to_vec(), [1, 2]);
    assert_eq!(*data.last().unwrap_or(&0), 2);
    assert_eq!(*data.first().unwrap_or(&0), 1);
    assert_eq!(data.size(), 4);
    assert_eq!(data.count(), 2);
    assert_eq!(data.last_removed().unwrap(), 0);
}

#[test]
fn test_rolling_data_overflow() {
    let mut data = RollingBuffer::<i32>::new(4);
    data.push(1);
    data.push(2);
    data.push(3);
    data.push(4);
    data.push(5);
    data.push(6);

    assert_eq!(*data.raw(), [5, 6, 3, 4]);
    assert_eq!(*data.to_vec(), [3, 4, 5, 6]);
    assert_eq!(*data.last().unwrap_or(&0), 6);
    assert_eq!(*data.first().unwrap_or(&0), 3);
    assert_eq!(data.size(), 4);
    assert_eq!(data.count(), 6);
    assert_eq!(data.last_removed().unwrap(), 2);
    assert_eq!(*data.get(3).unwrap(), 4);
    assert_eq!(*data.get(4).unwrap(), 5);
    assert_eq!(*data.get(5).unwrap(), 6);
}

#[test]
fn test_as_vec() {
    let mut data = RollingBuffer::<i32>::new(4);
    data.push(1);
    data.push(2);
    data.push(3);
    assert_eq!(data.to_vec(), [1, 2, 3]);
    data.push(4);
    data.push(5);
    assert_eq!(data.count(), 5);
    assert_eq!(data.size(), 4);
    assert_eq!(data.to_vec(), [2, 3, 4, 5]);
}

#[test]
fn test_size_0() {
    let mut data = RollingBuffer::<i32>::new(0);
    data.push(1);
    data.push(2);
    data.push(3);
    assert_eq!(data.to_vec(), [1, 2, 3]);
    data.push(4);
    data.push(5);
    assert_eq!(data.count(), 5);
    assert_eq!(data.size(), 0);
    assert_eq!(data.to_vec(), [1, 2, 3, 4, 5]);
}

#[test]
fn test_counts_through_appends() {
    let mut data = RollingBuffer::<u32>::new(3);
    assert_eq!(data.count(), 0);
    assert_eq!(data.len(), 0);
    assert!(data.is_empty());
    for n in 1..=7u32 {
        data.push(n * 10);
        assert_eq!(data.count(), n as usize);
        assert_eq!(data.size(), 3);
        assert_eq!(data.len(), (n as usize).min(3));
        assert!(!data.is_empty());
    }
}

#[test]
fn test_snapshot_keeps_newest() {
    let mut data = RollingBuffer::<i32>::new(2);
    data.push(1);
    data.push(2);
    data.push(3);
    data.push(4);
    data.push(5);
    assert_eq!(data.to_vec(), [4, 5]);
    assert_eq!(data.len(), 2);
    assert_eq!(data.count(), 5);
}

#[test]
fn test_eviction_tracking() {
    let mut data = RollingBuffer::<i32>::new(3);
    assert!(data.last_removed().is_none());
    data.push(10);
    // The first appends into a fresh ring displace copies of the fill value.
    assert_eq!(data.last_removed().unwrap(), 0);
    data.push(20);
    data.push(30);
    assert_eq!(data.last_removed().unwrap(), 0);
    data.push(40);
    assert_eq!(data.last_removed().unwrap(), 10);
    data.push(50);
    assert_eq!(data.last_removed().unwrap(), 20);
    data.push(60);
    assert_eq!(data.last_removed().unwrap(), 30);
}

#[test]
fn test_first_last_empty() {
    let mut data = RollingBuffer::<i32>::new(5);
    assert!(data.first().is_none());
    assert!(data.last().is_none());
    assert!(data.last_mut().is_none());
    data.push(7);
    assert_eq!(*data.first().unwrap(), 7);
    assert_eq!(*data.last().unwrap(), 7);
    let empty = RollingBuffer::<i32>::new(0);
    assert!(empty.first().is_none());
    assert!(empty.last().is_none());
}

#[test]
fn test_unbounded_never_evicts() {
    let mut data = RollingBuffer::<i32>::new(0);
    for n in 1..=100 {
        data.push(n);
        assert!(data.last_removed().is_none());
    }
    assert_eq!(data.len(), 100);
    assert_eq!(data.count(), 100);
    assert_eq!(*data.first().unwrap(), 1);
    assert_eq!(*data.last().unwrap(), 100);
    assert!(data.get(99).is_some());
    assert!(data.get(100).is_none());
}

#[test]
fn test_repeated_reads_agree() {
    let mut data = RollingBuffer::<i32>::new(3);
    data.push(1);
    data.push(2);
    data.push(3);
    data.push(4);
    assert_eq!(data.get(2), data.get(2));
    assert_eq!(data.first(), data.first());
    assert_eq!(data.last(), data.last());
    assert_eq!(data.to_vec(), data.to_vec());
    assert_eq!(data.to_vec(), [2, 3, 4]);
    assert_eq!(data.to_vec(), [2, 3, 4]);
}

#[test]
fn test_get_aliases_overwritten_slot() {
    let mut data = RollingBuffer::<i32>::new(3);
    data.push(1);
    data.push(2);
    data.push(3);
    data.push(4);
    // Logical index 0 was overwritten; its slot now holds logical index 3.
    assert_eq!(*data.get(0).unwrap(), 4);
    assert_eq!(*data.get(3).unwrap(), 4);
    assert_eq!(*data.get(1).unwrap(), 2);
    assert_eq!(*data.get(2).unwrap(), 3);
}

#[test]
fn test_last_mut_rewrites_newest() {
    let mut data = RollingBuffer::<i32>::new(3);
    data.push(1);
    data.push(2);
    if let Some(p) = data.last_mut() {
        *p = 9;
    }
    assert_eq!(data.to_vec(), [1, 9]);
    assert_eq!(*data.raw(), [1, 9, 0]);
    assert_eq!(*data.last().unwrap(), 9);

    let mut plain = RollingBuffer::<i32>::new(0);
    plain.push(5);
    plain.push(6);
    if let Some(p) = plain.last_mut() {
        *p = 8;
    }
    assert_eq!(plain.to_vec(), [5, 8]);
}

#[test]
fn test_capacity_one() {
    let mut data = RollingBuffer::<i32>::new(1);
    data.push(1);
    assert_eq!(data.to_vec(), [1]);
    data.push(2);
    assert_eq!(data.to_vec(), [2]);
    assert_eq!(data.last_removed().unwrap(), 1);
    data.push(3);
    assert_eq!(data.to_vec(), [3]);
    assert_eq!(data.last_removed().unwrap(), 2);
    assert_eq!(data.len(), 1);
    assert_eq!(data.count(), 3);
    assert_eq!(*data.first().unwrap(), 3);
    assert_eq!(*data.last().unwrap(), 3);
}

#[test]
fn test_snapshot_is_independent() {
    let mut data = RollingBuffer::<i32>::new(2);
    data.push(1);
    data.push(2);
    let snap = data.to_vec();
    data.push(3);
    assert_eq!(snap, [1, 2]);
    assert_eq!(data.to_vec(), [2, 3]);
}
