use priority_queue::PriorityMode;
use priority_queue::PriorityQueue;

#[test]
fn empty_queue_gives_none() {
    let mut queue = PriorityQueue::<usize>::new(100, PriorityMode::MinimizeHead);
    assert!(queue.take().is_none());
}

#[test]
fn simple_queue_maximize() {
    let mut queue = PriorityQueue::new(100, PriorityMode::MaximizeHead);
    queue.insert(1, 10);
    queue.insert(2, 20);
    queue.insert(3, 30);
    assert_eq!(queue.take().unwrap(), 3);
    assert_eq!(queue.take().unwrap(), 2);
    assert_eq!(queue.take().unwrap(), 1);
}

#[test]
fn simple_queue_minimize() {
    let mut queue = PriorityQueue::new(100, PriorityMode::MinimizeHead);
    queue.insert(1, 10);
    queue.insert(2, 20);
    queue.insert(3, 30);
    assert_eq!(queue.take().unwrap(), 1);
    assert_eq!(queue.take().unwrap(), 2);
    assert_eq!(queue.take().unwrap(), 3);
}

#[test]
fn large_queue_maximize() {
    let mut queue = PriorityQueue::new(100, PriorityMode::MaximizeHead);
    let size: usize = 100000;

    for i in 0..size {
        queue.insert(i, i as u64);
    }

    for i in 0..size {
        assert_eq!(queue.take().unwrap(), size - i - 1);
    }
}

#[test]
fn large_queue_minimize() {
    let mut queue = PriorityQueue::new(100, PriorityMode::MinimizeHead);
    let size: usize = 100000;

    for i in 0..size {
        queue.insert(i, i as u64);
    }

    for i in 0..size {
        assert_eq!(queue.take().unwrap(), i);
    }
}

#[test]
fn zero_capacity_hint_grows() {
    let mut queue = PriorityQueue::new(0, PriorityMode::MinimizeHead);
    queue.insert("b", 2);
    queue.insert("a", 1);
    queue.insert("c", 3);
    assert_eq!(queue.take().unwrap(), "a");
    assert_eq!(queue.take().unwrap(), "b");
    assert_eq!(queue.take().unwrap(), "c");
    assert!(queue.take().is_none());
}

#[test]
fn scrambled_insertion_minimize_drains_sorted() {
    let order: [u64; 8] = [5, 0, 7, 3, 6, 1, 4, 2];
    let mut queue = PriorityQueue::new(2, PriorityMode::MinimizeHead);
    for &p in order.iter() {
        queue.insert(p, p);
    }
    for want in 0u64..8 {
        assert_eq!(queue.take().unwrap(), want);
    }
    assert!(queue.take().is_none());
}

#[test]
fn scrambled_insertion_maximize_drains_sorted() {
    let order: [u64; 8] = [5, 0, 7, 3, 6, 1, 4, 2];
    let mut queue = PriorityQueue::new(2, PriorityMode::MaximizeHead);
    for &p in order.iter() {
        queue.insert(p, p);
    }
    for want in (0u64..8).rev() {
        assert_eq!(queue.take().unwrap(), want);
    }
    assert!(queue.take().is_none());
}

#[test]
fn single_child_boundaries() {
    // Drain queues of every small size, odd and even, so the sift-down
    // walk crosses states where a node has two children, one child (the
    // even-length case) and none.
    for size in 1usize..=9 {
        let mut queue = PriorityQueue::new(1, PriorityMode::MinimizeHead);
        // Insert the even priorities descending, then the odd ones
        // ascending, so the heap actually has to reorder.
        let mut p: usize = if size % 2 == 1 { size - 1 } else { size - 2 };
        loop {
            queue.insert(p as u64, p as u64);
            if p < 2 {
                break;
            }
            p -= 2;
        }
        let mut p: usize = 1;
        while p < size {
            queue.insert(p as u64, p as u64);
            p += 2;
        }
        for want in 0..size {
            assert_eq!(queue.take().unwrap(), want as u64);
        }
        assert!(queue.take().is_none());
    }
}

#[test]
fn equal_priorities_all_drain() {
    let mut queue = PriorityQueue::new(4, PriorityMode::MaximizeHead);
    queue.insert("first", 5);
    queue.insert("second", 5);
    queue.insert("third", 5);
    queue.insert("low", 1);
    let mut seen: Vec<&str> = Vec::new();
    for _ in 0..3 {
        let item = queue.take().unwrap();
        assert_ne!(item, "low");
        seen.push(item);
    }
    assert_eq!(queue.take().unwrap(), "low");
    assert!(queue.take().is_none());
    seen.sort();
    assert_eq!(seen, vec!["first", "second", "third"]);
}

#[test]
fn mixed_history_conserves_entries() {
    // Interleave inserts and takes, some takes on an empty queue; the
    // successful takes plus what is left must add up to the inserts.
    let mut queue = PriorityQueue::new(0, PriorityMode::MinimizeHead);
    let mut inserts: usize = 0;
    let mut successes: usize = 0;

    assert!(queue.take().is_none());
    for round in 0u64..50 {
        queue.insert(round, (round * 13) % 17);
        inserts += 1;
        if round % 3 == 0 {
            if queue.take().is_some() {
                successes += 1;
            }
        }
    }
    let mut remaining: usize = 0;
    while queue.take().is_some() {
        remaining += 1;
    }
    assert_eq!(successes + remaining, inserts);
}
