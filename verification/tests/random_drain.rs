use priority_queue::PriorityMode;
use priority_queue::PriorityQueue;
use rand::random;

#[test]
fn test_random_minimize() {
    let mut queue = PriorityQueue::new(100, PriorityMode::MinimizeHead);
    let size: usize = 100000;

    for _ in 0..size {
        let rval: u64 = random();
        queue.insert(rval, rval);
    }

    let mut head = queue.take().unwrap();

    for _ in 0..(size - 1) {
        let nval = queue.take().unwrap();
        assert!(head <= nval);
        head = nval;
    }
}

#[test]
fn test_random_maximize() {
    let mut queue = PriorityQueue::new(100, PriorityMode::MaximizeHead);
    let size: usize = 100000;

    for _ in 0..size {
        let rval: u64 = random();
        queue.insert(rval, rval);
    }

    let mut head = queue.take().unwrap();

    for _ in 0..(size - 1) {
        let nval = queue.take().unwrap();
        assert!(head >= nval);
        head = nval;
    }
}
