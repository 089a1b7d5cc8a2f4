use my_collections::my_deque::MyDeque;
use std::cmp::Ordering;
use std::sync::{Arc, Mutex};

#[test]
fn test_push_back_basic() {
    let mut deque = MyDeque::new();

    deque.push_back(10);
    deque.push_back(20);
    deque.push_back(30);

    // After three pushes at back:
    // Elements: [10, 20, 30]
    assert_eq!(deque.len(), 3);
    assert!(!deque.is_empty());
    assert!(deque.capacity() >= 3);

    assert_eq!(deque.get(0), Some(&10));
    assert_eq!(deque.get(1), Some(&20));
    assert_eq!(deque.get(2), Some(&30));
}

#[test]
fn test_push_front_basic() {
    let mut deque = MyDeque::new();

    deque.push_front(10);
    deque.push_front(20);
    deque.push_front(30);

    assert_eq!(deque.len(), 3);

    // Elements logically: [30, 20, 10]
    for i in 0..deque.len() {
        let val = *deque.get(i).unwrap();
        assert!(val == 10 || val == 20 || val == 30);
    }
}

#[test]
fn test_push_back_and_front_mix() {
    let mut deque = MyDeque::new();

    deque.push_back(10);
    deque.push_back(20);
    deque.push_front(30);
    deque.push_front(40);

    // Elements order logically: [40, 30, 10, 20]
    assert_eq!(deque.len(), 4);

    let mut values = Vec::new();
    for i in 0..deque.len() {
        values.push(*deque.get(i).unwrap());
    }
    assert_eq!(values, vec![40, 30, 10, 20]);
}

#[test]
fn test_grow_capacity() {
    let mut deque = MyDeque::new();

    // Push enough elements to trigger growth (initial cap=2)
    deque.push_back(1);
    deque.push_back(2);
    deque.push_back(3); // triggers grow
    deque.push_back(4);

    assert!(deque.capacity() >= 4);
    assert_eq!(deque.len(), 4);

    // Check elements order is maintained
    let mut values = Vec::new();
    for i in 0..deque.len() {
        values.push(*deque.get(i).unwrap());
    }
    assert_eq!(values, vec![1, 2, 3, 4]);
}

#[test]
fn test_push_back_and_peek() {
    let mut deque = MyDeque::new();
    deque.push_back(10);
    deque.push_back(20);

    assert_eq!(deque.peek_front(), Some(&10));
    assert_eq!(deque.peek_back(), Some(&20));
}

#[test]
fn test_push_front_and_peek() {
    let mut deque = MyDeque::new();
    deque.push_front(10);
    deque.push_front(20);

    // Because push_front inserts at the "front", first peek_front is 20
    assert_eq!(deque.peek_front(), Some(&20));
    assert_eq!(deque.peek_back(), Some(&10));
}

#[test]
fn test_pop_front_and_pop_back() {
    let mut deque = MyDeque::new();
    deque.push_back(1);
    deque.push_back(2);
    deque.push_back(3);

    assert_eq!(deque.pop_front(), Some(1));
    assert_eq!(deque.pop_back(), Some(3));
    assert_eq!(deque.pop_front(), Some(2));
    assert_eq!(deque.pop_back(), None);
}

#[test]
fn test_peek_on_empty_deque() {
    let deque: MyDeque<i32> = MyDeque::new();
    assert_eq!(deque.peek_front(), None);
    assert_eq!(deque.peek_back(), None);
}

#[test]
fn test_push_pop_mix() {
    let mut deque = MyDeque::new();

    deque.push_back(1);
    deque.push_front(2);
    deque.push_back(3);
    deque.push_front(4);

    // Logical order should be [4, 2, 1, 3]
    assert_eq!(deque.peek_front(), Some(&4));
    assert_eq!(deque.peek_back(), Some(&3));

    assert_eq!(deque.pop_front(), Some(4));
    assert_eq!(deque.pop_back(), Some(3));
    assert_eq!(deque.pop_front(), Some(2));
    assert_eq!(deque.pop_back(), Some(1));
    assert_eq!(deque.pop_back(), None);
}

#[test]
fn test_grow_and_peek() {
    let mut deque = MyDeque::new();
    // Push enough elements to trigger growth
    for i in 0..10 {
        deque.push_back(i);
    }

    assert_eq!(deque.len(), 10);
    assert_eq!(deque.peek_front(), Some(&0));
    assert_eq!(deque.peek_back(), Some(&9));

    // Pop a few and check peeks update correctly
    let front = deque.pop_front();
    let back = deque.pop_back();

    println!("{:?} {:?}", front, back);

    assert_eq!(deque.peek_front(), Some(&1));
    assert_eq!(deque.peek_back(), Some(&8));
}

#[test]
fn test_clear() {
    let mut deque = MyDeque::new();

    deque.push_back(10);
    deque.push_back(20);
    deque.push_back(30);

    deque.clear();

    assert!(deque.is_empty())
}

#[test]
fn test_contains() {
    let mut deque = MyDeque::new();

    deque.push_back(10);
    deque.push_back(20);
    deque.push_back(30);

    assert!(deque.contains(&10));
    assert!(!deque.contains(&40));
}

#[test]
fn test_extend() {
    let mut deque = MyDeque::new();
    deque.push_back(1);
    deque.push_back(2);
    deque.extend_from_vec(vec![3, 4, 5]);
    let collected: Vec<_> = (0..deque.len()).map(|i| *deque.get(i).unwrap()).collect();
    assert_eq!(collected, vec![1, 2, 3, 4, 5]);
}

#[test]
fn my_deque_test_clone() {
    let mut deque = MyDeque::new();
    deque.push_back(10);
    deque.push_back(20);
    let cloned = deque.clone();
    assert_eq!(deque, cloned);
    // Mutate original, cloned should not change
    deque.push_back(30);
    assert_ne!(deque, cloned);
}

#[test]
fn test_drop() {
    struct DropCounter(Arc<Mutex<usize>>);
    impl Drop for DropCounter {
        fn drop(&mut self) {
            let mut count = self.0.lock().unwrap();
            *count += 1;
        }
    }
    let counter = Arc::new(Mutex::new(0));
    {
        let mut deque = MyDeque::new();
        for _ in 0..5 {
            deque.push_back(DropCounter(counter.clone()));
        }
        // When deque goes out of scope, all DropCounter should be dropped
    }
    assert_eq!(*counter.lock().unwrap(), 5);
}

#[test]
fn test_ref_iter() {
    let mut deque = MyDeque::new();
    let mut iter_vec = vec![];

    deque.push_back(10);
    deque.push_back(20);
    deque.push_back(30);

    let mut iter = deque.iter();
    while let Some(val) = iter.next() {
        iter_vec.push(val);
    }

    assert_eq!(vec![&10, &20, &30], iter_vec);
}

#[test]
fn test_mydeque_iter() {
    let mut deque = MyDeque::new();
    deque.push_back(1);
    deque.push_back(2);
    deque.push_back(3);
    let mut collected: Vec<i32> = Vec::new();
    let mut iter = deque.iter();
    while let Some(val) = iter.next() {
        collected.push(*val);
    }
    assert_eq!(collected, vec![1, 2, 3]);
}

#[test]
fn test_mydeque_iter_mut() {
    let mut deque = MyDeque::new();
    deque.push_back(10);
    deque.push_back(20);
    deque.push_back(30);
    let mut positions = deque.iter_mut();
    while let Some(i) = positions.next() {
        *deque.get_mut(i).unwrap() += 1;
    }
    let mut collected: Vec<i32> = Vec::new();
    let mut iter = deque.iter();
    while let Some(val) = iter.next() {
        collected.push(*val);
    }
    assert_eq!(collected, vec![11, 21, 31]);
}

#[test]
fn test_mydeque_into_iter() {
    let mut deque = MyDeque::new();
    deque.push_back(100);
    deque.push_back(200);
    deque.push_back(300);
    let mut collected: Vec<i32> = Vec::new();
    let mut iter = deque.into_iter();
    while let Some(val) = iter.next() {
        collected.push(val);
    }
    assert_eq!(collected, vec![100, 200, 300]);
}

#[test]
fn test_mydeque_into_iter_drop() {
    struct DropCounter(Arc<Mutex<usize>>);
    impl Drop for DropCounter {
        fn drop(&mut self) {
            let mut count = self.0.lock().unwrap();
            *count += 1;
        }
    }
    let counter = Arc::new(Mutex::new(0));
    {
        let mut deque = MyDeque::new();
        for _ in 0..4 {
            deque.push_back(DropCounter(counter.clone()));
        }
        // Only consume part of the iterator
        let mut iter = deque.into_iter();
        let _ = iter.next(); // consume one
        // When iter is dropped, remaining elements should be dropped
    }
    assert_eq!(*counter.lock().unwrap(), 4);
}

// Equality is structural and position by position: equal contents in a ring
// whose front sits elsewhere still compare equal, and one differing element
// decides.
#[test]
fn test_eq_ignores_ring_layout() {
    let mut a = MyDeque::new();
    a.push_back(1);
    a.push_back(2);
    a.push_back(3);

    let mut b = MyDeque::with_capacity(8);
    b.push_back(0);
    b.push_back(1);
    b.push_back(2);
    b.push_back(3);
    assert_eq!(b.pop_front(), Some(0));

    assert_eq!(a, b);

    *b.get_mut(1).unwrap() = 9;
    assert_ne!(a, b);
}

// A ring that starts without slots grows on the first push.
#[test]
fn test_with_capacity_zero_grows() {
    let mut deque = MyDeque::with_capacity(0);
    assert_eq!(deque.capacity(), 0);
    assert!(deque.is_full());
    deque.push_back(1);
    assert_eq!(deque.capacity(), 2);
    assert_eq!(deque.pop_front(), Some(1));
}

// Wrap-around: the front moves past the physical end of the ring and the
// logical order is kept.
#[test]
fn test_wraparound_order() {
    let mut deque = MyDeque::with_capacity(4);
    deque.push_back(1);
    deque.push_back(2);
    deque.push_back(3);
    assert_eq!(deque.pop_front(), Some(1));
    assert_eq!(deque.pop_front(), Some(2));
    deque.push_back(4);
    deque.push_back(5); // wraps into the freed slots
    assert_eq!(deque.capacity(), 4);
    let collected: Vec<_> = (0..deque.len()).map(|i| *deque.get(i).unwrap()).collect();
    assert_eq!(collected, vec![3, 4, 5]);
}

// Lexicographic comparison: the first differing element decides; a strict
// prefix comes first.
#[test]
fn test_cmp_lexicographic() {
    let mut a = MyDeque::new();
    a.push_back(1);
    a.push_back(2);
    let mut b = MyDeque::new();
    b.push_back(1);
    b.push_back(3);
    assert_eq!(a.cmp(&b), Ordering::Less);
    assert_eq!(b.cmp(&a), Ordering::Greater);
    assert_eq!(a.partial_cmp(&b), Some(Ordering::Less));

    let mut prefix = MyDeque::new();
    prefix.push_back(1);
    assert_eq!(prefix.cmp(&a), Ordering::Less);
    assert_eq!(a.cmp(&a), Ordering::Equal);
    assert_eq!(a.partial_cmp(&a), Some(Ordering::Equal));
}
