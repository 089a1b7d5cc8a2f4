use my_collections::my_arc::MyArc;
use std::sync::Mutex;

#[test]
fn test_try_unwrap_success() {
    let rc = MyArc::new(String::from("own me"));
    let unwrapped = rc.try_unwrap().unwrap_or("test".to_string());
    assert_eq!(unwrapped, "own me");
}

#[test]
fn test_try_unwrap_fail() {
    let rc = MyArc::new(String::from("shared"));
    let _clone = rc.clone();
    let result = rc.try_unwrap();
    assert!(result.is_err());
}

#[test]
fn test_get_mut_ref_arc() {
    let mut rc = MyArc::new(123);
    assert!(rc.get_mut_ref().is_some());

    let _clone = rc.clone();
    assert!(rc.get_mut_ref().is_none());
}

#[test]
fn my_arc_test_basics() {
    let my_rc = MyArc::new("bob");

    assert_eq!(my_rc.get_strong_count(), 1);

    let mc_clone = my_rc.clone();

    assert_eq!(mc_clone.get_strong_count(), 2);

    assert_eq!(mc_clone.get_value_ref(), &"bob");
}

#[test]
fn my_arc_test_drop_behavior() {
    struct Tracker<'a>(&'a str);

    impl<'a> Drop for Tracker<'a> {
        fn drop(&mut self) {
            println!("Dropped Tracker({})", self.0);
        }
    }

    {
        let a = MyArc::new(Tracker("a"));

        let b = a.clone();
        let c = b.clone();
        assert_eq!(a.get_strong_count(), 3);
        let _ = (b, c);
        // all dropped here, should print once
    }

    // You should see "Dropped Tracker(a)" once in output
}

#[test]
fn my_arc_test_get_mut_ref_only_when_unique() {
    let mut rc = MyArc::new(42);
    assert_eq!(rc.get_strong_count(), 1);

    {
        // Should succeed
        let value = rc.get_mut_ref();
        assert!(value.is_some());
        *value.unwrap() = 100;
    }

    let rc2 = rc.clone();
    assert_eq!(rc.get_strong_count(), 2);

    // Should fail now
    assert!(rc.get_mut_ref().is_none());

    assert_eq!(rc.get_value_ref(), &100);
    let _ = rc2;
}

#[test]
fn my_arc_test_deref() {
    let rc = MyArc::new(String::from("hello"));
    assert_eq!(rc.deref().len(), 5);
}

#[test]
fn test_weak_upgrade_success() {
    let arc = MyArc::new(42);
    let weak = arc.downgrade();

    assert_eq!(arc.get_strong_count(), 1);
    assert_eq!(arc.get_weak_count(), 2); // arc holds 1 implicit weak, and we created another

    let upgraded = weak.upgrade();
    assert!(upgraded.is_some());
    assert_eq!(*upgraded.unwrap().deref(), 42);
}

#[test]
fn test_weak_upgrade_fails_after_arc_drop() {
    let weak = {
        let arc = MyArc::new("hello".to_string());
        let weak = arc.downgrade();
        assert!(weak.upgrade().is_some());
        weak
    };

    // All strong references dropped now
    assert!(weak.upgrade().is_none());
}

#[test]
fn test_weak_counts() {
    let arc = MyArc::new("hi");
    assert_eq!(arc.get_weak_count(), 1); // internal weak ref

    let w1 = arc.downgrade();
    assert_eq!(arc.get_weak_count(), 2);

    let w2 = w1.clone();
    assert_eq!(arc.get_weak_count(), 3);

    drop(w1);
    assert_eq!(arc.get_weak_count(), 2);

    drop(w2);
    assert_eq!(arc.get_weak_count(), 1); // back to implicit only
}

struct CountedDrop(std::sync::Arc<Mutex<usize>>);

impl Drop for CountedDrop {
    fn drop(&mut self) {
        let mut count = self.0.lock().unwrap();
        *count += 1;
    }
}

// The full lifecycle walk: one allocation over the integer payload, a clone, a
// downgrade, both strong handles dropped (payload destroyed exactly once), the
// last weak observer fails to upgrade, and everything is released.
#[test]
fn test_lifecycle_scenario() {
    let drops = std::sync::Arc::new(Mutex::new(0usize));
    let a = MyArc::new((42, CountedDrop(drops.clone())));
    assert_eq!(a.get_strong_count(), 1);
    assert_eq!(a.get_weak_count(), 1);

    let b = a.clone();
    assert_eq!(a.get_strong_count(), 2);

    let w = a.downgrade();
    assert_eq!(a.get_weak_count(), 2);

    assert_eq!(a.deref().0, 42);

    drop(a);
    assert_eq!(b.get_strong_count(), 1);
    assert_eq!(*drops.lock().unwrap(), 0);

    drop(b);
    // the payload went with the last strong handle, exactly once
    assert_eq!(*drops.lock().unwrap(), 1);

    assert!(w.upgrade().is_none());
    drop(w);
}

// Upgrading through any clone of a weak observer hands back the payload the
// observer was derived from.
#[test]
fn test_upgrade_through_cloned_weak() {
    let arc = MyArc::new(String::from("kept"));
    let w = arc.downgrade();
    let w2 = w.clone();
    assert_eq!(w2.upgrade().unwrap().deref(), "kept");
    assert_eq!(w.upgrade().unwrap().deref(), "kept");
}

// Dropping the last strong handle destroys the payload exactly once, however
// many weak observers are still alive.
#[test]
fn test_destruction_ignores_weak_handles() {
    let drops = std::sync::Arc::new(Mutex::new(0usize));
    let a = MyArc::new(CountedDrop(drops.clone()));
    let w1 = a.downgrade();
    let w2 = w1.clone();
    let w3 = w2.clone();
    drop(a);
    assert_eq!(*drops.lock().unwrap(), 1);
    assert!(w1.upgrade().is_none());
    assert!(w2.upgrade().is_none());
    assert!(w3.upgrade().is_none());
}

// A failed reclaim hands the same handle back, with the payload untouched.
#[test]
fn test_try_unwrap_fail_returns_handle() {
    let a = MyArc::new(7u64);
    let b = a.clone();
    match a.try_unwrap() {
        Ok(_) => panic!("reclaim must fail while another strong handle lives"),
        Err(same) => {
            assert_eq!(same.get_strong_count(), 2);
            assert_eq!(*same.deref(), 7);
        }
    }
    assert_eq!(*b.deref(), 7);
}
