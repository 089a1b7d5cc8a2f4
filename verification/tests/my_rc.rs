use my_collections::my_rc::{InnerRc, MyRc};

#[test]
fn my_rc_test_basics() {
    let my_rc = MyRc::new("bob");

    assert_eq!(my_rc.get_count(), 1);

    let mc_clone = my_rc.clone();

    assert_eq!(mc_clone.get_count(), 2);

    assert_eq!(mc_clone.get_value_ref(), &"bob");
}

#[test]
fn my_rc_test_drop_behavior() {
    struct Tracker<'a>(&'a str);

    impl<'a> Drop for Tracker<'a> {
        fn drop(&mut self) {
            println!("Dropped Tracker({})", self.0);
        }
    }

    {
        let a = MyRc::new(Tracker("a"));

        let b = a.clone();
        let c = b.clone();
        assert_eq!(a.get_count(), 3);
        let _ = (b, c);
        // all dropped here, should print once
    }

    // You should see "Dropped Tracker(a)" once in output
}

#[test]
fn my_rc_test_get_mut_ref_only_when_unique() {
    let mut rc = MyRc::new(42);
    assert_eq!(rc.get_count(), 1);

    {
        // Should succeed
        let value = rc.get_mut_ref();
        assert!(value.is_some());
        *value.unwrap() = 100;
    }

    let rc2 = rc.clone();
    assert_eq!(rc.get_count(), 2);

    // Should fail now
    assert!(rc.get_mut_ref().is_none());

    assert_eq!(rc.get_value_ref(), &100);
    let _ = rc2;
}

#[test]
fn my_rc_test_deref() {
    let rc = MyRc::new(String::from("hello"));
    assert_eq!(rc.deref().len(), 5);
}

#[test]
fn test_rc_try_unwrap_both_ways() {
    let rc = MyRc::new(String::from("mine"));
    assert_eq!(rc.try_unwrap().ok().unwrap(), "mine");

    let rc = MyRc::new(String::from("ours"));
    let keep = rc.clone();
    let back = rc.try_unwrap();
    assert!(back.is_err());
    assert_eq!(back.err().unwrap().get_value_ref(), "ours");
    assert_eq!(keep.get_value_ref(), "ours");
}

#[test]
fn test_inner_rc_record() {
    let block = InnerRc::new(9u32);
    assert_eq!(block.get_count(), 1);
    assert_eq!(*block.get_ref(), 9);
}
