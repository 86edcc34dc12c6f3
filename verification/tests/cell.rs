use scoped_list::List;
use std::cell::Cell;

#[test]
fn cell() {
    List::push(None, Cell::new(3), |list| {
        List::push(Some(list), Cell::new(5), |list| {
            List::push(Some(list), Cell::new(13), |list| {
                let mut it = list.iter();
                while let Some(val) = it.next() {
                    val.set(val.get() * 10);
                }

                let mut vals = list.iter();
                assert_eq!(vals.next().unwrap().get(), 130);
                assert_eq!(vals.next().unwrap().get(), 50);
                assert_eq!(vals.next().unwrap().get(), 30);
                assert_eq!(vals.next(), None);
                assert_eq!(vals.next(), None);
            })
        })
    })
}

#[test]
fn mutation_leaves_shape_unchanged() {
    List::push(None, Cell::new(1), |root| {
        List::push(Some(root), Cell::new(2), |leaf| {
            // Mutate the root's contents through the shared reference.
            root.data.set(9);
            // The links and the traversal order are as before; only the
            // contents changed, and every alias observes the change.
            assert!(leaf.prev.is_some());
            let mut it = leaf.iter();
            assert_eq!(it.next().unwrap().get(), 2);
            assert_eq!(it.next().unwrap().get(), 9);
            assert_eq!(it.next(), None);
        })
    })
}
