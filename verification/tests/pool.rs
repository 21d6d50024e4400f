use dth::collections::pool::Handle;
use dth::collections::Pool;

#[test]
fn pool_gives_back_what_was_registered() {
    let mut pool = Pool::new();
    let a = pool.register("a");
    let b = pool.register("b");
    assert_eq!("a", *pool.get(a));
    assert_eq!("b", *pool.get(b));
    assert_eq!(Some(&"a"), pool.try_get(a));
    *pool.get_mut(a) = "c";
    assert_eq!("c", *pool.get(a));
    assert_eq!("b", *pool.get(b));
}

#[test]
fn pool_handle_dies_with_its_value() {
    let mut pool = Pool::default();
    let a = pool.register(1u32);
    let b = pool.register(2u32);
    assert_eq!(1, pool.remove(a));
    assert_eq!(None, pool.try_get(a));
    assert_eq!(None, pool.try_remove(a));
    assert!(pool.try_get_mut(a).is_none());
    assert_eq!(Some(&2), pool.try_get(b));
    // The freed slot is used again, under a handle of its own.
    assert!(pool.has_room());
    let c = pool.register(3u32);
    assert_eq!(Some(&3), pool.try_get(c));
    assert_eq!(None, pool.try_get(a));
    assert_eq!(Some(3), pool.try_remove(c));
    assert_eq!(None, pool.try_remove(c));
    assert_eq!(Some(&2), pool.try_get(b));
}

#[test]
fn pool_knows_no_handle_of_its_own_making() {
    let mut pool: Pool<u8> = Pool::new();
    assert_eq!(None, pool.try_get(Handle::default()));
    let _first = pool.register(5);
    assert_eq!(None, pool.try_get(Handle::default()));
    assert_eq!(None, pool.try_remove(Handle::default()));
}

#[test]
fn pool_try_get_mut_writes_one_value() {
    let mut pool = Pool::new();
    let a = pool.register(10);
    let b = pool.register(20);
    if let Some(value) = pool.try_get_mut(b) {
        *value += 1;
    }
    assert_eq!(10, *pool.get(a));
    assert_eq!(21, *pool.get(b));
}

#[derive(Debug)]
struct Node {
    me: Option<Handle<Node>>,
    weight: u32,
}

#[test]
fn pool_callback_sees_the_handle_of_the_value() {
    let mut pool: Pool<Node> = Pool::new();
    let store = |node: &mut Node, handle: Handle<Node>| node.me = Some(handle);
    let first = pool.register_with_callback(Node { me: None, weight: 1 }, store);
    let second = pool.register_with_callback(Node { me: None, weight: 2 }, store);
    let me = pool.get(first).me.unwrap();
    assert_eq!(1, pool.get(me).weight);
    let me = pool.get(second).me.unwrap();
    assert_eq!(2, pool.get(me).weight);

    // A slot that is used again gives a handle of its own to the callback.
    pool.remove(first);
    let third = pool.register_with_callback(Node { me: None, weight: 3 }, store);
    let me = pool.get(third).me.unwrap();
    assert_eq!(3, pool.get(me).weight);
    assert!(pool.try_get(first).is_none());

    let mut other: Pool<Vec<u32>> = Pool::new();
    let handle = other.register_with_callback(vec![1], |data, _handle| data.push(2));
    assert_eq!(vec![1, 2], *other.get(handle));
}

#[test]
fn pool_iter_skips_the_freed_slots() {
    let mut pool = Pool::new();
    let handles: Vec<_> = (0..6u32).map(|value| pool.register(value)).collect();
    pool.remove(handles[1]);
    pool.remove(handles[4]);
    let mut iter = pool.iter();
    let mut seen = Vec::new();
    while let Some(value) = iter.next() {
        seen.push(*value);
    }
    assert_eq!(vec![0, 2, 3, 5], seen);
    {
        let mut iter = pool.iter_mut();
        while let Some(value) = iter.next() {
            *value *= 10;
        }
    }
    assert_eq!(20, *pool.get(handles[2]));
    assert_eq!(50, *pool.get(handles[5]));
    assert_eq!(None, pool.try_get(handles[4]));
    let mut empty: Pool<u8> = Pool::new();
    assert!(empty.iter().next().is_none());
    assert!(empty.iter_mut().next().is_none());
}
