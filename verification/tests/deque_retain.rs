use retain_mut::RetainMut;
use std::cell::Cell;
use std::collections::VecDeque;
use std::rc::Rc;

struct Noted {
    id: u32,
    drops: Rc<Cell<u32>>,
}

impl Drop for Noted {
    fn drop(&mut self) {
        self.drops.set(self.drops.get() + 1);
    }
}

fn wrapped() -> VecDeque<i32> {
    let mut deque = VecDeque::with_capacity(8);
    for x in [4, 5, 6, 7, 8] {
        deque.push_back(x);
    }
    for x in [3, 2, 1] {
        deque.push_front(x);
    }
    deque
}

#[test]
fn deque_triple_then_keep_even() {
    let mut deque = VecDeque::from(vec![1, 2, 3, 4]);
    RetainMut::retain_mut(&mut deque, |x: &mut i32| {
        *x *= 3;
        *x % 2 == 0
    });
    assert_eq!(deque, [6, 12]);
}

#[test]
fn deque_keeps_order_of_survivors() {
    let mut deque: VecDeque<u32> = (0..20).collect();
    RetainMut::retain_mut(&mut deque, |x: &mut u32| *x % 3 != 1);
    assert_eq!(deque, [0, 2, 3, 5, 6, 8, 9, 11, 12, 14, 15, 17, 18]);
}

#[test]
fn deque_wrapped_storage_follows_logical_order() {
    let mut deque = wrapped();
    assert!(!deque.as_slices().1.is_empty());
    let mut visited = Vec::new();
    RetainMut::retain_mut(&mut deque, |x: &mut i32| {
        visited.push(*x);
        *x *= 2;
        *x % 3 != 0
    });
    assert_eq!(visited, [1, 2, 3, 4, 5, 6, 7, 8]);
    assert_eq!(deque, [2, 4, 8, 10, 14, 16]);
}

#[test]
fn deque_keeps_everything_under_always_true() {
    let mut deque = wrapped();
    RetainMut::retain_mut(&mut deque, |_: &mut i32| true);
    assert_eq!(deque, [1, 2, 3, 4, 5, 6, 7, 8]);
    assert_eq!(deque.len(), 8);
}

#[test]
fn deque_drops_everything_once_under_always_false() {
    let mut drops = Vec::new();
    let mut deque = VecDeque::new();
    for id in 0..6 {
        let counter = Rc::new(Cell::new(0));
        drops.push(counter.clone());
        if id % 2 == 0 {
            deque.push_back(Noted { id, drops: counter });
        } else {
            deque.push_front(Noted { id, drops: counter });
        }
    }
    RetainMut::retain_mut(&mut deque, |_: &mut Noted| false);
    assert!(deque.is_empty());
    for counter in &drops {
        assert_eq!(counter.get(), 1);
    }
    drop(deque);
    for counter in &drops {
        assert_eq!(counter.get(), 1);
    }
}

#[test]
fn deque_drops_rejected_only_when_the_pass_ends() {
    let mut drops = Vec::new();
    let mut deque = VecDeque::new();
    for id in 0..5 {
        let counter = Rc::new(Cell::new(0));
        drops.push(counter.clone());
        deque.push_back(Noted { id, drops: counter });
    }
    let seen = drops.clone();
    RetainMut::retain_mut(&mut deque, |item: &mut Noted| {
        for counter in &seen {
            assert_eq!(counter.get(), 0);
        }
        item.id % 2 == 1
    });
    let ids: Vec<u32> = deque.iter().map(|item| item.id).collect();
    assert_eq!(ids, [1, 3]);
    let counts: Vec<u32> = drops.iter().map(|counter| counter.get()).collect();
    assert_eq!(counts, [1, 0, 1, 0, 1]);
}

#[test]
fn deque_visits_each_element_once_in_order() {
    let mut deque = VecDeque::from(vec![10, 11, 12, 13, 14, 15]);
    let mut visited = Vec::new();
    RetainMut::retain_mut(&mut deque, |x: &mut i32| {
        visited.push(*x);
        *x % 2 == 1
    });
    assert_eq!(visited, [10, 11, 12, 13, 14, 15]);
    assert_eq!(deque, [11, 13, 15]);
}

#[test]
fn deque_identity_predicate_twice_is_once() {
    let mut once = wrapped();
    RetainMut::retain_mut(&mut once, |_: &mut i32| true);
    let mut twice = wrapped();
    RetainMut::retain_mut(&mut twice, |_: &mut i32| true);
    RetainMut::retain_mut(&mut twice, |_: &mut i32| true);
    assert_eq!(once, [1, 2, 3, 4, 5, 6, 7, 8]);
    assert_eq!(twice, once);
}

#[test]
fn deque_shows_mutations_of_survivors() {
    let mut deque = VecDeque::from(vec![1, 2, 3, 4]);
    RetainMut::retain_mut(&mut deque, |x: &mut i32| {
        *x *= 10;
        *x > 15
    });
    assert_eq!(deque, [20, 30, 40]);
}

#[test]
fn deque_empty_stays_empty_without_calls() {
    let mut deque: VecDeque<i32> = VecDeque::new();
    let mut calls = 0;
    RetainMut::retain_mut(&mut deque, |_: &mut i32| {
        calls += 1;
        true
    });
    assert!(deque.is_empty());
    assert_eq!(calls, 0);
}

#[test]
fn deque_kept_element_moves_over_rejected_ones() {
    let mut deque = VecDeque::from(vec![1, 2, 3]);
    RetainMut::retain_mut(&mut deque, |x: &mut i32| *x == 3);
    assert_eq!(deque, [3]);
}

#[test]
fn deque_agrees_with_filtering_a_copy() {
    let input: Vec<u32> = (0..64).map(|n| n * 37 % 101).collect();
    let mut deque: VecDeque<u32> = VecDeque::new();
    for (n, x) in input.iter().enumerate() {
        if n < 32 {
            deque.push_front(input[31 - n]);
        } else {
            deque.push_back(*x);
        }
    }
    RetainMut::retain_mut(&mut deque, |x: &mut u32| {
        *x += 1;
        *x % 3 == 0
    });
    let expected: Vec<u32> = input.iter().map(|x| x + 1).filter(|x| x % 3 == 0).collect();
    assert_eq!(deque, expected);
}

#[test]
fn deque_of_strings_with_rejections() {
    let mut deque: VecDeque<String> = VecDeque::new();
    for s in ["cat", "dog", "eel", "fox"] {
        deque.push_back(s.to_string());
    }
    for s in ["bee", "ant"] {
        deque.push_front(s.to_string());
    }
    RetainMut::retain_mut(&mut deque, |s: &mut String| {
        s.push('!');
        s.contains('e') || s.starts_with('d')
    });
    assert_eq!(deque, ["bee!", "dog!", "eel!"]);
}

#[test]
fn deque_rejects_only_the_front() {
    let mut deque = wrapped();
    RetainMut::retain_mut(&mut deque, |x: &mut i32| *x != 1);
    assert_eq!(deque, [2, 3, 4, 5, 6, 7, 8]);
}

#[test]
fn deque_rejects_only_the_back() {
    let mut deque = wrapped();
    RetainMut::retain_mut(&mut deque, |x: &mut i32| *x != 8);
    assert_eq!(deque, [1, 2, 3, 4, 5, 6, 7]);
}

#[test]
fn deque_predicate_with_state_alternates() {
    let mut deque: VecDeque<char> = "abcde".chars().collect();
    let mut keep = false;
    RetainMut::retain_mut(&mut deque, |_: &mut char| {
        keep = !keep;
        keep
    });
    assert_eq!(deque, ['a', 'c', 'e']);
}

#[test]
fn deque_rejected_elements_see_no_later_visit() {
    let mut deque = wrapped();
    let mut visited = Vec::new();
    RetainMut::retain_mut(&mut deque, |x: &mut i32| {
        visited.push(*x);
        *x += 100;
        *x % 3 == 0
    });
    assert_eq!(visited, [1, 2, 3, 4, 5, 6, 7, 8]);
    assert_eq!(deque, [102, 105, 108]);
}
