use iocraft::{State, TaskPool};

#[test]
fn state_write_is_seen_from_the_next_pass() {
    let mut cell = State::new(0u32);
    assert!(!cell.is_dirty());
    cell.write(1);
    assert_eq!(*cell.read(), 0);
    assert!(cell.is_dirty());
    assert!(cell.commit());
    assert_eq!(*cell.read(), 1);
    assert!(!cell.is_dirty());
    assert!(!cell.commit());
    assert_eq!(*cell.read(), 1);
}

#[test]
fn state_after_n_passes_shows_last_write() {
    let mut cell = State::new(String::from("init"));
    let writes = ["a", "b", "c"];
    let mut seen = Vec::new();
    for w in writes {
        cell.write(w.to_string());
        seen.push(cell.read().clone());
        cell.commit();
    }
    assert_eq!(seen, vec!["init", "a", "b"]);
    assert_eq!(cell.read(), "c");
}

#[test]
fn last_write_in_a_pass_wins() {
    let mut cell = State::new(5i64);
    cell.write(6);
    cell.write(7);
    assert_eq!(*cell.read(), 5);
    cell.commit();
    assert_eq!(*cell.read(), 7);
}

#[test]
fn prints_from_two_tasks_stay_whole_lines() {
    let mut pool = TaskPool::new();
    let a = pool.spawn(1);
    let b = pool.spawn(2);
    assert_eq!((a, b), (0, 1));
    pool.print(a, "Progress: ");
    pool.print(b, "Error count: ");
    pool.print(a, "2");
    pool.println(b, "0");
    pool.println(a, " done");
    assert_eq!(pool.to_string(), "Error count: 0\nProgress: 2 done\n");
}

#[test]
fn destroyed_instance_tasks_print_nothing() {
    let mut pool = TaskPool::new();
    let a = pool.spawn(7);
    let b = pool.spawn(8);
    let c = pool.spawn(7);
    pool.println(a, "before");
    pool.print(c, "half");
    pool.destroy_instance(7);
    assert!(!pool.is_live(a));
    assert!(!pool.is_live(c));
    assert!(pool.is_live(b));
    pool.println(a, "after");
    pool.println(c, " line");
    pool.println(b, "other");
    assert_eq!(pool.to_string(), "before\nother\n");
}

#[test]
fn unknown_task_is_not_live() {
    let mut pool = TaskPool::new();
    assert!(!pool.is_live(0));
    pool.println(3, "nobody");
    assert_eq!(pool.to_string(), "");
}
