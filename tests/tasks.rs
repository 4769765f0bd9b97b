use ramen::tasks::{add_task, remove_task, State, Task};

fn ids(tasks: &[Task]) -> Vec<usize> {
    tasks.iter().map(|t| t.id).collect()
}

#[test]
fn added_tasks_are_pending_and_numbered_by_position() {
    let mut list = Vec::new();
    add_task(String::from("write"), &mut list);
    add_task(String::from("test"), &mut list);
    assert_eq!(ids(&list), vec![0, 1]);
    assert_eq!(list[1].name, "test");
    assert_eq!(list[0].status, State::Pending);
}

#[test]
fn removing_drops_only_that_number() {
    let mut list = Vec::new();
    for name in ["a", "b", "c", "d"] {
        add_task(String::from(name), &mut list);
    }
    remove_task(2, &mut list);
    assert_eq!(ids(&list), vec![0, 1, 3]);
    remove_task(9, &mut list);
    assert_eq!(ids(&list), vec![0, 1, 3]);
    add_task(String::from("e"), &mut list);
    add_task(String::from("f"), &mut list);
    assert_eq!(ids(&list), vec![0, 1, 3, 3, 4]);
    remove_task(3, &mut list);
    assert_eq!(ids(&list), vec![0, 1, 4]);
    assert_eq!(list[2].name, "f");
}

#[test]
fn state_changes_only_the_status() {
    let mut task = Task { id: 7, name: String::from("x"), status: State::Pending };
    task.update_state(State::Ongoing);
    assert_eq!(task.status, State::Ongoing);
    task.update_state(State::Completed);
    assert_eq!(task.status, State::Completed);
    assert_eq!(task.id, 7);
    assert_eq!(task.name, "x");
}
