use vstd::prelude::*;

verus! {

/// Where a task stands.
#[derive(Clone, Copy, Debug, PartialEq, Eq, Structural)]
pub enum State {
    Completed,
    Pending,
    Ongoing,
}

/// An entry of a to-do list.
#[derive(Debug)]
pub struct Task {
    pub id: usize,
    pub name: String,
    pub status: State,
}

impl Task {
    /// Moves the task to `new_state`.
    pub fn update_state(&mut self, new_state: State)
        ensures
            final(self).status == new_state,
            final(self).id == old(self).id,
            final(self).name == old(self).name,
    {
        self.status = new_state;
    }
}

/// Appends a pending task named `task_name`, numbered with the list's length.
pub fn add_task(task_name: String, task_list: &mut Vec<Task>)
    ensures
        final(task_list)@ == old(task_list)@.push(
            Task { id: old(task_list)@.len() as usize, name: task_name, status: State::Pending },
        ),
{
    let length = task_list.len();
    let task = Task { id: length, name: task_name, status: State::Pending };
    task_list.push(task);
}

/// The tasks of `tasks` whose number is not `id`, in their order.
pub open spec fn without_id(tasks: Seq<Task>, id: usize) -> Seq<Task>
    decreases tasks.len(),
{
    if tasks.len() == 0 {
        tasks
    } else if tasks.last().id == id {
        without_id(tasks.drop_last(), id)
    } else {
        without_id(tasks.drop_last(), id).push(tasks.last())
    }
}

/// Removes every task numbered `id`, keeping the others in their order.
pub fn remove_task(id: usize, task_list: &mut Vec<Task>)
    ensures
        final(task_list)@ == without_id(old(task_list)@, id),
{
    let ghost orig = task_list@;
    let ghost mut j: int = 0;
    let mut i: usize = 0;
    while i < task_list.len()
        invariant
            0 <= j <= orig.len(),
            i == without_id(orig.take(j), id).len(),
            task_list@ =~= without_id(orig.take(j), id) + orig.skip(j),
        decreases orig.len() - j,
    {
        proof {
            assert(orig.take(j + 1).drop_last() =~= orig.take(j));
            assert(orig.take(j + 1).last() == orig[j]);
            assert(task_list@[i as int] == orig[j]);
        }
        if task_list[i].id == id {
            task_list.remove(i);
        } else {
            i = i + 1;
        }
        proof {
            j = j + 1;
        }
    }
    proof {
        assert(j == orig.len());
        assert(orig.take(j) =~= orig);
    }
}

} // verus!
