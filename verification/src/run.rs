//! The download run as a whole: which files are requested.
//!
//! A run works on the tasks of a plan. For each task the destination is
//! looked for on disk first; the file is requested only where it is missing,
//! and a file that was fetched is on disk from then on. Stated here is what
//! follows for the run: each file that posts refer to by a path from the
//! root, and that is not on disk yet, is requested exactly once, and nothing
//! else is requested.

use crate::dispatch::{all_tasks, file_name_of, is_fetchable, task_for, tasks_for, TaskView};
use crate::layout::{attachment_dir_name, image_dir_name};
use crate::post::PostView;
use crate::transfer::{next, TaskAction, TaskEvent, TaskState};
use vstd::prelude::*;

verus! {

/// Where a file is stored: the directory below the top directory, and the
/// name of the file.
pub type Destination = (Seq<char>, Seq<char>);

/// Where the file of `task` is stored.
pub open spec fn destination(task: TaskView) -> Destination {
    (task.directory, task.filename)
}

/// No two tasks store their file at the same place.
pub open spec fn distinct_destinations(tasks: Seq<TaskView>) -> bool {
    forall|i: int, j: int|
        0 <= i < j < tasks.len() ==> destination(#[trigger] tasks[i]) != destination(
            #[trigger] tasks[j],
        )
}

/// What is reported for `task` when its destination is looked for on `disk`.
pub open spec fn probe(task: TaskView, disk: Set<Destination>) -> TaskEvent {
    if disk.contains(destination(task)) {
        TaskEvent::Found
    } else {
        TaskEvent::Missing
    }
}

/// The file of `task` is requested when its destination is looked for on
/// `disk`: the task, not begun, is told to fetch.
pub open spec fn is_requested(task: TaskView, disk: Set<Destination>) -> bool {
    next(TaskState::Queued, probe(task, disk)).1 == TaskAction::Fetch
}

/// The disk after `tasks` were worked on, every request having succeeded:
/// the destination of each is there.
pub open spec fn disk_after(tasks: Seq<TaskView>, disk: Set<Destination>) -> Set<Destination>
    decreases tasks.len(),
{
    if tasks.len() == 0 {
        disk
    } else {
        disk_after(tasks.drop_last(), disk).insert(destination(tasks.last()))
    }
}

/// The addresses that are requested when `tasks` are worked on, beginning
/// with `disk`, every request succeeding: for each task its address, if its
/// destination is missing when the task's turn has come.
pub open spec fn requests_of(tasks: Seq<TaskView>, disk: Set<Destination>) -> Seq<Seq<char>>
    decreases tasks.len(),
{
    if tasks.len() == 0 {
        Seq::empty()
    } else if is_requested(tasks.last(), disk_after(tasks.drop_last(), disk)) {
        requests_of(tasks.drop_last(), disk).push(tasks.last().url)
    } else {
        requests_of(tasks.drop_last(), disk)
    }
}

/// The addresses of the tasks whose destination is missing on `disk`.
pub open spec fn missing_of(tasks: Seq<TaskView>, disk: Set<Destination>) -> Seq<Seq<char>>
    decreases tasks.len(),
{
    if tasks.len() == 0 {
        Seq::empty()
    } else if disk.contains(destination(tasks.last())) {
        missing_of(tasks.drop_last(), disk)
    } else {
        missing_of(tasks.drop_last(), disk).push(tasks.last().url)
    }
}

/// The path is to be fetched into `directory` and its file is not on `disk`.
pub open spec fn is_wanted(directory: Seq<char>, path: Seq<char>, disk: Set<Destination>) -> bool {
    is_fetchable(path) && !disk.contains((directory, file_name_of(path)))
}

/// The addresses of the files that `paths` refer to, that can be fetched
/// into `directory` and are not on `disk`: one for each such path, in order.
pub open spec fn wanted_in(
    base_url: Seq<char>,
    directory: Seq<char>,
    paths: Seq<Seq<char>>,
    disk: Set<Destination>,
) -> Seq<Seq<char>>
    decreases paths.len(),
{
    if paths.len() == 0 {
        Seq::empty()
    } else if is_wanted(directory, paths.last(), disk) {
        wanted_in(base_url, directory, paths.drop_last(), disk).push(base_url + paths.last())
    } else {
        wanted_in(base_url, directory, paths.drop_last(), disk)
    }
}

/// The addresses of the files that the posts refer to, that can be fetched
/// and are not on `disk`: post after post, attachments before images.
pub open spec fn all_wanted(
    base_url: Seq<char>,
    posts: Seq<PostView>,
    sorted: bool,
    windows: bool,
    disk: Set<Destination>,
) -> Seq<Seq<char>>
    decreases posts.len(),
{
    if posts.len() == 0 {
        Seq::empty()
    } else {
        all_wanted(base_url, posts.drop_last(), sorted, windows, disk) + wanted_in(
            base_url,
            attachment_dir_name(posts.last().title, sorted, windows),
            posts.last().attachments,
            disk,
        ) + wanted_in(
            base_url,
            image_dir_name(posts.last().title, sorted, windows),
            posts.last().images,
            disk,
        )
    }
}

/// Every address among the wanted is that of a path that is to be fetched
/// and whose file is not on disk: a path that does not begin with `/`, or
/// whose file is there already, adds nothing.
pub proof fn lemma_wanted_only(
    base_url: Seq<char>,
    directory: Seq<char>,
    paths: Seq<Seq<char>>,
    disk: Set<Destination>,
    i: int,
)
    requires
        0 <= i < wanted_in(base_url, directory, paths, disk).len(),
    ensures
        exists|j: int|
            0 <= j < paths.len() && is_wanted(directory, #[trigger] paths[j], disk) && wanted_in(
                base_url,
                directory,
                paths,
                disk,
            )[i] == base_url + paths[j],
    decreases paths.len(),
{
    let front = paths.drop_last();
    let earlier = wanted_in(base_url, directory, front, disk);
    if i < earlier.len() {
        lemma_wanted_only(base_url, directory, front, disk, i);
        let j = choose|j: int|
            0 <= j < front.len() && is_wanted(directory, #[trigger] front[j], disk) && earlier[i]
                == base_url + front[j];
        assert(paths[j] == front[j]);
    } else {
        assert(is_wanted(directory, paths[paths.len() - 1], disk));
    }
}

/// A file is requested exactly where its destination is missing.
pub proof fn lemma_requested_iff_missing(task: TaskView, disk: Set<Destination>)
    ensures
        is_requested(task, disk) <==> !disk.contains(destination(task)),
{
}

/// Working on tasks puts their destinations on disk and takes nothing away.
proof fn lemma_disk_after(tasks: Seq<TaskView>, disk: Set<Destination>, place: Destination)
    ensures
        disk_after(tasks, disk).contains(place) <==> disk.contains(place) || exists|i: int|
            0 <= i < tasks.len() && destination(#[trigger] tasks[i]) == place,
    decreases tasks.len(),
{
    if tasks.len() > 0 {
        let front = tasks.drop_last();
        lemma_disk_after(front, disk, place);
        if exists|i: int| 0 <= i < front.len() && destination(#[trigger] front[i]) == place {
            let i = choose|i: int| 0 <= i < front.len() && destination(#[trigger] front[i]) == place;
            assert(destination(tasks[i]) == place);
        }
        if exists|i: int| 0 <= i < tasks.len() && destination(#[trigger] tasks[i]) == place {
            let i = choose|i: int| 0 <= i < tasks.len() && destination(#[trigger] tasks[i]) == place;
            if i < front.len() {
                assert(destination(front[i]) == place);
            }
        }
        if destination(tasks.last()) == place {
            assert(destination(tasks[tasks.len() - 1]) == place);
        }
    }
}

/// Where no two tasks share a destination, what is requested in a run is
/// what was missing when the run began: no task finds the file of another.
pub proof fn lemma_requests_are_the_missing(tasks: Seq<TaskView>, disk: Set<Destination>)
    requires
        distinct_destinations(tasks),
    ensures
        requests_of(tasks, disk) == missing_of(tasks, disk),
    decreases tasks.len(),
{
    if tasks.len() > 0 {
        let front = tasks.drop_last();
        let last = tasks.last();
        assert(distinct_destinations(front)) by {
            assert forall|i: int, j: int| 0 <= i < j < front.len() implies destination(
                #[trigger] front[i],
            ) != destination(#[trigger] front[j]) by {
                assert(front[i] == tasks[i] && front[j] == tasks[j]);
            }
        }
        lemma_requests_are_the_missing(front, disk);
        lemma_disk_after(front, disk, destination(last));
        if exists|i: int| 0 <= i < front.len() && destination(#[trigger] front[i]) == destination(
            last,
        ) {
            let i = choose|i: int|
                0 <= i < front.len() && destination(#[trigger] front[i]) == destination(last);
            assert(front[i] == tasks[i]);
            assert(destination(tasks[i]) != destination(tasks[tasks.len() - 1]));
        }
        lemma_requested_iff_missing(last, disk_after(front, disk));
    }
}

/// What is missing of two lists of tasks, one after the other.
proof fn lemma_missing_concat(a: Seq<TaskView>, b: Seq<TaskView>, disk: Set<Destination>)
    ensures
        missing_of(a + b, disk) == missing_of(a, disk) + missing_of(b, disk),
    decreases b.len(),
{
    if b.len() == 0 {
        assert(a + b =~= a);
        assert(missing_of(a, disk) + missing_of(b, disk) =~= missing_of(a, disk));
    } else {
        lemma_missing_concat(a, b.drop_last(), disk);
        assert((a + b).drop_last() =~= a + b.drop_last());
        assert((a + b).last() == b.last());
        if !disk.contains(destination(b.last())) {
            assert((missing_of(a, disk) + missing_of(b.drop_last(), disk)).push(b.last().url)
                =~= missing_of(a, disk) + missing_of(b, disk));
        }
    }
}

/// The tasks for a list of paths, built path by path.
proof fn lemma_tasks_for_step(base_url: Seq<char>, directory: Seq<char>, paths: Seq<Seq<char>>)
    requires
        paths.len() > 0,
    ensures
        tasks_for(base_url, directory, paths) == if is_fetchable(paths.last()) {
            tasks_for(base_url, directory, paths.drop_last()).push(
                task_for(base_url, directory, paths.last()),
            )
        } else {
            tasks_for(base_url, directory, paths.drop_last())
        },
{
    reveal(Seq::filter);
    if is_fetchable(paths.last()) {
        assert(tasks_for(base_url, directory, paths) =~= tasks_for(
            base_url,
            directory,
            paths.drop_last(),
        ).push(task_for(base_url, directory, paths.last())));
    }
}

/// Of the tasks for a list of paths, those are missing on disk whose paths
/// are wanted.
proof fn lemma_missing_of_tasks_for(
    base_url: Seq<char>,
    directory: Seq<char>,
    paths: Seq<Seq<char>>,
    disk: Set<Destination>,
)
    ensures
        missing_of(tasks_for(base_url, directory, paths), disk) == wanted_in(
            base_url,
            directory,
            paths,
            disk,
        ),
    decreases paths.len(),
{
    if paths.len() == 0 {
        assert(tasks_for(base_url, directory, paths) =~= Seq::<TaskView>::empty()) by {
            reveal(Seq::filter);
        }
    } else {
        lemma_missing_of_tasks_for(base_url, directory, paths.drop_last(), disk);
        lemma_tasks_for_step(base_url, directory, paths);
        if is_fetchable(paths.last()) {
            let front = tasks_for(base_url, directory, paths.drop_last());
            let task = task_for(base_url, directory, paths.last());
            assert(front.push(task).drop_last() =~= front);
            assert(front.push(task).last() == task);
        }
    }
}

/// Of the tasks of all posts, those are missing on disk whose paths are
/// wanted.
pub proof fn lemma_missing_of_all_tasks(
    base_url: Seq<char>,
    posts: Seq<PostView>,
    sorted: bool,
    windows: bool,
    disk: Set<Destination>,
)
    ensures
        missing_of(all_tasks(base_url, posts, sorted, windows), disk) == all_wanted(
            base_url,
            posts,
            sorted,
            windows,
            disk,
        ),
    decreases posts.len(),
{
    if posts.len() > 0 {
        let front = posts.drop_last();
        let last = posts.last();
        let attachment_dir = attachment_dir_name(last.title, sorted, windows);
        let image_dir = image_dir_name(last.title, sorted, windows);
        let attachments = tasks_for(base_url, attachment_dir, last.attachments);
        let images = tasks_for(base_url, image_dir, last.images);
        lemma_missing_of_all_tasks(base_url, front, sorted, windows, disk);
        lemma_missing_of_tasks_for(base_url, attachment_dir, last.attachments, disk);
        lemma_missing_of_tasks_for(base_url, image_dir, last.images, disk);
        lemma_missing_concat(attachments, images, disk);
        lemma_missing_concat(
            all_tasks(base_url, front, sorted, windows),
            attachments + images,
            disk,
        );
        assert(all_wanted(base_url, posts, sorted, windows, disk) =~= all_wanted(
            base_url,
            front,
            sorted,
            windows,
            disk,
        ) + (wanted_in(base_url, attachment_dir, last.attachments, disk) + wanted_in(
            base_url,
            image_dir,
            last.images,
            disk,
        )));
    }
}

/// Each file that the posts refer to by a path from the root, and that is
/// not on disk when the run begins, is requested exactly once, and nothing
/// else is requested: where no two tasks share a destination and every
/// request succeeds, the addresses requested are those of the wanted files,
/// each as often as a path refers to it.
pub proof fn lemma_each_wanted_file_requested_once(
    base_url: Seq<char>,
    posts: Seq<PostView>,
    sorted: bool,
    windows: bool,
    disk: Set<Destination>,
)
    requires
        distinct_destinations(all_tasks(base_url, posts, sorted, windows)),
    ensures
        requests_of(all_tasks(base_url, posts, sorted, windows), disk) == all_wanted(
            base_url,
            posts,
            sorted,
            windows,
            disk,
        ),
        requests_of(all_tasks(base_url, posts, sorted, windows), disk).to_multiset() == all_wanted(
            base_url,
            posts,
            sorted,
            windows,
            disk,
        ).to_multiset(),
{
    lemma_requests_are_the_missing(all_tasks(base_url, posts, sorted, windows), disk);
    lemma_missing_of_all_tasks(base_url, posts, sorted, windows, disk);
}

} // verus!
