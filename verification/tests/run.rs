use std::collections::HashSet;

use creator_archive::creator::{Creator, DownloadOptions};
use creator_archive::dispatch::DownloadPlan;
use creator_archive::pool::WorkerPool;
use creator_archive::transfer::{advance, outcome, TaskAction, TaskEvent, TaskState};

fn texts(items: &[&str]) -> Vec<String> {
    items.iter().map(|s| s.to_string()).collect()
}

fn plan(sorted: bool, pages: &[&str]) -> DownloadPlan {
    let mut creator = Creator::new(DownloadOptions {
        url: "coomer.party/fansly/user/42".to_string(),
        proxy: None,
        sorted,
        windows: false,
    })
    .unwrap();
    creator.get_all_posts(&texts(pages));
    assert!(creator.can_download());
    creator.download()
}

/// Works on the plan with `workers` workers and `disk` as the files that are
/// there at the beginning; every request succeeds. Gives the addresses that
/// were requested, in the order of the requests.
fn run(plan: DownloadPlan, workers: usize, disk: &mut HashSet<(String, String)>) -> Vec<String> {
    let mut pool = WorkerPool::new(workers);
    for task in plan.tasks {
        assert!(pool.submit(task));
    }
    pool.close();
    let mut requested = Vec::new();
    let mut running = Vec::new();
    loop {
        while let Some(task) = pool.take() {
            let place = (task.directory.clone(), task.filename.clone());
            let event = if disk.contains(&place) { TaskEvent::Found } else { TaskEvent::Missing };
            let (state, action) = advance(TaskState::Queued, event);
            if action == TaskAction::Fetch {
                requested.push(task.url.clone());
                disk.insert(place);
            }
            running.push((task, state));
        }
        if pool.is_finished() {
            break;
        }
        let (task, state) = running.pop().unwrap();
        let state = match state {
            TaskState::Downloading(_) => advance(advance(state, TaskEvent::Chunk(3)).0, TaskEvent::Finished).0,
            other => other,
        };
        assert!(pool.complete(&outcome(task, state).unwrap().result));
    }
    requested
}

const ONE: &str = "<div class=\"post__content\"><pre>One</pre></div>\
    <a class=\"post__attachment-link\" href=\"/data/1.zip?f=one.zip\">1</a>\
    <a class=\"post__attachment-link\" href=\"https://elsewhere.example/x.zip?f=x.zip\">x</a>\
    <a class=\"fileThumb\" href=\"/data/1.png?f=one.png\">1</a>\
    <a class=\"fileThumb\" href=\"thumb.png?f=thumb.png\">t</a>";
const TWO: &str = "<div class=\"post__content\"><pre>Two</pre></div>\
    <a class=\"post__attachment-link\" href=\"/data/2.zip?f=two.zip\">2</a>\
    <a class=\"fileThumb\" href=\"/data/2.png?f=two.png\">2</a>";

#[test]
fn each_missing_file_is_requested_once() {
    for workers in [1, 2, 8] {
        for sorted in [false, true] {
            let mut disk = HashSet::new();
            let mut requested = run(plan(sorted, &[ONE, TWO]), workers, &mut disk);
            requested.sort();
            assert_eq!(
                requested,
                texts(&[
                    "https://coomer.party/data/1.png?f=one.png",
                    "https://coomer.party/data/1.zip?f=one.zip",
                    "https://coomer.party/data/2.png?f=two.png",
                    "https://coomer.party/data/2.zip?f=two.zip",
                ])
            );
            assert_eq!(disk.len(), 4);
        }
    }
}

#[test]
fn a_file_that_is_there_is_not_requested() {
    let mut disk = HashSet::new();
    disk.insert(("attachments".to_string(), "one.zip".to_string()));
    disk.insert(("images".to_string(), "two.png".to_string()));
    disk.insert(("images".to_string(), "thumb.png".to_string()));
    let mut requested = run(plan(false, &[ONE, TWO]), 3, &mut disk);
    requested.sort();
    assert_eq!(
        requested,
        texts(&[
            "https://coomer.party/data/1.png?f=one.png",
            "https://coomer.party/data/2.zip?f=two.zip",
        ])
    );
}

#[test]
fn a_second_run_requests_nothing() {
    let mut disk = HashSet::new();
    assert_eq!(run(plan(true, &[ONE, TWO]), 8, &mut disk).len(), 4);
    assert_eq!(run(plan(true, &[ONE, TWO]), 8, &mut disk), Vec::<String>::new());
}

#[test]
fn a_path_not_from_the_root_is_never_requested() {
    let page = "<a class=\"post__attachment-link\" href=\"https://elsewhere.example/x.zip?f=x.zip\">x</a>\
        <a class=\"fileThumb\" href=\"thumb.png\">t</a>";
    let mut disk = HashSet::new();
    assert_eq!(run(plan(false, &[page]), 8, &mut disk), Vec::<String>::new());
    assert!(disk.is_empty());
}
