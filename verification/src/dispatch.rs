//! From the files that posts refer to, to the downloads that are to be made.
//!
//! A file is referred to by a path on the site. Only a path that begins with
//! `/` can be fetched; any other is passed over. The name under which the
//! file is stored is what stands in the path after the first `f=`.

use crate::layout::{
    attachment_dir, attachment_dir_name, image_dir, image_dir_name, is_clean, post_dir,
    post_dir_name,
};
use crate::post::{Post, PostView};
use crate::text::{
    after_first, begins_with, chars_of, find_from, first_occurrence, join,
    lemma_first_occurrence, lemma_occurs_has_first, occurs, occurs_at, starts_with,
};
use vstd::prelude::*;
use vstd::string::*;

verus! {

/// One file to fetch: from where, and where to store it. The directory is
/// named relative to the creator's top directory.
#[derive(Debug, PartialEq, Eq)]
pub struct DownloadTask {
    pub url: String,
    pub directory: String,
    pub filename: String,
}

/// A task as plain text.
pub struct TaskView {
    pub url: Seq<char>,
    pub directory: Seq<char>,
    pub filename: Seq<char>,
}

impl View for DownloadTask {
    type V = TaskView;

    open spec fn view(&self) -> TaskView {
        TaskView { url: self.url@, directory: self.directory@, filename: self.filename@ }
    }
}

impl DeepView for DownloadTask {
    type V = TaskView;

    open spec fn deep_view(&self) -> TaskView {
        self@
    }
}

/// The path can be fetched: it begins with `/`.
pub open spec fn is_fetchable(path: Seq<char>) -> bool {
    starts_with(path, "/"@)
}

/// The path holds the mark `f=` after which the file's name stands.
pub open spec fn has_file_name(path: Seq<char>) -> bool {
    occurs(path, "f="@)
}

/// The name of the file that `path` refers to: all that follows the first
/// `f=`. Meaningful only where `has_file_name(path)`.
pub open spec fn file_name_of(path: Seq<char>) -> Seq<char> {
    after_first(path, "f="@)
}

/// A path that can be worked on: one that is to be fetched names its file.
pub open spec fn is_dispatchable(path: Seq<char>) -> bool {
    is_fetchable(path) ==> has_file_name(path)
}

/// The task that fetches `path` from the site at `base_url` into `directory`.
pub open spec fn task_for(base_url: Seq<char>, directory: Seq<char>, path: Seq<char>) -> TaskView {
    TaskView { url: base_url + path, directory: directory, filename: file_name_of(path) }
}

/// The paths among `paths` that can be fetched, in order.
pub open spec fn fetchable(paths: Seq<Seq<char>>) -> Seq<Seq<char>> {
    paths.filter(|path: Seq<char>| is_fetchable(path))
}

/// The paths among `paths` that cannot be fetched, in order.
pub open spec fn unfetchable(paths: Seq<Seq<char>>) -> Seq<Seq<char>> {
    paths.filter(|path: Seq<char>| !is_fetchable(path))
}

/// The paths of all posts that cannot be fetched and are passed over: post
/// after post, attachments before images.
pub open spec fn all_passed_over(posts: Seq<PostView>) -> Seq<Seq<char>>
    decreases posts.len(),
{
    if posts.len() == 0 {
        Seq::empty()
    } else {
        all_passed_over(posts.drop_last()) + unfetchable(posts.last().attachments) + unfetchable(
            posts.last().images,
        )
    }
}

/// One task for each path of `paths` that can be fetched, in order.
pub open spec fn tasks_for(
    base_url: Seq<char>,
    directory: Seq<char>,
    paths: Seq<Seq<char>>,
) -> Seq<TaskView> {
    fetchable(paths).map_values(|path: Seq<char>| task_for(base_url, directory, path))
}

/// The tasks of one post: its attachments first, then its images.
pub open spec fn post_tasks(
    base_url: Seq<char>,
    post: PostView,
    sorted: bool,
    windows: bool,
) -> Seq<TaskView> {
    tasks_for(base_url, attachment_dir_name(post.title, sorted, windows), post.attachments)
        + tasks_for(base_url, image_dir_name(post.title, sorted, windows), post.images)
}

/// The tasks of all posts, post after post.
pub open spec fn all_tasks(
    base_url: Seq<char>,
    posts: Seq<PostView>,
    sorted: bool,
    windows: bool,
) -> Seq<TaskView>
    decreases posts.len(),
{
    if posts.len() == 0 {
        Seq::empty()
    } else {
        all_tasks(base_url, posts.drop_last(), sorted, windows) + post_tasks(
            base_url,
            posts.last(),
            sorted,
            windows,
        )
    }
}

/// The directory of every task is a name without illegal characters.
pub open spec fn tasks_clean(tasks: Seq<TaskView>) -> bool {
    forall|i: int| 0 <= i < tasks.len() ==> is_clean(#[trigger] tasks[i].directory)
}

/// Every name is without illegal characters.
pub open spec fn names_clean(names: Seq<Seq<char>>) -> bool {
    forall|i: int| 0 <= i < names.len() ==> is_clean(#[trigger] names[i])
}

/// Every path of `paths` can be worked on.
pub open spec fn paths_dispatchable(paths: Seq<Seq<char>>) -> bool {
    forall|j: int| 0 <= j < paths.len() ==> is_dispatchable(#[trigger] paths[j])
}

/// Every path of the post can be worked on.
pub open spec fn post_dispatchable(post: PostView) -> bool {
    paths_dispatchable(post.attachments) && paths_dispatchable(post.images)
}

/// Every path of every post can be worked on.
pub open spec fn all_dispatchable(posts: Seq<PostView>) -> bool {
    forall|i: int| 0 <= i < posts.len() ==> post_dispatchable(#[trigger] posts[i])
}

/// A path that names its file ends with `f=` and the name, and no `f=`
/// begins before that one.
pub proof fn lemma_file_name_ends_path(path: Seq<char>)
    requires
        has_file_name(path),
    ensures
        0 <= first_occurrence(path, "f="@) <= path.len() - 2,
        path == path.subrange(0, first_occurrence(path, "f="@)) + "f="@ + file_name_of(path),
        forall|j: int| 0 <= j < first_occurrence(path, "f="@) ==> !occurs_at(path, "f="@, j),
{
    reveal_strlit("f=");
    lemma_occurs_has_first(path, "f="@);
    let i = first_occurrence(path, "f="@);
    assert(path =~= path.subrange(0, i) + path.subrange(i, i + 2) + path.subrange(
        i + 2,
        path.len() as int,
    ));
}

/// Every task in a directory fetches a path that begins with `/`: a path
/// that does not is never fetched.
pub proof fn lemma_tasks_for_fetchable(
    base_url: Seq<char>,
    directory: Seq<char>,
    paths: Seq<Seq<char>>,
    i: int,
)
    requires
        0 <= i < tasks_for(base_url, directory, paths).len(),
    ensures
        exists|j: int|
            0 <= j < paths.len() && is_fetchable(#[trigger] paths[j]) && tasks_for(
                base_url,
                directory,
                paths,
            )[i] == task_for(base_url, directory, paths[j]),
{
    broadcast use {vstd::seq_lib::group_filter_ensures, Seq::lemma_filter_contains_rev};

    let kept = fetchable(paths);
    assert(is_fetchable(kept[i]));
    assert(kept.contains(kept[i]));
    assert(paths.contains(kept[i]));
    let j = paths.index_of(kept[i]);
    assert(paths[j] == kept[i]);
}

/// `task` fetches `path`, which is one of the paths of `post` and begins
/// with `/`.
pub open spec fn comes_from(
    task: TaskView,
    base_url: Seq<char>,
    post: PostView,
    path: Seq<char>,
) -> bool {
    &&& post.attachments.contains(path) || post.images.contains(path)
    &&& is_fetchable(path)
    &&& task.url == base_url + path
    &&& task.filename == file_name_of(path)
}

/// Every task of a list of posts fetches a path of one of the posts that
/// begins with `/`: a path that does not is never fetched.
pub proof fn lemma_all_tasks_fetchable(
    base_url: Seq<char>,
    posts: Seq<PostView>,
    sorted: bool,
    windows: bool,
    i: int,
)
    requires
        0 <= i < all_tasks(base_url, posts, sorted, windows).len(),
    ensures
        exists|p: int, path: Seq<char>|
            0 <= p < posts.len() && #[trigger] comes_from(
                all_tasks(base_url, posts, sorted, windows)[i],
                base_url,
                posts[p],
                path,
            ),
    decreases posts.len(),
{
    let front = posts.drop_last();
    let last = posts.last();
    let earlier = all_tasks(base_url, front, sorted, windows);
    let task = all_tasks(base_url, posts, sorted, windows)[i];
    if i < earlier.len() {
        lemma_all_tasks_fetchable(base_url, front, sorted, windows, i);
        let (p, path) = choose|p: int, path: Seq<char>|
            0 <= p < front.len() && #[trigger] comes_from(earlier[i], base_url, front[p], path);
        assert(comes_from(task, base_url, posts[p], path));
    } else {
        let p = posts.len() - 1;
        let attachment_dir = attachment_dir_name(last.title, sorted, windows);
        let image_dir = image_dir_name(last.title, sorted, windows);
        let attachments = tasks_for(base_url, attachment_dir, last.attachments);
        let images = tasks_for(base_url, image_dir, last.images);
        let k = i - earlier.len();
        if k < attachments.len() {
            lemma_tasks_for_fetchable(base_url, attachment_dir, last.attachments, k);
            let j = choose|j: int|
                0 <= j < last.attachments.len() && is_fetchable(#[trigger] last.attachments[j])
                    && attachments[k] == task_for(base_url, attachment_dir, last.attachments[j]);
            assert(comes_from(task, base_url, posts[p], last.attachments[j]));
        } else {
            lemma_tasks_for_fetchable(base_url, image_dir, last.images, k - attachments.len());
            let j = choose|j: int|
                0 <= j < last.images.len() && is_fetchable(#[trigger] last.images[j]) && images[k
                    - attachments.len()] == task_for(base_url, image_dir, last.images[j]);
            assert(comes_from(task, base_url, posts[p], last.images[j]));
        }
    }
}

/// Tells whether `path` can be fetched.
pub fn can_fetch(path: &str) -> (r: bool)
    ensures
        r == is_fetchable(path@),
{
    begins_with(path, "/")
}

/// The name of the file that `path` refers to, where it names one.
pub fn file_name(path: &str) -> (r: Option<String>)
    ensures
        r is Some <==> has_file_name(path@),
        r matches Some(name) ==> name@ == file_name_of(path@),
{
    let text = chars_of(path);
    let mark = chars_of("f=");
    proof {
        reveal_strlit("f=");
    }
    match find_from(&text, &mark, 0) {
        None => None,
        Some(i) => {
            proof {
                lemma_first_occurrence(path@, "f="@, i as int);
            }
            assert(i + mark@.len() <= text.len());
            Some(String::from_str(path.substring_char(i + 2, text.len())))
        },
    }
}

/// Tells whether `path` can be worked on: whether it names its file, if it
/// is to be fetched at all.
pub fn can_dispatch(path: &str) -> (r: bool)
    ensures
        r == is_dispatchable(path@),
{
    !can_fetch(path) || file_name(path).is_some()
}

/// The task that fetches `path` into `directory`, or nothing where `path`
/// cannot be fetched.
pub fn task_from(base_url: &str, directory: &str, path: &str) -> (r: Option<DownloadTask>)
    requires
        is_dispatchable(path@),
    ensures
        r is Some <==> is_fetchable(path@),
        r matches Some(task) ==> task@ == task_for(base_url@, directory@, path@),
{
    if !can_fetch(path) {
        return None;
    }
    match file_name(path) {
        Some(filename) => Some(
            DownloadTask {
                url: join(base_url, path),
                directory: String::from_str(directory),
                filename,
            },
        ),
        None => None,
    }
}

/// Adds to `tasks` one task for each path of `paths` that can be fetched.
pub fn add_tasks(
    tasks: &mut Vec<DownloadTask>,
    base_url: &str,
    directory: &str,
    paths: &Vec<String>,
)
    requires
        paths_dispatchable(paths.deep_view()),
    ensures
        final(tasks).deep_view() == old(tasks).deep_view() + tasks_for(
            base_url@,
            directory@,
            paths.deep_view(),
        ),
        tasks_clean(old(tasks).deep_view()) && is_clean(directory@) ==> tasks_clean(
            final(tasks).deep_view(),
        ),
{
    let ghost before = tasks.deep_view();
    let mut i: usize = 0;
    while i < paths.len()
        invariant
            i <= paths.len(),
            paths_dispatchable(paths.deep_view()),
            tasks.deep_view() == before + tasks_for(
                base_url@,
                directory@,
                paths.deep_view().take(i as int),
            ),
        decreases paths.len() - i,
    {
        let ghost seen = paths.deep_view().take(i as int);
        let ghost next = paths.deep_view().take(i + 1);
        let ghost earlier = tasks.deep_view();
        proof {
            reveal(Seq::filter);
            assert(next.drop_last() =~= seen);
            assert(next.last() == paths.deep_view()[i as int]);
        }
        match task_from(base_url, directory, paths[i].as_str()) {
            Some(task) => {
                tasks.push(task);
                assert(tasks.deep_view() =~= earlier.push(task@));
                assert(tasks_for(base_url@, directory@, next) =~= tasks_for(
                    base_url@,
                    directory@,
                    seen,
                ).push(task@));
            },
            None => {},
        }
        assert(tasks.deep_view() =~= before + tasks_for(base_url@, directory@, next));
        i += 1;
    }
    assert(paths.deep_view().take(paths.len() as int) =~= paths.deep_view());
    proof {
        let added = tasks_for(base_url@, directory@, paths.deep_view());
        if tasks_clean(before) && is_clean(directory@) {
            assert forall|k: int| 0 <= k < tasks.deep_view().len() implies is_clean(
                #[trigger] tasks.deep_view()[k].directory,
            ) by {
                if k >= before.len() {
                    assert(tasks.deep_view()[k] == added[k - before.len()]);
                } else {
                    assert(tasks.deep_view()[k] == before[k]);
                }
            }
        }
    }
}

/// Adds to `tasks` the tasks of one post: its attachments first, then its
/// images.
pub fn add_post_tasks(
    tasks: &mut Vec<DownloadTask>,
    base_url: &str,
    post: &Post,
    sorted: bool,
    windows: bool,
)
    requires
        post_dispatchable(post@),
    ensures
        final(tasks).deep_view() == old(tasks).deep_view() + post_tasks(
            base_url@,
            post@,
            sorted,
            windows,
        ),
        tasks_clean(old(tasks).deep_view()) ==> tasks_clean(final(tasks).deep_view()),
{
    let ghost before = tasks.deep_view();
    let attachments = attachment_dir(post.title.as_str(), sorted, windows);
    add_tasks(tasks, base_url, attachments.as_str(), &post.attachments);
    let images = image_dir(post.title.as_str(), sorted, windows);
    add_tasks(tasks, base_url, images.as_str(), &post.images);
    assert(tasks.deep_view() =~= before + post_tasks(base_url@, post@, sorted, windows));
}

/// All that a download run is to do: the creator's top directory, the
/// directories to make below it before anything is fetched, the tasks in the
/// order in which they are handed out, and the paths that are passed over
/// because they cannot be fetched, for the caller to give notice of.
#[derive(Debug, PartialEq, Eq)]
pub struct DownloadPlan {
    pub top_dir: String,
    pub directories: Vec<String>,
    pub tasks: Vec<DownloadTask>,
    pub passed_over: Vec<String>,
}

/// A plan as plain text.
pub struct PlanView {
    pub top_dir: Seq<char>,
    pub directories: Seq<Seq<char>>,
    pub tasks: Seq<TaskView>,
    pub passed_over: Seq<Seq<char>>,
}

impl View for DownloadPlan {
    type V = PlanView;

    open spec fn view(&self) -> PlanView {
        PlanView {
            top_dir: self.top_dir@,
            directories: self.directories.deep_view(),
            tasks: self.tasks.deep_view(),
            passed_over: self.passed_over.deep_view(),
        }
    }
}

/// The directories of the posts, one for each post, in order.
pub open spec fn post_dir_names(posts: Seq<PostView>, windows: bool) -> Seq<Seq<char>> {
    posts.map_values(|post: PostView| post_dir_name(post.title, windows))
}

/// The directories to make below the top directory: in sorted mode one for
/// each post, otherwise one for the images and one for the attachments.
pub open spec fn plan_directories(posts: Seq<PostView>, sorted: bool, windows: bool) -> Seq<
    Seq<char>,
> {
    if sorted {
        post_dir_names(posts, windows)
    } else {
        seq!["images"@, "attachments"@]
    }
}

/// The directories of the posts, one for each post, in order.
pub fn post_dirs(posts: &Vec<Post>, windows: bool) -> (r: Vec<String>)
    ensures
        r.deep_view() == post_dir_names(posts.deep_view(), windows),
        names_clean(r.deep_view()),
{
    let mut r: Vec<String> = Vec::new();
    let mut i: usize = 0;
    while i < posts.len()
        invariant
            i <= posts.len(),
            r.deep_view() == post_dir_names(posts.deep_view().take(i as int), windows),
            names_clean(r.deep_view()),
        decreases posts.len() - i,
    {
        let ghost earlier = r.deep_view();
        r.push(post_dir(posts[i].title.as_str(), windows));
        assert(r.deep_view() =~= earlier.push(post_dir_name(posts[i as int]@.title, windows)));
        assert(r.deep_view() =~= post_dir_names(posts.deep_view().take(i + 1), windows));
        i += 1;
    }
    assert(posts.deep_view().take(posts.len() as int) =~= posts.deep_view());
    r
}

/// The directories to make below the top directory.
pub fn directories_for(posts: &Vec<Post>, sorted: bool, windows: bool) -> (r: Vec<String>)
    ensures
        r.deep_view() == plan_directories(posts.deep_view(), sorted, windows),
        names_clean(r.deep_view()),
{
    if sorted {
        post_dirs(posts, windows)
    } else {
        proof {
            reveal_strlit("images");
            reveal_strlit("attachments");
        }
        let mut r: Vec<String> = Vec::new();
        r.push(String::from_str("images"));
        r.push(String::from_str("attachments"));
        assert(r.deep_view() =~= seq!["images"@, "attachments"@]);
        r
    }
}

/// The tasks of all posts, post after post.
pub fn tasks_of(base_url: &str, posts: &Vec<Post>, sorted: bool, windows: bool) -> (r: Vec<
    DownloadTask,
>)
    requires
        all_dispatchable(posts.deep_view()),
    ensures
        r.deep_view() == all_tasks(base_url@, posts.deep_view(), sorted, windows),
        tasks_clean(r.deep_view()),
{
    let mut r: Vec<DownloadTask> = Vec::new();
    let mut i: usize = 0;
    while i < posts.len()
        invariant
            i <= posts.len(),
            all_dispatchable(posts.deep_view()),
            tasks_clean(r.deep_view()),
            r.deep_view() == all_tasks(
                base_url@,
                posts.deep_view().take(i as int),
                sorted,
                windows,
            ),
        decreases posts.len() - i,
    {
        let ghost seen = posts.deep_view().take(i as int);
        let ghost next = posts.deep_view().take(i + 1);
        proof {
            assert(next.drop_last() =~= seen);
            assert(next.last() == posts.deep_view()[i as int]);
            assert(post_dispatchable(posts.deep_view()[i as int]));
        }
        add_post_tasks(&mut r, base_url, &posts[i], sorted, windows);
        i += 1;
    }
    assert(posts.deep_view().take(posts.len() as int) =~= posts.deep_view());
    r
}

/// Adds to `paths` those of `from` that cannot be fetched, in order.
pub fn add_unfetchable(paths: &mut Vec<String>, from: &Vec<String>)
    ensures
        final(paths).deep_view() == old(paths).deep_view() + unfetchable(from.deep_view()),
{
    let ghost before = paths.deep_view();
    let mut i: usize = 0;
    while i < from.len()
        invariant
            i <= from.len(),
            paths.deep_view() == before + unfetchable(from.deep_view().take(i as int)),
        decreases from.len() - i,
    {
        let ghost seen = from.deep_view().take(i as int);
        let ghost next = from.deep_view().take(i + 1);
        let ghost earlier = paths.deep_view();
        proof {
            reveal(Seq::filter);
            assert(next.drop_last() =~= seen);
            assert(next.last() == from.deep_view()[i as int]);
        }
        if !can_fetch(from[i].as_str()) {
            paths.push(from[i].clone());
            assert(paths.deep_view() =~= earlier.push(from[i as int]@));
        }
        assert(paths.deep_view() =~= before + unfetchable(next));
        i += 1;
    }
    assert(from.deep_view().take(from.len() as int) =~= from.deep_view());
}

/// The paths of all posts that cannot be fetched, post after post,
/// attachments before images.
pub fn passed_over_of(posts: &Vec<Post>) -> (r: Vec<String>)
    ensures
        r.deep_view() == all_passed_over(posts.deep_view()),
{
    let mut r: Vec<String> = Vec::new();
    let mut i: usize = 0;
    while i < posts.len()
        invariant
            i <= posts.len(),
            r.deep_view() == all_passed_over(posts.deep_view().take(i as int)),
        decreases posts.len() - i,
    {
        let ghost seen = posts.deep_view().take(i as int);
        let ghost next = posts.deep_view().take(i + 1);
        proof {
            assert(next.drop_last() =~= seen);
            assert(next.last() == posts.deep_view()[i as int]);
        }
        add_unfetchable(&mut r, &posts[i].attachments);
        add_unfetchable(&mut r, &posts[i].images);
        i += 1;
    }
    assert(posts.deep_view().take(posts.len() as int) =~= posts.deep_view());
    r
}

/// Tells whether every path of `paths` can be worked on.
pub fn paths_can_dispatch(paths: &Vec<String>) -> (r: bool)
    ensures
        r == paths_dispatchable(paths.deep_view()),
{
    let mut i: usize = 0;
    while i < paths.len()
        invariant
            i <= paths.len(),
            forall|j: int| 0 <= j < i ==> is_dispatchable(#[trigger] paths.deep_view()[j]),
        decreases paths.len() - i,
    {
        if !can_dispatch(paths[i].as_str()) {
            assert(!is_dispatchable(paths.deep_view()[i as int]));
            return false;
        }
        i += 1;
    }
    true
}

/// Tells whether every path of every post can be worked on.
pub fn posts_can_dispatch(posts: &Vec<Post>) -> (r: bool)
    ensures
        r == all_dispatchable(posts.deep_view()),
{
    let mut i: usize = 0;
    while i < posts.len()
        invariant
            i <= posts.len(),
            forall|j: int| 0 <= j < i ==> post_dispatchable(#[trigger] posts.deep_view()[j]),
        decreases posts.len() - i,
    {
        if !paths_can_dispatch(&posts[i].attachments) || !paths_can_dispatch(&posts[i].images) {
            assert(!post_dispatchable(posts.deep_view()[i as int]));
            return false;
        }
        i += 1;
    }
    true
}

} // verus!
