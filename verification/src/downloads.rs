//! The queue of sounds waiting to be downloaded, and how download
//! events move it along.

use vstd::prelude::*;
use crate::app::{opt_str, App};
use crate::paths::{file_name_of, path_file_name};
use crate::sound::{views, Sound, SoundView};

verus! {

/// Where a queued download stands.
pub enum DownloadStatus {
    Pending,
    /// Bit pattern of the `f32` progress reported by the downloader.
    Downloading(u32),
    Done,
    Error(String),
}

/// One queued download.
pub struct DownloadTask {
    pub name: String,
    pub category: String,
    pub url: String,
    pub status: DownloadStatus,
    pub icon: String,
    pub target_filename: Option<String>,
}

/// What the downloader reports about the active download.
pub enum DownloadEvent {
    /// Bit pattern of the `f32` progress.
    Progress(u32),
    /// Name, category, file path, icon and URL of the finished sound.
    Success(String, String, String, String, String),
    Error(String),
}

/// The result of polling the downloader's channel once.
pub enum DownloadPoll {
    Event(DownloadEvent),
    /// Nothing waiting.
    Empty,
    /// The downloader went away.
    Disconnected,
}

/// What the caller does after one poll.
#[derive(Debug)]
pub enum PollOutcome {
    /// Poll again.
    Continue,
    /// Nothing more for now; keep the channel.
    Idle,
    /// The download ended; drop the channel.
    Closed,
    /// The download succeeded; drop the channel and record the sound in the
    /// custom sounds file, then call [`App::register_downloaded_sound`].
    Downloaded { name: String, category: String, path: String, icon: String, url: String },
}

/// The mathematical value of a [`DownloadStatus`].
pub enum StatusView {
    Pending,
    Downloading(u32),
    Done,
    Error(Seq<char>),
}

/// The mathematical value of a [`DownloadTask`].
pub struct TaskView {
    pub name: Seq<char>,
    pub category: Seq<char>,
    pub url: Seq<char>,
    pub status: StatusView,
    pub icon: Seq<char>,
    pub target_filename: Option<Seq<char>>,
}

impl View for DownloadStatus {
    type V = StatusView;

    open spec fn view(&self) -> StatusView {
        match self {
            DownloadStatus::Pending => StatusView::Pending,
            DownloadStatus::Downloading(p) => StatusView::Downloading(*p),
            DownloadStatus::Done => StatusView::Done,
            DownloadStatus::Error(e) => StatusView::Error(e@),
        }
    }
}

impl View for DownloadTask {
    type V = TaskView;

    open spec fn view(&self) -> TaskView {
        TaskView {
            name: self.name@,
            category: self.category@,
            url: self.url@,
            status: self.status@,
            icon: self.icon@,
            target_filename: opt_str(self.target_filename),
        }
    }
}

/// The views of a sequence of tasks.
pub open spec fn task_views(q: Seq<DownloadTask>) -> Seq<TaskView> {
    q.map_values(|t: DownloadTask| t@)
}

/// The task queued for a sound whose file is missing and that has a URL.
pub open spec fn task_for(s: SoundView) -> TaskView {
    TaskView {
        name: s.name,
        category: s.category,
        url: s.url->0,
        status: StatusView::Pending,
        icon: s.icon,
        target_filename: file_name_of(s.file_path),
    }
}

/// Tasks for the first `n` sounds: one for each sound whose file is
/// missing and that has a URL, in order.
pub open spec fn missing_tasks(s: Seq<SoundView>, exists: Seq<bool>, n: int) -> Seq<TaskView>
    decreases n,
{
    if n <= 0 {
        seq![]
    } else if !exists[n - 1] && s[n - 1].url is Some {
        missing_tasks(s, exists, n - 1).push(task_for(s[n - 1]))
    } else {
        missing_tasks(s, exists, n - 1)
    }
}

/// Index of the first pending task, if any.
pub open spec fn first_pending(q: Seq<TaskView>) -> Option<int>
    decreases q.len(),
{
    if q.len() == 0 {
        None
    } else if q[0].status is Pending {
        Some(0)
    } else {
        match first_pending(q.drop_first()) {
            Some(i) => Some(i + 1),
            None => None,
        }
    }
}

/// The queue with the active task, when there is one in range, set to `status`.
pub open spec fn set_active_status(q: Seq<TaskView>, active: Option<usize>, status: StatusView) -> Seq<
    TaskView,
> {
    match active {
        Some(i) => if i < q.len() {
            q.update(i as int, TaskView { status, ..q[i as int] })
        } else {
            q
        },
        None => q,
    }
}

/// The message given when the downloader disappears.
pub open spec fn disconnected_message() -> Seq<char> {
    seq![
        'T', 'h', 'r', 'e', 'a', 'd', ' ', 'd', 'i', 's', 'c', 'o', 'n', 'n', 'e', 'c', 't', 'e', 'd',
    ]
}

/// The message given when the downloader disappears.
pub fn disconnected_text() -> (s: String)
    ensures
        s@ == disconnected_message(),
{
    crate::text::string_from_chars(
        &vec![
            'T', 'h', 'r', 'e', 'a', 'd', ' ', 'd', 'i', 's', 'c', 'o', 'n', 'n', 'e', 'c', 't',
            'e', 'd',
        ],
    )
}

/// A copy of a string.
fn copy_text(s: &String) -> (r: String)
    ensures
        r@ == s@,
{
    s.clone()
}

impl App {
    /// Queues a download for each sound whose file is missing (`file_exists[i]`
    /// is false) and that has a URL, in order.
    pub fn queue_missing_downloads(&mut self, sounds: &Vec<Sound>, file_exists: &Vec<bool>)
        requires
            sounds@.len() == file_exists@.len(),
        ensures
            task_views(final(self).download_queue@) == task_views(old(self).download_queue@)
                + missing_tasks(views(sounds@), file_exists@, sounds@.len() as int),
            *final(self) == (App { download_queue: final(self).download_queue, ..*old(self) }),
    {
        let ghost start = task_views(self.download_queue@);
        for i in 0..sounds.len()
            invariant
                sounds@.len() == file_exists@.len(),
                task_views(self.download_queue@) == start + missing_tasks(
                    views(sounds@),
                    file_exists@,
                    i as int,
                ),
                *self == (App { download_queue: self.download_queue, ..*old(self) }),
        {
            let s = &sounds[i];
            assert(views(sounds@)[i as int] == s@);
            if !file_exists[i] {
                if let Some(url) = &s.url {
                    let task = DownloadTask {
                        name: copy_text(&s.name),
                        category: copy_text(&s.category),
                        url: copy_text(url),
                        status: DownloadStatus::Pending,
                        icon: copy_text(&s.icon),
                        target_filename: path_file_name(s.file_path.as_str()),
                    };
                    let ghost prev = self.download_queue@;
                    self.download_queue.push(task);
                    assert(task_views(self.download_queue@) =~= task_views(prev).push(task@));
                }
            }
        }
    }

    /// The task to start next: the first pending one, when none is active.
    pub fn next_download_to_start(&self) -> (r: Option<usize>)
        ensures
            self.active_download_index is Some ==> r is None,
            self.active_download_index is None ==> match first_pending(
                task_views(self.download_queue@),
            ) {
                Some(i) => r == Some(i as usize),
                None => r is None,
            },
    {
        if self.active_download_index.is_some() {
            return None;
        }
        let ghost q = task_views(self.download_queue@);
        let mut i: usize = 0;
        assert(q.skip(0) =~= q);
        while i < self.download_queue.len()
            invariant
                i <= self.download_queue.len(),
                self.active_download_index is None,
                q == task_views(self.download_queue@),
                first_pending(q) == match first_pending(q.skip(i as int)) {
                    Some(k) => Some(k + i),
                    None => None,
                },
            decreases self.download_queue.len() - i,
        {
            assert(q.skip(i as int)[0] == self.download_queue@[i as int]@);
            if let DownloadStatus::Pending = self.download_queue[i].status {
                return Some(i);
            }
            assert(q.skip(i as int).drop_first() =~= q.skip(i + 1));
            i = i + 1;
        }
        None
    }

    /// Sets the status of the active task, when it is in range.
    fn set_active_status(&mut self, status: DownloadStatus)
        ensures
            task_views(final(self).download_queue@) == set_active_status(
                task_views(old(self).download_queue@),
                old(self).active_download_index,
                status@,
            ),
            *final(self) == (App { download_queue: final(self).download_queue, ..*old(self) }),
    {
        if let Some(i) = self.active_download_index {
            if i < self.download_queue.len() {
                let ghost prev = self.download_queue@;
                let mut tasks: Vec<DownloadTask> = Vec::new();
                std::mem::swap(&mut tasks, &mut self.download_queue);
                let mut task = tasks.remove(i);
                task.status = status;
                tasks.insert(i, task);
                self.download_queue = tasks;
                assert(task_views(self.download_queue@) =~= task_views(prev).update(
                    i as int,
                    TaskView { status: status@, ..task_views(prev)[i as int] },
                ));
            }
        }
    }

    /// Applies one poll of the downloader: progress and the end of the
    /// active download update its task; success, failure and a vanished
    /// downloader end it.
    pub fn apply_download_poll(&mut self, poll: DownloadPoll) -> (r: PollOutcome)
        ensures
            match poll {
                DownloadPoll::Event(DownloadEvent::Progress(p)) => {
                    &&& task_views(final(self).download_queue@) == set_active_status(
                        task_views(old(self).download_queue@),
                        old(self).active_download_index,
                        StatusView::Downloading(p),
                    )
                    &&& final(self).active_download_index == old(self).active_download_index
                    &&& r is Continue
                },
                DownloadPoll::Event(DownloadEvent::Success(name, category, path, icon, url)) => {
                    &&& task_views(final(self).download_queue@) == set_active_status(
                        task_views(old(self).download_queue@),
                        old(self).active_download_index,
                        StatusView::Done,
                    )
                    &&& final(self).active_download_index is None
                    &&& r == (PollOutcome::Downloaded { name, category, path, icon, url })
                },
                DownloadPoll::Event(DownloadEvent::Error(e)) => {
                    &&& task_views(final(self).download_queue@) == set_active_status(
                        task_views(old(self).download_queue@),
                        old(self).active_download_index,
                        StatusView::Error(e@),
                    )
                    &&& final(self).active_download_index is None
                    &&& r is Closed
                },
                DownloadPoll::Empty => {
                    &&& *final(self) == *old(self)
                    &&& r is Idle
                },
                DownloadPoll::Disconnected => {
                    &&& task_views(final(self).download_queue@) == set_active_status(
                        task_views(old(self).download_queue@),
                        old(self).active_download_index,
                        StatusView::Error(disconnected_message()),
                    )
                    &&& final(self).active_download_index is None
                    &&& r is Closed
                },
            },
            *final(self) == (App {
                download_queue: final(self).download_queue,
                active_download_index: final(self).active_download_index,
                ..*old(self)
            }),
    {
        match poll {
            DownloadPoll::Event(DownloadEvent::Progress(p)) => {
                self.set_active_status(DownloadStatus::Downloading(p));
                PollOutcome::Continue
            },
            DownloadPoll::Event(DownloadEvent::Success(name, category, path, icon, url)) => {
                self.set_active_status(DownloadStatus::Done);
                self.active_download_index = None;
                PollOutcome::Downloaded { name, category, path, icon, url }
            },
            DownloadPoll::Event(DownloadEvent::Error(e)) => {
                self.set_active_status(DownloadStatus::Error(e));
                self.active_download_index = None;
                PollOutcome::Closed
            },
            DownloadPoll::Empty => PollOutcome::Idle,
            DownloadPoll::Disconnected => {
                self.set_active_status(DownloadStatus::Error(disconnected_text()));
                self.active_download_index = None;
                PollOutcome::Closed
            },
        }
    }
}

/// The first pending task is pending and no task before it is.
pub proof fn law_first_pending(q: Seq<TaskView>)
    ensures
        first_pending(q) matches Some(i) ==> 0 <= i < q.len() && q[i].status is Pending && forall|
            j: int,
        | 0 <= j < i ==> !(q[j].status is Pending),
        first_pending(q) is None ==> forall|j: int| 0 <= j < q.len() ==> !(q[j].status is Pending),
    decreases q.len(),
{
    if q.len() > 0 {
        law_first_pending(q.drop_first());
        assert forall|j: int| 1 <= j < q.len() implies q[j] == q.drop_first()[j - 1] by {}
    }
}

/// Every queued download starts pending, for a sound without its file and
/// with a URL, which it downloads.
pub proof fn law_missing_tasks(s: Seq<SoundView>, exists: Seq<bool>, n: int)
    requires
        0 <= n <= s.len(),
        n <= exists.len(),
    ensures
        forall|k: int|
            0 <= k < missing_tasks(s, exists, n).len() ==> exists|i: int|
                0 <= i < n && !exists[i] && s[i].url is Some && #[trigger] missing_tasks(s, exists, n)[k]
                    == task_for(s[i]),
        forall|k: int|
            0 <= k < missing_tasks(s, exists, n).len() ==> (#[trigger] missing_tasks(s, exists, n)[k]).status is Pending,
    decreases n,
{
    if n > 0 {
        law_missing_tasks(s, exists, n - 1);
        let prev = missing_tasks(s, exists, n - 1);
        let r = missing_tasks(s, exists, n);
        assert forall|k: int| 0 <= k < r.len() implies exists|i: int|
            0 <= i < n && !exists[i] && s[i].url is Some && #[trigger] r[k] == task_for(s[i]) by {
            if k < prev.len() {
                assert(r[k] == prev[k]);
                let i = choose|i: int| 0 <= i < n - 1 && !exists[i] && s[i].url is Some && prev[k] == task_for(s[i]);
                assert(r[k] == task_for(s[i]));
            } else {
                assert(r[k] == task_for(s[n - 1]));
            }
        }
        assert forall|k: int| 0 <= k < r.len() implies (#[trigger] r[k]).status is Pending by {
            if k < prev.len() {
                assert(r[k] == prev[k]);
            }
        }
    }
}

/// Task `t` downloads sound `snd`: it carries the sound's name, category,
/// icon and URL.
pub open spec fn carries(t: TaskView, snd: SoundView) -> bool {
    &&& t.name == snd.name
    &&& t.category == snd.category
    &&& t.icon == snd.icon
    &&& snd.url == Some(t.url)
}

/// Each queued download carries the name, category, icon and URL of a
/// sound whose file is missing and that has a URL, starts pending, and
/// saves under that sound's file name.
pub proof fn law_queued_task_fields(s: Seq<SoundView>, exists: Seq<bool>, n: int)
    requires
        0 <= n <= s.len(),
        n <= exists.len(),
    ensures
        forall|k: int|
            0 <= k < missing_tasks(s, exists, n).len() ==> exists|i: int|
                0 <= i < n && !exists[i] && carries(#[trigger] missing_tasks(s, exists, n)[k], s[i])
                    && missing_tasks(s, exists, n)[k].target_filename == file_name_of(s[i].file_path)
                    && missing_tasks(s, exists, n)[k].status is Pending,
{
    law_missing_tasks(s, exists, n);
    let r = missing_tasks(s, exists, n);
    assert forall|k: int| 0 <= k < r.len() implies exists|i: int|
        0 <= i < n && !exists[i] && carries(#[trigger] r[k], s[i]) && r[k].target_filename
            == file_name_of(s[i].file_path) && r[k].status is Pending by {
        let i = choose|i: int| 0 <= i < n && !exists[i] && s[i].url is Some && r[k] == task_for(s[i]);
        assert(carries(r[k], s[i]));
    }
}

/// Every sound whose file is missing and that has a URL gets a download
/// carrying it.
pub proof fn law_missing_sound_queued(s: Seq<SoundView>, exists: Seq<bool>, n: int)
    requires
        0 <= n <= s.len(),
        n <= exists.len(),
    ensures
        forall|i: int|
            0 <= i < n && !exists[i] && (#[trigger] s[i]).url is Some ==> exists|k: int|
                0 <= k < missing_tasks(s, exists, n).len() && carries(missing_tasks(s, exists, n)[k], s[i]),
    decreases n,
{
    if n > 0 {
        law_missing_sound_queued(s, exists, n - 1);
        let prev = missing_tasks(s, exists, n - 1);
        let r = missing_tasks(s, exists, n);
        assert forall|i: int| 0 <= i < n && !exists[i] && (#[trigger] s[i]).url is Some implies exists|k: int|
            0 <= k < r.len() && carries(r[k], s[i]) by {
            if i < n - 1 {
                let k = choose|k: int| 0 <= k < prev.len() && carries(prev[k], s[i]);
                assert(r[k] == prev[k]);
            } else {
                assert(carries(r[r.len() - 1], s[n - 1]));
            }
        }
    }
}

} // verus!
