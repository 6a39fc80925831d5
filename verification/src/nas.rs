//! The NAS page: its state, what each button and each background reply does
//! to it, the plan and tally of an upload, and what the page shows.
use vstd::prelude::*;

use crate::text::{concat_str, str_eq, u64_to_string, decimal_digits, input_display};
use crate::webdav::sanitize_remote_name;

verus! {

/// A file or folder listed on the server.
pub struct NasRemoteEntry {
    pub name: String,
    pub path: String,
    pub is_dir: bool,
    pub size: u64,
}

/// The upload progress of one comic.
pub struct NasUploadTask {
    pub comic_title: String,
    pub uploaded_files: u32,
    pub total_files: u32,
}

/// What the NAS page's input boxes hold.
pub struct NasInputState {
    pub server_url: String,
    pub username: String,
    pub password: String,
    pub remote_path: String,
    pub enabled: bool,
}

/// The state of the NAS page.
pub struct NasState {
    pub is_testing: bool,
    pub is_connected: bool,
    pub test_message: Option<String>,
    pub test_success: bool,
    pub is_uploading: bool,
    pub is_browsing: bool,
    pub upload_tasks: Vec<NasUploadTask>,
    pub error: Option<String>,
    pub success: Option<String>,
    pub remote_entries: Vec<NasRemoteEntry>,
    pub browse_path: String,
    pub needs_rebuild: bool,
}

/// The folder uploads go to: `/picacg/` when none is set, the set one with
/// a trailing `/` otherwise.
pub open spec fn upload_root_of(remote_path: Seq<char>) -> Seq<char> {
    if remote_path.len() == 0 {
        "/picacg/"@
    } else if remote_path.last() == '/' {
        remote_path
    } else {
        remote_path.push('/')
    }
}

/// The folder a browse starts from: `/` when none is set.
pub open spec fn browse_root_of(remote_path: Seq<char>) -> Seq<char> {
    if remote_path.len() == 0 {
        "/"@
    } else {
        remote_path
    }
}

/// A browse starts from the set remote folder itself, or from the
/// server's root `/` when none is set; and the folder uploads go to is that
/// same folder, with a `/` added at its end when it lacks one.
pub proof fn lemma_browse_starts_at_the_remote_folder(remote_path: Seq<char>)
    ensures
        remote_path.len() > 0 ==> browse_root_of(remote_path) == remote_path,
        remote_path.len() == 0 ==> browse_root_of(remote_path) == seq!['/'],
        remote_path.len() > 0 ==> upload_root_of(remote_path).subrange(0, remote_path.len() as int)
            == browse_root_of(remote_path),
{
    reveal_strlit("/");
    if remote_path.len() > 0 {
        assert(upload_root_of(remote_path).subrange(0, remote_path.len() as int) =~= remote_path);
    }
}

/// The folder uploads go to.
pub fn upload_root(remote_path: &str) -> (r: String)
    ensures
        r@ == upload_root_of(remote_path@),
{
    let n = remote_path.unicode_len();
    if n == 0 {
        return String::from_str("/picacg/");
    }
    let mut p = String::from_str(remote_path);
    if remote_path.get_char(n - 1) != '/' {
        crate::text::push_char(&mut p, '/');
    }
    p
}

/// The folder a browse starts from.
pub fn browse_root(remote_path: &str) -> (r: String)
    ensures
        r@ == browse_root_of(remote_path@),
{
    if remote_path.unicode_len() == 0 {
        String::from_str("/")
    } else {
        String::from_str(remote_path)
    }
}

/// The folder of one comic on the server: the upload folder, the comic's
/// title made safe, and `/`.
pub open spec fn comic_folder_of(root: Seq<char>, title: Seq<char>) -> Seq<char> {
    root + crate::text::safe_name(title) + "/"@
}

/// The folder of one comic on the server.
pub fn comic_remote_folder(root: &str, title: &str) -> (r: String)
    ensures
        r@ == comic_folder_of(root@, title@),
{
    let safe = sanitize_remote_name(title);
    let head = concat_str(root, safe.as_str());
    concat_str(head.as_str(), "/")
}

/// The place of one file on the server.
pub fn remote_file_path(comic_folder: &str, file_name: &str) -> (r: String)
    ensures
        r@ == comic_folder@ + file_name@,
{
    concat_str(comic_folder, file_name)
}

/// The first upload task of a comic, by title.
pub open spec fn task_index(tasks: Seq<NasUploadTask>, title: Seq<char>) -> Option<int>
    decreases tasks.len(),
{
    if tasks.len() == 0 {
        None
    } else {
        match task_index(tasks.drop_last(), title) {
            Some(i) => Some(i),
            None => if tasks.last().comic_title@ == title {
                Some(tasks.len() - 1)
            } else {
                None
            },
        }
    }
}

proof fn lemma_task_index(tasks: Seq<NasUploadTask>, title: Seq<char>, i: int)
    requires
        0 <= i <= tasks.len(),
        forall|j: int| 0 <= j < i ==> (#[trigger] tasks[j]).comic_title@ != title,
        i == tasks.len() || tasks[i].comic_title@ == title,
    ensures
        task_index(tasks, title) == if i < tasks.len() {
            Some(i)
        } else {
            None::<int>
        },
    decreases tasks.len(),
{
    if tasks.len() > 0 {
        let p = tasks.drop_last();
        if i < tasks.len() - 1 {
            assert(p[i] == tasks[i]);
            assert forall|j: int| 0 <= j < i implies (#[trigger] p[j]).comic_title@ != title by {
                assert(p[j] == tasks[j]);
            }
            lemma_task_index(p, title, i);
        } else {
            assert forall|j: int| 0 <= j < p.len() implies (#[trigger] p[j]).comic_title@ != title by {
                assert(p[j] == tasks[j]);
            }
            lemma_task_index(p, title, p.len() as int);
        }
    }
}

proof fn lemma_task_index_in_range(tasks: Seq<NasUploadTask>, title: Seq<char>)
    ensures
        task_index(tasks, title) matches Some(i) ==> 0 <= i < tasks.len()
            && tasks[i].comic_title@ == title,
    decreases tasks.len(),
{
    if tasks.len() > 0 {
        lemma_task_index_in_range(tasks.drop_last(), title);
        if let Some(i) = task_index(tasks.drop_last(), title) {
            assert(tasks.drop_last()[i] == tasks[i]);
        }
    }
}

/// The upload tasks after a progress report for `title`: the first task of
/// that title takes the new counts, or a new task is added at the end.
pub open spec fn tasks_after_progress(
    tasks: Seq<(Seq<char>, u32, u32)>,
    index: Option<int>,
    title: Seq<char>,
    uploaded: u32,
    total: u32,
) -> Seq<(Seq<char>, u32, u32)> {
    match index {
        Some(i) => tasks.update(i, (tasks[i].0, uploaded, total)),
        None => tasks.push((title, uploaded, total)),
    }
}

/// The upload tasks as plain values.
pub open spec fn tasks_view(tasks: Seq<NasUploadTask>) -> Seq<(Seq<char>, u32, u32)> {
    tasks.map_values(|t: NasUploadTask| (t.comic_title@, t.uploaded_files, t.total_files))
}

/// The sum of the uploaded counts and of the file counts of the tasks.
pub open spec fn task_totals(tasks: Seq<(Seq<char>, u32, u32)>) -> (int, int)
    decreases tasks.len(),
{
    if tasks.len() == 0 {
        (0, 0)
    } else {
        let p = task_totals(tasks.drop_last());
        (p.0 + tasks.last().1, p.1 + tasks.last().2)
    }
}

proof fn lemma_task_totals_bound(tasks: Seq<(Seq<char>, u32, u32)>)
    ensures
        0 <= task_totals(tasks).0 <= tasks.len() * 0xffff_ffff,
        0 <= task_totals(tasks).1 <= tasks.len() * 0xffff_ffff,
    decreases tasks.len(),
{
    if tasks.len() > 0 {
        lemma_task_totals_bound(tasks.drop_last());
    }
}

/// What the status line says.
pub enum NasStatusLine {
    /// "connecting…"
    Testing,
    /// The outcome of the last connection test.
    TestResult { ok: bool, message: String },
    Connected,
    NotConnected,
    /// A failed upload or browse.
    Failed(String),
    /// A finished upload.
    Done(String),
}

/// What the file list shows.
#[derive(Clone, Copy, PartialEq, Eq, Structural, Debug)]
pub enum FileListView {
    Loading,
    /// The hint to browse.
    Empty,
    /// The entries, with the folder's path above them when it is known.
    Entries { show_path: bool },
}

/// The connection test's part of the page is the same in both.
pub open spec fn same_test_part(a: NasState, b: NasState) -> bool {
    &&& a.is_testing == b.is_testing
    &&& a.is_connected == b.is_connected
    &&& a.test_message == b.test_message
    &&& a.test_success == b.test_success
}

/// The upload's part of the page is the same in both.
pub open spec fn same_upload_part(a: NasState, b: NasState) -> bool {
    &&& a.is_uploading == b.is_uploading
    &&& a.upload_tasks@ == b.upload_tasks@
}

/// The listing's part of the page is the same in both.
pub open spec fn same_browse_part(a: NasState, b: NasState) -> bool {
    &&& a.is_browsing == b.is_browsing
    &&& a.remote_entries@ == b.remote_entries@
    &&& a.browse_path@ == b.browse_path@
}

impl NasState {
    /// A page that has done nothing yet.
    pub fn new() -> (s: Self)
        ensures
            !s.is_testing && !s.is_connected && !s.is_uploading && !s.is_browsing,
            s.test_message is None && s.error is None && s.success is None,
            s.upload_tasks@.len() == 0,
            s.remote_entries@.len() == 0,
            s.browse_path@.len() == 0,
            !s.test_success,
            !s.needs_rebuild,
    {
        NasState {
            is_testing: false,
            is_connected: false,
            test_message: None,
            test_success: false,
            is_uploading: false,
            is_browsing: false,
            upload_tasks: Vec::new(),
            error: None,
            success: None,
            remote_entries: Vec::new(),
            browse_path: String::new(),
            needs_rebuild: false,
        }
    }

    /// A connection test starts unless one is running; says whether it
    /// started.
    pub fn handle_nas_test_connection(&mut self) -> (started: bool)
        ensures
            started == !old(self).is_testing,
            started ==> final(self).is_testing && final(self).needs_rebuild,
            started ==> (final(self).test_message matches Some(m) && m@ == "正在测试连接..."@),
            !started ==> *final(self) == *old(self),
            final(self).is_connected == old(self).is_connected,
            final(self).test_success == old(self).test_success,
            same_upload_part(*old(self), *final(self)),
            same_browse_part(*old(self), *final(self)),
            final(self).error == old(self).error,
            final(self).success == old(self).success,
    {
        if self.is_testing {
            return false;
        }
        self.is_testing = true;
        self.test_message = Some(String::from_str("正在测试连接..."));
        self.needs_rebuild = true;
        true
    }

    /// The outcome of a connection test.
    pub fn handle_nas_test_response(&mut self, success: bool, message: String)
        ensures
            !final(self).is_testing,
            final(self).is_connected == success,
            final(self).test_success == success,
            final(self).test_message matches Some(m) && m@ == message@,
            final(self).needs_rebuild,
            same_upload_part(*old(self), *final(self)),
            same_browse_part(*old(self), *final(self)),
            final(self).error == old(self).error,
            final(self).success == old(self).success,
    {
        self.is_testing = false;
        self.is_connected = success;
        self.test_message = Some(message);
        self.test_success = success;
        self.needs_rebuild = true;
    }

    /// An upload starts unless one is running. With no finished download to
    /// send it stops at once with an error; otherwise the tasks are cleared
    /// and the upload runs. Says whether it runs.
    pub fn handle_nas_upload_request(&mut self, has_completed_downloads: bool) -> (started: bool)
        ensures
            started == (!old(self).is_uploading && has_completed_downloads),
            old(self).is_uploading ==> *final(self) == *old(self),
            !old(self).is_uploading ==> {
                &&& final(self).upload_tasks@.len() == 0
                &&& final(self).needs_rebuild
                &&& final(self).success is None
                &&& final(self).is_uploading == has_completed_downloads
                &&& has_completed_downloads ==> final(self).error is None
                &&& !has_completed_downloads ==> (final(self).error matches Some(m) && m@
                    == "没有已完成的下载任务"@)
            },
            same_test_part(*old(self), *final(self)),
            same_browse_part(*old(self), *final(self)),
    {
        if self.is_uploading {
            return false;
        }
        self.is_uploading = true;
        self.upload_tasks.clear();
        self.error = None;
        self.success = None;
        self.needs_rebuild = true;
        if !has_completed_downloads {
            self.is_uploading = false;
            self.error = Some(String::from_str("没有已完成的下载任务"));
            return false;
        }
        true
    }

    /// A progress report of one comic's upload.
    pub fn handle_nas_upload_progress(&mut self, comic_title: String, uploaded_files: u32, total_files: u32)
        ensures
            tasks_view(final(self).upload_tasks@) == tasks_after_progress(
                tasks_view(old(self).upload_tasks@),
                task_index(old(self).upload_tasks@, comic_title@),
                comic_title@,
                uploaded_files,
                total_files,
            ),
            final(self).needs_rebuild,
            final(self).is_uploading == old(self).is_uploading,
            same_test_part(*old(self), *final(self)),
            same_browse_part(*old(self), *final(self)),
            final(self).error == old(self).error,
            final(self).success == old(self).success,
    {
        let mut i: usize = 0;
        while i < self.upload_tasks.len() && !str_eq(
            self.upload_tasks[i].comic_title.as_str(),
            comic_title.as_str(),
        )
            invariant
                i <= self.upload_tasks@.len(),
                self.upload_tasks@ == old(self).upload_tasks@,
                forall|j: int| 0 <= j < i ==> (#[trigger] self.upload_tasks@[j]).comic_title@ != comic_title@,
            decreases self.upload_tasks.len() - i,
        {
            i = i + 1;
        }
        proof {
            lemma_task_index(self.upload_tasks@, comic_title@, i as int);
        }
        let ghost before = tasks_view(self.upload_tasks@);
        if i < self.upload_tasks.len() {
            let title = String::from_str(self.upload_tasks[i].comic_title.as_str());
            self.upload_tasks.set(
                i,
                NasUploadTask { comic_title: title, uploaded_files, total_files },
            );
            proof {
                assert(tasks_view(self.upload_tasks@) =~= before.update(
                    i as int,
                    (before[i as int].0, uploaded_files, total_files),
                ));
            }
        } else {
            self.upload_tasks.push(NasUploadTask { comic_title, uploaded_files, total_files });
            proof {
                assert(tasks_view(self.upload_tasks@) =~= before.push(
                    (comic_title@, uploaded_files, total_files),
                ));
            }
        }
        self.needs_rebuild = true;
    }

    /// The upload finished with at least one file sent.
    pub fn handle_nas_upload_completed(&mut self, message: String)
        ensures
            !final(self).is_uploading,
            final(self).success matches Some(m) && m@ == message@,
            final(self).error is None,
            final(self).needs_rebuild,
            final(self).upload_tasks@ == old(self).upload_tasks@,
            same_test_part(*old(self), *final(self)),
            same_browse_part(*old(self), *final(self)),
    {
        self.is_uploading = false;
        self.success = Some(message);
        self.error = None;
        self.needs_rebuild = true;
    }

    /// The upload sent nothing.
    pub fn handle_nas_upload_failed(&mut self, error: String)
        ensures
            !final(self).is_uploading,
            final(self).error matches Some(m) && m@ == error@,
            final(self).success is None,
            final(self).needs_rebuild,
            final(self).upload_tasks@ == old(self).upload_tasks@,
            same_test_part(*old(self), *final(self)),
            same_browse_part(*old(self), *final(self)),
    {
        self.is_uploading = false;
        self.error = Some(error);
        self.success = None;
        self.needs_rebuild = true;
    }

    /// A browse starts unless one is running; says whether it started.
    pub fn handle_nas_browse_request(&mut self) -> (started: bool)
        ensures
            started == !old(self).is_browsing,
            started ==> final(self).is_browsing && final(self).needs_rebuild,
            !started ==> *final(self) == *old(self),
            final(self).remote_entries@ == old(self).remote_entries@,
            final(self).browse_path@ == old(self).browse_path@,
            same_test_part(*old(self), *final(self)),
            same_upload_part(*old(self), *final(self)),
            final(self).error == old(self).error,
            final(self).success == old(self).success,
    {
        if self.is_browsing {
            return false;
        }
        self.is_browsing = true;
        self.needs_rebuild = true;
        true
    }

    /// The listing of a folder arrived.
    pub fn handle_nas_browse_response(&mut self, entries: Vec<NasRemoteEntry>, path: String)
        ensures
            !final(self).is_browsing,
            final(self).remote_entries@ == entries@,
            final(self).browse_path@ == path@,
            final(self).needs_rebuild,
            same_test_part(*old(self), *final(self)),
            same_upload_part(*old(self), *final(self)),
            final(self).error == old(self).error,
            final(self).success == old(self).success,
    {
        self.is_browsing = false;
        self.remote_entries = entries;
        self.browse_path = path;
        self.needs_rebuild = true;
    }

    /// A browse failed.
    pub fn handle_nas_browse_failed(&mut self, error: String)
        ensures
            !final(self).is_browsing,
            final(self).error matches Some(m) && m@ == error@,
            final(self).success == old(self).success,
            final(self).needs_rebuild,
            final(self).remote_entries@ == old(self).remote_entries@,
            final(self).browse_path@ == old(self).browse_path@,
            same_test_part(*old(self), *final(self)),
            same_upload_part(*old(self), *final(self)),
    {
        self.is_browsing = false;
        self.error = Some(error);
        self.needs_rebuild = true;
    }

    /// What the status line says: a finished upload first, then a failure,
    /// then a running test, the last test's outcome, and the connection.
    pub fn status_line(&self) -> (r: NasStatusLine)
        ensures
            match self.success {
                Some(s) => r matches NasStatusLine::Done(m) && m@ == s@,
                None => match self.error {
                    Some(e) => r matches NasStatusLine::Failed(m) && m@ == e@,
                    None => if self.is_testing {
                        r is Testing
                    } else {
                        match self.test_message {
                            Some(t) => r matches NasStatusLine::TestResult { ok, message }
                                && ok == self.test_success && message@ == t@,
                            None => if self.is_connected {
                                r is Connected
                            } else {
                                r is NotConnected
                            },
                        }
                    },
                },
            },
    {
        match &self.success {
            Some(s) => NasStatusLine::Done(String::from_str(s.as_str())),
            None => match &self.error {
                Some(e) => NasStatusLine::Failed(String::from_str(e.as_str())),
                None => if self.is_testing {
                    NasStatusLine::Testing
                } else {
                    match &self.test_message {
                        Some(t) => NasStatusLine::TestResult {
                            ok: self.test_success,
                            message: String::from_str(t.as_str()),
                        },
                        None => if self.is_connected {
                            NasStatusLine::Connected
                        } else {
                            NasStatusLine::NotConnected
                        },
                    }
                },
            },
        }
    }

    /// The upload progress shown under the status line while an upload with
    /// tasks runs: files sent and files in all, over every task.
    pub fn upload_progress(&self) -> (r: Option<(u64, u64)>)
        requires
            self.upload_tasks@.len() < 0x1_0000_0000,
        ensures
            match r {
                Some((u, t)) => self.is_uploading && self.upload_tasks@.len() > 0 && (u as int, t as int)
                    == task_totals(tasks_view(self.upload_tasks@)),
                None => !(self.is_uploading && self.upload_tasks@.len() > 0),
            },
    {
        if !self.is_uploading || self.upload_tasks.len() == 0 {
            return None;
        }
        let ghost tv = tasks_view(self.upload_tasks@);
        let mut u: u64 = 0;
        let mut t: u64 = 0;
        let mut i: usize = 0;
        while i < self.upload_tasks.len()
            invariant
                i <= self.upload_tasks@.len() < 0x1_0000_0000,
                tv == tasks_view(self.upload_tasks@),
                (u as int, t as int) == task_totals(tv.take(i as int)),
            decreases self.upload_tasks.len() - i,
        {
            proof {
                assert(tv.take(i + 1).drop_last() =~= tv.take(i as int));
                lemma_task_totals_bound(tv.take(i as int));
                assert(i * 0xffff_ffff + 0xffff_ffff <= 0x1_0000_0000 * 0xffff_ffff) by (nonlinear_arith)
                    requires i < 0x1_0000_0000;
            }
            u = u + self.upload_tasks[i].uploaded_files as u64;
            t = t + self.upload_tasks[i].total_files as u64;
            i = i + 1;
        }
        proof {
            assert(tv.take(tv.len() as int) =~= tv);
        }
        Some((u, t))
    }

    /// What the file list shows.
    pub fn file_list_view(&self) -> (r: FileListView)
        ensures
            r == if self.is_browsing {
                FileListView::Loading
            } else if self.remote_entries@.len() == 0 {
                FileListView::Empty
            } else {
                FileListView::Entries { show_path: self.browse_path@.len() > 0 }
            },
    {
        if self.is_browsing {
            FileListView::Loading
        } else if self.remote_entries.len() == 0 {
            FileListView::Empty
        } else {
            FileListView::Entries { show_path: self.browse_path.unicode_len() > 0 }
        }
    }
}

/// The text of the upload progress line.
pub fn progress_text(uploaded: u64, total: u64) -> (r: String)
    ensures
        r@ == "上传进度: "@ + decimal_digits(uploaded as nat) + "/"@ + decimal_digits(total as nat)
            + " 文件"@,
{
    let a = concat_str("上传进度: ", u64_to_string(uploaded).as_str());
    let b = concat_str(a.as_str(), "/");
    let c = concat_str(b.as_str(), u64_to_string(total).as_str());
    concat_str(c.as_str(), " 文件")
}

// ==================== the tally of an upload ====================

/// What an upload has sent and missed so far.
pub struct UploadTally {
    pub uploaded: u32,
    pub errors: u32,
}

/// The message that closes an upload.
pub open spec fn upload_summary_of(uploaded: u32, errors: u32) -> Seq<char> {
    "上传完成: "@ + decimal_digits(uploaded as nat) + " 个文件成功, "@ + decimal_digits(
        errors as nat,
    ) + " 个错误"@
}

impl UploadTally {
    /// Nothing sent, nothing missed.
    pub fn new() -> (t: Self)
        ensures
            t.uploaded == 0 && t.errors == 0,
    {
        UploadTally { uploaded: 0, errors: 0 }
    }

    /// One file was sent.
    pub fn record_sent(&mut self)
        ensures
            final(self).uploaded as int == if old(self).uploaded < u32::MAX {
                old(self).uploaded + 1
            } else {
                old(self).uploaded as int
            },
            final(self).errors == old(self).errors,
    {
        self.uploaded = self.uploaded.saturating_add(1);
    }

    /// A file, or a whole comic folder, could not be sent.
    pub fn record_error(&mut self)
        ensures
            final(self).errors as int == if old(self).errors < u32::MAX {
                old(self).errors + 1
            } else {
                old(self).errors as int
            },
            final(self).uploaded == old(self).uploaded,
    {
        self.errors = self.errors.saturating_add(1);
    }

    /// A comic folder was looked at: `scanned` holds how many files it has,
    /// or `None` when the folder is missing or could not be read. A missing
    /// folder counts as one error and the comic is skipped; otherwise gives
    /// the comic's file count (as far as a `u32` holds it).
    pub fn record_comic_scan(&mut self, scanned: Option<usize>) -> (r: Option<u32>)
        ensures
            match scanned {
                None => {
                    &&& r is None
                    &&& final(self).errors as int == if old(self).errors < u32::MAX {
                        old(self).errors + 1
                    } else {
                        old(self).errors as int
                    }
                    &&& final(self).uploaded == old(self).uploaded
                },
                Some(n) => {
                    &&& r == Some(if n <= u32::MAX { n as u32 } else { u32::MAX })
                    &&& *final(self) == *old(self)
                },
            },
    {
        match scanned {
            None => {
                self.record_error();
                None
            },
            Some(n) => {
                if n <= u32::MAX as usize {
                    Some(n as u32)
                } else {
                    Some(u32::MAX)
                }
            },
        }
    }

    /// One file of a comic was tried: a sent file counts for the comic
    /// (`sent_in_comic` so far) and for the upload, a failed one is an error.
    /// Gives the comic's new count of sent files.
    pub fn record_file(&mut self, sent_in_comic: u32, ok: bool) -> (r: u32)
        ensures
            ok ==> r as int == if sent_in_comic < u32::MAX {
                sent_in_comic + 1
            } else {
                sent_in_comic as int
            },
            ok ==> final(self).uploaded as int == if old(self).uploaded < u32::MAX {
                old(self).uploaded + 1
            } else {
                old(self).uploaded as int
            } && final(self).errors == old(self).errors,
            !ok ==> r == sent_in_comic && final(self).uploaded == old(self).uploaded
                && final(self).errors as int == if old(self).errors < u32::MAX {
                old(self).errors + 1
            } else {
                old(self).errors as int
            },
    {
        if ok {
            self.record_sent();
            sent_in_comic.saturating_add(1)
        } else {
            self.record_error();
            sent_in_comic
        }
    }

    /// The closing message, and whether the upload counts as failed: it
    /// missed something and sent nothing.
    pub fn finish(&self) -> (r: (String, bool))
        ensures
            r.0@ == upload_summary_of(self.uploaded, self.errors),
            r.1 == (self.errors > 0 && self.uploaded == 0),
    {
        let a = concat_str("上传完成: ", u64_to_string(self.uploaded as u64).as_str());
        let b = concat_str(a.as_str(), " 个文件成功, ");
        let c = concat_str(b.as_str(), u64_to_string(self.errors as u64).as_str());
        (concat_str(c.as_str(), " 个错误"), self.errors > 0 && self.uploaded == 0)
    }
}

/// The message of a connection test's outcome.
pub fn test_outcome_message(result: Result<(), String>) -> (r: (bool, String))
    ensures
        match result {
            Ok(_) => r.0 && r.1@ == "连接成功"@,
            Err(e) => !r.0 && r.1@ == "连接失败: "@ + e@,
        },
{
    match result {
        Ok(_) => (true, String::from_str("连接成功")),
        Err(e) => (false, concat_str("连接失败: ", e.as_str())),
    }
}

/// The message of a failed browse.
pub fn browse_failure_message(error: &str) -> (r: String)
    ensures
        r@ == "浏览失败: "@ + error@,
{
    concat_str("浏览失败: ", error)
}

/// The entries of a parsed listing as list entries.
pub fn entries_from(parsed: Vec<(String, String, bool, u64)>) -> (r: Vec<NasRemoteEntry>)
    ensures
        r@.len() == parsed@.len(),
        forall|i: int| 0 <= i < r@.len() ==> {
            &&& (#[trigger] r@[i]).name@ == parsed@[i].0@
            &&& r@[i].path@ == parsed@[i].1@
            &&& r@[i].is_dir == parsed@[i].2
            &&& r@[i].size == parsed@[i].3
        },
{
    let mut r: Vec<NasRemoteEntry> = Vec::new();
    let mut i: usize = 0;
    while i < parsed.len()
        invariant
            i <= parsed@.len(),
            r@.len() == i,
            forall|j: int| 0 <= j < i ==> {
                &&& (#[trigger] r@[j]).name@ == parsed@[j].0@
                &&& r@[j].path@ == parsed@[j].1@
                &&& r@[j].is_dir == parsed@[j].2
                &&& r@[j].size == parsed@[j].3
            },
        decreases parsed.len() - i,
    {
        let e = &parsed[i];
        r.push(
            NasRemoteEntry {
                name: String::from_str(e.0.as_str()),
                path: String::from_str(e.1.as_str()),
                is_dir: e.2,
                size: e.3,
            },
        );
        i = i + 1;
    }
    r
}

/// What the password box of the NAS page shows, and whether it is the hint.
pub fn password_display(value: &str) -> (r: (String, bool))
    ensures
        r.1 == (value@.len() == 0),
        r.0@ == if value@.len() == 0 {
            "点击输入..."@
        } else {
            crate::text::masked(value@, true)
        },
{
    input_display(value, "点击输入...", true)
}

/// A progress report for a comic already listed changes only that comic's
/// counts; the number of tasks grows only for a new comic.
pub proof fn lemma_progress_updates_in_place(
    tasks: Seq<NasUploadTask>,
    title: Seq<char>,
    uploaded: u32,
    total: u32,
)
    ensures
        ({
            let after = tasks_after_progress(tasks_view(tasks), task_index(tasks, title), title, uploaded, total);
            &&& task_index(tasks, title) is Some ==> after.len() == tasks.len()
            &&& task_index(tasks, title) is None ==> after.len() == tasks.len() + 1 && after.last() == (title, uploaded, total)
        }),
{
    lemma_task_index_in_range(tasks, title);
}


/// The finished downloads an upload sends: those with a folder.
pub open spec fn with_folder(tasks: Seq<(Seq<char>, Seq<char>)>) -> Seq<(Seq<char>, Seq<char>)>
    decreases tasks.len(),
{
    if tasks.len() == 0 {
        tasks
    } else if tasks.last().1.len() > 0 {
        with_folder(tasks.drop_last()).push(tasks.last())
    } else {
        with_folder(tasks.drop_last())
    }
}

/// Pairs of strings as pairs of character sequences.
pub open spec fn pairs_view(v: Seq<(String, String)>) -> Seq<(Seq<char>, Seq<char>)> {
    v.map_values(|p: (String, String)| (p.0@, p.1@))
}

/// The finished downloads `(title, folder)` an upload sends: those whose
/// folder is known.
pub fn uploadable(tasks: Vec<(String, String)>) -> (r: Vec<(String, String)>)
    ensures
        pairs_view(r@) == with_folder(pairs_view(tasks@)),
{
    let ghost all = pairs_view(tasks@);
    let mut r: Vec<(String, String)> = Vec::new();
    let mut i: usize = 0;
    while i < tasks.len()
        invariant
            i <= tasks@.len(),
            all == pairs_view(tasks@),
            pairs_view(r@) == with_folder(all.take(i as int)),
        decreases tasks.len() - i,
    {
        proof {
            assert(all.take(i + 1).drop_last() =~= all.take(i as int));
            assert(all.take(i + 1).last() == all[i as int]);
        }
        if tasks[i].1.unicode_len() > 0 {
            let ghost before = r@;
            let p = (String::from_str(tasks[i].0.as_str()), String::from_str(tasks[i].1.as_str()));
            r.push(p);
            proof {
                assert(r@ =~= before.push(p));
                assert(pairs_view(r@) =~= pairs_view(before).push((p.0@, p.1@)));
            }
        }
        i = i + 1;
    }
    proof {
        assert(all.take(all.len() as int) =~= all);
    }
    r
}

} // verus!
