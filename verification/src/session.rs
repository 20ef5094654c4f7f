//! Per-session state: the table of tracked files with their baseline and
//! current content, and the aggregator that derives a presence snapshot
//! from it.

use vstd::prelude::*;
use crate::diff::cap_len_u32;
use crate::diff::cap_u32;
use crate::diff::get_diff;
use crate::diff::spec_get_diff;
use crate::diff::lemma_spec_get_diff_bounds;
use crate::diff::string_eq;

verus! {

/// The two versions of a tracked file: the content first seen for it (the
/// baseline every later version is diffed against) and the content most
/// recently reported.
pub struct FileData {
    pub original_contents: String,
    pub latest_contents: String,
}

#[verifier::ext_equal]
pub struct FileView {
    pub original: Seq<char>,
    pub latest: Seq<char>,
}

impl View for FileData {
    type V = FileView;

    open spec fn view(&self) -> FileView {
        FileView { original: self.original_contents@, latest: self.latest_contents@ }
    }
}

/// Everything the session tracks: one record per file name, the file the
/// editor last touched, the repository link resolved at startup, and the
/// session's start time.
pub struct SessionState {
    pub changed_files: Vec<(String, FileData)>,
    pub current_file: Option<String>,
    pub remote_url: Option<String>,
    pub start_time: u64,
}

#[verifier::ext_equal]
pub struct SessionView {
    pub files: Seq<(Seq<char>, FileView)>,
    pub current_file: Option<Seq<char>>,
    pub remote_url: Option<Seq<char>>,
    pub start_time: u64,
}

impl View for SessionState {
    type V = SessionView;

    open spec fn view(&self) -> SessionView {
        SessionView {
            files: Seq::new(
                self.changed_files@.len(),
                |i: int| (self.changed_files@[i].0@, self.changed_files@[i].1@),
            ),
            current_file: self.current_file.deep_view(),
            remote_url: self.remote_url.deep_view(),
            start_time: self.start_time,
        }
    }
}

/// Index of the record for `name`, or -1 when there is none.
pub open spec fn find_file(files: Seq<(Seq<char>, FileView)>, name: Seq<char>) -> int
    decreases files.len(),
{
    if files.len() == 0 {
        -1
    } else if files[0].0 == name {
        0
    } else {
        let r = find_file(files.skip(1), name);
        if r == -1 {
            -1
        } else {
            r + 1
        }
    }
}

pub proof fn lemma_find_file(files: Seq<(Seq<char>, FileView)>, name: Seq<char>)
    ensures
        -1 <= find_file(files, name) < files.len(),
        find_file(files, name) == -1 ==> forall|i: int|
            0 <= i < files.len() ==> files[i].0 != name,
        find_file(files, name) >= 0 ==> files[find_file(files, name)].0 == name,
        find_file(files, name) >= 0 ==> forall|i: int|
            0 <= i < find_file(files, name) ==> files[i].0 != name,
    decreases files.len(),
{
    if files.len() > 0 && files[0].0 != name {
        lemma_find_file(files.skip(1), name);
        let r = find_file(files.skip(1), name);
        if r == -1 {
            assert forall|i: int| 0 <= i < files.len() implies files[i].0 != name by {
                if i > 0 {
                    assert(files.skip(1)[i - 1] == files[i]);
                }
            }
        } else {
            assert(files.skip(1)[r] == files[r + 1]);
            assert forall|i: int| 0 <= i < r + 1 implies files[i].0 != name by {
                if i > 0 {
                    assert(files.skip(1)[i - 1] == files[i]);
                }
            }
        }
    }
}

pub proof fn lemma_find_file_push(
    files: Seq<(Seq<char>, FileView)>,
    name: Seq<char>,
    entry: (Seq<char>, FileView),
)
    requires
        find_file(files, name) == -1,
        entry.0 == name,
    ensures
        find_file(files.push(entry), name) == files.len(),
    decreases files.len(),
{
    if files.len() == 0 {
        assert(files.push(entry)[0] == entry);
    } else {
        assert(files[0].0 != name);
        lemma_find_file(files.skip(1), name);
        assert(find_file(files.skip(1), name) == -1);
        assert(files.push(entry)[0] == files[0]);
        assert(files.push(entry).skip(1) =~= files.skip(1).push(entry));
        lemma_find_file_push(files.skip(1), name, entry);
    }
}

/// What recording a change does to the session: an empty file name changes
/// nothing; a first change creates the record and fixes its baseline at the
/// reported content, with the current content still empty; a later change
/// replaces only the current content.  Either way the file becomes the
/// active one.
pub open spec fn record_change_spec(
    v: SessionView,
    name: Seq<char>,
    contents: Seq<char>,
) -> SessionView {
    if name.len() == 0 {
        v
    } else {
        let i = find_file(v.files, name);
        let files = if i == -1 {
            v.files.push((name, FileView { original: contents, latest: Seq::empty() }))
        } else {
            v.files.update(i, (name, FileView { original: v.files[i].1.original, latest: contents }))
        };
        SessionView { files, current_file: Some(name), ..v }
    }
}

/// What recording an open does: an empty file name changes nothing; an
/// unseen file gets a record with empty baseline and empty current content;
/// either way the file becomes the active one.
pub open spec fn record_open_spec(v: SessionView, name: Seq<char>) -> SessionView {
    if name.len() == 0 {
        v
    } else {
        let files = if find_file(v.files, name) == -1 {
            v.files.push((name, FileView { original: Seq::empty(), latest: Seq::empty() }))
        } else {
            v.files
        };
        SessionView { files, current_file: Some(name), ..v }
    }
}

/// Relies on std::time::SystemTime::now and duration_since: the wall
/// clock's seconds since the Unix epoch, zero for a clock before the epoch.
/// Nothing can be promised of the clock's value.
#[verifier::external_body]
fn now_secs() -> u64 {
    match std::time::SystemTime::now().duration_since(std::time::UNIX_EPOCH) {
        Ok(d) => d.as_secs(),
        Err(_) => 0,
    }
}

impl SessionState {
    /// No file name occurs twice in the table.
    pub open spec fn wf(&self) -> bool {
        self@.wf_files()
    }

    /// A fresh session: no tracked files, no active file, no repository
    /// link, started at the present wall-clock time.
    pub fn new() -> (s: SessionState)
        ensures
            s@.files == Seq::<(Seq<char>, FileView)>::empty(),
            s@.current_file is None,
            s@.remote_url is None,
            s.wf(),
    {
        let s = SessionState {
            changed_files: Vec::new(),
            current_file: None,
            remote_url: None,
            start_time: now_secs(),
        };
        proof {
            assert(s@.files =~= Seq::<(Seq<char>, FileView)>::empty());
        }
        s
    }

    /// Records that the editor opened `filename`.
    pub fn record_open(&mut self, filename: String)
        ensures
            final(self)@ == record_open_spec(old(self)@, filename@),
            old(self).wf() ==> final(self).wf(),
    {
        let contents = String::new();
        let empty = String::new();
        self.record_seen(filename, contents, empty, false);
    }

    /// Records that the editor reported `new_contents` as the full content
    /// of `filename`.
    pub fn record_change(&mut self, filename: String, new_contents: String)
        ensures
            final(self)@ == record_change_spec(old(self)@, filename@, new_contents@),
            old(self).wf() ==> final(self).wf(),
    {
        let empty = String::new();
        self.record_seen(filename, new_contents, empty, true);
    }

    /// Shared body of `record_open` and `record_change`: `is_change` picks
    /// which transition applies; `contents` is the reported content (empty
    /// for an open) and `empty` an empty string for the fresh record.
    fn record_seen(&mut self, filename: String, contents: String, empty: String, is_change: bool)
        requires
            empty@.len() == 0,
            !is_change ==> contents@.len() == 0,
        ensures
            is_change ==> final(self)@ == record_change_spec(
                old(self)@,
                filename@,
                contents@,
            ),
            !is_change ==> final(self)@ == record_open_spec(old(self)@, filename@),
            old(self).wf() ==> final(self).wf(),
    {
        if filename.as_str().is_empty() {
            return ;
        }
        let ghost fs = self@.files;
        let ghost pre = self@;
        let n = self.changed_files.len();
        let mut i: usize = 0;
        while i < n
            invariant
                n == fs.len(),
                fs == self@.files,
                pre == self@,
                pre == old(self)@,
                *self == *old(self),
                i <= n,
                filename@.len() != 0,
                empty@.len() == 0,
                !is_change ==> contents@.len() == 0,
                forall|k: int| 0 <= k < i ==> fs[k].0 != filename@,
            decreases n - i,
        {
            if string_eq(&self.changed_files[i].0, &filename) {
                proof {
                    lemma_find_file(fs, filename@);
                    assert(fs[i as int] == (
                        self.changed_files@[i as int].0@,
                        self.changed_files@[i as int].1@,
                    ));
                    assert(fs[i as int].0 == filename@);
                    let r = find_file(fs, filename@);
                    if r == -1 {
                        assert(fs[i as int].0 != filename@);
                    } else if r < i {
                        assert(fs[r].0 != filename@);
                    } else if r > i {
                        assert(fs[i as int].0 != filename@);
                    }
                    assert(find_file(fs, filename@) == i);
                }
                if is_change {
                    let original = self.changed_files[i].1.original_contents.clone();
                    self.changed_files[i] = (
                        filename.clone(),
                        FileData { original_contents: original, latest_contents: contents },
                    );
                    self.current_file = Some(filename);
                    proof {
                        assert(self@.files =~= pre.files.update(
                            i as int,
                            (
                                filename@,
                                FileView {
                                    original: pre.files[i as int].1.original,
                                    latest: contents@,
                                },
                            ),
                        ));
                        assert(self@ =~~= record_change_spec(pre, filename@, contents@));
                        if pre.wf_files() {
                            assert forall|x: int, y: int|
                                0 <= x < y < self@.files.len() implies self@.files[x].0
                                != self@.files[y].0 by {
                                assert(pre.files[x].0 != pre.files[y].0);
                                assert(fs[i as int].0 == filename@);
                            }
                        }
                    }
                } else {
                    self.current_file = Some(filename);
                    proof {
                        assert(self@.files =~= pre.files);
                        assert(self@ =~= record_open_spec(pre, filename@));
                    }
                }
                return ;
            }
            i = i + 1;
        }
        proof {
            lemma_find_file(fs, filename@);
            let r = find_file(fs, filename@);
            if r >= 0 {
                assert(fs[r].0 == filename@);
                assert(fs[r].0 != filename@);
            }
            assert(find_file(fs, filename@) == -1);
        }
        let fresh = FileData { original_contents: contents, latest_contents: empty };
        self.changed_files.push((filename.clone(), fresh));
        self.current_file = Some(filename);
        proof {
            assert(empty@ =~= Seq::<char>::empty());
            if !is_change {
                assert(contents@ =~= Seq::<char>::empty());
            }
            if is_change {
                assert(self@.files =~= pre.files.push(
                    (filename@, FileView { original: contents@, latest: Seq::empty() }),
                ));
                assert(self@ =~= record_change_spec(pre, filename@, contents@));
            } else {
                assert(self@.files =~= pre.files.push(
                    (filename@, FileView { original: Seq::empty(), latest: Seq::empty() }),
                ));
                assert(self@ =~= record_open_spec(pre, filename@));
            }
            if pre.wf_files() {
                assert forall|x: int, y: int|
                    0 <= x < y < self@.files.len() implies self@.files[x].0
                    != self@.files[y].0 by {
                    if y < pre.files.len() {
                        assert(pre.files[x].0 != pre.files[y].0);
                    } else {
                        assert(fs[x].0 != filename@);
                    }
                }
            }
        }
    }
}

impl SessionView {
    /// The well-formedness of a view: no file name occurs twice.
    pub open spec fn wf_files(&self) -> bool {
        forall|i: int, j: int| 0 <= i < j < self.files.len() ==> self.files[i].0 != self.files[j].0
    }
}

/// Records a change through a free function, as the router's loop calls it.
pub fn update_file_contents(state: &mut SessionState, filename: String, new_contents: String)
    ensures
        final(state)@ == record_change_spec(old(state)@, filename@, new_contents@),
        old(state).wf() ==> final(state).wf(),
{
    state.record_change(filename, new_contents);
}

/// One snapshot of the session's aggregate activity, as handed to the
/// presence service.
pub struct DiscordData {
    pub additions: u32,
    pub deletions: u32,
    pub num_files: u32,
    pub filename: Option<String>,
    pub remote_url: Option<String>,
    pub start_time: u64,
}

#[verifier::ext_equal]
pub struct DiscordView {
    pub additions: int,
    pub deletions: int,
    pub num_files: int,
    pub filename: Option<Seq<char>>,
    pub remote_url: Option<Seq<char>>,
    pub start_time: u64,
}

impl View for DiscordData {
    type V = DiscordView;

    open spec fn view(&self) -> DiscordView {
        DiscordView {
            additions: self.additions as int,
            deletions: self.deletions as int,
            num_files: self.num_files as int,
            filename: self.filename.deep_view(),
            remote_url: self.remote_url.deep_view(),
            start_time: self.start_time,
        }
    }
}

/// Sum of the per-file deletion counts, each file diffed baseline against
/// current content.
pub open spec fn sum_deletions(files: Seq<(Seq<char>, FileView)>) -> int
    decreases files.len(),
{
    if files.len() == 0 {
        0
    } else {
        sum_deletions(files.drop_last()) + spec_get_diff(
            files.last().1.original,
            files.last().1.latest,
        ).0
    }
}

/// Sum of the per-file addition counts.
pub open spec fn sum_additions(files: Seq<(Seq<char>, FileView)>) -> int
    decreases files.len(),
{
    if files.len() == 0 {
        0
    } else {
        sum_additions(files.drop_last()) + spec_get_diff(
            files.last().1.original,
            files.last().1.latest,
        ).1
    }
}

/// What a snapshot of a session holds: summed diff counts and the file
/// count, each capped at the counter range, beside the active file, the
/// repository link and the start time.
pub open spec fn snapshot_spec(v: SessionView) -> DiscordView {
    DiscordView {
        additions: cap_u32(sum_additions(v.files)),
        deletions: cap_u32(sum_deletions(v.files)),
        num_files: cap_u32(v.files.len() as int),
        filename: v.current_file,
        remote_url: v.remote_url,
        start_time: v.start_time,
    }
}

fn clone_opt_string(x: &Option<String>) -> (r: Option<String>)
    ensures
        r.deep_view() == x.deep_view(),
{
    match x {
        Option::Some(s) => Option::Some(s.clone()),
        Option::None => Option::None,
    }
}

/// Derives the presence snapshot from the session: per file the line diff
/// of baseline against current content, summed with saturation.
pub fn construct_data(state: &SessionState) -> (r: DiscordData)
    ensures
        r@ == snapshot_spec(state@),
{
    let mut additions: u32 = 0;
    let mut deletions: u32 = 0;
    let ghost fs = state@.files;
    let n = state.changed_files.len();
    let mut i: usize = 0;
    proof {
        assert(fs.take(0) =~= Seq::<(Seq<char>, FileView)>::empty());
    }
    while i < n
        invariant
            n == fs.len(),
            fs == state@.files,
            i <= n,
            additions == cap_u32(sum_additions(fs.take(i as int))),
            deletions == cap_u32(sum_deletions(fs.take(i as int))),
        decreases n - i,
    {
        let entry = &state.changed_files[i];
        let (del, add) = get_diff(entry.1.original_contents.as_str(), entry.1.latest_contents.as_str());
        proof {
            lemma_spec_get_diff_bounds(fs[i as int].1.original, fs[i as int].1.latest);
            assert(fs.take(i + 1).drop_last() =~= fs.take(i as int));
            assert(fs.take(i + 1).last() == fs[i as int]);
        }
        additions = additions.saturating_add(add);
        deletions = deletions.saturating_add(del);
        i = i + 1;
    }
    proof {
        assert(fs.take(n as int) =~= fs);
    }
    DiscordData {
        additions,
        deletions,
        num_files: cap_len_u32(n),
        filename: clone_opt_string(&state.current_file),
        remote_url: clone_opt_string(&state.remote_url),
        start_time: state.start_time,
    }
}

/// Law: recording a change never moves the baseline of any file that is
/// already tracked, and never drops a record.
pub proof fn lemma_baseline_write_once(v: SessionView, f: Seq<char>, c: Seq<char>)
    ensures
        record_change_spec(v, f, c).files.len() >= v.files.len(),
        forall|k: int|
            0 <= k < v.files.len() ==> record_change_spec(v, f, c).files[k].1.original
                == v.files[k].1.original,
{
    if f.len() > 0 {
        lemma_find_file(v.files, f);
    }
}

/// Law: a file's baseline is fixed by the first change and only the current
/// content moves afterwards, so after two changes to an unseen file the
/// snapshot's contribution for it is exactly the diff of the first content
/// against the second.
pub proof fn lemma_baseline_fixed(v: SessionView, f: Seq<char>, c1: Seq<char>, c2: Seq<char>)
    requires
        f.len() > 0,
        find_file(v.files, f) == -1,
    ensures
        ({
            let v2 = record_change_spec(record_change_spec(v, f, c1), f, c2);
            &&& v2.files == v.files.push((f, FileView { original: c1, latest: c2 }))
            &&& sum_deletions(v2.files) == sum_deletions(v.files) + spec_get_diff(c1, c2).0
            &&& sum_additions(v2.files) == sum_additions(v.files) + spec_get_diff(c1, c2).1
        }),
{
    let v1 = record_change_spec(v, f, c1);
    let e1 = (f, FileView { original: c1, latest: Seq::<char>::empty() });
    assert(v1.files == v.files.push(e1));
    lemma_find_file_push(v.files, f, e1);
    let k = find_file(v1.files, f);
    assert(k == v.files.len());
    assert(v1.files[k] == e1);
    let v2 = record_change_spec(v1, f, c2);
    assert(v2.files == v1.files.update(k, (f, FileView { original: c1, latest: c2 })));
    assert(v2.files =~= v.files.push((f, FileView { original: c1, latest: c2 })));
    assert(v2.files.drop_last() =~= v.files);
    assert(v2.files.last() == (f, FileView { original: c1, latest: c2 }));
}

} // verus!
