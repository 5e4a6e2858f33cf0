//! Fetching the files of a source: which files are archives, where each
//! one is put, and how many are fetched at a time.

use crate::source_file::SourceFile;
use crate::text::{
    append_chars, chars_of, copy_str, ends_with, has_suffix, slice_chars, string_of,
};
use vstd::prelude::*;

verus! {

/// The kind of an archive.
#[derive(Clone, Copy, Debug, PartialEq, Eq, Structural)]
pub enum ArchiveKind {
    Tar,
    TarGz,
    TarXz,
    TarBz2,
    TarZst,
    Zip,
    /// An `ar` archive that holds the members `control.tar.xz` and
    /// `data.tar.xz`.
    Deb,
    /// Kept for later use: no file name stands for it.
    Ar,
}

/// The name `name` without its last `suffix.len()` characters.
pub open spec fn stem_of(name: Seq<char>, suffix: Seq<char>) -> Seq<char> {
    name.take(name.len() - suffix.len())
}

/// The kind of archive that a file name stands for, with the name that is
/// left when the suffix is taken off. The longer suffixes are tried first.
/// A name with none of the suffixes is the name of a plain file.
pub open spec fn archive_kind_of(name: Seq<char>) -> Option<(ArchiveKind, Seq<char>)> {
    if ends_with(name, ".tar.bz2"@) {
        Some((ArchiveKind::TarBz2, stem_of(name, ".tar.bz2"@)))
    } else if ends_with(name, ".tar.zst"@) {
        Some((ArchiveKind::TarZst, stem_of(name, ".tar.zst"@)))
    } else if ends_with(name, ".tar.gz"@) {
        Some((ArchiveKind::TarGz, stem_of(name, ".tar.gz"@)))
    } else if ends_with(name, ".tar.xz"@) {
        Some((ArchiveKind::TarXz, stem_of(name, ".tar.xz"@)))
    } else if ends_with(name, ".tbz2"@) {
        Some((ArchiveKind::TarBz2, stem_of(name, ".tbz2"@)))
    } else if ends_with(name, ".tzst"@) {
        Some((ArchiveKind::TarZst, stem_of(name, ".tzst"@)))
    } else if ends_with(name, ".tar"@) {
        Some((ArchiveKind::Tar, stem_of(name, ".tar"@)))
    } else if ends_with(name, ".tgz"@) {
        Some((ArchiveKind::TarGz, stem_of(name, ".tgz"@)))
    } else if ends_with(name, ".txz"@) {
        Some((ArchiveKind::TarXz, stem_of(name, ".txz"@)))
    } else if ends_with(name, ".zip"@) {
        Some((ArchiveKind::Zip, stem_of(name, ".zip"@)))
    } else if ends_with(name, ".deb"@) {
        Some((ArchiveKind::Deb, stem_of(name, ".deb"@)))
    } else {
        None
    }
}

/// The name without the suffix, if it ends with the suffix.
fn strip_suffix(name: &Vec<char>, suffix: &str) -> (r: Option<Vec<char>>)
    ensures
        match r {
            Some(t) => ends_with(name@, suffix@) && t@ == stem_of(name@, suffix@),
            None => !ends_with(name@, suffix@),
        },
{
    let s = chars_of(suffix);
    if has_suffix(name, &s) {
        let t = slice_chars(name, 0, name.len() - s.len());
        proof {
            assert(t@ == name@.take(name.len() - s.len()));
        }
        Some(t)
    } else {
        None
    }
}

impl ArchiveKind {
    /// The kind of archive that a file name stands for, with the name that
    /// is left when the suffix is taken off.
    pub fn from_file_name(name: &str) -> (r: Option<(ArchiveKind, String)>)
        ensures
            match r {
                Some((kind, stem)) => archive_kind_of(name@) == Some((kind, stem@)),
                None => archive_kind_of(name@) is None,
            },
    {
        let v = chars_of(name);
        if let Some(t) = strip_suffix(&v, ".tar.bz2") {
            return Some((ArchiveKind::TarBz2, string_of(&t)));
        }
        if let Some(t) = strip_suffix(&v, ".tar.zst") {
            return Some((ArchiveKind::TarZst, string_of(&t)));
        }
        if let Some(t) = strip_suffix(&v, ".tar.gz") {
            return Some((ArchiveKind::TarGz, string_of(&t)));
        }
        if let Some(t) = strip_suffix(&v, ".tar.xz") {
            return Some((ArchiveKind::TarXz, string_of(&t)));
        }
        if let Some(t) = strip_suffix(&v, ".tbz2") {
            return Some((ArchiveKind::TarBz2, string_of(&t)));
        }
        if let Some(t) = strip_suffix(&v, ".tzst") {
            return Some((ArchiveKind::TarZst, string_of(&t)));
        }
        if let Some(t) = strip_suffix(&v, ".tar") {
            return Some((ArchiveKind::Tar, string_of(&t)));
        }
        if let Some(t) = strip_suffix(&v, ".tgz") {
            return Some((ArchiveKind::TarGz, string_of(&t)));
        }
        if let Some(t) = strip_suffix(&v, ".txz") {
            return Some((ArchiveKind::TarXz, string_of(&t)));
        }
        if let Some(t) = strip_suffix(&v, ".zip") {
            return Some((ArchiveKind::Zip, string_of(&t)));
        }
        if let Some(t) = strip_suffix(&v, ".deb") {
            return Some((ArchiveKind::Deb, string_of(&t)));
        }
        None
    }
}

/// What is done with one source file.
#[derive(Debug)]
pub struct FetchPlan {
    /// Whether the file is fetched from an address; if not, it is read
    /// from a path on this machine.
    pub remote: bool,
    /// The kind of archive as which the file is unpacked, if it is
    /// unpacked.
    pub unpack: Option<ArchiveKind>,
    /// The name, below the directory of the sources, of the file that is
    /// written or of the directory that the archive is unpacked into.
    pub target: String,
}

/// What is done with a source file as a mathematical value.
pub struct FetchPlanView {
    pub remote: bool,
    pub unpack: Option<ArchiveKind>,
    pub target: Seq<char>,
}

/// What is done with a source file. A file whose name stands for an
/// archive is unpacked, unless the recipe says otherwise, into a directory
/// named as the recipe names the file or else by the name without its
/// suffix. Any other file is kept under its name.
pub open spec fn plan_of(
    is_http: bool,
    file_name: Seq<char>,
    rename: Option<Seq<char>>,
    extract: bool,
) -> FetchPlanView {
    match archive_kind_of(file_name) {
        Some((kind, stem)) if extract => FetchPlanView {
            remote: is_http,
            unpack: Some(kind),
            target: match rename {
                Some(r) => r,
                None => stem,
            },
        },
        _ => FetchPlanView { remote: is_http, unpack: None, target: file_name },
    }
}

impl FetchPlan {
    /// The plan as a mathematical value.
    pub open spec fn view(&self) -> FetchPlanView {
        FetchPlanView { remote: self.remote, unpack: self.unpack, target: self.target@ }
    }

    /// Whether what is fetched goes to a temporary file first: so it is
    /// with an archive that is fetched from an address.
    pub fn through_temporary_file(&self) -> (r: bool)
        ensures
            r == (self.remote && self.unpack is Some),
    {
        self.remote && self.unpack.is_some()
    }
}

/// Plans what is done with a source file.
pub fn plan_fetch(file: &SourceFile) -> (r: FetchPlan)
    ensures
        r@ == plan_of(file@.is_http, file@.file_name, file@.rename, file@.extract),
{
    let remote = file.location().is_http();
    let name = file.file_name();
    match ArchiveKind::from_file_name(name) {
        Some((kind, stem)) => {
            if file.extract() {
                let target = match file.rename() {
                    Some(r) => copy_str(r),
                    None => stem,
                };
                FetchPlan { remote, unpack: Some(kind), target }
            } else {
                FetchPlan { remote, unpack: None, target: copy_str(name) }
            }
        },
        None => FetchPlan { remote, unpack: None, target: copy_str(name) },
    }
}

/// The text that says which file could not be fetched.
pub open spec fn fetch_failure_of(file_name: Seq<char>) -> Seq<char> {
    "failed to fetch '"@ + file_name + "'"@
}

/// The text that says which file could not be fetched.
pub fn fetch_failure(file_name: &str) -> (r: String)
    ensures
        r@ == fetch_failure_of(file_name@),
{
    let mut out = chars_of("failed to fetch '");
    let name = chars_of(file_name);
    append_chars(&mut out, &name);
    let tail = chars_of("'");
    append_chars(&mut out, &tail);
    string_of(&out)
}

/// A member of a `deb` archive that is an archive itself: the name of the
/// member, and the directory that it is unpacked into.
pub struct DebMember {
    pub member: String,
    pub directory: String,
}

/// The members of a `deb` archive that are unpacked in the second phase,
/// in their order, after the outer archive was unpacked in the first.
pub fn deb_members() -> (r: Vec<DebMember>)
    ensures
        r@.len() == 2,
        r@[0].member@ == "control.tar.xz"@,
        r@[0].directory@ == "control"@,
        r@[1].member@ == "data.tar.xz"@,
        r@[1].directory@ == "data"@,
{
    let mut r: Vec<DebMember> = Vec::new();
    r.push(
        DebMember {
            member: copy_str("control.tar.xz"),
            directory: copy_str("control"),
        },
    );
    r.push(
        DebMember {
            member: copy_str("data.tar.xz"),
            directory: copy_str("data"),
        },
    );
    r
}

/// The number of files that are fetched at a time.
pub const PARALLEL: usize = 5;

/// What the fetching does next.
#[derive(Clone, Copy, Debug, PartialEq, Eq, Structural)]
pub enum Admission {
    /// The file at this place in the list is started.
    Start(usize),
    /// Nothing is started; files are still being fetched.
    Wait,
    /// Every file is fetched.
    Done,
    /// A file failed: nothing more is started and the fetching ends with
    /// the failure.
    Abort,
}

/// The state of a fetching of `total` files, of which at most `window`
/// are fetched at a time.
#[derive(Clone, Copy, Debug)]
pub struct FetchWindow {
    total: usize,
    window: usize,
    started: usize,
    finished: usize,
    failed: bool,
}

/// The state of a fetching as a mathematical value.
pub struct FetchWindowView {
    pub total: nat,
    pub window: nat,
    pub started: nat,
    pub finished: nat,
    pub failed: bool,
}

/// The number of files that are being fetched.
pub open spec fn in_flight(w: FetchWindowView) -> int {
    w.started - w.finished
}

/// What holds in every state of a fetching: no more files are finished
/// than started, no more started than there are, and no more are being
/// fetched than the window admits.
pub open spec fn valid_window(w: FetchWindowView) -> bool {
    &&& w.finished <= w.started <= w.total
    &&& in_flight(w) <= w.window
}

/// The state in which the first files are started: as many as the window
/// admits, or all if there are fewer.
pub open spec fn window_at_start(total: nat, window: nat) -> FetchWindowView {
    FetchWindowView {
        total,
        window,
        started: if total < window {
            total
        } else {
            window
        },
        finished: 0,
        failed: false,
    }
}

/// The state after a file was fetched, or failed: after a success the
/// next file of the list is started, if there is one, and after a failure
/// nothing is started any more.
pub open spec fn window_after(w: FetchWindowView, ok: bool) -> FetchWindowView {
    FetchWindowView {
        total: w.total,
        window: w.window,
        started: if ok && w.started < w.total {
            w.started + 1
        } else {
            w.started
        },
        finished: w.finished + 1,
        failed: !ok,
    }
}

/// What the fetching does when a file was fetched, or failed.
pub open spec fn admission_after(w: FetchWindowView, ok: bool) -> Admission {
    if !ok {
        Admission::Abort
    } else if w.started < w.total {
        Admission::Start(w.started as usize)
    } else if in_flight(w) > 1 {
        Admission::Wait
    } else {
        Admission::Done
    }
}

impl View for FetchWindow {
    type V = FetchWindowView;

    closed spec fn view(&self) -> FetchWindowView {
        FetchWindowView {
            total: self.total as nat,
            window: self.window as nat,
            started: self.started as nat,
            finished: self.finished as nat,
            failed: self.failed,
        }
    }
}

impl FetchWindow {
    #[verifier::type_invariant]
    spec fn well_formed(&self) -> bool {
        valid_window(self@)
    }

    /// The state in which the first files are started. They are the files
    /// at the places below `started` in the list.
    pub fn new(total: usize, window: usize) -> (r: FetchWindow)
        ensures
            r@ == window_at_start(total as nat, window as nat),
            valid_window(r@),
    {
        let started = if total < window {
            total
        } else {
            window
        };
        FetchWindow { total, window, started, finished: 0, failed: false }
    }

    /// The number of files that were started so far.
    pub fn started(&self) -> (r: usize)
        ensures
            r == self@.started,
            valid_window(self@),
    {
        proof {
            use_type_invariant(self);
        }
        self.started
    }

    /// The number of files that are being fetched.
    pub fn in_flight(&self) -> (r: usize)
        ensures
            r == in_flight(self@),
            r <= self@.window,
            valid_window(self@),
    {
        proof {
            use_type_invariant(self);
        }
        self.started - self.finished
    }

    /// Takes note that a file was fetched, or that it failed, and says
    /// what is done next.
    pub fn complete(self, ok: bool) -> (r: (FetchWindow, Admission))
        requires
            in_flight(self@) > 0,
            !self@.failed,
        ensures
            r.0@ == window_after(self@, ok),
            r.1 == admission_after(self@, ok),
            valid_window(r.0@),
    {
        proof {
            use_type_invariant(&self);
        }
        let finished = self.finished + 1;
        if !ok {
            (
                FetchWindow {
                    total: self.total,
                    window: self.window,
                    started: self.started,
                    finished,
                    failed: true,
                },
                Admission::Abort,
            )
        } else if self.started < self.total {
            (
                FetchWindow {
                    total: self.total,
                    window: self.window,
                    started: self.started + 1,
                    finished,
                    failed: false,
                },
                Admission::Start(self.started),
            )
        } else {
            let next = FetchWindow {
                total: self.total,
                window: self.window,
                started: self.started,
                finished,
                failed: false,
            };
            if self.started - finished > 0 {
                (next, Admission::Wait)
            } else {
                (next, Admission::Done)
            }
        }
    }

    /// Takes note of the end of a file, if one is being fetched and none
    /// has failed; otherwise there is nothing to take note of.
    pub fn complete_checked(self, ok: bool) -> (r: Option<(FetchWindow, Admission)>)
        ensures
            match r {
                Some((w, a)) => {
                    &&& in_flight(self@) > 0
                    &&& !self@.failed
                    &&& w@ == window_after(self@, ok)
                    &&& a == admission_after(self@, ok)
                    &&& valid_window(w@)
                },
                None => in_flight(self@) <= 0 || self@.failed,
            },
    {
        proof {
            use_type_invariant(&self);
        }
        if self.started - self.finished > 0 && !self.failed {
            Some(self.complete(ok))
        } else {
            None
        }
    }
}

/// The number of files being fetched never passes the window, whatever
/// the files do: that holds at the start, and where it holds before the
/// end of a file it holds after it. The number never grows at the end of
/// a file.
pub proof fn law_window_bound(total: nat, window: nat, w: FetchWindowView, ok: bool)
    requires
        valid_window(w),
        in_flight(w) > 0,
    ensures
        valid_window(window_at_start(total, window)),
        in_flight(window_at_start(total, window)) <= window,
        valid_window(window_after(w, ok)),
        0 <= in_flight(window_after(w, ok)) <= in_flight(w) <= w.window,
{
}

/// Whether the window is as full as it can be: it is full, or every
/// file was started.
pub open spec fn window_filled(w: FetchWindowView) -> bool {
    w.started == w.total || in_flight(w) == w.window
}

/// While no file fails the window stays as full as it can be, and the
/// fetching is done exactly when every file was fetched: until then a
/// file is being fetched.
pub proof fn law_window_done(total: nat, window: nat, w: FetchWindowView)
    requires
        valid_window(w),
        window_filled(w),
        in_flight(w) > 0,
    ensures
        window_filled(window_at_start(total, window)),
        window_filled(window_after(w, true)),
        admission_after(w, true) is Done <==> window_after(w, true).finished == w.total,
        !(admission_after(w, true) is Done) ==> in_flight(window_after(w, true)) > 0,
{
}

} // verus!
