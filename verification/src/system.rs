use vstd::prelude::*;

verus! {

/// The views of the system page.
#[derive(Clone, Copy, Debug, PartialEq, Eq, Structural)]
pub enum SystemView {
    HostInformation,
    ProgramDiskUsage,
    Environment,
}

impl SystemView {
    /// The views, in the order of their tabs.
    pub fn all() -> (r: [SystemView; 3])
        ensures
            r@ == seq![
                SystemView::HostInformation,
                SystemView::ProgramDiskUsage,
                SystemView::Environment,
            ],
    {
        [SystemView::HostInformation, SystemView::ProgramDiskUsage, SystemView::Environment]
    }

    /// The translation key of the view's title.
    pub fn title_key(self) -> (r: &'static str)
        ensures
            r@ == (match self {
                SystemView::HostInformation => "system-view-host-information"@,
                SystemView::ProgramDiskUsage => "system-view-program-disk-usage"@,
                SystemView::Environment => "system-view-environment"@,
            }),
    {
        match self {
            SystemView::HostInformation => "system-view-host-information",
            SystemView::ProgramDiskUsage => "system-view-program-disk-usage",
            SystemView::Environment => "system-view-environment",
        }
    }

    /// The id of the view's tab.
    pub fn tab_id(self) -> (r: &'static str)
        ensures
            r@ == (match self {
                SystemView::HostInformation => "host-information"@,
                SystemView::ProgramDiskUsage => "program-disk-usage"@,
                SystemView::Environment => "environment"@,
            }),
    {
        match self {
            SystemView::HostInformation => "host-information",
            SystemView::ProgramDiskUsage => "program-disk-usage",
            SystemView::Environment => "environment",
        }
    }
}

/// The directories of the data directory whose disk usage the page shows.
#[derive(Clone, Copy, Debug, PartialEq, Eq, Structural)]
pub enum DirKind {
    Tmp,
    Workspace,
    Sessions,
    Archives,
    Logs,
    Skills,
    SkillsRegistry,
    Models,
}

/// The order in which the directories are shown.
pub open spec fn disk_usage_dirs() -> Seq<DirKind> {
    seq![
        DirKind::Tmp,
        DirKind::Workspace,
        DirKind::Sessions,
        DirKind::Archives,
        DirKind::Logs,
        DirKind::Skills,
        DirKind::SkillsRegistry,
        DirKind::Models,
    ]
}

/// The slot of a directory in the page's state.
pub open spec fn dir_slot(kind: DirKind) -> int {
    match kind {
        DirKind::Tmp => 0,
        DirKind::Workspace => 1,
        DirKind::Sessions => 2,
        DirKind::Archives => 3,
        DirKind::Logs => 4,
        DirKind::Skills => 5,
        DirKind::SkillsRegistry => 6,
        DirKind::Models => 7,
    }
}

impl DirKind {
    /// The directory's title.
    pub fn title(self) -> (r: &'static str)
        ensures
            r@ == (match self {
                DirKind::Tmp => "Temporary"@,
                DirKind::Workspace => "Workspace"@,
                DirKind::Sessions => "Sessions"@,
                DirKind::Archives => "Archives"@,
                DirKind::Logs => "Logs"@,
                DirKind::Skills => "Skills"@,
                DirKind::SkillsRegistry => "Skills Registry"@,
                DirKind::Models => "Models"@,
            }),
    {
        match self {
            DirKind::Tmp => "Temporary",
            DirKind::Workspace => "Workspace",
            DirKind::Sessions => "Sessions",
            DirKind::Archives => "Archives",
            DirKind::Logs => "Logs",
            DirKind::Skills => "Skills",
            DirKind::SkillsRegistry => "Skills Registry",
            DirKind::Models => "Models",
        }
    }

    /// The translation key of the directory's title.
    pub fn title_key(self) -> (r: &'static str)
        ensures
            r@ == (match self {
                DirKind::Tmp => "system-dir-tmp"@,
                DirKind::Workspace => "system-dir-workspace"@,
                DirKind::Sessions => "system-dir-sessions"@,
                DirKind::Archives => "system-dir-archives"@,
                DirKind::Logs => "system-dir-logs"@,
                DirKind::Skills => "system-dir-skills"@,
                DirKind::SkillsRegistry => "system-dir-skills-registry"@,
                DirKind::Models => "system-dir-models"@,
            }),
    {
        match self {
            DirKind::Tmp => "system-dir-tmp",
            DirKind::Workspace => "system-dir-workspace",
            DirKind::Sessions => "system-dir-sessions",
            DirKind::Archives => "system-dir-archives",
            DirKind::Logs => "system-dir-logs",
            DirKind::Skills => "system-dir-skills",
            DirKind::SkillsRegistry => "system-dir-skills-registry",
            DirKind::Models => "system-dir-models",
        }
    }

    /// The directory's name under the data directory.
    pub fn dir_name(self) -> (r: &'static str)
        ensures
            r@ == (match self {
                DirKind::Tmp => "tmp"@,
                DirKind::Workspace => "workspace"@,
                DirKind::Sessions => "sessions"@,
                DirKind::Archives => "archives"@,
                DirKind::Logs => "logs"@,
                DirKind::Skills => "skills"@,
                DirKind::SkillsRegistry => "skills-registry"@,
                DirKind::Models => "models"@,
            }),
    {
        match self {
            DirKind::Tmp => "tmp",
            DirKind::Workspace => "workspace",
            DirKind::Sessions => "sessions",
            DirKind::Archives => "archives",
            DirKind::Logs => "logs",
            DirKind::Skills => "skills",
            DirKind::SkillsRegistry => "skills-registry",
            DirKind::Models => "models",
        }
    }
}

/// What the page knows of one directory's disk usage.
#[derive(Debug)]
pub struct DirState {
    pub usage_bytes: Option<u64>,
    pub usage_error: Option<String>,
    /// Whether a usage computation is running.
    pub usage_pending: bool,
    /// Whether a clearing of the directory is running.
    pub clear_pending: bool,
}

impl DirState {
    /// Nothing known, nothing running.
    pub fn new() -> (d: Self)
        ensures
            d.usage_bytes is None,
            d.usage_error is None,
            !d.usage_pending,
            !d.clear_pending,
    {
        DirState { usage_bytes: None, usage_error: None, usage_pending: false, clear_pending: false }
    }

    /// Whether work on the directory is running.
    pub fn is_loading(&self) -> (b: bool)
        ensures
            b == (self.usage_pending || self.clear_pending),
    {
        self.usage_pending || self.clear_pending
    }

    /// Whether the first usage computation of the page still has to start here.
    pub fn needs_initial_usage(&self) -> (b: bool)
        ensures
            b == (self.usage_bytes is None && !self.usage_pending),
    {
        self.usage_bytes.is_none() && !self.usage_pending
    }

    /// Starts a usage computation: the last error is forgotten.
    pub fn begin_usage(&mut self)
        ensures
            final(self).usage_pending,
            final(self).usage_error is None,
            final(self).usage_bytes == old(self).usage_bytes,
            final(self).clear_pending == old(self).clear_pending,
    {
        self.usage_pending = true;
        self.usage_error = None;
    }

    /// Starts clearing the directory.
    pub fn begin_clear(&mut self)
        ensures
            final(self).clear_pending,
            final(self).usage_pending == old(self).usage_pending,
            final(self).usage_bytes == old(self).usage_bytes,
            final(self).usage_error == old(self).usage_error,
    {
        self.clear_pending = true;
    }

    /// Takes in the result of the running usage computation: the size, or the error, which
    /// is also reported.
    pub fn finish_usage(&mut self, result: Result<u64, String>) -> (n: Option<DirNotice>)
        ensures
            !old(self).usage_pending ==> n is None && *final(self) == *old(self),
            old(self).usage_pending ==> !final(self).usage_pending && final(self).clear_pending
                == old(self).clear_pending && match result {
                Ok(b) => n is None && final(self).usage_bytes == Some(b) && final(self).usage_error
                    is None,
                Err(e) => {
                    &&& final(self).usage_bytes is None
                    &&& final(self).usage_error == Some(e)
                    &&& n matches Some(d) && !d.success && d.key@
                        == "system-notify-failed-collect-usage"@ && d.error == Some(e)
                },
            },
    {
        if !self.usage_pending {
            return None;
        }
        self.usage_pending = false;
        match result {
            Ok(b) => {
                self.usage_bytes = Some(b);
                self.usage_error = None;
                None
            },
            Err(e) => {
                self.usage_bytes = None;
                self.usage_error = Some(e.clone());
                Some(DirNotice { success: false, key: "system-notify-failed-collect-usage", error: Some(e) })
            },
        }
    }

    /// Takes in the result of the running clearing: a cleared directory holds nothing and
    /// its usage is computed again (`refresh`).
    pub fn finish_clear(&mut self, result: Result<(), String>) -> (r: ClearOutcome)
        ensures
            !old(self).clear_pending ==> r.notice is None && !r.refresh && *final(self) == *old(self),
            old(self).clear_pending ==> !final(self).clear_pending && match result {
                Ok(_) => {
                    &&& r.refresh
                    &&& final(self).usage_bytes == Some(0u64)
                    &&& final(self).usage_pending
                    &&& final(self).usage_error is None
                    &&& r.notice matches Some(d) && d.success && d.key@ == "system-notify-dir-cleared"@
                        && d.error is None
                },
                Err(e) => {
                    &&& !r.refresh
                    &&& final(self).usage_bytes == old(self).usage_bytes
                    &&& final(self).usage_pending == old(self).usage_pending
                    &&& final(self).usage_error == old(self).usage_error
                    &&& r.notice matches Some(d) && !d.success && d.key@ == "system-notify-failed-clear-dir"@
                        && d.error == Some(e)
                },
            },
    {
        if !self.clear_pending {
            return ClearOutcome { notice: None, refresh: false };
        }
        self.clear_pending = false;
        match result {
            Ok(()) => {
                self.usage_bytes = Some(0);
                self.begin_usage();
                ClearOutcome {
                    notice: Some(DirNotice { success: true, key: "system-notify-dir-cleared", error: None }),
                    refresh: true,
                }
            },
            Err(e) => ClearOutcome {
                notice: Some(DirNotice { success: false, key: "system-notify-failed-clear-dir", error: Some(e) }),
                refresh: false,
            },
        }
    }
}

/// A notice about a directory: whether it tells of a success, the key of its message,
/// and the error the message names, if any.
#[derive(Debug)]
pub struct DirNotice {
    pub success: bool,
    pub key: &'static str,
    pub error: Option<String>,
}

/// What the page does once a clearing ended: show `notice`, and compute the usage again
/// when `refresh`.
#[derive(Debug)]
pub struct ClearOutcome {
    pub notice: Option<DirNotice>,
    pub refresh: bool,
}

/// The environment check of the system page, run once; `R` is its report.
#[derive(Debug)]
pub struct EnvCheckLoader<R> {
    pub report: Option<R>,
    /// Whether a check has answered.
    pub loaded: bool,
    /// Whether a check runs.
    pub running: bool,
}

impl<R> EnvCheckLoader<R> {
    /// Nothing checked, nothing running.
    pub fn new() -> (l: Self)
        ensures
            l.report is None && !l.loaded && !l.running,
    {
        EnvCheckLoader { report: None, loaded: false, running: false }
    }

    /// Takes in the answer of the running check, if one came, and says whether a check
    /// has to start: only when none answered yet and none runs. A failed check counts as
    /// answered, and its report stays unknown.
    pub fn load_env_check(&mut self, answer: Option<Result<R, String>>) -> (send: bool)
        ensures
            ({
                let answered = old(self).running && answer is Some;
                let loaded = old(self).loaded || answered;
                let running = old(self).running && !answered;
                &&& final(self).loaded == loaded
                &&& send == (!loaded && !running)
                &&& final(self).running == (running || send)
            }),
            old(self).running ==> (answer matches Some(Ok(r)) ==> final(self).report == Some(r)),
            !(old(self).running && answer matches Some(Ok(_))) ==> final(self).report == old(self).report,
    {
        if self.running {
            if let Some(result) = answer {
                self.running = false;
                self.loaded = true;
                if let Ok(report) = result {
                    self.report = Some(report);
                }
            }
        }
        if self.loaded || self.running {
            return false;
        }
        self.running = true;
        true
    }
}

/// A disk, as far as choosing the disk of a path needs it.
#[derive(Clone, Copy, Debug)]
pub struct DiskCandidate {
    /// Whether the path lies under the disk's mount point.
    pub holds_path: bool,
    /// The length of the mount point.
    pub mount_len: usize,
}

/// Whether disk `i` is the disk of the path: it holds the path, no disk that holds it has
/// a longer mount point, and none after it has one as long.
pub open spec fn best_disk(disks: Seq<DiskCandidate>, i: int) -> bool {
    &&& 0 <= i < disks.len()
    &&& disks[i].holds_path
    &&& forall|j: int| 0 <= j < disks.len() && #[trigger] disks[j].holds_path ==> disks[j].mount_len <= disks[i].mount_len
    &&& forall|j: int| i < j < disks.len() && #[trigger] disks[j].holds_path ==> disks[j].mount_len < disks[i].mount_len
}

/// The disk of a path: the one with the longest mount point among those holding the
/// path, the last such one when several are as long; none when no disk holds it.
pub fn pick_disk(disks: &Vec<DiskCandidate>) -> (r: Option<usize>)
    ensures
        r is None <==> forall|j: int| 0 <= j < disks@.len() ==> !(#[trigger] disks@[j]).holds_path,
        r matches Some(i) ==> best_disk(disks@, i as int),
{
    let mut best: Option<usize> = None;
    let mut k: usize = 0;
    while k < disks.len()
        invariant
            k <= disks@.len(),
            best is None <==> forall|j: int| 0 <= j < k ==> !(#[trigger] disks@[j]).holds_path,
            best matches Some(i) ==> i < k && disks@[i as int].holds_path && (forall|j: int|
                0 <= j < k && #[trigger] disks@[j].holds_path ==> disks@[j].mount_len <= disks@[i as int].mount_len)
                && (forall|j: int|
                i < j < k && #[trigger] disks@[j].holds_path ==> disks@[j].mount_len < disks@[i as int].mount_len),
        decreases disks@.len() - k,
    {
        if disks[k].holds_path {
            let replace = match best {
                Some(b) => !(disks[b].mount_len > disks[k].mount_len),
                None => true,
            };
            if replace {
                best = Some(k);
            }
        }
        k = k + 1;
    }
    best
}

/// The usage line shown under a directory.
#[derive(Debug, PartialEq, Eq)]
pub enum UsageText {
    Calculating,
    Usage(u64),
    UnavailableError(String),
    Unavailable,
}

/// The usage line of a directory: work in progress first, then a known size, then an error.
pub fn usage_text(loading: bool, bytes: Option<u64>, error: Option<&str>) -> (r: UsageText)
    ensures
        loading ==> r == UsageText::Calculating,
        !loading && bytes is Some ==> r == UsageText::Usage(bytes->0),
        !loading && bytes is None && error is Some ==> r is UnavailableError && r->UnavailableError_0@
            == error->0@,
        !loading && bytes is None && error is None ==> r == UsageText::Unavailable,
{
    if loading {
        UsageText::Calculating
    } else if let Some(b) = bytes {
        UsageText::Usage(b)
    } else if let Some(err) = error {
        UsageText::UnavailableError(err.to_owned())
    } else {
        UsageText::Unavailable
    }
}

/// The text of an optional host value, `N/A` when unknown.
pub fn host_optional_text(value: Option<String>) -> (r: String)
    ensures
        r@ == (match value {
            Some(v) => v@,
            None => "N/A"@,
        }),
{
    match value {
        Some(v) => v,
        None => "N/A".to_owned(),
    }
}

/// The text of an optional host value, `na` when unknown.
pub fn host_optional_text_with_na(value: Option<String>, na: &str) -> (r: String)
    ensures
        r@ == (match value {
            Some(v) => v@,
            None => na@,
        }),
{
    match value {
        Some(v) => v,
        None => na.to_owned(),
    }
}

/// The disk usage state of the system page.
#[derive(Debug)]
pub struct SystemPanel {
    pub dirs: [DirState; 8],
    pub clear_confirm: Option<DirKind>,
    pub current_view: SystemView,
}

/// The chart entries of the directories of `kinds`: those with a known, non-zero usage,
/// in the order of `kinds`.
pub open spec fn chart_entries(kinds: Seq<DirKind>, dirs: Seq<DirState>) -> Seq<(DirKind, u64)>
    decreases kinds.len(),
{
    if kinds.len() == 0 {
        Seq::<(DirKind, u64)>::empty()
    } else {
        let rest = chart_entries(kinds.drop_last(), dirs);
        let k = kinds.last();
        match dirs[dir_slot(k)].usage_bytes {
            Some(b) => if b > 0 {
                rest.push((k, b))
            } else {
                rest
            },
            None => rest,
        }
    }
}

/// The sum of the known usages of the directories of `kinds`, saturating at `u64::MAX`.
pub open spec fn chart_total(kinds: Seq<DirKind>, dirs: Seq<DirState>) -> nat
    decreases kinds.len(),
{
    if kinds.len() == 0 {
        0
    } else {
        let rest = chart_total(kinds.drop_last(), dirs);
        let b: nat = match dirs[dir_slot(kinds.last())].usage_bytes {
            Some(b) => b as nat,
            None => 0,
        };
        if rest + b > u64::MAX {
            u64::MAX as nat
        } else {
            rest + b
        }
    }
}

impl SystemPanel {
    /// The page with nothing measured, on the host information view.
    pub fn new() -> (p: Self)
        ensures
            forall|i: int| 0 <= i < 8 ==> (#[trigger] p.dirs@[i]).usage_bytes is None && !p.dirs@[i].usage_pending
                && !p.dirs@[i].clear_pending && p.dirs@[i].usage_error is None,
            p.clear_confirm is None,
            p.current_view == SystemView::HostInformation,
    {
        SystemPanel {
            dirs: [
                DirState::new(),
                DirState::new(),
                DirState::new(),
                DirState::new(),
                DirState::new(),
                DirState::new(),
                DirState::new(),
                DirState::new(),
            ],
            clear_confirm: None,
            current_view: SystemView::HostInformation,
        }
    }

    /// The slot of a directory in `dirs`.
    pub fn dir_index(kind: DirKind) -> (i: usize)
        ensures
            i == dir_slot(kind),
            i < 8,
    {
        match kind {
            DirKind::Tmp => 0,
            DirKind::Workspace => 1,
            DirKind::Sessions => 2,
            DirKind::Archives => 3,
            DirKind::Logs => 4,
            DirKind::Skills => 5,
            DirKind::SkillsRegistry => 6,
            DirKind::Models => 7,
        }
    }

    /// The state of one directory.
    pub fn get_dir(&self, kind: DirKind) -> (d: &DirState)
        ensures
            *d == self.dirs@[dir_slot(kind)],
    {
        &self.dirs[SystemPanel::dir_index(kind)]
    }

    /// Whether work on some directory is running.
    pub fn any_loading(&self) -> (b: bool)
        ensures
            b == exists|i: int|
                0 <= i < 8 && ((#[trigger] self.dirs@[i]).usage_pending || self.dirs@[i].clear_pending),
    {
        let mut i: usize = 0;
        while i < 8
            invariant
                i <= 8,
                forall|j: int|
                    0 <= j < i ==> !(#[trigger] self.dirs@[j]).usage_pending && !self.dirs@[j].clear_pending,
            decreases 8 - i,
        {
            if self.dirs[i].is_loading() {
                return true;
            }
            i = i + 1;
        }
        false
    }

    /// The directories the usage chart shows, in display order, with their usage: only
    /// those with a known usage above zero.
    pub fn disk_usage_chart_entries(&self) -> (r: Vec<(DirKind, u64)>)
        ensures
            r@ == chart_entries(disk_usage_dirs(), self.dirs@),
    {
        let kinds: [DirKind; 8] = [
            DirKind::Tmp,
            DirKind::Workspace,
            DirKind::Sessions,
            DirKind::Archives,
            DirKind::Logs,
            DirKind::Skills,
            DirKind::SkillsRegistry,
            DirKind::Models,
        ];
        assert(kinds@ == disk_usage_dirs());
        let mut out: Vec<(DirKind, u64)> = Vec::new();
        let mut i: usize = 0;
        assert(kinds@.take(0) =~= Seq::<DirKind>::empty());
        while i < 8
            invariant
                i <= 8,
                kinds@ == disk_usage_dirs(),
                out@ == chart_entries(kinds@.take(i as int), self.dirs@),
            decreases 8 - i,
        {
            let k = kinds[i];
            assert(kinds@.take(i + 1).drop_last() =~= kinds@.take(i as int));
            assert(kinds@.take(i + 1).last() == k);
            let usage = self.get_dir(k).usage_bytes;
            match usage {
                Some(b) => {
                    if b > 0 {
                        out.push((k, b));
                    }
                },
                None => {},
            }
            i = i + 1;
        }
        assert(kinds@.take(8) =~= kinds@);
        out
    }

    /// The total of the known directory usages, saturating at `u64::MAX`.
    pub fn disk_usage_chart_total_bytes(&self) -> (total: u64)
        ensures
            total as nat == chart_total(disk_usage_dirs(), self.dirs@),
    {
        let kinds: [DirKind; 8] = [
            DirKind::Tmp,
            DirKind::Workspace,
            DirKind::Sessions,
            DirKind::Archives,
            DirKind::Logs,
            DirKind::Skills,
            DirKind::SkillsRegistry,
            DirKind::Models,
        ];
        assert(kinds@ == disk_usage_dirs());
        let mut total: u64 = 0;
        let mut i: usize = 0;
        assert(kinds@.take(0) =~= Seq::<DirKind>::empty());
        while i < 8
            invariant
                i <= 8,
                kinds@ == disk_usage_dirs(),
                total as nat == chart_total(kinds@.take(i as int), self.dirs@),
            decreases 8 - i,
        {
            let k = kinds[i];
            assert(kinds@.take(i + 1).drop_last() =~= kinds@.take(i as int));
            assert(kinds@.take(i + 1).last() == k);
            match self.get_dir(k).usage_bytes {
                Some(b) => {
                    if b > 0 {
                        total = total.saturating_add(b);
                    }
                },
                None => {},
            }
            i = i + 1;
        }
        assert(kinds@.take(8) =~= kinds@);
        total
    }
}

} // verus!
