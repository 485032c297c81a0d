//! The supervisor: the services that run beside the workload, how the
//! processes of the machine are found and stopped, and what the
//! supervisor does when the workload ends, a power-off is asked for, or
//! the grace period runs out.

use vstd::prelude::*;
use crate::login::{Find, PasswdEntry};
use crate::text::{
    from_chars, parse_u32, parse_u32_spec, rows, same_chars, split_whitespace, to_chars, views,
    words_spec,
};
use crate::vmspec::{NameValues, VmSpec};

verus! {

/// The signal that the power button driver of the kernel sends to the
/// first process.
pub const SIGPOWEROFF: i32 = 38;

/// The flag of a process that is a thread of the kernel.
pub const PF_KTHREAD: u32 = 0x00200000;

/// The seconds between the end of a service and its next start.
pub const RESTART_DELAY_SECS: u64 = 5;

/// Why the supervisor could not go on.
#[derive(Clone, Copy, Debug, PartialEq, Eq, Structural)]
pub enum ServiceError {
    /// The status of a process has another number of fields than 52.
    WrongFieldCount,
    /// The flags of a process are not a number.
    InvalidFlags,
    /// The status of a process could not be read: the error number.
    StatUnreadable(i32),
    /// A process could not be signalled: the error number.
    SignalFailed(i32),
    /// The workload has no user or no group to run as.
    NoRunAs,
    /// The user of a service is not in the user database.
    UserNotFound,
    /// No user is set up to log in.
    LoginUserNotFound,
    /// A service that is not optional could not be set up.
    InitFailed,
}

/// What a service does once before it is started.
#[derive(Clone, Copy, Debug, PartialEq, Eq, Structural)]
pub enum InitHook {
    Chrony,
    Ssh,
}

/// What all the processes under supervision have in common.
#[derive(Debug, PartialEq, Eq)]
pub struct ServiceBase {
    pub args: Vec<String>,
    pub env: NameValues,
    pub gid: u32,
    pub init: Option<InitHook>,
    pub optional: bool,
    pub pid: Option<u32>,
    pub shutdown: bool,
    pub uid: u32,
    pub working_dir: String,
}

impl Default for ServiceBase {
    fn default() -> (r: Self)
        ensures
            r.args@.len() == 0,
            r.env@.len() == 0,
            r.gid == 0,
            r.uid == 0,
            r.init is None,
            !r.optional,
            r.pid is None,
            !r.shutdown,
            r.working_dir@ == seq!['/'],
    {
        let mut root: Vec<char> = Vec::new();
        root.push('/');
        ServiceBase {
            args: Vec::new(),
            env: Vec::new(),
            gid: 0,
            init: None,
            optional: false,
            pid: None,
            shutdown: false,
            uid: 0,
            working_dir: from_chars(root.as_slice()),
        }
    }
}

impl ServiceBase {
    /// The program and the arguments of the service; nothing where
    /// the service names no program.
    pub fn command(&self) -> (r: Option<(String, Vec<String>)>)
        ensures
            match r {
                Some((program, arguments)) => self.args@.len() > 0 && program == self.args@[0]
                    && arguments@ == self.args@.skip(1),
                None => self.args@.len() == 0,
            },
    {
        if self.args.len() == 0 {
            return None;
        }
        let mut arguments: Vec<String> = Vec::new();
        let mut i: usize = 1;
        while i < self.args.len()
            invariant
                1 <= i <= self.args.len(),
                arguments@ == self.args@.subrange(1, i as int),
            decreases self.args.len() - i,
        {
            arguments.push(self.args[i].clone());
            i += 1;
        }
        assert(self.args@.subrange(1, self.args@.len() as int) == self.args@.skip(1));
        Some((self.args[0].clone(), arguments))
    }

    /// Asks the service not to start again.
    pub fn stop(&mut self)
        ensures
            final(self).shutdown,
            final(self).args == old(self).args,
            final(self).env == old(self).env,
            final(self).gid == old(self).gid,
            final(self).init == old(self).init,
            final(self).optional == old(self).optional,
            final(self).pid == old(self).pid,
            final(self).uid == old(self).uid,
            final(self).working_dir == old(self).working_dir,
    {
        self.shutdown = true;
    }
}

/// The workload.
#[derive(Debug, PartialEq, Eq)]
pub struct Main(pub ServiceBase);

impl Main {
    /// The workload that runs `args` in `working_dir` with the
    /// environment `env` as the group `gid` and the user `uid`.
    pub fn new(args: Vec<String>, working_dir: String, env: NameValues, gid: u32, uid: u32) -> (r:
        Self)
        ensures
            r.0.args == args,
            r.0.working_dir == working_dir,
            r.0.env == env,
            r.0.gid == gid,
            r.0.uid == uid,
            r.0.init is None,
            !r.0.optional,
            r.0.pid is None,
            !r.0.shutdown,
    {
        Main(
            ServiceBase {
                args,
                env,
                gid,
                init: None,
                optional: false,
                pid: None,
                shutdown: false,
                uid,
                working_dir,
            },
        )
    }

    /// The name of the workload in the log.
    pub fn name(&self) -> (r: &'static str)
        ensures
            r@ == "main"@,
    {
        "main"
    }
}

/// Whether `base` is the clock service before it runs: it runs in the
/// foreground as the first user, is set up by its hook, and has to
/// start.
pub open spec fn is_chrony(base: ServiceBase) -> bool {
    &&& views(base.args@) == seq!["/.easyto/sbin/chronyd"@, "-d"@]
    &&& base.init == Some(InitHook::Chrony)
    &&& !base.optional
    &&& base.env@.len() == 0
    &&& base.gid == 0
    &&& base.uid == 0
    &&& base.pid is None
    &&& !base.shutdown
    &&& base.working_dir@ == seq!['/']
}

/// Whether `base` is the login service before it runs: it runs in the
/// foreground as the first user, logs to its standard error, is set up
/// by its hook, and may fail to start.
pub open spec fn is_ssh(base: ServiceBase) -> bool {
    &&& views(base.args@) == seq![
        "/.easyto/sbin/sshd"@,
        "-D"@,
        "-f"@,
        "/.easyto/etc/ssh/sshd_config"@,
        "-e"@,
    ]
    &&& base.init == Some(InitHook::Ssh)
    &&& base.optional
    &&& base.env@.len() == 0
    &&& base.gid == 0
    &&& base.uid == 0
    &&& base.pid is None
    &&& !base.shutdown
    &&& base.working_dir@ == seq!['/']
}

/// Whether `base` is the service of the kind `kind` before it runs.
pub open spec fn is_service(base: ServiceBase, kind: ServiceKind) -> bool {
    match kind {
        ServiceKind::Chrony => is_chrony(base),
        ServiceKind::Ssh => is_ssh(base),
    }
}

/// The service that keeps the clock.
#[derive(Debug, PartialEq, Eq)]
pub struct Chrony(pub ServiceBase);

impl Chrony {
    /// The clock service: it runs in the foreground as the first user
    /// and has to start.
    pub fn new() -> (r: Self)
        ensures
            is_chrony(r.0),
    {
        let mut base = ServiceBase::default();
        let mut args: Vec<String> = Vec::new();
        args.push(from_chars(to_chars("/.easyto/sbin/chronyd").as_slice()));
        args.push(from_chars(to_chars("-d").as_slice()));
        assert(views(args@) == seq!["/.easyto/sbin/chronyd"@, "-d"@]);
        base.args = args;
        base.init = Some(InitHook::Chrony);
        Chrony(base)
    }

    /// The name of the service in the log.
    pub fn name(&self) -> (r: &'static str)
        ensures
            r@ == "chrony"@,
    {
        "chrony"
    }
}

/// The service that lets a user log in.
#[derive(Debug, PartialEq, Eq)]
pub struct Ssh(pub ServiceBase);

impl Ssh {
    /// The login service: it runs in the foreground as the first user,
    /// logs to its standard error, and may fail to start.
    pub fn new() -> (r: Self)
        ensures
            is_ssh(r.0),
    {
        let mut base = ServiceBase::default();
        let mut args: Vec<String> = Vec::new();
        args.push(from_chars(to_chars("/.easyto/sbin/sshd").as_slice()));
        args.push(from_chars(to_chars("-D").as_slice()));
        args.push(from_chars(to_chars("-f").as_slice()));
        args.push(from_chars(to_chars("/.easyto/etc/ssh/sshd_config").as_slice()));
        args.push(from_chars(to_chars("-e").as_slice()));
        assert(views(args@) == seq![
            "/.easyto/sbin/sshd"@,
            "-D"@,
            "-f"@,
            "/.easyto/etc/ssh/sshd_config"@,
            "-e"@,
        ]);
        base.args = args;
        base.init = Some(InitHook::Ssh);
        base.optional = true;
        Ssh(base)
    }

    /// The name of the service in the log.
    pub fn name(&self) -> (r: &'static str)
        ensures
            r@ == "ssh"@,
    {
        "ssh"
    }
}

/// The services that the machine knows.
#[derive(Clone, Copy, Debug, PartialEq, Eq, Structural)]
pub enum ServiceKind {
    Chrony,
    Ssh,
}

/// The service that a directory entry of the services enables, if any:
/// the entry has to name a known service that `disabled` does not hold.
pub open spec fn enabled_by(entry: Seq<char>, disabled: Seq<Seq<char>>) -> Option<ServiceKind> {
    if disabled.contains(entry) {
        None
    } else if entry == "chrony"@ {
        Some(ServiceKind::Chrony)
    } else if entry == "ssh"@ {
        Some(ServiceKind::Ssh)
    } else {
        None
    }
}

/// The services that the first `n` entries enable, in their order.
pub open spec fn enabled_upto(entries: Seq<Seq<char>>, disabled: Seq<Seq<char>>, n: nat) -> Seq<
    ServiceKind,
>
    decreases n,
{
    if n == 0 {
        Seq::empty()
    } else {
        let before = enabled_upto(entries, disabled, (n - 1) as nat);
        match enabled_by(entries[n - 1], disabled) {
            Some(kind) => before.push(kind),
            None => before,
        }
    }
}

#[verifier::loop_isolation(false)]
fn holds(list: &Vec<String>, text: &Vec<char>) -> (r: bool)
    ensures
        r == views(list@).contains(text@),
{
    let mut i: usize = 0;
    while i < list.len()
        invariant
            i <= list.len(),
            forall|j: int| 0 <= j < i ==> views(list@)[j] != text@,
        decreases list.len() - i,
    {
        let have = to_chars(list[i].as_str());
        assert(views(list@)[i as int] == have@);
        if same_chars(have.as_slice(), text.as_slice()) {
            return true;
        }
        i += 1;
    }
    false
}

/// Picks the services to run from the entries of the directory of the
/// services, leaving out those that the plan disables.
#[verifier::loop_isolation(false)]
pub fn find_enabled_services(entries: &Vec<String>, disabled_services: &Vec<String>) -> (r: Vec<
    ServiceKind,
>)
    ensures
        r@ == enabled_upto(views(entries@), views(disabled_services@), entries@.len()),
{
    let chrony = to_chars("chrony");
    let ssh = to_chars("ssh");
    let mut services: Vec<ServiceKind> = Vec::new();
    let mut i: usize = 0;
    while i < entries.len()
        invariant
            i <= entries.len(),
            services@ == enabled_upto(views(entries@), views(disabled_services@), i as nat),
        decreases entries.len() - i,
    {
        let name = to_chars(entries[i].as_str());
        assert(views(entries@)[i as int] == name@);
        if holds(disabled_services, &name) {
        } else if same_chars(name.as_slice(), chrony.as_slice()) {
            services.push(ServiceKind::Chrony);
        } else if same_chars(name.as_slice(), ssh.as_slice()) {
            services.push(ServiceKind::Ssh);
        }
        i += 1;
    }
    services
}

/// Whether the status of a process shows a thread of the kernel: its
/// ninth field, the flags of the process, has the flag of such threads
/// set. A status without 52 fields, or whose flags are no number, shows
/// nothing.
pub open spec fn kernel_thread_spec(stat: Seq<char>) -> Option<bool> {
    let fields = words_spec(stat);
    if fields.len() != 52 {
        None
    } else {
        match parse_u32_spec(fields[8], 10) {
            Some(flags) => Some(flags & PF_KTHREAD != 0),
            None => None,
        }
    }
}

/// Tells from the status of a process whether it is a thread of the
/// kernel.
pub fn is_kernel_thread(stat: &str) -> (r: Result<bool, ServiceError>)
    ensures
        match r {
            Ok(kernel) => kernel_thread_spec(stat@) == Some(kernel),
            Err(e) => kernel_thread_spec(stat@) is None && e == if words_spec(stat@).len() != 52 {
                ServiceError::WrongFieldCount
            } else {
                ServiceError::InvalidFlags
            },
        },
{
    let chars = to_chars(stat);
    let fields = split_whitespace(chars.as_slice());
    if fields.len() != 52 {
        return Err(ServiceError::WrongFieldCount);
    }
    assert(rows(fields@)[8] == fields@[8]@);
    match parse_u32(fields[8].as_slice(), 10) {
        Some(flags) => Ok(flags & PF_KTHREAD != 0),
        None => Err(ServiceError::InvalidFlags),
    }
}

/// What the directory of the processes shows of one entry.
#[derive(Debug)]
pub enum ProcStat {
    /// The entry has no status: the process is gone.
    Missing,
    /// The status could not be read: the error number.
    Unreadable(i32),
    /// The text of the status.
    Contents(String),
}

/// An entry of the directory of the processes.
#[derive(Debug)]
pub struct ProcEntry {
    pub name: String,
    pub is_dir: bool,
    pub stat: ProcStat,
}

/// The process that an entry of the directory of the processes stands
/// for: the entry is a directory named by a number other than 1, the
/// number of the first process, however that number is written.
pub open spec fn pid_of(name: Seq<char>, is_dir: bool) -> Option<u32> {
    if !is_dir {
        None
    } else {
        match parse_u32_spec(name, 10) {
            Some(pid) => if pid == 1 {
                None
            } else {
                Some(pid)
            },
            None => None,
        }
    }
}

/// Tells the process that a directory entry stands for.
pub fn pid_of_entry(name: &str, is_dir: bool) -> (r: Option<u32>)
    ensures
        r == pid_of(name@, is_dir),
{
    if !is_dir {
        return None;
    }
    let chars = to_chars(name);
    match parse_u32(chars.as_slice(), 10) {
        Some(pid) => if pid == 1 {
            None
        } else {
            Some(pid)
        },
        None => None,
    }
}

/// The processes to signal among the first `n` entries, or the error
/// that ends the search: every process that still has a status and is
/// no thread of the kernel.
pub open spec fn pids_upto(entries: Seq<ProcEntry>, n: nat) -> Result<Seq<u32>, ServiceError>
    decreases n,
{
    if n == 0 {
        Ok(Seq::empty())
    } else {
        match pids_upto(entries, (n - 1) as nat) {
            Err(e) => Err(e),
            Ok(before) => {
                let entry = entries[n - 1];
                match pid_of(entry.name@, entry.is_dir) {
                    None => Ok(before),
                    Some(pid) => match entry.stat {
                        ProcStat::Missing => Ok(before),
                        ProcStat::Unreadable(e) => Err(ServiceError::StatUnreadable(e)),
                        ProcStat::Contents(text) => match kernel_thread_spec(text@) {
                            Some(true) => Ok(before),
                            Some(false) => Ok(before.push(pid)),
                            None => Err(
                                if words_spec(text@).len() != 52 {
                                    ServiceError::WrongFieldCount
                                } else {
                                    ServiceError::InvalidFlags
                                },
                            ),
                        },
                    },
                }
            },
        }
    }
}

/// Once the search has failed, it has failed.
proof fn lemma_pids_failed(entries: Seq<ProcEntry>, n: nat, m: nat)
    requires
        n <= m,
        pids_upto(entries, n) is Err,
    ensures
        pids_upto(entries, m) == pids_upto(entries, n),
    decreases m,
{
    if n < m {
        lemma_pids_failed(entries, n, (m - 1) as nat);
    }
}

/// Lists the processes of the machine that are to be signalled at
/// shutdown, from the entries of the directory of the processes: all
/// but the first process and the threads of the kernel.
#[verifier::loop_isolation(false)]
pub fn pids(entries: &Vec<ProcEntry>) -> (r: Result<Vec<u32>, ServiceError>)
    ensures
        match r {
            Ok(list) => pids_upto(entries@, entries@.len()) == Ok::<Seq<u32>, ServiceError>(list@),
            Err(e) => pids_upto(entries@, entries@.len()) == Err::<Seq<u32>, ServiceError>(e),
        },
{
    let mut list: Vec<u32> = Vec::new();
    let mut i: usize = 0;
    while i < entries.len()
        invariant
            i <= entries.len(),
            pids_upto(entries@, i as nat) == Ok::<Seq<u32>, ServiceError>(list@),
        decreases entries.len() - i,
    {
        let entry = &entries[i];
        match pid_of_entry(entry.name.as_str(), entry.is_dir) {
            Some(pid) => match &entry.stat {
                ProcStat::Missing => {},
                ProcStat::Unreadable(e) => {
                    proof {
                        lemma_pids_failed(entries@, (i + 1) as nat, entries@.len());
                    }
                    return Err(ServiceError::StatUnreadable(*e));
                },
                ProcStat::Contents(text) => match is_kernel_thread(text.as_str()) {
                    Ok(false) => {
                        list.push(pid);
                    },
                    Ok(true) => {},
                    Err(e) => {
                        proof {
                            lemma_pids_failed(entries@, (i + 1) as nat, entries@.len());
                        }
                        return Err(e);
                    },
                },
            },
            None => {},
        }
        i += 1;
    }
    Ok(list)
}

/// The processes that the services among the first `n` have started.
pub open spec fn tracked_upto(services: Seq<ServiceBase>, n: nat) -> Seq<u32>
    decreases n,
{
    if n == 0 {
        Seq::empty()
    } else {
        let before = tracked_upto(services, (n - 1) as nat);
        match services[n - 1].pid {
            Some(pid) => before.push(pid),
            None => before,
        }
    }
}

/// How a signal reached a process.
#[derive(Clone, Copy, Debug, PartialEq, Eq, Structural)]
pub enum KillOutcome {
    Delivered,
    /// There is no such process any more.
    NoSuchProcess,
    Failed(i32),
}

/// Judges the sending of a signal to one process: a process that has
/// ended already needs none.
pub fn signal(outcome: KillOutcome) -> (r: Result<(), ServiceError>)
    ensures
        r == match outcome {
            KillOutcome::Delivered => Ok::<(), ServiceError>(()),
            KillOutcome::NoSuchProcess => Ok(()),
            KillOutcome::Failed(e) => Err(ServiceError::SignalFailed(e)),
        },
{
    match outcome {
        KillOutcome::Delivered => Ok(()),
        KillOutcome::NoSuchProcess => Ok(()),
        KillOutcome::Failed(e) => Err(ServiceError::SignalFailed(e)),
    }
}

/// What the supervisor does.
#[derive(Clone, Copy, Debug, PartialEq, Eq, Structural)]
pub enum Action {
    /// Nothing.
    Nothing,
    /// Send the termination signal to every process and start the
    /// countdown of the grace period, of so many seconds.
    Terminate(u64),
    /// All processes have ended: the supervisor is done.
    Finish,
    /// Send the kill signal to every process; the supervisor is done.
    KillAndFinish,
}

/// What happens to the supervisor.
#[derive(Clone, Copy, Debug, PartialEq, Eq, Structural)]
pub enum Event {
    /// The power-off signal came.
    PowerOff,
    /// The workload has ended.
    MainExited,
    /// The cloud gave notice that it ends the instance.
    SpotNotice,
    /// No child process is left.
    ChildrenReaped,
    /// The grace period has run out.
    GraceTimeout,
}

/// The state of the supervisor.
#[derive(Debug, PartialEq, Eq)]
pub struct SupervisorBase {
    pub main: ServiceBase,
    pub readonly_root_fs: bool,
    pub services: Vec<ServiceBase>,
    pub shutdown: bool,
    pub shutdown_grace_period: u64,
    /// The supervisor is done.
    pub finished: bool,
}

/// Whether every service of `after` is asked not to start again and is
/// otherwise as in `before`.
pub open spec fn all_stopped(after: Seq<ServiceBase>, before: Seq<ServiceBase>) -> bool {
    after.len() == before.len() && forall|i: int|
        0 <= i < before.len() ==> (#[trigger] after[i]) == (ServiceBase {
            shutdown: true,
            ..before[i]
        })
}

impl SupervisorBase {
    /// What the shutdown does to the state and what it makes the
    /// supervisor do. Only the first shutdown does anything: it asks
    /// every service not to start again and terminates all processes.
    pub open spec fn stop_spec(self, after: SupervisorBase, action: Action) -> bool {
        if self.shutdown {
            after == self && action == Action::Nothing
        } else {
            &&& after.shutdown
            &&& all_stopped(after.services@, self.services@)
            &&& after.main == self.main
            &&& after.readonly_root_fs == self.readonly_root_fs
            &&& after.shutdown_grace_period == self.shutdown_grace_period
            &&& after.finished == self.finished
            &&& action == Action::Terminate(self.shutdown_grace_period)
        }
    }

    /// Starts the shutdown. It may be asked for more than once, by the
    /// power-off signal, by the end of the workload and by a notice of
    /// the cloud; only the first time has any effect.
    #[verifier::loop_isolation(false)]
    pub fn stop(&mut self) -> (r: Action)
        ensures
            old(self).stop_spec(*final(self), r),
    {
        if self.shutdown {
            return Action::Nothing;
        }
        self.shutdown = true;
        let mut i: usize = 0;
        while i < self.services.len()
            invariant
                i <= self.services.len(),
                self.services@.len() == old(self).services@.len(),
                self.shutdown,
                self.main == old(self).main,
                self.readonly_root_fs == old(self).readonly_root_fs,
                self.shutdown_grace_period == old(self).shutdown_grace_period,
                self.finished == old(self).finished,
                forall|j: int|
                    0 <= j < i ==> (#[trigger] self.services@[j]) == (ServiceBase {
                        shutdown: true,
                        ..old(self).services@[j]
                    }),
                forall|j: int|
                    i <= j < self.services@.len() ==> (#[trigger] self.services@[j]) == old(
                        self,
                    ).services@[j],
            decreases self.services.len() - i,
        {
            let mut service = ServiceBase::default();
            std::mem::swap(&mut service, &mut self.services[i]);
            service.stop();
            self.services[i] = service;
            i += 1;
        }
        Action::Terminate(self.shutdown_grace_period)
    }

    /// The processes that the supervisor has started itself: those of
    /// the services, then that of the workload. They are signalled
    /// where the processes of the machine cannot be listed.
    #[verifier::loop_isolation(false)]
    pub fn tracked_pids(&self) -> (r: Vec<u32>)
        ensures
            r@ == tracked_upto(self.services@, self.services@.len()) + match self.main.pid {
                Some(pid) => seq![pid],
                None => Seq::empty(),
            },
    {
        let mut list: Vec<u32> = Vec::new();
        let mut i: usize = 0;
        while i < self.services.len()
            invariant
                i <= self.services.len(),
                list@ == tracked_upto(self.services@, i as nat),
            decreases self.services.len() - i,
        {
            match self.services[i].pid {
                Some(pid) => {
                    list.push(pid);
                },
                None => {},
            }
            i += 1;
        }
        match self.main.pid {
            Some(pid) => {
                list.push(pid);
            },
            None => {},
        }
        list
    }

    /// The processes to signal: all the processes of the machine where
    /// they could be listed, else those that the supervisor started.
    pub fn targets(&self, listed: Result<Vec<u32>, ServiceError>) -> (r: Vec<u32>)
        ensures
            r@ == match listed {
                Ok(all) => all@,
                Err(_) => tracked_upto(self.services@, self.services@.len()) + match self.main.pid {
                    Some(pid) => seq![pid],
                    None => Seq::empty(),
                },
            },
    {
        match listed {
            Ok(all) => all,
            Err(_) => self.tracked_pids(),
        }
    }

    /// What an event does to the state and what it makes the
    /// supervisor do. The power-off signal, the end of the workload
    /// and a notice of the cloud start the shutdown; the end of the last
    /// child ends the supervisor; the end of the grace period kills
    /// what is left and ends the supervisor as well. A supervisor that
    /// is done does nothing.
    pub open spec fn handles(self, event: Event, after: SupervisorBase, action: Action) -> bool {
        if self.finished {
            after == self && action == Action::Nothing
        } else {
            match event {
                Event::PowerOff => self.stop_spec(after, action),
                Event::MainExited => self.stop_spec(after, action),
                Event::SpotNotice => self.stop_spec(after, action),
                Event::ChildrenReaped => after == (SupervisorBase { finished: true, ..self })
                    && action == Action::Finish,
                Event::GraceTimeout => after == (SupervisorBase { finished: true, ..self })
                    && action == Action::KillAndFinish,
            }
        }
    }

    /// Takes an event and tells what to do.
    pub fn handle(&mut self, event: Event) -> (r: Action)
        ensures
            old(self).handles(event, *final(self), r),
    {
        if self.finished {
            return Action::Nothing;
        }
        match event {
            Event::PowerOff => self.stop(),
            Event::MainExited => self.stop(),
            Event::SpotNotice => self.stop(),
            Event::ChildrenReaped => {
                self.finished = true;
                Action::Finish
            },
            Event::GraceTimeout => {
                self.finished = true;
                Action::KillAndFinish
            },
        }
    }
}

/// Stop idempotence: of two shutdowns in a row, whatever the state
/// before them, the second does nothing and changes nothing; so however
/// often the shutdown is asked for, the processes are terminated
/// exactly once.
pub proof fn lemma_stop_idempotent(
    before: SupervisorBase,
    between: SupervisorBase,
    after: SupervisorBase,
    first: Action,
    second: Action,
)
    requires
        before.stop_spec(between, first),
        between.stop_spec(after, second),
    ensures
        second == Action::Nothing,
        after == between,
        !before.shutdown ==> first == Action::Terminate(before.shutdown_grace_period),
        before.shutdown ==> first == Action::Nothing,
{
}

/// Whether `states`, `events` and `actions` record a run of the
/// supervisor: each event takes one state to the next and brings about
/// one action.
pub open spec fn is_run(
    states: Seq<SupervisorBase>,
    events: Seq<Event>,
    actions: Seq<Action>,
) -> bool {
    &&& states.len() == events.len() + 1
    &&& actions.len() == events.len()
    &&& forall|k: int|
        0 <= k < events.len() ==> (#[trigger] states[k]).handles(events[k], states[k + 1], actions[k])
}

/// Once the shutdown has started, it stays started.
pub proof fn lemma_shutdown_stays(
    states: Seq<SupervisorBase>,
    events: Seq<Event>,
    actions: Seq<Action>,
    i: int,
    j: int,
)
    requires
        is_run(states, events, actions),
        0 <= i <= j < states.len(),
        states[i].shutdown,
    ensures
        states[j].shutdown,
    decreases j - i,
{
    if i < j {
        lemma_shutdown_stays(states, events, actions, i, j - 1);
        assert(states[j - 1].handles(events[j - 1], states[j], actions[j - 1]));
    }
}

/// Stop idempotence over a whole run: whatever events arrive and
/// however often the shutdown is asked for, the processes are
/// terminated at most once.
pub proof fn lemma_terminates_once(
    states: Seq<SupervisorBase>,
    events: Seq<Event>,
    actions: Seq<Action>,
    i: int,
    j: int,
)
    requires
        is_run(states, events, actions),
        0 <= i < j < events.len(),
        actions[i] is Terminate,
    ensures
        !(actions[j] is Terminate),
{
    assert(states[i].handles(events[i], states[i + 1], actions[i]));
    assert(states[i + 1].shutdown);
    lemma_shutdown_stays(states, events, actions, i + 1, j);
    assert(states[j].handles(events[j], states[j + 1], actions[j]));
}

/// What the supervisor does for a service at the start.
#[derive(Clone, Copy, Debug, PartialEq, Eq, Structural)]
pub enum StartStep {
    /// Run the service in a loop that starts it again when it ends.
    Spawn,
    /// Leave the service out: it is optional and could not be set up.
    Skip,
    /// Give up: a service that is needed could not be set up.
    Abort,
}

/// Decides what follows the setting up of a service: `init_ok` says
/// whether its hook, if it has one, ran well.
pub fn start_service(service: &ServiceBase, init_ok: bool) -> (r: StartStep)
    ensures
        r == if init_ok {
            StartStep::Spawn
        } else if service.optional {
            StartStep::Skip
        } else {
            StartStep::Abort
        },
{
    if init_ok {
        StartStep::Spawn
    } else if service.optional {
        StartStep::Skip
    } else {
        StartStep::Abort
    }
}

/// What the loop of a service does when the service has ended or could
/// not be started.
#[derive(Clone, Copy, Debug, PartialEq, Eq, Structural)]
pub enum Restart {
    /// Report the end of the service and end the loop.
    Report,
    /// Start the service again after so many seconds.
    After(u64),
}

/// Decides what the loop of a service does at the end of the service:
/// it starts the service again after five seconds unless the service
/// was asked not to start again.
pub fn after_exit(service: &ServiceBase) -> (r: Restart)
    ensures
        r == if service.shutdown {
            Restart::Report
        } else {
            Restart::After(RESTART_DELAY_SECS)
        },
{
    if service.shutdown {
        Restart::Report
    } else {
        Restart::After(RESTART_DELAY_SECS)
    }
}

/// What the supervisor does at the start, one step after the other.
#[derive(Clone, Copy, Debug, PartialEq, Eq, Structural)]
pub enum StartAction {
    /// Set the service with this number up and run it.
    StartService(usize),
    /// Wait until the service with this number is set up.
    AwaitInit(usize),
    /// Make the root filesystem read-only.
    RemountReadonly,
    /// Run the workload.
    StartMain,
}

/// The steps of the start: every service is started; where the root is
/// to be read-only, it is made so once every service is set up; the
/// workload is started last.
pub open spec fn start_spec(services: nat, readonly_root_fs: bool) -> Seq<StartAction> {
    let starts = Seq::new(services, |i: int| StartAction::StartService(i as usize));
    let waits = if readonly_root_fs {
        Seq::new(services, |i: int| StartAction::AwaitInit(i as usize)).push(
            StartAction::RemountReadonly,
        )
    } else {
        Seq::empty()
    };
    (starts + waits).push(StartAction::StartMain)
}

/// The workload and the services under supervision.
#[derive(Debug, PartialEq, Eq)]
pub struct Supervisor {
    pub base: SupervisorBase,
}

impl Supervisor {
    /// The supervisor for the plan `vmspec`: it runs `command` with the
    /// environment `env` as the user and the group of the plan, beside
    /// the services that `enabled` names.
    #[verifier::loop_isolation(false)]
    pub fn new(vmspec: VmSpec, command: Vec<String>, env: NameValues, enabled: &Vec<ServiceKind>) -> (r:
        Result<Self, ServiceError>)
        ensures
            match r {
                Ok(s) => {
                    &&& vmspec.security.run_as_user_id == Some(s.base.main.uid)
                    &&& vmspec.security.run_as_group_id == Some(s.base.main.gid)
                    &&& s.base.main.args == command
                    &&& s.base.main.env == env
                    &&& s.base.main.working_dir == vmspec.working_dir
                    &&& s.base.main.pid is None
                    &&& s.base.readonly_root_fs == (vmspec.security.readonly_root_fs == Some(true))
                    &&& s.base.shutdown_grace_period == vmspec.shutdown_grace_period
                    &&& !s.base.shutdown
                    &&& !s.base.finished
                    &&& s.base.services@.len() == enabled@.len()
                    &&& forall|i: int|
                        0 <= i < enabled@.len() ==> is_service(
                            #[trigger] s.base.services@[i],
                            enabled@[i],
                        )
                },
                Err(e) => e == ServiceError::NoRunAs && (vmspec.security.run_as_user_id is None
                    || vmspec.security.run_as_group_id is None),
            },
    {
        let (uid, gid) = match (vmspec.security.run_as_user_id, vmspec.security.run_as_group_id) {
            (Some(u), Some(g)) => (u, g),
            _ => {
                return Err(ServiceError::NoRunAs);
            },
        };
        let readonly_root_fs = match vmspec.security.readonly_root_fs {
            Some(true) => true,
            _ => false,
        };
        let shutdown_grace_period = vmspec.shutdown_grace_period;
        let main = Main::new(command, vmspec.working_dir, env, gid, uid);
        let mut services: Vec<ServiceBase> = Vec::new();
        let mut i: usize = 0;
        while i < enabled.len()
            invariant
                i <= enabled.len(),
                services@.len() == i,
                forall|j: int| 0 <= j < i ==> is_service(#[trigger] services@[j], enabled@[j]),
            decreases enabled.len() - i,
        {
            let base = match enabled[i] {
                ServiceKind::Chrony => Chrony::new().0,
                ServiceKind::Ssh => Ssh::new().0,
            };
            services.push(base);
            i += 1;
        }
        Ok(
            Supervisor {
                base: SupervisorBase {
                    main: main.0,
                    readonly_root_fs,
                    services,
                    shutdown: false,
                    shutdown_grace_period,
                    finished: false,
                },
            },
        )
    }

    /// The steps of the start, in their order.
    #[verifier::loop_isolation(false)]
    pub fn start(&self) -> (r: Vec<StartAction>)
        ensures
            r@ == start_spec(self.base.services@.len(), self.base.readonly_root_fs),
    {
        let n = self.base.services.len();
        let mut steps: Vec<StartAction> = Vec::new();
        let mut i: usize = 0;
        while i < n
            invariant
                i <= n,
                steps@ == Seq::new(i as nat, |k: int| StartAction::StartService(k as usize)),
            decreases n - i,
        {
            steps.push(StartAction::StartService(i));
            i += 1;
        }
        if self.base.readonly_root_fs {
            // The services have to be set up before the root is made read-only.
            let ghost starts = steps@;
            let mut j: usize = 0;
            while j < n
                invariant
                    j <= n,
                    steps@ == starts + Seq::new(
                        j as nat,
                        |k: int| StartAction::AwaitInit(k as usize),
                    ),
                decreases n - j,
            {
                steps.push(StartAction::AwaitInit(j));
                j += 1;
            }
            steps.push(StartAction::RemountReadonly);
            assert(steps@ == starts + Seq::new(
                n as nat,
                |k: int| StartAction::AwaitInit(k as usize),
            ).push(StartAction::RemountReadonly));
        } else {
            assert(steps@ == steps@ + Seq::<StartAction>::empty());
        }
        steps.push(StartAction::StartMain);
        steps
    }

    /// Takes an event while waiting for the end: see
    /// `SupervisorBase::handle`.
    pub fn wait(&mut self, event: Event) -> (r: Action)
        ensures
            old(self).base.handles(event, final(self).base, r),
    {
        self.base.handle(event)
    }
}

/// Whether the end of the workload is an error worth telling: its
/// normal end is not, and neither is the report that it was reaped
/// already. `os_error` is the error number of the wait, if it failed.
pub fn wait_main(os_error: Option<i32>) -> (r: bool)
    ensures
        r == (os_error is Some && os_error != Some(10i32)),
{
    match os_error {
        Some(e) => e != 10,
        None => false,
    }
}

/// Whether the reaper goes on waiting for children: it does until the
/// kernel says that none is left. `os_error` is the error number of
/// the wait, if it failed.
pub fn wait_children(os_error: Option<i32>) -> (r: bool)
    ensures
        r == (os_error != Some(10i32)),
{
    match os_error {
        Some(e) => e != 10,
        None => true,
    }
}

/// A directory to make for a service.
#[derive(Debug, PartialEq, Eq)]
pub struct RunDir {
    pub path: String,
    pub mode: u32,
    pub uid: u32,
    pub gid: u32,
}

/// Plans what the clock service needs before it starts: a directory
/// of its own below the run directory, for its user, whom nobody else
/// may read. `entries` is the user database.
pub fn chrony_init(entries: &Vec<PasswdEntry>) -> (r: Result<RunDir, ServiceError>)
    ensures
        match r {
            Ok(dir) => entries.found("cb-chrony"@) is Some && dir.path@ == "/.easyto/run/chrony"@
                && dir.mode == 0o750 && dir.uid == entries.found("cb-chrony"@)->0.uid && dir.gid
                == entries.found("cb-chrony"@)->0.gid,
            Err(e) => entries.found("cb-chrony"@) is None && e == ServiceError::UserNotFound,
        },
{
    let user = match entries.find("cb-chrony") {
        Some(user) => user,
        None => {
            return Err(ServiceError::UserNotFound);
        },
    };
    Ok(
        RunDir {
            path: from_chars(to_chars("/.easyto/run/chrony").as_slice()),
            mode: 0o750,
            uid: user.uid,
            gid: user.gid,
        },
    )
}

/// The user that logs in: the name of the first entry of the directory
/// of the homes that is neither the directory itself nor its parent.
pub open spec fn login_user_spec(entries: Seq<Seq<char>>) -> Option<Seq<char>>
    decreases entries.len(),
{
    if entries.len() == 0 {
        None
    } else if entries[0] == seq!['.'] || entries[0] == seq!['.', '.'] {
        login_user_spec(entries.skip(1))
    } else {
        Some(entries[0])
    }
}

/// Tells the user that logs in from the entries of the directory of
/// the homes.
#[verifier::loop_isolation(false)]
pub fn get_login_user(entries: &Vec<String>) -> (r: Result<String, ServiceError>)
    ensures
        match r {
            Ok(user) => login_user_spec(views(entries@)) == Some(user@),
            Err(e) => login_user_spec(views(entries@)) is None && e
                == ServiceError::LoginUserNotFound,
        },
{
    let mut i: usize = 0;
    assert(views(entries@).skip(0) == views(entries@));
    while i < entries.len()
        invariant
            i <= entries.len(),
            login_user_spec(views(entries@)) == login_user_spec(views(entries@).skip(i as int)),
        decreases entries.len() - i,
    {
        assert(views(entries@).skip(i as int)[0] == entries@[i as int]@);
        if !crate::system::is_dot_entry(entries[i].as_str()) {
            return Ok(entries[i].clone());
        }
        assert(views(entries@).skip(i as int).skip(1) == views(entries@).skip(i + 1));
        i += 1;
    }
    Err(ServiceError::LoginUserNotFound)
}

/// What the login service needs before it starts.
#[derive(Debug, PartialEq, Eq)]
pub struct SshSetup {
    /// The file that holds the public key of the user, with mode
    /// `0640`.
    pub authorized_keys: String,
    pub uid: u32,
    pub gid: u32,
}

/// Plans what the login service needs before it starts: the public
/// key of the user that logs in goes to `.ssh/authorized_keys` below
/// the home of that user. `home_entries` are the entries of the
/// directory of the homes, `entries` is the user database.
pub fn ssh_init(home_entries: &Vec<String>, entries: &Vec<PasswdEntry>) -> (r: Result<
    SshSetup,
    ServiceError,
>)
    ensures
        match login_user_spec(views(home_entries@)) {
            None => r == Err::<SshSetup, ServiceError>(ServiceError::LoginUserNotFound),
            Some(login) => match entries.found(login) {
                None => r == Err::<SshSetup, ServiceError>(ServiceError::UserNotFound),
                Some(user) => r is Ok && r->Ok_0.uid == user.uid && r->Ok_0.gid == user.gid
                    && r->Ok_0.authorized_keys@ == crate::system::path_push(
                    crate::system::path_push(user.home_dir@, ".ssh"@),
                    "authorized_keys"@,
                ),
            },
        },
{
    let login_user = match get_login_user(home_entries) {
        Ok(user) => user,
        Err(e) => {
            return Err(e);
        },
    };
    let user = match entries.find(login_user.as_str()) {
        Some(user) => user,
        None => {
            return Err(ServiceError::UserNotFound);
        },
    };
    let mut path = to_chars(user.home_dir.as_str());
    crate::system::push_component(&mut path, to_chars(".ssh").as_slice());
    crate::system::push_component(&mut path, to_chars("authorized_keys").as_slice());
    Ok(SshSetup { authorized_keys: from_chars(path.as_slice()), uid: user.uid, gid: user.gid })
}

/// Whether a host key has to be made: only where there is none.
pub fn needs_host_key(key: crate::init::StatOutcome) -> (r: bool)
    ensures
        r == (key == crate::init::StatOutcome::NotFound),
{
    match key {
        crate::init::StatOutcome::NotFound => true,
        _ => false,
    }
}

} // verus!
