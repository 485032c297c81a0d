use easyto_init::init::{unmount_all, StatOutcome};
use easyto_init::login::parse_passwd_lines;
use easyto_init::service::{
    after_exit, chrony_init, find_enabled_services, get_login_user, is_kernel_thread,
    needs_host_key, pid_of_entry, pids, signal, ssh_init, start_service, wait_children,
    wait_main, Action, Chrony, Event, InitHook, KillOutcome, Main, ProcEntry, ProcStat, Restart,
    RunDir, ServiceBase, ServiceError, ServiceKind, Ssh, SshSetup, StartAction, StartStep,
    Supervisor, PF_KTHREAD, RESTART_DELAY_SECS, SIGPOWEROFF,
};
use easyto_init::vmspec::{Security, VmSpec};

fn strings(list: &[&str]) -> Vec<String> {
    list.iter().map(|s| s.to_string()).collect()
}

fn stat_line(flags: &str) -> String {
    let mut fields: Vec<String> = (0..52).map(|i| i.to_string()).collect();
    fields[1] = "(init)".to_string();
    fields[8] = flags.to_string();
    fields.join(" ")
}

fn supervisor(services: &[ServiceKind], grace: u64, readonly: bool) -> Supervisor {
    let mut spec = VmSpec::default();
    spec.shutdown_grace_period = grace;
    spec.security.readonly_root_fs = Some(readonly);
    Supervisor::new(spec, strings(&["/app"]), vec![], &services.to_vec()).unwrap()
}

#[test]
fn main_exit_stops_the_services_and_ends_well() {
    let mut s = supervisor(&[ServiceKind::Chrony, ServiceKind::Ssh], 10, false);
    assert_eq!(s.wait(Event::MainExited), Action::Terminate(10));
    assert!(s.base.shutdown);
    assert!(s.base.services.iter().all(|service| service.shutdown));
    assert_eq!(after_exit(&s.base.services[0]), Restart::Report);
    assert_eq!(s.wait(Event::ChildrenReaped), Action::Finish);
    assert!(s.base.finished);
    assert_eq!(s.wait(Event::GraceTimeout), Action::Nothing);
    assert_eq!(unmount_all(false, 0, 1), Ok(()));
}

#[test]
fn power_off_terminates_then_kills_after_the_grace_period() {
    let mut s = supervisor(&[ServiceKind::Chrony], 3, false);
    assert_eq!(s.wait(Event::PowerOff), Action::Terminate(3));
    assert_eq!(s.wait(Event::GraceTimeout), Action::KillAndFinish);
    assert!(s.base.finished);
    assert_eq!(s.wait(Event::ChildrenReaped), Action::Nothing);
    assert_eq!(s.wait(Event::PowerOff), Action::Nothing);
}

#[test]
fn stop_terminates_exactly_once() {
    let mut s = supervisor(&[ServiceKind::Chrony, ServiceKind::Ssh], 10, false);
    let mut terminations = 0;
    for event in [Event::SpotNotice, Event::PowerOff, Event::MainExited, Event::PowerOff] {
        if let Action::Terminate(_) = s.wait(event) {
            terminations += 1;
        }
    }
    assert_eq!(terminations, 1);
    let mut s = supervisor(&[], 10, false);
    assert_eq!(s.base.stop(), Action::Terminate(10));
    let after_first = format!("{:?}", s.base);
    assert_eq!(s.base.stop(), Action::Nothing);
    assert_eq!(format!("{:?}", s.base), after_first);
}

#[test]
fn start_sets_the_services_up_before_the_root_is_read_only() {
    let s = supervisor(&[ServiceKind::Chrony, ServiceKind::Ssh], 10, true);
    assert_eq!(
        s.start(),
        vec![
            StartAction::StartService(0),
            StartAction::StartService(1),
            StartAction::AwaitInit(0),
            StartAction::AwaitInit(1),
            StartAction::RemountReadonly,
            StartAction::StartMain,
        ]
    );
    let s = supervisor(&[ServiceKind::Ssh], 10, false);
    assert_eq!(s.start(), vec![StartAction::StartService(0), StartAction::StartMain]);
    let s = supervisor(&[], 10, true);
    assert_eq!(s.start(), vec![StartAction::RemountReadonly, StartAction::StartMain]);
    assert_eq!(start_service(&Chrony::new().0, true), StartStep::Spawn);
    assert_eq!(start_service(&Chrony::new().0, false), StartStep::Abort);
    assert_eq!(start_service(&Ssh::new().0, false), StartStep::Skip);
    assert_eq!(after_exit(&Chrony::new().0), Restart::After(5));
    assert_eq!(RESTART_DELAY_SECS, 5);
    assert_eq!(SIGPOWEROFF, 38);
}

#[test]
fn supervisor_takes_its_figures_from_the_plan() {
    let mut spec = VmSpec::default();
    spec.working_dir = "/srv".to_string();
    spec.shutdown_grace_period = 42;
    spec.security = Security { readonly_root_fs: Some(true), run_as_group_id: Some(9), run_as_user_id: Some(8) };
    let s = Supervisor::new(spec, strings(&["/app", "x"]), vec![], &vec![ServiceKind::Ssh, ServiceKind::Chrony]).unwrap();
    assert_eq!(s.base.main, Main::new(strings(&["/app", "x"]), "/srv".to_string(), vec![], 9, 8).0);
    assert!(s.base.readonly_root_fs);
    assert_eq!(s.base.shutdown_grace_period, 42);
    assert_eq!(s.base.services, vec![Ssh::new().0, Chrony::new().0]);
    let mut spec = VmSpec::default();
    spec.security.run_as_group_id = None;
    assert_eq!(Supervisor::new(spec, vec![], vec![], &vec![]), Err(ServiceError::NoRunAs));
}

#[test]
fn services_are_what_they_are() {
    let chrony = Chrony::new();
    assert_eq!(chrony.0.args, strings(&["/.easyto/sbin/chronyd", "-d"]));
    assert_eq!(chrony.0.init, Some(InitHook::Chrony));
    assert!(!chrony.0.optional);
    assert_eq!(chrony.name(), "chrony");
    let ssh = Ssh::new();
    assert_eq!(
        ssh.0.args,
        strings(&["/.easyto/sbin/sshd", "-D", "-f", "/.easyto/etc/ssh/sshd_config", "-e"])
    );
    assert_eq!(ssh.0.init, Some(InitHook::Ssh));
    assert!(ssh.0.optional);
    assert_eq!(ssh.name(), "ssh");
    assert_eq!(ssh.0.working_dir, "/");
    let main = Main::new(strings(&["/app", "a", "b"]), "/".to_string(), vec![], 1, 2);
    assert_eq!(main.name(), "main");
    assert_eq!(main.0.command(), Some(("/app".to_string(), strings(&["a", "b"]))));
    assert_eq!(ServiceBase::default().command(), None);
    let mut base = ServiceBase::default();
    base.stop();
    assert!(base.shutdown);
}

#[test]
fn enabled_services_are_the_known_ones_that_are_not_disabled() {
    let entries = strings(&[".", "..", "ssh", "other", "chrony", "ssh"]);
    assert_eq!(
        find_enabled_services(&entries, &vec![]),
        vec![ServiceKind::Ssh, ServiceKind::Chrony, ServiceKind::Ssh]
    );
    assert_eq!(find_enabled_services(&entries, &strings(&["ssh", "x"])), vec![ServiceKind::Chrony]);
    assert_eq!(find_enabled_services(&entries, &strings(&["chrony", "ssh"])), vec![]);
    assert_eq!(find_enabled_services(&vec![], &vec![]), vec![]);
}

#[test]
fn kernel_threads_show_in_the_flags_of_their_status() {
    assert_eq!(is_kernel_thread(&stat_line("2129984")), Ok(true));
    assert_eq!(is_kernel_thread(&stat_line("2097152")), Ok(true));
    assert_eq!(is_kernel_thread(&stat_line("4194560")), Ok(false));
    assert_eq!(is_kernel_thread(&stat_line("0")), Ok(false));
    assert_eq!(PF_KTHREAD, 2097152);
    assert_eq!(is_kernel_thread(&stat_line("x")), Err(ServiceError::InvalidFlags));
    assert_eq!(is_kernel_thread(&stat_line("4294967296")), Err(ServiceError::InvalidFlags));
    assert_eq!(is_kernel_thread("1 (init) S 0"), Err(ServiceError::WrongFieldCount));
    assert_eq!(is_kernel_thread(""), Err(ServiceError::WrongFieldCount));
    let long = format!("{} extra", stat_line("0"));
    assert_eq!(is_kernel_thread(&long), Err(ServiceError::WrongFieldCount));
    let spaced = format!("  {}\n", stat_line("2097152").replace(' ', "\t "));
    assert_eq!(is_kernel_thread(&spaced), Ok(true));
}

#[test]
fn processes_to_signal_leave_out_init_and_the_kernel() {
    let entry = |name: &str, is_dir: bool, stat: ProcStat| ProcEntry { name: name.to_string(), is_dir, stat };
    let entries = vec![
        entry("1", true, ProcStat::Contents(stat_line("0"))),
        entry("2", true, ProcStat::Contents(stat_line("2097152"))),
        entry("self", true, ProcStat::Unreadable(13)),
        entry("30", false, ProcStat::Contents(stat_line("0"))),
        entry("31", true, ProcStat::Missing),
        entry("32", true, ProcStat::Contents(stat_line("0"))),
        entry("033", true, ProcStat::Contents(stat_line("4194560"))),
    ];
    assert_eq!(pids(&entries), Ok(vec![32, 33]));
    let mut broken = vec![entry("32", true, ProcStat::Contents(stat_line("0")))];
    broken.push(entry("40", true, ProcStat::Unreadable(13)));
    broken.push(entry("41", true, ProcStat::Contents("".to_string())));
    assert_eq!(pids(&broken), Err(ServiceError::StatUnreadable(13)));
    let odd = vec![entry("41", true, ProcStat::Contents("x".to_string()))];
    assert_eq!(pids(&odd), Err(ServiceError::WrongFieldCount));
    assert_eq!(pids(&vec![]), Ok(vec![]));
    assert_eq!(pid_of_entry("1", true), None);
    assert_eq!(pid_of_entry("01", true), None);
    assert_eq!(pid_of_entry("+1", true), None);
    assert_eq!(pid_of_entry("10", true), Some(10));
    assert_eq!(pid_of_entry("0", true), Some(0));
    assert_eq!(pid_of_entry("12", true), Some(12));
    assert_eq!(pid_of_entry("12", false), None);
    assert_eq!(pid_of_entry("net", true), None);
}

#[test]
fn tracked_processes_stand_in_when_the_listing_fails() {
    let mut s = supervisor(&[ServiceKind::Chrony, ServiceKind::Ssh], 10, false);
    assert_eq!(s.base.tracked_pids(), Vec::<u32>::new());
    s.base.services[1].pid = Some(20);
    s.base.main.pid = Some(30);
    assert_eq!(s.base.tracked_pids(), vec![20, 30]);
    s.base.services[0].pid = Some(10);
    assert_eq!(s.base.tracked_pids(), vec![10, 20, 30]);
    assert_eq!(s.base.targets(Ok(vec![5, 6])), vec![5, 6]);
    assert_eq!(s.base.targets(Err(ServiceError::StatUnreadable(5))), vec![10, 20, 30]);
    assert_eq!(signal(KillOutcome::Delivered), Ok(()));
    assert_eq!(signal(KillOutcome::NoSuchProcess), Ok(()));
    assert_eq!(signal(KillOutcome::Failed(1)), Err(ServiceError::SignalFailed(1)));
}

#[test]
fn reaper_and_main_waiter_read_the_error_of_the_wait() {
    assert!(!wait_main(None));
    assert!(!wait_main(Some(10)));
    assert!(wait_main(Some(4)));
    assert!(wait_children(None));
    assert!(wait_children(Some(4)));
    assert!(!wait_children(Some(10)));
}

#[test]
fn services_are_set_up_for_their_users() {
    let passwd = "root:x:0:0:root:/root:/bin/sh\ncb-chrony:x:100:101::/var/lib/chrony:/bin/false\nme:x:1000:1001::/home/me:/bin/sh";
    let entries = parse_passwd_lines(passwd).unwrap();
    let root_only = parse_passwd_lines("root:x:0:0:root:/root:/bin/sh").unwrap();
    assert_eq!(
        chrony_init(&entries),
        Ok(RunDir { path: "/.easyto/run/chrony".to_string(), mode: 0o750, uid: 100, gid: 101 })
    );
    assert_eq!(chrony_init(&root_only), Err(ServiceError::UserNotFound));
    assert_eq!(get_login_user(&strings(&[".", "..", "me", "you"])), Ok("me".to_string()));
    assert_eq!(get_login_user(&strings(&["..", "."])), Err(ServiceError::LoginUserNotFound));
    assert_eq!(
        ssh_init(&strings(&[".", "me"]), &entries),
        Ok(SshSetup { authorized_keys: "/home/me/.ssh/authorized_keys".to_string(), uid: 1000, gid: 1001 })
    );
    assert_eq!(ssh_init(&strings(&["."]), &entries), Err(ServiceError::LoginUserNotFound));
    assert_eq!(ssh_init(&strings(&["you"]), &entries), Err(ServiceError::UserNotFound));
    assert!(needs_host_key(StatOutcome::NotFound));
    assert!(!needs_host_key(StatOutcome::Found));
    assert!(!needs_host_key(StatOutcome::Failed(13)));
}
