use easyto_init::container::{Config, ConfigFile, RootFS};
use easyto_init::service::{Supervisor, ServiceKind};
use easyto_init::vmspec::{
    clone_strings, fill_volume_defaults, AwsTag, EbsVolumeAttachment, EbsVolumeSource,
    EnvFromSource, ImdsEnvSource, InitScript, Mount, NameValue, NameValuesExt, S3VolumeSource,
    SecretsManagerVolumeSource, Security, SsmVolumeSource, StringSliceExt, SysctlWrite, UserData,
    UserGroupNames, VmSpec, VmSpecError, Volume,
};

fn nv(name: &str, value: &str) -> NameValue {
    NameValue { name: name.to_string(), value: value.to_string() }
}

fn strings(list: &[&str]) -> Vec<String> {
    list.iter().map(|s| s.to_string()).collect()
}

fn no_user_data() -> UserData {
    UserData {
        args: None,
        command: None,
        debug: None,
        disable_services: None,
        env: None,
        env_from: None,
        init_scripts: None,
        replace_init: None,
        security: None,
        shutdown_grace_period: None,
        sysctls: None,
        volumes: None,
        working_dir: None,
    }
}

fn config_file(config: Option<Config>) -> ConfigFile {
    ConfigFile {
        architecture: "amd64".to_string(),
        author: None,
        container: None,
        created: None,
        docker_version: None,
        history: vec![],
        os: "linux".to_string(),
        rootfs: RootFS { typ: "layers".to_string(), diff_ids: vec![] },
        config,
        os_version: None,
        variant: None,
        os_features: None,
    }
}

fn bare_mount(destination: &str) -> Mount {
    Mount {
        destination: destination.to_string(),
        fs_type: None,
        group_id: None,
        mode: None,
        options: None,
        user_id: None,
    }
}

#[test]
fn test_user_group_try_from() {
    struct Case {
        input: String,
        expected: Option<UserGroupNames>,
    }
    let cases = [
        Case {
            input: "".into(),
            expected: None,
        },
        Case {
            input: "user".into(),
            expected: Some(UserGroupNames {
                user: "user".into(),
                group: None,
            }),
        },
        Case {
            input: "user:group".into(),
            expected: Some(UserGroupNames {
                user: "user".into(),
                group: Some("group".into()),
            }),
        },
    ];
    for case in cases {
        let result = UserGroupNames::try_from(case.input);
        if case.expected.is_none() {
            assert_eq!(true, result.is_err());
        } else {
            assert_eq!(case.expected.unwrap(), result.unwrap());
        }
    }
}

#[test]
fn user_string_has_at_most_two_fields() {
    assert!(matches!(UserGroupNames::try_from("".to_string()), Err(VmSpecError::EmptyUserGroup)));
    assert!(matches!(UserGroupNames::try_from("a:b:c".to_string()), Err(VmSpecError::TooManyFields)));
    assert_eq!(
        UserGroupNames::try_from("a:".to_string()).unwrap(),
        UserGroupNames { user: "a".to_string(), group: Some("".to_string()) }
    );
    assert_eq!(
        UserGroupNames::try_from(":b".to_string()).unwrap(),
        UserGroupNames { user: "".to_string(), group: Some("b".to_string()) }
    );
}

#[test]
fn defaults_hold_before_anyone_has_spoken() {
    let spec = VmSpec::default();
    assert!(spec.args.is_empty() && spec.command.is_empty() && spec.env.is_empty());
    assert!(!spec.debug && !spec.replace_init);
    assert_eq!(
        spec.security,
        Security { readonly_root_fs: Some(false), run_as_group_id: Some(0), run_as_user_id: Some(0) }
    );
    assert_eq!(spec.shutdown_grace_period, 10);
    assert_eq!(spec.working_dir, "/");
    assert_eq!(Security::default(), spec.security);
    assert_eq!(NameValue::default(), nv("", ""));
}

#[test]
fn image_with_entrypoint_and_numeric_user_runs_as_that_user() {
    let mut config = Config::default();
    config.entrypoint = Some(strings(&["/app"]));
    config.user = Some("1000".to_string());
    let mut spec = VmSpec::from_config_file(&config_file(Some(config)), "", "").unwrap();
    spec.merge_user_data(no_user_data());
    assert_eq!(spec.command, strings(&["/app"]));
    assert!(spec.args.is_empty());
    assert_eq!(spec.security.run_as_user_id, Some(1000));
    assert_eq!(spec.security.run_as_group_id, Some(0));
    let command = spec.full_command(&vec![], None).unwrap();
    assert_eq!(command, strings(&["/app"]));
    let supervisor = Supervisor::new(spec, command, vec![], &vec![ServiceKind::Chrony]).unwrap();
    assert_eq!(supervisor.base.main.uid, 1000);
    assert_eq!(supervisor.base.main.gid, 0);
    assert_eq!(supervisor.base.main.args, strings(&["/app"]));
}

#[test]
fn new_command_clears_the_old_arguments() {
    let mut spec = VmSpec::default();
    spec.command = strings(&["/old"]);
    spec.args = strings(&["old"]);
    let mut user_data = no_user_data();
    user_data.command = Some(strings(&["/new"]));
    spec.merge_user_data(user_data);
    assert_eq!(spec.command, strings(&["/new"]));
    assert_eq!(spec.args, Vec::<String>::new());

    let mut spec = VmSpec::default();
    spec.command = strings(&["/old"]);
    spec.args = strings(&["old"]);
    let mut user_data = no_user_data();
    user_data.command = Some(strings(&["/new"]));
    user_data.args = Some(strings(&["a", "b"]));
    spec.merge_user_data(user_data);
    assert_eq!(spec.args, strings(&["a", "b"]));

    let mut spec = VmSpec::default();
    spec.command = strings(&["/old"]);
    spec.args = strings(&["old"]);
    let mut user_data = no_user_data();
    user_data.args = Some(strings(&["a"]));
    spec.merge_user_data(user_data);
    assert_eq!(spec.command, strings(&["/old"]));
    assert_eq!(spec.args, strings(&["a"]));

    let mut spec = VmSpec::default();
    spec.args = strings(&["old"]);
    spec.merge_user_data(no_user_data());
    assert_eq!(spec.args, strings(&["old"]));
}

#[test]
fn image_plan_takes_entrypoint_command_env_and_directory() {
    let mut config = Config::default();
    config.entrypoint = Some(strings(&["/bin/app", "serve"]));
    config.cmd = Some(strings(&["--port", "80"]));
    config.env = Some(strings(&["A=1", "B", "C=x=y", "=v"]));
    config.working_dir = Some("/srv".to_string());
    config.user = Some("app:staff".to_string());
    let passwd = "root:x:0:0:root:/root:/bin/sh\napp:x:1000:1000::/home/app:/bin/sh\n";
    let group = "root:x:0:\nstaff:x:50:app\n";
    let spec = VmSpec::from_config_file(&config_file(Some(config.clone())), passwd, group).unwrap();
    assert_eq!(spec.command, strings(&["/bin/app", "serve"]));
    assert_eq!(spec.args, strings(&["--port", "80"]));
    assert_eq!(spec.env, vec![nv("A", "1"), nv("B", ""), nv("C", "x=y"), nv("", "v")]);
    assert_eq!(spec.working_dir, "/srv");
    assert_eq!(
        spec.security,
        Security { readonly_root_fs: Some(false), run_as_group_id: Some(50), run_as_user_id: Some(1000) }
    );
    assert_eq!(spec.shutdown_grace_period, 10);

    assert!(matches!(
        VmSpec::from_config_file(&config_file(Some(config.clone())), "", group),
        Err(VmSpecError::UnknownUser(_))
    ));
    assert!(matches!(
        VmSpec::from_config_file(&config_file(Some(config.clone())), passwd, ""),
        Err(VmSpecError::UnknownGroup(_))
    ));
    config.user = Some("".to_string());
    assert!(matches!(
        VmSpec::from_config_file(&config_file(Some(config.clone())), passwd, group),
        Err(VmSpecError::EmptyUserGroup)
    ));
    config.user = Some("a:b:c".to_string());
    assert!(matches!(
        VmSpec::from_config_file(&config_file(Some(config.clone())), passwd, group),
        Err(VmSpecError::TooManyFields)
    ));
    config.user = Some("app:".to_string());
    assert!(matches!(
        VmSpec::from_config_file(&config_file(Some(config)), passwd, group),
        Err(VmSpecError::UnknownGroup(_))
    ));
    let bare = VmSpec::from_config_file(&config_file(None), "", "").unwrap();
    assert!(bare.command.is_empty());
    assert_eq!(bare.working_dir, "/");
    assert_eq!(bare.security, Security::default());
}

#[test]
fn user_data_overrides_field_by_field() {
    let mut spec = VmSpec::default();
    spec.env = vec![nv("A", "1"), nv("B", "2"), nv("C", "3")];
    spec.sysctls = vec![nv("vm.swappiness", "60")];
    spec.disable_services = strings(&["ssh"]);
    spec.init_scripts = strings(&["old"]);
    let mut user_data = no_user_data();
    user_data.debug = Some(true);
    user_data.replace_init = Some(true);
    user_data.shutdown_grace_period = Some(30);
    user_data.working_dir = Some("/work".to_string());
    user_data.env = Some(vec![nv("B", "two"), nv("D", "4"), nv("B", "again")]);
    user_data.sysctls = Some(vec![nv("vm.swappiness", "1")]);
    user_data.disable_services = Some(vec![]);
    user_data.init_scripts = Some(vec![]);
    user_data.env_from = Some(vec![EnvFromSource::Imds(ImdsEnvSource {
        name: "ZONE".to_string(),
        optional: None,
        path: "placement/availability-zone".to_string(),
    })]);
    user_data.security = Some(Security { readonly_root_fs: Some(true), run_as_group_id: None, run_as_user_id: Some(5) });
    spec.merge_user_data(user_data);
    assert!(spec.debug && spec.replace_init);
    assert_eq!(spec.shutdown_grace_period, 30);
    assert_eq!(spec.working_dir, "/work");
    assert_eq!(
        spec.env,
        vec![nv("A", "1"), nv("C", "3"), nv("B", "two"), nv("D", "4"), nv("B", "again")]
    );
    assert_eq!(spec.sysctls, vec![nv("vm.swappiness", "1")]);
    assert_eq!(spec.disable_services, strings(&["ssh"]));
    assert_eq!(spec.init_scripts, Vec::<String>::new());
    assert_eq!(spec.env_from.len(), 1);
    assert_eq!(
        spec.security,
        Security { readonly_root_fs: Some(true), run_as_group_id: Some(0), run_as_user_id: Some(5) }
    );
    let mut user_data = no_user_data();
    user_data.disable_services = Some(strings(&["chrony"]));
    spec.merge_user_data(user_data);
    assert_eq!(spec.disable_services, strings(&["chrony"]));
    assert!(spec.debug);
    assert_eq!(spec.working_dir, "/work");
}

#[test]
fn mounts_get_the_owner_and_the_mode_they_lack() {
    let mut spec = VmSpec::default();
    let mut user_data = no_user_data();
    user_data.security = Some(Security { readonly_root_fs: None, run_as_group_id: Some(8), run_as_user_id: Some(7) });
    let mut named = bare_mount("/named");
    named.user_id = Some(1);
    named.group_id = Some(2);
    named.mode = Some("0700".to_string());
    named.fs_type = Some("xfs".to_string());
    user_data.volumes = Some(vec![
        Volume::Ebs(EbsVolumeSource {
            attachment: Some(EbsVolumeAttachment {
                tags: vec![AwsTag { key: "k".to_string(), value: None }],
                timeout: None,
            }),
            device: "/dev/sdf".to_string(),
            mount: Some(bare_mount("/data")),
        }),
        Volume::Ebs(EbsVolumeSource { attachment: None, device: "/dev/sdg".to_string(), mount: None }),
        Volume::S3(S3VolumeSource {
            bucket: "b".to_string(),
            key_prefix: "p".to_string(),
            optional: None,
            mount: bare_mount("/s3"),
        }),
        Volume::SecretsManager(SecretsManagerVolumeSource {
            secret_id: "id".to_string(),
            mount: named,
            optional: Some(true),
        }),
        Volume::Ssm(SsmVolumeSource { path: "/p".to_string(), mount: bare_mount("/ssm"), optional: None }),
    ]);
    spec.merge_user_data(user_data);
    assert_eq!(spec.volumes.len(), 5);
    match &spec.volumes[0] {
        Volume::Ebs(v) => {
            let m = v.mount.as_ref().unwrap();
            assert_eq!((m.user_id, m.group_id), (Some(7), Some(8)));
            assert_eq!(m.mode, Some("0755".to_string()));
            assert_eq!(m.destination, "/data");
            assert_eq!(v.attachment.as_ref().unwrap().tags.len(), 1);
        }
        _ => panic!("not a block volume"),
    }
    match &spec.volumes[1] {
        Volume::Ebs(v) => assert!(v.mount.is_none()),
        _ => panic!("not a block volume"),
    }
    match &spec.volumes[2] {
        Volume::S3(v) => {
            assert_eq!((v.mount.user_id, v.mount.group_id), (Some(7), Some(8)));
            assert_eq!(v.mount.mode, Some("0755".to_string()));
            assert_eq!(v.bucket, "b");
        }
        _ => panic!("not an object store volume"),
    }
    match &spec.volumes[3] {
        Volume::SecretsManager(v) => {
            assert_eq!((v.mount.user_id, v.mount.group_id), (Some(1), Some(2)));
            assert_eq!(v.mount.mode, Some("0700".to_string()));
            assert_eq!(v.mount.fs_type, Some("xfs".to_string()));
            assert_eq!(v.optional, Some(true));
        }
        _ => panic!("not a secret volume"),
    }
    match &spec.volumes[4] {
        Volume::Ssm(v) => assert_eq!(v.mount.mode, Some("0755".to_string())),
        _ => panic!("not a parameter volume"),
    }
    let filled = fill_volume_defaults(
        vec![Volume::Ssm(SsmVolumeSource { path: "/p".to_string(), mount: bare_mount("/x"), optional: None })],
        &Security { readonly_root_fs: None, run_as_group_id: None, run_as_user_id: None },
    );
    match &filled[0] {
        Volume::Ssm(v) => assert_eq!((v.mount.user_id, v.mount.group_id), (None, None)),
        _ => panic!("not a parameter volume"),
    }
}

#[test]
fn merge_is_b_over_a() {
    let a = vec![nv("X", "1"), nv("Y", "2"), nv("X", "3"), nv("Z", "4")];
    let b = vec![nv("Y", "two"), nv("W", "5"), nv("Y", "zwei")];
    let merged = a.merge(&b);
    assert_eq!(
        merged,
        vec![nv("X", "1"), nv("X", "3"), nv("Z", "4"), nv("Y", "two"), nv("W", "5"), nv("Y", "zwei")]
    );
    for key in ["X", "Y", "Z", "W", "V", ""] {
        assert_eq!(merged.find(key), b.find(key).or(a.find(key)));
    }
    assert_eq!(a.find("X"), Some(nv("X", "1")));
    assert_eq!(a.merge(&vec![]), a);
    assert_eq!(Vec::<NameValue>::new().merge(&b), b);
}

#[test]
fn environment_strings_make_the_round_trip() {
    let lines = strings(&["A=1", "B=", "C=x=y", "=v", "PATH=/bin:/sbin"]);
    assert_eq!(lines.to_name_values().to_env_strings(), lines);
    assert_eq!(strings(&["NAME"]).to_name_values(), vec![nv("NAME", "")]);
    assert_eq!(strings(&["NAME"]).to_name_values().to_env_strings(), strings(&["NAME="]));
    assert_eq!(vec![nv("A", "b=c")].to_env_strings(), strings(&["A=b=c"]));
}

#[test]
fn map_keeps_the_last_value_of_each_name() {
    let list = vec![nv("A", "1"), nv("B", "2"), nv("A", "3"), nv("C", "4"), nv("B", "5")];
    assert_eq!(list.to_map(), vec![nv("A", "3"), nv("B", "5"), nv("C", "4")]);
    assert_eq!(Vec::<NameValue>::new().to_map(), vec![]);
    assert_eq!(clone_strings(&strings(&["a", "b"])), strings(&["a", "b"]));
}

#[test]
fn command_line_is_resolved_and_expanded() {
    let env = vec![nv("NAME", "world"), nv("PATH", "/bin"), nv("NAME", "moon")];
    let mut spec = VmSpec::default();
    assert_eq!(spec.full_command(&env, None).unwrap(), strings(&["/.easyto/bin/sh"]));
    assert_eq!(spec.lookup_name(), None);
    spec.command = strings(&["/bin/echo", "$(NAME)"]);
    spec.args = strings(&["$(MISSING)", "$$(NAME)", "a$(NAME)b$(PATH)", "$(NAME", "caf\u{e9}"]);
    assert_eq!(spec.lookup_name(), None);
    assert_eq!(
        spec.full_command(&env, None).unwrap(),
        strings(&["/bin/echo", "moon", "$(MISSING)", "$(NAME)", "amoonb/bin", "$(NAME", "caf\u{e9}"])
    );
    spec.command = strings(&["echo"]);
    assert_eq!(spec.lookup_name(), Some("echo".to_string()));
    assert!(matches!(spec.full_command(&env, None), Err(VmSpecError::ExecutableNotFound)));
    assert_eq!(
        spec.full_command(&env, Some("/usr/bin/echo".to_string())).unwrap()[0],
        "/usr/bin/echo"
    );
    spec.command = vec![];
    spec.args = strings(&["run", "x"]);
    assert_eq!(spec.lookup_name(), Some("run".to_string()));
    assert_eq!(
        spec.full_command(&env, Some("/bin/run".to_string())).unwrap(),
        strings(&["/bin/run", "x"])
    );
    spec.args = strings(&["/run", "caf\u{e9}$(NAME)"]);
    assert!(matches!(spec.full_command(&env, None), Err(VmSpecError::NotExpandable)));
    spec.args = strings(&["/run", "$5\u{e9}"]);
    assert_eq!(spec.full_command(&env, None).unwrap(), strings(&["/run", "$5\u{e9}"]));
    spec.command = strings(&[""]);
    spec.args = vec![];
    assert_eq!(spec.lookup_name(), Some("".to_string()));
}

#[test]
fn init_scripts_and_kernel_parameters_come_in_their_order() {
    let mut spec = VmSpec::default();
    spec.init_scripts = strings(&["#!/bin/sh\ntrue", "second"]);
    spec.sysctls = vec![nv("net.ipv4.ip_forward", "1"), nv("vm.swappiness", "10")];
    assert_eq!(
        spec.run_init_scripts(),
        vec![
            InitScript { path: "/.easyto/run/init-0".to_string(), mode: 0o755, contents: "#!/bin/sh\ntrue".to_string() },
            InitScript { path: "/.easyto/run/init-1".to_string(), mode: 0o755, contents: "second".to_string() },
        ]
    );
    assert_eq!(
        spec.set_sysctls("/"),
        vec![
            SysctlWrite { path: "/proc/sys/net/ipv4/ip_forward".to_string(), value: "1".to_string() },
            SysctlWrite { path: "/proc/sys/vm/swappiness".to_string(), value: "10".to_string() },
        ]
    );
    assert_eq!(VmSpec::default().run_init_scripts(), vec![]);
    let mut many = VmSpec::default();
    many.init_scripts = (0..12).map(|_| "x".to_string()).collect();
    assert_eq!(many.run_init_scripts()[11].path, "/.easyto/run/init-11");
}
