//! The configuration file of a container image, as far as the boot plan
//! reads it.

use vstd::prelude::*;

verus! {

/// The configuration file of a container image.
#[derive(Clone, Debug)]
pub struct ConfigFile {
    pub architecture: String,
    pub author: Option<String>,
    pub container: Option<String>,
    pub created: Option<String>,
    pub docker_version: Option<String>,
    pub history: Vec<History>,
    pub os: String,
    pub rootfs: RootFS,
    pub config: Option<Config>,
    pub os_version: Option<String>,
    pub variant: Option<String>,
    pub os_features: Option<Vec<String>>,
}

/// One layer of an image's history.
#[derive(Clone, Debug)]
pub struct History {
    pub author: Option<String>,
    pub created: Option<String>,
    pub created_by: Option<String>,
    pub comment: Option<String>,
    pub empty_layer: Option<bool>,
}

/// The layers of an image's root filesystem.
#[derive(Clone, Debug)]
pub struct RootFS {
    pub typ: String,
    pub diff_ids: Vec<String>,
}

/// The value of a key that only has to be present.
#[derive(Clone, Copy, Debug, PartialEq, Eq, Structural)]
pub struct Empty {}

/// How the image wants its process run.
#[derive(Clone, Debug)]
pub struct Config {
    pub attach_stderr: Option<bool>,
    pub attach_stdin: Option<bool>,
    pub attach_stdout: Option<bool>,
    pub cmd: Option<Vec<String>>,
    pub healthcheck: Option<HealthCheck>,
    pub domain_name: Option<String>,
    pub entrypoint: Option<Vec<String>>,
    pub env: Option<Vec<String>>,
    pub hostname: Option<String>,
    pub image: Option<String>,
    pub labels: Option<Vec<(String, String)>>,
    pub on_build: Option<Vec<String>>,
    pub open_stdin: Option<bool>,
    pub stdin_once: Option<bool>,
    pub tty: Option<bool>,
    pub user: Option<String>,
    pub volumes: Option<Vec<(String, Empty)>>,
    pub working_dir: Option<String>,
    pub exposed_ports: Option<Vec<(String, Empty)>>,
    pub args_escaped: Option<bool>,
    pub network_disabled: Option<bool>,
    pub mac_address: Option<String>,
    pub stop_signal: Option<String>,
    pub shell: Option<Vec<String>>,
}

/// How to probe the health of the image's process; the times are in
/// nanoseconds.
#[derive(Clone, Debug)]
pub struct HealthCheck {
    pub test: Option<Vec<String>>,
    pub interval: Option<u64>,
    pub timeout: Option<u64>,
    pub start_period: Option<u64>,
    pub retries: Option<i64>,
}

impl Default for Config {
    fn default() -> (r: Config)
        ensures
            r.attach_stderr is None,
            r.attach_stdin is None,
            r.attach_stdout is None,
            r.cmd is None,
            r.healthcheck is None,
            r.domain_name is None,
            r.entrypoint is None,
            r.env is None,
            r.hostname is None,
            r.image is None,
            r.labels is None,
            r.on_build is None,
            r.open_stdin is None,
            r.stdin_once is None,
            r.tty is None,
            r.user is None,
            r.volumes is None,
            r.working_dir is None,
            r.exposed_ports is None,
            r.args_escaped is None,
            r.network_disabled is None,
            r.mac_address is None,
            r.stop_signal is None,
            r.shell is None,
    {
        Config {
            attach_stderr: None,
            attach_stdin: None,
            attach_stdout: None,
            cmd: None,
            healthcheck: None,
            domain_name: None,
            entrypoint: None,
            env: None,
            hostname: None,
            image: None,
            labels: None,
            on_build: None,
            open_stdin: None,
            stdin_once: None,
            tty: None,
            user: None,
            volumes: None,
            working_dir: None,
            exposed_ports: None,
            args_escaped: None,
            network_disabled: None,
            mac_address: None,
            stop_signal: None,
            shell: None,
        }
    }
}

} // verus!
