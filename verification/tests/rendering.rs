use runlike::model::{
    AttrPrinter, Config, Device, DockerInspect, HostConfig, ImageConfig, ImageHostConfig,
    ImageInspect, NetworkSettings, PortInfo, Ports, RestartPolicy,
};
use runlike::options::Options;

fn plain_config() -> Config {
    Config {
        hostname: "myhost".to_string(),
        env: vec![],
        attach_stdout: true,
        tty: false,
        user: None,
        cmd: vec!["sh".to_string()],
        image: "alpine".to_string(),
        working_dir: None,
        mac_address: None,
    }
}

fn plain_host_config() -> HostConfig {
    HostConfig {
        network_mode: "default".to_string(),
        runtime: None,
        cpuset_cpus: None,
        cpuset_mems: None,
        auto_remove: false,
        pid_mode: None,
        privileged: false,
        binds: vec![],
        volumes_from: vec![],
        cap_add: vec![],
        cap_drop: vec![],
        dns: vec![],
        memory: 0,
        memory_reservation: 0,
        extra_hosts: vec![],
        devices: vec![],
        restart_policy: RestartPolicy { name: "no".to_string(), maximum_retry_count: 0 },
    }
}

fn plain_container() -> DockerInspect {
    DockerInspect {
        id: "abc123".to_string(),
        name: "/mycontainer".to_string(),
        config: plain_config(),
        host_config: plain_host_config(),
        network_settings: NetworkSettings { mac_address: None, ports: Ports(vec![]) },
    }
}

fn empty_image() -> ImageInspect {
    ImageInspect {
        config: ImageConfig { env: vec![] },
        host_config: ImageHostConfig {
            binds: vec![],
            volumes_from: vec![],
            cap_add: vec![],
            cap_drop: vec![],
            dns: vec![],
        },
    }
}

fn render(c: DockerInspect, img: ImageInspect) -> String {
    Options::new(c, img, false, false).print()
}

#[test]
fn minimal_end_to_end() {
    let out = render(plain_container(), empty_image());
    assert_eq!(out, "docker run --name=mycontainer --hostname=myhost alpine sh\n");
}

#[test]
fn no_name_suppresses_the_name_flag() {
    let out = Options::new(plain_container(), empty_image(), false, true).print();
    assert_eq!(out, "docker run --hostname=myhost alpine sh\n");
}

#[test]
fn hostname_matching_id_prefix_is_suppressed() {
    let mut c = plain_container();
    c.id = "myhost0123456789".to_string();
    let out = render(c, empty_image());
    assert_eq!(out, "docker run --name=mycontainer alpine sh\n");
}

#[test]
fn pretty_mode_joins_with_line_continuations() {
    let out = Options::new(plain_container(), empty_image(), true, false).print();
    assert_eq!(
        out,
        "docker run --name=mycontainer \\\n\t--hostname=myhost \\\n\talpine \\\n\tsh\n"
    );
}

#[test]
fn empty_command_renders_nothing_after_the_image() {
    let mut c = plain_container();
    c.config.cmd = vec![];
    let out = render(c, empty_image());
    assert_eq!(out, "docker run --name=mycontainer --hostname=myhost alpine \n");
}

#[test]
fn multi_token_command_is_space_joined() {
    let mut c = plain_container();
    c.config.cmd = vec!["sh".to_string(), "-c".to_string(), "echo hi".to_string()];
    let out = render(c, empty_image());
    assert_eq!(out, "docker run --name=mycontainer --hostname=myhost alpine sh -c echo hi\n");
}

#[test]
fn env_flags_are_diffed_against_the_image() {
    let mut c = plain_container();
    c.config.env = vec!["A=1".to_string(), "B=2".to_string(), "C=3".to_string()];
    let mut img = empty_image();
    img.config.env = vec!["B=2".to_string()];
    let out = render(c, img);
    assert!(out.contains("--env=\"A=1\""));
    assert!(!out.contains("--env=\"B=2\""));
    assert!(out.contains("--env=\"C=3\""));
    assert_eq!(out.matches("--env=").count(), 2);
}

#[test]
fn volume_flags_are_diffed_against_the_image() {
    let mut c = plain_container();
    c.host_config.binds = vec!["/a:/a".to_string(), "/b:/b".to_string()];
    let mut img = empty_image();
    img.host_config.binds = vec!["/a:/a".to_string()];
    let out = render(c, img);
    assert!(!out.contains("--volume=\"/a:/a\""));
    assert!(out.contains("--volume=\"/b:/b\""));
    assert_eq!(out.matches("--volume=").count(), 1);
}

#[test]
fn default_and_bridge_network_modes_emit_no_flag() {
    for mode in ["default", "bridge"] {
        let mut c = plain_container();
        c.host_config.network_mode = mode.to_string();
        let out = render(c, empty_image());
        assert!(!out.contains("--network="), "mode {mode} must be suppressed: {out}");
    }
}

#[test]
fn other_network_modes_emit_exactly_one_flag() {
    let mut c = plain_container();
    c.host_config.network_mode = "host".to_string();
    let out = render(c, empty_image());
    assert_eq!(out.matches("--network=").count(), 1);
    assert!(out.contains("--network=host "));
}

#[test]
fn restart_policy_on_failure_renders_with_count() {
    let p = RestartPolicy { name: "on-failure".to_string(), maximum_retry_count: 3 };
    assert_eq!(p.print(), Some("on-failure:3".to_string()));
}

#[test]
fn restart_policy_no_renders_nothing() {
    let p = RestartPolicy { name: "no".to_string(), maximum_retry_count: 0 };
    assert_eq!(p.print(), None);
    let empty = RestartPolicy { name: "".to_string(), maximum_retry_count: 0 };
    assert_eq!(empty.print(), None);
}

#[test]
fn restart_policy_always_and_unless_stopped() {
    let a = RestartPolicy { name: "always".to_string(), maximum_retry_count: 0 };
    assert_eq!(a.print(), Some("always".to_string()));
    let u = RestartPolicy { name: "unless-stopped".to_string(), maximum_retry_count: 0 };
    assert_eq!(u.print(), Some("unless-stopped".to_string()));
}

#[test]
fn restart_flag_appears_in_the_rendering() {
    let mut c = plain_container();
    c.host_config.restart_policy =
        RestartPolicy { name: "on-failure".to_string(), maximum_retry_count: 3 };
    let out = render(c, empty_image());
    assert!(out.contains("--restart=on-failure:3 "));
}

#[test]
fn device_with_default_permissions_omits_the_suffix() {
    let d = Device {
        path_on_host: "/dev/sda".to_string(),
        path_in_container: "/dev/sda".to_string(),
        cgroup_permissions: "rwm".to_string(),
    };
    assert_eq!(d.render(), "/dev/sda:/dev/sda");
}

#[test]
fn device_with_other_permissions_keeps_the_suffix() {
    let d = Device {
        path_on_host: "/dev/sda".to_string(),
        path_in_container: "/dev/sda".to_string(),
        cgroup_permissions: "r".to_string(),
    };
    assert_eq!(d.render(), "/dev/sda:/dev/sda:r");
}

#[test]
fn device_flag_appears_in_the_rendering() {
    let mut c = plain_container();
    c.host_config.devices = vec![Device {
        path_on_host: "/dev/sda".to_string(),
        path_in_container: "/dev/sdb".to_string(),
        cgroup_permissions: "rwm".to_string(),
    }];
    let out = render(c, empty_image());
    assert!(out.contains("--device /dev/sda:/dev/sdb "));
}

#[test]
fn fixed_port_binding_renders_a_publish_flag() {
    let ports = Ports(vec![(
        "80/tcp".to_string(),
        vec![PortInfo {
            host_port: Some("8080".to_string()),
            host_ip: Some("127.0.0.1".to_string()),
        }],
    )]);
    assert_eq!(ports.fragments(), vec!["-p 127.0.0.1:8080:80".to_string()]);
}

#[test]
fn wildcard_host_ip_is_skipped() {
    let ports = Ports(vec![(
        "80/tcp".to_string(),
        vec![PortInfo {
            host_port: Some("8080".to_string()),
            host_ip: Some("0.0.0.0".to_string()),
        }],
    )]);
    assert_eq!(ports.fragments(), Vec::<String>::new());
}

#[test]
fn wildcard_port_and_ipv6_any_are_skipped() {
    let ports = Ports(vec![(
        "80/tcp".to_string(),
        vec![
            PortInfo { host_port: Some("0".to_string()), host_ip: Some("127.0.0.1".to_string()) },
            PortInfo { host_port: Some("8080".to_string()), host_ip: Some("::".to_string()) },
            PortInfo { host_port: Some("8080".to_string()), host_ip: None },
        ],
    )]);
    assert_eq!(ports.fragments(), Vec::<String>::new());
}

#[test]
fn unbound_port_is_exposed() {
    let ports = Ports(vec![("80/tcp".to_string(), vec![])]);
    assert_eq!(ports.fragments(), vec!["--expose=80/".to_string()]);
}

#[test]
fn udp_ports_carry_their_protocol_suffix() {
    let ports = Ports(vec![
        ("53/udp".to_string(), vec![PortInfo {
            host_port: Some("5353".to_string()),
            host_ip: Some("10.0.0.1".to_string()),
        }]),
        ("60/udp".to_string(), vec![]),
    ]);
    assert_eq!(
        ports.fragments(),
        vec!["-p 10.0.0.1:5353:53/udp".to_string(), "--expose=60//udp".to_string()]
    );
}

#[test]
fn tcp_protocol_is_case_insensitive() {
    let ports = Ports(vec![(
        "80/TCP".to_string(),
        vec![PortInfo {
            host_port: Some("8080".to_string()),
            host_ip: Some("127.0.0.1".to_string()),
        }],
    )]);
    assert_eq!(ports.fragments(), vec!["-p 127.0.0.1:8080:80".to_string()]);
}

#[test]
fn malformed_port_key_is_skipped_not_fatal() {
    let ports = Ports(vec![
        ("8080".to_string(), vec![]),
        ("80/tcp/x".to_string(), vec![]),
        ("90/tcp".to_string(), vec![]),
    ]);
    assert_eq!(ports.fragments(), vec!["--expose=90/".to_string()]);
}

#[test]
fn ports_print_joins_fragments_with_spaces() {
    let ports = Ports(vec![
        ("80/tcp".to_string(), vec![PortInfo {
            host_port: Some("8080".to_string()),
            host_ip: Some("127.0.0.1".to_string()),
        }]),
        ("90/tcp".to_string(), vec![]),
    ]);
    assert_eq!(ports.print(), Some("-p 127.0.0.1:8080:80 --expose=90/".to_string()));
    let empty = Ports(vec![]);
    assert_eq!(empty.print(), None);
}

#[test]
fn all_skipped_port_map_prints_an_empty_value() {
    let ports = Ports(vec![(
        "80/tcp".to_string(),
        vec![PortInfo { host_port: Some("0".to_string()), host_ip: Some("::".to_string()) }],
    )]);
    assert_eq!(ports.print(), Some("".to_string()));
}

#[test]
fn decoded_port_bindings_render_publish_flags() {
    let doc = br#"[{
        "Id": "abc123",
        "Name": "/a",
        "Config": {"Hostname": "h", "Env": [], "AttachStdout": true, "Tty": false,
                   "Cmd": [], "Image": "alpine"},
        "HostConfig": {"NetworkMode": "default", "AutoRemove": false, "Privileged": false,
                       "RestartPolicy": {"Name": "no", "MaximumRetryCount": 0}},
        "NetworkSettings": {"Ports": {
            "443/tcp": [{"HostIp": "0.0.0.0", "HostPort": "443"}],
            "80/tcp": [{"HostIp": "127.0.0.1", "HostPort": "8080"}]
        }}
    }]"#;
    let opts = Options::try_new(doc, None, false, true).unwrap();
    let out = opts.print();
    assert_eq!(out, "docker run --hostname=h -p 127.0.0.1:8080:80 alpine \n");
}

#[test]
fn every_simple_flag_renders_in_order() {
    let mut c = plain_container();
    c.config.user = Some("root".to_string());
    c.config.working_dir = Some("/app".to_string());
    c.config.mac_address = Some("02:42:ac:11:00:02".to_string());
    c.config.tty = true;
    c.config.attach_stdout = false;
    c.host_config.pid_mode = Some("host".to_string());
    c.host_config.cpuset_cpus = Some("0-3".to_string());
    c.host_config.cpuset_mems = Some("0".to_string());
    c.host_config.privileged = true;
    c.host_config.auto_remove = true;
    c.host_config.runtime = Some("runc".to_string());
    c.host_config.memory = 1048576;
    c.host_config.memory_reservation = 524288;
    c.host_config.extra_hosts = vec!["me:127.0.0.1".to_string()];
    let out = render(c, empty_image());
    assert_eq!(
        out,
        "docker run --name=mycontainer --hostname=myhost --user=root \
         --mac-address=02:42:ac:11:00:02 --pid=host --cpuset-cpus=0-3 --cpuset-mems=0 \
         --privileged --workdir=/app --add-host me:127.0.0.1 --runtime=runc \
         --memory=\"1048576\" --memory-reservation=\"524288\" --detach=true -t --rm alpine sh\n"
    );
}

#[test]
fn network_settings_mac_is_a_fallback() {
    let mut c = plain_container();
    c.network_settings.mac_address = Some("02:42:ac:11:00:09".to_string());
    let out = render(c, empty_image());
    assert!(out.contains("--mac-address=02:42:ac:11:00:09 "));

    let mut c2 = plain_container();
    c2.config.mac_address = Some("02:42:ac:11:00:01".to_string());
    c2.network_settings.mac_address = Some("02:42:ac:11:00:09".to_string());
    let out2 = render(c2, empty_image());
    assert!(out2.contains("--mac-address=02:42:ac:11:00:01 "));
    assert!(!out2.contains("02:42:ac:11:00:09"));
}

#[test]
fn try_new_decodes_and_renders_end_to_end() {
    let doc = br#"[{
        "Id": "abc123",
        "Name": "/mycontainer",
        "Config": {"Hostname": "myhost", "Env": ["A=1", "B=2"], "AttachStdout": true,
                   "Tty": false, "Cmd": ["sh"], "Image": "alpine"},
        "HostConfig": {"NetworkMode": "default", "AutoRemove": false, "Privileged": false,
                       "RestartPolicy": {"Name": "no", "MaximumRetryCount": 0}},
        "NetworkSettings": {"Ports": null}
    }]"#;
    let img = br#"[{"Config": {"Env": ["B=2"]}}]"#;
    let opts = Options::try_new(doc, Some(img), false, false).unwrap();
    let out = opts.print();
    assert_eq!(
        out,
        "docker run --name=mycontainer --hostname=myhost --env=\"A=1\" alpine sh\n"
    );
}

#[test]
fn try_new_without_image_diffs_nothing() {
    let doc = br#"[{
        "Id": "abc123",
        "Name": "/mycontainer",
        "Config": {"Hostname": "myhost", "Env": ["B=2"], "AttachStdout": true,
                   "Tty": false, "Cmd": ["sh"], "Image": "alpine"},
        "HostConfig": {"NetworkMode": "default", "AutoRemove": false, "Privileged": false,
                       "RestartPolicy": {"Name": "no", "MaximumRetryCount": 0}},
        "NetworkSettings": {"Ports": null}
    }]"#;
    let opts = Options::try_new(doc, None, false, false).unwrap();
    let out = opts.print();
    assert!(out.contains("--env=\"B=2\""));
}
