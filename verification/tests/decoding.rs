use runlike::decode::{decode_container, decode_image, InspectError};

fn minimal_doc() -> &'static [u8] {
    br#"[{
        "Id": "abc123",
        "Name": "/mycontainer",
        "Config": {
            "Hostname": "myhost",
            "Env": [],
            "AttachStdout": true,
            "Tty": false,
            "Cmd": ["sh"],
            "Image": "alpine"
        },
        "HostConfig": {
            "NetworkMode": "default",
            "AutoRemove": false,
            "Privileged": false,
            "RestartPolicy": {"Name": "no", "MaximumRetryCount": 0}
        },
        "NetworkSettings": {"Ports": null}
    }]"#
}

#[test]
fn decodes_minimal_container() {
    let c = decode_container(minimal_doc()).unwrap();
    assert_eq!(c.id, "abc123");
    assert_eq!(c.name, "/mycontainer");
    assert_eq!(c.config.hostname, "myhost");
    assert_eq!(c.config.image, "alpine");
    assert_eq!(c.config.cmd, vec!["sh".to_string()]);
    assert!(c.config.attach_stdout);
    assert!(!c.config.tty);
    assert_eq!(c.host_config.network_mode, "default");
    assert_eq!(c.host_config.memory, 0);
    assert_eq!(c.network_settings.ports.0.len(), 0);
}

#[test]
fn decoding_twice_yields_equal_records() {
    let a = decode_container(minimal_doc()).unwrap();
    let b = decode_container(minimal_doc()).unwrap();
    assert_eq!(format!("{:?}", a), format!("{:?}", b));
}

#[test]
fn empty_input_is_its_own_error() {
    assert_eq!(decode_container(b"").unwrap_err(), InspectError::EmptyInput);
}

#[test]
fn top_level_must_be_an_array() {
    assert_eq!(decode_container(b"{}").unwrap_err(), InspectError::SchemaError);
}

#[test]
fn empty_array_is_a_schema_error() {
    assert_eq!(decode_container(b"[]").unwrap_err(), InspectError::SchemaError);
}

#[test]
fn invalid_json_is_a_schema_error() {
    assert_eq!(decode_container(b"not json at all").unwrap_err(), InspectError::SchemaError);
}

#[test]
fn trailing_elements_are_ignored() {
    let doc = br#"[{
        "Id": "abc123",
        "Name": "/a",
        "Config": {"Hostname": "h", "Env": [], "AttachStdout": true, "Tty": false,
                   "Image": "alpine"},
        "HostConfig": {"NetworkMode": "default", "AutoRemove": false, "Privileged": false,
                       "RestartPolicy": {"Name": "no", "MaximumRetryCount": 0}},
        "NetworkSettings": {"Ports": null}
    }, "this trailing element is not even an object"]"#;
    let c = decode_container(doc).unwrap();
    assert_eq!(c.name, "/a");
}

#[test]
fn missing_required_field_is_a_schema_error() {
    let doc = br#"[{
        "Id": "abc123",
        "Config": {"Hostname": "h", "Env": [], "AttachStdout": true, "Tty": false,
                   "Image": "alpine"},
        "HostConfig": {"NetworkMode": "default", "AutoRemove": false, "Privileged": false,
                       "RestartPolicy": {"Name": "no", "MaximumRetryCount": 0}},
        "NetworkSettings": {"Ports": null}
    }]"#;
    assert_eq!(decode_container(doc).unwrap_err(), InspectError::SchemaError);
}

#[test]
fn wrong_field_type_is_a_schema_error() {
    let doc = br#"[{
        "Id": "abc123",
        "Name": "/a",
        "Config": {"Hostname": "h", "Env": "not a list", "AttachStdout": true, "Tty": false,
                   "Image": "alpine"},
        "HostConfig": {"NetworkMode": "default", "AutoRemove": false, "Privileged": false,
                       "RestartPolicy": {"Name": "no", "MaximumRetryCount": 0}},
        "NetworkSettings": {"Ports": null}
    }]"#;
    assert_eq!(decode_container(doc).unwrap_err(), InspectError::SchemaError);
}

#[test]
fn empty_string_user_is_absent() {
    let doc = br#"[{
        "Id": "abc123",
        "Name": "/a",
        "Config": {"Hostname": "h", "Env": [], "AttachStdout": true, "Tty": false,
                   "Image": "alpine", "User": ""},
        "HostConfig": {"NetworkMode": "default", "AutoRemove": false, "Privileged": false,
                       "RestartPolicy": {"Name": "no", "MaximumRetryCount": 0}},
        "NetworkSettings": {"Ports": null}
    }]"#;
    let c = decode_container(doc).unwrap();
    assert_eq!(c.config.user, None);
}

#[test]
fn non_empty_user_is_present() {
    let doc = br#"[{
        "Id": "abc123",
        "Name": "/a",
        "Config": {"Hostname": "h", "Env": [], "AttachStdout": true, "Tty": false,
                   "Image": "alpine", "User": "root"},
        "HostConfig": {"NetworkMode": "default", "AutoRemove": false, "Privileged": false,
                       "RestartPolicy": {"Name": "no", "MaximumRetryCount": 0}},
        "NetworkSettings": {"Ports": null}
    }]"#;
    let c = decode_container(doc).unwrap();
    assert_eq!(c.config.user, Some("root".to_string()));
}

#[test]
fn null_binds_decode_to_empty_collection() {
    let doc = br#"[{
        "Id": "abc123",
        "Name": "/a",
        "Config": {"Hostname": "h", "Env": null, "AttachStdout": true, "Tty": false,
                   "Image": "alpine", "Cmd": null},
        "HostConfig": {"NetworkMode": "default", "AutoRemove": false, "Privileged": false,
                       "Binds": null, "Dns": null,
                       "RestartPolicy": {"Name": "no", "MaximumRetryCount": 0}},
        "NetworkSettings": {"Ports": null}
    }]"#;
    let c = decode_container(doc).unwrap();
    assert!(c.host_config.binds.is_empty());
    assert!(c.host_config.dns.is_empty());
    assert!(c.config.env.is_empty());
    assert!(c.config.cmd.is_empty());
}

#[test]
fn negative_memory_is_a_schema_error() {
    let doc = br#"[{
        "Id": "abc123",
        "Name": "/a",
        "Config": {"Hostname": "h", "Env": [], "AttachStdout": true, "Tty": false,
                   "Image": "alpine"},
        "HostConfig": {"NetworkMode": "default", "AutoRemove": false, "Privileged": false,
                       "Memory": -5,
                       "RestartPolicy": {"Name": "no", "MaximumRetryCount": 0}},
        "NetworkSettings": {"Ports": null}
    }]"#;
    assert_eq!(decode_container(doc).unwrap_err(), InspectError::SchemaError);
}

#[test]
fn decodes_full_host_config() {
    let doc = br#"[{
        "Id": "abc123",
        "Name": "/a",
        "Config": {"Hostname": "h", "Env": ["A=1"], "AttachStdout": false, "Tty": true,
                   "Image": "alpine", "WorkingDir": "/app", "MacAddress": "02:42:ac:11:00:02"},
        "HostConfig": {"NetworkMode": "host", "AutoRemove": true, "Privileged": true,
                       "Runtime": "runc", "CpusetCpus": "0-3", "CpusetMems": "0",
                       "PidMode": "host",
                       "Binds": ["/data:/data"], "VolumesFrom": ["other"],
                       "CapAdd": ["NET_ADMIN"], "CapDrop": ["MKNOD"], "Dns": ["8.8.8.8"],
                       "Memory": 1048576, "MemoryReservation": 524288,
                       "ExtraHosts": ["me:127.0.0.1"],
                       "Devices": [{"PathOnHost": "/dev/sda", "PathInContainer": "/dev/sda",
                                    "CgroupPermissions": "rwm"}],
                       "RestartPolicy": {"Name": "always", "MaximumRetryCount": 0}},
        "NetworkSettings": {"MacAddress": "", "Ports": {"80/tcp": null}}
    }]"#;
    let c = decode_container(doc).unwrap();
    assert_eq!(c.host_config.runtime, Some("runc".to_string()));
    assert_eq!(c.host_config.cpuset_cpus, Some("0-3".to_string()));
    assert_eq!(c.host_config.pid_mode, Some("host".to_string()));
    assert_eq!(c.host_config.binds, vec!["/data:/data".to_string()]);
    assert_eq!(c.host_config.memory, 1048576);
    assert_eq!(c.host_config.memory_reservation, 524288);
    assert_eq!(c.host_config.devices.len(), 1);
    assert_eq!(c.host_config.restart_policy.name, "always");
    assert_eq!(c.network_settings.mac_address, None);
    assert_eq!(c.network_settings.ports.0.len(), 1);
    assert_eq!(c.network_settings.ports.0[0].0, "80/tcp");
    assert!(c.network_settings.ports.0[0].1.is_empty());
}

#[test]
fn decodes_minimal_image() {
    let doc = br#"[{"Config": {"Env": ["PATH=/usr/bin"]}}]"#;
    let img = decode_image(doc).unwrap();
    assert_eq!(img.config.env, vec!["PATH=/usr/bin".to_string()]);
    assert!(img.host_config.binds.is_empty());
    assert!(img.host_config.dns.is_empty());
}

#[test]
fn image_null_host_config_defaults() {
    let doc = br#"[{"Config": {"Env": []}, "HostConfig": null}]"#;
    let img = decode_image(doc).unwrap();
    assert!(img.host_config.cap_add.is_empty());
}

#[test]
fn image_empty_array_is_a_schema_error() {
    assert_eq!(decode_image(b"[]").unwrap_err(), InspectError::SchemaError);
}

#[test]
fn image_decoding_twice_yields_equal_records() {
    let doc = br#"[{"Config": {"Env": ["A=1", "B=2"]}}]"#;
    let a = decode_image(doc).unwrap();
    let b = decode_image(doc).unwrap();
    assert_eq!(format!("{:?}", a), format!("{:?}", b));
}
