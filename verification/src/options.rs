//! The reconstruction engine: maps one container record and one image
//! record to the `docker run` command line that would recreate the
//! container, as a single rendered string.
//!
//! The flag order is fixed; every setting that merely repeats a
//! default baked into the image (environment entries, volume binds and
//! their kin) is suppressed, as are the implicit network modes.

use vstd::prelude::*;
use vstd::string::StringExecFns;
use crate::decode::InspectError;
use crate::decode::spec_decode_container;
use crate::decode::spec_decode_image;
use crate::model::container::DockerInspect;
use crate::model::container::DockerInspectView;
use crate::model::container::Device;
use crate::model::container::spec_device;
use crate::model::container::spec_join_space;
use crate::model::container::spec_ports;
use crate::model::container::spec_restart;
use crate::model::image::ImageInspect;
use crate::model::image::ImageInspectView;
use crate::model::image::spec_image_default;
use crate::model::AttrPrinter;
use crate::util::contains_str;
use crate::util::opt_view;
use crate::util::seq_views;
use crate::util::spec_dec_nat;
use crate::util::spec_starts_with;
use crate::util::spec_strip_slashes;
use crate::util::str_eq;
use crate::util::str_starts_with;
use crate::util::strip_slashes;
use crate::util::u64_dec;

verus! {

/// The separator written after each flag: a single space, or a line
/// continuation in pretty mode.
pub open spec fn spec_sep(pretty: bool) -> Seq<char> {
    if pretty {
        " \\\n\t"@
    } else {
        " "@
    }
}

/// A flag with a value that may be absent.
pub open spec fn spec_opt_flag(prefix: Seq<char>, v: Option<Seq<char>>) -> Seq<Seq<char>> {
    match v {
        Some(s) => seq![prefix + s],
        None => Seq::empty(),
    }
}

/// A bare flag emitted only under a condition.
pub open spec fn spec_cond_flag(c: bool, frag: Seq<char>) -> Seq<Seq<char>> {
    if c {
        seq![frag]
    } else {
        Seq::empty()
    }
}

/// The first of two optional values, preferring the first.
pub open spec fn spec_or_opt(a: Option<Seq<char>>, b: Option<Seq<char>>) -> Option<Seq<char>> {
    if a is Some {
        a
    } else {
        b
    }
}

/// One quoted flag per item of `items` that is not among the image's
/// defaults `excl`, in item order.
pub open spec fn spec_diff_flags(
    prefix: Seq<char>,
    items: Seq<Seq<char>>,
    excl: Seq<Seq<char>>,
) -> Seq<Seq<char>>
    decreases items.len(),
{
    if items.len() == 0 {
        Seq::empty()
    } else {
        spec_diff_flags(prefix, items.drop_last(), excl) + (if excl.contains(items.last()) {
            Seq::empty()
        } else {
            seq![prefix + "\""@ + items.last() + "\""@]
        })
    }
}

/// One `--device` flag per device mapping, in list order.
pub open spec fn spec_device_flags(devices: Seq<crate::model::container::DeviceView>) -> Seq<
    Seq<char>,
>
    decreases devices.len(),
{
    if devices.len() == 0 {
        Seq::empty()
    } else {
        spec_device_flags(devices.drop_last()) + seq!["--device "@ + spec_device(devices.last())]
    }
}

/// One `--add-host` flag per extra host entry, in list order.
pub open spec fn spec_add_host_flags(hosts: Seq<Seq<char>>) -> Seq<Seq<char>>
    decreases hosts.len(),
{
    if hosts.len() == 0 {
        Seq::empty()
    } else {
        spec_add_host_flags(hosts.drop_last()) + seq!["--add-host "@ + hosts.last()]
    }
}

/// The identity and placement flags: name, hostname, user, MAC
/// address, pid namespace and cpu pinning.
///
/// The `--hostname=` flag is suppressed when the container id starts
/// with the hostname: the tool assigns the short id as hostname when
/// none was chosen, and rendering it back would pin an accidental
/// value.
pub open spec fn spec_flags_head(c: DockerInspectView, no_name: bool) -> Seq<Seq<char>> {
    spec_cond_flag(!no_name, "--name="@ + spec_strip_slashes(c.name)) + spec_cond_flag(
        !spec_starts_with(c.id, c.config.hostname),
        "--hostname="@ + c.config.hostname,
    ) + spec_opt_flag("--user="@, c.config.user) + spec_opt_flag(
        "--mac-address="@,
        spec_or_opt(c.config.mac_address, c.network_settings.mac_address),
    ) + spec_opt_flag("--pid="@, c.host_config.pid_mode) + spec_opt_flag(
        "--cpuset-cpus="@,
        c.host_config.cpuset_cpus,
    ) + spec_opt_flag("--cpuset-mems="@, c.host_config.cpuset_mems)
}

/// The flags diffed against the image's baked-in defaults, in the
/// container's own order: environment, volumes, and their kin.
pub open spec fn spec_flags_diffs(c: DockerInspectView, img: ImageInspectView) -> Seq<Seq<char>> {
    spec_diff_flags("--env="@, c.config.env, img.env) + spec_diff_flags(
        "--volume="@,
        c.host_config.binds,
        img.binds,
    ) + spec_diff_flags("--volumes-from="@, c.host_config.volumes_from, img.volumes_from)
        + spec_diff_flags("--cap-add="@, c.host_config.cap_add, img.cap_add) + spec_diff_flags(
        "--cap-drop="@,
        c.host_config.cap_drop,
        img.cap_drop,
    ) + spec_diff_flags("--dns="@, c.host_config.dns, img.dns)
}

/// The run-mode flags: network (the implicit `default` and `bridge`
/// modes are left off), privilege, working directory, restart policy,
/// devices, ports, extra hosts and runtime.
pub open spec fn spec_flags_mid(c: DockerInspectView) -> Seq<Seq<char>> {
    spec_cond_flag(
        c.host_config.network_mode != "default"@ && c.host_config.network_mode != "bridge"@,
        "--network="@ + c.host_config.network_mode,
    ) + spec_cond_flag(c.host_config.privileged, "--privileged"@) + spec_opt_flag(
        "--workdir="@,
        c.config.working_dir,
    ) + (match spec_restart(c.host_config.restart_policy) {
        Some(s) => seq!["--restart="@ + s],
        None => Seq::<Seq<char>>::empty(),
    }) + spec_device_flags(c.host_config.devices) + spec_ports(c.network_settings.ports)
        + spec_add_host_flags(c.host_config.extra_hosts) + spec_opt_flag(
        "--runtime="@,
        c.host_config.runtime,
    )
}

/// The closing flags: memory limits (zero means unset), detach mode,
/// terminal and removal.
pub open spec fn spec_flags_tail(c: DockerInspectView) -> Seq<Seq<char>> {
    spec_cond_flag(
        c.host_config.memory != 0,
        "--memory=\""@ + spec_dec_nat(c.host_config.memory as nat) + "\""@,
    ) + spec_cond_flag(
        c.host_config.memory_reservation != 0,
        "--memory-reservation=\""@ + spec_dec_nat(c.host_config.memory_reservation as nat) + "\""@,
    ) + spec_cond_flag(!c.config.attach_stdout, "--detach=true"@) + spec_cond_flag(
        c.config.tty,
        "-t"@,
    ) + spec_cond_flag(c.host_config.auto_remove, "--rm"@)
}

/// The ordered flag fragments of the reconstructed command, up to but
/// not holding the positional image name.
pub open spec fn spec_flags(c: DockerInspectView, img: ImageInspectView, no_name: bool) -> Seq<
    Seq<char>,
> {
    spec_flags_head(c, no_name) + spec_flags_diffs(c, img) + spec_flags_mid(c) + spec_flags_tail(c)
}

/// The joining of fragments, each followed by the separator.
pub open spec fn spec_joined(frags: Seq<Seq<char>>, sep: Seq<char>) -> Seq<char>
    decreases frags.len(),
{
    if frags.len() == 0 {
        Seq::empty()
    } else {
        spec_joined(frags.drop_last(), sep) + frags.last() + sep
    }
}

/// The whole rendered command: the fixed `docker run ` head, every
/// flag and the image name each followed by the separator, the
/// space-joined command tokens (nothing when the command is empty),
/// and a final newline.
pub open spec fn spec_print(
    c: DockerInspectView,
    img: ImageInspectView,
    pretty: bool,
    no_name: bool,
) -> Seq<char> {
    "docker run "@ + spec_joined(spec_flags(c, img, no_name).push(c.config.image), spec_sep(pretty))
        + spec_join_space(c.config.cmd) + "\n"@
}

fn emit(frags: &mut Vec<String>, s: String)
    ensures
        seq_views(final(frags)@) == seq_views(old(frags)@) + seq![s@],
{
    let ghost prev = frags@;
    let ghost sv = s@;
    frags.push(s);
    proof {
        assert(seq_views(frags@) =~= seq_views(prev) + seq![sv]);
    }
}

fn opt_as_ref(o: &Option<String>) -> (r: Option<&String>)
    ensures
        match r {
            Some(s) => opt_view(*o) == Some(s@),
            None => opt_view(*o) is None,
        },
{
    match o {
        Some(s) => Some(s),
        None => None,
    }
}

fn emit_opt(frags: &mut Vec<String>, prefix: &str, v: Option<&String>)
    ensures
        seq_views(final(frags)@) == seq_views(old(frags)@) + spec_opt_flag(
            prefix@,
            match v {
                Some(s) => Some(s@),
                None => None,
            },
        ),
{
    match v {
        Some(s) => {
            let f = String::from_str(prefix).concat(s.as_str());
            emit(frags, f);
        },
        None => {
            proof {
                assert(seq_views(frags@) =~= seq_views(frags@) + Seq::<Seq<char>>::empty());
            }
        },
    }
}

fn emit_cond(frags: &mut Vec<String>, c: bool, flag: &str)
    ensures
        seq_views(final(frags)@) == seq_views(old(frags)@) + spec_cond_flag(c, flag@),
{
    if c {
        emit(frags, flag.to_owned());
    } else {
        proof {
            assert(seq_views(frags@) =~= seq_views(frags@) + Seq::<Seq<char>>::empty());
        }
    }
}

fn emit_diff(frags: &mut Vec<String>, prefix: &str, items: &Vec<String>, excl: &Vec<String>)
    ensures
        seq_views(final(frags)@) == seq_views(old(frags)@) + spec_diff_flags(
            prefix@,
            seq_views(items@),
            seq_views(excl@),
        ),
{
    let ghost iviews = seq_views(items@);
    let ghost eviews = seq_views(excl@);
    proof {
        assert(iviews.take(0) =~= Seq::<Seq<char>>::empty());
    }
    let mut i: usize = 0;
    while i < items.len()
        invariant
            0 <= i <= items@.len(),
            iviews == seq_views(items@),
            eviews == seq_views(excl@),
            seq_views(frags@) == seq_views(old(frags)@) + spec_diff_flags(
                prefix@,
                iviews.take(i as int),
                eviews,
            ),
        decreases items@.len() - i,
    {
        proof {
            assert(iviews.take(i + 1).drop_last() =~= iviews.take(i as int));
            assert(iviews.take(i + 1).last() == items@[i as int]@);
        }
        if !contains_str(excl, items[i].as_str()) {
            let f = String::from_str(prefix).concat("\"").concat(items[i].as_str()).concat("\"");
            assert(f@ =~= prefix@ + "\""@ + items@[i as int]@ + "\""@);
            emit(frags, f);
        } else {
            proof {
                assert(seq_views(frags@) =~= seq_views(frags@) + Seq::<Seq<char>>::empty());
            }
        }
        i = i + 1;
    }
    proof {
        assert(iviews.take(items@.len() as int) =~= iviews);
    }
}

fn emit_devices(frags: &mut Vec<String>, devices: &Vec<Device>)
    ensures
        seq_views(final(frags)@) == seq_views(old(frags)@) + spec_device_flags(
            Seq::new(devices@.len(), |i: int| devices@[i]@),
        ),
{
    let ghost dviews = Seq::new(devices@.len(), |i: int| devices@[i]@);
    proof {
        assert(dviews.take(0) =~= Seq::<crate::model::container::DeviceView>::empty());
    }
    let mut i: usize = 0;
    while i < devices.len()
        invariant
            0 <= i <= devices@.len(),
            dviews == Seq::new(devices@.len(), |k: int| devices@[k]@),
            seq_views(frags@) == seq_views(old(frags)@) + spec_device_flags(dviews.take(i as int)),
        decreases devices@.len() - i,
    {
        proof {
            assert(dviews.take(i + 1).drop_last() =~= dviews.take(i as int));
            assert(dviews.take(i + 1).last() == devices@[i as int]@);
        }
        let f = String::from_str("--device ").concat(devices[i].render().as_str());
        emit(frags, f);
        i = i + 1;
    }
    proof {
        assert(dviews.take(devices@.len() as int) =~= dviews);
    }
}

fn emit_hosts(frags: &mut Vec<String>, hosts: &Vec<String>)
    ensures
        seq_views(final(frags)@) == seq_views(old(frags)@) + spec_add_host_flags(seq_views(hosts@)),
{
    let ghost hviews = seq_views(hosts@);
    proof {
        assert(hviews.take(0) =~= Seq::<Seq<char>>::empty());
    }
    let mut i: usize = 0;
    while i < hosts.len()
        invariant
            0 <= i <= hosts@.len(),
            hviews == seq_views(hosts@),
            seq_views(frags@) == seq_views(old(frags)@) + spec_add_host_flags(
                hviews.take(i as int),
            ),
        decreases hosts@.len() - i,
    {
        proof {
            assert(hviews.take(i + 1).drop_last() =~= hviews.take(i as int));
            assert(hviews.take(i + 1).last() == hosts@[i as int]@);
        }
        let f = String::from_str("--add-host ").concat(hosts[i].as_str());
        emit(frags, f);
        i = i + 1;
    }
    proof {
        assert(hviews.take(hosts@.len() as int) =~= hviews);
    }
}

fn emit_all(frags: &mut Vec<String>, add: Vec<String>)
    ensures
        seq_views(final(frags)@) == seq_views(old(frags)@) + seq_views(add@),
{
    let ghost aviews = seq_views(add@);
    proof {
        assert(aviews.take(0) =~= Seq::<Seq<char>>::empty());
    }
    let mut i: usize = 0;
    while i < add.len()
        invariant
            0 <= i <= add@.len(),
            aviews == seq_views(add@),
            seq_views(frags@) == seq_views(old(frags)@) + aviews.take(i as int),
        decreases add@.len() - i,
    {
        proof {
            assert(aviews.take(i + 1) =~= aviews.take(i as int) + seq![add@[i as int]@]);
        }
        emit(frags, add[i].clone());
        i = i + 1;
    }
    proof {
        assert(aviews.take(add@.len() as int) =~= aviews);
    }
}

#[verifier::rlimit(60)]
fn emit_head(frags: &mut Vec<String>, c: &DockerInspect, no_name: bool)
    ensures
        seq_views(final(frags)@) == seq_views(old(frags)@) + spec_flags_head(c@, no_name),
{
    let ghost base = seq_views(frags@);
    let ghost mut acc: Seq<Seq<char>> = Seq::empty();

    if !no_name {
        let f = String::from_str("--name=").concat(strip_slashes(c.name.as_str()).as_str());
        emit(frags, f);
    }
    proof {
        acc = spec_cond_flag(!no_name, "--name="@ + spec_strip_slashes(c@.name));
        assert(seq_views(frags@) =~= base + acc);
    }

    if !str_starts_with(c.id.as_str(), c.config.hostname.as_str()) {
        let f = String::from_str("--hostname=").concat(c.config.hostname.as_str());
        emit(frags, f);
    }
    proof {
        let s = spec_cond_flag(
            !spec_starts_with(c@.id, c@.config.hostname),
            "--hostname="@ + c@.config.hostname,
        );
        assert(seq_views(frags@) =~= base + (acc + s));
        acc = acc + s;
    }

    emit_opt(frags, "--user=", opt_as_ref(&c.config.user));
    proof {
        let s = spec_opt_flag("--user="@, c@.config.user);
        assert(seq_views(frags@) =~= base + (acc + s));
        acc = acc + s;
    }

    let mac = match opt_as_ref(&c.config.mac_address) {
        Some(m) => Some(m),
        None => opt_as_ref(&c.network_settings.mac_address),
    };
    assert(match mac {
        Some(s) => spec_or_opt(c@.config.mac_address, c@.network_settings.mac_address) == Some(s@),
        None => spec_or_opt(c@.config.mac_address, c@.network_settings.mac_address) is None,
    });
    emit_opt(frags, "--mac-address=", mac);
    proof {
        let s = spec_opt_flag(
            "--mac-address="@,
            spec_or_opt(c@.config.mac_address, c@.network_settings.mac_address),
        );
        assert(seq_views(frags@) =~= base + (acc + s));
        acc = acc + s;
    }

    emit_opt(frags, "--pid=", opt_as_ref(&c.host_config.pid_mode));
    proof {
        let s = spec_opt_flag("--pid="@, c@.host_config.pid_mode);
        assert(seq_views(frags@) =~= base + (acc + s));
        acc = acc + s;
    }

    emit_opt(frags, "--cpuset-cpus=", opt_as_ref(&c.host_config.cpuset_cpus));
    proof {
        let s = spec_opt_flag("--cpuset-cpus="@, c@.host_config.cpuset_cpus);
        assert(seq_views(frags@) =~= base + (acc + s));
        acc = acc + s;
    }

    emit_opt(frags, "--cpuset-mems=", opt_as_ref(&c.host_config.cpuset_mems));
    proof {
        let s = spec_opt_flag("--cpuset-mems="@, c@.host_config.cpuset_mems);
        assert(seq_views(frags@) =~= base + (acc + s));
        acc = acc + s;
        assert(acc == spec_flags_head(c@, no_name));
    }
}

fn emit_diffs(frags: &mut Vec<String>, c: &DockerInspect, img: &ImageInspect)
    ensures
        seq_views(final(frags)@) == seq_views(old(frags)@) + spec_flags_diffs(c@, img@),
{
    let ghost base = seq_views(frags@);
    let ghost mut acc: Seq<Seq<char>> = Seq::empty();

    emit_diff(frags, "--env=", &c.config.env, &img.config.env);
    proof {
        acc = spec_diff_flags("--env="@, c@.config.env, img@.env);
        assert(seq_views(frags@) =~= base + acc);
    }

    emit_diff(frags, "--volume=", &c.host_config.binds, &img.host_config.binds);
    proof {
        let s = spec_diff_flags("--volume="@, c@.host_config.binds, img@.binds);
        assert(seq_views(frags@) =~= base + (acc + s));
        acc = acc + s;
    }

    emit_diff(
        frags,
        "--volumes-from=",
        &c.host_config.volumes_from,
        &img.host_config.volumes_from,
    );
    proof {
        let s = spec_diff_flags("--volumes-from="@, c@.host_config.volumes_from, img@.volumes_from);
        assert(seq_views(frags@) =~= base + (acc + s));
        acc = acc + s;
    }

    emit_diff(frags, "--cap-add=", &c.host_config.cap_add, &img.host_config.cap_add);
    proof {
        let s = spec_diff_flags("--cap-add="@, c@.host_config.cap_add, img@.cap_add);
        assert(seq_views(frags@) =~= base + (acc + s));
        acc = acc + s;
    }

    emit_diff(frags, "--cap-drop=", &c.host_config.cap_drop, &img.host_config.cap_drop);
    proof {
        let s = spec_diff_flags("--cap-drop="@, c@.host_config.cap_drop, img@.cap_drop);
        assert(seq_views(frags@) =~= base + (acc + s));
        acc = acc + s;
    }

    emit_diff(frags, "--dns=", &c.host_config.dns, &img.host_config.dns);
    proof {
        let s = spec_diff_flags("--dns="@, c@.host_config.dns, img@.dns);
        assert(seq_views(frags@) =~= base + (acc + s));
        acc = acc + s;
        assert(acc == spec_flags_diffs(c@, img@));
    }
}

fn emit_mid(frags: &mut Vec<String>, c: &DockerInspect)
    ensures
        seq_views(final(frags)@) == seq_views(old(frags)@) + spec_flags_mid(c@),
{
    let ghost base = seq_views(frags@);
    let ghost mut acc: Seq<Seq<char>> = Seq::empty();

    let plain_net = str_eq(c.host_config.network_mode.as_str(), "default") || str_eq(
        c.host_config.network_mode.as_str(),
        "bridge",
    );
    if !plain_net {
        let f = String::from_str("--network=").concat(c.host_config.network_mode.as_str());
        emit(frags, f);
    }
    proof {
        acc = spec_cond_flag(
            c@.host_config.network_mode != "default"@ && c@.host_config.network_mode != "bridge"@,
            "--network="@ + c@.host_config.network_mode,
        );
        assert(seq_views(frags@) =~= base + acc);
    }

    emit_cond(frags, c.host_config.privileged, "--privileged");
    proof {
        let s = spec_cond_flag(c@.host_config.privileged, "--privileged"@);
        assert(seq_views(frags@) =~= base + (acc + s));
        acc = acc + s;
    }

    emit_opt(frags, "--workdir=", opt_as_ref(&c.config.working_dir));
    proof {
        let s = spec_opt_flag("--workdir="@, c@.config.working_dir);
        assert(seq_views(frags@) =~= base + (acc + s));
        acc = acc + s;
    }

    match c.host_config.restart_policy.print() {
        Some(s) => {
            let f = String::from_str("--restart=").concat(s.as_str());
            emit(frags, f);
        },
        None => {},
    }
    proof {
        let s = match spec_restart(c@.host_config.restart_policy) {
            Some(x) => seq!["--restart="@ + x],
            None => Seq::<Seq<char>>::empty(),
        };
        assert(seq_views(frags@) =~= base + (acc + s));
        acc = acc + s;
    }

    emit_devices(frags, &c.host_config.devices);
    proof {
        let s = spec_device_flags(c@.host_config.devices);
        assert(seq_views(frags@) =~= base + (acc + s));
        acc = acc + s;
    }

    emit_all(frags, c.network_settings.ports.fragments());
    proof {
        let s = spec_ports(c@.network_settings.ports);
        assert(seq_views(frags@) =~= base + (acc + s));
        acc = acc + s;
    }

    emit_hosts(frags, &c.host_config.extra_hosts);
    proof {
        let s = spec_add_host_flags(c@.host_config.extra_hosts);
        assert(seq_views(frags@) =~= base + (acc + s));
        acc = acc + s;
    }

    emit_opt(frags, "--runtime=", opt_as_ref(&c.host_config.runtime));
    proof {
        let s = spec_opt_flag("--runtime="@, c@.host_config.runtime);
        assert(seq_views(frags@) =~= base + (acc + s));
        acc = acc + s;
        assert(acc == spec_flags_mid(c@));
    }
}

fn emit_tail(frags: &mut Vec<String>, c: &DockerInspect)
    ensures
        seq_views(final(frags)@) == seq_views(old(frags)@) + spec_flags_tail(c@),
{
    let ghost base = seq_views(frags@);
    let ghost mut acc: Seq<Seq<char>> = Seq::empty();

    if c.host_config.memory != 0 {
        let f = String::from_str("--memory=\"").concat(u64_dec(c.host_config.memory).as_str())
            .concat("\"");
        assert(f@ =~= "--memory=\""@ + spec_dec_nat(c@.host_config.memory as nat) + "\""@);
        emit(frags, f);
    }
    proof {
        acc = spec_cond_flag(
            c@.host_config.memory != 0,
            "--memory=\""@ + spec_dec_nat(c@.host_config.memory as nat) + "\""@,
        );
        assert(seq_views(frags@) =~= base + acc);
    }

    if c.host_config.memory_reservation != 0 {
        let f = String::from_str("--memory-reservation=\"").concat(
            u64_dec(c.host_config.memory_reservation).as_str(),
        ).concat("\"");
        assert(f@ =~= "--memory-reservation=\""@ + spec_dec_nat(
            c@.host_config.memory_reservation as nat,
        ) + "\""@);
        emit(frags, f);
    }
    proof {
        let s = spec_cond_flag(
            c@.host_config.memory_reservation != 0,
            "--memory-reservation=\""@ + spec_dec_nat(c@.host_config.memory_reservation as nat)
                + "\""@,
        );
        assert(seq_views(frags@) =~= base + (acc + s));
        acc = acc + s;
    }

    emit_cond(frags, !c.config.attach_stdout, "--detach=true");
    proof {
        let s = spec_cond_flag(!c@.config.attach_stdout, "--detach=true"@);
        assert(seq_views(frags@) =~= base + (acc + s));
        acc = acc + s;
    }

    emit_cond(frags, c.config.tty, "-t");
    proof {
        let s = spec_cond_flag(c@.config.tty, "-t"@);
        assert(seq_views(frags@) =~= base + (acc + s));
        acc = acc + s;
    }

    emit_cond(frags, c.host_config.auto_remove, "--rm");
    proof {
        let s = spec_cond_flag(c@.host_config.auto_remove, "--rm"@);
        assert(seq_views(frags@) =~= base + (acc + s));
        acc = acc + s;
        assert(acc == spec_flags_tail(c@));
    }
}

/// A decoded container, the image it came from (all-empty when no
/// image lookup was performed), and the two behavioral choices of the
/// rendering.
#[derive(Debug)]
pub struct Options {
    pub container: DockerInspect,
    pub image: ImageInspect,
    pub pretty: bool,
    pub no_name: bool,
}

impl Options {
    /// Pairs an already-decoded container and image.
    pub fn new(container: DockerInspect, image: ImageInspect, pretty: bool, no_name: bool) -> (r:
        Options)
        ensures
            r.container == container,
            r.image == image,
            r.pretty == pretty,
            r.no_name == no_name,
    {
        Options { container, image, pretty, no_name }
    }

    /// Decodes a container document and, when one is given, an image
    /// document; with no image document the all-empty image record is
    /// used, so nothing is diffed away.
    pub fn try_new(
        container_bytes: &[u8],
        image_bytes: Option<&[u8]>,
        pretty: bool,
        no_name: bool,
    ) -> (r: Result<Options, InspectError>)
        ensures
            match r {
                Ok(o) => {
                    &&& o.pretty == pretty
                    &&& o.no_name == no_name
                    &&& spec_decode_container(container_bytes@) == Ok::<
                        DockerInspectView,
                        InspectError,
                    >(o.container@)
                    &&& match image_bytes {
                        Some(ib) => spec_decode_image(ib@) == Ok::<ImageInspectView, InspectError>(
                            o.image@,
                        ),
                        None => o.image@ == spec_image_default(),
                    }
                },
                Err(e) => spec_decode_container(container_bytes@) == Err::<
                    DockerInspectView,
                    InspectError,
                >(e) || (spec_decode_container(container_bytes@) is Ok && match image_bytes {
                    Some(ib) => spec_decode_image(ib@) == Err::<ImageInspectView, InspectError>(e),
                    None => false,
                }),
            },
    {
        let container = crate::decode::decode_container(container_bytes)?;
        let image = match image_bytes {
            Some(ib) => crate::decode::decode_image(ib)?,
            None => ImageInspect::default(),
        };
        Ok(Options { container, image, pretty, no_name })
    }

    /// Renders the whole command line.
    pub fn print(&self) -> (out: String)
        ensures
            out@ == spec_print(self.container@, self.image@, self.pretty, self.no_name),
    {
        let c = &self.container;
        let img = &self.image;
        let sep: &str = if self.pretty {
            " \\\n\t"
        } else {
            " "
        };
        assert(sep@ == spec_sep(self.pretty));

        let mut frags: Vec<String> = Vec::new();
        proof {
            assert(seq_views(frags@) =~= Seq::<Seq<char>>::empty());
        }
        emit_head(&mut frags, c, self.no_name);
        proof {
            assert(Seq::<Seq<char>>::empty() + spec_flags_head(c@, self.no_name)
                =~= spec_flags_head(c@, self.no_name));
        }
        emit_diffs(&mut frags, c, img);
        emit_mid(&mut frags, c);
        emit_tail(&mut frags, c);
        assert(seq_views(frags@) == spec_flags(c@, img@, self.no_name));

        emit(&mut frags, c.config.image.clone());
        assert(seq_views(frags@) =~= spec_flags(c@, img@, self.no_name).push(c@.config.image));

        let mut out = String::from_str("docker run ");
        let ghost fviews = seq_views(frags@);
        proof {
            assert(fviews.take(0) =~= Seq::<Seq<char>>::empty());
        }
        let mut i: usize = 0;
        while i < frags.len()
            invariant
                0 <= i <= frags@.len(),
                fviews == seq_views(frags@),
                sep@ == spec_sep(self.pretty),
                out@ == "docker run "@ + spec_joined(fviews.take(i as int), sep@),
            decreases frags@.len() - i,
        {
            proof {
                assert(fviews.take(i + 1).drop_last() =~= fviews.take(i as int));
                assert(fviews.take(i + 1).last() == frags@[i as int]@);
            }
            out.append(frags[i].as_str());
            out.append(sep);
            i = i + 1;
        }
        proof {
            assert(fviews.take(frags@.len() as int) =~= fviews);
        }

        let cmd = &c.config.cmd;
        let ghost cviews = seq_views(cmd@);
        let ghost base = out@;
        let mut k: usize = 0;
        while k < cmd.len()
            invariant
                0 <= k <= cmd@.len(),
                cviews == seq_views(cmd@),
                base + spec_join_space(cviews.take(k as int)) == out@,
            decreases cmd@.len() - k,
        {
            proof {
                assert(cviews.take(k + 1).drop_last() =~= cviews.take(k as int));
                assert(cviews.take(k + 1).last() == cmd@[k as int]@);
                reveal_strlit(" ");
            }
            if k > 0 {
                out.append(" ");
                assert(out@ == base + spec_join_space(cviews.take(k as int)) + seq![' ']);
            } else {
                assert(cviews.take(1)[0] == cmd@[0]@);
                assert(base + Seq::<char>::empty() =~= base);
            }
            out.append(cmd[k].as_str());
            k = k + 1;
        }
        proof {
            assert(cviews.take(cmd@.len() as int) =~= cviews);
        }
        out.append("\n");
        out
    }
}

} // verus!
