//! Laws of the reconstruction engine, stated and proved over the same
//! spec functions that the renderer's contracts use.

use vstd::prelude::*;
use crate::model::container::DockerInspectView;
use crate::model::container::PortInfoView;
use crate::model::container::spec_one_bind;
use crate::model::container::spec_port_binds;
use crate::model::container::spec_port_entry;
use crate::model::container::spec_ports;
use crate::model::container::spec_restart;
use crate::model::container::spec_slash_count;
use crate::model::image::ImageInspectView;
use crate::options::spec_add_host_flags;
use crate::options::spec_cond_flag;
use crate::options::spec_device_flags;
use crate::options::spec_diff_flags;
use crate::options::spec_flags;
use crate::options::spec_flags_diffs;
use crate::options::spec_flags_head;
use crate::options::spec_flags_mid;
use crate::options::spec_flags_tail;
use crate::options::spec_opt_flag;
use crate::util::spec_starts_with;

verus! {

/// The entries of `items` that are not among `excl`, in item order:
/// the values whose flags the diffing emits.
pub open spec fn spec_diff(items: Seq<Seq<char>>, excl: Seq<Seq<char>>) -> Seq<Seq<char>>
    decreases items.len(),
{
    if items.len() == 0 {
        Seq::empty()
    } else {
        spec_diff(items.drop_last(), excl) + (if excl.contains(items.last()) {
            Seq::empty()
        } else {
            seq![items.last()]
        })
    }
}

/// The emitted flags are exactly the kept entries, each wrapped as
/// `prefix"entry"`, in the same order.
pub proof fn lemma_diff_flags_shape(prefix: Seq<char>, items: Seq<Seq<char>>, excl: Seq<Seq<char>>)
    ensures
        spec_diff_flags(prefix, items, excl).len() == spec_diff(items, excl).len(),
        forall|k: int|
            #![trigger spec_diff_flags(prefix, items, excl)[k]]
            0 <= k < spec_diff_flags(prefix, items, excl).len() ==> spec_diff_flags(
                prefix,
                items,
                excl,
            )[k] == prefix + "\""@ + spec_diff(items, excl)[k] + "\""@,
    decreases items.len(),
{
    if items.len() > 0 {
        lemma_diff_flags_shape(prefix, items.drop_last(), excl);
    }
}

/// Every kept entry lies in the set difference `items \ excl`.
pub proof fn lemma_diff_members(items: Seq<Seq<char>>, excl: Seq<Seq<char>>)
    ensures
        forall|k: int|
            #![trigger spec_diff(items, excl)[k]]
            0 <= k < spec_diff(items, excl).len() ==> items.to_set().difference(
                excl.to_set(),
            ).contains(spec_diff(items, excl)[k]),
    decreases items.len(),
{
    broadcast use vstd::set::group_set_axioms;

    if items.len() > 0 {
        let t = items.drop_last();
        let x = items.last();
        lemma_diff_members(t, excl);
        assert forall|a: Seq<char>| t.contains(a) implies items.contains(a) by {
            let i = choose|i: int| 0 <= i < t.len() && t[i] == a;
            assert(items[i] == a);
        }
        assert(items.contains(x));
        assert forall|k: int|
            0 <= k < spec_diff(items, excl).len() implies items.to_set().difference(
            excl.to_set(),
        ).contains(#[trigger] spec_diff(items, excl)[k]) by {
            if k < spec_diff(t, excl).len() {
                assert(spec_diff(items, excl)[k] == spec_diff(t, excl)[k]);
            } else {
                assert(!excl.contains(x));
                assert(spec_diff(items, excl)[k] == x);
                assert(!excl.to_set().contains(x));
            }
        }
    }
}

/// With no duplicate entries, the number of kept entries equals the
/// cardinality of the set difference `items \ excl`.
pub proof fn lemma_diff_count(items: Seq<Seq<char>>, excl: Seq<Seq<char>>)
    requires
        items.no_duplicates(),
    ensures
        spec_diff(items, excl).len() == items.to_set().difference(excl.to_set()).len(),
    decreases items.len(),
{
    broadcast use vstd::set::group_set_axioms;
    broadcast use vstd::seq_lib::seq_to_set_is_finite;

    let d = items.to_set().difference(excl.to_set());
    if items.len() == 0 {
        assert(items.to_set() =~= Set::<Seq<char>>::empty());
        assert(d =~= Set::<Seq<char>>::empty());
    } else {
        let t = items.drop_last();
        let x = items.last();
        assert(t.no_duplicates());
        assert(!t.contains(x)) by {
            if t.contains(x) {
                let i = choose|i: int| 0 <= i < t.len() && t[i] == x;
                assert(items[i] == items[items.len() - 1]);
            }
        }
        lemma_diff_count(t, excl);
        assert(items.to_set() =~= t.to_set().insert(x)) by {
            assert forall|a: Seq<char>| items.contains(a) implies t.contains(a) || a == x by {
                let i = choose|i: int| 0 <= i < items.len() && items[i] == a;
                if i < items.len() - 1 {
                    assert(t[i] == a);
                }
            }
            assert forall|a: Seq<char>| t.contains(a) implies items.contains(a) by {
                let i = choose|i: int| 0 <= i < t.len() && t[i] == a;
                assert(items[i] == a);
            }
            assert(items.contains(x));
        }
        let dt = t.to_set().difference(excl.to_set());
        assert(t.to_set().finite());
        assert(dt.finite());
        if excl.contains(x) {
            assert(excl.to_set().contains(x));
            assert(d =~= dt);
        } else {
            assert(!excl.to_set().contains(x));
            assert(d =~= dt.insert(x));
            assert(!dt.contains(x));
            assert(dt.insert(x).len() == dt.len() + 1);
        }
    }
}

/// Environment and volume diffing: when the container's entries
/// `items` form a set (no duplicates), the number of emitted flags
/// equals the cardinality of the set difference `items \ excl`, and
/// the flag at each position is the quoted rendering of a kept entry
/// that lies in that difference.
pub proof fn lemma_diff_flags_count(prefix: Seq<char>, items: Seq<Seq<char>>, excl: Seq<Seq<char>>)
    requires
        items.no_duplicates(),
    ensures
        spec_diff_flags(prefix, items, excl).len() == items.to_set().difference(
            excl.to_set(),
        ).len(),
        forall|k: int|
            #![trigger spec_diff_flags(prefix, items, excl)[k]]
            0 <= k < spec_diff_flags(prefix, items, excl).len() ==> items.to_set().difference(
                excl.to_set(),
            ).contains(spec_diff(items, excl)[k]) && spec_diff_flags(prefix, items, excl)[k]
                == prefix + "\""@ + spec_diff(items, excl)[k] + "\""@,
{
    lemma_diff_flags_shape(prefix, items, excl);
    lemma_diff_members(items, excl);
    lemma_diff_count(items, excl);
}

/// The fragments of `frags` that start with `--network=`, in order.
pub open spec fn spec_network_flags_of(frags: Seq<Seq<char>>) -> Seq<Seq<char>>
    decreases frags.len(),
{
    if frags.len() == 0 {
        Seq::empty()
    } else {
        spec_network_flags_of(frags.drop_last()) + (if spec_starts_with(
            frags.last(),
            "--network="@,
        ) {
            seq![frags.last()]
        } else {
            Seq::empty()
        })
    }
}

proof fn lemma_net_empty()
    ensures
        spec_network_flags_of(Seq::empty()) == Seq::<Seq<char>>::empty(),
{
}

proof fn lemma_net_add(a: Seq<Seq<char>>, b: Seq<Seq<char>>)
    ensures
        spec_network_flags_of(a + b) == spec_network_flags_of(a) + spec_network_flags_of(b),
    decreases b.len(),
{
    if b.len() == 0 {
        assert(a + b =~= a);
        assert(spec_network_flags_of(a) + spec_network_flags_of(b) =~= spec_network_flags_of(a));
    } else {
        lemma_net_add(a, b.drop_last());
        assert((a + b).drop_last() =~= a + b.drop_last());
        assert((a + b).last() == b.last());
        assert(spec_network_flags_of(a + b) =~= spec_network_flags_of(a) + spec_network_flags_of(
            b,
        ));
    }
}

proof fn lemma_net_singleton(x: Seq<char>)
    ensures
        spec_network_flags_of(seq![x]) == (if spec_starts_with(x, "--network="@) {
            seq![x]
        } else {
            Seq::<Seq<char>>::empty()
        }),
{
    assert(seq![x].drop_last() =~= Seq::<Seq<char>>::empty());
    assert(seq![x].last() == x);
    lemma_net_empty();
    if spec_starts_with(x, "--network="@) {
        assert(spec_network_flags_of(seq![x]) =~= seq![x]);
    } else {
        assert(spec_network_flags_of(seq![x]) =~= Seq::<Seq<char>>::empty());
    }
}

proof fn lemma_starts_with_concat(p: Seq<char>, v: Seq<char>)
    ensures
        spec_starts_with(p + v, p),
{
    assert forall|i: int| 0 <= i < p.len() implies (p + v)[i] == p[i] by {}
}

proof fn lemma_prefix_excludes(f: Seq<char>, p: Seq<char>, i: int)
    requires
        spec_starts_with(f, p),
        0 <= i < p.len(),
        i < "--network="@.len(),
        p[i] != "--network="@[i],
    ensures
        !spec_starts_with(f, "--network="@),
{
    if spec_starts_with(f, "--network="@) {
        assert(f[i] == p[i]);
        assert(f[i] == "--network="@[i]);
    }
}

proof fn lemma_net_opt(prefix: Seq<char>, v: Option<Seq<char>>, i: int)
    requires
        0 <= i < prefix.len(),
        i < "--network="@.len(),
        prefix[i] != "--network="@[i],
    ensures
        spec_network_flags_of(spec_opt_flag(prefix, v)) == Seq::<Seq<char>>::empty(),
{
    match v {
        Some(s) => {
            lemma_starts_with_concat(prefix, s);
            lemma_prefix_excludes(prefix + s, prefix, i);
            lemma_net_singleton(prefix + s);
        },
        None => {
            lemma_net_empty();
        },
    }
}

proof fn lemma_net_cond(c: bool, frag: Seq<char>)
    requires
        !spec_starts_with(frag, "--network="@),
    ensures
        spec_network_flags_of(spec_cond_flag(c, frag)) == Seq::<Seq<char>>::empty(),
{
    if c {
        lemma_net_singleton(frag);
    } else {
        lemma_net_empty();
    }
}

proof fn lemma_net_prefixed_single(prefix: Seq<char>, rest: Seq<char>, i: int)
    requires
        0 <= i < prefix.len(),
        i < "--network="@.len(),
        prefix[i] != "--network="@[i],
    ensures
        spec_network_flags_of(seq![prefix + rest]) == Seq::<Seq<char>>::empty(),
{
    lemma_starts_with_concat(prefix, rest);
    lemma_prefix_excludes(prefix + rest, prefix, i);
    lemma_net_singleton(prefix + rest);
}

proof fn lemma_net_diff(prefix: Seq<char>, items: Seq<Seq<char>>, excl: Seq<Seq<char>>, i: int)
    requires
        0 <= i < prefix.len(),
        i < "--network="@.len(),
        prefix[i] != "--network="@[i],
    ensures
        spec_network_flags_of(spec_diff_flags(prefix, items, excl)) == Seq::<Seq<char>>::empty(),
    decreases items.len(),
{
    if items.len() == 0 {
        lemma_net_empty();
    } else {
        lemma_net_diff(prefix, items.drop_last(), excl, i);
        let front = spec_diff_flags(prefix, items.drop_last(), excl);
        if excl.contains(items.last()) {
            lemma_net_add(front, Seq::empty());
            lemma_net_empty();
            assert(spec_network_flags_of(spec_diff_flags(prefix, items, excl)) =~= Seq::<
                Seq<char>,
            >::empty());
        } else {
            let f = prefix + "\""@ + items.last() + "\""@;
            lemma_net_add(front, seq![f]);
            assert(spec_starts_with(f, prefix)) by {
                assert forall|j: int| 0 <= j < prefix.len() implies f[j] == prefix[j] by {}
            }
            lemma_prefix_excludes(f, prefix, i);
            lemma_net_singleton(f);
            assert(spec_network_flags_of(spec_diff_flags(prefix, items, excl)) =~= Seq::<
                Seq<char>,
            >::empty());
        }
    }
}

proof fn lemma_net_devices(devices: Seq<crate::model::container::DeviceView>)
    ensures
        spec_network_flags_of(spec_device_flags(devices)) == Seq::<Seq<char>>::empty(),
    decreases devices.len(),
{
    reveal_strlit("--device ");
    reveal_strlit("--network=");
    if devices.len() == 0 {
        lemma_net_empty();
    } else {
        lemma_net_devices(devices.drop_last());
        let f = "--device "@ + crate::model::container::spec_device(devices.last());
        lemma_net_add(spec_device_flags(devices.drop_last()), seq![f]);
        lemma_net_prefixed_single(
            "--device "@,
            crate::model::container::spec_device(devices.last()),
            2,
        );
        assert(spec_network_flags_of(spec_device_flags(devices)) =~= Seq::<Seq<char>>::empty());
    }
}

proof fn lemma_net_hosts(hosts: Seq<Seq<char>>)
    ensures
        spec_network_flags_of(spec_add_host_flags(hosts)) == Seq::<Seq<char>>::empty(),
    decreases hosts.len(),
{
    reveal_strlit("--add-host ");
    reveal_strlit("--network=");
    if hosts.len() == 0 {
        lemma_net_empty();
    } else {
        lemma_net_hosts(hosts.drop_last());
        let f = "--add-host "@ + hosts.last();
        lemma_net_add(spec_add_host_flags(hosts.drop_last()), seq![f]);
        lemma_net_prefixed_single("--add-host "@, hosts.last(), 2);
        assert(spec_network_flags_of(spec_add_host_flags(hosts)) =~= Seq::<Seq<char>>::empty());
    }
}

proof fn lemma_net_one_bind(port: Seq<char>, suffix: Seq<char>, b: PortInfoView)
    ensures
        spec_network_flags_of(spec_one_bind(port, suffix, b)) == Seq::<Seq<char>>::empty(),
{
    reveal_strlit("-p ");
    reveal_strlit("--network=");
    match (b.host_port, b.host_ip) {
        (Some(hp), Some(ip)) => {
            if hp != "0"@ && ip != "0.0.0.0"@ && ip != "::"@ {
                let rest = ip + ":"@ + hp + ":"@ + port + suffix;
                let f = "-p "@ + ip + ":"@ + hp + ":"@ + port + suffix;
                assert(f =~= "-p "@ + rest);
                lemma_net_prefixed_single("-p "@, rest, 1);
                assert(spec_one_bind(port, suffix, b) == seq![f]);
                assert(seq![f] =~= seq!["-p "@ + rest]);
            } else {
                lemma_net_empty();
            }
        },
        _ => {
            lemma_net_empty();
        },
    }
}

proof fn lemma_net_binds(port: Seq<char>, suffix: Seq<char>, binds: Seq<PortInfoView>)
    ensures
        spec_network_flags_of(spec_port_binds(port, suffix, binds)) == Seq::<Seq<char>>::empty(),
    decreases binds.len(),
{
    if binds.len() == 0 {
        lemma_net_empty();
    } else {
        lemma_net_binds(port, suffix, binds.drop_last());
        lemma_net_add(
            spec_port_binds(port, suffix, binds.drop_last()),
            spec_one_bind(port, suffix, binds.last()),
        );
        lemma_net_one_bind(port, suffix, binds.last());
        assert(spec_network_flags_of(spec_port_binds(port, suffix, binds)) =~= Seq::<
            Seq<char>,
        >::empty());
    }
}

proof fn lemma_net_entry(key: Seq<char>, binds: Seq<PortInfoView>)
    ensures
        spec_network_flags_of(spec_port_entry(key, binds)) == Seq::<Seq<char>>::empty(),
{
    reveal_strlit("--expose=");
    reveal_strlit("--network=");
    if spec_slash_count(key) == 1 {
        let i = crate::model::container::spec_first_slash(key);
        let port = key.subrange(0, i);
        let proto = key.subrange(i + 1, key.len() as int);
        let suffix = if crate::model::container::spec_is_tcp(proto) {
            Seq::<char>::empty()
        } else {
            "/udp"@
        };
        if binds.len() == 0 {
            let rest = port + "/"@ + suffix;
            let f = "--expose="@ + port + "/"@ + suffix;
            assert(f =~= "--expose="@ + rest);
            lemma_net_prefixed_single("--expose="@, rest, 2);
            assert(spec_port_entry(key, binds) == seq![f]);
            assert(seq![f] =~= seq!["--expose="@ + rest]);
        } else {
            lemma_net_binds(port, suffix, binds);
        }
    } else {
        lemma_net_empty();
    }
}

proof fn lemma_net_ports(entries: Seq<(Seq<char>, Seq<PortInfoView>)>)
    ensures
        spec_network_flags_of(spec_ports(entries)) == Seq::<Seq<char>>::empty(),
    decreases entries.len(),
{
    if entries.len() == 0 {
        lemma_net_empty();
    } else {
        lemma_net_ports(entries.drop_last());
        lemma_net_add(
            spec_ports(entries.drop_last()),
            spec_port_entry(entries.last().0, entries.last().1),
        );
        lemma_net_entry(entries.last().0, entries.last().1);
        assert(spec_network_flags_of(spec_ports(entries)) =~= Seq::<Seq<char>>::empty());
    }
}

proof fn lemma_net_head(c: DockerInspectView, no_name: bool)
    ensures
        spec_network_flags_of(spec_flags_head(c, no_name)) == Seq::<Seq<char>>::empty(),
{
    reveal_strlit("--network=");
    reveal_strlit("--name=");
    reveal_strlit("--hostname=");
    reveal_strlit("--user=");
    reveal_strlit("--mac-address=");
    reveal_strlit("--pid=");
    reveal_strlit("--cpuset-cpus=");
    reveal_strlit("--cpuset-mems=");
    let s1 = spec_cond_flag(!no_name, "--name="@ + crate::util::spec_strip_slashes(c.name));
    let s2 = spec_cond_flag(
        !spec_starts_with(c.id, c.config.hostname),
        "--hostname="@ + c.config.hostname,
    );
    let s3 = spec_opt_flag("--user="@, c.config.user);
    let s4 = spec_opt_flag(
        "--mac-address="@,
        crate::options::spec_or_opt(c.config.mac_address, c.network_settings.mac_address),
    );
    let s5 = spec_opt_flag("--pid="@, c.host_config.pid_mode);
    let s6 = spec_opt_flag("--cpuset-cpus="@, c.host_config.cpuset_cpus);
    let s7 = spec_opt_flag("--cpuset-mems="@, c.host_config.cpuset_mems);
    lemma_starts_with_concat("--name="@, crate::util::spec_strip_slashes(c.name));
    lemma_prefix_excludes("--name="@ + crate::util::spec_strip_slashes(c.name), "--name="@, 3);
    lemma_net_cond(!no_name, "--name="@ + crate::util::spec_strip_slashes(c.name));
    lemma_starts_with_concat("--hostname="@, c.config.hostname);
    lemma_prefix_excludes("--hostname="@ + c.config.hostname, "--hostname="@, 2);
    lemma_net_cond(
        !spec_starts_with(c.id, c.config.hostname),
        "--hostname="@ + c.config.hostname,
    );
    lemma_net_opt("--user="@, c.config.user, 2);
    lemma_net_opt(
        "--mac-address="@,
        crate::options::spec_or_opt(c.config.mac_address, c.network_settings.mac_address),
        2,
    );
    lemma_net_opt("--pid="@, c.host_config.pid_mode, 2);
    lemma_net_opt("--cpuset-cpus="@, c.host_config.cpuset_cpus, 2);
    lemma_net_opt("--cpuset-mems="@, c.host_config.cpuset_mems, 2);
    lemma_net_add(s1, s2);
    lemma_net_add(s1 + s2, s3);
    lemma_net_add(s1 + s2 + s3, s4);
    lemma_net_add(s1 + s2 + s3 + s4, s5);
    lemma_net_add(s1 + s2 + s3 + s4 + s5, s6);
    lemma_net_add(s1 + s2 + s3 + s4 + s5 + s6, s7);
    assert(spec_network_flags_of(spec_flags_head(c, no_name)) =~= Seq::<Seq<char>>::empty());
}

proof fn lemma_net_diffs_group(c: DockerInspectView, img: ImageInspectView)
    ensures
        spec_network_flags_of(spec_flags_diffs(c, img)) == Seq::<Seq<char>>::empty(),
{
    reveal_strlit("--network=");
    reveal_strlit("--env=");
    reveal_strlit("--volume=");
    reveal_strlit("--volumes-from=");
    reveal_strlit("--cap-add=");
    reveal_strlit("--cap-drop=");
    reveal_strlit("--dns=");
    let s1 = spec_diff_flags("--env="@, c.config.env, img.env);
    let s2 = spec_diff_flags("--volume="@, c.host_config.binds, img.binds);
    let s3 = spec_diff_flags("--volumes-from="@, c.host_config.volumes_from, img.volumes_from);
    let s4 = spec_diff_flags("--cap-add="@, c.host_config.cap_add, img.cap_add);
    let s5 = spec_diff_flags("--cap-drop="@, c.host_config.cap_drop, img.cap_drop);
    let s6 = spec_diff_flags("--dns="@, c.host_config.dns, img.dns);
    lemma_net_diff("--env="@, c.config.env, img.env, 2);
    lemma_net_diff("--volume="@, c.host_config.binds, img.binds, 2);
    lemma_net_diff("--volumes-from="@, c.host_config.volumes_from, img.volumes_from, 2);
    lemma_net_diff("--cap-add="@, c.host_config.cap_add, img.cap_add, 2);
    lemma_net_diff("--cap-drop="@, c.host_config.cap_drop, img.cap_drop, 2);
    lemma_net_diff("--dns="@, c.host_config.dns, img.dns, 2);
    lemma_net_add(s1, s2);
    lemma_net_add(s1 + s2, s3);
    lemma_net_add(s1 + s2 + s3, s4);
    lemma_net_add(s1 + s2 + s3 + s4, s5);
    lemma_net_add(s1 + s2 + s3 + s4 + s5, s6);
    assert(spec_network_flags_of(spec_flags_diffs(c, img)) =~= Seq::<Seq<char>>::empty());
}

proof fn lemma_net_mid(c: DockerInspectView)
    ensures
        spec_network_flags_of(spec_flags_mid(c)) == spec_cond_flag(
            c.host_config.network_mode != "default"@ && c.host_config.network_mode != "bridge"@,
            "--network="@ + c.host_config.network_mode,
        ),
{
    reveal_strlit("--network=");
    reveal_strlit("--privileged");
    reveal_strlit("--workdir=");
    reveal_strlit("--restart=");
    reveal_strlit("--runtime=");
    let s1 = spec_cond_flag(
        c.host_config.network_mode != "default"@ && c.host_config.network_mode != "bridge"@,
        "--network="@ + c.host_config.network_mode,
    );
    let s2 = spec_cond_flag(c.host_config.privileged, "--privileged"@);
    let s3 = spec_opt_flag("--workdir="@, c.config.working_dir);
    let s4 = match spec_restart(c.host_config.restart_policy) {
        Some(s) => seq!["--restart="@ + s],
        None => Seq::<Seq<char>>::empty(),
    };
    let s5 = spec_device_flags(c.host_config.devices);
    let s6 = spec_ports(c.network_settings.ports);
    let s7 = spec_add_host_flags(c.host_config.extra_hosts);
    let s8 = spec_opt_flag("--runtime="@, c.host_config.runtime);
    if c.host_config.network_mode != "default"@ && c.host_config.network_mode != "bridge"@ {
        lemma_starts_with_concat("--network="@, c.host_config.network_mode);
        lemma_net_singleton("--network="@ + c.host_config.network_mode);
    } else {
        lemma_net_empty();
    }
    assert(spec_network_flags_of(s1) == s1);
    assert(!spec_starts_with("--privileged"@, "--network="@)) by {
        if spec_starts_with("--privileged"@, "--network="@) {
            assert("--privileged"@[2] == "--network="@[2]);
        }
    }
    lemma_net_cond(c.host_config.privileged, "--privileged"@);
    lemma_net_opt("--workdir="@, c.config.working_dir, 2);
    match spec_restart(c.host_config.restart_policy) {
        Some(s) => {
            lemma_net_prefixed_single("--restart="@, s, 2);
        },
        None => {
            lemma_net_empty();
        },
    }
    assert(spec_network_flags_of(s4) == Seq::<Seq<char>>::empty());
    lemma_net_devices(c.host_config.devices);
    lemma_net_ports(c.network_settings.ports);
    lemma_net_hosts(c.host_config.extra_hosts);
    lemma_net_opt("--runtime="@, c.host_config.runtime, 2);
    lemma_net_add(s1, s2);
    lemma_net_add(s1 + s2, s3);
    lemma_net_add(s1 + s2 + s3, s4);
    lemma_net_add(s1 + s2 + s3 + s4, s5);
    lemma_net_add(s1 + s2 + s3 + s4 + s5, s6);
    lemma_net_add(s1 + s2 + s3 + s4 + s5 + s6, s7);
    lemma_net_add(s1 + s2 + s3 + s4 + s5 + s6 + s7, s8);
    assert(spec_network_flags_of(spec_flags_mid(c)) =~= s1);
}

proof fn lemma_net_tail(c: DockerInspectView)
    ensures
        spec_network_flags_of(spec_flags_tail(c)) == Seq::<Seq<char>>::empty(),
{
    reveal_strlit("--network=");
    reveal_strlit("--memory=\"");
    reveal_strlit("--memory-reservation=\"");
    reveal_strlit("--detach=true");
    reveal_strlit("-t");
    reveal_strlit("--rm");
    let s1 = spec_cond_flag(
        c.host_config.memory != 0,
        "--memory=\""@ + crate::util::spec_dec_nat(c.host_config.memory as nat) + "\""@,
    );
    let s2 = spec_cond_flag(
        c.host_config.memory_reservation != 0,
        "--memory-reservation=\""@ + crate::util::spec_dec_nat(
            c.host_config.memory_reservation as nat,
        ) + "\""@,
    );
    let s3 = spec_cond_flag(!c.config.attach_stdout, "--detach=true"@);
    let s4 = spec_cond_flag(c.config.tty, "-t"@);
    let s5 = spec_cond_flag(c.host_config.auto_remove, "--rm"@);
    let m1 = crate::util::spec_dec_nat(c.host_config.memory as nat) + "\""@;
    let f1 = "--memory=\""@ + crate::util::spec_dec_nat(c.host_config.memory as nat) + "\""@;
    assert(f1 =~= "--memory=\""@ + m1);
    assert(spec_starts_with(f1, "--memory=\""@)) by {
        lemma_starts_with_concat("--memory=\""@, m1);
    }
    lemma_prefix_excludes(f1, "--memory=\""@, 2);
    lemma_net_cond(c.host_config.memory != 0, f1);
    let m2 = crate::util::spec_dec_nat(c.host_config.memory_reservation as nat) + "\""@;
    let f2 = "--memory-reservation=\""@ + crate::util::spec_dec_nat(
        c.host_config.memory_reservation as nat,
    ) + "\""@;
    assert(f2 =~= "--memory-reservation=\""@ + m2);
    assert(spec_starts_with(f2, "--memory-reservation=\""@)) by {
        lemma_starts_with_concat("--memory-reservation=\""@, m2);
    }
    lemma_prefix_excludes(f2, "--memory-reservation=\""@, 2);
    lemma_net_cond(c.host_config.memory_reservation != 0, f2);
    assert(!spec_starts_with("--detach=true"@, "--network="@)) by {
        if spec_starts_with("--detach=true"@, "--network="@) {
            assert("--detach=true"@[2] == "--network="@[2]);
        }
    }
    lemma_net_cond(!c.config.attach_stdout, "--detach=true"@);
    assert(!spec_starts_with("-t"@, "--network="@));
    lemma_net_cond(c.config.tty, "-t"@);
    assert(!spec_starts_with("--rm"@, "--network="@));
    lemma_net_cond(c.host_config.auto_remove, "--rm"@);
    lemma_net_add(s1, s2);
    lemma_net_add(s1 + s2, s3);
    lemma_net_add(s1 + s2 + s3, s4);
    lemma_net_add(s1 + s2 + s3 + s4, s5);
    assert(spec_network_flags_of(spec_flags_tail(c)) =~= Seq::<Seq<char>>::empty());
}

/// Network mode suppression: when the network mode is one of the
/// implicit defaults (`default`, `bridge`) the flag list holds no
/// fragment starting with `--network=`; for any other mode it holds
/// exactly one, `--network=<mode>`. The positional image name and the
/// command tokens stand outside the flag list.
pub proof fn lemma_network_mode_flag(c: DockerInspectView, img: ImageInspectView, no_name: bool)
    ensures
        (c.host_config.network_mode == "default"@ || c.host_config.network_mode == "bridge"@)
            ==> spec_network_flags_of(spec_flags(c, img, no_name)) == Seq::<Seq<char>>::empty(),
        !(c.host_config.network_mode == "default"@ || c.host_config.network_mode == "bridge"@)
            ==> spec_network_flags_of(spec_flags(c, img, no_name)) == seq![
            "--network="@ + c.host_config.network_mode,
        ],
{
    let a = spec_flags_head(c, no_name);
    let b = spec_flags_diffs(c, img);
    let m = spec_flags_mid(c);
    let t = spec_flags_tail(c);
    lemma_net_head(c, no_name);
    lemma_net_diffs_group(c, img);
    lemma_net_mid(c);
    lemma_net_tail(c);
    lemma_net_add(a, b);
    lemma_net_add(a + b, m);
    lemma_net_add(a + b + m, t);
    if c.host_config.network_mode == "default"@ || c.host_config.network_mode == "bridge"@ {
        assert(spec_network_flags_of(spec_flags(c, img, no_name)) =~= Seq::<Seq<char>>::empty());
    } else {
        assert(spec_network_flags_of(spec_flags(c, img, no_name)) =~= seq![
            "--network="@ + c.host_config.network_mode,
        ]);
    }
}

} // verus!
