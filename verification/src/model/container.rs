//! The container inspect record, and the renderers of its entities
//! whose flags only appear in certain states (restart policy, port
//! mappings, devices).

use vstd::prelude::*;
use vstd::string::StrSliceExecFns;
use vstd::string::StringExecFns;
use crate::util::opt_view;
use crate::util::seq_views;
use crate::util::spec_dec_int;
use crate::util::i64_dec;
use crate::util::str_eq;

verus! {

/// Renders an attribute that only yields a flag value in some of its
/// states: `None` means the attribute produces no flag at all.
pub trait AttrPrinter {
    fn print(&self) -> Option<String>;
}

/// One device mapping of the host configuration.
#[derive(Debug)]
pub struct Device {
    pub path_on_host: String,
    pub path_in_container: String,
    pub cgroup_permissions: String,
}

/// The restart policy of a container.
#[derive(Debug)]
pub struct RestartPolicy {
    pub name: String,
    pub maximum_retry_count: i64,
}

/// One host-side binding of a container port.
#[derive(Debug)]
pub struct PortInfo {
    pub host_port: Option<String>,
    pub host_ip: Option<String>,
}

/// The port map of a container: one entry per `containerPort/proto`
/// key, in the (key-sorted) order the decoded document yields them.
#[derive(Debug)]
pub struct Ports(pub Vec<(String, Vec<PortInfo>)>);

/// The `Config` section of a container inspect record.
#[derive(Debug)]
pub struct Config {
    pub hostname: String,
    pub env: Vec<String>,
    pub attach_stdout: bool,
    pub tty: bool,
    pub user: Option<String>,
    pub cmd: Vec<String>,
    pub image: String,
    pub working_dir: Option<String>,
    pub mac_address: Option<String>,
}

/// The `HostConfig` section of a container inspect record.
#[derive(Debug)]
pub struct HostConfig {
    pub network_mode: String,
    pub runtime: Option<String>,
    pub cpuset_cpus: Option<String>,
    pub cpuset_mems: Option<String>,
    pub auto_remove: bool,
    pub pid_mode: Option<String>,
    pub privileged: bool,
    pub binds: Vec<String>,
    pub volumes_from: Vec<String>,
    pub cap_add: Vec<String>,
    pub cap_drop: Vec<String>,
    pub dns: Vec<String>,
    pub memory: u64,
    pub memory_reservation: u64,
    pub extra_hosts: Vec<String>,
    pub devices: Vec<Device>,
    pub restart_policy: RestartPolicy,
}

/// The `NetworkSettings` section of a container inspect record.
#[derive(Debug)]
pub struct NetworkSettings {
    pub mac_address: Option<String>,
    pub ports: Ports,
}

/// One container inspect record.
#[derive(Debug)]
pub struct DockerInspect {
    pub id: String,
    pub name: String,
    pub config: Config,
    pub host_config: HostConfig,
    pub network_settings: NetworkSettings,
}

pub struct DeviceView {
    pub path_on_host: Seq<char>,
    pub path_in_container: Seq<char>,
    pub cgroup_permissions: Seq<char>,
}

pub struct RestartPolicyView {
    pub name: Seq<char>,
    pub maximum_retry_count: int,
}

pub struct PortInfoView {
    pub host_port: Option<Seq<char>>,
    pub host_ip: Option<Seq<char>>,
}

pub struct ConfigView {
    pub hostname: Seq<char>,
    pub env: Seq<Seq<char>>,
    pub attach_stdout: bool,
    pub tty: bool,
    pub user: Option<Seq<char>>,
    pub cmd: Seq<Seq<char>>,
    pub image: Seq<char>,
    pub working_dir: Option<Seq<char>>,
    pub mac_address: Option<Seq<char>>,
}

pub struct HostConfigView {
    pub network_mode: Seq<char>,
    pub runtime: Option<Seq<char>>,
    pub cpuset_cpus: Option<Seq<char>>,
    pub cpuset_mems: Option<Seq<char>>,
    pub auto_remove: bool,
    pub pid_mode: Option<Seq<char>>,
    pub privileged: bool,
    pub binds: Seq<Seq<char>>,
    pub volumes_from: Seq<Seq<char>>,
    pub cap_add: Seq<Seq<char>>,
    pub cap_drop: Seq<Seq<char>>,
    pub dns: Seq<Seq<char>>,
    pub memory: u64,
    pub memory_reservation: u64,
    pub extra_hosts: Seq<Seq<char>>,
    pub devices: Seq<DeviceView>,
    pub restart_policy: RestartPolicyView,
}

pub struct NetworkSettingsView {
    pub mac_address: Option<Seq<char>>,
    pub ports: Seq<(Seq<char>, Seq<PortInfoView>)>,
}

pub struct DockerInspectView {
    pub id: Seq<char>,
    pub name: Seq<char>,
    pub config: ConfigView,
    pub host_config: HostConfigView,
    pub network_settings: NetworkSettingsView,
}

impl View for Device {
    type V = DeviceView;

    open spec fn view(&self) -> DeviceView {
        DeviceView {
            path_on_host: self.path_on_host@,
            path_in_container: self.path_in_container@,
            cgroup_permissions: self.cgroup_permissions@,
        }
    }
}

impl View for RestartPolicy {
    type V = RestartPolicyView;

    open spec fn view(&self) -> RestartPolicyView {
        RestartPolicyView {
            name: self.name@,
            maximum_retry_count: self.maximum_retry_count as int,
        }
    }
}

impl View for PortInfo {
    type V = PortInfoView;

    open spec fn view(&self) -> PortInfoView {
        PortInfoView { host_port: opt_view(self.host_port), host_ip: opt_view(self.host_ip) }
    }
}

/// The view of a port map's entry list.
pub open spec fn ports_vec_view(s: Seq<(String, Vec<PortInfo>)>) -> Seq<
    (Seq<char>, Seq<PortInfoView>),
> {
    Seq::new(s.len(), |i: int| (s[i].0@, port_infos_view(s[i].1@)))
}

impl View for Ports {
    type V = Seq<(Seq<char>, Seq<PortInfoView>)>;

    open spec fn view(&self) -> Seq<(Seq<char>, Seq<PortInfoView>)> {
        ports_vec_view(self.0@)
    }
}

impl View for Config {
    type V = ConfigView;

    open spec fn view(&self) -> ConfigView {
        ConfigView {
            hostname: self.hostname@,
            env: seq_views(self.env@),
            attach_stdout: self.attach_stdout,
            tty: self.tty,
            user: opt_view(self.user),
            cmd: seq_views(self.cmd@),
            image: self.image@,
            working_dir: opt_view(self.working_dir),
            mac_address: opt_view(self.mac_address),
        }
    }
}

impl View for HostConfig {
    type V = HostConfigView;

    open spec fn view(&self) -> HostConfigView {
        HostConfigView {
            network_mode: self.network_mode@,
            runtime: opt_view(self.runtime),
            cpuset_cpus: opt_view(self.cpuset_cpus),
            cpuset_mems: opt_view(self.cpuset_mems),
            auto_remove: self.auto_remove,
            pid_mode: opt_view(self.pid_mode),
            privileged: self.privileged,
            binds: seq_views(self.binds@),
            volumes_from: seq_views(self.volumes_from@),
            cap_add: seq_views(self.cap_add@),
            cap_drop: seq_views(self.cap_drop@),
            dns: seq_views(self.dns@),
            memory: self.memory,
            memory_reservation: self.memory_reservation,
            extra_hosts: seq_views(self.extra_hosts@),
            devices: Seq::new(self.devices@.len(), |i: int| self.devices@[i]@),
            restart_policy: self.restart_policy@,
        }
    }
}

impl View for NetworkSettings {
    type V = NetworkSettingsView;

    open spec fn view(&self) -> NetworkSettingsView {
        NetworkSettingsView { mac_address: opt_view(self.mac_address), ports: self.ports@ }
    }
}

impl View for DockerInspect {
    type V = DockerInspectView;

    open spec fn view(&self) -> DockerInspectView {
        DockerInspectView {
            id: self.id@,
            name: self.name@,
            config: self.config@,
            host_config: self.host_config@,
            network_settings: self.network_settings@,
        }
    }
}

/// The flag value of a restart policy: only `always`, `unless-stopped`
/// and `on-failure` (with its retry count) yield one; every other name
/// — `no` and the empty name among them — yields nothing.
pub open spec fn spec_restart(p: RestartPolicyView) -> Option<Seq<char>> {
    if p.name == "always"@ {
        Some("always"@)
    } else if p.name == "unless-stopped"@ {
        Some("unless-stopped"@)
    } else if p.name == "on-failure"@ {
        Some("on-failure:"@ + spec_dec_int(p.maximum_retry_count))
    } else {
        None
    }
}

impl AttrPrinter for RestartPolicy {
    fn print(&self) -> (r: Option<String>)
        ensures
            opt_view(r) == spec_restart(self@),
    {
        if str_eq(self.name.as_str(), "always") {
            Some(String::from_str("always"))
        } else if str_eq(self.name.as_str(), "unless-stopped") {
            Some(String::from_str("unless-stopped"))
        } else if str_eq(self.name.as_str(), "on-failure") {
            let s = String::from_str("on-failure:");
            Some(s.concat(i64_dec(self.maximum_retry_count).as_str()))
        } else {
            None
        }
    }
}

/// The rendering of one device mapping: the `rwm` permission set is
/// the tool's default and is left off.
pub open spec fn spec_device(d: DeviceView) -> Seq<char> {
    d.path_on_host + ":"@ + d.path_in_container + (if d.cgroup_permissions == "rwm"@ {
        Seq::<char>::empty()
    } else {
        ":"@ + d.cgroup_permissions
    })
}

/// The views of a sequence of port bindings.
pub open spec fn port_infos_view(s: Seq<PortInfo>) -> Seq<PortInfoView> {
    Seq::new(s.len(), |i: int| s[i]@)
}

/// How many `/` characters `s` holds.
pub open spec fn spec_slash_count(s: Seq<char>) -> nat
    decreases s.len(),
{
    if s.len() == 0 {
        0
    } else {
        spec_slash_count(s.drop_last()) + (if s.last() == '/' {
            1nat
        } else {
            0nat
        })
    }
}

/// The index of the first `/` in `s`, or `s.len()` when there is none.
pub open spec fn spec_first_slash(s: Seq<char>) -> int
    decreases s.len(),
{
    if s.len() == 0 {
        0
    } else if spec_slash_count(s.drop_last()) > 0 {
        spec_first_slash(s.drop_last())
    } else if s.last() == '/' {
        s.len() - 1
    } else {
        s.len() as int
    }
}

proof fn lemma_first_slash_props(s: Seq<char>)
    ensures
        spec_slash_count(s) > 0 ==> 0 <= spec_first_slash(s) < s.len() && s[spec_first_slash(s)]
            == '/',
        spec_slash_count(s) == 0 ==> spec_first_slash(s) == s.len(),
    decreases s.len(),
{
    if s.len() > 0 {
        lemma_first_slash_props(s.drop_last());
    }
}

/// Whether `s` reads `tcp` in any mix of case: the protocol whose
/// suffix is left off a rendered port.
pub open spec fn spec_is_tcp(s: Seq<char>) -> bool {
    s.len() == 3 && (s[0] == 't' || s[0] == 'T') && (s[1] == 'c' || s[1] == 'C') && (s[2] == 'p'
        || s[2] == 'P')
}

fn is_tcp(s: &str) -> (r: bool)
    ensures
        r == spec_is_tcp(s@),
{
    let n: usize = s.unicode_len();
    if n != 3 {
        return false;
    }
    let c0 = s.get_char(0);
    let c1 = s.get_char(1);
    let c2 = s.get_char(2);
    (c0 == 't' || c0 == 'T') && (c1 == 'c' || c1 == 'C') && (c2 == 'p' || c2 == 'P')
}

/// Splits a `containerPort/proto` key at its only `/`; a key without
/// exactly one `/` is malformed and yields nothing.
fn split_port_key(s: &str) -> (r: Option<(String, String)>)
    ensures
        match r {
            Some(pq) => spec_slash_count(s@) == 1 && pq.0@ == s@.subrange(
                0,
                spec_first_slash(s@),
            ) && pq.1@ == s@.subrange(spec_first_slash(s@) + 1, s@.len() as int),
            None => spec_slash_count(s@) != 1,
        },
{
    let len: usize = s.unicode_len();
    let mut cnt: usize = 0;
    let mut first: usize = 0;
    let mut i: usize = 0;
    while i < len
        invariant
            0 <= i <= len,
            len == s@.len(),
            cnt <= i,
            cnt as nat == spec_slash_count(s@.take(i as int)),
            first as int == spec_first_slash(s@.take(i as int)),
        decreases len - i,
    {
        let c = s.get_char(i);
        proof {
            assert(s@.take(i + 1).drop_last() =~= s@.take(i as int));
            assert(s@.take(i + 1).last() == s@[i as int]);
        }
        if cnt == 0 {
            if c == '/' {
                first = i;
            } else {
                first = i + 1;
            }
        }
        if c == '/' {
            cnt = cnt + 1;
        }
        i = i + 1;
    }
    proof {
        assert(s@.take(len as int) =~= s@);
    }
    if cnt != 1 {
        return None;
    }
    proof {
        lemma_first_slash_props(s@);
    }
    let port = s.substring_char(0, first);
    let proto = s.substring_char(first + 1, len);
    Some((port.to_owned(), proto.to_owned()))
}

/// The fragments one binding of a container port yields: a fixed
/// `-p` mapping when both the host port and the host address are
/// present and neither is a wildcard sentinel, nothing otherwise.
pub open spec fn spec_one_bind(port: Seq<char>, suffix: Seq<char>, b: PortInfoView) -> Seq<
    Seq<char>,
> {
    match (b.host_port, b.host_ip) {
        (Some(hp), Some(ip)) => {
            if hp != "0"@ && ip != "0.0.0.0"@ && ip != "::"@ {
                seq!["-p "@ + ip + ":"@ + hp + ":"@ + port + suffix]
            } else {
                Seq::empty()
            }
        },
        _ => Seq::empty(),
    }
}

/// The fragments of a port's binding list, in list order.
pub open spec fn spec_port_binds(
    port: Seq<char>,
    suffix: Seq<char>,
    binds: Seq<PortInfoView>,
) -> Seq<Seq<char>>
    decreases binds.len(),
{
    if binds.len() == 0 {
        Seq::empty()
    } else {
        spec_port_binds(port, suffix, binds.drop_last()) + spec_one_bind(
            port,
            suffix,
            binds.last(),
        )
    }
}

/// The fragments of one port map entry. A key without exactly one `/`
/// is skipped; a port with no binding at all is exposed rather than
/// published.
pub open spec fn spec_port_entry(key: Seq<char>, binds: Seq<PortInfoView>) -> Seq<Seq<char>> {
    if spec_slash_count(key) == 1 {
        let i = spec_first_slash(key);
        let port = key.subrange(0, i);
        let proto = key.subrange(i + 1, key.len() as int);
        let suffix = if spec_is_tcp(proto) {
            Seq::<char>::empty()
        } else {
            "/udp"@
        };
        if binds.len() == 0 {
            seq!["--expose="@ + port + "/"@ + suffix]
        } else {
            spec_port_binds(port, suffix, binds)
        }
    } else {
        Seq::empty()
    }
}

/// The fragments of a whole port map, entry by entry.
pub open spec fn spec_ports(entries: Seq<(Seq<char>, Seq<PortInfoView>)>) -> Seq<Seq<char>>
    decreases entries.len(),
{
    if entries.len() == 0 {
        Seq::empty()
    } else {
        spec_ports(entries.drop_last()) + spec_port_entry(
            entries.last().0,
            entries.last().1,
        )
    }
}

fn entry_fragments(key: &String, binds: &Vec<PortInfo>) -> (r: Vec<String>)
    ensures
        seq_views(r@) == spec_port_entry(key@, port_infos_view(binds@)),
{
    let mut out: Vec<String> = Vec::new();
    proof {
        assert(seq_views(out@) =~= Seq::<Seq<char>>::empty());
    }
    let split = split_port_key(key.as_str());
    match split {
        None => {
            out
        },
        Some((port, proto)) => {
            let suffix: String = if is_tcp(proto.as_str()) {
                String::new()
            } else {
                String::from_str("/udp")
            };
            let ghost sport = key@.subrange(0, spec_first_slash(key@));
            let ghost ssuffix = if spec_is_tcp(
                key@.subrange(spec_first_slash(key@) + 1, key@.len() as int),
            ) {
                Seq::<char>::empty()
            } else {
                "/udp"@
            };
            assert(port@ == sport && suffix@ == ssuffix);
            if binds.len() == 0 {
                let f = String::from_str("--expose=").concat(port.as_str()).concat("/").concat(
                    suffix.as_str(),
                );
                out.push(f);
                proof {
                    assert(port_infos_view(binds@).len() == 0);
                    assert(f@ =~= "--expose="@ + sport + "/"@ + ssuffix);
                    assert(seq_views(out@) =~= seq!["--expose="@ + sport + "/"@ + ssuffix]);
                }
                out
            } else {
                let ghost bviews = port_infos_view(binds@);
                let mut j: usize = 0;
                while j < binds.len()
                    invariant
                        0 <= j <= binds@.len(),
                        port@ == sport,
                        suffix@ == ssuffix,
                        spec_slash_count(key@) == 1,
                        bviews == port_infos_view(binds@),
                        seq_views(out@) == spec_port_binds(sport, ssuffix, bviews.take(j as int)),
                    decreases binds@.len() - j,
                {
                    proof {
                        assert(bviews.take(j + 1).drop_last() =~= bviews.take(j as int));
                        assert(bviews.take(j + 1).last() == binds@[j as int]@);
                    }
                    let b = &binds[j];
                    match (&b.host_port, &b.host_ip) {
                        (Some(hp), Some(ip)) => {
                            if !str_eq(hp.as_str(), "0") && !str_eq(ip.as_str(), "0.0.0.0")
                                && !str_eq(ip.as_str(), "::") {
                                let f = String::from_str("-p ").concat(ip.as_str()).concat(
                                    ":",
                                ).concat(hp.as_str()).concat(":").concat(port.as_str()).concat(
                                    suffix.as_str(),
                                );
                                out.push(f);
                                proof {
                                    assert(f@ =~= "-p "@ + ip@ + ":"@ + hp@ + ":"@ + sport
                                        + ssuffix);
                                    assert(spec_one_bind(sport, ssuffix, binds@[j as int]@)
                                        =~= seq![f@]);
                                    assert(seq_views(out@) =~= seq_views(out@.drop_last())
                                        + seq![f@]);
                                }
                            } else {
                                proof {
                                    assert(spec_one_bind(sport, ssuffix, binds@[j as int]@)
                                        =~= Seq::<Seq<char>>::empty());
                                }
                            }
                        },
                        _ => {
                            proof {
                                assert(spec_one_bind(sport, ssuffix, binds@[j as int]@)
                                    =~= Seq::<Seq<char>>::empty());
                            }
                        },
                    }
                    j = j + 1;
                }
                proof {
                    assert(bviews.take(binds@.len() as int) =~= bviews);
                }
                out
            }
        },
    }
}

/// The joining of fragments with a single space between them.
pub open spec fn spec_join_space(frags: Seq<Seq<char>>) -> Seq<char>
    decreases frags.len(),
{
    if frags.len() == 0 {
        Seq::empty()
    } else if frags.len() == 1 {
        frags[0]
    } else {
        spec_join_space(frags.drop_last()) + seq![' '] + frags.last()
    }
}

impl Ports {
    /// The ordered port fragments of this map: `-p` mappings and
    /// `--expose=` declarations, entry by entry.
    pub fn fragments(&self) -> (r: Vec<String>)
        ensures
            seq_views(r@) == spec_ports(self@),
    {
        let mut out: Vec<String> = Vec::new();
        proof {
            assert(seq_views(out@) =~= Seq::<Seq<char>>::empty());
            assert(self@.take(0) =~= Seq::<(Seq<char>, Seq<PortInfoView>)>::empty());
        }
        let mut i: usize = 0;
        while i < self.0.len()
            invariant
                0 <= i <= self.0@.len(),
                seq_views(out@) == spec_ports(self@.take(i as int)),
            decreases self.0@.len() - i,
        {
            proof {
                assert(self@.take(i + 1).drop_last() =~= self@.take(i as int));
                assert(self@.take(i + 1).last() == self@[i as int]);
                assert(self@[i as int].0 == self.0@[i as int].0@);
                assert(self@[i as int].1 =~= port_infos_view(self.0@[i as int].1@));
            }
            let entry = &self.0[i];
            let mut add = entry_fragments(&entry.0, &entry.1);
            let ghost old_out = out@;
            let ghost add_views = seq_views(add@);
            let mut j: usize = 0;
            while j < add.len()
                invariant
                    0 <= j <= add@.len(),
                    add_views == seq_views(add@),
                    seq_views(out@) == seq_views(old_out) + add_views.take(j as int),
                decreases add@.len() - j,
            {
                let ghost prev = out@;
                out.push(add[j].clone());
                proof {
                    assert(add_views.take(j + 1) =~= add_views.take(j as int) + seq![add@[j as int]@]);
                    assert(seq_views(out@) =~= seq_views(prev) + seq![add@[j as int]@]);
                }
                j = j + 1;
            }
            proof {
                assert(add_views.take(add@.len() as int) =~= add_views);
            }
            i = i + 1;
        }
        proof {
            assert(self@.take(self.0@.len() as int) =~= self@);
        }
        out
    }
}

impl AttrPrinter for Ports {
    /// One space-joined string of every port fragment; `None` when the
    /// port map itself is empty.
    fn print(&self) -> (r: Option<String>)
        ensures
            match r {
                None => self@.len() == 0,
                Some(s) => self@.len() > 0 && s@ == spec_join_space(spec_ports(self@)),
            },
    {
        if self.0.len() == 0 {
            return None;
        }
        let frags = self.fragments();
        let mut s = String::new();
        let ghost fviews = seq_views(frags@);
        let mut i: usize = 0;
        while i < frags.len()
            invariant
                0 <= i <= frags@.len(),
                fviews == seq_views(frags@),
                s@ == spec_join_space(fviews.take(i as int)),
            decreases frags@.len() - i,
        {
            proof {
                assert(fviews.take(i + 1).drop_last() =~= fviews.take(i as int));
                assert(fviews.take(i + 1).last() == frags@[i as int]@);
                reveal_strlit(" ");
            }
            if i > 0 {
                s.append(" ");
                assert(s@ == spec_join_space(fviews.take(i as int)) + seq![' ']);
            } else {
                assert(fviews.take(1)[0] == frags@[0]@);
            }
            s.append(frags[i].as_str());
            i = i + 1;
        }
        proof {
            assert(fviews.take(frags@.len() as int) =~= fviews);
        }
        Some(s)
    }
}

impl Device {
    /// Renders the device as `<host>:<container>[:<permissions>]`.
    pub fn render(&self) -> (r: String)
        ensures
            r@ == spec_device(self@),
    {
        let s = self.path_on_host.clone();
        let s = s.concat(":");
        let s = s.concat(self.path_in_container.as_str());
        proof {
            reveal_strlit(":");
        }
        if str_eq(self.cgroup_permissions.as_str(), "rwm") {
            assert(s@ =~= spec_device(self@));
            s
        } else {
            let s = s.concat(":");
            let s = s.concat(self.cgroup_permissions.as_str());
            assert(s@ =~= spec_device(self@));
            s
        }
    }
}

} // verus!
