//! Decoding of inspect documents into the typed model.
//!
//! Two normalization rules run through every field:
//! an optional string transmitted as the empty string is absent, and a
//! collection transmitted as `null` is the empty collection. Decoding
//! fails with [`InspectError::SchemaError`] when the top-level JSON is
//! not an array, the array is empty, or a required field is missing or
//! of the wrong JSON type; a successful decode yields exactly the
//! first array element, and trailing elements are ignored.

use vstd::prelude::*;
use crate::json::Json;
use crate::json::json_of;
use crate::json::spec_field;
use crate::json::value_of;
use crate::model::container::Config;
use crate::model::container::ConfigView;
use crate::model::container::DockerInspect;
use crate::model::container::DockerInspectView;
use crate::model::container::HostConfig;
use crate::model::container::HostConfigView;
use crate::model::container::NetworkSettings;
use crate::model::container::NetworkSettingsView;
use crate::model::image::ImageConfig;
use crate::model::image::ImageHostConfig;
use crate::model::image::ImageInspect;
use crate::model::image::ImageInspectView;
use crate::util::opt_view;
use crate::util::seq_views;
use crate::util::empty_string_is_none;

verus! {

/// Why an inspect document could not be decoded.
#[derive(Clone, Copy, Debug, PartialEq, Eq, Structural)]
pub enum InspectError {
    /// No bytes were available to parse.
    EmptyInput,
    /// The bytes were not JSON of the expected shape.
    SchemaError,
}

/// A required string field: present and a string, or nothing.
pub open spec fn spec_req_str(j: Json, k: Seq<char>) -> Option<Seq<char>> {
    match spec_field(j, k) {
        Some(Json::Str(s)) => Some(s@),
        _ => None,
    }
}

/// An optional string field: absent, `null` and the empty string all
/// normalize to "absent"; a present non-empty string is kept; any
/// other shape is a schema error (the outer `None`).
pub open spec fn spec_opt_str(j: Json, k: Seq<char>) -> Option<Option<Seq<char>>> {
    match spec_field(j, k) {
        None => Some(None),
        Some(Json::Null) => Some(None),
        Some(Json::Str(s)) => Some(
            if s@.len() == 0 {
                None
            } else {
                Some(s@)
            },
        ),
        Some(_) => None,
    }
}

/// A required boolean field.
pub open spec fn spec_req_bool(j: Json, k: Seq<char>) -> Option<bool> {
    match spec_field(j, k) {
        Some(Json::Bool(b)) => Some(b),
        _ => None,
    }
}

/// A non-negative integer field that defaults to zero when absent.
pub open spec fn spec_u64_or_zero(j: Json, k: Seq<char>) -> Option<u64> {
    match spec_field(j, k) {
        None => Some(0),
        Some(Json::Num(n)) => if n >= 0 {
            Some(n as u64)
        } else {
            None
        },
        _ => None,
    }
}

/// A required integer field.
pub open spec fn spec_req_i64(j: Json, k: Seq<char>) -> Option<int> {
    match spec_field(j, k) {
        Some(Json::Num(n)) => Some(n as int),
        _ => None,
    }
}

/// The strings of a JSON array, or nothing when an element is not a
/// string.
pub open spec fn spec_str_items(els: Seq<Json>) -> Option<Seq<Seq<char>>>
    decreases els.len(),
{
    if els.len() == 0 {
        Some(Seq::empty())
    } else {
        match spec_str_items(els.drop_last()) {
            None => None,
            Some(pre) => match els.last() {
                Json::Str(s) => Some(pre.push(s@)),
                _ => None,
            },
        }
    }
}

/// A string-collection value: `null` is the empty collection.
pub open spec fn spec_str_list_value(v: Json) -> Option<Seq<Seq<char>>> {
    match v {
        Json::Null => Some(Seq::empty()),
        Json::Arr(els) => spec_str_items(els@),
        _ => None,
    }
}

/// A string-collection field that defaults to empty when absent.
pub open spec fn spec_list_defaulted(j: Json, k: Seq<char>) -> Option<Seq<Seq<char>>> {
    match spec_field(j, k) {
        None => Some(Seq::empty()),
        Some(v) => spec_str_list_value(v),
    }
}

/// A string-collection field that must be present (`null` still
/// normalizes to empty).
pub open spec fn spec_list_required(j: Json, k: Seq<char>) -> Option<Seq<Seq<char>>> {
    match spec_field(j, k) {
        None => None,
        Some(v) => spec_str_list_value(v),
    }
}

/// Looks a field up on an object; any other shape has no fields.
fn field<'a>(j: &'a Json, k: &str) -> (r: Option<&'a Json>)
    ensures
        match r {
            Some(x) => spec_field(*j, k@) == Some(*x),
            None => spec_field(*j, k@) is None,
        },
{
    match j {
        Json::Obj(es) => crate::json::obj_get(es, k),
        _ => None,
    }
}

fn req_str(j: &Json, k: &str) -> (r: Result<String, InspectError>)
    ensures
        match r {
            Ok(s) => spec_req_str(*j, k@) == Some(s@),
            Err(e) => spec_req_str(*j, k@) is None && e == InspectError::SchemaError,
        },
{
    match field(j, k) {
        Some(Json::Str(s)) => Ok(s.clone()),
        _ => Err(InspectError::SchemaError),
    }
}

fn opt_str(j: &Json, k: &str) -> (r: Result<Option<String>, InspectError>)
    ensures
        match r {
            Ok(o) => spec_opt_str(*j, k@) == Some(opt_view(o)),
            Err(e) => spec_opt_str(*j, k@) is None && e == InspectError::SchemaError,
        },
{
    match field(j, k) {
        None => Ok(None),
        Some(Json::Null) => Ok(None),
        Some(Json::Str(s)) => {
            let o = empty_string_is_none(s.clone());
            assert(opt_view(o) == spec_opt_str(*j, k@).unwrap());
            Ok(o)
        },
        Some(_) => Err(InspectError::SchemaError),
    }
}

fn req_bool(j: &Json, k: &str) -> (r: Result<bool, InspectError>)
    ensures
        match r {
            Ok(b) => spec_req_bool(*j, k@) == Some(b),
            Err(e) => spec_req_bool(*j, k@) is None && e == InspectError::SchemaError,
        },
{
    match field(j, k) {
        Some(Json::Bool(b)) => Ok(*b),
        _ => Err(InspectError::SchemaError),
    }
}

fn u64_or_zero(j: &Json, k: &str) -> (r: Result<u64, InspectError>)
    ensures
        match r {
            Ok(n) => spec_u64_or_zero(*j, k@) == Some(n),
            Err(e) => spec_u64_or_zero(*j, k@) is None && e == InspectError::SchemaError,
        },
{
    match field(j, k) {
        None => Ok(0),
        Some(Json::Num(n)) => {
            if *n >= 0 {
                Ok(*n as u64)
            } else {
                Err(InspectError::SchemaError)
            }
        },
        Some(_) => Err(InspectError::SchemaError),
    }
}

fn req_i64(j: &Json, k: &str) -> (r: Result<i64, InspectError>)
    ensures
        match r {
            Ok(n) => spec_req_i64(*j, k@) == Some(n as int),
            Err(e) => spec_req_i64(*j, k@) is None && e == InspectError::SchemaError,
        },
{
    match field(j, k) {
        Some(Json::Num(n)) => Ok(*n),
        _ => Err(InspectError::SchemaError),
    }
}

proof fn lemma_str_items_none(els: Seq<Json>, i: int)
    requires
        0 <= i < els.len(),
        !(els[i] is Str),
    ensures
        spec_str_items(els) is None,
    decreases els.len(),
{
    if i < els.len() - 1 {
        lemma_str_items_none(els.drop_last(), i);
    }
}

fn str_items(els: &Vec<Json>) -> (r: Result<Vec<String>, InspectError>)
    ensures
        match r {
            Ok(v) => spec_str_items(els@) == Some(seq_views(v@)),
            Err(e) => spec_str_items(els@) is None && e == InspectError::SchemaError,
        },
{
    let mut out: Vec<String> = Vec::new();
    proof {
        assert(els@.take(0) =~= Seq::<Json>::empty());
        assert(seq_views(out@) =~= Seq::<Seq<char>>::empty());
    }
    let mut i: usize = 0;
    while i < els.len()
        invariant
            0 <= i <= els@.len(),
            spec_str_items(els@.take(i as int)) == Some(seq_views(out@)),
        decreases els@.len() - i,
    {
        proof {
            assert(els@.take(i + 1).drop_last() =~= els@.take(i as int));
            assert(els@.take(i + 1).last() == els@[i as int]);
        }
        match &els[i] {
            Json::Str(s) => {
                let ghost prev = out@;
                out.push(s.clone());
                proof {
                    assert(seq_views(out@) =~= seq_views(prev).push(els@[i as int]->Str_0@));
                }
            },
            _ => {
                proof {
                    lemma_str_items_none(els@, i as int);
                }
                return Err(InspectError::SchemaError);
            },
        }
        i = i + 1;
    }
    proof {
        assert(els@.take(els@.len() as int) =~= els@);
    }
    Ok(out)
}

fn str_list_value(v: &Json) -> (r: Result<Vec<String>, InspectError>)
    ensures
        match r {
            Ok(l) => spec_str_list_value(*v) == Some(seq_views(l@)),
            Err(e) => spec_str_list_value(*v) is None && e == InspectError::SchemaError,
        },
{
    match v {
        Json::Null => {
            let l: Vec<String> = Vec::new();
            assert(seq_views(l@) =~= Seq::<Seq<char>>::empty());
            Ok(l)
        },
        Json::Arr(els) => str_items(els),
        _ => Err(InspectError::SchemaError),
    }
}

fn list_defaulted(j: &Json, k: &str) -> (r: Result<Vec<String>, InspectError>)
    ensures
        match r {
            Ok(l) => spec_list_defaulted(*j, k@) == Some(seq_views(l@)),
            Err(e) => spec_list_defaulted(*j, k@) is None && e == InspectError::SchemaError,
        },
{
    match field(j, k) {
        None => {
            let l: Vec<String> = Vec::new();
            assert(seq_views(l@) =~= Seq::<Seq<char>>::empty());
            Ok(l)
        },
        Some(v) => str_list_value(v),
    }
}

fn list_required(j: &Json, k: &str) -> (r: Result<Vec<String>, InspectError>)
    ensures
        match r {
            Ok(l) => spec_list_required(*j, k@) == Some(seq_views(l@)),
            Err(e) => spec_list_required(*j, k@) is None && e == InspectError::SchemaError,
        },
{
    match field(j, k) {
        None => Err(InspectError::SchemaError),
        Some(v) => str_list_value(v),
    }
}

/// One decoded device mapping: all three paths are required strings.
pub open spec fn spec_device_of(j: Json) -> Option<crate::model::container::DeviceView> {
    match (
        spec_req_str(j, "PathOnHost"@),
        spec_req_str(j, "PathInContainer"@),
        spec_req_str(j, "CgroupPermissions"@),
    ) {
        (Some(a), Some(b), Some(c)) => Some(
            crate::model::container::DeviceView {
                path_on_host: a,
                path_in_container: b,
                cgroup_permissions: c,
            },
        ),
        _ => None,
    }
}

/// The devices of a JSON array.
pub open spec fn spec_device_items(els: Seq<Json>) -> Option<
    Seq<crate::model::container::DeviceView>,
>
    decreases els.len(),
{
    if els.len() == 0 {
        Some(Seq::empty())
    } else {
        match (spec_device_items(els.drop_last()), spec_device_of(els.last())) {
            (Some(pre), Some(d)) => Some(pre.push(d)),
            _ => None,
        }
    }
}

/// A device-collection field that defaults to empty when absent and
/// normalizes `null` to empty.
pub open spec fn spec_devices_defaulted(j: Json, k: Seq<char>) -> Option<
    Seq<crate::model::container::DeviceView>,
> {
    match spec_field(j, k) {
        None => Some(Seq::empty()),
        Some(Json::Null) => Some(Seq::empty()),
        Some(Json::Arr(els)) => spec_device_items(els@),
        Some(_) => None,
    }
}

fn device_of(j: &Json) -> (r: Result<crate::model::container::Device, InspectError>)
    ensures
        match r {
            Ok(d) => spec_device_of(*j) == Some(d@),
            Err(e) => spec_device_of(*j) is None && e == InspectError::SchemaError,
        },
{
    let path_on_host = req_str(j, "PathOnHost")?;
    let path_in_container = req_str(j, "PathInContainer")?;
    let cgroup_permissions = req_str(j, "CgroupPermissions")?;
    Ok(crate::model::container::Device { path_on_host, path_in_container, cgroup_permissions })
}

proof fn lemma_device_items_none(els: Seq<Json>, i: int)
    requires
        0 <= i < els.len(),
        spec_device_of(els[i]) is None,
    ensures
        spec_device_items(els) is None,
    decreases els.len(),
{
    if i < els.len() - 1 {
        lemma_device_items_none(els.drop_last(), i);
    }
}

fn device_items(els: &Vec<Json>) -> (r: Result<Vec<crate::model::container::Device>, InspectError>)
    ensures
        match r {
            Ok(v) => spec_device_items(els@) == Some(
                Seq::new(v@.len(), |i: int| v@[i]@),
            ),
            Err(e) => spec_device_items(els@) is None && e == InspectError::SchemaError,
        },
{
    let mut out: Vec<crate::model::container::Device> = Vec::new();
    proof {
        assert(els@.take(0) =~= Seq::<Json>::empty());
        assert(Seq::new(out@.len(), |i: int| out@[i]@) =~= Seq::<
            crate::model::container::DeviceView,
        >::empty());
    }
    let mut i: usize = 0;
    while i < els.len()
        invariant
            0 <= i <= els@.len(),
            spec_device_items(els@.take(i as int)) == Some(
                Seq::new(out@.len(), |k: int| out@[k]@),
            ),
        decreases els@.len() - i,
    {
        proof {
            assert(els@.take(i + 1).drop_last() =~= els@.take(i as int));
            assert(els@.take(i + 1).last() == els@[i as int]);
        }
        match device_of(&els[i]) {
            Ok(d) => {
                let ghost prev = out@;
                out.push(d);
                proof {
                    assert(Seq::new(out@.len(), |k: int| out@[k]@) =~= Seq::new(
                        prev.len(),
                        |k: int| prev[k]@,
                    ).push(out@[prev.len() as int]@));
                }
            },
            Err(e) => {
                proof {
                    lemma_device_items_none(els@, i as int);
                }
                return Err(e);
            },
        }
        i = i + 1;
    }
    proof {
        assert(els@.take(els@.len() as int) =~= els@);
    }
    Ok(out)
}

fn devices_defaulted(j: &Json, k: &str) -> (r: Result<
    Vec<crate::model::container::Device>,
    InspectError,
>)
    ensures
        match r {
            Ok(v) => spec_devices_defaulted(*j, k@) == Some(
                Seq::new(v@.len(), |i: int| v@[i]@),
            ),
            Err(e) => spec_devices_defaulted(*j, k@) is None && e == InspectError::SchemaError,
        },
{
    match field(j, k) {
        None => {
            let v: Vec<crate::model::container::Device> = Vec::new();
            assert(Seq::new(v@.len(), |i: int| v@[i]@) =~= Seq::<
                crate::model::container::DeviceView,
            >::empty());
            Ok(v)
        },
        Some(Json::Null) => {
            let v: Vec<crate::model::container::Device> = Vec::new();
            assert(Seq::new(v@.len(), |i: int| v@[i]@) =~= Seq::<
                crate::model::container::DeviceView,
            >::empty());
            Ok(v)
        },
        Some(Json::Arr(els)) => device_items(els),
        Some(_) => Err(InspectError::SchemaError),
    }
}

/// One decoded restart policy: a required name and a required retry
/// count.
pub open spec fn spec_restart_policy_of(v: Json) -> Option<
    crate::model::container::RestartPolicyView,
> {
    match (spec_req_str(v, "Name"@), spec_req_i64(v, "MaximumRetryCount"@)) {
        (Some(name), Some(c)) => Some(
            crate::model::container::RestartPolicyView { name, maximum_retry_count: c },
        ),
        _ => None,
    }
}

fn restart_policy_of(v: &Json) -> (r: Result<crate::model::container::RestartPolicy, InspectError>)
    ensures
        match r {
            Ok(p) => spec_restart_policy_of(*v) == Some(p@),
            Err(e) => spec_restart_policy_of(*v) is None && e == InspectError::SchemaError,
        },
{
    let name = req_str(v, "Name")?;
    let maximum_retry_count = req_i64(v, "MaximumRetryCount")?;
    Ok(crate::model::container::RestartPolicy { name, maximum_retry_count })
}

/// One decoded port binding: both fields optional, both normalized.
pub open spec fn spec_port_info_of(j: Json) -> Option<crate::model::container::PortInfoView> {
    match (spec_opt_str(j, "HostPort"@), spec_opt_str(j, "HostIp"@)) {
        (Some(hp), Some(ip)) => Some(
            crate::model::container::PortInfoView { host_port: hp, host_ip: ip },
        ),
        _ => None,
    }
}

/// The bindings of one port map value: `null` is the empty list.
pub open spec fn spec_port_info_items(els: Seq<Json>) -> Option<
    Seq<crate::model::container::PortInfoView>,
>
    decreases els.len(),
{
    if els.len() == 0 {
        Some(Seq::empty())
    } else {
        match (spec_port_info_items(els.drop_last()), spec_port_info_of(els.last())) {
            (Some(pre), Some(p)) => Some(pre.push(p)),
            _ => None,
        }
    }
}

pub open spec fn spec_port_list_value(v: Json) -> Option<
    Seq<crate::model::container::PortInfoView>,
> {
    match v {
        Json::Null => Some(Seq::empty()),
        Json::Arr(els) => spec_port_info_items(els@),
        _ => None,
    }
}

/// The decoded entries of a port map object, in entry order.
pub open spec fn spec_ports_entries(es: Seq<(String, Json)>) -> Option<
    Seq<(Seq<char>, Seq<crate::model::container::PortInfoView>)>,
>
    decreases es.len(),
{
    if es.len() == 0 {
        Some(Seq::empty())
    } else {
        match (spec_ports_entries(es.drop_last()), spec_port_list_value(es.last().1)) {
            (Some(pre), Some(l)) => Some(pre.push((es.last().0@, l))),
            _ => None,
        }
    }
}

/// A decoded port map: `null` is the empty map.
pub open spec fn spec_ports_of(v: Json) -> Option<
    Seq<(Seq<char>, Seq<crate::model::container::PortInfoView>)>,
> {
    match v {
        Json::Null => Some(Seq::empty()),
        Json::Obj(es) => spec_ports_entries(es@),
        _ => None,
    }
}

fn port_info_of(j: &Json) -> (r: Result<crate::model::container::PortInfo, InspectError>)
    ensures
        match r {
            Ok(p) => spec_port_info_of(*j) == Some(p@),
            Err(e) => spec_port_info_of(*j) is None && e == InspectError::SchemaError,
        },
{
    let host_port = opt_str(j, "HostPort")?;
    let host_ip = opt_str(j, "HostIp")?;
    Ok(crate::model::container::PortInfo { host_port, host_ip })
}

proof fn lemma_port_info_items_none(els: Seq<Json>, i: int)
    requires
        0 <= i < els.len(),
        spec_port_info_of(els[i]) is None,
    ensures
        spec_port_info_items(els) is None,
    decreases els.len(),
{
    if i < els.len() - 1 {
        lemma_port_info_items_none(els.drop_last(), i);
    }
}

fn port_info_items(els: &Vec<Json>) -> (r: Result<
    Vec<crate::model::container::PortInfo>,
    InspectError,
>)
    ensures
        match r {
            Ok(v) => spec_port_info_items(els@) == Some(
                crate::model::container::port_infos_view(v@),
            ),
            Err(e) => spec_port_info_items(els@) is None && e == InspectError::SchemaError,
        },
{
    let mut out: Vec<crate::model::container::PortInfo> = Vec::new();
    proof {
        assert(els@.take(0) =~= Seq::<Json>::empty());
        assert(crate::model::container::port_infos_view(out@) =~= Seq::<
            crate::model::container::PortInfoView,
        >::empty());
    }
    let mut i: usize = 0;
    while i < els.len()
        invariant
            0 <= i <= els@.len(),
            spec_port_info_items(els@.take(i as int)) == Some(
                crate::model::container::port_infos_view(out@),
            ),
        decreases els@.len() - i,
    {
        proof {
            assert(els@.take(i + 1).drop_last() =~= els@.take(i as int));
            assert(els@.take(i + 1).last() == els@[i as int]);
        }
        match port_info_of(&els[i]) {
            Ok(p) => {
                let ghost prev = out@;
                out.push(p);
                proof {
                    assert(crate::model::container::port_infos_view(out@)
                        =~= crate::model::container::port_infos_view(prev).push(
                        out@[prev.len() as int]@,
                    ));
                }
            },
            Err(e) => {
                proof {
                    lemma_port_info_items_none(els@, i as int);
                }
                return Err(e);
            },
        }
        i = i + 1;
    }
    proof {
        assert(els@.take(els@.len() as int) =~= els@);
    }
    Ok(out)
}

fn port_list_value(v: &Json) -> (r: Result<Vec<crate::model::container::PortInfo>, InspectError>)
    ensures
        match r {
            Ok(l) => spec_port_list_value(*v) == Some(
                crate::model::container::port_infos_view(l@),
            ),
            Err(e) => spec_port_list_value(*v) is None && e == InspectError::SchemaError,
        },
{
    match v {
        Json::Null => {
            let l: Vec<crate::model::container::PortInfo> = Vec::new();
            assert(crate::model::container::port_infos_view(l@) =~= Seq::<
                crate::model::container::PortInfoView,
            >::empty());
            Ok(l)
        },
        Json::Arr(els) => port_info_items(els),
        _ => Err(InspectError::SchemaError),
    }
}

proof fn lemma_ports_entries_none(es: Seq<(String, Json)>, i: int)
    requires
        0 <= i < es.len(),
        spec_port_list_value(es[i].1) is None,
    ensures
        spec_ports_entries(es) is None,
    decreases es.len(),
{
    if i < es.len() - 1 {
        lemma_ports_entries_none(es.drop_last(), i);
    }
}

fn ports_of(v: &Json) -> (r: Result<crate::model::container::Ports, InspectError>)
    ensures
        match r {
            Ok(p) => spec_ports_of(*v) == Some(p@),
            Err(e) => spec_ports_of(*v) is None && e == InspectError::SchemaError,
        },
{
    match v {
        Json::Null => {
            let p = crate::model::container::Ports(Vec::new());
            assert(p@ =~= Seq::<
                (Seq<char>, Seq<crate::model::container::PortInfoView>),
            >::empty());
            Ok(p)
        },
        Json::Obj(es) => {
            let mut out: Vec<(String, Vec<crate::model::container::PortInfo>)> = Vec::new();
            proof {
                assert(es@.take(0) =~= Seq::<(String, Json)>::empty());
                assert(crate::model::container::ports_vec_view(out@) =~= Seq::<
                    (Seq<char>, Seq<crate::model::container::PortInfoView>),
                >::empty());
            }
            let mut i: usize = 0;
            while i < es.len()
                invariant
                    0 <= i <= es@.len(),
                    *v is Obj && v->Obj_0 == *es,
                    spec_ports_entries(es@.take(i as int)) == Some(
                        crate::model::container::ports_vec_view(out@),
                    ),
                decreases es@.len() - i,
            {
                proof {
                    assert(es@.take(i + 1).drop_last() =~= es@.take(i as int));
                    assert(es@.take(i + 1).last() == es@[i as int]);
                }
                match port_list_value(&es[i].1) {
                    Ok(l) => {
                        let ghost prev = out@;
                        out.push((es[i].0.clone(), l));
                        proof {
                            assert(crate::model::container::ports_vec_view(out@)
                                =~= crate::model::container::ports_vec_view(prev).push(
                                (
                                    out@[prev.len() as int].0@,
                                    crate::model::container::port_infos_view(
                                        out@[prev.len() as int].1@,
                                    ),
                                ),
                            ));
                        }
                    },
                    Err(e) => {
                        proof {
                            lemma_ports_entries_none(es@, i as int);
                        }
                        return Err(e);
                    },
                }
                i = i + 1;
            }
            proof {
                assert(es@.take(es@.len() as int) =~= es@);
            }
            Ok(crate::model::container::Ports(out))
        },
        _ => Err(InspectError::SchemaError),
    }
}

/// One decoded `Config` section.
pub open spec fn spec_config_of(j: Json) -> Option<ConfigView> {
    match (
        spec_req_str(j, "Hostname"@),
        spec_list_required(j, "Env"@),
        spec_req_bool(j, "AttachStdout"@),
        spec_req_bool(j, "Tty"@),
    ) {
        (Some(hostname), Some(env), Some(attach_stdout), Some(tty)) => match (
            spec_opt_str(j, "User"@),
            spec_list_defaulted(j, "Cmd"@),
            spec_req_str(j, "Image"@),
            spec_opt_str(j, "WorkingDir"@),
            spec_opt_str(j, "MacAddress"@),
        ) {
            (Some(user), Some(cmd), Some(image), Some(working_dir), Some(mac_address)) => Some(
                ConfigView {
                    hostname,
                    env,
                    attach_stdout,
                    tty,
                    user,
                    cmd,
                    image,
                    working_dir,
                    mac_address,
                },
            ),
            _ => None,
        },
        _ => None,
    }
}

fn config_of(j: &Json) -> (r: Result<Config, InspectError>)
    ensures
        match r {
            Ok(c) => spec_config_of(*j) == Some(c@),
            Err(e) => spec_config_of(*j) is None && e == InspectError::SchemaError,
        },
{
    let hostname = req_str(j, "Hostname")?;
    let env = list_required(j, "Env")?;
    let attach_stdout = req_bool(j, "AttachStdout")?;
    let tty = req_bool(j, "Tty")?;
    let user = opt_str(j, "User")?;
    let cmd = list_defaulted(j, "Cmd")?;
    let image = req_str(j, "Image")?;
    let working_dir = opt_str(j, "WorkingDir")?;
    let mac_address = opt_str(j, "MacAddress")?;
    Ok(Config { hostname, env, attach_stdout, tty, user, cmd, image, working_dir, mac_address })
}

/// One decoded `HostConfig` section.
pub open spec fn spec_host_config_of(j: Json) -> Option<HostConfigView> {
    match (
        spec_req_str(j, "NetworkMode"@),
        spec_opt_str(j, "Runtime"@),
        spec_opt_str(j, "CpusetCpus"@),
        spec_opt_str(j, "CpusetMems"@),
        spec_req_bool(j, "AutoRemove"@),
        spec_opt_str(j, "PidMode"@),
        spec_req_bool(j, "Privileged"@),
    ) {
        (
            Some(network_mode),
            Some(runtime),
            Some(cpuset_cpus),
            Some(cpuset_mems),
            Some(auto_remove),
            Some(pid_mode),
            Some(privileged),
        ) => match (
            spec_list_defaulted(j, "Binds"@),
            spec_list_defaulted(j, "VolumesFrom"@),
            spec_list_defaulted(j, "CapAdd"@),
            spec_list_defaulted(j, "CapDrop"@),
            spec_list_defaulted(j, "Dns"@),
            spec_list_defaulted(j, "ExtraHosts"@),
        ) {
            (Some(binds), Some(volumes_from), Some(cap_add), Some(cap_drop), Some(dns), Some(
                extra_hosts,
            )) => match (
                spec_u64_or_zero(j, "Memory"@),
                spec_u64_or_zero(j, "MemoryReservation"@),
                spec_devices_defaulted(j, "Devices"@),
                match spec_field(j, "RestartPolicy"@) {
                    Some(v) => spec_restart_policy_of(v),
                    None => None,
                },
            ) {
                (Some(memory), Some(memory_reservation), Some(devices), Some(restart_policy)) => {
                    Some(
                        HostConfigView {
                            network_mode,
                            runtime,
                            cpuset_cpus,
                            cpuset_mems,
                            auto_remove,
                            pid_mode,
                            privileged,
                            binds,
                            volumes_from,
                            cap_add,
                            cap_drop,
                            dns,
                            memory,
                            memory_reservation,
                            extra_hosts,
                            devices,
                            restart_policy,
                        },
                    )
                },
                _ => None,
            },
            _ => None,
        },
        _ => None,
    }
}

fn host_config_of(j: &Json) -> (r: Result<HostConfig, InspectError>)
    ensures
        match r {
            Ok(c) => spec_host_config_of(*j) == Some(c@),
            Err(e) => spec_host_config_of(*j) is None && e == InspectError::SchemaError,
        },
{
    let network_mode = req_str(j, "NetworkMode")?;
    let runtime = opt_str(j, "Runtime")?;
    let cpuset_cpus = opt_str(j, "CpusetCpus")?;
    let cpuset_mems = opt_str(j, "CpusetMems")?;
    let auto_remove = req_bool(j, "AutoRemove")?;
    let pid_mode = opt_str(j, "PidMode")?;
    let privileged = req_bool(j, "Privileged")?;
    let binds = list_defaulted(j, "Binds")?;
    let volumes_from = list_defaulted(j, "VolumesFrom")?;
    let cap_add = list_defaulted(j, "CapAdd")?;
    let cap_drop = list_defaulted(j, "CapDrop")?;
    let dns = list_defaulted(j, "Dns")?;
    let extra_hosts = list_defaulted(j, "ExtraHosts")?;
    let memory = u64_or_zero(j, "Memory")?;
    let memory_reservation = u64_or_zero(j, "MemoryReservation")?;
    let devices = devices_defaulted(j, "Devices")?;
    let restart_policy = match field(j, "RestartPolicy") {
        Some(v) => restart_policy_of(v)?,
        None => {
            return Err(InspectError::SchemaError);
        },
    };
    Ok(
        HostConfig {
            network_mode,
            runtime,
            cpuset_cpus,
            cpuset_mems,
            auto_remove,
            pid_mode,
            privileged,
            binds,
            volumes_from,
            cap_add,
            cap_drop,
            dns,
            memory,
            memory_reservation,
            extra_hosts,
            devices,
            restart_policy,
        },
    )
}

/// One decoded `NetworkSettings` section.
pub open spec fn spec_network_settings_of(j: Json) -> Option<NetworkSettingsView> {
    match (
        spec_opt_str(j, "MacAddress"@),
        match spec_field(j, "Ports"@) {
            Some(v) => spec_ports_of(v),
            None => None,
        },
    ) {
        (Some(mac_address), Some(ports)) => Some(NetworkSettingsView { mac_address, ports }),
        _ => None,
    }
}

fn network_settings_of(j: &Json) -> (r: Result<NetworkSettings, InspectError>)
    ensures
        match r {
            Ok(c) => spec_network_settings_of(*j) == Some(c@),
            Err(e) => spec_network_settings_of(*j) is None && e == InspectError::SchemaError,
        },
{
    let mac_address = opt_str(j, "MacAddress")?;
    let ports = match field(j, "Ports") {
        Some(v) => ports_of(v)?,
        None => {
            return Err(InspectError::SchemaError);
        },
    };
    Ok(NetworkSettings { mac_address, ports })
}

/// One decoded container record.
pub open spec fn spec_container_of(j: Json) -> Option<DockerInspectView> {
    match (
        spec_req_str(j, "Id"@),
        spec_req_str(j, "Name"@),
        match spec_field(j, "Config"@) {
            Some(v) => spec_config_of(v),
            None => None,
        },
        match spec_field(j, "HostConfig"@) {
            Some(v) => spec_host_config_of(v),
            None => None,
        },
        match spec_field(j, "NetworkSettings"@) {
            Some(v) => spec_network_settings_of(v),
            None => None,
        },
    ) {
        (Some(id), Some(name), Some(config), Some(host_config), Some(network_settings)) => Some(
            DockerInspectView { id, name, config, host_config, network_settings },
        ),
        _ => None,
    }
}

/// Decodes one container element of an inspect document.
pub fn container_of(j: &Json) -> (r: Result<DockerInspect, InspectError>)
    ensures
        match r {
            Ok(c) => spec_container_of(*j) == Some(c@),
            Err(e) => spec_container_of(*j) is None && e == InspectError::SchemaError,
        },
{
    let id = req_str(j, "Id")?;
    let name = req_str(j, "Name")?;
    let config = match field(j, "Config") {
        Some(v) => config_of(v)?,
        None => {
            return Err(InspectError::SchemaError);
        },
    };
    let host_config = match field(j, "HostConfig") {
        Some(v) => host_config_of(v)?,
        None => {
            return Err(InspectError::SchemaError);
        },
    };
    let network_settings = match field(j, "NetworkSettings") {
        Some(v) => network_settings_of(v)?,
        None => {
            return Err(InspectError::SchemaError);
        },
    };
    Ok(DockerInspect { id, name, config, host_config, network_settings })
}

/// One decoded image record.
pub open spec fn spec_image_of(j: Json) -> Option<ImageInspectView> {
    match (
        match spec_field(j, "Config"@) {
            Some(v) => spec_list_required(v, "Env"@),
            None => None,
        },
        match spec_field(j, "HostConfig"@) {
            None => Some((
                Seq::<Seq<char>>::empty(),
                Seq::<Seq<char>>::empty(),
                Seq::<Seq<char>>::empty(),
                Seq::<Seq<char>>::empty(),
                Seq::<Seq<char>>::empty(),
            )),
            Some(Json::Null) => Some((
                Seq::<Seq<char>>::empty(),
                Seq::<Seq<char>>::empty(),
                Seq::<Seq<char>>::empty(),
                Seq::<Seq<char>>::empty(),
                Seq::<Seq<char>>::empty(),
            )),
            Some(v) => match (
                spec_list_defaulted(v, "Binds"@),
                spec_list_defaulted(v, "VolumesFrom"@),
                spec_list_defaulted(v, "CapAdd"@),
                spec_list_defaulted(v, "CapDrop"@),
                spec_list_required(v, "Dns"@),
            ) {
                (Some(binds), Some(volumes_from), Some(cap_add), Some(cap_drop), Some(dns)) => Some(
                    (binds, volumes_from, cap_add, cap_drop, dns),
                ),
                _ => None,
            },
        },
    ) {
        (Some(env), Some(host)) => Some(
            ImageInspectView {
                env,
                binds: host.0,
                volumes_from: host.1,
                cap_add: host.2,
                cap_drop: host.3,
                dns: host.4,
            },
        ),
        _ => None,
    }
}

/// Decodes one image element of an inspect document.
pub fn image_of(j: &Json) -> (r: Result<ImageInspect, InspectError>)
    ensures
        match r {
            Ok(c) => spec_image_of(*j) == Some(c@),
            Err(e) => spec_image_of(*j) is None && e == InspectError::SchemaError,
        },
{
    let env = match field(j, "Config") {
        Some(v) => list_required(v, "Env")?,
        None => {
            return Err(InspectError::SchemaError);
        },
    };
    let host_config = match field(j, "HostConfig") {
        None => ImageHostConfig {
            binds: Vec::new(),
            volumes_from: Vec::new(),
            cap_add: Vec::new(),
            cap_drop: Vec::new(),
            dns: Vec::new(),
        },
        Some(Json::Null) => ImageHostConfig {
            binds: Vec::new(),
            volumes_from: Vec::new(),
            cap_add: Vec::new(),
            cap_drop: Vec::new(),
            dns: Vec::new(),
        },
        Some(v) => {
            let binds = list_defaulted(v, "Binds")?;
            let volumes_from = list_defaulted(v, "VolumesFrom")?;
            let cap_add = list_defaulted(v, "CapAdd")?;
            let cap_drop = list_defaulted(v, "CapDrop")?;
            let dns = list_required(v, "Dns")?;
            ImageHostConfig { binds, volumes_from, cap_add, cap_drop, dns }
        },
    };
    let r = ImageInspect { config: ImageConfig { env }, host_config };
    proof {
        assert(seq_views(Seq::<String>::empty()) =~= Seq::<Seq<char>>::empty());
    }
    Ok(r)
}

/// The decode of container inspect bytes: empty input, then parse,
/// then the array shape, then the first element.
pub open spec fn spec_decode_container(b: Seq<u8>) -> Result<DockerInspectView, InspectError> {
    if b.len() == 0 {
        Err(InspectError::EmptyInput)
    } else {
        match value_of(b) {
            None => Err(InspectError::SchemaError),
            Some(v) => match json_of(v) {
                Json::Arr(els) => if els@.len() == 0 {
                    Err(InspectError::SchemaError)
                } else {
                    match spec_container_of(els@[0]) {
                        Some(c) => Ok(c),
                        None => Err(InspectError::SchemaError),
                    }
                },
                _ => Err(InspectError::SchemaError),
            },
        }
    }
}

/// The decode of image inspect bytes.
pub open spec fn spec_decode_image(b: Seq<u8>) -> Result<ImageInspectView, InspectError> {
    if b.len() == 0 {
        Err(InspectError::EmptyInput)
    } else {
        match value_of(b) {
            None => Err(InspectError::SchemaError),
            Some(v) => match json_of(v) {
                Json::Arr(els) => if els@.len() == 0 {
                    Err(InspectError::SchemaError)
                } else {
                    match spec_image_of(els@[0]) {
                        Some(c) => Ok(c),
                        None => Err(InspectError::SchemaError),
                    }
                },
                _ => Err(InspectError::SchemaError),
            },
        }
    }
}

/// Decodes a container inspect document. The top level must be a
/// non-empty JSON array; the first element is decoded and trailing
/// elements are ignored.
pub fn decode_container(b: &[u8]) -> (r: Result<DockerInspect, InspectError>)
    ensures
        match r {
            Ok(c) => spec_decode_container(b@) == Ok::<DockerInspectView, InspectError>(c@),
            Err(e) => spec_decode_container(b@) == Err::<DockerInspectView, InspectError>(e),
        },
{
    if b.len() == 0 {
        return Err(InspectError::EmptyInput);
    }
    let v = match crate::json::parse_value(b) {
        Some(v) => v,
        None => {
            return Err(InspectError::SchemaError);
        },
    };
    let j = crate::json::to_json(&v);
    match j {
        Json::Arr(els) => {
            if els.len() == 0 {
                Err(InspectError::SchemaError)
            } else {
                container_of(&els[0])
            }
        },
        _ => Err(InspectError::SchemaError),
    }
}

/// Decodes an image inspect document, of the same array shape.
pub fn decode_image(b: &[u8]) -> (r: Result<ImageInspect, InspectError>)
    ensures
        match r {
            Ok(c) => spec_decode_image(b@) == Ok::<ImageInspectView, InspectError>(c@),
            Err(e) => spec_decode_image(b@) == Err::<ImageInspectView, InspectError>(e),
        },
{
    if b.len() == 0 {
        return Err(InspectError::EmptyInput);
    }
    let v = match crate::json::parse_value(b) {
        Some(v) => v,
        None => {
            return Err(InspectError::SchemaError);
        },
    };
    let j = crate::json::to_json(&v);
    match j {
        Json::Arr(els) => {
            if els.len() == 0 {
                Err(InspectError::SchemaError)
            } else {
                image_of(&els[0])
            }
        },
        _ => Err(InspectError::SchemaError),
    }
}

/// Decoding is idempotent: the result of [`decode_container`] is a
/// function of the bytes alone (its `ensures` pins it to
/// [`spec_decode_container`]), so decoding the same bytes twice yields
/// structurally equal records — equal views, or the same error.
pub proof fn lemma_decode_container_deterministic(
    b: Seq<u8>,
    r1: Result<DockerInspectView, InspectError>,
    r2: Result<DockerInspectView, InspectError>,
)
    requires
        r1 == spec_decode_container(b),
        r2 == spec_decode_container(b),
    ensures
        r1 == r2,
{
}

/// Decoding an image document is idempotent in the same way.
pub proof fn lemma_decode_image_deterministic(
    b: Seq<u8>,
    r1: Result<ImageInspectView, InspectError>,
    r2: Result<ImageInspectView, InspectError>,
)
    requires
        r1 == spec_decode_image(b),
        r2 == spec_decode_image(b),
    ensures
        r1 == r2,
{
}

} // verus!
