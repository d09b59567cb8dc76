//! The audio devices that a PipeWire dump lists.
use vstd::prelude::*;
use vstd::utf8::{decode_utf8, valid_utf8};
use serde_json::Value;
use crate::json::{json_member, parse_json};
use crate::json::{Json, inner_member, json_of, parsed_json, plain_key, two_step_pointer};
use crate::text::{not_after, same_text};
use crate::text::{text_le, text_le_total, text_le_transitive};

verus! {

/// An audio device: a source, or the monitor of a sink.
#[derive(Clone, Debug)]
pub struct PwDevice {
    pub serial: u32,
    pub display_name: String,
    pub is_monitor: bool,
}

/// The contents of a [`PwDevice`].
pub struct DeviceView {
    pub serial: u32,
    pub display_name: Seq<char>,
    pub is_monitor: bool,
}

impl View for PwDevice {
    type V = DeviceView;

    open spec fn view(&self) -> DeviceView {
        DeviceView {
            serial: self.serial,
            display_name: self.display_name@,
            is_monitor: self.is_monitor,
        }
    }
}

/// The contents of a list of devices.
pub open spec fn device_views(devices: Seq<PwDevice>) -> Seq<DeviceView> {
    devices.map_values(|d: PwDevice| d@)
}

impl PwDevice {
    /// The same device.
    pub fn duplicate(&self) -> (r: Self)
        ensures
            r@ == self@,
    {
        PwDevice {
            serial: self.serial,
            display_name: self.display_name.clone(),
            is_monitor: self.is_monitor,
        }
    }
}

/// What is read of an object of the dump.
#[derive(Debug)]
pub struct PwNode {
    /// The type of the object, where that is a text.
    pub node_type: Option<String>,
    /// The properties, where there are any.
    pub props: Option<PwProps>,
}

/// What is read of the properties of an object of the dump.
#[derive(Debug)]
pub struct PwProps {
    /// The media class, where that is a text.
    pub media_class: Option<String>,
    /// The serial number of the object, where that is an integer.
    pub serial: Option<u64>,
    /// The description, or the name where there is no description, where that is a text.
    pub description: Option<String>,
}

/// The contents of a [`PwNode`].
pub struct NodeView {
    pub node_type: Option<Seq<char>>,
    pub props: Option<PropsView>,
}

/// The contents of a [`PwProps`].
pub struct PropsView {
    pub media_class: Option<Seq<char>>,
    pub serial: Option<u64>,
    pub description: Option<Seq<char>>,
}

/// The characters of a text that may be missing.
pub open spec fn option_text(t: Option<String>) -> Option<Seq<char>> {
    match t {
        Some(s) => Some(s@),
        None => None,
    }
}

impl View for PwProps {
    type V = PropsView;

    open spec fn view(&self) -> PropsView {
        PropsView {
            media_class: option_text(self.media_class),
            serial: self.serial,
            description: option_text(self.description),
        }
    }
}

impl View for PwNode {
    type V = NodeView;

    open spec fn view(&self) -> NodeView {
        NodeView {
            node_type: option_text(self.node_type),
            props: match self.props {
                Some(p) => Some(p@),
                None => None,
            },
        }
    }
}

/// The contents of a list of objects.
pub open spec fn node_views(nodes: Seq<PwNode>) -> Seq<NodeView> {
    nodes.map_values(|n: PwNode| n@)
}

/// The text of a member, where there is one and it is a text.
pub open spec fn member_text(v: Json, key: Seq<char>) -> Option<Seq<char>> {
    match v.member(key) {
        Some(m) => m.text(),
        None => None,
    }
}

/// What is read of properties.
pub open spec fn read_props_of(props: Json) -> PropsView {
    PropsView {
        media_class: member_text(props, "media.class"@),
        serial: match props.member("object.serial"@) {
            Some(m) => m.integer(),
            None => None,
        },
        description: if props.member("node.description"@) is Some {
            member_text(props, "node.description"@)
        } else {
            member_text(props, "node.name"@)
        },
    }
}

/// What is read of an object of the dump.
pub open spec fn read_node_of(node: Json) -> NodeView {
    NodeView {
        node_type: member_text(node, "type"@),
        props: match inner_member(node, "info"@, "props"@) {
            Some(p) => Some(read_props_of(p)),
            None => None,
        },
    }
}

fn read_text(v: &Value, key: &str) -> (r: Option<String>)
    ensures
        option_text(r) == member_text(json_of(*v), key@),
{
    match json_member(v, key) {
        Some(m) => match m.as_str() {
            Some(t) => Some(t.to_string()),
            None => None,
        },
        None => None,
    }
}

fn read_props(props: &Value) -> (r: PwProps)
    ensures
        r@ == read_props_of(json_of(*props)),
{
    let media_class = read_text(props, "media.class");
    let serial = match json_member(props, "object.serial") {
        Some(m) => m.as_u64(),
        None => None,
    };
    let description = if json_member(props, "node.description").is_some() {
        read_text(props, "node.description")
    } else {
        read_text(props, "node.name")
    };
    PwProps { media_class, serial, description }
}

/// Reads what matters of an object of the dump.
fn read_node(node: &Value) -> (r: PwNode)
    ensures
        r@ == read_node_of(json_of(*node)),
{
    let node_type = read_text(node, "type");
    proof {
        reveal_strlit("info");
        reveal_strlit("props");
        reveal_strlit("/info/props");
        assert(plain_key("info"@));
        assert(plain_key("props"@));
        assert("/info/props"@ =~= two_step_pointer("info"@, "props"@));
    }
    let props = match node.pointer("/info/props") {
        Some(p) => Some(read_props(p)),
        None => None,
    };
    PwNode { node_type, props }
}

/// The description of a device, or what stands for it.
pub open spec fn shown_description(description: Option<Seq<char>>) -> Seq<char> {
    match description {
        Some(d) => d,
        None => "Unknown Device"@,
    }
}

/// The device that an object of the dump stands for: a node with properties, a serial number of
/// which 32 bits are kept, and the class of a source or of a sink.
pub open spec fn device_of(node: NodeView) -> Option<DeviceView> {
    match (node.node_type, node.props) {
        (Some(t), Some(p)) => if t == "PipeWire:Interface:Node"@ {
            match (p.media_class, p.serial) {
                (Some(class), Some(serial)) => if class == "Audio/Source"@ {
                    Some(
                        DeviceView {
                            serial: (serial % 4294967296) as u32,
                            display_name: shown_description(p.description) + " (mic)"@,
                            is_monitor: false,
                        },
                    )
                } else if class == "Audio/Sink"@ {
                    Some(
                        DeviceView {
                            serial: (serial % 4294967296) as u32,
                            display_name: "Monitor of "@ + shown_description(p.description),
                            is_monitor: true,
                        },
                    )
                } else {
                    None
                },
                _ => None,
            }
        } else {
            None
        },
        _ => None,
    }
}

/// The devices that the objects of a dump stand for, in their order.
pub open spec fn devices_of(nodes: Seq<NodeView>) -> Seq<DeviceView>
    decreases nodes.len(),
{
    if nodes.len() == 0 {
        Seq::empty()
    } else {
        match device_of(nodes.last()) {
            Some(d) => devices_of(nodes.drop_last()).push(d),
            None => devices_of(nodes.drop_last()),
        }
    }
}

/// The order in which devices are listed: monitors before sources, each by name.
pub open spec fn device_le(a: DeviceView, b: DeviceView) -> bool {
    if a.is_monitor == b.is_monitor {
        text_le(a.display_name, b.display_name)
    } else {
        a.is_monitor
    }
}

/// A device put behind the last of those that it does not come before.
pub open spec fn with_device(sorted: Seq<DeviceView>, d: DeviceView) -> Seq<DeviceView>
    decreases sorted.len(),
{
    if sorted.len() > 0 && !device_le(sorted.last(), d) {
        with_device(sorted.drop_last(), d).push(sorted.last())
    } else {
        sorted.push(d)
    }
}

/// The devices in the order in which they are listed; of equal ones the earlier first.
pub open spec fn sorted_devices(devices: Seq<DeviceView>) -> Seq<DeviceView>
    decreases devices.len(),
{
    if devices.len() == 0 {
        Seq::empty()
    } else {
        with_device(sorted_devices(devices.drop_last()), devices.last())
    }
}

/// The devices that a dump lists.
pub open spec fn listed_devices(nodes: Seq<NodeView>) -> Seq<DeviceView> {
    sorted_devices(devices_of(nodes))
}

/// Gives the device that an object of the dump stands for.
pub fn device_from_node(node: &PwNode) -> (r: Option<PwDevice>)
    ensures
        (match r {
            Some(d) => device_of(node@) == Some(d@),
            None => device_of(node@) is None,
        }),
{
    let node_type = match &node.node_type {
        Some(t) => t,
        None => return None,
    };
    if !same_text(node_type.as_str(), "PipeWire:Interface:Node") {
        return None;
    }
    let props = match &node.props {
        Some(p) => p,
        None => return None,
    };
    let media_class = match &props.media_class {
        Some(c) => c,
        None => return None,
    };
    let serial: u32 = match props.serial {
        Some(s) => (s % 4294967296) as u32,
        None => return None,
    };
    let description: &str = match &props.description {
        Some(d) => d.as_str(),
        None => "Unknown Device",
    };
    if same_text(media_class.as_str(), "Audio/Source") {
        let mut display_name = description.to_string();
        display_name.append(" (mic)");
        Some(PwDevice { serial, display_name, is_monitor: false })
    } else if same_text(media_class.as_str(), "Audio/Sink") {
        let mut display_name = String::new();
        display_name.append("Monitor of ");
        display_name.append(description);
        assert(display_name@ =~= "Monitor of "@ + shown_description(props@.description));
        Some(PwDevice { serial, display_name, is_monitor: true })
    } else {
        None
    }
}

fn in_order(a: &PwDevice, b: &PwDevice) -> (r: bool)
    ensures
        r == device_le(a@, b@),
{
    if a.is_monitor == b.is_monitor {
        not_after(a.display_name.as_str(), b.display_name.as_str())
    } else {
        a.is_monitor
    }
}

fn insert_device(devices: &mut Vec<PwDevice>, d: PwDevice)
    ensures
        device_views(final(devices)@) == with_device(device_views(old(devices)@), d@),
{
    let ghost before = device_views(devices@);
    let mut at: usize = devices.len();
    proof {
        assert(before.take(at as int) =~= before);
        assert(before.skip(at as int) =~= Seq::<DeviceView>::empty());
        assert(with_device(before, d@) =~= with_device(before, d@) + Seq::<DeviceView>::empty());
    }
    while at > 0 && !in_order(&devices[at - 1], &d)
        invariant
            at <= devices@.len(),
            *devices == *old(devices),
            before == device_views(devices@),
            with_device(before, d@) == with_device(before.take(at as int), d@) + before.skip(
                at as int,
            ),
        ensures
            at <= devices@.len(),
            *devices == *old(devices),
            with_device(before, d@) == with_device(before.take(at as int), d@) + before.skip(
                at as int,
            ),
            at > 0 ==> device_le(before[at - 1], d@),
        decreases at,
    {
        proof {
            let part = before.take(at as int);
            assert(part.last() == before[at - 1]);
            assert(part.drop_last() =~= before.take(at - 1));
            assert(with_device(part, d@) + before.skip(at as int) =~= with_device(
                before.take(at - 1),
                d@,
            ) + before.skip(at - 1));
        }
        at = at - 1;
    }
    proof {
        assert(with_device(before.take(at as int), d@) == before.take(at as int).push(d@));
    }
    let ghost new = d@;
    devices.insert(at, d);
    assert(device_views(devices@) =~= before.take(at as int).push(new) + before.skip(at as int));
}

/// The devices that the objects of a dump stand for, in the order in which they are listed.
pub fn devices_from_nodes(nodes: &Vec<PwNode>) -> (r: Vec<PwDevice>)
    ensures
        device_views(r@) == listed_devices(node_views(nodes@)),
{
    let ghost views = node_views(nodes@);
    let mut devices: Vec<PwDevice> = Vec::new();
    let n = nodes.len();
    assert(device_views(devices@) =~= Seq::<DeviceView>::empty());
    for i in 0..n
        invariant
            n == nodes@.len(),
            views == node_views(nodes@),
            device_views(devices@) == listed_devices(views.take(i as int)),
    {
        proof {
            let part = views.take(i + 1);
            assert(part.drop_last() =~= views.take(i as int));
            assert(part.last() == nodes@[i as int]@);
            if let Some(d) = device_of(part.last()) {
                let all = devices_of(part);
                assert(all.drop_last() =~= devices_of(views.take(i as int)));
            }
        }
        if let Some(d) = device_from_node(&nodes[i]) {
            insert_device(&mut devices, d);
        }
    }
    assert(views.take(n as int) =~= views);
    devices
}

/// What came back from the run of `pw-dump`.
#[derive(Debug)]
pub struct DumpOutput {
    pub success: bool,
    pub stdout: Vec<u8>,
    pub stderr: Vec<u8>,
}

/// Why there is no list of devices.
#[derive(Debug)]
pub enum DeviceError {
    /// The program failed; this is what it wrote.
    DumpFailed(String),
    /// What the program wrote is not JSON; the text says why.
    BadJson(String),
    /// What the program wrote is not an array.
    NotArray,
}

impl DeviceError {
    /// What is wrong.
    pub fn message(&self) -> (r: String)
        ensures
            r@ == match *self {
                DeviceError::DumpFailed(said) => "pw-dump failed: "@ + said@,
                DeviceError::BadJson(why) => "Failed to parse pw-dump output: "@ + why@,
                DeviceError::NotArray => "Expected JSON array from pw-dump"@,
            },
    {
        match self {
            DeviceError::DumpFailed(said) => {
                let mut out = String::new();
                out.append("pw-dump failed: ");
                out.append(said.as_str());
                assert(out@ =~= "pw-dump failed: "@ + said@);
                out
            },
            DeviceError::BadJson(why) => {
                let mut out = String::new();
                out.append("Failed to parse pw-dump output: ");
                out.append(why.as_str());
                assert(out@ =~= "Failed to parse pw-dump output: "@ + why@);
                out
            },
            DeviceError::NotArray => "Expected JSON array from pw-dump".to_string(),
        }
    }
}

/// The text of bytes in which what is not UTF-8 is replaced, as `String::from_utf8_lossy` gives it.
pub uninterp spec fn lossy_text(bytes: Seq<u8>) -> Seq<char>;

/// `String::from_utf8_lossy`: a function of the bytes alone, and the text itself where they are
/// valid UTF-8.
#[verifier::external_body]
fn read_lossy(bytes: &[u8]) -> (r: String)
    ensures
        r@ == lossy_text(bytes@),
        valid_utf8(bytes@) ==> r@ == decode_utf8(bytes@),
{
    String::from_utf8_lossy(bytes).into_owned()
}

/// The objects of a dump.
pub open spec fn dump_nodes(items: Seq<Json>) -> Seq<NodeView> {
    items.map_values(|item: Json| read_node_of(item))
}

/// Reads the objects of a dump that has been parsed.
fn read_nodes(dump: &Value) -> (r: Result<Vec<PwNode>, DeviceError>)
    ensures
        (match r {
            Ok(nodes) => json_of(*dump) matches Json::Array(items) && node_views(nodes@)
                == dump_nodes(items),
            Err(e) => !(json_of(*dump) is Array) && e is NotArray,
        }),
{
    let items = match dump.as_array() {
        Some(items) => items,
        None => return Err(DeviceError::NotArray),
    };
    let ghost jsons = items@.map_values(|x: Value| json_of(x));
    let mut nodes: Vec<PwNode> = Vec::new();
    let n = items.len();
    for i in 0..n
        invariant
            n == items@.len(),
            jsons == items@.map_values(|x: Value| json_of(x)),
            node_views(nodes@) == dump_nodes(jsons).take(i as int),
    {
        let ghost before = node_views(nodes@);
        let node = read_node(&items[i]);
        let ghost view = node@;
        nodes.push(node);
        proof {
            assert(node_views(nodes@) =~= before.push(view));
            assert(dump_nodes(jsons)[i as int] == view);
            assert(dump_nodes(jsons).take(i + 1) =~= dump_nodes(jsons).take(i as int).push(view));
        }
    }
    assert(dump_nodes(jsons).take(n as int) =~= dump_nodes(jsons));
    Ok(nodes)
}

/// Enumerate available PipeWire audio devices (sources and sink monitors) from what `pw-dump` put
/// out.
pub fn list_devices(output: &DumpOutput) -> (r: Result<Vec<PwDevice>, DeviceError>)
    ensures
        (match r {
            Ok(devices) => output.success && (parsed_json(output.stdout@) matches Ok(
                Json::Array(items),
            ) && device_views(devices@) == listed_devices(dump_nodes(items))),
            Err(DeviceError::DumpFailed(said)) => !output.success && said@ == lossy_text(
                output.stderr@,
            ) && (valid_utf8(output.stderr@) ==> said@ == decode_utf8(output.stderr@)),
            Err(DeviceError::BadJson(why)) => output.success && parsed_json(output.stdout@) == Err::<
                Json,
                Seq<char>,
            >(why@),
            Err(DeviceError::NotArray) => output.success && (parsed_json(output.stdout@) matches Ok(
                dump,
            ) && !(dump is Array)),
        }),
{
    if !output.success {
        return Err(DeviceError::DumpFailed(read_lossy(output.stderr.as_slice())));
    }
    let dump = match parse_json(output.stdout.as_slice()) {
        Ok(dump) => dump,
        Err(why) => return Err(DeviceError::BadJson(why)),
    };
    match read_nodes(&dump) {
        Ok(nodes) => Ok(devices_from_nodes(&nodes)),
        Err(_) => Err(DeviceError::NotArray),
    }
}

/// The sources among devices.
pub open spec fn sources_of(devices: Seq<DeviceView>) -> Seq<DeviceView> {
    devices.filter(|d: DeviceView| !d.is_monitor)
}

/// The devices that are sources, in their order.
pub fn only_sources(devices: &Vec<PwDevice>) -> (r: Vec<PwDevice>)
    ensures
        device_views(r@) == sources_of(device_views(devices@)),
{
    let ghost views = device_views(devices@);
    let ghost pred = |d: DeviceView| !d.is_monitor;
    let mut sources: Vec<PwDevice> = Vec::new();
    let n = devices.len();
    proof {
        reveal(Seq::filter);
        assert(device_views(sources@) =~= views.take(0).filter(pred));
    }
    for i in 0..n
        invariant
            n == devices@.len(),
            views == device_views(devices@),
            pred == (|d: DeviceView| !d.is_monitor),
            device_views(sources@) == views.take(i as int).filter(pred),
    {
        proof {
            reveal(Seq::filter);
            assert(views.take(i + 1).drop_last() =~= views.take(i as int));
            assert(views.take(i + 1).last() == devices@[i as int]@);
        }
        if !devices[i].is_monitor {
            let ghost before = device_views(sources@);
            let source = devices[i].duplicate();
            let ghost view = source@;
            sources.push(source);
            assert(device_views(sources@) =~= before.push(view));
        }
    }
    assert(views.take(n as int) =~= views);
    sources
}

/// List only Audio/Source devices (microphones).
pub fn list_sources(output: &DumpOutput) -> (r: Result<Vec<PwDevice>, DeviceError>)
    ensures
        (match r {
            Ok(devices) => output.success && (parsed_json(output.stdout@) matches Ok(
                Json::Array(items),
            ) && device_views(devices@) == sources_of(listed_devices(dump_nodes(items)))),
            Err(DeviceError::DumpFailed(said)) => !output.success && said@ == lossy_text(
                output.stderr@,
            ) && (valid_utf8(output.stderr@) ==> said@ == decode_utf8(output.stderr@)),
            Err(DeviceError::BadJson(why)) => output.success && parsed_json(output.stdout@) == Err::<
                Json,
                Seq<char>,
            >(why@),
            Err(DeviceError::NotArray) => output.success && (parsed_json(output.stdout@) matches Ok(
                dump,
            ) && !(dump is Array)),
        }),
{
    match list_devices(output) {
        Ok(devices) => Ok(only_sources(&devices)),
        Err(e) => Err(e),
    }
}

// What holds of the list of devices.

/// Whether each device is in order with all that follow it.
pub open spec fn in_listing_order(devices: Seq<DeviceView>) -> bool {
    forall|i: int, j: int|
        0 <= i < j < devices.len() ==> device_le(#[trigger] devices[i], #[trigger] devices[j])
}

/// Whether a device has this class and this name.
pub open spec fn has_key(d: DeviceView, is_monitor: bool, name: Seq<char>) -> bool {
    d.is_monitor == is_monitor && d.display_name == name
}

/// The devices with this class and this name, in their order.
pub open spec fn with_key(devices: Seq<DeviceView>, is_monitor: bool, name: Seq<char>) -> Seq<
    DeviceView,
> {
    devices.filter(|d: DeviceView| has_key(d, is_monitor, name))
}

proof fn lemma_device_le_total(a: DeviceView, b: DeviceView)
    ensures
        device_le(a, b) || device_le(b, a),
{
    text_le_total(a.display_name, b.display_name);
}

proof fn lemma_device_le_transitive(a: DeviceView, b: DeviceView, c: DeviceView)
    requires
        device_le(a, b),
        device_le(b, c),
    ensures
        device_le(a, c),
{
    if a.is_monitor == b.is_monitor && b.is_monitor == c.is_monitor {
        text_le_transitive(a.display_name, b.display_name, c.display_name);
    }
}

proof fn lemma_with_device_elements(sorted: Seq<DeviceView>, d: DeviceView)
    ensures
        with_device(sorted, d).len() == sorted.len() + 1,
        forall|i: int|
            0 <= i < with_device(sorted, d).len() ==> #[trigger] with_device(sorted, d)[i] == d
                || sorted.contains(with_device(sorted, d)[i]),
    decreases sorted.len(),
{
    let w = with_device(sorted, d);
    if sorted.len() > 0 && !device_le(sorted.last(), d) {
        let rest = sorted.drop_last();
        lemma_with_device_elements(rest, d);
        assert forall|i: int| 0 <= i < w.len() implies #[trigger] w[i] == d || sorted.contains(
            w[i],
        ) by {
            if i < sorted.len() {
                let inner = with_device(rest, d);
                assert(w[i] == inner[i]);
                if inner[i] != d {
                    let k = choose|k: int| 0 <= k < rest.len() && rest[k] == inner[i];
                    assert(sorted[k] == inner[i]);
                }
            } else {
                assert(w[i] == sorted[sorted.len() - 1]);
            }
        }
    } else {
        assert forall|i: int| 0 <= i < w.len() implies #[trigger] w[i] == d || sorted.contains(
            w[i],
        ) by {
            if i < sorted.len() {
                assert(w[i] == sorted[i]);
            }
        }
    }
}

proof fn lemma_with_device_ordered(sorted: Seq<DeviceView>, d: DeviceView)
    requires
        in_listing_order(sorted),
    ensures
        in_listing_order(with_device(sorted, d)),
    decreases sorted.len(),
{
    let w = with_device(sorted, d);
    if sorted.len() > 0 && !device_le(sorted.last(), d) {
        let rest = sorted.drop_last();
        assert(in_listing_order(rest));
        lemma_with_device_ordered(rest, d);
        lemma_with_device_elements(rest, d);
        let inner = with_device(rest, d);
        assert forall|i: int, j: int| 0 <= i < j < w.len() implies device_le(
            #[trigger] w[i],
            #[trigger] w[j],
        ) by {
            assert(w[i] == inner[i]);
            if j < inner.len() {
                assert(w[j] == inner[j]);
            } else {
                assert(w[j] == sorted.last());
                if inner[i] == d {
                    lemma_device_le_total(sorted.last(), d);
                } else {
                    let k = choose|k: int| 0 <= k < rest.len() && rest[k] == inner[i];
                    assert(sorted[k] == inner[i]);
                    assert(device_le(sorted[k], sorted[sorted.len() - 1]));
                }
            }
        }
    } else {
        assert forall|i: int, j: int| 0 <= i < j < w.len() implies device_le(
            #[trigger] w[i],
            #[trigger] w[j],
        ) by {
            assert(w[i] == sorted[i]);
            if j < sorted.len() {
                assert(w[j] == sorted[j]);
            } else if i < sorted.len() - 1 {
                assert(device_le(sorted[i], sorted[sorted.len() - 1]));
                lemma_device_le_transitive(sorted[i], sorted.last(), d);
            }
        }
    }
}

/// Devices are listed in order: monitors before sources, each by name.
pub proof fn listing_is_ordered(devices: Seq<DeviceView>)
    ensures
        in_listing_order(sorted_devices(devices)),
    decreases devices.len(),
{
    if devices.len() > 0 {
        listing_is_ordered(devices.drop_last());
        lemma_with_device_ordered(sorted_devices(devices.drop_last()), devices.last());
    }
}

proof fn lemma_filter_push(s: Seq<DeviceView>, d: DeviceView, pred: spec_fn(DeviceView) -> bool)
    ensures
        s.push(d).filter(pred) == if pred(d) {
            s.filter(pred).push(d)
        } else {
            s.filter(pred)
        },
{
    reveal(Seq::filter);
    assert(s.push(d).drop_last() =~= s);
}

proof fn lemma_with_device_stable(
    sorted: Seq<DeviceView>,
    d: DeviceView,
    is_monitor: bool,
    name: Seq<char>,
)
    ensures
        with_key(with_device(sorted, d), is_monitor, name) == with_key(
            sorted.push(d),
            is_monitor,
            name,
        ),
    decreases sorted.len(),
{
    if sorted.len() > 0 && !device_le(sorted.last(), d) {
        let pred = |x: DeviceView| has_key(x, is_monitor, name);
        let last = sorted.last();
        let rest = sorted.drop_last();
        lemma_with_device_stable(rest, d, is_monitor, name);
        lemma_filter_push(with_device(rest, d), last, pred);
        lemma_filter_push(rest, d, pred);
        lemma_filter_push(rest, last, pred);
        lemma_filter_push(sorted, d, pred);
        assert(rest.push(last) =~= sorted);
        if pred(last) && pred(d) {
            crate::text::text_le_reflexive(name);
        }
    }
}

/// Devices of one class with one name keep the order that they have in the dump.
pub proof fn listing_is_stable(devices: Seq<DeviceView>, is_monitor: bool, name: Seq<char>)
    ensures
        with_key(sorted_devices(devices), is_monitor, name) == with_key(devices, is_monitor, name),
    decreases devices.len(),
{
    if devices.len() > 0 {
        let pred = |x: DeviceView| has_key(x, is_monitor, name);
        let rest = devices.drop_last();
        let d = devices.last();
        listing_is_stable(rest, is_monitor, name);
        lemma_with_device_stable(sorted_devices(rest), d, is_monitor, name);
        lemma_filter_push(sorted_devices(rest), d, pred);
        lemma_filter_push(rest, d, pred);
        assert(rest.push(d) =~= devices);
    } else {
        assert(sorted_devices(devices) =~= devices);
    }
}

proof fn lemma_with_device_multiset(sorted: Seq<DeviceView>, d: DeviceView)
    ensures
        with_device(sorted, d).to_multiset() == sorted.push(d).to_multiset(),
    decreases sorted.len(),
{
    broadcast use vstd::seq_lib::group_to_multiset_ensures;

    if sorted.len() > 0 && !device_le(sorted.last(), d) {
        let rest = sorted.drop_last();
        lemma_with_device_multiset(rest, d);
        assert(rest.push(sorted.last()) =~= sorted);
        assert(with_device(sorted, d).to_multiset() =~= sorted.push(d).to_multiset());
    }
}

/// Listing drops no device and adds none.
pub proof fn listing_keeps_devices(devices: Seq<DeviceView>)
    ensures
        sorted_devices(devices).to_multiset() == devices.to_multiset(),
    decreases devices.len(),
{
    broadcast use vstd::seq_lib::group_to_multiset_ensures;

    if devices.len() > 0 {
        let rest = devices.drop_last();
        let d = devices.last();
        listing_keeps_devices(rest);
        lemma_with_device_multiset(sorted_devices(rest), d);
        assert(rest.push(d) =~= devices);
    } else {
        assert(sorted_devices(devices) =~= devices);
    }
}

// What holds of the devices of a dump.

/// A device has the serial number of its node, of which the low 32 bits are kept: one that 32 bits
/// hold is kept whole, so that nodes with different ones are different devices.
pub proof fn serials_are_kept(node: NodeView, other: NodeView)
    ensures
        device_of(node) matches Some(d) ==> (node.props matches Some(p) && (p.serial matches Some(s)
            && d.serial as int == s as int % 0x1_0000_0000 && (s < 0x1_0000_0000 ==> d.serial == s))),
        (device_of(node) matches Some(d) && device_of(other) matches Some(e)
            && node.props->Some_0.serial->Some_0 < 0x1_0000_0000
            && other.props->Some_0.serial->Some_0 < 0x1_0000_0000
            && node.props->Some_0.serial->Some_0 != other.props->Some_0.serial->Some_0)
            ==> device_of(node)->Some_0.serial != device_of(other)->Some_0.serial,
{
}

/// A node is a device exactly where it is of the type of nodes and has properties with a serial
/// number and the class of a source or of a sink.
pub proof fn nodes_that_are_devices(node: NodeView)
    ensures
        device_of(node) is Some <==> {
            &&& node.node_type == Some("PipeWire:Interface:Node"@)
            &&& node.props matches Some(p)
            &&& p.serial is Some
            &&& p.media_class == Some("Audio/Source"@) || p.media_class == Some("Audio/Sink"@)
        },
{
}

/// A source is shown by its description and marked as a microphone, a sink as the monitor of its
/// description. Without a description the device is unknown.
pub proof fn devices_are_named(node: NodeView)
    ensures
        device_of(node) matches Some(d) ==> {
            let p = node.props->Some_0;
            let name = match p.description {
                Some(n) => n,
                None => "Unknown Device"@,
            };
            &&& p.media_class == Some("Audio/Source"@) ==> !d.is_monitor && d.display_name == name
                + " (mic)"@
            &&& p.media_class == Some("Audio/Sink"@) ==> d.is_monitor && d.display_name
                == "Monitor of "@ + name
        },
{
    reveal_strlit("Audio/Source");
    reveal_strlit("Audio/Sink");
    assert("Audio/Source"@.len() != "Audio/Sink"@.len());
}

proof fn lemma_devices_from_nodes(nodes: Seq<NodeView>)
    ensures
        forall|i: int|
            0 <= i < nodes.len() && device_of(#[trigger] nodes[i]) is Some ==> devices_of(
                nodes,
            ).contains(device_of(nodes[i])->Some_0),
        forall|k: int|
            0 <= k < devices_of(nodes).len() ==> exists|i: int|
                0 <= i < nodes.len() && device_of(#[trigger] nodes[i]) == Some(
                    #[trigger] devices_of(nodes)[k],
                ),
    decreases nodes.len(),
{
    let all = devices_of(nodes);
    if nodes.len() > 0 {
        let rest = nodes.drop_last();
        let earlier = devices_of(rest);
        lemma_devices_from_nodes(rest);
        assert forall|i: int| 0 <= i < nodes.len() && device_of(#[trigger] nodes[i]) is Some implies
            all.contains(device_of(nodes[i])->Some_0) by {
            let d = device_of(nodes[i])->Some_0;
            if i < rest.len() {
                assert(rest[i] == nodes[i]);
                let k = choose|k: int| 0 <= k < earlier.len() && earlier[k] == d;
                assert(all[k] == d);
            } else {
                assert(all[all.len() - 1] == d);
            }
        }
        assert forall|k: int| 0 <= k < all.len() implies exists|i: int|
            0 <= i < nodes.len() && device_of(#[trigger] nodes[i]) == Some(#[trigger] all[k]) by {
            if k < earlier.len() {
                assert(all[k] == earlier[k]);
                let i = choose|i: int|
                    0 <= i < rest.len() && device_of(#[trigger] rest[i]) == Some(earlier[k]);
                assert(device_of(nodes[i]) == Some(all[k]));
            } else {
                assert(device_of(nodes[nodes.len() - 1]) == Some(all[k]));
            }
        }
    }
}

/// Every node that is a device is listed, and nothing is listed that is none.
pub proof fn exactly_the_devices_are_listed(nodes: Seq<NodeView>, d: DeviceView)
    ensures
        listed_devices(nodes).contains(d) <==> exists|i: int|
            0 <= i < nodes.len() && device_of(#[trigger] nodes[i]) == Some(d),
{
    broadcast use vstd::seq_lib::group_to_multiset_ensures;

    let found = devices_of(nodes);
    let listed = listed_devices(nodes);
    lemma_devices_from_nodes(nodes);
    listing_keeps_devices(found);
    assert(found.contains(d) <==> found.to_multiset().count(d) > 0);
    assert(listed.contains(d) <==> listed.to_multiset().count(d) > 0);
    if found.contains(d) {
        let k = choose|k: int| 0 <= k < found.len() && found[k] == d;
        assert(exists|i: int|
            0 <= i < nodes.len() && device_of(#[trigger] nodes[i]) == Some(found[k]));
    }
}

/// A node of a dump with the class of a source or of a sink, a serial number that 32 bits hold and a
/// description is listed with that number and that description.
pub proof fn a_described_node_is_listed(
    items: Seq<Json>,
    i: int,
    props: Json,
    monitor: bool,
    serial: u64,
    description: Seq<char>,
)
    requires
        0 <= i < items.len(),
        items[i].member("type"@) == Some(Json::Text("PipeWire:Interface:Node"@)),
        inner_member(items[i], "info"@, "props"@) == Some(props),
        props.member("media.class"@) == Some(
            Json::Text(
                if monitor {
                    "Audio/Sink"@
                } else {
                    "Audio/Source"@
                },
            ),
        ),
        props.member("object.serial"@) == Some(Json::Number(Some(serial))),
        serial < 0x1_0000_0000,
        props.member("node.description"@) == Some(Json::Text(description)),
    ensures
        listed_devices(dump_nodes(items)).contains(
            (DeviceView {
                serial: serial as u32,
                display_name: if monitor {
                    "Monitor of "@ + description
                } else {
                    description + " (mic)"@
                },
                is_monitor: monitor,
            }),
        ),
{
    let nodes = dump_nodes(items);
    let d = DeviceView {
        serial: serial as u32,
        display_name: if monitor {
            "Monitor of "@ + description
        } else {
            description + " (mic)"@
        },
        is_monitor: monitor,
    };
    nodes_that_are_devices(nodes[i]);
    devices_are_named(nodes[i]);
    serials_are_kept(nodes[i], nodes[i]);
    assert(device_of(nodes[i]) == Some(d));
    exactly_the_devices_are_listed(nodes, d);
}

/// Without a description the name of a node is shown, and a description that is no text is not
/// replaced by it.
pub proof fn names_stand_for_descriptions(props: Json, name: Seq<char>)
    ensures
        props.member("node.description"@) is None && props.member("node.name"@) == Some(
            Json::Text(name),
        ) ==> read_props_of(props).description == Some(name),
        (props.member("node.description"@) matches Some(m) && m.text() is None) ==> read_props_of(
            props,
        ).description is None,
        props.member("node.description"@) is None && props.member("node.name"@) is None
            ==> read_props_of(props).description is None,
{
}

/// Monitors are listed before sources, and devices of one class by the order of their names.
pub proof fn monitors_come_first(devices: Seq<DeviceView>, i: int, j: int)
    requires
        0 <= i < j < sorted_devices(devices).len(),
    ensures
        ({
            let (a, b) = (sorted_devices(devices)[i], sorted_devices(devices)[j]);
            &&& b.is_monitor ==> a.is_monitor
            &&& a.is_monitor == b.is_monitor ==> text_le(a.display_name, b.display_name)
        }),
{
    listing_is_ordered(devices);
    assert(device_le(sorted_devices(devices)[i], sorted_devices(devices)[j]));
}

/// The sources are the devices that are no monitors, all of them and in their order: a monitor in
/// front changes nothing, a source in front stays there.
pub proof fn sources_are_no_monitors(devices: Seq<DeviceView>, d: DeviceView)
    ensures
        sources_of(devices).contains(d) <==> devices.contains(d) && !d.is_monitor,
        sources_of(devices.push(d)) == if d.is_monitor {
            sources_of(devices)
        } else {
            sources_of(devices).push(d)
        },
{
    let pred = |x: DeviceView| !x.is_monitor;
    lemma_filter_push(devices, d, pred);
    lemma_filter_members(devices, pred, d);
}

proof fn lemma_filter_members(
    s: Seq<DeviceView>,
    pred: spec_fn(DeviceView) -> bool,
    d: DeviceView,
)
    ensures
        s.filter(pred).contains(d) <==> s.contains(d) && pred(d),
    decreases s.len(),
{
    reveal(Seq::filter);
    if s.len() > 0 {
        let rest = s.drop_last();
        lemma_filter_members(rest, pred, d);
        assert(s =~= rest.push(s.last()));
        let all = s.filter(pred);
        if rest.contains(d) {
            let k = choose|k: int| 0 <= k < rest.len() && rest[k] == d;
            assert(s[k] == d);
        }
        if s.contains(d) {
            let k = choose|k: int| 0 <= k < s.len() && s[k] == d;
            if k < rest.len() {
                assert(rest[k] == d);
            }
        }
        if pred(s.last()) {
            assert(all[all.len() - 1] == s.last());
            if rest.filter(pred).contains(d) {
                let k = choose|k: int|
                    0 <= k < rest.filter(pred).len() && rest.filter(pred)[k] == d;
                assert(all[k] == d);
            }
            if all.contains(d) {
                let k = choose|k: int| 0 <= k < all.len() && all[k] == d;
                if k < rest.filter(pred).len() {
                    assert(rest.filter(pred)[k] == d);
                }
            }
        }
        assert(s.last() == s[s.len() - 1]);
    }
}

} // verus!
