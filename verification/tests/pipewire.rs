use rump::pipewire::{
    device_from_node, devices_from_nodes, list_devices, list_sources, only_sources, DeviceError, DumpOutput, PwDevice, PwNode, PwProps,
};

fn dump(stdout: &str) -> DumpOutput {
    DumpOutput { success: true, stdout: stdout.as_bytes().to_vec(), stderr: Vec::new() }
}

fn node(class: &str, serial: u64, description: Option<&str>) -> PwNode {
    PwNode {
        node_type: Some("PipeWire:Interface:Node".to_string()),
        props: Some(PwProps {
            media_class: Some(class.to_string()),
            serial: Some(serial),
            description: description.map(|d| d.to_string()),
        }),
    }
}

fn shown(devices: &[PwDevice]) -> Vec<(u32, &str, bool)> {
    devices.iter().map(|d| (d.serial, d.display_name.as_str(), d.is_monitor)).collect()
}

const DUMP: &str = r#"[
    {"type": "PipeWire:Interface:Node", "info": {"props": {
        "media.class": "Audio/Source", "object.serial": 51, "node.description": "USB Mic"}}},
    {"type": "PipeWire:Interface:Node", "info": {"props": {
        "media.class": "Audio/Sink", "object.serial": 40, "node.name": "speakers"}}},
    {"type": "PipeWire:Interface:Node", "info": {"props": {
        "media.class": "Audio/Sink", "object.serial": 4294967298, "node.description": "HDMI"}}},
    {"type": "PipeWire:Interface:Node", "info": {"props": {
        "media.class": "Audio/Source", "object.serial": 52, "node.description": 7,
        "node.name": "not this"}}},
    {"type": "PipeWire:Interface:Node", "info": {"props": {
        "media.class": "Video/Source", "object.serial": 1, "node.description": "Camera"}}},
    {"type": "PipeWire:Interface:Node", "info": {"props": {
        "media.class": "Audio/Sink", "object.serial": "8"}}},
    {"type": "PipeWire:Interface:Node", "info": {"props": {"object.serial": 9}}},
    {"type": "PipeWire:Interface:Node", "info": {}},
    {"type": "PipeWire:Interface:Link", "info": {"props": {
        "media.class": "Audio/Sink", "object.serial": 3}}},
    17
]"#;

#[test]
fn devices_of_a_dump() {
    let devices = list_devices(&dump(DUMP)).unwrap();
    assert_eq!(
        shown(&devices),
        vec![
            (2, "Monitor of HDMI", true),
            (40, "Monitor of speakers", true),
            (51, "USB Mic (mic)", false),
            (52, "Unknown Device (mic)", false),
        ]
    );
}

#[test]
fn sources_of_a_dump() {
    let sources = list_sources(&dump(DUMP)).unwrap();
    assert_eq!(
        shown(&sources),
        vec![(51, "USB Mic (mic)", false), (52, "Unknown Device (mic)", false)]
    );
}

#[test]
fn dump_that_failed() {
    let output = DumpOutput {
        success: false,
        stdout: b"[]".to_vec(),
        stderr: vec![b'n', b'o', 0xFF],
    };
    let error = list_devices(&output).unwrap_err();
    assert_eq!(error.message(), "pw-dump failed: no\u{FFFD}");
    assert!(matches!(list_sources(&output), Err(DeviceError::DumpFailed(_))));
    let output =
        DumpOutput { success: false, stdout: Vec::new(), stderr: "kein Gerät".as_bytes().to_vec() };
    assert_eq!(list_devices(&output).unwrap_err().message(), "pw-dump failed: kein Gerät");
}

#[test]
fn dump_that_is_not_json() {
    let error = list_devices(&dump("[")).unwrap_err();
    assert_eq!(
        error.message(),
        "Failed to parse pw-dump output: EOF while parsing a list at line 1 column 1"
    );
    assert!(matches!(list_sources(&dump("")), Err(DeviceError::BadJson(_))));
}

#[test]
fn dump_that_is_not_an_array() {
    let error = list_devices(&dump("{\"a\": []}")).unwrap_err();
    assert!(matches!(error, DeviceError::NotArray));
    assert_eq!(error.message(), "Expected JSON array from pw-dump");
    assert!(matches!(list_sources(&dump("null")), Err(DeviceError::NotArray)));
}

#[test]
fn empty_dump_has_no_devices() {
    assert!(list_devices(&dump("[]")).unwrap().is_empty());
}

#[test]
fn what_a_dump_says_of_a_device() {
    let devices = list_devices(&dump(
        r#"[{"type": "PipeWire:Interface:Node", "id": 7, "info": {"state": "idle", "props": {
            "media.class": "Audio/Source", "object.serial": 5, "node.name": "b",
            "node.description": "a/b~c"}}}]"#,
    ))
    .unwrap();
    assert_eq!(shown(&devices), vec![(5, "a/b~c (mic)", false)]);
    assert_eq!(devices[0].clone().serial, 5);
}

#[test]
fn device_of_a_node() {
    let device = device_from_node(&node("Audio/Source", 5, Some("A"))).unwrap();
    assert_eq!(shown(&[device]), vec![(5, "A (mic)", false)]);
    let device = device_from_node(&node("Audio/Sink", 1 << 32, None)).unwrap();
    assert_eq!(shown(&[device]), vec![(0, "Monitor of Unknown Device", true)]);
    assert!(device_from_node(&node("Stream/Output/Audio", 5, Some("A"))).is_none());
}

#[test]
fn equal_devices_keep_their_order() {
    let nodes = vec![
        node("Audio/Source", 3, Some("B")),
        node("Audio/Source", 2, Some("a")),
        node("Audio/Source", 1, Some("B")),
        node("Audio/Sink", 9, Some("z")),
    ];
    let devices = devices_from_nodes(&nodes);
    assert_eq!(
        shown(&devices),
        vec![
            (9, "Monitor of z", true),
            (3, "B (mic)", false),
            (1, "B (mic)", false),
            (2, "a (mic)", false),
        ]
    );
    assert_eq!(only_sources(&devices).len(), 3);
    assert_eq!(devices[0].duplicate().display_name, "Monitor of z");
}
