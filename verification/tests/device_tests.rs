use rustriff_lib::device_service::{
    DefaultDevices, DeviceListSource, DeviceProbe, DeviceService, HostRequest,
};

fn probe(id: Option<&str>, name: Option<&str>, input: Option<u32>, output: Option<u32>) -> DeviceProbe {
    DeviceProbe {
        id: id.map(|s| s.to_string()),
        name: name.map(|s| s.to_string()),
        input_sample_rate: input,
        output_sample_rate: output,
    }
}

fn ids(list: &[rustriff_lib::device_service::AudioDeviceDto]) -> Vec<(String, u32)> {
    list.iter().map(|d| (d.id.clone(), d.sample_rate)).collect()
}

#[test]
fn default_driver_is_selected_initially() {
    let svc = DeviceService::new(false);
    assert_eq!(svc.selected_audio_driver(), "Default");
    assert!(!svc.is_asio_selected());
    assert_eq!(svc.available_audio_drivers(), vec!["Default".to_string()]);
    let win = DeviceService::new(true);
    assert_eq!(win.available_audio_drivers(), vec!["Default".to_string(), "ASIO".to_string()]);
}

#[test]
fn asio_is_selectable_on_windows_only() {
    let mut win = DeviceService::new(true);
    assert_eq!(win.set_selected_audio_driver("asio"), Ok(()));
    assert_eq!(win.selected_audio_driver(), "ASIO");
    assert!(win.is_asio_selected());
    assert_eq!(win.set_selected_audio_driver("DEFAULT"), Ok(()));
    assert_eq!(win.selected_audio_driver(), "Default");

    let mut other = DeviceService::new(false);
    assert_eq!(
        other.set_selected_audio_driver("ASIO"),
        Err("Unsupported audio driver 'ASIO'.".to_string())
    );
    assert_eq!(other.selected_audio_driver(), "Default");
}

#[test]
fn unknown_driver_keeps_selection() {
    let mut win = DeviceService::new(true);
    win.set_selected_audio_driver("Asio").unwrap();
    assert_eq!(
        win.set_selected_audio_driver("jack"),
        Err("Unsupported audio driver 'jack'.".to_string())
    );
    assert_eq!(win.selected_audio_driver(), "ASIO");
}

#[test]
fn host_backend_follows_driver() {
    let mut win = DeviceService::new(true);
    assert!(matches!(
        win.host_for_selected_driver(),
        HostRequest::Backend { ref name, fall_back_to_default: true } if name == "Wasapi"
    ));
    win.set_selected_audio_driver("ASIO").unwrap();
    assert!(matches!(
        win.host_for_selected_driver(),
        HostRequest::Backend { ref name, fall_back_to_default: false } if name == "Asio"
    ));
    assert!(matches!(DeviceService::new(false).host_for_driver("ASIO"), HostRequest::Default));
}

#[test]
fn backend_is_found_by_name_ignoring_case() {
    let hosts = vec!["Wasapi".to_string(), "Asio".to_string()];
    assert_eq!(DeviceService::host_from_backend_name(&hosts, "asio"), Ok(1));
    assert_eq!(
        DeviceService::host_from_backend_name(&hosts, "Jack"),
        Err("Jack host is not available".to_string())
    );
}

#[test]
fn input_and_output_lists_skip_unnamed_devices() {
    let svc = DeviceService::new(false);
    assert_eq!(svc.input_device_source(), DeviceListSource::InputDevices);
    assert_eq!(svc.output_device_source(), DeviceListSource::OutputDevices);
    let devices = vec![
        probe(Some("mic"), Some("Mic"), Some(48_000), None),
        probe(None, Some("Broken"), Some(44_100), Some(44_100)),
        probe(Some("card"), Some("Card"), Some(44_100), Some(96_000)),
        probe(Some("nameless"), None, Some(44_100), None),
    ];
    assert_eq!(
        ids(&svc.get_input_devices(&devices)),
        vec![("mic".to_string(), 48_000), ("card".to_string(), 44_100)]
    );
    assert_eq!(ids(&svc.get_output_devices(&devices)), vec![("card".to_string(), 96_000)]);
}

#[test]
fn asio_lists_duplex_devices_at_lower_rate() {
    let mut svc = DeviceService::new(true);
    svc.set_selected_audio_driver("ASIO").unwrap();
    assert_eq!(svc.input_device_source(), DeviceListSource::AllDevices);
    let devices = vec![
        probe(Some("mic"), Some("Mic"), Some(48_000), None),
        probe(Some("card"), Some("Card"), Some(96_000), Some(48_000)),
    ];
    assert_eq!(ids(&svc.get_input_devices(&devices)), vec![("card".to_string(), 48_000)]);
    assert_eq!(ids(&svc.get_output_devices(&devices)), vec![("card".to_string(), 48_000)]);
    assert_eq!(ids(&svc.get_duplex_devices(&devices)), vec![("card".to_string(), 48_000)]);
}

#[test]
fn device_lookup_by_id() {
    let svc = DeviceService::new(false);
    let devices = vec![
        probe(Some("a"), Some("A"), Some(48_000), None),
        probe(Some("b"), Some("B"), Some(48_000), None),
    ];
    assert_eq!(svc.find_input_device_by_id(&devices, "b"), Some(1));
    assert_eq!(svc.find_output_device_by_id(&devices, "c"), None);
}

#[test]
fn device_lookup_skips_unreadable_ids() {
    let svc = DeviceService::new(false);
    let devices = vec![
        probe(None, Some("A"), Some(48_000), None),
        probe(Some("b"), Some("B"), Some(48_000), None),
    ];
    assert_eq!(svc.find_input_device_by_id(&devices, "b"), Some(1));
    assert_eq!(svc.find_output_device_by_id(&devices, "b"), Some(1));
    assert_eq!(svc.find_input_device_by_id(&devices, "c"), None);
}

#[test]
fn asio_lookup_skips_devices_without_both_directions() {
    let mut svc = DeviceService::new(true);
    svc.set_selected_audio_driver("ASIO").unwrap();
    let devices = vec![
        probe(None, Some("In only"), Some(48_000), None),
        probe(Some("b"), Some("B"), Some(48_000), Some(48_000)),
    ];
    assert_eq!(svc.find_input_device_by_id(&devices, "b"), Some(1));
}

#[test]
fn default_devices_choice() {
    let svc = DeviceService::new(false);
    assert!(matches!(
        svc.default_devices_for_selected_driver(&vec![], true, true),
        Ok(DefaultDevices::HostDefaults)
    ));
    assert_eq!(
        svc.default_devices_for_selected_driver(&vec![], false, true).err(),
        Some("No default input device found".to_string())
    );
    assert_eq!(
        svc.default_devices_for_selected_driver(&vec![], true, false).err(),
        Some("No default output device found".to_string())
    );
    let mut asio = DeviceService::new(true);
    asio.set_selected_audio_driver("ASIO").unwrap();
    let devices = vec![
        probe(Some("a"), Some("A"), Some(48_000), None),
        probe(Some("b"), Some("B"), Some(48_000), Some(48_000)),
    ];
    assert!(matches!(
        asio.default_devices_for_selected_driver(&devices, false, false),
        Ok(DefaultDevices::Duplex(1))
    ));
    assert_eq!(
        asio.default_devices_for_selected_driver(&vec![probe(Some("a"), Some("A"), Some(48_000), None)], true, true).err(),
        Some("No ASIO device with both input and output support was found".to_string())
    );
}
