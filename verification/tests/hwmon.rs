use palantir::hwmon::{parse_reading, parse_signed_reading, Channel, Device, FileSource, ReadStep};
use palantir::temperature::{
    average_sensors, classify_channel, classify_device, ChannelReading, DeviceClass, Role,
    TemperatureReadings, TemperatureSource,
};
use palantir::SensorSource;

fn reading(role: Role, value: Option<i64>) -> ChannelReading {
    ChannelReading { role, value }
}

#[test]
fn sensor_contents_are_read_whitespace_aside() {
    assert_eq!(parse_reading("45000\n"), Some(45000));
    assert_eq!(parse_reading("  7 \t\n"), Some(7));
    assert_eq!(parse_reading(""), None);
    assert_eq!(parse_reading("\n"), None);
    assert_eq!(parse_reading("4 5"), None);
    assert_eq!(parse_reading("-5"), None);
    assert_eq!(parse_signed_reading("-5000\n"), Some(-5000));
    assert_eq!(parse_signed_reading(" 5000"), Some(5000));
    assert_eq!(parse_signed_reading("5000.0"), None);
}

#[test]
fn reader_delivers_a_value_at_once() {
    let mut source = FileSource::open("/sys/x".to_string());
    assert_eq!(source.path(), "/sys/x");
    assert_eq!(source.read(Some("12\n")), ReadStep::Deliver(12));
    assert_eq!(source.read(Some("13\n")), ReadStep::Deliver(13));
}

#[test]
fn reader_reopens_once_and_retries() {
    let mut source = FileSource::open("/sys/x".to_string());
    assert_eq!(source.read(None), ReadStep::Reopen);
    assert_eq!(source.read(Some("12\n")), ReadStep::Deliver(12));
    assert_eq!(source.read(Some("junk")), ReadStep::Reopen);
    assert_eq!(source.read(Some("14")), ReadStep::Deliver(14));
}

#[test]
fn reader_gives_up_after_the_second_failure() {
    let mut source = FileSource::open("/sys/x".to_string());
    assert_eq!(source.read(None), ReadStep::Reopen);
    assert_eq!(source.read(None), ReadStep::GiveUp);
    assert_eq!(source.read(Some("junk")), ReadStep::Reopen);
    assert_eq!(source.read(Some("junk")), ReadStep::GiveUp);
    assert_eq!(source.read_signed(None), ReadStep::Reopen);
    assert_eq!(source.read_signed(Some("-1")), ReadStep::Deliver(-1));
}

#[test]
fn reader_starts_afresh_after_a_failed_reopen() {
    let mut source = FileSource::open("/sys/x".to_string());
    assert_eq!(source.read(None), ReadStep::Reopen);
    source.reopen_failed();
    assert_eq!(source.read(None), ReadStep::Reopen);
    assert_eq!(source.after_attempt::<u8>(None), ReadStep::GiveUp);
    assert_eq!(source.after_attempt(Some(3u8)), ReadStep::Deliver(3));
}

#[test]
fn device_name_is_trimmed() {
    let device = Device::new("/sys/class/hwmon/hwmon0".to_string(), "coretemp\n");
    assert_eq!(device.name(), "coretemp");
    assert_eq!(device.base_path(), "/sys/class/hwmon/hwmon0");
    let device = Device::new("p".to_string(), " \tk10temp \n");
    assert_eq!(device.name(), "k10temp");
}

#[test]
fn channels_are_the_input_files() {
    let device = Device::new("p".to_string(), "coretemp");
    assert!(device.channel("temp1_label").is_none());
    assert!(device.channel("name").is_none());
    assert!(device.channel("temp1_input_").is_none());
    match device.channel("temp1_input") {
        Some(Channel::Labelled(file)) => assert_eq!(file, "temp1_label"),
        _ => panic!("no label file"),
    }
    match device.channel("fan12_input") {
        Some(Channel::Labelled(file)) => assert_eq!(file, "fan12_label"),
        _ => panic!("no label file"),
    }
    match device.channel("_input") {
        Some(Channel::Labelled(file)) => assert_eq!(file, "_label"),
        _ => panic!("no label file"),
    }
}

#[test]
fn unlabelled_devices_have_fixed_labels() {
    for name in ["cpu_thermal", "soc_thermal"] {
        let device = Device::new("p".to_string(), name);
        match device.channel("temp1_input") {
            Some(Channel::Named(label)) => assert_eq!(label, "Tdie"),
            _ => panic!("no fixed label"),
        }
        assert!(matches!(device.channel("temp2_input"), Some(Channel::Labelled(_))));
    }
    let device = Device::new("p".to_string(), "gpu_thermal");
    match device.channel("temp1_input") {
        Some(Channel::Named(label)) => assert_eq!(label, "edge"),
        _ => panic!("no fixed label"),
    }
}

#[test]
fn sensor_keeps_path_and_trimmed_label() {
    let device = Device::new("p".to_string(), "coretemp");
    let sensor = device.sensor("p/temp2_input".to_string(), "Core 0\n");
    assert_eq!(sensor.name(), "Core 0");
    assert_eq!(sensor.input_path(), "p/temp2_input");
    let mut reader = sensor.reader();
    assert_eq!(reader.path(), "p/temp2_input");
    assert_eq!(reader.read(Some("1")), ReadStep::Deliver(1));
}

#[test]
fn devices_are_classified_by_name() {
    for name in ["k10temp", "coretemp", "cpu_thermal", "soc_thermal"] {
        assert_eq!(classify_device(name), DeviceClass::Cpu);
    }
    for name in ["amdgpu", "gpu_thermal"] {
        assert_eq!(classify_device(name), DeviceClass::Gpu);
    }
    for name in ["", "nvme", "acpitz", "coretemp2", "K10TEMP", " amdgpu"] {
        assert_eq!(classify_device(name), DeviceClass::Ignored);
    }
}

#[test]
fn channels_are_classified_by_label() {
    assert_eq!(classify_channel(DeviceClass::Cpu, "Tdie"), Some(Role::Die));
    assert_eq!(classify_channel(DeviceClass::Cpu, "Core 0"), Some(Role::Core));
    assert_eq!(classify_channel(DeviceClass::Cpu, "Core 15"), Some(Role::Core));
    assert_eq!(classify_channel(DeviceClass::Cpu, "Core "), Some(Role::Core));
    assert_eq!(classify_channel(DeviceClass::Cpu, "Core"), None);
    assert_eq!(classify_channel(DeviceClass::Cpu, "Tctl"), None);
    assert_eq!(classify_channel(DeviceClass::Cpu, "Package id 0"), None);
    assert_eq!(classify_channel(DeviceClass::Cpu, "edge"), None);
    assert_eq!(classify_channel(DeviceClass::Gpu, "edge"), Some(Role::Edge));
    assert_eq!(classify_channel(DeviceClass::Gpu, "junction"), None);
    assert_eq!(classify_channel(DeviceClass::Gpu, "Tdie"), None);
    assert_eq!(classify_channel(DeviceClass::Ignored, "Tdie"), None);
    assert_eq!(classify_channel(DeviceClass::Ignored, "edge"), None);
}

#[test]
fn average_is_the_mean_of_the_successful_reads() {
    let readings = vec![
        reading(Role::Core, Some(40000)),
        reading(Role::Core, None),
        reading(Role::Core, Some(50000)),
    ];
    assert_eq!(average_sensors(&readings), 45000);
    assert_eq!(average_sensors(&vec![reading(Role::Edge, Some(61000))]), 61000);
    assert_eq!(average_sensors(&vec![reading(Role::Core, Some(1)), reading(Role::Core, Some(2))]), 1);
}

#[test]
fn average_without_successful_reads_is_zero() {
    assert_eq!(average_sensors(&Vec::new()), 0);
    assert_eq!(average_sensors(&vec![reading(Role::Core, None), reading(Role::Die, None)]), 0);
}

#[test]
fn die_reading_goes_before_the_cores() {
    let readings = vec![
        reading(Role::Core, Some(40000)),
        reading(Role::Die, Some(60000)),
        reading(Role::Core, Some(50000)),
    ];
    assert_eq!(average_sensors(&readings), 60000);
    let failed_die = vec![
        reading(Role::Core, Some(40000)),
        reading(Role::Die, None),
        reading(Role::Core, Some(50000)),
    ];
    assert_eq!(average_sensors(&failed_die), 45000);
    let two_dies = vec![reading(Role::Die, Some(10)), reading(Role::Die, Some(30)), reading(Role::Core, Some(500))];
    assert_eq!(average_sensors(&two_dies), 20);
}

#[test]
fn average_below_zero_rounds_towards_zero() {
    assert_eq!(average_sensors(&vec![reading(Role::Core, Some(-1)), reading(Role::Core, Some(-2))]), -1);
    assert_eq!(average_sensors(&vec![reading(Role::Core, Some(-5000)), reading(Role::Core, Some(5000))]), 0);
    assert_eq!(average_sensors(&vec![reading(Role::Core, Some(-7)), reading(Role::Core, Some(2))]), -2);
}

#[test]
fn average_takes_the_extremes() {
    let high = vec![reading(Role::Core, Some(i64::MAX)), reading(Role::Core, Some(i64::MAX))];
    assert_eq!(average_sensors(&high), i64::MAX);
    let low = vec![reading(Role::Core, Some(i64::MIN)), reading(Role::Core, Some(i64::MIN))];
    assert_eq!(average_sensors(&low), i64::MIN);
    let both = vec![reading(Role::Core, Some(i64::MIN)), reading(Role::Core, Some(i64::MAX))];
    assert_eq!(average_sensors(&both), 0);
}

#[test]
fn temperature_source_takes_the_channels_with_a_role() {
    let mut source = TemperatureSource::new();
    let cpu = Device::new("c".to_string(), "coretemp\n");
    let gpu = Device::new("g".to_string(), "amdgpu\n");
    let other = Device::new("o".to_string(), "nvme\n");
    assert!(source.add(&cpu, &cpu.sensor("c/temp2_input".to_string(), "Core 0\n")));
    assert!(!source.add(&cpu, &cpu.sensor("c/temp1_input".to_string(), "Package id 0\n")));
    assert!(source.add(&cpu, &cpu.sensor("c/temp3_input".to_string(), "Tdie")));
    assert!(source.add(&gpu, &gpu.sensor("g/temp1_input".to_string(), "edge\n")));
    assert!(!source.add(&gpu, &gpu.sensor("g/temp2_input".to_string(), "junction\n")));
    assert!(!source.add(&other, &other.sensor("o/temp1_input".to_string(), "Tdie\n")));
    let cpu_paths: Vec<(Role, &str)> =
        source.cpu_sensors().iter().map(|p| (p.role, p.input_path.as_str())).collect();
    assert_eq!(cpu_paths, vec![(Role::Core, "c/temp2_input"), (Role::Die, "c/temp3_input")]);
    let gpu_paths: Vec<(Role, &str)> =
        source.gpu_sensors().iter().map(|p| (p.role, p.input_path.as_str())).collect();
    assert_eq!(gpu_paths, vec![(Role::Edge, "g/temp1_input")]);
}

#[test]
fn temperature_source_averages_each_group() {
    let mut source = TemperatureSource::new();
    let raw = TemperatureReadings {
        cpu: vec![reading(Role::Core, Some(40000)), reading(Role::Core, Some(41000))],
        gpu: vec![reading(Role::Edge, Some(55000))],
        vendor_gpu: None,
    };
    let t = source.read(&raw).unwrap();
    assert_eq!((t.cpu, t.gpu), (40500, 55000));
}

#[test]
fn vendor_temperature_goes_before_the_channels() {
    let mut source = TemperatureSource::new();
    let raw = TemperatureReadings {
        cpu: Vec::new(),
        gpu: vec![reading(Role::Edge, Some(55000))],
        vendor_gpu: Some(65),
    };
    let t = source.read(&raw).unwrap();
    assert_eq!((t.cpu, t.gpu), (0, 65000));
    let raw = TemperatureReadings { cpu: Vec::new(), gpu: Vec::new(), vendor_gpu: Some(u32::MAX) };
    assert_eq!(source.read(&raw).unwrap().gpu, 4294967295000);
}
