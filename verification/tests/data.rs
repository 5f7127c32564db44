use palantir::data::{
    write_package_power, write_temperature, write_total_power, CpuPowerUsage, CpuTime, DiskStats,
    DiskUsage, GpuMemory, GpuPowerUsage, GpuUsage, Memory, NetStats, ProcData, Temperatures,
};
use palantir::encode::{push_head, push_label, push_labelled, push_sample, push_signed, push_tail, push_tail_ratio};
use palantir::{write_all, SensorData};

fn render<T: SensorData>(data: &T) -> String {
    let mut w = String::new();
    data.write(&mut w, "h");
    w
}

#[test]
fn samples_are_built_from_head_labels_and_tail() {
    let mut w = String::new();
    push_head(&mut w, "family", "box");
    assert_eq!(w, "family{host=\"box\"");
    push_label(&mut w, "key", "value");
    assert_eq!(w, "family{host=\"box\", key=\"value\"");
    push_tail(&mut w, 7);
    assert_eq!(w, "family{host=\"box\", key=\"value\"} 7\n");
}

#[test]
fn sample_helpers_write_whole_lines() {
    let mut w = String::new();
    push_sample(&mut w, "up", "h", 1);
    push_labelled(&mut w, "size", "h", "disk", "/", 10);
    assert_eq!(w, "up{host=\"h\"} 1\nsize{host=\"h\", disk=\"/\"} 10\n");
}

#[test]
fn tail_ratio_rounds_to_the_places() {
    let mut w = String::new();
    push_tail_ratio(&mut w, 1, 3, 3);
    assert_eq!(w, "} 0.333\n");
    let mut w = String::new();
    push_tail_ratio(&mut w, 2, 3, 2);
    assert_eq!(w, "} 0.67\n");
}

#[test]
fn signed_numbers_keep_their_sign() {
    let mut w = String::new();
    push_signed(&mut w, -42);
    w.push(' ');
    push_signed(&mut w, 42);
    w.push(' ');
    push_signed(&mut w, 0);
    w.push(' ');
    push_signed(&mut w, i64::MIN);
    assert_eq!(w, "-42 42 0 -9223372036854775808");
}

#[test]
fn memory_renders_three_samples() {
    let m = Memory { total: 1000000, free: 200000, available: 500000 };
    assert_eq!(
        render(&m),
        "memory_total{host=\"h\"} 1000000\nmemory_available{host=\"h\"} 500000\nmemory_free{host=\"h\"} 200000\n"
    );
}

#[test]
fn memory_of_zero_is_still_rendered() {
    let m = Memory::default();
    assert_eq!(
        render(&m),
        "memory_total{host=\"h\"} 0\nmemory_available{host=\"h\"} 0\nmemory_free{host=\"h\"} 0\n"
    );
}

#[test]
fn gpu_memory_renders_two_samples() {
    let m = GpuMemory { total: 8, free: 3 };
    assert_eq!(render(&m), "gpu_memory_total{host=\"h\"} 8\ngpu_memory_free{host=\"h\"} 3\n");
}

#[test]
fn cpu_time_has_three_fractional_digits() {
    assert_eq!(render(&CpuTime(1234)), "cpu_time{host=\"h\"} 1.234\n");
    assert_eq!(render(&CpuTime(0)), "cpu_time{host=\"h\"} 0.000\n");
    assert_eq!(render(&CpuTime(750)), "cpu_time{host=\"h\"} 0.750\n");
    assert_eq!(render(&CpuTime(123456789)), "cpu_time{host=\"h\"} 123456.789\n");
}

#[test]
fn temperatures_have_one_fractional_digit() {
    let t = Temperatures { cpu: 45500, gpu: 61000 };
    assert_eq!(
        render(&t),
        "temperature{host=\"h\", sensor=\"cpu\"} 45.5\ntemperature{host=\"h\", sensor=\"gpu\"} 61.0\n"
    );
}

#[test]
fn temperatures_round_to_the_nearest_tenth() {
    let mut w = String::new();
    write_temperature(&mut w, "h", "cpu", 45449);
    write_temperature(&mut w, "h", "cpu", 45450);
    write_temperature(&mut w, "h", "cpu", 49);
    write_temperature(&mut w, "h", "cpu", 50);
    assert_eq!(
        w,
        "temperature{host=\"h\", sensor=\"cpu\"} 45.4\n\
         temperature{host=\"h\", sensor=\"cpu\"} 45.5\n\
         temperature{host=\"h\", sensor=\"cpu\"} 0.0\n\
         temperature{host=\"h\", sensor=\"cpu\"} 0.1\n"
    );
}

#[test]
fn temperatures_below_zero_keep_their_sign() {
    let mut w = String::new();
    write_temperature(&mut w, "h", "cpu", -5250);
    write_temperature(&mut w, "h", "cpu", -10);
    write_temperature(&mut w, "h", "cpu", i64::MIN);
    assert_eq!(
        w,
        "temperature{host=\"h\", sensor=\"cpu\"} -5.3\n\
         temperature{host=\"h\", sensor=\"cpu\"} -0.0\n\
         temperature{host=\"h\", sensor=\"cpu\"} -9223372036854775.8\n"
    );
}

#[test]
fn temperature_of_zero_is_silent() {
    assert_eq!(render(&Temperatures { cpu: 0, gpu: 0 }), "");
    assert_eq!(render(&Temperatures::default()), "");
    assert_eq!(
        render(&Temperatures { cpu: 0, gpu: 30000 }),
        "temperature{host=\"h\", sensor=\"gpu\"} 30.0\n"
    );
    assert_eq!(
        render(&Temperatures { cpu: 30000, gpu: 0 }),
        "temperature{host=\"h\", sensor=\"cpu\"} 30.0\n"
    );
}

#[test]
fn temperature_pairs_come_in_rendering_order() {
    let t = Temperatures { cpu: 1, gpu: 2 };
    assert_eq!(t.pairs(), vec![("cpu", 1), ("gpu", 2)]);
}

#[test]
fn net_stats_render_sent_then_received() {
    let n = NetStats { interface: "eth0".to_string(), bytes_sent: 5, bytes_received: 7 };
    assert_eq!(
        render(&n),
        "net_sent{host=\"h\", network=\"eth0\"} 5\nnet_received{host=\"h\", network=\"eth0\"} 7\n"
    );
}

#[test]
fn net_stats_of_zero_are_silent() {
    let n = NetStats { interface: "eth0".to_string(), bytes_sent: 0, bytes_received: 0 };
    assert_eq!(render(&n), "");
    assert_eq!(render(&NetStats::default()), "");
}

#[test]
fn net_stats_with_one_counter_are_rendered() {
    let n = NetStats { interface: "e".to_string(), bytes_sent: 0, bytes_received: 1 };
    assert_eq!(
        render(&n),
        "net_sent{host=\"h\", network=\"e\"} 0\nnet_received{host=\"h\", network=\"e\"} 1\n"
    );
    let n = NetStats { interface: "e".to_string(), bytes_sent: 1, bytes_received: 0 };
    assert_eq!(
        render(&n),
        "net_sent{host=\"h\", network=\"e\"} 1\nnet_received{host=\"h\", network=\"e\"} 0\n"
    );
}

#[test]
fn disk_stats_render_sent_then_received() {
    let d = DiskStats { interface: "sda".to_string(), bytes_sent: 512, bytes_received: 1024 };
    assert_eq!(
        render(&d),
        "disk_sent{host=\"h\", disk=\"sda\"} 512\ndisk_received{host=\"h\", disk=\"sda\"} 1024\n"
    );
}

#[test]
fn disk_stats_of_zero_are_silent() {
    let d = DiskStats { interface: "sda".to_string(), bytes_sent: 0, bytes_received: 0 };
    assert_eq!(render(&d), "");
}

#[test]
fn disk_usage_renders_size_then_free() {
    let d = DiskUsage { name: "/".to_string(), size: 100, free: 40 };
    assert_eq!(
        render(&d),
        "disk_size{host=\"h\", disk=\"/\"} 100\ndisk_free{host=\"h\", disk=\"/\"} 40\n"
    );
}

#[test]
fn disk_usage_without_size_is_silent() {
    let d = DiskUsage { name: "/proc".to_string(), size: 0, free: 0 };
    assert_eq!(render(&d), "");
    let d = DiskUsage { name: "/odd".to_string(), size: 0, free: 9 };
    assert_eq!(render(&d), "");
}

#[test]
fn pool_renders_size_then_free() {
    let d = DiskUsage { name: "tank".to_string(), size: 1000, free: 500 };
    let mut w = String::new();
    d.write_pool(&mut w, "h");
    assert_eq!(
        w,
        "zfs_pool_size{host=\"h\", pool=\"tank\"} 1000\nzfs_pool_free{host=\"h\", pool=\"tank\"} 500\n"
    );
}

#[test]
fn gpu_usage_renders_one_sample() {
    let u = GpuUsage { system: "compute".to_string(), usage: 42 };
    let mut w = String::new();
    u.write(&mut w, "h");
    assert_eq!(w, "gpu_usage{host=\"h\", system=\"compute\"} 42\n");
    assert_eq!(render(&u), w);
}

#[test]
fn total_power_is_written_in_joules() {
    let mut w = String::new();
    write_total_power(&mut w, "h", "cpu", 1_500_600);
    assert_eq!(w, "total_power{host=\"h\", device=\"cpu\"} 1.501\n");
    let mut w = String::new();
    write_total_power(&mut w, "h", "gpu", u64::MAX);
    assert_eq!(w, "total_power{host=\"h\", device=\"gpu\"} 18446744073709.552\n");
}

#[test]
fn package_power_numbers_the_packages() {
    let mut w = String::new();
    write_package_power(&mut w, "h", &vec![1_000_000, 500_600]);
    assert_eq!(
        w,
        "package_power{host=\"h\", package=\"0\", device=\"cpu\"} 1.000\n\
         package_power{host=\"h\", package=\"1\", device=\"cpu\"} 0.501\n"
    );
}

#[test]
fn cpu_power_renders_total_and_packages() {
    let p = CpuPowerUsage { cpu_uj: 3_000_000, cpu_packages_uj: vec![1_000_000, 2_000_000] };
    assert_eq!(
        render(&p),
        "total_power{host=\"h\", device=\"cpu\"} 3.000\n\
         package_power{host=\"h\", package=\"0\", device=\"cpu\"} 1.000\n\
         package_power{host=\"h\", package=\"1\", device=\"cpu\"} 2.000\n"
    );
}

#[test]
fn cpu_power_of_zero_is_still_rendered() {
    assert_eq!(render(&CpuPowerUsage::default()), "total_power{host=\"h\", device=\"cpu\"} 0.000\n");
}

#[test]
fn gpu_power_of_zero_is_silent() {
    assert_eq!(render(&GpuPowerUsage { gpu_uj: 0 }), "");
    assert_eq!(
        render(&GpuPowerUsage { gpu_uj: 2_500_000 }),
        "total_power{host=\"h\", device=\"gpu\"} 2.500\n"
    );
}

#[test]
fn rendered_energy_never_decreases_with_the_counter() {
    let mut last = String::new();
    for uj in [0u64, 499, 500, 999, 1000, 1499, 1500, 999_499, 999_500, 1_000_000, 123_456_789] {
        let mut w = String::new();
        write_total_power(&mut w, "", "", uj);
        let value = w.trim_end().rsplit(' ').next().unwrap().to_string();
        let as_thousandths = |s: &str| s.replace('.', "").parse::<u128>().unwrap();
        if !last.is_empty() {
            assert!(as_thousandths(&value) >= as_thousandths(&last), "{} after {}", value, last);
        }
        last = value;
    }
}

#[test]
fn process_renders_name_and_pid() {
    let p = ProcData { pid: 1, name: "init".to_string(), rss_memory: 4096 };
    assert_eq!(render(&p), "process_memory_rss{host=\"h\", process=\"init\", pid=\"1\"} 4096\n");
    let p = ProcData { pid: -7, name: "odd".to_string(), rss_memory: 0 };
    assert_eq!(render(&p), "process_memory_rss{host=\"h\", process=\"odd\", pid=\"-7\"} 0\n");
}

#[test]
fn lists_render_in_order() {
    let items = vec![
        GpuUsage { system: "a".to_string(), usage: 1 },
        GpuUsage { system: "b".to_string(), usage: 2 },
    ];
    let mut w = String::from("# start\n");
    write_all(&items, &mut w, "h");
    assert_eq!(
        w,
        "# start\ngpu_usage{host=\"h\", system=\"a\"} 1\ngpu_usage{host=\"h\", system=\"b\"} 2\n"
    );
    assert_eq!(render(&items), &w["# start\n".len()..]);
    assert_eq!(render(&Vec::<GpuUsage>::new()), "");
}

#[test]
fn absent_and_failed_readings_render_as_nothing() {
    let none: Option<GpuMemory> = None;
    assert_eq!(render(&none), "");
    let some = Some(GpuMemory { total: 1, free: 1 });
    assert_eq!(render(&some), "gpu_memory_total{host=\"h\"} 1\ngpu_memory_free{host=\"h\"} 1\n");
    let failed: Result<CpuTime, palantir::Error> = Err(palantir::Error::InvalidFloatData);
    assert_eq!(render(&failed), "");
    let fine: Result<CpuTime, palantir::Error> = Ok(CpuTime(1));
    assert_eq!(render(&fine), "cpu_time{host=\"h\"} 0.001\n");
}

#[test]
fn every_rendering_ends_its_last_line() {
    let texts = vec![
        render(&Memory { total: 1, free: 1, available: 1 }),
        render(&Temperatures { cpu: 1, gpu: -1 }),
        render(&CpuPowerUsage { cpu_uj: 1, cpu_packages_uj: vec![1] }),
        render(&NetStats { interface: "x".to_string(), bytes_sent: 1, bytes_received: 1 }),
    ];
    for text in texts {
        assert!(text.ends_with('\n'));
        for line in text.lines() {
            assert!(line.contains("{host=\"h\""));
            assert!(line.contains("} "));
        }
    }
}
