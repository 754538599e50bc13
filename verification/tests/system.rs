use terminaline::collectors::system::{collect_cameras, parse_battery, parse_gpu, parse_sysinfo};

const BOOT: &str = "{ sec = 1700000000, usec = 123456 } Tue Nov 14 22:13:20 2023\n";

#[test]
fn sysinfo_fields_and_uptime_with_days() {
    let now = 1_700_000_000u64 + 2 * 86400 + 3 * 3600 + 4 * 60 + 5;
    let s = parse_sysinfo(BOOT, now, "my-mac\n", "Darwin\n", "23.1.0\n", "23B74\n", "J316s\n");
    assert_eq!(s.hostname, "my-mac");
    assert_eq!(s.os_type, "Darwin");
    assert_eq!(s.os_release, "23.1.0");
    assert_eq!(s.os_build, "23B74");
    assert_eq!(s.hw_model, "J316s");
    assert_eq!(s.boot_time, "Tue Nov 14 22:13:20 2023");
    assert_eq!(s.uptime, "2d 3h 4m");
}

#[test]
fn sysinfo_uptime_without_days() {
    let now = 1_700_000_000u64 + 5 * 3600 + 59 * 60 + 59;
    let s = parse_sysinfo(BOOT, now, "", "", "", "", "");
    assert_eq!(s.uptime, "5h 59m");
}

#[test]
fn sysinfo_clock_behind_boot_time() {
    let s = parse_sysinfo(BOOT, 10, "h", "", "", "", "");
    assert_eq!(s.uptime, "0h 0m");
}

#[test]
fn sysinfo_unreadable_boot_time() {
    // No "sec = " at all: the boot time counts as 0.
    let s = parse_sysinfo("garbage", 3 * 86400 + 60, "", "", "", "", "");
    assert_eq!(s.uptime, "3d 0h 1m");
    assert_eq!(s.boot_time, "garbage");
}

const DISPLAYS: &str = "Graphics/Displays:

    Apple M1 Pro:

      Chipset Model: Apple M1 Pro
      Type: GPU
      Bus: Built-In
      Total Number of Cores: 16
      Vendor: Apple (0x106b)
      Metal Support: Metal 3
      Displays:
        Color LCD:
          Display Type: Built-in Liquid Retina XDR Display
          Resolution: 3456 x 2234 Retina
          Main Display: Yes
";

#[test]
fn gpu_fields() {
    let g = parse_gpu(DISPLAYS);
    assert_eq!(g.chipset, "Apple M1 Pro");
    assert_eq!(g.gpu_type, "GPU");
    assert_eq!(g.bus, "Built-In");
    assert_eq!(g.cores, "16");
    assert_eq!(g.vendor, "Apple (0x106b)");
    assert_eq!(g.metal, "Metal 3");
    assert_eq!(g.display_type, "Built-in Liquid Retina XDR Display");
    assert_eq!(g.resolution, "3456 x 2234 Retina");
    // The last line that names a display wins, "Main Display: Yes" included.
    assert_eq!(g.display_name, "Main Display: Yes");
}

#[test]
fn gpu_display_name_strips_colon() {
    let g = parse_gpu("  Color LCD:\n");
    assert_eq!(g.display_name, "Color LCD");
    let g = parse_gpu("LG UltraFine:\n");
    assert_eq!(g.display_name, "LG UltraFine");
    let g = parse_gpu("");
    assert_eq!(g.chipset, "");
    assert_eq!(g.display_name, "");
}

const PMSET: &str = "Now drawing from 'AC Power'
 -InternalBattery-0 (id=1234567)\t85%; charging; 1:23 remaining present: true
";

const IOREG: &str = "+-o AppleSmartBattery  <class AppleSmartBattery, id 0x100000abc, registered>
    {
      \"CycleCount\" = 123
      \"DesignCycleCount9C\" = 1000
      \"MaxCapacity\" = 95
      \"DesignCapacity\" = 5000
      \"Temperature\" = 3050
      \"Voltage\" = 12500
      \"InstantAmperage\" = 18446744073709550000
      \"BatteryHealth\" = \"Good\"
    }
";

#[test]
fn battery_from_pmset_and_ioreg() {
    let b = parse_battery(PMSET, IOREG);
    assert!(b.present);
    assert_eq!(b.level, "85%");
    assert_eq!(b.state, "charging");
    assert_eq!(b.remaining, "1:23 remaining present: true");
    assert_eq!(b.cycle_count, "123");
    assert_eq!(b.max_capacity, "95");
    assert_eq!(b.design_capacity, "5000");
    assert_eq!(b.temperature, "3050");
    assert_eq!(b.voltage, "12500");
    assert_eq!(b.amperage, "18446744073709550000");
    assert_eq!(b.condition, "\"Good\"");
}

#[test]
fn battery_absent() {
    let b = parse_battery("Now drawing from 'AC Power'\n", "");
    assert!(!b.present);
    assert_eq!(b.level, "");
    assert_eq!(b.cycle_count, "");
}

#[test]
fn battery_level_only() {
    let b = parse_battery(" -InternalBattery-0 (id=1)\t40%\n", "");
    assert!(b.present);
    assert_eq!(b.level, "40%");
    assert_eq!(b.state, "");
    assert_eq!(b.remaining, "");
}

const CAMERAS: &str = "{
  \"SPCameraDataType\" : [
    {
      \"_name\" : \"FaceTime HD Camera\",
      \"spcamera_model-id\" : \"FaceTime HD Camera\",
      \"spcamera_unique-id\" : \"ABCD-1234\"
    },
    {
      \"_name\" : \"Studio Display Camera\",
      \"spcamera_model-id\" : \"UVC Camera VendorID_1452\",
      \"spcamera_unique-id\" : \"EF56\"
    }
  ]
}
";

#[test]
fn cameras_from_json_lines() {
    let cams = collect_cameras(CAMERAS);
    assert_eq!(cams.len(), 2);
    assert_eq!(cams[0].name, "FaceTime HD Camera");
    assert_eq!(cams[0].model_id, "FaceTime HD Camera");
    assert_eq!(cams[0].unique_id, "ABCD-1234");
    assert_eq!(cams[1].name, "Studio Display Camera");
    assert_eq!(cams[1].model_id, "UVC Camera VendorID_1452");
    assert_eq!(cams[1].unique_id, "EF56");
}

#[test]
fn cameras_none() {
    assert!(collect_cameras("").is_empty());
    assert!(collect_cameras("{ \"SPCameraDataType\" : [ ] }").is_empty());
}

#[test]
fn camera_without_ids() {
    let cams = collect_cameras("\"_name\" : \"Cam\"\n");
    assert_eq!(cams.len(), 1);
    assert_eq!(cams[0].name, "Cam");
    assert_eq!(cams[0].model_id, "");
    assert_eq!(cams[0].unique_id, "");
}
