use terminaline::collectors::audio::collect_audio_devices;
use terminaline::collectors::bluetooth::collect_bluetooth;
use terminaline::collectors::usb::{collect_thunderbolt, collect_usb_devices};

const USB: &str = "USB:

    USB 3.1 Bus:

      Host Controller Driver: AppleT8103USBXHCI

        Magic Keyboard:

          Product ID: 0x029c
          Vendor ID: 0x05ac (Apple Inc.)
          Version: 1.00
          Serial Number: F0T1234
          Speed: Up to 12 Mb/s
          Manufacturer: Apple Inc.
          Location ID: 0x00100000 / 1
          Current Available (mA): 500
          Bus Power (mA): 500

        Flash Drive:

          Vendor: SanDisk Corp
          Speed: Up to 5 Gb/s
";

#[test]
fn usb_devices_by_heading() {
    let d = collect_usb_devices(USB);
    assert_eq!(d.len(), 2);
    assert_eq!(d[0].name, "Magic Keyboard");
    assert_eq!(d[0].product_id, "0x029c");
    assert_eq!(d[0].vendor_id, "0x05ac (Apple Inc.)");
    assert_eq!(d[0].vendor, "");
    assert_eq!(d[0].serial, "F0T1234");
    assert_eq!(d[0].speed, "Up to 12 Mb/s");
    assert_eq!(d[0].location, "0x00100000 / 1");
    assert_eq!(d[0].bus_power, "500");
    assert_eq!(d[1].name, "Flash Drive");
    assert_eq!(d[1].vendor, "SanDisk Corp");
    assert_eq!(d[1].speed, "Up to 5 Gb/s");
    assert_eq!(d[1].serial, "");
}

#[test]
fn usb_none() {
    assert!(collect_usb_devices("").is_empty());
    assert!(collect_usb_devices("USB:\n  USB 3.1 Bus:\n").is_empty());
}

const TB: &str = "Thunderbolt/USB4:

    Thunderbolt/USB4 Bus 0:

      Vendor Name: Apple Inc.
      Device Name: MacBook Pro
      UUID: ABC-123
      Route String: 0
      Port:
        Status: No device connected
        Link Status: 0x7
        Speed: Up to 40 Gb/s x1
";

#[test]
fn thunderbolt_sections() {
    let t = collect_thunderbolt(TB);
    assert_eq!(t.len(), 3);
    assert_eq!(t[0].device_name, "Thunderbolt/USB4");
    assert_eq!(t[0].uuid, "");
    assert_eq!(t[1].device_name, "Thunderbolt/USB4 Bus 0");
    assert_eq!(t[1].uuid, "ABC-123");
    assert_eq!(t[1].speed, "");
    assert_eq!(t[2].device_name, "Port");
    assert_eq!(t[2].link_status, "0x7");
    assert_eq!(t[2].speed, "Up to 40 Gb/s x1");
    assert!(collect_thunderbolt("").is_empty());
}

const AUDIO: &str = "Audio:

    Devices:

        MacBook Pro Microphone:

          Default Input Device: Yes
          Input Channels: 1
          Manufacturer: Apple Inc.
          Current SampleRate: 48000
          Transport: Built-in
          Input Source: MacBook Pro Microphone

        MacBook Pro Speakers:

          Default Output Device: Yes
          Default System Output Device: Yes
          Manufacturer: Apple Inc.
          Output Channels: 2
          Current SampleRate: 44100
          Transport: Built-in
          Output Source: MacBook Pro Speakers
";

#[test]
fn audio_devices_by_heading() {
    let d = collect_audio_devices(AUDIO);
    assert_eq!(d.len(), 4);
    assert_eq!(d[0].name, "Audio");
    assert_eq!(d[1].name, "Devices");
    let mic = &d[2];
    assert_eq!(mic.name, "MacBook Pro Microphone");
    assert_eq!(mic.manufacturer, "Apple Inc.");
    assert_eq!(mic.sample_rate, 48000);
    assert_eq!(mic.channels, 0);
    assert_eq!(mic.transport, "Built-in");
    assert!(mic.is_default);
    // The input section begins at the "Input Source:" line, after the heading.
    assert!(!mic.is_input);
    let spk = &d[3];
    assert_eq!(spk.name, "MacBook Pro Speakers");
    assert_eq!(spk.sample_rate, 44100);
    assert!(spk.is_default);
    assert!(spk.is_input);
}

#[test]
fn audio_sample_rate_forms() {
    let d = collect_audio_devices("Dev:\nSample Rate: 96000 Hz\n");
    assert_eq!(d.len(), 1);
    assert_eq!(d[0].sample_rate, 96000);
    let d = collect_audio_devices("Dev:\nCurrent SampleRate: fast\n");
    assert_eq!(d[0].sample_rate, 0);
    assert!(!d[0].is_default);
    assert!(collect_audio_devices("").is_empty());
}

const BT: &str = "Bluetooth:

      Bluetooth Controller:
          Address: AA:BB:CC:DD:EE:FF
          State: On
          Chipset: BCM_4387
          Discoverable: Off
          Firmware Version: 22.1.534.4339
          Transport: PCIe
          Vendor ID: 0x004C (Apple)
      Connected:
          AirPods Pro:
              Address: 11:22:33:44:55:66
              Vendor ID: 0x004C
              Firmware Version: 6A321
              Minor Type: Headphones
      Not Connected:
          Magic Mouse:
              Address: 77:88:99:AA:BB:CC
              Minor Type: Mouse
";

#[test]
fn bluetooth_controller_and_devices() {
    let b = collect_bluetooth(BT);
    // Device lines count for the controller fields too: the last one wins.
    assert_eq!(b.address, "77:88:99:AA:BB:CC");
    assert_eq!(b.chipset, "BCM_4387");
    assert_eq!(b.firmware, "6A321");
    assert_eq!(b.transport, "PCIe");
    assert_eq!(b.vendor, "0x004C");
    assert_eq!(b.state, "On");
    assert!(!b.discoverable);
    assert_eq!(b.devices.len(), 2);
    assert_eq!(b.devices[0].name, "AirPods Pro");
    assert_eq!(b.devices[0].address, "11:22:33:44:55:66");
    assert_eq!(b.devices[0].firmware, "6A321");
    assert_eq!(b.devices[0].device_type, "Headphones");
    assert!(!b.devices[0].connected);
    assert_eq!(b.devices[1].name, "Magic Mouse");
    assert_eq!(b.devices[1].device_type, "Mouse");
}

#[test]
fn bluetooth_yes_flags() {
    let b = collect_bluetooth("Discoverable: YES\nPaired:\nKeyboard:\nConnected: Yes\n");
    assert!(b.discoverable);
    assert_eq!(b.devices.len(), 1);
    assert_eq!(b.devices[0].name, "Keyboard");
    assert!(b.devices[0].connected);
    let b = collect_bluetooth("Bluetooth Power: Off\n");
    assert_eq!(b.state, "Off");
    assert!(b.devices.is_empty());
}
