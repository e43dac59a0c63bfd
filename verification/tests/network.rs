use kifetch::modules::gpu_info::find_gpu_model;
use kifetch::modules::net_info::{
    choose_interface, find_signal_level, get_net, interface_is_wireless, Address, Choice,
    Interface, MacAddress,
};
use kifetch::text::find_text;

fn some(value: &str) -> Option<String> {
    Some(value.to_string())
}

fn interface(name: &str, up: bool, mac: Option<(&str, bool)>, ips: &[(&str, bool)]) -> Interface {
    Interface {
        name: name.to_string(),
        up,
        mac: mac.map(|(text, is_zero)| MacAddress { text: text.to_string(), is_zero }),
        ips: ips
            .iter()
            .map(|(ip, is_ipv4)| Address { ip: ip.to_string(), is_ipv4: *is_ipv4 })
            .collect(),
    }
}

fn passed_over() -> Vec<Interface> {
    vec![
        interface("lo", true, Some(("00:00:00:00:00:00", true)), &[("127.0.0.1", true)]),
        interface("eth0", false, None, &[("10.0.0.1", true)]),
        interface("eth1", true, None, &[]),
        interface("eth2", true, Some(("aa:aa:aa:aa:aa:aa", false)), &[("fe80::1", false)]),
    ]
}

#[test]
fn first_occurrences() {
    assert_eq!(find_text("abcabc", "bc"), Some(1));
    assert_eq!(find_text("abcabc", "abc"), Some(0));
    assert_eq!(find_text("abcabc", "cab"), Some(2));
    assert_eq!(find_text("abcabc", "x"), None);
    assert_eq!(find_text("abc", "abcd"), None);
    assert_eq!(find_text("abc", ""), Some(0));
    assert_eq!(find_text("", ""), Some(0));
    assert_eq!(find_text("", "a"), None);
    assert_eq!(find_text("aab", "ab"), Some(1));
    assert_eq!(find_text("\u{e9}\u{e9}x", "x"), Some(2));
}

#[test]
fn gpu_model_from_the_device_list() {
    let text = "00:00.0 Host bridge: Intel Corporation Device\n\tFlags: bus master\n00:02.0 VGA compatible controller: Intel Corporation UHD Graphics 630 (rev 02)\n01:00.0 3D controller: NVIDIA Corporation GP107M\n";
    assert_eq!(find_gpu_model(text), some("Intel Corporation UHD Graphics 630 (rev 02)"));
    assert_eq!(find_gpu_model("01:00.0 Display controller: A: B\n"), some("A"));
    assert_eq!(find_gpu_model("VGA: no second colon\n01:00.0 3D controller:  X  \n"), some("X"));
    assert_eq!(find_gpu_model("00:1f.3 Audio device: Intel\n"), None);
    assert_eq!(find_gpu_model("00:02.0 vga compatible controller: Intel\n"), None);
    assert_eq!(find_gpu_model(""), None);
}

#[test]
fn signal_level_from_the_wireless_settings() {
    let text = "wlan0     IEEE 802.11  ESSID:\"home\"\n          Link Quality=60/70  Signal level=-50 dBm  \n";
    assert_eq!(find_signal_level(text), some("-50"));
    assert_eq!(find_signal_level("Signal level=-50"), None);
    assert_eq!(find_signal_level("Signal level= x"), some(""));
    assert_eq!(find_signal_level("Signal level=1 Signal level=2 "), some("1"));
    assert_eq!(find_signal_level("signal level=-50 dBm"), None);
    assert_eq!(find_signal_level(""), None);
}

#[test]
fn primary_interface_is_the_first_that_serves() {
    let mut interfaces = passed_over();
    interfaces.push(interface(
        "wlan0",
        true,
        Some(("bb:bb:bb:bb:bb:bb", false)),
        &[("fe80::2", false), ("10.0.0.2", true), ("10.0.0.3", true)],
    ));
    interfaces.push(interface("eth3", true, Some(("cc:cc:cc:cc:cc:cc", false)), &[("10.0.0.4", true)]));
    assert_eq!(choose_interface(&interfaces), Choice::Primary { interface: 4, address: 1 });
}

#[test]
fn no_interface_serves() {
    assert_eq!(choose_interface(&passed_over()), Choice::Nothing);
    assert_eq!(choose_interface(&Vec::new()), Choice::Nothing);
}

#[test]
fn interface_without_hardware_address_ends_the_search() {
    let interfaces = vec![
        interface("eth0", true, None, &[("10.0.0.1", true)]),
        interface("eth1", true, Some(("aa:aa:aa:aa:aa:aa", false)), &[("10.0.0.2", true)]),
    ];
    assert_eq!(choose_interface(&interfaces), Choice::NoMac { interface: 0 });
}

#[test]
fn net_of_a_wired_interface() {
    let eth = interface(
        "eth0",
        true,
        Some(("aa:bb:cc:dd:ee:ff", false)),
        &[("fe80::1", false), ("10.0.0.2", true)],
    );
    let net = get_net(&eth, 1, Some("home\n"), Some("Signal level=-40 dBm"));
    assert_eq!(net.ip, "10.0.0.2");
    assert_eq!(net.iface, "eth0");
    assert_eq!(net.mac, "aa:bb:cc:dd:ee:ff");
    assert_eq!(net.wifi_ssid, "unknown");
    assert_eq!(net.wifi_signal, "unknown");
}

#[test]
fn net_of_a_wireless_interface() {
    assert!(interface_is_wireless("wlp3s0"));
    assert!(!interface_is_wireless("eth0"));
    assert!(!interface_is_wireless("w"));
    let wlan = interface("wlan0", true, Some(("aa:bb:cc:dd:ee:ff", false)), &[("10.0.0.2", true)]);
    let net = get_net(&wlan, 0, Some("home\n"), Some("Link Quality=60/70  Signal level=-40 dBm"));
    assert_eq!(net.wifi_ssid, "home");
    assert_eq!(net.wifi_signal, "-40");
    let net = get_net(&wlan, 0, None, Some("no level"));
    assert_eq!(net.wifi_ssid, "unknown");
    assert_eq!(net.wifi_signal, "unknown");
    let net = get_net(&wlan, 0, Some(""), None);
    assert_eq!(net.wifi_ssid, "");
    assert_eq!(net.wifi_signal, "unknown");
}
