use firewall_manager::order::{interface_list, sort_names};

fn strings(v: &[&str]) -> Vec<String> {
    v.iter().map(|s| s.to_string()).collect()
}

#[test]
fn sorts_like_std() {
    let samples: [&[&str]; 5] = [
        &[],
        &["public", "block", "dmz", "trusted", "home"],
        &["b", "a", "b", "a"],
        &["ä", "z", "a", "Z", "é", "", "aa"],
        &["eth10", "eth2", "eth1"],
    ];
    for s in samples.iter() {
        let mut mine = strings(s);
        sort_names(&mut mine);
        let mut theirs = strings(s);
        theirs.sort();
        assert_eq!(mine, theirs);
    }
}

#[test]
fn listing_does_not_depend_on_reply_order() {
    let mut a = strings(&["work", "drop", "internal"]);
    let mut b = strings(&["internal", "work", "drop"]);
    sort_names(&mut a);
    sort_names(&mut b);
    assert_eq!(a, b);
}

#[test]
fn interfaces_leave_out_loopback() {
    assert_eq!(
        interface_list(strings(&["wlan0", "lo", "eth0", "lo", "lo0"])),
        strings(&["eth0", "lo0", "wlan0"])
    );
    assert_eq!(interface_list(strings(&["lo"])), strings(&[]));
}
