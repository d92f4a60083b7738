use lokcaldev::dns::{build_hosts_content, DnsEntry, DnsManager};

const HOSTS: &str = "127.0.0.1 localhost\n\n# LokcalDev START\n127.0.0.1 a.test\n# note\n127.0.0.1   b.test  extra\nbroken\n# LokcalDev END\n::1 localhost\n";

#[test]
fn hosts_block_entries_are_listed() {
    let es = DnsManager::list_entries(HOSTS);
    assert_eq!(es.len(), 2);
    assert_eq!(es[0].domain, "a.test");
    assert_eq!(es[0].ip, "127.0.0.1");
    assert_eq!(es[1].domain, "b.test");
    assert!(DnsManager::list_entries("127.0.0.1 x.test\n").is_empty());
}

#[test]
fn hosts_entry_is_added_last_and_replaces_old_one() {
    let out = DnsManager::add_entry(HOSTS, "a.test", "10.0.0.1");
    assert_eq!(
        out,
        "127.0.0.1 localhost\n\n::1 localhost\n\n# LokcalDev START\n127.0.0.1 b.test\n10.0.0.1 a.test\n# LokcalDev END\n"
    );
    let fresh = DnsManager::add_entry("127.0.0.1 localhost\n", "c.test", "127.0.0.1");
    assert_eq!(fresh, "127.0.0.1 localhost\n\n# LokcalDev START\n127.0.0.1 c.test\n# LokcalDev END\n");
}

#[test]
fn hosts_entry_removal() {
    assert_eq!(DnsManager::remove_entry(HOSTS, "zzz.test"), None);
    let out = DnsManager::remove_entry("x\n# LokcalDev START\n1.2.3.4 a.test\n# LokcalDev END\n", "a.test");
    assert_eq!(out, Some("x\n".to_string()));
}

#[test]
fn hosts_content_of_nothing_is_one_newline() {
    assert_eq!(build_hosts_content("", &Vec::new()), "\n");
    let es = vec![DnsEntry { domain: "d.test".to_string(), ip: "1.1.1.1".to_string() }];
    assert_eq!(build_hosts_content("", &es), "\n# LokcalDev START\n1.1.1.1 d.test\n# LokcalDev END\n");
}

#[test]
fn resolver_state() {
    assert!(DnsManager::resolver_file_correct("nameserver 127.0.0.1\nport 5353\n"));
    assert!(!DnsManager::resolver_file_correct("nameserver 127.0.0.1\n"));
    let s = DnsManager::get_resolver_status(true, true, true);
    assert!(s.configured);
    let s = DnsManager::get_resolver_status(true, false, true);
    assert!(!s.configured);
    assert!(s.dnsmasq_installed);
}

#[test]
fn resolver_not_installed_is_not_running() {
    let s = DnsManager::get_resolver_status(false, true, true);
    assert!(!s.dnsmasq_running);
    assert!(!s.configured);
}
