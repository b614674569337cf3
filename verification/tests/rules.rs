use ipwall::firewall::IpSet;
use ipwall::net::NetworkPrefix;
use ipwall::provider::parse_body;
use ipwall::settings::{Firehol, IptablesTarget, Settings};

fn test_set() -> IpSet {
    IpSet::new(
        "test",
        IptablesTarget::Drop,
        "/usr/sbin/ipset".to_string(),
        "/usr/sbin/iptables".to_string(),
    )
}

#[test]
fn set_name_is_namespaced() {
    let fw = test_set();
    assert_eq!(fw.name(), "ipwall-test");
    assert_eq!(fw.ipset_path(), "/usr/sbin/ipset");
    assert_eq!(fw.iptables_path(), "/usr/sbin/iptables");
}

#[test]
fn create_and_destroy_args() {
    let fw = test_set();
    assert_eq!(fw.create_args(), vec!["create", "ipwall-test", "hash:net"]);
    assert_eq!(fw.destroy_args(), vec!["destroy", "ipwall-test"]);
}

#[test]
fn needs_create_checks_whole_lines() {
    let fw = test_set();
    assert!(fw.needs_create(""));
    assert!(fw.needs_create("other-set\nipwall-testy\nxipwall-test"));
    assert!(!fw.needs_create("other-set\nipwall-test\nthird"));
    assert!(!fw.needs_create("ipwall-test"));
}

#[test]
fn rule_string_text() {
    let fw = test_set();
    assert_eq!(
        fw.rule_string("INPUT"),
        "-A INPUT -p tcp -m multiport --dports 22,80,443 -m set --match-set ipwall-test src -j DROP"
    );
    let tarpit = IpSet::new(
        "test",
        IptablesTarget::Tarpit,
        "/usr/sbin/ipset".to_string(),
        "/usr/sbin/iptables".to_string(),
    );
    assert_eq!(
        tarpit.rule_string("FORWARD"),
        "-A FORWARD -p tcp -m multiport --dports 22,80,443 -m set --match-set ipwall-test src -j TARPIT --tarpit"
    );
}

#[test]
fn install_is_idempotent_per_listing() {
    let fw = test_set();
    // First run: the listing holds no matching rule, so the rule is inserted.
    assert!(!fw.has_rule("-P INPUT ACCEPT\n-P FORWARD ACCEPT\n", "INPUT"));
    // Second run: the listing now reports exactly the expected rule, so
    // nothing is inserted again.
    let listing = format!(
        "-P INPUT ACCEPT\n{}\n-P FORWARD ACCEPT\n",
        fw.rule_string("INPUT")
    );
    assert!(fw.has_rule(&listing, "INPUT"));
    assert!(!fw.has_rule(&listing, "FORWARD"));
}

#[test]
fn insert_and_delete_args() {
    let fw = test_set();
    assert_eq!(
        fw.insert_rule_args("INPUT"),
        vec![
            "-I", "INPUT", "-p", "tcp", "-m", "multiport", "--dports", "22,80,443", "-m", "set",
            "--match-set", "ipwall-test", "src", "-j", "DROP"
        ]
    );
    assert_eq!(
        fw.delete_rule_args("FORWARD"),
        vec![
            "-D", "FORWARD", "-p", "tcp", "-m", "multiport", "--dports", "22,80,443", "-m", "set",
            "--match-set", "ipwall-test", "src", "-j", "DROP"
        ]
    );
    let tarpit = IpSet::new(
        "test",
        IptablesTarget::Tarpit,
        "/usr/sbin/ipset".to_string(),
        "/usr/sbin/iptables".to_string(),
    );
    assert_eq!(
        tarpit.insert_rule_args("INPUT"),
        vec![
            "-I", "INPUT", "-p", "tcp", "-m", "multiport", "--dports", "22,80,443", "-m", "set",
            "--match-set", "ipwall-test", "src", "-j", "TARPIT", "--tarpit"
        ]
    );
}

#[test]
fn restore_script_exact_text() {
    let fw = test_set();
    let mut set = parse_body("1.2.3.0/24\n10.0.0.1/32\n").unwrap();
    // An IPv6 member is carried in the set but contributes no add line.
    assert!(set.contains(&NetworkPrefix::V4 { addr: (1 << 24) | (2 << 16) | (3 << 8), prefix: 24 }));
    let script = fw.restore_script("tempname", &set);
    assert_eq!(
        script,
        "create tempname hash:net maxelem 10002\n\
         add tempname 1.2.3.0/24\n\
         add tempname 10.0.0.1/32\n\
         swap tempname ipwall-test\n\
         destroy tempname\n"
    );
    set = parse_body("1.2.3.0/24\n2001:db8::/32\n").unwrap();
    let script = fw.restore_script("t", &set);
    assert_eq!(
        script,
        "create t hash:net maxelem 10002\n\
         add t 1.2.3.0/24\n\
         swap t ipwall-test\n\
         destroy t\n"
    );
}

#[test]
fn block_script_uses_random_token() {
    let fw = test_set();
    let set = parse_body("198.51.100.0/24\n").unwrap();
    let script = fw.block_script(&set);
    let first_line = script.lines().next().unwrap();
    let words: Vec<&str> = first_line.split(' ').collect();
    assert_eq!(words[0], "create");
    let temp = words[1];
    assert_eq!(temp.len(), 20);
    assert!(temp.chars().all(|c| c.is_ascii_alphanumeric()));
    assert_eq!(words[2], "hash:net");
    assert_eq!(words[3], "maxelem");
    assert_eq!(words[4], "10001");
    assert!(script.contains(&format!("add {} 198.51.100.0/24\n", temp)));
    assert!(script.contains(&format!("swap {} ipwall-test\n", temp)));
    assert!(script.ends_with(&format!("destroy {}\n", temp)));
}

#[test]
fn to_args_per_target() {
    assert_eq!(IptablesTarget::Drop.to_args(), vec!["DROP"]);
    assert_eq!(IptablesTarget::Reject.to_args(), vec!["REJECT"]);
    assert_eq!(IptablesTarget::Tarpit.to_args(), vec!["TARPIT", "--tarpit"]);
}

#[test]
fn target_text_per_target() {
    assert_eq!(IptablesTarget::Drop.to_text(), "DROP");
    assert_eq!(IptablesTarget::Reject.to_text(), "REJECT");
    assert_eq!(IptablesTarget::Tarpit.to_text(), "TARPIT --tarpit");
}

#[test]
fn default_settings() {
    assert_eq!(IptablesTarget::default(), IptablesTarget::Drop);
    let firehol = Firehol::default();
    assert!(!firehol.level1);
    assert!(firehol.level2);
    assert!(firehol.level3);
    let settings = Settings::default();
    assert_eq!(settings.target, IptablesTarget::Drop);
    assert!(settings.sources.is_empty());
}
