use prototype_net::constants::PROXY_SRC_PREFIX;
use prototype_net::constants::SYNTHETIC_PREFIX;
use prototype_net::constants::VIP_POOL_DISCRIMINATOR;
use prototype_net::constants::XFRM_IF_ID;
use prototype_net::contract::check_file;
use prototype_net::contract::check_id_widths;
use prototype_net::contract::constants_agree;
use prototype_net::contract::file_checks;
use prototype_net::contract::render_constants;
use prototype_net::contract::verify_contract;
use prototype_net::contract::ContractValues;
use prototype_net::contract::FileContent;
use prototype_net::contract::WidthError;

#[test]
fn id_widths() {
    assert_eq!(check_id_widths(24, 24), Ok(()));
    assert_eq!(check_id_widths(23, 25), Err(WidthError::ClientIdBits(23)));
    assert_eq!(check_id_widths(24, 32), Err(WidthError::DomainIdBits(32)));
}

#[test]
fn rendered_constants() {
    let text = render_constants(&ContractValues {
        synthetic_prefix: SYNTHETIC_PREFIX,
        vip_discriminator: VIP_POOL_DISCRIMINATOR,
        if_id: XFRM_IF_ID,
        proxy_src_prefix: PROXY_SRC_PREFIX,
    });
    let lines: Vec<&str> = text.lines().collect();
    assert_eq!(lines.len(), 21);
    assert_eq!(lines[0], "/// Prefix bytes for synthetic IPv6 addresses: fd00:abcd::/32.");
    assert_eq!(lines[2], "pub const SYNTHETIC_PREFIX: [u8; 4] = [0xfd, 0x00, 0xab, 0xcd];");
    assert_eq!(lines[3], "");
    assert_eq!(lines[6], "pub const VIP_POOL_DISCRIMINATOR: [u8; 4] = [0x00, 0x00, 0x00, 0x01];");
    assert_eq!(lines[10], format!("pub const XFRM_IF_ID: u32 = {};", XFRM_IF_ID));
    assert_eq!(lines[14], "pub const PROXY_SRC_PREFIX: [u8; 4] = [0x20, 0x01, 0x0d, 0xb8];");
    assert_eq!(lines[17], "pub const PROXY_SRC_CLIENT_ID_MAX: u32 = 0x00ff_ffff;");
    assert_eq!(lines[20], "pub const PROXY_SRC_DOMAIN_ID_MAX: u32 = 0x00ff_ffff;");
    assert!(text.ends_with(";\n"));
}

#[test]
fn constants_agree_with_one_contract_only() {
    let values = || ContractValues {
        synthetic_prefix: [0xfd, 0x00, 0xab, 0xcd],
        vip_discriminator: [0, 0, 0, 1],
        if_id: XFRM_IF_ID,
        proxy_src_prefix: PROXY_SRC_PREFIX,
    };
    assert!(constants_agree(&values()));
    let mut other = values();
    other.synthetic_prefix[3] = 0xce;
    assert!(!constants_agree(&other));
    let mut other = values();
    other.vip_discriminator[0] = 1;
    assert!(!constants_agree(&other));
    let mut other = values();
    other.if_id += 1;
    assert!(!constants_agree(&other));
    let mut other = values();
    other.proxy_src_prefix[1] = 2;
    assert!(!constants_agree(&other));
}

/// Contents that hold every pattern.
fn good_contents() -> Vec<FileContent> {
    file_checks("fd00:abcd::/32", 42)
        .iter()
        .map(|c| FileContent::Read(format!("before\n{}\nafter", c.pattern)))
        .collect()
}

#[test]
fn checks_are_built_from_the_contract() {
    let checks = file_checks("fd00:abcd::/32", 42);
    let listed: Vec<(&str, &str)> =
        checks.iter().map(|c| (c.path.as_str(), c.pattern.as_str())).collect();
    assert_eq!(
        listed,
        vec![
            ("client/swanctl.conf", "local_ts = fd00:abcd::/32"),
            ("client/swanctl.conf", "if_id_in = 42"),
            ("client/swanctl.conf", "if_id_out = 42"),
            ("client/entrypoint.sh", "if_id 42 dev eth0"),
            ("ansible/roles/prototype_net/templates/swanctl.conf.j2", "{{ vip_pool_start }}"),
            ("ansible/roles/prototype_net/templates/swanctl.conf.j2", "{{ vip_pool_end }}"),
            (
                "ansible/roles/prototype_net/templates/swanctl.conf.j2",
                "{{ synthetic_prefix_cidr }}"
            ),
            ("ansible/roles/prototype_net/templates/swanctl.conf.j2", "{{ xfrm_if_id }}"),
            (
                "ansible/roles/prototype_net/templates/prototype-xfrm0.service.j2",
                "{{ xfrm_if_id }}"
            ),
        ]
    );
    assert_eq!(checks[3].description, "xfrm if_id in ip link add");
    assert_eq!(checks[8].description, "Jinja2 {{ xfrm_if_id }} placeholder");
}

#[test]
fn agreeing_files_pass() {
    let checks = file_checks("fd00:abcd::/32", 42);
    assert!(verify_contract(&checks, &good_contents()).is_empty());
}

#[test]
fn failures_are_reported_in_order() {
    let checks = file_checks("fd00:abcd::/32", 42);
    let mut contents = good_contents();
    contents[1] = FileContent::Read("if_id_in = 7".to_string());
    contents[3] = FileContent::Unreadable("No such file or directory (os error 2)".to_string());
    assert_eq!(
        verify_contract(&checks, &contents),
        vec![
            "ERROR: client/swanctl.conf — expected pattern not found (if_id_in)\n  if_id_in = 42"
                .to_string(),
            "ERROR: client/entrypoint.sh — could not read file: No such file or directory (os error 2)"
                .to_string(),
        ]
    );
    assert!(check_file(&checks[0], &contents[0]).is_none());
    assert!(check_file(&checks[1], &contents[1]).is_some());
}
