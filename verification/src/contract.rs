//! The address contract: constants that the data plane, the tunnel configuration and the
//! provisioning templates have to agree on.

use vstd::prelude::*;

use crate::constants::PROXY_SRC_PREFIX;
use crate::constants::SYNTHETIC_PREFIX;
use crate::constants::VIP_POOL_DISCRIMINATOR;
use crate::constants::XFRM_IF_ID;
use crate::numbers::append_hex;
use crate::numbers::decimal_text;
use crate::numbers::hex_text;
use crate::numbers::law_hex_text_counts_up_to_byte;
use crate::numbers::law_written_numbers_differ;
use crate::numbers::to_decimal;
use crate::text::contains;
use crate::text::contains_text;
use crate::text::law_contains_text_by_parts;

verus! {

/// The values of the contract that end up in code.
pub struct ContractValues {
    pub synthetic_prefix: [u8; 4],
    pub vip_discriminator: [u8; 4],
    pub if_id: u32,
    pub proxy_src_prefix: [u8; 4],
}

/// An id width that the proxy-source encoding cannot carry.
#[derive(Clone, Copy, PartialEq, Eq, Structural, Debug)]
pub enum WidthError {
    /// The client id is this many bits wide in place of 24.
    ClientIdBits(u32),
    /// The domain id is this many bits wide in place of 24.
    DomainIdBits(u32),
}

/// Check that both ids are 24 bits wide, the client id first.
pub fn check_id_widths(client_id_bits: u32, domain_id_bits: u32) -> (res: Result<(), WidthError>)
    ensures
        res == if client_id_bits != 24 {
            Err::<(), WidthError>(WidthError::ClientIdBits(client_id_bits))
        } else if domain_id_bits != 24 {
            Err::<(), WidthError>(WidthError::DomainIdBits(domain_id_bits))
        } else {
            Ok::<(), WidthError>(())
        },
{
    if client_id_bits != 24 {
        Err(WidthError::ClientIdBits(client_id_bits))
    } else if domain_id_bits != 24 {
        Err(WidthError::DomainIdBits(domain_id_bits))
    } else {
        Ok(())
    }
}

/// The contract says what this library's constants say.
pub open spec fn agrees_with_constants(values: ContractValues) -> bool {
    &&& values.synthetic_prefix@ == SYNTHETIC_PREFIX@
    &&& values.vip_discriminator@ == VIP_POOL_DISCRIMINATOR@
    &&& values.if_id == XFRM_IF_ID
    &&& values.proxy_src_prefix@ == PROXY_SRC_PREFIX@
}

/// Whether two times four bytes are the same.
fn same_bytes(a: &[u8; 4], b: &[u8; 4]) -> (same: bool)
    ensures
        same == (a@ == b@),
{
    let same: bool = a[0] == b[0] && a[1] == b[1] && a[2] == b[2] && a[3] == b[3];
    assert(same ==> a@ =~= b@);
    same
}

/// Whether the contract says what this library's constants say.
pub fn constants_agree(values: &ContractValues) -> (yes: bool)
    ensures
        yes == agrees_with_constants(*values),
{
    same_bytes(&values.synthetic_prefix, &SYNTHETIC_PREFIX) && same_bytes(
        &values.vip_discriminator,
        &VIP_POOL_DISCRIMINATOR,
    ) && values.if_id == XFRM_IF_ID && same_bytes(&values.proxy_src_prefix, &PROXY_SRC_PREFIX)
}

/// The source rendered from a contract that agrees with the constants is that of the
/// constants themselves.
pub proof fn law_agreed_contract_renders_constants(values: ContractValues)
    requires
        agrees_with_constants(values),
    ensures
        constants_text(values) == constants_text(
            ContractValues {
                synthetic_prefix: SYNTHETIC_PREFIX,
                vip_discriminator: VIP_POOL_DISCRIMINATOR,
                if_id: XFRM_IF_ID,
                proxy_src_prefix: PROXY_SRC_PREFIX,
            },
        ),
{
    assert(values.synthetic_prefix =~= SYNTHETIC_PREFIX);
    assert(values.vip_discriminator =~= VIP_POOL_DISCRIMINATOR);
    assert(values.proxy_src_prefix =~= PROXY_SRC_PREFIX);
}

/// Four bytes as a Rust array of hexadecimal literals.
pub open spec fn array_text(bytes: [u8; 4]) -> Seq<char> {
    "[0x"@ + hex_text(bytes[0]) + ", 0x"@ + hex_text(bytes[1]) + ", 0x"@ + hex_text(bytes[2])
        + ", 0x"@ + hex_text(bytes[3]) + "]"@
}

/// The Rust source of the contract's constants.
pub open spec fn constants_text(values: ContractValues) -> Seq<char> {
    "/// Prefix bytes for synthetic IPv6 addresses: fd00:abcd::/32.\n"@
        + "/// Generated from `contract.toml` — do not edit by hand.\n"@
        + "pub const SYNTHETIC_PREFIX: [u8; 4] = "@ + array_text(values.synthetic_prefix)
        + ";\n\n"@ + "/// Pool discriminator bytes: bytes 4–7 of every client VIP.\n"@
        + "/// Generated from `contract.toml` — do not edit by hand.\n"@
        + "pub const VIP_POOL_DISCRIMINATOR: [u8; 4] = "@ + array_text(values.vip_discriminator)
        + ";\n\n"@ + "/// XFRM interface if_id for the IPSec child SA.\n"@
        + "/// Generated from `contract.toml` — do not edit by hand.\n"@
        + "pub const XFRM_IF_ID: u32 = "@ + decimal_text(values.if_id as nat) + ";\n\n"@
        + "/// Public /32 prefix for proxy-source addresses.\n"@
        + "/// Generated from `contract.toml` — do not edit by hand.\n"@
        + "pub const PROXY_SRC_PREFIX: [u8; 4] = "@ + array_text(values.proxy_src_prefix)
        + ";\n\n"@ + "/// Maximum value for a 24-bit client_id.\n"@
        + "pub const PROXY_SRC_CLIENT_ID_MAX: u32 = 0x00ff_ffff;\n\n"@
        + "/// Maximum value for a 24-bit domain_id.\n"@
        + "pub const PROXY_SRC_DOMAIN_ID_MAX: u32 = 0x00ff_ffff;\n"@
}

/// Append four bytes as a Rust array of hexadecimal literals.
fn append_array(text: &mut String, bytes: &[u8; 4])
    ensures
        final(text)@ == old(text)@ + array_text(*bytes),
{
    text.append("[0x");
    append_hex(text, bytes[0]);
    text.append(", 0x");
    append_hex(text, bytes[1]);
    text.append(", 0x");
    append_hex(text, bytes[2]);
    text.append(", 0x");
    append_hex(text, bytes[3]);
    text.append("]");
    assert(text@ =~= old(text)@ + array_text(*bytes));
}

/// Write the Rust source of the contract's constants.
pub fn render_constants(values: &ContractValues) -> (text: String)
    ensures
        text@ == constants_text(*values),
{
    let mut text: String = String::from_str(
        "/// Prefix bytes for synthetic IPv6 addresses: fd00:abcd::/32.\n",
    );
    text.append("/// Generated from `contract.toml` — do not edit by hand.\n");
    text.append("pub const SYNTHETIC_PREFIX: [u8; 4] = ");
    append_array(&mut text, &values.synthetic_prefix);
    text.append(";\n\n");
    text.append("/// Pool discriminator bytes: bytes 4–7 of every client VIP.\n");
    text.append("/// Generated from `contract.toml` — do not edit by hand.\n");
    text.append("pub const VIP_POOL_DISCRIMINATOR: [u8; 4] = ");
    append_array(&mut text, &values.vip_discriminator);
    text.append(";\n\n");
    text.append("/// XFRM interface if_id for the IPSec child SA.\n");
    text.append("/// Generated from `contract.toml` — do not edit by hand.\n");
    text.append("pub const XFRM_IF_ID: u32 = ");
    text.append(to_decimal(values.if_id).as_str());
    text.append(";\n\n");
    text.append("/// Public /32 prefix for proxy-source addresses.\n");
    text.append("/// Generated from `contract.toml` — do not edit by hand.\n");
    text.append("pub const PROXY_SRC_PREFIX: [u8; 4] = ");
    append_array(&mut text, &values.proxy_src_prefix);
    text.append(";\n\n");
    text.append("/// Maximum value for a 24-bit client_id.\n");
    text.append("pub const PROXY_SRC_CLIENT_ID_MAX: u32 = 0x00ff_ffff;\n\n");
    text.append("/// Maximum value for a 24-bit domain_id.\n");
    text.append("pub const PROXY_SRC_DOMAIN_ID_MAX: u32 = 0x00ff_ffff;\n");
    text
}

// ---------------------------------------------------------------------------
// Checking the configuration files
// ---------------------------------------------------------------------------

/// One thing to look for in one file.
pub struct Check {
    /// The file, relative to the workspace.
    pub path: String,
    /// The text that has to stand in it.
    pub pattern: String,
    /// What the text is.
    pub description: String,
}

/// A [`Check`] over views.
#[verifier::ext_equal]
pub struct CheckView {
    pub path: Seq<char>,
    pub pattern: Seq<char>,
    pub description: Seq<char>,
}

impl View for Check {
    type V = CheckView;

    open spec fn view(&self) -> CheckView {
        CheckView {
            path: self.path@,
            pattern: self.pattern@,
            description: self.description@,
        }
    }
}

/// What was found where a file was to be read: its content, or why it could not be read.
pub enum FileContent {
    Read(String),
    Unreadable(String),
}

/// The views of a list of checks.
pub open spec fn checks_view(checks: Seq<Check>) -> Seq<CheckView> {
    Seq::new(checks.len(), |i: int| checks[i]@)
}

/// The tunnel configuration of the client.
pub const CLIENT_SWANCTL: &'static str = "client/swanctl.conf";

/// The start script of the client.
pub const CLIENT_ENTRYPOINT: &'static str = "client/entrypoint.sh";

/// The template of the server's tunnel configuration.
pub const SERVER_SWANCTL: &'static str = "ansible/roles/prototype_net/templates/swanctl.conf.j2";

/// The template of the unit that creates the tunnel interface.
pub const XFRM_SERVICE: &'static str =
    "ansible/roles/prototype_net/templates/prototype-xfrm0.service.j2";

/// What the configuration files have to hold, given the synthetic prefix and the tunnel's
/// interface id.
pub open spec fn expected_checks(cidr: Seq<char>, if_id: u32) -> Seq<CheckView> {
    let id = decimal_text(if_id as nat);
    seq![
        CheckView {
            path: CLIENT_SWANCTL@,
            pattern: "local_ts = "@ + cidr,
            description: "local_ts synthetic prefix"@,
        },
        CheckView {
            path: CLIENT_SWANCTL@,
            pattern: "if_id_in = "@ + id,
            description: "if_id_in"@,
        },
        CheckView {
            path: CLIENT_SWANCTL@,
            pattern: "if_id_out = "@ + id,
            description: "if_id_out"@,
        },
        CheckView {
            path: CLIENT_ENTRYPOINT@,
            pattern: "if_id "@ + id + " dev eth0"@,
            description: "xfrm if_id in ip link add"@,
        },
        CheckView {
            path: SERVER_SWANCTL@,
            pattern: "{{ vip_pool_start }}"@,
            description: "Jinja2 {{ vip_pool_start }} placeholder"@,
        },
        CheckView {
            path: SERVER_SWANCTL@,
            pattern: "{{ vip_pool_end }}"@,
            description: "Jinja2 {{ vip_pool_end }} placeholder"@,
        },
        CheckView {
            path: SERVER_SWANCTL@,
            pattern: "{{ synthetic_prefix_cidr }}"@,
            description: "Jinja2 {{ synthetic_prefix_cidr }} placeholder"@,
        },
        CheckView {
            path: SERVER_SWANCTL@,
            pattern: "{{ xfrm_if_id }}"@,
            description: "Jinja2 {{ xfrm_if_id }} placeholder"@,
        },
        CheckView {
            path: XFRM_SERVICE@,
            pattern: "{{ xfrm_if_id }}"@,
            description: "Jinja2 {{ xfrm_if_id }} placeholder"@,
        },
    ]
}

/// A check of one file.
fn check(path: &str, pattern: String, description: &str) -> (check: Check)
    ensures
        check@ == (CheckView { path: path@, pattern: pattern@, description: description@ }),
{
    Check {
        path: String::from_str(path),
        pattern,
        description: String::from_str(description),
    }
}

/// List what the configuration files have to hold.
pub fn file_checks(cidr: &str, if_id: u32) -> (checks: Vec<Check>)
    ensures
        checks_view(checks@) == expected_checks(cidr@, if_id),
{
    let id: String = to_decimal(if_id);
    let local_ts: String = String::from_str("local_ts = ").concat(cidr);
    let if_id_in: String = String::from_str("if_id_in = ").concat(id.as_str());
    let if_id_out: String = String::from_str("if_id_out = ").concat(id.as_str());
    let link: String = String::from_str("if_id ").concat(id.as_str()).concat(" dev eth0");
    let mut checks: Vec<Check> = Vec::new();
    checks.push(check(CLIENT_SWANCTL, local_ts, "local_ts synthetic prefix"));
    checks.push(check(CLIENT_SWANCTL, if_id_in, "if_id_in"));
    checks.push(check(CLIENT_SWANCTL, if_id_out, "if_id_out"));
    checks.push(check(CLIENT_ENTRYPOINT, link, "xfrm if_id in ip link add"));
    checks.push(
        check(
            SERVER_SWANCTL,
            String::from_str("{{ vip_pool_start }}"),
            "Jinja2 {{ vip_pool_start }} placeholder",
        ),
    );
    checks.push(
        check(
            SERVER_SWANCTL,
            String::from_str("{{ vip_pool_end }}"),
            "Jinja2 {{ vip_pool_end }} placeholder",
        ),
    );
    checks.push(
        check(
            SERVER_SWANCTL,
            String::from_str("{{ synthetic_prefix_cidr }}"),
            "Jinja2 {{ synthetic_prefix_cidr }} placeholder",
        ),
    );
    checks.push(
        check(
            SERVER_SWANCTL,
            String::from_str("{{ xfrm_if_id }}"),
            "Jinja2 {{ xfrm_if_id }} placeholder",
        ),
    );
    checks.push(
        check(
            XFRM_SERVICE,
            String::from_str("{{ xfrm_if_id }}"),
            "Jinja2 {{ xfrm_if_id }} placeholder",
        ),
    );
    assert(checks_view(checks@) =~= expected_checks(cidr@, if_id));
    checks
}

/// What is wrong with a file, if anything.
pub open spec fn failure_of(check: CheckView, content: FileContent) -> Option<Seq<char>> {
    match content {
        FileContent::Unreadable(reason) => Some(
            "ERROR: "@ + check.path + " — could not read file: "@ + reason@,
        ),
        FileContent::Read(text) => if contains_text(text@, check.pattern) {
            None
        } else {
            Some(
                "ERROR: "@ + check.path + " — expected pattern not found ("@ + check.description
                    + ")\n  "@ + check.pattern,
            )
        },
    }
}

/// What is wrong with the files, in the order of the checks.
pub open spec fn failures_of(checks: Seq<CheckView>, contents: Seq<FileContent>) -> Seq<Seq<char>>
    decreases checks.len(),
{
    if checks.len() == 0 || contents.len() != checks.len() {
        Seq::empty()
    } else {
        let before = failures_of(checks.drop_last(), contents.drop_last());
        match failure_of(checks.last(), contents.last()) {
            Some(message) => before.push(message),
            None => before,
        }
    }
}

/// The texts of a list of messages.
pub open spec fn texts(messages: Seq<String>) -> Seq<Seq<char>> {
    Seq::new(messages.len(), |i: int| messages[i]@)
}

/// Hold a file against a check.
pub fn check_file(check: &Check, content: &FileContent) -> (failure: Option<String>)
    ensures
        failure is Some <==> failure_of(check@, *content) is Some,
        failure matches Some(message) ==> failure_of(check@, *content) == Some(message@),
{
    match content {
        FileContent::Unreadable(reason) => {
            let mut message: String = String::from_str("ERROR: ");
            message.append(check.path.as_str());
            message.append(" — could not read file: ");
            message.append(reason.as_str());
            Some(message)
        },
        FileContent::Read(text) => {
            if contains(text.as_str(), check.pattern.as_str()) {
                None
            } else {
                let mut message: String = String::from_str("ERROR: ");
                message.append(check.path.as_str());
                message.append(" — expected pattern not found (");
                message.append(check.description.as_str());
                message.append(")\n  ");
                message.append(check.pattern.as_str());
                Some(message)
            }
        },
    }
}

/// Hold the files against the checks, one content for each check. No failures means that
/// the files agree with the contract.
pub fn verify_contract(checks: &Vec<Check>, contents: &Vec<FileContent>) -> (failures: Vec<String>)
    requires
        contents@.len() == checks@.len(),
    ensures
        texts(failures@) == failures_of(checks_view(checks@), contents@),
{
    let mut failures: Vec<String> = Vec::new();
    let mut i: usize = 0;
    let ghost views = checks_view(checks@);
    assert(texts(failures@) =~= failures_of(views.take(0), contents@.take(0)));
    while i < checks.len()
        invariant
            i <= checks.len(),
            contents.len() == checks.len(),
            views == checks_view(checks@),
            texts(failures@) == failures_of(views.take(i as int), contents@.take(i as int)),
        decreases checks.len() - i,
    {
        let ghost before = failures@;
        assert(views.take(i + 1).drop_last() =~= views.take(i as int));
        assert(contents@.take(i + 1).drop_last() =~= contents@.take(i as int));
        match check_file(&checks[i], &contents[i]) {
            Some(message) => {
                failures.push(message);
                assert(texts(failures@) =~= texts(before).push(message@));
            },
            None => {},
        }
        i = i + 1;
    }
    assert(views.take(i as int) =~= views);
    assert(contents@.take(i as int) =~= contents@);
    failures
}

/// There are no failures exactly when every file was read and holds what it has to.
pub proof fn law_no_failures_iff_all_agree(checks: Seq<CheckView>, contents: Seq<FileContent>)
    requires
        contents.len() == checks.len(),
    ensures
        failures_of(checks, contents).len() == 0 <==> forall|i: int|
            0 <= i < checks.len() ==> (#[trigger] contents[i] matches FileContent::Read(text)
                && contains_text(text@, checks[i].pattern)),
    decreases checks.len(),
{
    if checks.len() > 0 {
        let c = checks.drop_last();
        let d = contents.drop_last();
        law_no_failures_iff_all_agree(c, d);
        let last = checks.len() - 1;
        assert(forall|i: int|
            0 <= i < last ==> c[i] == checks[i] && #[trigger] d[i] == contents[i]);
        assert(forall|i: int| 0 <= i < last ==> d[i] == #[trigger] contents[i]);
        assert(checks[last] == checks.last() && contents[last] == contents.last());
    }
}

/// What a contract has to say to agree: the prefix `fd 00 ab cd`, the discriminator
/// `00 00 00 01`, interface id 42, and the prefix `20 01 0d b8`.
pub proof fn law_agreement_by_bytes(values: ContractValues)
    ensures
        agrees_with_constants(values) <==> {
            &&& values.synthetic_prefix@ == seq![0xfdu8, 0x00, 0xab, 0xcd]
            &&& values.vip_discriminator@ == seq![0u8, 0, 0, 1]
            &&& values.if_id == 42
            &&& values.proxy_src_prefix@ == seq![0x20u8, 0x01, 0x0d, 0xb8]
        },
{
    assert(SYNTHETIC_PREFIX@ =~= seq![0xfdu8, 0x00, 0xab, 0xcd]);
    assert(VIP_POOL_DISCRIMINATOR@ =~= seq![0u8, 0, 0, 1]);
    assert(PROXY_SRC_PREFIX@ =~= seq![0x20u8, 0x01, 0x0d, 0xb8]);
}

/// Sequences that are put together in the same way have the same parts.
proof fn lemma_same_parts(x: Seq<char>, y: Seq<char>, u: Seq<char>, v: Seq<char>)
    requires
        x + y == u + v,
        x.len() == u.len() || y.len() == v.len(),
    ensures
        x == u,
        y == v,
{
    assert((x + y).len() == (u + v).len());
    assert(x =~= (x + y).subrange(0, x.len() as int));
    assert(u =~= (u + v).subrange(0, u.len() as int));
    assert(y =~= (x + y).subrange(x.len() as int, (x + y).len() as int));
    assert(v =~= (u + v).subrange(u.len() as int, (u + v).len() as int));
}

/// A written array tells its four bytes.
pub proof fn law_array_text_tells_bytes(a: [u8; 4], b: [u8; 4])
    ensures
        array_text(a).len() == array_text(b).len(),
        array_text(a) == array_text(b) ==> a@ == b@,
{
    let start = "[0x"@;
    let between = ", 0x"@;
    let (h0, h1, h2, h3) = (hex_text(a[0]), hex_text(a[1]), hex_text(a[2]), hex_text(a[3]));
    let (k0, k1, k2, k3) = (hex_text(b[0]), hex_text(b[1]), hex_text(b[2]), hex_text(b[3]));
    if array_text(a) == array_text(b) {
        let (a1, b1) = (start + h0 + between, start + k0 + between);
        let (a2, b2) = (a1 + h1 + between, b1 + k1 + between);
        let (a3, b3) = (a2 + h2 + between, b2 + k2 + between);
        lemma_same_parts(a3 + h3, "]"@, b3 + k3, "]"@);
        lemma_same_parts(a3, h3, b3, k3);
        lemma_same_parts(a2 + h2, between, b2 + k2, between);
        lemma_same_parts(a2, h2, b2, k2);
        lemma_same_parts(a1 + h1, between, b1 + k1, between);
        lemma_same_parts(a1, h1, b1, k1);
        lemma_same_parts(start + h0, between, start + k0, between);
        lemma_same_parts(start, h0, start, k0);
        assert forall|i: int| 0 <= i < 4 implies a@[i] == b@[i] by {
            law_hex_text_counts_up_to_byte(a[i]);
            law_hex_text_counts_up_to_byte(b[i]);
        }
        assert(a@ =~= b@);
    }
}

/// The source up to the first value.
spec fn source_to_synthetic() -> Seq<char> {
    "/// Prefix bytes for synthetic IPv6 addresses: fd00:abcd::/32.\n"@
        + "/// Generated from `contract.toml` — do not edit by hand.\n"@
        + "pub const SYNTHETIC_PREFIX: [u8; 4] = "@
}

/// The source up to the second value.
spec fn source_to_vip(values: ContractValues) -> Seq<char> {
    source_to_synthetic() + array_text(values.synthetic_prefix) + ";\n\n"@
        + "/// Pool discriminator bytes: bytes 4–7 of every client VIP.\n"@
        + "/// Generated from `contract.toml` — do not edit by hand.\n"@
        + "pub const VIP_POOL_DISCRIMINATOR: [u8; 4] = "@
}

/// The source up to the third value.
spec fn source_to_if_id(values: ContractValues) -> Seq<char> {
    source_to_vip(values) + array_text(values.vip_discriminator) + ";\n\n"@
        + "/// XFRM interface if_id for the IPSec child SA.\n"@
        + "/// Generated from `contract.toml` — do not edit by hand.\n"@
        + "pub const XFRM_IF_ID: u32 = "@
}

/// The source up to the fourth value.
spec fn source_to_proxy(values: ContractValues) -> Seq<char> {
    source_to_if_id(values) + decimal_text(values.if_id as nat) + ";\n\n"@
        + "/// Public /32 prefix for proxy-source addresses.\n"@
        + "/// Generated from `contract.toml` — do not edit by hand.\n"@
        + "pub const PROXY_SRC_PREFIX: [u8; 4] = "@
}

/// The rendered source tells every value: contracts that render alike say the same.
pub proof fn law_constants_text_tells_values(a: ContractValues, b: ContractValues)
    requires
        constants_text(a) == constants_text(b),
    ensures
        a.synthetic_prefix@ == b.synthetic_prefix@,
        a.vip_discriminator@ == b.vip_discriminator@,
        a.if_id == b.if_id,
        a.proxy_src_prefix@ == b.proxy_src_prefix@,
{
    let own = "/// Generated from `contract.toml` — do not edit by hand.\n"@;
    let end = ";\n\n"@;
    let (l1, l2, l3, l4) = (
        "/// Maximum value for a 24-bit client_id.\n"@,
        "pub const PROXY_SRC_CLIENT_ID_MAX: u32 = 0x00ff_ffff;\n\n"@,
        "/// Maximum value for a 24-bit domain_id.\n"@,
        "pub const PROXY_SRC_DOMAIN_ID_MAX: u32 = 0x00ff_ffff;\n"@,
    );
    law_array_text_tells_bytes(a.synthetic_prefix, b.synthetic_prefix);
    law_array_text_tells_bytes(a.vip_discriminator, b.vip_discriminator);
    law_array_text_tells_bytes(a.proxy_src_prefix, b.proxy_src_prefix);

    let (x, u) = (source_to_proxy(a), source_to_proxy(b));
    let (y, v) = (array_text(a.proxy_src_prefix), array_text(b.proxy_src_prefix));
    lemma_same_parts(x + y + end + l1 + l2 + l3, l4, u + v + end + l1 + l2 + l3, l4);
    lemma_same_parts(x + y + end + l1 + l2, l3, u + v + end + l1 + l2, l3);
    lemma_same_parts(x + y + end + l1, l2, u + v + end + l1, l2);
    lemma_same_parts(x + y + end, l1, u + v + end, l1);
    lemma_same_parts(x + y, end, u + v, end);
    lemma_same_parts(x, y, u, v);

    let public = "/// Public /32 prefix for proxy-source addresses.\n"@;
    let proxy = "pub const PROXY_SRC_PREFIX: [u8; 4] = "@;
    let (x, u) = (source_to_if_id(a), source_to_if_id(b));
    let (y, v) = (decimal_text(a.if_id as nat), decimal_text(b.if_id as nat));
    lemma_same_parts(x + y + end + public + own, proxy, u + v + end + public + own, proxy);
    lemma_same_parts(x + y + end + public, own, u + v + end + public, own);
    lemma_same_parts(x + y + end, public, u + v + end, public);
    lemma_same_parts(x + y, end, u + v, end);
    lemma_same_parts(x, y, u, v);
    law_written_numbers_differ(a.if_id as nat, b.if_id as nat);

    let line = "/// XFRM interface if_id for the IPSec child SA.\n"@;
    let if_id = "pub const XFRM_IF_ID: u32 = "@;
    let (x, u) = (source_to_vip(a), source_to_vip(b));
    let (y, v) = (array_text(a.vip_discriminator), array_text(b.vip_discriminator));
    lemma_same_parts(x + y + end + line + own, if_id, u + v + end + line + own, if_id);
    lemma_same_parts(x + y + end + line, own, u + v + end + line, own);
    lemma_same_parts(x + y + end, line, u + v + end, line);
    lemma_same_parts(x + y, end, u + v, end);
    lemma_same_parts(x, y, u, v);

    let pool = "/// Pool discriminator bytes: bytes 4–7 of every client VIP.\n"@;
    let vip = "pub const VIP_POOL_DISCRIMINATOR: [u8; 4] = "@;
    let s = source_to_synthetic();
    let (y, v) = (array_text(a.synthetic_prefix), array_text(b.synthetic_prefix));
    lemma_same_parts(s + y + end + pool + own, vip, s + v + end + pool + own, vip);
    lemma_same_parts(s + y + end + pool, own, s + v + end + pool, own);
    lemma_same_parts(s + y + end, pool, s + v + end, pool);
    lemma_same_parts(s + y, end, s + v, end);
    lemma_same_parts(s, y, s, v);
}

/// The checks look for the very prefix and the very interface id, in full: lists of checks
/// that look for the same are made from the same contract.
pub proof fn law_checks_tell_prefix_and_id(a: Seq<char>, m: u32, b: Seq<char>, n: u32, i: int)
    requires
        1 <= i <= 3,
    ensures
        expected_checks(a, m)[0].pattern == expected_checks(b, n)[0].pattern ==> a == b,
        expected_checks(a, m)[i].pattern == expected_checks(b, n)[i].pattern ==> m == n,
        expected_checks(a, m)[0].pattern == "local_ts = "@ + a,
{
    let (x, y) = (expected_checks(a, m), expected_checks(b, n));
    let (s, t) = (decimal_text(m as nat), decimal_text(n as nat));
    if x[0].pattern == y[0].pattern {
        lemma_same_parts("local_ts = "@, a, "local_ts = "@, b);
    }
    if x[i].pattern == y[i].pattern {
        if i == 1 {
            lemma_same_parts("if_id_in = "@, s, "if_id_in = "@, t);
        } else if i == 2 {
            lemma_same_parts("if_id_out = "@, s, "if_id_out = "@, t);
        } else {
            lemma_same_parts("if_id "@ + s, " dev eth0"@, "if_id "@ + t, " dev eth0"@);
            lemma_same_parts("if_id "@, s, "if_id "@, t);
        }
        law_written_numbers_differ(m as nat, n as nat);
    }
}

/// A failure names the file, and with it the reason why it could not be read, or what was
/// looked for and the text that stands for it. A file that holds the text between any others
/// has no failure.
pub proof fn law_failure_names_file_and_pattern(
    check: CheckView,
    reason: String,
    content: String,
    before: Seq<char>,
    after: Seq<char>,
)
    ensures
        failure_of(check, FileContent::Unreadable(reason)) matches Some(message) && contains_text(
            message,
            check.path,
        ) && contains_text(message, reason@),
        content@ == before + check.pattern + after ==> failure_of(
            check,
            FileContent::Read(content),
        ) is None,
        failure_of(check, FileContent::Read(content)) matches Some(message) ==> contains_text(
            message,
            check.path,
        ) && contains_text(message, check.description) && contains_text(message, check.pattern),
{
    let error = "ERROR: "@;
    let unread = " — could not read file: "@;
    let missing = " — expected pattern not found ("@;
    let next = ")\n  "@;
    let none = Seq::<char>::empty();
    let (path, description, pattern) = (check.path, check.description, check.pattern);
    let m = error + path + unread + reason@;
    assert(m =~= error + path + (unread + reason@));
    law_contains_text_by_parts(error, path, unread + reason@, m);
    assert(m =~= (error + path + unread) + reason@ + none);
    law_contains_text_by_parts(error + path + unread, reason@, none, m);
    let m = error + path + missing + description + next + pattern;
    assert(m =~= error + path + (missing + description + next + pattern));
    law_contains_text_by_parts(error, path, missing + description + next + pattern, m);
    assert(m =~= (error + path + missing) + description + (next + pattern));
    law_contains_text_by_parts(error + path + missing, description, next + pattern, m);
    assert(m =~= (error + path + missing + description + next) + pattern + none);
    law_contains_text_by_parts(error + path + missing + description + next, pattern, none, m);
    law_contains_text_by_parts(before, pattern, after, content@);
}

/// One more file adds its own failure behind the others', if it has one, and changes none.
pub proof fn law_failures_file_by_file(
    checks: Seq<CheckView>,
    contents: Seq<FileContent>,
    check: CheckView,
    content: FileContent,
)
    requires
        contents.len() == checks.len(),
    ensures
        failures_of(checks.push(check), contents.push(content)) == match failure_of(
            check,
            content,
        ) {
            Some(message) => failures_of(checks, contents).push(message),
            None => failures_of(checks, contents),
        },
{
    assert(checks.push(check).drop_last() =~= checks);
    assert(contents.push(content).drop_last() =~= contents);
}

/// Both ids have to be 24 bits wide. The width that is not is reported, the client's first.
pub proof fn law_widths_by_numbers(client: u32, domain: u32, res: Result<(), WidthError>)
    requires
        call_ensures(check_id_widths, (client, domain), res),
    ensures
        res is Ok <==> client == 24 && domain == 24,
        client != 24 ==> res == Err::<(), WidthError>(WidthError::ClientIdBits(client)),
        client == 24 && domain != 24 ==> res == Err::<(), WidthError>(
            WidthError::DomainIdBits(domain),
        ),
{
}

/// Checking files finds nothing just if every file was read and holds its pattern somewhere. The
/// constants agree with a contract just if it says these very bytes and this very number.
pub proof fn law_files_agree_by_content(
    checks: &Vec<Check>,
    contents: &Vec<FileContent>,
    failures: Vec<String>,
    values: &ContractValues,
    agree: bool,
)
    requires
        contents@.len() == checks@.len(),
        call_ensures(verify_contract, (checks, contents), failures),
        call_ensures(constants_agree, (values,), agree),
    ensures
        failures@.len() == 0 <==> forall|i: int|
            0 <= i < checks@.len() ==> (#[trigger] contents@[i] matches FileContent::Read(text)
                && contains_text(text@, checks@[i].pattern@)),
        agree <==> {
            &&& values.synthetic_prefix@ == seq![0xfdu8, 0x00, 0xab, 0xcd]
            &&& values.vip_discriminator@ == seq![0u8, 0, 0, 1]
            &&& values.if_id == 42
            &&& values.proxy_src_prefix@ == seq![0x20u8, 0x01, 0x0d, 0xb8]
        },
{
    let views = checks_view(checks@);
    law_no_failures_iff_all_agree(views, contents@);
    law_agreement_by_bytes(*values);
    assert(texts(failures@).len() == failures@.len());
    assert(forall|i: int|
        0 <= i < checks@.len() ==> (#[trigger] views[i]).pattern == checks@[i].pattern@);
}

} // verus!
