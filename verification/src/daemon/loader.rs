//! What is loaded and attached where.

use vstd::prelude::*;

use crate::types::ProxySrcKey;

verus! {

/// Where the maps are pinned.
pub const BPF_PIN_PATH: &'static str = "/sys/fs/bpf/prototype_net";

/// The slot of the active key.
pub const ACTIVE_KEY_SLOT: u32 = 0;

/// The slot of the previous key. The data plane keeps it but does not decode with it.
pub const PREVIOUS_KEY_SLOT: u32 = 1;

/// Which of the two interfaces.
#[derive(Clone, Copy, PartialEq, Eq, Structural, Debug)]
pub enum Side {
    /// The tunnel to the clients.
    Tunnel,
    /// The way to the origins.
    Wan,
}

/// The programs of the data plane.
#[derive(Clone, Copy, PartialEq, Eq, Structural, Debug)]
pub enum Program {
    TcIngress,
    TcIngressWan,
    XdpWan,
}

/// One step of loading the data plane. A step that fails ends the loading, unless it says
/// otherwise.
#[derive(Clone, Copy)]
pub enum LoadStep {
    /// Create the directory for pinned maps.
    CreatePinDir,
    /// Add a classifier queue to an interface. A failure is ignored: it may be there already.
    AddQueue(Side),
    /// Load a program and attach it to the ingress of an interface.
    Attach { program: Program, side: Side },
    /// Tell the data plane the index of the tunnel interface.
    WriteTunnelIndex,
    /// Write a key into a key slot.
    WriteKey { slot: u32, key: ProxySrcKey },
    /// Find the WAN interface's address and tell it to the data plane.
    WriteWanAddr,
}

/// The steps that do not depend on the configuration.
pub open spec fn attach_steps() -> Seq<LoadStep> {
    seq![
        LoadStep::CreatePinDir,
        LoadStep::AddQueue(Side::Tunnel),
        LoadStep::Attach { program: Program::TcIngress, side: Side::Tunnel },
        LoadStep::AddQueue(Side::Wan),
        LoadStep::Attach { program: Program::TcIngressWan, side: Side::Wan },
        LoadStep::Attach { program: Program::XdpWan, side: Side::Wan },
        LoadStep::WriteTunnelIndex,
    ]
}

/// All steps of loading the data plane.
pub open spec fn load_steps(active: ProxySrcKey, previous: Option<ProxySrcKey>, dev: bool) -> Seq<
    LoadStep,
> {
    let write_active = seq![LoadStep::WriteKey { slot: ACTIVE_KEY_SLOT, key: active }];
    let write_previous = match previous {
        Some(key) => seq![LoadStep::WriteKey { slot: PREVIOUS_KEY_SLOT, key }],
        None => Seq::empty(),
    };
    let write_wan = if dev {
        seq![LoadStep::WriteWanAddr]
    } else {
        Seq::empty()
    };
    attach_steps() + write_active + write_previous + write_wan
}

/// List the steps of loading the data plane and attaching it to its interfaces.
pub fn load_and_attach(
    active: ProxySrcKey,
    previous: Option<ProxySrcKey>,
    dev: bool,
) -> (steps: Vec<LoadStep>)
    ensures
        steps@ == load_steps(active, previous, dev),
{
    let mut steps: Vec<LoadStep> = Vec::new();
    steps.push(LoadStep::CreatePinDir);
    steps.push(LoadStep::AddQueue(Side::Tunnel));
    steps.push(LoadStep::Attach { program: Program::TcIngress, side: Side::Tunnel });
    steps.push(LoadStep::AddQueue(Side::Wan));
    steps.push(LoadStep::Attach { program: Program::TcIngressWan, side: Side::Wan });
    steps.push(LoadStep::Attach { program: Program::XdpWan, side: Side::Wan });
    steps.push(LoadStep::WriteTunnelIndex);
    steps.push(LoadStep::WriteKey { slot: ACTIVE_KEY_SLOT, key: active });
    if let Some(key) = previous {
        steps.push(LoadStep::WriteKey { slot: PREVIOUS_KEY_SLOT, key });
    }
    if dev {
        steps.push(LoadStep::WriteWanAddr);
    }
    assert(steps@ =~= load_steps(active, previous, dev));
    steps
}

/// Whatever is configured, nothing but the active key is written to the slot that the data
/// plane encodes and decodes with.
pub proof fn law_active_slot_holds_active_key(
    active: ProxySrcKey,
    previous: Option<ProxySrcKey>,
    dev: bool,
)
    ensures
        load_steps(active, previous, dev).contains(
            LoadStep::WriteKey { slot: ACTIVE_KEY_SLOT, key: active },
        ),
        forall|i: int|
            0 <= i < load_steps(active, previous, dev).len() ==> (#[trigger] load_steps(
                active,
                previous,
                dev,
            )[i] matches LoadStep::WriteKey { slot, key } ==> slot == ACTIVE_KEY_SLOT ==> key
                == active),
{
    assert(load_steps(active, previous, dev)[7] == LoadStep::WriteKey {
        slot: ACTIVE_KEY_SLOT,
        key: active,
    });
}

/// What is loaded, step by step: the pin directory before all; a queue on each side before
/// the program that needs it; the packet filter on the WAN side; the tunnel index; then the
/// keys, the active one in slot 0 and a previous one in slot 1; and the WAN address in
/// development mode, last. There are no other steps.
pub proof fn law_load_steps_by_position(
    active: ProxySrcKey,
    previous: Option<ProxySrcKey>,
    dev: bool,
)
    ensures
        ({
            let steps = load_steps(active, previous, dev);
            &&& steps[0] is CreatePinDir
            &&& steps[1] == LoadStep::AddQueue(Side::Tunnel)
            &&& steps[2] == (LoadStep::Attach { program: Program::TcIngress, side: Side::Tunnel })
            &&& steps[3] == LoadStep::AddQueue(Side::Wan)
            &&& steps[4] == (LoadStep::Attach { program: Program::TcIngressWan, side: Side::Wan })
            &&& steps[5] == (LoadStep::Attach { program: Program::XdpWan, side: Side::Wan })
            &&& steps[6] is WriteTunnelIndex
            &&& steps[7] == (LoadStep::WriteKey { slot: 0, key: active })
            &&& previous matches Some(key) ==> steps[8] == (LoadStep::WriteKey { slot: 1, key })
            &&& dev ==> steps[steps.len() - 1] is WriteWanAddr
            &&& steps.len() == 8 + (if previous is Some {
                1int
            } else {
                0
            }) + (if dev {
                1int
            } else {
                0
            })
        }),
{
}

/// The list of steps begins with the pin directory, writes the active key to slot 0 and a
/// previous key to slot 1, and has no steps but those that are due.
pub proof fn law_listed_steps_by_position(
    active: ProxySrcKey,
    previous: Option<ProxySrcKey>,
    dev: bool,
    steps: Vec<LoadStep>,
)
    requires
        call_ensures(load_and_attach, (active, previous, dev), steps),
    ensures
        steps@[0] is CreatePinDir,
        steps@[2] == (LoadStep::Attach { program: Program::TcIngress, side: Side::Tunnel }),
        steps@[4] == (LoadStep::Attach { program: Program::TcIngressWan, side: Side::Wan }),
        steps@[5] == (LoadStep::Attach { program: Program::XdpWan, side: Side::Wan }),
        steps@[7] == (LoadStep::WriteKey { slot: 0, key: active }),
        previous matches Some(key) ==> steps@[8] == (LoadStep::WriteKey { slot: 1, key }),
        dev ==> steps@[steps@.len() - 1] is WriteWanAddr,
        steps@.len() == 8 + (if previous is Some {
            1int
        } else {
            0
        }) + (if dev {
            1int
        } else {
            0
        }),
{
    law_load_steps_by_position(active, previous, dev);
}

} // verus!
