//! Turning device changes into command invocations: the fixed four-field
//! argument list, the runner's plan for it, the bootstrap replay for devices
//! already present at startup, and the processing of one hierarchy-change
//! notification.

use crate::device::class_of_code;
use crate::device::descriptor_from_device_info;
use crate::device::descriptor_from_hierarchy;
use crate::device::name_from_reply;
use crate::device::DeviceDescriptor;
use crate::device::DeviceInfoRecord;
use crate::device::DeviceTypeClass;
use crate::device::flag_of_bit;
use crate::device::HierarchyChangeFlag;
use crate::device::HierarchyEntry;
use crate::mask_iter::decomposition;
use crate::mask_iter::IterableMask;
use crate::text::dec_rep;
use crate::text::lossy_decoded;
use crate::text::u16_to_dec;
use vstd::prelude::*;

verus! {

/// The immutable configuration snapshot, built once at startup and only read
/// afterwards.
pub struct WatcherOptions {
    /// The external command to run once per discrete change.
    pub command: String,
    /// Trace every planned argv before running it.
    pub verbose: bool,
    /// Dry-run: plan and trace, but never spawn.
    pub no_act: bool,
    /// Stay in the foreground instead of daemonizing.
    pub foreground: bool,
    /// Replay synthetic events for devices present at startup.
    pub bootstrap: bool,
    /// Emit extra diagnostics.
    pub debug: bool,
    /// Where to record the process id after daemonizing, if anywhere.
    pub pidfile: Option<String>,
}

/// The ordered argument list handed to the external command: change-flag
/// label, device id as text, type label (possibly empty), device name
/// (possibly empty). The order is a contract and is never rearranged.
pub struct Invocation {
    pub change: String,
    pub id: String,
    pub device_type: String,
    pub name: String,
}

impl View for Invocation {
    type V = Seq<Seq<char>>;

    open spec fn view(&self) -> Seq<Seq<char>> {
        seq![self.change@, self.id@, self.device_type@, self.name@]
    }
}

/// The four fields an invocation carries for one change of one device.
pub open spec fn invocation_view(
    flag: HierarchyChangeFlag,
    id: u16,
    class: DeviceTypeClass,
    name: Seq<char>,
) -> Seq<Seq<char>> {
    seq![flag.spec_label(), dec_rep(id as nat), class.spec_label(), name]
}

impl Invocation {
    /// The four fields in their fixed order, exactly: flag, id, type, name.
    pub fn to_args(&self) -> (args: Vec<String>)
        ensures
            args@.len() == 4,
            args@.map_values(|a: String| a@) == self@,
    {
        let mut args: Vec<String> = Vec::new();
        args.push(self.change.clone());
        args.push(self.id.clone());
        args.push(self.device_type.clone());
        args.push(self.name.clone());
        proof {
            assert(args@.map_values(|a: String| a@) =~= self@);
        }
        args
    }
}

/// Format one invocation from a decomposed change flag and a resolved
/// descriptor. Pure composition; no I/O.
pub fn format_invocation(flag: HierarchyChangeFlag, desc: &DeviceDescriptor) -> (inv: Invocation)
    ensures
        inv@ == invocation_view(flag, desc.id, desc.class, desc.name@),
{
    let inv = Invocation {
        change: flag.label(),
        id: u16_to_dec(desc.id),
        device_type: desc.class.label(),
        name: desc.name.clone(),
    };
    proof {
        assert(inv@ =~= invocation_view(flag, desc.id, desc.class, desc.name@));
    }
    inv
}

/// What the command runner is to do for one invocation.
pub struct RunPlan {
    /// The full argument vector: the configured command, then the four
    /// invocation fields.
    pub argv: Vec<String>,
    /// Emit a trace of the argv before execution.
    pub trace: bool,
    /// Actually spawn the command and wait for it.
    pub spawn: bool,
}

/// The planned argv: the configured command followed by the invocation's
/// four fields.
pub open spec fn plan_argv(opt: WatcherOptions, inv: Invocation) -> Seq<Seq<char>> {
    seq![opt.command@] + inv@
}

/// Whether the runner traces the argv: exactly when verbose is on.
pub open spec fn plan_traces(opt: WatcherOptions) -> bool {
    opt.verbose
}

/// Whether the runner spawns the command: exactly when dry-run is off.
pub open spec fn plan_spawns(opt: WatcherOptions) -> bool {
    !opt.no_act
}

/// Decide what the runner does for one invocation: always the same argv,
/// traced when verbose, spawned unless dry-run.
pub fn plan_invocation(opt: &WatcherOptions, inv: &Invocation) -> (p: RunPlan)
    ensures
        p.argv@.map_values(|a: String| a@) == plan_argv(*opt, *inv),
        p.trace == plan_traces(*opt),
        p.spawn == plan_spawns(*opt),
{
    let mut argv: Vec<String> = Vec::new();
    argv.push(opt.command.clone());
    argv.push(inv.change.clone());
    argv.push(inv.id.clone());
    argv.push(inv.device_type.clone());
    argv.push(inv.name.clone());
    proof {
        assert(argv@.map_values(|a: String| a@) =~= plan_argv(*opt, *inv));
    }
    RunPlan { argv, trace: opt.verbose, spawn: !opt.no_act }
}

/// Law: dry-run changes nothing but the spawn. Two configurations that agree
/// on everything the plan reads, apart from the dry-run switch, plan the same
/// argv and the same trace decision; the dry-run one spawns nothing.
pub proof fn lemma_dry_run_same_trace(opt: WatcherOptions, dry: WatcherOptions, inv: Invocation)
    requires
        dry.command@ == opt.command@,
        dry.verbose == opt.verbose,
        dry.no_act == true,
    ensures
        plan_argv(dry, inv) == plan_argv(opt, inv),
        plan_traces(dry) == plan_traces(opt),
        !plan_spawns(dry),
{
    assert(plan_argv(dry, inv) =~= plan_argv(opt, inv));
}

/// The flags a bootstrap replay synthesizes for one device class: a master
/// is reported as added; a slave or floating slave as added, then enabled;
/// an unrecognized class contributes nothing.
pub open spec fn bootstrap_flags(class: DeviceTypeClass) -> Seq<HierarchyChangeFlag> {
    match class {
        DeviceTypeClass::MasterPointer | DeviceTypeClass::MasterKeyboard => seq![
            HierarchyChangeFlag::MasterAdded,
        ],
        DeviceTypeClass::SlavePointer | DeviceTypeClass::SlaveKeyboard
            | DeviceTypeClass::FloatingSlave => seq![
            HierarchyChangeFlag::SlaveAdded,
            HierarchyChangeFlag::DeviceEnabled,
        ],
        DeviceTypeClass::Unknown => Seq::empty(),
    }
}

/// The invocations one present device contributes to the bootstrap replay.
pub open spec fn bootstrap_views_of(rec: DeviceInfoRecord) -> Seq<Seq<Seq<char>>> {
    bootstrap_flags(class_of_code(rec.device_type)).map_values(
        |f: HierarchyChangeFlag|
            invocation_view(
                f,
                rec.deviceid,
                class_of_code(rec.device_type),
                lossy_decoded(rec.name@),
            ),
    )
}

/// The whole bootstrap replay, in device enumeration order.
pub open spec fn bootstrap_views(devs: Seq<DeviceInfoRecord>) -> Seq<Seq<Seq<char>>>
    decreases devs.len(),
{
    if devs.len() == 0 {
        Seq::empty()
    } else {
        bootstrap_views_of(devs[0]) + bootstrap_views(devs.drop_first())
    }
}

proof fn lemma_map_views_push(s0: Seq<Invocation>, s1: Seq<Invocation>, x: Invocation)
    requires
        s1 == s0.push(x),
    ensures
        s1.map_values(|v: Invocation| v@) == s0.map_values(|v: Invocation| v@).push(x@),
{
    assert(s1.map_values(|v: Invocation| v@) =~= s0.map_values(|v: Invocation| v@).push(x@));
}

/// Synthesize the bootstrap replay for the currently present devices,
/// preserving the enumeration order the transport reported.
#[verifier::loop_isolation(false)]
pub fn bootstrap_invocations(devs: &Vec<DeviceInfoRecord>) -> (out: Vec<Invocation>)
    ensures
        out@.map_values(|v: Invocation| v@) == bootstrap_views(devs@),
{
    let mut out: Vec<Invocation> = Vec::new();
    let mut i: usize = 0;
    proof {
        assert(devs@.skip(0) =~= devs@);
    }
    while i < devs.len()
        invariant
            i <= devs@.len(),
            out@.map_values(|v: Invocation| v@) + bootstrap_views(devs@.skip(i as int))
                == bootstrap_views(devs@),
        decreases devs@.len() - i,
    {
        let ghost rec = devs@[i as int];
        let ghost pre_views = out@.map_values(|v: Invocation| v@);
        proof {
            assert(devs@.skip(i as int)[0] == rec);
            assert(devs@.skip(i as int).drop_first() =~= devs@.skip(i as int + 1));
        }
        let desc = descriptor_from_device_info(&devs[i]);
        match desc.class {
            DeviceTypeClass::MasterPointer | DeviceTypeClass::MasterKeyboard => {
                let ghost out0 = out@;
                let inv = format_invocation(HierarchyChangeFlag::MasterAdded, &desc);
                out.push(inv);
                proof {
                    lemma_map_views_push(out0, out@, inv);
                    assert(bootstrap_views_of(rec) =~= seq![inv@]);
                    assert(out@.map_values(|v: Invocation| v@) + bootstrap_views(
                        devs@.skip(i as int + 1),
                    ) =~= pre_views + bootstrap_views(devs@.skip(i as int)));
                }
            },
            DeviceTypeClass::SlavePointer | DeviceTypeClass::SlaveKeyboard
                | DeviceTypeClass::FloatingSlave => {
                let ghost out0 = out@;
                let inv1 = format_invocation(HierarchyChangeFlag::SlaveAdded, &desc);
                out.push(inv1);
                proof {
                    lemma_map_views_push(out0, out@, inv1);
                }
                let ghost out1 = out@;
                let inv2 = format_invocation(HierarchyChangeFlag::DeviceEnabled, &desc);
                out.push(inv2);
                proof {
                    lemma_map_views_push(out1, out@, inv2);
                    assert(bootstrap_views_of(rec) =~= seq![inv1@, inv2@]);
                    assert(out@.map_values(|v: Invocation| v@) + bootstrap_views(
                        devs@.skip(i as int + 1),
                    ) =~= pre_views + bootstrap_views(devs@.skip(i as int)));
                }
            },
            DeviceTypeClass::Unknown => {
                proof {
                    assert(bootstrap_views_of(rec) =~= Seq::<Seq<Seq<char>>>::empty());
                    assert(out@.map_values(|v: Invocation| v@) + bootstrap_views(
                        devs@.skip(i as int + 1),
                    ) =~= pre_views + bootstrap_views(devs@.skip(i as int)));
                }
            },
        }
        i = i + 1;
    }
    proof {
        assert(devs@.skip(devs@.len() as int) =~= Seq::<DeviceInfoRecord>::empty());
        assert(out@.map_values(|v: Invocation| v@) =~= bootstrap_views(devs@));
    }
    out
}

/// The name used for one notification entry, given the optional device-query
/// reply obtained for it.
pub open spec fn entry_name(reply: Option<Seq<DeviceInfoRecord>>, id: u16) -> Seq<char> {
    match reply {
        Some(r) => name_from_reply(r, id),
        None => Seq::empty(),
    }
}

/// The spec view of an optional borrowed device-query reply.
pub open spec fn reply_view(reply: Option<&Vec<DeviceInfoRecord>>) -> Option<
    Seq<DeviceInfoRecord>,
> {
    match reply {
        Some(r) => Some(r@),
        None => None,
    }
}

/// The spec view of one stored optional device-query reply.
pub open spec fn stored_reply_view(r: Option<Vec<DeviceInfoRecord>>) -> Option<
    Seq<DeviceInfoRecord>,
> {
    match r {
        Some(v) => Some(v@),
        None => None,
    }
}

/// The invocation views produced by a sequence of decomposed mask bits, in
/// order: one per known change bit, unknown bits skipped.
pub open spec fn views_of_bits(
    bits: Seq<u32>,
    id: u16,
    class: DeviceTypeClass,
    name: Seq<char>,
) -> Seq<Seq<Seq<char>>>
    decreases bits.len(),
{
    if bits.len() == 0 {
        Seq::empty()
    } else {
        let rest = views_of_bits(bits.drop_first(), id, class, name);
        match flag_of_bit(bits[0]) {
            Some(f) => seq![invocation_view(f, id, class, name)] + rest,
            None => rest,
        }
    }
}

/// The invocations one notification entry produces: its change bitmask
/// decomposed from the highest bit down, each known flag formatted with the
/// entry's resolved descriptor.
pub open spec fn entry_views(e: HierarchyEntry, name: Seq<char>) -> Seq<Seq<Seq<char>>> {
    views_of_bits(decomposition(e.flags, 32), e.deviceid, class_of_code(e.device_type), name)
}

/// Decompose one entry's change bitmask and format one invocation per known
/// flag, strictly in mask order, all with the entry's resolved descriptor.
#[verifier::loop_isolation(false)]
pub fn entry_invocations(entry: &HierarchyEntry, reply: Option<&Vec<DeviceInfoRecord>>) -> (out:
    Vec<Invocation>)
    ensures
        out@.map_values(|v: Invocation| v@) == entry_views(
            *entry,
            entry_name(reply_view(reply), entry.deviceid),
        ),
{
    let desc = descriptor_from_hierarchy(entry, reply);
    let ghost name = desc.name@;
    let ghost class = class_of_code(entry.device_type);
    let mut mask = IterableMask::from_u32(entry.flags);
    let bits = mask.collect_remaining();
    let mut out: Vec<Invocation> = Vec::new();
    let mut i: usize = 0;
    proof {
        assert(bits@.skip(0) =~= bits@);
    }
    while i < bits.len()
        invariant
            i <= bits@.len(),
            out@.map_values(|v: Invocation| v@) + views_of_bits(
                bits@.skip(i as int),
                entry.deviceid,
                class,
                name,
            ) == views_of_bits(bits@, entry.deviceid, class, name),
        decreases bits@.len() - i,
    {
        let ghost pre_views = out@.map_values(|v: Invocation| v@);
        proof {
            assert(bits@.skip(i as int)[0] == bits@[i as int]);
            assert(bits@.skip(i as int).drop_first() =~= bits@.skip(i as int + 1));
        }
        match HierarchyChangeFlag::from_bit(bits[i]) {
            Some(flag) => {
                let ghost out0 = out@;
                let inv = format_invocation(flag, &desc);
                out.push(inv);
                proof {
                    lemma_map_views_push(out0, out@, inv);
                    assert(out@.map_values(|v: Invocation| v@) + views_of_bits(
                        bits@.skip(i as int + 1),
                        entry.deviceid,
                        class,
                        name,
                    ) =~= pre_views + views_of_bits(bits@.skip(i as int), entry.deviceid, class, name));
                }
            },
            None => {
                proof {
                    assert(out@.map_values(|v: Invocation| v@) + views_of_bits(
                        bits@.skip(i as int + 1),
                        entry.deviceid,
                        class,
                        name,
                    ) =~= pre_views + views_of_bits(bits@.skip(i as int), entry.deviceid, class, name));
                }
            },
        }
        i = i + 1;
    }
    proof {
        assert(bits@.skip(bits@.len() as int) =~= Seq::<u32>::empty());
        assert(out@.map_values(|v: Invocation| v@) =~= views_of_bits(
            bits@,
            entry.deviceid,
            class,
            name,
        ));
    }
    out
}

/// The wire code of a generic extension event.
pub const GENERIC_EVENT_CODE: u8 = 35;

/// One hierarchy-change notification as received from the transport: the
/// wire event type, the extension that sent it, and its device entries.
pub struct Notification {
    pub response_type: u8,
    pub extension_opcode: u8,
    pub entries: Vec<HierarchyEntry>,
}

/// Whether a received event belongs to the watcher: it must be a generic
/// extension event and carry the probed extension's opcode; anything else,
/// including another extension reusing the generic event type, is discarded.
pub fn should_dispatch(response_type: u8, extension_opcode: u8, probed_opcode: u8) -> (b: bool)
    ensures
        b == (response_type == GENERIC_EVENT_CODE && extension_opcode == probed_opcode),
{
    response_type == GENERIC_EVENT_CODE && extension_opcode == probed_opcode
}

/// The invocations a run of entries produces, in reported order, with
/// `replies[k]` the device-query reply obtained for `entries[k]`.
pub open spec fn entries_views(
    entries: Seq<HierarchyEntry>,
    replies: Seq<Option<Vec<DeviceInfoRecord>>>,
) -> Seq<Seq<Seq<char>>>
    decreases entries.len(),
{
    if entries.len() == 0 {
        Seq::empty()
    } else {
        entry_views(entries[0], entry_name(stored_reply_view(replies[0]), entries[0].deviceid))
            + entries_views(entries.drop_first(), replies.drop_first())
    }
}

/// What one notification produces: nothing for a foreign or non-generic
/// event, otherwise every entry's invocations in reported order.
pub open spec fn notification_views(
    n: Notification,
    probed_opcode: u8,
    replies: Seq<Option<Vec<DeviceInfoRecord>>>,
) -> Seq<Seq<Seq<char>>> {
    if n.response_type == GENERIC_EVENT_CODE && n.extension_opcode == probed_opcode {
        entries_views(n.entries@, replies)
    } else {
        Seq::empty()
    }
}

proof fn lemma_map_views_concat(a: Seq<Invocation>, b: Seq<Invocation>)
    ensures
        (a + b).map_values(|v: Invocation| v@) == a.map_values(|v: Invocation| v@) + b.map_values(
            |v: Invocation| v@,
        ),
{
    assert((a + b).map_values(|v: Invocation| v@) =~= a.map_values(|v: Invocation| v@)
        + b.map_values(|v: Invocation| v@));
}

/// Process one notification. A notification whose event type is not the
/// generic code, or whose extension id does not match the probed opcode,
/// produces zero invocations; otherwise entries and their decomposed flags
/// are processed strictly in the order the transport reported them.
#[verifier::loop_isolation(false)]
pub fn notification_invocations(
    n: &Notification,
    probed_opcode: u8,
    replies: &Vec<Option<Vec<DeviceInfoRecord>>>,
) -> (out: Vec<Invocation>)
    requires
        replies@.len() == n.entries@.len(),
    ensures
        out@.map_values(|v: Invocation| v@) == notification_views(*n, probed_opcode, replies@),
        !(n.response_type == GENERIC_EVENT_CODE && n.extension_opcode == probed_opcode)
            ==> out@.len() == 0,
{
    if !should_dispatch(n.response_type, n.extension_opcode, probed_opcode) {
        let out: Vec<Invocation> = Vec::new();
        proof {
            assert(out@.map_values(|v: Invocation| v@) =~= Seq::<Seq<Seq<char>>>::empty());
        }
        return out;
    }
    let mut out: Vec<Invocation> = Vec::new();
    let mut k: usize = 0;
    proof {
        assert(n.entries@.skip(0) =~= n.entries@);
        assert(replies@.skip(0) =~= replies@);
    }
    while k < n.entries.len()
        invariant
            k <= n.entries@.len(),
            out@.map_values(|v: Invocation| v@) + entries_views(
                n.entries@.skip(k as int),
                replies@.skip(k as int),
            ) == entries_views(n.entries@, replies@),
        decreases n.entries@.len() - k,
    {
        let ghost pre_views = out@.map_values(|v: Invocation| v@);
        proof {
            assert(n.entries@.skip(k as int)[0] == n.entries@[k as int]);
            assert(replies@.skip(k as int)[0] == replies@[k as int]);
            assert(n.entries@.skip(k as int).drop_first() =~= n.entries@.skip(k as int + 1));
            assert(replies@.skip(k as int).drop_first() =~= replies@.skip(k as int + 1));
        }
        let reply_ref: Option<&Vec<DeviceInfoRecord>> = match &replies[k] {
            Some(r) => Some(r),
            None => None,
        };
        let mut part = entry_invocations(&n.entries[k], reply_ref);
        let ghost out0 = out@;
        let ghost part0 = part@;
        out.append(&mut part);
        proof {
            lemma_map_views_concat(out0, part0);
            assert(out@.map_values(|v: Invocation| v@) + entries_views(
                n.entries@.skip(k as int + 1),
                replies@.skip(k as int + 1),
            ) =~= pre_views + entries_views(n.entries@.skip(k as int), replies@.skip(k as int)));
        }
        k = k + 1;
    }
    proof {
        assert(n.entries@.skip(n.entries@.len() as int) =~= Seq::<HierarchyEntry>::empty());
        assert(out@.map_values(|v: Invocation| v@) =~= entries_views(n.entries@, replies@));
    }
    out
}

} // verus!
