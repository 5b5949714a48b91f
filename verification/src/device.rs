//! Device descriptors: classifying a raw device-type code, naming a change
//! flag, and resolving the display name of a device from the records the
//! transport reports.

use crate::text::decode_lossy;
use crate::text::lossy_decoded;
use vstd::prelude::*;

verus! {

/// The classification of one input device, as the protocol encodes it:
/// virtual master devices, physical slave devices, or an unrecognized code.
#[derive(Clone, Copy, PartialEq, Eq, Debug, Structural)]
pub enum DeviceTypeClass {
    MasterPointer,
    MasterKeyboard,
    SlavePointer,
    SlaveKeyboard,
    FloatingSlave,
    Unknown,
}

/// The class denoted by a raw device-type code. A code outside the known
/// range degrades to `Unknown`; it never fails.
pub open spec fn class_of_code(code: u16) -> DeviceTypeClass {
    if code == 1 {
        DeviceTypeClass::MasterPointer
    } else if code == 2 {
        DeviceTypeClass::MasterKeyboard
    } else if code == 3 {
        DeviceTypeClass::SlavePointer
    } else if code == 4 {
        DeviceTypeClass::SlaveKeyboard
    } else if code == 5 {
        DeviceTypeClass::FloatingSlave
    } else {
        DeviceTypeClass::Unknown
    }
}

impl DeviceTypeClass {
    /// Classify a raw device-type code, tolerantly.
    pub fn from_code(code: u16) -> (c: Self)
        ensures
            c == class_of_code(code),
    {
        if code == 1 {
            DeviceTypeClass::MasterPointer
        } else if code == 2 {
            DeviceTypeClass::MasterKeyboard
        } else if code == 3 {
            DeviceTypeClass::SlavePointer
        } else if code == 4 {
            DeviceTypeClass::SlaveKeyboard
        } else if code == 5 {
            DeviceTypeClass::FloatingSlave
        } else {
            DeviceTypeClass::Unknown
        }
    }

    /// The textual tag of the class; empty for an unrecognized code.
    pub open spec fn spec_label(self) -> Seq<char> {
        match self {
            DeviceTypeClass::MasterPointer => "XIMasterPointer"@,
            DeviceTypeClass::MasterKeyboard => "XIMasterKeyboard"@,
            DeviceTypeClass::SlavePointer => "XISlavePointer"@,
            DeviceTypeClass::SlaveKeyboard => "XISlaveKeyboard"@,
            DeviceTypeClass::FloatingSlave => "XIFloatingSlave"@,
            DeviceTypeClass::Unknown => Seq::empty(),
        }
    }

    /// Render the textual tag of the class.
    pub fn label(&self) -> (s: String)
        ensures
            s@ == self.spec_label(),
    {
        match self {
            DeviceTypeClass::MasterPointer => "XIMasterPointer".to_owned(),
            DeviceTypeClass::MasterKeyboard => "XIMasterKeyboard".to_owned(),
            DeviceTypeClass::SlavePointer => "XISlavePointer".to_owned(),
            DeviceTypeClass::SlaveKeyboard => "XISlaveKeyboard".to_owned(),
            DeviceTypeClass::FloatingSlave => "XIFloatingSlave".to_owned(),
            DeviceTypeClass::Unknown => String::new(),
        }
    }
}

/// Law: a raw device-type code outside the known range resolves to the
/// `Unknown` class, whose label is the empty string; classification is total
/// and never aborts the watcher.
pub proof fn lemma_unknown_code_empty_label(code: u16)
    requires
        !(1 <= code <= 5),
    ensures
        class_of_code(code) == DeviceTypeClass::Unknown,
        class_of_code(code).spec_label() == Seq::<char>::empty(),
{
}

/// One discrete hierarchy change, one bit position each in the notification
/// bitmask.
#[derive(Clone, Copy, PartialEq, Eq, Debug, Structural)]
pub enum HierarchyChangeFlag {
    MasterAdded,
    MasterRemoved,
    SlaveAdded,
    SlaveRemoved,
    SlaveAttached,
    SlaveDetached,
    DeviceEnabled,
    DeviceDisabled,
}

/// The change flag carried by one single-bit mask value, if the bit is a
/// known hierarchy-change bit.
pub open spec fn flag_of_bit(bit: u32) -> Option<HierarchyChangeFlag> {
    if bit == 0x01 {
        Some(HierarchyChangeFlag::MasterAdded)
    } else if bit == 0x02 {
        Some(HierarchyChangeFlag::MasterRemoved)
    } else if bit == 0x04 {
        Some(HierarchyChangeFlag::SlaveAdded)
    } else if bit == 0x08 {
        Some(HierarchyChangeFlag::SlaveRemoved)
    } else if bit == 0x10 {
        Some(HierarchyChangeFlag::SlaveAttached)
    } else if bit == 0x20 {
        Some(HierarchyChangeFlag::SlaveDetached)
    } else if bit == 0x40 {
        Some(HierarchyChangeFlag::DeviceEnabled)
    } else if bit == 0x80 {
        Some(HierarchyChangeFlag::DeviceDisabled)
    } else {
        None
    }
}

impl HierarchyChangeFlag {
    /// The flag for one single-bit mask value, or `None` for a bit the
    /// protocol does not define.
    pub fn from_bit(bit: u32) -> (f: Option<Self>)
        ensures
            f == flag_of_bit(bit),
    {
        if bit == 0x01 {
            Some(HierarchyChangeFlag::MasterAdded)
        } else if bit == 0x02 {
            Some(HierarchyChangeFlag::MasterRemoved)
        } else if bit == 0x04 {
            Some(HierarchyChangeFlag::SlaveAdded)
        } else if bit == 0x08 {
            Some(HierarchyChangeFlag::SlaveRemoved)
        } else if bit == 0x10 {
            Some(HierarchyChangeFlag::SlaveAttached)
        } else if bit == 0x20 {
            Some(HierarchyChangeFlag::SlaveDetached)
        } else if bit == 0x40 {
            Some(HierarchyChangeFlag::DeviceEnabled)
        } else if bit == 0x80 {
            Some(HierarchyChangeFlag::DeviceDisabled)
        } else {
            None
        }
    }

    /// The textual tag of the change, the first field of every invocation.
    pub open spec fn spec_label(self) -> Seq<char> {
        match self {
            HierarchyChangeFlag::MasterAdded => "XIMasterAdded"@,
            HierarchyChangeFlag::MasterRemoved => "XIMasterRemoved"@,
            HierarchyChangeFlag::SlaveAdded => "XISlaveAdded"@,
            HierarchyChangeFlag::SlaveRemoved => "XISlaveRemoved"@,
            HierarchyChangeFlag::SlaveAttached => "XISlaveAttached"@,
            HierarchyChangeFlag::SlaveDetached => "XISlaveDetached"@,
            HierarchyChangeFlag::DeviceEnabled => "XIDeviceEnabled"@,
            HierarchyChangeFlag::DeviceDisabled => "XIDeviceDisabled"@,
        }
    }

    /// Render the textual tag of the change.
    pub fn label(&self) -> (s: String)
        ensures
            s@ == self.spec_label(),
    {
        match self {
            HierarchyChangeFlag::MasterAdded => "XIMasterAdded".to_owned(),
            HierarchyChangeFlag::MasterRemoved => "XIMasterRemoved".to_owned(),
            HierarchyChangeFlag::SlaveAdded => "XISlaveAdded".to_owned(),
            HierarchyChangeFlag::SlaveRemoved => "XISlaveRemoved".to_owned(),
            HierarchyChangeFlag::SlaveAttached => "XISlaveAttached".to_owned(),
            HierarchyChangeFlag::SlaveDetached => "XISlaveDetached".to_owned(),
            HierarchyChangeFlag::DeviceEnabled => "XIDeviceEnabled".to_owned(),
            HierarchyChangeFlag::DeviceDisabled => "XIDeviceDisabled".to_owned(),
        }
    }
}

/// One device record as a full device query reports it: identifier, raw type
/// code, and the embedded name bytes.
pub struct DeviceInfoRecord {
    pub deviceid: u16,
    pub device_type: u16,
    pub name: Vec<u8>,
}

/// One entry of a hierarchy-change notification: identifier, raw type code,
/// and the bitmask of changes for this device. The name is not embedded.
pub struct HierarchyEntry {
    pub deviceid: u16,
    pub device_type: u16,
    pub flags: u32,
}

/// A resolved device: identifier, classification, and display name.
pub struct DeviceDescriptor {
    pub id: u16,
    pub class: DeviceTypeClass,
    pub name: String,
}

/// The name a device-query reply gives for a device: the decoded name of the
/// first record with a matching identifier, or empty if none matches.
pub open spec fn name_from_reply(infos: Seq<DeviceInfoRecord>, id: u16) -> Seq<char>
    decreases infos.len(),
{
    if infos.len() == 0 {
        Seq::empty()
    } else if infos[0].deviceid == id {
        lossy_decoded(infos[0].name@)
    } else {
        name_from_reply(infos.drop_first(), id)
    }
}

/// Scan a device-query reply for `id` and decode the matching record's name;
/// no match yields the empty string, never an error.
#[verifier::loop_isolation(false)]
pub fn resolve_name(infos: &Vec<DeviceInfoRecord>, id: u16) -> (s: String)
    ensures
        s@ == name_from_reply(infos@, id),
{
    let mut i: usize = 0;
    proof {
        assert(infos@.skip(0) =~= infos@);
    }
    loop
        invariant
            i <= infos@.len(),
            name_from_reply(infos@.skip(i as int), id) == name_from_reply(infos@, id),
        decreases infos@.len() - i,
    {
        if i == infos.len() {
            proof {
                assert(infos@.skip(i as int) =~= Seq::<DeviceInfoRecord>::empty());
            }
            return String::new();
        }
        proof {
            assert(infos@.skip(i as int)[0] == infos@[i as int]);
        }
        if infos[i].deviceid == id {
            return decode_lossy(&infos[i].name);
        }
        proof {
            assert(infos@.skip(i as int).drop_first() =~= infos@.skip(i as int + 1));
        }
        i = i + 1;
    }
}

/// Resolve a full device-info record: identifier, type code and name are all
/// embedded; the name bytes are decoded permissively.
pub fn descriptor_from_device_info(rec: &DeviceInfoRecord) -> (d: DeviceDescriptor)
    ensures
        d.id == rec.deviceid,
        d.class == class_of_code(rec.device_type),
        d.name@ == lossy_decoded(rec.name@),
{
    DeviceDescriptor {
        id: rec.deviceid,
        class: DeviceTypeClass::from_code(rec.device_type),
        name: decode_lossy(&rec.name),
    }
}

/// Resolve a hierarchy-change entry. The name comes from a separate device
/// query; a failed query (`None`) or an unmatched reply degrades to an empty
/// name rather than an error.
pub fn descriptor_from_hierarchy(entry: &HierarchyEntry, reply: Option<&Vec<DeviceInfoRecord>>) -> (d:
    DeviceDescriptor)
    ensures
        d.id == entry.deviceid,
        d.class == class_of_code(entry.device_type),
        match reply {
            Some(r) => d.name@ == name_from_reply(r@, entry.deviceid),
            None => d.name@ == Seq::<char>::empty(),
        },
{
    let name = match reply {
        Some(r) => resolve_name(r, entry.deviceid),
        None => String::new(),
    };
    DeviceDescriptor {
        id: entry.deviceid,
        class: DeviceTypeClass::from_code(entry.device_type),
        name,
    }
}

} // verus!
