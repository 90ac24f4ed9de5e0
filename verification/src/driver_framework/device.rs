//! What a device is to the kernel: its identity, the resources it exposes and
//! the capabilities found in its configuration space.

use vstd::prelude::*;
use vstd::string::*;
use crate::text::{hex_byte, push_hex_byte};

verus! {

/// What kind of resource a device exposes.
#[derive(Debug, Clone, Copy, PartialEq, Eq, Structural)]
pub enum ResourceKind {
    MemoryMapped,
    IO,
    Interrupt(u8),
    /// Message-signalled interrupts: `vectors` messages, written as
    /// `msg_data` to the address `msg_addr`.
    Msi { vectors: u8, addr64: bool, maskable: bool, msg_addr: u64, msg_data: u16 },
    /// Extended message-signalled interrupts: a table of `table_size`
    /// entries at `table_offset` in the memory window `table_bar`.
    Msix {
        table_bar: u8,
        table_offset: u32,
        table_size: u16,
        table_present: bool,
        first_entry_masked: bool,
    },
}

/// One resource of a device: a window of memory or ports, an interrupt line
/// or a message-signalled interrupt block.
#[derive(Debug, Clone, Copy, PartialEq, Eq, Structural)]
pub struct Resource {
    pub kind: ResourceKind,
    pub addr: u64,
    pub len: u64,
}

/// One entry of a PCI capability list.
#[derive(Debug, Clone, Copy, PartialEq, Eq, Structural)]
pub enum Capability {
    PowerManagement { pm_cap: u16, pmcsr: u16 },
    PciExpress { header: u32, device_cap: u32 },
    Other { id: u8, raw0: u32, raw1: u32 },
}

/// Everything known about one device.
#[derive(Debug)]
pub struct DeviceInfo {
    pub vendor_id: u16,
    pub device_id: u16,
    pub class: u8,
    pub subclass: u8,
    pub prog_if: u8,
    pub resources: Vec<Resource>,
    pub capabilities: Vec<Capability>,
    pub description: String,
}

/// The mathematical content of a [`DeviceInfo`].
pub struct DeviceInfoView {
    pub vendor_id: u16,
    pub device_id: u16,
    pub class: u8,
    pub subclass: u8,
    pub prog_if: u8,
    pub resources: Seq<Resource>,
    pub capabilities: Seq<Capability>,
    pub description: Seq<char>,
}

impl View for DeviceInfo {
    type V = DeviceInfoView;

    open spec fn view(&self) -> DeviceInfoView {
        DeviceInfoView {
            vendor_id: self.vendor_id,
            device_id: self.device_id,
            class: self.class,
            subclass: self.subclass,
            prog_if: self.prog_if,
            resources: self.resources@,
            capabilities: self.capabilities@,
            description: self.description@,
        }
    }
}

impl Clone for DeviceInfo {
    fn clone(&self) -> (r: DeviceInfo)
        ensures
            r@ == self@,
    {
        DeviceInfo {
            vendor_id: self.vendor_id,
            device_id: self.device_id,
            class: self.class,
            subclass: self.subclass,
            prog_if: self.prog_if,
            resources: self.resources.clone(),
            capabilities: self.capabilities.clone(),
            description: self.description.clone(),
        }
    }
}

/// A registered device: its registry identity and what is known about it.
pub struct Device {
    pub id: usize,
    pub info: DeviceInfo,
}

/// How drivers are handed a device.
pub type DeviceHandle = Box<Device>;

/// Whether `r` describes a message-signalled interrupt block.
pub open spec fn is_msi(r: Resource) -> bool {
    r.kind is Msi
}

/// Whether `r` describes an extended message-signalled interrupt block.
pub open spec fn is_msix(r: Resource) -> bool {
    r.kind is Msix
}

impl Device {
    /// The device with the identity `id` and the description `info`.
    pub fn new(id: usize, info: DeviceInfo) -> (d: Device)
        ensures
            d.id == id,
            d.info == info,
    {
        Device { id, info }
    }

    /// The identity of the device.
    pub fn id(&self) -> (id: usize)
        ensures
            id == self.id,
    {
        self.id
    }

    /// A copy of what is known about the device.
    pub fn info(&self) -> (info: DeviceInfo)
        ensures
            info@ == self.info@,
    {
        self.info.clone()
    }

    /// The device's MSI resources, in the order they were found.
    pub fn msi_resources(&self) -> (found: Vec<Resource>)
        ensures
            found@ == self.info.resources@.filter(|r: Resource| is_msi(r)),
    {
        let mut found: Vec<Resource> = Vec::new();
        let mut i: usize = 0;
        while i < self.info.resources.len()
            invariant
                i <= self.info.resources.len(),
                found@ == self.info.resources@.take(i as int).filter(|r: Resource| is_msi(r)),
            decreases self.info.resources.len() - i,
        {
            let r = self.info.resources[i];
            proof {
                let s = self.info.resources@;
                assert(s.take(i as int + 1) =~= s.take(i as int).push(s[i as int]));
                lemma_filter_push(s.take(i as int), s[i as int], |r: Resource| is_msi(r));
            }
            match r.kind {
                ResourceKind::Msi { .. } => {
                    found.push(r);
                },
                _ => {},
            }
            i += 1;
        }
        assert(self.info.resources@.take(i as int) =~= self.info.resources@);
        found
    }

    /// The device's MSI-X resources, in the order they were found.
    pub fn msix_resources(&self) -> (found: Vec<Resource>)
        ensures
            found@ == self.info.resources@.filter(|r: Resource| is_msix(r)),
    {
        let mut found: Vec<Resource> = Vec::new();
        let mut i: usize = 0;
        while i < self.info.resources.len()
            invariant
                i <= self.info.resources.len(),
                found@ == self.info.resources@.take(i as int).filter(|r: Resource| is_msix(r)),
            decreases self.info.resources.len() - i,
        {
            let r = self.info.resources[i];
            proof {
                let s = self.info.resources@;
                assert(s.take(i as int + 1) =~= s.take(i as int).push(s[i as int]));
                lemma_filter_push(s.take(i as int), s[i as int], |r: Resource| is_msix(r));
            }
            match r.kind {
                ResourceKind::Msix { .. } => {
                    found.push(r);
                },
                _ => {},
            }
            i += 1;
        }
        assert(self.info.resources@.take(i as int) =~= self.info.resources@);
        found
    }
}

/// Filtering a sequence with one more element keeps or drops that element
/// and leaves the rest of the result as it was.
pub proof fn lemma_filter_push<A>(s: Seq<A>, x: A, keep: spec_fn(A) -> bool)
    ensures
        s.push(x).filter(keep) == if keep(x) {
            s.filter(keep).push(x)
        } else {
            s.filter(keep)
        },
{
    reveal(Seq::filter);
    assert(s.push(x).drop_last() =~= s);
}

/// The name of a PCI class, subclass and programming interface in words.
/// Combinations without a name of their own are named by their class and
/// the number of what is not known, in two hexadecimal digits.
pub open spec fn class_name(class: u8, subclass: u8, prog_if: u8) -> Seq<char> {
    if class == 0x00 {
        if subclass == 0x00 {
            "Unclassified: Non-VGA-compatible device"@
        } else if subclass == 0x01 {
            "Unclassified: VGA-compatible device"@
        } else {
            "Unclassified subclass 0x"@ + hex_byte(subclass)
        }
    } else if class == 0x01 {
        if subclass == 0x00 {
            "Mass Storage: SCSI"@
        } else if subclass == 0x01 {
            "Mass Storage: IDE"@
        } else if subclass == 0x02 {
            "Mass Storage: Floppy"@
        } else if subclass == 0x06 {
            if prog_if == 0x00 {
                "Mass Storage: SATA (vendor/legacy)"@
            } else if prog_if == 0x01 {
                "Mass Storage: SATA (AHCI)"@
            } else {
                "Mass Storage: SATA prog-if 0x"@ + hex_byte(prog_if)
            }
        } else {
            "Mass Storage subclass 0x"@ + hex_byte(subclass)
        }
    } else if class == 0x02 {
        if subclass == 0x00 {
            if prog_if == 0x00 {
                "Ethernet: Ethernet controller"@
            } else if prog_if == 0x01 {
                "Ethernet: IEEE 802.3u (100BASE-TX)"@
            } else if prog_if == 0x02 {
                "Ethernet: IEEE 802.3ab (1000BASE-T)"@
            } else {
                "Ethernet: other/prog-if"@
            }
        } else if subclass == 0x80 {
            "Network: Other"@
        } else {
            "Network subclass 0x"@ + hex_byte(subclass)
        }
    } else if class == 0x03 {
        if subclass == 0x00 {
            if prog_if == 0x01 {
                "Display: 3D controller (OpenGL)"@
            } else {
                "Display: VGA-compatible controller"@
            }
        } else if subclass == 0x80 {
            "Display: Other"@
        } else {
            "Display subclass 0x"@ + hex_byte(subclass)
        }
    } else if class == 0x04 {
        if subclass == 0x00 {
            "Multimedia: Video"@
        } else if subclass == 0x01 {
            "Multimedia: Audio"@
        } else {
            "Multimedia subclass 0x"@ + hex_byte(subclass)
        }
    } else if class == 0x05 {
        "Memory Controller"@
    } else if class == 0x06 {
        if subclass == 0x00 {
            "Bridge: Host"@
        } else if subclass == 0x01 {
            "Bridge: ISA"@
        } else if subclass == 0x04 {
            "Bridge: PCI-to-PCI"@
        } else {
            "Bridge subclass 0x"@ + hex_byte(subclass)
        }
    } else if class == 0x07 {
        "Simple Communication Controller"@
    } else if class == 0x08 {
        "Base System Peripheral"@
    } else if class == 0x09 {
        "Input Device"@
    } else if class == 0x0A {
        "Docking Station"@
    } else if class == 0x0B {
        "Processor"@
    } else if class == 0x0C {
        if subclass == 0x03 {
            if prog_if == 0x00 {
                "USB: UHCI (Universal Host Controller)"@
            } else if prog_if == 0x10 {
                "USB: OHCI (Open Host Controller)"@
            } else if prog_if == 0x20 {
                "USB: EHCI (Enhanced Host Controller)"@
            } else if prog_if == 0x30 {
                "USB: XHCI (Extensible Host Controller)"@
            } else {
                "USB: other/prog-if"@
            }
        } else if subclass == 0x05 {
            "Serial Bus: SMBus"@
        } else {
            "Serial Bus subclass 0x"@ + hex_byte(subclass)
        }
    } else if class == 0xFF {
        "Unknown / Vendor-specific"@
    } else {
        "Class 0x"@ + hex_byte(class) + " subclass 0x"@ + hex_byte(subclass)
    }
}

/// The name of a PCI class, subclass and programming interface in words.
pub fn class_subclass_to_string(class: u8, subclass: u8, prog_if: u8) -> (name: String)
    ensures
        name@ == class_name(class, subclass, prog_if),
{
    if class == 0x00 {
        if subclass == 0x00 {
            String::from_str("Unclassified: Non-VGA-compatible device")
        } else if subclass == 0x01 {
            String::from_str("Unclassified: VGA-compatible device")
        } else {
            {
                let mut s = String::from_str("Unclassified subclass 0x");
                push_hex_byte(&mut s, subclass);
                s
            }
        }
    } else if class == 0x01 {
        if subclass == 0x00 {
            String::from_str("Mass Storage: SCSI")
        } else if subclass == 0x01 {
            String::from_str("Mass Storage: IDE")
        } else if subclass == 0x02 {
            String::from_str("Mass Storage: Floppy")
        } else if subclass == 0x06 {
            if prog_if == 0x00 {
                String::from_str("Mass Storage: SATA (vendor/legacy)")
            } else if prog_if == 0x01 {
                String::from_str("Mass Storage: SATA (AHCI)")
            } else {
                {
                    let mut s = String::from_str("Mass Storage: SATA prog-if 0x");
                    push_hex_byte(&mut s, prog_if);
                    s
                }
            }
        } else {
            {
                let mut s = String::from_str("Mass Storage subclass 0x");
                push_hex_byte(&mut s, subclass);
                s
            }
        }
    } else if class == 0x02 {
        if subclass == 0x00 {
            if prog_if == 0x00 {
                String::from_str("Ethernet: Ethernet controller")
            } else if prog_if == 0x01 {
                String::from_str("Ethernet: IEEE 802.3u (100BASE-TX)")
            } else if prog_if == 0x02 {
                String::from_str("Ethernet: IEEE 802.3ab (1000BASE-T)")
            } else {
                String::from_str("Ethernet: other/prog-if")
            }
        } else if subclass == 0x80 {
            String::from_str("Network: Other")
        } else {
            {
                let mut s = String::from_str("Network subclass 0x");
                push_hex_byte(&mut s, subclass);
                s
            }
        }
    } else if class == 0x03 {
        if subclass == 0x00 {
            if prog_if == 0x01 {
                String::from_str("Display: 3D controller (OpenGL)")
            } else {
                String::from_str("Display: VGA-compatible controller")
            }
        } else if subclass == 0x80 {
            String::from_str("Display: Other")
        } else {
            {
                let mut s = String::from_str("Display subclass 0x");
                push_hex_byte(&mut s, subclass);
                s
            }
        }
    } else if class == 0x04 {
        if subclass == 0x00 {
            String::from_str("Multimedia: Video")
        } else if subclass == 0x01 {
            String::from_str("Multimedia: Audio")
        } else {
            {
                let mut s = String::from_str("Multimedia subclass 0x");
                push_hex_byte(&mut s, subclass);
                s
            }
        }
    } else if class == 0x05 {
        String::from_str("Memory Controller")
    } else if class == 0x06 {
        if subclass == 0x00 {
            String::from_str("Bridge: Host")
        } else if subclass == 0x01 {
            String::from_str("Bridge: ISA")
        } else if subclass == 0x04 {
            String::from_str("Bridge: PCI-to-PCI")
        } else {
            {
                let mut s = String::from_str("Bridge subclass 0x");
                push_hex_byte(&mut s, subclass);
                s
            }
        }
    } else if class == 0x07 {
        String::from_str("Simple Communication Controller")
    } else if class == 0x08 {
        String::from_str("Base System Peripheral")
    } else if class == 0x09 {
        String::from_str("Input Device")
    } else if class == 0x0A {
        String::from_str("Docking Station")
    } else if class == 0x0B {
        String::from_str("Processor")
    } else if class == 0x0C {
        if subclass == 0x03 {
            if prog_if == 0x00 {
                String::from_str("USB: UHCI (Universal Host Controller)")
            } else if prog_if == 0x10 {
                String::from_str("USB: OHCI (Open Host Controller)")
            } else if prog_if == 0x20 {
                String::from_str("USB: EHCI (Enhanced Host Controller)")
            } else if prog_if == 0x30 {
                String::from_str("USB: XHCI (Extensible Host Controller)")
            } else {
                String::from_str("USB: other/prog-if")
            }
        } else if subclass == 0x05 {
            String::from_str("Serial Bus: SMBus")
        } else {
            {
                let mut s = String::from_str("Serial Bus subclass 0x");
                push_hex_byte(&mut s, subclass);
                s
            }
        }
    } else if class == 0xFF {
        String::from_str("Unknown / Vendor-specific")
    } else {
        {
            let mut s = String::from_str("Class 0x");
            push_hex_byte(&mut s, class);
            s.append(" subclass 0x");
            push_hex_byte(&mut s, subclass);
            s
        }
    }
}

/// The short name of the kind of device that a PCI class, subclass and
/// programming interface stand for.
pub open spec fn concise_type(class: u8, subclass: u8, prog_if: u8) -> Seq<char> {
    if class == 0x00 {
        "Unclassified"@
    } else if class == 0x01 {
        if subclass == 0x00 {
            "SCSI controller"@
        } else if subclass == 0x01 {
            "IDE controller"@
        } else if subclass == 0x02 {
            "Floppy controller"@
        } else if subclass == 0x06 {
            if prog_if == 0x01 {
                "SATA (AHCI)"@
            } else {
                "SATA controller"@
            }
        } else {
            "Mass storage controller"@
        }
    } else if class == 0x02 {
        if subclass == 0x00 {
            "Ethernet controller"@
        } else if subclass == 0x80 {
            "Network controller (other)"@
        } else {
            "Network controller"@
        }
    } else if class == 0x03 {
        if subclass == 0x00 {
            "VGA compatible controller"@
        } else if subclass == 0x01 {
            "3D controller"@
        } else {
            "Display controller"@
        }
    } else if class == 0x04 {
        if subclass == 0x00 {
            "Multimedia video controller"@
        } else if subclass == 0x01 {
            "Audio controller"@
        } else {
            "Multimedia controller"@
        }
    } else if class == 0x05 {
        "Memory controller"@
    } else if class == 0x06 {
        if subclass == 0x04 {
            "PCI-to-PCI bridge"@
        } else {
            "Bridge"@
        }
    } else if class == 0x07 {
        "Simple communication controller"@
    } else if class == 0x08 {
        "Base system peripheral"@
    } else if class == 0x09 {
        if subclass == 0x00 {
            "Keyboard"@
        } else if subclass == 0x01 {
            "Digitizer"@
        } else {
            "Input device"@
        }
    } else if class == 0x0C {
        if subclass == 0x03 {
            if prog_if == 0x00 {
                "USB UHCI"@
            } else if prog_if == 0x10 {
                "USB OHCI"@
            } else if prog_if == 0x20 {
                "USB EHCI"@
            } else if prog_if == 0x30 {
                "USB XHCI"@
            } else {
                "USB controller"@
            }
        } else {
            "Serial bus controller"@
        }
    } else if class == 0xFF {
        "Vendor-specific"@
    } else {
        "Unknown"@
    }
}

/// The short name of the kind of device that a PCI class, subclass and
/// programming interface stand for.
pub fn concise_type_name(class: u8, subclass: u8, prog_if: u8) -> (name: &'static str)
    ensures
        name@ == concise_type(class, subclass, prog_if),
{
    if class == 0x00 {
        "Unclassified"
    } else if class == 0x01 {
        if subclass == 0x00 {
            "SCSI controller"
        } else if subclass == 0x01 {
            "IDE controller"
        } else if subclass == 0x02 {
            "Floppy controller"
        } else if subclass == 0x06 {
            if prog_if == 0x01 {
                "SATA (AHCI)"
            } else {
                "SATA controller"
            }
        } else {
            "Mass storage controller"
        }
    } else if class == 0x02 {
        if subclass == 0x00 {
            "Ethernet controller"
        } else if subclass == 0x80 {
            "Network controller (other)"
        } else {
            "Network controller"
        }
    } else if class == 0x03 {
        if subclass == 0x00 {
            "VGA compatible controller"
        } else if subclass == 0x01 {
            "3D controller"
        } else {
            "Display controller"
        }
    } else if class == 0x04 {
        if subclass == 0x00 {
            "Multimedia video controller"
        } else if subclass == 0x01 {
            "Audio controller"
        } else {
            "Multimedia controller"
        }
    } else if class == 0x05 {
        "Memory controller"
    } else if class == 0x06 {
        if subclass == 0x04 {
            "PCI-to-PCI bridge"
        } else {
            "Bridge"
        }
    } else if class == 0x07 {
        "Simple communication controller"
    } else if class == 0x08 {
        "Base system peripheral"
    } else if class == 0x09 {
        if subclass == 0x00 {
            "Keyboard"
        } else if subclass == 0x01 {
            "Digitizer"
        } else {
            "Input device"
        }
    } else if class == 0x0C {
        if subclass == 0x03 {
            if prog_if == 0x00 {
                "USB UHCI"
            } else if prog_if == 0x10 {
                "USB OHCI"
            } else if prog_if == 0x20 {
                "USB EHCI"
            } else if prog_if == 0x30 {
                "USB XHCI"
            } else {
                "USB controller"
            }
        } else {
            "Serial bus controller"
        }
    } else if class == 0xFF {
        "Vendor-specific"
    } else {
        "Unknown"
    }
}


/// How a device is summed up in one line: vendor and device number as four
/// hexadecimal digits each, class and subclass as two each, the
/// description, and the numbers of resources and capabilities.
pub open spec fn summary_of(info: DeviceInfoView) -> Seq<char> {
    "DeviceInfo { "@ + crate::text::hex_word(info.vendor_id) + ":"@ + crate::text::hex_word(
        info.device_id,
    ) + " class="@ + hex_byte(info.class) + "/"@ + hex_byte(info.subclass) + " desc='"@
        + info.description + "' res="@ + crate::text::decimal_digits(info.resources.len())
        + " caps="@ + crate::text::decimal_digits(info.capabilities.len()) + " }"@
}

impl DeviceInfo {
    /// The device summed up in one line.
    pub fn summary(&self) -> (line: String)
        ensures
            line@ == summary_of(self@),
    {
        let mut line = String::from_str("DeviceInfo { ");
        crate::text::push_hex_word(&mut line, self.vendor_id);
        line.append(":");
        crate::text::push_hex_word(&mut line, self.device_id);
        line.append(" class=");
        push_hex_byte(&mut line, self.class);
        line.append("/");
        push_hex_byte(&mut line, self.subclass);
        line.append(" desc='");
        line.append(self.description.as_str());
        line.append("' res=");
        crate::text::push_decimal(&mut line, self.resources.len() as u64);
        line.append(" caps=");
        crate::text::push_decimal(&mut line, self.capabilities.len() as u64);
        line.append(" }");
        line
    }
}

} // verus!
