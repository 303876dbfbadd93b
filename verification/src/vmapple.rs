//! Fixed-size VMApple TCG machine graph: the guest-visible addresses and
//! reset/read/write semantics of the portable VMApple launch path.  No
//! physical-M1 identity is inferred from this virtual profile.
use vstd::prelude::*;

verus! {

pub const VMAPPLE_FIRMWARE_BASE: u64 = 0x0010_0000;
pub const VMAPPLE_FIRMWARE_BYTES: u64 = 0x0010_0000;
pub const VMAPPLE_CONFIG_BASE: u64 = 0x0040_0000;
pub const VMAPPLE_CONFIG_BYTES: u64 = 0x0001_0000;
/// The GIC distributor and redistributor windows are contiguous and kept
/// as one bounded range; GIC is not relabelled as the native AIC.
pub const VMAPPLE_GIC_BASE: u64 = 0x1000_0000;
pub const VMAPPLE_GIC_BYTES: u64 = 0x0041_0000;
pub const VMAPPLE_UART_BASE: u64 = 0x2001_0000;
pub const VMAPPLE_UART_BYTES: u64 = 0x0001_0000;
pub const VMAPPLE_RTC_BASE: u64 = 0x2005_0000;
pub const VMAPPLE_RTC_BYTES: u64 = 0x0000_1000;
pub const VMAPPLE_GPIO_BASE: u64 = 0x2006_0000;
pub const VMAPPLE_GPIO_BYTES: u64 = 0x0000_1000;
pub const VMAPPLE_PVPANIC_BASE: u64 = 0x2007_0000;
pub const VMAPPLE_PVPANIC_BYTES: u64 = 0x0000_0002;
pub const VMAPPLE_BDIF_BASE: u64 = 0x3000_0000;
pub const VMAPPLE_BDIF_BYTES: u64 = 0x0020_0000;
pub const VMAPPLE_DISPLAY_BASE: u64 = 0x3020_0000;
pub const VMAPPLE_DISPLAY_BYTES: u64 = 0x0001_0000;
pub const VMAPPLE_DISPLAY_CONTROL_BASE: u64 = 0x3021_0000;
pub const VMAPPLE_DISPLAY_CONTROL_BYTES: u64 = 0x0001_0000;
pub const VMAPPLE_AES_BASE: u64 = 0x3022_0000;
pub const VMAPPLE_AES_BYTES: u64 = 0x0000_4000;
pub const VMAPPLE_AES_CONTROL_BASE: u64 = 0x3023_0000;
pub const VMAPPLE_AES_CONTROL_BYTES: u64 = 0x0000_4000;
pub const VMAPPLE_PCIE_ECAM_BASE: u64 = 0x4000_0000;
pub const VMAPPLE_PCIE_ECAM_BYTES: u64 = 0x1000_0000;
pub const VMAPPLE_PCIE_MMIO_BASE: u64 = 0x5000_0000;
pub const VMAPPLE_PCIE_MMIO_BYTES: u64 = 0x1fff_0000;
pub const VMAPPLE_RAM_BASE: u64 = 0x7000_0000;

pub const VMAPPLE_MAX_CPUS: u32 = 32;
pub const VMAPPLE_CONFIG_VERSION: u32 = 2;
pub const UART_FR_TXFE: u32 = 0x80;
pub const UART_FR_RXFE: u32 = 0x10;
pub const GIC_ENABLE: u32 = 1;
pub const GIC_PENDING: u32 = 2;
pub const BDIF_READY: u32 = 1;
pub const DISPLAY_READY: u32 = 1;

#[derive(Clone, Copy, Debug, PartialEq, Eq, Structural)]
pub enum VfVmappleDeviceKind {
    Config,
    Gic,
    Uart,
    Rtc,
    Gpio,
    Pvpanic,
    Storage,
    Display,
    DisplayControl,
    Firmware,
    Aes,
    AesControl,
    PcieEcam,
    PcieMmio,
}

#[derive(Clone, Copy, Debug, PartialEq, Eq, Structural)]
pub struct VfVmappleDevice {
    pub kind: VfVmappleDeviceKind,
    pub base: u64,
    pub bytes: u64,
}

/// A non-empty device window holds `[address, address + width)`.
pub open spec fn spec_contains(d: VfVmappleDevice, address: u64, width: u64) -> bool {
    d.base + d.bytes <= u64::MAX && address + width <= u64::MAX && d.bytes != 0 && address >= d.base && address + width
        <= d.base + d.bytes
}

impl VfVmappleDevice {
    pub fn empty() -> (d: Self)
        ensures
            d == (VfVmappleDevice { kind: VfVmappleDeviceKind::Config, base: 0, bytes: 0 }),
    {
        VfVmappleDevice { kind: VfVmappleDeviceKind::Config, base: 0, bytes: 0 }
    }

    pub fn contains(self, address: u64, width: u64) -> (b: bool)
        ensures
            b == spec_contains(self, address, width),
    {
        match (self.base.checked_add(self.bytes), address.checked_add(width)) {
            (Some(end), Some(access_end)) => self.bytes != 0 && address >= self.base && access_end <= end,
            _ => false,
        }
    }
}

/// The fixed device table, in registration order.
pub open spec fn table_entry(i: int) -> VfVmappleDevice {
    if i == 0 {
        VfVmappleDevice { kind: VfVmappleDeviceKind::Firmware, base: VMAPPLE_FIRMWARE_BASE, bytes: VMAPPLE_FIRMWARE_BYTES }
    } else if i == 1 {
        VfVmappleDevice { kind: VfVmappleDeviceKind::Config, base: VMAPPLE_CONFIG_BASE, bytes: VMAPPLE_CONFIG_BYTES }
    } else if i == 2 {
        VfVmappleDevice { kind: VfVmappleDeviceKind::Gic, base: VMAPPLE_GIC_BASE, bytes: VMAPPLE_GIC_BYTES }
    } else if i == 3 {
        VfVmappleDevice { kind: VfVmappleDeviceKind::Uart, base: VMAPPLE_UART_BASE, bytes: VMAPPLE_UART_BYTES }
    } else if i == 4 {
        VfVmappleDevice { kind: VfVmappleDeviceKind::Rtc, base: VMAPPLE_RTC_BASE, bytes: VMAPPLE_RTC_BYTES }
    } else if i == 5 {
        VfVmappleDevice { kind: VfVmappleDeviceKind::Gpio, base: VMAPPLE_GPIO_BASE, bytes: VMAPPLE_GPIO_BYTES }
    } else if i == 6 {
        VfVmappleDevice { kind: VfVmappleDeviceKind::Pvpanic, base: VMAPPLE_PVPANIC_BASE, bytes: VMAPPLE_PVPANIC_BYTES }
    } else if i == 7 {
        VfVmappleDevice { kind: VfVmappleDeviceKind::Storage, base: VMAPPLE_BDIF_BASE, bytes: VMAPPLE_BDIF_BYTES }
    } else if i == 8 {
        VfVmappleDevice { kind: VfVmappleDeviceKind::Display, base: VMAPPLE_DISPLAY_BASE, bytes: VMAPPLE_DISPLAY_BYTES }
    } else if i == 9 {
        VfVmappleDevice {
            kind: VfVmappleDeviceKind::DisplayControl,
            base: VMAPPLE_DISPLAY_CONTROL_BASE,
            bytes: VMAPPLE_DISPLAY_CONTROL_BYTES,
        }
    } else if i == 10 {
        VfVmappleDevice { kind: VfVmappleDeviceKind::Aes, base: VMAPPLE_AES_BASE, bytes: VMAPPLE_AES_BYTES }
    } else if i == 11 {
        VfVmappleDevice {
            kind: VfVmappleDeviceKind::AesControl,
            base: VMAPPLE_AES_CONTROL_BASE,
            bytes: VMAPPLE_AES_CONTROL_BYTES,
        }
    } else if i == 12 {
        VfVmappleDevice { kind: VfVmappleDeviceKind::PcieEcam, base: VMAPPLE_PCIE_ECAM_BASE, bytes: VMAPPLE_PCIE_ECAM_BYTES }
    } else {
        VfVmappleDevice { kind: VfVmappleDeviceKind::PcieMmio, base: VMAPPLE_PCIE_MMIO_BASE, bytes: VMAPPLE_PCIE_MMIO_BYTES }
    }
}

/// A bounded, deterministic virtual machine device graph.
#[derive(Clone, Copy)]
pub struct VfVmappleMachine {
    pub cpu_count: u32,
    pub ram_base: u64,
    pub ram_bytes: u64,
    pub ecid: u64,
    pub devices: [VfVmappleDevice; 14],
    pub device_count: u32,
    pub counter: u64,
    pub gic_state: u32,
    pub uart_last_byte: u8,
    pub pvpanic_state: u16,
    pub storage_state: u32,
    pub display_state: u32,
    pub reset_generation: u32,
}

/// The first registered device holding the access, with the offset into it.
pub open spec fn spec_device(m: VfVmappleMachine, address: u64, width: u64) -> Option<(VfVmappleDeviceKind, u64)> {
    let n = if m.device_count <= 14 { m.device_count as int } else { 14 };
    if exists|i: int| 0 <= i < n && spec_contains(m.devices@[i], address, width) {
        let i = choose|i: int| 0 <= i < n && spec_contains(m.devices@[i], address, width) && forall|j: int|
            0 <= j < i ==> !spec_contains(#[trigger] m.devices@[j], address, width);
        Some((m.devices@[i].kind, (address - m.devices@[i].base) as u64))
    } else {
        None
    }
}

pub open spec fn spec_width_mask(width: u32) -> u64 {
    if width == 1 {
        0xff
    } else if width == 2 {
        0xffff
    } else if width == 4 {
        0xffff_ffff
    } else if width == 8 {
        u64::MAX
    } else {
        0
    }
}

pub fn width_mask(width: u32) -> (m: u64)
    ensures
        m == spec_width_mask(width),
{
    match width {
        1 => 0xff,
        2 => 0xffff,
        4 => 0xffff_ffff,
        8 => u64::MAX,
        _ => 0,
    }
}

/// A naturally aligned access of 1, 2, 4 or 8 bytes.
pub open spec fn access_ok(address: u64, width: u32) -> bool {
    (width == 1 || width == 2 || width == 4 || width == 8) && address % (width as u64) == 0
}

/// The register value a read of `kind` at `offset` sees, before the
/// access width mask.  RTC reads see the counter after their own tick.
pub open spec fn register_value(m: VfVmappleMachine, kind: VfVmappleDeviceKind, offset: u64) -> u64 {
    match kind {
        VfVmappleDeviceKind::Config => if offset == 0 {
            VMAPPLE_CONFIG_VERSION as u64
        } else if offset == 4 {
            m.cpu_count as u64
        } else if offset == 0x18 {
            m.ecid
        } else if offset == 0x20 {
            m.ram_bytes
        } else if offset == 0x3c0 {
            0x3130_3030_3030_4d56
        } else {
            0
        },
        VfVmappleDeviceKind::Gic => if offset == 0 {
            m.gic_state as u64
        } else if offset == 4 {
            (m.gic_state & GIC_PENDING) as u64
        } else {
            0
        },
        VfVmappleDeviceKind::Uart => if offset == 0 {
            m.uart_last_byte as u64
        } else if offset == 0x18 {
            0x90
        } else {
            0
        },
        VfVmappleDeviceKind::Rtc => if offset == 0 {
            24_000_000
        } else if offset == 8 {
            crate::arch::wrap_add(m.counter, 1)
        } else {
            0
        },
        VfVmappleDeviceKind::Pvpanic => m.pvpanic_state as u64,
        VfVmappleDeviceKind::Storage => m.storage_state as u64,
        VfVmappleDeviceKind::Display | VfVmappleDeviceKind::DisplayControl => m.display_state as u64,
        _ => 0,
    }
}

/// The machine after a write of `kind` at `offset`, or `None` when the
/// register refuses it.
pub open spec fn register_write(m: VfVmappleMachine, kind: VfVmappleDeviceKind, offset: u64, width: u32, value: u64) -> Option<VfVmappleMachine> {
    match kind {
        VfVmappleDeviceKind::Gic => if offset == 0 {
            Some(VfVmappleMachine { gic_state: (value as u32) & (GIC_ENABLE | GIC_PENDING), ..m })
        } else if offset == 4 {
            Some(VfVmappleMachine { gic_state: m.gic_state & !((value as u32) & GIC_PENDING), ..m })
        } else {
            None
        },
        VfVmappleDeviceKind::Uart => if offset == 0 && width == 1 {
            Some(VfVmappleMachine { uart_last_byte: value as u8, ..m })
        } else {
            None
        },
        VfVmappleDeviceKind::Pvpanic => if offset == 0 && width <= 2 {
            Some(VfVmappleMachine { pvpanic_state: value as u16, ..m })
        } else {
            None
        },
        VfVmappleDeviceKind::Storage => if offset == 0x408 && width == 8 {
            Some(VfVmappleMachine { storage_state: BDIF_READY, ..m })
        } else {
            None
        },
        VfVmappleDeviceKind::Display | VfVmappleDeviceKind::DisplayControl => if offset == 0 && width == 4 {
            Some(VfVmappleMachine { display_state: (value as u32) & DISPLAY_READY, ..m })
        } else {
            None
        },
        _ => None,
    }
}

pub open spec fn machine_valid(m: VfVmappleMachine) -> bool {
    &&& m.cpu_count != 0
    &&& m.cpu_count <= VMAPPLE_MAX_CPUS
    &&& m.ram_base == VMAPPLE_RAM_BASE
    &&& m.ram_bytes != 0
    &&& m.device_count == 14
    &&& m.reset_generation != 0
}

/// The device state after a reset.
pub open spec fn machine_reset(m: VfVmappleMachine) -> VfVmappleMachine {
    VfVmappleMachine {
        counter: 0,
        gic_state: GIC_ENABLE,
        uart_last_byte: 0,
        pvpanic_state: 0,
        storage_state: BDIF_READY,
        display_state: DISPLAY_READY,
        reset_generation: crate::m1::sat_inc(m.reset_generation),
        ..m
    }
}

impl VfVmappleMachine {
    /// A machine of 1 to 32 CPUs and a non-empty, page-multiple RAM.
    pub fn new(cpu_count: u32, ram_bytes: u64, ecid: u64) -> (r: Option<Self>)
        ensures
            r is Some == (1 <= cpu_count <= VMAPPLE_MAX_CPUS && ram_bytes != 0 && ram_bytes % 0x1000 == 0),
            r matches Some(m) ==> {
                &&& machine_valid(m)
                &&& m.cpu_count == cpu_count && m.ram_bytes == ram_bytes && m.ecid == ecid
                &&& m.reset_generation == 1
                &&& forall|i: int| 0 <= i < 14 ==> #[trigger] m.devices@[i] == table_entry(i)
                &&& m.counter == 0 && m.gic_state == GIC_ENABLE && m.uart_last_byte == 0 && m.pvpanic_state == 0
                &&& m.storage_state == BDIF_READY && m.display_state == DISPLAY_READY
            },
    {
        proof {
            assert(ram_bytes & 0xfff == ram_bytes % 0x1000) by {
                crate::bits::lemma_u64_bits(ram_bytes);
            }
        }
        if cpu_count == 0 || cpu_count > VMAPPLE_MAX_CPUS || ram_bytes == 0 || ram_bytes & 0xfff != 0 {
            return None;
        }
        let e = VfVmappleDevice::empty();
        let mut machine = VfVmappleMachine {
            cpu_count,
            ram_base: VMAPPLE_RAM_BASE,
            ram_bytes,
            ecid,
            devices: [e; 14],
            device_count: 0,
            counter: 0,
            gic_state: GIC_ENABLE,
            uart_last_byte: 0,
            pvpanic_state: 0,
            storage_state: BDIF_READY,
            display_state: DISPLAY_READY,
            reset_generation: 0,
        };
        machine.devices[0] = VfVmappleDevice {
            kind: VfVmappleDeviceKind::Firmware,
            base: VMAPPLE_FIRMWARE_BASE,
            bytes: VMAPPLE_FIRMWARE_BYTES,
        };
        machine.devices[1] = VfVmappleDevice {
            kind: VfVmappleDeviceKind::Config,
            base: VMAPPLE_CONFIG_BASE,
            bytes: VMAPPLE_CONFIG_BYTES,
        };
        machine.devices[2] = VfVmappleDevice { kind: VfVmappleDeviceKind::Gic, base: VMAPPLE_GIC_BASE, bytes: VMAPPLE_GIC_BYTES };
        machine.devices[3] = VfVmappleDevice {
            kind: VfVmappleDeviceKind::Uart,
            base: VMAPPLE_UART_BASE,
            bytes: VMAPPLE_UART_BYTES,
        };
        machine.devices[4] = VfVmappleDevice { kind: VfVmappleDeviceKind::Rtc, base: VMAPPLE_RTC_BASE, bytes: VMAPPLE_RTC_BYTES };
        machine.devices[5] = VfVmappleDevice {
            kind: VfVmappleDeviceKind::Gpio,
            base: VMAPPLE_GPIO_BASE,
            bytes: VMAPPLE_GPIO_BYTES,
        };
        machine.devices[6] = VfVmappleDevice {
            kind: VfVmappleDeviceKind::Pvpanic,
            base: VMAPPLE_PVPANIC_BASE,
            bytes: VMAPPLE_PVPANIC_BYTES,
        };
        machine.devices[7] = VfVmappleDevice {
            kind: VfVmappleDeviceKind::Storage,
            base: VMAPPLE_BDIF_BASE,
            bytes: VMAPPLE_BDIF_BYTES,
        };
        machine.devices[8] = VfVmappleDevice {
            kind: VfVmappleDeviceKind::Display,
            base: VMAPPLE_DISPLAY_BASE,
            bytes: VMAPPLE_DISPLAY_BYTES,
        };
        machine.devices[9] = VfVmappleDevice {
            kind: VfVmappleDeviceKind::DisplayControl,
            base: VMAPPLE_DISPLAY_CONTROL_BASE,
            bytes: VMAPPLE_DISPLAY_CONTROL_BYTES,
        };
        // Present in the address map; reads are zero and writes refused
        // until a target-matched contract exists.
        machine.devices[10] = VfVmappleDevice { kind: VfVmappleDeviceKind::Aes, base: VMAPPLE_AES_BASE, bytes: VMAPPLE_AES_BYTES };
        machine.devices[11] = VfVmappleDevice {
            kind: VfVmappleDeviceKind::AesControl,
            base: VMAPPLE_AES_CONTROL_BASE,
            bytes: VMAPPLE_AES_CONTROL_BYTES,
        };
        machine.devices[12] = VfVmappleDevice {
            kind: VfVmappleDeviceKind::PcieEcam,
            base: VMAPPLE_PCIE_ECAM_BASE,
            bytes: VMAPPLE_PCIE_ECAM_BYTES,
        };
        machine.devices[13] = VfVmappleDevice {
            kind: VfVmappleDeviceKind::PcieMmio,
            base: VMAPPLE_PCIE_MMIO_BASE,
            bytes: VMAPPLE_PCIE_MMIO_BYTES,
        };
        machine.device_count = 14;
        machine.reset();
        Some(machine)
    }

    pub fn reset(&mut self)
        ensures
            *final(self) == machine_reset(*old(self)),
    {
        self.counter = 0;
        self.gic_state = GIC_ENABLE;
        self.uart_last_byte = 0;
        self.pvpanic_state = 0;
        self.storage_state = BDIF_READY;
        self.display_state = DISPLAY_READY;
        self.reset_generation = self.reset_generation.saturating_add(1);
    }

    pub fn device(&self, address: u64, width: u64) -> (r: Option<(VfVmappleDeviceKind, u64)>)
        ensures
            r == spec_device(*self, address, width),
    {
        let n: usize = if self.device_count <= 14 { self.device_count as usize } else { 14 };
        let mut i: usize = 0;
        while i < n
            invariant
                i <= n <= 14,
                n == (if self.device_count <= 14 { self.device_count as int } else { 14 }),
                forall|j: int| 0 <= j < i ==> !spec_contains(#[trigger] self.devices@[j], address, width),
            decreases n - i,
        {
            let d = self.devices[i];
            if d.contains(address, width) {
                proof {
                    let c = choose|c: int| 0 <= c < n && spec_contains(self.devices@[c], address, width) && forall|j: int|
                        0 <= j < c ==> !spec_contains(#[trigger] self.devices@[j], address, width);
                    assert(spec_contains(self.devices@[i as int], address, width));
                    if c < i {
                        assert(!spec_contains(self.devices@[c], address, width));
                    } else if c > i {
                        assert(!spec_contains(self.devices@[i as int], address, width));
                    }
                }
                return Some((d.kind, address - d.base));
            }
            i = i + 1;
        }
        None
    }

    /// A guest read: `None` for a misaligned or oversized access or no
    /// device; the value is masked to the access width.  Each RTC read
    /// ticks its counter.
    pub fn read(&mut self, address: u64, width: u32) -> (r: Option<u64>)
        ensures
            !access_ok(address, width) ==> r is None && *final(self) == *old(self),
            access_ok(address, width) ==> match spec_device(*old(self), address, width as u64) {
                None => r is None && *final(self) == *old(self),
                Some((kind, offset)) => {
                    &&& r == Some(register_value(*old(self), kind, offset) & spec_width_mask(width))
                    &&& *final(self) == if kind == VfVmappleDeviceKind::Rtc {
                        VfVmappleMachine { counter: crate::arch::wrap_add(old(self).counter, 1), ..*old(self) }
                    } else {
                        *old(self)
                    }
                },
            },
    {
        let bytes = width as u64;
        if !(width == 1 || width == 2 || width == 4 || width == 8) {
            return None;
        }
        proof {
            assert(address & 0 == address % 1) by {
                crate::bits::lemma_u64_bits(address);
            }
            assert(address & 1 == address % 2) by {
                crate::bits::lemma_u64_bits(address);
            }
            assert(address & 3 == address % 4) by {
                crate::bits::lemma_u64_bits(address);
            }
            assert(address & 7 == address % 8) by {
                crate::bits::lemma_u64_bits(address);
            }
        }
        if address & (bytes - 1) != 0 {
            return None;
        }
        let (kind, offset) = match self.device(address, bytes) {
            Some(d) => d,
            None => return None,
        };
        let value: u64 = match kind {
            VfVmappleDeviceKind::Config => {
                if offset == 0 {
                    VMAPPLE_CONFIG_VERSION as u64
                } else if offset == 4 {
                    self.cpu_count as u64
                } else if offset == 0x18 {
                    self.ecid
                } else if offset == 0x20 {
                    self.ram_bytes
                } else if offset == 0x3c0 {
                    // "VM0001" in the fixed-width field.
                    0x3130_3030_3030_4d56
                } else {
                    0
                }
            },
            VfVmappleDeviceKind::Gic => {
                if offset == 0 {
                    self.gic_state as u64
                } else if offset == 4 {
                    (self.gic_state & GIC_PENDING) as u64
                } else {
                    0
                }
            },
            VfVmappleDeviceKind::Uart => {
                if offset == 0 {
                    self.uart_last_byte as u64
                } else if offset == 0x18 {
                    (UART_FR_TXFE | UART_FR_RXFE) as u64
                } else {
                    0
                }
            },
            VfVmappleDeviceKind::Rtc => {
                self.counter = self.counter.wrapping_add(1);
                if offset == 0 {
                    24_000_000
                } else if offset == 8 {
                    self.counter
                } else {
                    0
                }
            },
            VfVmappleDeviceKind::Pvpanic => self.pvpanic_state as u64,
            VfVmappleDeviceKind::Storage => self.storage_state as u64,
            VfVmappleDeviceKind::Display | VfVmappleDeviceKind::DisplayControl => self.display_state as u64,
            _ => 0,
        };
        assert(UART_FR_TXFE | UART_FR_RXFE == 0x90) by {
            crate::bits::lemma_bit_constants();
        }
        Some(value & width_mask(width))
    }

    /// A guest write; refused for a misaligned access, no device, the
    /// read-only windows and unknown registers.
    pub fn write(&mut self, address: u64, width: u32, value: u64) -> (ok: bool)
        ensures
            !access_ok(address, width) ==> !ok && *final(self) == *old(self),
            access_ok(address, width) ==> match spec_device(*old(self), address, width as u64) {
                None => !ok && *final(self) == *old(self),
                Some((kind, offset)) => match register_write(*old(self), kind, offset, width, value) {
                    Some(n) => ok && *final(self) == n,
                    None => !ok && *final(self) == *old(self),
                },
            },
    {
        let bytes = width as u64;
        if !(width == 1 || width == 2 || width == 4 || width == 8) {
            return false;
        }
        proof {
            assert(address & 0 == address % 1) by {
                crate::bits::lemma_u64_bits(address);
            }
            assert(address & 1 == address % 2) by {
                crate::bits::lemma_u64_bits(address);
            }
            assert(address & 3 == address % 4) by {
                crate::bits::lemma_u64_bits(address);
            }
            assert(address & 7 == address % 8) by {
                crate::bits::lemma_u64_bits(address);
            }
        }
        if address & (bytes - 1) != 0 {
            return false;
        }
        let (kind, offset) = match self.device(address, bytes) {
            Some(d) => d,
            None => return false,
        };
        match kind {
            VfVmappleDeviceKind::Gic => {
                if offset == 0 {
                    self.gic_state = (value as u32) & (GIC_ENABLE | GIC_PENDING);
                    true
                } else if offset == 4 {
                    self.gic_state = self.gic_state & !((value as u32) & GIC_PENDING);
                    true
                } else {
                    false
                }
            },
            VfVmappleDeviceKind::Uart => {
                if offset == 0 && width == 1 {
                    self.uart_last_byte = value as u8;
                    true
                } else {
                    false
                }
            },
            VfVmappleDeviceKind::Pvpanic => {
                if offset == 0 && width <= 2 {
                    self.pvpanic_state = value as u16;
                    true
                } else {
                    false
                }
            },
            VfVmappleDeviceKind::Storage => {
                if offset == 0x408 && width == 8 {
                    self.storage_state = BDIF_READY;
                    true
                } else {
                    false
                }
            },
            VfVmappleDeviceKind::Display | VfVmappleDeviceKind::DisplayControl => {
                if offset == 0 && width == 4 {
                    self.display_state = (value as u32) & DISPLAY_READY;
                    true
                } else {
                    false
                }
            },
            _ => false,
        }
    }

    pub fn valid(&self) -> (b: bool)
        ensures
            b == machine_valid(*self),
    {
        self.cpu_count != 0 && self.cpu_count <= VMAPPLE_MAX_CPUS && self.ram_base == VMAPPLE_RAM_BASE
            && self.ram_bytes != 0 && self.device_count == 14 && self.reset_generation != 0
    }
}

} // verus!
