//! The 10GbE core: its packed register layouts and the fixed, ordered
//! bring-up sequence.  The core is one large named register block; each
//! field of interest is a four-byte packed register at a fixed address
//! within the block.
//!
//! The bring-up is a state machine: it hands out one write request at a
//! time and advances only on a successful reply.  A reply reporting any
//! failure stops the sequence for good: no further write is attempted.

use vstd::prelude::*;

use crate::msg::{reply_code_of, wf_message, ClientError, Message, MessageView, RetCode};
use crate::numbers::{be_bytes_of, word_of_be};
use crate::registers::{check_write_reply, packed_from_bytes, parse_read_reply,
    read_packed_request, read_request_view, write_bool_request, write_int_request,
    write_packed_request, write_request_view, PackedRegister, RegisterAddress};

verus! {

/// The identity register of the core: build revision and type, and the
/// CPU-side enables.
#[derive(Debug, Clone, Copy, PartialEq, Eq, Structural)]
pub struct CoreType {
    pub cpu_tx_enable: bool,
    pub cpu_rx_enable: bool,
    pub revision: u8,
    pub core_type: u8,
}

impl RegisterAddress for CoreType {
    open spec fn spec_address() -> u8 {
        0x00
    }

    fn address() -> u8 {
        0x00
    }
}

impl PackedRegister for CoreType {
    open spec fn spec_word(self) -> u32 {
        ((if self.cpu_tx_enable {
            1u32
        } else {
            0u32
        }) << 24u32) | ((if self.cpu_rx_enable {
            1u32
        } else {
            0u32
        }) << 16u32) | ((self.revision as u32) << 8u32) | (self.core_type as u32)
    }

    open spec fn spec_unpack(w: u32) -> CoreType {
        (CoreType {
            cpu_tx_enable: ((w >> 24u32) & 1u32) == 1u32,
            cpu_rx_enable: ((w >> 16u32) & 1u32) == 1u32,
            revision: ((w >> 8u32) & 0xffu32) as u8,
            core_type: (w & 0xffu32) as u8,
        })
    }

    proof fn lemma_pack_unpack(self) {
        let t: u32 = if self.cpu_tx_enable {
            1u32
        } else {
            0u32
        };
        let x: u32 = if self.cpu_rx_enable {
            1u32
        } else {
            0u32
        };
        let rv: u32 = self.revision as u32;
        let ct: u32 = self.core_type as u32;
        assert((((t << 24u32) | (x << 16u32) | (rv << 8u32) | ct) >> 24u32) & 1u32 == t && (((t
            << 24u32) | (x << 16u32) | (rv << 8u32) | ct) >> 16u32) & 1u32 == x && (((t << 24u32)
            | (x << 16u32) | (rv << 8u32) | ct) >> 8u32) & 0xffu32 == rv && ((t << 24u32) | (x
            << 16u32) | (rv << 8u32) | ct) & 0xffu32 == ct) by (bit_vector)
            requires
                t <= 1,
                x <= 1,
                rv < 256,
                ct < 256,
        ;
    }

    fn pack(&self) -> u32 {
        ((if self.cpu_tx_enable {
            1u32
        } else {
            0u32
        }) << 24u32) | ((if self.cpu_rx_enable {
            1u32
        } else {
            0u32
        }) << 16u32) | ((self.revision as u32) << 8u32) | (self.core_type as u32)
    }

    fn unpack(w: u32) -> CoreType {
        CoreType {
            cpu_tx_enable: ((w >> 24u32) & 1u32) == 1u32,
            cpu_rx_enable: ((w >> 16u32) & 1u32) == 1u32,
            revision: ((w >> 8u32) & 0xffu32) as u8,
            core_type: (w & 0xffu32) as u8,
        }
    }
}

/// The source address register of the core, one octet per byte.
#[derive(Debug, Clone, Copy, PartialEq, Eq, Structural)]
pub struct IpAddress {
    pub octet0: u8,
    pub octet1: u8,
    pub octet2: u8,
    pub octet3: u8,
}

impl RegisterAddress for IpAddress {
    open spec fn spec_address() -> u8 {
        0x14
    }

    fn address() -> u8 {
        0x14
    }
}

impl PackedRegister for IpAddress {
    open spec fn spec_word(self) -> u32 {
        ((self.octet0 as u32) << 24u32) | ((self.octet1 as u32) << 16u32) | ((self.octet2 as u32)
            << 8u32) | (self.octet3 as u32)
    }

    open spec fn spec_unpack(w: u32) -> IpAddress {
        (IpAddress {
            octet0: ((w >> 24u32) & 0xffu32) as u8,
            octet1: ((w >> 16u32) & 0xffu32) as u8,
            octet2: ((w >> 8u32) & 0xffu32) as u8,
            octet3: (w & 0xffu32) as u8,
        })
    }

    proof fn lemma_pack_unpack(self) {
        let a: u32 = self.octet0 as u32;
        let b: u32 = self.octet1 as u32;
        let c: u32 = self.octet2 as u32;
        let d: u32 = self.octet3 as u32;
        assert((((a << 24u32) | (b << 16u32) | (c << 8u32) | d) >> 24u32) & 0xffu32 == a && (((a
            << 24u32) | (b << 16u32) | (c << 8u32) | d) >> 16u32) & 0xffu32 == b && (((a << 24u32)
            | (b << 16u32) | (c << 8u32) | d) >> 8u32) & 0xffu32 == c && ((a << 24u32) | (b
            << 16u32) | (c << 8u32) | d) & 0xffu32 == d) by (bit_vector)
            requires
                a < 256,
                b < 256,
                c < 256,
                d < 256,
        ;
    }

    fn pack(&self) -> u32 {
        ((self.octet0 as u32) << 24u32) | ((self.octet1 as u32) << 16u32) | ((self.octet2 as u32)
            << 8u32) | (self.octet3 as u32)
    }

    fn unpack(w: u32) -> IpAddress {
        IpAddress {
            octet0: ((w >> 24u32) & 0xffu32) as u8,
            octet1: ((w >> 16u32) & 0xffu32) as u8,
            octet2: ((w >> 8u32) & 0xffu32) as u8,
            octet3: (w & 0xffu32) as u8,
        }
    }
}

/// The gateway address register of the core, laid out as the source
/// address is.
#[derive(Debug, Clone, Copy, PartialEq, Eq, Structural)]
pub struct GatewayAddress {
    pub octet0: u8,
    pub octet1: u8,
    pub octet2: u8,
    pub octet3: u8,
}

impl RegisterAddress for GatewayAddress {
    open spec fn spec_address() -> u8 {
        0x18
    }

    fn address() -> u8 {
        0x18
    }
}

impl PackedRegister for GatewayAddress {
    open spec fn spec_word(self) -> u32 {
        ((self.octet0 as u32) << 24u32) | ((self.octet1 as u32) << 16u32) | ((self.octet2 as u32)
            << 8u32) | (self.octet3 as u32)
    }

    open spec fn spec_unpack(w: u32) -> GatewayAddress {
        (GatewayAddress {
            octet0: ((w >> 24u32) & 0xffu32) as u8,
            octet1: ((w >> 16u32) & 0xffu32) as u8,
            octet2: ((w >> 8u32) & 0xffu32) as u8,
            octet3: (w & 0xffu32) as u8,
        })
    }

    proof fn lemma_pack_unpack(self) {
        let a: u32 = self.octet0 as u32;
        let b: u32 = self.octet1 as u32;
        let c: u32 = self.octet2 as u32;
        let d: u32 = self.octet3 as u32;
        assert((((a << 24u32) | (b << 16u32) | (c << 8u32) | d) >> 24u32) & 0xffu32 == a && (((a
            << 24u32) | (b << 16u32) | (c << 8u32) | d) >> 16u32) & 0xffu32 == b && (((a << 24u32)
            | (b << 16u32) | (c << 8u32) | d) >> 8u32) & 0xffu32 == c && ((a << 24u32) | (b
            << 16u32) | (c << 8u32) | d) & 0xffu32 == d) by (bit_vector)
            requires
                a < 256,
                b < 256,
                c < 256,
                d < 256,
        ;
    }

    fn pack(&self) -> u32 {
        ((self.octet0 as u32) << 24u32) | ((self.octet1 as u32) << 16u32) | ((self.octet2 as u32)
            << 8u32) | (self.octet3 as u32)
    }

    fn unpack(w: u32) -> GatewayAddress {
        GatewayAddress {
            octet0: ((w >> 24u32) & 0xffu32) as u8,
            octet1: ((w >> 16u32) & 0xffu32) as u8,
            octet2: ((w >> 8u32) & 0xffu32) as u8,
            octet3: (w & 0xffu32) as u8,
        }
    }
}

/// The source port register of the core: the port in the low half, a
/// mask in the high half.
#[derive(Debug, Clone, Copy, PartialEq, Eq, Structural)]
pub struct Port {
    pub port_mask: u16,
    pub port: u16,
}

impl RegisterAddress for Port {
    open spec fn spec_address() -> u8 {
        0x30
    }

    fn address() -> u8 {
        0x30
    }
}

impl PackedRegister for Port {
    open spec fn spec_word(self) -> u32 {
        ((self.port_mask as u32) << 16u32) | (self.port as u32)
    }

    open spec fn spec_unpack(w: u32) -> Port {
        (Port { port_mask: ((w >> 16u32) & 0xffffu32) as u16, port: (w & 0xffffu32) as u16 })
    }

    proof fn lemma_pack_unpack(self) {
        let m: u32 = self.port_mask as u32;
        let p: u32 = self.port as u32;
        assert((((m << 16u32) | p) >> 16u32) & 0xffffu32 == m && ((m << 16u32) | p) & 0xffffu32
            == p) by (bit_vector)
            requires
                m < 0x10000,
                p < 0x10000,
        ;
    }

    fn pack(&self) -> u32 {
        ((self.port_mask as u32) << 16u32) | (self.port as u32)
    }

    fn unpack(w: u32) -> Port {
        Port { port_mask: ((w >> 16u32) & 0xffffu32) as u16, port: (w & 0xffffu32) as u16 }
    }
}

/// The control register of the core: the enable line, promiscuous
/// mode, and the soft reset bit that is toggled during bring-up.
#[derive(Debug, Clone, Copy, PartialEq, Eq, Structural)]
pub struct PromiscRstEn {
    pub soft_rst: bool,
    pub promisc: bool,
    pub enable: bool,
}

impl RegisterAddress for PromiscRstEn {
    open spec fn spec_address() -> u8 {
        0x2c
    }

    fn address() -> u8 {
        0x2c
    }
}

impl PackedRegister for PromiscRstEn {
    open spec fn spec_word(self) -> u32 {
        (if self.enable {
            1u32
        } else {
            0u32
        }) | ((if self.promisc {
            1u32
        } else {
            0u32
        }) << 1u32) | ((if self.soft_rst {
            1u32
        } else {
            0u32
        }) << 2u32)
    }

    open spec fn spec_unpack(w: u32) -> PromiscRstEn {
        (PromiscRstEn {
            soft_rst: ((w >> 2u32) & 1u32) == 1u32,
            promisc: ((w >> 1u32) & 1u32) == 1u32,
            enable: (w & 1u32) == 1u32,
        })
    }

    proof fn lemma_pack_unpack(self) {
        let e: u32 = if self.enable {
            1u32
        } else {
            0u32
        };
        let p: u32 = if self.promisc {
            1u32
        } else {
            0u32
        };
        let s: u32 = if self.soft_rst {
            1u32
        } else {
            0u32
        };
        assert(((e | (p << 1u32) | (s << 2u32)) >> 2u32) & 1u32 == s && ((e | (p << 1u32) | (s
            << 2u32)) >> 1u32) & 1u32 == p && (e | (p << 1u32) | (s << 2u32)) & 1u32 == e)
            by (bit_vector)
            requires
                e <= 1,
                p <= 1,
                s <= 1,
        ;
    }

    fn pack(&self) -> u32 {
        (if self.enable {
            1u32
        } else {
            0u32
        }) | ((if self.promisc {
            1u32
        } else {
            0u32
        }) << 1u32) | ((if self.soft_rst {
            1u32
        } else {
            0u32
        }) << 2u32)
    }

    fn unpack(w: u32) -> PromiscRstEn {
        PromiscRstEn {
            soft_rst: ((w >> 2u32) & 1u32) == 1u32,
            promisc: ((w >> 1u32) & 1u32) == 1u32,
            enable: (w & 1u32) == 1u32,
        }
    }
}

/// The link status register of the core: whether the link is up.
#[derive(Debug, Clone, Copy, PartialEq, Eq, Structural)]
pub struct Status {
    pub link_up: bool,
}

impl RegisterAddress for Status {
    open spec fn spec_address() -> u8 {
        0x34
    }

    fn address() -> u8 {
        0x34
    }
}

impl PackedRegister for Status {
    open spec fn spec_word(self) -> u32 {
        if self.link_up {
            1u32
        } else {
            0u32
        }
    }

    open spec fn spec_unpack(w: u32) -> Status {
        (Status { link_up: (w & 1u32) == 1u32 })
    }

    proof fn lemma_pack_unpack(self) {
        let l: u32 = if self.link_up {
            1u32
        } else {
            0u32
        };
        assert(l & 1u32 == l) by (bit_vector)
            requires
                l <= 1,
        ;
    }

    fn pack(&self) -> u32 {
        if self.link_up {
            1u32
        } else {
            0u32
        }
    }

    fn unpack(w: u32) -> Status {
        Status { link_up: (w & 1u32) == 1u32 }
    }
}

/// The source address the bring-up programs into the core.
pub open spec fn gbe_source_ip() -> IpAddress {
    (IpAddress { octet0: 192u8, octet1: 168u8, octet2: 5u8, octet3: 20u8 })
}

/// The source port the bring-up programs into the core.
pub open spec fn gbe_source_port() -> Port {
    (Port { port_mask: 0u16, port: 6000u16 })
}

/// The gateway address the bring-up programs into the core.
pub open spec fn gbe_gateway() -> GatewayAddress {
    (GatewayAddress { octet0: 192u8, octet1: 168u8, octet2: 5u8, octet3: 1u8 })
}

/// The destination address, as the word written to the companion
/// `dest_ip` register.
pub open spec fn gbe_dest_ip_word() -> u32 {
    0xc0a80501u32
}

/// The destination port written to the companion `dest_port` register.
pub open spec fn gbe_dest_port() -> u32 {
    6000u32
}

/// The settle interval after the last write, in milliseconds.
pub open spec fn gbe_settle_millis() -> u64 {
    500u64
}

/// The control register value at each of its three bring-up writes.
pub open spec fn gbe_control(soft_rst: bool) -> PromiscRstEn {
    (PromiscRstEn { soft_rst, promisc: false, enable: true })
}

/// The fixed, ordered write sequence of the bring-up: disable
/// transmit, program addresses and ports, enable the core with reset
/// asserted, toggle the resets off, re-enable transmit.
pub open spec fn gbe_write_view(core_block: Seq<char>, i: int) -> MessageView {
    if i == 0 {
        write_request_view("tx_en"@, 0, seq![0u8])
    } else if i == 1 {
        write_request_view(core_block, IpAddress::spec_address() as u32, be_bytes_of(gbe_source_ip().spec_word()))
    } else if i == 2 {
        write_request_view(core_block, Port::spec_address() as u32, be_bytes_of(gbe_source_port().spec_word()))
    } else if i == 3 {
        write_request_view(core_block, GatewayAddress::spec_address() as u32, be_bytes_of(gbe_gateway().spec_word()))
    } else if i == 4 {
        write_request_view("dest_ip"@, 0, be_bytes_of(gbe_dest_ip_word()))
    } else if i == 5 {
        write_request_view("dest_port"@, 0, be_bytes_of(gbe_dest_port()))
    } else if i == 6 {
        write_request_view(core_block, PromiscRstEn::spec_address() as u32, be_bytes_of(gbe_control(false).spec_word()))
    } else if i == 7 {
        write_request_view(core_block, PromiscRstEn::spec_address() as u32, be_bytes_of(gbe_control(true).spec_word()))
    } else if i == 8 {
        write_request_view(core_block, PromiscRstEn::spec_address() as u32, be_bytes_of(gbe_control(false).spec_word()))
    } else if i == 9 {
        write_request_view("tx_rst"@, 0, seq![1u8])
    } else if i == 10 {
        write_request_view("tx_rst"@, 0, seq![0u8])
    } else {
        write_request_view("tx_en"@, 0, seq![1u8])
    }
}

/// What the bring-up asks its driver to do next.
#[derive(Debug)]
pub enum GbeAction {
    /// Send this write request and feed the completed exchange back.
    SendWrite(Message),
    /// Wait this many milliseconds for the core to boot.
    Settle(u64),
    /// Send this read request for the link status register and feed
    /// the completed exchange back.
    SendStatusRead(Message),
}

/// The bring-up state machine for one core.  The driver repeatedly
/// asks for the next action, performs it, and feeds the outcome back;
/// the machine advances only on success and stops for good on the
/// first failed reply.
pub struct GbeBringup {
    core_block: String,
    step: u8,
    failed: bool,
}

impl GbeBringup {
    /// The name of the core register block being brought up.
    pub closed spec fn core_name(self) -> Seq<char> {
        self.core_block@
    }

    /// How many of the sequence's steps have completed.
    pub closed spec fn step(self) -> int {
        self.step as int
    }

    /// A reply reported failure; the sequence is abandoned.
    pub closed spec fn failed(self) -> bool {
        self.failed
    }

    /// The step counter never leaves the sequence.
    pub closed spec fn inv(self) -> bool {
        0 <= self.step <= 14
    }

    /// Starts the bring-up of the named core.
    pub fn new(core_block: &str) -> (s: GbeBringup)
        ensures
            s.inv(),
            s.core_name() == core_block@,
            s.step() == 0,
            !s.failed(),
    {
        GbeBringup { core_block: String::from_str(core_block), step: 0, failed: false }
    }

    /// The bring-up ran to completion with every reply successful.
    pub fn done(&self) -> (b: bool)
        ensures
            b == (self.step() == 14 && !self.failed()),
    {
        self.step == 14 && !self.failed
    }

    /// Hands out the next action: one write per step in the fixed
    /// order, then the settle wait, then the status read.  After a
    /// failure, or at the end, there is nothing left to do.
    pub fn next_action(&self) -> (r: Option<GbeAction>)
        requires
            self.inv(),
        ensures
            self.failed() ==> r is None,
            self.step() == 14 ==> r is None,
            !self.failed() && self.step() < 12 ==> (r matches Some(a) && (a
                matches GbeAction::SendWrite(m) && m@ == gbe_write_view(self.core_name(), self.step())
                && wf_message(m@))),
            !self.failed() && self.step() == 12 ==> (r matches Some(a) && (a
                matches GbeAction::Settle(ms) && ms == gbe_settle_millis())),
            !self.failed() && self.step() == 13 ==> (r matches Some(a) && (a
                matches GbeAction::SendStatusRead(m) && m@ == read_request_view(
                self.core_name(),
                Status::spec_address() as u32,
                4,
            ) && wf_message(m@))),
    {
        if self.failed {
            return None;
        }
        match self.step {
            0 => Some(GbeAction::SendWrite(write_bool_request("tx_en", false))),
            1 => Some(
                GbeAction::SendWrite(
                    write_packed_request(
                        self.core_block.as_str(),
                        &(IpAddress { octet0: 192, octet1: 168, octet2: 5, octet3: 20 }),
                    ),
                ),
            ),
            2 => Some(
                GbeAction::SendWrite(
                    write_packed_request(self.core_block.as_str(), &(Port { port_mask: 0, port: 6000 })),
                ),
            ),
            3 => Some(
                GbeAction::SendWrite(
                    write_packed_request(
                        self.core_block.as_str(),
                        &(GatewayAddress { octet0: 192, octet1: 168, octet2: 5, octet3: 1 }),
                    ),
                ),
            ),
            4 => Some(GbeAction::SendWrite(write_int_request("dest_ip", 0xc0a80501u32))),
            5 => Some(GbeAction::SendWrite(write_int_request("dest_port", 6000))),
            6 => Some(
                GbeAction::SendWrite(
                    write_packed_request(
                        self.core_block.as_str(),
                        &(PromiscRstEn { soft_rst: false, promisc: false, enable: true }),
                    ),
                ),
            ),
            7 => Some(
                GbeAction::SendWrite(
                    write_packed_request(
                        self.core_block.as_str(),
                        &(PromiscRstEn { soft_rst: true, promisc: false, enable: true }),
                    ),
                ),
            ),
            8 => Some(
                GbeAction::SendWrite(
                    write_packed_request(
                        self.core_block.as_str(),
                        &(PromiscRstEn { soft_rst: false, promisc: false, enable: true }),
                    ),
                ),
            ),
            9 => Some(GbeAction::SendWrite(write_bool_request("tx_rst", true))),
            10 => Some(GbeAction::SendWrite(write_bool_request("tx_rst", false))),
            11 => Some(GbeAction::SendWrite(write_bool_request("tx_en", true))),
            12 => Some(GbeAction::Settle(500)),
            13 => Some(GbeAction::SendStatusRead(read_packed_request::<Status>(self.core_block.as_str()))),
            _ => None,
        }
    }

    /// Feeds back the exchange of the current write.  A successful
    /// reply advances to the next step; a reply reporting failure
    /// abandons the sequence, so no further write is ever handed out,
    /// and surfaces the device's own code.
    pub fn on_write_reply(&mut self, messages: &Vec<Message>) -> (r: Result<(), ClientError>)
        requires
            old(self).inv(),
        ensures
            final(self).inv(),
            final(self).core_name() == old(self).core_name(),
            old(self).failed() || old(self).step() >= 12 ==> (r matches Err(e) && e is Protocol
                && *final(self) == *old(self)),
            !old(self).failed() && old(self).step() < 12 ==> {
                &&& (r is Ok <==> (messages@.len() > 0 && reply_code_of(
                    messages.deep_view().last(),
                    "write"@,
                ) == Some(RetCode::Okay)))
                &&& (r is Ok ==> final(self).step() == old(self).step() + 1
                    && !final(self).failed())
                &&& (r is Err ==> final(self).failed() && final(self).step() == old(self).step())
                &&& (r matches Err(e) ==> (messages@.len() > 0 ==> match reply_code_of(
                    messages.deep_view().last(),
                    "write"@,
                ) {
                    Some(code) => e matches ClientError::Device { name, code: c } && name@
                        == messages.deep_view().last().name && c == code && code != RetCode::Okay,
                    None => e is Protocol,
                }))
            },
    {
        proof {
            reveal_strlit("write");
        }
        if self.failed || self.step >= 12 {
            return Err(ClientError::Protocol { name: String::from_str("write") });
        }
        match check_write_reply(messages) {
            Ok(()) => {
                self.step = self.step + 1;
                Ok(())
            },
            Err(e) => {
                self.failed = true;
                Err(e)
            },
        }
    }

    /// Acknowledges the settle wait.
    pub fn on_settled(&mut self) -> (r: Result<(), ClientError>)
        requires
            old(self).inv(),
        ensures
            final(self).inv(),
            final(self).core_name() == old(self).core_name(),
            old(self).failed() || old(self).step() != 12 ==> (r matches Err(e) && e is Protocol
                && *final(self) == *old(self)),
            !old(self).failed() && old(self).step() == 12 ==> r is Ok && final(self).step() == 13
                && !final(self).failed(),
    {
        if self.failed || self.step != 12 {
            return Err(ClientError::Protocol { name: String::from_str("write") });
        }
        self.step = 13;
        Ok(())
    }

    /// Feeds back the status read exchange and reports whether the
    /// link is up.  Link-down is not a failure; only a reply reporting
    /// an error, or a malformed one, abandons the sequence.
    pub fn on_status_reply(&mut self, messages: &Vec<Message>) -> (r: Result<bool, ClientError>)
        requires
            old(self).inv(),
        ensures
            final(self).inv(),
            final(self).core_name() == old(self).core_name(),
            old(self).failed() || old(self).step() != 13 ==> (r matches Err(e) && e is Protocol
                && *final(self) == *old(self)),
            !old(self).failed() && old(self).step() == 13 ==> {
                &&& (r is Ok ==> final(self).step() == 14 && !final(self).failed())
                &&& (r is Err ==> final(self).failed())
                &&& (messages@.len() > 0 ==> forall|b: Seq<u8>|
                    {
                        let last = messages.deep_view().last();
                        (reply_code_of(last, "read"@) == Some(RetCode::Okay) && last.args.len()
                            == 2 && last.args[1] == #[trigger] crate::wire::base64_of(b) && b.len()
                            == 4) ==> (r matches Ok(link) && link == Status::spec_unpack(
                            word_of_be(b),
                        ).link_up)
                    })
                &&& (r matches Err(e) ==> (messages@.len() > 0 ==> match reply_code_of(
                    messages.deep_view().last(),
                    "read"@,
                ) {
                    Some(code) => code != RetCode::Okay ==> (e matches ClientError::Device {
                        name,
                        code: c,
                    } && name@ == messages.deep_view().last().name && c == code),
                    None => e is Protocol,
                }))
            },
    {
        proof {
            reveal_strlit("read");
        }
        if self.failed || self.step != 13 {
            return Err(ClientError::Protocol { name: String::from_str("read") });
        }
        let bytes = match parse_read_reply(messages) {
            Ok(b) => b,
            Err(e) => {
                self.failed = true;
                return Err(e);
            },
        };
        match packed_from_bytes::<Status>(bytes.as_slice()) {
            Ok(st) => {
                self.step = 14;
                Ok(st.link_up)
            },
            Err(e) => {
                self.failed = true;
                Err(e)
            },
        }
    }
}

} // verus!
