//! The 65,536-word memory, with the memory-mapped keyboard words.

use vstd::prelude::*;
use vstd::slice::slice_subrange;

use crate::console::{poll_events, Console, ConsoleEvent};
use crate::semantics::{read_rel, read_rel_traced, KBDR_ADDRESS, KBSR_ADDRESS, MEMORY_SIZE};
use crate::VmError;

verus! {

/// A memory-mapped device register: an address whose read is intercepted
/// to interact with the keyboard instead of plain storage.
#[derive(Clone, Copy, Debug, PartialEq, Eq, Structural)]
pub enum MemoryMappedRegister {
    /// Keyboard status.
    KBSR,
    /// Keyboard data.
    KBDR,
}

impl MemoryMappedRegister {
    /// The address this register is mapped at.
    pub open spec fn address_spec(self) -> u16 {
        match self {
            MemoryMappedRegister::KBSR => KBSR_ADDRESS,
            MemoryMappedRegister::KBDR => KBDR_ADDRESS,
        }
    }

    /// The address this register is mapped at: 0xFE00 for the status word,
    /// 0xFE02 for the data word.
    pub fn address(self) -> (address: u16)
        ensures
            address == self.address_spec(),
    {
        match self {
            MemoryMappedRegister::KBSR => 0xFE00,
            MemoryMappedRegister::KBDR => 0xFE02,
        }
    }
}

/// The memory subsystem: one 16-bit word per address 0x0000..=0xFFFF,
/// viewed as a sequence of 65,536 words.
pub struct Memory {
    data: Vec<u16>,
}

impl View for Memory {
    type V = Seq<u16>;

    closed spec fn view(&self) -> Seq<u16> {
        self.data@
    }
}

impl Memory {
    /// The memory holds exactly one word per address.
    pub open spec fn wf(&self) -> bool {
        self@.len() == MEMORY_SIZE
    }

    /// Creates a zeroed memory.
    pub fn new() -> (memory: Self)
        ensures
            memory.wf(),
            forall|a: int| 0 <= a < MEMORY_SIZE ==> memory@[a] == 0u16,
    {
        Memory { data: vec![0u16; MEMORY_SIZE] }
    }

    /// Reads a word.
    ///
    /// Reading the keyboard status address polls the console: if a key is
    /// available it is consumed, bit 15 of the status word is set and the
    /// key is copied into the data word; otherwise the status word is
    /// cleared. The (possibly just-updated) status word is returned. Every
    /// other address, the keyboard data word included, is plain storage, so
    /// a consumer must read status before data. A console failure during
    /// the poll surfaces as [`VmError::IoFailure`].
    pub fn read<C: Console>(&mut self, address: u16, console: &mut C) -> (result: Result<
        u16,
        VmError,
    >)
        requires
            old(self).wf(),
        ensures
            final(self).wf(),
            final(console).io_reliable() == old(console).io_reliable(),
            old(console).events().is_prefix_of(final(console).events()),
            address != KBSR_ADDRESS ==> final(self)@ == old(self)@ && result == Ok::<u16, VmError>(
                old(self)@[address as int],
            ) && final(console).events() == old(console).events(),
            match result {
                Ok(value) => read_rel(old(self)@, address, final(self)@, value)
                    && read_rel_traced(
                    old(self)@,
                    address,
                    final(self)@,
                    value,
                    old(console).events(),
                    final(console).events(),
                ),
                Err(e) => {
                    &&& e == VmError::IoFailure
                    &&& address == KBSR_ADDRESS
                    &&& ((final(self)@ == old(self)@ && final(console).events() == old(
                        console,
                    ).events().push(ConsoleEvent::KeyPolled(None))) || (final(self)@ == old(
                        self,
                    )@.update(KBSR_ADDRESS as int, 0x8000u16) && final(console).events() == old(
                        console,
                    ).events() + seq![
                        ConsoleEvent::KeyPolled(Some(true)),
                        ConsoleEvent::KeyRead(None),
                    ]))
                },
            },
    {
        proof {
            crate::console::lemma_prefix_reflexive(old(console).events());
        }
        if address == KBSR_ADDRESS {
            let ghost trace0 = console.events();
            match console.check_key() {
                Err(_) => {
                    proof {
                        crate::console::lemma_prefix_push(
                            trace0,
                            ConsoleEvent::KeyPolled(None::<bool>),
                        );
                    }
                    Err(VmError::IoFailure)
                },
                Ok(true) => {
                    self.data[KBSR_ADDRESS as usize] = 0x8000;
                    match console.read_key() {
                        Err(_) => {
                            proof {
                                assert(console.events() =~= trace0 + seq![
                                    ConsoleEvent::KeyPolled(Some(true)),
                                    ConsoleEvent::KeyRead(None),
                                ]);
                                crate::console::lemma_prefix_extend(
                                    trace0,
                                    seq![
                                        ConsoleEvent::KeyPolled(Some(true)),
                                        ConsoleEvent::KeyRead(None),
                                    ],
                                );
                            }
                            Err(VmError::IoFailure)
                        },
                        Ok(key) => {
                            self.data[KBDR_ADDRESS as usize] = key as u16;
                            proof {
                                assert(self@ =~= crate::semantics::poll_update(
                                    old(self)@,
                                    Some(key),
                                ));
                                assert(console.events() =~= trace0 + poll_events(Some(key)));
                                crate::console::lemma_prefix_extend(
                                    trace0,
                                    poll_events(Some(key)),
                                );
                            }
                            Ok(self.data[KBSR_ADDRESS as usize])
                        },
                    }
                },
                Ok(false) => {
                    self.data[KBSR_ADDRESS as usize] = 0;
                    proof {
                        assert(self@ =~= crate::semantics::poll_update(old(self)@, None::<u8>));
                        assert(console.events() =~= trace0 + poll_events(None::<u8>));
                        crate::console::lemma_prefix_extend(trace0, poll_events(None::<u8>));
                    }
                    Ok(self.data[KBSR_ADDRESS as usize])
                },
            }
        } else {
            Ok(self.data[address as usize])
        }
    }

    /// Writes a word. Every address is plain storage for writes, the
    /// keyboard-mapped words included.
    pub fn write(&mut self, address: u16, value: u16)
        requires
            old(self).wf(),
        ensures
            final(self).wf(),
            final(self)@ == old(self)@.update(address as int, value),
    {
        self.data[address as usize] = value;
    }

    /// The memory contents from `address` to the end of the address space.
    pub fn get_ptr(&self, address: u16) -> (words: &[u16])
        requires
            self.wf(),
        ensures
            words@ == self@.subrange(address as int, MEMORY_SIZE as int),
    {
        slice_subrange(self.data.as_slice(), address as usize, MEMORY_SIZE)
    }
}

} // verus!
