//! The register file: raw values per base register, a register-definition
//! table, and the bit-packed index encoding through which sub-register
//! ("meta register") views of a base register are read and written.
//!
//! A register index is a 32-bit integer: bits 0-15 hold the base register
//! index, bits 16-23 an alias width in bits, bits 24-31 an alias bit-offset.
//! An index is a meta register iff the width or offset bits are non-zero.

use vstd::prelude::*;
use crate::error::Error;

verus! {

/// A named sub-register view of a base register.
#[derive(Clone, Debug)]
pub struct MetaRegister {
    /// The display name of the alias.
    pub name: String,
    /// The packed register index of the alias.
    pub index: u32,
    /// The width of the alias in bits.
    pub size: u32,
    /// The right-shift applied before masking.
    pub shift_offset: u32,
}

/// A named single-flag view of the status register.
#[derive(Clone, Debug)]
pub struct StatusMetaRegister {
    /// The display name of the flag.
    pub name: String,
    /// The packed register index of the flag.
    pub index: u32,
    /// The width of the flag in bits.
    pub size: u32,
    /// The right-shift applied before masking.
    pub shift_offset: u32,
    /// A human description of the flag.
    pub description: String,
}

/// The runtime state of one register file.
#[derive(Clone, Debug)]
pub struct RegisterContextData {
    /// The raw value of each base register.
    pub vals: Vec<u32>,
    /// True iff any register was written since the flag was last cleared.
    pub dirty: bool,
    /// The register index of the program counter.
    pub pc_index: u32,
    /// The register index of the stack pointer.
    pub sp_index: u32,
    /// The register index of the status register, if one is configured.
    pub sr_index: Option<u32>,
    /// The canonical ordered table of `(name, width_bits)` per base register.
    pub reg_def: Vec<(String, i32)>,
    /// The meta-register descriptors used for display and introspection.
    pub reg_metas: Vec<MetaRegister>,
    /// The per-bit status register descriptors, if configured.
    pub stat_metas: Option<Vec<StatusMetaRegister>>,
}

/// The base register index packed in bits 0-15 of `index`.
pub open spec fn reg_base(index: u32) -> int {
    (index & 0xffff) as int
}

/// The alias bit-offset packed in bits 24-31 of `index`.
pub open spec fn reg_offset(index: u32) -> u32 {
    (index >> 24) & 0xff
}

/// The alias width in bits packed in bits 16-23 of `index`.
pub open spec fn reg_width(index: u32) -> u32 {
    (index >> 16) & 0xff
}

/// True iff `index` refers to a sub-register view rather than a plain base
/// register: some offset or width bit is set.
pub open spec fn is_meta(index: u32) -> bool {
    index & 0xffff != index
}

/// The bits of `raw` selected by an alias: shifted right by `off`, then
/// masked to `w` bits. A zero width selects nothing and yields zero.
pub open spec fn reg_slice(raw: u32, off: u32, w: u32) -> u32 {
    if w == 0 {
        0
    } else if w >= 32 {
        raw
    } else {
        (raw >> off) & (((1u32 << w) - 1) as u32)
    }
}

/// `raw` with the `w` bits at `off` replaced by the low `w` bits of `value`;
/// every other bit of `raw` is untouched. A zero width writes nothing.
pub open spec fn reg_merge(raw: u32, off: u32, w: u32, value: u32) -> u32 {
    if w == 0 {
        raw
    } else if w >= 32 {
        value
    } else {
        (raw & !((((1u32 << w) - 1) as u32) << off)) | ((value & (((1u32 << w) - 1) as u32))
            << off)
    }
}

/// A well-formed register file: one raw value per table entry.
pub open spec fn rc_wf(d: RegisterContextData) -> bool {
    d.vals@.len() == d.reg_def@.len()
}

/// True iff `index` can be read or written in `d`: its base index addresses
/// a table entry and its offset and width select bits of a 32-bit register.
pub open spec fn reg_index_ok(d: RegisterContextData, index: u32) -> bool {
    &&& reg_base(index) < d.vals@.len()
    &&& reg_offset(index) + reg_width(index) <= 32
}

/// The value reading `index` yields: the raw base value, or its alias slice
/// for a meta register.
pub open spec fn reg_value(d: RegisterContextData, index: u32) -> u32 {
    if is_meta(index) {
        reg_slice(d.vals@[reg_base(index)], reg_offset(index), reg_width(index))
    } else {
        d.vals@[reg_base(index)]
    }
}

/// The raw base value writing `value` through `index` leaves behind.
pub open spec fn reg_written(d: RegisterContextData, index: u32, value: u32) -> u32 {
    if is_meta(index) {
        reg_merge(d.vals@[reg_base(index)], reg_offset(index), reg_width(index), value)
    } else {
        value
    }
}

/// Everything of `post` but raw values and the dirty flag equals `pre`.
pub open spec fn rc_same_layout(pre: RegisterContextData, post: RegisterContextData) -> bool {
    &&& post.pc_index == pre.pc_index
    &&& post.sp_index == pre.sp_index
    &&& post.sr_index == pre.sr_index
    &&& post.reg_def == pre.reg_def
    &&& post.reg_metas == pre.reg_metas
    &&& post.stat_metas == pre.stat_metas
}

/// Reading back an alias just written through returns the written value,
/// masked to the alias width: the slice of a merge is the masked value.
pub proof fn lemma_meta_register_round_trip(raw: u32, off: u32, w: u32, value: u32)
    requires
        off + w <= 32,
    ensures
        reg_slice(reg_merge(raw, off, w, value), off, w) == if w == 0 {
            0u32
        } else if w >= 32 {
            value
        } else {
            value & (((1u32 << w) - 1) as u32)
        },
{
    if w == 0 {
    } else if w >= 32 {
        assert(off == 0);
        assert(reg_slice(value, 0, 32) == value);
    } else {
        let mask = ((1u32 << w) - 1) as u32;
        let merged = (raw & !(mask << off)) | ((value & mask) << off);
        assert(((merged >> off) & mask) == (value & mask)) by (bit_vector)
            requires
                off + w <= 32,
                0 < w < 32,
                mask == ((1u32 << w) - 1) as u32,
                merged == (raw & !(mask << off)) | ((value & mask) << off),
        ;
    }
}

/// Writing through an alias leaves every bit outside the alias range as it
/// was in the raw base value.
pub proof fn lemma_meta_register_write_outside(raw: u32, off: u32, w: u32, value: u32, bit: u32)
    requires
        off + w <= 32,
        bit < 32,
        !(off <= bit < off + w),
    ensures
        (reg_merge(raw, off, w, value) >> bit) & 1 == (raw >> bit) & 1,
{
    if w == 0 {
    } else if w >= 32 {
        assert(false);
    } else {
        let mask = ((1u32 << w) - 1) as u32;
        let merged = (raw & !(mask << off)) | ((value & mask) << off);
        assert(((merged >> bit) & 1) == ((raw >> bit) & 1)) by (bit_vector)
            requires
                off + w <= 32,
                0 < w < 32,
                bit < 32,
                !(off <= bit < off + w),
                mask == ((1u32 << w) - 1) as u32,
                merged == (raw & !(mask << off)) | ((value & mask) << off),
        ;
    }
}

/// The register-file interface: raw and aliased reads and writes, the
/// definition table, snapshots, and the designated program-counter, stack
/// and status registers. `RegisterContextData` is the canonical
/// implementation; an emulator embedding its own storage implements
/// `get_data` and the mutators and inherits the rest.
pub trait RegisterContext: Sized {
    /// The register file as the contracts see it.
    spec fn reg_data(&self) -> RegisterContextData;

    fn get_data(&self) -> (r: &RegisterContextData)
        ensures
            *r == self.reg_data(),
    ;

    /// Clears or sets the dirty flag, e.g. after a checkpoint.
    fn set_is_dirty(&mut self, dirty: bool)
        ensures
            final(self).reg_data().dirty == dirty,
            final(self).reg_data().vals == old(self).reg_data().vals,
            rc_same_layout(old(self).reg_data(), final(self).reg_data()),
    ;

    /// Designates the program-counter, stack-pointer and status registers.
    fn set_register_indexes(&mut self, pc_index: u32, sp_index: u32, sr_index: Option<u32>)
        ensures
            final(self).reg_data().pc_index == pc_index,
            final(self).reg_data().sp_index == sp_index,
            final(self).reg_data().sr_index == sr_index,
            final(self).reg_data().vals == old(self).reg_data().vals,
            final(self).reg_data().dirty == old(self).reg_data().dirty,
            final(self).reg_data().reg_def == old(self).reg_data().reg_def,
            final(self).reg_data().reg_metas == old(self).reg_data().reg_metas,
            final(self).reg_data().stat_metas == old(self).reg_data().stat_metas,
    ;

    /// Replaces the register table and resets every value to `defval` (or
    /// zero); clears the dirty flag.
    fn load_reg_def(&mut self, reg_def: Vec<(String, i32)>, defval: Option<u32>)
        ensures
            final(self).reg_data().reg_def == reg_def,
            final(self).reg_data().vals@.len() == reg_def@.len(),
            forall|i: int|
                0 <= i < reg_def@.len() ==> final(self).reg_data().vals@[i] == (match defval {
                    Some(v) => v,
                    None => 0u32,
                }),
            final(self).reg_data().dirty == false,
            final(self).reg_data().pc_index == old(self).reg_data().pc_index,
            final(self).reg_data().sp_index == old(self).reg_data().sp_index,
            final(self).reg_data().sr_index == old(self).reg_data().sr_index,
            final(self).reg_data().reg_metas == old(self).reg_data().reg_metas,
            final(self).reg_data().stat_metas == old(self).reg_data().stat_metas,
            rc_wf(final(self).reg_data()),
    ;

    /// Installs the meta-register and status-bit descriptors; raw values
    /// are untouched.
    fn load_reg_metas(
        &mut self,
        reg_metas: Vec<MetaRegister>,
        stat_metas: Option<Vec<StatusMetaRegister>>,
    )
        ensures
            final(self).reg_data().reg_metas == reg_metas,
            final(self).reg_data().stat_metas == stat_metas,
            final(self).reg_data().vals == old(self).reg_data().vals,
            final(self).reg_data().dirty == old(self).reg_data().dirty,
            final(self).reg_data().pc_index == old(self).reg_data().pc_index,
            final(self).reg_data().sp_index == old(self).reg_data().sp_index,
            final(self).reg_data().sr_index == old(self).reg_data().sr_index,
            final(self).reg_data().reg_def == old(self).reg_data().reg_def,
    ;

    /// Appends one meta-register descriptor.
    fn add_meta_register(&mut self, reg_meta: MetaRegister)
        ensures
            final(self).reg_data().reg_metas@ == old(self).reg_data().reg_metas@.push(reg_meta),
            final(self).reg_data().vals == old(self).reg_data().vals,
            final(self).reg_data().dirty == old(self).reg_data().dirty,
            final(self).reg_data().pc_index == old(self).reg_data().pc_index,
            final(self).reg_data().sp_index == old(self).reg_data().sp_index,
            final(self).reg_data().sr_index == old(self).reg_data().sr_index,
            final(self).reg_data().reg_def == old(self).reg_data().reg_def,
            final(self).reg_data().stat_metas == old(self).reg_data().stat_metas,
    ;

    /// Writes `value` through `index`: a plain write to a base register, or
    /// a read-modify-write of only the aliased bits for a meta register.
    /// Sets the dirty flag. Fails with `InvalidRegisterName`, and changes
    /// nothing, when the base index is out of range or the encoding selects
    /// bits beyond a 32-bit register.
    fn set_register(&mut self, index: u32, value: u32) -> (r: Result<(), Error>)
        requires
            rc_wf(old(self).reg_data()),
        ensures
            r is Ok <==> reg_index_ok(old(self).reg_data(), index),
            r is Ok ==> final(self).reg_data().vals@ == old(self).reg_data().vals@.update(
                reg_base(index),
                reg_written(old(self).reg_data(), index, value),
            ),
            r is Ok ==> final(self).reg_data().dirty == true,
            r is Err ==> *final(self) == *old(self) && r->Err_0 is InvalidRegisterName,
            rc_same_layout(old(self).reg_data(), final(self).reg_data()),
            rc_wf(final(self).reg_data()),
    ;

    /// Restores a raw-value snapshot and clears the dirty flag. Fails, and
    /// changes nothing, when the snapshot does not match the table.
    fn set_register_snap(&mut self, snap: Vec<u32>) -> (r: Result<(), Error>)
        requires
            rc_wf(old(self).reg_data()),
        ensures
            r is Ok <==> snap@.len() == old(self).reg_data().reg_def@.len(),
            r is Ok ==> final(self).reg_data().vals@ == snap@ && final(self).reg_data().dirty
                == false,
            r is Err ==> *final(self) == *old(self) && r->Err_0 is InvalidState,
            rc_same_layout(old(self).reg_data(), final(self).reg_data()),
            rc_wf(final(self).reg_data()),
    ;

    /// Restores the state captured by `get_register_info`. Fails, and
    /// changes nothing, when the raw values do not match the table.
    fn set_register_info(&mut self, reg_info: (u32, Vec<MetaRegister>, u32, u32, Vec<u32>)) -> (r:
        Result<(), Error>)
        requires
            rc_wf(old(self).reg_data()),
        ensures
            r is Ok <==> reg_info.4@.len() == old(self).reg_data().reg_def@.len(),
            r is Ok ==> {
                let post = final(self).reg_data();
                &&& post.pc_index == reg_info.0
                &&& post.reg_metas == reg_info.1
                &&& post.sp_index == reg_info.2
                &&& post.sr_index == if reg_info.3 == 0xffffffffu32 {
                    None::<u32>
                } else {
                    Some(reg_info.3)
                }
                &&& post.vals@ == reg_info.4@
                &&& post.dirty == true
                &&& post.reg_def == old(self).reg_data().reg_def
                &&& post.stat_metas == old(self).reg_data().stat_metas
            },
            r is Err ==> *final(self) == *old(self) && r->Err_0 is InvalidState,
            rc_wf(final(self).reg_data()),
    ;

    /// A copy of every raw register value, for save-state and rewind.
    fn get_register_snap(&self) -> (r: Vec<u32>)
        ensures
            r@ == self.reg_data().vals@,
    {
        let data = self.get_data();
        let mut out: Vec<u32> = Vec::new();
        let mut i: usize = 0;
        while i < data.vals.len()
            invariant
                i <= data.vals@.len(),
                out@ == data.vals@.subrange(0, i as int),
                *data == self.reg_data(),
            decreases data.vals@.len() - i,
        {
            out.push(data.vals[i]);
            proof {
                assert(out@ =~= data.vals@.subrange(0, i + 1));
            }
            i += 1;
        }
        proof {
            assert(out@ =~= data.vals@);
        }
        out
    }

    /// True iff register state changed since the flag was last cleared.
    fn is_dirty(&self) -> (r: bool)
        ensures
            r == self.reg_data().dirty,
    {
        self.get_data().dirty
    }

    /// A copy of the register-definition table.
    fn get_reg_def(&self) -> (r: Vec<(String, i32)>)
        ensures
            r@ == self.reg_data().reg_def@,
    {
        let data = self.get_data();
        let mut out: Vec<(String, i32)> = Vec::new();
        let mut i: usize = 0;
        while i < data.reg_def.len()
            invariant
                i <= data.reg_def@.len(),
                out@ == data.reg_def@.subrange(0, i as int),
                *data == self.reg_data(),
            decreases data.reg_def@.len() - i,
        {
            let entry = &data.reg_def[i];
            out.push((entry.0.clone(), entry.1));
            proof {
                assert(out@ =~= data.reg_def@.subrange(0, i + 1));
            }
            i += 1;
        }
        proof {
            assert(out@ =~= data.reg_def@);
        }
        out
    }

    /// True iff `index` is a meta register: its offset or width bits are
    /// non-zero, so it does not equal its own base index.
    fn is_meta_register(&self, index: u32) -> (r: bool)
        ensures
            r == is_meta(index),
    {
        (index & 0xffff) != index
    }

    /// Applies the alias encoding of `index` to a raw value: shift right by
    /// the offset, mask to the width.
    fn _xlate_to_meta_reg(&self, index: u32, value: u32) -> (r: u32)
        requires
            reg_offset(index) + reg_width(index) <= 32,
        ensures
            r == reg_slice(value, reg_offset(index), reg_width(index)),
    {
        let offset = (index >> 24) & 0xff;
        let width = (index >> 16) & 0xff;
        if width == 0 {
            0
        } else if width == 32 {
            value
        } else {
            proof {
                let w2 = width;
                assert(w2 < 32 ==> 1u32 << w2 >= 1) by (bit_vector);
            }
            let mask = (1u32 << width) - 1;
            (value >> offset) & mask
        }
    }

    /// Reads `index`: the raw value of a base register, or the decoded
    /// alias slice of a meta register. Fails with `InvalidRegisterName`
    /// when the base index is out of range or the encoding selects bits
    /// beyond a 32-bit register.
    fn get_register(&self, index: u32) -> (r: Result<u32, Error>)
        requires
            rc_wf(self.reg_data()),
        ensures
            r is Ok <==> reg_index_ok(self.reg_data(), index),
            r is Ok ==> r->Ok_0 == reg_value(self.reg_data(), index),
            r is Err ==> r->Err_0 is InvalidRegisterName,
    {
        let data = self.get_data();
        proof {
            assert(index & 0xffff <= 0xffff) by (bit_vector);
        }
        let rindx = (index & 0xffff) as usize;
        if rindx >= data.vals.len() {
            return Err(Error::InvalidRegisterName("register index out of range".to_owned()));
        }
        let offset = (index >> 24) & 0xff;
        let width = (index >> 16) & 0xff;
        proof {
            assert((index >> 24) & 0xff <= 0xff && (index >> 16) & 0xff <= 0xff) by (bit_vector);
        }
        if offset + width > 32 {
            return Err(
                Error::InvalidRegisterName("register alias reaches beyond 32 bits".to_owned()),
            );
        }
        let value = data.vals[rindx];
        if (rindx as u32) != index {
            Ok(self._xlate_to_meta_reg(index, value))
        } else {
            proof {
                let idx2 = index;
                assert(idx2 & 0xffff == idx2 ==> !is_meta(idx2)) by (bit_vector);
            }
            Ok(value)
        }
    }

    /// The state needed to restore this file: program-counter index, the
    /// meta-register table (empty when `meta` is `Some(false)`),
    /// stack-pointer index, the status-register index (`0xffffffff` when
    /// none is configured), and a raw-value snapshot.
    fn get_register_info(&self, meta: Option<bool>) -> (r: (
        u32,
        Vec<MetaRegister>,
        u32,
        u32,
        Vec<u32>,
    ))
        ensures
            r.0 == self.reg_data().pc_index,
            (match meta {
                Some(false) => r.1@.len() == 0,
                _ => r.1@ == self.reg_data().reg_metas@,
            }),
            r.2 == self.reg_data().sp_index,
            r.3 == (match self.reg_data().sr_index {
                Some(sr) => sr,
                None => 0xffffffffu32,
            }),
            r.4@ == self.reg_data().vals@,
    {
        let data = self.get_data();
        let include_metas = match meta {
            Some(false) => false,
            _ => true,
        };
        let mut metas: Vec<MetaRegister> = Vec::new();
        if include_metas {
            let mut i: usize = 0;
            while i < data.reg_metas.len()
                invariant
                    i <= data.reg_metas@.len(),
                    metas@ == data.reg_metas@.subrange(0, i as int),
                    *data == self.reg_data(),
                decreases data.reg_metas@.len() - i,
            {
                let m = &data.reg_metas[i];
                metas.push(
                    MetaRegister {
                        name: m.name.clone(),
                        index: m.index,
                        size: m.size,
                        shift_offset: m.shift_offset,
                    },
                );
                proof {
                    assert(metas@ =~= data.reg_metas@.subrange(0, i + 1));
                }
                i += 1;
            }
            proof {
                assert(metas@ =~= data.reg_metas@);
            }
        }
        let sr = match data.sr_index {
            Some(sr) => sr,
            None => 0xffffffff,
        };
        (data.pc_index, metas, data.sp_index, sr, self.get_register_snap())
    }

    /// The name of the base register `index` refers to, or nothing when the
    /// base index is out of range.
    fn get_register_name(&self, index: u32) -> (r: Option<String>)
        ensures
            match r {
                Some(n) => reg_base(index) < self.reg_data().reg_def@.len() && n@ == self.reg_data(
                ).reg_def@[reg_base(index)].0@,
                None => reg_base(index) >= self.reg_data().reg_def@.len(),
            },
    {
        let data = self.get_data();
        proof {
            assert(index & 0xffff <= 0xffff) by (bit_vector);
        }
        let rindx = (index & 0xffff) as usize;
        if rindx < data.reg_def.len() {
            Some(data.reg_def[rindx].0.clone())
        } else {
            None
        }
    }

    /// The names of every base register, in table order.
    fn get_register_names(&self) -> (r: Vec<String>)
        ensures
            r@.len() == self.reg_data().reg_def@.len(),
            forall|i: int|
                0 <= i < r@.len() ==> (#[trigger] r@[i])@ == self.reg_data().reg_def@[i].0@,
    {
        let data = self.get_data();
        let mut out: Vec<String> = Vec::new();
        let mut i: usize = 0;
        while i < data.reg_def.len()
            invariant
                i <= data.reg_def@.len(),
                out@.len() == i,
                forall|k: int| 0 <= k < i ==> (#[trigger] out@[k])@ == data.reg_def@[k].0@,
                *data == self.reg_data(),
            decreases data.reg_def@.len() - i,
        {
            out.push(data.reg_def[i].0.clone());
            i += 1;
        }
        out
    }

    /// Every base register as a `(name, raw value)` pair, in table order.
    fn get_registers(&self) -> (r: Vec<(String, u32)>)
        requires
            rc_wf(self.reg_data()),
        ensures
            r@.len() == self.reg_data().reg_def@.len(),
            forall|i: int|
                0 <= i < r@.len() ==> (#[trigger] r@[i]).0@ == self.reg_data().reg_def@[i].0@
                    && r@[i].1 == self.reg_data().vals@[i],
    {
        let data = self.get_data();
        let mut out: Vec<(String, u32)> = Vec::new();
        let mut i: usize = 0;
        while i < data.reg_def.len()
            invariant
                i <= data.reg_def@.len(),
                data.vals@.len() == data.reg_def@.len(),
                out@.len() == i,
                forall|k: int|
                    0 <= k < i ==> (#[trigger] out@[k]).0@ == data.reg_def@[k].0@ && out@[k].1
                        == data.vals@[k],
                *data == self.reg_data(),
            decreases data.reg_def@.len() - i,
        {
            out.push((data.reg_def[i].0.clone(), data.vals[i]));
            i += 1;
        }
        out
    }

    /// Reads the designated program counter; a normal `get_register`.
    fn get_program_counter(&self) -> (r: Result<u32, Error>)
        requires
            rc_wf(self.reg_data()),
        ensures
            r is Ok <==> reg_index_ok(self.reg_data(), self.reg_data().pc_index),
            r is Ok ==> r->Ok_0 == reg_value(self.reg_data(), self.reg_data().pc_index),
            r is Err ==> r->Err_0 is InvalidRegisterName,
    {
        let pc = self.get_data().pc_index;
        self.get_register(pc)
    }

    /// Writes the designated program counter; a normal `set_register`.
    fn set_program_counter(&mut self, pc: u32) -> (r: Result<(), Error>)
        requires
            rc_wf(old(self).reg_data()),
        ensures
            r is Ok <==> reg_index_ok(old(self).reg_data(), old(self).reg_data().pc_index),
            r is Ok ==> final(self).reg_data().vals@ == old(self).reg_data().vals@.update(
                reg_base(old(self).reg_data().pc_index),
                reg_written(old(self).reg_data(), old(self).reg_data().pc_index, pc),
            ) && final(self).reg_data().dirty == true,
            r is Err ==> *final(self) == *old(self) && r->Err_0 is InvalidRegisterName,
            rc_same_layout(old(self).reg_data(), final(self).reg_data()),
            rc_wf(final(self).reg_data()),
    {
        let index = self.get_data().pc_index;
        self.set_register(index, pc)
    }

    /// Reads the designated stack pointer; a normal `get_register`.
    fn get_stack_counter(&self) -> (r: Result<u32, Error>)
        requires
            rc_wf(self.reg_data()),
        ensures
            r is Ok <==> reg_index_ok(self.reg_data(), self.reg_data().sp_index),
            r is Ok ==> r->Ok_0 == reg_value(self.reg_data(), self.reg_data().sp_index),
            r is Err ==> r->Err_0 is InvalidRegisterName,
    {
        let sp = self.get_data().sp_index;
        self.get_register(sp)
    }

    /// Writes the designated stack pointer; a normal `set_register`.
    fn set_stack_counter(&mut self, sp: u32) -> (r: Result<(), Error>)
        requires
            rc_wf(old(self).reg_data()),
        ensures
            r is Ok <==> reg_index_ok(old(self).reg_data(), old(self).reg_data().sp_index),
            r is Ok ==> final(self).reg_data().vals@ == old(self).reg_data().vals@.update(
                reg_base(old(self).reg_data().sp_index),
                reg_written(old(self).reg_data(), old(self).reg_data().sp_index, sp),
            ) && final(self).reg_data().dirty == true,
            r is Err ==> *final(self) == *old(self) && r->Err_0 is InvalidRegisterName,
            rc_same_layout(old(self).reg_data(), final(self).reg_data()),
            rc_wf(final(self).reg_data()),
    {
        let index = self.get_data().sp_index;
        self.set_register(index, sp)
    }

    /// True iff a status register is configured.
    fn has_status_register(&self) -> (r: bool)
        ensures
            r == (self.reg_data().sr_index is Some),
    {
        self.get_data().sr_index.is_some()
    }

    /// The `(name, description)` of every configured status-register flag,
    /// or nothing when no status descriptors are installed.
    fn get_status_reg_name_desc(&self) -> (r: Option<Vec<(String, String)>>)
        ensures
            match r {
                Some(pairs) => {
                    &&& self.reg_data().stat_metas is Some
                    &&& pairs@.len() == self.reg_data().stat_metas->Some_0@.len()
                    &&& forall|i: int|
                        0 <= i < pairs@.len() ==> (#[trigger] pairs@[i]).0@ == self.reg_data(
                        ).stat_metas->Some_0@[i].name@ && pairs@[i].1@ == self.reg_data(
                        ).stat_metas->Some_0@[i].description@
                },
                None => self.reg_data().stat_metas is None,
            },
    {
        let data = self.get_data();
        match &data.stat_metas {
            None => None,
            Some(stats) => {
                let mut out: Vec<(String, String)> = Vec::new();
                let mut i: usize = 0;
                while i < stats.len()
                    invariant
                        i <= stats@.len(),
                        out@.len() == i,
                        data.stat_metas == Some(*stats),
                        forall|k: int|
                            0 <= k < i ==> (#[trigger] out@[k]).0@ == stats@[k].name@ && out@[k].1@
                                == stats@[k].description@,
                        *data == self.reg_data(),
                    decreases stats@.len() - i,
                {
                    out.push((stats[i].name.clone(), stats[i].description.clone()));
                    i += 1;
                }
                Some(out)
            },
        }
    }
}

impl RegisterContextData {
    /// An empty register file: no table, no values, nothing designated.
    pub fn new() -> (r: Self)
        ensures
            r.vals@.len() == 0,
            r.reg_def@.len() == 0,
            r.reg_metas@.len() == 0,
            r.stat_metas is None,
            r.dirty == false,
            r.pc_index == 0,
            r.sp_index == 0,
            r.sr_index is None,
            rc_wf(r),
    {
        RegisterContextData {
            vals: Vec::new(),
            dirty: false,
            pc_index: 0,
            sp_index: 0,
            sr_index: None,
            reg_def: Vec::new(),
            reg_metas: Vec::new(),
            stat_metas: None,
        }
    }
}

impl RegisterContext for RegisterContextData {
    open spec fn reg_data(&self) -> RegisterContextData {
        *self
    }

    fn get_data(&self) -> (r: &RegisterContextData) {
        self
    }

    fn set_is_dirty(&mut self, dirty: bool) {
        self.dirty = dirty;
    }

    fn set_register_indexes(&mut self, pc_index: u32, sp_index: u32, sr_index: Option<u32>) {
        self.pc_index = pc_index;
        self.sp_index = sp_index;
        self.sr_index = sr_index;
    }

    fn load_reg_def(&mut self, reg_def: Vec<(String, i32)>, defval: Option<u32>) {
        let v = match defval {
            Some(v) => v,
            None => 0,
        };
        let mut vals: Vec<u32> = Vec::new();
        let mut i: usize = 0;
        while i < reg_def.len()
            invariant
                i <= reg_def@.len(),
                vals@.len() == i,
                forall|k: int| 0 <= k < i ==> vals@[k] == v,
            decreases reg_def@.len() - i,
        {
            vals.push(v);
            i += 1;
        }
        self.vals = vals;
        self.reg_def = reg_def;
        self.dirty = false;
    }

    fn load_reg_metas(
        &mut self,
        reg_metas: Vec<MetaRegister>,
        stat_metas: Option<Vec<StatusMetaRegister>>,
    ) {
        self.reg_metas = reg_metas;
        self.stat_metas = stat_metas;
    }

    fn add_meta_register(&mut self, reg_meta: MetaRegister) {
        self.reg_metas.push(reg_meta);
    }

    fn set_register(&mut self, index: u32, value: u32) -> (r: Result<(), Error>) {
        proof {
            assert(index & 0xffff <= 0xffff) by (bit_vector);
            assert((index >> 24) & 0xff <= 0xff && (index >> 16) & 0xff <= 0xff) by (bit_vector);
        }
        let rindx = (index & 0xffff) as usize;
        if rindx >= self.vals.len() {
            return Err(Error::InvalidRegisterName("register index out of range".to_owned()));
        }
        let offset = (index >> 24) & 0xff;
        let width = (index >> 16) & 0xff;
        if offset + width > 32 {
            return Err(
                Error::InvalidRegisterName("register alias reaches beyond 32 bits".to_owned()),
            );
        }
        let raw = self.vals[rindx];
        let newval: u32 = if (rindx as u32) != index {
            if width == 0 {
                raw
            } else if width == 32 {
                value
            } else {
                proof {
                    let w2 = width;
                    assert(w2 < 32 ==> 1u32 << w2 >= 1) by (bit_vector);
                }
                let mask = (1u32 << width) - 1;
                (raw & !(mask << offset)) | ((value & mask) << offset)
            }
        } else {
            proof {
                let idx2 = index;
                assert(idx2 & 0xffff == idx2 ==> !is_meta(idx2)) by (bit_vector);
            }
            value
        };
        self.vals[rindx] = newval;
        self.dirty = true;
        Ok(())
    }

    fn set_register_snap(&mut self, snap: Vec<u32>) -> (r: Result<(), Error>) {
        if snap.len() != self.reg_def.len() {
            return Err(Error::InvalidState("snapshot does not match the register table".to_owned()));
        }
        self.vals = snap;
        self.dirty = false;
        Ok(())
    }

    fn set_register_info(&mut self, reg_info: (u32, Vec<MetaRegister>, u32, u32, Vec<u32>)) -> (r:
        Result<(), Error>) {
        let (pc_index, reg_metas, sp_index, sr, vals) = reg_info;
        if vals.len() != self.reg_def.len() {
            return Err(Error::InvalidState("values do not match the register table".to_owned()));
        }
        self.pc_index = pc_index;
        self.reg_metas = reg_metas;
        self.sp_index = sp_index;
        self.sr_index = if sr == 0xffffffff {
            None
        } else {
            Some(sr)
        };
        self.vals = vals;
        self.dirty = true;
        Ok(())
    }
}

} // verus!
