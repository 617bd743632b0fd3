//! The machine code that sends a call of one function to another.
//!
//! On x64 it is `mov rax, target; push rax; ret`, on x86 `push target; ret`.

use crate::bytes;
use vstd::prelude::*;

verus! {

/// The processor architectures that the wrapper runs on.
#[derive(Clone, Copy, Debug, PartialEq, Eq, Structural)]
pub enum Arch {
    X64,
    X86,
}

impl Arch {
    /// The name of the architecture in configuration keys.
    pub open spec fn suffix(self) -> Seq<char> {
        match self {
            Arch::X64 => "x64"@,
            Arch::X86 => "x86"@,
        }
    }

    /// The size of the jump on the architecture.
    pub open spec fn jump_size(self) -> nat {
        match self {
            Arch::X64 => 12,
            Arch::X86 => 6,
        }
    }

    /// The name of the architecture in configuration keys.
    pub fn name(self) -> (r: &'static str)
        ensures
            r@ == self.suffix(),
    {
        match self {
            Arch::X64 => "x64",
            Arch::X86 => "x86",
        }
    }
}

/// The jump on x64.
#[derive(Clone, Copy, Debug, PartialEq, Eq, Structural)]
pub struct FarJmpX64 {
    pub mov_op: u8,
    pub mov_reg_arg: u8,
    pub mov_arg: u64,
    pub push_rax_op: u8,
    pub ret_op: u8,
}

/// The jump on x86.
#[derive(Clone, Copy, Debug, PartialEq, Eq, Structural)]
pub struct FarJmpX86 {
    pub push_op: u8,
    pub push_arg: u32,
    pub ret_op: u8,
}

/// A jump.
#[derive(Clone, Copy, Debug, PartialEq, Eq, Structural)]
pub enum FarJmp {
    X64(FarJmpX64),
    X86(FarJmpX86),
}

impl FarJmp {
    /// The machine code.
    pub open spec fn code(self) -> Seq<u8> {
        match self {
            FarJmp::X64(j) => seq![j.mov_op, j.mov_reg_arg] + bytes::le_bytes(
                j.mov_arg as nat,
                8,
            ) + seq![j.push_rax_op, j.ret_op],
            FarJmp::X86(j) => seq![j.push_op] + bytes::le_bytes(j.push_arg as nat, 4)
                + seq![j.ret_op],
        }
    }

    /// The machine code of the jump.
    pub fn as_bytes(&self) -> (r: Vec<u8>)
        ensures
            r@ == self.code(),
    {
        let mut r: Vec<u8> = Vec::new();
        match self {
            FarJmp::X64(j) => {
                r.push(j.mov_op);
                r.push(j.mov_reg_arg);
                bytes::push_le(&mut r, j.mov_arg, 8);
                r.push(j.push_rax_op);
                r.push(j.ret_op);
            },
            FarJmp::X86(j) => {
                r.push(j.push_op);
                bytes::push_le(&mut r, j.push_arg as u64, 4);
                r.push(j.ret_op);
            },
        }
        assert(r@ =~= self.code());
        r
    }

    /// The number of bytes of the machine code.
    pub fn size(&self) -> (r: usize)
        ensures
            r == self.code().len(),
    {
        proof {
            lemma_code_len(*self);
        }
        match self {
            FarJmp::X64(_) => 12,
            FarJmp::X86(_) => 6,
        }
    }
}

/// The jump to the target on the architecture; x86 takes the low 32 bits of it.
pub open spec fn stub(arch: Arch, target: nat) -> FarJmp {
    match arch {
        Arch::X64 => FarJmp::X64(
            FarJmpX64 {
                mov_op: 0x48,
                mov_reg_arg: 0xB8,
                mov_arg: target as u64,
                push_rax_op: 0x50,
                ret_op: 0xC3,
            },
        ),
        Arch::X86 => FarJmp::X86(
            FarJmpX86 { push_op: 0x68, push_arg: (target % 0x1_0000_0000) as u32, ret_op: 0xC3 },
        ),
    }
}

/// Makes the jump to the target.
pub fn make_stub(arch: Arch, target: usize) -> (r: FarJmp)
    ensures
        r == stub(arch, target as nat),
{
    match arch {
        Arch::X64 => FarJmp::X64(
            FarJmpX64 {
                mov_op: 0x48,
                mov_reg_arg: 0xB8,
                mov_arg: target as u64,
                push_rax_op: 0x50,
                ret_op: 0xC3,
            },
        ),
        Arch::X86 => {
            let low: u64 = target as u64 % 0x1_0000_0000;
            FarJmp::X86(FarJmpX86 { push_op: 0x68, push_arg: low as u32, ret_op: 0xC3 })
        },
    }
}

/// The number of bytes that a jump takes on the architecture.
pub fn farjmp_size(arch: Arch) -> (r: usize)
    ensures
        r == arch.jump_size(),
{
    match arch {
        Arch::X64 => 12,
        Arch::X86 => 6,
    }
}

proof fn lemma_le_len(n: nat, count: nat)
    ensures
        bytes::le_bytes(n, count).len() == count,
    decreases count,
{
    if count > 0 {
        lemma_le_len(n / 256, (count - 1) as nat);
    }
}

proof fn lemma_code_len(j: FarJmp)
    ensures
        j.code().len() == (match j {
            FarJmp::X64(_) => 12nat,
            FarJmp::X86(_) => 6nat,
        }),
{
    match j {
        FarJmp::X64(k) => lemma_le_len(k.mov_arg as nat, 8),
        FarJmp::X86(k) => lemma_le_len(k.push_arg as nat, 4),
    }
}

/// A jump fills exactly the bytes that are set aside for one on its
/// architecture.
pub proof fn law_jump_fits(arch: Arch, target: nat)
    ensures
        stub(arch, target).code().len() == arch.jump_size(),
{
    lemma_code_len(stub(arch, target));
}

/// Where machine code that has the form of a jump goes.
pub open spec fn jump_target(arch: Arch, code: Seq<u8>) -> Option<nat> {
    match arch {
        Arch::X64 => if code.len() == 12 && code[0] == 0x48 && code[1] == 0xB8 && code[10] == 0x50
            && code[11] == 0xC3 {
            Some(bytes::le_value(code.subrange(2, 10)))
        } else {
            None
        },
        Arch::X86 => if code.len() == 6 && code[0] == 0x68 && code[5] == 0xC3 {
            Some(bytes::le_value(code.subrange(1, 5)))
        } else {
            None
        },
    }
}

/// The machine code of a jump goes to the target that the jump was made for.
pub proof fn law_jump_goes_to_target(arch: Arch, target: nat)
    requires
        match arch {
            Arch::X64 => target <= u64::MAX,
            Arch::X86 => target <= u32::MAX,
        },
    ensures
        jump_target(arch, stub(arch, target).code()) == Some(target),
{
    let code = stub(arch, target).code();
    law_jump_fits(arch, target);
    match arch {
        Arch::X64 => {
            lemma_le_len(target, 8);
            assert(code.subrange(2, 10) =~= bytes::le_bytes(target, 8));
            assert(vstd::arithmetic::power::pow(256, 8) == 0x1_0000_0000_0000_0000) by {
                reveal_with_fuel(vstd::arithmetic::power::pow, 9);
            }
            bytes::law_le_read_back(target, 8);
        },
        Arch::X86 => {
            lemma_le_len(target, 4);
            assert(code.subrange(1, 5) =~= bytes::le_bytes(target, 4));
            assert(vstd::arithmetic::power::pow(256, 4) == 0x1_0000_0000) by {
                reveal_with_fuel(vstd::arithmetic::power::pow, 5);
            }
            bytes::law_le_read_back(target, 4);
        },
    }
}

/// The machine code of a jump, byte for byte: on x64 48 B8, the eight bytes of the
/// target, 50 C3; on x86 68, the four low bytes of the target, C3; the bytes of the
/// target from the least significant on.
pub proof fn law_jump_code(target: usize, i: nat)
    ensures
        ({
            let code = stub(Arch::X64, target as nat).code();
            &&& code.len() == 12
            &&& code[0] == 0x48 && code[1] == 0xB8 && code[10] == 0x50 && code[11] == 0xC3
            &&& i < 8 ==> code[2 + i as int] == target as nat / (vstd::arithmetic::power::pow(
                256,
                i,
            ) as nat) % 256
        }),
        ({
            let code = stub(Arch::X86, target as nat).code();
            let low = target as nat % 0x1_0000_0000;
            &&& code.len() == 6
            &&& code[0] == 0x68 && code[5] == 0xC3
            &&& i < 4 ==> code[1 + i as int] == low / (vstd::arithmetic::power::pow(256, i) as nat)
                % 256
        }),
        Arch::X64.jump_size() == 12,
        Arch::X86.jump_size() == 6,
        Arch::X64.suffix() == "x64"@,
        Arch::X86.suffix() == "x86"@,
{
    let low = target as nat % 0x1_0000_0000;
    lemma_le_len(target as nat, 8);
    lemma_le_len(low, 4);
    if i < 8 {
        bytes::law_le_digit(target as nat, 8, i);
    }
    if i < 4 {
        bytes::law_le_digit(low, 4, i);
    }
}

/// The machine code of any jump is its parts in their order, numbers from the
/// least significant byte on.
pub proof fn law_code_is_its_parts(j: FarJmpX64, k: FarJmpX86)
    ensures
        ({
            let code = FarJmp::X64(j).code();
            &&& code.len() == 12
            &&& code[0] == j.mov_op && code[1] == j.mov_reg_arg
            &&& bytes::le_value(code.subrange(2, 10)) == j.mov_arg
            &&& code[10] == j.push_rax_op && code[11] == j.ret_op
        }),
        ({
            let code = FarJmp::X86(k).code();
            &&& code.len() == 6
            &&& code[0] == k.push_op
            &&& bytes::le_value(code.subrange(1, 5)) == k.push_arg
            &&& code[5] == k.ret_op
        }),
{
    let a = FarJmp::X64(j).code();
    let b = FarJmp::X86(k).code();
    lemma_le_len(j.mov_arg as nat, 8);
    lemma_le_len(k.push_arg as nat, 4);
    assert(a.subrange(2, 10) =~= bytes::le_bytes(j.mov_arg as nat, 8));
    assert(b.subrange(1, 5) =~= bytes::le_bytes(k.push_arg as nat, 4));
    assert(vstd::arithmetic::power::pow(256, 8) == 0x1_0000_0000_0000_0000) by {
        reveal_with_fuel(vstd::arithmetic::power::pow, 9);
    }
    assert(vstd::arithmetic::power::pow(256, 4) == 0x1_0000_0000) by {
        reveal_with_fuel(vstd::arithmetic::power::pow, 5);
    }
    bytes::law_le_read_back(j.mov_arg as nat, 8);
    bytes::law_le_read_back(k.push_arg as nat, 4);
}

} // verus!
