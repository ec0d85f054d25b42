//! What an error report says of a failure, read back from its text.

use crate::syscall::{texts, EbpfError, Failure, SystemCall};
use crate::text::{address, decimal, digit, hexadecimal, signed_decimal};
use vstd::prelude::*;

verus! {

/// What a digit counts; letters in lower case count ten and more. Any other
/// character counts below zero.
pub open spec fn digit_value(c: char) -> int {
    if '0' <= c && c <= '9' {
        c as int - '0' as int
    } else if 'a' <= c && c <= 'z' {
        c as int - 'a' as int + 10
    } else {
        -1
    }
}

/// What a row of digits counts in a base: each digit counts `base` times as much as
/// the one behind it.
pub open spec fn row_value(text: Seq<char>, base: int) -> int
    decreases text.len(),
{
    if text.len() == 0 {
        0
    } else {
        row_value(text.drop_last(), base) * base + digit_value(text.last())
    }
}

/// Whether a text is how `n` is written in a base: a row of digits of that base
/// that counts `n`, without a zero in front unless it is the only digit.
pub open spec fn writes(text: Seq<char>, base: int, n: int) -> bool {
    &&& text.len() > 0
    &&& forall|i: int| 0 <= i < text.len() ==> 0 <= digit_value(#[trigger] text[i]) < base
    &&& text.len() > 1 ==> text[0] != '0'
    &&& row_value(text, base) == n
}

/// Whether a text is how `i` is written in base ten, with a minus sign in front
/// where it is below zero.
pub open spec fn writes_signed(text: Seq<char>, i: int) -> bool {
    if i < 0 {
        text.len() > 0 && text[0] == '-' && writes(text.skip(1), 10, -i)
    } else {
        writes(text, 10, i)
    }
}

/// Whether a text is how the address `a` is written: in base sixteen, behind `0x`.
pub open spec fn writes_address(text: Seq<char>, a: int) -> bool {
    text.len() > 1 && text[0] == '0' && text[1] == 'x' && writes(text.skip(2), 16, a)
}

proof fn lemma_digit(d: nat)
    requires
        d < 16,
    ensures
        digit_value(digit(d)) == d,
        digit(d) == '0' <==> d == 0,
{
}

proof fn lemma_digit_behind(text: Seq<char>, base: int, n: int, d: nat)
    requires
        d < base <= 16,
        n > 0,
        writes(text, base, n),
    ensures
        writes(text.push(digit(d)), base, n * base + d),
{
    let longer = text.push(digit(d));
    lemma_digit(d);
    assert(longer.drop_last() =~= text);
    assert forall|i: int| 0 <= i < longer.len() implies 0 <= digit_value(#[trigger] longer[i])
        < base by {
        if i < text.len() {
            assert(longer[i] == text[i]);
        }
    }
    if text.len() == 1 {
        assert(text.drop_last() =~= Seq::<char>::empty());
        reveal_with_fuel(row_value, 2);
    }
}

proof fn lemma_single_digit(d: nat, base: int)
    requires
        d < base <= 16,
    ensures
        writes(seq![digit(d)], base, d as int),
{
    lemma_digit(d);
    assert(seq![digit(d)].drop_last() =~= Seq::<char>::empty());
    reveal_with_fuel(row_value, 2);
}

/// The text of a number in base ten reads back as that number.
pub proof fn law_decimal_reads_back(n: nat)
    ensures
        writes(decimal(n), 10, n as int),
    decreases n,
{
    if n < 10 {
        lemma_single_digit(n, 10);
    } else {
        law_decimal_reads_back(n / 10);
        lemma_digit_behind(decimal(n / 10), 10, (n / 10) as int, n % 10);
    }
}

/// The text of a number in base sixteen reads back as that number.
pub proof fn law_hexadecimal_reads_back(n: nat)
    ensures
        writes(hexadecimal(n), 16, n as int),
    decreases n,
{
    if n < 16 {
        lemma_single_digit(n, 16);
    } else {
        law_hexadecimal_reads_back(n / 16);
        lemma_digit_behind(hexadecimal(n / 16), 16, (n / 16) as int, n % 16);
    }
}

/// The text of a signed number reads back as that number.
pub proof fn law_signed_decimal_reads_back(i: int)
    ensures
        writes_signed(signed_decimal(i), i),
{
    if i < 0 {
        law_decimal_reads_back((-i) as nat);
        assert(signed_decimal(i).skip(1) =~= decimal((-i) as nat));
    } else {
        law_decimal_reads_back(i as nat);
    }
}

/// The text of an address reads back as that address.
pub proof fn law_address_reads_back(a: nat)
    ensures
        writes_address(address(a), a as int),
{
    law_hexadecimal_reads_back(a);
    assert(address(a).skip(2) =~= hexadecimal(a));
}

/// The arguments of a call are told in the order in which the function takes them,
/// every one of them, and each reads back as what it is.
pub proof fn law_arguments_read_back(call: SystemCall)
    ensures
        ({
            let told = call.argument_texts();
            match call {
                SystemCall::Mmap { addr, len, prot, flags, fd, offset } => {
                    &&& told.len() == 6
                    &&& writes_address(told[0], addr as int)
                    &&& writes(told[1], 10, len as int)
                    &&& writes_signed(told[2], prot as int)
                    &&& writes_signed(told[3], flags as int)
                    &&& writes_signed(told[4], fd as int)
                    &&& writes_signed(told[5], offset as int)
                },
                SystemCall::Munmap { addr, len } => {
                    &&& told.len() == 2
                    &&& writes_address(told[0], addr as int)
                    &&& writes(told[1], 10, len as int)
                },
                SystemCall::Mprotect { addr, len, prot } => {
                    &&& told.len() == 3
                    &&& writes_address(told[0], addr as int)
                    &&& writes(told[1], 10, len as int)
                    &&& writes_signed(told[2], prot as int)
                },
                SystemCall::Madvise { addr, len, advice } => {
                    &&& told.len() == 3
                    &&& writes_address(told[0], addr as int)
                    &&& writes(told[1], 10, len as int)
                    &&& writes_signed(told[2], advice as int)
                },
                SystemCall::VirtualAlloc { addr, len, allocation_type, protect } => {
                    &&& told.len() == 4
                    &&& writes_address(told[0], addr as int)
                    &&& writes(told[1], 10, len as int)
                    &&& writes(told[2], 10, allocation_type as int)
                    &&& writes(told[3], 10, protect as int)
                },
                SystemCall::VirtualFree { addr, len, free_type } => {
                    &&& told.len() == 3
                    &&& writes_address(told[0], addr as int)
                    &&& writes(told[1], 10, len as int)
                    &&& writes(told[2], 10, free_type as int)
                },
                SystemCall::VirtualProtect { addr, len, protect, old_protect } => {
                    &&& told.len() == 4
                    &&& writes_address(told[0], addr as int)
                    &&& writes(told[1], 10, len as int)
                    &&& writes(told[2], 10, protect as int)
                    &&& writes_address(told[3], old_protect as int)
                },
            }
        }),
{
    match call {
        SystemCall::Mmap { addr, len, prot, flags, fd, offset } => {
            law_address_reads_back(addr as nat);
            law_decimal_reads_back(len as nat);
            law_signed_decimal_reads_back(prot as int);
            law_signed_decimal_reads_back(flags as int);
            law_signed_decimal_reads_back(fd as int);
            law_signed_decimal_reads_back(offset as int);
        },
        SystemCall::Munmap { addr, len } => {
            law_address_reads_back(addr as nat);
            law_decimal_reads_back(len as nat);
        },
        SystemCall::Mprotect { addr, len, prot } => {
            law_address_reads_back(addr as nat);
            law_decimal_reads_back(len as nat);
            law_signed_decimal_reads_back(prot as int);
        },
        SystemCall::Madvise { addr, len, advice } => {
            law_address_reads_back(addr as nat);
            law_decimal_reads_back(len as nat);
            law_signed_decimal_reads_back(advice as int);
        },
        SystemCall::VirtualAlloc { addr, len, allocation_type, protect } => {
            law_address_reads_back(addr as nat);
            law_decimal_reads_back(len as nat);
            law_decimal_reads_back(allocation_type as nat);
            law_decimal_reads_back(protect as nat);
        },
        SystemCall::VirtualFree { addr, len, free_type } => {
            law_address_reads_back(addr as nat);
            law_decimal_reads_back(len as nat);
            law_decimal_reads_back(free_type as nat);
        },
        SystemCall::VirtualProtect { addr, len, protect, old_protect } => {
            law_address_reads_back(addr as nat);
            law_decimal_reads_back(len as nat);
            law_decimal_reads_back(protect as nat);
            law_address_reads_back(old_protect as nat);
        },
    }
}

/// A call goes by the name of the function that it invokes, whatever its arguments.
pub proof fn law_call_goes_by_its_name(call: SystemCall)
    ensures
        call is Mmap ==> call.name() == "mmap"@,
        call is Munmap ==> call.name() == "munmap"@,
        call is Mprotect ==> call.name() == "mprotect"@,
        call is Madvise ==> call.name() == "madvise"@,
        call is VirtualAlloc ==> call.name() == "VirtualAlloc"@,
        call is VirtualFree ==> call.name() == "VirtualFree"@,
        call is VirtualProtect ==> call.name() == "VirtualProtect"@,
{
}

/// An error tells a failure exactly if it has the name of its call, the text of
/// each of its arguments in their order, and its error number.
pub proof fn law_error_tells_the_failure(
    failure: Failure,
    name: &'static str,
    args: Vec<String>,
    errno: i32,
)
    ensures
        failure.is_told_by(EbpfError::LibcInvocationFailed(name, args, errno)) <==> {
            &&& name@ == failure.call.name()
            &&& args@.len() == failure.call.argument_texts().len()
            &&& forall|i: int|
                0 <= i < args@.len() ==> (#[trigger] args@[i])@ == failure.call.argument_texts()[i]
            &&& errno == failure.errno
        },
{
    let told = texts(args@);
    if args@.len() == failure.call.argument_texts().len() && forall|i: int|
        0 <= i < args@.len() ==> (#[trigger] args@[i])@ == failure.call.argument_texts()[i] {
        assert(told =~= failure.call.argument_texts());
    }
    assert forall|i: int| 0 <= i < args@.len() implies (#[trigger] args@[i])@ == told[i] by {}
}

} // verus!
