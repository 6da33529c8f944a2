use vstd::prelude::*;

verus! {

/// `1024` to the power `k`.
pub open spec fn pow1024(k: nat) -> nat
    decreases k,
{
    if k == 0 {
        1
    } else {
        1024 * pow1024((k - 1) as nat)
    }
}

/// The unit in which a byte count is shown: the largest `k <= 4` with
/// `1024^k <= bytes` (0 when `bytes < 1024`), for the units B, KB, MB, GB, TB.
pub open spec fn byte_unit_spec(bytes: nat) -> nat {
    if bytes < pow1024(1) {
        0
    } else if bytes < pow1024(2) {
        1
    } else if bytes < pow1024(3) {
        2
    } else if bytes < pow1024(4) {
        3
    } else {
        4
    }
}

/// The index, into B, KB, MB, GB, TB, of the unit in which `bytes` is shown:
/// the byte count is divided by 1024 while it is at least 1024, at most four times.
pub fn byte_unit_index(bytes: u64) -> (index: usize)
    ensures
        index == byte_unit_spec(bytes as nat),
        index <= 4,
        index == 0 || pow1024(index as nat) <= bytes,
        index == 4 || bytes < pow1024(index as nat + 1),
{
    reveal_with_fuel(pow1024, 5);
    let mut size: u64 = bytes;
    let mut index: usize = 0;
    assert(bytes as nat / 1 == bytes) by (nonlinear_arith);
    while size >= 1024 && index < 4
        invariant
            index <= 4,
            size == bytes as nat / pow1024(index as nat),
            index == 0 || pow1024(index as nat) <= bytes,
        decreases 4 - index,
    {
        proof {
            reveal_with_fuel(pow1024, 5);
            assert(pow1024(index as nat + 1) == 1024 * pow1024(index as nat));
            assert(pow1024(index as nat) > 0);
            vstd::arithmetic::div_mod::lemma_div_denominator(bytes as int, pow1024(index as nat) as int, 1024);
            assert(pow1024(index as nat + 1) <= bytes) by (nonlinear_arith)
                requires
                    size == bytes as nat / pow1024(index as nat),
                    size >= 1024,
                    pow1024(index as nat) > 0,
                    pow1024(index as nat + 1) == 1024 * pow1024(index as nat),
            ;
        }
        size = size / 1024;
        index = index + 1;
    }
    proof {
        assert(pow1024(index as nat) > 0);
        if index < 4 {
            assert(bytes < pow1024(index as nat + 1)) by (nonlinear_arith)
                requires
                    size == bytes as nat / pow1024(index as nat),
                    size < 1024,
                    pow1024(index as nat) > 0,
                    pow1024(index as nat + 1) == 1024 * pow1024(index as nat),
            ;
        }
    }
    index
}

/// The name of the byte unit with index `index`.
pub fn byte_unit_name(index: usize) -> (name: &'static str)
    requires
        index <= 4,
    ensures
        index == 0 ==> name@ == "B"@,
        index == 1 ==> name@ == "KB"@,
        index == 2 ==> name@ == "MB"@,
        index == 3 ==> name@ == "GB"@,
        index == 4 ==> name@ == "TB"@,
{
    if index == 0 {
        "B"
    } else if index == 1 {
        "KB"
    } else if index == 2 {
        "MB"
    } else if index == 3 {
        "GB"
    } else {
        "TB"
    }
}

} // verus!
