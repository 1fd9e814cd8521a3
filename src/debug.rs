use vstd::prelude::*;

verus! {

/// Upper-case hexadecimal digit (ASCII) for a value below 16.
pub open spec fn hex_char(d: int) -> u8 {
    if d < 10 {
        (48 + d) as u8
    } else {
        (55 + d) as u8
    }
}

/// The `k` lowest hexadecimal digits of `n`, most significant first.
pub open spec fn hex_rev(n: nat, k: nat) -> Seq<u8>
    decreases k,
{
    if k == 0 {
        Seq::empty()
    } else {
        hex_rev(n / 16, (k - 1) as nat).push(hex_char((n % 16) as int))
    }
}

/// The 16 hexadecimal digits of `n` as printed on the debug console.
pub fn hex_digits(n: u64) -> (r: [u8; 16])
    ensures
        r@ == hex_rev(n as nat, 16),
{
    let mut buf = [0u8; 16];
    let mut x: u64 = n;
    let mut i: usize = 0;
    while i < 16
        invariant
            i <= 16,
            buf@.len() == 16,
            hex_rev(n as nat, 16) == hex_rev(x as nat, (16 - i) as nat) + buf@.subrange(
                16 - i,
                16,
            ),
        decreases 16 - i,
    {
        let d = (x % 16) as u8;
        let c = if d < 10 {
            48 + d
        } else {
            55 + d
        };
        let ghost before = buf@.subrange(16 - i, 16);
        buf[15 - i] = c;
        proof {
            assert(c == hex_char((x % 16) as int));
            assert(buf@.subrange(15 - i, 16) =~= seq![c] + before);
            assert(hex_rev(x as nat, (16 - i) as nat) == hex_rev((x / 16) as nat, (15 - i) as nat).push(c));
            assert(hex_rev((x / 16) as nat, (15 - i) as nat).push(c) + before =~= hex_rev(
                (x / 16) as nat,
                (15 - i) as nat,
            ) + (seq![c] + before));
        }
        x = x / 16;
        i = i + 1;
    }
    assert(buf@.subrange(0, 16) =~= buf@);
    buf
}

} // verus!
