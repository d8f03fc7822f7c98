use vstd::prelude::*;

verus! {

/// The decimal digits of `n` in ASCII, most significant first, without
/// leading zeros.
pub open spec fn decimal(n: nat) -> Seq<u8>
    decreases n,
{
    if n < 10 {
        seq![(48 + n) as u8]
    } else {
        decimal(n / 10).push((48 + n % 10) as u8)
    }
}

/// The number that a string of ASCII decimal digits spells.
pub open spec fn decimal_value(s: Seq<u8>) -> nat
    decreases s.len(),
{
    if s.len() == 0 {
        0
    } else {
        decimal_value(s.drop_last()) * 10 + (s.last() - 48) as nat
    }
}

/// Every byte of `s` is an ASCII decimal digit.
pub open spec fn all_digits(s: Seq<u8>) -> bool {
    forall|k: int| 0 <= k < s.len() ==> 48 <= #[trigger] s[k] <= 57
}

/// The header of a binary (P6) PPM image: `P6\n<width> <height>\n255\n`.
pub open spec fn ppm_header(width: u32, height: u32) -> Seq<u8> {
    seq![80u8, 54u8, 10u8] + decimal(width as nat) + seq![32u8] + decimal(height as nat) + seq![
        10u8,
        50u8,
        53u8,
        53u8,
        10u8,
    ]
}

/// Channel `c` (0 red, 1 green, 2 blue) of a pixel.
pub open spec fn channel(p: (u8, u8, u8), c: int) -> u8 {
    if c == 0 {
        p.0
    } else if c == 1 {
        p.1
    } else {
        p.2
    }
}

/// The pixels' channels, three bytes per pixel, in order.
pub open spec fn rgb_bytes(pixels: Seq<(u8, u8, u8)>) -> Seq<u8> {
    Seq::new(3 * pixels.len(), |k: int| channel(pixels[k / 3], k % 3))
}

/// The decimal spelling of a number has only digits, starts with a nonzero
/// digit unless the number is zero, and spells the number back.
pub proof fn lemma_decimal_roundtrip(n: nat)
    ensures
        all_digits(decimal(n)),
        decimal(n).len() >= 1,
        n > 0 ==> decimal(n)[0] != 48u8,
        decimal_value(decimal(n)) == n,
    decreases n,
{
    if n >= 10 {
        lemma_decimal_roundtrip(n / 10);
        let s = decimal(n);
        assert(s.drop_last() == decimal(n / 10));
        assert(s[0] == decimal(n / 10)[0]);
        assert(s.last() == (48 + n % 10) as u8);
        assert((n / 10) * 10 + n % 10 == n);
        assert(decimal_value(s) == decimal_value(s.drop_last()) * 10 + (s.last() - 48) as nat);
        assert(decimal_value(s.drop_last()) == n / 10);
    } else {
        assert(decimal_value(decimal(n)) == decimal_value(decimal(n).drop_last()) * 10 + (decimal(n).last() - 48) as nat);
        assert(decimal(n).drop_last() =~= Seq::<u8>::empty());
        assert(decimal(n).last() == (48 + n) as u8);
    }
}

/// The header of any image fits in the 32 bytes reserved for it ahead of the
/// pixel data.
pub proof fn lemma_ppm_header_len(width: u32, height: u32)
    ensures
        ppm_header(width, height).len() <= 32,
{
    lemma_decimal_len(width as nat);
    lemma_decimal_len(height as nat);
}

proof fn lemma_decimal_len(n: nat)
    ensures
        n < 10 ==> decimal(n).len() == 1,
        n <= u32::MAX ==> decimal(n).len() <= 10,
    decreases n,
{
    if n >= 10 {
        lemma_decimal_len(n / 10);
        if n <= u32::MAX {
            lemma_decimal_len_bound(n);
        }
    }
}

proof fn lemma_decimal_len_bound(n: nat)
    requires
        n <= u32::MAX,
    ensures
        decimal(n).len() <= 10,
{
    let n1 = n / 10;
    let n2 = n1 / 10;
    let n3 = n2 / 10;
    let n4 = n3 / 10;
    let n5 = n4 / 10;
    let n6 = n5 / 10;
    let n7 = n6 / 10;
    let n8 = n7 / 10;
    let n9 = n8 / 10;
    assert(n9 < 10);
    assert(decimal(n9).len() == 1);
    assert(decimal(n8).len() <= 2);
    assert(decimal(n7).len() <= 3);
    assert(decimal(n6).len() <= 4);
    assert(decimal(n5).len() <= 5);
    assert(decimal(n4).len() <= 6);
    assert(decimal(n3).len() <= 7);
    assert(decimal(n2).len() <= 8);
    assert(decimal(n1).len() <= 9);
}

fn push_decimal(buf: &mut Vec<u8>, n: u32)
    ensures
        final(buf)@ == old(buf)@ + decimal(n as nat),
    decreases n,
{
    if n >= 10 {
        push_decimal(buf, n / 10);
    }
    buf.push((48 + n % 10) as u8);
}

/// The bytes of a binary PPM image of `width` by `height` pixels: the header,
/// then the channels of `pixels` in order.
pub fn encode_ppm(width: u32, height: u32, pixels: &Vec<(u8, u8, u8)>) -> (r: Vec<u8>)
    ensures
        r@ == ppm_header(width, height) + rgb_bytes(pixels@),
{
    let mut buf: Vec<u8> = Vec::new();
    buf.push(80u8);
    buf.push(54u8);
    buf.push(10u8);
    push_decimal(&mut buf, width);
    buf.push(32u8);
    push_decimal(&mut buf, height);
    buf.push(10u8);
    buf.push(50u8);
    buf.push(53u8);
    buf.push(53u8);
    buf.push(10u8);
    let ghost header = buf@;
    assert(header =~= ppm_header(width, height));

    let n = pixels.len();
    let mut i: usize = 0;
    while i < n
        invariant
            i <= n,
            n == pixels@.len(),
            header == ppm_header(width, height),
            buf@ =~= header + rgb_bytes(pixels@.take(i as int)),
        decreases n - i,
    {
        let (r, g, b) = pixels[i];
        buf.push(r);
        buf.push(g);
        buf.push(b);
        proof {
            let next = pixels@.take(i as int + 1);
            assert(next.take(i as int) =~= pixels@.take(i as int));
            assert(rgb_bytes(next) =~= rgb_bytes(pixels@.take(i as int)).push(r).push(g).push(b));
        }
        i += 1;
    }
    assert(pixels@.take(n as int) =~= pixels@);
    buf
}

} // verus!
