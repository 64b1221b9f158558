//! The error correction codewords: arithmetic in GF(256), the Reed-Solomon
//! code of a block, the split of the data into blocks and the interleaving
//! of the blocks.
use crate::config::{ECCLevel, Size};
use crate::error::QrError;
use crate::tables::{capacity, lemma_capacity_wf, lookup_capacity, SymbolCapacity};
use vstd::prelude::*;

verus! {

/// The product of `a` and the generator element 2 of GF(256): `a` shifted
/// by one bit, and reduced by the primitive polynomial 0x11D where the
/// shift leaves the byte.
pub open spec fn gf_double(a: u8) -> u8 {
    if a >= 128 {
        (((a - 128) * 2) as u8) ^ 0x1D
    } else {
        (a * 2) as u8
    }
}

/// The product of `a` and the `n` low-order bits of `b` in GF(256).
pub open spec fn gf_mul_bits(a: u8, b: u8, n: nat) -> u8
    decreases n,
{
    if n == 0 {
        0
    } else if b % 2 == 1 {
        a ^ gf_mul_bits(gf_double(a), b / 2, (n - 1) as nat)
    } else {
        gf_mul_bits(gf_double(a), b / 2, (n - 1) as nat)
    }
}

/// The product of two elements of GF(256): the sum, which is the
/// exclusive or, of the products of `a` with the powers of 2 that make up
/// `b`.
pub open spec fn gf_mul(a: u8, b: u8) -> u8 {
    gf_mul_bits(a, b, 8)
}

/// The power `i` of the generator element 2 of GF(256).
pub open spec fn alpha_power(i: nat) -> u8
    decreases i,
{
    if i == 0 {
        1
    } else {
        gf_double(alpha_power((i - 1) as nat))
    }
}

/// The product of the polynomial `p` and `x + a`. Coefficients stand
/// highest degree first.
pub open spec fn times_linear(p: Seq<u8>, a: u8) -> Seq<u8> {
    Seq::new(
        p.len() + 1,
        |i: int|
            (if i < p.len() {
                p[i]
            } else {
                0u8
            }) ^ (if i > 0 {
                gf_mul(p[i - 1], a)
            } else {
                0u8
            }),
    )
}

/// The generator polynomial for `e` error correction codewords: the
/// product of `x + 2^i` for `i` from 0 to `e - 1`, where plus and minus are
/// the same.
pub open spec fn generator(e: nat) -> Seq<u8>
    decreases e,
{
    if e == 0 {
        seq![1u8]
    } else {
        times_linear(generator((e - 1) as nat), alpha_power((e - 1) as nat))
    }
}

/// One step of the division of `d` by the monic polynomial `g`: the
/// multiple of `g` that cancels the leading coefficient of `d` is added,
/// and the leading coefficient dropped.
pub open spec fn cancel_lead(d: Seq<u8>, g: Seq<u8>) -> Seq<u8> {
    Seq::new(
        (d.len() - 1) as nat,
        |i: int|
            if i + 1 < g.len() {
                d[i + 1] ^ gf_mul(g[i + 1], d[0])
            } else {
                d[i + 1]
            },
    )
}

/// The remainder of the division of `d` by the monic polynomial `g`.
pub open spec fn poly_rem(d: Seq<u8>, g: Seq<u8>) -> Seq<u8>
    decreases d.len(),
{
    if d.len() < g.len() || d.len() == 0 {
        d
    } else {
        poly_rem(cancel_lead(d, g), g)
    }
}

/// A sequence of `n` zero bytes.
pub open spec fn zero_bytes(n: nat) -> Seq<u8> {
    Seq::new(n, |i: int| 0u8)
}

/// The `e` error correction codewords of a block: the remainder of the
/// division of the data, taken as the high-order coefficients of a
/// polynomial with `e` zero coefficients behind them, by the generator
/// polynomial.
pub open spec fn block_ecc(data: Seq<u8>, e: nat) -> Seq<u8> {
    poly_rem(data + zero_bytes(e), generator(e))
}

/// The generator polynomial has one coefficient more than its degree.
pub proof fn lemma_generator_len(e: nat)
    ensures
        generator(e).len() == e + 1,
    decreases e,
{
    if e > 0 {
        lemma_generator_len((e - 1) as nat);
    }
}

/// The generator polynomial is monic: its leading coefficient is 1.
pub proof fn lemma_generator_is_monic(e: nat)
    ensures
        generator(e)[0] == 1,
    decreases e,
{
    if e > 0 {
        lemma_generator_is_monic((e - 1) as nat);
        lemma_generator_len((e - 1) as nat);
        assert(1u8 ^ 0u8 == 1u8) by (bit_vector);
    }
}

/// A remainder is shorter than the divisor, where the dividend is not.
pub proof fn lemma_poly_rem_len(d: Seq<u8>, g: Seq<u8>)
    requires
        g.len() >= 1,
        d.len() >= g.len() - 1,
    ensures
        poly_rem(d, g).len() == g.len() - 1,
    decreases d.len(),
{
    if d.len() >= g.len() {
        lemma_poly_rem_len(cancel_lead(d, g), g);
    }
}

/// The sum of two polynomials of the same length: the exclusive or of
/// their coefficients.
pub open spec fn poly_add(a: Seq<u8>, b: Seq<u8>) -> Seq<u8> {
    Seq::new(a.len(), |i: int| a[i] ^ b[i])
}

proof fn lemma_gf_mul_bits_zero(a: u8, n: nat)
    ensures
        gf_mul_bits(a, 0, n) == 0,
    decreases n,
{
    if n > 0 {
        lemma_gf_mul_bits_zero(gf_double(a), (n - 1) as nat);
    }
}

proof fn lemma_gf_mul_bits_adds(a: u8, b: u8, c: u8, n: nat)
    ensures
        gf_mul_bits(a, b ^ c, n) == gf_mul_bits(a, b, n) ^ gf_mul_bits(a, c, n),
    decreases n,
{
    if n == 0 {
        assert(0u8 ^ 0u8 == 0u8) by (bit_vector);
    } else {
        let d = gf_double(a);
        lemma_gf_mul_bits_adds(d, b / 2, c / 2, (n - 1) as nat);
        let mb = gf_mul_bits(d, b / 2, (n - 1) as nat);
        let mc = gf_mul_bits(d, c / 2, (n - 1) as nat);
        assert((b ^ c) / 2 == (b / 2) ^ (c / 2) && ((b ^ c) % 2 == 1 <==> (b % 2 == 1) != (c % 2
            == 1))) by (bit_vector);
        assert((a ^ mb) ^ (a ^ mc) == mb ^ mc && (a ^ mb) ^ mc == a ^ (mb ^ mc) && mb ^ (a ^ mc)
            == a ^ (mb ^ mc)) by (bit_vector);
    }
}

/// Multiplication in GF(256) distributes over addition, and a product with
/// zero is zero.
pub proof fn lemma_gf_mul_adds(a: u8, b: u8, c: u8)
    ensures
        gf_mul(a, b ^ c) == gf_mul(a, b) ^ gf_mul(a, c),
        gf_mul(a, 0) == 0,
{
    lemma_gf_mul_bits_adds(a, b, c, 8);
    lemma_gf_mul_bits_zero(a, 8);
}

proof fn lemma_cancel_lead_adds(a: Seq<u8>, b: Seq<u8>, g: Seq<u8>)
    requires
        a.len() == b.len(),
        a.len() >= 1,
    ensures
        cancel_lead(poly_add(a, b), g) == poly_add(cancel_lead(a, g), cancel_lead(b, g)),
{
    let left = cancel_lead(poly_add(a, b), g);
    let right = poly_add(cancel_lead(a, g), cancel_lead(b, g));
    assert forall|i: int| 0 <= i < left.len() implies left[i] == right[i] by {
        let x = a[i + 1];
        let y = b[i + 1];
        if i + 1 < g.len() {
            lemma_gf_mul_adds(g[i + 1], a[0], b[0]);
            let p = gf_mul(g[i + 1], a[0]);
            let r = gf_mul(g[i + 1], b[0]);
            assert((x ^ y) ^ (p ^ r) == (x ^ p) ^ (y ^ r)) by (bit_vector);
        }
    }
    assert(left =~= right);
}

/// The remainder of a sum is the sum of the remainders.
pub proof fn lemma_poly_rem_adds(a: Seq<u8>, b: Seq<u8>, g: Seq<u8>)
    requires
        a.len() == b.len(),
    ensures
        poly_rem(poly_add(a, b), g) == poly_add(poly_rem(a, g), poly_rem(b, g)),
    decreases a.len(),
{
    if a.len() < g.len() || a.len() == 0 {
    } else {
        lemma_cancel_lead_adds(a, b, g);
        lemma_poly_rem_adds(cancel_lead(a, g), cancel_lead(b, g), g);
    }
}

proof fn lemma_poly_rem_of_short(n: nat, r: Seq<u8>, g: Seq<u8>)
    requires
        r.len() + 1 == g.len(),
    ensures
        poly_rem(zero_bytes(n) + r, g) == r,
    decreases n,
{
    let d = zero_bytes(n) + r;
    if n == 0 {
        assert(d =~= r);
    } else {
        let next = zero_bytes((n - 1) as nat) + r;
        assert forall|i: int| 0 <= i < next.len() implies cancel_lead(d, g)[i] == next[i] by {
            let x = d[i + 1];
            if i + 1 < g.len() {
                lemma_gf_mul_adds(g[i + 1], 0, 0);
                assert(x ^ 0u8 == x) by (bit_vector);
            }
        }
        assert(cancel_lead(d, g) =~= next);
        lemma_poly_rem_of_short((n - 1) as nat, r, g);
    }
}

/// A block followed by its error correction codewords is a multiple of the
/// generator polynomial: the remainder of its division by the generator is
/// zero.
pub proof fn lemma_codeword_is_multiple_of_generator(data: Seq<u8>, e: nat)
    ensures
        poly_rem(data + block_ecc(data, e), generator(e)) == zero_bytes(e),
{
    let g = generator(e);
    let shifted = data + zero_bytes(e);
    let ecc = block_ecc(data, e);
    lemma_generator_len(e);
    lemma_poly_rem_len(shifted, g);
    let tail = zero_bytes(data.len()) + ecc;
    assert forall|i: int| 0 <= i < shifted.len() implies (data + ecc)[i] == poly_add(
        shifted,
        tail,
    )[i] by {
        let x = (data + ecc)[i];
        assert(x ^ 0u8 == x && 0u8 ^ x == x) by (bit_vector);
    }
    assert(data + ecc =~= poly_add(shifted, tail));
    lemma_poly_rem_adds(shifted, tail, g);
    lemma_poly_rem_of_short(data.len(), ecc, g);
    assert forall|i: int| 0 <= i < e implies poly_add(ecc, ecc)[i] == 0u8 by {
        let x = ecc[i];
        assert(x ^ x == 0u8) by (bit_vector);
    }
    assert(poly_add(ecc, ecc) =~= zero_bytes(e));
}

fn double(a: u8) -> (r: u8)
    ensures
        r == gf_double(a),
{
    if a >= 128 {
        ((a - 128) * 2) ^ 0x1D
    } else {
        a * 2
    }
}

fn multiply_bits(a: u8, b: u8, n: u8) -> (r: u8)
    ensures
        r == gf_mul_bits(a, b, n as nat),
    decreases n,
{
    if n == 0 {
        0
    } else if b % 2 == 1 {
        a ^ multiply_bits(double(a), b / 2, n - 1)
    } else {
        multiply_bits(double(a), b / 2, n - 1)
    }
}

/// The product of two elements of GF(256).
pub fn multiply(a: u8, b: u8) -> (r: u8)
    ensures
        r == gf_mul(a, b),
{
    multiply_bits(a, b, 8)
}

/// The generator polynomial for `e` error correction codewords.
pub fn generator_polynomial(e: usize) -> (g: Vec<u8>)
    requires
        e <= 255,
    ensures
        g@ == generator(e as nat),
        g@.len() == e + 1,
{
    let mut g: Vec<u8> = Vec::new();
    g.push(1);
    assert(g@ =~= generator(0));
    let mut root: u8 = 1;
    let mut i: usize = 0;
    while i < e
        invariant
            i <= e <= 255,
            g@ == generator(i as nat),
            g@.len() == i + 1,
            root == alpha_power(i as nat),
        decreases e - i,
    {
        let mut next: Vec<u8> = Vec::new();
        let mut k: usize = 0;
        while k <= g.len()
            invariant
                g@.len() == i + 1,
                i < 255,
                k <= g@.len() + 1,
                next@.len() == k,
                forall|m: int| 0 <= m < k ==> #[trigger] next@[m] == times_linear(g@, root)[m],
            decreases g@.len() + 1 - k,
        {
            let high: u8 = if k < g.len() {
                g[k]
            } else {
                0
            };
            let low: u8 = if k > 0 {
                multiply(g[k - 1], root)
            } else {
                0
            };
            next.push(high ^ low);
            k += 1;
        }
        assert(next@ =~= times_linear(g@, root));
        g = next;
        root = double(root);
        i += 1;
    }
    g
}

/// The error correction codewords of one block.
pub fn compute_block_ecc(data: &[u8], generator_coefficients: &Vec<u8>) -> (ecc: Vec<u8>)
    requires
        generator_coefficients@.len() >= 1,
        data@.len() + generator_coefficients@.len() <= 0xFFFF,
    ensures
        ecc@ == poly_rem(
            data@ + zero_bytes((generator_coefficients@.len() - 1) as nat),
            generator_coefficients@,
        ),
        ecc@.len() == generator_coefficients@.len() - 1,
{
    let e: usize = generator_coefficients.len() - 1;
    let n: usize = data.len();
    let ghost g = generator_coefficients@;
    let ghost dividend = data@ + zero_bytes(e as nat);
    let mut buffer: Vec<u8> = Vec::new();
    let mut k: usize = 0;
    while k < n + e
        invariant
            n == data@.len(),
            n + e <= 0xFFFF,
            k <= n + e,
            buffer@.len() == k,
            forall|m: int| 0 <= m < k ==> #[trigger] buffer@[m] == dividend[m],
            dividend == data@ + zero_bytes(e as nat),
        decreases n + e - k,
    {
        buffer.push(
            if k < n {
                data[k]
            } else {
                0
            },
        );
        k += 1;
    }
    assert(buffer@ =~= dividend);
    assert(buffer@.subrange(0, (n + e) as int) =~= dividend);
    let mut i: usize = 0;
    while i < n
        invariant
            n == data@.len(),
            e == g.len() - 1,
            g == generator_coefficients@,
            n + e <= 0xFFFF,
            i <= n,
            buffer@.len() == n + e,
            poly_rem(buffer@.subrange(i as int, (n + e) as int), g) == poly_rem(dividend, g),
        decreases n - i,
    {
        let lead: u8 = buffer[i];
        let ghost before = buffer@;
        let ghost d = before.subrange(i as int, (n + e) as int);
        let mut j: usize = 1;
        while j <= e
            invariant
                e == g.len() - 1,
                g == generator_coefficients@,
                i < n,
                n + e <= 0xFFFF,
                1 <= j <= e + 1,
                buffer@.len() == n + e,
                before.len() == n + e,
                lead == before[i as int],
                forall|m: int|
                    0 <= m < n + e ==> #[trigger] buffer@[m] == if i < m < i + j {
                        before[m] ^ gf_mul(g[m - i], lead)
                    } else {
                        before[m]
                    },
            decreases e + 1 - j,
        {
            let product: u8 = multiply(generator_coefficients[j], lead);
            let updated: u8 = buffer[i + j] ^ product;
            buffer.set(i + j, updated);
            j += 1;
        }
        proof {
            assert(buffer@.subrange(i as int + 1, (n + e) as int) =~= cancel_lead(d, g));
        }
        i += 1;
    }
    let mut ecc: Vec<u8> = Vec::new();
    let mut k: usize = 0;
    while k < e
        invariant
            k <= e,
            n + e <= 0xFFFF,
            buffer@.len() == n + e,
            ecc@.len() == k,
            forall|m: int| 0 <= m < k ==> #[trigger] ecc@[m] == buffer@[n + m],
        decreases e - k,
    {
        ecc.push(buffer[n + k]);
        k += 1;
    }
    assert(ecc@ =~= buffer@.subrange(n as int, (n + e) as int));
    ecc
}

/// Number of data codewords in block `b` of a schedule: the blocks of the
/// first group come first.
pub open spec fn block_len(cap: SymbolCapacity, b: int) -> int {
    if b < cap.block_def1.num_blocks {
        cap.block_def1.data_codewords as int
    } else {
        cap.block_def2.data_codewords as int
    }
}

/// Number of data codewords in the blocks before block `b`.
pub open spec fn block_start(cap: SymbolCapacity, b: int) -> int
    decreases b,
{
    if b <= 0 {
        0
    } else {
        block_start(cap, b - 1) + block_len(cap, b - 1)
    }
}

/// The data codewords of block `b`.
pub open spec fn data_block(data: Seq<u8>, cap: SymbolCapacity, b: int) -> Seq<u8> {
    data.subrange(block_start(cap, b), block_start(cap, b + 1))
}

/// The data split into the blocks of the schedule.
pub open spec fn data_blocks(data: Seq<u8>, cap: SymbolCapacity) -> Seq<Seq<u8>> {
    Seq::new(cap.total_blocks() as nat, |b: int| data_block(data, cap, b))
}

/// The error correction codewords of the blocks of the schedule.
pub open spec fn ecc_blocks(data: Seq<u8>, cap: SymbolCapacity) -> Seq<Seq<u8>> {
    Seq::new(
        cap.total_blocks() as nat,
        |b: int| block_ecc(data_block(data, cap, b), cap.block_ecc_words() as nat),
    )
}

/// The codewords at place `c` of the first `n` blocks, in the order of
/// the blocks. A block that has no such place contributes nothing.
pub open spec fn column(blocks: Seq<Seq<u8>>, c: int, n: int) -> Seq<u8>
    decreases n,
{
    if n <= 0 {
        Seq::<u8>::empty()
    } else if c < blocks[n - 1].len() {
        column(blocks, c, n - 1).push(blocks[n - 1][c])
    } else {
        column(blocks, c, n - 1)
    }
}

/// The codewords at the first `cols` places of all blocks, place by place.
pub open spec fn interleaved(blocks: Seq<Seq<u8>>, cols: int) -> Seq<u8>
    decreases cols,
{
    if cols <= 0 {
        Seq::<u8>::empty()
    } else {
        interleaved(blocks, cols - 1) + column(blocks, cols - 1, blocks.len() as int)
    }
}

/// Number of data codewords in the longest block.
pub open spec fn longest_block(cap: SymbolCapacity) -> int {
    if cap.block_def2.num_blocks > 0 {
        cap.block_def2.data_codewords as int
    } else {
        cap.block_def1.data_codewords as int
    }
}

/// The blocks of a consistent schedule lie one behind the other and make up
/// the data codewords of the symbol.
pub proof fn lemma_block_start(cap: SymbolCapacity, b: int)
    requires
        cap.wf(),
        0 <= b <= cap.total_blocks(),
    ensures
        block_start(cap, b) == if b <= cap.block_def1.num_blocks {
            b * cap.block_def1.data_codewords
        } else {
            cap.block_def1.num_blocks * cap.block_def1.data_codewords + (b
                - cap.block_def1.num_blocks) * cap.block_def2.data_codewords
        },
        0 <= block_start(cap, b) <= cap.total_data_codewords(),
    decreases b,
{
    let n1 = cap.block_def1.num_blocks as int;
    let n2 = cap.block_def2.num_blocks as int;
    let d1 = cap.block_def1.data_codewords as int;
    let d2 = cap.block_def2.data_codewords as int;
    if b > 0 {
        lemma_block_start(cap, b - 1);
        if b <= n1 {
            assert((b - 1) * d1 + d1 == b * d1) by (nonlinear_arith);
            assert(b * d1 <= n1 * d1) by (nonlinear_arith)
                requires
                    0 <= b <= n1,
                    0 <= d1,
            ;
            assert(n2 * d2 >= 0) by (nonlinear_arith)
                requires
                    0 <= n2,
                    0 <= d2,
            ;
        } else {
            assert((b - 1 - n1) * d2 + d2 == (b - n1) * d2) by (nonlinear_arith);
            if b - 1 == n1 {
                assert((b - 1 - n1) * d2 == 0) by (nonlinear_arith)
                    requires
                        b - 1 - n1 == 0,
                ;
            }
            assert(0 * d1 == 0);
            assert((b - n1) * d2 <= n2 * d2) by (nonlinear_arith)
                requires
                    0 <= b - n1 <= n2,
                    0 <= d2,
            ;
            assert(n1 * d1 >= 0) by (nonlinear_arith)
                requires
                    0 <= n1,
                    0 <= d1,
            ;
        }
    } else {
        assert(n1 * d1 >= 0) by (nonlinear_arith)
            requires
                0 <= n1,
                0 <= d1,
        ;
        assert(n2 * d2 >= 0) by (nonlinear_arith)
            requires
                0 <= n2,
                0 <= d2,
        ;
    }
}

/// The lesser of the length of a block and a number of places.
pub open spec fn places_in(len: int, cols: int) -> int {
    if len < cols {
        len
    } else {
        cols
    }
}

/// Number of codewords that the first `n` blocks have at their first
/// `cols` places.
pub open spec fn covered(blocks: Seq<Seq<u8>>, cols: int, n: int) -> int
    decreases n,
{
    if n <= 0 {
        0
    } else {
        covered(blocks, cols, n - 1) + places_in(blocks[n - 1].len() as int, cols)
    }
}

proof fn lemma_column_len(blocks: Seq<Seq<u8>>, c: int, n: int)
    requires
        c >= 0,
    ensures
        column(blocks, c, n).len() == covered(blocks, c + 1, n) - covered(blocks, c, n),
    decreases n,
{
    if n > 0 {
        lemma_column_len(blocks, c, n - 1);
    }
}

proof fn lemma_covered_nothing(blocks: Seq<Seq<u8>>, n: int)
    ensures
        covered(blocks, 0, n) == 0,
    decreases n,
{
    if n > 0 {
        lemma_covered_nothing(blocks, n - 1);
    }
}

/// Interleaving keeps every codeword at the first `cols` places of the
/// blocks, and adds none.
pub proof fn lemma_interleaved_len(blocks: Seq<Seq<u8>>, cols: int)
    requires
        cols >= 0,
    ensures
        interleaved(blocks, cols).len() == covered(blocks, cols, blocks.len() as int),
    decreases cols,
{
    if cols > 0 {
        lemma_interleaved_len(blocks, cols - 1);
        lemma_column_len(blocks, cols - 1, blocks.len() as int);
    } else {
        lemma_covered_nothing(blocks, blocks.len() as int);
    }
}

proof fn lemma_data_blocks_covered(data: Seq<u8>, cap: SymbolCapacity, b: int)
    requires
        cap.wf(),
        data.len() == cap.total_data_codewords(),
        0 <= b <= cap.total_blocks(),
    ensures
        covered(data_blocks(data, cap), longest_block(cap), b) == block_start(cap, b),
    decreases b,
{
    if b > 0 {
        lemma_data_blocks_covered(data, cap, b - 1);
        lemma_block_start(cap, b - 1);
        lemma_block_start(cap, b);
        assert(data_blocks(data, cap)[b - 1] == data_block(data, cap, b - 1));
    }
}

proof fn lemma_ecc_blocks_covered(data: Seq<u8>, cap: SymbolCapacity, b: int)
    requires
        cap.wf(),
        data.len() == cap.total_data_codewords(),
        0 <= b <= cap.total_blocks(),
    ensures
        covered(ecc_blocks(data, cap), cap.block_ecc_words(), b) == b * cap.block_ecc_words(),
    decreases b,
{
    let e = cap.block_ecc_words();
    if b > 0 {
        lemma_ecc_blocks_covered(data, cap, b - 1);
        lemma_block_start(cap, b - 1);
        lemma_block_start(cap, b);
        let block = data_block(data, cap, b - 1);
        assert(ecc_blocks(data, cap)[b - 1] == block_ecc(block, e as nat));
        lemma_generator_len(e as nat);
        lemma_poly_rem_len(block + zero_bytes(e as nat), generator(e as nat));
        assert((b - 1) * e + e == b * e) by (nonlinear_arith);
    } else {
        assert(0 * e == 0);
    }
}

/// The interleaved streams of a consistent schedule hold as many data
/// codewords as the data have, and as many error correction codewords as
/// the symbol has codewords beside them.
pub proof fn lemma_codeword_counts(data: Seq<u8>, cap: SymbolCapacity)
    requires
        cap.wf(),
        data.len() == cap.total_data_codewords(),
    ensures
        interleaved(data_blocks(data, cap), longest_block(cap)).len() == data.len(),
        interleaved(ecc_blocks(data, cap), cap.block_ecc_words()).len() == cap.total_codewords()
            - cap.total_data_codewords(),
{
    let count = cap.total_blocks();
    let e = cap.block_ecc_words();
    lemma_interleaved_len(data_blocks(data, cap), longest_block(cap));
    lemma_data_blocks_covered(data, cap, count);
    lemma_block_start(cap, count);
    lemma_interleaved_len(ecc_blocks(data, cap), e);
    lemma_ecc_blocks_covered(data, cap, count);
    let n1 = cap.block_def1.num_blocks as int;
    let n2 = cap.block_def2.num_blocks as int;
    let c1 = cap.block_def1.codewords as int;
    let d1 = cap.block_def1.data_codewords as int;
    let c2 = cap.block_def2.codewords as int;
    let d2 = cap.block_def2.data_codewords as int;
    assert((n1 + n2) * e == n1 * c1 + n2 * c2 - (n1 * d1 + n2 * d2)) by (nonlinear_arith)
        requires
            e == c1 - d1,
            n2 == 0 || c2 - d2 == e,
    ;
    if count > n1 {
    } else {
        assert(n2 == 0);
        assert(0 * d2 == 0);
    }
}

/// The views of the blocks.
pub open spec fn block_views(blocks: Seq<Vec<u8>>) -> Seq<Seq<u8>> {
    Seq::new(blocks.len(), |b: int| blocks[b]@)
}

/// The codewords at the first `cols` places of all blocks, place by place.
fn interleave(blocks: &Vec<Vec<u8>>, cols: usize) -> (r: Vec<u8>)
    ensures
        r@ == interleaved(block_views(blocks@), cols as int),
{
    let ghost views = block_views(blocks@);
    let mut r: Vec<u8> = Vec::new();
    let mut c: usize = 0;
    while c < cols
        invariant
            c <= cols,
            views == block_views(blocks@),
            r@ == interleaved(views, c as int),
        decreases cols - c,
    {
        let ghost before = r@;
        let mut b: usize = 0;
        while b < blocks.len()
            invariant
                b <= blocks@.len(),
                views == block_views(blocks@),
                r@ == before + column(views, c as int, b as int),
            decreases blocks@.len() - b,
        {
            if c < blocks[b].len() {
                r.push(blocks[b][c]);
                assert(r@ =~= before + column(views, c as int, b as int + 1));
            }
            b += 1;
        }
        c += 1;
    }
    r
}

/// Splits the data codewords into the blocks of the symbol's schedule,
/// computes the error correction codewords of each block, and interleaves
/// the blocks: the result holds the data codewords of all blocks place by
/// place, and the error correction codewords of all blocks place by place.
pub fn construct_codewords(data: &[u8], size: Size, ecl: ECCLevel) -> (r: Result<
    (Vec<u8>, Vec<u8>),
    QrError,
>)
    ensures
        !ecl.available_in(size) ==> r == Err::<(Vec<u8>, Vec<u8>), QrError>(
            QrError::UnsupportedConfiguration,
        ),
        ecl.available_in(size) && data@.len() != capacity(size, ecl).total_data_codewords() ==> r
            == Err::<(Vec<u8>, Vec<u8>), QrError>(QrError::LengthMismatch),
        ecl.available_in(size) && data@.len() == capacity(size, ecl).total_data_codewords() ==> r
            is Ok,
        r matches Ok(words) ==> {
            &&& words.0@ == interleaved(
                data_blocks(data@, capacity(size, ecl)),
                longest_block(capacity(size, ecl)),
            )
            &&& words.1@ == interleaved(
                ecc_blocks(data@, capacity(size, ecl)),
                capacity(size, ecl).block_ecc_words(),
            )
            &&& words.0@.len() == data@.len()
            &&& words.1@.len() == capacity(size, ecl).total_codewords() - capacity(
                size,
                ecl,
            ).total_data_codewords()
        },
{
    if !ecl.is_available_in(size) {
        return Err(QrError::UnsupportedConfiguration);
    }
    let cap = lookup_capacity(size, ecl);
    proof {
        lemma_capacity_wf(size, ecl);
    }
    if data.len() != cap.data_codewords() as usize {
        return Err(QrError::LengthMismatch);
    }
    let e: usize = cap.ecc_words_per_block() as usize;
    let generator_coefficients = generator_polynomial(e);
    let first: usize = cap.block_def1.num_blocks as usize;
    let count: usize = first + cap.block_def2.num_blocks as usize;
    let mut blocks: Vec<Vec<u8>> = Vec::new();
    let mut corrections: Vec<Vec<u8>> = Vec::new();
    let mut offset: usize = 0;
    let mut b: usize = 0;
    while b < count
        invariant
            cap.wf(),
            cap.total_codewords() <= 3706,
            cap.total_data_codewords() == data@.len(),
            data@.len() <= 3706,
            e == cap.block_ecc_words(),
            1 <= e <= 30,
            generator_coefficients@ == generator(e as nat),
            generator_coefficients@.len() == e + 1,
            first == cap.block_def1.num_blocks,
            count == cap.total_blocks(),
            b <= count,
            offset == block_start(cap, b as int),
            blocks@.len() == b,
            corrections@.len() == b,
            forall|k: int| 0 <= k < b ==> (#[trigger] blocks@[k])@ == data_block(data@, cap, k),
            forall|k: int|
                0 <= k < b ==> (#[trigger] corrections@[k])@ == block_ecc(
                    data_block(data@, cap, k),
                    e as nat,
                ),
        decreases count - b,
    {
        let len: usize = if b < first {
            cap.block_def1.data_codewords as usize
        } else {
            cap.block_def2.data_codewords as usize
        };
        proof {
            lemma_block_start(cap, b as int);
            lemma_block_start(cap, b as int + 1);
        }
        let mut block: Vec<u8> = Vec::new();
        let mut k: usize = 0;
        while k < len
            invariant
                k <= len,
                offset + len <= data@.len(),
                data@.len() <= 3706,
                block@.len() == k,
                forall|m: int| 0 <= m < k ==> #[trigger] block@[m] == data@[offset + m],
            decreases len - k,
        {
            block.push(data[offset + k]);
            k += 1;
        }
        assert(block@ =~= data_block(data@, cap, b as int));
        let ecc = compute_block_ecc(block.as_slice(), &generator_coefficients);
        blocks.push(block);
        corrections.push(ecc);
        offset += len;
        b += 1;
    }
    assert(block_views(blocks@) =~= data_blocks(data@, cap));
    assert(block_views(corrections@) =~= ecc_blocks(data@, cap));
    let longest: usize = if cap.block_def2.num_blocks > 0 {
        cap.block_def2.data_codewords as usize
    } else {
        cap.block_def1.data_codewords as usize
    };
    proof {
        lemma_codeword_counts(data@, cap);
    }
    let data_words = interleave(&blocks, longest);
    let ecc_words = interleave(&corrections, e);
    Ok((data_words, ecc_words))
}

} // verus!
