use vstd::prelude::*;

verus! {

#[verifier::external_type_specification]
#[verifier::external_body]
pub struct ExShmem(shared_memory::Shmem);

#[verifier::external_type_specification]
#[verifier::external_body]
pub struct ExShmemError(shared_memory::ShmemError);

/// Relies on shared_memory's `ShmemConf::new().size(len).create()` and
/// `Shmem::len`: maps a new region under a fresh OS identifier, whose length is
/// the size asked for; a size of zero is refused (`ShmemError::MapSizeZero`)
/// before touching the OS.
#[verifier::external_body]
pub(crate) fn create_shmem(len: usize) -> (r: Result<(shared_memory::Shmem, usize), shared_memory::ShmemError>)
    ensures
        len == 0 ==> r is Err,
        r matches Ok((_, n)) ==> n == len,
{
    shared_memory::ShmemConf::new().size(len).create().map(|m| {
        let n = m.len();
        (m, n)
    })
}

/// Relies on shared_memory's `Shmem::get_os_id`: the identifier under which the
/// OS knows the mapping, which other processes use to open it.
#[verifier::external_body]
pub(crate) fn shmem_os_id(memory: &shared_memory::Shmem) -> (r: String) {
    memory.get_os_id().to_owned()
}

/// Lower-case hexadecimal digit of `v`, for `v < 16`.
pub open spec fn hex_digit(v: u128) -> char {
    seq!['0', '1', '2', '3', '4', '5', '6', '7', '8', '9', 'a', 'b', 'c', 'd', 'e', 'f'][v as int]
}

/// Hex digit `k` of `id`, counted from the most significant (0) to the least (31).
pub open spec fn nibble(id: u128, k: int) -> u128 {
    (id >> (124 - 4 * k) as u128) & 0xf
}

/// Which hex digit stands at position `p` of the hyphenated text.
pub open spec fn digit_at(p: int) -> int {
    if p < 8 {
        p
    } else if p < 13 {
        p - 1
    } else if p < 18 {
        p - 2
    } else if p < 23 {
        p - 3
    } else {
        p - 4
    }
}

/// Whether position `p` of the hyphenated text holds a hyphen.
pub open spec fn is_hyphen_at(p: int) -> bool {
    p == 8 || p == 13 || p == 18 || p == 23
}

/// The hyphenated lower-case text of the UUID whose 128-bit value is `id`:
/// 32 hex digits, most significant first, in groups of 8-4-4-4-12.
pub open spec fn uuid_text(id: u128) -> Seq<char> {
    Seq::new(36, |p: int| if is_hyphen_at(p) { '-' } else { hex_digit(nibble(id, digit_at(p))) })
}

proof fn lemma_hex_digit_injective(x: u128, y: u128)
    requires
        x < 16,
        y < 16,
        hex_digit(x) == hex_digit(y),
    ensures
        x == y,
{
}

proof fn lemma_nibbles_determine(a: u128, b: u128)
    requires
            (a >> 124u128) & 0xf == (b >> 124u128) & 0xf,
            (a >> 120u128) & 0xf == (b >> 120u128) & 0xf,
            (a >> 116u128) & 0xf == (b >> 116u128) & 0xf,
            (a >> 112u128) & 0xf == (b >> 112u128) & 0xf,
            (a >> 108u128) & 0xf == (b >> 108u128) & 0xf,
            (a >> 104u128) & 0xf == (b >> 104u128) & 0xf,
            (a >> 100u128) & 0xf == (b >> 100u128) & 0xf,
            (a >> 96u128) & 0xf == (b >> 96u128) & 0xf,
            (a >> 92u128) & 0xf == (b >> 92u128) & 0xf,
            (a >> 88u128) & 0xf == (b >> 88u128) & 0xf,
            (a >> 84u128) & 0xf == (b >> 84u128) & 0xf,
            (a >> 80u128) & 0xf == (b >> 80u128) & 0xf,
            (a >> 76u128) & 0xf == (b >> 76u128) & 0xf,
            (a >> 72u128) & 0xf == (b >> 72u128) & 0xf,
            (a >> 68u128) & 0xf == (b >> 68u128) & 0xf,
            (a >> 64u128) & 0xf == (b >> 64u128) & 0xf,
            (a >> 60u128) & 0xf == (b >> 60u128) & 0xf,
            (a >> 56u128) & 0xf == (b >> 56u128) & 0xf,
            (a >> 52u128) & 0xf == (b >> 52u128) & 0xf,
            (a >> 48u128) & 0xf == (b >> 48u128) & 0xf,
            (a >> 44u128) & 0xf == (b >> 44u128) & 0xf,
            (a >> 40u128) & 0xf == (b >> 40u128) & 0xf,
            (a >> 36u128) & 0xf == (b >> 36u128) & 0xf,
            (a >> 32u128) & 0xf == (b >> 32u128) & 0xf,
            (a >> 28u128) & 0xf == (b >> 28u128) & 0xf,
            (a >> 24u128) & 0xf == (b >> 24u128) & 0xf,
            (a >> 20u128) & 0xf == (b >> 20u128) & 0xf,
            (a >> 16u128) & 0xf == (b >> 16u128) & 0xf,
            (a >> 12u128) & 0xf == (b >> 12u128) & 0xf,
            (a >> 8u128) & 0xf == (b >> 8u128) & 0xf,
            (a >> 4u128) & 0xf == (b >> 4u128) & 0xf,
            (a >> 0u128) & 0xf == (b >> 0u128) & 0xf,
    ensures
        a == b,
{
    assert(a == b) by (bit_vector)
        requires
                (a >> 124u128) & 0xf == (b >> 124u128) & 0xf,
                (a >> 120u128) & 0xf == (b >> 120u128) & 0xf,
                (a >> 116u128) & 0xf == (b >> 116u128) & 0xf,
                (a >> 112u128) & 0xf == (b >> 112u128) & 0xf,
                (a >> 108u128) & 0xf == (b >> 108u128) & 0xf,
                (a >> 104u128) & 0xf == (b >> 104u128) & 0xf,
                (a >> 100u128) & 0xf == (b >> 100u128) & 0xf,
                (a >> 96u128) & 0xf == (b >> 96u128) & 0xf,
                (a >> 92u128) & 0xf == (b >> 92u128) & 0xf,
                (a >> 88u128) & 0xf == (b >> 88u128) & 0xf,
                (a >> 84u128) & 0xf == (b >> 84u128) & 0xf,
                (a >> 80u128) & 0xf == (b >> 80u128) & 0xf,
                (a >> 76u128) & 0xf == (b >> 76u128) & 0xf,
                (a >> 72u128) & 0xf == (b >> 72u128) & 0xf,
                (a >> 68u128) & 0xf == (b >> 68u128) & 0xf,
                (a >> 64u128) & 0xf == (b >> 64u128) & 0xf,
                (a >> 60u128) & 0xf == (b >> 60u128) & 0xf,
                (a >> 56u128) & 0xf == (b >> 56u128) & 0xf,
                (a >> 52u128) & 0xf == (b >> 52u128) & 0xf,
                (a >> 48u128) & 0xf == (b >> 48u128) & 0xf,
                (a >> 44u128) & 0xf == (b >> 44u128) & 0xf,
                (a >> 40u128) & 0xf == (b >> 40u128) & 0xf,
                (a >> 36u128) & 0xf == (b >> 36u128) & 0xf,
                (a >> 32u128) & 0xf == (b >> 32u128) & 0xf,
                (a >> 28u128) & 0xf == (b >> 28u128) & 0xf,
                (a >> 24u128) & 0xf == (b >> 24u128) & 0xf,
                (a >> 20u128) & 0xf == (b >> 20u128) & 0xf,
                (a >> 16u128) & 0xf == (b >> 16u128) & 0xf,
                (a >> 12u128) & 0xf == (b >> 12u128) & 0xf,
                (a >> 8u128) & 0xf == (b >> 8u128) & 0xf,
                (a >> 4u128) & 0xf == (b >> 4u128) & 0xf,
                (a >> 0u128) & 0xf == (b >> 0u128) & 0xf,
    ;
}

/// Different UUIDs have different texts.
pub proof fn lemma_uuid_text_injective(a: u128, b: u128)
    requires
        a != b,
    ensures
        uuid_text(a) != uuid_text(b),
{
    if uuid_text(a) == uuid_text(b) {
        assert forall|k: int| 0 <= k < 32 implies nibble(a, k) == nibble(b, k) by {
            let p = if k < 8 {
                k
            } else if k < 12 {
                k + 1
            } else if k < 16 {
                k + 2
            } else if k < 20 {
                k + 3
            } else {
                k + 4
            };
            assert(digit_at(p) == k && !is_hyphen_at(p));
            assert(uuid_text(a)[p] == uuid_text(b)[p]);
            let x = a >> (124 - 4 * k) as u128;
            let y = b >> (124 - 4 * k) as u128;
            assert(x & 0xf < 16) by (bit_vector);
            assert(y & 0xf < 16) by (bit_vector);
            lemma_hex_digit_injective(nibble(a, k), nibble(b, k));
        }
        assert(nibble(a, 0) == nibble(b, 0));
        assert(nibble(a, 1) == nibble(b, 1));
        assert(nibble(a, 2) == nibble(b, 2));
        assert(nibble(a, 3) == nibble(b, 3));
        assert(nibble(a, 4) == nibble(b, 4));
        assert(nibble(a, 5) == nibble(b, 5));
        assert(nibble(a, 6) == nibble(b, 6));
        assert(nibble(a, 7) == nibble(b, 7));
        assert(nibble(a, 8) == nibble(b, 8));
        assert(nibble(a, 9) == nibble(b, 9));
        assert(nibble(a, 10) == nibble(b, 10));
        assert(nibble(a, 11) == nibble(b, 11));
        assert(nibble(a, 12) == nibble(b, 12));
        assert(nibble(a, 13) == nibble(b, 13));
        assert(nibble(a, 14) == nibble(b, 14));
        assert(nibble(a, 15) == nibble(b, 15));
        assert(nibble(a, 16) == nibble(b, 16));
        assert(nibble(a, 17) == nibble(b, 17));
        assert(nibble(a, 18) == nibble(b, 18));
        assert(nibble(a, 19) == nibble(b, 19));
        assert(nibble(a, 20) == nibble(b, 20));
        assert(nibble(a, 21) == nibble(b, 21));
        assert(nibble(a, 22) == nibble(b, 22));
        assert(nibble(a, 23) == nibble(b, 23));
        assert(nibble(a, 24) == nibble(b, 24));
        assert(nibble(a, 25) == nibble(b, 25));
        assert(nibble(a, 26) == nibble(b, 26));
        assert(nibble(a, 27) == nibble(b, 27));
        assert(nibble(a, 28) == nibble(b, 28));
        assert(nibble(a, 29) == nibble(b, 29));
        assert(nibble(a, 30) == nibble(b, 30));
        assert(nibble(a, 31) == nibble(b, 31));
        lemma_nibbles_determine(a, b);
    }
}

/// Relies on uuid's `Uuid::new_v4` and `Uuid::as_u128`: a random UUID whose
/// version nibble is 4 and whose variant bits are `10`.
#[verifier::external_body]
pub(crate) fn fresh_uuid() -> (r: u128)
    ensures
        r & 0xF000_C000_0000_0000_0000u128 == 0x4000_8000_0000_0000_0000u128,
{
    uuid::Uuid::new_v4().as_u128()
}

/// Relies on uuid's `Display` for `Uuid` (through `Uuid::from_u128`, which keeps
/// the value's bytes big-endian): the hyphenated lower-case form.
#[verifier::external_body]
pub(crate) fn uuid_string(id: u128) -> (r: String)
    ensures
        r@ == uuid_text(id),
{
    uuid::Uuid::from_u128(id).to_string()
}

} // verus!
