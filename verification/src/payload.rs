//! Payload bytes that tell one object from another.
use crate::naming;
use crate::text;
use vstd::bytes::*;
use vstd::prelude::*;
use vstd::string::*;
use vstd::utf8::*;

verus! {

/// The timestamp at the start of a payload file.
pub const PAYLOAD_TIMESTAMP_LEN: usize = 8;

/// What is written at the start of a payload file.
pub const PAYLOAD_HEADER_LEN: usize = 32;

// ---------------------------------------------------------------------------------------------
// Hashes
// ---------------------------------------------------------------------------------------------
/// FNV-1a over bytes, in 64 bits.
pub open spec fn fnv64(bytes: Seq<u8>) -> u64
    decreases bytes.len(),
{
    if bytes.len() == 0 {
        0xcbf29ce484222325
    } else {
        (fnv64(bytes.drop_last()) ^ (bytes.last() as u64)).wrapping_mul(0x100000001b3)
    }
}

/// FNV-1a over bytes, in 32 bits.
pub open spec fn fnv32(bytes: Seq<u8>) -> u32
    decreases bytes.len(),
{
    if bytes.len() == 0 {
        2166136261
    } else {
        (fnv32(bytes.drop_last()) ^ (bytes.last() as u32)).wrapping_mul(16777619)
    }
}

pub fn hash_run_id(run_id: &str) -> (r: u64)
    ensures
        r == fnv64(encode_utf8(run_id@)),
{
    let bytes = run_id.as_bytes();
    let mut hash: u64 = 0xcbf29ce484222325;
    let mut i: usize = 0;
    assert(bytes@.take(0) =~= Seq::<u8>::empty());
    while i < bytes.len()
        invariant
            i <= bytes@.len(),
            hash == fnv64(bytes@.take(i as int)),
        decreases bytes.len() - i,
    {
        assert(bytes@.take(i + 1).drop_last() =~= bytes@.take(i as int));
        hash = (hash ^ (bytes[i] as u64)).wrapping_mul(0x100000001b3);
        i = i + 1;
    }
    assert(bytes@.take(i as int) =~= bytes@);
    hash
}

pub fn stable_run_hash(run_id: &str) -> (r: u32)
    ensures
        r == fnv32(encode_utf8(run_id@)),
{
    let bytes = run_id.as_bytes();
    let mut hash: u32 = 2166136261;
    let mut i: usize = 0;
    assert(bytes@.take(0) =~= Seq::<u8>::empty());
    while i < bytes.len()
        invariant
            i <= bytes@.len(),
            hash == fnv32(bytes@.take(i as int)),
        decreases bytes.len() - i,
    {
        assert(bytes@.take(i + 1).drop_last() =~= bytes@.take(i as int));
        hash = (hash ^ (bytes[i] as u32)).wrapping_mul(16777619);
        i = i + 1;
    }
    assert(bytes@.take(i as int) =~= bytes@);
    hash
}

/// One step of the splitmix64 generator.
pub open spec fn splitmix64_spec(value: u64) -> u64 {
    let a = value.wrapping_add(0x9e3779b97f4a7c15);
    let b = (a ^ (a >> 30u64)).wrapping_mul(0xbf58476d1ce4e5b9);
    let c = (b ^ (b >> 27u64)).wrapping_mul(0x94d049bb133111eb);
    c ^ (c >> 31u64)
}

pub fn splitmix64(value: u64) -> (r: u64)
    ensures
        r == splitmix64_spec(value),
{
    let a: u64 = value.wrapping_add(0x9e3779b97f4a7c15);
    let b: u64 = (a ^ (a >> 30u64)).wrapping_mul(0xbf58476d1ce4e5b9);
    let c: u64 = (b ^ (b >> 27u64)).wrapping_mul(0x94d049bb133111eb);
    c ^ (c >> 31u64)
}

/// Several steps of the generator.
pub open spec fn mixed(state: u64, steps: nat) -> u64
    decreases steps,
{
    if steps == 0 {
        state
    } else {
        splitmix64_spec(mixed(state, (steps - 1) as nat))
    }
}

/// Multiplying by an odd number loses nothing: `inverse` takes it back.
proof fn lemma_wrapping_mul_injective(a: u64, b: u64, factor: u64, inverse: u64)
    requires
        (factor * inverse) % 0x1_0000_0000_0000_0000 == 1,
        a.wrapping_mul(factor) == b.wrapping_mul(factor),
    ensures
        a == b,
{
    lemma_mul_back(a, factor, inverse);
    lemma_mul_back(b, factor, inverse);
}

proof fn lemma_mul_back(a: u64, factor: u64, inverse: u64)
    requires
        (factor * inverse) % 0x1_0000_0000_0000_0000 == 1,
    ensures
        (a.wrapping_mul(factor) as int * inverse as int) % 0x1_0000_0000_0000_0000 == a,
{
    let m: int = 0x1_0000_0000_0000_0000;
    let x = a as int;
    let f = factor as int;
    let g = inverse as int;
    assert(a.wrapping_mul(factor) as int == (x * f) % m);
    vstd::arithmetic::div_mod::lemma_mul_mod_noop_left(x * f, g, m);
    assert(((x * f) % m * g) % m == (x * f * g) % m);
    let q = (f * g) / m;
    vstd::arithmetic::div_mod::lemma_fundamental_div_mod(f * g, m);
    assert(f * g == m * q + 1);
    assert(x * f * g == m * (x * q) + x) by (nonlinear_arith)
        requires
            f * g == m * q + 1,
    ;
    vstd::arithmetic::div_mod::lemma_mod_multiples_vanish(x * q, x, m);
    vstd::arithmetic::div_mod::lemma_small_mod(a as nat, m as nat);
}

/// Different states have different successors.
pub proof fn lemma_splitmix64_injective(x: u64, y: u64)
    requires
        splitmix64_spec(x) == splitmix64_spec(y),
    ensures
        x == y,
{
    let a = x.wrapping_add(0x9e3779b97f4a7c15);
    let b = (a ^ (a >> 30u64)).wrapping_mul(0xbf58476d1ce4e5b9);
    let c = (b ^ (b >> 27u64)).wrapping_mul(0x94d049bb133111eb);
    let p = y.wrapping_add(0x9e3779b97f4a7c15);
    let q = (p ^ (p >> 30u64)).wrapping_mul(0xbf58476d1ce4e5b9);
    let r = (q ^ (q >> 27u64)).wrapping_mul(0x94d049bb133111eb);
    assert(c ^ (c >> 31u64) == r ^ (r >> 31u64) ==> c == r) by (bit_vector);
    lemma_wrapping_mul_injective(
        b ^ (b >> 27u64),
        q ^ (q >> 27u64),
        0x94d049bb133111eb,
        0x319642b2d24d8ec3,
    );
    assert(b ^ (b >> 27u64) == q ^ (q >> 27u64) ==> b == q) by (bit_vector);
    lemma_wrapping_mul_injective(
        a ^ (a >> 30u64),
        p ^ (p >> 30u64),
        0xbf58476d1ce4e5b9,
        0x96de1b173f119089,
    );
    assert(a ^ (a >> 30u64) == p ^ (p >> 30u64) ==> a == p) by (bit_vector);
}

// ---------------------------------------------------------------------------------------------
// Generated bytes
// ---------------------------------------------------------------------------------------------
/// The bits of `x` turned left by 17 places.
pub open spec fn turned_17(x: u64) -> u64 {
    (x << 17u64) | (x >> 47u64)
}

/// The bits of `x` turned left by 7 places.
pub open spec fn turned_7(x: u64) -> u64 {
    (x << 7u64) | (x >> 57u64)
}

/// Bytes drawn from the generator, eight for every step.
pub open spec fn filler(state: u64, len: nat) -> Seq<u8> {
    Seq::new(
        len,
        |i: int| spec_u64_to_le_bytes(mixed(state, (i / 8 + 1) as nat))[i % 8],
    )
}

fn push_filler(out: &mut Vec<u8>, state: u64, len: usize)
    requires
        old(out)@.len() + len <= usize::MAX,
    ensures
        final(out)@ == old(out)@ + filler(state, len as nat),
{
    let mut current: u64 = state;
    let mut i: usize = 0;
    let ghost start = out@;
    assert(out@ =~= start + filler(state, 0));
    while i < len
        invariant
            i <= len,
            i % 8 == 0 || i == len,
            current == mixed(state, ((i + 7) / 8) as nat),
            start.len() + len <= usize::MAX,
            out@ == start + filler(state, i as nat),
        decreases len - i,
    {
        current = splitmix64(current);
        let bytes = u64_to_le_bytes(current);
        let n: usize = if len - i < 8 {
            len - i
        } else {
            8
        };
        let mut j: usize = 0;
        while j < n
            invariant
                j <= n <= 8,
                i + n <= len,
                i % 8 == 0,
                start.len() + len <= usize::MAX,
                bytes@.len() == 8,
                bytes@ == spec_u64_to_le_bytes(mixed(state, (i / 8 + 1) as nat)),
                out@ == start + filler(state, (i + j) as nat),
            decreases n - j,
        {
            let ghost before = out@;
            out.push(bytes[j]);
            assert((i + j) / 8 == i / 8 && (i + j) % 8 == j);
            assert(out@ =~= start + filler(state, (i + j + 1) as nat));
            j = j + 1;
        }
        i = i + n;
    }
}

/// What a payload file is made of.
pub struct PayloadFileSpec<'a> {
    pub run_id: &'a str,
    pub seed: u64,
    pub index: u64,
    pub size_bytes: u64,
}

/// The generator state that a payload file starts from.
pub open spec fn header_state(run_id: Seq<char>, seed: u64, index: u64, size_bytes: u64) -> u64 {
    fnv64(encode_utf8(run_id)) ^ seed ^ turned_17(index) ^ turned_7(size_bytes)
}

/// The start of a payload file before its timestamp is written.
pub open spec fn header_spec(run_id: Seq<char>, seed: u64, index: u64, size_bytes: u64) -> Seq<u8> {
    Seq::new(8, |i: int| 0u8) + filler(header_state(run_id, seed, index, size_bytes), 24)
}

pub fn unique_header_without_timestamp(spec: &PayloadFileSpec) -> (r: Vec<u8>)
    ensures
        r@ == header_spec(spec.run_id@, spec.seed, spec.index, spec.size_bytes),
        r@.len() == PAYLOAD_HEADER_LEN,
{
    let index: u64 = spec.index;
    let size: u64 = spec.size_bytes;
    let state: u64 = hash_run_id(spec.run_id) ^ spec.seed ^ ((index << 17u64) | (index >> 47u64))
        ^ ((size << 7u64) | (size >> 57u64));
    let mut out: Vec<u8> = Vec::new();
    let mut i: usize = 0;
    while i < 8
        invariant
            i <= 8,
            out@ == Seq::new(i as nat, |i: int| 0u8),
        decreases 8 - i,
    {
        out.push(0);
        assert(out@ =~= Seq::new((i + 1) as nat, |i: int| 0u8));
        i = i + 1;
    }
    push_filler(&mut out, state, 24);
    out
}

/// How many of `max_len` bytes fit into a file.
pub open spec fn size_prefix_spec(size_bytes: u64, max_len: nat) -> nat {
    if size_bytes < max_len {
        size_bytes as nat
    } else {
        max_len
    }
}

pub fn size_prefix_len(size_bytes: u64, max_len: usize) -> (r: usize)
    ensures
        r == size_prefix_spec(size_bytes, max_len as nat),
{
    if size_bytes < max_len as u64 {
        size_bytes as usize
    } else {
        max_len
    }
}

/// An empty payload file is refused.
pub fn check_payload_size(size_bytes: u64) -> (r: Result<(), String>)
    ensures
        match r {
            Ok(_) => size_bytes > 0,
            Err(m) => size_bytes == 0 && m@ == "payload file size must be greater than zero"@,
        },
{
    if size_bytes == 0 {
        Err("payload file size must be greater than zero".to_owned())
    } else {
        Ok(())
    }
}

/// The bytes to write at the start of a payload file: its header, as much of it as fits.
pub fn header_bytes(spec: &PayloadFileSpec) -> (r: Vec<u8>)
    ensures
        r@ == header_spec(spec.run_id@, spec.seed, spec.index, spec.size_bytes).take(
            size_prefix_spec(spec.size_bytes, PAYLOAD_HEADER_LEN as nat) as int,
        ),
{
    let mut header = unique_header_without_timestamp(spec);
    let n = size_prefix_len(spec.size_bytes, PAYLOAD_HEADER_LEN);
    header.truncate(n);
    assert(header@ =~= header_spec(spec.run_id@, spec.seed, spec.index, spec.size_bytes).take(
        n as int,
    ));
    header
}

/// The timestamp bytes to write over the start of a payload file, as much of them as fits.
pub fn timestamp_bytes(timestamp_nanos: u64, size_bytes: u64) -> (r: Vec<u8>)
    ensures
        r@ == spec_u64_to_le_bytes(timestamp_nanos).take(
            size_prefix_spec(size_bytes, PAYLOAD_TIMESTAMP_LEN as nat) as int,
        ),
{
    let mut bytes = u64_to_le_bytes(timestamp_nanos);
    let n = size_prefix_len(size_bytes, PAYLOAD_TIMESTAMP_LEN);
    bytes.truncate(n);
    assert(bytes@ =~= spec_u64_to_le_bytes(timestamp_nanos).take(n as int));
    bytes
}

/// The generator state that the payload of a put starts from.
pub open spec fn payload_state(run_id: Seq<char>, seed: u64, index: u64) -> u64 {
    fnv64(encode_utf8(run_id)) ^ seed ^ turned_17(index)
}

/// The payload of a put: its index, then generated bytes.
pub open spec fn payload_spec(run_id: Seq<char>, seed: u64, index: u64, size: nat) -> Seq<u8> {
    spec_u64_to_le_bytes(index) + filler(payload_state(run_id, seed, index), (size - 8) as nat)
}

pub fn make_small_unique_payload(run_id: &str, seed: u64, index: u64, size: usize) -> (r: Vec<u8>)
    requires
        size >= 8,
    ensures
        r@ == payload_spec(run_id@, seed, index, size as nat),
        r@.len() == size,
{
    proof {
        lemma_auto_spec_u64_to_from_le_bytes();
    }
    let mut out = u64_to_le_bytes(index);
    let state: u64 = hash_run_id(run_id) ^ seed ^ ((index << 17u64) | (index >> 47u64));
    push_filler(&mut out, state, size - 8);
    out
}

/// The size of an object to put.
pub fn object_size_usize(object_size_bytes: u64) -> (r: Result<usize, String>)
    ensures
        match r {
            Ok(size) => size == object_size_bytes && size >= 8,
            Err(m) => {
                ||| object_size_bytes < 8 && m@
                    == "blob put object_size_bytes must be at least 8 so each tiny object can carry a unique id"@
                ||| object_size_bytes >= 8 && object_size_bytes > usize::MAX && m@
                    == "object_size_bytes is too large for this platform"@
            },
        },
{
    if object_size_bytes < 8 {
        Err(
            "blob put object_size_bytes must be at least 8 so each tiny object can carry a unique id".to_owned(),
        )
    } else if object_size_bytes > usize::MAX as u64 {
        Err("object_size_bytes is too large for this platform".to_owned())
    } else {
        Ok(object_size_bytes as usize)
    }
}

/// The input file `index` of a put.
pub fn object_path(dir: &str, index: usize) -> (r: String)
    ensures
        r@ == naming::path_join_spec(
            dir@,
            "object_"@ + text::dec_padded(index as nat, 8) + ".bin"@,
        ),
{
    let name = text::cat3("object_", text::decimal_padded(index as u64, 8).as_str(), ".bin");
    naming::path_join(dir, name.as_str())
}

// ---------------------------------------------------------------------------------------------
// No two alike
// ---------------------------------------------------------------------------------------------
/// Puts with different indexes have different payloads, and the index can be read back.
pub proof fn lemma_payloads_unique(
    run_id: Seq<char>,
    seed: u64,
    index: u64,
    other_run_id: Seq<char>,
    other_seed: u64,
    other_index: u64,
    size: nat,
)
    requires
        size >= 8,
        index != other_index,
    ensures
        payload_spec(run_id, seed, index, size) != payload_spec(
            other_run_id,
            other_seed,
            other_index,
            size,
        ),
        spec_u64_from_le_bytes(payload_spec(run_id, seed, index, size).take(8)) == index,
{
    lemma_auto_spec_u64_to_from_le_bytes();
    assert(payload_spec(run_id, seed, index, size).take(8) =~= spec_u64_to_le_bytes(index));
    assert(payload_spec(other_run_id, other_seed, other_index, size).take(8)
        =~= spec_u64_to_le_bytes(other_index));
}

/// Different states stay different, step by step.
pub proof fn lemma_mixed_injective(x: u64, y: u64, steps: nat)
    requires
        mixed(x, steps) == mixed(y, steps),
    ensures
        x == y,
    decreases steps,
{
    if steps > 0 {
        let before = (steps - 1) as nat;
        lemma_splitmix64_injective(mixed(x, before), mixed(y, before));
        lemma_mixed_injective(x, y, before);
    }
}

/// Different states fill every group of eight bytes differently.
proof fn lemma_filler_groups_differ(x: u64, y: u64, groups: nat, group: int)
    requires
        x != y,
        0 <= group < groups,
    ensures
        filler(x, 8 * groups).subrange(8 * group, 8 * group + 8) != filler(y, 8 * groups).subrange(
            8 * group,
            8 * group + 8,
        ),
{
    let steps = (group + 1) as nat;
    if mixed(x, steps) == mixed(y, steps) {
        lemma_mixed_injective(x, y, steps);
    }
    lemma_auto_spec_u64_to_from_le_bytes();
    assert(filler(x, 8 * groups).subrange(8 * group, 8 * group + 8) =~= spec_u64_to_le_bytes(
        mixed(x, steps),
    ));
    assert(filler(y, 8 * groups).subrange(8 * group, 8 * group + 8) =~= spec_u64_to_le_bytes(
        mixed(y, steps),
    ));
}

/// The headers of two payload files of one run that differ in one thing, be it the seed, the index
/// or the size, differ in each of the three groups of eight bytes behind the timestamp. A file of 32
/// bytes holds all three groups, and a shorter one those that fit.
pub proof fn lemma_headers_unique(
    run_id: Seq<char>,
    seed: u64,
    index: u64,
    size_bytes: u64,
    other_seed: u64,
    other_index: u64,
    other_size: u64,
    group: int,
)
    requires
        0 <= group < 3,
        ({
            ||| seed != other_seed && index == other_index && size_bytes == other_size
            ||| seed == other_seed && index != other_index && size_bytes == other_size
            ||| seed == other_seed && index == other_index && size_bytes != other_size
        }),
    ensures
        header_spec(run_id, seed, index, size_bytes).subrange(8 + 8 * group, 16 + 8 * group)
            != header_spec(run_id, other_seed, other_index, other_size).subrange(
            8 + 8 * group,
            16 + 8 * group,
        ),
{
    let a = header_state(run_id, seed, index, size_bytes);
    let b = header_state(run_id, other_seed, other_index, other_size);
    let hash = fnv64(encode_utf8(run_id));
    assert(hash ^ seed ^ ((index << 17u64) | (index >> 47u64)) ^ ((size_bytes << 7u64) | (size_bytes
        >> 57u64)) == hash ^ other_seed ^ ((other_index << 17u64) | (other_index >> 47u64)) ^ ((
    other_size << 7u64) | (other_size >> 57u64)) ==> !({
        ||| seed != other_seed && index == other_index && size_bytes == other_size
        ||| seed == other_seed && index != other_index && size_bytes == other_size
        ||| seed == other_seed && index == other_index && size_bytes != other_size
    })) by (bit_vector);
    assert(a != b);
    lemma_filler_groups_differ(a, b, 3, group);
    assert(header_spec(run_id, seed, index, size_bytes).subrange(8 + 8 * group, 16 + 8 * group)
        =~= filler(a, 24).subrange(8 * group, 8 * group + 8));
    assert(header_spec(run_id, other_seed, other_index, other_size).subrange(
        8 + 8 * group,
        16 + 8 * group,
    ) =~= filler(b, 24).subrange(8 * group, 8 * group + 8));
}

/// Payloads and headers are as long as asked for. A payload begins with its index, a header with eight
/// zeros where the time will stand, and a shorter filler is the beginning of a longer one.
pub proof fn lemma_shapes_of_payloads(
    run_id: Seq<char>,
    seed: u64,
    index: u64,
    size: nat,
    size_bytes: u64,
    state: u64,
    shorter: nat,
)
    requires
        size >= 8,
        shorter <= size,
    ensures
        payload_spec(run_id, seed, index, size).len() == size,
        header_spec(run_id, seed, index, size_bytes).len() == 32,
        forall|i: int|
            0 <= i < 8 ==> #[trigger] header_spec(run_id, seed, index, size_bytes)[i] == 0,
        filler(state, size).len() == size,
        filler(state, size).take(shorter as int) == filler(state, shorter),
        PAYLOAD_HEADER_LEN == 32 && PAYLOAD_TIMESTAMP_LEN == 8,
{
    lemma_auto_spec_u64_to_from_le_bytes();
    assert(filler(state, size).take(shorter as int) =~= filler(state, shorter));
}

/// What is written in front of a payload is no longer than the payload.
pub proof fn lemma_prefix_fits(size_bytes: u64, max_len: nat)
    ensures
        size_prefix_spec(size_bytes, max_len) <= size_bytes,
        size_prefix_spec(size_bytes, max_len) <= max_len,
        size_prefix_spec(size_bytes, max_len) == size_bytes || size_prefix_spec(size_bytes, max_len)
            == max_len,
{
}

/// The hashes take in one byte after the other.
pub proof fn lemma_hashes_by_byte(bytes: Seq<u8>, byte: u8)
    ensures
        fnv64(Seq::empty()) == 0xcbf2_9ce4_8422_2325,
        fnv64(bytes.push(byte)) == (fnv64(bytes) ^ (byte as u64)).wrapping_mul(0x0000_0100_0000_01b3),
        fnv32(Seq::empty()) == 0x811c_9dc5,
        fnv32(bytes.push(byte)) == (fnv32(bytes) ^ (byte as u32)).wrapping_mul(0x0100_0193),
{
    assert(bytes.push(byte).drop_last() =~= bytes);
}

} // verus!
