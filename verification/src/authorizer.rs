use vstd::prelude::*;

verus! {

/// Number of entries of the authorization queue that `accumulate` fills.
pub const AUTH_QUEUE_SIZE: usize = 80;

/// Length in bytes of an authorizer hash.
pub const HASH_LEN: usize = 32;

/// Length in bytes of the refine output: the hash, then the 4-byte
/// authorizer parameter.
pub const OUTPUT_LEN: usize = 36;

/// The cores whose authorization queue `accumulate` fills: 0 and 1.
pub open spec fn assigned_cores() -> Seq<u64> {
    seq![0u64, 1u64]
}

/// The `u32` whose little-endian encoding is the four bytes of `s`.
pub open spec fn le_u32(s: Seq<u8>) -> u32 {
    (s[0] + s[1] * 0x100 + s[2] * 0x1_0000 + s[3] * 0x100_0000) as u32
}

/// `block` written `n` times in a row.
pub open spec fn repeated(block: Seq<u8>, n: int) -> Seq<u8>
    decreases n,
{
    if n <= 0 {
        Seq::empty()
    } else {
        repeated(block, n - 1) + block
    }
}

/// What `accumulate` derives from the refine output found in an operand.
pub struct AuthAssignment {
    /// The last `OUTPUT_LEN` bytes of the operand.
    pub record: Vec<u8>,
    /// The service the cores are assigned to: the little-endian `u32` in
    /// the last four bytes of the record.
    pub service: u32,
    /// The cores assigned to `service` with `queue`: 0 and 1.
    pub cores: Vec<u64>,
    /// The authorization queue: the record's hash, `AUTH_QUEUE_SIZE` times.
    pub queue: Vec<u8>,
}

/// The record that `accumulate` reads from an operand: its last
/// `OUTPUT_LEN` bytes, or `None` when it is shorter.
pub open spec fn operand_record(operand: Seq<u8>) -> Option<Seq<u8>> {
    if operand.len() < OUTPUT_LEN {
        None
    } else {
        Some(operand.subrange(operand.len() - OUTPUT_LEN, operand.len() as int))
    }
}

/// What `accumulate` derives from an operand: `None` when it is shorter
/// than `OUTPUT_LEN`; otherwise its last `OUTPUT_LEN` bytes, the
/// little-endian `u32` in their last four bytes as the service, the cores
/// 0 and 1 to assign to it, and their first `HASH_LEN` bytes written
/// `AUTH_QUEUE_SIZE` times as the queue for those cores.
pub open spec fn accumulated(operand: Seq<u8>) -> Option<(Seq<u8>, u32, Seq<u64>, Seq<u8>)> {
    match operand_record(operand) {
        None => None,
        Some(record) => Some(
            (
                record,
                le_u32(record.subrange(HASH_LEN as int, OUTPUT_LEN as int)),
                assigned_cores(),
                repeated(record.subrange(0, HASH_LEN as int), AUTH_QUEUE_SIZE as int),
            ),
        ),
    }
}

/// Concatenates the work-package input and the work-item payload.
pub fn build_combined_input(input: &[u8], wi_payload: &[u8]) -> (buffer: Vec<u8>)
    requires
        input@.len() + wi_payload@.len() <= usize::MAX,
    ensures
        buffer@ == input@ + wi_payload@,
{
    let mut buffer: Vec<u8> = Vec::with_capacity(input.len() + wi_payload.len());
    append_bytes(&mut buffer, input);
    append_bytes(&mut buffer, wi_payload);
    buffer
}

/// Appends the bytes of `src` to `dst`.
fn append_bytes(dst: &mut Vec<u8>, src: &[u8])
    ensures
        final(dst)@ == old(dst)@ + src@,
{
    let ghost start = dst@;
    let mut i: usize = 0;
    while i < src.len()
        invariant
            i <= src@.len(),
            dst@ == start + src@.subrange(0, i as int),
        decreases src@.len() - i,
    {
        dst.push(src[i]);
        i = i + 1;
        assert(src@.subrange(0, i as int) =~= src@.subrange(0, i - 1).push(src@[i - 1]));
    }
    assert(src@.subrange(0, src@.len() as int) =~= src@);
}

/// The bytes `refine` hashes: the 32-byte input alone when the work item
/// carries no payload, else the input followed by the payload.
pub fn refine_preimage(input: &[u8], wi_payload: &[u8]) -> (preimage: Vec<u8>)
    requires
        input@.len() + wi_payload@.len() <= usize::MAX,
    ensures
        preimage@ == input@ + wi_payload@,
{
    if wi_payload.len() > 0 {
        build_combined_input(input, wi_payload)
    } else {
        let mut copy: Vec<u8> = Vec::new();
        append_bytes(&mut copy, input);
        assert(wi_payload@ =~= Seq::<u8>::empty());
        assert(input@ + wi_payload@ =~= input@);
        copy
    }
}

/// The refine output: the authorizer hash followed by the 4-byte
/// authorizer parameter.
pub fn refine_output(digest: &[u8; 32], authorizer_param: &[u8; 4]) -> (output: Vec<u8>)
    ensures
        output@ == digest@ + authorizer_param@,
        output@.len() == OUTPUT_LEN,
{
    let mut output: Vec<u8> = Vec::with_capacity(OUTPUT_LEN);
    append_bytes(&mut output, digest.as_slice());
    append_bytes(&mut output, authorizer_param.as_slice());
    output
}

/// Reads the refine output at the end of an accumulate operand: `None`
/// when the operand is shorter than `OUTPUT_LEN`; otherwise its last
/// `OUTPUT_LEN` bytes, the service index in their last four bytes
/// (little-endian) and the authorization queue made of their first
/// `HASH_LEN` bytes repeated `AUTH_QUEUE_SIZE` times.
pub fn accumulate_operand(operand: &[u8]) -> (res: Option<AuthAssignment>)
    ensures
        match res {
            None => accumulated(operand@) is None,
            Some(a) => accumulated(operand@) == Some((a.record@, a.service, a.cores@, a.queue@)),
        },
{
    if operand.len() < OUTPUT_LEN {
        return None;
    }
    let start = operand.len() - OUTPUT_LEN;
    let mut record: Vec<u8> = Vec::with_capacity(OUTPUT_LEN);
    let mut j: usize = 0;
    while j < OUTPUT_LEN
        invariant
            start + OUTPUT_LEN == operand.len(),
            j <= OUTPUT_LEN,
            record@ == operand@.subrange(start as int, start + j),
        decreases OUTPUT_LEN - j,
    {
        record.push(operand[start + j]);
        j = j + 1;
        assert(operand@.subrange(start as int, start + j) =~= operand@.subrange(
            start as int,
            start + j - 1,
        ).push(operand@[start + j - 1]));
    }
    let service: u32 = record[32] as u32 + record[33] as u32 * 0x100 + record[34] as u32 * 0x1_0000
        + record[35] as u32 * 0x100_0000;
    let mut queue: Vec<u8> = Vec::with_capacity(AUTH_QUEUE_SIZE * HASH_LEN);
    let ghost hash = record@.subrange(0, HASH_LEN as int);
    let mut i: usize = 0;
    while i < AUTH_QUEUE_SIZE
        invariant
            i <= AUTH_QUEUE_SIZE,
            record@.len() == OUTPUT_LEN,
            hash == record@.subrange(0, HASH_LEN as int),
            queue@ == repeated(hash, i as int),
        decreases AUTH_QUEUE_SIZE - i,
    {
        let ghost before = queue@;
        let mut k: usize = 0;
        while k < HASH_LEN
            invariant
                k <= HASH_LEN,
                record@.len() == OUTPUT_LEN,
                hash == record@.subrange(0, HASH_LEN as int),
                queue@ == before + hash.subrange(0, k as int),
            decreases HASH_LEN - k,
        {
            queue.push(record[k]);
            k = k + 1;
            assert(hash.subrange(0, k as int) =~= hash.subrange(0, k - 1).push(hash[k - 1]));
        }
        assert(hash.subrange(0, HASH_LEN as int) =~= hash);
        i = i + 1;
    }
    let mut cores: Vec<u64> = Vec::new();
    cores.push(0);
    cores.push(1);
    assert(cores@ =~= assigned_cores());
    Some(AuthAssignment { record, service, cores, queue })
}

/// Accumulating an operand that ends with a refine output recovers what
/// refine wrote: the record is that output, the service is the authorizer
/// parameter read as a little-endian `u32`, cores 0 and 1 are assigned to
/// it, and every queue entry is the hash.
pub proof fn lemma_accumulate_reads_refine_output(prefix: Seq<u8>, digest: Seq<u8>, param: Seq<u8>)
    requires
        digest.len() == HASH_LEN,
        param.len() == 4,
    ensures
        accumulated(prefix + (digest + param)) == Some(
            (digest + param, le_u32(param), assigned_cores(), repeated(digest, AUTH_QUEUE_SIZE as int)),
        ),
{
    let operand = prefix + (digest + param);
    assert(operand.subrange(operand.len() - OUTPUT_LEN, operand.len() as int) =~= digest + param);
    assert((digest + param).subrange(0, HASH_LEN as int) =~= digest);
    assert((digest + param).subrange(HASH_LEN as int, OUTPUT_LEN as int) =~= param);
}

/// `block` written `n` times is `n` blocks long, and its `k`-th block is
/// `block`: every entry of the authorization queue is the hash.
pub proof fn lemma_repeated_entries(block: Seq<u8>, n: int, k: int)
    requires
        0 <= k < n,
    ensures
        repeated(block, n).len() == n * block.len(),
        repeated(block, n).subrange(k * block.len(), (k + 1) * block.len()) == block,
    decreases n,
{
    lemma_repeated_len(block, n - 1);
    let len = block.len() as int;
    assert((n - 1) * len + len == n * len) by (nonlinear_arith);
    if k < n - 1 {
        lemma_repeated_entries(block, n - 1, k);
        assert(0 <= k * len && k * len <= (k + 1) * len <= (n - 1) * len) by (nonlinear_arith)
            requires
                0 <= k,
                k + 1 <= n - 1,
                0 <= len,
        ;
        assert(repeated(block, n).subrange(k * len, (k + 1) * len) =~= repeated(
            block,
            n - 1,
        ).subrange(k * len, (k + 1) * len));
    } else {
        assert(k * len == (n - 1) * len && (k + 1) * len == n * len) by (nonlinear_arith)
            requires
                k == n - 1,
        ;
        assert(repeated(block, n).subrange(k * len, (k + 1) * len) =~= block);
    }
}

/// `block` written `n` times is `n` blocks long.
proof fn lemma_repeated_len(block: Seq<u8>, n: int)
    ensures
        n >= 0 ==> repeated(block, n).len() == n * block.len(),
    decreases n,
{
    if n > 0 {
        lemma_repeated_len(block, n - 1);
        assert((n - 1) * block.len() + block.len() == n * block.len()) by (nonlinear_arith);
    } else if n == 0 {
        assert(0 * block.len() == 0);
    }
}

/// What accumulate reads from an operand of at least 36 bytes, in terms
/// of its raw bytes: the record is its last 36 bytes; the service is the
/// little-endian number in its last four bytes; the assigned cores are 0
/// and 1; and the queue is 80 entries of 32 bytes, each equal to the 32
/// bytes that start 36 bytes before the end.
pub proof fn lemma_accumulated_bytes(operand: Seq<u8>, k: int, j: int)
    requires
        operand.len() >= 36,
        0 <= k < 80,
        0 <= j < 32,
    ensures
        accumulated(operand) is Some,
        accumulated(operand).unwrap().0 == operand.subrange(operand.len() - 36, operand.len() as int),
        accumulated(operand).unwrap().1 == operand[operand.len() - 4] + operand[operand.len() - 3]
            * 256 + operand[operand.len() - 2] * 65536 + operand[operand.len() - 1] * 16777216,
        accumulated(operand).unwrap().2 == seq![0u64, 1u64],
        accumulated(operand).unwrap().3.len() == 80 * 32,
        accumulated(operand).unwrap().3[32 * k + j] == operand[operand.len() - 36 + j],
{
    let n = operand.len() as int;
    let record = operand.subrange(n - 36, n);
    lemma_le_u32_bytes(record.subrange(32, 36));
    lemma_queue_entry(record.subrange(0, 32), k, j);
}

/// The little-endian number of four bytes, written out.
proof fn lemma_le_u32_bytes(s: Seq<u8>)
    requires
        s.len() == 4,
    ensures
        le_u32(s) == s[0] + s[1] * 256 + s[2] * 65536 + s[3] * 16777216,
{
    assert(s[0] + s[1] * 256 + s[2] * 65536 + s[3] * 16777216 <= u32::MAX);
}

/// Entry `k` of a queue made of a 32-byte hash is that hash.
proof fn lemma_queue_entry(hash: Seq<u8>, k: int, j: int)
    requires
        hash.len() == 32,
        0 <= k < 80,
        0 <= j < 32,
    ensures
        repeated(hash, 80).len() == 80 * 32,
        repeated(hash, 80)[32 * k + j] == hash[j],
{
    lemma_repeated_entries(hash, 80, k);
    let q = repeated(hash, 80);
    assert(q.subrange(k * 32, (k + 1) * 32)[j] == q[k * 32 + j]);
    assert(32 * k == k * 32);
}

} // verus!
