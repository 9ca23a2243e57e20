//! The table checksum: what it is, how it is computed, and what it detects.
//!
//! A table's bytes are read as 4-byte big-endian words and the words are
//! added up modulo 2^32. A last chunk of fewer than four bytes is a word
//! of its own: its bytes are the low-order bytes of that word, and the
//! high-order bytes that are missing count as zero. Said byte by byte: a
//! byte counts with the weight of its place in its word, which is 256 to
//! the number of bytes that follow it there, and the checksum is the
//! weighted sum of all bytes modulo 2^32.

use vstd::prelude::*;

verus! {

/// How many bytes follow the byte at `index` within its word, in data of
/// `len` bytes: the words start at the multiples of four, and the last
/// one ends where the data ends.
pub open spec fn bytes_after_in_word(index: int, len: int) -> int {
    let to_word_end: int = 3 - index % 4;
    let to_data_end: int = len - 1 - index;
    if to_data_end < to_word_end {
        to_data_end
    } else {
        to_word_end
    }
}

/// The weight with which the byte at `index` enters its big-endian word,
/// in data of `len` bytes: 256 to the number of bytes that follow it in
/// that word.
pub open spec fn byte_weight(index: int, len: int) -> int {
    let after: int = bytes_after_in_word(index, len);
    if after >= 3 {
        0x100_0000
    } else if after == 2 {
        0x1_0000
    } else if after == 1 {
        0x100
    } else {
        1
    }
}

/// The sum of the first `count` bytes of `data`, each times its weight.
pub open spec fn weighted_sum(data: Seq<u8>, count: nat) -> int
    decreases count,
{
    if count == 0 {
        0
    } else {
        weighted_sum(data, (count - 1) as nat) + data[count - 1] as int * byte_weight(
            count - 1,
            data.len() as int,
        )
    }
}

/// The checksum of `data`: the sum of its big-endian words modulo 2^32.
pub open spec fn checksum_of(data: Seq<u8>) -> u32 {
    (weighted_sum(data, data.len()) % 0x1_0000_0000) as u32
}

/// `data` with the bytes at indices 8 to 11 taken as zero: the place of
/// the checksum adjustment in a `head` table.
pub open spec fn without_adjustment(data: Seq<u8>) -> Seq<u8> {
    Seq::new(
        data.len(),
        |i: int|
            if 8 <= i < 12 {
                0u8
            } else {
                data[i]
            },
    )
}

/// Whether `tag` is the tag of the `head` table.
pub open spec fn is_head(tag: [u8; 4]) -> bool {
    tag@ =~= seq![0x68u8, 0x65u8, 0x61u8, 0x64u8]
}

/// The bytes of a table tagged `tag` that enter its checksum: for `head`,
/// the checksum adjustment counts as zero whatever it holds.
pub open spec fn summed_bytes(tag: [u8; 4], data: Seq<u8>) -> Seq<u8> {
    if is_head(tag) {
        without_adjustment(data)
    } else {
        data
    }
}

/// The checksum of a table tagged `tag` whose bytes are `data`.
pub open spec fn table_checksum(tag: [u8; 4], data: Seq<u8>) -> u32 {
    checksum_of(summed_bytes(tag, data))
}

/// The bytes that `sum_words` adds up.
pub open spec fn masked(data: Seq<u8>, skip_adjustment: bool) -> Seq<u8> {
    if skip_adjustment {
        without_adjustment(data)
    } else {
        data
    }
}

/// The byte at `index`, or zero in place of a byte of the checksum
/// adjustment if those are skipped.
fn byte_at(data: &[u8], index: usize, skip_adjustment: bool) -> (byte: u8)
    requires
        index < data@.len(),
    ensures
        byte == masked(data@, skip_adjustment)[index as int],
{
    if skip_adjustment && index >= 8 && index < 12 {
        0
    } else {
        data[index]
    }
}

/// The word that `taken` bytes of `data` from `start` on make, the first
/// of them the most significant.
pub open spec fn word_at(data: Seq<u8>, start: int, taken: int) -> int {
    if taken >= 4 {
        data[start] * 0x100_0000 + data[start + 1] * 0x1_0000 + data[start + 2] * 0x100
            + data[start + 3]
    } else if taken == 3 {
        data[start] * 0x1_0000 + data[start + 1] * 0x100 + data[start + 2]
    } else if taken == 2 {
        data[start] * 0x100 + data[start + 1]
    } else {
        data[start] as int
    }
}

/// Adding the bytes of one word to the weighted sum adds the word: a
/// whole word of four bytes, or the shorter word that ends the data.
proof fn lemma_sum_one_word(data: Seq<u8>, start: int, taken: int)
    requires
        0 <= start,
        start % 4 == 0,
        1 <= taken <= 4,
        start + taken <= data.len(),
        taken == 4 || start + taken == data.len(),
    ensures
        weighted_sum(data, (start + taken) as nat) == weighted_sum(data, start as nat) + word_at(
            data,
            start,
            taken,
        ),
{
    reveal_with_fuel(weighted_sum, 5);
}

/// How many bytes the word that starts at `start` has, in data of `len`
/// bytes: four, or fewer where the data ends before the word does.
pub open spec fn word_len(start: int, len: int) -> int {
    if len - start >= 4 {
        4
    } else {
        len - start
    }
}

/// The sum of the first `count` words of `data`, the short last word
/// among them if the sum reaches it.
pub open spec fn sum_of_words(data: Seq<u8>, count: nat) -> int
    decreases count,
{
    if count == 0 {
        0
    } else {
        sum_of_words(data, (count - 1) as nat) + word_at(
            data,
            4 * (count - 1),
            word_len(4 * (count - 1), data.len() as int),
        )
    }
}

/// The checksum, said word by word: the words of the data are added up,
/// whole words of four bytes and at the end the word of the one, two or
/// three bytes that are left over, and the sum is taken modulo 2^32.
pub proof fn lemma_checksum_is_sum_of_words(data: Seq<u8>)
    ensures
        checksum_of(data) == sum_of_words(data, ((data.len() + 3) / 4) as nat) % 0x1_0000_0000,
{
    lemma_words_add_up(data, ((data.len() + 3) / 4) as nat);
}

/// The first `count` words sum to the weighted sum of the bytes they hold.
proof fn lemma_words_add_up(data: Seq<u8>, count: nat)
    requires
        count <= (data.len() + 3) / 4,
    ensures
        sum_of_words(data, count) == weighted_sum(
            data,
            if 4 * count <= data.len() {
                4 * count
            } else {
                data.len()
            },
        ),
    decreases count,
{
    if count > 0 {
        lemma_words_add_up(data, (count - 1) as nat);
        let start: int = 4 * (count - 1);
        lemma_sum_one_word(data, start, word_len(start, data.len() as int));
    }
}

/// Adding a word to a sum kept modulo 2^32, with wraparound, keeps it the
/// sum modulo 2^32.
proof fn lemma_wrapping_step(total: int, sum: u32, word: u32)
    requires
        sum == total % 0x1_0000_0000,
    ensures
        (total + word) % 0x1_0000_0000 == (if sum + word > u32::MAX {
            sum + word - 0x1_0000_0000
        } else {
            sum + word
        }),
{
    let m: int = 0x1_0000_0000;
    let q: int = total / m;
    assert(total == q * m + sum) by {
        vstd::arithmetic::div_mod::lemma_fundamental_div_mod(total, m);
    }
    if sum + word > u32::MAX {
        assert(total + word == (q + 1) * m + (sum + word - m)) by (nonlinear_arith)
            requires
                total == q * m + sum,
        ;
        vstd::arithmetic::div_mod::lemma_fundamental_div_mod_converse(
            total + word,
            m,
            q + 1,
            sum + word - m,
        );
    } else {
        vstd::arithmetic::div_mod::lemma_fundamental_div_mod_converse(
            total + word,
            m,
            q,
            sum + word,
        );
    }
}

/// Adds up the big-endian words of `data` modulo 2^32, with the checksum
/// adjustment taken as zero if `skip_adjustment` is set. A last word of
/// fewer than four bytes counts with its missing high-order bytes as zero.
pub fn sum_words(data: &[u8], skip_adjustment: bool) -> (sum: u32)
    ensures
        sum == checksum_of(masked(data@, skip_adjustment)),
{
    let ghost bytes: Seq<u8> = masked(data@, skip_adjustment);
    let len: usize = data.len();
    let mut sum: u32 = 0;
    let mut i: usize = 0;
    while i < len
        invariant
            len == data@.len(),
            bytes == masked(data@, skip_adjustment),
            bytes.len() == len,
            i <= len,
            i % 4 == 0 || i == len,
            sum == weighted_sum(bytes, i as nat) % 0x1_0000_0000,
        decreases len - i,
    {
        let left: usize = len - i;
        let taken: usize = if left >= 4 {
            4
        } else {
            left
        };
        // A word takes its bytes in at the low-order end, one after the
        // other: a last word of fewer than four bytes is then as short
        // as they are, with nothing but zeros above them.
        let mut word: u32 = 0;
        let mut j: usize = 0;
        while j < taken
            invariant
                len == data@.len(),
                bytes == masked(data@, skip_adjustment),
                i + taken <= len,
                taken <= 4,
                j <= taken,
                word == (if j == 0 {
                    0
                } else {
                    word_at(bytes, i as int, j as int)
                }),
            decreases taken - j,
        {
            let byte: u8 = byte_at(data, i + j, skip_adjustment);
            word = word * 0x100 + (byte as u32);
            j += 1;
        }
        proof {
            lemma_sum_one_word(bytes, i as int, taken as int);
            lemma_wrapping_step(weighted_sum(bytes, i as nat), sum, word);
        }
        sum = sum.wrapping_add(word);
        i += taken;
    }
    sum
}

/// Changing one byte changes the weighted sum by the change of the byte
/// times the byte's weight, once the sum reaches that byte.
proof fn lemma_weighted_sum_update(data: Seq<u8>, index: int, value: u8, count: nat)
    requires
        0 <= index < data.len(),
        count <= data.len(),
    ensures
        weighted_sum(data.update(index, value), count) == weighted_sum(data, count) + (if index
            < count {
            (value - data[index]) * byte_weight(index, data.len() as int)
        } else {
            0
        }),
    decreases count,
{
    if count > 0 {
        lemma_weighted_sum_update(data, index, value, (count - 1) as nat);
        if index == count - 1 {
            let weight: int = byte_weight(index, data.len() as int);
            assert((value - data[index]) * weight == value * weight - data[index] * weight)
                by (nonlinear_arith);
        }
    }
}

/// A change of one byte is never a multiple of 2^32 in the weighted sum.
proof fn lemma_change_is_no_multiple(from: u8, to: u8, index: int, len: int)
    requires
        from != to,
    ensures
        0 < (to - from) * byte_weight(index, len) < 0x1_0000_0000 || -0x1_0000_0000 < (to - from)
            * byte_weight(index, len) < 0,
{
    let d: int = to - from;
    let w: int = byte_weight(index, len);
    assert(0 < d * w < 0x1_0000_0000 || -0x1_0000_0000 < d * w < 0) by (nonlinear_arith)
        requires
            -255 <= d <= 255 && d != 0,
            w == 0x100_0000 || w == 0x1_0000 || w == 0x100 || w == 1,
    ;
}

/// The checksum detects every change of a single byte: if one byte of
/// `data` takes another value, whatever it is, the checksum is another.
pub proof fn lemma_checksum_detects_change(data: Seq<u8>, index: int, value: u8)
    requires
        0 <= index < data.len(),
        value != data[index],
    ensures
        checksum_of(data.update(index, value)) != checksum_of(data),
{
    let m: int = 0x1_0000_0000;
    let before: int = weighted_sum(data, data.len());
    let after: int = weighted_sum(data.update(index, value), data.len());
    let delta: int = (value - data[index]) * byte_weight(index, data.len() as int);
    lemma_weighted_sum_update(data, index, value, data.len());
    lemma_change_is_no_multiple(data[index], value, index, data.len() as int);
    if after % m == before % m {
        vstd::arithmetic::div_mod::lemma_fundamental_div_mod(after, m);
        vstd::arithmetic::div_mod::lemma_fundamental_div_mod(before, m);
        let qa: int = after / m;
        let qb: int = before / m;
        assert(delta == m * (qa - qb)) by (nonlinear_arith)
            requires
                after == m * qa + after % m,
                before == m * qb + before % m,
                after % m == before % m,
                after == before + delta,
        ;
        assert(false) by (nonlinear_arith)
            requires
                delta == m * (qa - qb),
                m == 0x1_0000_0000,
                0 < delta < m || -m < delta < 0,
        ;
    }
}

/// The checksum of the `head` table does not depend on what the four
/// bytes of its checksum adjustment hold.
pub proof fn lemma_head_ignores_adjustment(tag: [u8; 4], data: Seq<u8>, index: int, value: u8)
    requires
        is_head(tag),
        8 <= index < 12,
        index < data.len(),
    ensures
        table_checksum(tag, data.update(index, value)) == table_checksum(tag, data),
{
    assert(without_adjustment(data.update(index, value)) =~= without_adjustment(data));
}

/// Whether the byte at `index` of a table tagged `tag` enters the table's
/// checksum: every byte does, but for the checksum adjustment of `head`.
pub open spec fn is_summed(tag: [u8; 4], index: int) -> bool {
    !(is_head(tag) && 8 <= index < 12)
}

/// The checksum of a table detects every change of a single byte that
/// enters it.
pub proof fn lemma_table_checksum_detects_change(
    tag: [u8; 4],
    data: Seq<u8>,
    index: int,
    value: u8,
)
    requires
        0 <= index < data.len(),
        value != data[index],
        is_summed(tag, index),
    ensures
        table_checksum(tag, data.update(index, value)) != table_checksum(tag, data),
{
    if is_head(tag) {
        assert(without_adjustment(data.update(index, value)) =~= without_adjustment(data).update(
            index,
            value,
        ));
        lemma_checksum_detects_change(without_adjustment(data), index, value);
    } else {
        lemma_checksum_detects_change(data, index, value);
    }
}

} // verus!
