use vstd::prelude::*;
use vstd::arithmetic::power2::lemma2_to64;
use vstd::arithmetic::power2::lemma_pow2_strictly_increases;
use vstd::arithmetic::power2::lemma_pow2_unfold;
use vstd::arithmetic::power2::pow2;
use vstd::string::StringExecFns;

verus! {

/// Size in bytes of an authenticated clock, ephemeris and status block.
pub const CED_AND_STATUS_BYTES: usize = 69;

/// Size in bytes of an authenticated timing parameters block.
pub const TIMING_PARAMETERS_BYTES: usize = 18;

/// Bit `i` of a buffer, counting from the most significant bit of the
/// first byte.
pub open spec fn bit_at(d: Seq<u8>, i: int) -> u8 {
    bit_in_byte(d[i / 8], i % 8)
}

/// Bit `m` of a byte, counting from its most significant bit.
pub open spec fn bit_in_byte(b: u8, m: int) -> u8 {
    (b >> ((7 - m) as u8)) & 1u8
}

/// Bit `i` of a sequence of flags as a number; bits past its end are zero.
pub open spec fn flag_bit(bits: Seq<bool>, i: int) -> u8 {
    if 0 <= i < bits.len() && bits[i] {
        1
    } else {
        0
    }
}

proof fn lemma_set_bit(b: u8, k: u8, m: u8)
    requires
        k < 8,
        m < 8,
    ensures
        ((b | (0x80u8 >> k)) >> (7 - m) as u8) & 1u8 == (if m == k {
            1u8
        } else {
            (b >> (7 - m) as u8) & 1u8
        }),
{
    assert(((b | (0x80u8 >> k)) >> (7 - m) as u8) & 1u8 == (if m == k {
        1u8
    } else {
        (b >> (7 - m) as u8) & 1u8
    })) by (bit_vector)
        requires
            k < 8,
            m < 8,
    ;
}

/// Packs flags into `n` bytes, most significant bit first; bits past the
/// last flag are zero.
pub fn bits_to_bytes(bits: &[bool], n: usize) -> (r: Vec<u8>)
    requires
        bits@.len() <= 8 * n,
        8 * n <= usize::MAX,
    ensures
        r@.len() == n,
        forall|j: int, m: int|
            0 <= j < n && 0 <= m < 8 ==> #[trigger] bit_in_byte(r@[j], m) == flag_bit(bits@, 8 * j + m),
{
    let mut r: Vec<u8> = Vec::new();
    let len = bits.len();
    let mut j: usize = 0;
    while j < n
        invariant
            j <= n,
            len == bits@.len(),
            len <= 8 * n,
            8 * n <= usize::MAX,
            r@.len() == j,
            forall|jj: int, m: int|
                0 <= jj < j && 0 <= m < 8 ==> #[trigger] bit_in_byte(r@[jj], m) == flag_bit(bits@, 8 * jj + m),
        decreases n - j,
    {
        let mut b: u8 = 0;
        let mut k: usize = 0;
        proof {
            assert forall|m: int| 0 <= m < 8 implies bit_in_byte(0u8, m) == 0u8 by {
                let mm = (7 - m) as u8;
                assert((0u8 >> mm) & 1u8 == 0u8) by (bit_vector);
            }
        }
        while k < 8
            invariant
                k <= 8,
                j < n,
                len == bits@.len(),
                len <= 8 * n,
                8 * n <= usize::MAX,
                forall|m: int| 0 <= m < k ==> #[trigger] bit_in_byte(b, m) == flag_bit(bits@, 8 * j + m),
                forall|m: int| k <= m < 8 ==> #[trigger] bit_in_byte(b, m) == 0u8,
            decreases 8 - k,
        {
            let idx = 8 * j + k;
            let old_b = b;
            if idx < len && bits[idx] {
                b = b | (0x80u8 >> (k as u8));
            }
            proof {
                assert forall|m: int| 0 <= m < 8 implies #[trigger] bit_in_byte(b, m) == (if m == k {
                    flag_bit(bits@, idx as int)
                } else {
                    bit_in_byte(old_b, m)
                }) by {
                    if idx < len && bits@[idx as int] {
                        lemma_set_bit(old_b, k as u8, m as u8);
                    }
                }
            }
            k = k + 1;
        }
        r.push(b);
        j = j + 1;
    }
    r
}

/// The number that bits `start` up to (not including) `end` of a buffer
/// spell, most significant bit first.
pub open spec fn bits_value(d: Seq<u8>, start: int, end: int) -> nat
    decreases end - start,
{
    if end <= start {
        0
    } else {
        2 * bits_value(d, start, end - 1) + bit_at(d, end - 1) as nat
    }
}

proof fn lemma_bit_at_le_one(d: Seq<u8>, i: int)
    requires
        0 <= i / 8 < d.len(),
    ensures
        bit_at(d, i) <= 1,
{
    let b = d[i / 8];
    let k = (7 - i % 8) as u8;
    assert((b >> k) & 1u8 <= 1u8) by (bit_vector);
}

proof fn lemma_bits_value_bound(d: Seq<u8>, start: int, end: int)
    requires
        0 <= start <= end,
        end <= 8 * d.len(),
    ensures
        bits_value(d, start, end) < pow2((end - start) as nat),
    decreases end - start,
{
    if end == start {
        lemma2_to64();
    } else {
        lemma_bits_value_bound(d, start, end - 1);
        lemma_bit_at_le_one(d, end - 1);
        lemma_pow2_unfold((end - start) as nat);
    }
}

/// Reads bits `start` to `end`, both included, of a buffer as a number,
/// most significant bit first. A range with `start > end` reads as zero.
pub fn extract_bits_range(data_bytes: &[u8], start: usize, end: usize) -> (r: u32)
    requires
        start <= end ==> end - start < 32 && end < 8 * data_bytes@.len(),
    ensures
        r as nat == bits_value(data_bytes@, start as int, end + 1),
{
    if start > end {
        return 0;
    }
    let n: usize = end - start + 1;
    let mut value: u32 = 0;
    let mut k: usize = 0;
    while k < n
        invariant
            k <= n,
            n == end - start + 1,
            n <= 32,
            end < 8 * data_bytes@.len(),
            value as nat == bits_value(data_bytes@, start as int, start + k),
        decreases n - k,
    {
        let i = start + k;
        let byte_index = i / 8;
        let bit_index = i % 8;
        let byte = data_bytes[byte_index];
        let shift = (7 - bit_index) as u8;
        let bit = (byte >> shift) & 1u8;
        proof {
            lemma_bits_value_bound(data_bytes@, start as int, i as int);
            lemma2_to64();
            if k < 31 {
                lemma_pow2_strictly_increases(k as nat, 31);
            }
            assert(value < 0x8000_0000u32);
            assert((byte >> shift) & 1u8 <= 1u8) by (bit_vector);
            let b = bit as u32;
            assert(value < 0x8000_0000u32 && b <= 1 ==> (value << 1u32) | b == 2 * value + b)
                by (bit_vector);
        }
        value = (value << 1u32) | bit as u32;
        k = k + 1;
    }
    value
}

/// A named field of an authenticated block: its bits from `bit_start` to
/// `bit_end`, both included.
#[derive(Debug, Clone, Copy)]
pub struct FieldDescriptor {
    pub name: &'static str,
    pub bit_start: usize,
    pub bit_end: usize,
}

/// A field can be read from a buffer of `n` bytes: its range is in order,
/// at most 32 bits wide, and inside the buffer.
pub open spec fn field_fits(f: FieldDescriptor, n: nat) -> bool {
    &&& f.bit_start <= f.bit_end
    &&& f.bit_end - f.bit_start < 32
    &&& f.bit_end < 8 * n
}

/// What a table of fields reads from a buffer: each field's name with the
/// number its bits spell.
pub open spec fn fields_read(d: Seq<u8>, table: Seq<FieldDescriptor>, r: Seq<(&'static str, u32)>) -> bool {
    &&& r.len() == table.len()
    &&& forall|i: int|
        0 <= i < table.len() ==> #[trigger] r[i].0 == table[i].name && r[i].1 as nat == bits_value(
            d,
            table[i].bit_start as int,
            table[i].bit_end + 1,
        )
}

/// The fields of an authenticated clock, ephemeris and status block.
pub open spec fn ced_and_status_layout() -> Seq<FieldDescriptor> {
    seq![
        FieldDescriptor { name: "T0E", bit_start: 11, bit_end: 24 },
        FieldDescriptor { name: "M0", bit_start: 25, bit_end: 56 },
        FieldDescriptor { name: "E", bit_start: 57, bit_end: 88 },
        FieldDescriptor { name: "AQRTA", bit_start: 89, bit_end: 120 },
        FieldDescriptor { name: "OMEGA0", bit_start: 131, bit_end: 162 },
        FieldDescriptor { name: "I0", bit_start: 163, bit_end: 194 },
        FieldDescriptor { name: "OMEGA", bit_start: 195, bit_end: 226 },
        FieldDescriptor { name: "IDOT", bit_start: 227, bit_end: 240 },
        FieldDescriptor { name: "OMEGADOT", bit_start: 251, bit_end: 274 },
        FieldDescriptor { name: "DELTAN", bit_start: 275, bit_end: 290 },
        FieldDescriptor { name: "CUC", bit_start: 291, bit_end: 306 },
        FieldDescriptor { name: "CUS", bit_start: 307, bit_end: 322 },
        FieldDescriptor { name: "CRC", bit_start: 323, bit_end: 338 },
        FieldDescriptor { name: "CRS", bit_start: 339, bit_end: 354 },
        FieldDescriptor { name: "CIC", bit_start: 379, bit_end: 394 },
        FieldDescriptor { name: "CIS", bit_start: 395, bit_end: 410 },
        FieldDescriptor { name: "T0C", bit_start: 411, bit_end: 424 },
        FieldDescriptor { name: "AF0", bit_start: 425, bit_end: 455 },
        FieldDescriptor { name: "AF1", bit_start: 456, bit_end: 476 },
        FieldDescriptor { name: "AF2", bit_start: 477, bit_end: 482 },
        FieldDescriptor { name: "AI0", bit_start: 483, bit_end: 493 },
        FieldDescriptor { name: "AI1", bit_start: 494, bit_end: 504 },
        FieldDescriptor { name: "AI2", bit_start: 505, bit_end: 518 },
        FieldDescriptor { name: "REGION1", bit_start: 519, bit_end: 519 },
        FieldDescriptor { name: "REGION2", bit_start: 520, bit_end: 520 },
        FieldDescriptor { name: "REGION3", bit_start: 521, bit_end: 521 },
        FieldDescriptor { name: "REGION4", bit_start: 522, bit_end: 522 },
        FieldDescriptor { name: "REGION5", bit_start: 523, bit_end: 523 },
        FieldDescriptor { name: "BGDA", bit_start: 524, bit_end: 533 },
        FieldDescriptor { name: "BGDB", bit_start: 534, bit_end: 543 },
        FieldDescriptor { name: "E5BHS", bit_start: 544, bit_end: 545 },
        FieldDescriptor { name: "E1BHS", bit_start: 546, bit_end: 547 },
        FieldDescriptor { name: "E5BDVS", bit_start: 548, bit_end: 548 },
        FieldDescriptor { name: "E1BDVS", bit_start: 549, bit_end: 549 },
    ]
}

/// Returns the fields of an authenticated clock, ephemeris and status block.
pub fn ced_and_status_fields() -> (r: Vec<FieldDescriptor>)
    ensures
        r@ == ced_and_status_layout(),
{
    let r = vec![
        FieldDescriptor { name: "T0E", bit_start: 11, bit_end: 24 },
        FieldDescriptor { name: "M0", bit_start: 25, bit_end: 56 },
        FieldDescriptor { name: "E", bit_start: 57, bit_end: 88 },
        FieldDescriptor { name: "AQRTA", bit_start: 89, bit_end: 120 },
        FieldDescriptor { name: "OMEGA0", bit_start: 131, bit_end: 162 },
        FieldDescriptor { name: "I0", bit_start: 163, bit_end: 194 },
        FieldDescriptor { name: "OMEGA", bit_start: 195, bit_end: 226 },
        FieldDescriptor { name: "IDOT", bit_start: 227, bit_end: 240 },
        FieldDescriptor { name: "OMEGADOT", bit_start: 251, bit_end: 274 },
        FieldDescriptor { name: "DELTAN", bit_start: 275, bit_end: 290 },
        FieldDescriptor { name: "CUC", bit_start: 291, bit_end: 306 },
        FieldDescriptor { name: "CUS", bit_start: 307, bit_end: 322 },
        FieldDescriptor { name: "CRC", bit_start: 323, bit_end: 338 },
        FieldDescriptor { name: "CRS", bit_start: 339, bit_end: 354 },
        FieldDescriptor { name: "CIC", bit_start: 379, bit_end: 394 },
        FieldDescriptor { name: "CIS", bit_start: 395, bit_end: 410 },
        FieldDescriptor { name: "T0C", bit_start: 411, bit_end: 424 },
        FieldDescriptor { name: "AF0", bit_start: 425, bit_end: 455 },
        FieldDescriptor { name: "AF1", bit_start: 456, bit_end: 476 },
        FieldDescriptor { name: "AF2", bit_start: 477, bit_end: 482 },
        FieldDescriptor { name: "AI0", bit_start: 483, bit_end: 493 },
        FieldDescriptor { name: "AI1", bit_start: 494, bit_end: 504 },
        FieldDescriptor { name: "AI2", bit_start: 505, bit_end: 518 },
        FieldDescriptor { name: "REGION1", bit_start: 519, bit_end: 519 },
        FieldDescriptor { name: "REGION2", bit_start: 520, bit_end: 520 },
        FieldDescriptor { name: "REGION3", bit_start: 521, bit_end: 521 },
        FieldDescriptor { name: "REGION4", bit_start: 522, bit_end: 522 },
        FieldDescriptor { name: "REGION5", bit_start: 523, bit_end: 523 },
        FieldDescriptor { name: "BGDA", bit_start: 524, bit_end: 533 },
        FieldDescriptor { name: "BGDB", bit_start: 534, bit_end: 543 },
        FieldDescriptor { name: "E5BHS", bit_start: 544, bit_end: 545 },
        FieldDescriptor { name: "E1BHS", bit_start: 546, bit_end: 547 },
        FieldDescriptor { name: "E5BDVS", bit_start: 548, bit_end: 548 },
        FieldDescriptor { name: "E1BDVS", bit_start: 549, bit_end: 549 },
    ];
    assert(r@ =~= ced_and_status_layout());
    r
}

/// Reads each field of a table from a buffer, in the table's order.
pub fn extract_fields(data_bytes: &[u8], table: &Vec<FieldDescriptor>) -> (r: Vec<(&'static str, u32)>)
    requires
        forall|i: int| 0 <= i < table@.len() ==> field_fits(#[trigger] table@[i], data_bytes@.len()),
    ensures
        fields_read(data_bytes@, table@, r@),
{
    let mut r: Vec<(&'static str, u32)> = Vec::new();
    let mut i: usize = 0;
    while i < table.len()
        invariant
            i <= table@.len(),
            forall|j: int| 0 <= j < table@.len() ==> field_fits(#[trigger] table@[j], data_bytes@.len()),
            r@.len() == i,
            forall|j: int|
                0 <= j < i ==> #[trigger] r@[j].0 == table@[j].name && r@[j].1 as nat == bits_value(
                    data_bytes@,
                    table@[j].bit_start as int,
                    table@[j].bit_end + 1,
                ),
        decreases table@.len() - i,
    {
        let f = table[i];
        assert(field_fits(table@[i as int], data_bytes@.len()));
        let v = extract_bits_range(data_bytes, f.bit_start, f.bit_end);
        r.push((f.name, v));
        i = i + 1;
    }
    r
}

/// Reads every field of an authenticated clock, ephemeris and status block.
pub fn extract_all_bits(data_bytes: &[u8]) -> (r: Vec<(&'static str, u32)>)
    requires
        data_bytes@.len() >= CED_AND_STATUS_BYTES,
    ensures
        fields_read(data_bytes@, ced_and_status_layout(), r@),
{
    let table = ced_and_status_fields();
    assert forall|i: int| 0 <= i < table@.len() implies field_fits(#[trigger] table@[i], data_bytes@.len()) by {
        assert(field_fits(table@[i], CED_AND_STATUS_BYTES as nat));
    }
    extract_fields(data_bytes, &table)
}

/// The character of a decimal digit.
pub open spec fn digit_char(d: nat) -> char {
    seq!['0', '1', '2', '3', '4', '5', '6', '7', '8', '9'][d as int]
}

/// The decimal digits of a number, without leading zeros.
pub open spec fn decimal_spec(v: nat) -> Seq<char>
    decreases v,
{
    if v < 10 {
        seq![digit_char(v)]
    } else {
        decimal_spec(v / 10).push(digit_char(v % 10))
    }
}

/// Returns the text of a decimal digit.
fn digit_text(d: u32) -> (r: &'static str)
    requires
        d < 10,
    ensures
        r@ == seq![digit_char(d as nat)],
{
    if d == 0 {
        proof {
            reveal_strlit("0");
        }
        "0"
    } else if d == 1 {
        proof {
            reveal_strlit("1");
        }
        "1"
    } else if d == 2 {
        proof {
            reveal_strlit("2");
        }
        "2"
    } else if d == 3 {
        proof {
            reveal_strlit("3");
        }
        "3"
    } else if d == 4 {
        proof {
            reveal_strlit("4");
        }
        "4"
    } else if d == 5 {
        proof {
            reveal_strlit("5");
        }
        "5"
    } else if d == 6 {
        proof {
            reveal_strlit("6");
        }
        "6"
    } else if d == 7 {
        proof {
            reveal_strlit("7");
        }
        "7"
    } else if d == 8 {
        proof {
            reveal_strlit("8");
        }
        "8"
    } else {
        proof {
            reveal_strlit("9");
        }
        "9"
    }
}

/// Writes a number in decimal, without sign or leading zeros.
pub fn decimal(v: u32) -> (r: String)
    ensures
        r@ == decimal_spec(v as nat),
    decreases v,
{
    if v < 10 {
        String::from_str(digit_text(v))
    } else {
        let mut s = decimal(v / 10);
        s.append(digit_text(v % 10));
        s
    }
}

/// One field as text: its name, a colon and a space, and its value.
pub open spec fn field_text(e: (&'static str, u32)) -> Seq<char> {
    e.0@ + ": "@ + decimal_spec(e.1 as nat)
}

/// Fields as text, in order, separated by a comma and a space.
pub open spec fn fields_text(f: Seq<(&'static str, u32)>) -> Seq<char>
    decreases f.len(),
{
    if f.len() == 0 {
        Seq::empty()
    } else if f.len() == 1 {
        field_text(f[0])
    } else {
        fields_text(f.drop_last()) + ", "@ + field_text(f.last())
    }
}

/// Writes named values as `name: value` entries joined by `, `.
pub fn hashmap_to_string(map: &Vec<(&'static str, u32)>) -> (r: String)
    ensures
        r@ == fields_text(map@),
{
    let mut s = String::new();
    let mut i: usize = 0;
    while i < map.len()
        invariant
            i <= map@.len(),
            s@ == fields_text(map@.subrange(0, i as int)),
        decreases map@.len() - i,
    {
        let (name, value) = map[i];
        let ghost before = s@;
        if i > 0 {
            s.append(", ");
        }
        s.append(name);
        s.append(": ");
        let d = decimal(value);
        s.append(d.as_str());
        proof {
            let next = map@.subrange(0, i + 1);
            assert(next.drop_last() =~= map@.subrange(0, i as int));
            if i == 0 {
                assert(before =~= Seq::<char>::empty());
                assert(s@ =~= field_text(next[0]));
            } else {
                assert(s@ =~= before + ", "@ + field_text(next.last()));
            }
        }
        i = i + 1;
    }
    assert(map@.subrange(0, map@.len() as int) =~= map@);
    s
}

} // verus!
