//! The canonical 36-byte hyphenated rendering of a 128-bit identifier.

use vstd::prelude::*;

verus! {

/// The ASCII byte for one hex nibble, lower case.
pub open spec fn hex_digit(n: u8) -> u8 {
    if n < 10 {
        (48 + n) as u8
    } else {
        (87 + n) as u8
    }
}

/// Nibble `k` of the identifier, most significant first.
pub open spec fn spec_nibble(id: u128, k: int) -> u8 {
    ((id >> (((31 - k) * 4) as u128)) & 0xf) as u8
}

/// The nibble rendered at byte `p` of the canonical form; meaningful off the
/// four hyphen positions.
pub open spec fn pos_nibble(p: int) -> int {
    if p < 8 {
        p
    } else if p < 13 {
        p - 1
    } else if p < 18 {
        p - 2
    } else if p < 23 {
        p - 3
    } else {
        p - 4
    }
}

/// The canonical 36-byte form: 32 lower-case hex digits, most significant
/// first, with a hyphen after the 8th, 12th, 16th and 20th.
pub open spec fn spec_uuid_bytes(id: u128) -> Seq<u8> {
    Seq::new(
        36,
        |p: int|
            if p == 8 || p == 13 || p == 18 || p == 23 {
                45u8
            } else {
                hex_digit(spec_nibble(id, pos_nibble(p)))
            },
    )
}

/// A lower-case hex digit byte.
pub open spec fn is_hex_byte(b: u8) -> bool {
    (48 <= b <= 57) || (97 <= b <= 102)
}

/// The nibble a lower-case hex digit byte denotes.
pub open spec fn hex_val(b: u8) -> u8 {
    if b < 58 {
        (b - 48) as u8
    } else {
        (b - 87) as u8
    }
}

/// A canonical rendering: 36 bytes, hyphens exactly at their four places,
/// every other byte a lower-case hex digit.
pub open spec fn is_canonical_uuid(s: Seq<u8>) -> bool {
    &&& s.len() == 36
    &&& forall|p: int|
        #![trigger s[p]]
        0 <= p < 36 ==> (if p == 8 || p == 13 || p == 18 || p == 23 {
            s[p] == 45
        } else {
            is_hex_byte(s[p])
        })
}

/// The identifier denoted by the first `k` nibbles of a rendering, most
/// significant first.
pub open spec fn uuid_prefix_value(s: Seq<u8>, k: int) -> u128
    decreases k,
{
    if k <= 0 {
        0
    } else {
        (uuid_prefix_value(s, k - 1) << 4) | (hex_val(s[nibble_pos(k - 1)]) as u128)
    }
}

/// Position of nibble `k` in the canonical form.
pub open spec fn nibble_pos(k: int) -> int {
    if k < 8 {
        k
    } else if k < 12 {
        k + 1
    } else if k < 16 {
        k + 2
    } else if k < 20 {
        k + 3
    } else {
        k + 4
    }
}

/// The identifier a canonical rendering denotes.
pub open spec fn spec_uuid_value(s: Seq<u8>) -> u128 {
    uuid_prefix_value(s, 32)
}

/// Render an identifier in the canonical 36-byte hyphenated form.
pub fn format_uuid(id: u128) -> (r: Vec<u8>)
    ensures
        r@ == spec_uuid_bytes(id),
{
    let mut r: Vec<u8> = Vec::new();
    let mut p: usize = 0;
    while p < 36
        invariant
            p <= 36,
            r@.len() == p,
            forall|q: int| 0 <= q < p ==> r@[q] == spec_uuid_bytes(id)[q],
        decreases 36 - p,
    {
        if p == 8 || p == 13 || p == 18 || p == 23 {
            r.push(45);
        } else {
            let k: usize = if p < 8 {
                p
            } else if p < 13 {
                p - 1
            } else if p < 18 {
                p - 2
            } else if p < 23 {
                p - 3
            } else {
                p - 4
            };
            let shift: u128 = ((31 - k) * 4) as u128;
            let nib128: u128 = (id >> shift) & 0xf;
            proof {
                assert((id >> shift) & 0xf < 16) by (bit_vector);
            }
            let nib: u8 = nib128 as u8;
            let b: u8 = if nib < 10 {
                48 + nib
            } else {
                87 + nib
            };
            proof {
                assert(b == hex_digit(spec_nibble(id, k as int)));
                assert(pos_nibble(p as int) == k as int);
            }
            r.push(b);
        }
        p += 1;
    }
    proof {
        assert(r@ =~= spec_uuid_bytes(id));
    }
    r
}

/// Parse the canonical 36-byte hyphenated form, and nothing else.
pub fn parse_uuid(s: &[u8]) -> (r: Option<u128>)
    ensures
        r is Some <==> is_canonical_uuid(s@),
        r matches Some(id) ==> id == spec_uuid_value(s@),
{
    if s.len() != 36 {
        return None;
    }
    let mut p: usize = 0;
    while p < 36
        invariant
            s@.len() == 36,
            p <= 36,
            forall|q: int|
                #![trigger s@[q]]
                0 <= q < p ==> (if q == 8 || q == 13 || q == 18 || q == 23 {
                    s@[q] == 45
                } else {
                    is_hex_byte(s@[q])
                }),
        decreases 36 - p,
    {
        let b = s[p];
        if p == 8 || p == 13 || p == 18 || p == 23 {
            if b != 45 {
                return None;
            }
        } else {
            if !((48 <= b && b <= 57) || (97 <= b && b <= 102)) {
                return None;
            }
        }
        p += 1;
    }
    let mut acc: u128 = 0;
    let mut k: usize = 0;
    while k < 32
        invariant
            s@.len() == 36,
            is_canonical_uuid(s@),
            k <= 32,
            acc == uuid_prefix_value(s@, k as int),
        decreases 32 - k,
    {
        let pos: usize = if k < 8 {
            k
        } else if k < 12 {
            k + 1
        } else if k < 16 {
            k + 2
        } else if k < 20 {
            k + 3
        } else {
            k + 4
        };
        let b = s[pos];
        proof {
            assert(nibble_pos(k as int) == pos as int);
            assert(is_hex_byte(s@[pos as int]));
        }
        let nib: u8 = if b < 58 {
            b - 48
        } else {
            b - 87
        };
        acc = (acc << 4) | (nib as u128);
        k += 1;
    }
    Some(acc)
}

/// The value a rendering's first nibbles denote, read back off a rendered
/// identifier: the identifier's own high bits.
proof fn lemma_uuid_prefix(id: u128, k: int)
    requires
        1 <= k <= 32,
    ensures
        uuid_prefix_value(spec_uuid_bytes(id), k) == id >> (((32 - k) * 4) as u128),
    decreases k,
{
    let t = spec_uuid_bytes(id);
    let sh = ((32 - k) * 4) as u128;
    let nib = spec_nibble(id, k - 1);
    assert(pos_nibble(nibble_pos(k - 1)) == k - 1);
    assert(t[nibble_pos(k - 1)] == hex_digit(nib));
    let x = (id >> sh) & 0xf;
    assert((id >> sh) & 0xf < 16) by (bit_vector);
    assert(x < 16);
    assert(nib == x as u8);
    assert(nib == x);
    assert(hex_val(hex_digit(nib)) == nib);
    if k == 1 {
        assert(uuid_prefix_value(t, 0) == 0);
        assert(uuid_prefix_value(t, 1) == (0u128 << 4) | ((id >> sh) & 0xf));
        assert((0u128 << 4) | ((id >> sh) & 0xf) == id >> sh) by (bit_vector)
            requires
                sh == 124u128,
        ;
    } else {
        lemma_uuid_prefix(id, k - 1);
        let sh4 = ((33 - k) * 4) as u128;
        assert(uuid_prefix_value(t, k) == ((id >> sh4) << 4) | ((id >> sh) & 0xf));
        assert(((id >> sh4) << 4) | ((id >> sh) & 0xf) == id >> sh) by (bit_vector)
            requires
                sh <= 120u128 && sh4 == sh + 4,
        ;
    }
}

/// Rendering and parsing are inverse: the canonical form of an identifier
/// parses, and parses back to the identifier itself.
pub proof fn lemma_uuid_round_trip(id: u128)
    ensures
        is_canonical_uuid(spec_uuid_bytes(id)),
        spec_uuid_value(spec_uuid_bytes(id)) == id,
{
    let t = spec_uuid_bytes(id);
    assert forall|p: int| 0 <= p < 36 implies (if p == 8 || p == 13 || p == 18 || p == 23 {
        t[p] == 45
    } else {
        is_hex_byte(#[trigger] t[p])
    }) by {
        if !(p == 8 || p == 13 || p == 18 || p == 23) {
            let sh = ((31 - pos_nibble(p)) * 4) as u128;
            assert((id >> sh) & 0xf < 16) by (bit_vector);
        }
    }
    lemma_uuid_prefix(id, 32);
    assert(id >> 0u128 == id) by (bit_vector);
}

} // verus!
