//! Cache file names.
//!
//! Cached tracks are mirrored to files named by their numeric identifier;
//! reconciliation at startup reads the identifier back out of each file
//! name. A name whose stem is not a decimal number falls back to identifier
//! zero, so unparsable files collide on one slot rather than being dropped.

use vstd::prelude::*;
use vstd::string::StringSliceAdditionalSpecFns;

verus! {

/// A byte of the decimal digits.
pub open spec fn is_digit(b: u8) -> bool {
    48 <= b <= 57
}

/// The number the digit bytes of `s` spell out.
pub open spec fn digits_val(s: Seq<u8>) -> int
    decreases s.len(),
{
    if s.len() == 0 {
        0
    } else {
        digits_val(s.drop_last()) * 10 + (s.last() - 48)
    }
}

/// Length of the file stem: everything before the first dot byte, or the
/// whole name when there is none.
pub open spec fn stem_end(s: Seq<u8>) -> int
    decreases s.len(),
{
    if s.len() == 0 {
        0
    } else if s[0] == 46 {
        0
    } else {
        1 + stem_end(s.drop_first())
    }
}

/// The stem with one leading plus sign stripped — a decimal integer parse
/// accepts an optional `+`, so "+5" denotes 5.
pub open spec fn digit_part(stem: Seq<u8>) -> Seq<u8> {
    if stem.len() > 0 && stem[0] == 43 {
        stem.drop_first()
    } else {
        stem
    }
}

/// The identifier a cache file name denotes: its stem — less an optional
/// leading plus sign — read as a decimal number, or zero, the fallback
/// identifier, when nothing remains, a non-digit appears, or the number
/// overflows the identifier range.
pub open spec fn parse_id_spec(s: Seq<u8>) -> u64 {
    let digits = digit_part(s.subrange(0, stem_end(s)));
    if digits.len() > 0 && (forall|t: int|
        0 <= t < digits.len() ==> is_digit(#[trigger] digits[t])) && digits_val(digits)
        <= u64::MAX {
        digits_val(digits) as u64
    } else {
        0u64
    }
}

proof fn lemma_stem_end_at(s: Seq<u8>, k: int)
    requires
        0 <= k <= s.len(),
        forall|t: int| 0 <= t < k ==> s[t] != 46,
        k == s.len() || s[k] == 46,
    ensures
        stem_end(s) == k,
    decreases s.len(),
{
    if s.len() == 0 {
    } else if s[0] == 46 {
        assert(k == 0);
    } else {
        assert(k >= 1);
        assert(forall|t: int| 0 <= t < k - 1 ==> s.drop_first()[t] == s[t + 1]);
        lemma_stem_end_at(s.drop_first(), k - 1);
    }
}

proof fn lemma_digits_val_nonneg(s: Seq<u8>)
    requires
        forall|t: int| 0 <= t < s.len() ==> is_digit(#[trigger] s[t]),
    ensures
        digits_val(s) >= 0,
    decreases s.len(),
{
    if s.len() > 0 {
        assert(forall|t: int| 0 <= t < s.len() - 1 ==> s.drop_last()[t] == s[t]);
        lemma_digits_val_nonneg(s.drop_last());
    }
}

/// Reading more digits never shrinks the value: once a prefix already
/// exceeds the identifier range, the whole digit string does too.
proof fn lemma_digits_val_prefix_le(s: Seq<u8>, i: int)
    requires
        0 <= i <= s.len(),
        forall|t: int| 0 <= t < s.len() ==> is_digit(#[trigger] s[t]),
    ensures
        digits_val(s) >= digits_val(s.subrange(0, i)),
    decreases s.len() - i,
{
    if i == s.len() {
        assert(s.subrange(0, i) =~= s);
    } else {
        lemma_digits_val_prefix_le(s, i + 1);
        assert(s.subrange(0, i + 1).drop_last() =~= s.subrange(0, i));
        assert(s.subrange(0, i + 1).last() == s[i]);
        assert(forall|t: int| 0 <= t < i ==> s.subrange(0, i)[t] == s[t]);
        lemma_digits_val_nonneg(s.subrange(0, i));
        assert(digits_val(s.subrange(0, i + 1)) == digits_val(s.subrange(0, i)) * 10 + (s[i]
            - 48));
    }
}

/// Identifier of a cache file name: the decimal number its stem spells
/// (one leading plus sign allowed), or zero when nothing remains to read, a
/// non-digit appears, or the number overflows the identifier range. Files
/// whose names do not parse collide on the fallback identifier zero, as the
/// startup reconciliation expects.
pub fn parse_cache_id(name: &str) -> (id: u64)
    ensures
        id == parse_id_spec(name.spec_bytes()),
{
    let bytes = name.as_bytes();
    let n = bytes.len();
    let ghost s = bytes@;
    // Find the stem: everything before the first dot.
    let mut e: usize = 0;
    loop
        invariant
            0 <= e <= n,
            n == s.len(),
            bytes@ == s,
            forall|t: int| 0 <= t < e ==> s[t] != 46,
        ensures
            0 <= e <= n,
            stem_end(s) == e,
        decreases n - e,
    {
        if e == n {
            proof {
                lemma_stem_end_at(s, e as int);
            }
            break;
        }
        if bytes[e] == 46 {
            proof {
                lemma_stem_end_at(s, e as int);
            }
            break;
        }
        e = e + 1;
    }
    // Skip one leading plus sign, as a decimal integer parse does.
    let st: usize = if e > 0 && bytes[0] == 43 {
        1
    } else {
        0
    };
    let ghost digits = s.subrange(st as int, e as int);
    proof {
        assert(digits =~= digit_part(s.subrange(0, e as int)));
    }
    // Read the digits as a decimal number, tracking digit-ness and overflow.
    let mut val: u64 = 0;
    let mut ok: bool = true;
    let mut i: usize = st;
    while i < e
        invariant
            0 <= st <= i <= e <= n,
            n == s.len(),
            bytes@ == s,
            digits == s.subrange(st as int, e as int),
            ok ==> (forall|t: int| st <= t < i ==> is_digit(#[trigger] s[t])) && val
                == digits_val(s.subrange(st as int, i as int)),
            !ok ==> (exists|t: int| st <= t < i && !is_digit(#[trigger] s[t])) || ((forall|t: int|
                st <= t < i ==> is_digit(#[trigger] s[t])) && digits_val(
                s.subrange(st as int, i as int),
            ) > u64::MAX),
        decreases e - i,
    {
        let b = bytes[i];
        proof {
            assert(s.subrange(st as int, i + 1).drop_last() =~= s.subrange(st as int, i as int));
            assert(s.subrange(st as int, i + 1).last() == s[i as int]);
        }
        if b < 48 || b > 57 {
            ok = false;
        } else if ok {
            let d = (b - 48) as u64;
            if val > (u64::MAX - d) / 10 {
                proof {
                    lemma_digits_val_nonneg(s.subrange(st as int, i as int));
                }
                ok = false;
            } else {
                val = val * 10 + d;
            }
        } else {
            proof {
                if forall|t: int| st <= t < i ==> is_digit(#[trigger] s[t]) {
                    assert(forall|t: int|
                        0 <= t < i + 1 - st ==> #[trigger] s.subrange(st as int, i + 1)[t] == s[t
                            + st]);
                    lemma_digits_val_nonneg(s.subrange(st as int, i as int));
                    lemma_digits_val_prefix_le(s.subrange(st as int, i + 1), i - st);
                    assert(s.subrange(st as int, i + 1).subrange(0, i - st) =~= s.subrange(
                        st as int,
                        i as int,
                    ));
                }
            }
        }
        i = i + 1;
    }
    if ok && e > st {
        proof {
            assert(forall|t: int| 0 <= t < digits.len() ==> #[trigger] digits[t] == s[t + st]);
            assert(forall|t: int| 0 <= t < digits.len() ==> is_digit(#[trigger] digits[t]));
        }
        val
    } else {
        proof {
            assert(forall|t: int| 0 <= t < digits.len() ==> #[trigger] digits[t] == s[t + st]);
            if !ok {
                if exists|t: int| st <= t < e && !is_digit(#[trigger] s[t]) {
                    let t0 = choose|t: int| st <= t < e && !is_digit(#[trigger] s[t]);
                    assert(digits[t0 - st] == s[t0]);
                    assert(!is_digit(digits[t0 - st]));
                } else {
                    assert(digits_val(digits) > u64::MAX);
                }
            } else {
                assert(digits.len() == 0);
            }
        }
        0
    }
}

} // verus!
