//! Splitting a byte buffer into its longest well-formed UTF-8 prefix and a
//! carried tail.  The carry is at most three bytes: the start of a multi-byte
//! scalar whose remaining bytes have not arrived yet.  A byte sequence that
//! can never be completed to a well-formed scalar is a hard decode error, not
//! a carry.

use vstd::prelude::*;
use vstd::utf8::*;

use crate::ascii::copy_range;
use crate::errors::ReadStreamError;

verus! {

/// The second bytes that may follow a three-byte leading byte: continuation
/// bytes, narrowed for `0xe0` (overlong) and `0xed` (surrogate range).
pub open spec fn good_second_byte_w3(b0: u8, b1: u8) -> bool {
    &&& is_continuation_byte(b1)
    &&& (b0 == 0xe0 ==> b1 >= 0xa0)
    &&& (b0 == 0xed ==> b1 <= 0x9f)
}

/// The second bytes that may follow a four-byte leading byte: continuation
/// bytes, narrowed for `0xf0` (overlong) and `0xf4` (beyond the last scalar).
pub open spec fn good_second_byte_w4(b0: u8, b1: u8) -> bool {
    &&& is_continuation_byte(b1)
    &&& (b0 == 0xf0 ==> b1 >= 0x90)
    &&& (b0 == 0xf4 ==> b1 <= 0x8f)
}

/// True when the bytes are a nonempty strict prefix of some well-formed
/// scalar encoding: every byte that is present passes its check, but the
/// width announced by the leading byte has not fully arrived.
pub open spec fn incomplete_first_scalar(s: Seq<u8>) -> bool {
    s.len() >= 1 && {
        let b0 = s[0];
        ||| (0xc2 <= b0 <= 0xdf && s.len() < 2)
        ||| (0xe0 <= b0 <= 0xef && s.len() < 3 && (s.len() < 2 || good_second_byte_w3(b0, s[1])))
        ||| (0xf0 <= b0 <= 0xf4 && s.len() < 4 && (s.len() < 2 || good_second_byte_w4(b0, s[1]))
            && (s.len() < 3 || is_continuation_byte(s[2])))
    }
}

/* Bit-level bounds for each encoding width. */

proof fn lemma_cp1_bounds(b0: u8)
    by (bit_vector)
    requires
        b0 <= 0x7f,
    ensures
        codepoint_width_1(b0) == b0,
{
}

proof fn lemma_cp2_bounds(b0: u8, b1: u8)
    by (bit_vector)
    requires
        is_leading_byte_width_2(b0),
        is_continuation_byte(b1),
    ensures
        b0 >= 0xc2 ==> 0x80 <= codepoint_width_2(b0, b1) <= 0x7ff,
        b0 < 0xc2 ==> codepoint_width_2(b0, b1) < 0x80,
{
}

proof fn lemma_cp3_bounds(b0: u8, b1: u8, b2: u8)
    by (bit_vector)
    requires
        is_leading_byte_width_3(b0),
        is_continuation_byte(b1),
        is_continuation_byte(b2),
    ensures
        good_second_byte_w3(b0, b1) ==> 0x800 <= codepoint_width_3(b0, b1, b2) <= 0xffff
            && not_surrogate(codepoint_width_3(b0, b1, b2)),
        b0 == 0xe0 && b1 < 0xa0 ==> codepoint_width_3(b0, b1, b2) < 0x800,
        b0 == 0xed && b1 > 0x9f ==> !not_surrogate(codepoint_width_3(b0, b1, b2)),
{
}

proof fn lemma_cp4_bounds(b0: u8, b1: u8, b2: u8, b3: u8)
    by (bit_vector)
    requires
        is_leading_byte_width_4(b0),
        is_continuation_byte(b1),
        is_continuation_byte(b2),
        is_continuation_byte(b3),
    ensures
        b0 <= 0xf4 && good_second_byte_w4(b0, b1) ==> 0x10000 <= codepoint_width_4(b0, b1, b2, b3)
            <= 0x10ffff,
        b0 == 0xf0 && b1 < 0x90 ==> codepoint_width_4(b0, b1, b2, b3) < 0x10000,
        b0 == 0xf4 && b1 > 0x8f ==> codepoint_width_4(b0, b1, b2, b3) > 0x10ffff,
        b0 >= 0xf5 ==> codepoint_width_4(b0, b1, b2, b3) > 0x10ffff,
{
}

/* Classifying the head of a byte sequence. */

proof fn lemma_valid_head_w1(s: Seq<u8>)
    requires
        s.len() >= 1,
        s[0] <= 0x7f,
    ensures
        valid_first_scalar(s),
        length_of_first_scalar(s) == 1,
{
    lemma_cp1_bounds(s[0]);
}

proof fn lemma_valid_head_w2(s: Seq<u8>)
    requires
        s.len() >= 2,
        0xc2 <= s[0] <= 0xdf,
        is_continuation_byte(s[1]),
    ensures
        valid_first_scalar(s),
        length_of_first_scalar(s) == 2,
{
    lemma_cp2_bounds(s[0], s[1]);
}

proof fn lemma_valid_head_w3(s: Seq<u8>)
    requires
        s.len() >= 3,
        0xe0 <= s[0] <= 0xef,
        good_second_byte_w3(s[0], s[1]),
        is_continuation_byte(s[2]),
    ensures
        valid_first_scalar(s),
        length_of_first_scalar(s) == 3,
{
    lemma_cp3_bounds(s[0], s[1], s[2]);
}

proof fn lemma_valid_head_w4(s: Seq<u8>)
    requires
        s.len() >= 4,
        0xf0 <= s[0] <= 0xf4,
        good_second_byte_w4(s[0], s[1]),
        is_continuation_byte(s[2]),
        is_continuation_byte(s[3]),
    ensures
        valid_first_scalar(s),
        length_of_first_scalar(s) == 4,
{
    lemma_cp4_bounds(s[0], s[1], s[2], s[3]);
}

/// No extension of a sequence whose present bytes already fail their checks
/// can begin with a well-formed scalar.
proof fn lemma_invalid_head(s: Seq<u8>)
    requires
        s.len() >= 1,
        ({
            let b0 = s[0];
            ||| (0x80 <= b0 <= 0xc1)
            ||| (0xc2 <= b0 <= 0xdf && s.len() >= 2 && !is_continuation_byte(s[1]))
            ||| (0xe0 <= b0 <= 0xef && s.len() >= 2 && !good_second_byte_w3(b0, s[1]))
            ||| (0xe0 <= b0 <= 0xef && s.len() >= 3 && !is_continuation_byte(s[2]))
            ||| (0xf0 <= b0 <= 0xf7 && s.len() >= 2 && (b0 > 0xf4 || !good_second_byte_w4(
                b0,
                s[1],
            )))
            ||| (0xf0 <= b0 <= 0xf7 && s.len() >= 3 && !is_continuation_byte(s[2]))
            ||| (0xf0 <= b0 <= 0xf7 && s.len() >= 4 && !is_continuation_byte(s[3]))
            ||| b0 >= 0xf5
        }),
    ensures
        !valid_first_scalar(s),
{
    let b0 = s[0];
    if valid_first_scalar(s) {
        if is_leading_byte_width_1(b0) {
        } else if is_leading_byte_width_2(b0) {
            lemma_cp2_bounds(b0, s[1]);
        } else if is_leading_byte_width_3(b0) {
            lemma_cp3_bounds(b0, s[1], s[2]);
        } else {
            lemma_cp4_bounds(b0, s[1], s[2], s[3]);
        }
    }
}

/// An incomplete scalar prefix is not itself a well-formed scalar, so a
/// buffer that ends in one is not valid UTF-8 on its own.
pub proof fn lemma_incomplete_not_valid(s: Seq<u8>)
    requires
        incomplete_first_scalar(s),
    ensures
        !valid_first_scalar(s),
        !valid_utf8(s),
{
}

/// Law: an incomplete scalar prefix really is the start of some well-formed
/// scalar — bytes exist that complete it.  Together with
/// [`lemma_incomplete_not_valid`] this pins the carry down: it is exactly a
/// scalar cut off by the end of the buffer, neither decodable on its own nor
/// malformed.
pub proof fn lemma_incomplete_extendable(s: Seq<u8>)
    requires
        incomplete_first_scalar(s),
    ensures
        exists|ext: Seq<u8>| valid_first_scalar(#[trigger] (s + ext)),
{
    let b0 = s[0];
    if 0xc2 <= b0 <= 0xdf {
        let ext = seq![0x80u8];
        assert((s + ext)[0] == b0 && (s + ext)[1] == 0x80);
        lemma_valid_head_w2(s + ext);
    } else if 0xe0 <= b0 <= 0xef {
        if s.len() == 1 {
            let b1: u8 = if b0 == 0xe0 {
                0xa0
            } else {
                0x80
            };
            let ext = seq![b1, 0x80u8];
            assert((s + ext)[0] == b0 && (s + ext)[1] == b1 && (s + ext)[2] == 0x80);
            lemma_valid_head_w3(s + ext);
        } else {
            let ext = seq![0x80u8];
            assert((s + ext)[0] == b0 && (s + ext)[1] == s[1] && (s + ext)[2] == 0x80);
            lemma_valid_head_w3(s + ext);
        }
    } else {
        if s.len() == 1 {
            let b1: u8 = if b0 == 0xf0 {
                0x90
            } else {
                0x80
            };
            let ext = seq![b1, 0x80u8, 0x80u8];
            assert((s + ext)[0] == b0 && (s + ext)[1] == b1 && (s + ext)[2] == 0x80 && (s + ext)[3]
                == 0x80);
            lemma_valid_head_w4(s + ext);
        } else if s.len() == 2 {
            let ext = seq![0x80u8, 0x80u8];
            assert((s + ext)[0] == b0 && (s + ext)[1] == s[1] && (s + ext)[2] == 0x80 && (s + ext)[3]
                == 0x80);
            lemma_valid_head_w4(s + ext);
        } else {
            let ext = seq![0x80u8];
            assert((s + ext)[0] == b0 && (s + ext)[1] == s[1] && (s + ext)[2] == s[2] && (s + ext)[3]
                == 0x80);
            lemma_valid_head_w4(s + ext);
        }
    }
}

/// The boundary of the longest decodable prefix: `Some(p)` when the bytes up
/// to `p` are well-formed scalars and everything from `p` on is a (possibly
/// empty) incomplete scalar prefix; `None` when the bytes hold a scalar
/// encoding that no further bytes could ever repair.
pub open spec fn utf8_split_point(s: Seq<u8>) -> Option<int>
    decreases s.len(),
{
    if s.len() == 0 {
        Some(0)
    } else if valid_first_scalar(s) {
        match utf8_split_point(pop_first_scalar(s)) {
            Some(p) => Some(length_of_first_scalar(s) + p),
            None => None,
        }
    } else if incomplete_first_scalar(s) {
        Some(0)
    } else {
        None
    }
}

/// A wholly valid byte sequence splits at its own end.
pub proof fn lemma_split_point_of_valid(s: Seq<u8>)
    requires
        valid_utf8(s),
    ensures
        utf8_split_point(s) == Some(s.len() as int),
    decreases s.len(),
{
    if s.len() > 0 {
        lemma_split_point_of_valid(pop_first_scalar(s));
    }
}

/// What a split point means for the two halves.
pub proof fn lemma_split_point_props(s: Seq<u8>)
    ensures
        match utf8_split_point(s) {
            Some(p) => {
                &&& 0 <= p <= s.len()
                &&& valid_utf8(s.take(p))
                &&& (p < s.len() ==> incomplete_first_scalar(s.skip(p)) && s.len() - p <= 3)
            },
            None => !valid_utf8(s),
        },
    decreases s.len(),
{
    if s.len() == 0 {
        assert(s.take(0) =~= s);
    } else if valid_first_scalar(s) {
        let l = length_of_first_scalar(s);
        let rest = pop_first_scalar(s);
        lemma_split_point_props(rest);
        match utf8_split_point(rest) {
            Some(q) => {
                let p = l + q;
                assert(valid_utf8(s.take(p))) by {
                    assert(partial_valid_utf8(s, 0)) by {
                        assert(s.subrange(0, 0) =~= Seq::<u8>::empty());
                    }
                    assert(s.subrange(0, s.len() as int) =~= s);
                    partial_valid_utf8_extend(s, 0);
                    // the first scalar alone is valid UTF-8 up to l
                    assert(partial_valid_utf8(s, l));
                    assert(valid_utf8(s.subrange(0, l)));
                    valid_utf8_concat(s.subrange(0, l), rest.take(q));
                    assert(s.subrange(0, l) + rest.take(q) =~= s.take(p));
                }
                if p < s.len() {
                    assert(rest.skip(q) =~= s.skip(p));
                }
            },
            None => {},
        }
    } else if incomplete_first_scalar(s) {
        assert(s.take(0) =~= Seq::<u8>::empty());
        assert(s.skip(0) =~= s);
    }
}

/// Shifts a split point by the `i` bytes already scanned.
pub open spec fn shift_split(o: Option<int>, i: int) -> Option<int> {
    match o {
        Some(p) => Some(p + i),
        None => None,
    }
}

/// Finds the split point of the buffer: the byte offset of the longest
/// well-formed UTF-8 prefix, or `None` when the buffer is malformed beyond
/// repair by further bytes.
fn scan_utf8_prefix(input: &Vec<u8>) -> (r: Option<usize>)
    ensures
        match r {
            Some(p) => p <= input@.len() && utf8_split_point(input@) == Some(p as int),
            None => utf8_split_point(input@) is None,
        },
{
    let s = Ghost(input@);
    let n = input.len();
    let mut i: usize = 0;
    proof {
        assert(s@.skip(0) =~= s@);
        assert(s@.subrange(0, 0) =~= Seq::<u8>::empty());
    }
    while i < n
        invariant
            0 <= i <= n,
            n == s@.len(),
            s@ == input@,
            partial_valid_utf8(s@, i as int),
            utf8_split_point(s@) == shift_split(utf8_split_point(s@.skip(i as int)), i as int),
        decreases n - i,
    {
        let ghost suf = s@.skip(i as int);
        proof {
            assert(suf.len() == n - i);
            assert(forall|j: int| 0 <= j < suf.len() ==> suf[j] == s@[i + j]);
        }
        let b0 = input[i];
        let avail = n - i;
        let mut width: usize = 0;
        if b0 < 0x80 {
            proof {
                lemma_valid_head_w1(suf);
            }
            width = 1;
        } else if b0 < 0xc2 {
            proof {
                lemma_invalid_head(suf);
            }
            return None;
        } else if b0 < 0xe0 {
            if avail < 2 {
                proof {
                    assert(incomplete_first_scalar(suf));
                }
                return Some(i);
            }
            let b1 = input[i + 1];
            if !(0x80 <= b1 && b1 <= 0xbf) {
                proof {
                    lemma_invalid_head(suf);
                }
                return None;
            }
            proof {
                lemma_valid_head_w2(suf);
            }
            width = 2;
        } else if b0 < 0xf0 {
            if avail >= 2 {
                let b1 = input[i + 1];
                let second_ok = 0x80 <= b1 && b1 <= 0xbf && (b0 != 0xe0 || b1 >= 0xa0) && (b0
                    != 0xed || b1 <= 0x9f);
                if !second_ok {
                    proof {
                        lemma_invalid_head(suf);
                    }
                    return None;
                }
            }
            if avail < 3 {
                proof {
                    assert(incomplete_first_scalar(suf));
                }
                return Some(i);
            }
            let b2 = input[i + 2];
            if !(0x80 <= b2 && b2 <= 0xbf) {
                proof {
                    lemma_invalid_head(suf);
                }
                return None;
            }
            proof {
                lemma_valid_head_w3(suf);
            }
            width = 3;
        } else if b0 < 0xf5 {
            if avail >= 2 {
                let b1 = input[i + 1];
                let second_ok = 0x80 <= b1 && b1 <= 0xbf && (b0 != 0xf0 || b1 >= 0x90) && (b0
                    != 0xf4 || b1 <= 0x8f);
                if !second_ok {
                    proof {
                        lemma_invalid_head(suf);
                    }
                    return None;
                }
            }
            if avail >= 3 {
                let b2 = input[i + 2];
                if !(0x80 <= b2 && b2 <= 0xbf) {
                    proof {
                        lemma_invalid_head(suf);
                    }
                    return None;
                }
            }
            if avail < 4 {
                proof {
                    assert(incomplete_first_scalar(suf));
                }
                return Some(i);
            }
            let b3 = input[i + 3];
            if !(0x80 <= b3 && b3 <= 0xbf) {
                proof {
                    lemma_invalid_head(suf);
                }
                return None;
            }
            proof {
                lemma_valid_head_w4(suf);
            }
            width = 4;
        } else {
            proof {
                lemma_invalid_head(suf);
            }
            return None;
        }
        proof {
            assert(valid_first_scalar(suf) && length_of_first_scalar(suf) == width);
            partial_valid_utf8_extend(s@, i as int);
            assert(pop_first_scalar(suf) =~= s@.skip(i + width));
        }
        i = i + width;
    }
    proof {
        assert(s@.skip(n as int) =~= Seq::<u8>::empty());
        assert(s@.take(n as int) =~= s@);
    }
    Some(n)
}

/// Splits the buffer into its longest well-formed UTF-8 prefix and the
/// carried tail: the prefix decodes as text, and the tail (at most three
/// bytes) is the start of a scalar cut off by the end of the buffer.  Fails
/// exactly when the buffer holds a scalar encoding that no further bytes
/// could complete: such bytes are malformed data, not a chunk boundary.
pub fn split_utf8_prefix(input: &Vec<u8>) -> (r: Result<(Vec<u8>, Vec<u8>), ReadStreamError>)
    ensures
        match r {
            Ok((text, carry)) => {
                &&& utf8_split_point(input@) == Some(text@.len() as int)
                &&& text@ == input@.take(text@.len() as int)
                &&& carry@ == input@.skip(text@.len() as int)
                &&& text@ + carry@ == input@
                &&& valid_utf8(text@)
                &&& carry@.len() <= 3
                &&& (carry@.len() == 0 || incomplete_first_scalar(carry@))
                &&& (carry@.len() > 0 ==> !valid_utf8(carry@))
            },
            Err(e) => e == ReadStreamError::InvalidUtf8 && utf8_split_point(input@) is None,
        },
{
    match scan_utf8_prefix(input) {
        Some(p) => {
            proof {
                lemma_split_point_props(input@);
            }
            let text = copy_range(input, 0, p);
            let carry = copy_range(input, p, input.len());
            proof {
                assert(text@ + carry@ =~= input@);
                if carry@.len() > 0 {
                    lemma_incomplete_not_valid(carry@);
                }
            }
            Ok((text, carry))
        },
        None => Err(ReadStreamError::InvalidUtf8),
    }
}

/// Decides whether the buffer is well-formed UTF-8 from start to end.
pub fn check_utf8(input: &Vec<u8>) -> (r: bool)
    ensures
        r == valid_utf8(input@),
{
    match scan_utf8_prefix(input) {
        Some(p) => {
            proof {
                lemma_split_point_props(input@);
                if p == input@.len() {
                    assert(input@.take(p as int) =~= input@);
                } else {
                    if valid_utf8(input@) {
                        lemma_split_point_of_valid(input@);
                    }
                }
            }
            p == input.len()
        },
        None => {
            proof {
                lemma_split_point_props(input@);
            }
            false
        },
    }
}

/// Text assembled from well-formed chunks is well-formed, and decoding it
/// chunk by chunk gives the same characters as decoding it whole: the
/// concatenation of the texts of a streamed session reads exactly as the
/// file would.
pub proof fn lemma_decode_concat(a: Seq<u8>, b: Seq<u8>)
    requires
        valid_utf8(a),
        valid_utf8(b),
    ensures
        valid_utf8(a + b),
        decode_utf8(a + b) == decode_utf8(a) + decode_utf8(b),
{
    valid_utf8_concat(a, b);
    lemma_concat_boundary(a, b);
    decode_utf8_split(a + b, a.len() as int);
    assert((a + b).subrange(0, a.len() as int) =~= a);
    assert((a + b).subrange(a.len() as int, (a + b).len() as int) =~= b);
}

proof fn lemma_concat_boundary(a: Seq<u8>, b: Seq<u8>)
    requires
        valid_utf8(a),
        valid_utf8(a + b),
    ensures
        is_char_boundary(a + b, a.len() as int),
    decreases a.len(),
{
    if a.len() > 0 {
        let l = length_of_first_scalar(a);
        assert(valid_first_scalar(a + b)) by {
            lemma_first_scalar_concat(a, b);
        }
        assert(pop_first_scalar(a + b) =~= pop_first_scalar(a) + b) by {
            lemma_first_scalar_concat(a, b);
        }
        lemma_concat_boundary(pop_first_scalar(a), b);
    }
}

/// A well-formed first scalar stays the same when more bytes follow.
proof fn lemma_first_scalar_concat(a: Seq<u8>, b: Seq<u8>)
    requires
        a.len() > 0,
        valid_first_scalar(a),
    ensures
        valid_first_scalar(a + b),
        length_of_first_scalar(a + b) == length_of_first_scalar(a),
        pop_first_scalar(a + b) =~= pop_first_scalar(a) + b,
{
    let c = a + b;
    assert(c[0] == a[0]);
    if length_of_first_scalar(a) >= 2 {
        assert(c[1] == a[1]);
    }
    if length_of_first_scalar(a) >= 3 {
        assert(c[2] == a[2]);
    }
    if length_of_first_scalar(a) >= 4 {
        assert(c[3] == a[3]);
    }
}

} // verus!
