//! Small verified utilities on byte strings: ASCII whitespace trimming,
//! ASCII case folding, decimal rendering, and plain `Vec<u8>` helpers.

use vstd::prelude::*;

verus! {

/// The ASCII whitespace bytes that console input may be padded with.
pub open spec fn is_ascii_space(b: u8) -> bool {
    b == 0x20 || b == 0x09 || b == 0x0a || b == 0x0b || b == 0x0c || b == 0x0d
}

fn ascii_space(b: u8) -> (r: bool)
    ensures
        r == is_ascii_space(b),
{
    b == 0x20 || b == 0x09 || b == 0x0a || b == 0x0b || b == 0x0c || b == 0x0d
}

/// True when the byte string is empty or holds only ASCII whitespace.
pub open spec fn is_blank(s: Seq<u8>) -> bool {
    forall|i: int| 0 <= i < s.len() ==> is_ascii_space(#[trigger] s[i])
}

/// Decides [`is_blank`] on a byte string.
pub fn is_blank_bytes(v: &Vec<u8>) -> (r: bool)
    ensures
        r == is_blank(v@),
{
    let mut i: usize = 0;
    while i < v.len()
        invariant
            0 <= i <= v@.len(),
            forall|j: int| 0 <= j < i ==> is_ascii_space(#[trigger] v@[j]),
        decreases v@.len() - i,
    {
        if !ascii_space(v[i]) {
            return false;
        }
        i = i + 1;
    }
    true
}

/// The byte string with its leading ASCII whitespace removed.
pub open spec fn trim_start(s: Seq<u8>) -> Seq<u8>
    decreases s.len(),
{
    if s.len() > 0 && is_ascii_space(s[0]) {
        trim_start(s.skip(1))
    } else {
        s
    }
}

/// The byte string with its trailing ASCII whitespace removed.
pub open spec fn trim_end(s: Seq<u8>) -> Seq<u8>
    decreases s.len(),
{
    if s.len() > 0 && is_ascii_space(s.last()) {
        trim_end(s.drop_last())
    } else {
        s
    }
}

/// The byte string with ASCII whitespace removed from both ends.
pub open spec fn trim(s: Seq<u8>) -> Seq<u8> {
    trim_end(trim_start(s))
}

proof fn lemma_trim_start_skip(s: Seq<u8>, i: int)
    requires
        0 <= i <= s.len(),
        forall|j: int| 0 <= j < i ==> is_ascii_space(#[trigger] s[j]),
    ensures
        trim_start(s) == trim_start(s.skip(i)),
    decreases i,
{
    if i > 0 {
        assert(is_ascii_space(s[0]));
        assert(forall|j: int| 0 <= j < i - 1 ==> is_ascii_space(#[trigger] s.skip(1)[j]));
        assert(s.skip(1).skip(i - 1) =~= s.skip(i));
        lemma_trim_start_skip(s.skip(1), i - 1);
        assert(trim_start(s) == trim_start(s.skip(1)));
    } else {
        assert(s.skip(0) =~= s);
    }
}

proof fn lemma_trim_end_take(s: Seq<u8>, i: int)
    requires
        0 <= i <= s.len(),
        forall|j: int| i <= j < s.len() ==> is_ascii_space(#[trigger] s[j]),
    ensures
        trim_end(s) == trim_end(s.take(i)),
    decreases s.len() - i,
{
    if i < s.len() {
        assert(is_ascii_space(s[s.len() - 1]));
        assert(trim_end(s) == trim_end(s.drop_last()));
        assert(s.drop_last() =~= s.take(s.len() - 1));
        assert(forall|j: int|
            i <= j < s.take(s.len() - 1).len() ==> is_ascii_space(
                #[trigger] s.take(s.len() - 1)[j],
            ));
        lemma_trim_end_take(s.take(s.len() - 1), i);
        assert(s.take(s.len() - 1).take(i) =~= s.take(i));
    } else {
        assert(s.take(i) =~= s);
    }
}

/// The span of the byte string that survives trimming: `trim(s)` equals
/// `s.subrange(a, b)` whenever `a` is the first non-whitespace position and
/// `b` runs one past the last one.
pub proof fn lemma_trim_subrange(s: Seq<u8>, a: int, b: int)
    requires
        0 <= a <= b <= s.len(),
        forall|j: int| 0 <= j < a ==> is_ascii_space(#[trigger] s[j]),
        forall|j: int| b <= j < s.len() ==> is_ascii_space(#[trigger] s[j]),
        a < b ==> !is_ascii_space(s[a]) && !is_ascii_space(s[b - 1]),
        a == b ==> b == s.len(),
    ensures
        trim(s) == s.subrange(a, b),
{
    lemma_trim_start_skip(s, a);
    let t = s.skip(a);
    assert(trim_start(t) == t);
    lemma_trim_end_take(t, b - a);
    let u = t.take(b - a);
    assert(trim_end(u) == u);
    assert(u =~= s.subrange(a, b));
}

/// ASCII lower-casing of one byte; other bytes pass through unchanged.
pub open spec fn to_lower(b: u8) -> u8 {
    if 0x41 <= b <= 0x5a {
        (b + 0x20) as u8
    } else {
        b
    }
}

fn lower_byte(b: u8) -> (r: u8)
    ensures
        r == to_lower(b),
{
    if 0x41 <= b && b <= 0x5a {
        b + 0x20
    } else {
        b
    }
}

/// True when the trimmed, ASCII-lower-cased byte string reads `y` or `yes`:
/// the only console answers that confirm opening a large file.
pub open spec fn affirmative_answer(s: Seq<u8>) -> bool {
    let t = trim(s).map_values(|b: u8| to_lower(b));
    t == seq![0x79u8] || t == seq![0x79u8, 0x65u8, 0x73u8]
}

/// Decides [`affirmative_answer`] on a console line.
pub fn is_affirmative_answer(line: &Vec<u8>) -> (r: bool)
    ensures
        r == affirmative_answer(line@),
{
    let n = line.len();
    let mut a: usize = 0;
    while a < n && ascii_space(line[a])
        invariant
            0 <= a <= n,
            n == line@.len(),
            forall|j: int| 0 <= j < a ==> is_ascii_space(#[trigger] line@[j]),
        decreases n - a,
    {
        a = a + 1;
    }
    if a == n {
        proof {
            lemma_trim_subrange(line@, n as int, n as int);
            assert(trim(line@) =~= Seq::<u8>::empty());
            assert(trim(line@).map_values(|b: u8| to_lower(b)) =~= Seq::<u8>::empty());
        }
        return false;
    }
    let mut b: usize = n;
    while b > a + 1 && ascii_space(line[b - 1])
        invariant
            a < b <= n,
            n == line@.len(),
            forall|j: int| b <= j < n ==> is_ascii_space(#[trigger] line@[j]),
        decreases b,
    {
        b = b - 1;
    }
    if ascii_space(line[b - 1]) {
        // Only possible when `b == a + 1`, yet `line[a]` is not whitespace.
        proof {
            assert(b - 1 == a as int);
        }
        return false;
    }
    proof {
        lemma_trim_subrange(line@, a as int, b as int);
    }
    let ghost t = trim(line@).map_values(|x: u8| to_lower(x));
    let len = b - a;
    if len == 1 {
        let r = lower_byte(line[a]) == 0x79;
        proof {
            assert(t.len() == 1);
            assert(t[0] == to_lower(line@[a as int]));
            if r {
                assert(t =~= seq![0x79u8]);
            } else {
                assert(t != seq![0x79u8]);
                assert(t != seq![0x79u8, 0x65u8, 0x73u8]);
            }
        }
        r
    } else if len == 3 {
        let r = lower_byte(line[a]) == 0x79 && lower_byte(line[a + 1]) == 0x65 && lower_byte(
            line[a + 2],
        ) == 0x73;
        proof {
            assert(t.len() == 3);
            assert(t[0] == to_lower(line@[a as int]));
            assert(t[1] == to_lower(line@[a as int + 1]));
            assert(t[2] == to_lower(line@[a as int + 2]));
            if r {
                assert(t =~= seq![0x79u8, 0x65u8, 0x73u8]);
            } else {
                assert(t != seq![0x79u8]);
                assert(t != seq![0x79u8, 0x65u8, 0x73u8]);
            }
        }
        r
    } else {
        proof {
            assert(t.len() == b - a);
            assert(t != seq![0x79u8]);
            assert(t != seq![0x79u8, 0x65u8, 0x73u8]);
        }
        false
    }
}

/// The decimal digits of `n`, most significant first, as ASCII bytes.
pub open spec fn dec_digits(n: nat) -> Seq<u8>
    decreases n,
{
    if n < 10 {
        seq![(0x30 + n) as u8]
    } else {
        dec_digits(n / 10).push((0x30 + n % 10) as u8)
    }
}

/// Renders `n` in decimal, most significant digit first.
pub fn u64_to_dec(n: u64) -> (out: Vec<u8>)
    ensures
        out@ == dec_digits(n as nat),
    decreases n,
{
    if n < 10 {
        let mut out: Vec<u8> = Vec::new();
        out.push(0x30 + n as u8);
        proof {
            assert(out@ =~= dec_digits(n as nat));
        }
        out
    } else {
        let mut out = u64_to_dec(n / 10);
        out.push(0x30 + (n % 10) as u8);
        out
    }
}

/// Appends all of `src` to `dst`.
pub fn append_bytes(dst: &mut Vec<u8>, src: &Vec<u8>)
    ensures
        final(dst)@ == old(dst)@ + src@,
{
    let mut i: usize = 0;
    while i < src.len()
        invariant
            0 <= i <= src@.len(),
            dst@ == old(dst)@ + src@.take(i as int),
        decreases src@.len() - i,
    {
        dst.push(src[i]);
        proof {
            assert(old(dst)@ + src@.take(i as int) + seq![src@[i as int]] =~= old(dst)@
                + src@.take(i as int + 1));
        }
        i = i + 1;
    }
    proof {
        assert(src@.take(src@.len() as int) =~= src@);
    }
}

/// Copies `v[from..to]` into a fresh vector.
pub fn copy_range(v: &Vec<u8>, from: usize, to: usize) -> (out: Vec<u8>)
    requires
        from <= to <= v@.len(),
    ensures
        out@ == v@.subrange(from as int, to as int),
{
    let mut out: Vec<u8> = Vec::new();
    let mut i = from;
    while i < to
        invariant
            from <= i <= to <= v@.len(),
            out@ == v@.subrange(from as int, i as int),
        decreases to - i,
    {
        out.push(v[i]);
        proof {
            assert(v@.subrange(from as int, i as int) + seq![v@[i as int]] =~= v@.subrange(
                from as int,
                i as int + 1,
            ));
        }
        i = i + 1;
    }
    out
}

/// Compares two byte vectors for byte-wise equality.
pub fn bytes_eq(a: &Vec<u8>, b: &Vec<u8>) -> (r: bool)
    ensures
        r == (a@ == b@),
{
    if a.len() != b.len() {
        return false;
    }
    let mut i: usize = 0;
    while i < a.len()
        invariant
            0 <= i <= a@.len(),
            a@.len() == b@.len(),
            forall|j: int| 0 <= j < i ==> a@[j] == b@[j],
        decreases a@.len() - i,
    {
        if a[i] != b[i] {
            return false;
        }
        i = i + 1;
    }
    proof {
        assert(a@ =~= b@);
    }
    true
}

} // verus!
