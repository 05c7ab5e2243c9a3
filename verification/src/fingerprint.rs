//! Deterministic, collision-free naming for parameterized field instances.
//!
//! A parameterized field (a bounded full-text search) is aliased by a
//! fingerprint of its field name and validated argument values, so that two
//! invocations with different arguments can stand in one compiled query and
//! be told apart in the result. The encoding is injective outright — field
//! name, then the count in eight hexadecimal digits, then the term's
//! characters two hexadecimal digits each, separated by underscores — so
//! distinct validated arguments can never collide.

use vstd::prelude::*;
use vstd::string::StrSliceExecFns;
use vstd::string::StringExecFns;

use crate::validate::valid_search_term;

verus! {

/// The character standing for one hexadecimal digit.
pub open spec fn hex_digit_char(d: int) -> char {
    if d == 0 {
        '0'
    } else if d == 1 {
        '1'
    } else if d == 2 {
        '2'
    } else if d == 3 {
        '3'
    } else if d == 4 {
        '4'
    } else if d == 5 {
        '5'
    } else if d == 6 {
        '6'
    } else if d == 7 {
        '7'
    } else if d == 8 {
        '8'
    } else if d == 9 {
        '9'
    } else if d == 10 {
        'a'
    } else if d == 11 {
        'b'
    } else if d == 12 {
        'c'
    } else if d == 13 {
        'd'
    } else if d == 14 {
        'e'
    } else {
        'f'
    }
}

/// A number written with exactly `w` hexadecimal digits, most significant
/// first.
pub open spec fn hex_fixed(n: int, w: nat) -> Seq<char>
    decreases w,
{
    if w == 0 {
        Seq::empty()
    } else {
        hex_fixed(n / 16, (w - 1) as nat).push(hex_digit_char(n % 16))
    }
}

/// The characters of a string written two hexadecimal digits each.
pub open spec fn hex_of_chars(s: Seq<char>) -> Seq<char>
    decreases s.len(),
{
    if s.len() == 0 {
        Seq::empty()
    } else {
        hex_of_chars(s.drop_last()) + hex_pair(s.last())
    }
}

/// The two hexadecimal digits of one character below 256.
pub open spec fn hex_pair(c: char) -> Seq<char> {
    seq![hex_digit_char(c as int / 16), hex_digit_char(c as int % 16)]
}

/// The fingerprint alias of a parameterized field: the field name, the
/// validated count, and the validated term, underscore-separated.
pub open spec fn spec_fingerprint(field: Seq<char>, term: Seq<char>, first: int) -> Seq<char> {
    field + seq!['_'] + hex_fixed(first, 8) + seq!['_'] + hex_of_chars(term)
}

/// Sixteen to the power `w`.
pub open spec fn pow16(w: nat) -> int
    decreases w,
{
    if w == 0 {
        1
    } else {
        16 * pow16((w - 1) as nat)
    }
}

proof fn lemma_hex_fixed_len(n: int, w: nat)
    ensures
        hex_fixed(n, w).len() == w,
    decreases w,
{
    if w > 0 {
        lemma_hex_fixed_len(n / 16, (w - 1) as nat);
    }
}

proof fn lemma_hex_digit_char_injective(a: int, b: int)
    requires
        0 <= a < 16,
        0 <= b < 16,
        hex_digit_char(a) == hex_digit_char(b),
    ensures
        a == b,
{
}

proof fn lemma_hex_fixed_injective(n1: int, n2: int, w: nat)
    requires
        0 <= n1 < pow16(w),
        0 <= n2 < pow16(w),
        hex_fixed(n1, w) == hex_fixed(n2, w),
    ensures
        n1 == n2,
    decreases w,
{
    if w > 0 {
        let p1 = hex_fixed(n1 / 16, (w - 1) as nat);
        let p2 = hex_fixed(n2 / 16, (w - 1) as nat);
        lemma_hex_fixed_len(n1 / 16, (w - 1) as nat);
        lemma_hex_fixed_len(n2 / 16, (w - 1) as nat);
        assert(p1.push(hex_digit_char(n1 % 16)).last() == hex_digit_char(n1 % 16));
        assert(p2.push(hex_digit_char(n2 % 16)).last() == hex_digit_char(n2 % 16));
        lemma_hex_digit_char_injective(n1 % 16, n2 % 16);
        assert(p1 =~= p2) by {
            assert forall|i: int| 0 <= i < p1.len() implies p1[i] == p2[i] by {
                assert(p1[i] == p1.push(hex_digit_char(n1 % 16))[i]);
                assert(p2[i] == p2.push(hex_digit_char(n2 % 16))[i]);
            }
        }
        assert(n1 / 16 < pow16((w - 1) as nat)) by (nonlinear_arith)
            requires
                n1 < pow16(w),
                pow16(w) == 16 * pow16((w - 1) as nat),
                0 <= n1,
        ;
        assert(n2 / 16 < pow16((w - 1) as nat)) by (nonlinear_arith)
            requires
                n2 < pow16(w),
                pow16(w) == 16 * pow16((w - 1) as nat),
                0 <= n2,
        ;
        lemma_hex_fixed_injective(n1 / 16, n2 / 16, (w - 1) as nat);
    }
}

proof fn lemma_hex_of_chars_len(s: Seq<char>)
    ensures
        hex_of_chars(s).len() == 2 * s.len(),
    decreases s.len(),
{
    if s.len() > 0 {
        lemma_hex_of_chars_len(s.drop_last());
    }
}

proof fn lemma_hex_pair_injective(c1: char, c2: char)
    requires
        (c1 as int) < 256,
        (c2 as int) < 256,
        hex_pair(c1) == hex_pair(c2),
    ensures
        c1 == c2,
{
    assert(hex_pair(c1)[0] == hex_pair(c2)[0]);
    assert(hex_pair(c1)[1] == hex_pair(c2)[1]);
    lemma_hex_digit_char_injective(c1 as int / 16, c2 as int / 16);
    lemma_hex_digit_char_injective(c1 as int % 16, c2 as int % 16);
    assert(c1 as int == 16 * (c1 as int / 16) + c1 as int % 16);
    assert(c2 as int == 16 * (c2 as int / 16) + c2 as int % 16);
}

proof fn lemma_hex_of_chars_injective(s1: Seq<char>, s2: Seq<char>)
    requires
        forall|i: int| 0 <= i < s1.len() ==> ((#[trigger] s1[i]) as int) < 256,
        forall|i: int| 0 <= i < s2.len() ==> ((#[trigger] s2[i]) as int) < 256,
        hex_of_chars(s1) == hex_of_chars(s2),
    ensures
        s1 == s2,
    decreases s1.len(),
{
    lemma_hex_of_chars_len(s1);
    lemma_hex_of_chars_len(s2);
    if s1.len() == 0 {
        assert(s1 =~= s2);
    } else {
        let h1 = hex_of_chars(s1.drop_last());
        let h2 = hex_of_chars(s2.drop_last());
        lemma_hex_of_chars_len(s1.drop_last());
        lemma_hex_of_chars_len(s2.drop_last());
        assert(hex_pair(s1.last()) =~= hex_pair(s2.last())) by {
            assert forall|k: int| 0 <= k < 2 implies hex_pair(s1.last())[k] == hex_pair(
                s2.last(),
            )[k] by {
                assert(hex_pair(s1.last())[k] == (h1 + hex_pair(s1.last()))[h1.len() + k]);
                assert(hex_pair(s2.last())[k] == (h2 + hex_pair(s2.last()))[h2.len() + k]);
            }
        }
        lemma_hex_pair_injective(s1.last(), s2.last());
        assert(h1 =~= h2) by {
            assert forall|k: int| 0 <= k < h1.len() implies h1[k] == h2[k] by {
                assert(h1[k] == (h1 + hex_pair(s1.last()))[k]);
                assert(h2[k] == (h2 + hex_pair(s2.last()))[k]);
            }
        }
        lemma_hex_of_chars_injective(s1.drop_last(), s2.drop_last());
        assert(s1 =~= s2) by {
            assert forall|i: int| 0 <= i < s1.len() implies s1[i] == s2[i] by {
                if i < s1.len() - 1 {
                    assert(s1[i] == s1.drop_last()[i]);
                    assert(s2[i] == s2.drop_last()[i]);
                }
            }
        }
    }
}

/// Every character of a well-formed search term is below 256.
pub proof fn lemma_term_chars_small(t: Seq<char>)
    requires
        valid_search_term(t),
    ensures
        forall|i: int| 0 <= i < t.len() ==> ((#[trigger] t[i]) as int) < 256,
{
    assert forall|i: int| 0 <= i < t.len() implies ((#[trigger] t[i]) as int) < 256 by {
        assert(crate::validate::is_term_letter(t[i]) || t[i] == ' ');
    }
}

/// Law: fingerprinting is injective on validated arguments. Identical
/// (field, term, count) triples fingerprint identically — `spec_fingerprint`
/// is a function — and within one field, different validated terms or counts
/// always yield different aliases.
pub proof fn lemma_fingerprint_injective(
    field: Seq<char>,
    t1: Seq<char>,
    n1: int,
    t2: Seq<char>,
    n2: int,
)
    requires
        valid_search_term(t1),
        valid_search_term(t2),
        1 <= n1 <= 0x7fffffff,
        1 <= n2 <= 0x7fffffff,
        spec_fingerprint(field, t1, n1) == spec_fingerprint(field, t2, n2),
    ensures
        t1 == t2,
        n1 == n2,
{
    let f1 = spec_fingerprint(field, t1, n1);
    let f2 = spec_fingerprint(field, t2, n2);
    let m = field.len() as int;
    lemma_hex_fixed_len(n1, 8);
    lemma_hex_fixed_len(n2, 8);
    lemma_hex_of_chars_len(t1);
    lemma_hex_of_chars_len(t2);
    assert(f1.len() == m + 10 + 2 * t1.len());
    assert(f2.len() == m + 10 + 2 * t2.len());
    assert(t1.len() == t2.len());
    assert(hex_fixed(n1, 8) =~= hex_fixed(n2, 8)) by {
        assert forall|k: int| 0 <= k < 8 implies hex_fixed(n1, 8)[k] == hex_fixed(n2, 8)[k] by {
            assert(f1[m + 1 + k] == hex_fixed(n1, 8)[k]);
            assert(f2[m + 1 + k] == hex_fixed(n2, 8)[k]);
        }
    }
    assert(pow16(8) == 0x100000000) by {
        reveal_with_fuel(pow16, 9);
    }
    lemma_hex_fixed_injective(n1, n2, 8);
    assert(hex_of_chars(t1) =~= hex_of_chars(t2)) by {
        assert forall|k: int| 0 <= k < hex_of_chars(t1).len() implies hex_of_chars(t1)[k]
            == hex_of_chars(t2)[k] by {
            assert(f1[m + 10 + k] == hex_of_chars(t1)[k]);
            assert(f2[m + 10 + k] == hex_of_chars(t2)[k]);
        }
    }
    lemma_term_chars_small(t1);
    lemma_term_chars_small(t2);
    lemma_hex_of_chars_injective(t1, t2);
}

/// Relies on String::push: appends exactly the given character.
#[verifier::external_body]
pub(crate) fn push_char(s: &mut String, c: char)
    ensures
        final(s)@ == old(s)@.push(c),
{
    s.push(c);
}

/// The character standing for one hexadecimal digit, executably.
pub(crate) fn hex_digit(d: u8) -> (c: char)
    requires
        d < 16,
    ensures
        c == hex_digit_char(d as int),
{
    match d {
        0 => '0',
        1 => '1',
        2 => '2',
        3 => '3',
        4 => '4',
        5 => '5',
        6 => '6',
        7 => '7',
        8 => '8',
        9 => '9',
        10 => 'a',
        11 => 'b',
        12 => 'c',
        13 => 'd',
        14 => 'e',
        _ => 'f',
    }
}

/// Appends `n` as exactly `w` hexadecimal digits, most significant first.
fn push_hex_fixed(out: &mut String, n: u32, w: u8)
    ensures
        final(out)@ == old(out)@ + hex_fixed(n as int, w as nat),
    decreases w,
{
    if w == 0 {
        proof {
            assert(old(out)@ + hex_fixed(n as int, 0) =~= old(out)@);
        }
    } else {
        push_hex_fixed(out, n / 16, w - 1);
        let d = (n % 16) as u8;
        push_char(out, hex_digit(d));
        proof {
            assert((old(out)@ + hex_fixed(n as int / 16, (w - 1) as nat)).push(
                hex_digit_char(n as int % 16),
            ) =~= old(out)@ + hex_fixed(n as int, w as nat));
        }
    }
}

/// Appends the term's characters, two hexadecimal digits each.
#[verifier::loop_isolation(false)]
fn push_hex_chars(out: &mut String, s: &str)
    requires
        forall|i: int| 0 <= i < s@.len() ==> ((#[trigger] s@[i]) as int) < 256,
    ensures
        final(out)@ == old(out)@ + hex_of_chars(s@),
{
    proof {
        assert(old(out)@ + hex_of_chars(s@.take(0)) =~= old(out)@);
    }
    let n = s.unicode_len();
    let mut i: usize = 0;
    while i < n
        invariant
            0 <= i <= n,
            out@ == old(out)@ + hex_of_chars(s@.take(i as int)),
        decreases n - i,
    {
        let c = s.get_char(i);
        let code = c as u32;
        assert(code < 256);
        push_char(out, hex_digit((code / 16) as u8));
        push_char(out, hex_digit((code % 16) as u8));
        proof {
            let prefix = s@.take(i as int);
            let next = s@.take(i + 1);
            assert(next.drop_last() =~= prefix);
            assert(next.last() == s@[i as int]);
            assert(hex_of_chars(next) == hex_of_chars(prefix) + hex_pair(s@[i as int]));
            assert(c as int / 16 == code as int / 16);
            assert(c as int % 16 == code as int % 16);
            assert((out@) =~= old(out)@ + hex_of_chars(next));
        }
        i += 1;
    }
    proof {
        assert(s@.take(n as int) =~= s@);
    }
}

/// The fingerprint alias of a parameterized field instance, from its field
/// name and validated arguments.
pub fn fingerprint(field: &str, term: &str, first: i32) -> (r: String)
    requires
        valid_search_term(term@),
        1 <= first,
    ensures
        r@ == spec_fingerprint(field@, term@, first as int),
{
    proof {
        lemma_term_chars_small(term@);
    }
    let mut out: String = field.to_owned();
    push_char(&mut out, '_');
    push_hex_fixed(&mut out, first as u32, 8);
    push_char(&mut out, '_');
    push_hex_chars(&mut out, term);
    proof {
        assert(out@ =~= field@ + seq!['_'] + hex_fixed(first as int, 8) + seq!['_']
            + hex_of_chars(term@));
    }
    out
}

} // verus!
