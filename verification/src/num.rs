//! Decimal parsing and formatting for the small numbers read from the device
//! tree: isolation-group ids and link speeds.

use vstd::prelude::*;

verus! {

/// Whether `c` is a decimal digit.
pub open spec fn is_digit(c: char) -> bool {
    '0' as u32 <= c as u32 <= '9' as u32
}

/// The numeric value of the digit `c`.
pub open spec fn digit_val(c: char) -> int {
    c as u32 - '0' as u32
}

/// The value of a digit string, most significant digit first.
pub open spec fn digits_val(s: Seq<char>) -> int
    decreases s.len(),
{
    if s.len() == 0 {
        0
    } else {
        digits_val(s.drop_last()) * 10 + digit_val(s.last())
    }
}

/// The value of a digit string is never negative.
proof fn lemma_digits_val_nonneg(s: Seq<char>)
    requires
        forall|j: int| 0 <= j < s.len() ==> is_digit(s[j]),
    ensures
        digits_val(s) >= 0,
    decreases s.len(),
{
    if s.len() > 0 {
        lemma_digits_val_nonneg(s.drop_last());
    }
}

/// Appending digits never makes the value smaller.
proof fn lemma_digits_val_prefix_le(s: Seq<char>, i: int)
    requires
        forall|j: int| 0 <= j < s.len() ==> is_digit(s[j]),
        0 <= i <= s.len(),
    ensures
        digits_val(s.take(i)) <= digits_val(s),
    decreases s.len() - i,
{
    if i < s.len() {
        lemma_digits_val_prefix_le(s, i + 1);
        let p = s.take(i + 1);
        assert(p.drop_last() =~= s.take(i));
        assert(digits_val(p) == digits_val(s.take(i)) * 10 + digit_val(s[i]));
        lemma_digits_val_nonneg(s.take(i));
    } else {
        assert(s.take(i) =~= s);
    }
}

/// What an unsigned decimal string denotes: a nonempty run of digits whose
/// value fits in a `u32`; anything else is rejected.
pub open spec fn spec_parse_u32(s: Seq<char>) -> Option<u32> {
    if s.len() > 0 && (forall|j: int| 0 <= j < s.len() ==> is_digit(s[j])) && digits_val(s)
        <= u32::MAX {
        Some(digits_val(s) as u32)
    } else {
        None
    }
}

/// Parse a nonempty all-digit string into a `u32`.
pub fn parse_u32(s: &str) -> (r: Option<u32>)
    ensures
        r == spec_parse_u32(s@),
{
    let len: usize = s.unicode_len();
    if len == 0 {
        return None;
    }
    let mut acc: u64 = 0;
    let mut i: usize = 0;
    proof {
        assert(s@.take(0) =~= Seq::<char>::empty());
    }
    while i < len
        invariant
            i <= len,
            len == s@.len(),
            forall|j: int| 0 <= j < i ==> is_digit(s@[j]),
            acc == digits_val(s@.take(i as int)),
            acc <= u32::MAX,
        decreases len - i,
    {
        let c = s.get_char(i);
        let cv = c as u32;
        if cv < '0' as u32 || cv > '9' as u32 {
            assert(!is_digit(s@[i as int]));
            return None;
        }
        let d: u64 = (cv - '0' as u32) as u64;
        let next: u64 = acc * 10 + d;
        proof {
            let p = s@.take(i + 1);
            assert(p.drop_last() =~= s@.take(i as int));
            assert(p.last() == s@[i as int]);
            assert(next == digits_val(s@.take(i + 1)));
        }
        if next > u32::MAX as u64 {
            proof {
                if forall|j: int| 0 <= j < s@.len() ==> is_digit(s@[j]) {
                    lemma_digits_val_prefix_le(s@, i + 1);
                    assert(digits_val(s@) > u32::MAX);
                }
            }
            return None;
        }
        acc = next;
        i = i + 1;
    }
    proof {
        assert(s@.take(len as int) =~= s@);
    }
    Some(acc as u32)
}

/// What a signed decimal string denotes: an optional leading minus sign, then
/// a nonempty run of digits, with the value in `i32` range.
pub open spec fn spec_parse_i32(s: Seq<char>) -> Option<i32> {
    if s.len() > 0 && s[0] == '-' {
        let d = s.drop_first();
        if d.len() > 0 && (forall|j: int| 0 <= j < d.len() ==> is_digit(d[j])) && digits_val(d)
            <= 0x8000_0000 {
            Some((-digits_val(d)) as i32)
        } else {
            None
        }
    } else if s.len() > 0 && (forall|j: int| 0 <= j < s.len() ==> is_digit(s[j])) && digits_val(s)
        <= i32::MAX {
        Some(digits_val(s) as i32)
    } else {
        None
    }
}

/// The unsigned value of `s` starting at `from`, capped at `cap`; `None` when
/// a non-digit occurs, the run is empty, or the value passes the cap.
fn parse_digits_from(s: &str, from: usize, cap: u64) -> (r: Option<u64>)
    requires
        from <= s@.len(),
    ensures
        match r {
            Some(v) => {
                let d = s@.skip(from as int);
                &&& d.len() > 0
                &&& forall|j: int| 0 <= j < d.len() ==> is_digit(d[j])
                &&& v == digits_val(d)
                &&& v <= cap
            },
            None => {
                let d = s@.skip(from as int);
                d.len() == 0 || !(forall|j: int| 0 <= j < d.len() ==> is_digit(d[j]))
                    || digits_val(d) > cap
            },
        },
{
    let len: usize = s.unicode_len();
    if from == len {
        return None;
    }
    let ghost d = s@.skip(from as int);
    let mut acc: u64 = 0;
    let mut i: usize = from;
    proof {
        assert(d.take(0) =~= Seq::<char>::empty());
    }
    while i < len
        invariant
            from <= i <= len,
            len == s@.len(),
            d == s@.skip(from as int),
            forall|j: int| 0 <= j < i - from ==> is_digit(d[j]),
            acc == digits_val(d.take(i - from)),
            acc <= cap,
        decreases len - i,
    {
        let c = s.get_char(i);
        let cv = c as u32;
        proof {
            assert(d[i - from] == s@[i as int]);
        }
        if cv < '0' as u32 || cv > '9' as u32 {
            assert(!is_digit(d[i - from]));
            return None;
        }
        let dv: u64 = (cv - '0' as u32) as u64;
        if acc > (u64::MAX - dv) / 10 {
            proof {
                let p = d.take(i - from + 1);
                assert(p.drop_last() =~= d.take(i - from));
                assert(digits_val(p) == acc * 10 + dv);
                if forall|j: int| 0 <= j < d.len() ==> is_digit(d[j]) {
                    lemma_digits_val_prefix_le(d, i - from + 1);
                    assert(digits_val(d) >= digits_val(p));
                    assert(digits_val(d) > cap);
                }
            }
            return None;
        }
        let next: u64 = acc * 10 + dv;
        proof {
            let p = d.take(i - from + 1);
            assert(p.drop_last() =~= d.take(i - from));
            assert(p.last() == d[i - from]);
            assert(next == digits_val(p));
        }
        if next > cap {
            proof {
                if forall|j: int| 0 <= j < d.len() ==> is_digit(d[j]) {
                    lemma_digits_val_prefix_le(d, i - from + 1);
                    assert(digits_val(d) > cap);
                }
            }
            return None;
        }
        acc = next;
        i = i + 1;
    }
    proof {
        assert(d.take(len - from) =~= d);
    }
    Some(acc)
}

/// Parse a signed decimal string into an `i32`.
pub fn parse_i32(s: &str) -> (r: Option<i32>)
    ensures
        r == spec_parse_i32(s@),
{
    let len: usize = s.unicode_len();
    if len == 0 {
        return None;
    }
    if s.get_char(0) == '-' {
        proof {
            assert(s@.skip(1) =~= s@.drop_first());
        }
        match parse_digits_from(s, 1, 0x8000_0000u64) {
            Some(v) => {
                let neg: i64 = -(v as i64);
                Some(neg as i32)
            },
            None => None,
        }
    } else {
        proof {
            assert(s@.skip(0) =~= s@);
        }
        match parse_digits_from(s, 0, i32::MAX as u64) {
            Some(v) => Some(v as i32),
            None => None,
        }
    }
}

/// The digit character for the value `d`.
pub open spec fn digit_char(d: int) -> char {
    if d == 0 {
        '0'
    } else if d == 1 {
        '1'
    } else if d == 2 {
        '2'
    } else if d == 3 {
        '3'
    } else if d == 4 {
        '4'
    } else if d == 5 {
        '5'
    } else if d == 6 {
        '6'
    } else if d == 7 {
        '7'
    } else if d == 8 {
        '8'
    } else {
        '9'
    }
}

/// The decimal rendering of `n`, most significant digit first.
pub open spec fn spec_u32_string(n: int) -> Seq<char>
    decreases n,
{
    if n < 10 {
        seq![digit_char(n)]
    } else {
        spec_u32_string(n / 10) + seq![digit_char(n % 10)]
    }
}

/// Append the digit character for `d` to `out`.
fn push_digit(out: &mut String, d: u32)
    requires
        d < 10,
    ensures
        final(out)@ == old(out)@ + seq![digit_char(d as int)],
{
    if d == 0 {
        out.append("0");
        proof {
            reveal_strlit("0");
            assert(old(out)@ + "0"@ =~= old(out)@ + seq![digit_char(d as int)]);
        }
    } else if d == 1 {
        out.append("1");
        proof {
            reveal_strlit("1");
            assert(old(out)@ + "1"@ =~= old(out)@ + seq![digit_char(d as int)]);
        }
    } else if d == 2 {
        out.append("2");
        proof {
            reveal_strlit("2");
            assert(old(out)@ + "2"@ =~= old(out)@ + seq![digit_char(d as int)]);
        }
    } else if d == 3 {
        out.append("3");
        proof {
            reveal_strlit("3");
            assert(old(out)@ + "3"@ =~= old(out)@ + seq![digit_char(d as int)]);
        }
    } else if d == 4 {
        out.append("4");
        proof {
            reveal_strlit("4");
            assert(old(out)@ + "4"@ =~= old(out)@ + seq![digit_char(d as int)]);
        }
    } else if d == 5 {
        out.append("5");
        proof {
            reveal_strlit("5");
            assert(old(out)@ + "5"@ =~= old(out)@ + seq![digit_char(d as int)]);
        }
    } else if d == 6 {
        out.append("6");
        proof {
            reveal_strlit("6");
            assert(old(out)@ + "6"@ =~= old(out)@ + seq![digit_char(d as int)]);
        }
    } else if d == 7 {
        out.append("7");
        proof {
            reveal_strlit("7");
            assert(old(out)@ + "7"@ =~= old(out)@ + seq![digit_char(d as int)]);
        }
    } else if d == 8 {
        out.append("8");
        proof {
            reveal_strlit("8");
            assert(old(out)@ + "8"@ =~= old(out)@ + seq![digit_char(d as int)]);
        }
    } else {
        out.append("9");
        proof {
            reveal_strlit("9");
            assert(old(out)@ + "9"@ =~= old(out)@ + seq![digit_char(d as int)]);
        }
    }
}

/// Append the decimal rendering of `n` to `out`.
fn append_u32(out: &mut String, n: u32)
    ensures
        final(out)@ == old(out)@ + spec_u32_string(n as int),
    decreases n,
{
    if n < 10 {
        push_digit(out, n);
    } else {
        append_u32(out, n / 10);
        push_digit(out, n % 10);
        proof {
            assert(old(out)@ + (spec_u32_string(n as int / 10) + seq![
                digit_char(n as int % 10),
            ]) =~= (old(out)@ + spec_u32_string(n as int / 10)) + seq![digit_char(n as int % 10)]);
        }
    }
}

/// Render `n` in decimal.
pub fn u32_to_string(n: u32) -> (r: String)
    ensures
        r@ == spec_u32_string(n as int),
{
    let mut out = String::new();
    append_u32(&mut out, n);
    proof {
        assert(Seq::<char>::empty() + spec_u32_string(n as int) =~= spec_u32_string(n as int));
    }
    out
}

} // verus!
