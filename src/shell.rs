//! Recognizing PowerShell install directories by name: "7" for a release,
//! "7-preview" for a preview.
use crate::util::chars_of;
use vstd::prelude::*;

verus! {

pub open spec fn is_digit(c: char) -> bool {
    '0' <= c && c <= '9'
}

/// The value of a string of decimal digits.
pub open spec fn digits_value(s: Seq<char>) -> nat
    decreases s.len(),
{
    if s.len() == 0 {
        0
    } else {
        digits_value(s.drop_last()) * 10 + (s.last() as nat - '0' as nat) as nat
    }
}

/// A numeral without its leading '+', if it has one.
pub open spec fn unsigned_part(s: Seq<char>) -> Seq<char> {
    if s.len() > 0 && s[0] == '+' {
        s.drop_first()
    } else {
        s
    }
}

pub open spec fn all_digits(s: Seq<char>) -> bool {
    forall|i: int| 0 <= i < s.len() ==> is_digit(#[trigger] s[i])
}

/// The number a string reads as in the way `str::parse::<u32>` reads it: an
/// optional '+' followed by at least one decimal digit, with a value that
/// fits in 32 bits.
pub open spec fn decimal_u32(s: Seq<char>) -> Option<u32> {
    let d = unsigned_part(s);
    if d.len() > 0 && all_digits(d) && digits_value(d) <= u32::MAX {
        Some(digits_value(d) as u32)
    } else {
        None
    }
}

proof fn lemma_not_decimal(s: Seq<char>)
    requires
        !all_digits(unsigned_part(s)) || digits_value(unsigned_part(s)) > u32::MAX,
    ensures
        decimal_u32(s) is None,
{
}

proof fn lemma_digits_prefix(s: Seq<char>, k: int)
    requires
        0 <= k <= s.len(),
        forall|i: int| 0 <= i < s.len() ==> is_digit(#[trigger] s[i]),
    ensures
        digits_value(s.subrange(0, k)) <= digits_value(s),
    decreases s.len() - k,
{
    if k < s.len() {
        lemma_digits_prefix(s, k + 1);
        assert(s.subrange(0, k + 1).drop_last() =~= s.subrange(0, k));
    } else {
        assert(s.subrange(0, k) =~= s);
    }
}

/// Reads a decimal number as `decimal_u32` describes.
pub fn parse_u32(chars: &Vec<char>) -> (r: Option<u32>)
    ensures
        r == decimal_u32(chars@),
{
    let n = chars.len();
    let start: usize = if n > 0 && chars[0] == '+' {
        1
    } else {
        0
    };
    let ghost d = unsigned_part(chars@);
    proof {
        assert(d =~= chars@.subrange(start as int, n as int));
    }
    if start == n {
        return None;
    }
    let mut value: u64 = 0;
    let mut i: usize = start;
    while i < n
        invariant
            start <= i <= n,
            n == chars@.len(),
            d == chars@.subrange(start as int, n as int),
            d == unsigned_part(chars@),
            forall|j: int| start <= j < i ==> is_digit(#[trigger] chars@[j]),
            value == digits_value(chars@.subrange(start as int, i as int)),
            value <= u32::MAX,
        decreases n - i,
    {
        let c = chars[i];
        if !('0' <= c && c <= '9') {
            proof {
                assert(d[i - start] == c);
                assert(!is_digit(d[i - start]));
                assert(!all_digits(d));
                lemma_not_decimal(chars@);
            }
            return None;
        }
        let next = value * 10 + (c as u64 - '0' as u64);
        proof {
            assert(chars@.subrange(start as int, i + 1).drop_last() =~= chars@.subrange(
                start as int,
                i as int,
            ));
        }
        if next > u32::MAX as u64 {
            proof {
                let p = chars@.subrange(start as int, i + 1);
                assert(p.drop_last() =~= chars@.subrange(start as int, i as int));
                assert(p.last() == c);
                assert(digits_value(p) == next);
                if all_digits(d) {
                    assert(p =~= d.subrange(0, i + 1 - start));
                    lemma_digits_prefix(d, i + 1 - start);
                    assert(digits_value(d) > u32::MAX);
                }
                lemma_not_decimal(chars@);
            }
            return None;
        }
        value = next;
        i += 1;
    }
    proof {
        assert(chars@.subrange(start as int, n as int) =~= d);
        assert forall|j: int| 0 <= j < d.len() implies is_digit(#[trigger] d[j]) by {
            assert(d[j] == chars@[start + j]);
        }
        assert(all_digits(d));
    }
    Some(value as u32)
}

/// The characters of "preview".
pub open spec fn preview_word() -> Seq<char> {
    seq!['p', 'r', 'e', 'v', 'i', 'e', 'w']
}

/// Position of the first '-' in `s`, if any.
pub open spec fn first_dash(s: Seq<char>) -> Option<int>
    decreases s.len(),
{
    if s.len() == 0 {
        None
    } else if s.last() == '-' && first_dash(s.drop_last()) is None {
        Some(s.len() - 1)
    } else {
        first_dash(s.drop_last())
    }
}

/// The version an install directory's name stands for: the whole name as a
/// number for releases; for previews, the part before the first '-' as a
/// number, provided the rest is exactly "preview".
pub open spec fn pwsh_version_spec(name: Seq<char>, find_preview: bool) -> Option<u32> {
    if !find_preview {
        decimal_u32(name)
    } else {
        match first_dash(name) {
            None => None,
            Some(i) => if name.subrange(i + 1, name.len() as int) == preview_word() {
                decimal_u32(name.subrange(0, i))
            } else {
                None
            },
        }
    }
}

fn find_dash(chars: &Vec<char>) -> (r: Option<usize>)
    ensures
        r is None <==> first_dash(chars@) is None,
        r is Some ==> first_dash(chars@) == Some(r.unwrap() as int) && r.unwrap() < chars@.len(),
{
    let mut i: usize = 0;
    while i < chars.len()
        invariant
            i <= chars@.len(),
            first_dash(chars@.subrange(0, i as int)) is None,
        decreases chars.len() - i,
    {
        proof {
            assert(chars@.subrange(0, i + 1).drop_last() =~= chars@.subrange(0, i as int));
        }
        if chars[i] == '-' {
            proof {
                lemma_first_dash_extends(chars@, i + 1);
            }
            return Some(i);
        }
        i += 1;
    }
    proof {
        assert(chars@.subrange(0, chars@.len() as int) =~= chars@);
    }
    None
}

proof fn lemma_first_dash_extends(s: Seq<char>, k: int)
    requires
        0 < k <= s.len(),
        first_dash(s.subrange(0, k)) is Some,
    ensures
        first_dash(s) == first_dash(s.subrange(0, k)),
    decreases s.len() - k,
{
    if k < s.len() {
        assert(s.subrange(0, k + 1).drop_last() =~= s.subrange(0, k));
        lemma_first_dash_extends(s, k + 1);
    } else {
        assert(s.subrange(0, k) =~= s);
    }
}

fn slice_chars(chars: &Vec<char>, from: usize, to: usize) -> (r: Vec<char>)
    requires
        from <= to <= chars@.len(),
    ensures
        r@ == chars@.subrange(from as int, to as int),
{
    let mut out: Vec<char> = Vec::new();
    let mut i: usize = from;
    while i < to
        invariant
            from <= i <= to <= chars@.len(),
            out@ == chars@.subrange(from as int, i as int),
        decreases to - i,
    {
        out.push(chars[i]);
        proof {
            assert(out@ =~= chars@.subrange(from as int, i + 1));
        }
        i += 1;
    }
    out
}

fn same_chars(a: &Vec<char>, b: &Vec<char>) -> (r: bool)
    ensures
        r == (a@ == b@),
{
    if a.len() != b.len() {
        proof {
            assert(a@.len() != b@.len());
        }
        return false;
    }
    let mut j: usize = 0;
    while j < a.len()
        invariant
            a@.len() == b@.len(),
            j <= a@.len(),
            forall|t: int| 0 <= t < j ==> a@[t] == b@[t],
        decreases a.len() - j,
    {
        if a[j] != b[j] {
            proof {
                assert(a@[j as int] != b@[j as int]);
            }
            return false;
        }
        j += 1;
    }
    proof {
        assert(a@ =~= b@);
    }
    true
}

/// The version a PowerShell install directory's name stands for, if it is a
/// release directory (or, with `find_preview`, a preview directory).
pub fn pwsh_dir_version(name: &str, find_preview: bool) -> (r: Option<u32>)
    ensures
        r == pwsh_version_spec(name@, find_preview),
{
    let chars = chars_of(name);
    if !find_preview {
        return parse_u32(&chars);
    }
    match find_dash(&chars) {
        None => None,
        Some(i) => {
            let rest = slice_chars(&chars, i + 1, chars.len());
            let preview: Vec<char> = vec!['p', 'r', 'e', 'v', 'i', 'e', 'w'];
            proof {
                assert(preview@ =~= preview_word());
            }
            if !same_chars(&rest, &preview) {
                return None;
            }
            parse_u32(&slice_chars(&chars, 0, i))
        },
    }
}

} // verus!
