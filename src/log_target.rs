//! Where a logged error is attributed: the crate and module that a source
//! file path names, for paths of the form `.../crates/<crate>/src/<module>.rs`.
use crate::util::chars_of;
use vstd::prelude::*;

verus! {

/// Whether `needle` occurs in `hay` at position `at`.
pub open spec fn part_at(hay: Seq<char>, needle: Seq<char>, at: int) -> bool {
    0 <= at && at + needle.len() <= hay.len() && hay.subrange(at, at + needle.len()) == needle
}

/// The first position at or after `from` where `needle` occurs in `hay`.
pub open spec fn find_part(hay: Seq<char>, needle: Seq<char>, from: int) -> Option<int>
    decreases hay.len() + 1 - from,
{
    if from < 0 || from + needle.len() > hay.len() {
        None
    } else if part_at(hay, needle, from) {
        Some(from)
    } else {
        find_part(hay, needle, from + 1)
    }
}

/// `s` without every trailing ".rs".
pub open spec fn trim_rs(s: Seq<char>) -> Seq<char>
    decreases s.len(),
{
    if s.len() >= 3 && s.subrange(s.len() - 3, s.len() as int) == seq!['.', 'r', 's'] {
        trim_rs(s.subrange(0, s.len() - 3))
    } else {
        s
    }
}

/// `s` with every '/' written as "::".
pub open spec fn slashes_to_paths(s: Seq<char>) -> Seq<char>
    decreases s.len(),
{
    if s.len() == 0 {
        s
    } else {
        slashes_to_paths(s.drop_last()) + if s.last() == '/' {
            seq![':', ':']
        } else {
            seq![s.last()]
        }
    }
}

pub open spec fn crates_word() -> Seq<char> {
    seq!['c', 'r', 'a', 't', 'e', 's', '/']
}

pub open spec fn src_word() -> Seq<char> {
    seq!['/', 's', 'r', 'c', '/']
}

/// The crate and module path a file path names: the crate is what lies
/// between the first "crates/" and the first "/src/" after it, the module
/// is the rest without its ".rs" endings and with '/' written as "::",
/// prefixed by the crate and "::". Nothing when either marker is missing.
pub open spec fn log_target_spec(file: Seq<char>) -> Option<(Seq<char>, Seq<char>)> {
    match find_part(file, crates_word(), 0) {
        None => None,
        Some(i) => {
            let rest = file.subrange(i + 7, file.len() as int);
            match find_part(rest, src_word(), 0) {
                None => None,
                Some(j) => {
                    let krate = rest.subrange(0, j);
                    let module = rest.subrange(j + 5, rest.len() as int);
                    Some((krate, krate + seq![':', ':'] + slashes_to_paths(trim_rs(module))))
                },
            }
        },
    }
}

/// The crate and module path a logged error is attributed to.
#[derive(Clone, Debug, PartialEq, Eq)]
pub struct LogTarget {
    pub krate: Vec<char>,
    pub module_name: Vec<char>,
}

fn same_at(hay: &Vec<char>, needle: &Vec<char>, at: usize) -> (r: bool)
    requires
        at + needle@.len() <= hay@.len(),
    ensures
        r == part_at(hay@, needle@, at as int),
{
    let n = hay.len();
    let mut k: usize = 0;
    while k < needle.len()
        invariant
            n == hay@.len(),
            at + needle@.len() <= hay@.len(),
            k <= needle@.len(),
            forall|t: int| 0 <= t < k ==> hay@[at + t] == needle@[t],
        decreases needle.len() - k,
    {
        if hay[at + k] != needle[k] {
            proof {
                assert(hay@.subrange(at as int, at + needle@.len())[k as int] != needle@[k as int]);
            }
            return false;
        }
        k += 1;
    }
    proof {
        assert(hay@.subrange(at as int, at + needle@.len()) =~= needle@);
    }
    true
}

/// The first position where `needle` occurs in `hay`.
pub fn first_part(hay: &Vec<char>, needle: &Vec<char>) -> (r: Option<usize>)
    requires
        needle@.len() > 0,
    ensures
        r matches Some(i) ==> i + needle@.len() <= hay@.len() && find_part(hay@, needle@, 0) == Some(
            i as int,
        ),
        r is None ==> find_part(hay@, needle@, 0) is None,
{
    if needle.len() > hay.len() {
        return None;
    }
    let n = hay.len();
    let last = n - needle.len();
    let mut i: usize = 0;
    while i <= last
        invariant
            n == hay@.len(),
            needle@.len() > 0,
            last + needle@.len() == hay@.len(),
            i <= last + 1,
            find_part(hay@, needle@, 0) == find_part(hay@, needle@, i as int),
        decreases last + 1 - i,
    {
        if same_at(hay, needle, i) {
            return Some(i);
        }
        i += 1;
    }
    None
}

fn slice(chars: &Vec<char>, from: usize, to: usize) -> (r: Vec<char>)
    requires
        from <= to <= chars@.len(),
    ensures
        r@ == chars@.subrange(from as int, to as int),
{
    let mut out: Vec<char> = Vec::new();
    let mut i: usize = from;
    while i < to
        invariant
            from <= i <= to <= chars@.len(),
            out@ == chars@.subrange(from as int, i as int),
        decreases to - i,
    {
        out.push(chars[i]);
        proof {
            assert(out@ =~= chars@.subrange(from as int, i + 1));
        }
        i += 1;
    }
    out
}

fn trim_rs_exec(s: &Vec<char>) -> (r: usize)
    ensures
        r <= s@.len(),
        s@.subrange(0, r as int) == trim_rs(s@),
{
    let mut end: usize = s.len();
    proof {
        assert(s@.subrange(0, end as int) =~= s@);
    }
    while end >= 3 && s[end - 3] == '.' && s[end - 2] == 'r' && s[end - 1] == 's'
        invariant
            end <= s@.len(),
            trim_rs(s@) == trim_rs(s@.subrange(0, end as int)),
        decreases end,
    {
        proof {
            let t = s@.subrange(0, end as int);
            assert(t.subrange(t.len() - 3, t.len() as int) =~= seq!['.', 'r', 's']);
            assert(t.subrange(0, t.len() - 3) =~= s@.subrange(0, end - 3));
        }
        end = end - 3;
    }
    proof {
        let t = s@.subrange(0, end as int);
        if end >= 3 {
            assert(t.subrange(t.len() - 3, t.len() as int) != seq!['.', 'r', 's']) by {
                if t.subrange(t.len() - 3, t.len() as int) == seq!['.', 'r', 's'] {
                    assert(t.subrange(t.len() - 3, t.len() as int)[0] == s@[end - 3]);
                    assert(t.subrange(t.len() - 3, t.len() as int)[1] == s@[end - 2]);
                    assert(t.subrange(t.len() - 3, t.len() as int)[2] == s@[end - 1]);
                }
            }
        }
    }
    end
}

fn append_paths(out: &mut Vec<char>, s: &Vec<char>, end: usize)
    requires
        end <= s@.len(),
    ensures
        final(out)@ == old(out)@ + slashes_to_paths(s@.subrange(0, end as int)),
{
    let ghost start = old(out)@;
    let mut i: usize = 0;
    proof {
        assert(s@.subrange(0, 0) =~= Seq::<char>::empty());
        assert(out@ =~= start + slashes_to_paths(s@.subrange(0, 0)));
    }
    while i < end
        invariant
            end <= s@.len(),
            i <= end,
            out@ == start + slashes_to_paths(s@.subrange(0, i as int)),
        decreases end - i,
    {
        let c = s[i];
        if c == '/' {
            out.push(':');
            out.push(':');
        } else {
            out.push(c);
        }
        proof {
            assert(s@.subrange(0, i + 1).drop_last() =~= s@.subrange(0, i as int));
            assert(out@ =~= start + slashes_to_paths(s@.subrange(0, i + 1)));
        }
        i += 1;
    }
}

/// The crate and module path of a source file path, as `log_target_spec`
/// says.
pub fn log_target(file: &str) -> (r: Option<LogTarget>)
    ensures
        match log_target_spec(file@) {
            Some((krate, module_name)) => r matches Some(t) && t.krate@ == krate && t.module_name@
                == module_name,
            None => r is None,
        },
{
    let chars = chars_of(file);
    let crates_marker: Vec<char> = vec!['c', 'r', 'a', 't', 'e', 's', '/'];
    let src_marker: Vec<char> = vec!['/', 's', 'r', 'c', '/'];
    proof {
        assert(crates_marker@ =~= crates_word());
        assert(src_marker@ =~= src_word());
    }
    let i = match first_part(&chars, &crates_marker) {
        None => return None,
        Some(i) => i,
    };
    let total = chars.len();
    let rest = slice(&chars, i + 7, total);
    let j = match first_part(&rest, &src_marker) {
        None => return None,
        Some(j) => j,
    };
    let krate = slice(&rest, 0, j);
    let module = slice(&rest, j + 5, rest.len());
    let end = trim_rs_exec(&module);
    let mut module_name = slice(&rest, 0, j);
    module_name.push(':');
    module_name.push(':');
    append_paths(&mut module_name, &module, end);
    Some(LogTarget { krate, module_name })
}

} // verus!
