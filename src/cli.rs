use vstd::prelude::*;
use vstd::string::*;

verus! {

/// Whether `c` is an ASCII decimal digit.
pub open spec fn is_digit(c: char) -> bool {
    '0' <= c && c <= '9'
}

/// The numeric value of a run of ASCII decimal digits.
pub open spec fn digits_value(d: Seq<char>) -> int
    decreases d.len(),
{
    if d.len() == 0 {
        0
    } else {
        10 * digits_value(d.drop_last()) + (d.last() as int - '0' as int)
    }
}

/// The count that `s` spells: an optional `+` followed by at least one
/// decimal digit, with a value that fits in `usize`; `None` otherwise.
pub open spec fn count_of(s: Seq<char>) -> Option<usize> {
    let d = if s.len() > 0 && s[0] == '+' { s.drop_first() } else { s };
    if d.len() > 0 && (forall|i: int| 0 <= i < d.len() ==> is_digit(#[trigger] d[i]))
        && digits_value(d) <= usize::MAX {
        Some(digits_value(d) as usize)
    } else {
        None
    }
}

/// The first position at which `args` holds `flag`, if any.
pub open spec fn flag_position(args: Seq<String>, flag: Seq<char>) -> Option<int> {
    if exists|i: int| 0 <= i < args.len() && (#[trigger] args[i])@ == flag {
        let i = choose|i: int|
            0 <= i < args.len() && (#[trigger] args[i])@ == flag && forall|j: int|
                0 <= j < i ==> (#[trigger] args[j])@ != flag;
        Some(i)
    } else {
        None
    }
}

/// The value given to `flag` on a command line: the count spelled by the
/// argument right after the first occurrence of `flag`.
pub open spec fn flag_value(args: Seq<String>, flag: Seq<char>) -> Option<usize> {
    match flag_position(args, flag) {
        Some(i) => if i + 1 < args.len() {
            count_of(args[i + 1]@)
        } else {
            None
        },
        None => None,
    }
}

/// Relies on `str::parse::<usize>`: it accepts exactly an optional `+`
/// followed by one or more ASCII digits whose value fits in `usize`.
#[verifier::external_body]
fn parse_count(s: &String) -> (r: Option<usize>)
    ensures
        r == count_of(s@),
{
    s.parse::<usize>().ok()
}

/// Reads the count given after `flag` in `args`.
pub fn parse_flag(args: &[String], flag: &str) -> (r: Option<usize>)
    ensures
        r == flag_value(args@, flag@),
{
    let f = String::from_str(flag);
    let mut i: usize = 0;
    while i < args.len()
        invariant
            0 <= i <= args@.len(),
            f@ == flag@,
            forall|j: int| 0 <= j < i ==> (#[trigger] args@[j])@ != flag@,
        decreases args@.len() - i,
    {
        if args[i] == f {
            proof {
                let p = flag_position(args@, flag@);
                assert(args@[i as int]@ == flag@);
                let k = choose|k: int|
                    0 <= k < args@.len() && (#[trigger] args@[k])@ == flag@ && forall|j: int|
                        0 <= j < k ==> (#[trigger] args@[j])@ != flag@;
                assert(k == i as int) by {
                    if k < i as int {
                    } else if k > i as int {
                        assert(args@[i as int]@ != flag@);
                    }
                }
                assert(p == Some(i as int));
            }
            if i + 1 < args.len() {
                return parse_count(&args[i + 1]);
            } else {
                return None;
            }
        }
        i += 1;
    }
    None
}

} // verus!
