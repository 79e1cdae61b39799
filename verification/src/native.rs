//! The native library: the callables pre-registered in the globals. String
//! search and replacement are verified here character by character; clock
//! and randomness come through trusted wrappers that promise nothing about
//! the values drawn.
use crate::display::{display_opt, spec_display_opt};
use crate::environment::Heap;
use crate::error::RuntimeError;
use crate::literal::{opt_dup, opt_like, Literal};
use crate::num::{bits_of_str, bits_of_u64, div_bits, int_of_bits, is_neg_bits, mag_bits,
    neg_bits, num_add, num_div, num_from_u64, num_is_neg, num_le, num_le_bits, num_lt,
    num_lt_bits, num_mul, num_neg,
    num_parse, num_pow_int, num_round_int, num_sub, num_to_u64, pow_sq_bits, round_int_bits,
    ONE_BITS};
use crate::strutil::{chars_to_string, string_to_chars};
use crate::token::Token;
use vstd::prelude::*;
use vstd::string::*;

verus! {

/// Relies on `rand::random::<u64>`: a machine-random value of which nothing
/// is assumed.
#[verifier::external_body]
fn rand_u64() -> (r: u64) {
    rand::random::<u64>()
}

/// Relies on `rand::Rng::gen_range` over a thread-local generator: a value
/// below the given bound. The bound must be positive, since the call panics
/// on an empty range.
#[verifier::external_body]
fn rand_below(n: u64) -> (r: u64)
    requires
        n > 0,
    ensures
        r < n,
{
    rand::Rng::gen_range(&mut rand::thread_rng(), 0..n)
}

/// Relies on `std::time::SystemTime::now`: the milliseconds since the epoch
/// by the system clock, of which nothing is assumed.
#[verifier::external_body]
fn clock_millis() -> (r: u64) {
    match std::time::SystemTime::now().duration_since(std::time::UNIX_EPOCH) {
        Ok(d) => d.as_millis() as u64,
        Err(_) => 0,
    }
}

/// The signed integer a number's bits denote exactly, where there is one in
/// range.
pub open spec fn i64_of_bits(b: u64) -> Option<i64> {
    match int_of_bits(mag_bits(b)) {
        Some(m) => if m <= i64::MAX as u64 {
            if is_neg_bits(b) {
                Some((-(m as int)) as i64)
            } else {
                Some(m as i64)
            }
        } else {
            None
        },
        None => None,
    }
}

pub fn num_to_i64(b: u64) -> (r: Option<i64>)
    ensures
        r == i64_of_bits(b),
{
    let m = num_to_u64(b & crate::num::ABS_MASK);
    match m {
        Some(m) => {
            if m <= 0x7FFF_FFFF_FFFF_FFFFu64 {
                if num_is_neg(b) {
                    Some((-(m as i128)) as i64)
                } else {
                    Some(m as i64)
                }
            } else {
                None
            }
        },
        None => None,
    }
}

/// The needle read forward from position i of the haystack.
pub open spec fn occurs_at(s: Seq<char>, n: Seq<char>, i: int) -> bool {
    0 <= i && i + n.len() <= s.len() && s.subrange(i, i + n.len()) == n
}

/// Whether the needle reads forward from position i.
fn match_at(s: &Vec<char>, n: &Vec<char>, i: usize) -> (r: bool)
    requires
        i + n@.len() <= s@.len(),
    ensures
        r == occurs_at(s@, n@, i as int),
{
    let total = s.len();
    let mut k: usize = 0;
    while k < n.len()
        invariant
            total == s@.len(),
            i + n@.len() <= s@.len(),
            k <= n@.len(),
            forall|t: int| 0 <= t < k ==> s@[i + t] == n@[t],
        decreases n@.len() - k,
    {
        if s[i + k] != n[k] {
            proof {
                if occurs_at(s@, n@, i as int) {
                    assert(s@.subrange(i as int, i + n@.len())[k as int] == n@[k as int]);
                }
            }
            return false;
        }
        k = k + 1;
    }
    proof {
        assert(s@.subrange(i as int, i + n@.len()) =~= n@);
    }
    true
}

pub fn find_substring(s: &Vec<char>, n: &Vec<char>) -> (r: Option<usize>)
    ensures
        match r {
            Some(i) => occurs_at(s@, n@, i as int) && (forall|j: int|
                0 <= j < i ==> !occurs_at(s@, n@, j)),
            None => forall|j: int| !occurs_at(s@, n@, j),
        },
{
    if n.len() > s.len() {
        proof {
            assert(forall|j: int| !occurs_at(s@, n@, j)) by {
                assert(forall|j: int| occurs_at(s@, n@, j) ==> j + n@.len() <= s@.len() && j >= 0);
            }
        }
        return None;
    }
    if n.len() == 0 {
        proof {
            assert(s@.subrange(0, 0) =~= n@);
        }
        return Some(0);
    }
    let bound = s.len() - n.len();
    let slen = s.len();
    let mut i: usize = 0;
    while i <= bound
        invariant
            slen == s@.len(),
            1 <= n@.len() <= s@.len(),
            bound == s@.len() - n@.len(),
            i <= bound + 1,
            forall|j: int| 0 <= j < i ==> !occurs_at(s@, n@, j),
        decreases bound + 1 - i,
    {
        if match_at(s, n, i) {
            return Some(i);
        }
        i = i + 1;
    }
    proof {
        assert(forall|j: int| !occurs_at(s@, n@, j)) by {
            assert(forall|j: int|
                occurs_at(s@, n@, j) ==> 0 <= j && j + n@.len() <= s@.len());
        }
    }
    None
}

/// What an empty search pattern splices around the characters from
/// position i on: each character followed by the replacement.
pub open spec fn spliced_tail(s: Seq<char>, i: int, to: Seq<char>) -> Seq<char>
    decreases s.len() - i,
{
    if i < 0 || i >= s.len() {
        Seq::<char>::empty()
    } else {
        seq![s[i]] + to + spliced_tail(s, i + 1, to)
    }
}

/// The text with every occurrence of `from` replaced by `to`, scanning left
/// to right; an empty `from` splices `to` around every character.
pub open spec fn replaced(s: Seq<char>, from: Seq<char>, to: Seq<char>) -> Seq<char>
    decreases s.len(),
{
    if from.len() == 0 {
        to + spliced_tail(s, 0, to)
    } else if s.len() < from.len() {
        s
    } else if s.take(from.len() as int) == from {
        to + replaced(s.skip(from.len() as int), from, to)
    } else {
        s.take(1) + replaced(s.skip(1), from, to)
    }
}

fn replace_chars(s: &Vec<char>, from: &Vec<char>, to: &Vec<char>) -> (r: Vec<char>)
    ensures
        r@ == replaced(s@, from@, to@),
{
    let mut out: Vec<char> = Vec::new();
    let m = from.len();
    if m == 0 {
        proof {
            assert(from@ =~= Seq::<char>::empty());
        }
        let mut t0 = to.clone();
        out.append(&mut t0);
        let mut i: usize = 0;
        proof {
            assert(out@ =~= to@);
            assert(replaced(s@, from@, to@) == to@ + spliced_tail(s@, 0, to@));
        }
        while i < s.len()
            invariant
                from@.len() == 0,
                i <= s@.len(),
                out@ + spliced_tail(s@, i as int, to@) == replaced(s@, from@, to@),
            decreases s@.len() - i,
        {
            let ghost out0 = out@;
            out.push(s[i]);
            let mut t = to.clone();
            out.append(&mut t);
            i = i + 1;
            proof {
                assert(spliced_tail(s@, i - 1, to@) == seq![s@[i - 1]] + to@ + spliced_tail(
                    s@,
                    i as int,
                    to@,
                ));
                assert(out@ + spliced_tail(s@, i as int, to@) =~= out0 + spliced_tail(
                    s@,
                    i - 1,
                    to@,
                ));
            }
        }
        proof {
            assert(spliced_tail(s@, s@.len() as int, to@) == Seq::<char>::empty());
            assert(out@ + Seq::<char>::empty() =~= out@);
        }
        return out;
    }
    let mut i: usize = 0;
    proof {
        assert(s@.skip(0) =~= s@);
        assert(out@ + replaced(s@, from@, to@) =~= replaced(s@, from@, to@));
    }
    while i < s.len()
        invariant
            from@.len() == m,
            m > 0,
            i <= s@.len(),
            out@ + replaced(s@.skip(i as int), from@, to@) == replaced(s@, from@, to@),
        decreases s@.len() - i,
    {
        let ghost out0 = out@;
        let ghost tail = s@.skip(i as int);
        let here = if m <= s.len() - i {
            match_at(s, from, i)
        } else {
            false
        };
        if here {
            proof {
                assert(tail.take(m as int) =~= s@.subrange(i as int, i + m));
                assert(tail.skip(m as int) =~= s@.skip(i + m));
                assert(replaced(tail, from@, to@) == to@ + replaced(s@.skip(i + m), from@, to@));
            }
            let mut t = to.clone();
            out.append(&mut t);
            i = i + m;
            proof {
                assert(out@ + replaced(s@.skip(i as int), from@, to@) =~= out0 + (to@ + replaced(
                    s@.skip(i as int),
                    from@,
                    to@,
                )));
            }
        } else {
            proof {
                assert(tail.len() > 0);
                if tail.len() >= m {
                    assert(tail.take(m as int) =~= s@.subrange(i as int, i + m));
                }
                assert(tail.take(1) =~= seq![s@[i as int]]);
                assert(tail.skip(1) =~= s@.skip(i + 1));
                assert(replaced(tail, from@, to@) == tail.take(1) + replaced(
                    s@.skip(i + 1),
                    from@,
                    to@,
                ));
            }
            out.push(s[i]);
            i = i + 1;
            proof {
                assert(out@ + replaced(s@.skip(i as int), from@, to@) =~= out0 + (seq![
                    s@[i - 1],
                ] + replaced(s@.skip(i as int), from@, to@)));
            }
        }
    }
    proof {
        assert(s@.skip(s@.len() as int) =~= Seq::<char>::empty());
        assert(replaced(Seq::<char>::empty(), from@, to@) == Seq::<char>::empty());
        assert(out@ + Seq::<char>::empty() =~= out@);
    }
    out
}

/// What each native yields, stated once and used both by the native's own
/// contract and by the dispatcher's.
pub open spec fn pow_outcome(args: Seq<Option<Literal>>, r: Result<Option<Literal>, RuntimeError>) -> bool {
    &&& (match (args[0], args[1]) {
                (Some(Literal::Number(b)), Some(Literal::Number(e))) => (match i64_of_bits(e) {
                    Some(ev) => r == Ok::<Option<Literal>, RuntimeError>(
                        Some(Literal::Number(spec_pow(b, ev as int))),
                    ),
                    None => r is Err,
                }),
                _ => r is Err,
            })
}

pub open spec fn max_outcome(args: Seq<Option<Literal>>, r: Result<Option<Literal>, RuntimeError>) -> bool {
    &&& (match (args[0], args[1]) {
                (Some(Literal::Number(a)), Some(Literal::Number(b))) => r == Ok::<
                    Option<Literal>,
                    RuntimeError,
                >(
                    Some(
                        Literal::Number(
                            if num_lt_bits(b, a) {
                                a
                            } else {
                                b
                            },
                        ),
                    ),
                ),
                _ => r is Err,
            })
}

pub open spec fn min_outcome(args: Seq<Option<Literal>>, r: Result<Option<Literal>, RuntimeError>) -> bool {
    &&& (match (args[0], args[1]) {
                (Some(Literal::Number(a)), Some(Literal::Number(b))) => r == Ok::<
                    Option<Literal>,
                    RuntimeError,
                >(
                    Some(
                        Literal::Number(
                            if num_lt_bits(a, b) {
                                a
                            } else {
                                b
                            },
                        ),
                    ),
                ),
                _ => r is Err,
            })
}

pub open spec fn len_outcome(args: Seq<Option<Literal>>, hp: Heap, r: Result<Option<Literal>, RuntimeError>) -> bool {
    &&& (match args[0] {
                Some(Literal::String(s)) => s@.len() <= u64::MAX ==> r == Ok::<
                    Option<Literal>,
                    RuntimeError,
                >(Some(Literal::Number(bits_of_u64(s@.len() as u64)))),
                Some(Literal::Array(h)) => 0 <= h < hp.arrays@.len() ==> r == Ok::<
                    Option<Literal>,
                    RuntimeError,
                >(
                    Some(
                        Literal::Number(bits_of_u64(hp.arrays@[h as int].elements@.len() as u64)),
                    ),
                ),
                _ => r is Err,
            })
}

pub open spec fn str2num_outcome(args: Seq<Option<Literal>>, r: Result<Option<Literal>, RuntimeError>) -> bool {
    &&& (match args[0] {
                Some(Literal::String(s)) => (match bits_of_str(s@) {
                    Some(b) => r == Ok::<Option<Literal>, RuntimeError>(
                        Some(Literal::Number(b)),
                    ),
                    None => r is Err,
                }),
                _ => r is Err,
            })
}

pub open spec fn str_outcome(args: Seq<Option<Literal>>, hp: Heap, r: Result<Option<Literal>, RuntimeError>) -> bool {
    &&& (match r {
                Ok(v) => v matches Some(l) && l matches Literal::String(s) && s@
                    == spec_display_opt(hp, args[0], 64),
                Err(_) => false,
            })
}

pub open spec fn typeof_outcome(args: Seq<Option<Literal>>, hp: Heap, r: Result<Option<Literal>, RuntimeError>) -> bool {
    &&& (match spec_typeof(hp, args[0]) {
                Some(t) => r matches Ok(v) && v matches Some(l) && l matches Literal::String(s)
                    && s@ == t,
                None => r is Err,
            })
}

pub open spec fn substr_outcome(args: Seq<Option<Literal>>, r: Result<Option<Literal>, RuntimeError>) -> bool {
    &&& (match (args[0], args[1], args[2]) {
                (
                    Some(Literal::String(s)),
                    Some(Literal::Number(st)),
                    Some(Literal::Number(le)),
                ) => (match (int_of_bits(st), int_of_bits(le)) {
                    (Some(a), Some(n)) => if a + n <= s@.len() {
                        r matches Ok(v) && v matches Some(l) && l matches Literal::String(t) && t@
                            == s@.subrange(a as int, a + n)
                    } else {
                        r is Err
                    },
                    _ => r is Err,
                }),
                _ => r is Err,
            })
}

pub open spec fn index_of_outcome(args: Seq<Option<Literal>>, r: Result<Option<Literal>, RuntimeError>) -> bool {
    &&& (match (args[0], args[1]) {
                (Some(Literal::String(s)), Some(Literal::String(n))) => (match r {
                    Ok(v) => v matches Some(l) && l matches Literal::Number(b) && ((exists|i: int|
                        occurs_at(s@, n@, i)) ==> (exists|i: int|
                        #![trigger occurs_at(s@, n@, i)]
                        occurs_at(s@, n@, i) && (forall|j: int| 0 <= j < i ==> !occurs_at(s@, n@, j))
                            && b == bits_of_u64(i as u64))) && (!(exists|i: int|
                        occurs_at(s@, n@, i)) ==> b == neg_bits(bits_of_u64(1))),
                    Err(_) => false,
                }),
                _ => r is Err,
            })
}

pub open spec fn replace_outcome(args: Seq<Option<Literal>>, r: Result<Option<Literal>, RuntimeError>) -> bool {
    &&& (match (args[0], args[1], args[2]) {
                (
                    Some(Literal::String(s)),
                    Some(Literal::String(f)),
                    Some(Literal::String(t)),
                ) => r matches Ok(v) && v matches Some(l) && l matches Literal::String(u) && u@
                    == replaced(s@, f@, t@),
                _ => r is Err,
            })
}

pub open spec fn random_outcome(args: Seq<Option<Literal>>, r: Result<Option<Literal>, RuntimeError>) -> bool {
    &&& (match (args[0], args[1]) {
                (Some(Literal::Number(a)), Some(Literal::Number(b))) => if num_lt_bits(b, a) {
                    r is Err
                } else {
                    r matches Ok(v) && v matches Some(l) && l matches Literal::Number(rb) && (rb
                        == a || (num_le_bits(a, rb) && num_lt_bits(rb, b)))
                },
                _ => r is Err,
            })
}

pub open spec fn random_int_outcome(args: Seq<Option<Literal>>, r: Result<Option<Literal>, RuntimeError>) -> bool {
    &&& (match (args[0], args[1]) {
                (Some(Literal::Number(a)), Some(Literal::Number(b))) => (match (
                    i64_of_bits(a),
                    i64_of_bits(b),
                ) {
                    (Some(x), Some(y)) => if x >= y {
                        r is Err
                    } else {
                        r matches Ok(v) && v matches Some(l) && l matches Literal::Number(rb) && (
                        -0x20_0000_0000_0000i64 <= x && y <= 0x20_0000_0000_0000i64 ==> (
                        exists|n: i64| x <= n < y && i64_of_bits(rb) == Some(n)))
                    },
                    _ => r is Err,
                }),
                _ => r is Err,
            })
}

pub open spec fn push_outcome(args: Seq<Option<Literal>>, pre: Heap, post: Heap, r: Result<Option<Literal>, RuntimeError>) -> bool {
    &&& post.wf()
    &&& post.envs == pre.envs
    &&& post.instances == pre.instances
    &&& post.arrays@.len() >= pre.arrays@.len()
    &&& (match args[0] {
                Some(Literal::Array(h)) => if 0 <= h < pre.arrays@.len() {
                    r == Ok::<Option<Literal>, RuntimeError>(None)
                        && post.arrays@[h as int].elements@.len() == pre.arrays@[h as int].elements@.len() + 1 && opt_like(
                        post.arrays@[h as int].elements@.last(),
                        args[1],
                    )
                } else {
                    r is Err && post == pre
                },
                _ => r is Err && post == pre,
            })
}

pub open spec fn pop_outcome(args: Seq<Option<Literal>>, pre: Heap, post: Heap, r: Result<Option<Literal>, RuntimeError>) -> bool {
    &&& post.wf()
    &&& post.envs == pre.envs
    &&& post.instances == pre.instances
    &&& post.arrays@.len() >= pre.arrays@.len()
    &&& (match args[0] {
                Some(Literal::Array(h)) => if 0 <= h < pre.arrays@.len() {
                    if pre.arrays@[h as int].elements@.len() > 0 {
                        r matches Ok(v) && opt_like(
                            pre.arrays@[h as int].elements@.last(),
                            v,
                        ) && post.arrays@[h as int].elements@ == pre.arrays@[h as int].elements@.drop_last()
                    } else {
                        r == Ok::<Option<Literal>, RuntimeError>(None)
                            && post.arrays@[h as int].elements@ == pre.arrays@[h as int].elements@
                    }
                } else {
                    r is Err && post == pre
                },
                _ => r is Err && post == pre,
            })
}

pub open spec fn slice_outcome(args: Seq<Option<Literal>>, pre: Heap, post: Heap, r: Result<Option<Literal>, RuntimeError>) -> bool {
    &&& post.wf()
    &&& post.envs == pre.envs
    &&& post.instances == pre.instances
    &&& post.arrays@.len() >= pre.arrays@.len()
    &&& (match (args[0], args[1], args[2]) {
                (
                    Some(Literal::Array(h)),
                    Some(Literal::Number(sb)),
                    Some(Literal::Number(eb)),
                ) => (match (int_of_bits(sb), int_of_bits(eb)) {
                    (Some(st), Some(en)) => if 0 <= h < pre.arrays@.len() && st <= en && en
                        <= pre.arrays@[h as int].elements@.len() {
                        r matches Ok(v) && v matches Some(l) && l matches Literal::Array(nh) && nh
                            == pre.arrays@.len() && post.arrays@.len() == pre.arrays@.len() + 1 && post.arrays@[nh as int].elements@.len() == en
                            - st && (forall|t: int|
                            0 <= t < en - st ==> opt_like(
                                pre.arrays@[h as int].elements@[st + t],
                                #[trigger] post.arrays@[nh as int].elements@[t],
                            ))
                    } else {
                        r is Err && post == pre
                    },
                    _ => r is Err && post == pre,
                }),
                _ => r is Err && post == pre,
            })
}

pub open spec fn floor_outcome(args: Seq<Option<Literal>>, r: Result<Option<Literal>, RuntimeError>) -> bool {
    &&& (match args[0] {
                Some(Literal::Number(b)) => r == Ok::<Option<Literal>, RuntimeError>(
                    Some(Literal::Number(round_int_bits(b, 0))),
                ),
                _ => r is Err,
            })
}

pub open spec fn ceil_outcome(args: Seq<Option<Literal>>, r: Result<Option<Literal>, RuntimeError>) -> bool {
    &&& (match args[0] {
                Some(Literal::Number(b)) => r == Ok::<Option<Literal>, RuntimeError>(
                    Some(Literal::Number(round_int_bits(b, 1))),
                ),
                _ => r is Err,
            })
}

pub open spec fn round_outcome(args: Seq<Option<Literal>>, r: Result<Option<Literal>, RuntimeError>) -> bool {
    &&& (match args[0] {
                Some(Literal::Number(b)) => r == Ok::<Option<Literal>, RuntimeError>(
                    Some(Literal::Number(round_int_bits(b, 2))),
                ),
                _ => r is Err,
            })
}

pub open spec fn code_outcome(args: Seq<Option<Literal>>, r: Result<Option<Literal>, RuntimeError>) -> bool {
    &&& (match args[0] {
                Some(Literal::String(s)) => if s@.len() == 1 {
                    r == Ok::<Option<Literal>, RuntimeError>(
                        Some(Literal::Number(bits_of_u64(s@[0] as u64))),
                    )
                } else {
                    r is Err
                },
                _ => r is Err,
            })
}

pub open spec fn array_constructor_outcome(args: Seq<Option<Literal>>, pre: Heap, post: Heap, r: Result<Option<Literal>, RuntimeError>) -> bool {
    &&& post.wf()
    &&& post.envs == pre.envs
    &&& post.instances == pre.instances
    &&& post.arrays@.len() >= pre.arrays@.len()
    &&& (match (args[0], int_of_bits_of(args[0])) {
                (Some(Literal::Number(sb)), Some(n)) => if n <= usize::MAX {
                    r matches Ok(v) && v matches Some(l) && l matches Literal::Array(nh) && nh
                        == pre.arrays@.len() && post.arrays@.len() == pre.arrays@.len() + 1 && post.arrays@[nh as int].elements@.len() == n
                        && (forall|t: int|
                        0 <= t < n ==> opt_like(
                            args[1],
                            #[trigger] post.arrays@[nh as int].elements@[t],
                        ))
                } else {
                    r is Err && post == pre
                },
                _ => r is Err && post == pre,
            })
}

#[derive(Clone, Copy, PartialEq, Eq, Structural, Debug)]
pub enum NativeFn {
    Clock,
    Pow,
    Max,
    Min,
    Len,
    Num,
    Str,
    Typeof,
    Substr,
    IndexOf,
    Replace,
    Random,
    RandomInt,
    Push,
    Pop,
    Slice,
    Floor,
    Ceil,
    Round,
    Code,
    ArrayConstructor,
}

impl NativeFn {
    pub open spec fn index(self) -> int {
        match self {
            NativeFn::Clock => 0,
            NativeFn::Pow => 1,
            NativeFn::Max => 2,
            NativeFn::Min => 3,
            NativeFn::Len => 4,
            NativeFn::Num => 5,
            NativeFn::Str => 6,
            NativeFn::Typeof => 7,
            NativeFn::Substr => 8,
            NativeFn::IndexOf => 9,
            NativeFn::Replace => 10,
            NativeFn::Random => 11,
            NativeFn::RandomInt => 12,
            NativeFn::Push => 13,
            NativeFn::Pop => 14,
            NativeFn::Slice => 15,
            NativeFn::Floor => 16,
            NativeFn::Ceil => 17,
            NativeFn::Round => 18,
            NativeFn::Code => 19,
            NativeFn::ArrayConstructor => 20,
        }
    }

    pub fn index_exec(&self) -> (r: u64)
        ensures
            self.index() == r as int,
    {
        match self {
            NativeFn::Clock => 0,
            NativeFn::Pow => 1,
            NativeFn::Max => 2,
            NativeFn::Min => 3,
            NativeFn::Len => 4,
            NativeFn::Num => 5,
            NativeFn::Str => 6,
            NativeFn::Typeof => 7,
            NativeFn::Substr => 8,
            NativeFn::IndexOf => 9,
            NativeFn::Replace => 10,
            NativeFn::Random => 11,
            NativeFn::RandomInt => 12,
            NativeFn::Push => 13,
            NativeFn::Pop => 14,
            NativeFn::Slice => 15,
            NativeFn::Floor => 16,
            NativeFn::Ceil => 17,
            NativeFn::Round => 18,
            NativeFn::Code => 19,
            NativeFn::ArrayConstructor => 20,
        }
    }

    pub open spec fn display_name(self) -> Seq<char> {
        match self {
            NativeFn::Clock => "<native amal clock>"@,
            NativeFn::Pow => "<native amal pow(base, exp)>"@,
            NativeFn::Max => "<native amal max(a, b)>"@,
            NativeFn::Min => "<native amal min(a, b)>"@,
            NativeFn::Len => "<native amal len(arg)>"@,
            NativeFn::Num => "<native amal str2num(arg)>"@,
            NativeFn::Str => "<native amal str(arg)>"@,
            NativeFn::Typeof => "<native amal typeof(arg)>"@,
            NativeFn::Substr => "<native amal substr(arg, start, length)>"@,
            NativeFn::IndexOf => "<native amal index_of(arg, substring)>"@,
            NativeFn::Replace => "<native amal replace(arg, old_substr, new_substr)>"@,
            NativeFn::Random => "<native amal random(min, max)>"@,
            NativeFn::RandomInt => "<native amal random_int(min, max)>"@,
            NativeFn::Push => "<native amal push(arr, val)>"@,
            NativeFn::Pop => "<native amal pop(arr)>"@,
            NativeFn::Slice => "<native amal slice(arr, start, end)>"@,
            NativeFn::Floor => "<native amal floor(num)>"@,
            NativeFn::Ceil => "<native amal ceil(num)>"@,
            NativeFn::Round => "<native amal round(num)>"@,
            NativeFn::Code => "<native amal code(char)>"@,
            NativeFn::ArrayConstructor => "<native amal Array(size, value)>"@,
        }
    }

    pub fn display_name_exec(&self) -> (r: String)
        ensures
            r@ == self.display_name(),
    {
        match self {
            NativeFn::Clock => String::from_str("<native amal clock>"),
            NativeFn::Pow => String::from_str("<native amal pow(base, exp)>"),
            NativeFn::Max => String::from_str("<native amal max(a, b)>"),
            NativeFn::Min => String::from_str("<native amal min(a, b)>"),
            NativeFn::Len => String::from_str("<native amal len(arg)>"),
            NativeFn::Num => String::from_str("<native amal str2num(arg)>"),
            NativeFn::Str => String::from_str("<native amal str(arg)>"),
            NativeFn::Typeof => String::from_str("<native amal typeof(arg)>"),
            NativeFn::Substr => String::from_str("<native amal substr(arg, start, length)>"),
            NativeFn::IndexOf => String::from_str("<native amal index_of(arg, substring)>"),
            NativeFn::Replace => String::from_str(
                "<native amal replace(arg, old_substr, new_substr)>",
            ),
            NativeFn::Random => String::from_str("<native amal random(min, max)>"),
            NativeFn::RandomInt => String::from_str("<native amal random_int(min, max)>"),
            NativeFn::Push => String::from_str("<native amal push(arr, val)>"),
            NativeFn::Pop => String::from_str("<native amal pop(arr)>"),
            NativeFn::Slice => String::from_str("<native amal slice(arr, start, end)>"),
            NativeFn::Floor => String::from_str("<native amal floor(num)>"),
            NativeFn::Ceil => String::from_str("<native amal ceil(num)>"),
            NativeFn::Round => String::from_str("<native amal round(num)>"),
            NativeFn::Code => String::from_str("<native amal code(char)>"),
            NativeFn::ArrayConstructor => String::from_str("<native amal Array(size, value)>"),
        }
    }

    pub open spec fn arity_spec(self) -> int {
        match self {
            NativeFn::Clock => 0,
            NativeFn::Pow => 2,
            NativeFn::Max => 2,
            NativeFn::Min => 2,
            NativeFn::Len => 1,
            NativeFn::Num => 1,
            NativeFn::Str => 1,
            NativeFn::Typeof => 1,
            NativeFn::Substr => 3,
            NativeFn::IndexOf => 2,
            NativeFn::Replace => 3,
            NativeFn::Random => 2,
            NativeFn::RandomInt => 2,
            NativeFn::Push => 2,
            NativeFn::Pop => 1,
            NativeFn::Slice => 3,
            NativeFn::Floor => 1,
            NativeFn::Ceil => 1,
            NativeFn::Round => 1,
            NativeFn::Code => 1,
            NativeFn::ArrayConstructor => 2,
        }
    }

    pub fn arity(&self) -> (r: usize)
        ensures
            r as int == self.arity_spec(),
    {
        match self {
            NativeFn::Clock => 0,
            NativeFn::Pow => 2,
            NativeFn::Max => 2,
            NativeFn::Min => 2,
            NativeFn::Len => 1,
            NativeFn::Num => 1,
            NativeFn::Str => 1,
            NativeFn::Typeof => 1,
            NativeFn::Substr => 3,
            NativeFn::IndexOf => 2,
            NativeFn::Replace => 3,
            NativeFn::Random => 2,
            NativeFn::RandomInt => 2,
            NativeFn::Push => 2,
            NativeFn::Pop => 1,
            NativeFn::Slice => 3,
            NativeFn::Floor => 1,
            NativeFn::Ceil => 1,
            NativeFn::Round => 1,
            NativeFn::Code => 1,
            NativeFn::ArrayConstructor => 2,
        }
    }
}

/// What exponentiation yields: squaring under the rounded multiplication,
/// and the reciprocal for a negative exponent.
pub open spec fn spec_pow(b: u64, e: int) -> u64 {
    if e >= 0 {
        pow_sq_bits(ONE_BITS, b, e as u64)
    } else {
        div_bits(ONE_BITS, pow_sq_bits(ONE_BITS, b, (-e) as u64))
    }
}

/// What `typeof` answers, or nothing where an instance handle is stale.
pub open spec fn spec_typeof(h: Heap, v: Option<Literal>) -> Option<Seq<char>> {
    match v {
        None => Some("ghaib"@),
        Some(Literal::Bool(_)) => Some("bool"@),
        Some(Literal::Number(_)) => Some("number"@),
        Some(Literal::String(_)) => Some("string"@),
        Some(Literal::Callable(_)) => Some("amal"@),
        Some(Literal::Array(_)) => Some("array"@),
        Some(Literal::Instance(i)) => if 0 <= i < h.instances@.len() {
            Some(h.instances@[i as int].class.name@)
        } else {
            None
        },
    }
}

fn type_error(kind: NativeFn, paren: &Token, what: &str) -> (r: RuntimeError) {
    let mut m = kind.display_name_exec();
    m.append(what);
    RuntimeError::init(paren, m)
}

fn plain_error(paren: &Token, what: &str) -> (r: RuntimeError) {
    RuntimeError::init(paren, String::from_str(what))
}

pub struct ClockFn {}

impl ClockFn {
    pub fn init() -> (r: Self) {
        ClockFn {}
    }

    pub fn arity(&self) -> (r: usize)
        ensures
            r == 0,
    {
        0
    }

    pub fn to_string(&self) -> (r: String)
        ensures
            r@ == NativeFn::Clock.display_name(),
    {
        NativeFn::Clock.display_name_exec()
    }

    /// Seconds since the epoch by the system clock; always a number.
    pub fn call(&self) -> (r: Option<Literal>)
        ensures
            r matches Some(Literal::Number(_)),
    {
        let ms = clock_millis();
        Some(Literal::Number(num_div(num_from_u64(ms), num_from_u64(1000))))
    }
}

pub struct PowFn {}

impl PowFn {
    pub fn init() -> (r: Self) {
        PowFn {}
    }

    pub fn arity(&self) -> (r: usize)
        ensures
            r == 2,
    {
        2
    }

    pub fn to_string(&self) -> (r: String)
        ensures
            r@ == NativeFn::Pow.display_name(),
    {
        NativeFn::Pow.display_name_exec()
    }

    pub fn call(&self, args: &Vec<Option<Literal>>, paren: &Token) -> (r: Result<
        Option<Literal>,
        RuntimeError,
    >)
        requires
            args@.len() == 2,
        ensures
            pow_outcome(args@, r),

    {
        match (&args[0], &args[1]) {
            (Some(Literal::Number(b)), Some(Literal::Number(e))) => {
                match num_to_i64(*e) {
                    Some(ev) => {
                        if ev >= 0 {
                            Ok(Some(Literal::Number(num_pow_int(*b, ev as u64))))
                        } else {
                            let mag = (-(ev as i128)) as u64;
                            Ok(Some(Literal::Number(num_div(ONE_BITS, num_pow_int(*b, mag)))))
                        }
                    },
                    None => Err(plain_error(paren, "exponent must be an integer!")),
                }
            },
            _ => Err(type_error(NativeFn::Pow, paren, " must be called with number types!")),
        }
    }
}

pub struct MaxFn {}

impl MaxFn {
    pub fn init() -> (r: Self) {
        MaxFn {}
    }

    pub fn arity(&self) -> (r: usize)
        ensures
            r == 2,
    {
        2
    }

    pub fn to_string(&self) -> (r: String)
        ensures
            r@ == NativeFn::Max.display_name(),
    {
        NativeFn::Max.display_name_exec()
    }

    pub fn call(&self, args: &Vec<Option<Literal>>, paren: &Token) -> (r: Result<
        Option<Literal>,
        RuntimeError,
    >)
        requires
            args@.len() == 2,
        ensures
            max_outcome(args@, r),

    {
        match (&args[0], &args[1]) {
            (Some(Literal::Number(a)), Some(Literal::Number(b))) => {
                if num_lt(*b, *a) {
                    Ok(Some(Literal::Number(*a)))
                } else {
                    Ok(Some(Literal::Number(*b)))
                }
            },
            _ => Err(type_error(NativeFn::Max, paren, " must be called with number types!")),
        }
    }
}

pub struct MinFn {}

impl MinFn {
    pub fn init() -> (r: Self) {
        MinFn {}
    }

    pub fn arity(&self) -> (r: usize)
        ensures
            r == 2,
    {
        2
    }

    pub fn to_string(&self) -> (r: String)
        ensures
            r@ == NativeFn::Min.display_name(),
    {
        NativeFn::Min.display_name_exec()
    }

    pub fn call(&self, args: &Vec<Option<Literal>>, paren: &Token) -> (r: Result<
        Option<Literal>,
        RuntimeError,
    >)
        requires
            args@.len() == 2,
        ensures
            min_outcome(args@, r),

    {
        match (&args[0], &args[1]) {
            (Some(Literal::Number(a)), Some(Literal::Number(b))) => {
                if num_lt(*a, *b) {
                    Ok(Some(Literal::Number(*a)))
                } else {
                    Ok(Some(Literal::Number(*b)))
                }
            },
            _ => Err(type_error(NativeFn::Min, paren, " must be called with number types!")),
        }
    }
}

pub struct LenFn {}

impl LenFn {
    pub fn init() -> (r: Self) {
        LenFn {}
    }

    pub fn arity(&self) -> (r: usize)
        ensures
            r == 1,
    {
        1
    }

    pub fn to_string(&self) -> (r: String)
        ensures
            r@ == NativeFn::Len.display_name(),
    {
        NativeFn::Len.display_name_exec()
    }

    /// The length of a string in characters, or of an array in elements.
    pub fn call(&self, args: &Vec<Option<Literal>>, heap: &Heap, paren: &Token) -> (r: Result<
        Option<Literal>,
        RuntimeError,
    >)
        requires
            args@.len() == 1,
        ensures
            len_outcome(args@, *heap, r),

    {
        match &args[0] {
            Some(Literal::String(s)) => {
                let n = s.as_str().unicode_len();
                Ok(Some(Literal::Number(num_from_u64(n as u64))))
            },
            Some(Literal::Array(h)) => {
                if *h < heap.arrays.len() {
                    let n = heap.array_len(*h);
                    Ok(Some(Literal::Number(num_from_u64(n as u64))))
                } else {
                    Err(plain_error(paren, "invalid array handle!"))
                }
            },
            _ => Err(
                type_error(NativeFn::Len, paren, " must be called with string or array type!"),
            ),
        }
    }
}

pub struct NumFn {}

impl NumFn {
    pub fn init() -> (r: Self) {
        NumFn {}
    }

    pub fn arity(&self) -> (r: usize)
        ensures
            r == 1,
    {
        1
    }

    pub fn to_string(&self) -> (r: String)
        ensures
            r@ == NativeFn::Num.display_name(),
    {
        NativeFn::Num.display_name_exec()
    }

    /// Parses a string to a number; an unparsable text is an error.
    pub fn call(&self, args: &Vec<Option<Literal>>, paren: &Token) -> (r: Result<
        Option<Literal>,
        RuntimeError,
    >)
        requires
            args@.len() == 1,
        ensures
            str2num_outcome(args@, r),

    {
        match &args[0] {
            Some(Literal::String(s)) => {
                match num_parse(s.as_str()) {
                    Some(b) => Ok(Some(Literal::Number(b))),
                    None => {
                        let mut m = String::from_str("Cannot convert \"");
                        m.append(s.as_str());
                        m.append("\" to number.");
                        Err(RuntimeError::init(paren, m))
                    },
                }
            },
            _ => Err(type_error(NativeFn::Num, paren, " must be called with string type.")),
        }
    }
}

pub struct StrFn {}

impl StrFn {
    pub fn init() -> (r: Self) {
        StrFn {}
    }

    pub fn arity(&self) -> (r: usize)
        ensures
            r == 1,
    {
        1
    }

    pub fn to_string(&self) -> (r: String)
        ensures
            r@ == NativeFn::Str.display_name(),
    {
        NativeFn::Str.display_name_exec()
    }

    /// The display text of any value, as `qul` would print it.
    pub fn call(&self, args: &Vec<Option<Literal>>, heap: &Heap) -> (r: Result<
        Option<Literal>,
        RuntimeError,
    >)
        requires
            args@.len() == 1,
        ensures
            str_outcome(args@, *heap, r),

    {
        Ok(Some(Literal::String(display_opt(heap, &args[0], 64))))
    }
}

pub struct TypeofFn {}

impl TypeofFn {
    pub fn init() -> (r: Self) {
        TypeofFn {}
    }

    pub fn arity(&self) -> (r: usize)
        ensures
            r == 1,
    {
        1
    }

    pub fn to_string(&self) -> (r: String)
        ensures
            r@ == NativeFn::Typeof.display_name(),
    {
        NativeFn::Typeof.display_name_exec()
    }

    pub fn call(&self, args: &Vec<Option<Literal>>, heap: &Heap, paren: &Token) -> (r: Result<
        Option<Literal>,
        RuntimeError,
    >)
        requires
            args@.len() == 1,
        ensures
            typeof_outcome(args@, *heap, r),

    {
        match &args[0] {
            None => Ok(Some(Literal::String(String::from_str("ghaib")))),
            Some(Literal::Bool(_)) => Ok(Some(Literal::String(String::from_str("bool")))),
            Some(Literal::Number(_)) => Ok(Some(Literal::String(String::from_str("number")))),
            Some(Literal::String(_)) => Ok(Some(Literal::String(String::from_str("string")))),
            Some(Literal::Callable(_)) => Ok(Some(Literal::String(String::from_str("amal")))),
            Some(Literal::Array(_)) => Ok(Some(Literal::String(String::from_str("array")))),
            Some(Literal::Instance(i)) => {
                if *i < heap.instances.len() {
                    Ok(Some(Literal::String(heap.instances[*i].class.name.clone())))
                } else {
                    Err(plain_error(paren, "invalid instance handle!"))
                }
            },
        }
    }
}

pub struct SubstrFn {}

impl SubstrFn {
    pub fn init() -> (r: Self) {
        SubstrFn {}
    }

    pub fn arity(&self) -> (r: usize)
        ensures
            r == 3,
    {
        3
    }

    pub fn to_string(&self) -> (r: String)
        ensures
            r@ == NativeFn::Substr.display_name(),
    {
        NativeFn::Substr.display_name_exec()
    }

    /// The substring of the given start and length, counted in characters
    /// and checked against the bounds.
    pub fn call(&self, args: &Vec<Option<Literal>>, paren: &Token) -> (r: Result<
        Option<Literal>,
        RuntimeError,
    >)
        requires
            args@.len() == 3,
        ensures
            substr_outcome(args@, r),

    {
        match (&args[0], &args[1], &args[2]) {
            (Some(Literal::String(s)), Some(Literal::Number(st)), Some(Literal::Number(le))) => {
                let a = match num_to_u64(*st) {
                    Some(a) => a,
                    None => {
                        return Err(plain_error(paren, "'start' must be a positive integer!"));
                    },
                };
                let n = match num_to_u64(*le) {
                    Some(n) => n,
                    None => {
                        return Err(plain_error(paren, "'length' must be a positive integer!"));
                    },
                };
                let cs = s.as_str();
                let total = cs.unicode_len();
                if a > total as u64 || n > total as u64 - a {
                    return Err(plain_error(paren, "'start' and 'length' are out of range!"));
                }
                let sub = cs.substring_char(a as usize, (a + n) as usize);
                Ok(Some(Literal::String(String::from_str(sub))))
            },
            _ => Err(plain_error(paren, "'arg' must be a string and the rest numbers!")),
        }
    }
}

pub struct IndexOfFn {}

impl IndexOfFn {
    pub fn init() -> (r: Self) {
        IndexOfFn {}
    }

    pub fn arity(&self) -> (r: usize)
        ensures
            r == 2,
    {
        2
    }

    pub fn to_string(&self) -> (r: String)
        ensures
            r@ == NativeFn::IndexOf.display_name(),
    {
        NativeFn::IndexOf.display_name_exec()
    }

    /// The first character position of the substring, or -1 where it does
    /// not occur.
    pub fn call(&self, args: &Vec<Option<Literal>>, paren: &Token) -> (r: Result<
        Option<Literal>,
        RuntimeError,
    >)
        requires
            args@.len() == 2,
        ensures
            index_of_outcome(args@, r),

    {
        match (&args[0], &args[1]) {
            (Some(Literal::String(s)), Some(Literal::String(n))) => {
                let sc = string_to_chars(s.as_str());
                let nc = string_to_chars(n.as_str());
                match find_substring(&sc, &nc) {
                    Some(i) => Ok(Some(Literal::Number(num_from_u64(i as u64)))),
                    None => Ok(Some(Literal::Number(num_neg(num_from_u64(1))))),
                }
            },
            _ => Err(plain_error(paren, "'arg' and 'substring' must be strings!")),
        }
    }
}

pub struct ReplaceFn {}

impl ReplaceFn {
    pub fn init() -> (r: Self) {
        ReplaceFn {}
    }

    pub fn arity(&self) -> (r: usize)
        ensures
            r == 3,
    {
        3
    }

    pub fn to_string(&self) -> (r: String)
        ensures
            r@ == NativeFn::Replace.display_name(),
    {
        NativeFn::Replace.display_name_exec()
    }

    /// The text with every occurrence of the old substring replaced by the
    /// new one.
    pub fn call(&self, args: &Vec<Option<Literal>>, paren: &Token) -> (r: Result<
        Option<Literal>,
        RuntimeError,
    >)
        requires
            args@.len() == 3,
        ensures
            replace_outcome(args@, r),

    {
        match (&args[0], &args[1], &args[2]) {
            (Some(Literal::String(s)), Some(Literal::String(f)), Some(Literal::String(t))) => {
                let sc = string_to_chars(s.as_str());
                let fc = string_to_chars(f.as_str());
                let tc = string_to_chars(t.as_str());
                let out = replace_chars(&sc, &fc, &tc);
                Ok(Some(Literal::String(chars_to_string(&out))))
            },
            _ => Err(plain_error(paren, "All arguments must be strings!")),
        }
    }
}

pub struct RandomFn {}

impl RandomFn {
    pub fn init() -> (r: Self) {
        RandomFn {}
    }

    pub fn arity(&self) -> (r: usize)
        ensures
            r == 2,
    {
        2
    }

    pub fn to_string(&self) -> (r: String)
        ensures
            r@ == NativeFn::Random.display_name(),
    {
        NativeFn::Random.display_name_exec()
    }

    /// A number drawn between the bounds: every outcome lies in the
    /// half-open range (a draw the rounding pushed outside collapses to the
    /// lower bound, which also answers equal bounds, where the range is
    /// empty).
    pub fn call(&self, args: &Vec<Option<Literal>>, paren: &Token) -> (r: Result<
        Option<Literal>,
        RuntimeError,
    >)
        requires
            args@.len() == 2,
        ensures
            random_outcome(args@, r),

    {
        match (&args[0], &args[1]) {
            (Some(Literal::Number(a)), Some(Literal::Number(b))) => {
                if num_lt(*b, *a) {
                    Err(plain_error(paren, "'max' must be greater than or equal to 'min'"))
                } else {
                    let d = rand_u64() >> 11;
                    let unit = num_div(num_from_u64(d), num_from_u64(1u64 << 53));
                    let span = num_sub(*b, *a);
                    let draw = num_add(*a, num_mul(unit, span));
                    if num_le(*a, draw) && num_lt(draw, *b) {
                        Ok(Some(Literal::Number(draw)))
                    } else {
                        Ok(Some(Literal::Number(*a)))
                    }
                }
            },
            _ => Err(plain_error(paren, "All arguments must be numbers!")),
        }
    }
}

pub struct RandomIntFn {}

impl RandomIntFn {
    pub fn init() -> (r: Self) {
        RandomIntFn {}
    }

    pub fn arity(&self) -> (r: usize)
        ensures
            r == 2,
    {
        2
    }

    pub fn to_string(&self) -> (r: String)
        ensures
            r@ == NativeFn::RandomInt.display_name(),
    {
        NativeFn::RandomInt.display_name_exec()
    }

    /// An integer drawn from the half-open range; for bounds within the
    /// window doubles represent exactly, every outcome reads back as an
    /// integer in that range.
    pub fn call(&self, args: &Vec<Option<Literal>>, paren: &Token) -> (r: Result<
        Option<Literal>,
        RuntimeError,
    >)
        requires
            args@.len() == 2,
        ensures
            random_int_outcome(args@, r),

    {
        match (&args[0], &args[1]) {
            (Some(Literal::Number(a)), Some(Literal::Number(b))) => {
                let x = match num_to_i64(*a) {
                    Some(x) => x,
                    None => {
                        return Err(plain_error(paren, "'min' must be an integer!"));
                    },
                };
                let y = match num_to_i64(*b) {
                    Some(y) => y,
                    None => {
                        return Err(plain_error(paren, "'max' must be an integer!"));
                    },
                };
                if x >= y {
                    return Err(
                        plain_error(paren, "'max' must be greater than or equal to 'min'"),
                    );
                }
                let span = ((y as i128) - (x as i128)) as u64;
                let d = rand_below(span);
                let v = (x as i128) + (d as i128);
                if v < 0 {
                    let m = (-v) as u64;
                    let bits = num_from_u64(m);
                    let rb = num_neg(bits);
                    proof {
                        crate::num::lemma_neg_bits_parts(bits);
                        crate::num::lemma_nonneg_mag(bits);
                        if -0x20_0000_0000_0000i64 <= x && y <= 0x20_0000_0000_0000i64 {
                            assert(m <= 0x20_0000_0000_0000u64);
                            assert(int_of_bits(bits) == Some(m));
                            assert(mag_bits(rb) == bits);
                            assert(is_neg_bits(rb));
                            assert(i64_of_bits(rb) == Some(v as i64));
                        }
                    }
                    Ok(Some(Literal::Number(rb)))
                } else {
                    let rb = num_from_u64(v as u64);
                    proof {
                        crate::num::lemma_nonneg_mag(rb);
                        if -0x20_0000_0000_0000i64 <= x && y <= 0x20_0000_0000_0000i64 {
                            assert(v as u64 <= 0x20_0000_0000_0000u64);
                            assert(int_of_bits(rb) == Some(v as u64));
                            assert(mag_bits(rb) == rb);
                            assert(i64_of_bits(rb) == Some(v as i64));
                        }
                    }
                    Ok(Some(Literal::Number(rb)))
                }
            },
            _ => Err(plain_error(paren, "All arguments must be numbers!")),
        }
    }
}

pub struct PushFn {}

impl PushFn {
    pub fn init() -> (r: Self) {
        PushFn {}
    }

    pub fn arity(&self) -> (r: usize)
        ensures
            r == 2,
    {
        2
    }

    pub fn to_string(&self) -> (r: String)
        ensures
            r@ == NativeFn::Push.display_name(),
    {
        NativeFn::Push.display_name_exec()
    }

    /// Appends the value to the array behind the handle and yields `ghaib`.
    pub fn call(&self, args: &Vec<Option<Literal>>, heap: &mut Heap, paren: &Token) -> (r: Result<
        Option<Literal>,
        RuntimeError,
    >)
        requires
            args@.len() == 2,
            old(heap).wf(),
        ensures
            push_outcome(args@, *old(heap), *final(heap), r),

    {
        match &args[0] {
            Some(Literal::Array(h)) => {
                if *h < heap.arrays.len() {
                    let v = opt_dup(&args[1]);
                    proof {
                        crate::literal::lemma_opt_like_sym(args@[1], v);
                    }
                    heap.array_push(*h, v);
                    Ok(None)
                } else {
                    Err(plain_error(paren, "invalid array handle!"))
                }
            },
            _ => Err(plain_error(paren, "'arr' must be an array!")),
        }
    }
}

pub struct PopFn {}

impl PopFn {
    pub fn init() -> (r: Self) {
        PopFn {}
    }

    pub fn arity(&self) -> (r: usize)
        ensures
            r == 1,
    {
        1
    }

    pub fn to_string(&self) -> (r: String)
        ensures
            r@ == NativeFn::Pop.display_name(),
    {
        NativeFn::Pop.display_name_exec()
    }

    /// Removes and yields the last element; an empty array yields `ghaib`.
    pub fn call(&self, args: &Vec<Option<Literal>>, heap: &mut Heap, paren: &Token) -> (r: Result<
        Option<Literal>,
        RuntimeError,
    >)
        requires
            args@.len() == 1,
            old(heap).wf(),
        ensures
            pop_outcome(args@, *old(heap), *final(heap), r),

    {
        match &args[0] {
            Some(Literal::Array(h)) => {
                if *h < heap.arrays.len() {
                    match heap.array_pop(*h) {
                        Some(v) => Ok(v),
                        None => Ok(None),
                    }
                } else {
                    Err(plain_error(paren, "invalid array handle!"))
                }
            },
            _ => Err(plain_error(paren, "'arr' must be an array!")),
        }
    }
}

pub struct SliceFn {}

impl SliceFn {
    pub fn init() -> (r: Self) {
        SliceFn {}
    }

    pub fn arity(&self) -> (r: usize)
        ensures
            r == 3,
    {
        3
    }

    pub fn to_string(&self) -> (r: String)
        ensures
            r@ == NativeFn::Slice.display_name(),
    {
        NativeFn::Slice.display_name_exec()
    }

    /// A fresh array holding the elements from `start` up to `end`.
    pub fn call(&self, args: &Vec<Option<Literal>>, heap: &mut Heap, paren: &Token) -> (r: Result<
        Option<Literal>,
        RuntimeError,
    >)
        requires
            args@.len() == 3,
            old(heap).wf(),
        ensures
            slice_outcome(args@, *old(heap), *final(heap), r),

    {
        match (&args[0], &args[1], &args[2]) {
            (Some(Literal::Array(h)), Some(Literal::Number(sb)), Some(Literal::Number(eb))) => {
                let st = match num_to_u64(*sb) {
                    Some(v) => v,
                    None => {
                        return Err(plain_error(paren, "'start' must be a positive integer!"));
                    },
                };
                let en = match num_to_u64(*eb) {
                    Some(v) => v,
                    None => {
                        return Err(plain_error(paren, "'end' must be a positive integer!"));
                    },
                };
                if *h >= heap.arrays.len() {
                    return Err(plain_error(paren, "invalid array handle!"));
                }
                if en < st {
                    return Err(
                        plain_error(paren, "'end' must be greater than or equal to 'start'."),
                    );
                }
                let total = heap.array_len(*h);
                if en > total as u64 {
                    return Err(plain_error(paren, "'end' is out of range!"));
                }
                let mut elems: Vec<Option<Literal>> = Vec::new();
                let mut k: usize = st as usize;
                while k < en as usize
                    invariant
                        heap.wf(),
                        *h < heap.arrays@.len(),
                        st <= k <= en,
                        en <= heap.arrays@[*h as int].elements@.len(),
                        elems@.len() == k - st,
                        forall|t: int|
                            0 <= t < k - st ==> opt_like(
                                heap.arrays@[*h as int].elements@[st + t],
                                #[trigger] elems@[t],
                            ),
                    decreases en - k,
                {
                    let v = heap.array_get(*h, k);
                    elems.push(v);
                    k = k + 1;
                }
                let nh = heap.alloc_array(crate::literal::QalamArray::from_vec(elems));
                Ok(Some(Literal::Array(nh)))
            },
            _ => Err(plain_error(paren, "'arr' must be an array and the rest numbers!")),
        }
    }
}

pub struct FloorFn {}

impl FloorFn {
    pub fn init() -> (r: Self) {
        FloorFn {}
    }

    pub fn arity(&self) -> (r: usize)
        ensures
            r == 1,
    {
        1
    }

    pub fn to_string(&self) -> (r: String)
        ensures
            r@ == NativeFn::Floor.display_name(),
    {
        NativeFn::Floor.display_name_exec()
    }

    pub fn call(&self, args: &Vec<Option<Literal>>, paren: &Token) -> (r: Result<
        Option<Literal>,
        RuntimeError,
    >)
        requires
            args@.len() == 1,
        ensures
            floor_outcome(args@, r),

    {
        match &args[0] {
            Some(Literal::Number(b)) => Ok(Some(Literal::Number(num_round_int(*b, 0)))),
            _ => Err(plain_error(paren, "'num' must be a number!")),
        }
    }
}

pub struct CeilFn {}

impl CeilFn {
    pub fn init() -> (r: Self) {
        CeilFn {}
    }

    pub fn arity(&self) -> (r: usize)
        ensures
            r == 1,
    {
        1
    }

    pub fn to_string(&self) -> (r: String)
        ensures
            r@ == NativeFn::Ceil.display_name(),
    {
        NativeFn::Ceil.display_name_exec()
    }

    pub fn call(&self, args: &Vec<Option<Literal>>, paren: &Token) -> (r: Result<
        Option<Literal>,
        RuntimeError,
    >)
        requires
            args@.len() == 1,
        ensures
            ceil_outcome(args@, r),

    {
        match &args[0] {
            Some(Literal::Number(b)) => Ok(Some(Literal::Number(num_round_int(*b, 1)))),
            _ => Err(plain_error(paren, "'num' must be a number!")),
        }
    }
}

pub struct RoundFn {}

impl RoundFn {
    pub fn init() -> (r: Self) {
        RoundFn {}
    }

    pub fn arity(&self) -> (r: usize)
        ensures
            r == 1,
    {
        1
    }

    pub fn to_string(&self) -> (r: String)
        ensures
            r@ == NativeFn::Round.display_name(),
    {
        NativeFn::Round.display_name_exec()
    }

    pub fn call(&self, args: &Vec<Option<Literal>>, paren: &Token) -> (r: Result<
        Option<Literal>,
        RuntimeError,
    >)
        requires
            args@.len() == 1,
        ensures
            round_outcome(args@, r),

    {
        match &args[0] {
            Some(Literal::Number(b)) => Ok(Some(Literal::Number(num_round_int(*b, 2)))),
            _ => Err(plain_error(paren, "'num' must be a number!")),
        }
    }
}

pub struct CodeFn {}

impl CodeFn {
    pub fn init() -> (r: Self) {
        CodeFn {}
    }

    pub fn arity(&self) -> (r: usize)
        ensures
            r == 1,
    {
        1
    }

    pub fn to_string(&self) -> (r: String)
        ensures
            r@ == NativeFn::Code.display_name(),
    {
        NativeFn::Code.display_name_exec()
    }

    /// The code point of a one-character string, as a number.
    pub fn call(&self, args: &Vec<Option<Literal>>, paren: &Token) -> (r: Result<
        Option<Literal>,
        RuntimeError,
    >)
        requires
            args@.len() == 1,
        ensures
            code_outcome(args@, r),

    {
        match &args[0] {
            Some(Literal::String(s)) => {
                let cs = s.as_str();
                if cs.unicode_len() != 1 {
                    return Err(plain_error(paren, "'char' must be a single character!"));
                }
                let c = cs.get_char(0);
                Ok(Some(Literal::Number(num_from_u64(c as u64))))
            },
            _ => Err(plain_error(paren, "'char' must be a string!")),
        }
    }
}

pub struct ArrayConstructorFn {}

impl ArrayConstructorFn {
    pub fn init() -> (r: Self) {
        ArrayConstructorFn {}
    }

    pub fn arity(&self) -> (r: usize)
        ensures
            r == 2,
    {
        2
    }

    pub fn to_string(&self) -> (r: String)
        ensures
            r@ == NativeFn::ArrayConstructor.display_name(),
    {
        NativeFn::ArrayConstructor.display_name_exec()
    }

    /// A fresh array of the given size, every slot holding the fill value.
    pub fn call(&self, args: &Vec<Option<Literal>>, heap: &mut Heap, paren: &Token) -> (r: Result<
        Option<Literal>,
        RuntimeError,
    >)
        requires
            args@.len() == 2,
            old(heap).wf(),
        ensures
            array_constructor_outcome(args@, *old(heap), *final(heap), r),

    {
        match &args[0] {
            Some(Literal::Number(sb)) => {
                let n = match num_to_u64(*sb) {
                    Some(v) => v,
                    None => {
                        return Err(plain_error(paren, "'size' must be a positive integer!"));
                    },
                };
                if n > usize::MAX as u64 {
                    return Err(plain_error(paren, "'size' is too large!"));
                }
                let size = n as usize;
                let mut elems: Vec<Option<Literal>> = Vec::new();
                let mut k: usize = 0;
                while k < size
                    invariant
                        k <= size,
                        elems@.len() == k,
                        forall|t: int| 0 <= t < k ==> opt_like(args@[1], #[trigger] elems@[t]),
                        args@.len() == 2,
                    decreases size - k,
                {
                    let v = opt_dup(&args[1]);
                    proof {
                        crate::literal::lemma_opt_like_sym(args@[1], v);
                    }
                    let v2 = opt_dup(&args[1]);
                    elems.push(v2);
                    k = k + 1;
                }
                let nh = heap.alloc_array(crate::literal::QalamArray::from_vec(elems));
                Ok(Some(Literal::Array(nh)))
            },
            _ => Err(plain_error(paren, "'size' must be a number!")),
        }
    }
}

/// The integer a number argument denotes, where the argument is a number.
pub open spec fn int_of_bits_of(v: Option<Literal>) -> Option<u64> {
    match v {
        Some(Literal::Number(b)) => int_of_bits(b),
        _ => None,
    }
}

impl NativeFn {
    /// Dispatches to the one native this value names. The environments and
    /// instances are untouched; only arrays can be created or changed.
    pub fn call(&self, args: &Vec<Option<Literal>>, heap: &mut Heap, paren: &Token) -> (r: Result<
        Option<Literal>,
        RuntimeError,
    >)
        requires
            args@.len() == self.arity_spec(),
            old(heap).wf(),
        ensures
            final(heap).wf(),
            final(heap).envs == old(heap).envs,
            final(heap).instances == old(heap).instances,
            final(heap).arrays@.len() >= old(heap).arrays@.len(),
            self == NativeFn::Clock ==> (r matches Ok(v) && v matches Some(l)
                && l matches Literal::Number(_)),
            self == NativeFn::Pow ==> pow_outcome(args@, r),
            self == NativeFn::Max ==> max_outcome(args@, r),
            self == NativeFn::Min ==> min_outcome(args@, r),
            self == NativeFn::Len ==> len_outcome(args@, *old(heap), r),
            self == NativeFn::Num ==> str2num_outcome(args@, r),
            self == NativeFn::Str ==> str_outcome(args@, *old(heap), r),
            self == NativeFn::Typeof ==> typeof_outcome(args@, *old(heap), r),
            self == NativeFn::Substr ==> substr_outcome(args@, r),
            self == NativeFn::IndexOf ==> index_of_outcome(args@, r),
            self == NativeFn::Replace ==> replace_outcome(args@, r),
            self == NativeFn::Random ==> random_outcome(args@, r),
            self == NativeFn::RandomInt ==> random_int_outcome(args@, r),
            self == NativeFn::Push ==> push_outcome(args@, *old(heap), *final(heap), r),
            self == NativeFn::Pop ==> pop_outcome(args@, *old(heap), *final(heap), r),
            self == NativeFn::Slice ==> slice_outcome(args@, *old(heap), *final(heap), r),
            self == NativeFn::Floor ==> floor_outcome(args@, r),
            self == NativeFn::Ceil ==> ceil_outcome(args@, r),
            self == NativeFn::Round ==> round_outcome(args@, r),
            self == NativeFn::Code ==> code_outcome(args@, r),
            self == NativeFn::ArrayConstructor ==> array_constructor_outcome(args@, *old(heap), *final(heap), r),
    {
        match self {
            NativeFn::Clock => Ok(ClockFn::init().call()),
            NativeFn::Pow => PowFn::init().call(args, paren),
            NativeFn::Max => MaxFn::init().call(args, paren),
            NativeFn::Min => MinFn::init().call(args, paren),
            NativeFn::Len => LenFn::init().call(args, heap, paren),
            NativeFn::Num => NumFn::init().call(args, paren),
            NativeFn::Str => StrFn::init().call(args, heap),
            NativeFn::Typeof => TypeofFn::init().call(args, heap, paren),
            NativeFn::Substr => SubstrFn::init().call(args, paren),
            NativeFn::IndexOf => IndexOfFn::init().call(args, paren),
            NativeFn::Replace => ReplaceFn::init().call(args, paren),
            NativeFn::Random => RandomFn::init().call(args, paren),
            NativeFn::RandomInt => RandomIntFn::init().call(args, paren),
            NativeFn::Push => PushFn::init().call(args, heap, paren),
            NativeFn::Pop => PopFn::init().call(args, heap, paren),
            NativeFn::Slice => SliceFn::init().call(args, heap, paren),
            NativeFn::Floor => FloorFn::init().call(args, paren),
            NativeFn::Ceil => CeilFn::init().call(args, paren),
            NativeFn::Round => RoundFn::init().call(args, paren),
            NativeFn::Code => CodeFn::init().call(args, paren),
            NativeFn::ArrayConstructor => ArrayConstructorFn::init().call(args, heap, paren),
        }
    }
}

} // verus!
