//! System resource checks: file-descriptor limits and kernel
//! parameters.
//!
//! The decisions are computed from plain values — the observed limits
//! and the text read from the parameter files; querying and raising the
//! limits, and reading the files, happen outside the library.

use vstd::prelude::*;
use vstd::string::StringExecFns;
use vstd::string::StrSliceExecFns;

use crate::units::{is_ascii_digit, digits_val};

verus! {

/// What to do about the open-file limit.
#[derive(Debug, Clone, Copy, PartialEq, Eq, Structural)]
pub enum FdLimitAction {
    /// The current soft limit already meets the expectation.
    Sufficient,
    /// Raise the limits to these values; if raising fails, the check
    /// fails.
    Raise { cur: u64, max: u64 },
}

/// Decide whether the open-file limit suffices: a soft limit at or above
/// the expectation passes; otherwise both limits are raised to the
/// expectation (the hard limit only where it is below it).
pub fn check_max_open_fds(cur: u64, max: u64, expect: u64) -> (r: FdLimitAction)
    ensures
        cur >= expect ==> r == FdLimitAction::Sufficient,
        cur < expect ==> r == (FdLimitAction::Raise {
            cur: expect,
            max: if max < expect {
                expect
            } else {
                max
            },
        }),
{
    if cur >= expect {
        return FdLimitAction::Sufficient;
    }
    let new_max = if max < expect {
        expect
    } else {
        max
    };
    FdLimitAction::Raise { cur: expect, max: new_max }
}

/// Number of leading newline characters.
pub open spec fn leading_nl(s: Seq<char>) -> nat
    decreases s.len(),
{
    if s.len() == 0 || s[0] != '\n' {
        0
    } else {
        1 + leading_nl(s.drop_first())
    }
}

/// Number of trailing newline characters.
pub open spec fn trailing_nl(s: Seq<char>) -> nat
    decreases s.len(),
{
    if s.len() == 0 || s.last() != '\n' {
        0
    } else {
        1 + trailing_nl(s.drop_last())
    }
}

/// The string with leading and trailing newlines removed.
pub open spec fn spec_trim_nl(s: Seq<char>) -> Seq<char> {
    if leading_nl(s) == s.len() {
        Seq::empty()
    } else {
        s.subrange(leading_nl(s) as int, s.len() - trailing_nl(s))
    }
}

/// Whether every character is an ASCII digit.
pub open spec fn all_ascii_digits(s: Seq<char>) -> bool {
    forall|i: int| 0 <= i < s.len() ==> is_ascii_digit(#[trigger] s[i])
}

/// The signed 64-bit integer a string denotes: an optional sign followed
/// by at least one digit, within the `i64` range; `None` otherwise.
pub open spec fn spec_parse_i64(s: Seq<char>) -> Option<i64> {
    let negative = s.len() > 0 && s[0] == '-';
    let digits = if s.len() > 0 && (s[0] == '-' || s[0] == '+') {
        s.drop_first()
    } else {
        s
    };
    if digits.len() == 0 || !all_ascii_digits(digits) {
        None
    } else {
        let v = digits_val(digits);
        if negative {
            if v > 0x8000_0000_0000_0000 {
                None
            } else {
                Some((-v) as i64)
            }
        } else {
            if v > 0x7fff_ffff_ffff_ffff {
                None
            } else {
                Some(v as i64)
            }
        }
    }
}

proof fn lemma_leading_nl_characterize(s: Seq<char>, p: int)
    requires
        0 <= p <= s.len(),
        forall|i: int| 0 <= i < p ==> #[trigger] s[i] == '\n',
        p < s.len() ==> s[p] != '\n',
    ensures
        leading_nl(s) == p,
    decreases s.len(),
{
    if s.len() == 0 {
    } else if p == 0 {
    } else {
        let t = s.drop_first();
        assert(forall|i: int| 0 <= i < p - 1 ==> #[trigger] t[i] == s[i + 1]);
        lemma_leading_nl_characterize(t, p - 1);
    }
}

proof fn lemma_trailing_nl_characterize(s: Seq<char>, p: int)
    requires
        0 <= p <= s.len(),
        forall|i: int| s.len() - p <= i < s.len() ==> #[trigger] s[i] == '\n',
        p < s.len() ==> s[s.len() - p - 1] != '\n',
    ensures
        trailing_nl(s) == p,
    decreases s.len(),
{
    if s.len() == 0 {
    } else if p == 0 {
    } else {
        let t = s.drop_last();
        lemma_trailing_nl_characterize(t, p - 1);
    }
}

/// Parse a decimal signed 64-bit integer, as the content of a kernel
/// parameter file denotes one.
pub fn parse_i64(s: &str) -> (r: Option<i64>)
    ensures
        r == spec_parse_i64(s@),
{
    let n = s.unicode_len();
    let mut start: usize = 0;
    let mut negative = false;
    if n > 0 {
        let c0 = s.get_char(0);
        if c0 == '-' {
            negative = true;
            start = 1;
        } else if c0 == '+' {
            start = 1;
        }
    }
    let ghost digits = if start == 1 {
        s@.drop_first()
    } else {
        s@
    };
    proof {
        assert(digits.len() == n - start);
        assert(forall|i: int| 0 <= i < digits.len() ==> #[trigger] digits[i] == s@[i + start]);
    }
    if start == n {
        return None;
    }
    // Accumulate the digits, watching for values beyond the i64 range.
    let mut acc: u64 = 0;
    let mut too_big = false;
    let mut i: usize = start;
    while i < n
        invariant
            start <= i <= n,
            n == s@.len(),
            start <= 1,
            (start == 1) == (n > 0 && (s@[0] == '-' || s@[0] == '+')),
            negative == (n > 0 && s@[0] == '-'),
            digits == (if start == 1 {
                s@.drop_first()
            } else {
                s@
            }),
            digits.len() == n - start,
            forall|j: int| 0 <= j < digits.len() ==> #[trigger] digits[j] == s@[j + start],
            forall|j: int| 0 <= j < i - start ==> is_ascii_digit(#[trigger] digits[j]),
            !too_big ==> acc == digits_val(digits.take(i - start)) && acc
                <= 0x8000_0000_0000_0000u64,
            too_big ==> digits_val(digits.take(i - start)) > 0x8000_0000_0000_0000,
        decreases n - i,
    {
        let c = s.get_char(i);
        if !(c >= '0' && c <= '9') {
            proof {
                assert(digits[i - start] == s@[i as int]);
                assert(!is_ascii_digit(digits[i - start]));
                assert(!all_ascii_digits(digits));
            }
            return None;
        }
        let d: u64 = (c as u32 - '0' as u32) as u64;
        proof {
            assert(digits.take(i - start + 1).drop_last() =~= digits.take(i - start));
            assert(digits.take(i - start + 1).last() == digits[i - start]);
            crate::units::lemma_digits_val_nonneg(digits.take(i - start));
        }
        if too_big {
            proof {
                let prev = digits_val(digits.take(i - start));
                assert(prev * 10 >= prev) by (nonlinear_arith)
                    requires
                        prev >= 0,
                ;
            }
        } else {
            let wide: u128 = acc as u128 * 10 + d as u128;
            if wide > 0x8000_0000_0000_0000u128 {
                too_big = true;
            } else {
                acc = wide as u64;
            }
        }
        i = i + 1;
    }
    proof {
        assert(digits.take(n - start) =~= digits);
    }
    if too_big {
        return None;
    }
    if negative {
        if acc == 0x8000_0000_0000_0000u64 {
            Some(i64::MIN)
        } else {
            Some(-(acc as i64))
        }
    } else {
        if acc > 0x7fff_ffff_ffff_ffffu64 {
            None
        } else {
            Some(acc as i64)
        }
    }
}

/// The content of a kernel parameter file with surrounding newlines
/// removed.
pub fn trim_nl(s: &str) -> (r: String)
    ensures
        r@ == spec_trim_nl(s@),
{
    let n = s.unicode_len();
    let mut start: usize = 0;
    loop
        invariant
            0 <= start <= n,
            n == s@.len(),
            forall|i: int| 0 <= i < start ==> #[trigger] s@[i] == '\n',
        ensures
            0 <= start <= n,
            forall|i: int| 0 <= i < start ==> #[trigger] s@[i] == '\n',
            start < n ==> s@[start as int] != '\n',
        decreases n - start,
    {
        if start == n {
            break;
        }
        if s.get_char(start) != '\n' {
            break;
        }
        start = start + 1;
    }
    proof {
        lemma_leading_nl_characterize(s@, start as int);
    }
    if start == n {
        proof {
            assert(spec_trim_nl(s@) =~= Seq::<char>::empty());
        }
        return String::new();
    }
    let mut end: usize = n;
    loop
        invariant
            start < end <= n,
            n == s@.len(),
            s@[start as int] != '\n',
            forall|i: int| end <= i < n ==> #[trigger] s@[i] == '\n',
        ensures
            start < end <= n,
            forall|i: int| end <= i < n ==> #[trigger] s@[i] == '\n',
            s@[end - 1] != '\n',
        decreases end,
    {
        if s.get_char(end - 1) != '\n' {
            break;
        }
        end = end - 1;
    }
    proof {
        lemma_trailing_nl_characterize(s@, n - end as int);
        assert(spec_trim_nl(s@) == s@.subrange(start as int, end as int));
    }
    let piece = s.substring_char(start, end);
    piece.to_owned()
}


/// Index of the first slash, or the length when there is none.
pub open spec fn slash_pos(s: Seq<char>) -> nat
    decreases s.len(),
{
    if s.len() == 0 || s[0] == '/' {
        0
    } else {
        1 + slash_pos(s.drop_first())
    }
}

proof fn lemma_slash_pos_characterize(s: Seq<char>, p: int)
    requires
        0 <= p <= s.len(),
        forall|i: int| 0 <= i < p ==> #[trigger] s[i] != '/',
        p < s.len() ==> s[p] == '/',
    ensures
        slash_pos(s) == p,
    decreases s.len(),
{
    if s.len() == 0 {
    } else if p == 0 {
    } else {
        let t = s.drop_first();
        assert(forall|i: int| 0 <= i < p - 1 ==> #[trigger] t[i] == s[i + 1]);
        lemma_slash_pos_characterize(t, p - 1);
    }
}

/// Split a string at every slash; empty segments are kept.
pub open spec fn slash_split(s: Seq<char>) -> Seq<Seq<char>>
    decreases s.len(),
{
    let p = slash_pos(s) as int;
    if p >= s.len() {
        seq![s]
    } else {
        seq![s.take(p)] + slash_split(s.skip(p + 1))
    }
}

/// The segments joined with dots.
pub open spec fn join_dot(parts: Seq<Seq<char>>) -> Seq<char>
    decreases parts.len(),
{
    if parts.len() == 0 {
        Seq::empty()
    } else if parts.len() == 1 {
        parts[0]
    } else {
        join_dot(parts.drop_last()) + seq!['.'] + parts.last()
    }
}

/// The dotted parameter name of a `/proc` path: the path's segments
/// past `/proc/sys`, joined with dots (for `/proc/sys/vm/swappiness`,
/// `vm.swappiness`).
pub open spec fn spec_param_name(path: Seq<char>) -> Seq<char> {
    if slash_split(path).len() <= 3 {
        Seq::empty()
    } else {
        join_dot(slash_split(path).skip(3))
    }
}

/// The dotted parameter name of a `/proc` path.
pub fn param_name(path: &str) -> (r: String)
    ensures
        r@ == spec_param_name(path@),
{
    let n = path.unicode_len();
    let mut result: String = String::new();
    let ghost mut segs: Seq<Seq<char>> = Seq::empty();
    // Only "fewer than three", "exactly three" and "more than three"
    // matter, so the segment count saturates at four.
    let mut seg_cnt: usize = 0;
    let mut start: usize = 0;
    let mut done = false;
    proof {
        assert(path@.skip(0) =~= path@);
        assert(segs + slash_split(path@.skip(0)) =~= slash_split(path@));
    }
    loop
        invariant
            0 <= start <= n,
            n == path@.len(),
            seg_cnt == (if segs.len() < 4 {
                segs.len() as int
            } else {
                4
            }),
            !done ==> slash_split(path@) == segs + slash_split(path@.skip(start as int)),
            done ==> slash_split(path@) == segs,
            segs.len() <= 3 ==> result@ == Seq::<char>::empty(),
            segs.len() > 3 ==> result@ == join_dot(segs.skip(3)),
        ensures
            done,
            slash_split(path@) == segs,
            segs.len() <= 3 ==> result@ == Seq::<char>::empty(),
            segs.len() > 3 ==> result@ == join_dot(segs.skip(3)),
        decreases n - start + (if done {
            0int
        } else {
            1int
        }),
    {
        if done {
            break;
        }
        // Find the next slash, or the end of the string.
        let mut i: usize = start;
        loop
            invariant
                start <= i <= n,
                n == path@.len(),
                forall|j: int| start <= j < i ==> #[trigger] path@[j] != '/',
            ensures
                start <= i <= n,
                forall|j: int| start <= j < i ==> #[trigger] path@[j] != '/',
                i < n ==> path@[i as int] == '/',
            decreases n - i,
        {
            if i == n {
                break;
            }
            if path.get_char(i) == '/' {
                break;
            }
            i = i + 1;
        }
        let ghost rem = path@.skip(start as int);
        let ghost seg = path@.subrange(start as int, i as int);
        proof {
            assert(forall|j: int| 0 <= j < rem.len() ==> #[trigger] rem[j] == path@[start + j]);
            lemma_slash_pos_characterize(rem, i - start as int);
            assert(rem.take(i - start as int) =~= seg);
            if i == n {
                assert(seg =~= rem);
                assert(slash_split(rem) == seq![seg]);
                assert(segs + seq![seg] =~= segs.push(seg));
            } else {
                let tail = path@.skip(i as int + 1);
                assert(rem.skip(i - start as int + 1) =~= tail);
                assert(slash_split(rem) == seq![seg] + slash_split(tail));
                assert(segs + (seq![seg] + slash_split(tail)) =~= segs.push(seg) + slash_split(
                    tail,
                ));
            }
        }
        if seg_cnt >= 3 {
            let ghost before = result@;
            if seg_cnt > 3 {
                result.append(".");
                proof {
                    reveal_strlit(".");
                    assert("."@.len() == 1);
                    assert("."@[0] == '.');
                    assert("."@ =~= seq!['.']);
                }
            }
            let piece = path.substring_char(start, i);
            result.append(piece);
            proof {
                let joined = segs.skip(3);
                assert(segs.push(seg).skip(3) =~= joined.push(seg));
                if joined.len() == 0 {
                    assert(result@ =~= seg);
                    assert(join_dot(joined.push(seg)) == seg);
                } else {
                    assert(joined.push(seg).drop_last() =~= joined);
                    assert(result@ =~= join_dot(joined) + seq!['.'] + seg);
                }
            }
        } else {
            proof {
                if segs.push(seg).len() > 3 {
                    assert(false);
                }
            }
        }
        proof {
            segs = segs.push(seg);
        }
        if seg_cnt < 4 {
            seg_cnt = seg_cnt + 1;
        }
        if i == n {
            done = true;
        } else {
            start = i + 1;
        }
    }
    proof {
        if segs.len() <= 3 {
            assert(spec_param_name(path@) =~= Seq::<char>::empty());
        }
    }
    result
}

/// Why a kernel parameter check failed.
#[derive(Debug)]
pub enum KernelCheckError {
    /// The parameter file could not be read; carries the reader's
    /// message.
    ReadFailed { path: String, detail: String },
    /// The file's content is not an integer.
    ParseFailed { path: String },
    /// The parameter's value differs from what is expected.
    Mismatch { param: String, got: i64, expect: i64 },
}

/// The mathematical shadow of `KernelCheckError`.
pub enum SpecKernelCheckError {
    ReadFailed(Seq<char>, Seq<char>),
    ParseFailed(Seq<char>),
    Mismatch(Seq<char>, i64, i64),
}

impl View for KernelCheckError {
    type V = SpecKernelCheckError;

    open spec fn view(&self) -> SpecKernelCheckError {
        match self {
            KernelCheckError::ReadFailed { path, detail } => SpecKernelCheckError::ReadFailed(
                path@,
                detail@,
            ),
            KernelCheckError::ParseFailed { path } => SpecKernelCheckError::ParseFailed(path@),
            KernelCheckError::Mismatch { param, got, expect } => SpecKernelCheckError::Mismatch(
                param@,
                *got,
                *expect,
            ),
        }
    }
}

/// The outcome of checking one readable kernel parameter: nothing when
/// its trimmed content denotes the expected integer; otherwise the
/// error.
pub open spec fn spec_check_kernel_param(path: Seq<char>, content: Seq<char>, expect: i64) -> Option<
    SpecKernelCheckError,
> {
    match spec_parse_i64(spec_trim_nl(content)) {
        None => Some(SpecKernelCheckError::ParseFailed(path)),
        Some(got) => if got == expect {
            None
        } else {
            Some(SpecKernelCheckError::Mismatch(spec_param_name(path), got, expect))
        },
    }
}

/// Check one kernel parameter against its file content: trim the
/// surrounding newlines, parse the integer, and compare it with the
/// expectation.
pub fn check_kernel_params(param_path: &str, content: &str, expect: i64) -> (r: Result<
    (),
    KernelCheckError,
>)
    ensures
        match spec_check_kernel_param(param_path@, content@, expect) {
            None => r is Ok,
            Some(e) => r matches Err(err) && err@ == e,
        },
{
    let trimmed = trim_nl(content);
    match parse_i64(trimmed.as_str()) {
        None => Err(KernelCheckError::ParseFailed { path: param_path.to_owned() }),
        Some(got) => {
            if got == expect {
                Ok(())
            } else {
                let param = param_name(param_path);
                Err(KernelCheckError::Mismatch { param, got, expect })
            }
        },
    }
}

/// One kernel parameter to check: its `/proc` path, the expected value,
/// and the file content as read, or the reader's failure message.
pub struct KernelParamReading {
    pub path: String,
    pub expect: i64,
    pub content: Result<String, String>,
}

/// The views of a list of kernel check errors.
pub open spec fn kernel_errors_view(v: Seq<KernelCheckError>) -> Seq<SpecKernelCheckError> {
    v.map_values(|e: KernelCheckError| e@)
}

/// The errors that a list of readings yields, in order: a read failure
/// for an unreadable parameter, and the check's error for a readable
/// one that fails it.
pub open spec fn spec_kernel_errors(rs: Seq<KernelParamReading>) -> Seq<SpecKernelCheckError>
    decreases rs.len(),
{
    if rs.len() == 0 {
        Seq::empty()
    } else {
        spec_kernel_errors(rs.drop_last()) + (match rs.last().content {
            Ok(c) => match spec_check_kernel_param(rs.last().path@, c@, rs.last().expect) {
                None => Seq::empty(),
                Some(e) => seq![e],
            },
            Err(d) => seq![SpecKernelCheckError::ReadFailed(rs.last().path@, d@)],
        })
    }
}

/// Run the kernel parameter checks over the supplied readings and
/// collect every failure, in order.
pub fn check_kernel(readings: &Vec<KernelParamReading>) -> (errs: Vec<KernelCheckError>)
    ensures
        kernel_errors_view(errs@) == spec_kernel_errors(readings@),
{
    let n = readings.len();
    let mut errs: Vec<KernelCheckError> = Vec::new();
    proof {
        assert(readings@.take(0) =~= Seq::<KernelParamReading>::empty());
        assert(kernel_errors_view(errs@) =~= spec_kernel_errors(readings@.take(0)));
    }
    let mut i: usize = 0;
    while i < n
        invariant
            0 <= i <= n,
            n == readings@.len(),
            kernel_errors_view(errs@) == spec_kernel_errors(readings@.take(i as int)),
        decreases n - i,
    {
        let reading = &readings[i];
        let ghost before = errs@;
        proof {
            assert(readings@.take(i as int + 1).drop_last() =~= readings@.take(i as int));
            assert(readings@.take(i as int + 1).last() == readings@[i as int]);
        }
        match &reading.content {
            Ok(c) => {
                match check_kernel_params(reading.path.as_str(), c.as_str(), reading.expect) {
                    Ok(()) => {
                        proof {
                            assert(kernel_errors_view(errs@) + Seq::<
                                SpecKernelCheckError,
                            >::empty() =~= kernel_errors_view(errs@));
                        }
                    },
                    Err(e) => {
                        errs.push(e);
                        proof {
                            assert(kernel_errors_view(errs@) =~= kernel_errors_view(before).push(
                                errs@.last()@,
                            ));
                            assert(kernel_errors_view(before).push(errs@.last()@)
                                =~= kernel_errors_view(before) + seq![errs@.last()@]);
                        }
                    },
                }
            },
            Err(d) => {
                let e = KernelCheckError::ReadFailed {
                    path: reading.path.clone(),
                    detail: d.clone(),
                };
                errs.push(e);
                proof {
                    assert(kernel_errors_view(errs@) =~= kernel_errors_view(before).push(
                        errs@.last()@,
                    ));
                    assert(kernel_errors_view(before).push(errs@.last()@) =~= kernel_errors_view(
                        before,
                    ) + seq![errs@.last()@]);
                }
            },
        }
        i = i + 1;
    }
    proof {
        assert(readings@.take(n as int) =~= readings@);
    }
    errs
}

/// The table of kernel parameters this workload cares about: swappiness
/// must be zero.
pub fn kernel_check_table() -> (t: Vec<(String, i64)>)
    ensures
        t@.len() == 1,
        t@[0].0@ == "/proc/sys/vm/swappiness"@,
        t@[0].1 == 0,
{
    let mut t: Vec<(String, i64)> = Vec::new();
    t.push(("/proc/sys/vm/swappiness".to_owned(), 0));
    t
}

} // verus!

