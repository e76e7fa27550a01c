//! Parsing of trace lines and of predictor-selection strings.

use vstd::prelude::*;

use crate::BranchResult;
use vstd::string::StringSliceAdditionalSpecFns;

verus! {

pub const SPACE: u8 = 32;

pub const COLON: u8 = 58;

pub const DIGIT_0: u8 = 48;

pub const DIGIT_1: u8 = 49;

pub const DIGIT_9: u8 = 57;

pub const UPPER_A: u8 = 65;

pub const UPPER_F: u8 = 70;

pub const LOWER_A: u8 = 97;

pub const LOWER_F: u8 = 102;

pub const LOWER_X: u8 = 120;

pub open spec fn is_dec_digit(c: u8) -> bool {
    DIGIT_0 <= c <= DIGIT_9
}

pub open spec fn dec_digit_value(c: u8) -> int {
    c - DIGIT_0
}

pub open spec fn is_hex_digit(c: u8) -> bool {
    ||| DIGIT_0 <= c <= DIGIT_9
    ||| LOWER_A <= c <= LOWER_F
    ||| UPPER_A <= c <= UPPER_F
}

pub open spec fn hex_digit_value(c: u8) -> int {
    if DIGIT_0 <= c <= DIGIT_9 {
        c - DIGIT_0
    } else if LOWER_A <= c <= LOWER_F {
        c - LOWER_A + 10
    } else {
        c - UPPER_A + 10
    }
}

/// The number written by a run of decimal digits, most significant first.
pub open spec fn dec_value(s: Seq<u8>) -> int
    decreases s.len(),
{
    if s.len() == 0 {
        0
    } else {
        dec_value(s.drop_last()) * 10 + dec_digit_value(s.last())
    }
}

/// The number written by a run of hex digits, most significant first.
pub open spec fn hex_value(s: Seq<u8>) -> int
    decreases s.len(),
{
    if s.len() == 0 {
        0
    } else {
        hex_value(s.drop_last()) * 16 + hex_digit_value(s.last())
    }
}

/// Length of the run of hex digits starting at position `i`.
pub open spec fn hex_run(b: Seq<u8>, i: int) -> int
    decreases b.len() - i,
{
    if i < 0 || i >= b.len() || !is_hex_digit(b[i]) {
        0
    } else {
        1 + hex_run(b, i + 1)
    }
}

/// Length of the run of decimal digits starting at position `i`.
pub open spec fn dec_run(b: Seq<u8>, i: int) -> int
    decreases b.len() - i,
{
    if i < 0 || i >= b.len() || !is_dec_digit(b[i]) {
        0
    } else {
        1 + dec_run(b, i + 1)
    }
}

pub open spec fn is_outcome_byte(c: u8) -> bool {
    c == DIGIT_0 || c == DIGIT_1
}

pub open spec fn outcome_of_byte(c: u8) -> BranchResult {
    if c == DIGIT_1 {
        BranchResult::Taken
    } else {
        BranchResult::NotTaken
    }
}

/// What a trace line means. A well-formed line is `0x`, at least one hex
/// digit whose value fits a u32, a single space, and then `0` or `1` as the
/// first byte of the outcome field; anything after that byte is ignored.
pub open spec fn spec_parse_trace_line(b: Seq<u8>) -> Option<(u32, BranchResult)> {
    let r = hex_run(b, 2);
    if b.len() >= 2 && b[0] == DIGIT_0 && b[1] == LOWER_X && r >= 1 && hex_value(
        b.subrange(2, 2 + r),
    ) <= u32::MAX && 2 + r < b.len() && b[2 + r] == SPACE && 3 + r < b.len() && is_outcome_byte(
        b[3 + r],
    ) {
        Some(((hex_value(b.subrange(2, 2 + r)) as u32), outcome_of_byte(b[3 + r])))
    } else {
        None
    }
}

/// Parse one trace record: the branch PC in hex after `0x`, a space, and the
/// outcome digit (`1` Taken, `0` NotTaken), with trailing text ignored.
/// Returns None exactly on lines the format does not allow.
pub fn parse_trace_line(line: &str) -> (r: Option<(u32, BranchResult)>)
    ensures
        r == spec_parse_trace_line(line.spec_bytes()),
{
    let b = line.as_bytes();
    let n = b.len();
    if n < 2 || b[0] != DIGIT_0 || b[1] != LOWER_X {
        return None;
    }
    let mut i: usize = 2;
    let mut value: u64 = 0;
    let mut too_big = false;
    while i < n && ((DIGIT_0 <= b[i] && b[i] <= DIGIT_9) || (LOWER_A <= b[i] && b[i] <= LOWER_F) || (
    UPPER_A <= b[i] && b[i] <= UPPER_F))
        invariant
            2 <= i <= n,
            n == b@.len(),
            b@ == line.spec_bytes(),
            forall|k: int| 2 <= k < i ==> is_hex_digit(#[trigger] b@[k]),
            hex_run(b@, 2) == (i - 2) + hex_run(b@, i as int),
            !too_big ==> value as int == hex_value(b@.subrange(2, i as int)) && value <= u32::MAX
                as u64,
            too_big ==> hex_value(b@.subrange(2, i as int)) > u32::MAX,
        decreases n - i,
    {
        let c = b[i];
        let d: u8 = if c <= DIGIT_9 {
            c - DIGIT_0
        } else if c >= LOWER_A {
            c - LOWER_A + 10
        } else {
            c - UPPER_A + 10
        };
        proof {
            assert(b@.subrange(2, i + 1 as int).drop_last() =~= b@.subrange(2, i as int));
            assert(b@.subrange(2, i + 1 as int).last() == b@[i as int]);
        }
        if !too_big {
            value = value * 16 + (d as u64);
            if value > 0xFFFF_FFFF {
                too_big = true;
            }
        }
        i = i + 1;
    }
    if i == 2 || too_big {
        return None;
    }
    if i >= n || b[i] != SPACE {
        return None;
    }
    if i + 1 >= n {
        return None;
    }
    let oc = b[i + 1];
    if oc == DIGIT_1 {
        Some((value as u32, BranchResult::Taken))
    } else if oc == DIGIT_0 {
        Some((value as u32, BranchResult::NotTaken))
    } else {
        None
    }
}

/// The selectable prediction schemes with their numeric parameters.
#[derive(Clone, Copy, Debug, PartialEq, Eq, Structural)]
pub enum Predictors {
    Static,
    Gshare(u32),
    Tournament(u32, u32, u32),
    Custom(u32, u32, u32),
}

/// The bytes of "static".
pub open spec fn static_prefix() -> Seq<u8> {
    seq![115u8, 116u8, 97u8, 116u8, 105u8, 99u8]
}

/// The bytes of "gshare".
pub open spec fn gshare_prefix() -> Seq<u8> {
    seq![103u8, 115u8, 104u8, 97u8, 114u8, 101u8]
}

/// The bytes of "tournament".
pub open spec fn tournament_prefix() -> Seq<u8> {
    seq![116u8, 111u8, 117u8, 114u8, 110u8, 97u8, 109u8, 101u8, 110u8, 116u8]
}

/// The bytes of "custom".
pub open spec fn custom_prefix() -> Seq<u8> {
    seq![99u8, 117u8, 115u8, 116u8, 111u8, 109u8]
}

pub open spec fn starts_with(b: Seq<u8>, p: Seq<u8>) -> bool {
    p.len() <= b.len() && b.subrange(0, p.len() as int) == p
}

/// The position left after stripping every leading repetition of `p` from
/// `b`, beginning at `i`.
pub open spec fn trim_offset(b: Seq<u8>, p: Seq<u8>, i: int) -> int
    decreases b.len() - i,
{
    if p.len() >= 1 && 0 <= i && i + p.len() <= b.len() && b.subrange(i, i + p.len()) == p {
        trim_offset(b, p, i + p.len())
    } else {
        i
    }
}

/// A digit run starting inside the sequence is nonnegative and stays inside
/// the sequence.
pub proof fn lemma_dec_run_bounds(b: Seq<u8>, i: int)
    ensures
        0 <= dec_run(b, i),
        0 <= i <= b.len() ==> i + dec_run(b, i) <= b.len(),
    decreases b.len() - i,
{
    if 0 <= i < b.len() && is_dec_digit(b[i]) {
        lemma_dec_run_bounds(b, i + 1);
    }
}

/// The numbers written after a scheme name: segments of decimal digits
/// separated by colons, empty segments skipped. None when a segment holds a
/// non-digit or a value above u32::MAX.
pub open spec fn spec_nums(b: Seq<u8>, i: int) -> Option<Seq<u32>>
    decreases b.len() - i,
    via spec_nums_decreases
{
    if i < 0 || i >= b.len() {
        Some(Seq::empty())
    } else if b[i] == COLON {
        spec_nums(b, i + 1)
    } else {
        let r = dec_run(b, i);
        if r == 0 {
            None
        } else if dec_value(b.subrange(i, i + r)) > u32::MAX {
            None
        } else if i + r < b.len() && b[i + r] != COLON {
            None
        } else {
            match spec_nums(b, i + r) {
                Some(rest) => Some(seq![dec_value(b.subrange(i, i + r)) as u32] + rest),
                None => None,
            }
        }
    }
}

#[via_fn]
proof fn spec_nums_decreases(b: Seq<u8>, i: int) {
    lemma_dec_run_bounds(b, i);
}

/// What a predictor-selection string means: a scheme name prefix, then the
/// scheme's numeric parameters. None where the original reports an error.
pub open spec fn spec_parse_predictors(b: Seq<u8>) -> Option<Predictors> {
    if starts_with(b, static_prefix()) {
        Some(Predictors::Static)
    } else if starts_with(b, gshare_prefix()) {
        match spec_nums(b, trim_offset(b, gshare_prefix(), 0)) {
            Some(nums) => if nums.len() >= 1 {
                Some(Predictors::Gshare(nums[0]))
            } else {
                None
            },
            None => None,
        }
    } else if starts_with(b, tournament_prefix()) {
        match spec_nums(b, trim_offset(b, tournament_prefix(), 0)) {
            Some(nums) => if nums.len() >= 3 {
                Some(Predictors::Tournament(nums[0], nums[1], nums[2]))
            } else {
                None
            },
            None => None,
        }
    } else if starts_with(b, custom_prefix()) {
        match spec_nums(b, trim_offset(b, custom_prefix(), 0)) {
            Some(nums) => if nums.len() >= 3 {
                Some(Predictors::Custom(nums[0], nums[1], nums[2]))
            } else {
                None
            },
            None => None,
        }
    } else {
        None
    }
}

/// The error message a failed parse reports, chosen by the scheme prefix.
pub open spec fn spec_parse_error(b: Seq<u8>) -> Seq<char> {
    if starts_with(b, static_prefix()) {
        Seq::empty()
    } else if starts_with(b, gshare_prefix()) {
        "gshare:<history bits> argument required for gshare"@
    } else if starts_with(b, tournament_prefix()) {
        "tournament:<ghistory>:<lhistory>:<index> bits required for tournament"@
    } else if starts_with(b, custom_prefix()) {
        "custom:<history_size>:<num_perceptrons>:<theta> required for custom predictor"@
    } else {
        "invalid predictor type"@
    }
}

fn static_prefix_vec() -> (v: Vec<u8>)
    ensures
        v@ == static_prefix(),
{
    let mut v: Vec<u8> = Vec::new();
    v.push(115);
    v.push(116);
    v.push(97);
    v.push(116);
    v.push(105);
    v.push(99);
    proof {
        assert(v@ =~= static_prefix());
    }
    v
}

fn gshare_prefix_vec() -> (v: Vec<u8>)
    ensures
        v@ == gshare_prefix(),
{
    let mut v: Vec<u8> = Vec::new();
    v.push(103);
    v.push(115);
    v.push(104);
    v.push(97);
    v.push(114);
    v.push(101);
    proof {
        assert(v@ =~= gshare_prefix());
    }
    v
}

fn tournament_prefix_vec() -> (v: Vec<u8>)
    ensures
        v@ == tournament_prefix(),
{
    let mut v: Vec<u8> = Vec::new();
    v.push(116);
    v.push(111);
    v.push(117);
    v.push(114);
    v.push(110);
    v.push(97);
    v.push(109);
    v.push(101);
    v.push(110);
    v.push(116);
    proof {
        assert(v@ =~= tournament_prefix());
    }
    v
}

fn custom_prefix_vec() -> (v: Vec<u8>)
    ensures
        v@ == custom_prefix(),
{
    let mut v: Vec<u8> = Vec::new();
    v.push(99);
    v.push(117);
    v.push(115);
    v.push(116);
    v.push(111);
    v.push(109);
    proof {
        assert(v@ =~= custom_prefix());
    }
    v
}

fn starts_with_exec(b: &[u8], p: &[u8]) -> (r: bool)
    ensures
        r == starts_with(b@, p@),
{
    if p.len() > b.len() {
        return false;
    }
    let mut i: usize = 0;
    while i < p.len()
        invariant
            i <= p@.len() <= b@.len(),
            forall|k: int| 0 <= k < i ==> b@[k] == p@[k],
        decreases p@.len() - i,
    {
        if b[i] != p[i] {
            proof {
                assert(b@.subrange(0, p@.len() as int)[i as int] == b@[i as int]);
            }
            return false;
        }
        i = i + 1;
    }
    proof {
        assert(b@.subrange(0, p@.len() as int) =~= p@);
    }
    true
}

/// Strip every leading repetition of `p` from `b[off..]`, returning the
/// offset where the stripped remainder starts.
fn trim_prefix_exec(b: &[u8], p: &[u8], off: usize) -> (r: usize)
    requires
        p@.len() >= 1,
        off <= b@.len(),
    ensures
        off <= r <= b@.len(),
        r as int == trim_offset(b@, p@, off as int),
    decreases b@.len() - off,
{
    let sub = vstd::slice::slice_subrange(b, off, b.len());
    if starts_with_exec(sub, p) {
        proof {
            assert(b@.subrange(off as int, off + p@.len()) =~= sub@.subrange(0, p@.len() as int));
        }
        trim_prefix_exec(b, p, off + p.len())
    } else {
        proof {
            if off + p@.len() <= b@.len() {
                assert(sub@.subrange(0, p@.len() as int) =~= b@.subrange(
                    off as int,
                    off + p@.len(),
                ));
            }
        }
        off
    }
}

/// Collect the colon-separated numbers starting at `start`; None on a
/// non-digit segment or a value above u32::MAX.
fn parse_nums(b: &[u8], start: usize) -> (r: Option<Vec<u32>>)
    requires
        start <= b@.len(),
    ensures
        match r {
            Some(v) => spec_nums(b@, start as int) == Some(v@),
            None => spec_nums(b@, start as int) is None,
        },
    decreases b@.len() - start,
{
    let n = b.len();
    if start >= n {
        let v: Vec<u32> = Vec::new();
        proof {
            assert(v@ =~= Seq::<u32>::empty());
        }
        return Some(v);
    }
    if b[start] == COLON {
        return parse_nums(b, start + 1);
    }
    let mut i: usize = start;
    let mut value: u64 = 0;
    let mut too_big = false;
    while i < n && DIGIT_0 <= b[i] && b[i] <= DIGIT_9
        invariant
            start <= i <= n,
            n == b@.len(),
            forall|k: int| start <= k < i ==> is_dec_digit(#[trigger] b@[k]),
            dec_run(b@, start as int) == (i - start) + dec_run(b@, i as int),
            !too_big ==> value as int == dec_value(b@.subrange(start as int, i as int)) && value
                <= u32::MAX as u64,
            too_big ==> dec_value(b@.subrange(start as int, i as int)) > u32::MAX,
        decreases n - i,
    {
        let d: u8 = b[i] - DIGIT_0;
        proof {
            assert(b@.subrange(start as int, i + 1 as int).drop_last() =~= b@.subrange(
                start as int,
                i as int,
            ));
            assert(b@.subrange(start as int, i + 1 as int).last() == b@[i as int]);
        }
        if !too_big {
            value = value * 10 + (d as u64);
            if value > 0xFFFF_FFFF {
                too_big = true;
            }
        }
        i = i + 1;
    }
    if i == start || too_big {
        return None;
    }
    if i < n && b[i] != COLON {
        return None;
    }
    let rest = parse_nums(b, i);
    match rest {
        Some(mut v) => {
            let ghost tail: Seq<u32> = v@;
            v.insert(0, value as u32);
            proof {
                assert(v@ =~= seq![dec_value(b@.subrange(start as int, i as int)) as u32] + tail);
            }
            Some(v)
        },
        None => None,
    }
}

impl Predictors {
    /// Parse a predictor selection: a scheme name (`static`, `gshare`,
    /// `tournament`, `custom`) followed by its colon-separated numeric
    /// parameters. Malformed or missing parameters report the scheme's
    /// usage message; an unknown scheme name is rejected.
    pub fn from_str(s: &str) -> (r: Result<Predictors, String>)
        ensures
            match r {
                Ok(p) => spec_parse_predictors(s.spec_bytes()) == Some(p),
                Err(e) => spec_parse_predictors(s.spec_bytes()) is None && e@ == spec_parse_error(
                    s.spec_bytes(),
                ),
            },
    {
        let b = s.as_bytes();
        let sp = static_prefix_vec();
        if starts_with_exec(b, sp.as_slice()) {
            return Ok(Predictors::Static);
        }
        let gp = gshare_prefix_vec();
        if starts_with_exec(b, gp.as_slice()) {
            let off = trim_prefix_exec(b, gp.as_slice(), 0);
            return match parse_nums(b, off) {
                Some(nums) => if nums.len() >= 1 {
                    Ok(Predictors::Gshare(nums[0]))
                } else {
                    Err("gshare:<history bits> argument required for gshare".to_owned())
                },
                None => Err("gshare:<history bits> argument required for gshare".to_owned()),
            };
        }
        let tp = tournament_prefix_vec();
        if starts_with_exec(b, tp.as_slice()) {
            let off = trim_prefix_exec(b, tp.as_slice(), 0);
            return match parse_nums(b, off) {
                Some(nums) => if nums.len() >= 3 {
                    Ok(Predictors::Tournament(nums[0], nums[1], nums[2]))
                } else {
                    Err(
                        "tournament:<ghistory>:<lhistory>:<index> bits required for tournament".to_owned(),
                    )
                },
                None => Err(
                    "tournament:<ghistory>:<lhistory>:<index> bits required for tournament".to_owned(),
                ),
            };
        }
        let cp = custom_prefix_vec();
        if starts_with_exec(b, cp.as_slice()) {
            let off = trim_prefix_exec(b, cp.as_slice(), 0);
            return match parse_nums(b, off) {
                Some(nums) => if nums.len() >= 3 {
                    Ok(Predictors::Custom(nums[0], nums[1], nums[2]))
                } else {
                    Err(
                        "custom:<history_size>:<num_perceptrons>:<theta> required for custom predictor".to_owned(),
                    )
                },
                None => Err(
                    "custom:<history_size>:<num_perceptrons>:<theta> required for custom predictor".to_owned(),
                ),
            };
        }
        Err("invalid predictor type".to_owned())
    }
}

impl core::str::FromStr for Predictors {
    type Err = String;

    fn from_str(s: &str) -> Result<Predictors, String> {
        Predictors::from_str(s)
    }
}

} // verus!
