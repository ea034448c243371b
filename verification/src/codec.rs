//! The duration codec.
//!
//! A duration token is either the zero marker `P0D` or `P` followed by a
//! time designator `T` and up to three numbered segments in descending
//! unit order: hours (`H`), minutes (`M`) and a combined
//! seconds-and-milliseconds segment `<seconds>.<milliseconds>S`.  The
//! decoder strips segments from the right; the encoder always writes all
//! three segments.  `decode_spec` and `encode_spec` state both directions
//! exactly, and the executable functions are proved to match them.

use vstd::prelude::*;
use vstd::string::*;

use crate::Error;
use crate::digits::{all_digits, dec_val, dec_str, parse_dec, dec_to_string};
use crate::scan::{rfind, rfind_in, lemma_rfind_props};

verus! {

pub const ONE_HOUR: i64 = 60 * 60 * 1000;

pub const ONE_MINUTE: i64 = 60 * 1000;

pub const ONE_SECOND: i64 = 1000;

/// The canonical spelling of the zero duration.
pub open spec fn zero_token() -> Seq<char> {
    seq!['P', '0', 'D']
}

/// Boundary characters that may close the seconds-and-milliseconds segment.
pub open spec fn ms_targets() -> Seq<char> {
    seq!['.', 'M', 'H', 'T']
}

/// Boundary characters that may close the seconds segment.
pub open spec fn sec_targets() -> Seq<char> {
    seq!['M', 'H', 'T']
}

/// Boundary characters that may close the minutes segment.
pub open spec fn min_targets() -> Seq<char> {
    seq!['H', 'T']
}

/// Boundary character that closes the hours segment.
pub open spec fn hour_targets() -> Seq<char> {
    seq!['T']
}

/// One backward extraction step.  The numeric substring after the last
/// boundary character is the segment's count; it contributes
/// `count * multiplier` milliseconds, and everything from the boundary on
/// is consumed.  Without a boundary nothing is consumed and the
/// contribution is zero.
pub open spec fn extract_segment_spec(s: Seq<char>, targets: Seq<char>, multiplier: int) -> Result<
    (int, Seq<char>),
    Error,
> {
    let i = rfind(s, targets);
    if i < 0 {
        Ok((0, s))
    } else {
        let section = s.subrange(i + 1, s.len() as int);
        if section.len() == 0 || !all_digits(section) {
            Err(Error::NonNumericSegment)
        } else if dec_val(section) * multiplier > i64::MAX as int {
            Err(Error::Overflow)
        } else {
            Ok((dec_val(section) * multiplier, s.subrange(0, i)))
        }
    }
}

/// The first extraction step additionally demands the trailing `S` tag
/// and strips it before scanning.
pub open spec fn extract_ms_spec(s: Seq<char>) -> Result<(int, Seq<char>), Error> {
    if s.len() == 0 || s.last() != 'S' {
        Err(Error::MalformedSuffix)
    } else {
        extract_segment_spec(s.drop_last(), ms_targets(), 1)
    }
}

/// What decoding a token yields: the millisecond count for the zero
/// marker or a well-formed non-zero token whose total fits in `i64`, and
/// the precise error otherwise.
pub open spec fn decode_spec(s: Seq<char>) -> Result<int, Error> {
    if s == zero_token() {
        Ok(0)
    } else if s.len() == 0 || s[0] != 'P' {
        Err(Error::MalformedPrefix)
    } else {
        let r0 = s.subrange(1, s.len() as int);
        match extract_ms_spec(r0) {
            Err(e) => Err(e),
            Ok((ms, r1)) => match extract_segment_spec(r1, sec_targets(), ONE_SECOND as int) {
                Err(e) => Err(e),
                Ok((sec, r2)) => match extract_segment_spec(r2, min_targets(), ONE_MINUTE as int) {
                    Err(e) => Err(e),
                    Ok((min, r3)) => match extract_segment_spec(
                        r3,
                        hour_targets(),
                        ONE_HOUR as int,
                    ) {
                        Err(e) => Err(e),
                        Ok((hrs, _)) => if hrs + min + sec + ms > i64::MAX as int {
                            Err(Error::Overflow)
                        } else {
                            Ok(hrs + min + sec + ms)
                        },
                    },
                },
            },
        }
    }
}

/// The token the encoder produces for a non-negative count: `P0D` for
/// zero, otherwise `PT<h>H<m>M<s>.<ms>S` with every segment written.
pub open spec fn encode_spec(ms: int) -> Seq<char>
    recommends
        ms >= 0,
{
    if ms == 0 {
        zero_token()
    } else {
        let h = ms / (ONE_HOUR as int);
        let r1 = ms % (ONE_HOUR as int);
        let mi = r1 / (ONE_MINUTE as int);
        let r2 = r1 % (ONE_MINUTE as int);
        let se = r2 / (ONE_SECOND as int);
        let msr = r2 % (ONE_SECOND as int);
        seq!['P', 'T'] + dec_str(h) + seq!['H'] + dec_str(mi) + seq!['M'] + dec_str(se)
            + seq!['.'] + dec_str(msr) + seq!['S']
    }
}

/// One backward extraction step over the remaining token text.
pub fn extract_segment<'a>(s: &'a str, targets: &[char], multiplier: i64) -> (r: Result<
    (i64, &'a str),
    Error,
>)
    requires
        1 <= multiplier,
    ensures
        match extract_segment_spec(s@, targets@, multiplier as int) {
            Ok((v, rem)) => r matches Ok((rv, rs)) && rv as int == v && rs@ == rem && rv >= 0,
            Err(e) => r matches Err(e2) && e2 == e,
        },
{
    let idx_opt = rfind_in(s, targets);
    proof {
        lemma_rfind_props(s@, targets@);
    }
    match idx_opt {
        None => Ok((0, s)),
        Some(idx) => {
            let n = s.unicode_len();
            let section = s.substring_char(idx + 1, n);
            let val = match parse_dec(section) {
                Ok(v) => v,
                Err(e) => {
                    proof {
                        if e == Error::Overflow {
                            assert(dec_val(section@) * multiplier >= dec_val(section@) * 1)
                                by (nonlinear_arith)
                                requires
                                    dec_val(section@) >= 0,
                                    multiplier >= 1,
                            ;
                        }
                    }
                    return Err(e);
                },
            };
            if val > (i64::MAX as u64) {
                proof {
                    assert(dec_val(section@) * multiplier >= dec_val(section@) * 1)
                        by (nonlinear_arith)
                        requires
                            dec_val(section@) >= 0,
                            multiplier >= 1,
                    ;
                }
                return Err(Error::Overflow);
            }
            let vi = val as i64;
            match vi.checked_mul(multiplier) {
                None => {
                    proof {
                        assert(vi * multiplier >= 0) by (nonlinear_arith)
                            requires
                                vi >= 0,
                                multiplier >= 1,
                        ;
                    }
                    Err(Error::Overflow)
                },
                Some(p) => {
                    proof {
                        assert(p >= 0) by (nonlinear_arith)
                            requires
                                p == vi * multiplier,
                                vi >= 0,
                                multiplier >= 1,
                        ;
                    }
                    let rem = s.substring_char(0, idx);
                    Ok((p, rem))
                },
            }
        },
    }
}

/// Strip the combined seconds-and-milliseconds segment: the token must
/// end in `S`; the digits after the last boundary are milliseconds.
pub fn extract_ms<'a>(s: &'a str) -> (r: Result<(i64, &'a str), Error>)
    ensures
        match extract_ms_spec(s@) {
            Ok((v, rem)) => r matches Ok((rv, rs)) && rv as int == v && rs@ == rem && rv >= 0,
            Err(e) => r matches Err(e2) && e2 == e,
        },
{
    let n = s.unicode_len();
    if n == 0 {
        return Err(Error::MalformedSuffix);
    }
    if s.get_char(n - 1) != 'S' {
        return Err(Error::MalformedSuffix);
    }
    let body = s.substring_char(0, n - 1);
    proof {
        assert(body@ =~= s@.drop_last());
    }
    let targets = ['.', 'M', 'H', 'T'];
    proof {
        assert(targets@ =~= ms_targets());
    }
    extract_segment(body, targets.as_slice(), 1)
}

/// Strip the whole-seconds segment; each counts one thousand milliseconds.
pub fn extract_seconds<'a>(s: &'a str) -> (r: Result<(i64, &'a str), Error>)
    ensures
        match extract_segment_spec(s@, sec_targets(), ONE_SECOND as int) {
            Ok((v, rem)) => r matches Ok((rv, rs)) && rv as int == v && rs@ == rem && rv >= 0,
            Err(e) => r matches Err(e2) && e2 == e,
        },
{
    let targets = ['M', 'H', 'T'];
    proof {
        assert(targets@ =~= sec_targets());
    }
    extract_segment(s, targets.as_slice(), ONE_SECOND)
}

/// Strip the minutes segment; each counts sixty thousand milliseconds.
pub fn extract_minutes<'a>(s: &'a str) -> (r: Result<(i64, &'a str), Error>)
    ensures
        match extract_segment_spec(s@, min_targets(), ONE_MINUTE as int) {
            Ok((v, rem)) => r matches Ok((rv, rs)) && rv as int == v && rs@ == rem && rv >= 0,
            Err(e) => r matches Err(e2) && e2 == e,
        },
{
    let targets = ['H', 'T'];
    proof {
        assert(targets@ =~= min_targets());
    }
    extract_segment(s, targets.as_slice(), ONE_MINUTE)
}

/// Strip the hours segment; each counts 3.6 million milliseconds.
pub fn extract_hours<'a>(s: &'a str) -> (r: Result<(i64, &'a str), Error>)
    ensures
        match extract_segment_spec(s@, hour_targets(), ONE_HOUR as int) {
            Ok((v, rem)) => r matches Ok((rv, rs)) && rv as int == v && rs@ == rem && rv >= 0,
            Err(e) => r matches Err(e2) && e2 == e,
        },
{
    let targets = ['T'];
    proof {
        assert(targets@ =~= hour_targets());
    }
    extract_segment(s, targets.as_slice(), ONE_HOUR)
}

/// Whether the token is exactly the zero marker `P0D`.
fn is_zero_token(s: &str) -> (r: bool)
    ensures
        r == (s@ == zero_token()),
{
    let n = s.unicode_len();
    if n != 3 {
        return false;
    }
    let r = s.get_char(0) == 'P' && s.get_char(1) == '0' && s.get_char(2) == 'D';
    proof {
        if r {
            assert(s@ =~= zero_token());
        } else {
            assert(s@ != zero_token());
        }
    }
    r
}

/// Decode a duration token into its count of milliseconds.
pub fn parse_moment_duration(s: &str) -> (r: Result<i64, Error>)
    ensures
        match decode_spec(s@) {
            Ok(m) => r matches Ok(v) && v as int == m && v >= 0,
            Err(e) => r matches Err(e2) && e2 == e,
        },
{
    if is_zero_token(s) {
        return Ok(0);
    }
    let n = s.unicode_len();
    if n == 0 {
        return Err(Error::MalformedPrefix);
    }
    if s.get_char(0) != 'P' {
        return Err(Error::MalformedPrefix);
    }
    let rest = s.substring_char(1, n);
    let (ms, rest) = match extract_ms(rest) {
        Ok(p) => p,
        Err(e) => {
            return Err(e);
        },
    };
    let (sec, rest) = match extract_seconds(rest) {
        Ok(p) => p,
        Err(e) => {
            return Err(e);
        },
    };
    let (min, rest) = match extract_minutes(rest) {
        Ok(p) => p,
        Err(e) => {
            return Err(e);
        },
    };
    let (hrs, _) = match extract_hours(rest) {
        Ok(p) => p,
        Err(e) => {
            return Err(e);
        },
    };
    let hm = match hrs.checked_add(min) {
        Some(x) => x,
        None => {
            return Err(Error::Overflow);
        },
    };
    let hms = match hm.checked_add(sec) {
        Some(x) => x,
        None => {
            return Err(Error::Overflow);
        },
    };
    match hms.checked_add(ms) {
        Some(total) => Ok(total),
        None => Err(Error::Overflow),
    }
}

/// Encode a non-negative count of milliseconds as a duration token.
pub fn serialize_duration(ms: i64) -> (r: Result<String, Error>)
    ensures
        match r {
            Ok(s) => ms >= 0 && s@ == encode_spec(ms as int),
            Err(e) => ms < 0 && e == Error::NegativeDuration,
        },
{
    if ms < 0 {
        return Err(Error::NegativeDuration);
    }
    if ms == 0 {
        let s = String::from_str("P0D");
        proof {
            reveal_strlit("P0D");
            assert(s@ =~= zero_token());
        }
        return Ok(s);
    }
    let msu = ms as u64;
    let h = msu / (ONE_HOUR as u64);
    let r1 = msu % (ONE_HOUR as u64);
    let mi = r1 / (ONE_MINUTE as u64);
    let r2 = r1 % (ONE_MINUTE as u64);
    let se = r2 / (ONE_SECOND as u64);
    let msr = r2 % (ONE_SECOND as u64);
    let mut out = String::from_str("PT");
    let hs = dec_to_string(h);
    out.append(hs.as_str());
    out.append("H");
    let mis = dec_to_string(mi);
    out.append(mis.as_str());
    out.append("M");
    let ses = dec_to_string(se);
    out.append(ses.as_str());
    out.append(".");
    let msrs = dec_to_string(msr);
    out.append(msrs.as_str());
    out.append("S");
    proof {
        reveal_strlit("PT");
        reveal_strlit("H");
        reveal_strlit("M");
        reveal_strlit(".");
        reveal_strlit("S");
        assert(out@ =~= encode_spec(ms as int));
    }
    Ok(out)
}

} // verus!
