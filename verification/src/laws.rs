//! The codec's laws: every token the encoder produces is accepted by the
//! decoder and decodes to the count that produced it; re-encoding that
//! count reproduces the token; the zero marker is canonical in both
//! directions; and a token whose segments are out of descending unit
//! order is rejected.

use vstd::prelude::*;
use vstd::arithmetic::div_mod::{
    lemma_fundamental_div_mod,
    lemma_mod_division_less_than_divisor,
    lemma_div_pos_is_pos,
    lemma_div_is_ordered,
};

use crate::Error;
use crate::codec::{
    decode_spec, encode_spec, extract_segment_spec, extract_ms_spec, zero_token, ms_targets,
    sec_targets, min_targets, hour_targets, ONE_HOUR, ONE_MINUTE, ONE_SECOND,
};
use crate::digits::{
    all_digits, dec_val, dec_str, is_digit, lemma_dec_str_digits, lemma_dec_val_dec_str,
    lemma_dec_val_nonneg,
};
use crate::scan::{rfind, lemma_rfind_concat};

verus! {

/// A string of digits holds no boundary character.
proof fn lemma_no_targets_in_digits(s: Seq<char>, targets: Seq<char>)
    requires
        all_digits(s),
        forall|i: int| 0 <= i < targets.len() ==> !is_digit(#[trigger] targets[i]),
    ensures
        forall|j: int| 0 <= j < s.len() ==> !targets.contains(#[trigger] s[j]),
{
    assert forall|j: int| 0 <= j < s.len() implies !targets.contains(#[trigger] s[j]) by {
        if targets.contains(s[j]) {
            let i = choose|i: int| 0 <= i < targets.len() && targets[i] == s[j];
            assert(!is_digit(targets[i]));
        }
    }
}

/// Extracting from `pre · b · digits` consumes exactly the digit section
/// and the boundary, and contributes the section's value times the
/// segment's multiplier.
proof fn lemma_extract_digits(
    pre: Seq<char>,
    b: char,
    digits: Seq<char>,
    targets: Seq<char>,
    multiplier: int,
)
    requires
        targets.contains(b),
        forall|i: int| 0 <= i < targets.len() ==> !is_digit(#[trigger] targets[i]),
        all_digits(digits),
        digits.len() >= 1,
        0 <= dec_val(digits) * multiplier <= i64::MAX as int,
    ensures
        extract_segment_spec(pre + seq![b] + digits, targets, multiplier) == Ok::<
            (int, Seq<char>),
            Error,
        >((dec_val(digits) * multiplier, pre)),
{
    let s = pre + seq![b] + digits;
    lemma_no_targets_in_digits(digits, targets);
    lemma_rfind_concat(pre, b, digits, targets);
    assert(rfind(s, targets) == pre.len());
    assert(s.subrange(pre.len() as int + 1, s.len() as int) =~= digits);
    assert(s.subrange(0, pre.len() as int) =~= pre);
}

/// Zero canonicalization: the zero marker decodes to zero, and zero
/// encodes to the zero marker.
pub proof fn lemma_zero_round_trip()
    ensures
        decode_spec(zero_token()) == Ok::<int, Error>(0),
        encode_spec(0) == zero_token(),
{
}

/// Round-trip law: decoding what the encoder produced yields the count
/// that produced it, for every representable non-negative count.
pub proof fn lemma_round_trip(m: int)
    requires
        0 <= m <= i64::MAX as int,
    ensures
        decode_spec(encode_spec(m)) == Ok::<int, Error>(m),
{
    if m == 0 {
        lemma_zero_round_trip();
    } else {
        let oh = ONE_HOUR as int;
        let om = ONE_MINUTE as int;
        let os = ONE_SECOND as int;
        let h = m / oh;
        let r1 = m % oh;
        let mi = r1 / om;
        let r2 = r1 % om;
        let se = r2 / os;
        let msr = r2 % os;
        lemma_fundamental_div_mod(m, oh);
        lemma_mod_division_less_than_divisor(m, oh);
        lemma_div_pos_is_pos(m, oh);
        lemma_fundamental_div_mod(r1, om);
        lemma_mod_division_less_than_divisor(r1, om);
        lemma_div_pos_is_pos(r1, om);
        lemma_fundamental_div_mod(r2, os);
        lemma_mod_division_less_than_divisor(r2, os);
        lemma_div_pos_is_pos(r2, os);
        assert(mi <= 59) by {
            lemma_div_is_ordered(r1, oh - 1, om);
        }
        assert(se <= 59) by {
            lemma_div_is_ordered(r2, om - 1, os);
        }
        let hs = dec_str(h);
        let mis = dec_str(mi);
        let ses = dec_str(se);
        let msrs = dec_str(msr);
        lemma_dec_str_digits(h);
        lemma_dec_val_dec_str(h);
        lemma_dec_str_digits(mi);
        lemma_dec_val_dec_str(mi);
        lemma_dec_str_digits(se);
        lemma_dec_val_dec_str(se);
        lemma_dec_str_digits(msr);
        lemma_dec_val_dec_str(msr);
        let t = encode_spec(m);
        assert(t == seq!['P', 'T'] + hs + seq!['H'] + mis + seq!['M'] + ses + seq!['.'] + msrs
            + seq!['S']);
        assert(t.len() == 6 + hs.len() + mis.len() + ses.len() + msrs.len());
        assert(t != zero_token());
        assert(t[0] == 'P');
        let r0 = t.subrange(1, t.len() as int);
        assert(r0 =~= seq!['T'] + hs + seq!['H'] + mis + seq!['M'] + ses + seq!['.'] + msrs
            + seq!['S']);
        assert(r0.last() == 'S');
        let body = r0.drop_last();
        let pre1 = seq!['T'] + hs + seq!['H'] + mis + seq!['M'] + ses;
        assert(body =~= pre1 + seq!['.'] + msrs);
        assert(ms_targets()[0] == '.');
        lemma_extract_digits(pre1, '.', msrs, ms_targets(), 1);
        assert(extract_ms_spec(r0) == Ok::<(int, Seq<char>), Error>((msr, pre1)));
        let pre2 = seq!['T'] + hs + seq!['H'] + mis;
        assert(pre1 =~= pre2 + seq!['M'] + ses);
        assert(sec_targets()[0] == 'M');
        lemma_extract_digits(pre2, 'M', ses, sec_targets(), os);
        assert(extract_segment_spec(pre1, sec_targets(), os) == Ok::<(int, Seq<char>), Error>(
            (se * os, pre2),
        ));
        let pre3 = seq!['T'] + hs;
        assert(pre2 =~= pre3 + seq!['H'] + mis);
        assert(min_targets()[0] == 'H');
        lemma_extract_digits(pre3, 'H', mis, min_targets(), om);
        assert(extract_segment_spec(pre2, min_targets(), om) == Ok::<(int, Seq<char>), Error>(
            (mi * om, pre3),
        ));
        let pre4 = Seq::<char>::empty();
        assert(pre3 =~= pre4 + seq!['T'] + hs);
        assert(hour_targets()[0] == 'T');
        assert(h * oh <= m);
        lemma_extract_digits(pre4, 'T', hs, hour_targets(), oh);
        assert(extract_segment_spec(pre3, hour_targets(), oh) == Ok::<(int, Seq<char>), Error>(
            (h * oh, pre4),
        ));
        assert(h * oh + mi * om + se * os + msr == m);
        assert(decode_spec(t) == Ok::<int, Error>(m));
    }
}

/// Idempotent re-encoding: encoding the count a token decodes to
/// reproduces the token, for every token the encoder can produce.
pub proof fn lemma_reencode_idempotent(m: int)
    requires
        0 <= m <= i64::MAX as int,
    ensures
        decode_spec(encode_spec(m)) matches Ok(v) && encode_spec(v) == encode_spec(m),
{
    lemma_round_trip(m);
}

/// Segment ordering rejection: a token that writes its minutes segment
/// before its hours segment fails to decode, whatever the four numeric
/// sections are.
pub proof fn lemma_misordered_rejected(a: Seq<char>, b: Seq<char>, c: Seq<char>, d: Seq<char>)
    requires
        a.len() >= 1 && all_digits(a),
        b.len() >= 1 && all_digits(b),
        c.len() >= 1 && all_digits(c),
        d.len() >= 1 && all_digits(d),
    ensures
        decode_spec(
            seq!['P', 'T'] + a + seq!['M'] + b + seq!['H'] + c + seq!['.'] + d + seq!['S'],
        ) is Err,
{
    let os = ONE_SECOND as int;
    let om = ONE_MINUTE as int;
    let t = seq!['P', 'T'] + a + seq!['M'] + b + seq!['H'] + c + seq!['.'] + d + seq!['S'];
    assert(t.len() == 6 + a.len() + b.len() + c.len() + d.len());
    assert(t != zero_token());
    assert(t[0] == 'P');
    let r0 = t.subrange(1, t.len() as int);
    assert(r0 =~= seq!['T'] + a + seq!['M'] + b + seq!['H'] + c + seq!['.'] + d + seq!['S']);
    assert(r0.last() == 'S');
    let body = r0.drop_last();
    let pre1 = seq!['T'] + a + seq!['M'] + b + seq!['H'] + c;
    assert(body =~= pre1 + seq!['.'] + d);
    assert(ms_targets()[0] == '.');
    lemma_dec_val_nonneg(d);
    if dec_val(d) > i64::MAX as int {
        lemma_no_targets_in_digits(d, ms_targets());
        lemma_rfind_concat(pre1, '.', d, ms_targets());
        assert(body.subrange(pre1.len() as int + 1, body.len() as int) =~= d);
        assert(extract_ms_spec(r0) == Err::<(int, Seq<char>), Error>(Error::Overflow));
    } else {
        lemma_extract_digits(pre1, '.', d, ms_targets(), 1);
        assert(extract_ms_spec(r0) == Ok::<(int, Seq<char>), Error>((dec_val(d), pre1)));
        let pre2 = seq!['T'] + a + seq!['M'] + b;
        assert(pre1 =~= pre2 + seq!['H'] + c);
        assert(sec_targets()[1] == 'H');
        lemma_dec_val_nonneg(c);
        if dec_val(c) * os > i64::MAX as int {
            lemma_no_targets_in_digits(c, sec_targets());
            lemma_rfind_concat(pre2, 'H', c, sec_targets());
            assert(pre1.subrange(pre2.len() as int + 1, pre1.len() as int) =~= c);
            assert(extract_segment_spec(pre1, sec_targets(), os) == Err::<
                (int, Seq<char>),
                Error,
            >(Error::Overflow));
        } else {
            lemma_extract_digits(pre2, 'H', c, sec_targets(), os);
            // The minutes scan now lands on the time designator `T`,
            // because the `M` tag sits to the left of the `H` tag it
            // already consumed; the section read back is `a·M·b`, which
            // is not numeric.
            let suf = a + seq!['M'] + b;
            assert(pre2 =~= Seq::<char>::empty() + seq!['T'] + suf);
            assert(min_targets()[0] == 'H' && min_targets()[1] == 'T');
            assert forall|j: int| 0 <= j < suf.len() implies !min_targets().contains(
                #[trigger] suf[j],
            ) by {
                if min_targets().contains(suf[j]) {
                    let i = choose|i: int|
                        0 <= i < min_targets().len() && min_targets()[i] == suf[j];
                    assert(suf[j] == 'H' || suf[j] == 'T');
                    if j < a.len() {
                        assert(suf[j] == a[j]);
                        assert(is_digit(a[j]));
                    } else if j == a.len() {
                        assert(suf[j] == 'M');
                    } else {
                        assert(suf[j] == b[j - a.len() - 1]);
                        assert(is_digit(b[j - a.len() - 1]));
                    }
                }
            }
            lemma_rfind_concat(Seq::<char>::empty(), 'T', suf, min_targets());
            assert(rfind(pre2, min_targets()) == 0);
            let section = pre2.subrange(1, pre2.len() as int);
            assert(section =~= suf);
            assert(suf[a.len() as int] == 'M');
            assert(!is_digit('M'));
            assert(!all_digits(section));
            assert(extract_segment_spec(pre2, min_targets(), om) == Err::<
                (int, Seq<char>),
                Error,
            >(Error::NonNumericSegment));
        }
    }
}

} // verus!
