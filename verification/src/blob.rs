//! The opaque swapper-handshake blob.
//!
//! The create response of a swap is persisted as one opaque string,
//! because its shape evolves with swapper protocol versions, and is
//! decoded lazily at the point of use. The encoding frames each field
//! with its decimal length, so any field content round-trips. Decoding
//! is pure and total, accepts exactly the strings the encoder produces,
//! and re-encoding what was decoded gives the blob back, proven.

use vstd::prelude::*;

use crate::utils::spec_dec_of;
use crate::utils::spec_hex_val;
use crate::utils::str_eq;
use crate::utils::u64_to_dec_string;

verus! {

/// The value of a decimal digit character, or `None` for any other
/// character.
pub open spec fn spec_digit_val(c: char) -> Option<u64> {
    match spec_hex_val(c) {
        Some(v) => if v < 10 {
            Some(v as u64)
        } else {
            None
        },
        None => None,
    }
}

/// The number a digit sequence denotes, read most significant first.
pub open spec fn spec_dec_value(s: Seq<char>) -> int
    decreases s.len(),
{
    if s.len() == 0 {
        0
    } else {
        spec_dec_value(s.drop_last()) * 10 + match spec_digit_val(s.last()) {
            Some(v) => v as int,
            None => 0,
        }
    }
}

/// Whether every character is a decimal digit.
pub open spec fn spec_all_digits(s: Seq<char>) -> bool {
    forall|i: int| 0 <= i < s.len() ==> spec_digit_val(#[trigger] s[i]) is Some
}

/// Rendering a number and reading it back gives the number: its decimal
/// rendering consists of digits and carries its value.
pub proof fn lemma_dec_round_trip(n: u64)
    ensures
        spec_all_digits(spec_dec_of(n as nat)),
        spec_dec_value(spec_dec_of(n as nat)) == n,
        spec_dec_of(n as nat).len() >= 1,
    decreases n,
{
    if n < 10 {
        assert(spec_dec_of(n as nat) == seq![crate::utils::spec_hex_char(n as u8)]);
        assert(spec_dec_of(n as nat).drop_last() =~= Seq::<char>::empty());
        assert(spec_digit_val(crate::utils::spec_hex_char(n as u8)) == Some(n));
        assert(spec_dec_value(spec_dec_of(n as nat)) == spec_dec_value(Seq::<char>::empty()) * 10
            + n);
    } else {
        lemma_dec_round_trip(n / 10);
        let s = spec_dec_of(n as nat);
        assert(s == spec_dec_of((n / 10) as nat) + seq![
            crate::utils::spec_hex_char((n % 10) as u8),
        ]);
        assert(s.drop_last() =~= spec_dec_of((n / 10) as nat));
        assert(s.last() == crate::utils::spec_hex_char((n % 10) as u8));
        assert(spec_digit_val(crate::utils::spec_hex_char((n % 10) as u8)) == Some(n % 10));
        assert(spec_dec_value(s) == spec_dec_value(spec_dec_of((n / 10) as nat)) * 10 + n % 10);
        assert forall|i: int| 0 <= i < s.len() implies spec_digit_val(#[trigger] s[i]) is Some by {
            if i < s.len() - 1 {
                assert(s[i] == spec_dec_of((n / 10) as nat)[i]);
            }
        }
    }
}

/// A digit run's value is non-negative and no prefix of it is worth
/// more than the whole.
pub proof fn lemma_dec_value_take_le(s: Seq<char>, k: int)
    requires
        0 <= k <= s.len(),
        spec_all_digits(s),
    ensures
        0 <= spec_dec_value(s.take(k)),
        spec_dec_value(s.take(k)) <= spec_dec_value(s),
    decreases s.len() - k,
{
    if k == s.len() {
        assert(s.take(k) =~= s);
        lemma_dec_value_nonneg(s);
    } else {
        lemma_dec_value_take_le(s, k + 1);
        assert(s.take(k + 1).drop_last() =~= s.take(k));
        assert(s.take(k + 1).last() == s[k]);
        lemma_dec_value_nonneg(s.take(k));
        assert(spec_dec_value(s.take(k + 1)) == spec_dec_value(s.take(k)) * 10 + match spec_digit_val(
            s[k],
        ) {
            Some(v) => v as int,
            None => 0,
        });
    }
}

/// A digit run's value is non-negative.
pub proof fn lemma_dec_value_nonneg(s: Seq<char>)
    ensures
        0 <= spec_dec_value(s),
    decreases s.len(),
{
    if s.len() > 0 {
        lemma_dec_value_nonneg(s.drop_last());
    }
}

fn digit_val(c: char) -> (r: Option<u64>)
    ensures
        r == spec_digit_val(c),
{
    match c {
        '0' => Some(0),
        '1' => Some(1),
        '2' => Some(2),
        '3' => Some(3),
        '4' => Some(4),
        '5' => Some(5),
        '6' => Some(6),
        '7' => Some(7),
        '8' => Some(8),
        '9' => Some(9),
        _ => None,
    }
}

/// The framing of one field: its length in decimal, a colon, and the
/// field's characters.
pub open spec fn spec_framed(field: Seq<char>) -> Seq<char> {
    spec_dec_of(field.len() as nat) + seq![':'] + field
}

/// The framing of a whole field list, in order.
pub open spec fn spec_framed_all(fields: Seq<Seq<char>>) -> Seq<char>
    decreases fields.len(),
{
    if fields.len() == 0 {
        Seq::empty()
    } else {
        spec_framed(fields.first()) + spec_framed_all(fields.drop_first())
    }
}

/// Appending a field extends the framing by that field's frame.
pub proof fn lemma_framed_all_push(fields: Seq<Seq<char>>, field: Seq<char>)
    ensures
        spec_framed_all(fields.push(field)) =~= spec_framed_all(fields) + spec_framed(field),
    decreases fields.len(),
{
    if fields.len() == 0 {
        assert(fields.push(field).len() == 1);
        assert(fields.push(field).first() == field);
        assert(fields.push(field).drop_first() =~= Seq::<Seq<char>>::empty());
        assert(spec_framed_all(fields.push(field)) == spec_framed(field) + spec_framed_all(
            fields.push(field).drop_first(),
        ));
        assert(spec_framed_all(Seq::<Seq<char>>::empty()) == Seq::<char>::empty());
        assert(spec_framed_all(fields) + spec_framed(field) =~= spec_framed(field) + Seq::<
            char,
        >::empty());
    } else {
        lemma_framed_all_push(fields.drop_first(), field);
        assert(fields.push(field).first() == fields.first());
        assert(fields.push(field).drop_first() =~= fields.drop_first().push(field));
        assert(spec_framed_all(fields.push(field)) == spec_framed(fields.first())
            + spec_framed_all(fields.drop_first().push(field)));
        assert(spec_framed_all(fields) == spec_framed(fields.first()) + spec_framed_all(
            fields.drop_first(),
        ));
        assert(spec_framed(fields.first()) + (spec_framed_all(fields.drop_first()) + spec_framed(
            field,
        )) =~= (spec_framed(fields.first()) + spec_framed_all(fields.drop_first())) + spec_framed(
            field,
        ));
    }
}

/// Encodes a field list as one blob string.
pub fn encode_fields(fields: &Vec<String>) -> (r: String)
    ensures
        r@ == spec_framed_all(fields.deep_view()),
{
    let mut out = String::new();
    let n = fields.len();
    let mut i: usize = 0;
    proof {
        assert(fields.deep_view().skip(0) =~= fields.deep_view());
    }
    while i < n
        invariant
            n == fields.deep_view().len(),
            i <= n,
            out@ + spec_framed_all(fields.deep_view().skip(i as int)) =~= spec_framed_all(
                fields.deep_view(),
            ),
        decreases n - i,
    {
        proof {
            assert(fields.deep_view().skip(i as int).first() == fields.deep_view()[i as int]);
            assert(fields.deep_view().skip(i as int).drop_first() =~= fields.deep_view().skip(
                i as int + 1,
            ));
        }
        let ghost before = out@;
        let field = &fields[i];
        let len_dec = u64_to_dec_string(field.unicode_len() as u64);
        out.append(len_dec.as_str());
        out.append(":");
        out.append(field.as_str());
        proof {
            reveal_strlit(":");
            assert(fields.deep_view()[i as int] == field@);
            assert(out@ =~= before + spec_framed(field@));
            assert(out@ + spec_framed_all(fields.deep_view().skip(i as int + 1))
                =~= spec_framed_all(fields.deep_view()));
        }
        i = i + 1;
    }
    proof {
        assert(fields.deep_view().skip(n as int) =~= Seq::<Seq<char>>::empty());
        assert(out@ + Seq::<char>::empty() =~= out@);
    }
    out
}

/// The head of a non-empty framing: the rendered length, the colon and
/// the first field sit at the front, the rest of the framing follows,
/// and the rendered length is the one maximal digit run at the front.
proof fn lemma_frame_head(blob: Seq<char>, i: int, fields: Seq<Seq<char>>)
    requires
        0 <= i <= blob.len(),
        blob.len() <= u64::MAX,
        blob.skip(i) == spec_framed_all(fields),
        fields.len() > 0,
    ensures
        ({
            let f0 = fields.first();
            let d = spec_dec_of(f0.len() as nat);
            &&& d.len() >= 1
            &&& spec_all_digits(d)
            &&& spec_dec_value(d) == f0.len()
            &&& i + d.len() + 1 + f0.len() <= blob.len()
            &&& blob.subrange(i, i + d.len()) == d
            &&& blob[i + d.len()] == ':'
            &&& blob.subrange(i + d.len() + 1, i + d.len() + 1 + f0.len()) == f0
            &&& blob.skip(i + d.len() + 1 + f0.len()) == spec_framed_all(fields.drop_first())
            &&& spec_digit_val(blob[i]) is Some
            &&& (forall|e: int|
                i < e <= blob.len() && spec_all_digits(#[trigger] blob.subrange(i, e)) ==> e - i
                    <= d.len() && spec_dec_value(blob.subrange(i, e)) <= f0.len())
            &&& (forall|e: int|
                i < e <= blob.len() && spec_all_digits(#[trigger] blob.subrange(i, e)) && (e
                    == blob.len() || spec_digit_val(blob[e]) is None) ==> blob.subrange(i, e) == d)
        }),
{
    let f0 = fields.first();
    let d = spec_dec_of(f0.len() as nat);
    let rest = spec_framed_all(fields.drop_first());
    assert(spec_framed_all(fields) == spec_framed(f0) + rest);
    assert(spec_framed(f0) == d + seq![':'] + f0);
    assert(blob.skip(i).len() == blob.len() - i);
    assert(blob.len() - i == d.len() + 1 + f0.len() + rest.len());
    assert(f0.len() <= u64::MAX);
    lemma_dec_round_trip(f0.len() as u64);
    assert(spec_dec_of((f0.len() as u64) as nat) == d);
    assert forall|k: int| 0 <= k < blob.len() - i implies blob[i + k] == blob.skip(i)[k] by {}
    assert(blob.subrange(i, i + d.len()) =~= d);
    assert(blob[i + d.len()] == blob.skip(i)[d.len() as int]);
    assert forall|k: int|
        0 <= k < f0.len() implies blob.subrange(i + d.len() + 1, i + d.len() + 1 + f0.len())[k]
        == f0[k] by {
        assert(blob.subrange(i + d.len() + 1, i + d.len() + 1 + f0.len())[k] == blob[i + d.len()
            + 1 + k]);
        assert(blob[i + d.len() + 1 + k] == blob.skip(i)[d.len() + 1 + k]);
        assert(blob.skip(i)[d.len() + 1 + k] == (spec_framed(f0) + rest)[d.len() + 1 + k]);
        assert((spec_framed(f0) + rest)[d.len() + 1 + k] == spec_framed(f0)[d.len() + 1 + k]);
        assert(spec_framed(f0)[d.len() + 1 + k] == f0[k]);
    }
    assert(blob.subrange(i + d.len() + 1, i + d.len() + 1 + f0.len()) =~= f0);
    assert forall|k: int|
        0 <= k < rest.len() implies blob.skip(i + d.len() + 1 + f0.len())[k] == rest[k] by {
        assert(blob.skip(i + d.len() + 1 + f0.len())[k] == blob[i + d.len() + 1 + f0.len() + k]);
        assert(blob[i + d.len() + 1 + f0.len() + k] == blob.skip(i)[d.len() + 1 + f0.len() + k]);
        assert(blob.skip(i)[d.len() + 1 + f0.len() + k] == (spec_framed(f0) + rest)[d.len() + 1
            + f0.len() + k]);
        assert((spec_framed(f0) + rest)[d.len() + 1 + f0.len() + k] == rest[k]);
    }
    assert(blob.skip(i + d.len() + 1 + f0.len()) =~= rest);
    assert(blob[i] == d[0]);
    assert forall|e: int|
        i < e <= blob.len() && spec_all_digits(#[trigger] blob.subrange(i, e)) implies e - i
        <= d.len() && spec_dec_value(blob.subrange(i, e)) <= f0.len() by {
        if e - i > d.len() {
            assert(blob.subrange(i, e)[d.len() as int] == blob[i + d.len()]);
            assert(spec_digit_val(':') is None);
        }
        assert(blob.subrange(i, e) =~= d.take(e - i));
        lemma_dec_value_take_le(d, e - i);
    }
    assert forall|e: int|
        i < e <= blob.len() && spec_all_digits(#[trigger] blob.subrange(i, e)) && (e == blob.len()
            || spec_digit_val(blob[e]) is None) implies blob.subrange(i, e) == d by {
        assert(e - i <= d.len());
        if e - i < d.len() {
            assert(e < i + d.len() + 1 + f0.len());
            assert(blob[e] == d[e - i]);
        }
        assert(blob.subrange(i, e) =~= d);
    }
}

/// Parses a decimal run of `s` starting at `from`/// Parses a decimal run of `s` starting at `from`, stopping at the
/// first non-digit: the run's digits carry the returned value, and the
/// run is maximal. `None` exactly when no digit starts at `from` or a
/// digit run's value leaves the 64-bit range.
fn parse_dec_prefix(s: &str, from: usize) -> (r: Option<(u64, usize)>)
    requires
        from <= s@.len(),
    ensures
        r matches Some(p) ==> {
            &&& from < p.1 <= s@.len()
            &&& spec_all_digits(s@.subrange(from as int, p.1 as int))
            &&& spec_dec_value(s@.subrange(from as int, p.1 as int)) == p.0
            &&& (p.1 < s@.len() ==> spec_digit_val(s@[p.1 as int]) is None)
        },
        r is None ==> (from == s@.len() || spec_digit_val(s@[from as int]) is None || exists|
            e: int,
        |
            from < e <= s@.len() && spec_all_digits(s@.subrange(from as int, e))
                && spec_dec_value(s@.subrange(from as int, e)) > u64::MAX),
{
    let n = s.unicode_len();
    let mut acc: u64 = 0;
    let mut i: usize = from;
    proof {
        assert(s@.subrange(from as int, from as int) =~= Seq::<char>::empty());
    }
    while i < n
        invariant
            from <= i <= n,
            n == s@.len(),
            spec_all_digits(s@.subrange(from as int, i as int)),
            spec_dec_value(s@.subrange(from as int, i as int)) == acc,
        decreases n - i,
    {
        let c = s.get_char(i);
        match digit_val(c) {
            Some(d) => {
                proof {
                    assert(s@.subrange(from as int, i as int + 1).drop_last() =~= s@.subrange(
                        from as int,
                        i as int,
                    ));
                    assert(s@.subrange(from as int, i as int + 1).last() == s@[i as int]);
                }
                let next = (acc as u128) * 10 + (d as u128);
                if next > u64::MAX as u128 {
                    proof {
                        assert(spec_dec_value(s@.subrange(from as int, i as int + 1)) == acc * 10
                            + d);
                        assert(spec_all_digits(s@.subrange(from as int, i as int + 1)));
                    }
                    return None;
                }
                acc = next as u64;
                i = i + 1;
            },
            None => {
                if i == from {
                    return None;
                }
                return Some((acc, i));
            },
        }
    }
    if i == from {
        return None;
    }
    Some((acc, i))
}

/// Decodes a blob string back into its field list: `None` unless the
/// string is exactly a framing the encoder produces. Decoding is the
/// encoder's inverse both ways: re-encoding the result gives the blob
/// back, and every framed string decodes.
#[verifier::rlimit(100)]
pub fn decode_fields(blob: &str) -> (r: Option<Vec<String>>)
    ensures
        r matches Some(v) ==> blob@ == spec_framed_all(v.deep_view()),
        (exists|fields: Seq<Seq<char>>| blob@ == spec_framed_all(fields)) ==> r is Some,
{
    let n = blob.unicode_len();
    let mut out: Vec<String> = Vec::new();
    let mut i: usize = 0;
    proof {
        assert(blob@.skip(0) =~= blob@);
        if exists|fields: Seq<Seq<char>>| blob@ == spec_framed_all(fields) {
            let fs = choose|fields: Seq<Seq<char>>| blob@ == spec_framed_all(fields);
            assert(blob@.skip(0) == spec_framed_all(fs));
        }
    }
    while i < n
        invariant
            n == blob@.len(),
            i <= n,
            spec_framed_all(out.deep_view()) + blob@.skip(i as int) =~= blob@,
            (exists|fields: Seq<Seq<char>>| blob@ == spec_framed_all(fields)) ==> exists|
                fields: Seq<Seq<char>>,
            | blob@.skip(i as int) == spec_framed_all(fields),
        decreases n - i,
    {
        let ghost whole_framed = exists|fields: Seq<Seq<char>>|
            blob@ == spec_framed_all(fields);
        let ghost fs: Seq<Seq<char>> = if whole_framed {
            choose|fields: Seq<Seq<char>>| blob@.skip(i as int) == spec_framed_all(fields)
        } else {
            Seq::empty()
        };
        proof {
            if whole_framed {
                if fs.len() == 0 {
                    assert(blob@.skip(i as int).len() == 0);
                }
                lemma_frame_head(blob@, i as int, fs);
            }
        }
        let ghost d = spec_dec_of(fs.first().len() as nat);
        let (len, after_digits) = match parse_dec_prefix(blob, i) {
            Some(p) => p,
            None => {
                proof {
                    if whole_framed {
                        assert(false);
                    }
                }
                return None;
            },
        };
        proof {
            if whole_framed {
                assert(blob@.subrange(i as int, after_digits as int) == d);
                assert(len == fs.first().len());
            }
        }
        // The length run must be the canonical rendering, so that the
        // frame re-encodes to the same characters.
        let digits = blob.substring_char(i, after_digits);
        let canonical = u64_to_dec_string(len);
        if !str_eq(digits, canonical.as_str()) {
            proof {
                if whole_framed {
                    assert(canonical@ == spec_dec_of(fs.first().len() as nat));
                    assert(false);
                }
            }
            return None;
        }
        if after_digits >= n {
            proof {
                if whole_framed {
                    assert(i + d.len() < n);
                    assert(false);
                }
            }
            return None;
        }
        if blob.get_char(after_digits) != ':' {
            proof {
                if whole_framed {
                    assert(blob@[after_digits as int] == ':');
                    assert(false);
                }
            }
            return None;
        }
        let body_start = after_digits + 1;
        if len > (n - body_start) as u64 {
            proof {
                if whole_framed {
                    assert(i + d.len() + 1 + fs.first().len() <= n);
                    assert(false);
                }
            }
            return None;
        }
        let body_end = body_start + (len as usize);
        let field = blob.substring_char(body_start, body_end).to_owned();
        proof {
            assert(blob@.skip(i as int) =~= blob@.subrange(i as int, after_digits as int) + seq![
                blob@[after_digits as int],
            ] + blob@.subrange(body_start as int, body_end as int) + blob@.skip(body_end as int));
            assert(spec_framed(field@) =~= spec_dec_of(len as nat) + seq![':'] + field@);
            assert(spec_framed(field@) =~= blob@.subrange(i as int, after_digits as int) + seq![
                ':',
            ] + blob@.subrange(body_start as int, body_end as int));
            if whole_framed {
                assert(field@ == blob@.subrange(
                    i as int + d.len() + 1,
                    i as int + d.len() + 1 + fs.first().len(),
                ));
                assert(blob@.skip(body_end as int) == spec_framed_all(fs.drop_first()));
            }
        }
        let ghost out_before = out.deep_view();
        let ghost field_view = field@;
        out.push(field);
        proof {
            assert(out.deep_view() =~= out_before.push(field_view));
            lemma_framed_all_push(out_before, field_view);
            assert(spec_framed_all(out.deep_view()) + blob@.skip(body_end as int) =~= blob@);
        }
        i = body_end;
    }
    proof {
        assert(blob@.skip(n as int) =~= Seq::<char>::empty());
        assert(spec_framed_all(out.deep_view()) + Seq::<char>::empty() =~= spec_framed_all(
            out.deep_view(),
        ));
    }
    Some(out)
}

/// Parses a whole string as a canonically rendered number: succeeds
/// exactly on the decimal rendering of a 64-bit value.
fn parse_u64_canonical(s: &str) -> (r: Option<u64>)
    ensures
        r matches Some(v) ==> s@ == spec_dec_of(v as nat),
        (exists|v: u64| s@ == spec_dec_of(v as nat)) ==> r is Some,
{
    let ghost rendered = exists|v: u64| s@ == spec_dec_of(v as nat);
    let ghost v0: u64 = if rendered {
        choose|v: u64| s@ == spec_dec_of(v as nat)
    } else {
        0
    };
    proof {
        if rendered {
            lemma_dec_round_trip(v0);
        }
    }
    let n = s.unicode_len();
    let (v, end) = match parse_dec_prefix(s, 0) {
        Some(p) => p,
        None => {
            proof {
                if rendered {
                    if exists|e: int|
                        0 < e <= s@.len() && spec_all_digits(s@.subrange(0, e)) && spec_dec_value(
                            s@.subrange(0, e),
                        ) > u64::MAX {
                        let e = choose|e: int|
                            0 < e <= s@.len() && spec_all_digits(s@.subrange(0, e))
                                && spec_dec_value(s@.subrange(0, e)) > u64::MAX;
                        assert(s@.subrange(0, e) =~= s@.take(e));
                        lemma_dec_value_take_le(s@, e);
                    }
                    assert(false);
                }
            }
            return None;
        },
    };
    if end != n {
        proof {
            if rendered {
                assert(spec_digit_val(s@[end as int]) is Some);
                assert(false);
            }
        }
        return None;
    }
    let canonical = u64_to_dec_string(v);
    if !str_eq(s, canonical.as_str()) {
        proof {
            if rendered {
                assert(s@.subrange(0, n as int) =~= s@);
                assert(v == spec_dec_value(s@));
                assert(canonical@ == s@);
                assert(false);
            }
        }
        return None;
    }
    proof {
        assert(s@.subrange(0, n as int) =~= s@);
    }
    Some(v)
}

/// Framing is injective: equal framings come from equal field lists.
pub proof fn lemma_framed_all_injective(a: Seq<Seq<char>>, b: Seq<Seq<char>>)
    requires
        spec_framed_all(a) == spec_framed_all(b),
        spec_framed_all(a).len() <= u64::MAX,
    ensures
        a =~= b,
    decreases a.len(),
{
    let blob = spec_framed_all(a);
    assert(blob.skip(0) =~= blob);
    if a.len() == 0 {
        if b.len() > 0 {
            lemma_frame_head(blob, 0, b);
        }
    } else if b.len() == 0 {
        lemma_frame_head(blob, 0, a);
    } else {
        lemma_frame_head(blob, 0, a);
        lemma_frame_head(blob, 0, b);
        let da = spec_dec_of(a.first().len() as nat);
        let db = spec_dec_of(b.first().len() as nat);
        assert(spec_all_digits(blob.subrange(0, db.len() as int)));
        assert(spec_digit_val(blob[db.len() as int]) is None);
        assert(blob.subrange(0, db.len() as int) == da);
        assert(da == db);
        assert(a.first().len() == spec_dec_value(da) && b.first().len() == spec_dec_value(db));
        assert(a.first() == blob.subrange(
            da.len() as int + 1,
            da.len() as int + 1 + a.first().len() as int,
        ) && b.first() == blob.subrange(
            db.len() as int + 1,
            db.len() as int + 1 + b.first().len() as int,
        ));
        assert(spec_framed_all(a.drop_first()) == spec_framed_all(b.drop_first()));
        assert(spec_framed_all(a.drop_first()).len() <= u64::MAX);
        lemma_framed_all_injective(a.drop_first(), b.drop_first());
        assert forall|k: int| 0 <= k < a.len() implies a[k] == b[k] by {
            if k > 0 {
                assert(a[k] == a.drop_first()[k - 1] && b[k] == b.drop_first()[k - 1]);
            }
        }
    }
}

/// The swapper's create response for a Send (submarine) swap, reduced
/// to the plain values the wallet needs to lock up and to refund.
#[derive(Clone, Debug, PartialEq)]
pub struct SubmarineCreateResponse {
    /// The confidential Liquid address the lockup pays.
    pub address: String,
    /// The amount the swapper expects locked, in satoshi.
    pub expected_amount_sat: u64,
    pub claim_public_key: String,
    pub timeout_block_height: u32,
    pub blinding_key: String,
    /// The swap tree, serialized by the swapper client.
    pub swap_tree: String,
}

/// The field views a Send create response frames into its blob.
pub open spec fn spec_submarine_blob_fields(r: SubmarineCreateResponse) -> Seq<Seq<char>> {
    seq![
        r.address@,
        spec_dec_of(r.expected_amount_sat as nat),
        r.claim_public_key@,
        spec_dec_of(r.timeout_block_height as nat),
        r.blinding_key@,
        r.swap_tree@,
    ]
}

impl SubmarineCreateResponse {
    /// Serializes the response as the opaque blob the store keeps.
    pub fn encode(&self) -> (r: String)
        ensures
            r@ == spec_framed_all(spec_submarine_blob_fields(*self)),
    {
        let mut fields: Vec<String> = Vec::new();
        fields.push(self.address.clone());
        fields.push(u64_to_dec_string(self.expected_amount_sat));
        fields.push(self.claim_public_key.clone());
        fields.push(u64_to_dec_string(self.timeout_block_height as u64));
        fields.push(self.blinding_key.clone());
        fields.push(self.swap_tree.clone());
        let out = encode_fields(&fields);
        proof {
            assert(fields.deep_view() =~= spec_submarine_blob_fields(*self));
        }
        out
    }

    /// Deserializes a blob; pure, and accepts exactly the strings
    /// `encode` produces: re-encoding the result gives the blob back,
    /// and every encoded response decodes.
    pub fn decode(blob: &str) -> (r: Option<SubmarineCreateResponse>)
        ensures
            r matches Some(resp) ==> blob@ == spec_framed_all(spec_submarine_blob_fields(resp)),
            (exists|x: SubmarineCreateResponse|
                blob@ == spec_framed_all(spec_submarine_blob_fields(x))) ==> r is Some,
    {
        let ghost encoded = exists|x: SubmarineCreateResponse|
            blob@ == spec_framed_all(spec_submarine_blob_fields(x));
        let ghost x0: SubmarineCreateResponse = if encoded {
            choose|x: SubmarineCreateResponse|
                blob@ == spec_framed_all(spec_submarine_blob_fields(x))
        } else {
            vstd::pervasive::arbitrary()
        };
        // The character length, needed only to place the blob inside
        // the range the injectivity argument asks for.
        let blob_char_len = blob.unicode_len();
        proof {
            assert(blob@.len() == blob_char_len as nat);
        }
        let fields = match decode_fields(blob) {
            Some(f) => f,
            None => {
                proof {
                    if encoded {
                        assert(false);
                    }
                }
                return None;
            },
        };
        proof {
            if encoded {
                lemma_framed_all_injective(fields.deep_view(), spec_submarine_blob_fields(x0));
            }
        }
        if fields.len() != 6 {
            proof {
                if encoded {
                    assert(false);
                }
            }
            return None;
        }
        let expected_amount_sat = match parse_u64_canonical(fields[1].as_str()) {
            Some(v) => v,
            None => {
                proof {
                    if encoded {
                        assert(fields.deep_view()[1] == spec_dec_of(
                            x0.expected_amount_sat as nat,
                        ));
                        assert(false);
                    }
                }
                return None;
            },
        };
        let timeout = match parse_u64_canonical(fields[3].as_str()) {
            Some(v) => if v <= u32::MAX as u64 {
                v as u32
            } else {
                proof {
                    if encoded {
                        assert(fields.deep_view()[3] == spec_dec_of(
                            x0.timeout_block_height as nat,
                        ));
                        lemma_dec_round_trip(v);
                        lemma_dec_round_trip(x0.timeout_block_height as u64);
                        assert(false);
                    }
                }
                return None;
            },
            None => {
                proof {
                    if encoded {
                        assert(fields.deep_view()[3] == spec_dec_of(
                            x0.timeout_block_height as nat,
                        ));
                        assert(false);
                    }
                }
                return None;
            },
        };
        let resp = SubmarineCreateResponse {
            address: fields[0].clone(),
            expected_amount_sat,
            claim_public_key: fields[2].clone(),
            timeout_block_height: timeout,
            blinding_key: fields[4].clone(),
            swap_tree: fields[5].clone(),
        };
        proof {
            assert(spec_submarine_blob_fields(resp) =~= fields.deep_view());
        }
        Some(resp)
    }
}

/// The amount a Send create-response blob says the swapper expects
/// locked, when the blob is a well-formed encoding; by the injectivity
/// of the framing, the value is the one of the unique encoded response.
pub open spec fn spec_blob_expected_amount(blob: Seq<char>) -> Option<u64> {
    if exists|x: SubmarineCreateResponse|
        blob == spec_framed_all(spec_submarine_blob_fields(x)) {
        Some(
            (choose|x: SubmarineCreateResponse|
                blob == spec_framed_all(spec_submarine_blob_fields(x))).expected_amount_sat,
        )
    } else {
        None
    }
}

/// Whatever response a blob encodes, the blob's expected amount is that
/// response's.
pub proof fn lemma_blob_expected_amount(blob: Seq<char>, resp: SubmarineCreateResponse)
    requires
        blob == spec_framed_all(spec_submarine_blob_fields(resp)),
        blob.len() <= u64::MAX,
    ensures
        spec_blob_expected_amount(blob) == Some(resp.expected_amount_sat),
{
    let x = choose|x: SubmarineCreateResponse|
        blob == spec_framed_all(spec_submarine_blob_fields(x));
    lemma_framed_all_injective(spec_submarine_blob_fields(x), spec_submarine_blob_fields(resp));
    assert(spec_submarine_blob_fields(x)[1] == spec_submarine_blob_fields(resp)[1]);
    lemma_dec_round_trip(x.expected_amount_sat);
    lemma_dec_round_trip(resp.expected_amount_sat);
}

/// The swapper's create response for a Receive (reverse submarine)
/// swap, reduced to the plain values the wallet needs to claim.
#[derive(Clone, Debug, PartialEq)]
pub struct ReverseCreateResponse {
    /// The HODL invoice handed to the payer.
    pub invoice: String,
    /// The address the swapper's lockup pays.
    pub lockup_address: String,
    pub refund_public_key: String,
    pub timeout_block_height: u32,
    /// The amount the swapper locks on chain, in satoshi.
    pub onchain_amount_sat: u64,
    pub blinding_key: String,
    /// The swap tree, serialized by the swapper client.
    pub swap_tree: String,
}

/// The field views a Receive create response frames into its blob.
pub open spec fn spec_reverse_blob_fields(r: ReverseCreateResponse) -> Seq<Seq<char>> {
    seq![
        r.invoice@,
        r.lockup_address@,
        r.refund_public_key@,
        spec_dec_of(r.timeout_block_height as nat),
        spec_dec_of(r.onchain_amount_sat as nat),
        r.blinding_key@,
        r.swap_tree@,
    ]
}

impl ReverseCreateResponse {
    /// Serializes the response as the opaque blob the store keeps.
    pub fn encode(&self) -> (r: String)
        ensures
            r@ == spec_framed_all(spec_reverse_blob_fields(*self)),
    {
        let mut fields: Vec<String> = Vec::new();
        fields.push(self.invoice.clone());
        fields.push(self.lockup_address.clone());
        fields.push(self.refund_public_key.clone());
        fields.push(u64_to_dec_string(self.timeout_block_height as u64));
        fields.push(u64_to_dec_string(self.onchain_amount_sat));
        fields.push(self.blinding_key.clone());
        fields.push(self.swap_tree.clone());
        let out = encode_fields(&fields);
        proof {
            assert(fields.deep_view() =~= spec_reverse_blob_fields(*self));
        }
        out
    }

    /// Deserializes a blob; pure, and accepts exactly the strings
    /// `encode` produces: re-encoding the result gives the blob back,
    /// and every encoded response decodes.
    pub fn decode(blob: &str) -> (r: Option<ReverseCreateResponse>)
        ensures
            r matches Some(resp) ==> blob@ == spec_framed_all(spec_reverse_blob_fields(resp)),
            (exists|x: ReverseCreateResponse|
                blob@ == spec_framed_all(spec_reverse_blob_fields(x))) ==> r is Some,
    {
        let ghost encoded = exists|x: ReverseCreateResponse|
            blob@ == spec_framed_all(spec_reverse_blob_fields(x));
        let ghost x0: ReverseCreateResponse = if encoded {
            choose|x: ReverseCreateResponse| blob@ == spec_framed_all(spec_reverse_blob_fields(x))
        } else {
            vstd::pervasive::arbitrary()
        };
        // The character length, needed only to place the blob inside
        // the range the injectivity argument asks for.
        let blob_char_len = blob.unicode_len();
        proof {
            assert(blob@.len() == blob_char_len as nat);
        }
        let fields = match decode_fields(blob) {
            Some(f) => f,
            None => {
                proof {
                    if encoded {
                        assert(false);
                    }
                }
                return None;
            },
        };
        proof {
            if encoded {
                lemma_framed_all_injective(fields.deep_view(), spec_reverse_blob_fields(x0));
            }
        }
        if fields.len() != 7 {
            proof {
                if encoded {
                    assert(false);
                }
            }
            return None;
        }
        let timeout = match parse_u64_canonical(fields[3].as_str()) {
            Some(v) => if v <= u32::MAX as u64 {
                v as u32
            } else {
                proof {
                    if encoded {
                        assert(fields.deep_view()[3] == spec_dec_of(
                            x0.timeout_block_height as nat,
                        ));
                        lemma_dec_round_trip(v);
                        lemma_dec_round_trip(x0.timeout_block_height as u64);
                        assert(false);
                    }
                }
                return None;
            },
            None => {
                proof {
                    if encoded {
                        assert(fields.deep_view()[3] == spec_dec_of(
                            x0.timeout_block_height as nat,
                        ));
                        assert(false);
                    }
                }
                return None;
            },
        };
        let onchain_amount_sat = match parse_u64_canonical(fields[4].as_str()) {
            Some(v) => v,
            None => {
                proof {
                    if encoded {
                        assert(fields.deep_view()[4] == spec_dec_of(x0.onchain_amount_sat as nat));
                        assert(false);
                    }
                }
                return None;
            },
        };
        let resp = ReverseCreateResponse {
            invoice: fields[0].clone(),
            lockup_address: fields[1].clone(),
            refund_public_key: fields[2].clone(),
            timeout_block_height: timeout,
            onchain_amount_sat,
            blinding_key: fields[5].clone(),
            swap_tree: fields[6].clone(),
        };
        proof {
            assert(spec_reverse_blob_fields(resp) =~= fields.deep_view());
        }
        Some(resp)
    }
}

} // verus!
