//! Default names of recordings, stamped with the time they were started.
use vstd::prelude::*;

use crate::text::{
    differs_lower, digits_value, push_zero_padded, text_le, zero_padded,
};

verus! {

/// The date and time fields of a stamp for `t` seconds after the Unix epoch,
/// as `(year, month, day, hour, minute, second)`. The date is approximate:
/// every year has 365 days and every month 30, so a year has a short
/// thirteenth month.
pub open spec fn timestamp_fields(t: nat) -> (nat, nat, nat, nat, nat, nat) {
    let days = t / 86400;
    let rem = t % 86400;
    let day_of_year = days % 365;
    (
        1970 + days / 365,
        day_of_year / 30 + 1,
        day_of_year % 30 + 1,
        rem / 3600,
        (rem % 3600) / 60,
        rem % 60,
    )
}

/// The stamp `YYYY-MM-DD_HH-MM-SS` for `t` seconds after the Unix epoch: the
/// year in at least four digits, every other field in two.
pub open spec fn timestamp_text(t: nat) -> Seq<char> {
    let f = timestamp_fields(t);
    zero_padded(f.0, 4) + seq!['-'] + zero_padded(f.1, 2) + seq!['-'] + zero_padded(f.2, 2) + seq![
        '_',
    ] + zero_padded(f.3, 2) + seq!['-'] + zero_padded(f.4, 2) + seq!['-'] + zero_padded(f.5, 2)
}

/// The default file name of a recording started `t` seconds after the epoch.
pub open spec fn default_file_name(t: nat) -> Seq<char> {
    "vloom-"@ + timestamp_text(t) + ".mp4"@
}

/// The name of the directory, under the home directory, that recordings go to
/// by default.
pub open spec fn recordings_dir() -> Seq<char> {
    "vloom-recordings"@
}

/// The time stamp for a moment `total_secs` seconds after the Unix epoch.
pub fn chrono_timestamp(total_secs: u64) -> (r: String)
    ensures
        r@ == timestamp_text(total_secs as nat),
{
    let days = total_secs / 86400;
    let secs_remaining = total_secs % 86400;
    let hours = secs_remaining / 3600;
    let minutes = (secs_remaining % 3600) / 60;
    let seconds = secs_remaining % 60;
    let year = 1970 + days / 365;
    let day_of_year = days % 365;
    let month = day_of_year / 30 + 1;
    let day = day_of_year % 30 + 1;
    proof {
        reveal_strlit("-");
        reveal_strlit("_");
    }
    let mut s = String::new();
    push_zero_padded(&mut s, year, 4);
    s.append("-");
    push_zero_padded(&mut s, month, 2);
    s.append("-");
    push_zero_padded(&mut s, day, 2);
    s.append("_");
    push_zero_padded(&mut s, hours, 2);
    s.append("-");
    push_zero_padded(&mut s, minutes, 2);
    s.append("-");
    push_zero_padded(&mut s, seconds, 2);
    assert(s@ =~= timestamp_text(total_secs as nat));
    s
}

/// The default file name of a recording started `total_secs` seconds after
/// the epoch: `vloom-<stamp>.mp4`.
pub fn default_output_file_name(total_secs: u64) -> (r: String)
    ensures
        r@ == default_file_name(total_secs as nat),
{
    let stamp = chrono_timestamp(total_secs);
    let mut s = String::from_str("vloom-");
    s.append(stamp.as_str());
    s.append(".mp4");
    s
}

/// The directory, under the home directory, that recordings go to by default.
pub fn recordings_dir_name() -> (r: &'static str)
    ensures
        r@ == recordings_dir(),
{
    "vloom-recordings"
}

/// The fields of a stamp are in range: months 1 to 13 (the last one short),
/// days 1 to 30, hours below 24, minutes and seconds below 60.
pub proof fn law_timestamp_fields_in_range(t: nat)
    ensures
        timestamp_fields(t).0 >= 1970,
        1 <= timestamp_fields(t).1 <= 13,
        1 <= timestamp_fields(t).2 <= 30,
        timestamp_fields(t).3 < 24,
        timestamp_fields(t).4 < 60,
        timestamp_fields(t).5 < 60,
{
}

/// The fields of the stamp for `t`, year first.
pub open spec fn stamp_parts(t: nat) -> Seq<nat> {
    let f = timestamp_fields(t);
    seq![f.0, f.1, f.2, f.3, f.4, f.5]
}

/// The width that field `k` of a stamp is padded to.
pub open spec fn field_width(k: int) -> nat {
    if k == 0 {
        4
    } else {
        2
    }
}

/// The separator after field `k` of a stamp.
pub open spec fn field_separator(k: int) -> char {
    if k == 2 {
        '_'
    } else {
        '-'
    }
}

/// The stamp written from field `k` on.
pub open spec fn stamp_from(p: Seq<nat>, k: int) -> Seq<char>
    decreases 5 - k,
{
    if k >= 5 {
        zero_padded(p[5], 2)
    } else {
        zero_padded(p[k], field_width(k)).push(field_separator(k)) + stamp_from(p, k + 1)
    }
}

proof fn lemma_stamp_layout(t: nat)
    ensures
        timestamp_text(t) == stamp_from(stamp_parts(t), 0),
{
    let p = stamp_parts(t);
    let f = timestamp_fields(t);
    let z0 = zero_padded(f.0, 4);
    let z1 = zero_padded(f.1, 2);
    let z2 = zero_padded(f.2, 2);
    let z3 = zero_padded(f.3, 2);
    let z4 = zero_padded(f.4, 2);
    let z5 = zero_padded(f.5, 2);
    let c0 = z0.push('-');
    let c1 = z1.push('-');
    let c2 = z2.push('_');
    let c3 = z3.push('-');
    let c4 = z4.push('-');
    // The stamp as written: each field appended after the text so far.
    assert(z0 + seq!['-'] =~= c0);
    let m1 = c0 + z1;
    assert(m1 + seq!['-'] =~= c0 + c1);
    let m2 = (c0 + c1) + z2;
    assert(m2 + seq!['_'] =~= (c0 + c1) + c2);
    let m3 = ((c0 + c1) + c2) + z3;
    assert(m3 + seq!['-'] =~= ((c0 + c1) + c2) + c3);
    let m4 = (((c0 + c1) + c2) + c3) + z4;
    assert(m4 + seq!['-'] =~= (((c0 + c1) + c2) + c3) + c4);
    let whole = ((((c0 + c1) + c2) + c3) + c4) + z5;
    assert(timestamp_text(t) == whole);
    // Regrouped from the right.
    let r4 = c4 + z5;
    vstd::seq_lib::lemma_concat_associative((((c0 + c1) + c2) + c3), c4, z5);
    let r3 = c3 + r4;
    vstd::seq_lib::lemma_concat_associative(((c0 + c1) + c2), c3, r4);
    let r2 = c2 + r3;
    vstd::seq_lib::lemma_concat_associative((c0 + c1), c2, r3);
    let r1 = c1 + r2;
    vstd::seq_lib::lemma_concat_associative(c0, c1, r2);
    assert(whole == c0 + r1);
    assert(stamp_from(p, 5) == z5);
    assert(stamp_from(p, 4) == r4);
    assert(stamp_from(p, 3) == r3);
    assert(stamp_from(p, 2) == r2);
    assert(stamp_from(p, 1) == r1);
    assert(stamp_from(p, 0) == c0 + r1);
}

/// The first field, counting from the year, in which the stamps of `t1 <= t2`
/// differ (6 when none does); there the earlier stamp has the smaller value.
proof fn lemma_first_difference(t1: nat, t2: nat) -> (d: int)
    requires
        t1 <= t2,
    ensures
        0 <= d <= 6,
        forall|i: int| 0 <= i < d ==> stamp_parts(t1)[i] == stamp_parts(t2)[i],
        d < 6 ==> stamp_parts(t1)[d] < stamp_parts(t2)[d],
{
    let p = stamp_parts(t1);
    let q = stamp_parts(t2);
    let d1 = t1 / 86400;
    let d2 = t2 / 86400;
    let r1 = t1 % 86400;
    let r2 = t2 % 86400;
    assert(t1 == 86400 * d1 + r1);
    assert(t2 == 86400 * d2 + r2);
    assert(d1 <= d2);
    let y1 = d1 / 365;
    let y2 = d2 / 365;
    let o1 = d1 % 365;
    let o2 = d2 % 365;
    assert(d1 == 365 * y1 + o1);
    assert(d2 == 365 * y2 + o2);
    assert(o1 == 30 * (o1 / 30) + o1 % 30);
    assert(o2 == 30 * (o2 / 30) + o2 % 30);
    let h1 = r1 / 3600;
    let h2 = r2 / 3600;
    let s1 = r1 % 3600;
    let s2 = r2 % 3600;
    assert(r1 == 3600 * h1 + s1);
    assert(r2 == 3600 * h2 + s2);
    assert(s1 == 60 * (s1 / 60) + s1 % 60);
    assert(s2 == 60 * (s2 / 60) + s2 % 60);
    assert((r1 % 3600) % 60 == r1 % 60) by (nonlinear_arith);
    assert((r2 % 3600) % 60 == r2 % 60) by (nonlinear_arith);
    if d1 < d2 {
        assert(y1 <= y2);
        if y1 < y2 {
            0
        } else {
            assert(o1 < o2);
            assert(o1 / 30 <= o2 / 30);
            if o1 / 30 < o2 / 30 {
                1
            } else {
                assert(o1 % 30 < o2 % 30);
                2
            }
        }
    } else {
        assert(r1 <= r2);
        assert(h1 <= h2);
        if h1 < h2 {
            3
        } else {
            assert(s1 <= s2);
            assert(s1 / 60 <= s2 / 60);
            if s1 / 60 < s2 / 60 {
                4
            } else if s1 % 60 < s2 % 60 {
                5
            } else {
                assert(p =~= q);
                6
            }
        }
    }
}

proof fn lemma_field_text(p: Seq<nat>, k: int)
    requires
        p.len() == 6,
        0 <= k < 6,
        k == 0 ==> 1000 <= p[0] <= 9999,
        k > 0 ==> p[k] < 100,
    ensures
        zero_padded(p[k], field_width(k)).len() == field_width(k),
        crate::text::all_digits(zero_padded(p[k], field_width(k))),
        digits_value(zero_padded(p[k], field_width(k))) == p[k],
{
    crate::text::lemma_decimal_len_bound(p[k]);
    crate::text::lemma_zero_padded(p[k], field_width(k));
}

proof fn lemma_stamp_from_order(p: Seq<nat>, q: Seq<nat>, k: int, d: int)
    requires
        p.len() == 6,
        q.len() == 6,
        0 <= k <= d < 6,
        forall|i: int| k <= i < d ==> p[i] == q[i],
        p[d] < q[d],
        d == 0 ==> 1000 <= p[0] && q[0] <= 9999,
        d > 0 ==> q[d] < 100,
    ensures
        text_le(stamp_from(p, k), stamp_from(q, k)),
    decreases d - k,
{
    if k < d {
        lemma_stamp_from_order(p, q, k + 1, d);
        let c = zero_padded(p[k], field_width(k)).push(field_separator(k));
        assert(p[k] == q[k]);
        crate::text::lemma_text_le_prepend(c, stamp_from(p, k + 1), stamp_from(q, k + 1));
    } else {
        lemma_field_text(p, d);
        lemma_field_text(q, d);
        let a = zero_padded(p[d], field_width(d));
        let b = zero_padded(q[d], field_width(d));
        crate::text::lemma_digits_order(a, b);
        assert(differs_lower(a, b));
        if d == 5 {
            crate::text::lemma_differs_lower_extend(a, b, Seq::empty(), Seq::empty());
            assert(a + Seq::<char>::empty() =~= a);
            assert(b + Seq::<char>::empty() =~= b);
        } else {
            let sep = seq![field_separator(d)];
            crate::text::lemma_differs_lower_extend(a, b, sep, sep);
            assert(a.push(field_separator(d)) =~= a + sep);
            assert(b.push(field_separator(d)) =~= b + sep);
            crate::text::lemma_differs_lower_extend(
                a + sep,
                b + sep,
                stamp_from(p, d + 1),
                stamp_from(q, d + 1),
            );
        }
    }
}

/// Stamps sort as time passes: for `t1 <= t2` (up to the year 9999, while the
/// year keeps four digits) the stamp of `t1` sorts before or equal to that of
/// `t2`, so default names sort in the order recordings were started.
pub proof fn law_timestamps_ordered(t1: nat, t2: nat)
    requires
        t1 <= t2,
        timestamp_fields(t2).0 <= 9999,
    ensures
        text_le(timestamp_text(t1), timestamp_text(t2)),
{
    lemma_stamp_layout(t1);
    lemma_stamp_layout(t2);
    let p = stamp_parts(t1);
    let q = stamp_parts(t2);
    let d = lemma_first_difference(t1, t2);
    law_timestamp_fields_in_range(t1);
    law_timestamp_fields_in_range(t2);
    if d == 6 {
        assert(p =~= q);
        crate::text::lemma_text_le_refl(timestamp_text(t1));
    } else {
        lemma_stamp_from_order(p, q, 0, d);
    }
}

proof fn lemma_two_wide(n: nat)
    requires
        n < 100,
    ensures
        zero_padded(n, 2).len() == 2,
        digits_value(zero_padded(n, 2)) == n,
{
    crate::text::lemma_decimal_len_bound(n);
    crate::text::lemma_zero_padded(n, 2);
}

/// Different seconds since the epoch give different stamps, so recordings
/// started at different seconds never get the same default name.
pub proof fn law_timestamps_distinct(t1: nat, t2: nat)
    requires
        t1 != t2,
    ensures
        timestamp_text(t1) != timestamp_text(t2),
{
    if timestamp_text(t1) == timestamp_text(t2) {
        lemma_fields_from_text(t1, t2);
        lemma_fields_determine_time(t1, t2);
    }
}

proof fn lemma_fields_from_text(t1: nat, t2: nat)
    requires
        timestamp_text(t1) == timestamp_text(t2),
    ensures
        timestamp_fields(t1) == timestamp_fields(t2),
{
    let f = timestamp_fields(t1);
    let g = timestamp_fields(t2);
    law_timestamp_fields_in_range(t1);
    law_timestamp_fields_in_range(t2);
    lemma_two_wide(f.1);
    lemma_two_wide(f.2);
    lemma_two_wide(f.3);
    lemma_two_wide(f.4);
    lemma_two_wide(f.5);
    lemma_two_wide(g.1);
    lemma_two_wide(g.2);
    lemma_two_wide(g.3);
    lemma_two_wide(g.4);
    lemma_two_wide(g.5);
    crate::text::lemma_zero_padded(f.0, 4);
    crate::text::lemma_zero_padded(g.0, 4);
    let s = timestamp_text(t1);
    let y1 = zero_padded(f.0, 4);
    let y2 = zero_padded(g.0, 4);
    assert(s.len() == y1.len() + 15);
    assert(s.len() == y2.len() + 15);
    let l = y1.len() as int;
    assert(s.subrange(0, l) =~= y1);
    assert(timestamp_text(t2).subrange(0, l) =~= y2);
    assert(s.subrange(l + 1, l + 3) =~= zero_padded(f.1, 2));
    assert(timestamp_text(t2).subrange(l + 1, l + 3) =~= zero_padded(g.1, 2));
    assert(s.subrange(l + 4, l + 6) =~= zero_padded(f.2, 2));
    assert(timestamp_text(t2).subrange(l + 4, l + 6) =~= zero_padded(g.2, 2));
    assert(s.subrange(l + 7, l + 9) =~= zero_padded(f.3, 2));
    assert(timestamp_text(t2).subrange(l + 7, l + 9) =~= zero_padded(g.3, 2));
    assert(s.subrange(l + 10, l + 12) =~= zero_padded(f.4, 2));
    assert(timestamp_text(t2).subrange(l + 10, l + 12) =~= zero_padded(g.4, 2));
    assert(s.subrange(l + 13, l + 15) =~= zero_padded(f.5, 2));
    assert(timestamp_text(t2).subrange(l + 13, l + 15) =~= zero_padded(g.5, 2));
}

proof fn lemma_fields_determine_time(t1: nat, t2: nat)
    requires
        timestamp_fields(t1) == timestamp_fields(t2),
    ensures
        t1 == t2,
{
    let d1 = t1 / 86400;
    let d2 = t2 / 86400;
    let r1 = t1 % 86400;
    let r2 = t2 % 86400;
    let y1 = d1 % 365;
    let y2 = d2 % 365;
    assert(y1 == 30 * (y1 / 30) + y1 % 30);
    assert(y2 == 30 * (y2 / 30) + y2 % 30);
    assert(y1 == y2);
    assert(d1 == 365 * (d1 / 365) + d1 % 365);
    assert(d2 == 365 * (d2 / 365) + d2 % 365);
    assert(d1 == d2);
    assert(r1 % 3600 == 60 * ((r1 % 3600) / 60) + (r1 % 3600) % 60);
    assert(r2 % 3600 == 60 * ((r2 % 3600) / 60) + (r2 % 3600) % 60);
    assert((r1 % 3600) % 60 == r1 % 60) by (nonlinear_arith);
    assert((r2 % 3600) % 60 == r2 % 60) by (nonlinear_arith);
    assert(r1 == 3600 * (r1 / 3600) + r1 % 3600);
    assert(r2 == 3600 * (r2 / 3600) + r2 % 3600);
    assert(r1 == r2);
    assert(t1 == 86400 * d1 + r1);
    assert(t2 == 86400 * d2 + r2);
}

} // verus!
