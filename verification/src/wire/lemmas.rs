//! Why a stored form can be read in one way only.

use super::text::{
    all_ascii, history_text, is_history_text, lead_text, record_at, record_text, records_text, rest_text,
    outcome_text, starts_every_history, text_at, CLOSE_BRACE, CLOSE_BRACKET, COMMA, OPEN_BRACKET,
    PING_KEY, RESULT_KEY, TIMESTAMP_KEY,
};
use crate::decimal::{int_at, int_text, lemma_int_at_unique, lemma_int_text_shape};
use crate::record::ProbeRecord;
use vstd::prelude::*;

verus! {

/// The two halves of a range of `x` that holds `a + b`.
pub(crate) proof fn lemma_split(x: Seq<u8>, p: int, e: int, a: Seq<u8>, b: Seq<u8>)
    requires
        0 <= p <= e <= x.len(),
        x.subrange(p, e) == a + b,
    ensures
        p + a.len() + b.len() == e,
        x.subrange(p, p + a.len()) == a,
        x.subrange(p + a.len(), e) == b,
{
    let m = p + a.len();
    assert(x.subrange(p, e).len() == e - p);
    assert((a + b).len() == a.len() + b.len());
    assert(x.subrange(p, m) == x.subrange(p, e).subrange(0, a.len() as int));
    assert((a + b).subrange(0, a.len() as int) == a);
    assert(x.subrange(m, e) == x.subrange(p, e).subrange(a.len() as int, e - p));
    assert((a + b).subrange(a.len() as int, e - p) == b);
}

/// Where the parts of a record stand, given where the record stands.
pub proof fn lemma_record_at_parts(x: Seq<u8>, p: int, r: ProbeRecord, e: int)
    requires
        record_at(x, p, r, e),
    ensures
        ({
            let stamp_start = p + 13;
            let stamp_end = stamp_start + int_text(r.timestamp as int).len();
            let outcome_start = stamp_end + 11;
            let outcome_end = outcome_start + outcome_text(r.outcome).len();
            let ping_start = outcome_end + 9;
            let ping_end = ping_start + int_text(r.latency_millis as int).len();
            &&& text_at(x, p, TIMESTAMP_KEY@)
            &&& int_at(x, stamp_start, r.timestamp as int, stamp_end)
            &&& text_at(x, stamp_end, RESULT_KEY@)
            &&& text_at(x, outcome_start, outcome_text(r.outcome))
            &&& text_at(x, outcome_end, PING_KEY@)
            &&& int_at(x, ping_start, r.latency_millis as int, ping_end)
            &&& ping_end < x.len()
            &&& x[ping_end] == CLOSE_BRACE
            &&& e == ping_end + 1
        }),
{
    let i1 = int_text(r.timestamp as int);
    let o = outcome_text(r.outcome);
    let i2 = int_text(r.latency_millis as int);
    let close = seq![CLOSE_BRACE];
    let t6 = i2 + close;
    let t5 = PING_KEY@ + t6;
    let t4 = o + t5;
    let t3 = RESULT_KEY@ + t4;
    let t2 = i1 + t3;
    assert(record_text(r) == TIMESTAMP_KEY@ + t2);
    lemma_split(x, p, e, TIMESTAMP_KEY@, t2);
    let stamp_start = p + 13;
    lemma_split(x, stamp_start, e, i1, t3);
    let stamp_end = stamp_start + i1.len();
    lemma_split(x, stamp_end, e, RESULT_KEY@, t4);
    let outcome_start = stamp_end + 11;
    lemma_split(x, outcome_start, e, o, t5);
    let outcome_end = outcome_start + o.len();
    lemma_split(x, outcome_end, e, PING_KEY@, t6);
    let ping_start = outcome_end + 9;
    lemma_split(x, ping_start, e, i2, close);
    let ping_end = ping_start + i2.len();
    assert(x[stamp_end] == x.subrange(stamp_end, stamp_end + 11)[0]);
    assert(x[ping_end] == x.subrange(ping_end, e)[0]);
}

/// At most one record stands at `p`, and it ends in one place.
pub proof fn lemma_record_at_unique(
    x: Seq<u8>,
    p: int,
    a: ProbeRecord,
    ea: int,
    b: ProbeRecord,
    eb: int,
)
    requires
        record_at(x, p, a, ea),
        record_at(x, p, b, eb),
    ensures
        a == b,
        ea == eb,
{
    lemma_record_at_parts(x, p, a, ea);
    lemma_record_at_parts(x, p, b, eb);
    let stamp_start = p + 13;
    let stamp_end_a = stamp_start + int_text(a.timestamp as int).len();
    let stamp_end_b = stamp_start + int_text(b.timestamp as int).len();
    lemma_int_at_unique(x, stamp_start, a.timestamp as int, stamp_end_a, b.timestamp as int, stamp_end_b);
    let outcome_start = stamp_end_a + 11;
    assert(a.outcome == b.outcome) by {
        assert(x[outcome_start] == x.subrange(outcome_start, outcome_start + outcome_text(a.outcome).len())[0]);
        assert(x[outcome_start] == x.subrange(outcome_start, outcome_start + outcome_text(b.outcome).len())[0]);
    }
    let ping_start = outcome_start + outcome_text(a.outcome).len() + 9;
    let ping_end_a = ping_start + int_text(a.latency_millis as int).len();
    let ping_end_b = ping_start + int_text(b.latency_millis as int).len();
    lemma_int_at_unique(x, ping_start, a.latency_millis as int, ping_end_a, b.latency_millis as int, ping_end_b);
}

/// The text of two runs of records, one after the other.
pub proof fn lemma_rest_text_concat(a: Seq<ProbeRecord>, b: Seq<ProbeRecord>)
    ensures
        rest_text(a + b) == rest_text(a) + rest_text(b),
    decreases a.len(),
{
    if a.len() == 0 {
        assert(a + b == b);
    } else {
        lemma_rest_text_concat(a.skip(1), b);
        assert((a + b).skip(1) == a.skip(1) + b);
        assert((a + b)[0] == a[0]);
    }
}

/// The text of a run of records with one more record at its end.
pub proof fn lemma_records_text_push(a: Seq<ProbeRecord>, r: ProbeRecord)
    ensures
        records_text(a.push(r)) == if a.len() == 0 {
            record_text(r)
        } else {
            records_text(a) + seq![COMMA] + record_text(r)
        },
        lead_text(a) + record_text(r) == seq![OPEN_BRACKET] + records_text(a.push(r)),
{
    let one = seq![r];
    assert(one.skip(1).len() == 0);
    assert(rest_text(one.skip(1)) == Seq::<u8>::empty());
    assert(rest_text(one) == seq![COMMA] + record_text(r));
    if a.len() == 0 {
        assert(a.push(r) == one);
        assert(records_text(one) == record_text(r));
    } else {
        lemma_rest_text_concat(a.skip(1), one);
        assert(a.push(r).skip(1) == a.skip(1) + one);
        assert(a.push(r)[0] == a[0]);
        assert(records_text(a.push(r)) == records_text(a) + seq![COMMA] + record_text(r));
    }
    assert(lead_text(a) + record_text(r) == seq![OPEN_BRACKET] + records_text(a.push(r)));
}

/// A stored form, cut before and after its record number `k`.
pub proof fn lemma_history_text_split(s: Seq<ProbeRecord>, k: int)
    requires
        0 <= k < s.len(),
    ensures
        history_text(s) == lead_text(s.take(k)) + record_text(s[k]) + rest_text(s.skip(k + 1))
            + seq![CLOSE_BRACKET],
{
    if k == 0 {
        assert(s.skip(k + 1) == s.skip(1));
        assert(history_text(s) == lead_text(s.take(k)) + record_text(s[k]) + rest_text(
            s.skip(k + 1),
        ) + seq![CLOSE_BRACKET]);
    } else {
        let u = s.skip(1);
        let front = u.take(k - 1);
        let back = u.skip(k - 1);
        assert(u == front + back);
        lemma_rest_text_concat(front, back);
        assert(back == s.skip(k));
        assert(back[0] == s[k]);
        assert(back.skip(1) == s.skip(k + 1));
        assert(s.take(k).skip(1) == front);
        assert(s.take(k)[0] == s[0]);
        assert(rest_text(back) == seq![COMMA] + record_text(s[k]) + rest_text(s.skip(k + 1)));
        assert(records_text(s) == record_text(s[0]) + (rest_text(front) + rest_text(back)));
        assert(records_text(s.take(k)) == record_text(s[0]) + rest_text(front));
        assert(history_text(s) == lead_text(s.take(k)) + record_text(s[k]) + rest_text(
            s.skip(k + 1),
        ) + seq![CLOSE_BRACKET]);
    }
}

/// Where record number `k` stands in a stored form, and what follows it: a
/// comma where more records come, else the closing bracket and the end.
pub proof fn lemma_record_in_history(s: Seq<ProbeRecord>, k: int)
    requires
        0 <= k < s.len(),
    ensures
        ({
            let x = history_text(s);
            let p = lead_text(s.take(k)).len() as int;
            let e = p + record_text(s[k]).len();
            &&& x.subrange(0, p) == lead_text(s.take(k))
            &&& record_at(x, p, s[k], e)
            &&& p < e < x.len()
            &&& k + 1 < s.len() ==> x[e] == COMMA
            &&& k + 1 == s.len() ==> x[e] == CLOSE_BRACKET && x.len() == e + 1
        }),
{
    let x = history_text(s);
    let lead = lead_text(s.take(k));
    let rec = record_text(s[k]);
    let rest = rest_text(s.skip(k + 1));
    let close = seq![CLOSE_BRACKET];
    lemma_history_text_split(s, k);
    lemma_int_text_shape(s[k].timestamp as int);
    let p = lead.len() as int;
    let e = p + rec.len();
    assert(x == lead + (rec + (rest + close)));
    assert(x.subrange(0, x.len() as int) == x);
    lemma_split(x, 0, x.len() as int, lead, rec + (rest + close));
    lemma_split(x, p, x.len() as int, rec, rest + close);
    assert(x[e] == x.subrange(e, x.len() as int)[0]);
    if k + 1 < s.len() {
        assert(s.skip(k + 1).len() > 0);
        assert(rest[0] == COMMA);
    } else {
        assert(s.skip(k + 1).len() == 0);
        assert(rest + close == close);
    }
}

/// Two histories with the same stored form agree on every prefix.
pub(crate) proof fn lemma_prefixes_agree(a: Seq<ProbeRecord>, b: Seq<ProbeRecord>, k: int)
    requires
        history_text(a) == history_text(b),
        0 <= k <= a.len(),
        k <= b.len(),
    ensures
        a.take(k) == b.take(k),
    decreases k,
{
    if k == 0 {
        assert(a.take(0) == b.take(0));
    } else {
        lemma_prefixes_agree(a, b, k - 1);
        lemma_record_in_history(a, k - 1);
        lemma_record_in_history(b, k - 1);
        let x = history_text(a);
        let p = lead_text(a.take(k - 1)).len() as int;
        lemma_record_at_unique(
            x,
            p,
            a[k - 1],
            p + record_text(a[k - 1]).len(),
            b[k - 1],
            p + record_text(b[k - 1]).len(),
        );
        assert(a.take(k) == a.take(k - 1).push(a[k - 1]));
        assert(b.take(k) == b.take(k - 1).push(b[k - 1]));
    }
}

/// A history that has the stored form of `a` and is no shorter than `a` is
/// `a`.
pub(crate) proof fn lemma_no_longer_history(a: Seq<ProbeRecord>, b: Seq<ProbeRecord>)
    requires
        history_text(a) == history_text(b),
        a.len() <= b.len(),
    ensures
        a == b,
{
    let x = history_text(a);
    let m = a.len() as int;
    lemma_prefixes_agree(a, b, m);
    assert(a.take(m) == a);
    if m < b.len() {
        if m == 0 {
            lemma_record_in_history(b, 0);
            lemma_record_at_parts(x, 1, b[0], 1int + record_text(b[0]).len());
            assert(x[1] == x.subrange(1, 14)[0]);
            assert(records_text(a) == Seq::<u8>::empty());
            assert(x[1] == CLOSE_BRACKET);
        } else {
            lemma_record_in_history(a, m - 1);
            lemma_record_in_history(b, m - 1);
            assert(a.take(m - 1) == a.take(m).take(m - 1));
            assert(b.take(m - 1) == b.take(m).take(m - 1));
            assert(a[m - 1] == a.take(m)[m - 1]);
            assert(b[m - 1] == b.take(m)[m - 1]);
        }
    } else {
        assert(b.take(m) == b);
    }
}

/// Two histories with the same stored form are the same history.
pub proof fn lemma_history_text_injective(a: Seq<ProbeRecord>, b: Seq<ProbeRecord>)
    requires
        history_text(a) == history_text(b),
    ensures
        a == b,
{
    if a.len() <= b.len() {
        lemma_no_longer_history(a, b);
    } else {
        lemma_no_longer_history(b, a);
    }
}

/// What a history with the stored form `x` holds after the records `a`, given
/// the record that stands in `x` after the lead of `a`.
pub(crate) proof fn lemma_next_record(
    x: Seq<u8>,
    p: int,
    a: Seq<ProbeRecord>,
    r: ProbeRecord,
    e: int,
    s: Seq<ProbeRecord>,
)
    requires
        0 <= p <= x.len(),
        x.subrange(0, p) == lead_text(a),
        record_at(x, p, r, e),
        history_text(s) == x,
        a.len() < s.len(),
        s.take(a.len() as int) == a,
    ensures
        s.take(a.len() as int + 1) == a.push(r),
        e < x.len(),
        a.len() + 1 < s.len() ==> x[e] == COMMA,
        a.len() + 1 == s.len() ==> x[e] == CLOSE_BRACKET && x.len() == e + 1,
{
    let k = a.len() as int;
    lemma_record_in_history(s, k);
    assert(x.subrange(0, p).len() == p);
    lemma_record_at_unique(x, p, r, e, s[k], p + record_text(s[k]).len());
    assert(s.take(k + 1) == s.take(k).push(s[k]));
}

/// Where no record stands after the lead of `a`, `x` is no stored form.
pub(crate) proof fn lemma_no_record(x: Seq<u8>, p: int, a: Seq<ProbeRecord>)
    requires
        0 <= p <= x.len(),
        x.subrange(0, p) == lead_text(a),
        starts_every_history(x, a),
        forall|r: ProbeRecord, e: int| !#[trigger] record_at(x, p, r, e),
    ensures
        !is_history_text(x),
{
    assert forall|s: Seq<ProbeRecord>| #[trigger] history_text(s) == x implies false by {
        let k = a.len() as int;
        lemma_record_in_history(s, k);
        assert(x.subrange(0, p).len() == p);
        assert(record_at(x, p, s[k], p + record_text(s[k]).len()));
    }
}

/// The text read so far once the record `r` is read after the lead of `a`,
/// and with the byte that follows it.
pub(crate) proof fn lemma_after_record_read(x: Seq<u8>, p: int, a: Seq<ProbeRecord>, r: ProbeRecord, e: int)
    requires
        0 <= p <= x.len(),
        x.subrange(0, p) == lead_text(a),
        record_at(x, p, r, e),
    ensures
        p < e,
        e < x.len() && x[e] == COMMA ==> x.subrange(0, e + 1) == lead_text(a.push(r)),
        e < x.len() && x[e] == CLOSE_BRACKET && e + 1 == x.len() ==> history_text(a.push(r)) == x,
{
    lemma_records_text_push(a, r);
    lemma_int_text_shape(r.timestamp as int);
    assert(x.subrange(p, e).len() == e - p);
    let upto = seq![OPEN_BRACKET] + records_text(a.push(r));
    assert(x.subrange(0, e) == x.subrange(0, p) + x.subrange(p, e));
    assert(x.subrange(0, e) == upto);
    if e < x.len() {
        if x[e] == COMMA {
            assert(x.subrange(0, e + 1) == x.subrange(0, e).push(COMMA));
            assert(a.push(r).len() > 0);
            assert(lead_text(a.push(r)) == upto + seq![COMMA]);
            assert(upto.push(COMMA) == upto + seq![COMMA]);
        } else if x[e] == CLOSE_BRACKET && e + 1 == x.len() {
            assert(x == x.subrange(0, e).push(CLOSE_BRACKET));
            assert(history_text(a.push(r)) == upto + seq![CLOSE_BRACKET]);
            assert(upto.push(CLOSE_BRACKET) == upto + seq![CLOSE_BRACKET]);
        }
    }
}

/// What the byte after a record decides: after a comma another record must
/// follow; with anything else but a closing bracket at the end, `x` is no
/// stored form.
pub(crate) proof fn lemma_after_record(x: Seq<u8>, p: int, a: Seq<ProbeRecord>, r: ProbeRecord, e: int)
    requires
        0 <= p <= x.len(),
        x.subrange(0, p) == lead_text(a),
        starts_every_history(x, a),
        record_at(x, p, r, e),
    ensures
        e >= x.len() ==> !is_history_text(x),
        e < x.len() && x[e] == COMMA ==> starts_every_history(x, a.push(r)),
        e < x.len() && x[e] != COMMA && !(x[e] == CLOSE_BRACKET && e + 1 == x.len())
            ==> !is_history_text(x),
{
    let k = a.len() as int;
    assert forall|s: Seq<ProbeRecord>| #[trigger] history_text(s) == x implies s.take(k + 1)
        == a.push(r) && e < x.len() && (k + 1 < s.len() ==> x[e] == COMMA) && (k + 1 == s.len()
        ==> x[e] == CLOSE_BRACKET && x.len() == e + 1) by {
        lemma_next_record(x, p, a, r, e, s);
    }
    if e < x.len() && x[e] == COMMA {
        assert forall|s: Seq<ProbeRecord>| #[trigger] history_text(s) == x implies a.push(r).len()
            < s.len() && s.take(a.push(r).len() as int) == a.push(r) by {
            assert(s.take(k + 1) == a.push(r));
        }
    }
}

/// Two ASCII texts, one after the other, are an ASCII text.
pub(crate) proof fn lemma_ascii_concat(a: Seq<u8>, b: Seq<u8>)
    requires
        all_ascii(a),
        all_ascii(b),
    ensures
        all_ascii(a + b),
{
    assert forall|i: int| 0 <= i < (a + b).len() implies #[trigger] (a + b)[i] < 128 by {
        if i < a.len() {
            assert((a + b)[i] == a[i]);
        } else {
            assert((a + b)[i] == b[i - a.len()]);
        }
    }
}

/// The text of an integer is ASCII.
pub(crate) proof fn lemma_int_text_ascii(v: int)
    ensures
        all_ascii(int_text(v)),
{
    lemma_int_text_shape(v);
    assert forall|i: int| 0 <= i < int_text(v).len() implies #[trigger] int_text(v)[i] < 128 by {
        if i >= 1 {
            assert(crate::decimal::is_digit(int_text(v)[i]));
        }
    }
}

/// The text of a record is ASCII.
pub(crate) proof fn lemma_record_text_ascii(r: ProbeRecord)
    ensures
        all_ascii(record_text(r)),
{
    let stamp = int_text(r.timestamp as int);
    let ping = int_text(r.latency_millis as int);
    lemma_int_text_ascii(r.timestamp as int);
    lemma_int_text_ascii(r.latency_millis as int);
    assert(all_ascii(TIMESTAMP_KEY@));
    assert(all_ascii(RESULT_KEY@));
    assert(all_ascii(PING_KEY@));
    assert(all_ascii(outcome_text(r.outcome)));
    assert(all_ascii(seq![CLOSE_BRACE]));
    lemma_ascii_concat(TIMESTAMP_KEY@, stamp);
    lemma_ascii_concat(TIMESTAMP_KEY@ + stamp, RESULT_KEY@);
    lemma_ascii_concat(TIMESTAMP_KEY@ + stamp + RESULT_KEY@, outcome_text(r.outcome));
    lemma_ascii_concat(TIMESTAMP_KEY@ + stamp + RESULT_KEY@ + outcome_text(r.outcome), PING_KEY@);
    lemma_ascii_concat(
        TIMESTAMP_KEY@ + stamp + RESULT_KEY@ + outcome_text(r.outcome) + PING_KEY@,
        ping,
    );
    lemma_ascii_concat(
        TIMESTAMP_KEY@ + stamp + RESULT_KEY@ + outcome_text(r.outcome) + PING_KEY@ + ping,
        seq![CLOSE_BRACE],
    );
}

/// The text of a run of records is ASCII.
pub(crate) proof fn lemma_rest_text_ascii(s: Seq<ProbeRecord>)
    ensures
        all_ascii(rest_text(s)),
    decreases s.len(),
{
    if s.len() > 0 {
        lemma_record_text_ascii(s[0]);
        lemma_rest_text_ascii(s.skip(1));
        assert(all_ascii(seq![COMMA]));
        lemma_ascii_concat(seq![COMMA], record_text(s[0]));
        lemma_ascii_concat(seq![COMMA] + record_text(s[0]), rest_text(s.skip(1)));
    }
}

/// A stored form is ASCII, and so text in every encoding that holds ASCII.
pub proof fn lemma_history_text_ascii(s: Seq<ProbeRecord>)
    ensures
        all_ascii(history_text(s)),
{
    assert(all_ascii(seq![OPEN_BRACKET]));
    assert(all_ascii(seq![CLOSE_BRACKET]));
    if s.len() > 0 {
        lemma_record_text_ascii(s[0]);
        lemma_rest_text_ascii(s.skip(1));
        lemma_ascii_concat(record_text(s[0]), rest_text(s.skip(1)));
    }
    lemma_ascii_concat(seq![OPEN_BRACKET], records_text(s));
    lemma_ascii_concat(seq![OPEN_BRACKET] + records_text(s), seq![CLOSE_BRACKET]);
}

} // verus!
