use vstd::prelude::*;

verus! {

/// Text shown in place of a timestamp that cannot be rendered.
pub const INVALID_TIMESTAMP: &'static str = "Invalid timestamp";

pub open spec fn is_digit(c: char) -> bool {
    '0' <= c && c <= '9'
}

pub open spec fn all_digits(s: Seq<char>) -> bool {
    forall|i: int| 0 <= i < s.len() ==> is_digit(#[trigger] s[i])
}

/// The number that the decimal digits `s` write.
pub open spec fn decimal_value(s: Seq<char>) -> int
    decreases s.len(),
{
    if s.len() == 0 {
        0
    } else {
        decimal_value(s.drop_last()) * 10 + (s.last() as int - '0' as int)
    }
}

/// `s` is a platform timestamp, whole seconds then optionally a point and a
/// fraction, and its whole seconds are its first `k` characters.
pub open spec fn seconds_end(s: Seq<char>, k: int) -> bool {
    &&& 0 < k <= s.len()
    &&& all_digits(s.take(k))
    &&& k < s.len() ==> s[k] == '.' && all_digits(s.skip(k + 1))
}

/// The whole seconds since the epoch that the timestamp `s` writes, the
/// fraction cut off; `None` when `s` is no timestamp.
pub open spec fn epoch_seconds_of(s: Seq<char>) -> Option<int> {
    if exists|k: int| seconds_end(s, k) {
        Some(decimal_value(s.take(choose|k: int| seconds_end(s, k))))
    } else {
        None
    }
}

/// What chrono renders for `secs` seconds after the epoch in the
/// America/Los_Angeles zone as `YYYY-MM-DD hh:mm AM/PM`, `None` where the
/// instant is out of chrono's range.
pub uninterp spec fn pacific_time_text(secs: int) -> Option<Seq<char>>;

/// The text shown for the timestamp `s`.
pub open spec fn timestamp_text(s: Seq<char>) -> Seq<char> {
    match epoch_seconds_of(s) {
        Some(n) => if n <= i64::MAX {
            rendered_text(pacific_time_text(n))
        } else {
            INVALID_TIMESTAMP@
        },
        None => INVALID_TIMESTAMP@,
    }
}

/// A rendered time, or the invalid-timestamp text where there is none.
pub open spec fn rendered_text(t: Option<Seq<char>>) -> Seq<char> {
    match t {
        Some(t) => t,
        None => INVALID_TIMESTAMP@,
    }
}

proof fn lemma_seconds_end_unique(s: Seq<char>, k1: int, k2: int)
    requires
        seconds_end(s, k1),
        seconds_end(s, k2),
    ensures
        k1 == k2,
{
    if k1 < k2 {
        assert(s.take(k2)[k1] == s[k1]);
    } else if k2 < k1 {
        assert(s.take(k1)[k2] == s[k2]);
    }
}

/// The whole seconds of the timestamp `ts`, if it is one and they fit an `i64`.
pub fn epoch_seconds(ts: &str) -> (r: Option<i64>)
    ensures
        r matches Some(v) ==> epoch_seconds_of(ts@) == Some(v as int),
        r is None ==> epoch_seconds_of(ts@) matches None || epoch_seconds_of(ts@)->0 > i64::MAX,
{
    let n = ts.unicode_len();
    let mut i: usize = 0;
    let mut v: i64 = 0;
    let mut overflow = false;
    while i < n
        invariant
            n == ts@.len(),
            i <= n,
            all_digits(ts@.take(i as int)),
            v >= 0,
            !overflow ==> v == decimal_value(ts@.take(i as int)),
            overflow ==> decimal_value(ts@.take(i as int)) > i64::MAX,
        ensures
            i <= n,
            all_digits(ts@.take(i as int)),
            !overflow ==> v == decimal_value(ts@.take(i as int)),
            overflow ==> decimal_value(ts@.take(i as int)) > i64::MAX,
            i < n ==> !is_digit(ts@[i as int]),
        decreases n - i,
    {
        let c = ts.get_char(i);
        if !('0' <= c && c <= '9') {
            break;
        }
        let d = (c as u32 - '0' as u32) as i64;
        assert(ts@.take(i + 1).drop_last() =~= ts@.take(i as int));
        assert(decimal_value(ts@.take(i + 1)) == decimal_value(ts@.take(i as int)) * 10 + d);
        if !overflow {
            match v.checked_mul(10) {
                Some(m) => match m.checked_add(d) {
                    Some(w) => {
                        v = w;
                    },
                    None => {
                        overflow = true;
                    },
                },
                None => {
                    overflow = true;
                },
            }
        }
        i = i + 1;
    }
    if i == 0 {
        proof {
            assert forall|k: int| !seconds_end(ts@, k) by {
                if seconds_end(ts@, k) {
                    assert(ts@.take(k)[0] == ts@[0]);
                }
            }
        }
        return None;
    }
    if i < n {
        if ts.get_char(i) != '.' {
            proof {
                assert forall|k: int| !seconds_end(ts@, k) by {
                    if seconds_end(ts@, k) {
                        if k > i {
                            assert(ts@.take(k)[i as int] == ts@[i as int]);
                        } else if k < i {
                            assert(ts@.take(i as int)[k] == ts@[k]);
                        }
                    }
                }
            }
            return None;
        }
        let mut j: usize = i + 1;
        while j < n
            invariant
                n == ts@.len(),
                i < j <= n,
                all_digits(ts@.take(i as int)),
                ts@[i as int] == '.',
                forall|q: int| i < q < j ==> is_digit(#[trigger] ts@[q]),
            decreases n - j,
        {
            let c = ts.get_char(j);
            if !('0' <= c && c <= '9') {
                proof {
                    assert forall|k: int| !seconds_end(ts@, k) by {
                        if seconds_end(ts@, k) {
                            if k > i {
                                assert(ts@.take(k)[i as int] == ts@[i as int]);
                            } else if k < i {
                                assert(ts@.take(i as int)[k] == ts@[k]);
                            } else {
                                assert(ts@.skip(k + 1)[j - k - 1] == ts@[j as int]);
                            }
                        }
                    }
                }
                return None;
            }
            j = j + 1;
        }
        assert(ts@.skip(i + 1) =~= ts@.skip(i + 1));
        assert forall|q: int| 0 <= q < ts@.skip(i + 1).len() implies is_digit(#[trigger] ts@.skip(i + 1)[q]) by {
            assert(ts@.skip(i + 1)[q] == ts@[i + 1 + q]);
        }
    }
    assert(seconds_end(ts@, i as int));
    proof {
        let k = choose|k: int| seconds_end(ts@, k);
        lemma_seconds_end_unique(ts@, k, i as int);
    }
    if overflow {
        None
    } else {
        Some(v)
    }
}

/// Relies on chrono's `DateTime::<Utc>::from_timestamp` (`None` out of its
/// range), chrono-tz's `America::Los_Angeles` zone through
/// `TimeZone::from_utc_datetime`, and chrono's `format` with
/// `%Y-%m-%d %I:%M %p`.
#[verifier::external_body]
fn pacific_time(secs: i64) -> (r: Option<String>)
    ensures
        match r {
            Some(t) => pacific_time_text(secs as int) == Some(t@),
            None => pacific_time_text(secs as int) is None,
        },
{
    match chrono::DateTime::<chrono::Utc>::from_timestamp(secs, 0) {
        Some(utc) => {
            let local = chrono::TimeZone::from_utc_datetime(&chrono_tz::America::Los_Angeles, &utc.naive_utc());
            Some(local.format("%Y-%m-%d %I:%M %p").to_string())
        },
        None => None,
    }
}

/// The text shown for a rendered time: the time itself, or the
/// invalid-timestamp text where rendering gave nothing.
pub fn rendered_or_invalid(rendered: Option<String>) -> (r: String)
    ensures
        r@ == rendered_text(match rendered {
            Some(t) => Some(t@),
            None => None,
        }),
{
    match rendered {
        Some(t) => t,
        None => INVALID_TIMESTAMP.to_owned(),
    }
}

/// Renders the platform timestamp `ts` as local time in the America/Los_Angeles
/// zone, `YYYY-MM-DD hh:mm AM/PM`, or as `Invalid timestamp`.
pub fn format_timestamp(ts: &str) -> (r: String)
    ensures
        r@ == timestamp_text(ts@),
{
    match epoch_seconds(ts) {
        Some(secs) => rendered_or_invalid(pacific_time(secs)),
        None => INVALID_TIMESTAMP.to_owned(),
    }
}

} // verus!
