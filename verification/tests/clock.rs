use autocoder::clock::{as_signed, Span, Timestamp};

fn at(seconds: i64, nanos: u32) -> Timestamp {
    Timestamp { seconds, nanos }
}

fn chrono_at(t: Timestamp) -> chrono::DateTime<chrono::Utc> {
    chrono::DateTime::from_timestamp(t.seconds, t.nanos).unwrap()
}

/// Ordinary moments and moments in leap seconds, some before 1970.
fn moments() -> Vec<Timestamp> {
    let mut all = Vec::new();
    for seconds in [-100_000, -1, 59, 119, 86_399, 86_459, 172_799, 1_700_000_039] {
        for nanos in [0, 1, 999_999_999] {
            all.push(at(seconds, nanos));
        }
        if chrono::DateTime::from_timestamp(seconds, 1_500_000_000).is_some() {
            all.push(at(seconds, 1_000_000_000));
            all.push(at(seconds, 1_500_000_000));
        }
    }
    all
}

#[test]
fn spans_are_counted_as_chrono_counts_them() {
    for now in moments() {
        for then in moments() {
            for age in [
                Span { seconds: 0, nanos: 0 },
                Span { seconds: -1, nanos: 5 },
                Span { seconds: 60, nanos: 0 },
                Span { seconds: 86_400, nanos: 1 },
            ] {
                let limit = chrono::Duration::new(age.seconds, age.nanos).unwrap();
                assert_eq!(
                    now.is_later_by_more_than(&then, &age),
                    chrono_at(now) - chrono_at(then) > limit,
                    "{now:?} {then:?} {age:?}"
                );
            }
            assert_eq!(now.at_most(&then), chrono_at(now) <= chrono_at(then));
        }
    }
}

#[test]
fn moments_are_shifted_as_chrono_shifts_them() {
    for t in moments() {
        for seconds in [-86_400, -1, 0, 1, 60, 3_600] {
            assert_eq!(
                chrono_at(t.plus_seconds(seconds)),
                chrono_at(t) + chrono::Duration::seconds(seconds),
                "{t:?} {seconds}"
            );
        }
    }
    assert_eq!(at(59, 1_250_000_000).plus_seconds(1), at(60, 250_000_000));
    assert_eq!(at(59, 1_250_000_000).plus_seconds(-1), at(59, 250_000_000));
}

#[test]
fn large_numbers_wrap_to_negative_ones() {
    for n in [0, 1, i64::MAX as u64, i64::MAX as u64 + 1, u64::MAX] {
        assert_eq!(as_signed(n), n as i64);
    }
}
