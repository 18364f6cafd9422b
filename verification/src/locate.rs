use vstd::prelude::*;

use crate::parse::{four_dig, two_dig};
use crate::text::{byte_end, is_digit, is_digit_b, lit_at, match_at, scan_to_byte};
use crate::ts::{lemma_ts_order, lemma_ts_trans, ts_le, ts_lt, ts_valid, Timestamp};

verus! {

// The log locator.  A rotated log file is named `output_log_<date>_<time>`
// with a `.txt` extension; the date reads `YYYY-MM-DD` and the time
// `HH-MM-SS` (a `.` may stand for a date separator and a `:` for a time
// separator).  The freshest file is the one whose embedded timestamp is
// greatest; a name outside the grammar is ignored, not an error.
pub open spec fn output_log_lit() -> Seq<u8> {
    seq![111, 117, 116, 112, 117, 116, 95, 108, 111, 103, 95]
}

pub open spec fn txt_lit() -> Seq<u8> {
    seq![46, 116, 120, 116]
}

/// A date separator: dash or dot.
pub open spec fn dsep(b: u8) -> bool {
    b == 45 || b == 46
}

/// A time separator: dash or colon.
pub open spec fn tsep(b: u8) -> bool {
    b == 45 || b == 58
}

/// Ten bytes at `i` spell `YYYY-MM-DD`.
pub open spec fn date_shape(s: Seq<u8>, i: int) -> bool {
    &&& i + 10 <= s.len()
    &&& is_digit(s[i]) && is_digit(s[i + 1]) && is_digit(s[i + 2]) && is_digit(s[i + 3])
    &&& dsep(s[i + 4])
    &&& is_digit(s[i + 5]) && is_digit(s[i + 6])
    &&& dsep(s[i + 7])
    &&& is_digit(s[i + 8]) && is_digit(s[i + 9])
}

/// Eight bytes at `i` spell `HH-MM-SS`.
pub open spec fn time_shape(s: Seq<u8>, i: int) -> bool {
    &&& i + 8 <= s.len()
    &&& is_digit(s[i]) && is_digit(s[i + 1])
    &&& tsep(s[i + 2])
    &&& is_digit(s[i + 3]) && is_digit(s[i + 4])
    &&& tsep(s[i + 5])
    &&& is_digit(s[i + 6]) && is_digit(s[i + 7])
}

/// The timestamp a log file's name embeds: the date stands after the
/// `output_log_` prefix up to the next underscore, the time after that
/// underscore up to the next underscore or dot.  `None` for any name
/// outside the grammar or naming no real calendar instant.
pub open spec fn spec_filename_ts(name: Seq<u8>) -> Option<Timestamp> {
    if !lit_at(name, 0, output_log_lit()) {
        None
    } else if !(name.len() >= 15 && lit_at(name, name.len() - 4, txt_lit())) {
        None
    } else {
        let u = byte_end(name, 11, 95);
        if u >= name.len() {
            None
        } else if u != 21 || !date_shape(name, 11) {
            None
        } else {
            let tstart = u + 1;
            let unext = byte_end(name, tstart, 95);
            let dot = byte_end(name, tstart, 46);
            let tend = if dot < unext {
                dot
            } else {
                unext
            };
            if tend - tstart != 8 || !time_shape(name, tstart) {
                None
            } else {
                let t = Timestamp {
                    year: four_dig(name, 11) as u32,
                    month: two_dig(name, 16) as u32,
                    day: two_dig(name, 19) as u32,
                    hour: two_dig(name, tstart) as u32,
                    minute: two_dig(name, tstart + 3) as u32,
                    second: two_dig(name, tstart + 6) as u32,
                };
                if ts_valid(t) {
                    Some(t)
                } else {
                    None
                }
            }
        }
    }
}

fn output_log_vec() -> (r: Vec<u8>)
    ensures
        r@ == output_log_lit(),
{
    let v: Vec<u8> = vec![111, 117, 116, 112, 117, 116, 95, 108, 111, 103, 95];
    proof {
        assert(v@ =~= output_log_lit());
    }
    v
}

fn txt_vec() -> (r: Vec<u8>)
    ensures
        r@ == txt_lit(),
{
    let v: Vec<u8> = vec![46, 116, 120, 116];
    proof {
        assert(v@ =~= txt_lit());
    }
    v
}

fn is_dsep_b(b: u8) -> (r: bool)
    ensures
        r == dsep(b),
{
    b == 45 || b == 46
}

fn is_tsep_b(b: u8) -> (r: bool)
    ensures
        r == tsep(b),
{
    b == 45 || b == 58
}

fn dig2(s: &Vec<u8>, i: usize) -> (r: u32)
    requires
        i + 2 <= s.len(),
        is_digit(s@[i as int]),
        is_digit(s@[i as int + 1]),
    ensures
        r == two_dig(s@, i as int),
{
    (s[i] - 48) as u32 * 10 + (s[i + 1] - 48) as u32
}

/// Reads the timestamp a log file's name embeds.
pub fn parse_log_timestamp(name: &Vec<u8>) -> (r: Option<Timestamp>)
    ensures
        r == spec_filename_ts(name@),
{
    if !match_at(name, 0, &output_log_vec()) {
        return None;
    }
    if !(name.len() >= 15) {
        return None;
    }
    if !match_at(name, name.len() - 4, &txt_vec()) {
        return None;
    }
    let u = scan_to_byte(name, 11, 95);
    if u >= name.len() {
        return None;
    }
    let date_ok = u == 21 && is_digit_b(name[11]) && is_digit_b(name[12]) && is_digit_b(name[13])
        && is_digit_b(name[14]) && is_dsep_b(name[15]) && is_digit_b(name[16]) && is_digit_b(
        name[17],
    ) && is_dsep_b(name[18]) && is_digit_b(name[19]) && is_digit_b(name[20]);
    if !date_ok {
        return None;
    }
    let tstart = u + 1;
    let unext = scan_to_byte(name, tstart, 95);
    let dot = scan_to_byte(name, tstart, 46);
    let tend = if dot < unext {
        dot
    } else {
        unext
    };
    if !(tend - tstart == 8) {
        return None;
    }
    let time_ok = is_digit_b(name[tstart]) && is_digit_b(name[tstart + 1]) && is_tsep_b(
        name[tstart + 2],
    ) && is_digit_b(name[tstart + 3]) && is_digit_b(name[tstart + 4]) && is_tsep_b(
        name[tstart + 5],
    ) && is_digit_b(name[tstart + 6]) && is_digit_b(name[tstart + 7]);
    if !time_ok {
        return None;
    }
    let year = (name[11] - 48) as u32 * 1000 + (name[12] - 48) as u32 * 100 + (name[13]
        - 48) as u32 * 10 + (name[14] - 48) as u32;
    let t = Timestamp {
        year: year,
        month: dig2(name, 16),
        day: dig2(name, 19),
        hour: dig2(name, tstart),
        minute: dig2(name, tstart + 3),
        second: dig2(name, tstart + 6),
    };
    if t.valid() {
        Some(t)
    } else {
        None
    }
}

/// Picks the freshest log among candidate file names: the one whose
/// embedded timestamp is greatest, the earliest such name winning a tie.
/// `None` exactly when no name fits the grammar — the caller reports that
/// as its not-found failure.
pub fn select_latest_log(names: &Vec<Vec<u8>>) -> (r: Option<usize>)
    ensures
        match r {
            Some(i) => {
                &&& i < names@.len()
                &&& spec_filename_ts(names@[i as int]@) is Some
                &&& forall|j: int|
                    0 <= j < names@.len() && spec_filename_ts(names@[j]@) is Some ==> ts_le(
                        spec_filename_ts(names@[j]@).unwrap(),
                        spec_filename_ts(names@[i as int]@).unwrap(),
                    )
                &&& forall|j: int|
                    0 <= j < i && spec_filename_ts(names@[j]@) is Some ==> ts_lt(
                        spec_filename_ts(names@[j]@).unwrap(),
                        spec_filename_ts(names@[i as int]@).unwrap(),
                    )
            },
            None => forall|j: int| 0 <= j < names@.len() ==> spec_filename_ts(names@[j]@) is None,
        },
{
    let mut best: Option<(usize, Timestamp)> = None;
    let mut j: usize = 0;
    while j < names.len()
        invariant
            0 <= j <= names@.len(),
            match best {
                Some(b) => {
                    &&& b.0 < j
                    &&& spec_filename_ts(names@[b.0 as int]@) == Some(b.1)
                    &&& forall|k: int|
                        0 <= k < j && spec_filename_ts(names@[k]@) is Some ==> ts_le(
                            spec_filename_ts(names@[k]@).unwrap(),
                            b.1,
                        )
                    &&& forall|k: int|
                        0 <= k < b.0 && spec_filename_ts(names@[k]@) is Some ==> ts_lt(
                            spec_filename_ts(names@[k]@).unwrap(),
                            b.1,
                        )
                },
                None => forall|k: int| 0 <= k < j ==> spec_filename_ts(names@[k]@) is None,
            },
        decreases names@.len() - j,
    {
        let parsed = parse_log_timestamp(&names[j]);
        match parsed {
            Some(t) => {
                match best {
                    None => {
                        best = Some((j, t));
                    },
                    Some(b) => {
                        if b.1.before(&t) {
                            proof {
                                assert forall|k: int|
                                    0 <= k < j && spec_filename_ts(names@[k]@) is Some implies
                                    ts_lt(spec_filename_ts(names@[k]@).unwrap(), t) by {
                                    lemma_ts_trans(spec_filename_ts(names@[k]@).unwrap(), b.1, t);
                                }
                            }
                            best = Some((j, t));
                        } else {
                            proof {
                                lemma_ts_order(t, b.1);
                            }
                        }
                    },
                }
            },
            None => {},
        }
        j = j + 1;
    }
    match best {
        Some(b) => Some(b.0),
        None => None,
    }
}

} // verus!
