use vstd::prelude::*;

use crate::events::EventKind;
use crate::text::{
    copy_range, digit_val, hexdash_end, is_digit, is_digit_b, is_sp_b, is_word_b, lit_at,
    match_at, nonparen_end, nonws_end, scan_hexdash, scan_nonws, scan_to_paren, scan_word,
    scan_ws, sp, trim, trim_range, word_byte, word_end, ws_end,
};
use crate::ts::{ts_valid, Timestamp};

verus! {

// The line grammar.  A line is significant when it starts with a timestamp
// `YYYY.MM.DD HH:MM:SS`, continues with a log level, a dash and the
// `[Behaviour]` tag, and then announces a join, a leave or an avatar
// switch.  Any other line is silently skipped.
/// What a significant line says: when, which kind, the player's display
/// name, and — for joins and leaves — the explicit user identifier.
pub struct LineInfo {
    pub ts: Timestamp,
    pub kind: EventKind,
    pub name: Seq<u8>,
    pub id: Option<Seq<u8>>,
}

/// Exec-side result of parsing one line.
pub struct ParsedLine {
    pub ts: Timestamp,
    pub kind: EventKind,
    pub name: Vec<u8>,
    pub id: Option<Vec<u8>>,
}

impl View for ParsedLine {
    type V = LineInfo;

    open spec fn view(&self) -> LineInfo {
        LineInfo {
            ts: self.ts,
            kind: self.kind,
            name: self.name@,
            id: match self.id {
                Some(v) => Some(v@),
                None => None,
            },
        }
    }
}

pub open spec fn behaviour_lit() -> Seq<u8> {
    seq![91, 66, 101, 104, 97, 118, 105, 111, 117, 114, 93]
}

pub open spec fn joined_lit() -> Seq<u8> {
    seq![79, 110, 80, 108, 97, 121, 101, 114, 74, 111, 105, 110, 101, 100]
}

pub open spec fn left_lit() -> Seq<u8> {
    seq![79, 110, 80, 108, 97, 121, 101, 114, 76, 101, 102, 116]
}

pub open spec fn switching_lit() -> Seq<u8> {
    seq![83, 119, 105, 116, 99, 104, 105, 110, 103]
}

pub open spec fn usr_lit() -> Seq<u8> {
    seq![117, 115, 114, 95]
}

pub open spec fn to_lit() -> Seq<u8> {
    seq![116, 111]
}

pub open spec fn avatar_lit() -> Seq<u8> {
    seq![97, 118, 97, 116, 97, 114]
}

/// The nineteen leading bytes spell `YYYY.MM.DD HH:MM:SS`.
pub open spec fn ts_shape(s: Seq<u8>) -> bool {
    &&& s.len() >= 19
    &&& is_digit(s[0]) && is_digit(s[1]) && is_digit(s[2]) && is_digit(s[3])
    &&& s[4] == 46
    &&& is_digit(s[5]) && is_digit(s[6])
    &&& s[7] == 46
    &&& is_digit(s[8]) && is_digit(s[9])
    &&& s[10] == 32
    &&& is_digit(s[11]) && is_digit(s[12])
    &&& s[13] == 58
    &&& is_digit(s[14]) && is_digit(s[15])
    &&& s[16] == 58
    &&& is_digit(s[17]) && is_digit(s[18])
}

pub open spec fn two_dig(s: Seq<u8>, i: int) -> int {
    digit_val(s[i]) * 10 + digit_val(s[i + 1])
}

pub open spec fn four_dig(s: Seq<u8>, i: int) -> int {
    digit_val(s[i]) * 1000 + digit_val(s[i + 1]) * 100 + digit_val(s[i + 2]) * 10 + digit_val(
        s[i + 3],
    )
}

/// The timestamp the nineteen leading bytes spell (assuming `ts_shape`).
pub open spec fn ts_of(s: Seq<u8>) -> Timestamp {
    Timestamp {
        year: (digit_val(s[0]) * 1000 + digit_val(s[1]) * 100 + digit_val(s[2]) * 10 + digit_val(
            s[3],
        )) as u32,
        month: two_dig(s, 5) as u32,
        day: two_dig(s, 8) as u32,
        hour: two_dig(s, 11) as u32,
        minute: two_dig(s, 14) as u32,
        second: two_dig(s, 17) as u32,
    }
}

/// Position right after the `[Behaviour]` tag and its trailing whitespace,
/// or a negative number where the header does not fit the grammar.
pub open spec fn hdr_end(s: Seq<u8>) -> int {
    let a = ws_end(s, 19);
    if a <= 19 {
        -1
    } else if a < s.len() && word_byte(s[a]) {
        let b = word_end(s, a);
        let c = ws_end(s, b);
        if c <= b {
            -1
        } else if c < s.len() && s[c] == 45 {
            let d = ws_end(s, c + 1);
            if d <= c + 1 {
                -1
            } else if lit_at(s, d, behaviour_lit()) {
                let e = d + 11;
                if e < s.len() && sp(s[e]) {
                    e + 1
                } else {
                    -1
                }
            } else {
                -1
            }
        } else {
            -1
        }
    } else {
        -1
    }
}

/// Rest of a join or leave line after its keyword: one whitespace, the
/// display name, a whitespace, and `(usr_` followed by hex digits and
/// dashes.  The name is the text before the parenthesis, trimmed.
pub open spec fn named_tail(s: Seq<u8>, i: int, kind: EventKind, t: Timestamp) -> Option<
    LineInfo,
> {
    if i < s.len() && sp(s[i]) {
        let p = i + 1;
        let q = nonparen_end(s, p);
        if q < s.len() && q >= p + 2 && sp(s[q - 1]) {
            if lit_at(s, q + 1, usr_lit()) {
                let k = hexdash_end(s, q + 5);
                if k > q + 5 {
                    Some(
                        LineInfo {
                            ts: t,
                            kind: kind,
                            name: trim(s.subrange(p, q - 1)),
                            id: Some(s.subrange(q + 1, k)),
                        },
                    )
                } else {
                    None
                }
            } else {
                None
            }
        } else {
            None
        }
    } else {
        None
    }
}

/// Rest of an avatar-switch line after `Switching`: one whitespace, the
/// display name (no spaces), whitespace, then `to avatar `.  Such a line
/// names no user identifier.
pub open spec fn avatar_tail(s: Seq<u8>, i: int, t: Timestamp) -> Option<LineInfo> {
    if i < s.len() && sp(s[i]) {
        let p = i + 1;
        if p < s.len() && !sp(s[p]) {
            let n = nonws_end(s, p);
            let u = ws_end(s, n);
            if u > n && lit_at(s, u, to_lit()) && u + 2 < s.len() && sp(s[u + 2]) && lit_at(
                s,
                u + 3,
                avatar_lit(),
            ) && u + 9 < s.len() && sp(s[u + 9]) {
                Some(
                    LineInfo {
                        ts: t,
                        kind: EventKind::AvatarChanged,
                        name: s.subrange(p, n),
                        id: None,
                    },
                )
            } else {
                None
            }
        } else {
            None
        }
    } else {
        None
    }
}

/// The whole line grammar: `None` for a line that matches no shape or whose
/// timestamp is not a real calendar instant.
pub open spec fn spec_parse_line(s: Seq<u8>) -> Option<LineInfo> {
    if !ts_shape(s) {
        None
    } else if !ts_valid(ts_of(s)) {
        None
    } else {
        let t = ts_of(s);
        let h = hdr_end(s);
        if h < 0 {
            None
        } else if lit_at(s, h, joined_lit()) {
            named_tail(s, h + 14, EventKind::Joined, t)
        } else if lit_at(s, h, left_lit()) {
            named_tail(s, h + 12, EventKind::Left, t)
        } else if lit_at(s, h, switching_lit()) {
            avatar_tail(s, h + 9, t)
        } else {
            None
        }
    }
}

fn behaviour_vec() -> (r: Vec<u8>)
    ensures
        r@ == behaviour_lit(),
{
    let v: Vec<u8> = vec![91, 66, 101, 104, 97, 118, 105, 111, 117, 114, 93];
    proof {
        assert(v@ =~= behaviour_lit());
    }
    v
}

fn joined_vec() -> (r: Vec<u8>)
    ensures
        r@ == joined_lit(),
{
    let v: Vec<u8> = vec![
        79,
        110,
        80,
        108,
        97,
        121,
        101,
        114,
        74,
        111,
        105,
        110,
        101,
        100,
    ];
    proof {
        assert(v@ =~= joined_lit());
    }
    v
}

fn left_vec() -> (r: Vec<u8>)
    ensures
        r@ == left_lit(),
{
    let v: Vec<u8> = vec![79, 110, 80, 108, 97, 121, 101, 114, 76, 101, 102, 116];
    proof {
        assert(v@ =~= left_lit());
    }
    v
}

fn switching_vec() -> (r: Vec<u8>)
    ensures
        r@ == switching_lit(),
{
    let v: Vec<u8> = vec![83, 119, 105, 116, 99, 104, 105, 110, 103];
    proof {
        assert(v@ =~= switching_lit());
    }
    v
}

fn usr_vec() -> (r: Vec<u8>)
    ensures
        r@ == usr_lit(),
{
    let v: Vec<u8> = vec![117, 115, 114, 95];
    proof {
        assert(v@ =~= usr_lit());
    }
    v
}

fn to_vec_lit() -> (r: Vec<u8>)
    ensures
        r@ == to_lit(),
{
    let v: Vec<u8> = vec![116, 111];
    proof {
        assert(v@ =~= to_lit());
    }
    v
}

fn avatar_vec() -> (r: Vec<u8>)
    ensures
        r@ == avatar_lit(),
{
    let v: Vec<u8> = vec![97, 118, 97, 116, 97, 114];
    proof {
        assert(v@ =~= avatar_lit());
    }
    v
}

fn digit_at(s: &Vec<u8>, i: usize) -> (r: u32)
    requires
        i < s.len(),
        is_digit(s@[i as int]),
    ensures
        r == digit_val(s@[i as int]),
{
    (s[i] - 48) as u32
}

/// Reads and validates the leading timestamp.
fn read_ts(s: &Vec<u8>) -> (r: Option<Timestamp>)
    ensures
        match r {
            Some(t) => ts_shape(s@) && t == ts_of(s@) && ts_valid(t),
            None => !ts_shape(s@) || !ts_valid(ts_of(s@)),
        },
{
    if s.len() < 19 {
        return None;
    }
    let shape_ok = is_digit_b(s[0]) && is_digit_b(s[1]) && is_digit_b(s[2]) && is_digit_b(s[3])
        && s[4] == 46 && is_digit_b(s[5]) && is_digit_b(s[6]) && s[7] == 46 && is_digit_b(s[8])
        && is_digit_b(s[9]) && s[10] == 32 && is_digit_b(s[11]) && is_digit_b(s[12]) && s[13]
        == 58 && is_digit_b(s[14]) && is_digit_b(s[15]) && s[16] == 58 && is_digit_b(s[17])
        && is_digit_b(s[18]);
    if !shape_ok {
        return None;
    }
    let t = Timestamp {
        year: digit_at(s, 0) * 1000 + digit_at(s, 1) * 100 + digit_at(s, 2) * 10 + digit_at(s, 3),
        month: digit_at(s, 5) * 10 + digit_at(s, 6),
        day: digit_at(s, 8) * 10 + digit_at(s, 9),
        hour: digit_at(s, 11) * 10 + digit_at(s, 12),
        minute: digit_at(s, 14) * 10 + digit_at(s, 15),
        second: digit_at(s, 17) * 10 + digit_at(s, 18),
    };
    if t.valid() {
        Some(t)
    } else {
        None
    }
}

/// Parses one complete line against the grammar.
pub fn parse_line(line: &Vec<u8>) -> (r: Option<ParsedLine>)
    ensures
        match r {
            Some(p) => spec_parse_line(line@) == Some(p@),
            None => spec_parse_line(line@) is None,
        },
{
    let t = match read_ts(line) {
        Some(t) => t,
        None => {
            return None;
        },
    };
    // Header: whitespace, log level, whitespace, dash, whitespace, tag, one
    // whitespace.
    let a = scan_ws(line, 19);
    if a <= 19 {
        return None;
    }
    if !(a < line.len() && is_word_b(line[a])) {
        return None;
    }
    let b = scan_word(line, a);
    let c = scan_ws(line, b);
    if c <= b {
        return None;
    }
    if !(c < line.len() && line[c] == 45) {
        return None;
    }
    let d = scan_ws(line, c + 1);
    if d <= c + 1 {
        return None;
    }
    if !match_at(line, d, &behaviour_vec()) {
        return None;
    }
    let e = d + 11;
    if !(e < line.len() && is_sp_b(line[e])) {
        return None;
    }
    let h = e + 1;
    assert(hdr_end(line@) == h);
    if match_at(line, h, &joined_vec()) {
        assert(h + 14 <= line@.len());
        parse_named_tail(line, h + 14, EventKind::Joined, t)
    } else if match_at(line, h, &left_vec()) {
        assert(h + 12 <= line@.len());
        parse_named_tail(line, h + 12, EventKind::Left, t)
    } else if match_at(line, h, &switching_vec()) {
        assert(h + 9 <= line@.len());
        parse_avatar_tail(line, h + 9, t)
    } else {
        None
    }
}

fn parse_named_tail(line: &Vec<u8>, i: usize, kind: EventKind, t: Timestamp) -> (r: Option<
    ParsedLine,
>)
    ensures
        match r {
            Some(p) => named_tail(line@, i as int, kind, t) == Some(p@),
            None => named_tail(line@, i as int, kind, t) is None,
        },
{
    if !(i < line.len() && is_sp_b(line[i])) {
        return None;
    }
    let p = i + 1;
    let q = scan_to_paren(line, p);
    if !(q < line.len() && q - p >= 2 && is_sp_b(line[q - 1])) {
        return None;
    }
    if !match_at(line, q + 1, &usr_vec()) {
        return None;
    }
    let k = scan_hexdash(line, q + 5);
    if !(k > q + 5) {
        return None;
    }
    let name = trim_range(line, p, q - 1);
    let id = copy_range(line, q + 1, k);
    Some(ParsedLine { ts: t, kind: kind, name: name, id: Some(id) })
}

fn parse_avatar_tail(line: &Vec<u8>, i: usize, t: Timestamp) -> (r: Option<ParsedLine>)
    ensures
        match r {
            Some(p) => avatar_tail(line@, i as int, t) == Some(p@),
            None => avatar_tail(line@, i as int, t) is None,
        },
{
    if !(i < line.len() && is_sp_b(line[i])) {
        return None;
    }
    let p = i + 1;
    if !(p < line.len() && !is_sp_b(line[p])) {
        return None;
    }
    let n = scan_nonws(line, p);
    let u = scan_ws(line, n);
    if !(u > n) {
        return None;
    }
    if !match_at(line, u, &to_vec_lit()) {
        return None;
    }
    if !(u + 2 < line.len() && is_sp_b(line[u + 2])) {
        return None;
    }
    if !match_at(line, u + 3, &avatar_vec()) {
        return None;
    }
    if !(u + 9 < line.len() && is_sp_b(line[u + 9])) {
        return None;
    }
    let name = copy_range(line, p, n);
    Some(ParsedLine { ts: t, kind: EventKind::AvatarChanged, name: name, id: None })
}

} // verus!
