use vstd::prelude::*;

verus! {

// ---------------------------------------------------------------------------
// The wire is JSON text. This module gives the service its own JSON values:
// a mathematical model (`Json`), the canonical text of a value (`json_text`),
// an executable writer and an executable reader, and the lemma that makes
// the reader invert the writer.
//
// The writer emits canonical text: no whitespace, members in order, strings
// escaped where JSON requires it (quote, backslash, control bytes). The
// reader accepts more, as agents may send it: insignificant whitespace
// between tokens, and the standard string escapes, with a hexadecimal
// escape read for code points up to 0x7F. Numbers are read as 64-bit
// integers; a fraction, an exponent, an integer outside i64, or a
// hexadecimal escape beyond 0x7F does not read.
// ---------------------------------------------------------------------------

/// The mathematical model of a JSON value.
pub enum Json {
    Null,
    Bool(bool),
    Int(int),
    Str(Seq<u8>),
    Arr(Seq<Json>),
    Obj(Seq<(Seq<u8>, Json)>),
}

/// Well-formed values: integers within `i64`, everywhere.
pub open spec fn wf_json(g: Json) -> bool
    decreases g,
{
    match g {
        Json::Null => true,
        Json::Bool(_) => true,
        Json::Int(n) => i64::MIN <= n <= i64::MAX,
        Json::Str(_) => true,
        Json::Arr(items) => wf_json_seq(items),
        Json::Obj(members) => wf_json_members(members),
    }
}

pub open spec fn wf_json_seq(items: Seq<Json>) -> bool
    decreases items,
{
    items.len() == 0 || (wf_json(items[0]) && wf_json_seq(items.drop_first()))
}

pub open spec fn wf_json_members(members: Seq<(Seq<u8>, Json)>) -> bool
    decreases members,
{
    members.len() == 0 || (wf_json(members[0].1) && wf_json_members(members.drop_first()))
}

/// The hexadecimal digit for a value below sixteen, lowercase.
pub open spec fn hex_digit_of(n: int) -> u8 {
    if n < 10 {
        (48 + n) as u8
    } else {
        (87 + n) as u8
    }
}

/// How one content byte stands inside quotes: quote, backslash and control
/// bytes escaped, everything else as itself.
pub open spec fn esc_byte(b: u8) -> Seq<u8> {
    if b == 34 {
        seq![92u8, 34u8]
    } else if b == 92 {
        seq![92u8, 92u8]
    } else if b < 0x20 {
        seq![92u8, 117u8, 48u8, 48u8, hex_digit_of((b / 16) as int), hex_digit_of((b % 16) as int)]
    } else {
        seq![b]
    }
}

/// The escaped text of string content, byte by byte.
pub open spec fn esc_text(s: Seq<u8>) -> Seq<u8>
    decreases s,
{
    if s.len() == 0 {
        Seq::empty()
    } else {
        esc_byte(s[0]) + esc_text(s.drop_first())
    }
}

/// The decimal digits of a natural number, most significant first.
pub open spec fn dec_text(n: nat) -> Seq<u8>
    decreases n,
{
    if n < 10 {
        seq![(48 + n) as u8]
    } else {
        dec_text(n / 10).push((48 + n % 10) as u8)
    }
}

/// The canonical text of an integer: a minus sign for negatives, no leading zeros.
pub open spec fn int_text(n: int) -> Seq<u8> {
    if n < 0 {
        seq![45u8] + dec_text((-n) as nat)
    } else {
        dec_text(n as nat)
    }
}

/// The canonical text of a JSON value: no whitespace, keys and members in
/// order, strings escaped as `esc_text` says.
pub open spec fn json_text(g: Json) -> Seq<u8>
    decreases g,
{
    match g {
        Json::Null => seq![110u8, 117u8, 108u8, 108u8],
        Json::Bool(b) => if b {
            seq![116u8, 114u8, 117u8, 101u8]
        } else {
            seq![102u8, 97u8, 108u8, 115u8, 101u8]
        },
        Json::Int(n) => int_text(n),
        Json::Str(s) => seq![34u8] + esc_text(s) + seq![34u8],
        Json::Arr(items) => seq![91u8] + arr_text(items) + seq![93u8],
        Json::Obj(members) => seq![123u8] + obj_text(members) + seq![125u8],
    }
}

/// The comma-separated texts of array elements.
pub open spec fn arr_text(items: Seq<Json>) -> Seq<u8>
    decreases items,
{
    if items.len() == 0 {
        Seq::empty()
    } else if items.len() == 1 {
        json_text(items[0])
    } else {
        json_text(items[0]) + seq![44u8] + arr_text(items.drop_first())
    }
}

/// The comma-separated `"key":value` texts of object members.
pub open spec fn member_text(m: (Seq<u8>, Json)) -> Seq<u8>
    decreases m,
{
    seq![34u8] + esc_text(m.0) + seq![34u8, 58u8] + json_text(m.1)
}

pub open spec fn obj_text(members: Seq<(Seq<u8>, Json)>) -> Seq<u8>
    decreases members,
{
    if members.len() == 0 {
        Seq::empty()
    } else if members.len() == 1 {
        member_text(members[0])
    } else {
        member_text(members[0]) + seq![44u8] + obj_text(members.drop_first())
    }
}

pub open spec fn is_digit(b: u8) -> bool {
    48 <= b <= 57
}

pub open spec fn digit_val(b: u8) -> int {
    b - 48
}

/// The number a run of digits denotes, most significant digit first.
pub open spec fn dec_value(s: Seq<u8>) -> int
    decreases s.len(),
{
    if s.len() == 0 {
        0
    } else {
        dec_value(s.drop_last()) * 10 + digit_val(s.last())
    }
}

pub open spec fn pow10(n: nat) -> int
    decreases n,
{
    if n == 0 {
        1
    } else {
        10 * pow10((n - 1) as nat)
    }
}

/// Where the maximal run of digits that starts at `i` ends.
pub open spec fn digit_run_end(s: Seq<u8>, i: int) -> int
    decreases s.len() - i,
{
    if i < s.len() && is_digit(s[i]) {
        digit_run_end(s, i + 1)
    } else {
        i
    }
}

/// Whether the bytes `lit` stand in `s` at position `i`.
pub open spec fn has_at(s: Seq<u8>, i: int, lit: Seq<u8>) -> bool {
    0 <= i && i + lit.len() <= s.len() && s.subrange(i, i + lit.len()) == lit
}

/// A byte that is insignificant between tokens.
pub open spec fn is_ws(b: u8) -> bool {
    b == 32 || b == 9 || b == 10 || b == 13
}

/// Nothing but whitespace from `j` to the end.
pub open spec fn ws_only_from(s: Seq<u8>, j: int) -> bool {
    forall|k: int| j <= k < s.len() ==> is_ws(#[trigger] s[k])
}

/// The value of a hexadecimal digit byte, either case.
pub open spec fn hex_val(b: u8) -> int {
    if is_digit(b) {
        b - 48
    } else if 97 <= b <= 102 {
        b - 87
    } else {
        b - 55
    }
}

/// Four hexadecimal digits stand at `i`.
pub open spec fn is_hex4(s: Seq<u8>, i: int) -> bool {
    crate::trusted::is_hex_digit(s[i]) && crate::trusted::is_hex_digit(s[i + 1])
        && crate::trusted::is_hex_digit(s[i + 2]) && crate::trusted::is_hex_digit(s[i + 3])
}

/// The value of the four hexadecimal digits at `i`.
pub open spec fn hex4_val(s: Seq<u8>, i: int) -> int {
    hex_val(s[i]) * 4096 + hex_val(s[i + 1]) * 256 + hex_val(s[i + 2]) * 16 + hex_val(s[i + 3])
}

/// What a short escape after a backslash stands for, where one does.
pub open spec fn esc_short(b: u8) -> Option<u8> {
    if b == 34 {
        Some(34u8)
    } else if b == 92 {
        Some(92u8)
    } else if b == 47 {
        Some(47u8)
    } else if b == 98 {
        Some(8u8)
    } else if b == 102 {
        Some(12u8)
    } else if b == 110 {
        Some(10u8)
    } else if b == 114 {
        Some(13u8)
    } else if b == 116 {
        Some(9u8)
    } else {
        None
    }
}

/// Reads string content from just after an opening quote to a closing
/// quote: raw bytes, short escapes, and hexadecimal escapes up to 0x7F.
pub open spec fn spec_scan_str(s: Seq<u8>, i: int) -> Option<(Seq<u8>, int)>
    decreases s.len() - i,
{
    if i < 0 || i >= s.len() {
        None
    } else if s[i] == 34 {
        Some((Seq::empty(), i + 1))
    } else if s[i] == 92 {
        if i + 1 >= s.len() {
            None
        } else if s[i + 1] == 117 {
            if i + 6 <= s.len() && is_hex4(s, i + 2) && hex4_val(s, i + 2) <= 127 {
                match spec_scan_str(s, i + 6) {
                    Some((c, j)) => Some((seq![hex4_val(s, i + 2) as u8] + c, j)),
                    None => None,
                }
            } else {
                None
            }
        } else {
            match esc_short(s[i + 1]) {
                Some(b) => match spec_scan_str(s, i + 2) {
                    Some((c, j)) => Some((seq![b] + c, j)),
                    None => None,
                },
                None => None,
            }
        }
    } else if s[i] >= 0x20 {
        match spec_scan_str(s, i + 1) {
            Some((c, j)) => Some((seq![s[i]] + c, j)),
            None => None,
        }
    } else {
        None
    }
}

/// Reads an integer at `i`: optional minus, then a maximal digit run with no/// Reads an integer at `i`: optional minus, then a maximal digit run with no
/// leading zero, within the bounds of `i64`.
pub open spec fn spec_parse_int(s: Seq<u8>, i: int) -> Option<(Json, int)> {
    let d0 = if 0 <= i < s.len() && s[i] == 45 { i + 1 } else { i };
    let neg = d0 != i;
    let j = digit_run_end(s, d0);
    if j == d0 {
        None
    } else if s[d0] == 48 && j > d0 + 1 {
        None
    } else {
        let v = dec_value(s.subrange(d0, j));
        if neg {
            if 0 < v <= 0x8000000000000000 {
                Some((Json::Int(-v), j))
            } else {
                None
            }
        } else {
            if v <= 0x7fffffffffffffff {
                Some((Json::Int(v), j))
            } else {
                None
            }
        }
    }
}

/// The reader of a JSON value: at `i` in `s`, the value that starts there
/// after any whitespace, and where it ends, or nothing. A function, so
/// reading is deterministic.
pub open spec fn spec_parse_json(s: Seq<u8>, i: int) -> Option<(Json, int)>
    decreases s.len() - i, 0int,
{
    if i < 0 || i >= s.len() {
        None
    } else if is_ws(s[i]) {
        spec_parse_json(s, i + 1)
    } else if s[i] == 110 {
        if has_at(s, i, json_text(Json::Null)) {
            Some((Json::Null, i + 4))
        } else {
            None
        }
    } else if s[i] == 116 {
        if has_at(s, i, json_text(Json::Bool(true))) {
            Some((Json::Bool(true), i + 4))
        } else {
            None
        }
    } else if s[i] == 102 {
        if has_at(s, i, json_text(Json::Bool(false))) {
            Some((Json::Bool(false), i + 5))
        } else {
            None
        }
    } else if s[i] == 34 {
        match spec_scan_str(s, i + 1) {
            Some((c, j)) => Some((Json::Str(c), j)),
            None => None,
        }
    } else if s[i] == 45 || is_digit(s[i]) {
        spec_parse_int(s, i)
    } else if s[i] == 91 {
        match spec_arr_body(s, i + 1) {
            Some((items, j)) => Some((Json::Arr(items), j)),
            None => None,
        }
    } else if s[i] == 123 {
        match spec_obj_body(s, i + 1) {
            Some((members, j)) => Some((Json::Obj(members), j)),
            None => None,
        }
    } else {
        None
    }
}

/// Reads what follows an opening bracket: an empty array or its elements.
pub open spec fn spec_arr_body(s: Seq<u8>, i: int) -> Option<(Seq<Json>, int)>
    decreases s.len() - i, 3int,
{
    if i < 0 || i >= s.len() {
        None
    } else if is_ws(s[i]) {
        spec_arr_body(s, i + 1)
    } else if s[i] == 93 {
        Some((Seq::empty(), i + 1))
    } else {
        spec_parse_elems(s, i)
    }
}

/// Reads one element and whatever follows it.
pub open spec fn spec_parse_elems(s: Seq<u8>, i: int) -> Option<(Seq<Json>, int)>
    decreases s.len() - i, 1int,
{
    match spec_parse_json(s, i) {
        Some((v, j)) => {
            if j <= i || j > s.len() {
                None
            } else {
                match spec_elems_tail(s, j) {
                    Some((items, k)) => Some((seq![v] + items, k)),
                    None => None,
                }
            }
        },
        None => None,
    }
}

/// After one element: the closing bracket, or a comma and more elements.
pub open spec fn spec_elems_tail(s: Seq<u8>, j: int) -> Option<(Seq<Json>, int)>
    decreases s.len() - j, 2int,
{
    if j < 0 || j >= s.len() {
        None
    } else if is_ws(s[j]) {
        spec_elems_tail(s, j + 1)
    } else if s[j] == 93 {
        Some((Seq::empty(), j + 1))
    } else if s[j] == 44 {
        spec_parse_elems(s, j + 1)
    } else {
        None
    }
}

/// Reads what follows an opening brace: an empty object or its members.
pub open spec fn spec_obj_body(s: Seq<u8>, i: int) -> Option<(Seq<(Seq<u8>, Json)>, int)>
    decreases s.len() - i, 3int,
{
    if i < 0 || i >= s.len() {
        None
    } else if is_ws(s[i]) {
        spec_obj_body(s, i + 1)
    } else if s[i] == 125 {
        Some((Seq::empty(), i + 1))
    } else {
        spec_parse_members(s, i)
    }
}

/// Reads one `"key":value` member and whatever follows it.
pub open spec fn spec_parse_members(s: Seq<u8>, i: int) -> Option<(Seq<(Seq<u8>, Json)>, int)>
    decreases s.len() - i, 1int,
{
    if i < 0 || i >= s.len() {
        None
    } else if is_ws(s[i]) {
        spec_parse_members(s, i + 1)
    } else if s[i] != 34 {
        None
    } else {
        match spec_scan_str(s, i + 1) {
            Some((key, jk)) => {
                if jk <= i || jk > s.len() {
                    None
                } else {
                    match spec_member_val(s, jk) {
                        Some((v, j)) => {
                            if j <= jk || j > s.len() {
                                None
                            } else {
                                match spec_members_tail(s, j) {
                                    Some((members, k)) => Some((seq![(key, v)] + members, k)),
                                    None => None,
                                }
                            }
                        },
                        None => None,
                    }
                }
            },
            None => None,
        }
    }
}

/// After a member's key: the colon, then the member's value.
pub open spec fn spec_member_val(s: Seq<u8>, j: int) -> Option<(Json, int)>
    decreases s.len() - j, 1int,
{
    if j < 0 || j >= s.len() {
        None
    } else if is_ws(s[j]) {
        spec_member_val(s, j + 1)
    } else if s[j] == 58 {
        spec_parse_json(s, j + 1)
    } else {
        None
    }
}

/// After one member: the closing brace, or a comma and more members.
pub open spec fn spec_members_tail(s: Seq<u8>, j: int) -> Option<(Seq<(Seq<u8>, Json)>, int)>
    decreases s.len() - j, 2int,
{
    if j < 0 || j >= s.len() {
        None
    } else if is_ws(s[j]) {
        spec_members_tail(s, j + 1)
    } else if s[j] == 125 {
        Some((Seq::empty(), j + 1))
    } else if s[j] == 44 {
        spec_parse_members(s, j + 1)
    } else {
        None
    }
}

// ---------------------------------------------------------------------------
// Digits
// ---------------------------------------------------------------------------// ---------------------------------------------------------------------------
// Digits
// ---------------------------------------------------------------------------

/// Every byte of a decimal text is a digit, and the first is zero only for zero.
pub proof fn lemma_dec_text_digits(n: nat)
    ensures
        dec_text(n).len() >= 1,
        forall|k: int| 0 <= k < dec_text(n).len() ==> is_digit(#[trigger] dec_text(n)[k]),
        dec_text(n)[0] == 48 <==> n == 0,
    decreases n,
{
    if n >= 10 {
        lemma_dec_text_digits(n / 10);
    }
}

/// Reading back the decimal text of a number gives the number.
pub proof fn lemma_dec_value_of_text(n: nat)
    ensures
        dec_value(dec_text(n)) == n,
    decreases n,
{
    if n < 10 {
        let t = dec_text(n);
        assert(t =~= seq![(48 + n) as u8]);
        assert(t.drop_last() =~= Seq::<u8>::empty());
        assert(dec_value(t) == dec_value(t.drop_last()) * 10 + digit_val(t.last()));
        assert(digit_val((48 + n) as u8) == n);
    } else {
        lemma_dec_value_of_text(n / 10);
        let t = dec_text(n / 10);
        let w = t.push((48 + n % 10) as u8);
        assert(w.drop_last() =~= t);
        assert(dec_value(w) == dec_value(t) * 10 + (n % 10));
        assert(n / 10 * 10 + n % 10 == n) by (nonlinear_arith);
    }
}

/// The value of a digit run, bounded by its length; nonzero leading digit
/// forces the lower bound.
pub proof fn lemma_dec_value_bounds(s: Seq<u8>)
    requires
        forall|k: int| 0 <= k < s.len() ==> is_digit(#[trigger] s[k]),
    ensures
        0 <= dec_value(s) < pow10(s.len() as nat),
        s.len() >= 1 && s[0] != 48 ==> pow10((s.len() - 1) as nat) <= dec_value(s),
    decreases s.len(),
{
    if s.len() == 0 {
    } else {
        let t = s.drop_last();
        assert(forall|k: int| 0 <= k < t.len() ==> is_digit(#[trigger] t[k]));
        lemma_dec_value_bounds(t);
        let v = dec_value(t);
        let d = digit_val(s.last());
        assert(pow10(s.len() as nat) == 10 * pow10(t.len() as nat));
        assert(v < pow10(t.len() as nat) && 0 <= d <= 9 ==> v * 10 + d < 10 * pow10(
            t.len() as nat,
        )) by (nonlinear_arith);
        assert(v >= 0 && d >= 0 ==> v * 10 + d >= 0) by (nonlinear_arith);
        if s.len() >= 2 && s[0] != 48 {
            assert(t[0] == s[0]);
            let p = pow10((t.len() - 1) as nat);
            assert(p <= v && d >= 0 ==> 10 * p <= v * 10 + d) by (nonlinear_arith);
        }
    }
}

/// Writing back a read digit run gives the run, when it has no leading zero.
pub proof fn lemma_dec_text_of_value(s: Seq<u8>)
    requires
        forall|k: int| 0 <= k < s.len() ==> is_digit(#[trigger] s[k]),
        s.len() >= 1,
        s.len() > 1 ==> s[0] != 48,
    ensures
        dec_text(dec_value(s) as nat) == s,
    decreases s.len(),
{
    if s.len() == 1 {
        let d = digit_val(s[0]);
        assert(dec_value(s) == dec_value(s.drop_last()) * 10 + d);
        assert(dec_value(s.drop_last()) == 0);
        assert(dec_text(d as nat) =~= seq![(48 + d) as u8]);
        assert(dec_text(dec_value(s) as nat) =~= s);
    } else {
        let t = s.drop_last();
        let d = digit_val(s.last());
        assert(forall|k: int| 0 <= k < t.len() ==> is_digit(#[trigger] t[k]));
        assert(t[0] == s[0]);
        lemma_dec_text_of_value(t);
        lemma_dec_value_bounds(t);
        let v = dec_value(t);
        assert(pow10((t.len() - 1) as nat) >= 1) by {
            lemma_pow10_pos((t.len() - 1) as nat);
        }
        assert(v >= 1);
        let n = dec_value(s);
        assert(n == v * 10 + d);
        assert(v >= 1 && 0 <= d <= 9 ==> v * 10 + d >= 10 && (v * 10 + d) / 10 == v && (v * 10 + d)
            % 10 == d) by (nonlinear_arith);
        assert(dec_text(n as nat) == dec_text(v as nat).push((48 + d) as u8));
        assert(dec_text(n as nat) =~= s);
    }
}

pub proof fn lemma_pow10_pos(n: nat)
    ensures
        pow10(n) >= 1,
    decreases n,
{
    if n > 0 {
        lemma_pow10_pos((n - 1) as nat);
    }
}

/// A maximal digit run ends exactly where the digits stop.
pub proof fn lemma_digit_run(s: Seq<u8>, i: int, e: int)
    requires
        0 <= i <= e <= s.len(),
        forall|k: int| i <= k < e ==> is_digit(#[trigger] s[k]),
        e == s.len() || !is_digit(s[e]),
    ensures
        digit_run_end(s, i) == e,
    decreases e - i,
{
    if i < e {
        lemma_digit_run(s, i + 1, e);
    }
}

// ---------------------------------------------------------------------------
// Splitting text that stands at a position
// ---------------------------------------------------------------------------

/// Concatenated text at a position splits into its two parts.
pub proof fn lemma_has_at_split(s: Seq<u8>, i: int, a: Seq<u8>, b: Seq<u8>)
    requires
        has_at(s, i, a + b),
    ensures
        has_at(s, i, a),
        has_at(s, i + a.len(), b),
{
    let ab = a + b;
    assert forall|k: int| 0 <= k < a.len() implies s[i + k] == a[k] by {
        assert(ab[k] == a[k]);
        assert(s.subrange(i, i + ab.len())[k] == s[i + k]);
    }
    assert(s.subrange(i, i + a.len()) =~= a);
    assert forall|k: int| 0 <= k < b.len() implies s[i + a.len() + k] == b[k] by {
        assert(ab[a.len() + k] == b[k]);
        assert(s.subrange(i, i + ab.len())[a.len() + k] == s[i + a.len() + k]);
    }
    assert(s.subrange(i + a.len(), i + ab.len()) =~= b);
}

/// Each byte under text that stands at a position.
pub proof fn lemma_has_at_index(s: Seq<u8>, i: int, a: Seq<u8>, k: int)
    requires
        has_at(s, i, a),
        0 <= k < a.len(),
    ensures
        s[i + k] == a[k],
{
    assert(s.subrange(i, i + a.len())[k] == a[k]);
}

// ---------------------------------------------------------------------------
// Strings
// ---------------------------------------------------------------------------

/// Scanning the escaped text of any content finds exactly that content.
pub proof fn lemma_scan_str_complete(s: Seq<u8>, i: int, c: Seq<u8>)
    requires
        0 <= i,
        i + esc_text(c).len() + 1 <= s.len(),
        s.subrange(i, i + esc_text(c).len()) == esc_text(c),
        s[i + esc_text(c).len()] == 34,
    ensures
        spec_scan_str(s, i) == Some((c, i + esc_text(c).len() + 1)),
    decreases c.len(),
{
    if c.len() == 0 {
        assert(s[i] == 34);
    } else {
        let b = c[0];
        let e = esc_byte(b);
        let c2 = c.drop_first();
        assert(esc_text(c) == e + esc_text(c2));
        assert forall|k: int| 0 <= k < e.len() implies s[i + k] == e[k] by {
            assert(s.subrange(i, i + esc_text(c).len())[k] == esc_text(c)[k]);
            assert(esc_text(c)[k] == e[k]);
        }
        assert(s.subrange(i + e.len(), i + e.len() + esc_text(c2).len()) =~= esc_text(c2)) by {
            assert forall|k: int|
                0 <= k < esc_text(c2).len() implies s[i + e.len() + k] == esc_text(c2)[k] by {
                assert(s.subrange(i, i + esc_text(c).len())[e.len() + k] == esc_text(c)[e.len()
                    + k]);
                assert(esc_text(c)[e.len() + k] == esc_text(c2)[k]);
            }
        }
        lemma_scan_str_complete(s, i + e.len(), c2);
        if b == 34 {
            assert(s[i] == 92 && s[i + 1] == 34);
            assert(seq![b] + c2 =~= c);
        } else if b == 92 {
            assert(s[i] == 92 && s[i + 1] == 92);
            assert(seq![b] + c2 =~= c);
        } else if b < 0x20 {
            assert(s[i] == 92 && s[i + 1] == 117 && s[i + 2] == 48 && s[i + 3] == 48);
            assert(s[i + 4] == hex_digit_of((b / 16) as int) && s[i + 5] == hex_digit_of((b % 16) as int));
            assert(crate::trusted::is_hex_digit(48u8));
            assert(crate::trusted::is_hex_digit(hex_digit_of((b / 16) as int)));
            assert(crate::trusted::is_hex_digit(hex_digit_of((b % 16) as int)));
            assert(hex_val(48u8) == 0);
            assert(hex_val(hex_digit_of((b / 16) as int)) == b / 16);
            assert(hex_val(hex_digit_of((b % 16) as int)) == b % 16);
            assert(hex4_val(s, i + 2) == (b / 16) * 16 + b % 16);
            assert((b / 16) * 16 + (b % 16) == b) by (nonlinear_arith);
            assert(hex4_val(s, i + 2) == b && b <= 127);
            assert(seq![b] + c2 =~= c);
        } else {
            assert(e == seq![b]);
            assert(s[i + 0] == e[0]);
            assert(s[i] == b);
            assert(seq![b] + c2 =~= c);
        }
    }
}

/// A value's text is never empty, and its first byte names its kind./// A value's text is never empty, and its first byte names its kind.
pub proof fn lemma_text_first(g: Json)
    ensures
        json_text(g).len() >= 1,
        g is Null ==> json_text(g)[0] == 110,
        g is Bool ==> json_text(g)[0] == 116 || json_text(g)[0] == 102,
        g is Int ==> json_text(g)[0] == 45 || is_digit(json_text(g)[0]),
        g is Str ==> json_text(g)[0] == 34,
        g is Arr ==> json_text(g)[0] == 91,
        g is Obj ==> json_text(g)[0] == 123,
{
    match g {
        Json::Int(n) => {
            if n < 0 {
                assert(json_text(g)[0] == 45);
            } else {
                lemma_dec_text_digits(n as nat);
                assert(is_digit(dec_text(n as nat)[0]));
            }
        },
        _ => {},
    }
}

/// Reading the text of a well-formed integer finds that integer, when no
/// digit follows the text.
proof fn lemma_parse_int_complete(s: Seq<u8>, i: int, n: int)
    requires
        i64::MIN <= n <= i64::MAX,
        has_at(s, i, int_text(n)),
        i + int_text(n).len() == s.len() || !is_digit(s[i + int_text(n).len()]),
    ensures
        spec_parse_int(s, i) == Some((Json::Int(n), i + int_text(n).len())),
{
    let m = if n < 0 {
        (-n) as nat
    } else {
        n as nat
    };
    let d0 = if n < 0 {
        i + 1
    } else {
        i
    };
    lemma_dec_text_digits(m);
    if n < 0 {
        lemma_has_at_split(s, i, seq![45u8], dec_text(m));
        assert(s[i] == 45) by {
            lemma_has_at_index(s, i, seq![45u8], 0);
        }
    } else {
        assert(s[i] == dec_text(m)[0]) by {
            lemma_has_at_index(s, i, dec_text(m), 0);
        }
        assert(s[i] != 45);
    }
    assert(has_at(s, d0, dec_text(m)));
    let lm = dec_text(m).len();
    assert forall|k: int| d0 <= k < d0 + lm implies is_digit(s[k]) by {
        lemma_has_at_index(s, d0, dec_text(m), k - d0);
    }
    lemma_digit_run(s, d0, d0 + lm);
    assert(digit_run_end(s, d0) == d0 + lm);
    assert(s[d0] == dec_text(m)[0]) by {
        lemma_has_at_index(s, d0, dec_text(m), 0);
    }
    if s[d0] == 48 {
        assert(m == 0);
        assert(lm == 1);
    }
    assert(s.subrange(d0, d0 + lm) == dec_text(m));
    lemma_dec_value_of_text(m);
}

/// Reading the text of a well-formed value finds that value, when no digit
/// follows the text.
pub proof fn lemma_parse_complete(s: Seq<u8>, i: int, g: Json)
    requires
        wf_json(g),
        has_at(s, i, json_text(g)),
        g is Int ==> i + json_text(g).len() == s.len() || !is_digit(s[i + json_text(g).len()]),
    ensures
        spec_parse_json(s, i) == Some((g, i + json_text(g).len())),
    decreases g,
{
    let t = json_text(g);
    lemma_text_first(g);
    assert(s[i] == t[0]) by {
        lemma_has_at_index(s, i, t, 0);
    }
    match g {
        Json::Null => {},
        Json::Bool(_) => {},
        Json::Int(n) => {
            lemma_parse_int_complete(s, i, n);
        },
        Json::Str(c) => {
            assert(t =~= seq![34u8] + (esc_text(c) + seq![34u8]));
            lemma_has_at_split(s, i, seq![34u8], esc_text(c) + seq![34u8]);
            lemma_has_at_split(s, i + 1, esc_text(c), seq![34u8]);
            assert(s[i + 1 + esc_text(c).len()] == 34) by {
                lemma_has_at_index(s, i + 1 + esc_text(c).len(), seq![34u8], 0);
            }
            lemma_scan_str_complete(s, i + 1, c);
        },
        Json::Arr(items) => {
            assert(t =~= seq![91u8] + (arr_text(items) + seq![93u8]));
            lemma_has_at_split(s, i, seq![91u8], arr_text(items) + seq![93u8]);
            lemma_has_at_split(s, i + 1, arr_text(items), seq![93u8]);
            assert(s[i + 1 + arr_text(items).len()] == 93) by {
                lemma_has_at_index(s, i + 1 + arr_text(items).len(), seq![93u8], 0);
            }
            if items.len() == 0 {
                assert(s[i + 1] == 93);
                assert(!is_ws(s[i + 1]));
                assert(spec_arr_body(s, i + 1) == Some((Seq::<Json>::empty(), i + 2)));
                assert(g == Json::Arr(Seq::<Json>::empty())) by {
                    assert(items =~= Seq::<Json>::empty());
                }
            } else {
                lemma_text_first(items[0]);
                assert(arr_text(items)[0] == json_text(items[0])[0]);
                assert(s[i + 1] == arr_text(items)[0]) by {
                    lemma_has_at_index(s, i + 1, arr_text(items), 0);
                }
                assert(s[i + 1] != 93);
                assert(!is_ws(s[i + 1]));
                lemma_parse_elems_complete(s, i + 1, items);
                assert(spec_arr_body(s, i + 1) == spec_parse_elems(s, i + 1));
            }
        },
        Json::Obj(members) => {
            assert(t =~= seq![123u8] + (obj_text(members) + seq![125u8]));
            lemma_has_at_split(s, i, seq![123u8], obj_text(members) + seq![125u8]);
            lemma_has_at_split(s, i + 1, obj_text(members), seq![125u8]);
            assert(s[i + 1 + obj_text(members).len()] == 125) by {
                lemma_has_at_index(s, i + 1 + obj_text(members).len(), seq![125u8], 0);
            }
            if members.len() == 0 {
                assert(s[i + 1] == 125);
                assert(!is_ws(s[i + 1]));
                assert(spec_obj_body(s, i + 1) == Some((Seq::<(Seq<u8>, Json)>::empty(), i + 2)));
                assert(g == Json::Obj(Seq::<(Seq<u8>, Json)>::empty())) by {
                    assert(members =~= Seq::<(Seq<u8>, Json)>::empty());
                }
            } else {
                assert(member_text(members[0]).len() >= 1 && member_text(members[0])[0] == 34);
                assert(obj_text(members).len() >= 1 && obj_text(members)[0] == 34);
                assert(s[i + 1] == obj_text(members)[0]) by {
                    lemma_has_at_index(s, i + 1, obj_text(members), 0);
                }
                assert(s[i + 1] != 125);
                assert(!is_ws(s[i + 1]));
                lemma_parse_members_complete(s, i + 1, members);
                assert(spec_obj_body(s, i + 1) == spec_parse_members(s, i + 1));
            }
        },
    }
}

/// Reading the element list of a nonempty array, closed by a bracket.
proof fn lemma_parse_elems_complete(s: Seq<u8>, i: int, items: Seq<Json>)
    requires
        wf_json_seq(items),
        items.len() >= 1,
        has_at(s, i, arr_text(items)),
        i + arr_text(items).len() < s.len(),
        s[i + arr_text(items).len()] == 93,
    ensures
        spec_parse_elems(s, i) == Some((items, i + arr_text(items).len() + 1)),
    decreases items,
{
    let t0 = json_text(items[0]);
    lemma_text_first(items[0]);
    if items.len() == 1 {
        assert(arr_text(items) == t0);
        lemma_parse_complete(s, i, items[0]);
        let j = i + t0.len();
        assert(s[j] == 93);
        assert(spec_elems_tail(s, j) == Some((Seq::<Json>::empty(), j + 1)));
        assert(seq![items[0]] + Seq::<Json>::empty() =~= items);
    } else {
        let rest = items.drop_first();
        assert(arr_text(items) =~= t0 + (seq![44u8] + arr_text(rest)));
        lemma_has_at_split(s, i, t0, seq![44u8] + arr_text(rest));
        lemma_has_at_split(s, i + t0.len(), seq![44u8], arr_text(rest));
        let j = i + t0.len();
        assert(s[j] == 44) by {
            lemma_has_at_index(s, j, seq![44u8], 0);
        }
        lemma_parse_complete(s, i, items[0]);
        assert(i + arr_text(items).len() == j + 1 + arr_text(rest).len());
        lemma_parse_elems_complete(s, j + 1, rest);
        assert(spec_elems_tail(s, j) == spec_parse_elems(s, j + 1));
        assert(seq![items[0]] + rest =~= items);
    }
}

/// Reading the member list of a nonempty object, closed by a brace./// Reading the member list of a nonempty object, closed by a brace.
proof fn lemma_parse_members_complete(s: Seq<u8>, i: int, members: Seq<(Seq<u8>, Json)>)
    requires
        wf_json_members(members),
        members.len() >= 1,
        has_at(s, i, obj_text(members)),
        i + obj_text(members).len() < s.len(),
        s[i + obj_text(members).len()] == 125,
    ensures
        spec_parse_members(s, i) == Some((members, i + obj_text(members).len() + 1)),
    decreases members,
{
    let key = members[0].0;
    let v = members[0].1;
    let m0 = member_text(members[0]);
    let vt = json_text(v);
    let ek = esc_text(key);
    lemma_text_first(v);
    assert(m0 =~= seq![34u8] + (ek + (seq![34u8, 58u8] + vt)));
    if members.len() == 1 {
        assert(obj_text(members) == m0);
    } else {
        assert(obj_text(members) =~= m0 + (seq![44u8] + obj_text(members.drop_first())));
        lemma_has_at_split(s, i, m0, seq![44u8] + obj_text(members.drop_first()));
    }
    lemma_has_at_split(s, i, seq![34u8], ek + (seq![34u8, 58u8] + vt));
    lemma_has_at_split(s, i + 1, ek, seq![34u8, 58u8] + vt);
    lemma_has_at_split(s, i + 1 + ek.len(), seq![34u8, 58u8], vt);
    assert(s[i] == 34) by {
        lemma_has_at_index(s, i, seq![34u8], 0);
    }
    assert(s[i + 1 + ek.len()] == 34 && s[i + 2 + ek.len()] == 58) by {
        lemma_has_at_index(s, i + 1 + ek.len(), seq![34u8, 58u8], 0);
        lemma_has_at_index(s, i + 1 + ek.len(), seq![34u8, 58u8], 1);
    }
    lemma_scan_str_complete(s, i + 1, key);
    let jk = i + 1 + ek.len() + 1;
    assert(s[jk] == 58);
    let j = jk + 1 + vt.len();
    assert(m0.len() == ek.len() + 3 + vt.len());
    if members.len() == 1 {
        lemma_parse_complete(s, jk + 1, v);
        assert(s[j] == 125);
        assert(spec_member_val(s, jk) == spec_parse_json(s, jk + 1));
        assert(spec_members_tail(s, j) == Some((Seq::<(Seq<u8>, Json)>::empty(), j + 1)));
        assert(seq![(key, v)] + Seq::<(Seq<u8>, Json)>::empty() =~= members);
        assert(members[0] == (key, v));
    } else {
        let rest = members.drop_first();
        lemma_has_at_split(s, i + m0.len(), seq![44u8], obj_text(rest));
        assert(s[j] == 44) by {
            lemma_has_at_index(s, i + m0.len(), seq![44u8], 0);
        }
        lemma_parse_complete(s, jk + 1, v);
        assert(i + obj_text(members).len() == j + 1 + obj_text(rest).len());
        lemma_parse_members_complete(s, j + 1, rest);
        assert(spec_member_val(s, jk) == spec_parse_json(s, jk + 1));
        assert(spec_members_tail(s, j) == spec_parse_members(s, j + 1));
        assert(seq![(key, v)] + rest =~= members);
        assert(members[0] == (key, v));
    }
}

/// The reader applied to exactly the canonical text of a well-formed value/// The reader applied to exactly the canonical text of a well-formed value
/// finds that value and consumes the whole text.
pub proof fn lemma_parse_full(g: Json, s: Seq<u8>)
    requires
        wf_json(g),
        s == json_text(g),
    ensures
        spec_parse_json(s, 0) == Some((g, s.len() as int)),
{
    lemma_text_first(g);
    assert(has_at(s, 0, json_text(g))) by {
        assert(s.subrange(0, s.len() as int) =~= s);
    }
    lemma_parse_complete(s, 0, g);
}

// ---------------------------------------------------------------------------
// Executable values
// ---------------------------------------------------------------------------// ---------------------------------------------------------------------------
// Executable values
// ---------------------------------------------------------------------------

/// An executable JSON value. Its meaning is `jview` of it.
#[derive(Debug, PartialEq, Eq)]
pub enum JsonVal {
    Null,
    Bool(bool),
    Int(i64),
    Str(Vec<u8>),
    Arr(Vec<JsonVal>),
    Obj(Vec<(Vec<u8>, JsonVal)>),
}

/// The model a runtime JSON value stands for.
pub open spec fn jview(v: JsonVal) -> Json
    decreases v,
{
    match v {
        JsonVal::Null => Json::Null,
        JsonVal::Bool(b) => Json::Bool(b),
        JsonVal::Int(n) => Json::Int(n as int),
        JsonVal::Str(s) => Json::Str(s@),
        JsonVal::Arr(items) => Json::Arr(jview_seq(items@)),
        JsonVal::Obj(members) => Json::Obj(jview_members(members@)),
    }
}

pub open spec fn jview_seq(s: Seq<JsonVal>) -> Seq<Json>
    decreases s,
{
    if s.len() == 0 {
        Seq::empty()
    } else {
        seq![jview(s[0])] + jview_seq(s.drop_first())
    }
}

pub open spec fn jview_members(s: Seq<(Vec<u8>, JsonVal)>) -> Seq<(Seq<u8>, Json)>
    decreases s,
{
    if s.len() == 0 {
        Seq::empty()
    } else {
        seq![(s[0].0@, jview(s[0].1))] + jview_members(s.drop_first())
    }
}

/// The model of a list of values, element by element.
pub proof fn lemma_jview_seq_index(s: Seq<JsonVal>)
    ensures
        jview_seq(s).len() == s.len(),
        forall|i: int| 0 <= i < s.len() ==> jview_seq(s)[i] == jview(s[i]),
    decreases s,
{
    if s.len() > 0 {
        lemma_jview_seq_index(s.drop_first());
    }
}

/// The model of a list of members, member by member.
pub proof fn lemma_jview_members_index(s: Seq<(Vec<u8>, JsonVal)>)
    ensures
        jview_members(s).len() == s.len(),
        forall|i: int| 0 <= i < s.len() ==> jview_members(s)[i] == (s[i].0@, jview(s[i].1)),
    decreases s,
{
    if s.len() > 0 {
        lemma_jview_members_index(s.drop_first());
    }
}

// ---------------------------------------------------------------------------
// Writer
// ---------------------------------------------------------------------------

/// Text of elements grows one element at a time.
proof fn lemma_arr_text_snoc(items: Seq<Json>, x: Json)
    requires
        items.len() >= 1,
    ensures
        arr_text(items.push(x)) == arr_text(items) + seq![44u8] + json_text(x),
    decreases items,
{
    if items.len() == 1 {
        let w = items.push(x);
        assert(w.drop_first() =~= seq![x]);
        assert(arr_text(seq![x]) == json_text(x));
        assert(arr_text(w) =~= arr_text(items) + seq![44u8] + json_text(x));
    } else {
        lemma_arr_text_snoc(items.drop_first(), x);
        let w = items.push(x);
        assert(w.drop_first() =~= items.drop_first().push(x));
        assert(arr_text(w) =~= arr_text(items) + seq![44u8] + json_text(x));
    }
}

/// Text of members grows one member at a time.
proof fn lemma_obj_text_snoc(members: Seq<(Seq<u8>, Json)>, x: (Seq<u8>, Json))
    requires
        members.len() >= 1,
    ensures
        obj_text(members.push(x)) == obj_text(members) + seq![44u8] + member_text(x),
    decreases members,
{
    if members.len() == 1 {
        let w = members.push(x);
        assert(w.drop_first() =~= seq![x]);
        assert(obj_text(seq![x]) == member_text(x));
        assert(obj_text(w) =~= obj_text(members) + seq![44u8] + member_text(x));
    } else {
        lemma_obj_text_snoc(members.drop_first(), x);
        let w = members.push(x);
        assert(w.drop_first() =~= members.drop_first().push(x));
        assert(obj_text(w) =~= obj_text(members) + seq![44u8] + member_text(x));
    }
}

/// The escaped text grows one content byte at a time.
proof fn lemma_esc_text_snoc(s: Seq<u8>, b: u8)
    ensures
        esc_text(s.push(b)) == esc_text(s) + esc_byte(b),
    decreases s,
{
    if s.len() == 0 {
        assert(s.push(b).drop_first() =~= Seq::<u8>::empty());
        assert(s.push(b)[0] == b);
        assert(esc_text(Seq::<u8>::empty()) =~= Seq::<u8>::empty());
        assert(esc_text(s) =~= Seq::<u8>::empty());
        assert(esc_text(s.push(b)) =~= esc_text(s) + esc_byte(b));
    } else {
        assert(s.push(b)[0] == s[0]);
        assert(s.push(b).drop_first() =~= s.drop_first().push(b));
        lemma_esc_text_snoc(s.drop_first(), b);
        assert(esc_text(s.push(b)) =~= esc_text(s) + esc_byte(b));
    }
}

/// Writes string content between quotes, with the canonical escapes.
fn write_str_content(s: &Vec<u8>, out: &mut Vec<u8>)
    ensures
        final(out)@ == old(out)@ + esc_text(s@),
{
    let mut k: usize = 0;
    while k < s.len()
        invariant
            k <= s@.len(),
            out@ == old(out)@ + esc_text(s@.take(k as int)),
        decreases s@.len() - k,
    {
        let b = s[k];
        if b == 34 {
            out.push(92);
            out.push(34);
        } else if b == 92 {
            out.push(92);
            out.push(92);
        } else if b < 0x20 {
            out.push(92);
            out.push(117);
            out.push(48);
            out.push(48);
            let hi = b / 16;
            let lo = b % 16;
            out.push(
                if hi < 10 {
                    48 + hi
                } else {
                    87 + hi
                },
            );
            out.push(
                if lo < 10 {
                    48 + lo
                } else {
                    87 + lo
                },
            );
        } else {
            out.push(b);
        }
        proof {
            assert(s@.take(k as int).push(s@[k as int]) =~= s@.take(k as int + 1));
            lemma_esc_text_snoc(s@.take(k as int), s@[k as int]);
            assert(out@ =~= old(out)@ + esc_text(s@.take(k as int + 1)));
        }
        k += 1;
    }
    proof {
        assert(s@.take(s@.len() as int) =~= s@);
    }
}

/// Writes the decimal digits of `n` after what is already in `out`./// Writes the decimal digits of `n` after what is already in `out`.
fn write_dec(n: u64, out: &mut Vec<u8>)
    ensures
        final(out)@ == old(out)@ + dec_text(n as nat),
    decreases n,
{
    if n < 10 {
        out.push((48 + n as u8) as u8);
        assert(out@ =~= old(out)@ + dec_text(n as nat));
    } else {
        write_dec(n / 10, out);
        out.push((48 + (n % 10) as u8) as u8);
        assert(out@ =~= old(out)@ + dec_text(n as nat));
    }
}

/// Writes the canonical text of a 64-bit integer.
fn write_int(n: i64, out: &mut Vec<u8>)
    ensures
        final(out)@ == old(out)@ + int_text(n as int),
{
    if n >= 0 {
        write_dec(n as u64, out);
    } else {
        out.push(45);
        let m: u64 = ((-(n + 1)) as u64) + 1;
        assert(m as int == -(n as int));
        write_dec(m, out);
        assert(out@ =~= old(out)@ + int_text(n as int));
    }
}

/// Writes the canonical text of `v` after what is already in `out`.
#[verifier::loop_isolation(false)]
#[verifier::rlimit(60)]
pub fn json_write(v: &JsonVal, out: &mut Vec<u8>)
    ensures
        final(out)@ == old(out)@ + json_text(jview(*v)),
    decreases v,
{
    match v {
        JsonVal::Null => {
            out.push(110);
            out.push(117);
            out.push(108);
            out.push(108);
            assert(out@ =~= old(out)@ + json_text(jview(*v)));
        },
        JsonVal::Bool(b) => {
            if *b {
                out.push(116);
                out.push(114);
                out.push(117);
                out.push(101);
            } else {
                out.push(102);
                out.push(97);
                out.push(108);
                out.push(115);
                out.push(101);
            }
            assert(out@ =~= old(out)@ + json_text(jview(*v)));
        },
        JsonVal::Int(n) => {
            write_int(*n, out);
        },
        JsonVal::Str(s) => {
            out.push(34);
            write_str_content(s, out);
            out.push(34);
            assert(out@ =~= old(out)@ + json_text(jview(*v)));
        },
        JsonVal::Arr(items) => {
            out.push(91);
            let mut k: usize = 0;
            proof {
                lemma_jview_seq_index(items@);
            }
            while k < items.len()
                invariant
                    k <= items.len(),
                    jview_seq(items@).len() == items@.len(),
                    forall|i: int| 0 <= i < items@.len() ==> jview_seq(items@)[i] == jview(
                        items@[i],
                    ),
                    out@ == old(out)@ + seq![91u8] + arr_text(jview_seq(items@).take(k as int)),
                decreases items.len() - k,
            {
                if k > 0 {
                    out.push(44);
                }
                proof {
                    vstd::std_specs::vec::axiom_vec_index_decreases(*items, k as int);
                    assert(decreases_to!(*v => items@[k as int]));
                }
                json_write(&items[k], out);
                proof {
                    let gs = jview_seq(items@);
                    assert(gs.take(k as int).push(gs[k as int]) =~= gs.take(k as int + 1));
                    if k == 0 {
                        assert(gs.take(0) =~= Seq::<Json>::empty());
                        assert(arr_text(seq![gs[0]]) == json_text(gs[0]));
                        assert(gs.take(1) =~= seq![gs[0]]);
                        assert(out@ =~= old(out)@ + seq![91u8] + arr_text(gs.take(1)));
                    } else {
                        lemma_arr_text_snoc(gs.take(k as int), gs[k as int]);
                        assert(out@ =~= old(out)@ + seq![91u8] + arr_text(gs.take(k as int + 1)));
                    }
                }
                k += 1;
            }
            out.push(93);
            proof {
                let gs = jview_seq(items@);
                assert(gs.take(gs.len() as int) =~= gs);
                assert(out@ =~= old(out)@ + json_text(jview(*v)));
            }
        },
        JsonVal::Obj(members) => {
            out.push(123);
            let mut k: usize = 0;
            proof {
                lemma_jview_members_index(members@);
            }
            while k < members.len()
                invariant
                    k <= members.len(),
                    jview_members(members@).len() == members@.len(),
                    forall|i: int| 0 <= i < members@.len() ==> jview_members(members@)[i] == (
                    members@[i].0@, jview(members@[i].1)),
                    out@ == old(out)@ + seq![123u8] + obj_text(jview_members(members@).take(k as int)),
                decreases members.len() - k,
            {
                if k > 0 {
                    out.push(44);
                }
                out.push(34);
                write_str_content(&members[k].0, out);
                out.push(34);
                out.push(58);
                proof {
                    vstd::std_specs::vec::axiom_vec_index_decreases(*members, k as int);
                    assert(decreases_to!(*v => members@[k as int].1));
                }
                json_write(&members[k].1, out);
                proof {
                    let gs = jview_members(members@);
                    assert(gs.take(k as int).push(gs[k as int]) =~= gs.take(k as int + 1));
                    assert(member_text(gs[k as int]) == seq![34u8] + esc_text(
                        members@[k as int].0@,
                    ) + seq![34u8, 58u8] + json_text(jview(members@[k as int].1)));
                    if k == 0 {
                        assert(gs.take(0) =~= Seq::<(Seq<u8>, Json)>::empty());
                        assert(obj_text(seq![gs[0]]) == member_text(gs[0]));
                        assert(gs.take(1) =~= seq![gs[0]]);
                        assert(out@ =~= old(out)@ + seq![123u8] + obj_text(gs.take(1)));
                    } else {
                        lemma_obj_text_snoc(gs.take(k as int), gs[k as int]);
                        assert(out@ =~= old(out)@ + seq![123u8] + obj_text(gs.take(k as int + 1)));
                    }
                }
                k += 1;
            }
            out.push(125);
            proof {
                let gs = jview_members(members@);
                assert(gs.take(gs.len() as int) =~= gs);
                assert(out@ =~= old(out)@ + json_text(jview(*v)));
            }
        },
    }
}

/// The canonical text of a value, as fresh bytes.
pub fn json_encode(v: &JsonVal) -> (out: Vec<u8>)
    ensures
        out@ == json_text(jview(*v)),
{
    let mut out: Vec<u8> = Vec::new();
    json_write(v, &mut out);
    out
}

// ---------------------------------------------------------------------------
// Reader
// ---------------------------------------------------------------------------

pub proof fn lemma_pow10_mono(a: nat, b: nat)
    requires
        a <= b,
    ensures
        pow10(a) <= pow10(b),
    decreases b,
{
    if a < b {
        lemma_pow10_mono(a, (b - 1) as nat);
        lemma_pow10_pos((b - 1) as nat);
    }
}

/// The value of one hexadecimal digit byte, where it is one.
fn hex_digit_value(b: u8) -> (r: Option<u8>)
    ensures
        match r {
            Some(v) => crate::trusted::is_hex_digit(b) && v as int == hex_val(b) && v < 16,
            None => !crate::trusted::is_hex_digit(b),
        },
{
    if 48 <= b && b <= 57 {
        Some(b - 48)
    } else if 97 <= b && b <= 102 {
        Some(b - 87)
    } else if 65 <= b && b <= 70 {
        Some(b - 55)
    } else {
        None
    }
}

/// Reads string content as `spec_scan_str` does.
fn scan_str(s: &Vec<u8>, i: usize) -> (r: Option<(Vec<u8>, usize)>)
    requires
        i <= s@.len(),
    ensures
        match r {
            Some((c, j)) => spec_scan_str(s@, i as int) == Some((c@, j as int)) && i < j
                <= s@.len(),
            None => spec_scan_str(s@, i as int) is None,
        },
    decreases s@.len() - i,
{
    if i >= s.len() {
        return None;
    }
    let b = s[i];
    if b == 34 {
        let c: Vec<u8> = Vec::new();
        assert(c@ =~= Seq::<u8>::empty());
        Some((c, i + 1))
    } else if b == 92 {
        if i + 1 >= s.len() {
            return None;
        }
        let e = s[i + 1];
        if e == 117 {
            if s.len() - i < 6 {
                return None;
            }
            match (
                hex_digit_value(s[i + 2]),
                hex_digit_value(s[i + 3]),
                hex_digit_value(s[i + 4]),
                hex_digit_value(s[i + 5]),
            ) {
                (Some(v0), Some(v1), Some(v2), Some(v3)) => {
                    let val: u32 = (v0 as u32) * 4096 + (v1 as u32) * 256 + (v2 as u32) * 16 + (
                    v3 as u32);
                    assert(val as int == hex4_val(s@, i as int + 2));
                    if val <= 127 {
                        match scan_str(s, i + 6) {
                            Some((c0, j)) => {
                                let ghost c0v = c0@;
                                let mut c = c0;
                                c.insert(0, val as u8);
                                proof {
                                    assert(c@ =~= seq![hex4_val(s@, i as int + 2) as u8] + c0v);
                                }
                                Some((c, j))
                            },
                            None => None,
                        }
                    } else {
                        None
                    }
                },
                _ => None,
            }
        } else {
            let decoded: Option<u8> = if e == 34 {
                Some(34)
            } else if e == 92 {
                Some(92)
            } else if e == 47 {
                Some(47)
            } else if e == 98 {
                Some(8)
            } else if e == 102 {
                Some(12)
            } else if e == 110 {
                Some(10)
            } else if e == 114 {
                Some(13)
            } else if e == 116 {
                Some(9)
            } else {
                None
            };
            match decoded {
                Some(b0) => {
                    match scan_str(s, i + 2) {
                        Some((c0, j)) => {
                            let ghost c0v = c0@;
                            let mut c = c0;
                            c.insert(0, b0);
                            proof {
                                assert(c@ =~= seq![b0] + c0v);
                            }
                            Some((c, j))
                        },
                        None => None,
                    }
                },
                None => None,
            }
        }
    } else if b >= 0x20 {
        match scan_str(s, i + 1) {
            Some((c0, j)) => {
                let ghost c0v = c0@;
                let mut c = c0;
                c.insert(0, b);
                proof {
                    assert(c@ =~= seq![b] + c0v);
                }
                Some((c, j))
            },
            None => None,
        }
    } else {
        None
    }
}

/// Reads an integer as `spec_parse_int` does./// Reads an integer as `spec_parse_int` does.
#[verifier::loop_isolation(false)]
fn parse_int_at(s: &Vec<u8>, i: usize) -> (r: Option<(JsonVal, usize)>)
    requires
        i < s@.len(),
        s@[i as int] == 45 || is_digit(s@[i as int]),
    ensures
        match r {
            Some((v, j)) => spec_parse_int(s@, i as int) == Some((jview(v), j as int)) && i < j
                <= s@.len(),
            None => spec_parse_int(s@, i as int) is None,
        },
{
    let n = s.len();
    let neg = s[i] == 45;
    let d0 = if neg {
        i + 1
    } else {
        i
    };
    let mut j = d0;
    while j < s.len() && 48 <= s[j] && s[j] <= 57
        invariant
            d0 <= j <= s@.len(),
            forall|k: int| d0 <= k < j ==> is_digit(#[trigger] s@[k]),
        decreases s@.len() - j,
    {
        j += 1;
    }
    proof {
        lemma_digit_run(s@, d0 as int, j as int);
    }
    if j == d0 {
        return None;
    }
    if s[d0] == 48 && j > d0 + 1 {
        return None;
    }
    let ghost run = s@.subrange(d0 as int, j as int);
    proof {
        assert(forall|k: int| 0 <= k < run.len() ==> is_digit(#[trigger] run[k]));
        lemma_dec_value_bounds(run);
        assert(pow10(19) == 10000000000000000000) by {
            reveal_with_fuel(pow10, 21);
        }
    }
    if j - d0 > 19 {
        proof {
            assert(run[0] == s@[d0 as int]);
            assert(run[0] != 48);
            lemma_pow10_mono(19, (run.len() - 1) as nat);
            assert(dec_value(run) >= pow10(19));
        }
        return None;
    }
    let mut acc: u64 = 0;
    let mut k = d0;
    while k < j
        invariant
            d0 <= k <= j,
            acc == dec_value(s@.subrange(d0 as int, k as int)),
            acc < pow10((k - d0) as nat),
        decreases j - k,
    {
        let d = s[k] - 48;
        proof {
            lemma_pow10_mono((k - d0) as nat, 18);
            assert(pow10(18) == 1000000000000000000) by {
                reveal_with_fuel(pow10, 21);
            }
            assert(acc < 1000000000000000000);
        }
        let acc2: u64 = acc * 10 + (d as u64);
        proof {
            let pre = s@.subrange(d0 as int, k as int);
            let ext = s@.subrange(d0 as int, k as int + 1);
            assert(ext.drop_last() =~= pre);
            assert(ext.last() == s@[k as int]);
            assert(acc2 == dec_value(ext));
            assert(pow10((k + 1 - d0) as nat) == 10 * pow10((k - d0) as nat));
            assert(acc < pow10((k - d0) as nat) && d < 10 ==> acc * 10 + d < 10 * pow10(
                (k - d0) as nat,
            )) by (nonlinear_arith);
        }
        acc = acc2;
        k += 1;
    }
    assert(acc == dec_value(run));
    if neg {
        if acc == 0 {
            return None;
        }
        if acc <= 0x8000000000000000 {
            let n: i64 = if acc == 0x8000000000000000 {
                i64::MIN
            } else {
                -(acc as i64)
            };
            assert(n as int == -(acc as int));
            Some((JsonVal::Int(n), j))
        } else {
            None
        }
    } else {
        if acc <= 0x7fffffffffffffff {
            Some((JsonVal::Int(acc as i64), j))
        } else {
            None
        }
    }
}

/// Reads one JSON value as `spec_parse_json` does.
pub fn json_parse_at(s: &Vec<u8>, i: usize) -> (r: Option<(JsonVal, usize)>)
    requires
        i <= s@.len(),
    ensures
        match r {
            Some((v, j)) => spec_parse_json(s@, i as int) == Some((jview(v), j as int)) && i < j
                <= s@.len(),
            None => spec_parse_json(s@, i as int) is None,
        },
    decreases s@.len() - i, 0int,
{
    if i >= s.len() {
        return None;
    }
    let b = s[i];
    if b == 32 || b == 9 || b == 10 || b == 13 {
        return json_parse_at(s, i + 1);
    }
    if b == 110 {
        let ghost lit = json_text(Json::Null);
        if s.len() - i >= 4 && s[i + 1] == 117 && s[i + 2] == 108 && s[i + 3] == 108 {
            proof {
                assert(s@.subrange(i as int, i as int + 4) =~= lit);
            }
            Some((JsonVal::Null, i + 4))
        } else {
            proof {
                if has_at(s@, i as int, lit) {
                    lemma_has_at_index(s@, i as int, lit, 1);
                    lemma_has_at_index(s@, i as int, lit, 2);
                    lemma_has_at_index(s@, i as int, lit, 3);
                }
            }
            None
        }
    } else if b == 116 {
        let ghost lit = json_text(Json::Bool(true));
        if s.len() - i >= 4 && s[i + 1] == 114 && s[i + 2] == 117 && s[i + 3] == 101 {
            proof {
                assert(s@.subrange(i as int, i as int + 4) =~= lit);
            }
            Some((JsonVal::Bool(true), i + 4))
        } else {
            proof {
                if has_at(s@, i as int, lit) {
                    lemma_has_at_index(s@, i as int, lit, 1);
                    lemma_has_at_index(s@, i as int, lit, 2);
                    lemma_has_at_index(s@, i as int, lit, 3);
                }
            }
            None
        }
    } else if b == 102 {
        let ghost lit = json_text(Json::Bool(false));
        if s.len() - i >= 5 && s[i + 1] == 97 && s[i + 2] == 108 && s[i + 3] == 115 && s[i + 4]
            == 101 {
            proof {
                assert(s@.subrange(i as int, i as int + 5) =~= lit);
            }
            Some((JsonVal::Bool(false), i + 5))
        } else {
            proof {
                if has_at(s@, i as int, lit) {
                    lemma_has_at_index(s@, i as int, lit, 1);
                    lemma_has_at_index(s@, i as int, lit, 2);
                    lemma_has_at_index(s@, i as int, lit, 3);
                    lemma_has_at_index(s@, i as int, lit, 4);
                }
            }
            None
        }
    } else if b == 34 {
        match scan_str(s, i + 1) {
            Some((c, j)) => Some((JsonVal::Str(c), j)),
            None => None,
        }
    } else if b == 45 || (48 <= b && b <= 57) {
        parse_int_at(s, i)
    } else if b == 91 {
        match parse_arr_body(s, i + 1) {
            Some((items, j)) => Some((JsonVal::Arr(items), j)),
            None => None,
        }
    } else if b == 123 {
        match parse_obj_body(s, i + 1) {
            Some((members, j)) => Some((JsonVal::Obj(members), j)),
            None => None,
        }
    } else {
        None
    }
}

/// Reads an array's inside as `spec_arr_body` does.
fn parse_arr_body(s: &Vec<u8>, i: usize) -> (r: Option<(Vec<JsonVal>, usize)>)
    requires
        i <= s@.len(),
    ensures
        match r {
            Some((items, j)) => spec_arr_body(s@, i as int) == Some(
                (jview_seq(items@), j as int),
            ) && i < j <= s@.len(),
            None => spec_arr_body(s@, i as int) is None,
        },
    decreases s@.len() - i, 3int,
{
    if i >= s.len() {
        return None;
    }
    let b = s[i];
    if b == 32 || b == 9 || b == 10 || b == 13 {
        parse_arr_body(s, i + 1)
    } else if b == 93 {
        let items: Vec<JsonVal> = Vec::new();
        proof {
            assert(jview_seq(items@) =~= Seq::<Json>::empty());
        }
        Some((items, i + 1))
    } else {
        parse_elems(s, i)
    }
}

/// Reads elements as `spec_parse_elems` does.
fn parse_elems(s: &Vec<u8>, i: usize) -> (r: Option<(Vec<JsonVal>, usize)>)
    requires
        i <= s@.len(),
    ensures
        match r {
            Some((items, j)) => spec_parse_elems(s@, i as int) == Some(
                (jview_seq(items@), j as int),
            ) && i < j <= s@.len(),
            None => spec_parse_elems(s@, i as int) is None,
        },
    decreases s@.len() - i, 1int,
{
    match json_parse_at(s, i) {
        None => None,
        Some((v, j)) => {
            match parse_elems_tail(s, j) {
                Some((rest, k)) => {
                    let ghost gv = jview(v);
                    let ghost r0 = rest@;
                    let mut items = rest;
                    items.insert(0, v);
                    proof {
                        assert(items@ =~= seq![items@[0]] + r0);
                        assert(items@.drop_first() =~= r0);
                        assert(jview_seq(items@) =~= seq![gv] + jview_seq(r0));
                    }
                    Some((items, k))
                },
                None => None,
            }
        },
    }
}

/// Reads what follows one element as `spec_elems_tail` does.
fn parse_elems_tail(s: &Vec<u8>, j: usize) -> (r: Option<(Vec<JsonVal>, usize)>)
    requires
        j <= s@.len(),
    ensures
        match r {
            Some((items, k)) => spec_elems_tail(s@, j as int) == Some(
                (jview_seq(items@), k as int),
            ) && j < k <= s@.len(),
            None => spec_elems_tail(s@, j as int) is None,
        },
    decreases s@.len() - j, 2int,
{
    if j >= s.len() {
        return None;
    }
    let b = s[j];
    if b == 32 || b == 9 || b == 10 || b == 13 {
        parse_elems_tail(s, j + 1)
    } else if b == 93 {
        let items: Vec<JsonVal> = Vec::new();
        proof {
            assert(jview_seq(items@) =~= Seq::<Json>::empty());
        }
        Some((items, j + 1))
    } else if b == 44 {
        parse_elems(s, j + 1)
    } else {
        None
    }
}

/// Reads an object's inside as `spec_obj_body` does.
fn parse_obj_body(s: &Vec<u8>, i: usize) -> (r: Option<(Vec<(Vec<u8>, JsonVal)>, usize)>)
    requires
        i <= s@.len(),
    ensures
        match r {
            Some((members, j)) => spec_obj_body(s@, i as int) == Some(
                (jview_members(members@), j as int),
            ) && i < j <= s@.len(),
            None => spec_obj_body(s@, i as int) is None,
        },
    decreases s@.len() - i, 3int,
{
    if i >= s.len() {
        return None;
    }
    let b = s[i];
    if b == 32 || b == 9 || b == 10 || b == 13 {
        parse_obj_body(s, i + 1)
    } else if b == 125 {
        let members: Vec<(Vec<u8>, JsonVal)> = Vec::new();
        proof {
            assert(jview_members(members@) =~= Seq::<(Seq<u8>, Json)>::empty());
        }
        Some((members, i + 1))
    } else {
        parse_members(s, i)
    }
}

/// Reads members as `spec_parse_members` does.
fn parse_members(s: &Vec<u8>, i: usize) -> (r: Option<(Vec<(Vec<u8>, JsonVal)>, usize)>)
    requires
        i <= s@.len(),
    ensures
        match r {
            Some((members, j)) => spec_parse_members(s@, i as int) == Some(
                (jview_members(members@), j as int),
            ) && i < j <= s@.len(),
            None => spec_parse_members(s@, i as int) is None,
        },
    decreases s@.len() - i, 1int,
{
    if i >= s.len() {
        return None;
    }
    let b = s[i];
    if b == 32 || b == 9 || b == 10 || b == 13 {
        return parse_members(s, i + 1);
    }
    if b != 34 {
        return None;
    }
    match scan_str(s, i + 1) {
        None => None,
        Some((key, jk)) => {
            match parse_member_val(s, jk) {
                None => None,
                Some((v, j)) => {
                    match parse_members_tail(s, j) {
                        Some((rest, k)) => {
                            let ghost gk = key@;
                            let ghost gv = jview(v);
                            let ghost r0 = rest@;
                            let mut members = rest;
                            members.insert(0, (key, v));
                            proof {
                                assert(members@ =~= seq![members@[0]] + r0);
                                assert(members@.drop_first() =~= r0);
                                assert(jview_members(members@) =~= seq![(gk, gv)]
                                    + jview_members(r0));
                            }
                            Some((members, k))
                        },
                        None => None,
                    }
                },
            }
        },
    }
}

/// Reads a member's colon and value as `spec_member_val` does.
fn parse_member_val(s: &Vec<u8>, j: usize) -> (r: Option<(JsonVal, usize)>)
    requires
        j <= s@.len(),
    ensures
        match r {
            Some((v, k)) => spec_member_val(s@, j as int) == Some((jview(v), k as int)) && j < k
                <= s@.len(),
            None => spec_member_val(s@, j as int) is None,
        },
    decreases s@.len() - j, 1int,
{
    if j >= s.len() {
        return None;
    }
    let b = s[j];
    if b == 32 || b == 9 || b == 10 || b == 13 {
        parse_member_val(s, j + 1)
    } else if b == 58 {
        json_parse_at(s, j + 1)
    } else {
        None
    }
}

/// Reads what follows one member as `spec_members_tail` does.
fn parse_members_tail(s: &Vec<u8>, j: usize) -> (r: Option<(Vec<(Vec<u8>, JsonVal)>, usize)>)
    requires
        j <= s@.len(),
    ensures
        match r {
            Some((members, k)) => spec_members_tail(s@, j as int) == Some(
                (jview_members(members@), k as int),
            ) && j < k <= s@.len(),
            None => spec_members_tail(s@, j as int) is None,
        },
    decreases s@.len() - j, 2int,
{
    if j >= s.len() {
        return None;
    }
    let b = s[j];
    if b == 32 || b == 9 || b == 10 || b == 13 {
        parse_members_tail(s, j + 1)
    } else if b == 125 {
        let members: Vec<(Vec<u8>, JsonVal)> = Vec::new();
        proof {
            assert(jview_members(members@) =~= Seq::<(Seq<u8>, Json)>::empty());
        }
        Some((members, j + 1))
    } else if b == 44 {
        parse_members(s, j + 1)
    } else {
        None
    }
}

/// Reads one JSON value spanning the whole input but for trailing
/// whitespace. Returns nothing exactly when no value reads that way; in
/// particular every canonical text of a well-formed value reads back.
#[verifier::loop_isolation(false)]
pub fn json_parse(s: &Vec<u8>) -> (r: Option<JsonVal>)
    ensures
        match r {
            Some(v) => spec_parse_json(s@, 0) matches Some((g, j)) && g == jview(v)
                && ws_only_from(s@, j),
            None => (forall|g: Json| !(wf_json(g) && json_text(g) == s@)) && !(spec_parse_json(
                s@,
                0,
            ) matches Some((g, j)) && ws_only_from(s@, j)),
        },
{
    match json_parse_at(s, 0) {
        Some((v, j)) => {
            let mut k = j;
            while k < s.len()
                invariant
                    j <= k <= s@.len(),
                    forall|q: int| j <= q < k ==> is_ws(#[trigger] s@[q]),
                decreases s@.len() - k,
            {
                let b = s[k];
                if !(b == 32 || b == 9 || b == 10 || b == 13) {
                    proof {
                        assert(!is_ws(s@[k as int]));
                        assert(!ws_only_from(s@, j as int));
                        assert forall|g: Json| !(wf_json(g) && json_text(g) == s@) by {
                            if wf_json(g) && json_text(g) == s@ {
                                lemma_parse_full(g, s@);
                            }
                        }
                    }
                    return None;
                }
                k += 1;
            }
            proof {
                assert(ws_only_from(s@, j as int));
            }
            Some(v)
        },
        None => {
            proof {
                assert forall|g: Json| !(wf_json(g) && json_text(g) == s@) by {
                    if wf_json(g) && json_text(g) == s@ {
                        lemma_parse_full(g, s@);
                    }
                }
            }
            None
        },
    }
}

// ---------------------------------------------------------------------------
// Looking up object members by key
// ---------------------------------------------------------------------------// ---------------------------------------------------------------------------
// Looking up object members by key
// ---------------------------------------------------------------------------

/// The first member under `key`, as the service reads objects.
pub open spec fn obj_lookup(members: Seq<(Seq<u8>, Json)>, key: Seq<u8>) -> Option<Json>
    decreases members,
{
    if members.len() == 0 {
        None
    } else if members[0].0 == key {
        Some(members[0].1)
    } else {
        obj_lookup(members.drop_first(), key)
    }
}

/// A first match at `idx` settles the lookup.
pub proof fn lemma_obj_lookup_index(members: Seq<(Seq<u8>, Json)>, key: Seq<u8>, idx: int)
    requires
        0 <= idx < members.len(),
        members[idx].0 == key,
        forall|k: int| 0 <= k < idx ==> members[k].0 != key,
    ensures
        obj_lookup(members, key) == Some(members[idx].1),
    decreases idx,
{
    if idx > 0 {
        lemma_obj_lookup_index(members.drop_first(), key, idx - 1);
    }
}

/// No match anywhere settles the lookup as nothing.
pub proof fn lemma_obj_lookup_none(members: Seq<(Seq<u8>, Json)>, key: Seq<u8>)
    requires
        forall|k: int| 0 <= k < members.len() ==> members[k].0 != key,
    ensures
        obj_lookup(members, key) is None,
    decreases members,
{
    if members.len() > 0 {
        lemma_obj_lookup_none(members.drop_first(), key);
    }
}

/// Whether two byte vectors hold the same bytes.
pub fn bytes_eq(a: &Vec<u8>, b: &Vec<u8>) -> (r: bool)
    ensures
        r == (a@ == b@),
{
    if a.len() != b.len() {
        return false;
    }
    let mut k: usize = 0;
    while k < a.len()
        invariant
            k <= a@.len(),
            a@.len() == b@.len(),
            forall|i: int| 0 <= i < k ==> a@[i] == b@[i],
        decreases a@.len() - k,
    {
        if a[k] != b[k] {
            return false;
        }
        k += 1;
    }
    proof {
        assert(a@ =~= b@);
    }
    true
}

/// A fresh copy of the bytes.
pub fn bytes_copy(s: &Vec<u8>) -> (r: Vec<u8>)
    ensures
        r@ == s@,
{
    let mut r: Vec<u8> = Vec::new();
    let mut k: usize = 0;
    while k < s.len()
        invariant
            k <= s@.len(),
            r@ == s@.take(k as int),
        decreases s@.len() - k,
    {
        r.push(s[k]);
        proof {
            assert(s@.take(k as int).push(s@[k as int]) =~= s@.take(k as int + 1));
        }
        k += 1;
    }
    proof {
        assert(s@.take(s@.len() as int) =~= s@);
    }
    r
}

/// Where the first member under `key` stands, if anywhere.
pub fn obj_find(members: &Vec<(Vec<u8>, JsonVal)>, key: &Vec<u8>) -> (r: Option<usize>)
    ensures
        match r {
            Some(idx) => idx < members@.len() && members@[idx as int].0@ == key@ && obj_lookup(
                jview_members(members@),
                key@,
            ) == Some(jview(members@[idx as int].1)),
            None => obj_lookup(jview_members(members@), key@) is None,
        },
{
    proof {
        lemma_jview_members_index(members@);
    }
    let mut k: usize = 0;
    while k < members.len()
        invariant
            k <= members@.len(),
            jview_members(members@).len() == members@.len(),
            forall|i: int| 0 <= i < members@.len() ==> jview_members(members@)[i] == (
            members@[i].0@, jview(members@[i].1)),
            forall|i: int| 0 <= i < k ==> members@[i].0@ != key@,
        decreases members@.len() - k,
    {
        if bytes_eq(&members[k].0, key) {
            proof {
                lemma_obj_lookup_index(jview_members(members@), key@, k as int);
            }
            return Some(k);
        }
        k += 1;
    }
    proof {
        lemma_obj_lookup_none(jview_members(members@), key@);
    }
    None
}


/// The model of a one-member list, spelled out.
pub proof fn lemma_jview_members_one(s: Seq<(Vec<u8>, JsonVal)>)
    requires
        s.len() == 1,
    ensures
        jview_members(s) == seq![(s[0].0@, jview(s[0].1))],
{
    lemma_jview_members_index(s);
    assert(jview_members(s) =~= seq![(s[0].0@, jview(s[0].1))]);
}

/// The model of a two-member list, spelled out.
pub proof fn lemma_jview_members_two(s: Seq<(Vec<u8>, JsonVal)>)
    requires
        s.len() == 2,
    ensures
        jview_members(s) == seq![(s[0].0@, jview(s[0].1)), (s[1].0@, jview(s[1].1))],
{
    lemma_jview_members_index(s);
    assert(jview_members(s) =~= seq![(s[0].0@, jview(s[0].1)), (s[1].0@, jview(s[1].1))]);
}

/// The model of a three-member list, spelled out.
pub proof fn lemma_jview_members_three(s: Seq<(Vec<u8>, JsonVal)>)
    requires
        s.len() == 3,
    ensures
        jview_members(s) == seq![
            (s[0].0@, jview(s[0].1)),
            (s[1].0@, jview(s[1].1)),
            (s[2].0@, jview(s[2].1)),
        ],
{
    lemma_jview_members_index(s);
    assert(jview_members(s) =~= seq![
        (s[0].0@, jview(s[0].1)),
        (s[1].0@, jview(s[1].1)),
        (s[2].0@, jview(s[2].1)),
    ]);
}


/// A runtime value and its model are of the same kind.
pub proof fn lemma_jview_kind(v: JsonVal)
    ensures
        (jview(v) is Null) == (v is Null),
        (jview(v) is Bool) == (v is Bool),
        (jview(v) is Int) == (v is Int),
        (jview(v) is Str) == (v is Str),
        (jview(v) is Arr) == (v is Arr),
        (jview(v) is Obj) == (v is Obj),
{
}

} // verus!
