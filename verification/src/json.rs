//! A JSON reader.
//!
//! The grammar is standard JSON: literals, numbers, strings, arrays and
//! objects, with insignificant whitespace between tokens and the nesting
//! of arrays and objects bounded by [`MAX_DEPTH`], as common JSON parsers
//! enforce. String and number payloads keep their source bytes: a string's
//! escape sequences are validated but not decoded, and a number is kept as
//! its token, to be read by the decimal parser on demand.
//!
//! The functions [`parse_value`] and its companions are the definition of
//! the grammar; the executable parser returns exactly what they denote.

use crate::dec::is_digit;
use vstd::prelude::*;
use vstd::slice::{slice_subrange, slice_to_vec};

verus! {

broadcast use vstd::std_specs::vec::axiom_vec_index_decreases, vstd::std_specs::vec::axiom_vec_decreases_to_view, vstd::seq::axiom_seq_index_decreases;

/// Maximum nesting depth of arrays and objects.
pub const MAX_DEPTH: u32 = 128;

/// A JSON value with its textual payloads kept as source bytes.
#[derive(Debug)]
pub enum Json {
    Null,
    Bool(bool),
    Num(Vec<u8>),
    Str(Vec<u8>),
    Arr(Vec<Json>),
    Obj(Vec<(Vec<u8>, Json)>),
}

/// The mathematical shape of a JSON value.
pub enum JsonV {
    Null,
    Bool(bool),
    Num(Seq<u8>),
    Str(Seq<u8>),
    Arr(Seq<JsonV>),
    Obj(Seq<(Seq<u8>, JsonV)>),
}

impl Json {
    /// The mathematical value of this node.
    pub open spec fn model(self) -> JsonV
        decreases self,
    {
        match self {
            Json::Null => JsonV::Null,
            Json::Bool(b) => JsonV::Bool(b),
            Json::Num(t) => JsonV::Num(t@),
            Json::Str(t) => JsonV::Str(t@),
            Json::Arr(v) => JsonV::Arr(views_of(v@)),
            Json::Obj(ms) => JsonV::Obj(views_of_members(ms@)),
        }
    }
}

/// Models of a sequence of nodes. The index guard only serves the
/// termination check; `Seq::new` never applies the function out of range.
pub open spec fn views_of(l: Seq<Json>) -> Seq<JsonV>
    decreases l,
{
    Seq::new(
        l.len(),
        |i: int|
            if 0 <= i < l.len() {
                l[i].model()
            } else {
                JsonV::Null
            },
    )
}

/// Models of a sequence of object members.
pub open spec fn views_of_members(ms: Seq<(Vec<u8>, Json)>) -> Seq<(Seq<u8>, JsonV)>
    decreases ms,
{
    Seq::new(
        ms.len(),
        |i: int|
            if 0 <= i < ms.len() {
                (ms[i].0@, ms[i].1.model())
            } else {
                (Seq::empty(), JsonV::Null)
            },
    )
}

pub open spec fn is_ws(b: u8) -> bool {
    b == 32 || b == 9 || b == 10 || b == 13
}

pub open spec fn is_hex(b: u8) -> bool {
    is_digit(b) || (97 <= b <= 102) || (65 <= b <= 70)
}

/// Characters allowed directly after a backslash, besides `u`.
pub open spec fn is_simple_esc(b: u8) -> bool {
    b == 34 || b == 92 || b == 47 || b == 98 || b == 102 || b == 110 || b == 114 || b == 116
}

/// First position at or after `i` that does not hold whitespace.
pub open spec fn ws_end(s: Seq<u8>, i: int) -> int
    decreases s.len() - i,
{
    if 0 <= i < s.len() && is_ws(s[i]) {
        ws_end(s, i + 1)
    } else {
        i
    }
}

/// First position at or after `i` that does not hold a digit.
pub open spec fn digits_end(s: Seq<u8>, i: int) -> int
    decreases s.len() - i,
{
    if 0 <= i < s.len() && is_digit(s[i]) {
        digits_end(s, i + 1)
    } else {
        i
    }
}

/// Position of the closing quote of a string whose content starts at `i`.
pub open spec fn str_end(s: Seq<u8>, i: int) -> Option<int>
    decreases s.len() - i,
{
    if !(0 <= i < s.len()) {
        None
    } else if s[i] == 34 {
        Some(i)
    } else if s[i] == 92 {
        if i + 1 < s.len() && is_simple_esc(s[i + 1]) {
            str_end(s, i + 2)
        } else if i + 1 < s.len() && s[i + 1] == 117 {
            if i + 6 <= s.len() && is_hex(s[i + 2]) && is_hex(s[i + 3]) && is_hex(s[i + 4])
                && is_hex(s[i + 5]) {
                str_end(s, i + 6)
            } else {
                None
            }
        } else {
            None
        }
    } else if s[i] < 32 {
        None
    } else {
        str_end(s, i + 1)
    }
}

/// End of the number token starting at `i`: `-? int frac? exp?` with
/// `int` either `0` or free of a leading zero.
pub open spec fn num_end(s: Seq<u8>, i: int) -> Option<int> {
    let j = if 0 <= i < s.len() && s[i] == 45 {
        i + 1
    } else {
        i
    };
    if !(0 <= j < s.len() && is_digit(s[j])) {
        None
    } else {
        let k = if s[j] == 48 {
            j + 1
        } else {
            digits_end(s, j)
        };
        let k2 = if k < s.len() && s[k] == 46 {
            if k + 1 < s.len() && is_digit(s[k + 1]) {
                digits_end(s, k + 1)
            } else {
                -1
            }
        } else {
            k
        };
        if k2 < 0 {
            None
        } else {
            let k3 = if k2 < s.len() && (s[k2] == 101 || s[k2] == 69) {
                let m = if k2 + 1 < s.len() && (s[k2 + 1] == 43 || s[k2 + 1] == 45) {
                    k2 + 2
                } else {
                    k2 + 1
                };
                if m < s.len() && is_digit(s[m]) {
                    digits_end(s, m)
                } else {
                    -1
                }
            } else {
                k2
            };
            if k3 < 0 {
                None
            } else {
                Some(k3)
            }
        }
    }
}

/// A value starting exactly at `i` (no leading whitespace), and the
/// position just after it.
pub open spec fn parse_value(s: Seq<u8>, i: int, depth: nat) -> Option<(JsonV, int)>
    decreases depth, s.len() - i, 0nat,
{
    if !(0 <= i < s.len()) {
        None
    } else if s[i] == 110 {
        if i + 4 <= s.len() && s[i + 1] == 117 && s[i + 2] == 108 && s[i + 3] == 108 {
            Some((JsonV::Null, i + 4))
        } else {
            None
        }
    } else if s[i] == 116 {
        if i + 4 <= s.len() && s[i + 1] == 114 && s[i + 2] == 117 && s[i + 3] == 101 {
            Some((JsonV::Bool(true), i + 4))
        } else {
            None
        }
    } else if s[i] == 102 {
        if i + 5 <= s.len() && s[i + 1] == 97 && s[i + 2] == 108 && s[i + 3] == 115 && s[i + 4]
            == 101 {
            Some((JsonV::Bool(false), i + 5))
        } else {
            None
        }
    } else if s[i] == 34 {
        match str_end(s, i + 1) {
            Some(e) => Some((JsonV::Str(s.subrange(i + 1, e)), e + 1)),
            None => None,
        }
    } else if s[i] == 45 || is_digit(s[i]) {
        match num_end(s, i) {
            Some(e) => Some((JsonV::Num(s.subrange(i, e)), e)),
            None => None,
        }
    } else if s[i] == 91 {
        if depth == 0 {
            None
        } else {
            match parse_arr_open(s, i + 1, (depth - 1) as nat) {
                Some((elems, e)) => Some((JsonV::Arr(elems), e)),
                None => None,
            }
        }
    } else if s[i] == 123 {
        if depth == 0 {
            None
        } else {
            match parse_obj_open(s, i + 1, (depth - 1) as nat) {
                Some((ms, e)) => Some((JsonV::Obj(ms), e)),
                None => None,
            }
        }
    } else {
        None
    }
}

/// Array contents just after `[`: either `]` or the elements.
pub open spec fn parse_arr_open(s: Seq<u8>, i: int, depth: nat) -> Option<(Seq<JsonV>, int)>
    decreases depth, s.len() - i, 2nat,
{
    if !(0 <= i < s.len()) {
        None
    } else if is_ws(s[i]) {
        parse_arr_open(s, i + 1, depth)
    } else if s[i] == 93 {
        Some((Seq::empty(), i + 1))
    } else {
        parse_arr_elems(s, i, depth)
    }
}

/// One element and whatever follows it.
pub open spec fn parse_arr_elems(s: Seq<u8>, i: int, depth: nat) -> Option<(Seq<JsonV>, int)>
    decreases depth, s.len() - i, 1nat,
{
    if !(0 <= i < s.len()) {
        None
    } else if is_ws(s[i]) {
        parse_arr_elems(s, i + 1, depth)
    } else {
        match parse_value(s, i, depth) {
            None => None,
            Some((v, k)) => if k <= i || k > s.len() {
                None
            } else {
                match parse_arr_tail(s, k, depth) {
                    None => None,
                    Some((rest, e)) => Some((seq![v] + rest, e)),
                }
            },
        }
    }
}

/// After an element: `,` and more elements, or `]`.
pub open spec fn parse_arr_tail(s: Seq<u8>, k: int, depth: nat) -> Option<(Seq<JsonV>, int)>
    decreases depth, s.len() - k, 1nat,
{
    if !(0 <= k < s.len()) {
        None
    } else if is_ws(s[k]) {
        parse_arr_tail(s, k + 1, depth)
    } else if s[k] == 44 {
        parse_arr_elems(s, k + 1, depth)
    } else if s[k] == 93 {
        Some((Seq::empty(), k + 1))
    } else {
        None
    }
}

/// Object contents just after `{`: either `}` or the members.
pub open spec fn parse_obj_open(s: Seq<u8>, i: int, depth: nat) -> Option<(
    Seq<(Seq<u8>, JsonV)>,
    int,
)>
    decreases depth, s.len() - i, 2nat,
{
    if !(0 <= i < s.len()) {
        None
    } else if is_ws(s[i]) {
        parse_obj_open(s, i + 1, depth)
    } else if s[i] == 125 {
        Some((Seq::empty(), i + 1))
    } else {
        parse_obj_members(s, i, depth)
    }
}

/// One `"key"` and whatever follows it.
pub open spec fn parse_obj_members(s: Seq<u8>, i: int, depth: nat) -> Option<(
    Seq<(Seq<u8>, JsonV)>,
    int,
)>
    decreases depth, s.len() - i, 1nat,
{
    if !(0 <= i < s.len()) {
        None
    } else if is_ws(s[i]) {
        parse_obj_members(s, i + 1, depth)
    } else if s[i] == 34 {
        match str_end(s, i + 1) {
            None => None,
            Some(e) => if e <= i || e >= s.len() {
                None
            } else {
                parse_obj_colon(s, e + 1, depth, s.subrange(i + 1, e))
            },
        }
    } else {
        None
    }
}

/// The `:` after a key.
pub open spec fn parse_obj_colon(s: Seq<u8>, p: int, depth: nat, key: Seq<u8>) -> Option<(
    Seq<(Seq<u8>, JsonV)>,
    int,
)>
    decreases depth, s.len() - p, 1nat,
{
    if !(0 <= p < s.len()) {
        None
    } else if is_ws(s[p]) {
        parse_obj_colon(s, p + 1, depth, key)
    } else if s[p] == 58 {
        parse_obj_value(s, p + 1, depth, key)
    } else {
        None
    }
}

/// The value of a member and whatever follows it.
pub open spec fn parse_obj_value(s: Seq<u8>, p: int, depth: nat, key: Seq<u8>) -> Option<(
    Seq<(Seq<u8>, JsonV)>,
    int,
)>
    decreases depth, s.len() - p, 1nat,
{
    if !(0 <= p < s.len()) {
        None
    } else if is_ws(s[p]) {
        parse_obj_value(s, p + 1, depth, key)
    } else {
        match parse_value(s, p, depth) {
            None => None,
            Some((v, k)) => if k <= p || k > s.len() {
                None
            } else {
                match parse_obj_tail(s, k, depth) {
                    None => None,
                    Some((rest, e)) => Some((seq![(key, v)] + rest, e)),
                }
            },
        }
    }
}

/// After a member: `,` and more members, or `}`.
pub open spec fn parse_obj_tail(s: Seq<u8>, k: int, depth: nat) -> Option<(
    Seq<(Seq<u8>, JsonV)>,
    int,
)>
    decreases depth, s.len() - k, 1nat,
{
    if !(0 <= k < s.len()) {
        None
    } else if is_ws(s[k]) {
        parse_obj_tail(s, k + 1, depth)
    } else if s[k] == 44 {
        parse_obj_members(s, k + 1, depth)
    } else if s[k] == 125 {
        Some((Seq::empty(), k + 1))
    } else {
        None
    }
}

/// The whole input as one JSON document: one value with optional
/// surrounding whitespace and nothing else.
pub open spec fn parse_json(s: Seq<u8>) -> Option<JsonV> {
    match parse_value(s, ws_end(s, 0), MAX_DEPTH as nat) {
        None => None,
        Some((v, k)) => if ws_end(s, k) == s.len() {
            Some(v)
        } else {
            None
        },
    }
}



proof fn lemma_ws_end_pos(s: Seq<u8>, i: int)
    requires
        0 <= i <= s.len(),
    ensures
        i <= ws_end(s, i) <= s.len(),
    decreases s.len() - i,
{
    if i < s.len() && is_ws(s[i]) {
        lemma_ws_end_pos(s, i + 1);
    }
}

proof fn lemma_digits_end_pos(s: Seq<u8>, i: int)
    requires
        0 <= i <= s.len(),
    ensures
        i <= digits_end(s, i) <= s.len(),
    decreases s.len() - i,
{
    if i < s.len() && is_digit(s[i]) {
        lemma_digits_end_pos(s, i + 1);
    }
}

proof fn lemma_str_end_pos(s: Seq<u8>, i: int)
    ensures
        str_end(s, i) matches Some(e) ==> i <= e < s.len(),
    decreases s.len() - i,
{
    if 0 <= i < s.len() {
        if s[i] == 92 {
            if i + 1 < s.len() && is_simple_esc(s[i + 1]) {
                lemma_str_end_pos(s, i + 2);
            } else if i + 1 < s.len() && s[i + 1] == 117 {
                if i + 6 <= s.len() && is_hex(s[i + 2]) && is_hex(s[i + 3]) && is_hex(s[i + 4])
                    && is_hex(s[i + 5]) {
                    lemma_str_end_pos(s, i + 6);
                }
            }
        } else if s[i] != 34 && s[i] >= 32 {
            lemma_str_end_pos(s, i + 1);
        }
    }
}

proof fn lemma_num_end_pos(s: Seq<u8>, i: int)
    requires
        0 <= i,
    ensures
        num_end(s, i) matches Some(e) ==> i < e <= s.len(),
{
    let j = if 0 <= i < s.len() && s[i] == 45 {
        i + 1
    } else {
        i
    };
    if 0 <= j < s.len() && is_digit(s[j]) {
        lemma_digits_end_pos(s, j + 1);
        let k = if s[j] == 48 {
            j + 1
        } else {
            digits_end(s, j)
        };
        if k < s.len() && s[k] == 46 && k + 1 < s.len() && is_digit(s[k + 1]) {
            lemma_digits_end_pos(s, k + 2);
        }
        let k2 = if k < s.len() && s[k] == 46 {
            if k + 1 < s.len() && is_digit(s[k + 1]) {
                digits_end(s, k + 1)
            } else {
                -1
            }
        } else {
            k
        };
        if 0 <= k2 && k2 < s.len() && (s[k2] == 101 || s[k2] == 69) {
            let m = if k2 + 1 < s.len() && (s[k2 + 1] == 43 || s[k2 + 1] == 45) {
                k2 + 2
            } else {
                k2 + 1
            };
            if m < s.len() && is_digit(s[m]) {
                lemma_digits_end_pos(s, m + 1);
            }
        }
    }
}

/// Every parsed value ends strictly after it starts and inside the input:
/// the position guards in the parsing functions never reject anything.
pub proof fn lemma_value_pos(s: Seq<u8>, i: int, depth: nat)
    ensures
        parse_value(s, i, depth) matches Some((v, k)) ==> i < k <= s.len(),
    decreases depth, s.len() - i, 0nat,
{
    if 0 <= i < s.len() {
        if s[i] == 34 {
            lemma_str_end_pos(s, i + 1);
        } else if s[i] == 45 || is_digit(s[i]) {
            lemma_num_end_pos(s, i);
        } else if s[i] == 91 && depth > 0 {
            lemma_arr_open_pos(s, i + 1, (depth - 1) as nat);
        } else if s[i] == 123 && depth > 0 {
            lemma_obj_open_pos(s, i + 1, (depth - 1) as nat);
        }
    }
}

proof fn lemma_arr_open_pos(s: Seq<u8>, i: int, depth: nat)
    ensures
        parse_arr_open(s, i, depth) matches Some((v, k)) ==> i < k <= s.len(),
    decreases depth, s.len() - i, 2nat,
{
    if 0 <= i < s.len() {
        if is_ws(s[i]) {
            lemma_arr_open_pos(s, i + 1, depth);
        } else if s[i] != 93 {
            lemma_arr_elems_pos(s, i, depth);
        }
    }
}

proof fn lemma_arr_elems_pos(s: Seq<u8>, i: int, depth: nat)
    ensures
        parse_arr_elems(s, i, depth) matches Some((v, k)) ==> i < k <= s.len(),
    decreases depth, s.len() - i, 1nat,
{
    if 0 <= i < s.len() {
        if is_ws(s[i]) {
            lemma_arr_elems_pos(s, i + 1, depth);
        } else {
            lemma_value_pos(s, i, depth);
            match parse_value(s, i, depth) {
                Some((v, k)) => {
                    lemma_arr_tail_pos(s, k, depth);
                },
                None => {},
            }
        }
    }
}

proof fn lemma_arr_tail_pos(s: Seq<u8>, k: int, depth: nat)
    ensures
        parse_arr_tail(s, k, depth) matches Some((v, e)) ==> k < e <= s.len(),
    decreases depth, s.len() - k, 1nat,
{
    if 0 <= k < s.len() {
        if is_ws(s[k]) {
            lemma_arr_tail_pos(s, k + 1, depth);
        } else if s[k] == 44 {
            lemma_arr_elems_pos(s, k + 1, depth);
        }
    }
}

proof fn lemma_obj_open_pos(s: Seq<u8>, i: int, depth: nat)
    ensures
        parse_obj_open(s, i, depth) matches Some((ms, k)) ==> i < k <= s.len(),
    decreases depth, s.len() - i, 2nat,
{
    if 0 <= i < s.len() {
        if is_ws(s[i]) {
            lemma_obj_open_pos(s, i + 1, depth);
        } else if s[i] != 125 {
            lemma_obj_members_pos(s, i, depth);
        }
    }
}

proof fn lemma_obj_members_pos(s: Seq<u8>, i: int, depth: nat)
    ensures
        parse_obj_members(s, i, depth) matches Some((ms, k)) ==> i < k <= s.len(),
    decreases depth, s.len() - i, 1nat,
{
    if 0 <= i < s.len() {
        if is_ws(s[i]) {
            lemma_obj_members_pos(s, i + 1, depth);
        } else if s[i] == 34 {
            lemma_str_end_pos(s, i + 1);
            match str_end(s, i + 1) {
                Some(e) => {
                    if e < s.len() {
                        lemma_obj_colon_pos(s, e + 1, depth, s.subrange(i + 1, e));
                    }
                },
                None => {},
            }
        }
    }
}

proof fn lemma_obj_colon_pos(s: Seq<u8>, p: int, depth: nat, key: Seq<u8>)
    ensures
        parse_obj_colon(s, p, depth, key) matches Some((ms, k)) ==> p < k <= s.len(),
    decreases depth, s.len() - p, 1nat,
{
    if 0 <= p < s.len() {
        if is_ws(s[p]) {
            lemma_obj_colon_pos(s, p + 1, depth, key);
        } else if s[p] == 58 {
            lemma_obj_value_pos(s, p + 1, depth, key);
        }
    }
}

proof fn lemma_obj_value_pos(s: Seq<u8>, p: int, depth: nat, key: Seq<u8>)
    ensures
        parse_obj_value(s, p, depth, key) matches Some((ms, k)) ==> p < k <= s.len(),
    decreases depth, s.len() - p, 1nat,
{
    if 0 <= p < s.len() {
        if is_ws(s[p]) {
            lemma_obj_value_pos(s, p + 1, depth, key);
        } else {
            lemma_value_pos(s, p, depth);
            match parse_value(s, p, depth) {
                Some((v, k)) => {
                    lemma_obj_tail_pos(s, k, depth);
                },
                None => {},
            }
        }
    }
}

proof fn lemma_obj_tail_pos(s: Seq<u8>, k: int, depth: nat)
    ensures
        parse_obj_tail(s, k, depth) matches Some((ms, e)) ==> k < e <= s.len(),
    decreases depth, s.len() - k, 1nat,
{
    if 0 <= k < s.len() {
        if is_ws(s[k]) {
            lemma_obj_tail_pos(s, k + 1, depth);
        } else if s[k] == 44 {
            lemma_obj_members_pos(s, k + 1, depth);
        }
    }
}

/// Model of an executable parse result.
pub open spec fn res_v(r: Option<(Json, usize)>) -> Option<(JsonV, int)> {
    match r {
        None => None,
        Some((j, k)) => Some((j.model(), k as int)),
    }
}

/// Model of an executable array-parse result.
pub open spec fn res_arr(r: Option<(Vec<Json>, usize)>) -> Option<(Seq<JsonV>, int)> {
    match r {
        None => None,
        Some((v, k)) => Some((views_of(v@), k as int)),
    }
}

/// Model of an executable object-parse result.
pub open spec fn res_obj(r: Option<(Vec<(Vec<u8>, Json)>, usize)>) -> Option<(
    Seq<(Seq<u8>, JsonV)>,
    int,
)> {
    match r {
        None => None,
        Some((ms, k)) => Some((views_of_members(ms@), k as int)),
    }
}

fn skip_ws(s: &[u8], i: usize) -> (j: usize)
    requires
        i <= s@.len(),
    ensures
        j == ws_end(s@, i as int),
        i <= j <= s@.len(),
    decreases s@.len() - i,
{
    if i < s.len() {
        let c = s[i];
        if c == 32 || c == 9 || c == 10 || c == 13 {
            return skip_ws(s, i + 1);
        }
    }
    i
}

fn skip_digits(s: &[u8], i: usize) -> (j: usize)
    requires
        i <= s@.len(),
    ensures
        j == digits_end(s@, i as int),
        i <= j <= s@.len(),
    decreases s@.len() - i,
{
    if i < s.len() {
        let c = s[i];
        if 48 <= c && c <= 57 {
            return skip_digits(s, i + 1);
        }
    }
    i
}

fn hex_at(s: &[u8], i: usize) -> (r: bool)
    requires
        i < s@.len(),
    ensures
        r == is_hex(s@[i as int]),
{
    let c = s[i];
    (48 <= c && c <= 57) || (97 <= c && c <= 102) || (65 <= c && c <= 70)
}

fn scan_str(s: &[u8], i: usize) -> (r: Option<usize>)
    requires
        i <= s@.len(),
    ensures
        match r {
            Some(e) => str_end(s@, i as int) == Some(e as int) && i <= e < s@.len(),
            None => str_end(s@, i as int) is None,
        },
    decreases s@.len() - i,
{
    if i >= s.len() {
        return None;
    }
    let c = s[i];
    if c == 34 {
        Some(i)
    } else if c == 92 {
        if i + 1 < s.len() {
            let d = s[i + 1];
            if d == 34 || d == 92 || d == 47 || d == 98 || d == 102 || d == 110 || d == 114 || d
                == 116 {
                scan_str(s, i + 2)
            } else if d == 117 {
                if s.len() - i >= 6 && hex_at(s, i + 2) && hex_at(s, i + 3) && hex_at(s, i + 4)
                    && hex_at(s, i + 5) {
                    scan_str(s, i + 6)
                } else {
                    None
                }
            } else {
                None
            }
        } else {
            None
        }
    } else if c < 32 {
        None
    } else {
        scan_str(s, i + 1)
    }
}

fn scan_num(s: &[u8], i: usize) -> (r: Option<usize>)
    requires
        i <= s@.len(),
    ensures
        match r {
            Some(e) => num_end(s@, i as int) == Some(e as int) && i < e <= s@.len(),
            None => num_end(s@, i as int) is None,
        },
{
    let n = s.len();
    let mut j = i;
    if j < n && s[j] == 45 {
        j = j + 1;
    }
    if !(j < n && 48 <= s[j] && s[j] <= 57) {
        return None;
    }
    let k = if s[j] == 48 {
        j + 1
    } else {
        skip_digits(s, j + 1)
    };
    let k2: usize = if k < n && s[k] == 46 {
        if k + 1 < n && 48 <= s[k + 1] && s[k + 1] <= 57 {
            skip_digits(s, k + 2)
        } else {
            return None;
        }
    } else {
        k
    };
    let e: usize = if k2 < n && (s[k2] == 101 || s[k2] == 69) {
        let m = if k2 + 1 < n && (s[k2 + 1] == 43 || s[k2 + 1] == 45) {
            k2 + 2
        } else {
            k2 + 1
        };
        if m < n && 48 <= s[m] && s[m] <= 57 {
            skip_digits(s, m + 1)
        } else {
            return None;
        }
    } else {
        k2
    };
    Some(e)
}

fn p_value(s: &[u8], i: usize, depth: u32) -> (r: Option<(Json, usize)>)
    requires
        i <= s@.len(),
    ensures
        res_v(r) == parse_value(s@, i as int, depth as nat),
        r matches Some((v, k)) ==> i < k <= s@.len(),
    decreases depth, s@.len() - i, 0nat,
{
    let n = s.len();
    if i >= n {
        return None;
    }
    let c = s[i];
    if c == 110 {
        if n - i >= 4 && s[i + 1] == 117 && s[i + 2] == 108 && s[i + 3] == 108 {
            Some((Json::Null, i + 4))
        } else {
            None
        }
    } else if c == 116 {
        if n - i >= 4 && s[i + 1] == 114 && s[i + 2] == 117 && s[i + 3] == 101 {
            Some((Json::Bool(true), i + 4))
        } else {
            None
        }
    } else if c == 102 {
        if n - i >= 5 && s[i + 1] == 97 && s[i + 2] == 108 && s[i + 3] == 115 && s[i + 4] == 101 {
            Some((Json::Bool(false), i + 5))
        } else {
            None
        }
    } else if c == 34 {
        match scan_str(s, i + 1) {
            Some(e) => {
                let content = slice_to_vec(slice_subrange(s, i + 1, e));
                Some((Json::Str(content), e + 1))
            },
            None => None,
        }
    } else if c == 45 || (48 <= c && c <= 57) {
        match scan_num(s, i) {
            Some(e) => {
                let tok = slice_to_vec(slice_subrange(s, i, e));
                Some((Json::Num(tok), e))
            },
            None => None,
        }
    } else if c == 91 {
        if depth == 0 {
            None
        } else {
            match p_arr_open(s, i + 1, depth - 1) {
                Some((elems, e)) => Some((Json::Arr(elems), e)),
                None => None,
            }
        }
    } else if c == 123 {
        if depth == 0 {
            None
        } else {
            match p_obj_open(s, i + 1, depth - 1) {
                Some((ms, e)) => Some((Json::Obj(ms), e)),
                None => None,
            }
        }
    } else {
        None
    }
}

fn p_arr_open(s: &[u8], i: usize, depth: u32) -> (r: Option<(Vec<Json>, usize)>)
    requires
        i <= s@.len(),
    ensures
        res_arr(r) == parse_arr_open(s@, i as int, depth as nat),
        r matches Some((v, k)) ==> i < k <= s@.len(),
    decreases depth, s@.len() - i, 2nat,
{
    if i >= s.len() {
        return None;
    }
    let c = s[i];
    if c == 32 || c == 9 || c == 10 || c == 13 {
        p_arr_open(s, i + 1, depth)
    } else if c == 93 {
        let v: Vec<Json> = Vec::new();
        proof {
            assert(views_of(v@) =~= Seq::<JsonV>::empty());
        }
        Some((v, i + 1))
    } else {
        p_arr_elems(s, i, depth)
    }
}

fn p_arr_elems(s: &[u8], i: usize, depth: u32) -> (r: Option<(Vec<Json>, usize)>)
    requires
        i <= s@.len(),
    ensures
        res_arr(r) == parse_arr_elems(s@, i as int, depth as nat),
        r matches Some((v, k)) ==> i < k <= s@.len(),
    decreases depth, s@.len() - i, 1nat,
{
    if i >= s.len() {
        return None;
    }
    let c = s[i];
    if c == 32 || c == 9 || c == 10 || c == 13 {
        p_arr_elems(s, i + 1, depth)
    } else {
        match p_value(s, i, depth) {
            None => None,
            Some((v, k)) => {
                let ghost gv = v.model();
                match p_arr_tail(s, k, depth) {
                    None => None,
                    Some((rest, e)) => {
                        let ghost grest = rest@;
                        let mut out = rest;
                        out.insert(0, v);
                        proof {
                            assert(views_of(out@) =~= seq![gv] + views_of(grest));
                        }
                        Some((out, e))
                    },
                }
            },
        }
    }
}

fn p_arr_tail(s: &[u8], k: usize, depth: u32) -> (r: Option<(Vec<Json>, usize)>)
    requires
        k <= s@.len(),
    ensures
        res_arr(r) == parse_arr_tail(s@, k as int, depth as nat),
        r matches Some((v, e)) ==> k < e <= s@.len(),
    decreases depth, s@.len() - k, 1nat,
{
    if k >= s.len() {
        return None;
    }
    let c = s[k];
    if c == 32 || c == 9 || c == 10 || c == 13 {
        p_arr_tail(s, k + 1, depth)
    } else if c == 44 {
        p_arr_elems(s, k + 1, depth)
    } else if c == 93 {
        let v: Vec<Json> = Vec::new();
        proof {
            assert(views_of(v@) =~= Seq::<JsonV>::empty());
        }
        Some((v, k + 1))
    } else {
        None
    }
}

fn p_obj_open(s: &[u8], i: usize, depth: u32) -> (r: Option<(Vec<(Vec<u8>, Json)>, usize)>)
    requires
        i <= s@.len(),
    ensures
        res_obj(r) == parse_obj_open(s@, i as int, depth as nat),
        r matches Some((ms, k)) ==> i < k <= s@.len(),
    decreases depth, s@.len() - i, 2nat,
{
    if i >= s.len() {
        return None;
    }
    let c = s[i];
    if c == 32 || c == 9 || c == 10 || c == 13 {
        p_obj_open(s, i + 1, depth)
    } else if c == 125 {
        let ms: Vec<(Vec<u8>, Json)> = Vec::new();
        proof {
            assert(views_of_members(ms@) =~= Seq::<(Seq<u8>, JsonV)>::empty());
        }
        Some((ms, i + 1))
    } else {
        p_obj_members(s, i, depth)
    }
}

fn p_obj_members(s: &[u8], i: usize, depth: u32) -> (r: Option<(Vec<(Vec<u8>, Json)>, usize)>)
    requires
        i <= s@.len(),
    ensures
        res_obj(r) == parse_obj_members(s@, i as int, depth as nat),
        r matches Some((ms, k)) ==> i < k <= s@.len(),
    decreases depth, s@.len() - i, 1nat,
{
    if i >= s.len() {
        return None;
    }
    let c = s[i];
    if c == 32 || c == 9 || c == 10 || c == 13 {
        p_obj_members(s, i + 1, depth)
    } else if c == 34 {
        match scan_str(s, i + 1) {
            None => None,
            Some(e) => {
                let key = slice_to_vec(slice_subrange(s, i + 1, e));
                p_obj_colon(s, e + 1, depth, key)
            },
        }
    } else {
        None
    }
}

fn p_obj_colon(s: &[u8], p: usize, depth: u32, key: Vec<u8>) -> (r: Option<(
    Vec<(Vec<u8>, Json)>,
    usize,
)>)
    requires
        p <= s@.len(),
    ensures
        res_obj(r) == parse_obj_colon(s@, p as int, depth as nat, key@),
        r matches Some((ms, k)) ==> p < k <= s@.len(),
    decreases depth, s@.len() - p, 1nat,
{
    if p >= s.len() {
        return None;
    }
    let c = s[p];
    if c == 32 || c == 9 || c == 10 || c == 13 {
        p_obj_colon(s, p + 1, depth, key)
    } else if c == 58 {
        p_obj_value(s, p + 1, depth, key)
    } else {
        None
    }
}

fn p_obj_value(s: &[u8], p: usize, depth: u32, key: Vec<u8>) -> (r: Option<(
    Vec<(Vec<u8>, Json)>,
    usize,
)>)
    requires
        p <= s@.len(),
    ensures
        res_obj(r) == parse_obj_value(s@, p as int, depth as nat, key@),
        r matches Some((ms, k)) ==> p < k <= s@.len(),
    decreases depth, s@.len() - p, 1nat,
{
    if p >= s.len() {
        return None;
    }
    let c = s[p];
    if c == 32 || c == 9 || c == 10 || c == 13 {
        p_obj_value(s, p + 1, depth, key)
    } else {
        match p_value(s, p, depth) {
            None => None,
            Some((v, k)) => {
                let ghost gkey = key@;
                let ghost gv = v.model();
                match p_obj_tail(s, k, depth) {
                    None => None,
                    Some((rest, e)) => {
                        let ghost grest = rest@;
                        let mut out = rest;
                        out.insert(0, (key, v));
                        proof {
                            assert(views_of_members(out@) =~= seq![(gkey, gv)] + views_of_members(
                                grest,
                            ));
                        }
                        Some((out, e))
                    },
                }
            },
        }
    }
}

fn p_obj_tail(s: &[u8], k: usize, depth: u32) -> (r: Option<(Vec<(Vec<u8>, Json)>, usize)>)
    requires
        k <= s@.len(),
    ensures
        res_obj(r) == parse_obj_tail(s@, k as int, depth as nat),
        r matches Some((ms, e)) ==> k < e <= s@.len(),
    decreases depth, s@.len() - k, 1nat,
{
    if k >= s.len() {
        return None;
    }
    let c = s[k];
    if c == 32 || c == 9 || c == 10 || c == 13 {
        p_obj_tail(s, k + 1, depth)
    } else if c == 44 {
        p_obj_members(s, k + 1, depth)
    } else if c == 125 {
        let ms: Vec<(Vec<u8>, Json)> = Vec::new();
        proof {
            assert(views_of_members(ms@) =~= Seq::<(Seq<u8>, JsonV)>::empty());
        }
        Some((ms, k + 1))
    } else {
        None
    }
}

/// Parses the whole input as one JSON document; returns exactly what
/// [`parse_json`] denotes.
pub fn parse_json_bytes(s: &[u8]) -> (r: Option<Json>)
    ensures
        match r {
            Some(j) => parse_json(s@) == Some(j.model()),
            None => parse_json(s@) is None,
        },
{
    let start = skip_ws(s, 0);
    match p_value(s, start, MAX_DEPTH) {
        None => None,
        Some((v, k)) => {
            let e = skip_ws(s, k);
            if e == s.len() {
                Some(v)
            } else {
                None
            }
        },
    }
}


/// Value of the member named `key`; of duplicate keys the later wins,
/// as common JSON parsers keep the later member.
pub open spec fn obj_get(ms: Seq<(Seq<u8>, JsonV)>, key: Seq<u8>) -> Option<JsonV>
    decreases ms.len(),
{
    if ms.len() == 0 {
        None
    } else if ms.last().0 == key {
        Some(ms.last().1)
    } else {
        obj_get(ms.drop_last(), key)
    }
}

fn bytes_eq(a: &[u8], b: &[u8]) -> (r: bool)
    ensures
        r == (a@ == b@),
{
    if a.len() != b.len() {
        return false;
    }
    let mut i: usize = 0;
    while i < a.len()
        invariant
            0 <= i <= a@.len(),
            a@.len() == b@.len(),
            forall|j: int| 0 <= j < i ==> a@[j] == b@[j],
        decreases a@.len() - i,
    {
        if a[i] != b[i] {
            return false;
        }
        i = i + 1;
    }
    proof {
        assert(a@ =~= b@);
    }
    true
}

/// Looks `key` up among the members, later duplicates first.
pub fn json_obj_get<'a>(ms: &'a Vec<(Vec<u8>, Json)>, key: &[u8]) -> (r: Option<&'a Json>)
    ensures
        match r {
            Some(j) => obj_get(views_of_members(ms@), key@) == Some(j.model()),
            None => obj_get(views_of_members(ms@), key@) is None,
        },
{
    let ghost full = views_of_members(ms@);
    let mut i = ms.len();
    proof {
        assert(full.subrange(0, i as int) =~= full);
    }
    while i > 0
        invariant
            i <= ms@.len(),
            full == views_of_members(ms@),
            obj_get(full, key@) == obj_get(full.subrange(0, i as int), key@),
        decreases i,
    {
        i = i - 1;
        let ghost pre = full.subrange(0, i as int + 1);
        proof {
            assert(pre.last() == full[i as int]);
            assert(pre.drop_last() =~= full.subrange(0, i as int));
        }
        if bytes_eq(ms[i].0.as_slice(), key) {
            return Some(&ms[i].1);
        }
    }
    proof {
        assert(full.subrange(0, 0) =~= Seq::<(Seq<u8>, JsonV)>::empty());
    }
    None
}

} // verus!
