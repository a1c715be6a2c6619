//! The canonical JSON text writer.
//!
//! `render` fixes, as a mathematical function, the exact byte sequence this
//! crate puts on the wire for a document: no added whitespace, strings with
//! `"` and `\` escaped, control characters and every character outside ASCII
//! written as `\u` escapes (with surrogate pairs above the basic plane), and
//! integers in plain decimal. The executable writer is proved to produce
//! exactly `render`, and `lemma_render_no_lf` shows that no rendered frame
//! can contain a line feed, which is what the line-per-message transports
//! rely on.

use vstd::prelude::*;

use crate::json::Json;
use crate::json::JsonV;
use crate::json::arr_view_from;
use crate::json::lemma_arr_view;
use crate::json::lemma_obj_view;
use crate::json::obj_view_from;

verus! {

broadcast use vstd::std_specs::vec::group_vec_axioms, vstd::seq::group_seq_axioms;

/// The ASCII digit for a hex nibble, lower case.
pub open spec fn hex_digit(n: int) -> u8 {
    if n < 10 {
        (0x30 + n) as u8
    } else {
        (0x57 + n) as u8  // 10 -> 0x61 'a'
    }
}

/// Four hex digits, most significant first, of `n < 0x10000`.
pub open spec fn hex4(n: int) -> Seq<u8> {
    seq![
        hex_digit(n / 4096 % 16),
        hex_digit(n / 256 % 16),
        hex_digit(n / 16 % 16),
        hex_digit(n % 16),
    ]
}

/// A `\uXXXX` escape.
pub open spec fn u_escape(n: int) -> Seq<u8> {
    seq![0x5cu8, 0x75u8] + hex4(n)
}

/// The bytes a single character contributes to a rendered string literal.
pub open spec fn esc_char(c: char) -> Seq<u8> {
    let n = c as int;
    if c == '"' {
        seq![0x5cu8, 0x22u8]
    } else if c == '\\' {
        seq![0x5cu8, 0x5cu8]
    } else if n < 0x20 {
        u_escape(n)
    } else if n < 0x80 {
        seq![n as u8]
    } else if n < 0x10000 {
        u_escape(n)
    } else {
        u_escape(0xD800 + (n - 0x10000) / 0x400) + u_escape(0xDC00 + (n - 0x10000) % 0x400)
    }
}

/// The rendered tail of a string literal, from character `k` on.
pub open spec fn esc_from(s: Seq<char>, k: int) -> Seq<u8>
    decreases s.len() - k,
{
    if 0 <= k < s.len() {
        esc_char(s[k]) + esc_from(s, k + 1)
    } else {
        Seq::empty()
    }
}

/// A whole string literal, quotes included.
pub open spec fn quoted(s: Seq<char>) -> Seq<u8> {
    seq![0x22u8] + esc_from(s, 0) + seq![0x22u8]
}

/// Decimal digits of `n`, most significant first.
pub open spec fn dec_digits(n: int) -> Seq<u8>
    decreases n,
{
    if n < 10 {
        seq![(0x30 + (if n >= 0 { n } else { 0 })) as u8]
    } else {
        dec_digits(n / 10) + seq![(0x30 + n % 10) as u8]
    }
}

/// A decimal integer, with a leading minus sign when negative.
pub open spec fn dec_int(i: int) -> Seq<u8> {
    if i < 0 {
        seq![0x2du8] + dec_digits(-i)
    } else {
        dec_digits(i)
    }
}

/// The characters a number token may be written with.
pub open spec fn num_char_ok(c: char) -> bool {
    let n = c as int;
    (0x30 <= n <= 0x39)  // digits
     || c == '+' || c == '-' || c == '.' || c == 'e' || c == 'E'
}

/// A well-formed number token: nonempty and written only with number
/// characters. Tokens taken over from the JSON parser always satisfy this.
pub open spec fn num_ok(s: Seq<char>) -> bool {
    s.len() > 0 && forall|i: int| 0 <= i < s.len() ==> num_char_ok(#[trigger] s[i])
}

/// Number characters transcribed one byte per character.
pub open spec fn ascii_bytes(s: Seq<char>) -> Seq<u8> {
    Seq::new(s.len(), |i: int| ((s[i] as int) % 256) as u8)
}

pub open spec fn null_bytes() -> Seq<u8> {
    seq![0x6eu8, 0x75u8, 0x6cu8, 0x6cu8]
}

pub open spec fn true_bytes() -> Seq<u8> {
    seq![0x74u8, 0x72u8, 0x75u8, 0x65u8]
}

pub open spec fn false_bytes() -> Seq<u8> {
    seq![0x66u8, 0x61u8, 0x6cu8, 0x73u8, 0x65u8]
}

/// The canonical rendering of a document.
///
/// A number token that is not well formed renders as `null`; the parser
/// never produces such a token.
pub open spec fn render(j: JsonV) -> Seq<u8>
    decreases j, 0int, 0int,
    via render_decreases
{
    match j {
        JsonV::Null => null_bytes(),
        JsonV::Bool(b) => if b {
            true_bytes()
        } else {
            false_bytes()
        },
        JsonV::Int(i) => dec_int(i),
        JsonV::Num(s) => if num_ok(s) {
            ascii_bytes(s)
        } else {
            null_bytes()
        },
        JsonV::Str(s) => quoted(s),
        JsonV::Arr(items) => seq![0x5bu8] + render_items(items, 0) + seq![0x5du8],
        JsonV::Obj(pairs) => seq![0x7bu8] + render_pairs(pairs, 0) + seq![0x7du8],
    }
}

/// Array elements from index `k` on, comma separated.
pub open spec fn render_items(items: Seq<JsonV>, k: int) -> Seq<u8>
    decreases items, 1int, items.len() - k,
    via render_items_decreases
{
    if 0 <= k < items.len() {
        (if k > 0 {
            seq![0x2cu8]
        } else {
            Seq::empty()
        }) + render(items[k]) + render_items(items, k + 1)
    } else {
        Seq::empty()
    }
}

/// Object members from index `k` on, comma separated.
pub open spec fn render_pairs(pairs: Seq<(Seq<char>, JsonV)>, k: int) -> Seq<u8>
    decreases pairs, 1int, pairs.len() - k,
    via render_pairs_decreases
{
    if 0 <= k < pairs.len() {
        (if k > 0 {
            seq![0x2cu8]
        } else {
            Seq::empty()
        }) + quoted(pairs[k].0) + seq![0x3au8] + render(pairs[k].1) + render_pairs(pairs, k + 1)
    } else {
        Seq::empty()
    }
}

#[via_fn]
proof fn render_decreases(j: JsonV) {
    match j {
        JsonV::Arr(items) => {
            assert(decreases_to!(j => items));
        },
        JsonV::Obj(pairs) => {
            assert(decreases_to!(j => pairs));
        },
        _ => {},
    }
}

#[via_fn]
proof fn render_items_decreases(items: Seq<JsonV>, k: int) {
    if 0 <= k < items.len() {
        assert(decreases_to!(items => items[k]));
    }
}

#[via_fn]
proof fn render_pairs_decreases(pairs: Seq<(Seq<char>, JsonV)>, k: int) {
    if 0 <= k < pairs.len() {
        assert(decreases_to!(pairs => pairs[k]));
        assert(decreases_to!(pairs[k] => pairs[k].1));
    }
}

fn push_hex4(n: u32, out: &mut Vec<u8>)
    requires
        n < 0x10000,
    ensures
        final (out)@ == old(out)@ + hex4(n as int),
{
    let d0 = (n / 4096 % 16) as u8;
    let d1 = (n / 256 % 16) as u8;
    let d2 = (n / 16 % 16) as u8;
    let d3 = (n % 16) as u8;
    out.push(if d0 < 10 { 0x30 + d0 } else { 0x57 + d0 });
    out.push(if d1 < 10 { 0x30 + d1 } else { 0x57 + d1 });
    out.push(if d2 < 10 { 0x30 + d2 } else { 0x57 + d2 });
    out.push(if d3 < 10 { 0x30 + d3 } else { 0x57 + d3 });
    proof {
        assert(final (out)@ =~= old(out)@ + hex4(n as int));
    }
}

fn push_u_escape(n: u32, out: &mut Vec<u8>)
    requires
        n < 0x10000,
    ensures
        final (out)@ == old(out)@ + u_escape(n as int),
{
    out.push(0x5c);
    out.push(0x75);
    push_hex4(n, out);
    proof {
        assert(final (out)@ =~= old(out)@ + u_escape(n as int));
    }
}

fn push_esc_char(c: char, out: &mut Vec<u8>)
    ensures
        final (out)@ == old(out)@ + esc_char(c),
{
    let n = c as u32;
    if c == '"' {
        out.push(0x5c);
        out.push(0x22);
        proof {
            assert(final (out)@ =~= old(out)@ + esc_char(c));
        }
    } else if c == '\\' {
        out.push(0x5c);
        out.push(0x5c);
        proof {
            assert(final (out)@ =~= old(out)@ + esc_char(c));
        }
    } else if n < 0x20 {
        push_u_escape(n, out);
    } else if n < 0x80 {
        out.push(n as u8);
        proof {
            assert(final (out)@ =~= old(out)@ + esc_char(c));
        }
    } else if n < 0x10000 {
        push_u_escape(n, out);
    } else {
        let m = n - 0x10000;
        push_u_escape(0xD800 + m / 0x400, out);
        push_u_escape(0xDC00 + m % 0x400, out);
        proof {
            assert(final (out)@ =~= old(out)@ + esc_char(c));
        }
    }
}

fn push_esc_from(s: &str, k: usize, out: &mut Vec<u8>)
    requires
        k <= s@.len(),
    ensures
        final (out)@ == old(out)@ + esc_from(s@, k as int),
    decreases s@.len() - k,
{
    if k < s.unicode_len() {
        let c = s.get_char(k);
        push_esc_char(c, out);
        push_esc_from(s, k + 1, out);
        proof {
            assert(final (out)@ =~= old(out)@ + esc_from(s@, k as int));
        }
    }
}

fn push_quoted(s: &str, out: &mut Vec<u8>)
    ensures
        final (out)@ == old(out)@ + quoted(s@),
{
    out.push(0x22);
    push_esc_from(s, 0, out);
    out.push(0x22);
    proof {
        assert(final (out)@ =~= old(out)@ + quoted(s@));
    }
}

fn push_dec_digits(n: u128, out: &mut Vec<u8>)
    ensures
        final (out)@ == old(out)@ + dec_digits(n as int),
    decreases n,
{
    if n < 10 {
        out.push(0x30 + n as u8);
        proof {
            assert(final (out)@ =~= old(out)@ + dec_digits(n as int));
        }
    } else {
        push_dec_digits(n / 10, out);
        out.push(0x30 + (n % 10) as u8);
        proof {
            assert(final (out)@ =~= old(out)@ + dec_digits(n as int));
        }
    }
}

fn push_dec_int(i: i128, out: &mut Vec<u8>)
    ensures
        final (out)@ == old(out)@ + dec_int(i as int),
{
    if i < 0 {
        out.push(0x2d);
        let mag: u128 = ((-(i + 1)) as u128) + 1;
        proof {
            assert(mag as int == -(i as int));
        }
        push_dec_digits(mag, out);
        proof {
            assert(final (out)@ =~= old(out)@ + dec_int(i as int));
        }
    } else {
        push_dec_digits(i as u128, out);
    }
}

/// Whether a number token is well formed, checked character by character.
fn num_ok_exec(s: &str) -> (r: bool)
    ensures
        r == num_ok(s@),
{
    let n = s.unicode_len();
    if n == 0 {
        return false;
    }
    let mut k: usize = 0;
    while k < n
        invariant
            k <= n,
            n == s@.len(),
            forall|i: int| 0 <= i < k ==> num_char_ok(#[trigger] s@[i]),
        decreases n - k,
    {
        let c = s.get_char(k);
        if !num_char_ok_exec(c) {
            return false;
        }
        k = k + 1;
    }
    true
}

fn num_char_ok_exec(c: char) -> (r: bool)
    ensures
        r == num_char_ok(c),
{
    let n = c as u32;
    (0x30 <= n && n <= 0x39) || c == '+' || c == '-' || c == '.' || c == 'e' || c == 'E'
}

fn push_ascii(s: &str, out: &mut Vec<u8>)
    ensures
        final (out)@ == old(out)@ + ascii_bytes(s@),
{
    let n = s.unicode_len();
    let mut k: usize = 0;
    while k < n
        invariant
            k <= n,
            n == s@.len(),
            out@ == old(out)@ + ascii_bytes(s@).take(k as int),
        decreases n - k,
    {
        let c = s.get_char(k);
        let b = (c as u32 % 256) as u8;
        out.push(b);
        proof {
            assert(out@ =~= old(out)@ + ascii_bytes(s@).take(k as int + 1));
        }
        k = k + 1;
    }
    proof {
        assert(ascii_bytes(s@).take(n as int) =~= ascii_bytes(s@));
    }
}

fn push_literal_null(out: &mut Vec<u8>)
    ensures
        final (out)@ == old(out)@ + null_bytes(),
{
    out.push(0x6e);
    out.push(0x75);
    out.push(0x6c);
    out.push(0x6c);
    proof {
        assert(final (out)@ =~= old(out)@ + null_bytes());
    }
}

/// Appends the canonical rendering of `j` to `out`.
pub fn push_json(j: &Json, out: &mut Vec<u8>)
    ensures
        final (out)@ == old(out)@ + render(j@),
    decreases *j, 1int, 0int,
{
    match j {
        Json::Null => {
            push_literal_null(out);
        },
        Json::Bool(b) => {
            if *b {
                out.push(0x74);
                out.push(0x72);
                out.push(0x75);
                out.push(0x65);
                proof {
                    assert(final (out)@ =~= old(out)@ + true_bytes());
                }
            } else {
                out.push(0x66);
                out.push(0x61);
                out.push(0x6c);
                out.push(0x73);
                out.push(0x65);
                proof {
                    assert(final (out)@ =~= old(out)@ + false_bytes());
                }
            }
        },
        Json::Int(i) => {
            push_dec_int(*i, out);
        },
        Json::Num(s) => {
            if num_ok_exec(s.as_str()) {
                push_ascii(s.as_str(), out);
            } else {
                push_literal_null(out);
            }
        },
        Json::Str(s) => {
            push_quoted(s.as_str(), out);
        },
        Json::Arr(items) => {
            out.push(0x5b);
            push_json_items(j, items, 0, out);
            out.push(0x5d);
            proof {
                assert(final (out)@ =~= old(out)@ + render(j@));
            }
        },
        Json::Obj(pairs) => {
            out.push(0x7b);
            push_json_pairs(j, pairs, 0, out);
            out.push(0x7d);
            proof {
                assert(final (out)@ =~= old(out)@ + render(j@));
            }
        },
    }
}

fn push_json_items(whole: &Json, items: &Vec<Json>, k: usize, out: &mut Vec<u8>)
    requires
        *whole == Json::Arr(*items),
        k <= items.len(),
    ensures
        final (out)@ == old(out)@ + render_items(arr_view_from(items@, 0), k as int),
    decreases *whole, 0int, items.len() - k,
{
    proof {
        lemma_arr_view(items@);
    }
    if k < items.len() {
        if k > 0 {
            out.push(0x2c);
        }
        proof {
            let j = *whole;
            match j {
                Json::Arr(its) => {
                    assert(decreases_to!(j => its));
                    assert(decreases_to!(its => its@));
                    assert(decreases_to!(its@ => its@[k as int]));
                },
                _ => {
                    assert(false);
                },
            }
        }
        push_json(&items[k], out);
        push_json_items(whole, items, k + 1, out);
        proof {
            assert(final (out)@ =~= old(out)@ + render_items(arr_view_from(items@, 0), k as int));
        }
    }
}

fn push_json_pairs(whole: &Json, pairs: &Vec<(String, Json)>, k: usize, out: &mut Vec<u8>)
    requires
        *whole == Json::Obj(*pairs),
        k <= pairs.len(),
    ensures
        final (out)@ == old(out)@ + render_pairs(obj_view_from(pairs@, 0), k as int),
    decreases *whole, 0int, pairs.len() - k,
{
    proof {
        lemma_obj_view(pairs@);
    }
    if k < pairs.len() {
        if k > 0 {
            out.push(0x2c);
        }
        push_quoted(pairs[k].0.as_str(), out);
        out.push(0x3a);
        proof {
            let j = *whole;
            match j {
                Json::Obj(ps) => {
                    assert(decreases_to!(j => ps));
                    assert(decreases_to!(ps => ps@));
                    assert(decreases_to!(ps@ => ps@[k as int]));
                    assert(decreases_to!(ps@[k as int] => ps@[k as int].1));
                },
                _ => {
                    assert(false);
                },
            }
        }
        push_json(&pairs[k].1, out);
        push_json_pairs(whole, pairs, k + 1, out);
        proof {
            assert(final (out)@ =~= old(out)@ + render_pairs(obj_view_from(pairs@, 0), k as int));
        }
    }
}

/// The canonical rendering of `j`, as a fresh byte vector.
pub fn render_json(j: &Json) -> (out: Vec<u8>)
    ensures
        out@ == render(j@),
{
    let mut out: Vec<u8> = Vec::new();
    push_json(j, &mut out);
    proof {
        assert(out@ =~= render(j@));
    }
    out
}

/// No byte of `b` is the line feed `0x0A`.
pub open spec fn no_lf(b: Seq<u8>) -> bool {
    forall|i: int| 0 <= i < b.len() ==> #[trigger] b[i] != 0x0Au8
}

proof fn lemma_no_lf_concat(a: Seq<u8>, b: Seq<u8>)
    requires
        no_lf(a),
        no_lf(b),
    ensures
        no_lf(a + b),
{
    assert forall|i: int| 0 <= i < (a + b).len() implies #[trigger] (a + b)[i] != 0x0Au8 by {
        if i < a.len() {
            assert((a + b)[i] == a[i]);
        } else {
            assert((a + b)[i] == b[i - a.len()]);
        }
    }
}

proof fn lemma_no_lf_hex4(n: int)
    ensures
        no_lf(hex4(n)),
{
}

proof fn lemma_no_lf_u_escape(n: int)
    ensures
        no_lf(u_escape(n)),
{
    lemma_no_lf_hex4(n);
    lemma_no_lf_concat(seq![0x5cu8, 0x75u8], hex4(n));
}

proof fn lemma_no_lf_esc_char(c: char)
    ensures
        no_lf(esc_char(c)),
{
    let n = c as int;
    if c == '"' || c == '\\' {
    } else if n < 0x20 {
        lemma_no_lf_u_escape(n);
    } else if n < 0x80 {
    } else if n < 0x10000 {
        lemma_no_lf_u_escape(n);
    } else {
        lemma_no_lf_u_escape(0xD800 + (n - 0x10000) / 0x400);
        lemma_no_lf_u_escape(0xDC00 + (n - 0x10000) % 0x400);
        lemma_no_lf_concat(
            u_escape(0xD800 + (n - 0x10000) / 0x400),
            u_escape(0xDC00 + (n - 0x10000) % 0x400),
        );
    }
}

proof fn lemma_no_lf_esc_from(s: Seq<char>, k: int)
    ensures
        no_lf(esc_from(s, k)),
    decreases s.len() - k,
{
    if 0 <= k < s.len() {
        lemma_no_lf_esc_char(s[k]);
        lemma_no_lf_esc_from(s, k + 1);
        lemma_no_lf_concat(esc_char(s[k]), esc_from(s, k + 1));
    }
}

proof fn lemma_no_lf_quoted(s: Seq<char>)
    ensures
        no_lf(quoted(s)),
{
    lemma_no_lf_esc_from(s, 0);
    lemma_no_lf_concat(seq![0x22u8], esc_from(s, 0));
    lemma_no_lf_concat(seq![0x22u8] + esc_from(s, 0), seq![0x22u8]);
}

proof fn lemma_no_lf_dec_digits(n: int)
    ensures
        no_lf(dec_digits(n)),
    decreases n,
{
    if n >= 10 {
        lemma_no_lf_dec_digits(n / 10);
        lemma_no_lf_concat(dec_digits(n / 10), seq![(0x30 + n % 10) as u8]);
    }
}

proof fn lemma_no_lf_dec_int(i: int)
    ensures
        no_lf(dec_int(i)),
{
    if i < 0 {
        lemma_no_lf_dec_digits(-i);
        lemma_no_lf_concat(seq![0x2du8], dec_digits(-i));
    } else {
        lemma_no_lf_dec_digits(i);
    }
}

/// A rendered document never contains a line feed, so one frame per line is
/// a sound transport framing.
pub proof fn lemma_render_no_lf(j: JsonV)
    ensures
        no_lf(render(j)),
    decreases j, 0int, 0int,
{
    match j {
        JsonV::Null => {},
        JsonV::Bool(b) => {},
        JsonV::Int(i) => {
            lemma_no_lf_dec_int(i);
        },
        JsonV::Num(s) => {
            if num_ok(s) {
                assert forall|i: int| 0 <= i < ascii_bytes(s).len() implies #[trigger] ascii_bytes(
                    s,
                )[i] != 0x0Au8 by {
                    assert(num_char_ok(s[i]));
                }
            }
        },
        JsonV::Str(s) => {
            lemma_no_lf_quoted(s);
        },
        JsonV::Arr(items) => {
            assert(decreases_to!(j => items));
            lemma_render_items_no_lf(items, 0);
            lemma_no_lf_concat(seq![0x5bu8], render_items(items, 0));
            lemma_no_lf_concat(seq![0x5bu8] + render_items(items, 0), seq![0x5du8]);
        },
        JsonV::Obj(pairs) => {
            assert(decreases_to!(j => pairs));
            lemma_render_pairs_no_lf(pairs, 0);
            lemma_no_lf_concat(seq![0x7bu8], render_pairs(pairs, 0));
            lemma_no_lf_concat(seq![0x7bu8] + render_pairs(pairs, 0), seq![0x7du8]);
        },
    }
}

proof fn lemma_render_items_no_lf(items: Seq<JsonV>, k: int)
    ensures
        no_lf(render_items(items, k)),
    decreases items, 1int, items.len() - k,
{
    if 0 <= k < items.len() {
        assert(decreases_to!(items => items[k]));
        lemma_render_no_lf(items[k]);
        lemma_render_items_no_lf(items, k + 1);
        let comma: Seq<u8> = if k > 0 {
            seq![0x2cu8]
        } else {
            Seq::empty()
        };
        lemma_no_lf_concat(comma, render(items[k]));
        lemma_no_lf_concat(comma + render(items[k]), render_items(items, k + 1));
    }
}

proof fn lemma_render_pairs_no_lf(pairs: Seq<(Seq<char>, JsonV)>, k: int)
    ensures
        no_lf(render_pairs(pairs, k)),
    decreases pairs, 1int, pairs.len() - k,
{
    if 0 <= k < pairs.len() {
        assert(decreases_to!(pairs => pairs[k]));
        assert(decreases_to!(pairs[k] => pairs[k].1));
        lemma_render_no_lf(pairs[k].1);
        lemma_render_pairs_no_lf(pairs, k + 1);
        let comma: Seq<u8> = if k > 0 {
            seq![0x2cu8]
        } else {
            Seq::empty()
        };
        lemma_no_lf_quoted(pairs[k].0);
        lemma_no_lf_concat(comma, quoted(pairs[k].0));
        lemma_no_lf_concat(comma + quoted(pairs[k].0), seq![0x3au8]);
        lemma_no_lf_concat(comma + quoted(pairs[k].0) + seq![0x3au8], render(pairs[k].1));
        lemma_no_lf_concat(
            comma + quoted(pairs[k].0) + seq![0x3au8] + render(pairs[k].1),
            render_pairs(pairs, k + 1),
        );
    }
}


/// Every number token anywhere in the document is well formed.
pub open spec fn nums_wf(j: JsonV) -> bool
    decreases j, 0int, 0int,
    via nums_wf_decreases
{
    match j {
        JsonV::Num(s) => num_ok(s),
        JsonV::Arr(items) => nums_wf_items(items, 0),
        JsonV::Obj(pairs) => nums_wf_pairs(pairs, 0),
        _ => true,
    }
}

pub open spec fn nums_wf_items(items: Seq<JsonV>, k: int) -> bool
    decreases items, 1int, items.len() - k,
    via nums_wf_items_decreases
{
    if 0 <= k < items.len() {
        nums_wf(items[k]) && nums_wf_items(items, k + 1)
    } else {
        true
    }
}

pub open spec fn nums_wf_pairs(pairs: Seq<(Seq<char>, JsonV)>, k: int) -> bool
    decreases pairs, 1int, pairs.len() - k,
    via nums_wf_pairs_decreases
{
    if 0 <= k < pairs.len() {
        nums_wf(pairs[k].1) && nums_wf_pairs(pairs, k + 1)
    } else {
        true
    }
}

#[via_fn]
proof fn nums_wf_decreases(j: JsonV) {
    match j {
        JsonV::Arr(items) => {
            assert(decreases_to!(j => items));
        },
        JsonV::Obj(pairs) => {
            assert(decreases_to!(j => pairs));
        },
        _ => {},
    }
}

#[via_fn]
proof fn nums_wf_items_decreases(items: Seq<JsonV>, k: int) {
    if 0 <= k < items.len() {
        assert(decreases_to!(items => items[k]));
    }
}

#[via_fn]
proof fn nums_wf_pairs_decreases(pairs: Seq<(Seq<char>, JsonV)>, k: int) {
    if 0 <= k < pairs.len() {
        assert(decreases_to!(pairs => pairs[k]));
        assert(decreases_to!(pairs[k] => pairs[k].1));
    }
}


/// A decimal numeral has at least one digit.
pub proof fn lemma_dec_digits_nonempty(n: int)
    ensures
        dec_digits(n).len() > 0,
    decreases n,
{
}

} // verus!
