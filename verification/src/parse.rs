//! The parser for the wire format: a mathematical parser (`spec_parse_*`)
//! that defines exactly which texts are read back and to what, and the
//! executable parser, proved to return precisely what the mathematical one
//! does. The parser is strict: it accepts the canonical encoding and
//! nothing else.

use vstd::prelude::*;

use crate::chars::chars_to_string;
use crate::encode::{digit_value, is_digit};
use crate::schema::{DeliveryInfo, DeliveryView, ItemView, ItemsInfo, Order, OrderView,
    PaymentInfo, PaymentView};
use crate::schema::items_view;

verus! {

/// The pattern `p` occurs in `s` at position `i`.
pub open spec fn matches_at(s: Seq<char>, i: int, p: Seq<char>) -> bool {
    0 <= i && i + p.len() <= s.len() && s.subrange(i, i + p.len()) == p
}

/// Reading a fixed literal: succeeds exactly where the literal occurs.
pub open spec fn spec_parse_lit(s: Seq<char>, i: int, p: Seq<char>) -> Option<int> {
    if matches_at(s, i, p) {
        Some(i + p.len())
    } else {
        None
    }
}

/// Reading a string body after the opening quote, with `acc` already read:
/// ends at the first unescaped quote; a backslash must be followed by a
/// quote or a backslash.
pub open spec fn spec_parse_string_rest(s: Seq<char>, i: int, acc: Seq<char>) -> Option<
    (Seq<char>, int),
>
    decreases s.len() - i,
{
    if i < 0 || i >= s.len() {
        None
    } else if s[i] == '"' {
        Some((acc, i + 1))
    } else if s[i] == '\\' {
        if i + 1 < s.len() && (s[i + 1] == '"' || s[i + 1] == '\\') {
            spec_parse_string_rest(s, i + 2, acc.push(s[i + 1]))
        } else {
            None
        }
    } else {
        spec_parse_string_rest(s, i + 1, acc.push(s[i]))
    }
}

/// Reading a quoted, escaped string field.
pub open spec fn spec_parse_string(s: Seq<char>, i: int) -> Option<(Seq<char>, int)> {
    if 0 <= i && i < s.len() && s[i] == '"' {
        spec_parse_string_rest(s, i + 1, Seq::empty())
    } else {
        None
    }
}

/// Reading the longest run of digits from `i`, folding them onto `acc`.
pub open spec fn spec_parse_digits(s: Seq<char>, i: int, acc: nat) -> (nat, int)
    decreases s.len() - i,
{
    if 0 <= i && i < s.len() && is_digit(s[i]) {
        spec_parse_digits(s, i + 1, acc * 10 + digit_value(s[i]))
    } else {
        (acc, i)
    }
}

/// Reading a canonical decimal number: a single zero, or a nonzero leading
/// digit followed by the remaining digits.
pub open spec fn spec_parse_nat(s: Seq<char>, i: int) -> Option<(nat, int)> {
    if 0 <= i && i < s.len() && is_digit(s[i]) {
        if s[i] == '0' {
            Some((0, i + 1))
        } else {
            Some(spec_parse_digits(s, i, 0))
        }
    } else {
        None
    }
}

/// Reading a decimal number that must fit an unsigned 64-bit field.
pub open spec fn spec_parse_u64(s: Seq<char>, i: int) -> Option<(u64, int)> {
    match spec_parse_nat(s, i) {
        Some((n, j)) => if n <= u64::MAX as nat {
            Some((n as u64, j))
        } else {
            None
        },
        None => None,
    }
}

/// Reading a decimal number that must fit an unsigned 32-bit field.
pub open spec fn spec_parse_u32(s: Seq<char>, i: int) -> Option<(u32, int)> {
    match spec_parse_nat(s, i) {
        Some((n, j)) => if n <= u32::MAX as nat {
            Some((n as u32, j))
        } else {
            None
        },
        None => None,
    }
}

/// Reading a decimal number that must fit the non-negative range of a
/// signed 64-bit field.
pub open spec fn spec_parse_i64(s: Seq<char>, i: int) -> Option<(i64, int)> {
    match spec_parse_nat(s, i) {
        Some((n, j)) => if n <= i64::MAX as nat {
            Some((n as i64, j))
        } else {
            None
        },
        None => None,
    }
}

/// The result value of a digit run is at least the accumulator it started
/// from.
pub proof fn lemma_parse_digits_ge_acc(s: Seq<char>, i: int, acc: nat)
    ensures
        spec_parse_digits(s, i, acc).0 >= acc,
    decreases s.len() - i,
{
    if 0 <= i && i < s.len() && is_digit(s[i]) {
        lemma_parse_digits_ge_acc(s, i + 1, acc * 10 + digit_value(s[i]));
    }
}

/// Reads a fixed literal at position `i`.
fn parse_lit(s: &Vec<char>, i: usize, lit: &str) -> (r: Option<usize>)
    requires
        i <= s@.len(),
    ensures
        r matches Some(j) ==> spec_parse_lit(s@, i as int, lit@) == Some(j as int) && i <= j
            <= s@.len(),
        r is None ==> spec_parse_lit(s@, i as int, lit@) is None,
{
    let n = lit.unicode_len();
    if n > s.len() - i {
        return None;
    }
    let mut k: usize = 0;
    while k < n
        invariant
            n == lit@.len(),
            i + n <= s@.len(),
            s@.len() <= usize::MAX,
            k <= n,
            forall|m: int| 0 <= m < k ==> s@[i + m] == lit@[m],
        decreases n - k,
    {
        if s[i + k] != lit.get_char(k) {
            proof {
                assert(s@.subrange(i as int, i + n)[k as int] == s@[i + k]);
            }
            return None;
        }
        k = k + 1;
    }
    proof {
        assert(s@.subrange(i as int, i + n) =~= lit@);
    }
    Some(i + n)
}

/// Reads a quoted string field at position `i`.
fn parse_string(s: &Vec<char>, i: usize) -> (r: Option<(String, usize)>)
    requires
        i <= s@.len(),
    ensures
        r matches Some(p) ==> spec_parse_string(s@, i as int) == Some((p.0@, p.1 as int)) && i
            < p.1 <= s@.len(),
        r is None ==> spec_parse_string(s@, i as int) is None,
{
    if i >= s.len() || s[i] != '"' {
        return None;
    }
    let mut acc: Vec<char> = Vec::new();
    let mut pos: usize = i + 1;
    while pos < s.len()
        invariant
            i < s@.len(),
            s@[i as int] == '"',
            i + 1 <= pos <= s@.len(),
            spec_parse_string_rest(s@, pos as int, acc@) == spec_parse_string_rest(
                s@,
                i + 1,
                Seq::<char>::empty(),
            ),
        decreases s@.len() - pos,
    {
        let c = s[pos];
        if c == '"' {
            let out = chars_to_string(&acc);
            return Some((out, pos + 1));
        } else if c == '\\' {
            if pos + 1 < s.len() && (s[pos + 1] == '"' || s[pos + 1] == '\\') {
                acc.push(s[pos + 1]);
                pos = pos + 2;
            } else {
                return None;
            }
        } else {
            acc.push(c);
            pos = pos + 1;
        }
    }
    None
}

/// The numeric value of a digit character, ten for everything else.
fn digit_value_of(c: char) -> (r: u64)
    ensures
        r as nat == digit_value(c),
        r <= 10,
{
    match c {
        '0' => 0,
        '1' => 1,
        '2' => 2,
        '3' => 3,
        '4' => 4,
        '5' => 5,
        '6' => 6,
        '7' => 7,
        '8' => 8,
        '9' => 9,
        _ => 10,
    }
}

/// Reads a canonical decimal number as an unsigned 64-bit value at
/// position `i`.
fn parse_u64(s: &Vec<char>, i: usize) -> (r: Option<(u64, usize)>)
    requires
        i <= s@.len(),
    ensures
        r matches Some(p) ==> spec_parse_u64(s@, i as int) == Some((p.0, p.1 as int)) && i < p.1
            <= s@.len(),
        r is None ==> spec_parse_u64(s@, i as int) is None,
{
    if i >= s.len() {
        return None;
    }
    let first = digit_value_of(s[i]);
    if first == 10 {
        return None;
    }
    if first == 0 {
        return Some((0, i + 1));
    }
    let mut acc: u64 = 0;
    let mut pos: usize = i;
    loop
        invariant
            i < s@.len(),
            is_digit(s@[i as int]),
            s@[i as int] != '0',
            i <= pos <= s@.len(),
            spec_parse_digits(s@, pos as int, acc as nat) == spec_parse_digits(s@, i as int, 0),
        ensures
            spec_parse_digits(s@, i as int, 0) == (acc as nat, pos as int),
            i < pos <= s@.len(),
        decreases s@.len() - pos,
    {
        if pos >= s.len() {
            proof {
                assert(spec_parse_digits(s@, pos as int, acc as nat) == (acc as nat, pos as int));
            }
            break;
        }
        let d = digit_value_of(s[pos]);
        if d == 10 {
            proof {
                assert(!is_digit(s@[pos as int]));
                assert(spec_parse_digits(s@, pos as int, acc as nat) == (acc as nat, pos as int));
            }
            break;
        }
        proof {
            assert(is_digit(s@[pos as int]));
            assert(spec_parse_digits(s@, pos as int, acc as nat) == spec_parse_digits(
                s@,
                pos + 1,
                acc as nat * 10 + digit_value(s@[pos as int]),
            ));
        }
        if acc > (u64::MAX - d) / 10 {
            proof {
                let big = acc as nat * 10 + digit_value(s@[pos as int]);
                assert(acc as nat * 10 > u64::MAX as nat - digit_value(s@[pos as int]));
                assert(big > u64::MAX as nat);
                lemma_parse_digits_ge_acc(s@, pos + 1, big);
                assert(spec_parse_digits(s@, i as int, 0).0 > u64::MAX as nat);
            }
            return None;
        }
        acc = acc * 10 + d;
        pos = pos + 1;
    }
    Some((acc, pos))
}

/// Reads a decimal number that must fit an unsigned 32-bit field.
fn parse_u32(s: &Vec<char>, i: usize) -> (r: Option<(u32, usize)>)
    requires
        i <= s@.len(),
    ensures
        r matches Some(p) ==> spec_parse_u32(s@, i as int) == Some((p.0, p.1 as int)) && i < p.1
            <= s@.len(),
        r is None ==> spec_parse_u32(s@, i as int) is None,
{
    match parse_u64(s, i) {
        Some((n, j)) => if n <= u32::MAX as u64 {
            Some((n as u32, j))
        } else {
            None
        },
        None => None,
    }
}

/// Reading a field label followed by a string value.
pub open spec fn spec_parse_field_string(s: Seq<char>, i: int, lit: Seq<char>) -> Option<
    (Seq<char>, int),
> {
    match spec_parse_lit(s, i, lit) {
        Some(j) => spec_parse_string(s, j),
        None => None,
    }
}

/// Reading a field label followed by an unsigned 32-bit value.
pub open spec fn spec_parse_field_u32(s: Seq<char>, i: int, lit: Seq<char>) -> Option<(u32, int)> {
    match spec_parse_lit(s, i, lit) {
        Some(j) => spec_parse_u32(s, j),
        None => None,
    }
}

/// Reading a field label followed by an unsigned 64-bit value.
pub open spec fn spec_parse_field_u64(s: Seq<char>, i: int, lit: Seq<char>) -> Option<(u64, int)> {
    match spec_parse_lit(s, i, lit) {
        Some(j) => spec_parse_u64(s, j),
        None => None,
    }
}

/// Reading a field label followed by a non-negative signed 64-bit value.
pub open spec fn spec_parse_field_i64(s: Seq<char>, i: int, lit: Seq<char>) -> Option<(i64, int)> {
    match spec_parse_lit(s, i, lit) {
        Some(j) => spec_parse_i64(s, j),
        None => None,
    }
}

/// Reads a field label followed by a string value.
fn parse_field_string(s: &Vec<char>, i: usize, lit: &str) -> (r: Option<(String, usize)>)
    requires
        i <= s@.len(),
    ensures
        r matches Some(p) ==> spec_parse_field_string(s@, i as int, lit@) == Some((
            p.0@,
            p.1 as int,
        )) && i < p.1 <= s@.len(),
        r is None ==> spec_parse_field_string(s@, i as int, lit@) is None,
{
    match parse_lit(s, i, lit) {
        Some(j) => parse_string(s, j),
        None => None,
    }
}

/// Reads a field label followed by an unsigned 32-bit value.
fn parse_field_u32(s: &Vec<char>, i: usize, lit: &str) -> (r: Option<(u32, usize)>)
    requires
        i <= s@.len(),
    ensures
        r matches Some(p) ==> spec_parse_field_u32(s@, i as int, lit@) == Some((p.0, p.1 as int))
            && i < p.1 <= s@.len(),
        r is None ==> spec_parse_field_u32(s@, i as int, lit@) is None,
{
    match parse_lit(s, i, lit) {
        Some(j) => parse_u32(s, j),
        None => None,
    }
}

/// Reads a field label followed by an unsigned 64-bit value.
fn parse_field_u64(s: &Vec<char>, i: usize, lit: &str) -> (r: Option<(u64, usize)>)
    requires
        i <= s@.len(),
    ensures
        r matches Some(p) ==> spec_parse_field_u64(s@, i as int, lit@) == Some((p.0, p.1 as int))
            && i < p.1 <= s@.len(),
        r is None ==> spec_parse_field_u64(s@, i as int, lit@) is None,
{
    match parse_lit(s, i, lit) {
        Some(j) => parse_u64(s, j),
        None => None,
    }
}

/// Reads a field label followed by a non-negative signed 64-bit value.
fn parse_field_i64(s: &Vec<char>, i: usize, lit: &str) -> (r: Option<(i64, usize)>)
    requires
        i <= s@.len(),
    ensures
        r matches Some(p) ==> spec_parse_field_i64(s@, i as int, lit@) == Some((p.0, p.1 as int))
            && i < p.1 <= s@.len() && p.0 >= 0,
        r is None ==> spec_parse_field_i64(s@, i as int, lit@) is None,
{
    match parse_lit(s, i, lit) {
        Some(j) => parse_i64(s, j),
        None => None,
    }
}

/// Reads a decimal number that must fit the non-negative range of a signed
/// 64-bit field.
fn parse_i64(s: &Vec<char>, i: usize) -> (r: Option<(i64, usize)>)
    requires
        i <= s@.len(),
    ensures
        r matches Some(p) ==> spec_parse_i64(s@, i as int) == Some((p.0, p.1 as int)) && i < p.1
            <= s@.len() && p.0 >= 0,
        r is None ==> spec_parse_i64(s@, i as int) is None,
{
    match parse_u64(s, i) {
        Some((n, j)) => if n <= i64::MAX as u64 {
            Some((n as i64, j))
        } else {
            None
        },
        None => None,
    }
}

/// Reading a delivery record.
pub open spec fn spec_parse_delivery(s: Seq<char>, i: int) -> Option<(DeliveryView, int)> {
    match spec_parse_field_string(s, i, ("{\"name\":")@) {
        None => None,
        Some((name, i1)) => match spec_parse_field_string(s, i1, (",\"phone\":")@) {
            None => None,
            Some((phone, i2)) => match spec_parse_field_string(s, i2, (",\"zip\":")@) {
                None => None,
                Some((zip, i3)) => match spec_parse_field_string(s, i3, (",\"city\":")@) {
                    None => None,
                    Some((city, i4)) => match spec_parse_field_string(s, i4, (",\"address\":")@) {
                        None => None,
                        Some((address, i5)) => match spec_parse_field_string(
                            s,
                            i5,
                            (",\"region\":")@,
                        ) {
                            None => None,
                            Some((region, i6)) => match spec_parse_field_string(
                                s,
                                i6,
                                (",\"email\":")@,
                            ) {
                                None => None,
                                Some((email, i7)) => match spec_parse_lit(s, i7, ("}")@) {
                                    None => None,
                                    Some(i8) => Some(
                                        (
                                            DeliveryView {
                                                name,
                                                phone,
                                                zip,
                                                city,
                                                address,
                                                region,
                                                email,
                                            },
                                            i8,
                                        ),
                                    ),
                                },
                            },
                        },
                    },
                },
            },
        },
    }
}

/// Reading the string fields of a payment record.
pub open spec fn spec_parse_payment_head(s: Seq<char>, i: int) -> Option<
    ((Seq<char>, Seq<char>, Seq<char>, Seq<char>), int),
> {
    match spec_parse_field_string(s, i, ("{\"transaction\":")@) {
        None => None,
        Some((transaction, i1)) => match spec_parse_field_string(s, i1, (",\"request_id\":")@) {
            None => None,
            Some((request_id, i2)) => match spec_parse_field_string(s, i2, (",\"currency\":")@) {
                None => None,
                Some((currency, i3)) => match spec_parse_field_string(s, i3, (",\"provider\":")@) {
                    None => None,
                    Some((provider, i4)) => Some(((transaction, request_id, currency, provider), i4)),
                },
            },
        },
    }
}

/// Reading the amount fields of a payment record and the closing brace.
pub open spec fn spec_parse_payment_tail(s: Seq<char>, i: int) -> Option<
    ((u32, i64, Seq<char>, u32, u32, u32), int),
> {
    match spec_parse_field_u32(s, i, (",\"amount\":")@) {
        None => None,
        Some((amount, i1)) => match spec_parse_field_i64(s, i1, (",\"payment_dt\":")@) {
            None => None,
            Some((payment_dt, i2)) => match spec_parse_field_string(s, i2, (",\"bank\":")@) {
                None => None,
                Some((bank, i3)) => match spec_parse_field_u32(s, i3, (",\"delivery_cost\":")@) {
                    None => None,
                    Some((delivery_cost, i4)) => match spec_parse_field_u32(
                        s,
                        i4,
                        (",\"goods_total\":")@,
                    ) {
                        None => None,
                        Some((goods_total, i5)) => match spec_parse_field_u32(
                            s,
                            i5,
                            (",\"custom_fee\":")@,
                        ) {
                            None => None,
                            Some((custom_fee, i6)) => match spec_parse_lit(s, i6, ("}")@) {
                                None => None,
                                Some(i7) => Some(
                                    (
                                        (
                                            amount,
                                            payment_dt,
                                            bank,
                                            delivery_cost,
                                            goods_total,
                                            custom_fee,
                                        ),
                                        i7,
                                    ),
                                ),
                            },
                        },
                    },
                },
            },
        },
    }
}

/// Reading a payment record.
pub open spec fn spec_parse_payment(s: Seq<char>, i: int) -> Option<(PaymentView, int)> {
    match spec_parse_payment_head(s, i) {
        None => None,
        Some((h, j)) => match spec_parse_payment_tail(s, j) {
            None => None,
            Some((t, k)) => Some(
                (
                    PaymentView {
                        transaction: h.0,
                        request_id: h.1,
                        currency: h.2,
                        provider: h.3,
                        amount: t.0,
                        payment_dt: t.1,
                        bank: t.2,
                        delivery_cost: t.3,
                        goods_total: t.4,
                        custom_fee: t.5,
                    },
                    k,
                ),
            ),
        },
    }
}

/// Reading the identifying fields of a line item.
pub open spec fn spec_parse_item_head(s: Seq<char>, i: int) -> Option<
    ((u64, Seq<char>, u32, Seq<char>, Seq<char>), int),
> {
    match spec_parse_field_u64(s, i, ("{\"chrt_id\":")@) {
        None => None,
        Some((chrt_id, i1)) => match spec_parse_field_string(s, i1, (",\"track_number\":")@) {
            None => None,
            Some((track_number, i2)) => match spec_parse_field_u32(s, i2, (",\"price\":")@) {
                None => None,
                Some((price, i3)) => match spec_parse_field_string(s, i3, (",\"rid\":")@) {
                    None => None,
                    Some((rid, i4)) => match spec_parse_field_string(s, i4, (",\"name\":")@) {
                        None => None,
                        Some((name, i5)) => Some(((chrt_id, track_number, price, rid, name), i5)),
                    },
                },
            },
        },
    }
}

/// Reading the remaining fields of a line item and the closing brace.
pub open spec fn spec_parse_item_tail(s: Seq<char>, i: int) -> Option<
    ((u32, Seq<char>, u32, u64, Seq<char>, u32), int),
> {
    match spec_parse_field_u32(s, i, (",\"sale\":")@) {
        None => None,
        Some((sale, i1)) => match spec_parse_field_string(s, i1, (",\"size\":")@) {
            None => None,
            Some((size, i2)) => match spec_parse_field_u32(s, i2, (",\"total_price\":")@) {
                None => None,
                Some((total_price, i3)) => match spec_parse_field_u64(s, i3, (",\"nm_id\":")@) {
                    None => None,
                    Some((nm_id, i4)) => match spec_parse_field_string(s, i4, (",\"brand\":")@) {
                        None => None,
                        Some((brand, i5)) => match spec_parse_field_u32(s, i5, (",\"status\":")@) {
                            None => None,
                            Some((status, i6)) => match spec_parse_lit(s, i6, ("}")@) {
                                None => None,
                                Some(i7) => Some(
                                    ((sale, size, total_price, nm_id, brand, status), i7),
                                ),
                            },
                        },
                    },
                },
            },
        },
    }
}

/// Reading one line item.
pub open spec fn spec_parse_item(s: Seq<char>, i: int) -> Option<(ItemView, int)> {
    match spec_parse_item_head(s, i) {
        None => None,
        Some((h, j)) => match spec_parse_item_tail(s, j) {
            None => None,
            Some((t, k)) => Some(
                (
                    ItemView {
                        chrt_id: h.0,
                        track_number: h.1,
                        price: h.2,
                        rid: h.3,
                        name: h.4,
                        sale: t.0,
                        size: t.1,
                        total_price: t.2,
                        nm_id: t.3,
                        brand: t.4,
                        status: t.5,
                    },
                    k,
                ),
            ),
        },
    }
}

/// Reading the items after the first one, each preceded by a comma, until
/// the closing bracket.
pub open spec fn spec_parse_items_tail(s: Seq<char>, i: int, acc: Seq<ItemView>) -> Option<
    (Seq<ItemView>, int),
>
    decreases s.len() - i,
{
    if matches_at(s, i, ("]")@) {
        Some((acc, i + 1))
    } else if matches_at(s, i, (",")@) {
        match spec_parse_item(s, i + 1) {
            None => None,
            Some((it, j)) => if i + 1 < j && j <= s.len() {
                spec_parse_items_tail(s, j, acc.push(it))
            } else {
                None
            },
        }
    } else {
        None
    }
}

/// Reading the item array.
pub open spec fn spec_parse_items(s: Seq<char>, i: int) -> Option<(Seq<ItemView>, int)> {
    match spec_parse_lit(s, i, ("[")@) {
        None => None,
        Some(i1) => if matches_at(s, i1, ("]")@) {
            Some((Seq::empty(), i1 + 1))
        } else {
            match spec_parse_item(s, i1) {
                None => None,
                Some((it, i2)) => spec_parse_items_tail(s, i2, seq![it]),
            }
        },
    }
}

/// Reading the leading order fields, through the delivery record.
pub open spec fn spec_parse_order_head(s: Seq<char>, i: int) -> Option<
    ((Seq<char>, Seq<char>, Seq<char>, DeliveryView), int),
> {
    match spec_parse_field_string(s, i, ("{\"order_uid\":")@) {
        None => None,
        Some((order_uid, i1)) => match spec_parse_field_string(s, i1, (",\"track_number\":")@) {
            None => None,
            Some((track_number, i2)) => match spec_parse_field_string(s, i2, (",\"entry\":")@) {
                None => None,
                Some((entry, i3)) => match spec_parse_lit(s, i3, (",\"delivery\":")@) {
                    None => None,
                    Some(i4) => match spec_parse_delivery(s, i4) {
                        None => None,
                        Some((delivery, i5)) => Some(
                            ((order_uid, track_number, entry, delivery), i5),
                        ),
                    },
                },
            },
        },
    }
}

/// Reading the payment record and the item array of an order.
pub open spec fn spec_parse_order_mid(s: Seq<char>, i: int) -> Option<
    ((PaymentView, Seq<ItemView>), int),
> {
    match spec_parse_lit(s, i, (",\"payment\":")@) {
        None => None,
        Some(i1) => match spec_parse_payment(s, i1) {
            None => None,
            Some((payment, i2)) => match spec_parse_lit(s, i2, (",\"items\":")@) {
                None => None,
                Some(i3) => match spec_parse_items(s, i3) {
                    None => None,
                    Some((items, i4)) => Some(((payment, items), i4)),
                },
            },
        },
    }
}

/// Reading the trailing scalar order fields and the closing brace.
pub open spec fn spec_parse_order_tail(s: Seq<char>, i: int) -> Option<
    ((Seq<char>, Seq<char>, Seq<char>, Seq<char>, Seq<char>, u64, Seq<char>, Seq<char>), int),
> {
    match spec_parse_field_string(s, i, (",\"locale\":")@) {
        None => None,
        Some((locale, i1)) => match spec_parse_field_string(s, i1, (",\"internal_signature\":")@) {
            None => None,
            Some((internal_signature, i2)) => match spec_parse_field_string(
                s,
                i2,
                (",\"customer_id\":")@,
            ) {
                None => None,
                Some((customer_id, i3)) => match spec_parse_field_string(
                    s,
                    i3,
                    (",\"delivery_service\":")@,
                ) {
                    None => None,
                    Some((delivery_service, i4)) => match spec_parse_field_string(
                        s,
                        i4,
                        (",\"shardkey\":")@,
                    ) {
                        None => None,
                        Some((shardkey, i5)) => match spec_parse_field_u64(s, i5, (",\"sm_id\":")@) {
                            None => None,
                            Some((sm_id, i6)) => match spec_parse_field_string(
                                s,
                                i6,
                                (",\"date_created\":")@,
                            ) {
                                None => None,
                                Some((date_created, i7)) => match spec_parse_field_string(
                                    s,
                                    i7,
                                    (",\"oof_shard\":")@,
                                ) {
                                    None => None,
                                    Some((oof_shard, i8)) => match spec_parse_lit(s, i8, ("}")@) {
                                        None => None,
                                        Some(i9) => Some(
                                            (
                                                (
                                                    locale,
                                                    internal_signature,
                                                    customer_id,
                                                    delivery_service,
                                                    shardkey,
                                                    sm_id,
                                                    date_created,
                                                    oof_shard,
                                                ),
                                                i9,
                                            ),
                                        ),
                                    },
                                },
                            },
                        },
                    },
                },
            },
        },
    }
}

/// Reads a delivery record at position `i`.
fn parse_delivery(s: &Vec<char>, i: usize) -> (r: Option<(DeliveryInfo, usize)>)
    requires
        i <= s@.len(),
    ensures
        r matches Some(p) ==> spec_parse_delivery(s@, i as int) == Some((p.0@, p.1 as int)) && i
            < p.1 <= s@.len(),
        r is None ==> spec_parse_delivery(s@, i as int) is None,
{
    let (name, i1) = match parse_field_string(s, i, "{\"name\":") {
        Some(x) => x,
        None => return None,
    };
    let (phone, i2) = match parse_field_string(s, i1, ",\"phone\":") {
        Some(x) => x,
        None => return None,
    };
    let (zip, i3) = match parse_field_string(s, i2, ",\"zip\":") {
        Some(x) => x,
        None => return None,
    };
    let (city, i4) = match parse_field_string(s, i3, ",\"city\":") {
        Some(x) => x,
        None => return None,
    };
    let (address, i5) = match parse_field_string(s, i4, ",\"address\":") {
        Some(x) => x,
        None => return None,
    };
    let (region, i6) = match parse_field_string(s, i5, ",\"region\":") {
        Some(x) => x,
        None => return None,
    };
    let (email, i7) = match parse_field_string(s, i6, ",\"email\":") {
        Some(x) => x,
        None => return None,
    };
    let i8 = match parse_lit(s, i7, "}") {
        Some(x) => x,
        None => return None,
    };
    Some((DeliveryInfo { name, phone, zip, city, address, region, email }, i8))
}

/// Reads a payment record at position `i`.
fn parse_payment(s: &Vec<char>, i: usize) -> (r: Option<(PaymentInfo, usize)>)
    requires
        i <= s@.len(),
    ensures
        r matches Some(p) ==> spec_parse_payment(s@, i as int) == Some((p.0@, p.1 as int)) && i
            < p.1 <= s@.len(),
        r is None ==> spec_parse_payment(s@, i as int) is None,
{
    let (transaction, i1) = match parse_field_string(s, i, "{\"transaction\":") {
        Some(x) => x,
        None => return None,
    };
    let (request_id, i2) = match parse_field_string(s, i1, ",\"request_id\":") {
        Some(x) => x,
        None => return None,
    };
    let (currency, i3) = match parse_field_string(s, i2, ",\"currency\":") {
        Some(x) => x,
        None => return None,
    };
    let (provider, i4) = match parse_field_string(s, i3, ",\"provider\":") {
        Some(x) => x,
        None => return None,
    };
    proof {
        assert(spec_parse_payment_head(s@, i as int) == Some(
            ((transaction@, request_id@, currency@, provider@), i4 as int),
        ));
    }
    let (amount, i5) = match parse_field_u32(s, i4, ",\"amount\":") {
        Some(x) => x,
        None => return None,
    };
    let (payment_dt, i6) = match parse_field_i64(s, i5, ",\"payment_dt\":") {
        Some(x) => x,
        None => return None,
    };
    let (bank, i7) = match parse_field_string(s, i6, ",\"bank\":") {
        Some(x) => x,
        None => return None,
    };
    let (delivery_cost, i8) = match parse_field_u32(s, i7, ",\"delivery_cost\":") {
        Some(x) => x,
        None => return None,
    };
    let (goods_total, i9) = match parse_field_u32(s, i8, ",\"goods_total\":") {
        Some(x) => x,
        None => return None,
    };
    let (custom_fee, i10) = match parse_field_u32(s, i9, ",\"custom_fee\":") {
        Some(x) => x,
        None => return None,
    };
    let i11 = match parse_lit(s, i10, "}") {
        Some(x) => x,
        None => return None,
    };
    Some(
        (
            PaymentInfo {
                transaction,
                request_id,
                currency,
                provider,
                amount,
                payment_dt,
                bank,
                delivery_cost,
                goods_total,
                custom_fee,
            },
            i11,
        ),
    )
}

/// Reads one line item at position `i`.
fn parse_item(s: &Vec<char>, i: usize) -> (r: Option<(ItemsInfo, usize)>)
    requires
        i <= s@.len(),
    ensures
        r matches Some(p) ==> spec_parse_item(s@, i as int) == Some((p.0@, p.1 as int)) && i < p.1
            <= s@.len(),
        r is None ==> spec_parse_item(s@, i as int) is None,
{
    let (chrt_id, i1) = match parse_field_u64(s, i, "{\"chrt_id\":") {
        Some(x) => x,
        None => return None,
    };
    let (track_number, i2) = match parse_field_string(s, i1, ",\"track_number\":") {
        Some(x) => x,
        None => return None,
    };
    let (price, i3) = match parse_field_u32(s, i2, ",\"price\":") {
        Some(x) => x,
        None => return None,
    };
    let (rid, i4) = match parse_field_string(s, i3, ",\"rid\":") {
        Some(x) => x,
        None => return None,
    };
    let (name, i5) = match parse_field_string(s, i4, ",\"name\":") {
        Some(x) => x,
        None => return None,
    };
    proof {
        assert(spec_parse_item_head(s@, i as int) == Some(
            ((chrt_id, track_number@, price, rid@, name@), i5 as int),
        ));
    }
    let (sale, i6) = match parse_field_u32(s, i5, ",\"sale\":") {
        Some(x) => x,
        None => return None,
    };
    let (size, i7) = match parse_field_string(s, i6, ",\"size\":") {
        Some(x) => x,
        None => return None,
    };
    let (total_price, i8) = match parse_field_u32(s, i7, ",\"total_price\":") {
        Some(x) => x,
        None => return None,
    };
    let (nm_id, i9) = match parse_field_u64(s, i8, ",\"nm_id\":") {
        Some(x) => x,
        None => return None,
    };
    let (brand, i10) = match parse_field_string(s, i9, ",\"brand\":") {
        Some(x) => x,
        None => return None,
    };
    let (status, i11) = match parse_field_u32(s, i10, ",\"status\":") {
        Some(x) => x,
        None => return None,
    };
    let i12 = match parse_lit(s, i11, "}") {
        Some(x) => x,
        None => return None,
    };
    Some(
        (
            ItemsInfo {
                chrt_id,
                track_number,
                price,
                rid,
                name,
                sale,
                size,
                total_price,
                nm_id,
                brand,
                status,
            },
            i12,
        ),
    )
}

/// Reads the item array at position `i`.
fn parse_items(s: &Vec<char>, i: usize) -> (r: Option<(Vec<ItemsInfo>, usize)>)
    requires
        i <= s@.len(),
    ensures
        r matches Some(p) ==> spec_parse_items(s@, i as int) == Some((
            items_view(p.0@),
            p.1 as int,
        )) && i < p.1 <= s@.len(),
        r is None ==> spec_parse_items(s@, i as int) is None,
{
    let i1 = match parse_lit(s, i, "[") {
        Some(x) => x,
        None => return None,
    };
    proof {
        reveal_strlit("]");
    }
    if i1 < s.len() && s[i1] == ']' {
        proof {
            assert(s@.subrange(i1 as int, i1 + 1) =~= ("]")@);
            assert(matches_at(s@, i1 as int, ("]")@));
            assert(items_view(Seq::<ItemsInfo>::empty()) =~= Seq::<ItemView>::empty());
        }
        let empty: Vec<ItemsInfo> = Vec::new();
        return Some((empty, i1 + 1));
    }
    proof {
        if matches_at(s@, i1 as int, ("]")@) {
            assert(s@.subrange(i1 as int, i1 + 1)[0] == s@[i1 as int]);
            assert(false);
        }
    }
    let (first, i2) = match parse_item(s, i1) {
        Some(x) => x,
        None => return None,
    };
    let mut acc: Vec<ItemsInfo> = Vec::new();
    acc.push(first);
    proof {
        assert(items_view(acc@) =~= seq![first@]);
        assert(spec_parse_items(s@, i as int) == spec_parse_items_tail(
            s@,
            i2 as int,
            items_view(acc@),
        ));
    }
    let mut pos: usize = i2;
    loop
        invariant
            i < pos <= s@.len(),
            s@.len() <= usize::MAX,
            spec_parse_items_tail(s@, pos as int, items_view(acc@)) == spec_parse_items(
                s@,
                i as int,
            ),
        decreases s@.len() - pos,
    {
        proof {
            reveal_strlit("]");
            reveal_strlit(",");
        }
        if pos < s.len() && s[pos] == ']' {
            proof {
                assert(s@.subrange(pos as int, pos + 1) =~= ("]")@);
                assert(matches_at(s@, pos as int, ("]")@));
            }
            return Some((acc, pos + 1));
        }
        proof {
            if matches_at(s@, pos as int, ("]")@) {
                assert(s@.subrange(pos as int, pos + 1)[0] == s@[pos as int]);
                assert(false);
            }
        }
        if pos < s.len() && s[pos] == ',' {
            proof {
                assert(s@.subrange(pos as int, pos + 1) =~= (",")@);
                assert(matches_at(s@, pos as int, (",")@));
            }
            let (it, j) = match parse_item(s, pos + 1) {
                Some(x) => x,
                None => return None,
            };
            let ghost prev = acc@;
            acc.push(it);
            proof {
                assert(items_view(acc@) =~= items_view(prev).push(it@));
                assert(spec_parse_items_tail(s@, pos as int, items_view(prev))
                    == spec_parse_items_tail(s@, j as int, items_view(acc@)));
            }
            pos = j;
        } else {
            proof {
                if matches_at(s@, pos as int, (",")@) {
                    assert(s@.subrange(pos as int, pos + 1)[0] == s@[pos as int]);
                    assert(false);
                }
            }
            return None;
        }
    }
}

/// Reading a whole order document.
pub open spec fn spec_parse_order(s: Seq<char>, i: int) -> Option<(OrderView, int)> {
    match spec_parse_order_head(s, i) {
        None => None,
        Some((h, j)) => match spec_parse_order_mid(s, j) {
            None => None,
            Some((m, k)) => match spec_parse_order_tail(s, k) {
                None => None,
                Some((t, l)) => Some(
                    (
                        OrderView {
                            order_uid: h.0,
                            track_number: h.1,
                            entry: h.2,
                            delivery: h.3,
                            payment: m.0,
                            items: m.1,
                            locale: t.0,
                            internal_signature: t.1,
                            customer_id: t.2,
                            delivery_service: t.3,
                            shardkey: t.4,
                            sm_id: t.5,
                            date_created: t.6,
                            oof_shard: t.7,
                        },
                        l,
                    ),
                ),
            },
        },
    }
}

/// Reads a whole order document at position `i`.
pub(crate) fn parse_order(s: &Vec<char>, i: usize) -> (r: Option<(Order, usize)>)
    requires
        i <= s@.len(),
    ensures
        r matches Some(p) ==> spec_parse_order(s@, i as int) == Some((p.0@, p.1 as int)) && i
            < p.1 <= s@.len(),
        r is None ==> spec_parse_order(s@, i as int) is None,
{
    let (order_uid, i1) = match parse_field_string(s, i, "{\"order_uid\":") {
        Some(x) => x,
        None => return None,
    };
    let (track_number, i2) = match parse_field_string(s, i1, ",\"track_number\":") {
        Some(x) => x,
        None => return None,
    };
    let (entry, i3) = match parse_field_string(s, i2, ",\"entry\":") {
        Some(x) => x,
        None => return None,
    };
    let i4 = match parse_lit(s, i3, ",\"delivery\":") {
        Some(x) => x,
        None => return None,
    };
    let (delivery, i5) = match parse_delivery(s, i4) {
        Some(x) => x,
        None => return None,
    };
    proof {
        assert(spec_parse_order_head(s@, i as int) == Some(
            ((order_uid@, track_number@, entry@, delivery@), i5 as int),
        ));
    }
    let i6 = match parse_lit(s, i5, ",\"payment\":") {
        Some(x) => x,
        None => return None,
    };
    let (payment, i7) = match parse_payment(s, i6) {
        Some(x) => x,
        None => return None,
    };
    let i8 = match parse_lit(s, i7, ",\"items\":") {
        Some(x) => x,
        None => return None,
    };
    let (items, i9) = match parse_items(s, i8) {
        Some(x) => x,
        None => return None,
    };
    proof {
        assert(spec_parse_order_mid(s@, i5 as int) == Some(
            ((payment@, items_view(items@)), i9 as int),
        ));
    }
    let (locale, i10) = match parse_field_string(s, i9, ",\"locale\":") {
        Some(x) => x,
        None => return None,
    };
    let (internal_signature, i11) = match parse_field_string(s, i10, ",\"internal_signature\":") {
        Some(x) => x,
        None => return None,
    };
    let (customer_id, i12) = match parse_field_string(s, i11, ",\"customer_id\":") {
        Some(x) => x,
        None => return None,
    };
    let (delivery_service, i13) = match parse_field_string(s, i12, ",\"delivery_service\":") {
        Some(x) => x,
        None => return None,
    };
    let (shardkey, i14) = match parse_field_string(s, i13, ",\"shardkey\":") {
        Some(x) => x,
        None => return None,
    };
    let (sm_id, i15) = match parse_field_u64(s, i14, ",\"sm_id\":") {
        Some(x) => x,
        None => return None,
    };
    let (date_created, i16) = match parse_field_string(s, i15, ",\"date_created\":") {
        Some(x) => x,
        None => return None,
    };
    let (oof_shard, i17) = match parse_field_string(s, i16, ",\"oof_shard\":") {
        Some(x) => x,
        None => return None,
    };
    let i18 = match parse_lit(s, i17, "}") {
        Some(x) => x,
        None => return None,
    };
    Some(
        (
            Order {
                order_uid,
                track_number,
                entry,
                delivery,
                payment,
                items,
                locale,
                internal_signature,
                customer_id,
                delivery_service,
                shardkey,
                sm_id,
                date_created,
                oof_shard,
            },
            i18,
        ),
    )
}

} // verus!
