//! The two directions that tie the encoder and the parser together: every
//! canonical encoding parses back to the document it came from (round trip),
//! and whatever the parser accepts is the canonical encoding of its result
//! (soundness). On top of them this module offers `decode_order`, whose
//! contract pins down exactly which texts decode and to what.

use vstd::prelude::*;

use crate::chars::string_to_chars;
use crate::encode::{
    dec_digits, digit_char, digit_value, enc_delivery, enc_delivery_address, enc_delivery_city,
    enc_delivery_email, enc_delivery_phone, enc_delivery_region, enc_delivery_zip, enc_i64,
    enc_item, enc_item_brand, enc_item_name, enc_item_nm_id, enc_item_price, enc_item_rid,
    enc_item_sale, enc_item_size, enc_item_status, enc_item_total_price, enc_item_track,
    enc_items, enc_items_inner, enc_items_tail, enc_order, enc_order_customer, enc_order_date,
    enc_order_delivery, enc_order_entry, enc_order_items, enc_order_locale, enc_order_oof,
    enc_order_payment, enc_order_service, enc_order_shardkey, enc_order_signature,
    enc_order_sm_id, enc_order_track, enc_payment, enc_payment_amount, enc_payment_bank,
    enc_payment_currency, enc_payment_custom_fee, enc_payment_delivery_cost, enc_payment_dt,
    enc_payment_goods_total, enc_payment_provider, enc_payment_request_id, enc_string, enc_u32,
    enc_u64, esc_char, esc_seq, is_digit,
};
use crate::parse::{
    matches_at, parse_order, spec_parse_delivery, spec_parse_digits, spec_parse_field_i64,
    spec_parse_field_string, spec_parse_field_u32, spec_parse_field_u64, spec_parse_i64,
    spec_parse_item, spec_parse_item_head, spec_parse_item_tail, spec_parse_items,
    spec_parse_items_tail, spec_parse_lit, spec_parse_nat, spec_parse_order,
    spec_parse_order_head, spec_parse_order_mid, spec_parse_order_tail, spec_parse_payment,
    spec_parse_payment_head, spec_parse_payment_tail, spec_parse_string, spec_parse_string_rest,
    spec_parse_u32, spec_parse_u64,
};
use crate::schema::{valid_order, DeliveryView, ItemView, Order, OrderView, PaymentView};

verus! {

/// A concatenation occurs at a position exactly when its parts occur one
/// after the other.
pub proof fn lemma_matches_at_split(s: Seq<char>, i: int, a: Seq<char>, b: Seq<char>)
    requires
        matches_at(s, i, a + b),
    ensures
        matches_at(s, i, a),
        matches_at(s, i + a.len(), b),
{
    assert(s.subrange(i, i + a.len() + b.len()) == a + b);
    assert forall|k: int| 0 <= k < a.len() implies s.subrange(i, i + a.len())[k] == a[k] by {
        assert(s.subrange(i, i + a.len() + b.len())[k] == (a + b)[k]);
    }
    assert(s.subrange(i, i + a.len()) =~= a);
    assert forall|k: int| 0 <= k < b.len() implies s.subrange(
        i + a.len(),
        i + a.len() + b.len(),
    )[k] == b[k] by {
        assert(s.subrange(i, i + a.len() + b.len())[a.len() + k] == (a + b)[a.len() + k]);
    }
    assert(s.subrange(i + a.len(), i + a.len() + b.len()) =~= b);
}

/// Two adjacent occurrences join into one occurrence of the concatenation.
pub proof fn lemma_matches_at_join(s: Seq<char>, i: int, a: Seq<char>, b: Seq<char>)
    requires
        matches_at(s, i, a),
        matches_at(s, i + a.len(), b),
    ensures
        matches_at(s, i, a + b),
{
    assert forall|k: int| 0 <= k < a.len() + b.len() implies s.subrange(
        i,
        i + (a + b).len(),
    )[k] == (a + b)[k] by {
        if k < a.len() {
            assert(s.subrange(i, i + a.len())[k] == a[k]);
        } else {
            assert(s.subrange(i + a.len(), i + a.len() + b.len())[k - a.len()] == b[k - a.len()]);
        }
    }
    assert(s.subrange(i, i + (a + b).len()) =~= a + b);
}

/// A literal, a body and a remainder occurring in a row: the literal parses
/// and the body and remainder occur at their positions.
pub proof fn lemma_lit_then(s: Seq<char>, i: int, lit: Seq<char>, body: Seq<char>, rest: Seq<char>)
    requires
        matches_at(s, i, lit + (body + rest)),
    ensures
        matches_at(s, i, lit),
        spec_parse_lit(s, i, lit) == Some(i + lit.len()),
        matches_at(s, i + lit.len(), body),
        matches_at(s, i + lit.len() + body.len(), rest),
{
    lemma_matches_at_split(s, i, lit, body + rest);
    lemma_matches_at_split(s, i + lit.len(), body, rest);
}

/// Three adjacent occurrences assemble into the right-nested concatenation
/// that the encoding chains use.
pub proof fn lemma_assemble(s: Seq<char>, i: int, a: Seq<char>, b: Seq<char>, c: Seq<char>)
    requires
        matches_at(s, i, a),
        matches_at(s, i + a.len(), b),
        matches_at(s, i + a.len() + b.len(), c),
    ensures
        matches_at(s, i, a + (b + c)),
{
    lemma_matches_at_join(s, i + a.len(), b, c);
    lemma_matches_at_join(s, i, a, b + c);
}

/// Powers of ten.
pub open spec fn pow10(k: nat) -> nat
    decreases k,
{
    if k == 0 {
        1
    } else {
        10 * pow10((k - 1) as nat)
    }
}

/// The numeric value of a digit string, most significant digit first.
pub open spec fn seq_val(ds: Seq<char>) -> nat
    decreases ds.len(),
{
    if ds.len() == 0 {
        0
    } else {
        seq_val(ds.drop_last()) * 10 + digit_value(ds.last())
    }
}

/// The decimal representation consists of digits, is non-empty, and has no
/// leading zero unless the value itself is zero.
pub proof fn lemma_dec_digits_wf(n: nat)
    ensures
        dec_digits(n).len() >= 1,
        forall|k: int| 0 <= k < dec_digits(n).len() ==> is_digit(#[trigger] dec_digits(n)[k]),
        n > 0 ==> dec_digits(n)[0] != '0',
    decreases n,
{
    if n >= 10 {
        lemma_dec_digits_wf(n / 10);
        assert forall|k: int| 0 <= k < dec_digits(n).len() implies is_digit(
            #[trigger] dec_digits(n)[k],
        ) by {
            if k < dec_digits(n / 10).len() {
                assert(dec_digits(n)[k] == dec_digits(n / 10)[k]);
            } else {
                assert(dec_digits(n)[k] == digit_char(n % 10));
            }
        }
        assert(dec_digits(n)[0] == dec_digits(n / 10)[0]);
    }
}

/// The value of a digit string, peeling the most significant digit.
pub proof fn lemma_seq_val_peel_first(ds: Seq<char>)
    requires
        ds.len() > 0,
    ensures
        seq_val(ds) == digit_value(ds[0]) * pow10((ds.len() - 1) as nat) + seq_val(
            ds.drop_first(),
        ),
    decreases ds.len(),
{
    if ds.len() == 1 {
        assert(ds.drop_last() =~= Seq::<char>::empty());
        assert(ds.drop_first() =~= Seq::<char>::empty());
        assert(pow10(0) == 1);
        assert(seq_val(Seq::<char>::empty()) == 0);
        assert(seq_val(ds) == digit_value(ds.last()));
        assert(ds.last() == ds[0]);
        assert(seq_val(ds) == digit_value(ds[0]) * pow10((ds.len() - 1) as nat) + seq_val(
            ds.drop_first(),
        )) by (nonlinear_arith)
            requires
                seq_val(ds) == digit_value(ds[0]),
                pow10((ds.len() - 1) as nat) == 1,
                seq_val(ds.drop_first()) == 0,
        ;
    } else {
        let p = ds.drop_last();
        lemma_seq_val_peel_first(p);
        assert(p[0] == ds[0]);
        assert(p.drop_first() =~= ds.drop_first().drop_last());
        assert(ds.drop_first().last() == ds.last());
        assert(ds.drop_first().len() > 0);
        assert(seq_val(ds.drop_first()) == seq_val(ds.drop_first().drop_last()) * 10
            + digit_value(ds.drop_first().last()));
        let d0 = digit_value(ds[0]);
        let q = seq_val(p.drop_first());
        let pk = pow10((p.len() - 1) as nat);
        assert(pow10((ds.len() - 1) as nat) == 10 * pk);
        assert(seq_val(ds) == (d0 * pk + q) * 10 + digit_value(ds.last()));
        assert((d0 * pk + q) * 10 + digit_value(ds.last()) == d0 * (10 * pk) + (q * 10
            + digit_value(ds.last()))) by (nonlinear_arith);
    }
}

/// A digit string with a nonzero leading digit has a positive value.
pub proof fn lemma_seq_val_positive(ds: Seq<char>)
    requires
        ds.len() > 0,
        is_digit(ds[0]),
        ds[0] != '0',
    ensures
        seq_val(ds) >= 1,
    decreases ds.len(),
{
    if ds.len() == 1 {
        assert(ds.last() == ds[0]);
    } else {
        let p = ds.drop_last();
        assert(p[0] == ds[0]);
        lemma_seq_val_positive(p);
    }
}

/// The decimal representation of the value of a digit string without a
/// leading zero is that string itself.
pub proof fn lemma_dec_digits_of_run(ds: Seq<char>)
    requires
        ds.len() > 0,
        forall|k: int| 0 <= k < ds.len() ==> is_digit(#[trigger] ds[k]),
        ds[0] != '0',
    ensures
        dec_digits(seq_val(ds)) == ds,
    decreases ds.len(),
{
    let c = ds.last();
    let v = seq_val(ds);
    assert(is_digit(c));
    if ds.len() == 1 {
        assert(ds.drop_last() =~= Seq::<char>::empty());
        assert(seq_val(Seq::<char>::empty()) == 0);
        assert(v == digit_value(c));
        assert(digit_char(digit_value(c)) == c);
        assert(dec_digits(v) =~= ds);
    } else {
        let p = ds.drop_last();
        assert(p[0] == ds[0]);
        assert(forall|k: int| 0 <= k < p.len() ==> is_digit(#[trigger] p[k]));
        lemma_seq_val_positive(p);
        let w = seq_val(p);
        assert(v == w * 10 + digit_value(c));
        assert(w >= 1);
        assert(v >= 10);
        assert(v / 10 == w && v % 10 == digit_value(c)) by (nonlinear_arith)
            requires
                v == w * 10 + digit_value(c),
                digit_value(c) < 10,
        ;
        lemma_dec_digits_of_run(p);
        assert(dec_digits(v) == dec_digits(w) + seq![digit_char(digit_value(c))]);
        assert(digit_char(digit_value(c)) == c);
        assert(dec_digits(w) + seq![c] =~= ds);
    }
}

/// Running the digit reader over the representation of `n` folds `n` onto
/// the accumulator and moves past it.
pub proof fn lemma_parse_digits_shift(s: Seq<char>, i: int, acc: nat, n: nat)
    requires
        matches_at(s, i, dec_digits(n)),
    ensures
        spec_parse_digits(s, i, acc) == spec_parse_digits(
            s,
            i + dec_digits(n).len(),
            acc * pow10(dec_digits(n).len()) + n,
        ),
    decreases n,
{
    lemma_dec_digits_wf(n);
    if n < 10 {
        assert(s.subrange(i, i + 1)[0] == s[i]);
        assert(s[i] == digit_char(n));
        assert(is_digit(s[i]));
        assert(digit_value(digit_char(n)) == n);
        assert(pow10(1) == 10 * pow10(0));
        assert(spec_parse_digits(s, i, acc) == spec_parse_digits(s, i + 1, acc * 10 + n));
    } else {
        let a = dec_digits(n / 10);
        let b = seq![digit_char(n % 10)];
        lemma_matches_at_split(s, i, a, b);
        lemma_parse_digits_shift(s, i, acc, n / 10);
        let l1 = a.len();
        let m = acc * pow10(l1) + n / 10;
        assert(s.subrange(i + l1, i + l1 + 1)[0] == s[i + l1]);
        assert(s[i + l1] == digit_char(n % 10));
        assert(is_digit(s[i + l1]));
        assert(digit_value(digit_char(n % 10)) == n % 10);
        assert(spec_parse_digits(s, i + l1, m) == spec_parse_digits(s, i + l1 + 1, m * 10 + n
            % 10));
        assert(pow10(l1 + 1) == 10 * pow10(l1));
        assert((acc * pow10(l1) + n / 10) * 10 + n % 10 == acc * (10 * pow10(l1)) + n)
            by (nonlinear_arith)
            requires
                n == (n / 10) * 10 + n % 10,
        ;
        assert(dec_digits(n).len() == l1 + 1);
    }
}

/// Reading a number at the start of its canonical representation, with no
/// digit following it, yields exactly that number.
pub proof fn lemma_parse_nat_rt(s: Seq<char>, i: int, n: nat)
    requires
        matches_at(s, i, dec_digits(n)),
        i + dec_digits(n).len() == s.len() || !is_digit(s[i + dec_digits(n).len()]),
    ensures
        spec_parse_nat(s, i) == Some((n, i + dec_digits(n).len())),
{
    lemma_dec_digits_wf(n);
    assert(s.subrange(i, i + dec_digits(n).len())[0] == s[i]);
    assert(s[i] == dec_digits(n)[0]);
    assert(is_digit(s[i]));
    if n == 0 {
        assert(dec_digits(0) == seq![digit_char(0)]);
        assert(s[i] == '0');
    } else {
        assert(s[i] != '0');
        lemma_parse_digits_shift(s, i, 0, n);
        let j = i + dec_digits(n).len();
        assert(0 * pow10(dec_digits(n).len()) == 0) by (nonlinear_arith);
        assert(spec_parse_digits(s, i, 0) == spec_parse_digits(s, j, n));
        assert(spec_parse_digits(s, j, n) == (n, j));
    }
}

/// The digit reader consumes a maximal digit run and computes its value on
/// top of the accumulator.
pub proof fn lemma_parse_digits_run(s: Seq<char>, i: int, acc: nat)
    requires
        0 <= i <= s.len(),
    ensures
        ({
            let (v, j) = spec_parse_digits(s, i, acc);
            &&& i <= j <= s.len()
            &&& (j == s.len() || !is_digit(s[j]))
            &&& forall|k: int| i <= k < j ==> is_digit(#[trigger] s[k])
            &&& v == acc * pow10((j - i) as nat) + seq_val(s.subrange(i, j))
            &&& (i < s.len() && is_digit(s[i]) ==> j > i)
        }),
    decreases s.len() - i,
{
    let (v, j) = spec_parse_digits(s, i, acc);
    if i < s.len() && is_digit(s[i]) {
        let d = digit_value(s[i]);
        assert(spec_parse_digits(s, i, acc) == spec_parse_digits(s, i + 1, acc * 10 + d));
        lemma_parse_digits_run(s, i + 1, acc * 10 + d);
        assert((v, j) == spec_parse_digits(s, i + 1, acc * 10 + d));
        let r = s.subrange(i, j);
        let r1 = s.subrange(i + 1, j);
        assert(v == (acc * 10 + d) * pow10((j - i - 1) as nat) + seq_val(r1));
        assert(r.len() > 0);
        assert(r[0] == s[i]);
        assert(r.drop_first() =~= r1);
        lemma_seq_val_peel_first(r);
        assert(seq_val(r) == d * pow10((j - i - 1) as nat) + seq_val(r1));
        let pk = pow10((j - i - 1) as nat);
        assert(pow10((j - i) as nat) == 10 * pk);
        assert((acc * 10 + d) * pk + seq_val(r1) == acc * (10 * pk) + (d * pk + seq_val(r1)))
            by (nonlinear_arith);
        assert(v == acc * pow10((j - i) as nat) + seq_val(r));
        assert forall|k: int| i <= k < j implies is_digit(#[trigger] s[k]) by {
            if k > i {
                assert(is_digit(s[k]));
            } else {
                assert(s[k] == s[i]);
            }
        }
    } else {
        assert(s.subrange(i, i) =~= Seq::<char>::empty());
        assert(seq_val(Seq::<char>::empty()) == 0);
        assert(pow10(0) == 1);
        assert((v, j) == (acc, i));
        assert(seq_val(s.subrange(i, j)) == 0);
        assert(pow10((j - i) as nat) == 1);
        assert(v == acc * pow10((j - i) as nat) + seq_val(s.subrange(i, j)))
            by (nonlinear_arith)
            requires
                v == acc,
                pow10((j - i) as nat) == 1,
                seq_val(s.subrange(i, j)) == 0,
        ;
    }
}

/// Whatever the number reader accepts is the canonical representation of
/// its result.
pub proof fn lemma_parse_nat_sound(s: Seq<char>, i: int, n: nat, j: int)
    requires
        spec_parse_nat(s, i) == Some((n, j)),
        i <= s.len(),
    ensures
        matches_at(s, i, dec_digits(n)),
        j == i + dec_digits(n).len(),
        i < j <= s.len(),
{
    assert(0 <= i < s.len() && is_digit(s[i]));
    if s[i] == '0' {
        assert(n == 0 && j == i + 1);
        assert(dec_digits(0) == seq![digit_char(0)]);
        assert(s.subrange(i, i + 1) =~= seq!['0']);
    } else {
        lemma_parse_digits_run(s, i, 0);
        let r = s.subrange(i, j);
        assert(r[0] == s[i]);
        assert(n == 0 * pow10((j - i) as nat) + seq_val(r));
        assert(0 * pow10((j - i) as nat) == 0) by (nonlinear_arith);
        lemma_dec_digits_of_run(r);
        assert(dec_digits(n) == r);
    }
}

/// Reading a string body at the start of its escaped form appends the
/// string to the accumulator and stops right after the closing quote.
pub proof fn lemma_parse_string_rest_rt(s: Seq<char>, i: int, acc: Seq<char>, v: Seq<char>)
    requires
        matches_at(s, i, esc_seq(v) + seq!['"']),
    ensures
        spec_parse_string_rest(s, i, acc) == Some((acc + v, i + esc_seq(v).len() + 1)),
    decreases v.len(),
{
    if v.len() == 0 {
        assert(esc_seq(v) + seq!['"'] =~= seq!['"']);
        assert(s.subrange(i, i + 1)[0] == s[i]);
        assert(s[i] == '"');
        assert(spec_parse_string_rest(s, i, acc) == Some((acc, i + 1)));
        assert(acc + v =~= acc);
    } else {
        let v0 = v[0];
        let vr = v.drop_first();
        assert(esc_seq(v) == esc_char(v0) + esc_seq(vr));
        assert((esc_char(v0) + esc_seq(vr)) + seq!['"'] =~= esc_char(v0) + (esc_seq(vr)
            + seq!['"']));
        lemma_matches_at_split(s, i, esc_char(v0), esc_seq(vr) + seq!['"']);
        if v0 == '"' || v0 == '\\' {
            assert(esc_char(v0) == seq!['\\', v0]);
            assert(s.subrange(i, i + 2)[0] == s[i]);
            assert(s.subrange(i, i + 2)[1] == s[i + 1]);
            assert(s[i] == '\\' && s[i + 1] == v0);
            lemma_parse_string_rest_rt(s, i + 2, acc.push(v0), vr);
            assert(spec_parse_string_rest(s, i, acc) == spec_parse_string_rest(
                s,
                i + 2,
                acc.push(v0),
            ));
            assert(acc.push(v0) + vr =~= acc + v);
        } else {
            assert(esc_char(v0) == seq![v0]);
            assert(s.subrange(i, i + 1)[0] == s[i]);
            assert(s[i] == v0);
            lemma_parse_string_rest_rt(s, i + 1, acc.push(v0), vr);
            assert(spec_parse_string_rest(s, i, acc) == spec_parse_string_rest(
                s,
                i + 1,
                acc.push(v0),
            ));
            assert(acc.push(v0) + vr =~= acc + v);
        }
    }
}

/// Reading a string at the start of its encoding yields exactly that
/// string.
pub proof fn lemma_parse_string_rt(s: Seq<char>, i: int, v: Seq<char>)
    requires
        matches_at(s, i, enc_string(v)),
    ensures
        spec_parse_string(s, i) == Some((v, i + enc_string(v).len())),
{
    assert(enc_string(v) =~= seq!['"'] + (esc_seq(v) + seq!['"']));
    lemma_matches_at_split(s, i, seq!['"'], esc_seq(v) + seq!['"']);
    assert(s.subrange(i, i + 1)[0] == s[i]);
    assert(s[i] == '"');
    lemma_parse_string_rest_rt(s, i + 1, Seq::empty(), v);
    assert(Seq::<char>::empty() + v =~= v);
}

/// Whatever the string-body reader accepts extends the accumulator by a
/// string whose escaped form is exactly the consumed text.
pub proof fn lemma_parse_string_rest_sound(
    s: Seq<char>,
    i: int,
    acc: Seq<char>,
    out: Seq<char>,
    j: int,
)
    requires
        spec_parse_string_rest(s, i, acc) == Some((out, j)),
    ensures
        out.len() >= acc.len(),
        out.take(acc.len() as int) == acc,
        matches_at(s, i, esc_seq(out.skip(acc.len() as int)) + seq!['"']),
        j == i + esc_seq(out.skip(acc.len() as int)).len() + 1,
        i < j <= s.len(),
    decreases s.len() - i,
{
    assert(0 <= i < s.len());
    if s[i] == '"' {
        assert(out == acc && j == i + 1);
        let w = out.skip(acc.len() as int);
        assert(w =~= Seq::<char>::empty());
        assert(esc_seq(w) == Seq::<char>::empty());
        assert(esc_seq(w) + seq!['"'] =~= seq!['"']);
        assert(s.subrange(i, i + 1) =~= seq!['"']);
        assert(out.take(acc.len() as int) =~= acc);
    } else if s[i] == '\\' {
        assert(i + 1 < s.len() && (s[i + 1] == '"' || s[i + 1] == '\\'));
        let c = s[i + 1];
        lemma_parse_string_rest_sound(s, i + 2, acc.push(c), out, j);
        let w1 = out.skip(acc.len() as int + 1);
        let w = out.skip(acc.len() as int);
        assert(out.take(acc.len() as int + 1) == acc.push(c));
        assert(out.take(acc.len() as int) =~= acc) by {
            assert(forall|k: int|
                0 <= k < acc.len() ==> out.take(acc.len() as int + 1)[k] == #[trigger] acc.push(c)[k]);
        }
        assert(out[acc.len() as int] == acc.push(c)[acc.len() as int]);
        assert(out[acc.len() as int] == c);
        assert(w.len() > 0);
        assert(w[0] == c);
        assert(w.drop_first() =~= w1);
        assert(esc_seq(w) == esc_char(c) + esc_seq(w1));
        assert(esc_char(c) == seq!['\\', c]);
        assert(s.subrange(i, i + 2) =~= seq!['\\', c]);
        assert(matches_at(s, i, seq!['\\', c]));
        lemma_matches_at_join(s, i, seq!['\\', c], esc_seq(w1) + seq!['"']);
        assert(seq!['\\', c] + (esc_seq(w1) + seq!['"']) =~= esc_seq(w) + seq!['"']);
    } else {
        let c = s[i];
        lemma_parse_string_rest_sound(s, i + 1, acc.push(c), out, j);
        let w1 = out.skip(acc.len() as int + 1);
        let w = out.skip(acc.len() as int);
        assert(out.take(acc.len() as int + 1) == acc.push(c));
        assert(out.take(acc.len() as int) =~= acc) by {
            assert(forall|k: int|
                0 <= k < acc.len() ==> out.take(acc.len() as int + 1)[k] == #[trigger] acc.push(c)[k]);
        }
        assert(out[acc.len() as int] == acc.push(c)[acc.len() as int]);
        assert(out[acc.len() as int] == c);
        assert(w.len() > 0);
        assert(w[0] == c);
        assert(w.drop_first() =~= w1);
        assert(esc_seq(w) == esc_char(c) + esc_seq(w1));
        assert(esc_char(c) == seq![c]);
        assert(s.subrange(i, i + 1) =~= seq![c]);
        assert(matches_at(s, i, seq![c]));
        lemma_matches_at_join(s, i, seq![c], esc_seq(w1) + seq!['"']);
        assert(seq![c] + (esc_seq(w1) + seq!['"']) =~= esc_seq(w) + seq!['"']);
    }
}

/// Whatever the string reader accepts is the encoding of its result.
pub proof fn lemma_parse_string_sound(s: Seq<char>, i: int, v: Seq<char>, j: int)
    requires
        spec_parse_string(s, i) == Some((v, j)),
    ensures
        matches_at(s, i, enc_string(v)),
        j == i + enc_string(v).len(),
        i < j <= s.len(),
{
    assert(0 <= i < s.len() && s[i] == '"');
    lemma_parse_string_rest_sound(s, i + 1, Seq::empty(), v, j);
    let w = v.skip(0);
    assert(w =~= v);
    assert(s.subrange(i, i + 1) =~= seq!['"']);
    assert(matches_at(s, i, seq!['"']));
    lemma_matches_at_join(s, i, seq!['"'], esc_seq(v) + seq!['"']);
    assert(seq!['"'] + (esc_seq(v) + seq!['"']) =~= enc_string(v));
}

/// Round trip for an unsigned 64-bit field.
pub proof fn lemma_parse_u64_rt(s: Seq<char>, i: int, n: u64)
    requires
        matches_at(s, i, enc_u64(n)),
        i + enc_u64(n).len() == s.len() || !is_digit(s[i + enc_u64(n).len()]),
    ensures
        spec_parse_u64(s, i) == Some((n, i + enc_u64(n).len())),
{
    lemma_parse_nat_rt(s, i, n as nat);
}

/// Round trip for an unsigned 32-bit field.
pub proof fn lemma_parse_u32_rt(s: Seq<char>, i: int, n: u32)
    requires
        matches_at(s, i, enc_u32(n)),
        i + enc_u32(n).len() == s.len() || !is_digit(s[i + enc_u32(n).len()]),
    ensures
        spec_parse_u32(s, i) == Some((n, i + enc_u32(n).len())),
{
    lemma_parse_nat_rt(s, i, n as nat);
}

/// Round trip for a non-negative signed 64-bit field.
pub proof fn lemma_parse_i64_rt(s: Seq<char>, i: int, n: i64)
    requires
        n >= 0,
        matches_at(s, i, enc_i64(n)),
        i + enc_i64(n).len() == s.len() || !is_digit(s[i + enc_i64(n).len()]),
    ensures
        spec_parse_i64(s, i) == Some((n, i + enc_i64(n).len())),
{
    lemma_parse_nat_rt(s, i, n as nat);
}

/// Soundness for an unsigned 64-bit field.
pub proof fn lemma_parse_u64_sound(s: Seq<char>, i: int, n: u64, j: int)
    requires
        spec_parse_u64(s, i) == Some((n, j)),
        i <= s.len(),
    ensures
        matches_at(s, i, enc_u64(n)),
        j == i + enc_u64(n).len(),
        i < j <= s.len(),
{
    match spec_parse_nat(s, i) {
        Some((m, j2)) => {
            assert(m <= u64::MAX as nat && n == m as u64 && j2 == j);
            assert(m == n as nat);
            lemma_parse_nat_sound(s, i, m, j);
        },
        None => {
            assert(false);
        },
    }
}

/// Soundness for an unsigned 32-bit field.
pub proof fn lemma_parse_u32_sound(s: Seq<char>, i: int, n: u32, j: int)
    requires
        spec_parse_u32(s, i) == Some((n, j)),
        i <= s.len(),
    ensures
        matches_at(s, i, enc_u32(n)),
        j == i + enc_u32(n).len(),
        i < j <= s.len(),
{
    match spec_parse_nat(s, i) {
        Some((m, j2)) => {
            assert(m <= u32::MAX as nat && n == m as u32 && j2 == j);
            assert(m == n as nat);
            lemma_parse_nat_sound(s, i, m, j);
        },
        None => {
            assert(false);
        },
    }
}

/// Soundness for a non-negative signed 64-bit field.
pub proof fn lemma_parse_i64_sound(s: Seq<char>, i: int, n: i64, j: int)
    requires
        spec_parse_i64(s, i) == Some((n, j)),
        i <= s.len(),
    ensures
        n >= 0,
        matches_at(s, i, enc_i64(n)),
        j == i + enc_i64(n).len(),
        i < j <= s.len(),
{
    match spec_parse_nat(s, i) {
        Some((m, j2)) => {
            assert(m <= i64::MAX as nat && n == m as i64 && j2 == j);
            assert(m == n as nat);
            lemma_parse_nat_sound(s, i, m, j);
        },
        None => {
            assert(false);
        },
    }
}

/// Round trip for one labelled string field followed by the rest of a
/// record.
pub proof fn lemma_field_string_rt(
    s: Seq<char>,
    i: int,
    lit: Seq<char>,
    x: Seq<char>,
    rest: Seq<char>,
)
    requires
        matches_at(s, i, lit + (enc_string(x) + rest)),
    ensures
        spec_parse_field_string(s, i, lit) == Some((x, i + lit.len() + enc_string(x).len())),
        matches_at(s, i + lit.len() + enc_string(x).len(), rest),
{
    lemma_lit_then(s, i, lit, enc_string(x), rest);
    lemma_parse_string_rt(s, i + lit.len(), x);
}

/// Round trip for one labelled unsigned 32-bit field; the remainder must
/// not begin with a digit.
pub proof fn lemma_field_u32_rt(s: Seq<char>, i: int, lit: Seq<char>, n: u32, rest: Seq<char>)
    requires
        matches_at(s, i, lit + (enc_u32(n) + rest)),
        rest.len() > 0,
        !is_digit(rest[0]),
    ensures
        spec_parse_field_u32(s, i, lit) == Some((n, i + lit.len() + enc_u32(n).len())),
        matches_at(s, i + lit.len() + enc_u32(n).len(), rest),
{
    lemma_lit_then(s, i, lit, enc_u32(n), rest);
    let j = i + lit.len() + enc_u32(n).len();
    assert(s.subrange(j, j + rest.len())[0] == s[j]);
    assert(s[j] == rest[0]);
    lemma_parse_u32_rt(s, i + lit.len(), n);
}

/// Round trip for one labelled unsigned 64-bit field; the remainder must
/// not begin with a digit.
pub proof fn lemma_field_u64_rt(s: Seq<char>, i: int, lit: Seq<char>, n: u64, rest: Seq<char>)
    requires
        matches_at(s, i, lit + (enc_u64(n) + rest)),
        rest.len() > 0,
        !is_digit(rest[0]),
    ensures
        spec_parse_field_u64(s, i, lit) == Some((n, i + lit.len() + enc_u64(n).len())),
        matches_at(s, i + lit.len() + enc_u64(n).len(), rest),
{
    lemma_lit_then(s, i, lit, enc_u64(n), rest);
    let j = i + lit.len() + enc_u64(n).len();
    assert(s.subrange(j, j + rest.len())[0] == s[j]);
    assert(s[j] == rest[0]);
    lemma_parse_u64_rt(s, i + lit.len(), n);
}

/// Round trip for one labelled non-negative signed 64-bit field; the
/// remainder must not begin with a digit.
pub proof fn lemma_field_i64_rt(s: Seq<char>, i: int, lit: Seq<char>, n: i64, rest: Seq<char>)
    requires
        n >= 0,
        matches_at(s, i, lit + (enc_i64(n) + rest)),
        rest.len() > 0,
        !is_digit(rest[0]),
    ensures
        spec_parse_field_i64(s, i, lit) == Some((n, i + lit.len() + enc_i64(n).len())),
        matches_at(s, i + lit.len() + enc_i64(n).len(), rest),
{
    lemma_lit_then(s, i, lit, enc_i64(n), rest);
    let j = i + lit.len() + enc_i64(n).len();
    assert(s.subrange(j, j + rest.len())[0] == s[j]);
    assert(s[j] == rest[0]);
    lemma_parse_i64_rt(s, i + lit.len(), n);
}

/// Soundness for one labelled string field.
pub proof fn lemma_field_string_sound(s: Seq<char>, i: int, lit: Seq<char>, x: Seq<char>, j: int)
    requires
        spec_parse_field_string(s, i, lit) == Some((x, j)),
    ensures
        matches_at(s, i, lit),
        matches_at(s, i + lit.len(), enc_string(x)),
        j == i + lit.len() + enc_string(x).len(),
        i <= i + lit.len() < j <= s.len(),
{
    match spec_parse_lit(s, i, lit) {
        Some(j1) => {
            lemma_parse_string_sound(s, j1, x, j);
        },
        None => {
            assert(false);
        },
    }
}

/// Soundness for one labelled unsigned 32-bit field.
pub proof fn lemma_field_u32_sound(s: Seq<char>, i: int, lit: Seq<char>, n: u32, j: int)
    requires
        spec_parse_field_u32(s, i, lit) == Some((n, j)),
    ensures
        matches_at(s, i, lit),
        matches_at(s, i + lit.len(), enc_u32(n)),
        j == i + lit.len() + enc_u32(n).len(),
        i <= i + lit.len() < j <= s.len(),
{
    match spec_parse_lit(s, i, lit) {
        Some(j1) => {
            lemma_parse_u32_sound(s, j1, n, j);
        },
        None => {
            assert(false);
        },
    }
}

/// Soundness for one labelled unsigned 64-bit field.
pub proof fn lemma_field_u64_sound(s: Seq<char>, i: int, lit: Seq<char>, n: u64, j: int)
    requires
        spec_parse_field_u64(s, i, lit) == Some((n, j)),
    ensures
        matches_at(s, i, lit),
        matches_at(s, i + lit.len(), enc_u64(n)),
        j == i + lit.len() + enc_u64(n).len(),
        i <= i + lit.len() < j <= s.len(),
{
    match spec_parse_lit(s, i, lit) {
        Some(j1) => {
            lemma_parse_u64_sound(s, j1, n, j);
        },
        None => {
            assert(false);
        },
    }
}

/// Soundness for one labelled non-negative signed 64-bit field.
pub proof fn lemma_field_i64_sound(s: Seq<char>, i: int, lit: Seq<char>, n: i64, j: int)
    requires
        spec_parse_field_i64(s, i, lit) == Some((n, j)),
    ensures
        n >= 0,
        matches_at(s, i, lit),
        matches_at(s, i + lit.len(), enc_i64(n)),
        j == i + lit.len() + enc_i64(n).len(),
        i <= i + lit.len() < j <= s.len(),
{
    match spec_parse_lit(s, i, lit) {
        Some(j1) => {
            lemma_parse_i64_sound(s, j1, n, j);
        },
        None => {
            assert(false);
        },
    }
}

/// Round trip for a delivery record.
pub proof fn lemma_delivery_rt(s: Seq<char>, i: int, v: DeliveryView)
    requires
        matches_at(s, i, enc_delivery(v)),
    ensures
        spec_parse_delivery(s, i) == Some((v, i + enc_delivery(v).len())),
{
    assert(enc_delivery(v) == ("{\"name\":")@ + (enc_string(v.name) + enc_delivery_phone(v)))
        by {
        reveal(enc_delivery);
    }
    lemma_field_string_rt(s, i, ("{\"name\":")@, v.name, enc_delivery_phone(v));
    let i1 = i + ("{\"name\":")@.len() + enc_string(v.name).len();
    assert(enc_delivery_phone(v) == (",\"phone\":")@ + (enc_string(v.phone) + enc_delivery_zip(
        v,
    ))) by {
        reveal(enc_delivery_phone);
    }
    lemma_field_string_rt(s, i1, (",\"phone\":")@, v.phone, enc_delivery_zip(v));
    let i2 = i1 + (",\"phone\":")@.len() + enc_string(v.phone).len();
    assert(enc_delivery_zip(v) == (",\"zip\":")@ + (enc_string(v.zip) + enc_delivery_city(v)))
        by {
        reveal(enc_delivery_zip);
    }
    lemma_field_string_rt(s, i2, (",\"zip\":")@, v.zip, enc_delivery_city(v));
    let i3 = i2 + (",\"zip\":")@.len() + enc_string(v.zip).len();
    assert(enc_delivery_city(v) == (",\"city\":")@ + (enc_string(v.city) + enc_delivery_address(
        v,
    ))) by {
        reveal(enc_delivery_city);
    }
    lemma_field_string_rt(s, i3, (",\"city\":")@, v.city, enc_delivery_address(v));
    let i4 = i3 + (",\"city\":")@.len() + enc_string(v.city).len();
    assert(enc_delivery_address(v) == (",\"address\":")@ + (enc_string(v.address)
        + enc_delivery_region(v))) by {
        reveal(enc_delivery_address);
    }
    lemma_field_string_rt(s, i4, (",\"address\":")@, v.address, enc_delivery_region(v));
    let i5 = i4 + (",\"address\":")@.len() + enc_string(v.address).len();
    assert(enc_delivery_region(v) == (",\"region\":")@ + (enc_string(v.region)
        + enc_delivery_email(v))) by {
        reveal(enc_delivery_region);
    }
    lemma_field_string_rt(s, i5, (",\"region\":")@, v.region, enc_delivery_email(v));
    let i6 = i5 + (",\"region\":")@.len() + enc_string(v.region).len();
    assert(enc_delivery_email(v) == (",\"email\":")@ + (enc_string(v.email) + ("}")@)) by {
        reveal(enc_delivery_email);
    }
    lemma_field_string_rt(s, i6, (",\"email\":")@, v.email, ("}")@);
}

/// Soundness for a delivery record.
pub proof fn lemma_delivery_sound(s: Seq<char>, i: int, v: DeliveryView, j: int)
    requires
        spec_parse_delivery(s, i) == Some((v, j)),
    ensures
        matches_at(s, i, enc_delivery(v)),
        j == i + enc_delivery(v).len(),
        i < j <= s.len(),
{
    let f0 = spec_parse_field_string(s, i, ("{\"name\":")@);
    assert(f0 is Some);
    let (name, i1) = f0->Some_0;
    lemma_field_string_sound(s, i, ("{\"name\":")@, name, i1);
    let f1 = spec_parse_field_string(s, i1, (",\"phone\":")@);
    assert(f1 is Some);
    let (phone, i2) = f1->Some_0;
    lemma_field_string_sound(s, i1, (",\"phone\":")@, phone, i2);
    let f2 = spec_parse_field_string(s, i2, (",\"zip\":")@);
    assert(f2 is Some);
    let (zip, i3) = f2->Some_0;
    lemma_field_string_sound(s, i2, (",\"zip\":")@, zip, i3);
    let f3 = spec_parse_field_string(s, i3, (",\"city\":")@);
    assert(f3 is Some);
    let (city, i4) = f3->Some_0;
    lemma_field_string_sound(s, i3, (",\"city\":")@, city, i4);
    let f4 = spec_parse_field_string(s, i4, (",\"address\":")@);
    assert(f4 is Some);
    let (address, i5) = f4->Some_0;
    lemma_field_string_sound(s, i4, (",\"address\":")@, address, i5);
    let f5 = spec_parse_field_string(s, i5, (",\"region\":")@);
    assert(f5 is Some);
    let (region, i6) = f5->Some_0;
    lemma_field_string_sound(s, i5, (",\"region\":")@, region, i6);
    let f6 = spec_parse_field_string(s, i6, (",\"email\":")@);
    assert(f6 is Some);
    let (email, i7) = f6->Some_0;
    lemma_field_string_sound(s, i6, (",\"email\":")@, email, i7);
    let f7 = spec_parse_lit(s, i7, ("}")@);
    assert(f7 is Some);
    assert(matches_at(s, i7, ("}")@));
    assert(v == DeliveryView { name, phone, zip, city, address, region, email });
    assert(j == i7 + ("}")@.len());
    lemma_assemble(s, i6, (",\"email\":")@, enc_string(email), ("}")@);
    assert(matches_at(s, i6, enc_delivery_email(v))) by {
        reveal(enc_delivery_email);
    }
    assert(enc_delivery_email(v).len() == (",\"email\":")@.len() + enc_string(email).len() + (
    "}")@.len()) by {
        reveal(enc_delivery_email);
    }
    lemma_assemble(s, i5, (",\"region\":")@, enc_string(region), enc_delivery_email(v));
    assert(matches_at(s, i5, enc_delivery_region(v))) by {
        reveal(enc_delivery_region);
    }
    assert(enc_delivery_region(v).len() == (",\"region\":")@.len() + enc_string(region).len()
        + enc_delivery_email(v).len()) by {
        reveal(enc_delivery_region);
    }
    lemma_assemble(s, i4, (",\"address\":")@, enc_string(address), enc_delivery_region(v));
    assert(matches_at(s, i4, enc_delivery_address(v))) by {
        reveal(enc_delivery_address);
    }
    assert(enc_delivery_address(v).len() == (",\"address\":")@.len() + enc_string(address).len()
        + enc_delivery_region(v).len()) by {
        reveal(enc_delivery_address);
    }
    lemma_assemble(s, i3, (",\"city\":")@, enc_string(city), enc_delivery_address(v));
    assert(matches_at(s, i3, enc_delivery_city(v))) by {
        reveal(enc_delivery_city);
    }
    assert(enc_delivery_city(v).len() == (",\"city\":")@.len() + enc_string(city).len()
        + enc_delivery_address(v).len()) by {
        reveal(enc_delivery_city);
    }
    lemma_assemble(s, i2, (",\"zip\":")@, enc_string(zip), enc_delivery_city(v));
    assert(matches_at(s, i2, enc_delivery_zip(v))) by {
        reveal(enc_delivery_zip);
    }
    assert(enc_delivery_zip(v).len() == (",\"zip\":")@.len() + enc_string(zip).len()
        + enc_delivery_city(v).len()) by {
        reveal(enc_delivery_zip);
    }
    lemma_assemble(s, i1, (",\"phone\":")@, enc_string(phone), enc_delivery_zip(v));
    assert(matches_at(s, i1, enc_delivery_phone(v))) by {
        reveal(enc_delivery_phone);
    }
    assert(enc_delivery_phone(v).len() == (",\"phone\":")@.len() + enc_string(phone).len()
        + enc_delivery_zip(v).len()) by {
        reveal(enc_delivery_phone);
    }
    lemma_assemble(s, i, ("{\"name\":")@, enc_string(name), enc_delivery_phone(v));
    assert(matches_at(s, i, enc_delivery(v))) by {
        reveal(enc_delivery);
    }
    assert(enc_delivery(v).len() == ("{\"name\":")@.len() + enc_string(name).len()
        + enc_delivery_phone(v).len()) by {
        reveal(enc_delivery);
    }
}

/// Round trip for a payment record.
pub proof fn lemma_payment_rt(s: Seq<char>, i: int, v: PaymentView)
    requires
        v.payment_dt >= 0,
        matches_at(s, i, enc_payment(v)),
    ensures
        spec_parse_payment(s, i) == Some((v, i + enc_payment(v).len())),
{
    assert(enc_payment(v) == ("{\"transaction\":")@ + (enc_string(v.transaction) + enc_payment_request_id(v))) by {
        reveal(enc_payment);
    }
    lemma_field_string_rt(s, i, ("{\"transaction\":")@, v.transaction, enc_payment_request_id(v));
    let i1 = i + ("{\"transaction\":")@.len() + enc_string(v.transaction).len();
    assert(enc_payment_request_id(v) == (",\"request_id\":")@ + (enc_string(v.request_id) + enc_payment_currency(v))) by {
        reveal(enc_payment_request_id);
    }
    lemma_field_string_rt(s, i1, (",\"request_id\":")@, v.request_id, enc_payment_currency(v));
    let i2 = i1 + (",\"request_id\":")@.len() + enc_string(v.request_id).len();
    assert(enc_payment_currency(v) == (",\"currency\":")@ + (enc_string(v.currency) + enc_payment_provider(v))) by {
        reveal(enc_payment_currency);
    }
    lemma_field_string_rt(s, i2, (",\"currency\":")@, v.currency, enc_payment_provider(v));
    let i3 = i2 + (",\"currency\":")@.len() + enc_string(v.currency).len();
    assert(enc_payment_provider(v) == (",\"provider\":")@ + (enc_string(v.provider) + enc_payment_amount(v))) by {
        reveal(enc_payment_provider);
    }
    lemma_field_string_rt(s, i3, (",\"provider\":")@, v.provider, enc_payment_amount(v));
    let i4 = i3 + (",\"provider\":")@.len() + enc_string(v.provider).len();
    assert(enc_payment_amount(v) == (",\"amount\":")@ + (enc_u32(v.amount) + enc_payment_dt(v))) by {
        reveal(enc_payment_amount);
    }
    assert(enc_payment_dt(v).len() > 0 && !is_digit(enc_payment_dt(v)[0])) by {
        reveal(enc_payment_dt);
        reveal_strlit(",\"payment_dt\":");
    }
    lemma_field_u32_rt(s, i4, (",\"amount\":")@, v.amount, enc_payment_dt(v));
    let i5 = i4 + (",\"amount\":")@.len() + enc_u32(v.amount).len();
    assert(enc_payment_dt(v) == (",\"payment_dt\":")@ + (enc_i64(v.payment_dt) + enc_payment_bank(v))) by {
        reveal(enc_payment_dt);
    }
    assert(enc_payment_bank(v).len() > 0 && !is_digit(enc_payment_bank(v)[0])) by {
        reveal(enc_payment_bank);
        reveal_strlit(",\"bank\":");
    }
    lemma_field_i64_rt(s, i5, (",\"payment_dt\":")@, v.payment_dt, enc_payment_bank(v));
    let i6 = i5 + (",\"payment_dt\":")@.len() + enc_i64(v.payment_dt).len();
    assert(enc_payment_bank(v) == (",\"bank\":")@ + (enc_string(v.bank) + enc_payment_delivery_cost(v))) by {
        reveal(enc_payment_bank);
    }
    lemma_field_string_rt(s, i6, (",\"bank\":")@, v.bank, enc_payment_delivery_cost(v));
    let i7 = i6 + (",\"bank\":")@.len() + enc_string(v.bank).len();
    assert(enc_payment_delivery_cost(v) == (",\"delivery_cost\":")@ + (enc_u32(v.delivery_cost) + enc_payment_goods_total(v))) by {
        reveal(enc_payment_delivery_cost);
    }
    assert(enc_payment_goods_total(v).len() > 0 && !is_digit(enc_payment_goods_total(v)[0])) by {
        reveal(enc_payment_goods_total);
        reveal_strlit(",\"goods_total\":");
    }
    lemma_field_u32_rt(s, i7, (",\"delivery_cost\":")@, v.delivery_cost, enc_payment_goods_total(v));
    let i8 = i7 + (",\"delivery_cost\":")@.len() + enc_u32(v.delivery_cost).len();
    assert(enc_payment_goods_total(v) == (",\"goods_total\":")@ + (enc_u32(v.goods_total) + enc_payment_custom_fee(v))) by {
        reveal(enc_payment_goods_total);
    }
    assert(enc_payment_custom_fee(v).len() > 0 && !is_digit(enc_payment_custom_fee(v)[0])) by {
        reveal(enc_payment_custom_fee);
        reveal_strlit(",\"custom_fee\":");
    }
    lemma_field_u32_rt(s, i8, (",\"goods_total\":")@, v.goods_total, enc_payment_custom_fee(v));
    let i9 = i8 + (",\"goods_total\":")@.len() + enc_u32(v.goods_total).len();
    assert(enc_payment_custom_fee(v) == (",\"custom_fee\":")@ + (enc_u32(v.custom_fee) + ("}")@)) by {
        reveal(enc_payment_custom_fee);
    }
    assert(("}")@.len() > 0 && !is_digit(("}")@[0])) by {
        reveal_strlit("}");
    }
    lemma_field_u32_rt(s, i9, (",\"custom_fee\":")@, v.custom_fee, ("}")@);
    let i10 = i9 + (",\"custom_fee\":")@.len() + enc_u32(v.custom_fee).len();
    assert(spec_parse_payment_head(s, i) == Some(((v.transaction, v.request_id, v.currency, v.provider), i4)));
    assert(spec_parse_payment_tail(s, i4) == Some(((v.amount, v.payment_dt, v.bank, v.delivery_cost, v.goods_total, v.custom_fee), i10 + ("}")@.len())));
}

/// Soundness for a payment record.
pub proof fn lemma_payment_sound(s: Seq<char>, i: int, v: PaymentView, j: int)
    requires
        spec_parse_payment(s, i) == Some((v, j)),
    ensures
        v.payment_dt >= 0,
        matches_at(s, i, enc_payment(v)),
        j == i + enc_payment(v).len(),
        i < j <= s.len(),
{
    let f0 = spec_parse_field_string(s, i, ("{\"transaction\":")@);
    assert(f0 is Some);
    let (x_transaction, i1) = f0->Some_0;
    lemma_field_string_sound(s, i, ("{\"transaction\":")@, x_transaction, i1);
    let f1 = spec_parse_field_string(s, i1, (",\"request_id\":")@);
    assert(f1 is Some);
    let (x_request_id, i2) = f1->Some_0;
    lemma_field_string_sound(s, i1, (",\"request_id\":")@, x_request_id, i2);
    let f2 = spec_parse_field_string(s, i2, (",\"currency\":")@);
    assert(f2 is Some);
    let (x_currency, i3) = f2->Some_0;
    lemma_field_string_sound(s, i2, (",\"currency\":")@, x_currency, i3);
    let f3 = spec_parse_field_string(s, i3, (",\"provider\":")@);
    assert(f3 is Some);
    let (x_provider, i4) = f3->Some_0;
    lemma_field_string_sound(s, i3, (",\"provider\":")@, x_provider, i4);
    let f4 = spec_parse_field_u32(s, i4, (",\"amount\":")@);
    assert(f4 is Some);
    let (x_amount, i5) = f4->Some_0;
    lemma_field_u32_sound(s, i4, (",\"amount\":")@, x_amount, i5);
    let f5 = spec_parse_field_i64(s, i5, (",\"payment_dt\":")@);
    assert(f5 is Some);
    let (x_payment_dt, i6) = f5->Some_0;
    lemma_field_i64_sound(s, i5, (",\"payment_dt\":")@, x_payment_dt, i6);
    let f6 = spec_parse_field_string(s, i6, (",\"bank\":")@);
    assert(f6 is Some);
    let (x_bank, i7) = f6->Some_0;
    lemma_field_string_sound(s, i6, (",\"bank\":")@, x_bank, i7);
    let f7 = spec_parse_field_u32(s, i7, (",\"delivery_cost\":")@);
    assert(f7 is Some);
    let (x_delivery_cost, i8) = f7->Some_0;
    lemma_field_u32_sound(s, i7, (",\"delivery_cost\":")@, x_delivery_cost, i8);
    let f8 = spec_parse_field_u32(s, i8, (",\"goods_total\":")@);
    assert(f8 is Some);
    let (x_goods_total, i9) = f8->Some_0;
    lemma_field_u32_sound(s, i8, (",\"goods_total\":")@, x_goods_total, i9);
    let f9 = spec_parse_field_u32(s, i9, (",\"custom_fee\":")@);
    assert(f9 is Some);
    let (x_custom_fee, i10) = f9->Some_0;
    lemma_field_u32_sound(s, i9, (",\"custom_fee\":")@, x_custom_fee, i10);
    let fb = spec_parse_lit(s, i10, ("}")@);
    assert(fb is Some);
    assert(matches_at(s, i10, ("}")@));
    assert(v == PaymentView { transaction: x_transaction, request_id: x_request_id, currency: x_currency, provider: x_provider, amount: x_amount, payment_dt: x_payment_dt, bank: x_bank, delivery_cost: x_delivery_cost, goods_total: x_goods_total, custom_fee: x_custom_fee });
    lemma_assemble(s, i9, (",\"custom_fee\":")@, enc_u32(v.custom_fee), ("}")@);
    assert(matches_at(s, i9, enc_payment_custom_fee(v))) by {
        reveal(enc_payment_custom_fee);
    }
    assert(enc_payment_custom_fee(v).len() == (",\"custom_fee\":")@.len() + enc_u32(v.custom_fee).len() + ("}")@.len()) by {
        reveal(enc_payment_custom_fee);
    }
    lemma_assemble(s, i8, (",\"goods_total\":")@, enc_u32(v.goods_total), enc_payment_custom_fee(v));
    assert(matches_at(s, i8, enc_payment_goods_total(v))) by {
        reveal(enc_payment_goods_total);
    }
    assert(enc_payment_goods_total(v).len() == (",\"goods_total\":")@.len() + enc_u32(v.goods_total).len() + enc_payment_custom_fee(v).len()) by {
        reveal(enc_payment_goods_total);
    }
    lemma_assemble(s, i7, (",\"delivery_cost\":")@, enc_u32(v.delivery_cost), enc_payment_goods_total(v));
    assert(matches_at(s, i7, enc_payment_delivery_cost(v))) by {
        reveal(enc_payment_delivery_cost);
    }
    assert(enc_payment_delivery_cost(v).len() == (",\"delivery_cost\":")@.len() + enc_u32(v.delivery_cost).len() + enc_payment_goods_total(v).len()) by {
        reveal(enc_payment_delivery_cost);
    }
    lemma_assemble(s, i6, (",\"bank\":")@, enc_string(v.bank), enc_payment_delivery_cost(v));
    assert(matches_at(s, i6, enc_payment_bank(v))) by {
        reveal(enc_payment_bank);
    }
    assert(enc_payment_bank(v).len() == (",\"bank\":")@.len() + enc_string(v.bank).len() + enc_payment_delivery_cost(v).len()) by {
        reveal(enc_payment_bank);
    }
    lemma_assemble(s, i5, (",\"payment_dt\":")@, enc_i64(v.payment_dt), enc_payment_bank(v));
    assert(matches_at(s, i5, enc_payment_dt(v))) by {
        reveal(enc_payment_dt);
    }
    assert(enc_payment_dt(v).len() == (",\"payment_dt\":")@.len() + enc_i64(v.payment_dt).len() + enc_payment_bank(v).len()) by {
        reveal(enc_payment_dt);
    }
    lemma_assemble(s, i4, (",\"amount\":")@, enc_u32(v.amount), enc_payment_dt(v));
    assert(matches_at(s, i4, enc_payment_amount(v))) by {
        reveal(enc_payment_amount);
    }
    assert(enc_payment_amount(v).len() == (",\"amount\":")@.len() + enc_u32(v.amount).len() + enc_payment_dt(v).len()) by {
        reveal(enc_payment_amount);
    }
    lemma_assemble(s, i3, (",\"provider\":")@, enc_string(v.provider), enc_payment_amount(v));
    assert(matches_at(s, i3, enc_payment_provider(v))) by {
        reveal(enc_payment_provider);
    }
    assert(enc_payment_provider(v).len() == (",\"provider\":")@.len() + enc_string(v.provider).len() + enc_payment_amount(v).len()) by {
        reveal(enc_payment_provider);
    }
    lemma_assemble(s, i2, (",\"currency\":")@, enc_string(v.currency), enc_payment_provider(v));
    assert(matches_at(s, i2, enc_payment_currency(v))) by {
        reveal(enc_payment_currency);
    }
    assert(enc_payment_currency(v).len() == (",\"currency\":")@.len() + enc_string(v.currency).len() + enc_payment_provider(v).len()) by {
        reveal(enc_payment_currency);
    }
    lemma_assemble(s, i1, (",\"request_id\":")@, enc_string(v.request_id), enc_payment_currency(v));
    assert(matches_at(s, i1, enc_payment_request_id(v))) by {
        reveal(enc_payment_request_id);
    }
    assert(enc_payment_request_id(v).len() == (",\"request_id\":")@.len() + enc_string(v.request_id).len() + enc_payment_currency(v).len()) by {
        reveal(enc_payment_request_id);
    }
    lemma_assemble(s, i, ("{\"transaction\":")@, enc_string(v.transaction), enc_payment_request_id(v));
    assert(matches_at(s, i, enc_payment(v))) by {
        reveal(enc_payment);
    }
    assert(enc_payment(v).len() == ("{\"transaction\":")@.len() + enc_string(v.transaction).len() + enc_payment_request_id(v).len()) by {
        reveal(enc_payment);
    }
}

/// Round trip for a item record.
pub proof fn lemma_item_rt(s: Seq<char>, i: int, v: ItemView)
    requires
        matches_at(s, i, enc_item(v)),
    ensures
        spec_parse_item(s, i) == Some((v, i + enc_item(v).len())),
{
    assert(enc_item(v) == ("{\"chrt_id\":")@ + (enc_u64(v.chrt_id) + enc_item_track(v))) by {
        reveal(enc_item);
    }
    assert(enc_item_track(v).len() > 0 && !is_digit(enc_item_track(v)[0])) by {
        reveal(enc_item_track);
        reveal_strlit(",\"track_number\":");
    }
    lemma_field_u64_rt(s, i, ("{\"chrt_id\":")@, v.chrt_id, enc_item_track(v));
    let i1 = i + ("{\"chrt_id\":")@.len() + enc_u64(v.chrt_id).len();
    assert(enc_item_track(v) == (",\"track_number\":")@ + (enc_string(v.track_number) + enc_item_price(v))) by {
        reveal(enc_item_track);
    }
    lemma_field_string_rt(s, i1, (",\"track_number\":")@, v.track_number, enc_item_price(v));
    let i2 = i1 + (",\"track_number\":")@.len() + enc_string(v.track_number).len();
    assert(enc_item_price(v) == (",\"price\":")@ + (enc_u32(v.price) + enc_item_rid(v))) by {
        reveal(enc_item_price);
    }
    assert(enc_item_rid(v).len() > 0 && !is_digit(enc_item_rid(v)[0])) by {
        reveal(enc_item_rid);
        reveal_strlit(",\"rid\":");
    }
    lemma_field_u32_rt(s, i2, (",\"price\":")@, v.price, enc_item_rid(v));
    let i3 = i2 + (",\"price\":")@.len() + enc_u32(v.price).len();
    assert(enc_item_rid(v) == (",\"rid\":")@ + (enc_string(v.rid) + enc_item_name(v))) by {
        reveal(enc_item_rid);
    }
    lemma_field_string_rt(s, i3, (",\"rid\":")@, v.rid, enc_item_name(v));
    let i4 = i3 + (",\"rid\":")@.len() + enc_string(v.rid).len();
    assert(enc_item_name(v) == (",\"name\":")@ + (enc_string(v.name) + enc_item_sale(v))) by {
        reveal(enc_item_name);
    }
    lemma_field_string_rt(s, i4, (",\"name\":")@, v.name, enc_item_sale(v));
    let i5 = i4 + (",\"name\":")@.len() + enc_string(v.name).len();
    assert(enc_item_sale(v) == (",\"sale\":")@ + (enc_u32(v.sale) + enc_item_size(v))) by {
        reveal(enc_item_sale);
    }
    assert(enc_item_size(v).len() > 0 && !is_digit(enc_item_size(v)[0])) by {
        reveal(enc_item_size);
        reveal_strlit(",\"size\":");
    }
    lemma_field_u32_rt(s, i5, (",\"sale\":")@, v.sale, enc_item_size(v));
    let i6 = i5 + (",\"sale\":")@.len() + enc_u32(v.sale).len();
    assert(enc_item_size(v) == (",\"size\":")@ + (enc_string(v.size) + enc_item_total_price(v))) by {
        reveal(enc_item_size);
    }
    lemma_field_string_rt(s, i6, (",\"size\":")@, v.size, enc_item_total_price(v));
    let i7 = i6 + (",\"size\":")@.len() + enc_string(v.size).len();
    assert(enc_item_total_price(v) == (",\"total_price\":")@ + (enc_u32(v.total_price) + enc_item_nm_id(v))) by {
        reveal(enc_item_total_price);
    }
    assert(enc_item_nm_id(v).len() > 0 && !is_digit(enc_item_nm_id(v)[0])) by {
        reveal(enc_item_nm_id);
        reveal_strlit(",\"nm_id\":");
    }
    lemma_field_u32_rt(s, i7, (",\"total_price\":")@, v.total_price, enc_item_nm_id(v));
    let i8 = i7 + (",\"total_price\":")@.len() + enc_u32(v.total_price).len();
    assert(enc_item_nm_id(v) == (",\"nm_id\":")@ + (enc_u64(v.nm_id) + enc_item_brand(v))) by {
        reveal(enc_item_nm_id);
    }
    assert(enc_item_brand(v).len() > 0 && !is_digit(enc_item_brand(v)[0])) by {
        reveal(enc_item_brand);
        reveal_strlit(",\"brand\":");
    }
    lemma_field_u64_rt(s, i8, (",\"nm_id\":")@, v.nm_id, enc_item_brand(v));
    let i9 = i8 + (",\"nm_id\":")@.len() + enc_u64(v.nm_id).len();
    assert(enc_item_brand(v) == (",\"brand\":")@ + (enc_string(v.brand) + enc_item_status(v))) by {
        reveal(enc_item_brand);
    }
    lemma_field_string_rt(s, i9, (",\"brand\":")@, v.brand, enc_item_status(v));
    let i10 = i9 + (",\"brand\":")@.len() + enc_string(v.brand).len();
    assert(enc_item_status(v) == (",\"status\":")@ + (enc_u32(v.status) + ("}")@)) by {
        reveal(enc_item_status);
    }
    assert(("}")@.len() > 0 && !is_digit(("}")@[0])) by {
        reveal_strlit("}");
    }
    lemma_field_u32_rt(s, i10, (",\"status\":")@, v.status, ("}")@);
    let i11 = i10 + (",\"status\":")@.len() + enc_u32(v.status).len();
    assert(spec_parse_item_head(s, i) == Some(((v.chrt_id, v.track_number, v.price, v.rid, v.name), i5)));
    assert(spec_parse_item_tail(s, i5) == Some(((v.sale, v.size, v.total_price, v.nm_id, v.brand, v.status), i11 + ("}")@.len())));
}

/// Soundness for a item record.
pub proof fn lemma_item_sound(s: Seq<char>, i: int, v: ItemView, j: int)
    requires
        spec_parse_item(s, i) == Some((v, j)),
    ensures
        matches_at(s, i, enc_item(v)),
        j == i + enc_item(v).len(),
        i < j <= s.len(),
{
    let f0 = spec_parse_field_u64(s, i, ("{\"chrt_id\":")@);
    assert(f0 is Some);
    let (x_chrt_id, i1) = f0->Some_0;
    lemma_field_u64_sound(s, i, ("{\"chrt_id\":")@, x_chrt_id, i1);
    let f1 = spec_parse_field_string(s, i1, (",\"track_number\":")@);
    assert(f1 is Some);
    let (x_track_number, i2) = f1->Some_0;
    lemma_field_string_sound(s, i1, (",\"track_number\":")@, x_track_number, i2);
    let f2 = spec_parse_field_u32(s, i2, (",\"price\":")@);
    assert(f2 is Some);
    let (x_price, i3) = f2->Some_0;
    lemma_field_u32_sound(s, i2, (",\"price\":")@, x_price, i3);
    let f3 = spec_parse_field_string(s, i3, (",\"rid\":")@);
    assert(f3 is Some);
    let (x_rid, i4) = f3->Some_0;
    lemma_field_string_sound(s, i3, (",\"rid\":")@, x_rid, i4);
    let f4 = spec_parse_field_string(s, i4, (",\"name\":")@);
    assert(f4 is Some);
    let (x_name, i5) = f4->Some_0;
    lemma_field_string_sound(s, i4, (",\"name\":")@, x_name, i5);
    let f5 = spec_parse_field_u32(s, i5, (",\"sale\":")@);
    assert(f5 is Some);
    let (x_sale, i6) = f5->Some_0;
    lemma_field_u32_sound(s, i5, (",\"sale\":")@, x_sale, i6);
    let f6 = spec_parse_field_string(s, i6, (",\"size\":")@);
    assert(f6 is Some);
    let (x_size, i7) = f6->Some_0;
    lemma_field_string_sound(s, i6, (",\"size\":")@, x_size, i7);
    let f7 = spec_parse_field_u32(s, i7, (",\"total_price\":")@);
    assert(f7 is Some);
    let (x_total_price, i8) = f7->Some_0;
    lemma_field_u32_sound(s, i7, (",\"total_price\":")@, x_total_price, i8);
    let f8 = spec_parse_field_u64(s, i8, (",\"nm_id\":")@);
    assert(f8 is Some);
    let (x_nm_id, i9) = f8->Some_0;
    lemma_field_u64_sound(s, i8, (",\"nm_id\":")@, x_nm_id, i9);
    let f9 = spec_parse_field_string(s, i9, (",\"brand\":")@);
    assert(f9 is Some);
    let (x_brand, i10) = f9->Some_0;
    lemma_field_string_sound(s, i9, (",\"brand\":")@, x_brand, i10);
    let f10 = spec_parse_field_u32(s, i10, (",\"status\":")@);
    assert(f10 is Some);
    let (x_status, i11) = f10->Some_0;
    lemma_field_u32_sound(s, i10, (",\"status\":")@, x_status, i11);
    let fb = spec_parse_lit(s, i11, ("}")@);
    assert(fb is Some);
    assert(matches_at(s, i11, ("}")@));
    assert(v == ItemView { chrt_id: x_chrt_id, track_number: x_track_number, price: x_price, rid: x_rid, name: x_name, sale: x_sale, size: x_size, total_price: x_total_price, nm_id: x_nm_id, brand: x_brand, status: x_status });
    lemma_assemble(s, i10, (",\"status\":")@, enc_u32(v.status), ("}")@);
    assert(matches_at(s, i10, enc_item_status(v))) by {
        reveal(enc_item_status);
    }
    assert(enc_item_status(v).len() == (",\"status\":")@.len() + enc_u32(v.status).len() + ("}")@.len()) by {
        reveal(enc_item_status);
    }
    lemma_assemble(s, i9, (",\"brand\":")@, enc_string(v.brand), enc_item_status(v));
    assert(matches_at(s, i9, enc_item_brand(v))) by {
        reveal(enc_item_brand);
    }
    assert(enc_item_brand(v).len() == (",\"brand\":")@.len() + enc_string(v.brand).len() + enc_item_status(v).len()) by {
        reveal(enc_item_brand);
    }
    lemma_assemble(s, i8, (",\"nm_id\":")@, enc_u64(v.nm_id), enc_item_brand(v));
    assert(matches_at(s, i8, enc_item_nm_id(v))) by {
        reveal(enc_item_nm_id);
    }
    assert(enc_item_nm_id(v).len() == (",\"nm_id\":")@.len() + enc_u64(v.nm_id).len() + enc_item_brand(v).len()) by {
        reveal(enc_item_nm_id);
    }
    lemma_assemble(s, i7, (",\"total_price\":")@, enc_u32(v.total_price), enc_item_nm_id(v));
    assert(matches_at(s, i7, enc_item_total_price(v))) by {
        reveal(enc_item_total_price);
    }
    assert(enc_item_total_price(v).len() == (",\"total_price\":")@.len() + enc_u32(v.total_price).len() + enc_item_nm_id(v).len()) by {
        reveal(enc_item_total_price);
    }
    lemma_assemble(s, i6, (",\"size\":")@, enc_string(v.size), enc_item_total_price(v));
    assert(matches_at(s, i6, enc_item_size(v))) by {
        reveal(enc_item_size);
    }
    assert(enc_item_size(v).len() == (",\"size\":")@.len() + enc_string(v.size).len() + enc_item_total_price(v).len()) by {
        reveal(enc_item_size);
    }
    lemma_assemble(s, i5, (",\"sale\":")@, enc_u32(v.sale), enc_item_size(v));
    assert(matches_at(s, i5, enc_item_sale(v))) by {
        reveal(enc_item_sale);
    }
    assert(enc_item_sale(v).len() == (",\"sale\":")@.len() + enc_u32(v.sale).len() + enc_item_size(v).len()) by {
        reveal(enc_item_sale);
    }
    lemma_assemble(s, i4, (",\"name\":")@, enc_string(v.name), enc_item_sale(v));
    assert(matches_at(s, i4, enc_item_name(v))) by {
        reveal(enc_item_name);
    }
    assert(enc_item_name(v).len() == (",\"name\":")@.len() + enc_string(v.name).len() + enc_item_sale(v).len()) by {
        reveal(enc_item_name);
    }
    lemma_assemble(s, i3, (",\"rid\":")@, enc_string(v.rid), enc_item_name(v));
    assert(matches_at(s, i3, enc_item_rid(v))) by {
        reveal(enc_item_rid);
    }
    assert(enc_item_rid(v).len() == (",\"rid\":")@.len() + enc_string(v.rid).len() + enc_item_name(v).len()) by {
        reveal(enc_item_rid);
    }
    lemma_assemble(s, i2, (",\"price\":")@, enc_u32(v.price), enc_item_rid(v));
    assert(matches_at(s, i2, enc_item_price(v))) by {
        reveal(enc_item_price);
    }
    assert(enc_item_price(v).len() == (",\"price\":")@.len() + enc_u32(v.price).len() + enc_item_rid(v).len()) by {
        reveal(enc_item_price);
    }
    lemma_assemble(s, i1, (",\"track_number\":")@, enc_string(v.track_number), enc_item_price(v));
    assert(matches_at(s, i1, enc_item_track(v))) by {
        reveal(enc_item_track);
    }
    assert(enc_item_track(v).len() == (",\"track_number\":")@.len() + enc_string(v.track_number).len() + enc_item_price(v).len()) by {
        reveal(enc_item_track);
    }
    lemma_assemble(s, i, ("{\"chrt_id\":")@, enc_u64(v.chrt_id), enc_item_track(v));
    assert(matches_at(s, i, enc_item(v))) by {
        reveal(enc_item);
    }
    assert(enc_item(v).len() == ("{\"chrt_id\":")@.len() + enc_u64(v.chrt_id).len() + enc_item_track(v).len()) by {
        reveal(enc_item);
    }
}

/// Round trip for the items after the first one: reading the encoded tail
/// appends those items to the accumulator.
pub proof fn lemma_items_tail_rt(s: Seq<char>, i: int, acc: Seq<ItemView>, rest: Seq<ItemView>)
    requires
        matches_at(s, i, enc_items_tail(rest)),
    ensures
        spec_parse_items_tail(s, i, acc) == Some((acc + rest, i + enc_items_tail(rest).len())),
    decreases rest.len(),
{
    reveal_strlit("]");
    reveal_strlit(",");
    if rest.len() == 0 {
        assert(enc_items_tail(rest) == ("]")@);
        assert(matches_at(s, i, ("]")@));
        assert(spec_parse_items_tail(s, i, acc) == Some((acc, i + 1)));
        assert(acc + rest =~= acc);
    } else {
        let it = rest[0];
        let rr = rest.drop_first();
        assert(enc_items_tail(rest) == (",")@ + (enc_item(it) + enc_items_tail(rr)));
        lemma_lit_then(s, i, (",")@, enc_item(it), enc_items_tail(rr));
        assert(s.subrange(i, i + 1)[0] == s[i]);
        assert(s[i] == ',');
        if matches_at(s, i, ("]")@) {
            assert(s.subrange(i, i + 1)[0] == s[i]);
            assert(false);
        }
        lemma_item_rt(s, i + 1, it);
        let j = i + 1 + enc_item(it).len();
        assert(enc_item(it).len() > 0) by {
            reveal(enc_item);
            reveal_strlit("{\"chrt_id\":");
        }
        lemma_items_tail_rt(s, j, acc.push(it), rr);
        assert(acc.push(it) + rr =~= acc + rest);
        assert(spec_parse_items_tail(s, i, acc) == spec_parse_items_tail(s, j, acc.push(it)));
    }
}

/// Round trip for the item array.
pub proof fn lemma_items_rt(s: Seq<char>, i: int, items: Seq<ItemView>)
    requires
        matches_at(s, i, enc_items(items)),
    ensures
        spec_parse_items(s, i) == Some((items, i + enc_items(items).len())),
{
    reveal_strlit("[");
    reveal_strlit("]");
    lemma_matches_at_split(s, i, ("[")@, enc_items_inner(items));
    let i1 = i + 1;
    if items.len() == 0 {
        assert(enc_items_inner(items) == ("]")@);
        assert(matches_at(s, i1, ("]")@));
        assert(items =~= Seq::<ItemView>::empty());
    } else {
        let it = items[0];
        assert(enc_items_inner(items) == enc_item(it) + enc_items_tail(items.drop_first()));
        lemma_matches_at_split(s, i1, enc_item(it), enc_items_tail(items.drop_first()));
        assert(enc_item(it).len() > 0 && enc_item(it)[0] == '{') by {
            reveal(enc_item);
            reveal_strlit("{\"chrt_id\":");
        }
        assert(s.subrange(i1, i1 + enc_item(it).len())[0] == s[i1]);
        assert(s[i1] == '{');
        if matches_at(s, i1, ("]")@) {
            assert(s.subrange(i1, i1 + 1)[0] == s[i1]);
            assert(false);
        }
        lemma_item_rt(s, i1, it);
        let i2 = i1 + enc_item(it).len();
        lemma_items_tail_rt(s, i2, seq![it], items.drop_first());
        assert(seq![it] + items.drop_first() =~= items);
    }
}

/// Soundness for the items after the first one.
pub proof fn lemma_items_tail_sound(s: Seq<char>, i: int, acc: Seq<ItemView>, out: Seq<ItemView>, j: int)
    requires
        spec_parse_items_tail(s, i, acc) == Some((out, j)),
    ensures
        out.len() >= acc.len(),
        out.take(acc.len() as int) == acc,
        matches_at(s, i, enc_items_tail(out.skip(acc.len() as int))),
        j == i + enc_items_tail(out.skip(acc.len() as int)).len(),
        i < j <= s.len(),
    decreases s.len() - i,
{
    reveal_strlit("]");
    reveal_strlit(",");
    if matches_at(s, i, ("]")@) {
        assert(out == acc && j == i + 1);
        let w = out.skip(acc.len() as int);
        assert(w =~= Seq::<ItemView>::empty());
        assert(enc_items_tail(w) == ("]")@);
        assert(out.take(acc.len() as int) =~= acc);
    } else {
        assert(matches_at(s, i, (",")@));
        match spec_parse_item(s, i + 1) {
            Some((it, j1)) => {
                assert(i + 1 < j1 && j1 <= s.len());
                lemma_item_sound(s, i + 1, it, j1);
                lemma_items_tail_sound(s, j1, acc.push(it), out, j);
                let w1 = out.skip(acc.len() as int + 1);
                let w = out.skip(acc.len() as int);
                assert(out.take(acc.len() as int + 1) == acc.push(it));
                assert(out.take(acc.len() as int) =~= acc) by {
                    assert(forall|k: int|
                        0 <= k < acc.len() ==> out.take(acc.len() as int + 1)[k]
                            == #[trigger] acc.push(it)[k]);
                }
                assert(out[acc.len() as int] == acc.push(it)[acc.len() as int]);
                assert(out[acc.len() as int] == it);
                assert(w.len() > 0);
                assert(w[0] == it);
                assert(w.drop_first() =~= w1);
                assert(enc_items_tail(w) == (",")@ + (enc_item(it) + enc_items_tail(w1)));
                lemma_assemble(s, i, (",")@, enc_item(it), enc_items_tail(w1));
            },
            None => {
                assert(false);
            },
        }
    }
}

/// Soundness for the item array.
pub proof fn lemma_items_sound(s: Seq<char>, i: int, out: Seq<ItemView>, j: int)
    requires
        spec_parse_items(s, i) == Some((out, j)),
    ensures
        matches_at(s, i, enc_items(out)),
        j == i + enc_items(out).len(),
        i < j <= s.len(),
{
    reveal_strlit("[");
    reveal_strlit("]");
    let l0 = spec_parse_lit(s, i, ("[")@);
    assert(l0 is Some);
    assert(matches_at(s, i, ("[")@));
    let i1 = i + 1;
    if matches_at(s, i1, ("]")@) {
        assert(out =~= Seq::<ItemView>::empty() && j == i1 + 1);
        assert(enc_items_inner(out) == ("]")@);
        lemma_matches_at_join(s, i, ("[")@, enc_items_inner(out));
    } else {
        match spec_parse_item(s, i1) {
            Some((it, i2)) => {
                lemma_item_sound(s, i1, it, i2);
                lemma_items_tail_sound(s, i2, seq![it], out, j);
                let w1 = out.skip(1);
                assert(out.take(1) == seq![it]);
                assert(out.len() >= 1);
                assert(out[0] == out.take(1)[0]);
                assert(out[0] == it);
                assert(out.drop_first() =~= w1);
                assert(enc_items_inner(out) == enc_item(it) + enc_items_tail(w1));
                lemma_matches_at_join(s, i1, enc_item(it), enc_items_tail(w1));
                lemma_matches_at_join(s, i, ("[")@, enc_items_inner(out));
            },
            None => {
                assert(false);
            },
        }
    }
}

/// Round trip for a whole order document.
#[verifier::rlimit(100)]
pub proof fn lemma_order_rt(s: Seq<char>, i: int, v: OrderView)
    requires
        v.payment.payment_dt >= 0,
        matches_at(s, i, enc_order(v)),
    ensures
        spec_parse_order(s, i) == Some((v, i + enc_order(v).len())),
{
    assert(enc_order(v) == ("{\"order_uid\":")@ + (enc_string(v.order_uid) + enc_order_track(v)))
        by {
        reveal(enc_order);
    }
    lemma_field_string_rt(s, i, ("{\"order_uid\":")@, v.order_uid, enc_order_track(v));
    let i1 = i + ("{\"order_uid\":")@.len() + enc_string(v.order_uid).len();
    assert(enc_order_track(v) == (",\"track_number\":")@ + (enc_string(v.track_number)
        + enc_order_entry(v))) by {
        reveal(enc_order_track);
    }
    lemma_field_string_rt(s, i1, (",\"track_number\":")@, v.track_number, enc_order_entry(v));
    let i2 = i1 + (",\"track_number\":")@.len() + enc_string(v.track_number).len();
    assert(enc_order_entry(v) == (",\"entry\":")@ + (enc_string(v.entry) + enc_order_delivery(v)))
        by {
        reveal(enc_order_entry);
    }
    lemma_field_string_rt(s, i2, (",\"entry\":")@, v.entry, enc_order_delivery(v));
    let i3 = i2 + (",\"entry\":")@.len() + enc_string(v.entry).len();
    assert(enc_order_delivery(v) == (",\"delivery\":")@ + (enc_delivery(v.delivery)
        + enc_order_payment(v))) by {
        reveal(enc_order_delivery);
    }
    lemma_lit_then(s, i3, (",\"delivery\":")@, enc_delivery(v.delivery), enc_order_payment(v));
    lemma_delivery_rt(s, i3 + (",\"delivery\":")@.len(), v.delivery);
    let i4 = i3 + (",\"delivery\":")@.len() + enc_delivery(v.delivery).len();
    assert(spec_parse_order_head(s, i) == Some(
        ((v.order_uid, v.track_number, v.entry, v.delivery), i4),
    ));
    assert(enc_order_payment(v) == (",\"payment\":")@ + (enc_payment(v.payment) + enc_order_items(
        v,
    ))) by {
        reveal(enc_order_payment);
    }
    lemma_lit_then(s, i4, (",\"payment\":")@, enc_payment(v.payment), enc_order_items(v));
    lemma_payment_rt(s, i4 + (",\"payment\":")@.len(), v.payment);
    let i5 = i4 + (",\"payment\":")@.len() + enc_payment(v.payment).len();
    assert(enc_order_items(v) == (",\"items\":")@ + (enc_items(v.items) + enc_order_locale(v)))
        by {
        reveal(enc_order_items);
    }
    lemma_lit_then(s, i5, (",\"items\":")@, enc_items(v.items), enc_order_locale(v));
    lemma_items_rt(s, i5 + (",\"items\":")@.len(), v.items);
    let i6 = i5 + (",\"items\":")@.len() + enc_items(v.items).len();
    assert(spec_parse_order_mid(s, i4) == Some(((v.payment, v.items), i6)));
    assert(enc_order_locale(v) == (",\"locale\":")@ + (enc_string(v.locale) + enc_order_signature(
        v,
    ))) by {
        reveal(enc_order_locale);
    }
    lemma_field_string_rt(s, i6, (",\"locale\":")@, v.locale, enc_order_signature(v));
    let i7 = i6 + (",\"locale\":")@.len() + enc_string(v.locale).len();
    assert(enc_order_signature(v) == (",\"internal_signature\":")@ + (enc_string(
        v.internal_signature,
    ) + enc_order_customer(v))) by {
        reveal(enc_order_signature);
    }
    lemma_field_string_rt(
        s,
        i7,
        (",\"internal_signature\":")@,
        v.internal_signature,
        enc_order_customer(v),
    );
    let i8 = i7 + (",\"internal_signature\":")@.len() + enc_string(v.internal_signature).len();
    assert(enc_order_customer(v) == (",\"customer_id\":")@ + (enc_string(v.customer_id)
        + enc_order_service(v))) by {
        reveal(enc_order_customer);
    }
    lemma_field_string_rt(s, i8, (",\"customer_id\":")@, v.customer_id, enc_order_service(v));
    let i9 = i8 + (",\"customer_id\":")@.len() + enc_string(v.customer_id).len();
    assert(enc_order_service(v) == (",\"delivery_service\":")@ + (enc_string(v.delivery_service)
        + enc_order_shardkey(v))) by {
        reveal(enc_order_service);
    }
    lemma_field_string_rt(
        s,
        i9,
        (",\"delivery_service\":")@,
        v.delivery_service,
        enc_order_shardkey(v),
    );
    let i10 = i9 + (",\"delivery_service\":")@.len() + enc_string(v.delivery_service).len();
    assert(enc_order_shardkey(v) == (",\"shardkey\":")@ + (enc_string(v.shardkey)
        + enc_order_sm_id(v))) by {
        reveal(enc_order_shardkey);
    }
    lemma_field_string_rt(s, i10, (",\"shardkey\":")@, v.shardkey, enc_order_sm_id(v));
    let i11 = i10 + (",\"shardkey\":")@.len() + enc_string(v.shardkey).len();
    assert(enc_order_sm_id(v) == (",\"sm_id\":")@ + (enc_u64(v.sm_id) + enc_order_date(v))) by {
        reveal(enc_order_sm_id);
    }
    assert(enc_order_date(v).len() > 0 && !is_digit(enc_order_date(v)[0])) by {
        reveal(enc_order_date);
        reveal_strlit(",\"date_created\":");
    }
    lemma_field_u64_rt(s, i11, (",\"sm_id\":")@, v.sm_id, enc_order_date(v));
    let i12 = i11 + (",\"sm_id\":")@.len() + enc_u64(v.sm_id).len();
    assert(enc_order_date(v) == (",\"date_created\":")@ + (enc_string(v.date_created)
        + enc_order_oof(v))) by {
        reveal(enc_order_date);
    }
    lemma_field_string_rt(s, i12, (",\"date_created\":")@, v.date_created, enc_order_oof(v));
    let i13 = i12 + (",\"date_created\":")@.len() + enc_string(v.date_created).len();
    assert(enc_order_oof(v) == (",\"oof_shard\":")@ + (enc_string(v.oof_shard) + ("}")@)) by {
        reveal(enc_order_oof);
    }
    lemma_field_string_rt(s, i13, (",\"oof_shard\":")@, v.oof_shard, ("}")@);
    let i14 = i13 + (",\"oof_shard\":")@.len() + enc_string(v.oof_shard).len();
    assert(spec_parse_order_tail(s, i6) == Some(
        (
            (
                v.locale,
                v.internal_signature,
                v.customer_id,
                v.delivery_service,
                v.shardkey,
                v.sm_id,
                v.date_created,
                v.oof_shard,
            ),
            i14 + ("}")@.len(),
        ),
    ));
}

/// Soundness for a whole order document.
pub proof fn lemma_order_sound(s: Seq<char>, i: int, v: OrderView, j: int)
    requires
        spec_parse_order(s, i) == Some((v, j)),
    ensures
        v.payment.payment_dt >= 0,
        matches_at(s, i, enc_order(v)),
        j == i + enc_order(v).len(),
        i < j <= s.len(),
{
    let f0 = spec_parse_field_string(s, i, ("{\"order_uid\":")@);
    assert(f0 is Some);
    let (x_uid, i1) = f0->Some_0;
    lemma_field_string_sound(s, i, ("{\"order_uid\":")@, x_uid, i1);
    let f1 = spec_parse_field_string(s, i1, (",\"track_number\":")@);
    assert(f1 is Some);
    let (x_track, i2) = f1->Some_0;
    lemma_field_string_sound(s, i1, (",\"track_number\":")@, x_track, i2);
    let f2 = spec_parse_field_string(s, i2, (",\"entry\":")@);
    assert(f2 is Some);
    let (x_entry, i3) = f2->Some_0;
    lemma_field_string_sound(s, i2, (",\"entry\":")@, x_entry, i3);
    let l3 = spec_parse_lit(s, i3, (",\"delivery\":")@);
    assert(l3 is Some);
    assert(matches_at(s, i3, (",\"delivery\":")@));
    let i3a = i3 + (",\"delivery\":")@.len();
    let pd = spec_parse_delivery(s, i3a);
    assert(pd is Some);
    let (x_delivery, i4) = pd->Some_0;
    lemma_delivery_sound(s, i3a, x_delivery, i4);
    let l4 = spec_parse_lit(s, i4, (",\"payment\":")@);
    assert(l4 is Some);
    assert(matches_at(s, i4, (",\"payment\":")@));
    let i4a = i4 + (",\"payment\":")@.len();
    let pp = spec_parse_payment(s, i4a);
    assert(pp is Some);
    let (x_payment, i5) = pp->Some_0;
    lemma_payment_sound(s, i4a, x_payment, i5);
    let l5 = spec_parse_lit(s, i5, (",\"items\":")@);
    assert(l5 is Some);
    assert(matches_at(s, i5, (",\"items\":")@));
    let i5a = i5 + (",\"items\":")@.len();
    let pi = spec_parse_items(s, i5a);
    assert(pi is Some);
    let (x_items, i6) = pi->Some_0;
    lemma_items_sound(s, i5a, x_items, i6);
    let f6 = spec_parse_field_string(s, i6, (",\"locale\":")@);
    assert(f6 is Some);
    let (x_locale, i7) = f6->Some_0;
    lemma_field_string_sound(s, i6, (",\"locale\":")@, x_locale, i7);
    let f7 = spec_parse_field_string(s, i7, (",\"internal_signature\":")@);
    assert(f7 is Some);
    let (x_sig, i8) = f7->Some_0;
    lemma_field_string_sound(s, i7, (",\"internal_signature\":")@, x_sig, i8);
    let f8 = spec_parse_field_string(s, i8, (",\"customer_id\":")@);
    assert(f8 is Some);
    let (x_customer, i9) = f8->Some_0;
    lemma_field_string_sound(s, i8, (",\"customer_id\":")@, x_customer, i9);
    let f9 = spec_parse_field_string(s, i9, (",\"delivery_service\":")@);
    assert(f9 is Some);
    let (x_service, i10) = f9->Some_0;
    lemma_field_string_sound(s, i9, (",\"delivery_service\":")@, x_service, i10);
    let f10 = spec_parse_field_string(s, i10, (",\"shardkey\":")@);
    assert(f10 is Some);
    let (x_shardkey, i11) = f10->Some_0;
    lemma_field_string_sound(s, i10, (",\"shardkey\":")@, x_shardkey, i11);
    let f11 = spec_parse_field_u64(s, i11, (",\"sm_id\":")@);
    assert(f11 is Some);
    let (x_sm_id, i12) = f11->Some_0;
    lemma_field_u64_sound(s, i11, (",\"sm_id\":")@, x_sm_id, i12);
    let f12 = spec_parse_field_string(s, i12, (",\"date_created\":")@);
    assert(f12 is Some);
    let (x_date, i13) = f12->Some_0;
    lemma_field_string_sound(s, i12, (",\"date_created\":")@, x_date, i13);
    let f13 = spec_parse_field_string(s, i13, (",\"oof_shard\":")@);
    assert(f13 is Some);
    let (x_oof, i14) = f13->Some_0;
    lemma_field_string_sound(s, i13, (",\"oof_shard\":")@, x_oof, i14);
    let fb = spec_parse_lit(s, i14, ("}")@);
    assert(fb is Some);
    assert(matches_at(s, i14, ("}")@));
    assert(v == OrderView {
        order_uid: x_uid,
        track_number: x_track,
        entry: x_entry,
        delivery: x_delivery,
        payment: x_payment,
        items: x_items,
        locale: x_locale,
        internal_signature: x_sig,
        customer_id: x_customer,
        delivery_service: x_service,
        shardkey: x_shardkey,
        sm_id: x_sm_id,
        date_created: x_date,
        oof_shard: x_oof,
    });
    assert(j == i14 + ("}")@.len());
    lemma_assemble(s, i13, (",\"oof_shard\":")@, enc_string(v.oof_shard), ("}")@);
    assert(matches_at(s, i13, enc_order_oof(v))) by {
        reveal(enc_order_oof);
    }
    assert(enc_order_oof(v).len() == (",\"oof_shard\":")@.len() + enc_string(v.oof_shard).len()
        + ("}")@.len()) by {
        reveal(enc_order_oof);
    }
    lemma_assemble(s, i12, (",\"date_created\":")@, enc_string(v.date_created), enc_order_oof(v));
    assert(matches_at(s, i12, enc_order_date(v))) by {
        reveal(enc_order_date);
    }
    assert(enc_order_date(v).len() == (",\"date_created\":")@.len() + enc_string(
        v.date_created,
    ).len() + enc_order_oof(v).len()) by {
        reveal(enc_order_date);
    }
    lemma_assemble(s, i11, (",\"sm_id\":")@, enc_u64(v.sm_id), enc_order_date(v));
    assert(matches_at(s, i11, enc_order_sm_id(v))) by {
        reveal(enc_order_sm_id);
    }
    assert(enc_order_sm_id(v).len() == (",\"sm_id\":")@.len() + enc_u64(v.sm_id).len()
        + enc_order_date(v).len()) by {
        reveal(enc_order_sm_id);
    }
    lemma_assemble(s, i10, (",\"shardkey\":")@, enc_string(v.shardkey), enc_order_sm_id(v));
    assert(matches_at(s, i10, enc_order_shardkey(v))) by {
        reveal(enc_order_shardkey);
    }
    assert(enc_order_shardkey(v).len() == (",\"shardkey\":")@.len() + enc_string(v.shardkey).len()
        + enc_order_sm_id(v).len()) by {
        reveal(enc_order_shardkey);
    }
    lemma_assemble(
        s,
        i9,
        (",\"delivery_service\":")@,
        enc_string(v.delivery_service),
        enc_order_shardkey(v),
    );
    assert(matches_at(s, i9, enc_order_service(v))) by {
        reveal(enc_order_service);
    }
    assert(enc_order_service(v).len() == (",\"delivery_service\":")@.len() + enc_string(
        v.delivery_service,
    ).len() + enc_order_shardkey(v).len()) by {
        reveal(enc_order_service);
    }
    lemma_assemble(s, i8, (",\"customer_id\":")@, enc_string(v.customer_id), enc_order_service(v));
    assert(matches_at(s, i8, enc_order_customer(v))) by {
        reveal(enc_order_customer);
    }
    assert(enc_order_customer(v).len() == (",\"customer_id\":")@.len() + enc_string(
        v.customer_id,
    ).len() + enc_order_service(v).len()) by {
        reveal(enc_order_customer);
    }
    lemma_assemble(
        s,
        i7,
        (",\"internal_signature\":")@,
        enc_string(v.internal_signature),
        enc_order_customer(v),
    );
    assert(matches_at(s, i7, enc_order_signature(v))) by {
        reveal(enc_order_signature);
    }
    assert(enc_order_signature(v).len() == (",\"internal_signature\":")@.len() + enc_string(
        v.internal_signature,
    ).len() + enc_order_customer(v).len()) by {
        reveal(enc_order_signature);
    }
    lemma_assemble(s, i6, (",\"locale\":")@, enc_string(v.locale), enc_order_signature(v));
    assert(matches_at(s, i6, enc_order_locale(v))) by {
        reveal(enc_order_locale);
    }
    assert(enc_order_locale(v).len() == (",\"locale\":")@.len() + enc_string(v.locale).len()
        + enc_order_signature(v).len()) by {
        reveal(enc_order_locale);
    }
    lemma_assemble(s, i5, (",\"items\":")@, enc_items(v.items), enc_order_locale(v));
    assert(matches_at(s, i5, enc_order_items(v))) by {
        reveal(enc_order_items);
    }
    assert(enc_order_items(v).len() == (",\"items\":")@.len() + enc_items(v.items).len()
        + enc_order_locale(v).len()) by {
        reveal(enc_order_items);
    }
    lemma_assemble(s, i4, (",\"payment\":")@, enc_payment(v.payment), enc_order_items(v));
    assert(matches_at(s, i4, enc_order_payment(v))) by {
        reveal(enc_order_payment);
    }
    assert(enc_order_payment(v).len() == (",\"payment\":")@.len() + enc_payment(v.payment).len()
        + enc_order_items(v).len()) by {
        reveal(enc_order_payment);
    }
    lemma_assemble(s, i3, (",\"delivery\":")@, enc_delivery(v.delivery), enc_order_payment(v));
    assert(matches_at(s, i3, enc_order_delivery(v))) by {
        reveal(enc_order_delivery);
    }
    assert(enc_order_delivery(v).len() == (",\"delivery\":")@.len() + enc_delivery(
        v.delivery,
    ).len() + enc_order_payment(v).len()) by {
        reveal(enc_order_delivery);
    }
    lemma_assemble(s, i2, (",\"entry\":")@, enc_string(v.entry), enc_order_delivery(v));
    assert(matches_at(s, i2, enc_order_entry(v))) by {
        reveal(enc_order_entry);
    }
    assert(enc_order_entry(v).len() == (",\"entry\":")@.len() + enc_string(v.entry).len()
        + enc_order_delivery(v).len()) by {
        reveal(enc_order_entry);
    }
    lemma_assemble(s, i1, (",\"track_number\":")@, enc_string(v.track_number), enc_order_entry(v));
    assert(matches_at(s, i1, enc_order_track(v))) by {
        reveal(enc_order_track);
    }
    assert(enc_order_track(v).len() == (",\"track_number\":")@.len() + enc_string(
        v.track_number,
    ).len() + enc_order_entry(v).len()) by {
        reveal(enc_order_track);
    }
    lemma_assemble(s, i, ("{\"order_uid\":")@, enc_string(v.order_uid), enc_order_track(v));
    assert(matches_at(s, i, enc_order(v))) by {
        reveal(enc_order);
    }
    assert(enc_order(v).len() == ("{\"order_uid\":")@.len() + enc_string(v.order_uid).len()
        + enc_order_track(v).len()) by {
        reveal(enc_order);
    }
}

/// Decoding inverts encoding: the canonical text of any valid document
/// reads back as exactly that document, field for field, items in order.
pub proof fn lemma_codec_round_trip(v: OrderView)
    requires
        valid_order(v),
    ensures
        spec_parse_order(enc_order(v), 0) == Some((v, enc_order(v).len() as int)),
{
    let s = enc_order(v);
    assert(s.subrange(0, s.len() as int) =~= s);
    assert(matches_at(s, 0, enc_order(v)));
    lemma_order_rt(s, 0, v);
}

/// Two documents with non-negative payment timestamps and the same encoding
/// are the same document: the wire format is lossless.
pub proof fn lemma_enc_order_injective(v1: OrderView, v2: OrderView)
    requires
        enc_order(v1) == enc_order(v2),
        v1.payment.payment_dt >= 0,
        v2.payment.payment_dt >= 0,
    ensures
        v1 == v2,
{
    let s = enc_order(v1);
    assert(s.subrange(0, s.len() as int) =~= s);
    assert(matches_at(s, 0, enc_order(v1)));
    assert(matches_at(s, 0, enc_order(v2)));
    lemma_order_rt(s, 0, v1);
    lemma_order_rt(s, 0, v2);
}

/// Deserializes wire text back into an order document. Returns the document
/// exactly when the text is the canonical encoding of a valid document:
/// anything else, including text that parses but fails validation, is
/// rejected.
pub fn decode_order(s: &str) -> (r: Option<Order>)
    ensures
        r matches Some(d) ==> valid_order(d@) && enc_order(d@) == s@,
        r is None ==> forall|v: OrderView| valid_order(v) ==> enc_order(v) != s@,
{
    let chars = string_to_chars(s);
    let parsed = parse_order(&chars, 0);
    match parsed {
        Some((d, j)) => {
            if j == chars.len() {
                match crate::schema::validate_order(&d) {
                    Ok(()) => {
                        proof {
                            lemma_order_sound(chars@, 0, d@, j as int);
                            assert(chars@.subrange(0, j as int) =~= chars@);
                            assert(enc_order(d@) == s@);
                        }
                        Some(d)
                    },
                    Err(_) => {
                        proof {
                            assert forall|v: OrderView| valid_order(v) implies enc_order(v)
                                != s@ by {
                                if enc_order(v) == s@ {
                                    assert(chars@.subrange(0, chars@.len() as int) =~= chars@);
                                    assert(matches_at(chars@, 0, enc_order(v)));
                                    lemma_order_rt(chars@, 0, v);
                                    assert(d@ == v);
                                    assert(false);
                                }
                            }
                        }
                        None
                    },
                }
            } else {
                proof {
                    assert forall|v: OrderView| valid_order(v) implies enc_order(v) != s@ by {
                        if enc_order(v) == s@ {
                            assert(chars@.subrange(0, chars@.len() as int) =~= chars@);
                            assert(matches_at(chars@, 0, enc_order(v)));
                            lemma_order_rt(chars@, 0, v);
                            assert(false);
                        }
                    }
                }
                None
            }
        },
        None => {
            proof {
                assert forall|v: OrderView| valid_order(v) implies enc_order(v) != s@ by {
                    if enc_order(v) == s@ {
                        assert(chars@.subrange(0, chars@.len() as int) =~= chars@);
                        assert(matches_at(chars@, 0, enc_order(v)));
                        lemma_order_rt(chars@, 0, v);
                        assert(false);
                    }
                }
            }
            None
        },
    }
}

} // verus!
