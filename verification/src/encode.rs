//! The wire format of an order document: a canonical JSON text. This module
//! defines the encoding mathematically (`enc_order` and its helpers) and
//! implements the verified encoder against that definition.
//!
//! The encoding is canonical: fields appear in a fixed order, with no
//! whitespace, numbers in plain decimal without leading zeros, and strings
//! quoted with `"` and `\` escaped by a backslash. Each record's encoding is
//! written as a chain of suffix functions, one per field, so that proofs can
//! peel the encoding one field at a time.

use vstd::prelude::*;

use crate::chars::chars_to_string;
use crate::schema::{
    items_view, DeliveryInfo, DeliveryView, ItemView, ItemsInfo, Order, OrderView, PaymentInfo,
    PaymentView,
};

verus! {

/// Whether a character is a decimal digit.
pub open spec fn is_digit(c: char) -> bool {
    c == '0' || c == '1' || c == '2' || c == '3' || c == '4' || c == '5' || c == '6' || c == '7'
        || c == '8' || c == '9'
}

/// The numeric value of a decimal digit character (10 for non-digits).
pub open spec fn digit_value(c: char) -> nat {
    if c == '0' {
        0
    } else if c == '1' {
        1
    } else if c == '2' {
        2
    } else if c == '3' {
        3
    } else if c == '4' {
        4
    } else if c == '5' {
        5
    } else if c == '6' {
        6
    } else if c == '7' {
        7
    } else if c == '8' {
        8
    } else if c == '9' {
        9
    } else {
        10
    }
}

/// The decimal digit character for a value below ten.
pub open spec fn digit_char(n: nat) -> char {
    if n == 0 {
        '0'
    } else if n == 1 {
        '1'
    } else if n == 2 {
        '2'
    } else if n == 3 {
        '3'
    } else if n == 4 {
        '4'
    } else if n == 5 {
        '5'
    } else if n == 6 {
        '6'
    } else if n == 7 {
        '7'
    } else if n == 8 {
        '8'
    } else {
        '9'
    }
}

/// The decimal representation of a natural number, most significant digit
/// first, with no leading zeros.
pub open spec fn dec_digits(n: nat) -> Seq<char>
    decreases n,
{
    if n < 10 {
        seq![digit_char(n)]
    } else {
        dec_digits(n / 10) + seq![digit_char(n % 10)]
    }
}

/// The encoding of an unsigned 64-bit field.
pub open spec fn enc_u64(n: u64) -> Seq<char> {
    dec_digits(n as nat)
}

/// The encoding of an unsigned 32-bit field.
pub open spec fn enc_u32(n: u32) -> Seq<char> {
    dec_digits(n as nat)
}

/// The encoding of a non-negative signed 64-bit field. Negative values have
/// no encoding; validation rejects them before any document is encoded.
pub open spec fn enc_i64(n: i64) -> Seq<char> {
    if n >= 0 {
        dec_digits(n as nat)
    } else {
        Seq::empty()
    }
}

/// The escape expansion of one string character: `"` and `\` are preceded
/// by a backslash, every other character stands for itself.
pub open spec fn esc_char(c: char) -> Seq<char> {
    if c == '"' || c == '\\' {
        seq!['\\', c]
    } else {
        seq![c]
    }
}

/// The escape expansion of a whole string body.
pub open spec fn esc_seq(s: Seq<char>) -> Seq<char>
    decreases s.len(),
{
    if s.len() == 0 {
        Seq::empty()
    } else {
        esc_char(s[0]) + esc_seq(s.drop_first())
    }
}

/// The encoding of a string field: the escaped body between double quotes.
pub open spec fn enc_string(s: Seq<char>) -> Seq<char> {
    seq!['"'] + esc_seq(s) + seq!['"']
}

/// The delivery encoding from the phone field on.
#[verifier::opaque]
pub open spec fn enc_delivery_phone(v: DeliveryView) -> Seq<char> {
    (",\"phone\":")@ + (enc_string(v.phone) + enc_delivery_zip(v))
}

/// The delivery encoding from the zip field on.
#[verifier::opaque]
pub open spec fn enc_delivery_zip(v: DeliveryView) -> Seq<char> {
    (",\"zip\":")@ + (enc_string(v.zip) + enc_delivery_city(v))
}

/// The delivery encoding from the city field on.
#[verifier::opaque]
pub open spec fn enc_delivery_city(v: DeliveryView) -> Seq<char> {
    (",\"city\":")@ + (enc_string(v.city) + enc_delivery_address(v))
}

/// The delivery encoding from the address field on.
#[verifier::opaque]
pub open spec fn enc_delivery_address(v: DeliveryView) -> Seq<char> {
    (",\"address\":")@ + (enc_string(v.address) + enc_delivery_region(v))
}

/// The delivery encoding from the region field on.
#[verifier::opaque]
pub open spec fn enc_delivery_region(v: DeliveryView) -> Seq<char> {
    (",\"region\":")@ + (enc_string(v.region) + enc_delivery_email(v))
}

/// The delivery encoding from the email field to the closing brace.
#[verifier::opaque]
pub open spec fn enc_delivery_email(v: DeliveryView) -> Seq<char> {
    (",\"email\":")@ + (enc_string(v.email) + ("}")@)
}

/// The encoding of a delivery record.
#[verifier::opaque]
pub open spec fn enc_delivery(v: DeliveryView) -> Seq<char> {
    ("{\"name\":")@ + (enc_string(v.name) + enc_delivery_phone(v))
}

/// The payment encoding from the request id on.
#[verifier::opaque]
pub open spec fn enc_payment_request_id(v: PaymentView) -> Seq<char> {
    (",\"request_id\":")@ + (enc_string(v.request_id) + enc_payment_currency(v))
}

/// The payment encoding from the currency on.
#[verifier::opaque]
pub open spec fn enc_payment_currency(v: PaymentView) -> Seq<char> {
    (",\"currency\":")@ + (enc_string(v.currency) + enc_payment_provider(v))
}

/// The payment encoding from the provider on.
#[verifier::opaque]
pub open spec fn enc_payment_provider(v: PaymentView) -> Seq<char> {
    (",\"provider\":")@ + (enc_string(v.provider) + enc_payment_amount(v))
}

/// The payment encoding from the amount on.
#[verifier::opaque]
pub open spec fn enc_payment_amount(v: PaymentView) -> Seq<char> {
    (",\"amount\":")@ + (enc_u32(v.amount) + enc_payment_dt(v))
}

/// The payment encoding from the payment timestamp on.
#[verifier::opaque]
pub open spec fn enc_payment_dt(v: PaymentView) -> Seq<char> {
    (",\"payment_dt\":")@ + (enc_i64(v.payment_dt) + enc_payment_bank(v))
}

/// The payment encoding from the bank on.
#[verifier::opaque]
pub open spec fn enc_payment_bank(v: PaymentView) -> Seq<char> {
    (",\"bank\":")@ + (enc_string(v.bank) + enc_payment_delivery_cost(v))
}

/// The payment encoding from the delivery cost on.
#[verifier::opaque]
pub open spec fn enc_payment_delivery_cost(v: PaymentView) -> Seq<char> {
    (",\"delivery_cost\":")@ + (enc_u32(v.delivery_cost) + enc_payment_goods_total(v))
}

/// The payment encoding from the goods total on.
#[verifier::opaque]
pub open spec fn enc_payment_goods_total(v: PaymentView) -> Seq<char> {
    (",\"goods_total\":")@ + (enc_u32(v.goods_total) + enc_payment_custom_fee(v))
}

/// The payment encoding from the custom fee to the closing brace.
#[verifier::opaque]
pub open spec fn enc_payment_custom_fee(v: PaymentView) -> Seq<char> {
    (",\"custom_fee\":")@ + (enc_u32(v.custom_fee) + ("}")@)
}

/// The encoding of a payment record.
#[verifier::opaque]
pub open spec fn enc_payment(v: PaymentView) -> Seq<char> {
    ("{\"transaction\":")@ + (enc_string(v.transaction) + enc_payment_request_id(v))
}

/// The item encoding from the track number on.
#[verifier::opaque]
pub open spec fn enc_item_track(v: ItemView) -> Seq<char> {
    (",\"track_number\":")@ + (enc_string(v.track_number) + enc_item_price(v))
}

/// The item encoding from the price on.
#[verifier::opaque]
pub open spec fn enc_item_price(v: ItemView) -> Seq<char> {
    (",\"price\":")@ + (enc_u32(v.price) + enc_item_rid(v))
}

/// The item encoding from the request id on.
#[verifier::opaque]
pub open spec fn enc_item_rid(v: ItemView) -> Seq<char> {
    (",\"rid\":")@ + (enc_string(v.rid) + enc_item_name(v))
}

/// The item encoding from the name on.
#[verifier::opaque]
pub open spec fn enc_item_name(v: ItemView) -> Seq<char> {
    (",\"name\":")@ + (enc_string(v.name) + enc_item_sale(v))
}

/// The item encoding from the sale percentage on.
#[verifier::opaque]
pub open spec fn enc_item_sale(v: ItemView) -> Seq<char> {
    (",\"sale\":")@ + (enc_u32(v.sale) + enc_item_size(v))
}

/// The item encoding from the size on.
#[verifier::opaque]
pub open spec fn enc_item_size(v: ItemView) -> Seq<char> {
    (",\"size\":")@ + (enc_string(v.size) + enc_item_total_price(v))
}

/// The item encoding from the total price on.
#[verifier::opaque]
pub open spec fn enc_item_total_price(v: ItemView) -> Seq<char> {
    (",\"total_price\":")@ + (enc_u32(v.total_price) + enc_item_nm_id(v))
}

/// The item encoding from the catalog numeric id on.
#[verifier::opaque]
pub open spec fn enc_item_nm_id(v: ItemView) -> Seq<char> {
    (",\"nm_id\":")@ + (enc_u64(v.nm_id) + enc_item_brand(v))
}

/// The item encoding from the brand on.
#[verifier::opaque]
pub open spec fn enc_item_brand(v: ItemView) -> Seq<char> {
    (",\"brand\":")@ + (enc_string(v.brand) + enc_item_status(v))
}

/// The item encoding from the status code to the closing brace.
#[verifier::opaque]
pub open spec fn enc_item_status(v: ItemView) -> Seq<char> {
    (",\"status\":")@ + (enc_u32(v.status) + ("}")@)
}

/// The encoding of one line item.
#[verifier::opaque]
pub open spec fn enc_item(v: ItemView) -> Seq<char> {
    ("{\"chrt_id\":")@ + (enc_u64(v.chrt_id) + enc_item_track(v))
}

/// The encoding of the items after the first one, each preceded by a comma,
/// with the closing bracket at the end.
pub open spec fn enc_items_tail(items: Seq<ItemView>) -> Seq<char>
    decreases items.len(),
{
    if items.len() == 0 {
        ("]")@
    } else {
        (",")@ + (enc_item(items[0]) + enc_items_tail(items.drop_first()))
    }
}

/// The inside of an item array, after the opening bracket.
pub open spec fn enc_items_inner(items: Seq<ItemView>) -> Seq<char> {
    if items.len() == 0 {
        ("]")@
    } else {
        enc_item(items[0]) + enc_items_tail(items.drop_first())
    }
}

/// The encoding of the item array, input order preserved.
pub open spec fn enc_items(items: Seq<ItemView>) -> Seq<char> {
    ("[")@ + enc_items_inner(items)
}

/// The order encoding from the track number on.
#[verifier::opaque]
pub open spec fn enc_order_track(v: OrderView) -> Seq<char> {
    (",\"track_number\":")@ + (enc_string(v.track_number) + enc_order_entry(v))
}

/// The order encoding from the entry tag on.
#[verifier::opaque]
pub open spec fn enc_order_entry(v: OrderView) -> Seq<char> {
    (",\"entry\":")@ + (enc_string(v.entry) + enc_order_delivery(v))
}

/// The order encoding from the delivery record on.
#[verifier::opaque]
pub open spec fn enc_order_delivery(v: OrderView) -> Seq<char> {
    (",\"delivery\":")@ + (enc_delivery(v.delivery) + enc_order_payment(v))
}

/// The order encoding from the payment record on.
#[verifier::opaque]
pub open spec fn enc_order_payment(v: OrderView) -> Seq<char> {
    (",\"payment\":")@ + (enc_payment(v.payment) + enc_order_items(v))
}

/// The order encoding from the item array on.
#[verifier::opaque]
pub open spec fn enc_order_items(v: OrderView) -> Seq<char> {
    (",\"items\":")@ + (enc_items(v.items) + enc_order_locale(v))
}

/// The order encoding from the locale on.
#[verifier::opaque]
pub open spec fn enc_order_locale(v: OrderView) -> Seq<char> {
    (",\"locale\":")@ + (enc_string(v.locale) + enc_order_signature(v))
}

/// The order encoding from the internal signature on.
#[verifier::opaque]
pub open spec fn enc_order_signature(v: OrderView) -> Seq<char> {
    (",\"internal_signature\":")@ + (enc_string(v.internal_signature) + enc_order_customer(v))
}

/// The order encoding from the customer id on.
#[verifier::opaque]
pub open spec fn enc_order_customer(v: OrderView) -> Seq<char> {
    (",\"customer_id\":")@ + (enc_string(v.customer_id) + enc_order_service(v))
}

/// The order encoding from the delivery-service name on.
#[verifier::opaque]
pub open spec fn enc_order_service(v: OrderView) -> Seq<char> {
    (",\"delivery_service\":")@ + (enc_string(v.delivery_service) + enc_order_shardkey(v))
}

/// The order encoding from the shard key on.
#[verifier::opaque]
pub open spec fn enc_order_shardkey(v: OrderView) -> Seq<char> {
    (",\"shardkey\":")@ + (enc_string(v.shardkey) + enc_order_sm_id(v))
}

/// The order encoding from the shard-manager id on.
#[verifier::opaque]
pub open spec fn enc_order_sm_id(v: OrderView) -> Seq<char> {
    (",\"sm_id\":")@ + (enc_u64(v.sm_id) + enc_order_date(v))
}

/// The order encoding from the creation timestamp on.
#[verifier::opaque]
pub open spec fn enc_order_date(v: OrderView) -> Seq<char> {
    (",\"date_created\":")@ + (enc_string(v.date_created) + enc_order_oof(v))
}

/// The order encoding from the out-of-shard flag to the closing brace.
#[verifier::opaque]
pub open spec fn enc_order_oof(v: OrderView) -> Seq<char> {
    (",\"oof_shard\":")@ + (enc_string(v.oof_shard) + ("}")@)
}

/// The encoding of a whole order document.
#[verifier::opaque]
pub open spec fn enc_order(v: OrderView) -> Seq<char> {
    ("{\"order_uid\":")@ + (enc_string(v.order_uid) + enc_order_track(v))
}

/// Appending one character to a string appends its escape expansion to the
/// escaped body.
pub proof fn lemma_esc_seq_push(s: Seq<char>, c: char)
    ensures
        esc_seq(s.push(c)) == esc_seq(s) + esc_char(c),
    decreases s.len(),
{
    if s.len() == 0 {
        assert(s.push(c)[0] == c);
        assert(s.push(c).drop_first() =~= Seq::<char>::empty());
        assert(esc_seq(s.push(c).drop_first()) == Seq::<char>::empty());
        assert(esc_seq(s.push(c)) == esc_char(c) + Seq::<char>::empty());
        assert(esc_char(c) + Seq::<char>::empty() =~= esc_char(c));
        assert(esc_seq(s) + esc_char(c) =~= esc_char(c));
    } else {
        assert(s.push(c)[0] == s[0]);
        assert(s.push(c).drop_first() =~= s.drop_first().push(c));
        lemma_esc_seq_push(s.drop_first(), c);
        assert(esc_seq(s.push(c)) == esc_char(s[0]) + (esc_seq(s.drop_first()) + esc_char(c)));
        assert(esc_char(s[0]) + (esc_seq(s.drop_first()) + esc_char(c)) =~= (esc_char(s[0])
            + esc_seq(s.drop_first())) + esc_char(c));
    }
}

/// Appends the characters of a literal to the output.
fn push_lit(out: &mut Vec<char>, lit: &str)
    ensures
        final(out)@ == old(out)@ + lit@,
{
    let n = lit.unicode_len();
    let mut i: usize = 0;
    while i < n
        invariant
            n == lit@.len(),
            i <= n,
            out@ == old(out)@ + lit@.take(i as int),
        decreases n - i,
    {
        out.push(lit.get_char(i));
        i = i + 1;
        proof {
            assert(old(out)@ + lit@.take(i - 1) + seq![lit@[i - 1]] =~= old(out)@ + lit@.take(
                i as int,
            ));
        }
    }
    proof {
        assert(lit@.take(n as int) =~= lit@);
    }
}

/// Appends the decimal digits of a number to the output.
fn push_digits(out: &mut Vec<char>, n: u64)
    ensures
        final(out)@ == old(out)@ + dec_digits(n as nat),
    decreases n,
{
    if n >= 10 {
        push_digits(out, n / 10);
    }
    let d = n % 10;
    let c = if d == 0 {
        '0'
    } else if d == 1 {
        '1'
    } else if d == 2 {
        '2'
    } else if d == 3 {
        '3'
    } else if d == 4 {
        '4'
    } else if d == 5 {
        '5'
    } else if d == 6 {
        '6'
    } else if d == 7 {
        '7'
    } else if d == 8 {
        '8'
    } else {
        '9'
    };
    proof {
        assert(c == digit_char((n % 10) as nat));
    }
    out.push(c);
    proof {
        if n < 10 {
            assert(n % 10 == n);
            assert(old(out)@ + seq![digit_char(n as nat)] =~= old(out)@ + dec_digits(n as nat));
        } else {
            assert((old(out)@ + dec_digits((n / 10) as nat)) + seq![digit_char((n % 10) as nat)]
                =~= old(out)@ + (dec_digits((n / 10) as nat) + seq![digit_char((n % 10) as nat)]));
        }
    }
}

/// Appends the quoted, escaped form of a string to the output.
fn push_escaped(out: &mut Vec<char>, s: &str)
    ensures
        final(out)@ == old(out)@ + enc_string(s@),
{
    out.push('"');
    let n = s.unicode_len();
    let mut i: usize = 0;
    while i < n
        invariant
            n == s@.len(),
            i <= n,
            out@ == old(out)@ + seq!['"'] + esc_seq(s@.take(i as int)),
        decreases n - i,
    {
        let c = s.get_char(i);
        if c == '"' || c == '\\' {
            out.push('\\');
        }
        out.push(c);
        i = i + 1;
        proof {
            lemma_esc_seq_push(s@.take(i - 1), s@[i - 1]);
            assert(s@.take(i - 1).push(s@[i - 1]) =~= s@.take(i as int));
            assert(old(out)@ + seq!['"'] + esc_seq(s@.take(i - 1)) + esc_char(s@[i - 1]) =~= old(
                out,
            )@ + seq!['"'] + esc_seq(s@.take(i as int)));
        }
    }
    out.push('"');
    proof {
        assert(s@.take(n as int) =~= s@);
        assert(old(out)@ + seq!['"'] + esc_seq(s@) + seq!['"'] =~= old(out)@ + enc_string(s@));
    }
}

/// Appends the encoding of a delivery record to the output.
fn push_delivery(out: &mut Vec<char>, d: &DeliveryInfo)
    ensures
        final(out)@ == old(out)@ + enc_delivery(d@),
{
    push_lit(out, "{\"name\":");
    push_escaped(out, d.name.as_str());
    let ghost o1 = out@;
    push_lit(out, ",\"phone\":");
    push_escaped(out, d.phone.as_str());
    let ghost o2 = out@;
    push_lit(out, ",\"zip\":");
    push_escaped(out, d.zip.as_str());
    let ghost o3 = out@;
    push_lit(out, ",\"city\":");
    push_escaped(out, d.city.as_str());
    let ghost o4 = out@;
    push_lit(out, ",\"address\":");
    push_escaped(out, d.address.as_str());
    let ghost o5 = out@;
    push_lit(out, ",\"region\":");
    push_escaped(out, d.region.as_str());
    let ghost o6 = out@;
    push_lit(out, ",\"email\":");
    push_escaped(out, d.email.as_str());
    push_lit(out, "}");
    proof {
        assert(out@ =~= o6 + enc_delivery_email(d@)) by {
            reveal(enc_delivery_email);
        }
        assert(out@ =~= o5 + enc_delivery_region(d@)) by {
            reveal(enc_delivery_region);
        }
        assert(out@ =~= o4 + enc_delivery_address(d@)) by {
            reveal(enc_delivery_address);
        }
        assert(out@ =~= o3 + enc_delivery_city(d@)) by {
            reveal(enc_delivery_city);
        }
        assert(out@ =~= o2 + enc_delivery_zip(d@)) by {
            reveal(enc_delivery_zip);
        }
        assert(out@ =~= o1 + enc_delivery_phone(d@)) by {
            reveal(enc_delivery_phone);
        }
        assert(out@ =~= old(out)@ + enc_delivery(d@)) by {
            reveal(enc_delivery);
        }
    }
}

/// Appends the encoding of a payment record to the output.
fn push_payment(out: &mut Vec<char>, p: &PaymentInfo)
    requires
        p.payment_dt >= 0,
    ensures
        final(out)@ == old(out)@ + enc_payment(p@),
{
    push_lit(out, "{\"transaction\":");
    push_escaped(out, p.transaction.as_str());
    let ghost o1 = out@;
    push_lit(out, ",\"request_id\":");
    push_escaped(out, p.request_id.as_str());
    let ghost o2 = out@;
    push_lit(out, ",\"currency\":");
    push_escaped(out, p.currency.as_str());
    let ghost o3 = out@;
    push_lit(out, ",\"provider\":");
    push_escaped(out, p.provider.as_str());
    let ghost o4 = out@;
    push_lit(out, ",\"amount\":");
    push_digits(out, p.amount as u64);
    let ghost o5 = out@;
    push_lit(out, ",\"payment_dt\":");
    push_digits(out, p.payment_dt as u64);
    let ghost o6 = out@;
    proof {
        assert((p.payment_dt as u64) as nat == p.payment_dt as nat);
        assert(enc_i64(p@.payment_dt) == dec_digits((p.payment_dt as u64) as nat));
    }
    push_lit(out, ",\"bank\":");
    push_escaped(out, p.bank.as_str());
    let ghost o7 = out@;
    push_lit(out, ",\"delivery_cost\":");
    push_digits(out, p.delivery_cost as u64);
    let ghost o8 = out@;
    push_lit(out, ",\"goods_total\":");
    push_digits(out, p.goods_total as u64);
    let ghost o9 = out@;
    push_lit(out, ",\"custom_fee\":");
    push_digits(out, p.custom_fee as u64);
    push_lit(out, "}");
    proof {
        assert(out@ =~= o9 + enc_payment_custom_fee(p@)) by {
            reveal(enc_payment_custom_fee);
        }
        assert(out@ =~= o8 + enc_payment_goods_total(p@)) by {
            reveal(enc_payment_goods_total);
        }
        assert(out@ =~= o7 + enc_payment_delivery_cost(p@)) by {
            reveal(enc_payment_delivery_cost);
        }
        assert(out@ =~= o6 + enc_payment_bank(p@)) by {
            reveal(enc_payment_bank);
        }
        assert(out@ =~= o5 + enc_payment_dt(p@)) by {
            reveal(enc_payment_dt);
        }
        assert(out@ =~= o4 + enc_payment_amount(p@)) by {
            reveal(enc_payment_amount);
        }
        assert(out@ =~= o3 + enc_payment_provider(p@)) by {
            reveal(enc_payment_provider);
        }
        assert(out@ =~= o2 + enc_payment_currency(p@)) by {
            reveal(enc_payment_currency);
        }
        assert(out@ =~= o1 + enc_payment_request_id(p@)) by {
            reveal(enc_payment_request_id);
        }
        assert(out@ =~= old(out)@ + enc_payment(p@)) by {
            reveal(enc_payment);
        }
    }
}

/// Appends the encoding of one line item to the output.
fn push_item(out: &mut Vec<char>, it: &ItemsInfo)
    ensures
        final(out)@ == old(out)@ + enc_item(it@),
{
    push_lit(out, "{\"chrt_id\":");
    push_digits(out, it.chrt_id);
    let ghost o1 = out@;
    push_lit(out, ",\"track_number\":");
    push_escaped(out, it.track_number.as_str());
    let ghost o2 = out@;
    push_lit(out, ",\"price\":");
    push_digits(out, it.price as u64);
    let ghost o3 = out@;
    push_lit(out, ",\"rid\":");
    push_escaped(out, it.rid.as_str());
    let ghost o4 = out@;
    push_lit(out, ",\"name\":");
    push_escaped(out, it.name.as_str());
    let ghost o5 = out@;
    push_lit(out, ",\"sale\":");
    push_digits(out, it.sale as u64);
    let ghost o6 = out@;
    push_lit(out, ",\"size\":");
    push_escaped(out, it.size.as_str());
    let ghost o7 = out@;
    push_lit(out, ",\"total_price\":");
    push_digits(out, it.total_price as u64);
    let ghost o8 = out@;
    push_lit(out, ",\"nm_id\":");
    push_digits(out, it.nm_id);
    let ghost o9 = out@;
    push_lit(out, ",\"brand\":");
    push_escaped(out, it.brand.as_str());
    let ghost o10 = out@;
    push_lit(out, ",\"status\":");
    push_digits(out, it.status as u64);
    push_lit(out, "}");
    proof {
        assert(out@ =~= o10 + enc_item_status(it@)) by {
            reveal(enc_item_status);
        }
        assert(out@ =~= o9 + enc_item_brand(it@)) by {
            reveal(enc_item_brand);
        }
        assert(out@ =~= o8 + enc_item_nm_id(it@)) by {
            reveal(enc_item_nm_id);
        }
        assert(out@ =~= o7 + enc_item_total_price(it@)) by {
            reveal(enc_item_total_price);
        }
        assert(out@ =~= o6 + enc_item_size(it@)) by {
            reveal(enc_item_size);
        }
        assert(out@ =~= o5 + enc_item_sale(it@)) by {
            reveal(enc_item_sale);
        }
        assert(out@ =~= o4 + enc_item_name(it@)) by {
            reveal(enc_item_name);
        }
        assert(out@ =~= o3 + enc_item_rid(it@)) by {
            reveal(enc_item_rid);
        }
        assert(out@ =~= o2 + enc_item_price(it@)) by {
            reveal(enc_item_price);
        }
        assert(out@ =~= o1 + enc_item_track(it@)) by {
            reveal(enc_item_track);
        }
        assert(out@ =~= old(out)@ + enc_item(it@)) by {
            reveal(enc_item);
        }
    }
}

/// Appends the encoding of the item array to the output.
fn push_items(out: &mut Vec<char>, items: &Vec<ItemsInfo>)
    ensures
        final(out)@ == old(out)@ + enc_items(items_view(items@)),
{
    push_lit(out, "[");
    let ghost iv = items_view(items@);
    if items.len() == 0 {
        push_lit(out, "]");
        proof {
            assert(out@ =~= old(out)@ + enc_items(iv));
        }
    } else {
        push_item(out, &items[0]);
        proof {
            assert(iv.drop_first() =~= iv.skip(1));
            assert(out@ + enc_items_tail(iv.skip(1)) =~= old(out)@ + enc_items(iv));
        }
        let mut i: usize = 1;
        while i < items.len()
            invariant
                1 <= i <= items@.len(),
                iv == items_view(items@),
                iv.len() == items@.len(),
                out@ + enc_items_tail(iv.skip(i as int)) == old(out)@ + enc_items(iv),
            decreases items@.len() - i,
        {
            push_lit(out, ",");
            push_item(out, &items[i]);
            i = i + 1;
            proof {
                let rest = iv.skip(i - 1);
                assert(rest.len() > 0);
                assert(rest[0] == iv[i - 1]);
                assert(rest.drop_first() =~= iv.skip(i as int));
                assert(enc_items_tail(rest) == (",")@ + (enc_item(iv[i - 1]) + enc_items_tail(
                    iv.skip(i as int),
                )));
                assert(out@ + enc_items_tail(iv.skip(i as int)) =~= old(out)@ + enc_items(iv));
            }
        }
        proof {
            assert(iv.skip(iv.len() as int) =~= Seq::<ItemView>::empty());
        }
        push_lit(out, "]");
        proof {
            assert(out@ =~= old(out)@ + enc_items(iv));
        }
    }
}

/// Serializes an order document to its canonical wire text. Defined for
/// every document whose payment timestamp is non-negative; validation
/// guarantees that on the write path.
#[verifier::rlimit(60)]
pub fn encode_order(d: &Order) -> (r: String)
    requires
        d@.payment.payment_dt >= 0,
    ensures
        r@ == enc_order(d@),
{
    let mut out: Vec<char> = Vec::new();
    push_lit(&mut out, "{\"order_uid\":");
    push_escaped(&mut out, d.order_uid.as_str());
    let ghost o1 = out@;
    push_lit(&mut out, ",\"track_number\":");
    push_escaped(&mut out, d.track_number.as_str());
    let ghost o2 = out@;
    push_lit(&mut out, ",\"entry\":");
    push_escaped(&mut out, d.entry.as_str());
    let ghost o3 = out@;
    push_lit(&mut out, ",\"delivery\":");
    push_delivery(&mut out, &d.delivery);
    let ghost o4 = out@;
    push_lit(&mut out, ",\"payment\":");
    push_payment(&mut out, &d.payment);
    let ghost o5 = out@;
    push_lit(&mut out, ",\"items\":");
    push_items(&mut out, &d.items);
    let ghost o6 = out@;
    push_lit(&mut out, ",\"locale\":");
    push_escaped(&mut out, d.locale.as_str());
    let ghost o7 = out@;
    push_lit(&mut out, ",\"internal_signature\":");
    push_escaped(&mut out, d.internal_signature.as_str());
    let ghost o8 = out@;
    push_lit(&mut out, ",\"customer_id\":");
    push_escaped(&mut out, d.customer_id.as_str());
    let ghost o9 = out@;
    push_lit(&mut out, ",\"delivery_service\":");
    push_escaped(&mut out, d.delivery_service.as_str());
    let ghost o10 = out@;
    push_lit(&mut out, ",\"shardkey\":");
    push_escaped(&mut out, d.shardkey.as_str());
    let ghost o11 = out@;
    push_lit(&mut out, ",\"sm_id\":");
    push_digits(&mut out, d.sm_id);
    let ghost o12 = out@;
    push_lit(&mut out, ",\"date_created\":");
    push_escaped(&mut out, d.date_created.as_str());
    let ghost o13 = out@;
    push_lit(&mut out, ",\"oof_shard\":");
    push_escaped(&mut out, d.oof_shard.as_str());
    push_lit(&mut out, "}");
    proof {
        assert(out@ =~= o13 + enc_order_oof(d@)) by {
            reveal(enc_order_oof);
        }
        assert(out@ =~= o12 + enc_order_date(d@)) by {
            reveal(enc_order_date);
        }
        assert(out@ =~= o11 + enc_order_sm_id(d@)) by {
            reveal(enc_order_sm_id);
        }
        assert(out@ =~= o10 + enc_order_shardkey(d@)) by {
            reveal(enc_order_shardkey);
        }
        assert(out@ =~= o9 + enc_order_service(d@)) by {
            reveal(enc_order_service);
        }
        assert(out@ =~= o8 + enc_order_customer(d@)) by {
            reveal(enc_order_customer);
        }
        assert(out@ =~= o7 + enc_order_signature(d@)) by {
            reveal(enc_order_signature);
        }
        assert(out@ =~= o6 + enc_order_locale(d@)) by {
            reveal(enc_order_locale);
        }
        assert(out@ =~= o5 + enc_order_items(d@)) by {
            reveal(enc_order_items);
        }
        assert(out@ =~= o4 + enc_order_payment(d@)) by {
            reveal(enc_order_payment);
        }
        assert(out@ =~= o3 + enc_order_delivery(d@)) by {
            reveal(enc_order_delivery);
        }
        assert(out@ =~= o2 + enc_order_entry(d@)) by {
            reveal(enc_order_entry);
        }
        assert(out@ =~= o1 + enc_order_track(d@)) by {
            reveal(enc_order_track);
        }
        assert(out@ =~= enc_order(d@)) by {
            reveal(enc_order);
        }
    }
    chars_to_string(&out)
}

} // verus!
