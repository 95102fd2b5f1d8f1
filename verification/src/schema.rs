//! The order document schema: the root `Order` record with its nested
//! `DeliveryInfo`, `PaymentInfo` and `ItemsInfo` records, the mathematical
//! view of each, and the validation predicate shared by the write and read
//! paths.

use vstd::prelude::*;

verus! {

/// Recipient contact and address data of an order.
#[derive(Clone, Debug, PartialEq, Eq)]
pub struct DeliveryInfo {
    pub name: String,
    pub phone: String,
    pub zip: String,
    pub city: String,
    pub address: String,
    pub region: String,
    pub email: String,
}

/// Transaction metadata of an order. All amounts are in the smallest
/// currency unit; `payment_dt` is an integer epoch timestamp.
#[derive(Clone, Debug, PartialEq, Eq)]
pub struct PaymentInfo {
    pub transaction: String,
    pub request_id: String,
    pub currency: String,
    pub provider: String,
    pub amount: u32,
    pub payment_dt: i64,
    pub bank: String,
    pub delivery_cost: u32,
    pub goods_total: u32,
    pub custom_fee: u32,
}

/// One line item of an order. Item order within an order is preserved and
/// semantically relevant.
#[derive(Clone, Debug, PartialEq, Eq)]
pub struct ItemsInfo {
    pub chrt_id: u64,
    pub track_number: String,
    pub price: u32,
    pub rid: String,
    pub name: String,
    pub sale: u32,
    pub size: String,
    pub total_price: u32,
    pub nm_id: u64,
    pub brand: String,
    pub status: u32,
}

/// The root order document. `order_uid` is the sole storage key.
#[derive(Clone, Debug, PartialEq, Eq)]
pub struct Order {
    pub order_uid: String,
    pub track_number: String,
    pub entry: String,
    pub delivery: DeliveryInfo,
    pub payment: PaymentInfo,
    pub items: Vec<ItemsInfo>,
    pub locale: String,
    pub internal_signature: String,
    pub customer_id: String,
    pub delivery_service: String,
    pub shardkey: String,
    pub sm_id: u64,
    pub date_created: String,
    pub oof_shard: String,
}

/// Mathematical view of `DeliveryInfo`: every string as a character sequence.
pub struct DeliveryView {
    pub name: Seq<char>,
    pub phone: Seq<char>,
    pub zip: Seq<char>,
    pub city: Seq<char>,
    pub address: Seq<char>,
    pub region: Seq<char>,
    pub email: Seq<char>,
}

/// Mathematical view of `PaymentInfo`.
pub struct PaymentView {
    pub transaction: Seq<char>,
    pub request_id: Seq<char>,
    pub currency: Seq<char>,
    pub provider: Seq<char>,
    pub amount: u32,
    pub payment_dt: i64,
    pub bank: Seq<char>,
    pub delivery_cost: u32,
    pub goods_total: u32,
    pub custom_fee: u32,
}

/// Mathematical view of `ItemsInfo`.
pub struct ItemView {
    pub chrt_id: u64,
    pub track_number: Seq<char>,
    pub price: u32,
    pub rid: Seq<char>,
    pub name: Seq<char>,
    pub sale: u32,
    pub size: Seq<char>,
    pub total_price: u32,
    pub nm_id: u64,
    pub brand: Seq<char>,
    pub status: u32,
}

/// Mathematical view of `Order`: the whole document, field for field,
/// with items as a sequence whose order is the input order.
pub struct OrderView {
    pub order_uid: Seq<char>,
    pub track_number: Seq<char>,
    pub entry: Seq<char>,
    pub delivery: DeliveryView,
    pub payment: PaymentView,
    pub items: Seq<ItemView>,
    pub locale: Seq<char>,
    pub internal_signature: Seq<char>,
    pub customer_id: Seq<char>,
    pub delivery_service: Seq<char>,
    pub shardkey: Seq<char>,
    pub sm_id: u64,
    pub date_created: Seq<char>,
    pub oof_shard: Seq<char>,
}

impl View for DeliveryInfo {
    type V = DeliveryView;

    open spec fn view(&self) -> DeliveryView {
        DeliveryView {
            name: self.name@,
            phone: self.phone@,
            zip: self.zip@,
            city: self.city@,
            address: self.address@,
            region: self.region@,
            email: self.email@,
        }
    }
}

impl View for PaymentInfo {
    type V = PaymentView;

    open spec fn view(&self) -> PaymentView {
        PaymentView {
            transaction: self.transaction@,
            request_id: self.request_id@,
            currency: self.currency@,
            provider: self.provider@,
            amount: self.amount,
            payment_dt: self.payment_dt,
            bank: self.bank@,
            delivery_cost: self.delivery_cost,
            goods_total: self.goods_total,
            custom_fee: self.custom_fee,
        }
    }
}

impl View for ItemsInfo {
    type V = ItemView;

    open spec fn view(&self) -> ItemView {
        ItemView {
            chrt_id: self.chrt_id,
            track_number: self.track_number@,
            price: self.price,
            rid: self.rid@,
            name: self.name@,
            sale: self.sale,
            size: self.size@,
            total_price: self.total_price,
            nm_id: self.nm_id,
            brand: self.brand@,
            status: self.status,
        }
    }
}

/// The view of a sequence of line items: each item replaced by its view,
/// order preserved.
pub open spec fn items_view(items: Seq<ItemsInfo>) -> Seq<ItemView> {
    items.map_values(|it: ItemsInfo| it@)
}

impl View for Order {
    type V = OrderView;

    open spec fn view(&self) -> OrderView {
        OrderView {
            order_uid: self.order_uid@,
            track_number: self.track_number@,
            entry: self.entry@,
            delivery: self.delivery@,
            payment: self.payment@,
            items: items_view(self.items@),
            locale: self.locale@,
            internal_signature: self.internal_signature@,
            customer_id: self.customer_id@,
            delivery_service: self.delivery_service@,
            shardkey: self.shardkey@,
            sm_id: self.sm_id,
            date_created: self.date_created@,
            oof_shard: self.oof_shard@,
        }
    }
}

/// Why a document fails validation on the write path.
#[derive(Clone, Copy, Debug, PartialEq, Eq)]
pub enum ValidationError {
    /// The order identifier, which serves as the storage key, is empty.
    EmptyOrderUid,
    /// The payment timestamp is negative; numeric fields must be
    /// non-negative.
    NegativePaymentDate,
}

/// The validation predicate: the identifier is non-empty (it is the storage
/// key) and every numeric field is non-negative. All but the payment
/// timestamp are non-negative by type.
pub open spec fn valid_order(v: OrderView) -> bool {
    &&& v.order_uid.len() > 0
    &&& v.payment.payment_dt >= 0
}

impl ValidationError {
    /// A human-readable description naming the violated field.
    pub fn message(&self) -> (r: &'static str) {
        match self {
            ValidationError::EmptyOrderUid => "order_uid must not be empty",
            ValidationError::NegativePaymentDate => "payment_dt must be non-negative",
        }
    }
}

/// Checks a document against the schema invariants, reporting the first
/// violated field. Succeeds exactly on valid documents.
pub fn validate_order(d: &Order) -> (r: Result<(), ValidationError>)
    ensures
        r is Ok <==> valid_order(d@),
        d@.order_uid.len() == 0 ==> r == Err::<(), ValidationError>(ValidationError::EmptyOrderUid),
        d@.order_uid.len() > 0 && d@.payment.payment_dt < 0 ==> r == Err::<(), ValidationError>(
            ValidationError::NegativePaymentDate,
        ),
{
    if d.order_uid.as_str().is_empty() {
        Err(ValidationError::EmptyOrderUid)
    } else if d.payment.payment_dt < 0 {
        Err(ValidationError::NegativePaymentDate)
    } else {
        Ok(())
    }
}

} // verus!
