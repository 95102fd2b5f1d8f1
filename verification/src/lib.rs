//! A minimal order-document store: a structured order record, a lossless
//! text codec for it, and key-based store/fetch semantics with validation
//! on write and integrity checking on read.

pub mod chars;
pub mod codec;
pub mod encode;
pub mod parse;
pub mod schema;
pub mod store;

pub use codec::{decode_order, lemma_codec_round_trip, lemma_enc_order_injective};
pub use encode::encode_order;
pub use schema::{DeliveryInfo, ItemsInfo, Order, PaymentInfo, ValidationError};
pub use store::{DocumentStore, FetchError, MemBackend};
