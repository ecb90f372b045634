//! Layout of thermal-printer tickets.
//!
//! A ticket is laid out in two passes. While its content is placed, nobody
//! knows how long the page will be: paragraphs, rules and images are kept
//! with offsets measured downward from the top, and the page height grows
//! to wherever the content reaches. Once everything is placed the height is
//! settled, and every offset is turned into a position measured upward from
//! the bottom of the page, which is what a PDF backend draws.
//!
//! All lengths are whole micrometres and all font sizes whole hundredths of
//! a point, so that every result is exact.

pub mod units;
pub mod glyphs;
pub mod text;
pub mod wrap;
pub mod wrap_laws;
pub mod commands;
pub mod pdf_resources;
pub mod compose;
pub mod format;
pub mod order;
pub mod ticket;

pub use order::{
    Cliente, Comercio, Courier, Cupon, DropOff, Fechas, IOpciones, IOrder, Item, MedioPago, Pago,
    Plataforma, Sucursal, TipoEntrega,
};
