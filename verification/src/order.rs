//! An order as the ticket shows it.

use vstd::prelude::*;

verus! {

/// An order as the ticket shows it. Amounts are whole pesos.
#[derive(Clone, Debug)]
pub struct IOrder {
    pub comentario: Option<String>,
    pub items: Vec<Item>,
    pub dscto_cupon_gasto_envio: i32,
    pub dscto_cupon_subtotal: i32,
    pub dscto_puntos: i32,
    pub cupones: Option<Vec<Cupon>>,
    pub fechas: Fechas,
    pub tipo_entrega: TipoEntrega,
    pub drop_off: Option<DropOff>,
    pub courier: Courier,
    pub cliente: Cliente,
    pub sucursal: Option<Sucursal>,
    pub plataforma: Plataforma,
    pub correlativo: i64,
    pub codigo: String,
    pub comercio: Comercio,
    pub pago: Pago,
    pub sub_total: i32,
    pub gastos_envio: i32,
}

/// A product of an order: how many, at what price each, and how it is to
/// be made.
#[derive(Clone, Debug)]
pub struct Item {
    pub cantidad: i32,
    pub nombre: String,
    pub precio: i32,
    pub opciones: Option<Vec<IOpciones>>,
    pub comentario: Option<String>,
}

/// An option or modifier chosen for an item of an order.
#[derive(Clone, Debug)]
pub struct IOpciones {
    pub modificador: String,
    pub cantidad: i32,
    pub opcion: String,
}

/// A coupon applied to an order.
#[derive(Clone, Debug)]
pub struct Cupon {
    pub codigo: String,
}

/// The dates of an order, each as an RFC 3339 timestamp, and its time zone.
#[derive(Clone, Debug)]
pub struct Fechas {
    pub fecha_salida_cocina_estimada: String,
    pub fecha_entrega_min: String,
    pub tz: String,
    pub fecha_pago: String,
}

/// How an order is handed over: 1 for delivery, 2 for pick-up.
#[derive(Clone, Copy, Debug, PartialEq, Eq, Structural)]
pub struct TipoEntrega {
    pub id: i32,
}

/// Where a delivered order goes.
#[derive(Clone, Debug)]
pub struct DropOff {
    pub tipo_entrega: Option<String>,
    pub direccion: Option<String>,
}

/// Who carries an order; -2 stands for the merchant's own couriers.
#[derive(Clone, Copy, Debug, PartialEq, Eq, Structural)]
pub struct Courier {
    pub id_courier: i32,
}

/// The customer of an order.
#[derive(Clone, Debug)]
pub struct Cliente {
    pub telefono: Option<String>,
    pub nombre: Option<String>,
    pub nro: Option<String>,
}

/// The branch where an order is picked up.
#[derive(Clone, Debug)]
pub struct Sucursal {
    pub nombre: Option<String>,
}

/// The platform through which an order came in.
#[derive(Clone, Debug)]
pub struct Plataforma {
    pub codigo: Option<String>,
    pub nombre: Option<String>,
}

/// The merchant that receives an order.
#[derive(Clone, Debug)]
pub struct Comercio {
    pub nombre: Option<String>,
}

/// The means by which an order is paid.
#[derive(Clone, Debug)]
pub struct MedioPago {
    pub nombre: Option<String>,
}

/// The payment of an order.
#[derive(Clone, Debug)]
pub struct Pago {
    pub medio_pago: MedioPago,
}

} // verus!
