//! The ticket of an order: which steps lay it out.

use vstd::prelude::*;
use crate::compose::{command_views, Command, CommandView};
use crate::format::{
    clp, decimal, decimal_string, format_clp, format_datetime, in_spanish, rfc3339_formatted,
    rfc3339_valid, try_format_datetime,
};
use crate::order::{IOpciones, IOrder, Item};

verus! {

/// Alignment code of a line that starts one indent step from the left.
pub const LEFT: i8 = -1;

/// Alignment code of a line that starts two indent steps from the left.
pub const INDENTED: i8 = -2;

/// Alignment code of a centred line.
pub const CENTER: i8 = 0;

/// Alignment code of a line that ends at the right.
pub const RIGHT: i8 = 1;

/// Gap of a frame's upper edge: 3 mm above the cursor.
pub const FRAME_TOP: i64 = -3000;

/// Gap of a frame's lower edge: 2 mm above the cursor.
pub const FRAME_BOTTOM: i64 = -2000;

/// Gap of what is placed 4 mm above the cursor.
pub const ABOVE: i64 = -4000;

/// A paragraph step.
pub open spec fn text_step(
    text: Seq<char>,
    font_size: u16,
    gap: i64,
    max_width: i64,
    tipo: i8,
    light: bool,
    advance: bool,
) -> CommandView {
    CommandView::Text { text, font_size, gap, max_width, tipo, light, advance }
}

/// A label on the left and, on the same line, an amount of pesos on the
/// right, which moves the cursor.
pub open spec fn amount_pair(
    label: Seq<char>,
    label_light: bool,
    amount: int,
    font_size: u16,
    gap: i64,
) -> Seq<CommandView> {
    seq![
        text_step(label, font_size, gap, 70000, LEFT, label_light, false),
        text_step(clp(amount), font_size, gap, 70000, RIGHT, false, true),
    ]
}

/// `c` between double quotes, behind a blank.
pub open spec fn quoted(c: Seq<char>) -> Seq<char> {
    " \""@ + c + "\""@
}

/// A framed comment of the customer.
pub open spec fn comment_box(c: Seq<char>) -> Seq<CommandView> {
    seq![
        CommandView::Mark { gap: FRAME_TOP },
        text_step(" Comentario del Cliente: "@, 1400, 2000, 60000, INDENTED, false, true),
        text_step(quoted(c), 1600, 1000, 68000, CENTER, true, true),
        CommandView::Frame { gap: FRAME_BOTTOM },
    ]
}

/// Day, month and time of day of a timestamp as one label.
pub open spec fn date_time_label(iso: Seq<char>) -> Seq<char> {
    in_spanish(rfc3339_formatted(iso, "%d %b"@)) + ". - "@ + rfc3339_formatted(iso, "%H:%M"@)
}

/// `v` cut to the range of a 32 bit amount.
pub open spec fn clamp_i32(v: int) -> int {
    if v < -0x8000_0000 {
        -0x8000_0000
    } else if v > 0x7fff_ffff {
        0x7fff_ffff
    } else {
        v
    }
}

/// What an item costs: its price times its quantity.
pub open spec fn item_price(it: Item) -> int {
    clamp_i32(it.precio * it.cantidad)
}

/// What the items cost together.
pub open spec fn items_total(items: Seq<Item>) -> int
    decreases items.len(),
{
    if items.len() == 0 {
        0
    } else {
        items_total(items.drop_last()) + item_price(items.last())
    }
}

/// The discount of an order: its amount, whether it is one on the delivery
/// fee, and its label. A coupon on the delivery fee comes before one on the
/// subtotal, and that before points.
pub open spec fn discount(o: &IOrder) -> (int, bool, Seq<char>) {
    if o.dscto_cupon_gasto_envio > 0 {
        (
            o.dscto_cupon_gasto_envio as int,
            true,
            "Descuento ("@ + o.cupones->Some_0@[0].codigo@ + ")"@,
        )
    } else if o.dscto_cupon_subtotal > 0 {
        (o.dscto_cupon_subtotal as int, false, "Descuento"@)
    } else {
        (o.dscto_puntos as int, false, "Puntos"@)
    }
}

/// What the subtotal exceeds the cost of the items by.
pub open spec fn offer(o: &IOrder) -> int {
    o.sub_total - items_total(o.items@)
}

/// The total of an order.
pub open spec fn grand_total(o: &IOrder) -> int {
    o.sub_total + o.gastos_envio + discount(o).0
}

/// Whether `v` is a 32 bit amount.
pub open spec fn is_i32(v: int) -> bool {
    -0x8000_0000 <= v <= 0x7fff_ffff
}

/// Whether an item has what its part of the ticket shows.
pub open spec fn item_complete(it: Item) -> bool {
    it.opciones is Some && it.comentario is Some
}

/// Whether an order has everything that its ticket shows: the names, the
/// address or branch, the comments, a coupon where a coupon discount is
/// given, three timestamps that can be read, and amounts that add up within
/// 32 bits.
pub open spec fn complete(o: &IOrder) -> bool {
    &&& o.comercio.nombre is Some
    &&& o.plataforma.nombre is Some
    &&& o.cliente.nombre is Some
    &&& o.drop_off is Some
    &&& o.drop_off->Some_0.tipo_entrega is Some
    &&& o.tipo_entrega.id == 1 ==> o.drop_off->Some_0.direccion is Some
    &&& o.tipo_entrega.id != 1 ==> o.sucursal is Some && o.sucursal->Some_0.nombre is Some
    &&& o.comentario is Some
    &&& forall|k: int| 0 <= k < o.items@.len() ==> item_complete(#[trigger] o.items@[k])
    &&& o.dscto_cupon_gasto_envio > 0 ==> o.cupones is Some && o.cupones->Some_0@.len() > 0
    &&& o.pago.medio_pago.nombre is Some
    &&& rfc3339_valid(o.fechas.fecha_salida_cocina_estimada@)
    &&& rfc3339_valid(o.fechas.fecha_pago@)
    &&& rfc3339_valid(o.fechas.fecha_entrega_min@)
    &&& offer(o) <= 0x7fff_ffff
    &&& is_i32(grand_total(o))
}

/// The top of the ticket: reprint mark, merchant, platform, the icon of the
/// way of delivery, the marks of own delivery and of a scheduled order, the
/// order's code and number, and when it leaves the kitchen.
pub open spec fn head_steps(o: &IOrder) -> Seq<CommandView> {
    seq![
        text_step("*REIMPRESO*"@, 1600, 5000, 70000, LEFT, false, false),
        text_step(o.comercio.nombre->Some_0@, 2000, 12000, 70000, CENTER, false, true),
        text_step(o.plataforma.nombre->Some_0@, 1600, 0, 70000, CENTER, false, true),
        CommandView::Image {
            x: 5000,
            gap: 4000,
            mm_x: 10000,
            mm_y: 10000,
            icono: if o.tipo_entrega.id == 1 {
                "moto"@
            } else {
                "camino"@
            },
        },
    ] + (if o.courier.id_courier == -2 {
        seq![text_step("*NUESTRO*"@, 1600, 10000, 70000, LEFT, false, false)]
    } else {
        Seq::<CommandView>::empty()
    }) + seq![
        text_step("PROGRAMADO"@, 1600, 18000, 70000, LEFT, false, false),
        text_step("#"@ + o.codigo@, 1600, 18000, 70000, RIGHT, true, false),
        text_step("P"@ + decimal(o.correlativo as int), 5000, 10000, 70000, RIGHT, false, true),
        text_step(
            rfc3339_formatted(o.fechas.fecha_salida_cocina_estimada@, "%H:%M"@),
            3200,
            0,
            70000,
            RIGHT,
            false,
            false,
        ),
        text_step("Salida Cocina"@, 1200, 0, 70000, LEFT, true, true),
    ]
}

/// Where the order goes: the address for a delivery, else the branch.
pub open spec fn destination(o: &IOrder) -> Seq<char> {
    if o.tipo_entrega.id == 1 {
        o.drop_off->Some_0.direccion->Some_0@
    } else {
        o.sucursal->Some_0.nombre->Some_0@
    }
}

/// The customer's part of the ticket: name, destination, way of delivery,
/// and the times of payment and of delivery.
pub open spec fn delivery_steps(o: &IOrder) -> Seq<CommandView> {
    seq![
        CommandView::Skip { gap: 5000 },
        CommandView::Rule { gap: ABOVE },
        text_step(o.cliente.nombre->Some_0@, 2400, 4000, 70000, CENTER, false, true),
        CommandView::Separator { gap: ABOVE, icono: "ubicacion"@ },
        CommandView::Skip { gap: 4000 },
        text_step(destination(o), 1400, 5000, 50000, CENTER, false, true),
        text_step(o.drop_off->Some_0.tipo_entrega->Some_0@, 1400, 3000, 80000, CENTER, true, true),
        text_step("Hora de Pago"@, 1400, 2000, 70000, LEFT, true, false),
        text_step(date_time_label(o.fechas.fecha_pago@), 1400, 2000, 70000, RIGHT, true, true),
        text_step("Hora de Entrega"@, 1400, 1000, 70000, LEFT, true, false),
        text_step(
            date_time_label(o.fechas.fecha_entrega_min@),
            1400,
            1000,
            70000,
            RIGHT,
            true,
            true,
        ),
    ]
}

/// The two lines of an option of an item.
pub open spec fn option_steps(m: IOpciones) -> Seq<CommandView> {
    seq![
        text_step("- "@ + m.modificador@, 1300, 2000, 70000, INDENTED, true, true),
        text_step(
            decimal(m.cantidad as int) + " X   "@ + m.opcion@,
            1300,
            0,
            70000,
            INDENTED,
            true,
            true,
        ),
    ]
}

/// The lines of the options `ms`, in order.
pub open spec fn options_steps(ms: Seq<IOpciones>) -> Seq<CommandView>
    decreases ms.len(),
{
    if ms.len() == 0 {
        Seq::empty()
    } else {
        options_steps(ms.drop_last()) + option_steps(ms.last())
    }
}

/// An item's part of the ticket: quantity and name with the price beside
/// them, the options, and the comment in a frame where there is one.
pub open spec fn item_steps(it: Item) -> Seq<CommandView> {
    amount_pair(
        decimal(it.cantidad as int) + " X "@ + it.nombre@,
        false,
        item_price(it),
        1300,
        5000,
    ) + options_steps(it.opciones->Some_0@) + (if it.comentario->Some_0@.len() > 0 {
        comment_box(it.comentario->Some_0@)
    } else {
        Seq::<CommandView>::empty()
    })
}

/// The parts of the items `items`, in order.
pub open spec fn items_steps(items: Seq<Item>) -> Seq<CommandView>
    decreases items.len(),
{
    if items.len() == 0 {
        Seq::empty()
    } else {
        items_steps(items.drop_last()) + item_steps(items.last())
    }
}

/// A label and an amount in the foot of the ticket, where `shown` holds;
/// else nothing.
pub open spec fn optional_pair(shown: bool, label: Seq<char>, amount: int) -> Seq<CommandView> {
    if shown {
        amount_pair(label, true, amount, 1600, 1000)
    } else {
        Seq::<CommandView>::empty()
    }
}

/// What changes the subtotal: the offer, a discount that is none on the
/// delivery fee, the delivery fee, a discount on the delivery fee; each
/// where it is above zero.
pub open spec fn adjustment_steps(o: &IOrder) -> Seq<CommandView> {
    optional_pair(offer(o) > 0, "Descuento Oferta"@, offer(o)) + optional_pair(
        discount(o).0 > 0 && !discount(o).1,
        discount(o).2,
        discount(o).0,
    ) + optional_pair(o.gastos_envio > 0, "Despacho"@, o.gastos_envio as int) + optional_pair(
        discount(o).0 > 0 && discount(o).1,
        discount(o).2,
        discount(o).0,
    )
}

/// The end of the ticket: the total, a note on it, and how the order is
/// paid.
pub open spec fn closing_steps(o: &IOrder) -> Seq<CommandView> {
    amount_pair("Total"@, true, grand_total(o), 1600, 1000) + seq![
        text_step(
            "* Total no incluye propina ni cuota de servicio."@,
            900,
            1000,
            70000,
            LEFT,
            true,
            true,
        ),
        text_step(o.pago.medio_pago.nombre->Some_0@, 1600, 5000, 70000, RIGHT, false, true),
        text_step("powered by Agil"@, 1200, 2000, 80000, CENTER, true, false),
    ]
}

/// The foot of the ticket: subtotal, what changes it, and the end.
pub open spec fn totals_steps(o: &IOrder) -> Seq<CommandView> {
    seq![
        CommandView::Separator { gap: 0, icono: "dinero"@ },
        CommandView::Skip { gap: 8000 },
    ] + amount_pair("Subtotal"@, true, o.sub_total as int, 1600, 2000) + adjustment_steps(o)
        + closing_steps(o)
}

/// The steps that lay out the ticket of an order, from top to bottom.
pub open spec fn ticket_steps(o: &IOrder) -> Seq<CommandView> {
    head_steps(o) + delivery_steps(o) + comment_box(o.comentario->Some_0@) + seq![
        CommandView::Skip { gap: 2000 },
        CommandView::Separator { gap: 0, icono: "cubiertos"@ },
        CommandView::Skip { gap: 5000 },
    ] + items_steps(o.items@) + totals_steps(o)
}

/// Appends the step `cmd` to `out`.
fn push_step(out: &mut Vec<Command>, cmd: Command)
    ensures
        command_views(final(out)@) == command_views(old(out)@).push(cmd@),
{
    out.push(cmd);
    assert(command_views(out@) =~= command_views(old(out)@).push(cmd@));
}

/// Appends a paragraph step to `out`.
fn push_text(
    out: &mut Vec<Command>,
    text: String,
    font_size: u16,
    gap: i64,
    max_width: i64,
    tipo: i8,
    light: bool,
    advance: bool,
)
    ensures
        command_views(final(out)@) == command_views(old(out)@).push(
            text_step(text@, font_size, gap, max_width, tipo, light, advance),
        ),
{
    push_step(out, Command::Text { text, font_size, gap, max_width, tipo, light, advance });
}

/// Appends a label and an amount of pesos beside it to `out`.
fn push_amount_pair(
    out: &mut Vec<Command>,
    label: String,
    label_light: bool,
    amount: i32,
    font_size: u16,
    gap: i64,
)
    ensures
        command_views(final(out)@) == command_views(old(out)@) + amount_pair(
            label@,
            label_light,
            amount as int,
            font_size,
            gap,
        ),
{
    push_text(out, label, font_size, gap, 70000, LEFT, label_light, false);
    push_text(out, format_clp(amount), font_size, gap, 70000, RIGHT, false, true);
    assert(command_views(out@) =~= command_views(old(out)@) + amount_pair(
        label@,
        label_light,
        amount as int,
        font_size,
        gap,
    ));
}

/// Appends a framed comment of the customer to `out`.
fn push_comment_box(out: &mut Vec<Command>, comment: &String)
    ensures
        command_views(final(out)@) == command_views(old(out)@) + comment_box(comment@),
{
    push_step(out, Command::Mark { gap: FRAME_TOP });
    let title = String::from_str(" Comentario del Cliente: ");
    push_text(out, title, 1400, 2000, 60000, INDENTED, false, true);
    let text = String::from_str(" \"").concat(comment.as_str()).concat("\"");
    push_text(out, text, 1600, 1000, 68000, CENTER, true, true);
    push_step(out, Command::Frame { gap: FRAME_BOTTOM });
    assert(command_views(out@) =~= command_views(old(out)@) + comment_box(comment@));
}

/// Day, month and time of day of the timestamp `iso` as one label.
fn date_time_of(iso: &String) -> (r: String)
    requires
        rfc3339_valid(iso@),
    ensures
        r@ == date_time_label(iso@),
{
    let (date, time) = format_datetime(iso.as_str());
    date.concat(". - ").concat(time.as_str())
}

/// Appends the top of the ticket to `out`.
fn push_head(out: &mut Vec<Command>, orden: &IOrder)
    requires
        complete(orden),
    ensures
        command_views(final(out)@) == command_views(old(out)@) + head_steps(orden),
{
    let ghost start = command_views(out@);
    push_text(out, String::from_str("*REIMPRESO*"), 1600, 5000, 70000, LEFT, false, false);
    let comercio_nombre = orden.comercio.nombre.as_ref().unwrap();
    push_text(out, comercio_nombre.clone(), 2000, 12000, 70000, CENTER, false, true);
    let plataforma_nombre = orden.plataforma.nombre.as_ref().unwrap();
    push_text(out, plataforma_nombre.clone(), 1600, 0, 70000, CENTER, false, true);
    let icono = if orden.tipo_entrega.id == 1 {
        String::from_str("moto")
    } else {
        String::from_str("camino")
    };
    push_step(out, Command::Image { x: 5000, gap: 4000, mm_x: 10000, mm_y: 10000, icono });
    if orden.courier.id_courier == -2 {
        push_text(out, String::from_str("*NUESTRO*"), 1600, 10000, 70000, LEFT, false, false);
    }
    push_text(out, String::from_str("PROGRAMADO"), 1600, 18000, 70000, LEFT, false, false);
    let codigo_pedido = String::from_str("#").concat(orden.codigo.as_str());
    push_text(out, codigo_pedido, 1600, 18000, 70000, RIGHT, true, false);
    let correlativo = String::from_str("P").concat(decimal_string(orden.correlativo).as_str());
    push_text(out, correlativo, 5000, 10000, 70000, RIGHT, false, true);
    let salida_cocina = format_datetime(orden.fechas.fecha_salida_cocina_estimada.as_str());
    push_text(out, salida_cocina.1, 3200, 0, 70000, RIGHT, false, false);
    push_text(out, String::from_str("Salida Cocina"), 1200, 0, 70000, LEFT, true, true);
    assert(command_views(out@) =~= start + head_steps(orden));
}

/// Appends the customer's part of the ticket to `out`.
fn push_delivery(out: &mut Vec<Command>, orden: &IOrder)
    requires
        complete(orden),
    ensures
        command_views(final(out)@) == command_views(old(out)@) + delivery_steps(orden),
{
    let ghost start = command_views(out@);
    push_step(out, Command::Skip { gap: 5000 });
    push_step(out, Command::Rule { gap: ABOVE });
    let cliente_nombre = orden.cliente.nombre.as_ref().unwrap();
    push_text(out, cliente_nombre.clone(), 2400, 4000, 70000, CENTER, false, true);
    push_step(out, Command::Separator { gap: ABOVE, icono: String::from_str("ubicacion") });
    push_step(out, Command::Skip { gap: 4000 });
    let drop_off = orden.drop_off.as_ref().unwrap();
    let direccion = if orden.tipo_entrega.id == 1 {
        drop_off.direccion.as_ref().unwrap().clone()
    } else {
        orden.sucursal.as_ref().unwrap().nombre.as_ref().unwrap().clone()
    };
    push_text(out, direccion, 1400, 5000, 50000, CENTER, false, true);
    let tipo_entrega = drop_off.tipo_entrega.as_ref().unwrap();
    push_text(out, tipo_entrega.clone(), 1400, 3000, 80000, CENTER, true, true);
    push_text(out, String::from_str("Hora de Pago"), 1400, 2000, 70000, LEFT, true, false);
    push_text(out, date_time_of(&orden.fechas.fecha_pago), 1400, 2000, 70000, RIGHT, true, true);
    push_text(out, String::from_str("Hora de Entrega"), 1400, 1000, 70000, LEFT, true, false);
    let entrega = date_time_of(&orden.fechas.fecha_entrega_min);
    push_text(out, entrega, 1400, 1000, 70000, RIGHT, true, true);
    assert(command_views(out@) =~= start + delivery_steps(orden));
}

/// Executable form of `item_price`.
fn price_of(item: &Item) -> (r: i32)
    ensures
        r == item_price(*item),
{
    let p: i64 = item.precio as i64;
    let c: i64 = item.cantidad as i64;
    assert(-0x8000_0000 * 0x8000_0000 <= p * c <= 0x8000_0000 * 0x8000_0000) by (nonlinear_arith)
        requires
            -0x8000_0000 <= p <= 0x7fff_ffff,
            -0x8000_0000 <= c <= 0x7fff_ffff,
    ;
    let v: i64 = p * c;
    if v < -0x8000_0000 {
        -0x8000_0000
    } else if v > 0x7fff_ffff {
        0x7fff_ffff
    } else {
        v as i32
    }
}

/// Appends an item's part of the ticket to `out`.
fn push_item(out: &mut Vec<Command>, item: &Item)
    requires
        item_complete(*item),
    ensures
        command_views(final(out)@) == command_views(old(out)@) + item_steps(*item),
{
    let ghost start = command_views(out@);
    let label = decimal_string(item.cantidad as i64).concat(" X ").concat(item.nombre.as_str());
    push_amount_pair(out, label, false, price_of(item), 1300, 5000);
    let opciones = item.opciones.as_ref().unwrap();
    let ghost head = command_views(out@);
    let mut k: usize = 0;
    assert(opciones@.take(0) =~= Seq::<IOpciones>::empty());
    while k < opciones.len()
        invariant
            k <= opciones@.len(),
            command_views(out@) == head + options_steps(opciones@.take(k as int)),
        decreases opciones.len() - k,
    {
        let modi = &opciones[k];
        let ghost before = command_views(out@);
        push_text(
            out,
            String::from_str("- ").concat(modi.modificador.as_str()),
            1300,
            2000,
            70000,
            INDENTED,
            true,
            true,
        );
        let line = decimal_string(modi.cantidad as i64).concat(" X   ").concat(
            modi.opcion.as_str(),
        );
        push_text(out, line, 1300, 0, 70000, INDENTED, true, true);
        proof {
            assert(opciones@.take(k + 1).drop_last() =~= opciones@.take(k as int));
            assert(opciones@.take(k + 1).last() == *modi);
            assert(command_views(out@) =~= before + option_steps(*modi));
            assert(command_views(out@) =~= head + options_steps(opciones@.take(k + 1)));
        }
        k = k + 1;
    }
    assert(opciones@.take(k as int) =~= opciones@);
    let comentario = item.comentario.as_ref().unwrap();
    if comentario.as_str().unicode_len() > 0 {
        push_comment_box(out, comentario);
    }
    assert(command_views(out@) =~= start + item_steps(*item));
}

/// Appends the parts of the items of `orden` to `out`.
fn push_items(out: &mut Vec<Command>, orden: &IOrder)
    requires
        complete(orden),
    ensures
        command_views(final(out)@) == command_views(old(out)@) + items_steps(orden.items@),
{
    let ghost start = command_views(out@);
    let mut k: usize = 0;
    assert(orden.items@.take(0) =~= Seq::<Item>::empty());
    while k < orden.items.len()
        invariant
            k <= orden.items@.len(),
            complete(orden),
            command_views(out@) == start + items_steps(orden.items@.take(k as int)),
        decreases orden.items.len() - k,
    {
        let item = &orden.items[k];
        proof {
            assert(item_complete(orden.items@[k as int]));
            assert(orden.items@.take(k + 1).drop_last() =~= orden.items@.take(k as int));
            assert(orden.items@.take(k + 1).last() == *item);
        }
        push_item(out, item);
        proof {
            assert(command_views(out@) =~= start + items_steps(orden.items@.take(k + 1)));
        }
        k = k + 1;
    }
    assert(orden.items@.take(k as int) =~= orden.items@);
}

/// The discount of `orden`: its amount, whether it is one on the delivery
/// fee, and its label.
fn discount_of(orden: &IOrder) -> (r: (i32, bool, String))
    requires
        complete(orden),
    ensures
        (r.0 as int, r.1, r.2@) == discount(orden),
{
    if orden.dscto_cupon_gasto_envio > 0 {
        let cupones = orden.cupones.as_ref().unwrap();
        let label = String::from_str("Descuento (").concat(cupones[0].codigo.as_str()).concat(")");
        (orden.dscto_cupon_gasto_envio, true, label)
    } else if orden.dscto_cupon_subtotal > 0 {
        (orden.dscto_cupon_subtotal, false, String::from_str("Descuento"))
    } else {
        (orden.dscto_puntos, false, String::from_str("Puntos"))
    }
}

/// Appends a label and an amount in the foot of the ticket to `out`, where
/// `shown` holds.
fn push_optional_pair(out: &mut Vec<Command>, shown: bool, label: String, amount: i32)
    ensures
        command_views(final(out)@) == command_views(old(out)@) + optional_pair(
            shown,
            label@,
            amount as int,
        ),
{
    if shown {
        push_amount_pair(out, label, true, amount, 1600, 1000);
    } else {
        assert(command_views(out@) =~= command_views(old(out)@) + Seq::<CommandView>::empty());
    }
}

/// Appends what changes the subtotal to `out`, `precio_total` being what
/// the items cost together.
fn push_adjustments(out: &mut Vec<Command>, orden: &IOrder, precio_total: i128)
    requires
        complete(orden),
        precio_total == items_total(orden.items@),
        -0x8000_0000_0000_0000_0000_0000 <= precio_total <= 0x8000_0000_0000_0000_0000_0000,
    ensures
        command_views(final(out)@) == command_views(old(out)@) + adjustment_steps(orden),
{
    let ghost start = command_views(out@);
    let descuento_monto = discount_of(orden);
    let descuento_oferta: i128 = orden.sub_total as i128 - precio_total;
    let oferta: i32 = if descuento_oferta > 0 {
        descuento_oferta as i32
    } else {
        0
    };
    let gastos_envio = orden.gastos_envio;
    push_optional_pair(out, descuento_oferta > 0, String::from_str("Descuento Oferta"), oferta);
    push_optional_pair(
        out,
        descuento_monto.0 > 0 && !descuento_monto.1,
        descuento_monto.2.clone(),
        descuento_monto.0,
    );
    push_optional_pair(out, gastos_envio > 0, String::from_str("Despacho"), gastos_envio);
    push_optional_pair(
        out,
        descuento_monto.0 > 0 && descuento_monto.1,
        descuento_monto.2,
        descuento_monto.0,
    );
    assert(command_views(out@) =~= start + adjustment_steps(orden));
}

/// Appends the end of the ticket to `out`.
fn push_closing(out: &mut Vec<Command>, orden: &IOrder)
    requires
        complete(orden),
    ensures
        command_views(final(out)@) == command_views(old(out)@) + closing_steps(orden),
{
    let ghost start = command_views(out@);
    let descuento_monto = discount_of(orden);
    let total: i64 = orden.sub_total as i64 + orden.gastos_envio as i64 + descuento_monto.0 as i64;
    push_amount_pair(out, String::from_str("Total"), true, total as i32, 1600, 1000);
    push_text(
        out,
        String::from_str("* Total no incluye propina ni cuota de servicio."),
        900,
        1000,
        70000,
        LEFT,
        true,
        true,
    );
    let medio_pago = orden.pago.medio_pago.nombre.as_ref().unwrap();
    push_text(out, medio_pago.clone(), 1600, 5000, 70000, RIGHT, false, true);
    push_text(out, String::from_str("powered by Agil"), 1200, 2000, 80000, CENTER, true, false);
    assert(command_views(out@) =~= start + closing_steps(orden));
}

/// Appends the foot of the ticket to `out`, `precio_total` being what the
/// items cost together.
fn push_totals(out: &mut Vec<Command>, orden: &IOrder, precio_total: i128)
    requires
        complete(orden),
        precio_total == items_total(orden.items@),
        -0x8000_0000_0000_0000_0000_0000 <= precio_total <= 0x8000_0000_0000_0000_0000_0000,
    ensures
        command_views(final(out)@) == command_views(old(out)@) + totals_steps(orden),
{
    let ghost start = command_views(out@);
    push_step(out, Command::Separator { gap: 0, icono: String::from_str("dinero") });
    push_step(out, Command::Skip { gap: 8000 });
    push_amount_pair(out, String::from_str("Subtotal"), true, orden.sub_total, 1600, 2000);
    push_adjustments(out, orden, precio_total);
    push_closing(out, orden);
    assert(command_views(out@) =~= start + totals_steps(orden));
}

/// What the items of `items` cost together.
pub fn items_cost(items: &Vec<Item>) -> (total: i128)
    ensures
        total == items_total(items@),
        -0x8000_0000_0000_0000_0000_0000 <= total <= 0x8000_0000_0000_0000_0000_0000,
{
    let mut total: i128 = 0;
    let mut k: usize = 0;
    assert(items@.take(0) =~= Seq::<Item>::empty());
    while k < items.len()
        invariant
            k <= items@.len(),
            total == items_total(items@.take(k as int)),
            -0x8000_0000 * k <= total <= 0x8000_0000 * k,
        decreases items.len() - k,
    {
        proof {
            assert(items@.take(k + 1).drop_last() =~= items@.take(k as int));
            assert(items@.take(k + 1).last() == items@[k as int]);
        }
        total = total + price_of(&items[k]) as i128;
        k = k + 1;
    }
    assert(items@.take(k as int) =~= items@);
    total
}

/// Whether every item of `items` has what its part of the ticket shows.
fn items_complete(items: &Vec<Item>) -> (r: bool)
    ensures
        r == (forall|k: int| 0 <= k < items@.len() ==> item_complete(#[trigger] items@[k])),
{
    let mut k: usize = 0;
    while k < items.len()
        invariant
            k <= items@.len(),
            forall|j: int| 0 <= j < k ==> item_complete(#[trigger] items@[j]),
        decreases items.len() - k,
    {
        if items[k].opciones.is_none() || items[k].comentario.is_none() {
            assert(!item_complete(items@[k as int]));
            return false;
        }
        k = k + 1;
    }
    true
}

/// Whether the fields of `orden` that the ticket shows are there.
fn fields_complete(orden: &IOrder) -> (r: bool)
    ensures
        r == ({
            &&& orden.comercio.nombre is Some
            &&& orden.plataforma.nombre is Some
            &&& orden.cliente.nombre is Some
            &&& orden.drop_off is Some
            &&& orden.drop_off->Some_0.tipo_entrega is Some
            &&& orden.tipo_entrega.id == 1 ==> orden.drop_off->Some_0.direccion is Some
            &&& orden.tipo_entrega.id != 1 ==> orden.sucursal is Some
                && orden.sucursal->Some_0.nombre is Some
            &&& orden.comentario is Some
            &&& orden.dscto_cupon_gasto_envio > 0 ==> orden.cupones is Some
                && orden.cupones->Some_0@.len() > 0
            &&& orden.pago.medio_pago.nombre is Some
        }),
{
    if orden.comercio.nombre.is_none() || orden.plataforma.nombre.is_none()
        || orden.cliente.nombre.is_none() || orden.comentario.is_none()
        || orden.pago.medio_pago.nombre.is_none() {
        return false;
    }
    match &orden.drop_off {
        None => {
            return false;
        },
        Some(drop_off) => {
            if drop_off.tipo_entrega.is_none() {
                return false;
            }
            if orden.tipo_entrega.id == 1 && drop_off.direccion.is_none() {
                return false;
            }
        },
    }
    if orden.tipo_entrega.id != 1 {
        match &orden.sucursal {
            None => {
                return false;
            },
            Some(sucursal) => {
                if sucursal.nombre.is_none() {
                    return false;
                }
            },
        }
    }
    if orden.dscto_cupon_gasto_envio > 0 {
        match &orden.cupones {
            None => {
                return false;
            },
            Some(cupones) => {
                if cupones.len() == 0 {
                    return false;
                }
            },
        }
    }
    true
}

/// Whether `orden` has everything that its ticket shows.
pub fn is_complete(orden: &IOrder) -> (r: bool)
    ensures
        r == complete(orden),
{
    if !fields_complete(orden) || !items_complete(&orden.items) {
        return false;
    }
    if try_format_datetime(orden.fechas.fecha_salida_cocina_estimada.as_str()).is_none()
        || try_format_datetime(orden.fechas.fecha_pago.as_str()).is_none() || try_format_datetime(
        orden.fechas.fecha_entrega_min.as_str(),
    ).is_none() {
        return false;
    }
    let precio_total = items_cost(&orden.items);
    let descuento_oferta: i128 = orden.sub_total as i128 - precio_total;
    if descuento_oferta > 0x7fff_ffff {
        return false;
    }
    let monto: i64 = if orden.dscto_cupon_gasto_envio > 0 {
        orden.dscto_cupon_gasto_envio as i64
    } else if orden.dscto_cupon_subtotal > 0 {
        orden.dscto_cupon_subtotal as i64
    } else {
        orden.dscto_puntos as i64
    };
    let total: i64 = orden.sub_total as i64 + orden.gastos_envio as i64 + monto;
    -0x8000_0000 <= total && total <= 0x7fff_ffff
}

/// As `pdf`, for any order: `None` where the order lacks something that
/// its ticket shows.
pub fn try_pdf(orden: &IOrder) -> (r: Option<Vec<Command>>)
    ensures
        r is Some <==> complete(orden),
        r is Some ==> command_views(r->Some_0@) == ticket_steps(orden),
{
    if is_complete(orden) {
        Some(pdf(orden))
    } else {
        None
    }
}

/// The steps that lay out the ticket of `orden`, from top to bottom.
pub fn pdf(orden: &IOrder) -> (r: Vec<Command>)
    requires
        complete(orden),
    ensures
        command_views(r@) == ticket_steps(orden),
{
    let mut out: Vec<Command> = Vec::new();
    assert(command_views(out@) =~= Seq::<CommandView>::empty());
    push_head(&mut out, orden);
    push_delivery(&mut out, orden);
    push_comment_box(&mut out, orden.comentario.as_ref().unwrap());
    push_step(&mut out, Command::Skip { gap: 2000 });
    push_step(&mut out, Command::Separator { gap: 0, icono: String::from_str("cubiertos") });
    push_step(&mut out, Command::Skip { gap: 5000 });
    push_items(&mut out, orden);
    push_totals(&mut out, orden, items_cost(&orden.items));
    assert(command_views(out@) =~= ticket_steps(orden));
    out
}

} // verus!
