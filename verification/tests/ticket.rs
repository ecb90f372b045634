use ticket_layout::compose::Command;
use ticket_layout::order::{
    Cliente, Comercio, Courier, Cupon, DropOff, Fechas, IOpciones, IOrder, Item, MedioPago, Pago,
    Plataforma, Sucursal, TipoEntrega,
};
use ticket_layout::ticket::{is_complete, items_cost, pdf, try_pdf};

fn t(
    text: &str,
    font_size: u16,
    gap: i64,
    max_width: i64,
    tipo: i8,
    light: bool,
    advance: bool,
) -> Command {
    Command::Text { text: text.to_string(), font_size, gap, max_width, tipo, light, advance }
}

fn comment(text: &str) -> Vec<Command> {
    vec![
        Command::Mark { gap: -3000 },
        t(" Comentario del Cliente: ", 1400, 2000, 60000, -2, false, true),
        t(text, 1600, 1000, 68000, 0, true, true),
        Command::Frame { gap: -2000 },
    ]
}

fn pair(label: &str, amount: &str, font_size: u16, gap: i64) -> Vec<Command> {
    vec![
        t(label, font_size, gap, 70000, -1, true, false),
        t(amount, font_size, gap, 70000, 1, false, true),
    ]
}

fn sample() -> IOrder {
    IOrder {
        comentario: Some("Orden de ejemplo".to_string()),
        items: vec![
            Item {
                cantidad: 2,
                nombre: "Pizza Napolitana".to_string(),
                precio: 2500,
                opciones: Some(vec![
                    IOpciones {
                        modificador: "Extra 1".to_string(),
                        cantidad: 1,
                        opcion: "Mozzarella".to_string(),
                    },
                    IOpciones {
                        modificador: "Extra 2".to_string(),
                        cantidad: 1,
                        opcion: "Pi\u{f1}a".to_string(),
                    },
                ]),
                comentario: Some("Sin aceitunas, por favor!!!".to_string()),
            },
            Item {
                cantidad: 5,
                nombre: "\u{3c0}z\u{b2}a".to_string(),
                precio: 2500,
                opciones: Some(vec![]),
                comentario: Some("".to_string()),
            },
        ],
        sub_total: 5000,
        gastos_envio: 1000,
        dscto_cupon_gasto_envio: 0,
        dscto_cupon_subtotal: 0,
        dscto_puntos: 0,
        cupones: None,
        fechas: Fechas {
            fecha_salida_cocina_estimada: "2024-12-25T14:30:00Z".to_string(),
            fecha_entrega_min: "2024-12-25T14:31:00Z".to_string(),
            fecha_pago: "2024-12-25T14:05:00Z".to_string(),
            tz: "America/Santiago".to_string(),
        },
        tipo_entrega: TipoEntrega { id: 1 },
        drop_off: Some(DropOff {
            tipo_entrega: Some("tipo entrega viene como string".to_string()),
            direccion: Some("Av Siemrpe Viva 420, titirilquen".to_string()),
        }),
        courier: Courier { id_courier: -2 },
        cliente: Cliente {
            telefono: Some("+56 9 1234 5678".to_string()),
            nombre: Some("Pablo Ruiz y Picasso".to_string()),
            nro: Some("Depto. 202".to_string()),
        },
        sucursal: Some(Sucursal { nombre: Some("algun lado".to_string()) }),
        plataforma: Plataforma {
            codigo: Some("AGIL".to_string()),
            nombre: Some("Agil".to_string()),
        },
        correlativo: 47,
        codigo: "P42069".to_string(),
        comercio: Comercio { nombre: Some("La Pizzer\u{ed}a".to_string()) },
        pago: Pago { medio_pago: MedioPago { nombre: Some("Tarjeta".to_string()) } },
    }
}

fn head_of_sample() -> Vec<Command> {
    vec![
        t("*REIMPRESO*", 1600, 5000, 70000, -1, false, false),
        t("La Pizzer\u{ed}a", 2000, 12000, 70000, 0, false, true),
        t("Agil", 1600, 0, 70000, 0, false, true),
        Command::Image { x: 5000, gap: 4000, mm_x: 10000, mm_y: 10000, icono: "moto".to_string() },
        t("*NUESTRO*", 1600, 10000, 70000, -1, false, false),
        t("PROGRAMADO", 1600, 18000, 70000, -1, false, false),
        t("#P42069", 1600, 18000, 70000, 1, true, false),
        t("P47", 5000, 10000, 70000, 1, false, true),
        t("14:30", 3200, 0, 70000, 1, false, false),
        t("Salida Cocina", 1200, 0, 70000, -1, true, true),
        Command::Skip { gap: 5000 },
        Command::Rule { gap: -4000 },
        t("Pablo Ruiz y Picasso", 2400, 4000, 70000, 0, false, true),
        Command::Separator { gap: -4000, icono: "ubicacion".to_string() },
        Command::Skip { gap: 4000 },
        t("Av Siemrpe Viva 420, titirilquen", 1400, 5000, 50000, 0, false, true),
        t("tipo entrega viene como string", 1400, 3000, 80000, 0, true, true),
        t("Hora de Pago", 1400, 2000, 70000, -1, true, false),
        t("25 Dic. - 14:05", 1400, 2000, 70000, 1, true, true),
        t("Hora de Entrega", 1400, 1000, 70000, -1, true, false),
        t("25 Dic. - 14:31", 1400, 1000, 70000, 1, true, true),
    ]
}

fn tail_of_sample() -> Vec<Command> {
    vec![
        t("* Total no incluye propina ni cuota de servicio.", 900, 1000, 70000, -1, true, true),
        t("Tarjeta", 1600, 5000, 70000, 1, false, true),
        t("powered by Agil", 1200, 2000, 80000, 0, true, false),
    ]
}

#[test]
fn the_sample_order_is_laid_out_step_by_step() {
    let orden = sample();
    let mut expected = head_of_sample();
    expected.extend(comment(" \"Orden de ejemplo\""));
    expected.push(Command::Skip { gap: 2000 });
    expected.push(Command::Separator { gap: 0, icono: "cubiertos".to_string() });
    expected.push(Command::Skip { gap: 5000 });
    expected.push(t("2 X Pizza Napolitana", 1300, 5000, 70000, -1, false, false));
    expected.push(t("$5.000", 1300, 5000, 70000, 1, false, true));
    expected.push(t("- Extra 1", 1300, 2000, 70000, -2, true, true));
    expected.push(t("1 X   Mozzarella", 1300, 0, 70000, -2, true, true));
    expected.push(t("- Extra 2", 1300, 2000, 70000, -2, true, true));
    expected.push(t("1 X   Pi\u{f1}a", 1300, 0, 70000, -2, true, true));
    expected.extend(comment(" \"Sin aceitunas, por favor!!!\""));
    expected.push(t("5 X \u{3c0}z\u{b2}a", 1300, 5000, 70000, -1, false, false));
    expected.push(t("$12.500", 1300, 5000, 70000, 1, false, true));
    expected.push(Command::Separator { gap: 0, icono: "dinero".to_string() });
    expected.push(Command::Skip { gap: 8000 });
    expected.extend(pair("Subtotal", "$5.000", 1600, 2000));
    expected.extend(pair("Despacho", "$1.000", 1600, 1000));
    expected.extend(pair("Total", "$6.000", 1600, 1000));
    expected.extend(tail_of_sample());
    assert_eq!(pdf(&orden), expected);
    assert!(is_complete(&orden));
    assert_eq!(try_pdf(&orden), Some(expected));
}

#[test]
fn a_pick_up_shows_the_branch_and_the_road() {
    let mut orden = sample();
    orden.tipo_entrega = TipoEntrega { id: 2 };
    orden.courier = Courier { id_courier: 7 };
    let steps = pdf(&orden);
    assert_eq!(
        steps[3],
        Command::Image { x: 5000, gap: 4000, mm_x: 10000, mm_y: 10000, icono: "camino".to_string() }
    );
    assert_eq!(steps[4], t("PROGRAMADO", 1600, 18000, 70000, -1, false, false));
    assert_eq!(steps[14], t("algun lado", 1400, 5000, 50000, 0, false, true));
    let mut with_address = sample();
    with_address.tipo_entrega = TipoEntrega { id: 2 };
    with_address.drop_off =
        Some(DropOff { tipo_entrega: Some("retiro".to_string()), direccion: None });
    assert!(is_complete(&with_address));
    assert_eq!(pdf(&with_address)[16], t("retiro", 1400, 3000, 80000, 0, true, true));
}

fn foot(orden: &IOrder) -> Vec<Command> {
    let steps = pdf(orden);
    let at = steps
        .iter()
        .position(|c| *c == Command::Separator { gap: 0, icono: "dinero".to_string() })
        .unwrap();
    steps[at + 2..steps.len() - 3].to_vec()
}

#[test]
fn the_foot_shows_an_offer_where_the_subtotal_exceeds_the_items() {
    let mut orden = sample();
    orden.sub_total = 20000;
    orden.gastos_envio = 0;
    let mut expected = pair("Subtotal", "$20.000", 1600, 2000);
    expected.extend(pair("Descuento Oferta", "$2.500", 1600, 1000));
    expected.extend(pair("Total", "$20.000", 1600, 1000));
    assert_eq!(foot(&orden), expected);
}

#[test]
fn a_coupon_on_the_delivery_fee_comes_after_the_fee() {
    let mut orden = sample();
    orden.dscto_cupon_gasto_envio = 700;
    orden.dscto_cupon_subtotal = 300;
    orden.dscto_puntos = 50;
    orden.cupones =
        Some(vec![Cupon { codigo: "ENVIO7".to_string() }, Cupon { codigo: "X".to_string() }]);
    let mut expected = pair("Subtotal", "$5.000", 1600, 2000);
    expected.extend(pair("Despacho", "$1.000", 1600, 1000));
    expected.extend(pair("Descuento (ENVIO7)", "$700", 1600, 1000));
    expected.extend(pair("Total", "$6.700", 1600, 1000));
    assert_eq!(foot(&orden), expected);
}

#[test]
fn a_coupon_on_the_subtotal_comes_before_the_fee() {
    let mut orden = sample();
    orden.dscto_cupon_subtotal = 300;
    orden.dscto_puntos = 50;
    let mut expected = pair("Subtotal", "$5.000", 1600, 2000);
    expected.extend(pair("Descuento", "$300", 1600, 1000));
    expected.extend(pair("Despacho", "$1.000", 1600, 1000));
    expected.extend(pair("Total", "$6.300", 1600, 1000));
    assert_eq!(foot(&orden), expected);
}

#[test]
fn points_are_shown_where_no_coupon_applies() {
    let mut orden = sample();
    orden.dscto_puntos = 50;
    orden.gastos_envio = 0;
    let mut expected = pair("Subtotal", "$5.000", 1600, 2000);
    expected.extend(pair("Puntos", "$50", 1600, 1000));
    expected.extend(pair("Total", "$5.050", 1600, 1000));
    assert_eq!(foot(&orden), expected);
    orden.dscto_puntos = -50;
    let mut expected = pair("Subtotal", "$5.000", 1600, 2000);
    expected.extend(pair("Total", "$4.950", 1600, 1000));
    assert_eq!(foot(&orden), expected);
}

#[test]
fn the_cost_of_the_items_is_price_times_quantity() {
    let orden = sample();
    assert_eq!(items_cost(&orden.items), 17500);
    assert_eq!(items_cost(&Vec::new()), 0);
    let big = Item {
        cantidad: 70000,
        nombre: "x".to_string(),
        precio: 70000,
        opciones: None,
        comentario: None,
    };
    let negative = Item { cantidad: -70000, ..big.clone() };
    assert_eq!(items_cost(&vec![big.clone()]), 2147483647);
    assert_eq!(items_cost(&vec![negative.clone()]), -2147483648);
    assert_eq!(items_cost(&vec![big.clone(), big, negative]), 2147483646);
}

#[test]
fn an_order_that_lacks_a_field_is_not_complete() {
    assert!(is_complete(&sample()));
    let mut o = sample();
    o.comercio.nombre = None;
    assert!(!is_complete(&o));
    assert_eq!(try_pdf(&o), None);
    let mut o = sample();
    o.plataforma.nombre = None;
    assert!(!is_complete(&o));
    let mut o = sample();
    o.cliente.nombre = None;
    assert!(!is_complete(&o));
    let mut o = sample();
    o.comentario = None;
    assert!(!is_complete(&o));
    let mut o = sample();
    o.pago.medio_pago.nombre = None;
    assert!(!is_complete(&o));
    let mut o = sample();
    o.drop_off = None;
    assert!(!is_complete(&o));
    let mut o = sample();
    o.drop_off = Some(DropOff { tipo_entrega: None, direccion: Some("x".to_string()) });
    assert!(!is_complete(&o));
    let mut o = sample();
    o.drop_off = Some(DropOff { tipo_entrega: Some("x".to_string()), direccion: None });
    assert!(!is_complete(&o));
    let mut o = sample();
    o.tipo_entrega = TipoEntrega { id: 2 };
    o.sucursal = None;
    assert!(!is_complete(&o));
    let mut o = sample();
    o.tipo_entrega = TipoEntrega { id: 2 };
    o.sucursal = Some(Sucursal { nombre: None });
    assert!(!is_complete(&o));
    let mut o = sample();
    o.sucursal = None;
    assert!(is_complete(&o));
    let mut o = sample();
    o.items[1].opciones = None;
    assert!(!is_complete(&o));
    let mut o = sample();
    o.items[0].comentario = None;
    assert!(!is_complete(&o));
    assert_eq!(try_pdf(&o), None);
}

#[test]
fn a_coupon_discount_needs_a_coupon() {
    let mut o = sample();
    o.dscto_cupon_gasto_envio = 10;
    assert!(!is_complete(&o));
    o.cupones = Some(Vec::new());
    assert!(!is_complete(&o));
    o.cupones = Some(vec![Cupon { codigo: "A".to_string() }]);
    assert!(is_complete(&o));
    let mut o = sample();
    o.dscto_cupon_subtotal = 10;
    assert!(is_complete(&o));
}

#[test]
fn an_order_needs_timestamps_that_can_be_read() {
    let mut o = sample();
    o.fechas.fecha_pago = "ayer".to_string();
    assert!(!is_complete(&o));
    let mut o = sample();
    o.fechas.fecha_entrega_min = "2024-12-25".to_string();
    assert!(!is_complete(&o));
    let mut o = sample();
    o.fechas.fecha_salida_cocina_estimada = "".to_string();
    assert!(!is_complete(&o));
    let mut o = sample();
    o.fechas.tz = "".to_string();
    assert!(is_complete(&o));
}

#[test]
fn an_order_needs_amounts_within_thirty_two_bits() {
    let mut o = sample();
    o.sub_total = i32::MAX;
    o.gastos_envio = 1;
    assert!(!is_complete(&o));
    o.gastos_envio = 0;
    assert!(is_complete(&o));
    o.dscto_puntos = -5;
    assert!(is_complete(&o));
    let mut o = sample();
    o.sub_total = i32::MIN;
    o.gastos_envio = -1;
    assert!(!is_complete(&o));
    let mut o = sample();
    o.sub_total = i32::MAX;
    o.gastos_envio = 0;
    o.items[0].cantidad = -1;
    assert!(is_complete(&o));
    o.items[1].cantidad = -5;
    assert!(!is_complete(&o));
}
