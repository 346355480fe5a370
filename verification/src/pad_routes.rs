//! Which pads can carry which controller signal, from the parts' static
//! alternate-function tables.
//!
//! * RP2040 UARTs: the `GPIOn_CTRL.FUNCSEL` UART pads. They are not derivable
//!   by a rule: GP0–GP7 alternate instance every four pads, but GP8/GP9 belong
//!   to UART1. CTS/RTS pads are left out.
//! * RP2040 I2C controllers: with `FUNCSEL = I2C` an even pad carries SDA and
//!   an odd one SCL, and the instance alternates every two pads.
//! * STM32 SPI controllers: on V2 GPIO ports the L4 table (FIFO SPI; SPI1/2 on
//!   AF5, SPI3 on AF6) or the F4 table (classic SPI; SPI1/2 on AF5); on F1
//!   ports the default pinout without remap, SCK and MOSI only, with no AF
//!   number.
//! * STM32 I2C1-3 (AF4) and USART1-3 TX/RX (AF7), on V2 ports only.
//!
//! Each list is in table order; the bus binds the routes it returns.
use vstd::prelude::*;

verus! {

/// A UART wire.
#[derive(Clone, Copy, Debug, PartialEq, Eq)]
pub enum UartLine {
    Tx,
    Rx,
}

/// One RP2040 pad a UART wire can be routed to.
#[derive(Clone, Copy, Debug, PartialEq, Eq)]
pub struct UartPadRoute {
    pub pad: u8,
    pub line: UartLine,
    /// The `FUNCSEL` function name, e.g. `"UART0_TX"`.
    pub func: &'static str,
}

/// `(pad, uart instance, line)` for every UART pad of the RP2040.
pub open spec fn rp2040_uart_table() -> Seq<(u8, usize, UartLine)> {
    seq![
        (0u8, 0usize, UartLine::Tx),
        (1u8, 0usize, UartLine::Rx),
        (4u8, 1usize, UartLine::Tx),
        (5u8, 1usize, UartLine::Rx),
        (8u8, 1usize, UartLine::Tx),
        (9u8, 1usize, UartLine::Rx),
        (12u8, 0usize, UartLine::Tx),
        (13u8, 0usize, UartLine::Rx),
        (16u8, 0usize, UartLine::Tx),
        (17u8, 0usize, UartLine::Rx),
        (20u8, 1usize, UartLine::Tx),
        (21u8, 1usize, UartLine::Rx),
        (24u8, 1usize, UartLine::Tx),
        (25u8, 1usize, UartLine::Rx),
        (28u8, 0usize, UartLine::Tx),
        (29u8, 0usize, UartLine::Rx),
    ]
}

/// The pads and lines of UART `instance`, in table order.
pub open spec fn uart_pads_of(t: Seq<(u8, usize, UartLine)>, instance: usize) -> Seq<(u8, UartLine)>
    decreases t.len(),
{
    if t.len() == 0 {
        Seq::empty()
    } else {
        let rest = uart_pads_of(t.drop_last(), instance);
        if t.last().1 == instance {
            rest.push((t.last().0, t.last().2))
        } else {
            rest
        }
    }
}

/// The function name of a UART wire.
pub open spec fn uart_func_text(instance: usize, line: UartLine) -> Seq<char> {
    match (instance == 0, line) {
        (true, UartLine::Tx) => "UART0_TX"@,
        (true, UartLine::Rx) => "UART0_RX"@,
        (false, UartLine::Tx) => "UART1_TX"@,
        (false, UartLine::Rx) => "UART1_RX"@,
    }
}

fn rp2040_uart_pads() -> (r: Vec<(u8, usize, UartLine)>)
    ensures
        r@ == rp2040_uart_table(),
{
    let mut t: Vec<(u8, usize, UartLine)> = Vec::new();
    t.push((0, 0, UartLine::Tx));
    t.push((1, 0, UartLine::Rx));
    t.push((4, 1, UartLine::Tx));
    t.push((5, 1, UartLine::Rx));
    t.push((8, 1, UartLine::Tx));
    t.push((9, 1, UartLine::Rx));
    t.push((12, 0, UartLine::Tx));
    t.push((13, 0, UartLine::Rx));
    t.push((16, 0, UartLine::Tx));
    t.push((17, 0, UartLine::Rx));
    t.push((20, 1, UartLine::Tx));
    t.push((21, 1, UartLine::Rx));
    t.push((24, 1, UartLine::Tx));
    t.push((25, 1, UartLine::Rx));
    t.push((28, 0, UartLine::Tx));
    t.push((29, 0, UartLine::Rx));
    assert(t@ =~= rp2040_uart_table());
    t
}

fn uart_func(instance: usize, line: UartLine) -> (r: &'static str)
    ensures
        r@ == uart_func_text(instance, line),
{
    match (instance == 0, line) {
        (true, UartLine::Tx) => "UART0_TX",
        (true, UartLine::Rx) => "UART0_RX",
        (false, UartLine::Tx) => "UART1_TX",
        (false, UartLine::Rx) => "UART1_RX",
    }
}

/// The pads UART `instance` of the RP2040 can be routed to, in table order,
/// with their function names; none for an instance the part lacks.
pub fn rp2040_uart_pad_routes(instance: usize) -> (r: Vec<UartPadRoute>)
    ensures
        r@.len() == uart_pads_of(rp2040_uart_table(), instance).len(),
        forall|k: int|
            0 <= k < r@.len() ==> {
                &&& (#[trigger] r@[k]).pad == uart_pads_of(rp2040_uart_table(), instance)[k].0
                &&& r@[k].line == uart_pads_of(rp2040_uart_table(), instance)[k].1
                &&& r@[k].func@ == uart_func_text(instance, r@[k].line)
            },
{
    let table = rp2040_uart_pads();
    let mut out: Vec<UartPadRoute> = Vec::new();
    let mut i: usize = 0;
    while i < table.len()
        invariant
            0 <= i <= table@.len(),
            table@ == rp2040_uart_table(),
            out@.len() == uart_pads_of(table@.take(i as int), instance).len(),
            forall|k: int|
                0 <= k < out@.len() ==> {
                    &&& (#[trigger] out@[k]).pad == uart_pads_of(table@.take(i as int), instance)[k].0
                    &&& out@[k].line == uart_pads_of(table@.take(i as int), instance)[k].1
                    &&& out@[k].func@ == uart_func_text(instance, out@[k].line)
                },
        decreases table@.len() - i,
    {
        assert(table@.take(i + 1).drop_last() =~= table@.take(i as int));
        let (pad, inst, line) = table[i];
        if inst == instance {
            out.push(UartPadRoute { pad, line, func: uart_func(instance, line) });
        }
        i = i + 1;
    }
    assert(table@.take(table@.len() as int) =~= table@);
    out
}


/// An SPI wire.
#[derive(Clone, Copy, Debug, PartialEq, Eq)]
pub enum SpiSignal {
    Sck,
    Miso,
    Mosi,
}

/// How a GPIO port selects alternate functions.
#[derive(Clone, Copy, Debug, PartialEq, Eq)]
pub enum GpioLayout {
    /// `MODER`/`AFR` ports (L4, F4).
    Stm32V2,
    /// `CRL`/`CRH` ports (F1).
    Stm32F1,
    /// Any other port: no SPI routes.
    Other,
}

/// One STM32 pad an SPI wire can be routed to.
#[derive(Clone, Copy, Debug, PartialEq, Eq)]
pub struct SpiPadRoute {
    pub pin: u8,
    /// The alternate function number, on V2 ports.
    pub af: Option<u8>,
    pub signal: SpiSignal,
    /// The signal name, e.g. `"SPI1_SCK"`.
    pub func: &'static str,
}

/// `(spi instance, port, pin, AF, signal)` of the L4 parts.
pub open spec fn l4_spi_table() -> Seq<(u8, char, u8, u8, SpiSignal)> {
    seq![
        (1u8, 'a', 5u8, 5u8, SpiSignal::Sck),
        (1u8, 'a', 6u8, 5u8, SpiSignal::Miso),
        (1u8, 'a', 7u8, 5u8, SpiSignal::Mosi),
        (1u8, 'b', 3u8, 5u8, SpiSignal::Sck),
        (1u8, 'b', 4u8, 5u8, SpiSignal::Miso),
        (1u8, 'b', 5u8, 5u8, SpiSignal::Mosi),
        (1u8, 'e', 13u8, 5u8, SpiSignal::Sck),
        (1u8, 'e', 14u8, 5u8, SpiSignal::Miso),
        (1u8, 'e', 15u8, 5u8, SpiSignal::Mosi),
        (2u8, 'b', 10u8, 5u8, SpiSignal::Sck),
        (2u8, 'b', 13u8, 5u8, SpiSignal::Sck),
        (2u8, 'b', 14u8, 5u8, SpiSignal::Miso),
        (2u8, 'b', 15u8, 5u8, SpiSignal::Mosi),
        (2u8, 'c', 2u8, 5u8, SpiSignal::Miso),
        (2u8, 'c', 3u8, 5u8, SpiSignal::Mosi),
        (2u8, 'd', 1u8, 5u8, SpiSignal::Sck),
        (2u8, 'd', 3u8, 5u8, SpiSignal::Miso),
        (2u8, 'd', 4u8, 5u8, SpiSignal::Mosi),
        (3u8, 'b', 3u8, 6u8, SpiSignal::Sck),
        (3u8, 'b', 4u8, 6u8, SpiSignal::Miso),
        (3u8, 'b', 5u8, 6u8, SpiSignal::Mosi),
        (3u8, 'c', 10u8, 6u8, SpiSignal::Sck),
        (3u8, 'c', 11u8, 6u8, SpiSignal::Miso),
        (3u8, 'c', 12u8, 6u8, SpiSignal::Mosi),
    ]
}

/// `(spi instance, port, pin, AF, signal)` of the F4 parts.
pub open spec fn f4_spi_table() -> Seq<(u8, char, u8, u8, SpiSignal)> {
    seq![
        (1u8, 'a', 5u8, 5u8, SpiSignal::Sck),
        (1u8, 'a', 6u8, 5u8, SpiSignal::Miso),
        (1u8, 'a', 7u8, 5u8, SpiSignal::Mosi),
        (1u8, 'b', 3u8, 5u8, SpiSignal::Sck),
        (1u8, 'b', 4u8, 5u8, SpiSignal::Miso),
        (1u8, 'b', 5u8, 5u8, SpiSignal::Mosi),
        (2u8, 'b', 10u8, 5u8, SpiSignal::Sck),
        (2u8, 'b', 13u8, 5u8, SpiSignal::Sck),
        (2u8, 'b', 14u8, 5u8, SpiSignal::Miso),
        (2u8, 'b', 15u8, 5u8, SpiSignal::Mosi),
        (2u8, 'c', 2u8, 5u8, SpiSignal::Miso),
        (2u8, 'c', 3u8, 5u8, SpiSignal::Mosi),
    ]
}

/// `(spi instance, port, pin, -, signal)` of the F1 default pinout.
pub open spec fn f1_spi_table() -> Seq<(u8, char, u8, u8, SpiSignal)> {
    seq![
        (1u8, 'a', 5u8, 0u8, SpiSignal::Sck),
        (1u8, 'a', 7u8, 0u8, SpiSignal::Mosi),
        (2u8, 'b', 13u8, 0u8, SpiSignal::Sck),
        (2u8, 'b', 15u8, 0u8, SpiSignal::Mosi),
    ]
}

/// The `(pin, AF, signal)` entries of table `t` for controller `spi` on
/// port `port`, in table order.
pub open spec fn spi_pins_of(t: Seq<(u8, char, u8, u8, SpiSignal)>, spi: u8, port: char) -> Seq<
    (u8, u8, SpiSignal),
>
    decreases t.len(),
{
    if t.len() == 0 {
        Seq::empty()
    } else {
        let rest = spi_pins_of(t.drop_last(), spi, port);
        let e = t.last();
        if e.0 == spi && e.1 == port {
            rest.push((e.2, e.3, e.4))
        } else {
            rest
        }
    }
}

/// The routes of SPI controller `spi` (1 to 3) onto port `port`: the L4 table
/// for a FIFO controller or the F4 table otherwise on V2 ports, with AF
/// numbers; the F1 table on F1 ports, without; none on other ports.
pub open spec fn stm32_spi_routes(spi: u8, port: char, layout: GpioLayout, fifo: bool) -> Seq<
    (u8, Option<u8>, SpiSignal),
> {
    match layout {
        GpioLayout::Stm32V2 => spi_pins_of(
            if fifo {
                l4_spi_table()
            } else {
                f4_spi_table()
            },
            spi,
            port,
        ).map_values(|e: (u8, u8, SpiSignal)| (e.0, Some(e.1), e.2)),
        GpioLayout::Stm32F1 => spi_pins_of(f1_spi_table(), spi, port).map_values(
            |e: (u8, u8, SpiSignal)| (e.0, None, e.2),
        ),
        GpioLayout::Other => Seq::empty(),
    }
}

/// The signal name of wire `signal` of controller `spi`.
pub open spec fn spi_func_text(spi: u8, signal: SpiSignal) -> Seq<char> {
    match (spi, signal) {
        (1, SpiSignal::Sck) => "SPI1_SCK"@,
        (1, SpiSignal::Miso) => "SPI1_MISO"@,
        (1, SpiSignal::Mosi) => "SPI1_MOSI"@,
        (2, SpiSignal::Sck) => "SPI2_SCK"@,
        (2, SpiSignal::Miso) => "SPI2_MISO"@,
        (2, SpiSignal::Mosi) => "SPI2_MOSI"@,
        (_, SpiSignal::Sck) => "SPI3_SCK"@,
        (_, SpiSignal::Miso) => "SPI3_MISO"@,
        (_, SpiSignal::Mosi) => "SPI3_MOSI"@,
    }
}

fn spi_func(spi: u8, signal: SpiSignal) -> (r: &'static str)
    ensures
        r@ == spi_func_text(spi, signal),
{
    match (spi, signal) {
        (1, SpiSignal::Sck) => "SPI1_SCK",
        (1, SpiSignal::Miso) => "SPI1_MISO",
        (1, SpiSignal::Mosi) => "SPI1_MOSI",
        (2, SpiSignal::Sck) => "SPI2_SCK",
        (2, SpiSignal::Miso) => "SPI2_MISO",
        (2, SpiSignal::Mosi) => "SPI2_MOSI",
        (_, SpiSignal::Sck) => "SPI3_SCK",
        (_, SpiSignal::Miso) => "SPI3_MISO",
        (_, SpiSignal::Mosi) => "SPI3_MOSI",
    }
}

fn l4_spi_pads() -> (r: Vec<(u8, char, u8, u8, SpiSignal)>)
    ensures
        r@ == l4_spi_table(),
{
    let mut t: Vec<(u8, char, u8, u8, SpiSignal)> = Vec::new();
    t.push((1, 'a', 5, 5, SpiSignal::Sck));
    t.push((1, 'a', 6, 5, SpiSignal::Miso));
    t.push((1, 'a', 7, 5, SpiSignal::Mosi));
    t.push((1, 'b', 3, 5, SpiSignal::Sck));
    t.push((1, 'b', 4, 5, SpiSignal::Miso));
    t.push((1, 'b', 5, 5, SpiSignal::Mosi));
    t.push((1, 'e', 13, 5, SpiSignal::Sck));
    t.push((1, 'e', 14, 5, SpiSignal::Miso));
    t.push((1, 'e', 15, 5, SpiSignal::Mosi));
    t.push((2, 'b', 10, 5, SpiSignal::Sck));
    t.push((2, 'b', 13, 5, SpiSignal::Sck));
    t.push((2, 'b', 14, 5, SpiSignal::Miso));
    t.push((2, 'b', 15, 5, SpiSignal::Mosi));
    t.push((2, 'c', 2, 5, SpiSignal::Miso));
    t.push((2, 'c', 3, 5, SpiSignal::Mosi));
    t.push((2, 'd', 1, 5, SpiSignal::Sck));
    t.push((2, 'd', 3, 5, SpiSignal::Miso));
    t.push((2, 'd', 4, 5, SpiSignal::Mosi));
    t.push((3, 'b', 3, 6, SpiSignal::Sck));
    t.push((3, 'b', 4, 6, SpiSignal::Miso));
    t.push((3, 'b', 5, 6, SpiSignal::Mosi));
    t.push((3, 'c', 10, 6, SpiSignal::Sck));
    t.push((3, 'c', 11, 6, SpiSignal::Miso));
    t.push((3, 'c', 12, 6, SpiSignal::Mosi));
    assert(t@ =~= l4_spi_table());
    t
}

fn f4_spi_pads() -> (r: Vec<(u8, char, u8, u8, SpiSignal)>)
    ensures
        r@ == f4_spi_table(),
{
    let mut t: Vec<(u8, char, u8, u8, SpiSignal)> = Vec::new();
    t.push((1, 'a', 5, 5, SpiSignal::Sck));
    t.push((1, 'a', 6, 5, SpiSignal::Miso));
    t.push((1, 'a', 7, 5, SpiSignal::Mosi));
    t.push((1, 'b', 3, 5, SpiSignal::Sck));
    t.push((1, 'b', 4, 5, SpiSignal::Miso));
    t.push((1, 'b', 5, 5, SpiSignal::Mosi));
    t.push((2, 'b', 10, 5, SpiSignal::Sck));
    t.push((2, 'b', 13, 5, SpiSignal::Sck));
    t.push((2, 'b', 14, 5, SpiSignal::Miso));
    t.push((2, 'b', 15, 5, SpiSignal::Mosi));
    t.push((2, 'c', 2, 5, SpiSignal::Miso));
    t.push((2, 'c', 3, 5, SpiSignal::Mosi));
    assert(t@ =~= f4_spi_table());
    t
}

fn f1_spi_pads() -> (r: Vec<(u8, char, u8, u8, SpiSignal)>)
    ensures
        r@ == f1_spi_table(),
{
    let mut t: Vec<(u8, char, u8, u8, SpiSignal)> = Vec::new();
    t.push((1, 'a', 5, 0, SpiSignal::Sck));
    t.push((1, 'a', 7, 0, SpiSignal::Mosi));
    t.push((2, 'b', 13, 0, SpiSignal::Sck));
    t.push((2, 'b', 15, 0, SpiSignal::Mosi));
    assert(t@ =~= f1_spi_table());
    t
}

/// The routes of SPI controller `spi` (1 to 3) onto GPIO port `port`
/// (`'a'` to `'h'`) laid out as `layout`, in table order (see
/// [`stm32_spi_routes`]), each with its signal name.
pub fn stm32_spi_pad_routes(spi: u8, port: char, layout: GpioLayout, fifo: bool) -> (r: Vec<
    SpiPadRoute,
>)
    ensures
        r@.len() == stm32_spi_routes(spi, port, layout, fifo).len(),
        forall|k: int|
            0 <= k < r@.len() ==> {
                &&& (#[trigger] r@[k]).pin == stm32_spi_routes(spi, port, layout, fifo)[k].0
                &&& r@[k].af == stm32_spi_routes(spi, port, layout, fifo)[k].1
                &&& r@[k].signal == stm32_spi_routes(spi, port, layout, fifo)[k].2
                &&& r@[k].func@ == spi_func_text(spi, r@[k].signal)
            },
{
    let (table, v2) = match layout {
        GpioLayout::Stm32V2 => (
            if fifo {
                l4_spi_pads()
            } else {
                f4_spi_pads()
            },
            true,
        ),
        GpioLayout::Stm32F1 => (f1_spi_pads(), false),
        GpioLayout::Other => return Vec::new(),
    };
    let mut out: Vec<SpiPadRoute> = Vec::new();
    let mut i: usize = 0;
    while i < table.len()
        invariant
            0 <= i <= table@.len(),
            layout != GpioLayout::Other,
            v2 == (layout == GpioLayout::Stm32V2),
            table@ == match layout {
                GpioLayout::Stm32V2 => if fifo {
                    l4_spi_table()
                } else {
                    f4_spi_table()
                },
                _ => f1_spi_table(),
            },
            out@.len() == spi_pins_of(table@.take(i as int), spi, port).len(),
            forall|k: int|
                0 <= k < out@.len() ==> {
                    &&& (#[trigger] out@[k]).pin == spi_pins_of(table@.take(i as int), spi, port)[k].0
                    &&& out@[k].af == (if v2 {
                        Some(spi_pins_of(table@.take(i as int), spi, port)[k].1)
                    } else {
                        None
                    })
                    &&& out@[k].signal == spi_pins_of(table@.take(i as int), spi, port)[k].2
                    &&& out@[k].func@ == spi_func_text(spi, out@[k].signal)
                },
        decreases table@.len() - i,
    {
        assert(table@.take(i + 1).drop_last() =~= table@.take(i as int));
        let (s, p, pin, af, signal) = table[i];
        if s == spi && p == port {
            out.push(
                SpiPadRoute {
                    pin,
                    af: if v2 {
                        Some(af)
                    } else {
                        None
                    },
                    signal,
                    func: spi_func(spi, signal),
                },
            );
        }
        i = i + 1;
    }
    assert(table@.take(table@.len() as int) =~= table@);
    out
}


/// An I2C wire.
#[derive(Clone, Copy, Debug, PartialEq, Eq)]
pub enum I2cLine {
    Scl,
    Sda,
}

/// One pad an I2C wire can be routed to.
#[derive(Clone, Copy, Debug, PartialEq, Eq)]
pub struct I2cPadRoute {
    pub pad: u8,
    pub line: I2cLine,
    /// The function name, e.g. `"I2C0_SDA"`.
    pub func: &'static str,
}

/// The RP2040's GPIO pads.
pub const RP2040_PAD_COUNT: u8 = 30;

/// The RP2040 I2C pads of controller `instance` among pads `0 .. n`, in pad
/// order: pads `2k` and `2k + 1` belong to controller `k % 2`, even pads
/// carrying SDA and odd ones SCL.
pub open spec fn rp2040_i2c_pads(instance: usize, n: nat) -> Seq<(u8, I2cLine)>
    decreases n,
{
    if n == 0 {
        Seq::empty()
    } else {
        let pad = (n - 1) as nat;
        let rest = rp2040_i2c_pads(instance, pad);
        if (pad / 2) % 2 == instance {
            rest.push((pad as u8, if pad % 2 == 0 {
                I2cLine::Sda
            } else {
                I2cLine::Scl
            }))
        } else {
            rest
        }
    }
}

/// The function name of an RP2040 I2C wire.
pub open spec fn rp2040_i2c_func_text(instance: usize, line: I2cLine) -> Seq<char> {
    match (instance == 0, line) {
        (true, I2cLine::Sda) => "I2C0_SDA"@,
        (true, I2cLine::Scl) => "I2C0_SCL"@,
        (false, I2cLine::Sda) => "I2C1_SDA"@,
        (false, I2cLine::Scl) => "I2C1_SCL"@,
    }
}

fn rp2040_i2c_func(instance: usize, line: I2cLine) -> (r: &'static str)
    ensures
        r@ == rp2040_i2c_func_text(instance, line),
{
    match (instance == 0, line) {
        (true, I2cLine::Sda) => "I2C0_SDA",
        (true, I2cLine::Scl) => "I2C0_SCL",
        (false, I2cLine::Sda) => "I2C1_SDA",
        (false, I2cLine::Scl) => "I2C1_SCL",
    }
}

/// The pads I2C controller `instance` of the RP2040 can be routed to, in pad
/// order (see [`rp2040_i2c_pads`]), with their function names; none for an
/// instance the part lacks.
pub fn rp2040_i2c_pad_routes(instance: usize) -> (r: Vec<I2cPadRoute>)
    ensures
        r@.len() == rp2040_i2c_pads(instance, RP2040_PAD_COUNT as nat).len(),
        forall|k: int|
            0 <= k < r@.len() ==> {
                &&& (#[trigger] r@[k]).pad == rp2040_i2c_pads(instance, RP2040_PAD_COUNT as nat)[k].0
                &&& r@[k].line == rp2040_i2c_pads(instance, RP2040_PAD_COUNT as nat)[k].1
                &&& r@[k].func@ == rp2040_i2c_func_text(instance, r@[k].line)
            },
{
    let mut out: Vec<I2cPadRoute> = Vec::new();
    let mut pad: u8 = 0;
    while pad < RP2040_PAD_COUNT
        invariant
            pad <= RP2040_PAD_COUNT,
            out@.len() == rp2040_i2c_pads(instance, pad as nat).len(),
            forall|k: int|
                0 <= k < out@.len() ==> {
                    &&& (#[trigger] out@[k]).pad == rp2040_i2c_pads(instance, pad as nat)[k].0
                    &&& out@[k].line == rp2040_i2c_pads(instance, pad as nat)[k].1
                    &&& out@[k].func@ == rp2040_i2c_func_text(instance, out@[k].line)
                },
        decreases RP2040_PAD_COUNT - pad,
    {
        if ((pad / 2) % 2) as usize == instance {
            let line = if pad % 2 == 0 {
                I2cLine::Sda
            } else {
                I2cLine::Scl
            };
            out.push(I2cPadRoute { pad, line, func: rp2040_i2c_func(instance, line) });
        }
        pad = pad + 1;
    }
    out
}

/// The RP2040 I2C map: every routed pad carries SDA exactly when it is even,
/// and belongs to the controller its pair of pads alternates to.
pub proof fn lemma_rp2040_i2c_rule(instance: usize, n: nat, k: int)
    requires
        n <= 256,
        0 <= k < rp2040_i2c_pads(instance, n).len(),
    ensures
        ({
            let (pad, line) = rp2040_i2c_pads(instance, n)[k];
            &&& pad < n
            &&& (pad / 2) % 2 == instance
            &&& (line == I2cLine::Sda) == (pad % 2 == 0)
        }),
    decreases n,
{
    if n > 0 {
        let rest = rp2040_i2c_pads(instance, (n - 1) as nat);
        if k < rest.len() {
            lemma_rp2040_i2c_rule(instance, (n - 1) as nat, k);
        }
    }
}

/// `(controller, port, pin, AF, wire)` entries of an STM32 alternate-function
/// table, selected for one controller and port: `(pin, AF, wire)` in table
/// order.
pub open spec fn table_pins<L>(t: Seq<(u8, char, u8, u8, L)>, inst: u8, port: char) -> Seq<
    (u8, u8, L),
>
    decreases t.len(),
{
    if t.len() == 0 {
        Seq::empty()
    } else {
        let rest = table_pins(t.drop_last(), inst, port);
        let e = t.last();
        if e.0 == inst && e.1 == port {
            rest.push((e.2, e.3, e.4))
        } else {
            rest
        }
    }
}

fn select_pins<L: Copy>(t: &Vec<(u8, char, u8, u8, L)>, inst: u8, port: char) -> (r: Vec<(u8, u8, L)>)
    ensures
        r@ == table_pins(t@, inst, port),
{
    let mut out: Vec<(u8, u8, L)> = Vec::new();
    let mut i: usize = 0;
    while i < t.len()
        invariant
            0 <= i <= t@.len(),
            out@ == table_pins(t@.take(i as int), inst, port),
        decreases t@.len() - i,
    {
        assert(t@.take(i + 1).drop_last() =~= t@.take(i as int));
        let (n, p, pin, af, line) = t[i];
        if n == inst && p == port {
            out.push((pin, af, line));
        }
        i = i + 1;
    }
    assert(t@.take(t@.len() as int) =~= t@);
    out
}

/// `(i2c instance, port, pin, AF, line)` of the V2 parts.
pub open spec fn stm32_i2c_table() -> Seq<(u8, char, u8, u8, I2cLine)> {
    seq![
        (1u8, 'b', 6u8, 4u8, I2cLine::Scl),
        (1u8, 'b', 7u8, 4u8, I2cLine::Sda),
        (1u8, 'b', 8u8, 4u8, I2cLine::Scl),
        (1u8, 'b', 9u8, 4u8, I2cLine::Sda),
        (2u8, 'b', 10u8, 4u8, I2cLine::Scl),
        (2u8, 'b', 11u8, 4u8, I2cLine::Sda),
        (2u8, 'b', 13u8, 4u8, I2cLine::Scl),
        (2u8, 'b', 14u8, 4u8, I2cLine::Sda),
        (2u8, 'f', 0u8, 4u8, I2cLine::Sda),
        (2u8, 'f', 1u8, 4u8, I2cLine::Scl),
        (3u8, 'a', 7u8, 4u8, I2cLine::Scl),
        (3u8, 'b', 4u8, 4u8, I2cLine::Sda),
        (3u8, 'c', 0u8, 4u8, I2cLine::Scl),
        (3u8, 'c', 1u8, 4u8, I2cLine::Sda),
        (3u8, 'c', 9u8, 4u8, I2cLine::Sda),
    ]
}

/// `(usart instance, port, pin, AF, line)` of the V2 parts.
pub open spec fn stm32_uart_table() -> Seq<(u8, char, u8, u8, UartLine)> {
    seq![
        (1u8, 'a', 9u8, 7u8, UartLine::Tx),
        (1u8, 'a', 10u8, 7u8, UartLine::Rx),
        (1u8, 'b', 6u8, 7u8, UartLine::Tx),
        (1u8, 'b', 7u8, 7u8, UartLine::Rx),
        (1u8, 'g', 9u8, 7u8, UartLine::Tx),
        (1u8, 'g', 10u8, 7u8, UartLine::Rx),
        (2u8, 'a', 2u8, 7u8, UartLine::Tx),
        (2u8, 'a', 3u8, 7u8, UartLine::Rx),
        (2u8, 'd', 5u8, 7u8, UartLine::Tx),
        (2u8, 'd', 6u8, 7u8, UartLine::Rx),
        (3u8, 'b', 10u8, 7u8, UartLine::Tx),
        (3u8, 'b', 11u8, 7u8, UartLine::Rx),
        (3u8, 'c', 4u8, 7u8, UartLine::Tx),
        (3u8, 'c', 5u8, 7u8, UartLine::Rx),
        (3u8, 'c', 10u8, 7u8, UartLine::Tx),
        (3u8, 'c', 11u8, 7u8, UartLine::Rx),
        (3u8, 'd', 8u8, 7u8, UartLine::Tx),
        (3u8, 'd', 9u8, 7u8, UartLine::Rx),
    ]
}

fn stm32_i2c_pads() -> (r: Vec<(u8, char, u8, u8, I2cLine)>)
    ensures
        r@ == stm32_i2c_table(),
{
    let mut t: Vec<(u8, char, u8, u8, I2cLine)> = Vec::new();
    t.push((1, 'b', 6, 4, I2cLine::Scl));
    t.push((1, 'b', 7, 4, I2cLine::Sda));
    t.push((1, 'b', 8, 4, I2cLine::Scl));
    t.push((1, 'b', 9, 4, I2cLine::Sda));
    t.push((2, 'b', 10, 4, I2cLine::Scl));
    t.push((2, 'b', 11, 4, I2cLine::Sda));
    t.push((2, 'b', 13, 4, I2cLine::Scl));
    t.push((2, 'b', 14, 4, I2cLine::Sda));
    t.push((2, 'f', 0, 4, I2cLine::Sda));
    t.push((2, 'f', 1, 4, I2cLine::Scl));
    t.push((3, 'a', 7, 4, I2cLine::Scl));
    t.push((3, 'b', 4, 4, I2cLine::Sda));
    t.push((3, 'c', 0, 4, I2cLine::Scl));
    t.push((3, 'c', 1, 4, I2cLine::Sda));
    t.push((3, 'c', 9, 4, I2cLine::Sda));
    assert(t@ =~= stm32_i2c_table());
    t
}

fn stm32_uart_pads() -> (r: Vec<(u8, char, u8, u8, UartLine)>)
    ensures
        r@ == stm32_uart_table(),
{
    let mut t: Vec<(u8, char, u8, u8, UartLine)> = Vec::new();
    t.push((1, 'a', 9, 7, UartLine::Tx));
    t.push((1, 'a', 10, 7, UartLine::Rx));
    t.push((1, 'b', 6, 7, UartLine::Tx));
    t.push((1, 'b', 7, 7, UartLine::Rx));
    t.push((1, 'g', 9, 7, UartLine::Tx));
    t.push((1, 'g', 10, 7, UartLine::Rx));
    t.push((2, 'a', 2, 7, UartLine::Tx));
    t.push((2, 'a', 3, 7, UartLine::Rx));
    t.push((2, 'd', 5, 7, UartLine::Tx));
    t.push((2, 'd', 6, 7, UartLine::Rx));
    t.push((3, 'b', 10, 7, UartLine::Tx));
    t.push((3, 'b', 11, 7, UartLine::Rx));
    t.push((3, 'c', 4, 7, UartLine::Tx));
    t.push((3, 'c', 5, 7, UartLine::Rx));
    t.push((3, 'c', 10, 7, UartLine::Tx));
    t.push((3, 'c', 11, 7, UartLine::Rx));
    t.push((3, 'd', 8, 7, UartLine::Tx));
    t.push((3, 'd', 9, 7, UartLine::Rx));
    assert(t@ =~= stm32_uart_table());
    t
}

/// One STM32 pad an I2C or USART wire can be routed to.
#[derive(Clone, Copy, Debug, PartialEq, Eq)]
pub struct AfPadRoute<L> {
    pub pin: u8,
    pub af: u8,
    pub line: L,
    /// The signal name, e.g. `"I2C1_SCL"` or `"USART2_TX"`.
    pub func: &'static str,
}

/// The signal name of I2C controller `i2c`'s wire.
pub open spec fn stm32_i2c_func_text(i2c: u8, line: I2cLine) -> Seq<char> {
    match (i2c, line) {
        (1, I2cLine::Scl) => "I2C1_SCL"@,
        (1, I2cLine::Sda) => "I2C1_SDA"@,
        (2, I2cLine::Scl) => "I2C2_SCL"@,
        (2, I2cLine::Sda) => "I2C2_SDA"@,
        (_, I2cLine::Scl) => "I2C3_SCL"@,
        (_, I2cLine::Sda) => "I2C3_SDA"@,
    }
}

fn stm32_i2c_func(i2c: u8, line: I2cLine) -> (r: &'static str)
    ensures
        r@ == stm32_i2c_func_text(i2c, line),
{
    match (i2c, line) {
        (1, I2cLine::Scl) => "I2C1_SCL",
        (1, I2cLine::Sda) => "I2C1_SDA",
        (2, I2cLine::Scl) => "I2C2_SCL",
        (2, I2cLine::Sda) => "I2C2_SDA",
        (_, I2cLine::Scl) => "I2C3_SCL",
        (_, I2cLine::Sda) => "I2C3_SDA",
    }
}

/// The signal name of USART `usart`'s wire.
pub open spec fn stm32_uart_func_text(usart: u8, line: UartLine) -> Seq<char> {
    match (usart, line) {
        (1, UartLine::Tx) => "USART1_TX"@,
        (1, UartLine::Rx) => "USART1_RX"@,
        (2, UartLine::Tx) => "USART2_TX"@,
        (2, UartLine::Rx) => "USART2_RX"@,
        (_, UartLine::Tx) => "USART3_TX"@,
        (_, UartLine::Rx) => "USART3_RX"@,
    }
}

fn stm32_uart_func(usart: u8, line: UartLine) -> (r: &'static str)
    ensures
        r@ == stm32_uart_func_text(usart, line),
{
    match (usart, line) {
        (1, UartLine::Tx) => "USART1_TX",
        (1, UartLine::Rx) => "USART1_RX",
        (2, UartLine::Tx) => "USART2_TX",
        (2, UartLine::Rx) => "USART2_RX",
        (_, UartLine::Tx) => "USART3_TX",
        (_, UartLine::Rx) => "USART3_RX",
    }
}

/// The routes of STM32 I2C controller `i2c` (1 to 3) onto GPIO port `port`
/// laid out as `layout`: the V2 table's entries, in order, on V2 ports; none
/// on others.
pub fn stm32_i2c_pad_routes(i2c: u8, port: char, layout: GpioLayout) -> (r: Vec<AfPadRoute<I2cLine>>)
    ensures
        layout != GpioLayout::Stm32V2 ==> r@.len() == 0,
        layout == GpioLayout::Stm32V2 ==> {
            &&& r@.len() == table_pins(stm32_i2c_table(), i2c, port).len()
            &&& forall|k: int|
                0 <= k < r@.len() ==> {
                    &&& (#[trigger] r@[k]).pin == table_pins(stm32_i2c_table(), i2c, port)[k].0
                    &&& r@[k].af == table_pins(stm32_i2c_table(), i2c, port)[k].1
                    &&& r@[k].line == table_pins(stm32_i2c_table(), i2c, port)[k].2
                    &&& r@[k].func@ == stm32_i2c_func_text(i2c, r@[k].line)
                }
        },
{
    match layout {
        GpioLayout::Stm32V2 => {},
        _ => return Vec::new(),
    }
    let pins = select_pins(&stm32_i2c_pads(), i2c, port);
    let mut out: Vec<AfPadRoute<I2cLine>> = Vec::new();
    let mut i: usize = 0;
    while i < pins.len()
        invariant
            0 <= i <= pins@.len(),
            pins@ == table_pins(stm32_i2c_table(), i2c, port),
            out@.len() == i,
            forall|k: int|
                0 <= k < i ==> {
                    &&& (#[trigger] out@[k]).pin == pins@[k].0
                    &&& out@[k].af == pins@[k].1
                    &&& out@[k].line == pins@[k].2
                    &&& out@[k].func@ == stm32_i2c_func_text(i2c, out@[k].line)
                },
        decreases pins@.len() - i,
    {
        let (pin, af, line) = pins[i];
        out.push(AfPadRoute { pin, af, line, func: stm32_i2c_func(i2c, line) });
        i = i + 1;
    }
    out
}

/// The TX/RX routes of STM32 USART `usart` (1 to 3) onto GPIO port `port`
/// laid out as `layout`: the V2 table's entries, in order, on V2 ports; none
/// on others.
pub fn stm32_uart_pad_routes(usart: u8, port: char, layout: GpioLayout) -> (r: Vec<AfPadRoute<UartLine>>)
    ensures
        layout != GpioLayout::Stm32V2 ==> r@.len() == 0,
        layout == GpioLayout::Stm32V2 ==> {
            &&& r@.len() == table_pins(stm32_uart_table(), usart, port).len()
            &&& forall|k: int|
                0 <= k < r@.len() ==> {
                    &&& (#[trigger] r@[k]).pin == table_pins(stm32_uart_table(), usart, port)[k].0
                    &&& r@[k].af == table_pins(stm32_uart_table(), usart, port)[k].1
                    &&& r@[k].line == table_pins(stm32_uart_table(), usart, port)[k].2
                    &&& r@[k].func@ == stm32_uart_func_text(usart, r@[k].line)
                }
        },
{
    match layout {
        GpioLayout::Stm32V2 => {},
        _ => return Vec::new(),
    }
    let pins = select_pins(&stm32_uart_pads(), usart, port);
    let mut out: Vec<AfPadRoute<UartLine>> = Vec::new();
    let mut i: usize = 0;
    while i < pins.len()
        invariant
            0 <= i <= pins@.len(),
            pins@ == table_pins(stm32_uart_table(), usart, port),
            out@.len() == i,
            forall|k: int|
                0 <= k < i ==> {
                    &&& (#[trigger] out@[k]).pin == pins@[k].0
                    &&& out@[k].af == pins@[k].1
                    &&& out@[k].line == pins@[k].2
                    &&& out@[k].func@ == stm32_uart_func_text(usart, out@[k].line)
                },
        decreases pins@.len() - i,
    {
        let (pin, af, line) = pins[i];
        out.push(AfPadRoute { pin, af, line, func: stm32_uart_func(usart, line) });
        i = i + 1;
    }
    out
}

} // verus!
