use labwired::pad_routes::{
    rp2040_i2c_pad_routes, rp2040_uart_pad_routes, stm32_i2c_pad_routes, stm32_spi_pad_routes,
    stm32_uart_pad_routes, GpioLayout, I2cLine, SpiSignal, UartLine,
};

#[test]
fn rp2040_uart_pads_follow_the_funcsel_table() {
    let uart0: Vec<(u8, UartLine, &str)> =
        rp2040_uart_pad_routes(0).iter().map(|r| (r.pad, r.line, r.func)).collect();
    assert_eq!(
        uart0,
        vec![
            (0, UartLine::Tx, "UART0_TX"),
            (1, UartLine::Rx, "UART0_RX"),
            (12, UartLine::Tx, "UART0_TX"),
            (13, UartLine::Rx, "UART0_RX"),
            (16, UartLine::Tx, "UART0_TX"),
            (17, UartLine::Rx, "UART0_RX"),
            (28, UartLine::Tx, "UART0_TX"),
            (29, UartLine::Rx, "UART0_RX"),
        ]
    );
    let uart1: Vec<u8> = rp2040_uart_pad_routes(1).iter().map(|r| r.pad).collect();
    assert_eq!(uart1, vec![4, 5, 8, 9, 20, 21, 24, 25], "GP8/GP9 belong to UART1");
    assert!(rp2040_uart_pad_routes(1).iter().all(|r| r.func.starts_with("UART1_")));
    assert!(rp2040_uart_pad_routes(2).is_empty());
}

#[test]
fn stm32_spi_routes_per_family() {
    let l4_b: Vec<(u8, Option<u8>, SpiSignal, &str)> = stm32_spi_pad_routes(3, 'b', GpioLayout::Stm32V2, true)
        .iter()
        .map(|r| (r.pin, r.af, r.signal, r.func))
        .collect();
    assert_eq!(
        l4_b,
        vec![
            (3, Some(6), SpiSignal::Sck, "SPI3_SCK"),
            (4, Some(6), SpiSignal::Miso, "SPI3_MISO"),
            (5, Some(6), SpiSignal::Mosi, "SPI3_MOSI"),
        ]
    );
    assert!(
        stm32_spi_pad_routes(3, 'b', GpioLayout::Stm32V2, false).is_empty(),
        "the F4 parts have no SPI3 routes"
    );
    assert_eq!(stm32_spi_pad_routes(1, 'e', GpioLayout::Stm32V2, true).len(), 3);
    assert!(stm32_spi_pad_routes(1, 'e', GpioLayout::Stm32V2, false).is_empty());
    let spi2_b: Vec<u8> = stm32_spi_pad_routes(2, 'b', GpioLayout::Stm32V2, false)
        .iter()
        .map(|r| r.pin)
        .collect();
    assert_eq!(spi2_b, vec![10, 13, 14, 15]);

    let f1: Vec<(u8, Option<u8>, SpiSignal, &str)> = stm32_spi_pad_routes(1, 'a', GpioLayout::Stm32F1, false)
        .iter()
        .map(|r| (r.pin, r.af, r.signal, r.func))
        .collect();
    assert_eq!(
        f1,
        vec![(5, None, SpiSignal::Sck, "SPI1_SCK"), (7, None, SpiSignal::Mosi, "SPI1_MOSI")],
        "F1 MISO is an input and is not routed"
    );
    assert!(stm32_spi_pad_routes(1, 'a', GpioLayout::Other, true).is_empty());
}

#[test]
fn rp2040_i2c_pads_alternate_every_two_pads() {
    let i2c0: Vec<(u8, I2cLine, &str)> =
        rp2040_i2c_pad_routes(0).iter().map(|r| (r.pad, r.line, r.func)).collect();
    assert_eq!(
        &i2c0[..4],
        &[
            (0, I2cLine::Sda, "I2C0_SDA"),
            (1, I2cLine::Scl, "I2C0_SCL"),
            (4, I2cLine::Sda, "I2C0_SDA"),
            (5, I2cLine::Scl, "I2C0_SCL"),
        ]
    );
    assert_eq!(i2c0.len(), 16);
    let i2c1: Vec<u8> = rp2040_i2c_pad_routes(1).iter().map(|r| r.pad).collect();
    assert_eq!(i2c1, vec![2, 3, 6, 7, 10, 11, 14, 15, 18, 19, 22, 23, 26, 27]);
    assert!(rp2040_i2c_pad_routes(2).is_empty());
}

#[test]
fn stm32_i2c_and_usart_routes_on_v2_ports() {
    let i2c2_f: Vec<(u8, u8, I2cLine, &str)> = stm32_i2c_pad_routes(2, 'f', GpioLayout::Stm32V2)
        .iter()
        .map(|r| (r.pin, r.af, r.line, r.func))
        .collect();
    assert_eq!(i2c2_f, vec![(0, 4, I2cLine::Sda, "I2C2_SDA"), (1, 4, I2cLine::Scl, "I2C2_SCL")]);
    assert!(stm32_i2c_pad_routes(1, 'b', GpioLayout::Stm32F1).is_empty());
    let usart3_c: Vec<(u8, u8, UartLine, &str)> = stm32_uart_pad_routes(3, 'c', GpioLayout::Stm32V2)
        .iter()
        .map(|r| (r.pin, r.af, r.line, r.func))
        .collect();
    assert_eq!(
        usart3_c,
        vec![
            (4, 7, UartLine::Tx, "USART3_TX"),
            (5, 7, UartLine::Rx, "USART3_RX"),
            (10, 7, UartLine::Tx, "USART3_TX"),
            (11, 7, UartLine::Rx, "USART3_RX"),
        ]
    );
    assert!(stm32_uart_pad_routes(2, 'b', GpioLayout::Stm32V2).is_empty());
    assert!(stm32_uart_pad_routes(2, 'a', GpioLayout::Other).is_empty());
}
