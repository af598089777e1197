use vstd::prelude::*;

verus! {

/// No flow control.
pub const UART_CFG_FLOW_CTRL_NONE: u8 = 0;

/// RTS/CTS flow control.
pub const UART_CFG_FLOW_CTRL_RTS_CTS: u8 = 1;

/// DTR/DSR flow control.
pub const UART_CFG_FLOW_CTRL_DTR_DSR: u8 = 2;

/// Line settings of a serial port.
#[derive(Clone, Copy, Debug, PartialEq, Eq, Structural)]
pub struct UartConfig {
    pub baudrate: u32,
    pub parity: u8,
    pub stop_bits: u8,
    pub data_bits: u8,
    pub flow_ctrl: u8,
}

impl UartConfig {
    pub fn set_flow_control_rts_cts(&mut self)
        ensures
            *final(self) == (UartConfig { flow_ctrl: UART_CFG_FLOW_CTRL_RTS_CTS, ..*old(self) }),
    {
        self.flow_ctrl = UART_CFG_FLOW_CTRL_RTS_CTS;
    }

    pub fn set_flow_control_dtr_dsr(&mut self)
        ensures
            *final(self) == (UartConfig { flow_ctrl: UART_CFG_FLOW_CTRL_DTR_DSR, ..*old(self) }),
    {
        self.flow_ctrl = UART_CFG_FLOW_CTRL_DTR_DSR;
    }

    pub fn disable_flow_control(&mut self)
        ensures
            *final(self) == (UartConfig { flow_ctrl: UART_CFG_FLOW_CTRL_NONE, ..*old(self) }),
    {
        self.flow_ctrl = UART_CFG_FLOW_CTRL_NONE;
    }

    pub fn get_baud_rate(&self) -> (r: u32)
        ensures
            r == self.baudrate,
    {
        self.baudrate
    }

    pub fn set_baud_rate(&mut self, baud_rate: u32)
        ensures
            *final(self) == (UartConfig { baudrate: baud_rate, ..*old(self) }),
    {
        self.baudrate = baud_rate;
    }

    pub fn get_stop_bits(&self) -> (r: u8)
        ensures
            r == self.stop_bits,
    {
        self.stop_bits
    }

    pub fn set_stop_bits(&mut self, stop_bits: u8)
        ensures
            *final(self) == (UartConfig { stop_bits, ..*old(self) }),
    {
        self.stop_bits = stop_bits;
    }

    pub fn get_data_bits(&self) -> (r: u8)
        ensures
            r == self.data_bits,
    {
        self.data_bits
    }

    pub fn set_data_bits(&mut self, data_bits: u8)
        ensures
            *final(self) == (UartConfig { data_bits, ..*old(self) }),
    {
        self.data_bits = data_bits;
    }
}

impl Default for UartConfig {
    fn default() -> (r: UartConfig)
        ensures
            r == (UartConfig { baudrate: 0, parity: 0, stop_bits: 0, data_bits: 0, flow_ctrl: 0 }),
    {
        UartConfig { baudrate: 0, parity: 0, stop_bits: 0, data_bits: 0, flow_ctrl: 0 }
    }
}

} // verus!
